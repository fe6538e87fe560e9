//! What a handler is told of each event of a pointer, and where the pointer then is.

use super::laws::run;
use super::pending::queued;
use super::pointer::{
    Axis, AxisScroll, AxisSource, ButtonState, Dispatched, Event, Meaning, PointerDataInner,
    PointerEvent, PointerEventKind, PointerModel, SurfaceId, BTN_BACK, BTN_EXTRA, BTN_FORWARD,
    BTN_LEFT, BTN_MIDDLE, BTN_RIGHT, BTN_SIDE, BTN_TASK,
};
use crate::wire::WEnum;
use vstd::prelude::*;

verus! {

/// What is known of a pointer is what its state holds.
pub proof fn lemma_state_is_what_is_known(data: PointerDataInner)
    ensures
        data@.surface == data.surface,
        data@.position == data.position,
        data@.pending == queued(data.pending),
{
}

/// What has to be done about an event is seen as it is: each warning with its value, and the events
/// to deliver one by one.
pub proof fn lemma_dispatched_is_seen_as_it_is(dispatched: Dispatched<Vec<PointerEvent>>)
    ensures
        dispatched matches Dispatched::Deliver(events) ==> dispatched@ == Dispatched::Deliver(
            events@,
        ),
        dispatched is Queued ==> dispatched@ is Queued,
        dispatched is EmptyFrame ==> dispatched@ is EmptyFrame,
        dispatched matches Dispatched::UnknownButtonState(unknown) ==> dispatched@ == Dispatched::<
            Seq<PointerEvent>,
        >::UnknownButtonState(unknown),
        dispatched matches Dispatched::UnknownAxis(unknown) ==> dispatched@ == Dispatched::<
            Seq<PointerEvent>,
        >::UnknownAxis(unknown),
        dispatched matches Dispatched::UnknownAxisSource(unknown) ==> dispatched@ == Dispatched::<
            Seq<PointerEvent>,
        >::UnknownAxisSource(unknown),
        dispatched matches Dispatched::NoSurface(kind) ==> dispatched@ == Dispatched::<
            Seq<PointerEvent>,
        >::NoSurface(kind),
{
}

/// A pointer starts on no surface, at the origin, with nothing pending.
pub proof fn lemma_a_pointer_starts_nowhere()
    ensures
        PointerModel::initial().surface is None,
        PointerModel::initial().position == (0i32, 0i32),
        PointerModel::initial().pending.len() == 0,
{
}

/// Entering a surface puts the pointer on it, and leaving the surface that it is on puts it on
/// none. Nothing else changes the surface.
pub proof fn lemma_surface_changes_by_enter_and_leave(
    pointer: PointerModel,
    version: u32,
    event: Event,
)
    ensures
        ({
            let after = pointer.after(version, event).surface;
            &&& event matches Event::Enter { surface, .. } ==> after == Some(surface)
            &&& event matches Event::Leave { surface, .. } ==> {
                &&& pointer.surface == Some(surface) ==> after is None
                &&& pointer.surface != Some(surface) ==> after == pointer.surface
            }
            &&& after != pointer.surface ==> event is Enter || event is Leave
        }),
{
}

/// Entering a surface and moving put the pointer where the event says. Nothing else moves it.
pub proof fn lemma_position_changes_by_enter_and_motion(
    pointer: PointerModel,
    version: u32,
    event: Event,
)
    ensures
        ({
            let after = pointer.after(version, event).position;
            &&& event matches Event::Enter { surface_x, surface_y, .. } ==> after == (
                surface_x,
                surface_y,
            )
            &&& event matches Event::Motion { surface_x, surface_y, .. } ==> after == (
                surface_x,
                surface_y,
            )
            &&& after != pointer.position ==> event is Enter || event is Motion
        }),
{
}

/// Over any events, the pointer is on a surface if and only if that is the one entered last and it
/// has not been left since.
pub proof fn lemma_surface_is_the_last_one_entered(version: u32, events: Seq<Event>, i: int)
    requires
        0 <= i < events.len(),
        events[i] is Enter,
        forall|j: int| i < j < events.len() ==> !(#[trigger] events[j] is Enter),
    ensures
        ({
            let entered = events[i]->Enter_surface;
            let left = exists|j: int|
                i < j < events.len() && #[trigger] events[j] is Leave && events[j]->Leave_surface
                    == entered;
            run(PointerModel::initial(), version, events).surface == (if left {
                None
            } else {
                Some(entered)
            })
        }),
    decreases events.len(),
{
    let before = events.drop_last();
    let last = events.len() - 1;
    assert(events[last] == events.last());
    let entered = events[i]->Enter_surface;
    if i < last {
        assert forall|j: int| i < j < before.len() implies !(#[trigger] before[j] is Enter) by {
            assert(before[j] == events[j]);
        }
        assert(before[i] == events[i]);
        lemma_surface_is_the_last_one_entered(version, before, i);
        if exists|j: int|
            i < j < before.len() && #[trigger] before[j] is Leave && before[j]->Leave_surface
                == entered {
            let j = choose|j: int|
                i < j < before.len() && #[trigger] before[j] is Leave && before[j]->Leave_surface
                    == entered;
            assert(events[j] == before[j]);
            assert(events[j] is Leave);
        } else {
            assert forall|j: int|
                i < j < before.len() && #[trigger] events[j] is Leave implies events[j]->Leave_surface
                != entered by {
                assert(before[j] == events[j]);
                assert(before[j] is Leave);
            }
        }
    }
}

/// A pointer that has entered no surface is on none.
pub proof fn lemma_no_surface_before_the_first_enter(version: u32, events: Seq<Event>)
    requires
        forall|j: int| 0 <= j < events.len() ==> !(#[trigger] events[j] is Enter),
    ensures
        run(PointerModel::initial(), version, events).surface is None,
    decreases events.len(),
{
    if events.len() > 0 {
        let before = events.drop_last();
        assert forall|j: int| 0 <= j < before.len() implies !(#[trigger] before[j] is Enter) by {
            assert(before[j] == events[j]);
        }
        assert(events[events.len() - 1] == events.last());
        lemma_no_surface_before_the_first_enter(version, before);
    }
}

/// Over any events, the pointer is where the last Enter or Motion put it.
pub proof fn lemma_position_is_the_last_one_given(version: u32, events: Seq<Event>, i: int)
    requires
        0 <= i < events.len(),
        events[i] is Enter || events[i] is Motion,
        forall|j: int|
            i < j < events.len() ==> !(#[trigger] events[j] is Enter) && !(events[j] is Motion),
    ensures
        ({
            let position = run(PointerModel::initial(), version, events).position;
            &&& events[i] is Enter ==> position == (
                events[i]->Enter_surface_x,
                events[i]->Enter_surface_y,
            )
            &&& events[i] is Motion ==> position == (
                events[i]->Motion_surface_x,
                events[i]->Motion_surface_y,
            )
        }),
    decreases events.len(),
{
    let before = events.drop_last();
    let last = events.len() - 1;
    assert(events[last] == events.last());
    if i < last {
        assert forall|j: int| i < j < before.len() implies !(#[trigger] before[j] is Enter) && !(
        before[j] is Motion) by {
            assert(before[j] == events[j]);
        }
        assert(before[i] == events[i]);
        lemma_position_is_the_last_one_given(version, before, i);
    }
}

/// A pointer that has neither entered a surface nor moved is at the origin.
pub proof fn lemma_position_before_the_first_one_given(version: u32, events: Seq<Event>)
    requires
        forall|j: int|
            0 <= j < events.len() ==> !(#[trigger] events[j] is Enter) && !(events[j] is Motion),
    ensures
        run(PointerModel::initial(), version, events).position == (0i32, 0i32),
    decreases events.len(),
{
    if events.len() > 0 {
        let before = events.drop_last();
        assert forall|j: int| 0 <= j < before.len() implies !(#[trigger] before[j] is Enter) && !(
        before[j] is Motion) by {
            assert(before[j] == events[j]);
        }
        assert(events[events.len() - 1] == events.last());
        lemma_position_before_the_first_one_given(version, before);
    }
}

/// Entering is reported on the surface entered, at the place where it was entered.
pub proof fn lemma_enter_is_reported(
    pointer: PointerModel,
    serial: u32,
    surface: SurfaceId,
    surface_x: i32,
    surface_y: i32,
)
    ensures
        pointer.reported(Event::Enter { serial, surface, surface_x, surface_y }) == Some(
            PointerEvent {
                surface,
                position: (surface_x, surface_y),
                kind: PointerEventKind::Enter { serial },
            },
        ),
{
}

/// Motion is reported on the surface that the pointer is on, at the place moved to.
pub proof fn lemma_motion_is_reported(
    pointer: PointerModel,
    surface: SurfaceId,
    time: u32,
    surface_x: i32,
    surface_y: i32,
)
    requires
        pointer.surface == Some(surface),
    ensures
        pointer.reported(Event::Motion { time, surface_x, surface_y }) == Some(
            PointerEvent {
                surface,
                position: (surface_x, surface_y),
                kind: PointerEventKind::Motion { time },
            },
        ),
{
}

/// A button that is pressed or released is reported as that, with its own number, time and serial,
/// on the surface that the pointer is on and where it is.
pub proof fn lemma_buttons_are_reported(
    pointer: PointerModel,
    surface: SurfaceId,
    serial: u32,
    time: u32,
    button: u32,
)
    requires
        pointer.surface == Some(surface),
    ensures
        pointer.reported(
            Event::Button { serial, time, button, state: WEnum::Value(ButtonState::Pressed) },
        ) == Some(
            PointerEvent {
                surface,
                position: pointer.position,
                kind: PointerEventKind::Press { time, button, serial },
            },
        ),
        pointer.reported(
            Event::Button { serial, time, button, state: WEnum::Value(ButtonState::Released) },
        ) == Some(
            PointerEvent {
                surface,
                position: pointer.position,
                kind: PointerEventKind::Release { time, button, serial },
            },
        ),
{
}

/// The eight buttons have codes that follow one another.
pub proof fn lemma_button_codes_follow_one_another()
    ensures
        BTN_LEFT == 0x110,
        BTN_RIGHT == BTN_LEFT + 1,
        BTN_MIDDLE == BTN_RIGHT + 1,
        BTN_SIDE == BTN_MIDDLE + 1,
        BTN_EXTRA == BTN_SIDE + 1,
        BTN_FORWARD == BTN_EXTRA + 1,
        BTN_BACK == BTN_FORWARD + 1,
        BTN_TASK == BTN_BACK + 1,
{
}

/// Whatever button it is, at whatever time and with whatever serial: what is read from an event
/// about a button that is pressed is a press of just that button, with that time and serial, and
/// likewise of one that is released.
pub proof fn lemma_buttons_are_decoded(
    serial: u32,
    time: u32,
    button: u32,
    pressed: Meaning,
    released: Meaning,
)
    requires
        call_ensures(
            Event::decode,
            (&Event::Button { serial, time, button, state: WEnum::Value(ButtonState::Pressed) },),
            pressed,
        ),
        call_ensures(
            Event::decode,
            (&Event::Button { serial, time, button, state: WEnum::Value(ButtonState::Released) },),
            released,
        ),
    ensures
        pressed == Meaning::Event((PointerEventKind::Press { time, button, serial })),
        released == Meaning::Event((PointerEventKind::Release { time, button, serial })),
{
}

/// A scroll is none if and only if it goes nowhere in either measure, whether or not it was stopped.
pub proof fn lemma_scroll_without_distance_is_none(scroll: AxisScroll, none: bool)
    requires
        call_ensures(AxisScroll::is_none, (&scroll,), none),
    ensures
        scroll.absolute != 0 ==> !none,
        scroll.discrete != 0 ==> !none,
        scroll.absolute == 0 && scroll.discrete == 0 ==> none,
{
}

/// Each protocol event about a scroll is reported with all that it says and nothing else: the
/// distance, the steps or the stop, along the axis that it names, or the source.
pub proof fn lemma_scrolls_are_reported(
    pointer: PointerModel,
    surface: SurfaceId,
    time: u32,
    value: i32,
    discrete: i32,
    source: AxisSource,
)
    requires
        pointer.surface == Some(surface),
    ensures
        ({
            let none = AxisScroll { absolute: 0, discrete: 0, stop: false };
            let moved = AxisScroll { absolute: value as i64, discrete: 0, stop: false };
            let stepped = AxisScroll { absolute: 0, discrete, stop: false };
            let stopped = AxisScroll { absolute: 0, discrete: 0, stop: true };
            let vertical = WEnum::Value(Axis::VerticalScroll);
            let horizontal = WEnum::Value(Axis::HorizontalScroll);
            let scroll = |time: u32, h: AxisScroll, v: AxisScroll, source: Option<AxisSource>|
                Some(
                    PointerEvent {
                        surface,
                        position: pointer.position,
                        kind: PointerEventKind::Axis { time, horizontal: h, vertical: v, source },
                    },
                );
            &&& pointer.reported(Event::Axis { time, axis: vertical, value }) == scroll(
                time,
                none,
                moved,
                None,
            )
            &&& pointer.reported(Event::Axis { time, axis: horizontal, value }) == scroll(
                time,
                moved,
                none,
                None,
            )
            &&& pointer.reported(Event::AxisStop { time, axis: vertical }) == scroll(
                time,
                none,
                stopped,
                None,
            )
            &&& pointer.reported(Event::AxisStop { time, axis: horizontal }) == scroll(
                time,
                stopped,
                none,
                None,
            )
            &&& pointer.reported(Event::AxisDiscrete { axis: vertical, discrete }) == scroll(
                0,
                none,
                stepped,
                None,
            )
            &&& pointer.reported(Event::AxisDiscrete { axis: horizontal, discrete }) == scroll(
                0,
                stepped,
                none,
                None,
            )
            &&& pointer.reported(Event::AxisSource { axis_source: WEnum::Value(source) }) == scroll(
                0,
                none,
                none,
                Some(source),
            )
        }),
{
}

/// While the pointer is on a surface, every event but the end of a frame and those with unknown
/// values is reported: on the surface that it names, or else on the one that the pointer is on, and
/// where the pointer is after it.
pub proof fn lemma_all_is_reported_on_a_surface(
    pointer: PointerModel,
    version: u32,
    surface: SurfaceId,
    event: Event,
)
    requires
        pointer.surface == Some(surface),
    ensures
        ({
            let unknown = match event {
                Event::Button { state, .. } => state is Unknown,
                Event::Axis { axis, .. } => axis is Unknown,
                Event::AxisStop { axis, .. } => axis is Unknown,
                Event::AxisDiscrete { axis, .. } => axis is Unknown,
                Event::AxisSource { axis_source } => axis_source is Unknown,
                _ => false,
            };
            &&& pointer.reported(event) is Some <==> !(event is Frame) && !unknown
            &&& pointer.reported(event) matches Some(reported) ==> {
                &&& reported.position == pointer.after(version, event).position
                &&& match event {
                    Event::Enter { surface: entered, .. } => reported.surface == entered,
                    Event::Leave { surface: left, .. } => reported.surface == left,
                    _ => reported.surface == surface,
                }
            }
        }),
{
}

/// An event that is reported is delivered at once and alone before version 5, and waits for the end
/// of its frame from then on.
pub proof fn lemma_reports_are_delivered_or_queued(
    pointer: PointerModel,
    version: u32,
    event: Event,
    reported: PointerEvent,
)
    requires
        pointer.reported(event) == Some(reported),
    ensures
        version < 5 ==> {
            &&& pointer.dispatched(version, event) == Dispatched::Deliver(seq![reported])
            &&& pointer.after(version, event).pending == pointer.pending
        },
        version >= 5 ==> {
            &&& pointer.dispatched(version, event) == Dispatched::<Seq<PointerEvent>>::Queued
            &&& pointer.after(version, event).pending.len() > 0
            &&& !(reported.kind is Axis) || pointer.pending.len() == 0 || !(
            pointer.pending.last().kind is Axis) ==> pointer.after(version, event).pending
                == pointer.pending.push(reported)
        },
{
}

/// The end of a frame delivers what is pending, whatever the version, and nothing if nothing is.
/// Nothing is pending after it.
pub proof fn lemma_frame_delivers_what_is_pending(pointer: PointerModel, version: u32)
    ensures
        pointer.dispatched(version, Event::Frame) == (if pointer.pending.len() == 0 {
            Dispatched::EmptyFrame
        } else {
            Dispatched::Deliver(pointer.pending)
        }),
        pointer.after(version, Event::Frame).pending.len() == 0,
{
}

/// An unknown value leads to the warning about it, on any surface and none, and to nothing else.
pub proof fn lemma_unknown_values_are_warned_of(
    pointer: PointerModel,
    version: u32,
    event: Event,
    unknown: u32,
)
    ensures
        ({
            let warned = pointer.dispatched(version, event);
            let button = event matches Event::Button { state: WEnum::Unknown(value), .. } && value
                == unknown;
            let axis = match event {
                Event::Axis { axis, .. } => axis == WEnum::<Axis>::Unknown(unknown),
                Event::AxisStop { axis, .. } => axis == WEnum::<Axis>::Unknown(unknown),
                Event::AxisDiscrete { axis, .. } => axis == WEnum::<Axis>::Unknown(unknown),
                _ => false,
            };
            let source = event matches Event::AxisSource { axis_source: WEnum::Unknown(value) }
                && value == unknown;
            &&& button <==> warned == Dispatched::<Seq<PointerEvent>>::UnknownButtonState(unknown)
            &&& axis <==> warned == Dispatched::<Seq<PointerEvent>>::UnknownAxis(unknown)
            &&& source <==> warned == Dispatched::<Seq<PointerEvent>>::UnknownAxisSource(unknown)
            &&& button || axis || source ==> pointer.after(version, event) == pointer
        }),
{
}

/// An event that would be reported on a surface is dropped where the pointer is on none, unless it
/// names one itself. The warning is about what would have been reported.
pub proof fn lemma_dropped_off_surface(
    on: PointerModel,
    off: PointerModel,
    version: u32,
    event: Event,
)
    requires
        on.surface is Some,
        off.surface is None,
        on.reported(event) is Some,
    ensures
        event is Enter || event is Leave ==> off.reported(event) is Some && off.reported(
            event,
        )->0.kind == on.reported(event)->0.kind,
        !(event is Enter || event is Leave) ==> {
            &&& off.dispatched(version, event) == Dispatched::<Seq<PointerEvent>>::NoSurface(
                on.reported(event)->0.kind,
            )
            &&& off.after(version, event).pending == off.pending
            &&& off.after(version, event).surface is None
        },
{
}

/// What is reported of an event does not depend on what is pending, and of any event but Enter and
/// Motion only its surface and its place depend on the pointer at all.
pub proof fn lemma_kind_depends_on_the_event_alone(a: PointerModel, b: PointerModel, event: Event)
    requires
        a.reported(event) is Some,
        b.reported(event) is Some,
    ensures
        a.reported(event)->0.kind == b.reported(event)->0.kind,
        a.surface == b.surface ==> a.reported(event)->0.surface == b.reported(event)->0.surface,
        a.position == b.position ==> a.reported(event)->0.position == b.reported(event)->0.position,
        event is Enter || event is Motion ==> a.reported(event)->0.position == b.reported(
            event,
        )->0.position,
{
}

/// An event is refused where it has to wait for the end of its frame and either adds to a scroll
/// more than can be counted, or finds more events pending than memory can hold, and only there.
pub proof fn lemma_refused_only_beyond_the_limits(
    pointer: PointerModel,
    version: u32,
    event: Event,
)
    ensures
        version < 5 ==> pointer.accepts(version, event),
        pointer.reported(event) is None ==> pointer.accepts(version, event),
        version >= 5 ==> (pointer.reported(event) matches Some(new) ==> {
            let scrolls = pointer.pending.len() > 0 && pointer.pending.last().kind is Axis
                && new.kind is Axis;
            let last = pointer.pending.last().kind;
            &&& !scrolls ==> (pointer.accepts(version, event) <==> (pointer.pending.len() + 1) * 256
                <= isize::MAX)
            &&& scrolls ==> (pointer.accepts(version, event) <==> countable(
                last->horizontal,
                new.kind->horizontal,
            ) && countable(last->vertical, new.kind->vertical))
        }),
{
}

/// The distance of two scrolls together, in 256ths of a pixel and in steps, can be counted.
pub open spec fn countable(a: AxisScroll, b: AxisScroll) -> bool {
    &&& -0x20_0000_0000_0000 <= a.absolute + b.absolute <= 0x20_0000_0000_0000
    &&& -0x8000_0000 <= a.discrete + b.discrete <= 0x7fff_ffff
}

} // verus!
