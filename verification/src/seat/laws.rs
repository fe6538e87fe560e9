//! What holds of a pointer over one event and over any number of them.

use super::pointer::{
    with_event, AxisScroll, Dispatched, Event, PointerEvent, PointerEventKind,
    PointerModel, SurfaceId, FRAME_SINCE,
};
use vstd::prelude::*;

verus! {

/// The pointer after a number of events.
pub open spec fn run(pointer: PointerModel, version: u32, events: Seq<Event>) -> PointerModel
    decreases events.len(),
{
    if events.len() == 0 {
        pointer
    } else {
        run(pointer, version, events.drop_last()).after(version, events.last())
    }
}

/// The pointer events that a number of protocol events stand for, in their order.
pub open spec fn reports(pointer: PointerModel, version: u32, events: Seq<Event>) -> Seq<
    PointerEvent,
>
    decreases events.len(),
{
    if events.len() == 0 {
        Seq::empty()
    } else {
        let before = reports(pointer, version, events.drop_last());
        match run(pointer, version, events.drop_last()).reported(events.last()) {
            Some(reported) => before.push(reported),
            None => before,
        }
    }
}

/// All that is delivered over a number of events, in order.
pub open spec fn deliveries(pointer: PointerModel, version: u32, events: Seq<Event>) -> Seq<
    PointerEvent,
>
    decreases events.len(),
{
    if events.len() == 0 {
        Seq::empty()
    } else {
        let before = deliveries(pointer, version, events.drop_last());
        match run(pointer, version, events.drop_last()).dispatched(version, events.last()) {
            Dispatched::Deliver(delivered) => before + delivered,
            _ => before,
        }
    }
}

/// Each event can be taken in after those before it.
pub open spec fn all_accepted(pointer: PointerModel, version: u32, events: Seq<Event>) -> bool
    decreases events.len(),
{
    events.len() > 0 ==> {
        &&& all_accepted(pointer, version, events.drop_last())
        &&& run(pointer, version, events.drop_last()).accepts(version, events.last())
    }
}

/// No event ends the frame.
pub open spec fn within_frame(events: Seq<Event>) -> bool {
    forall|i: int| 0 <= i < events.len() ==> !(#[trigger] events[i] is Frame)
}

/// The four distances that a scroll is made of.
pub enum Distance {
    HorizontalAbsolute,
    HorizontalDiscrete,
    VerticalAbsolute,
    VerticalDiscrete,
}

/// How far an event scrolls.
pub open spec fn scrolled(event: PointerEvent, distance: Distance) -> int {
    match event.kind {
        PointerEventKind::Axis { horizontal, vertical, .. } => match distance {
            Distance::HorizontalAbsolute => horizontal.absolute as int,
            Distance::HorizontalDiscrete => horizontal.discrete as int,
            Distance::VerticalAbsolute => vertical.absolute as int,
            Distance::VerticalDiscrete => vertical.discrete as int,
        },
        _ => 0,
    }
}

/// How far events scroll together.
pub open spec fn total_scrolled(events: Seq<PointerEvent>, distance: Distance) -> int
    decreases events.len(),
{
    if events.len() == 0 {
        0
    } else {
        total_scrolled(events.drop_last(), distance) + scrolled(events.last(), distance)
    }
}

/// One scroll is exactly as far as two others together, and was stopped if one of them was.
pub open spec fn is_sum(sum: AxisScroll, a: AxisScroll, b: AxisScroll) -> bool {
    &&& sum.absolute == a.absolute + b.absolute
    &&& sum.discrete == a.discrete + b.discrete
    &&& sum.stop == (a.stop || b.stop)
}

/// The number of scrolls before the first event that is none.
pub open spec fn leading_scrolls(events: Seq<PointerEvent>) -> nat
    decreases events.len(),
{
    if events.len() == 0 || !(events.first().kind is Axis) {
        0
    } else {
        1 + leading_scrolls(events.drop_first())
    }
}

/// The number of events that become the first event of a frame: all scrolls up to the first event
/// that is none, or that event alone.
pub open spec fn first_run(events: Seq<PointerEvent>) -> nat {
    if events.first().kind is Axis {
        leading_scrolls(events)
    } else {
        1
    }
}

/// Scrolls merged into one, from the first to the last.
pub open spec fn merge_all(scrolls: Seq<PointerEvent>) -> PointerEvent
    recommends
        scrolls.len() > 0,
    decreases scrolls.len(),
{
    if scrolls.len() <= 1 {
        scrolls.first()
    } else {
        merge_all(scrolls.drop_last()).merged(scrolls.last())
    }
}

/// Events with each run of neighbouring scrolls merged into one.
pub open spec fn merge_runs(events: Seq<PointerEvent>) -> Seq<PointerEvent>
    decreases events.len(),
{
    if events.len() == 0 {
        Seq::empty()
    } else {
        proof {
            lemma_leading_scrolls(events);
        }
        let end = first_run(events) as int;
        seq![merge_all(events.take(end))] + merge_runs(events.skip(end))
    }
}

/// It does not matter which of two scrolls came first, no scroll adds nothing, and the sum was
/// stopped if and only if one of the two was.
pub proof fn lemma_scrolls_commute(a: AxisScroll, b: AxisScroll)
    ensures
        a.plus(b) == b.plus(a),
        a.plus(AxisScroll::none()) == a,
        a.plus(b).stop == (a.stop || b.stop),
{
}

/// Scrolls add up to the same in any grouping.
pub proof fn lemma_scrolls_add_up(a: AxisScroll, b: AxisScroll, c: AxisScroll)
    requires
        a.fits(b),
        b.fits(c),
        a.plus(b).fits(c),
    ensures
        a.plus(b).plus(c) == a.plus(b.plus(c)),
{
}

/// Scrolls of one frame may be merged in any grouping.
pub proof fn lemma_merging_is_associative(a: PointerEvent, b: PointerEvent, c: PointerEvent)
    requires
        a.kind is Axis,
        b.kind is Axis,
        c.kind is Axis,
        a.fits(b),
        b.fits(c),
        a.merged(b).fits(c),
    ensures
        a.merged(b).merged(c) == a.merged(b.merged(c)),
{
}

/// The time of a merged scroll is unknown only where neither scroll has one, and its source is
/// missing only where both lack it.
pub proof fn lemma_merging_keeps_what_is_known(a: PointerEvent, b: PointerEvent)
    requires
        a.kind is Axis,
        b.kind is Axis,
    ensures
        a.merged(b).kind->Axis_time == 0 <==> a.kind->Axis_time == 0 && b.kind->Axis_time == 0,
        a.merged(b).kind->source is None <==> a.kind->source is None && b.kind->source is None,
        a.merged(b).surface == a.surface,
        a.merged(b).position == a.position,
{
}

/// A scroll right after a scroll adds no event to the frame. The last pending event keeps its
/// surface and position, takes the time of the new one only where it has none, likewise the source,
/// and gets the sum of both along each axis. All earlier events stay as they are.
pub proof fn lemma_scroll_joins_the_last_event(
    pointer: PointerModel,
    version: u32,
    event: Event,
    new: PointerEvent,
)
    requires
        version >= FRAME_SINCE,
        pointer.reported(event) == Some(new),
        new.kind is Axis,
        pointer.pending.len() > 0,
        pointer.pending.last().kind is Axis,
        pointer.accepts(version, event),
    ensures
        ({
            let last = pointer.pending.last();
            let pending = pointer.after(version, event).pending;
            let joined = pending.last();
            &&& pending.len() == pointer.pending.len()
            &&& pending.drop_last() == pointer.pending.drop_last()
            &&& joined.kind is Axis
            &&& joined.surface == last.surface
            &&& joined.position == last.position
            &&& joined.kind->Axis_time == (if last.kind->Axis_time == 0 {
                new.kind->Axis_time
            } else {
                last.kind->Axis_time
            })
            &&& joined.kind->source == (if last.kind->source is Some {
                last.kind->source
            } else {
                new.kind->source
            })
            &&& is_sum(joined.kind->horizontal, last.kind->horizontal, new.kind->horizontal)
            &&& is_sum(joined.kind->vertical, last.kind->vertical, new.kind->vertical)
        }),
{
    let pending = pointer.after(version, event).pending;
    assert(pending.drop_last() =~= pointer.pending.drop_last());
}

/// After an event no two scrolls are pending one right after the other, if none were before.
proof fn lemma_event_keeps_scrolls_merged(pointer: PointerModel, version: u32, event: Event)
    requires
        pointer.scrolls_merged(),
    ensures
        pointer.after(version, event).scrolls_merged(),
{
}

/// Whatever events a pointer gets, no two scrolls are ever pending one right after the other.
pub proof fn lemma_scrolls_are_always_merged(version: u32, events: Seq<Event>)
    ensures
        run(PointerModel::initial(), version, events).scrolls_merged(),
    decreases events.len(),
{
    if events.len() > 0 {
        lemma_scrolls_are_always_merged(version, events.drop_last());
        lemma_event_keeps_scrolls_merged(
            run(PointerModel::initial(), version, events.drop_last()),
            version,
            events.last(),
        );
    }
}

/// A pointer whose protocol version has no frames never has pending events.
pub proof fn lemma_nothing_is_pending_without_frames(version: u32, events: Seq<Event>)
    requires
        version < FRAME_SINCE,
    ensures
        run(PointerModel::initial(), version, events).pending.len() == 0,
    decreases events.len(),
{
    if events.len() > 0 {
        lemma_nothing_is_pending_without_frames(version, events.drop_last());
    }
}

/// Without frames, an event that stands for a pointer event is delivered at once and alone.
pub proof fn lemma_delivered_at_once_without_frames(
    pointer: PointerModel,
    version: u32,
    event: Event,
)
    requires
        version < FRAME_SINCE,
        pointer.reported(event) is Some,
    ensures
        pointer.dispatched(version, event) == Dispatched::Deliver(
            seq![pointer.reported(event)->0],
        ),
        pointer.after(version, event).pending == pointer.pending,
{
}

/// Without frames, the handler gets exactly the pointer events that the protocol events stand for,
/// in their order.
pub proof fn lemma_everything_is_delivered_without_frames(version: u32, events: Seq<Event>)
    requires
        version < FRAME_SINCE,
    ensures
        deliveries(PointerModel::initial(), version, events) == reports(
            PointerModel::initial(),
            version,
            events,
        ),
    decreases events.len(),
{
    let start = PointerModel::initial();
    if events.len() > 0 {
        let before = events.drop_last();
        lemma_everything_is_delivered_without_frames(version, before);
        lemma_nothing_is_pending_without_frames(version, before);
        if let Some(reported) = run(start, version, before).reported(events.last()) {
            let earlier = reports(start, version, before);
            assert(earlier + seq![reported] =~= earlier.push(reported));
        }
    }
}

/// With frames, the end of a frame is the only event that delivers anything. It delivers all that
/// is pending, and leaves nothing pending.
pub proof fn lemma_delivered_by_the_frame(pointer: PointerModel, version: u32, event: Event)
    requires
        version >= FRAME_SINCE,
    ensures
        pointer.dispatched(version, event) is Deliver <==> event is Frame && pointer.pending.len()
            > 0,
        event is Frame && pointer.pending.len() > 0 ==> pointer.dispatched(version, event)
            == Dispatched::Deliver(pointer.pending),
        event is Frame ==> pointer.after(version, event).pending.len() == 0,
        event is Frame ==> pointer.after(version, event).surface == pointer.surface
            && pointer.after(version, event).position == pointer.position,
{
}

/// What is delivered is one event or more, never none.
pub proof fn lemma_delivered_frames_hold_events(pointer: PointerModel, version: u32, event: Event)
    ensures
        pointer.dispatched(version, event) matches Dispatched::Deliver(events) ==> events.len() > 0,
{
}

proof fn lemma_within_frame_before(events: Seq<Event>)
    requires
        within_frame(events),
        events.len() > 0,
    ensures
        within_frame(events.drop_last()),
        !(events.last() is Frame),
{
    let before = events.drop_last();
    assert forall|i: int| 0 <= i < before.len() implies !(#[trigger] before[i] is Frame) by {
        assert(before[i] == events[i]);
    }
    assert(events[events.len() - 1] == events.last());
}

/// A frame without scrolls delivers one pointer event for each protocol event that stands for one,
/// in their order.
pub proof fn lemma_frame_keeps_order(pointer: PointerModel, version: u32, events: Seq<Event>)
    requires
        version >= FRAME_SINCE,
        within_frame(events),
        forall|i: int|
            0 <= i < reports(pointer, version, events).len() ==> !((#[trigger] reports(
                pointer,
                version,
                events,
            )[i]).kind is Axis),
    ensures
        run(pointer, version, events).pending == pointer.pending + reports(
            pointer,
            version,
            events,
        ),
    decreases events.len(),
{
    if events.len() > 0 {
        let before = events.drop_last();
        let old_reports = reports(pointer, version, before);
        let new_reports = reports(pointer, version, events);
        lemma_within_frame_before(events);
        assert forall|i: int| 0 <= i < old_reports.len() implies !((
        #[trigger] old_reports[i]).kind is Axis) by {
            assert(new_reports[i] == old_reports[i]);
        }
        lemma_frame_keeps_order(pointer, version, before);
        let model = run(pointer, version, before);
        if model.reported(events.last()) is Some {
            let reported = model.reported(events.last())->0;
            assert(new_reports[new_reports.len() - 1] == reported);
            assert(model.after(version, events.last()).pending == model.pending.push(reported));
        }
        assert(run(pointer, version, events).pending =~= pointer.pending + new_reports);
    } else {
        assert(run(pointer, version, events).pending =~= pointer.pending + reports(
            pointer,
            version,
            events,
        ));
    }
}

/// The leading scrolls are scrolls, and the event right behind them is none. A first run is never
/// empty.
pub proof fn lemma_leading_scrolls(events: Seq<PointerEvent>)
    ensures
        leading_scrolls(events) <= events.len(),
        events.len() > 0 ==> 0 < first_run(events) <= events.len(),
        forall|i: int|
            0 <= i < leading_scrolls(events) ==> (#[trigger] events[i]).kind is Axis,
        leading_scrolls(events) < events.len() ==> !(events[leading_scrolls(
            events,
        ) as int].kind is Axis),
    decreases events.len(),
{
    if events.len() > 0 && events.first().kind is Axis {
        let rest = events.drop_first();
        lemma_leading_scrolls(rest);
        assert forall|i: int| 0 <= i < leading_scrolls(events) implies (
        #[trigger] events[i]).kind is Axis by {
            if i > 0 {
                assert(rest[i - 1] == events[i]);
            }
        }
        if leading_scrolls(events) < events.len() {
            assert(rest[leading_scrolls(rest) as int] == events[leading_scrolls(events) as int]);
        }
    }
}

proof fn lemma_leading_scrolls_of_more(events: Seq<PointerEvent>, event: PointerEvent)
    ensures
        leading_scrolls(events.push(event)) == (if leading_scrolls(events) == events.len()
            && event.kind is Axis {
            events.len() + 1
        } else {
            leading_scrolls(events)
        }),
    decreases events.len(),
{
    let more = events.push(event);
    if events.len() == 0 {
        assert(more.first() == event);
        assert(more.drop_first() =~= Seq::empty());
        reveal_with_fuel(leading_scrolls, 2);
    } else {
        assert(more.first() == events.first());
        assert(more.drop_first() =~= events.drop_first().push(event));
        if events.first().kind is Axis {
            lemma_leading_scrolls_of_more(events.drop_first(), event);
        }
    }
}

proof fn lemma_merge_all_is_a_scroll(scrolls: Seq<PointerEvent>)
    requires
        scrolls.len() > 0,
        scrolls.first().kind is Axis,
    ensures
        merge_all(scrolls).kind is Axis,
{
}

/// To put an event behind others and then merge the runs is to merge the runs and then put the
/// event behind them as a pending one.
proof fn lemma_merge_runs_of_more(events: Seq<PointerEvent>, event: PointerEvent)
    ensures
        merge_runs(events.push(event)) == with_event(merge_runs(events), event),
    decreases events.len(),
{
    let more = events.push(event);
    lemma_leading_scrolls(events);
    lemma_leading_scrolls(more);
    lemma_leading_scrolls_of_more(events, event);
    if events.len() == 0 {
        assert(more.take(1) =~= more);
        assert(more.skip(1) =~= Seq::empty());
        assert(first_run(more) == 1);
        assert(merge_runs(Seq::<PointerEvent>::empty()) =~= Seq::empty());
        assert(merge_runs(more) =~= seq![event]);
        assert(with_event(merge_runs(events), event) =~= seq![event]);
    } else {
        let end = first_run(events) as int;
        let first = merge_all(events.take(end));
        let rest = merge_runs(events.skip(end));
        assert(more.first() == events.first());
        assert(merge_runs(events) == seq![first] + rest);
        if end < events.len() {
            assert(first_run(more) == end);
            assert(more.take(end) =~= events.take(end));
            assert(more.skip(end) =~= events.skip(end).push(event));
            lemma_merge_runs_of_more(events.skip(end), event);
            lemma_leading_scrolls(events.skip(end));
            assert(rest.len() > 0);
            assert((seq![first] + rest).last() == rest.last());
            assert((seq![first] + rest).drop_last() =~= seq![first] + rest.drop_last());
            assert(merge_runs(more) =~= with_event(merge_runs(events), event));
        } else {
            assert(events.take(end) =~= events);
            assert(events.skip(end) =~= Seq::empty());
            assert(merge_runs(events) =~= seq![merge_all(events)]);
            assert(merge_runs(events).last() == merge_all(events));
            assert(merge_runs(events).drop_last() =~= Seq::empty());
            if events.first().kind is Axis {
                lemma_merge_all_is_a_scroll(events);
            } else {
                assert(events.len() == 1);
            }
            if events.first().kind is Axis && event.kind is Axis {
                assert(first_run(more) == more.len());
                assert(more.take(more.len() as int) =~= more);
                assert(more.skip(more.len() as int) =~= Seq::empty());
                assert(more.drop_last() =~= events);
                assert(merge_all(more) == merge_all(events).merged(event));
                assert(merge_runs(more) =~= seq![merge_all(more)]);
                assert(with_event(merge_runs(events), event) =~= seq![merge_all(more)]);
            } else {
                assert(first_run(more) == end);
                assert(more.take(end) =~= events);
                assert(more.skip(end) =~= Seq::empty().push(event));
                lemma_merge_runs_of_more(Seq::empty(), event);
                assert(merge_runs(Seq::<PointerEvent>::empty()) =~= Seq::empty());
                assert(merge_runs(more.skip(end)) =~= seq![event]);
                assert(merge_runs(more) =~= seq![merge_all(events), event]);
                assert(with_event(merge_runs(events), event) =~= seq![merge_all(events), event]);
            }
        }
    }
}

/// Within a frame, what is pending are the pointer events that the protocol events since its start
/// stand for, in their order, with each run of neighbouring scrolls merged into one. The end of the
/// frame delivers just that.
pub proof fn lemma_frame_is_its_reports_with_scrolls_merged(
    pointer: PointerModel,
    version: u32,
    events: Seq<Event>,
)
    requires
        version >= FRAME_SINCE,
        pointer.pending.len() == 0,
        within_frame(events),
    ensures
        run(pointer, version, events).pending == merge_runs(reports(pointer, version, events)),
        run(pointer, version, events).dispatched(version, Event::Frame) == (if reports(
            pointer,
            version,
            events,
        ).len() == 0 {
            Dispatched::EmptyFrame
        } else {
            Dispatched::Deliver(merge_runs(reports(pointer, version, events)))
        }),
    decreases events.len(),
{
    if events.len() == 0 {
        assert(run(pointer, version, events).pending =~= Seq::empty());
    } else {
        let before = events.drop_last();
        lemma_within_frame_before(events);
        lemma_frame_is_its_reports_with_scrolls_merged(pointer, version, before);
        if let Some(reported) = run(pointer, version, before).reported(events.last()) {
            lemma_merge_runs_of_more(reports(pointer, version, before), reported);
        }
    }
}

/// A frame of nothing but scrolls delivers a single event.
pub proof fn lemma_scroll_frame_is_one_event(
    pointer: PointerModel,
    version: u32,
    events: Seq<Event>,
)
    requires
        version >= FRAME_SINCE,
        pointer.pending.len() == 0,
        within_frame(events),
        reports(pointer, version, events).len() > 0,
        forall|i: int|
            0 <= i < reports(pointer, version, events).len() ==> (#[trigger] reports(
                pointer,
                version,
                events,
            )[i]).kind is Axis,
    ensures
        run(pointer, version, events).pending.len() == 1,
        run(pointer, version, events).pending[0].kind is Axis,
    decreases events.len(),
{
    let before = events.drop_last();
    let old_reports = reports(pointer, version, before);
    let new_reports = reports(pointer, version, events);
    lemma_within_frame_before(events);
    assert forall|i: int| 0 <= i < old_reports.len() implies (
    #[trigger] old_reports[i]).kind is Axis by {
        assert(new_reports[i] == old_reports[i]);
    }
    let model = run(pointer, version, before);
    if old_reports.len() > 0 {
        lemma_scroll_frame_is_one_event(pointer, version, before);
    } else {
        lemma_no_reports_no_pending(pointer, version, before);
    }
    if model.reported(events.last()) is Some {
        assert(new_reports[new_reports.len() - 1] == model.reported(events.last())->0);
    }
}

/// Events that stand for no pointer event leave what is pending as it is.
proof fn lemma_no_reports_no_pending(pointer: PointerModel, version: u32, events: Seq<Event>)
    requires
        within_frame(events),
        reports(pointer, version, events).len() == 0,
    ensures
        run(pointer, version, events).pending == pointer.pending,
    decreases events.len(),
{
    if events.len() > 0 {
        let before = events.drop_last();
        lemma_within_frame_before(events);
        lemma_no_reports_no_pending(pointer, version, before);
    }
}

/// Queueing an event adds what it scrolls to what is pending.
proof fn lemma_queueing_adds(pending: Seq<PointerEvent>, event: PointerEvent, distance: Distance)
    requires
        pending.len() > 0 && pending.last().both_axis(event) ==> pending.last().fits(event),
    ensures
        total_scrolled(with_event(pending, event), distance) == total_scrolled(pending, distance)
            + scrolled(event, distance),
{
    if pending.len() > 0 && pending.last().both_axis(event) {
        let merged = pending.last().merged(event);
        assert(pending.drop_last().push(merged).drop_last() =~= pending.drop_last());
        assert(pending.drop_last().push(merged).last() == merged);
    } else {
        assert(pending.push(event).drop_last() =~= pending);
        assert(pending.push(event).last() == event);
    }
}

/// No scroll is lost and none is made up: what an event delivers and leaves pending scrolls, along
/// each axis and in each measure, as far as what was pending and the event together.
pub proof fn lemma_scrolling_is_kept(
    pointer: PointerModel,
    version: u32,
    event: Event,
    distance: Distance,
)
    requires
        pointer.accepts(version, event),
    ensures
        ({
            let delivered = match pointer.dispatched(version, event) {
                Dispatched::Deliver(events) => total_scrolled(events, distance),
                _ => 0,
            };
            let added = match pointer.reported(event) {
                Some(reported) => scrolled(reported, distance),
                None => 0,
            };
            delivered + total_scrolled(pointer.after(version, event).pending, distance)
                == total_scrolled(pointer.pending, distance) + added
        }),
{
    if let Some(reported) = pointer.reported(event) {
        if version >= FRAME_SINCE {
            lemma_queueing_adds(pointer.pending, reported, distance);
        } else {
            assert(seq![reported].drop_last() =~= Seq::<PointerEvent>::empty());
            reveal_with_fuel(total_scrolled, 2);
        }
    }
}

proof fn lemma_total_of_both(a: Seq<PointerEvent>, b: Seq<PointerEvent>, distance: Distance)
    ensures
        total_scrolled(a + b, distance) == total_scrolled(a, distance) + total_scrolled(
            b,
            distance,
        ),
    decreases b.len(),
{
    if b.len() == 0 {
        assert(a + b =~= a);
    } else {
        assert((a + b).drop_last() =~= a + b.drop_last());
        assert((a + b).last() == b.last());
        lemma_total_of_both(a, b.drop_last(), distance);
    }
}

/// Over any number of events, what is delivered and still pending scrolls as far, along each axis
/// and in each measure, as what was pending at first and all protocol events together.
pub proof fn lemma_scrolling_is_kept_over_events(
    pointer: PointerModel,
    version: u32,
    events: Seq<Event>,
    distance: Distance,
)
    requires
        all_accepted(pointer, version, events),
    ensures
        total_scrolled(deliveries(pointer, version, events), distance) + total_scrolled(
            run(pointer, version, events).pending,
            distance,
        ) == total_scrolled(pointer.pending, distance) + total_scrolled(
            reports(pointer, version, events),
            distance,
        ),
    decreases events.len(),
{
    if events.len() > 0 {
        let before = events.drop_last();
        let model = run(pointer, version, before);
        lemma_scrolling_is_kept_over_events(pointer, version, before, distance);
        lemma_scrolling_is_kept(model, version, events.last(), distance);
        if let Dispatched::Deliver(delivered) = model.dispatched(version, events.last()) {
            lemma_total_of_both(deliveries(pointer, version, before), delivered, distance);
        }
        if let Some(reported) = model.reported(events.last()) {
            let earlier = reports(pointer, version, before);
            assert(earlier.push(reported).drop_last() =~= earlier);
        }
    }
}

/// Once the pointer has left a surface it is not on it. The event is about the surface left, also
/// where the pointer has entered another one in the meantime, and it then stays on that one.
pub proof fn lemma_leaving(pointer: PointerModel, serial: u32, surface: SurfaceId)
    ensures
        pointer.surface_after(Event::Leave { serial, surface }) != Some(surface),
        pointer.surface != Some(surface) ==> pointer.surface_after(Event::Leave { serial, surface })
            == pointer.surface,
        pointer.reported(Event::Leave { serial, surface }) == Some(
            PointerEvent {
                surface,
                position: pointer.position,
                kind: PointerEventKind::Leave { serial },
            },
        ),
{
}

/// An event with a value that the protocol does not define changes nothing.
pub proof fn lemma_unknown_values_are_ignored(pointer: PointerModel, version: u32, event: Event)
    requires
        !(event.meaning() is Event),
        !(event.meaning() is Frame),
    ensures
        pointer.after(version, event) == pointer,
        !(pointer.dispatched(version, event) is Deliver),
{
}

/// While the pointer is on no surface, only entering and leaving one are reported. Any other event
/// leaves what is pending as it is.
pub proof fn lemma_nothing_is_reported_off_surface(
    pointer: PointerModel,
    version: u32,
    event: Event,
)
    requires
        pointer.surface is None,
    ensures
        pointer.reported(event) is Some <==> event is Enter || event is Leave,
        !(event is Enter || event is Leave || event is Frame) ==> pointer.after(
            version,
            event,
        ).pending == pointer.pending,
{
}


} // verus!
