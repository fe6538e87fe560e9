//! The pointer: decoding its protocol events and grouping them into frames.

use super::pending::{queued, room_for_one, PendingEvents};
use crate::wire::WEnum;
use vstd::prelude::*;

verus! {

/* From linux/input-event-codes.h - the buttons usually used by mice */
pub const BTN_LEFT: u32 = 0x110;

pub const BTN_RIGHT: u32 = 0x111;

pub const BTN_MIDDLE: u32 = 0x112;

/// The fourth non-scroll button, which is often used as "back" in web browsers.
pub const BTN_SIDE: u32 = 0x113;

/// The fifth non-scroll button, which is often used as "forward" in web browsers.
pub const BTN_EXTRA: u32 = 0x114;

/// See also [`BTN_EXTRA`].
pub const BTN_FORWARD: u32 = 0x115;

/// See also [`BTN_SIDE`].
pub const BTN_BACK: u32 = 0x116;

pub const BTN_TASK: u32 = 0x117;

/// The largest scroll, in 256ths of a pixel and either direction, that a double counts in pixels
/// without rounding.
pub const ABSOLUTE_LIMIT: i64 = 0x20_0000_0000_0000;

/// The first version of `wl_pointer` that groups its events by `frame` events.
pub const FRAME_SINCE: u32 = 5;

/// A surface, by a number that tells it apart from every other surface.
#[derive(Clone, Copy, Debug, PartialEq, Eq, Structural)]
pub struct SurfaceId(pub u64);

#[derive(Clone, Copy, Debug, PartialEq, Eq, Structural)]
pub enum ButtonState {
    Released,
    Pressed,
}

#[derive(Clone, Copy, Debug, PartialEq, Eq, Structural)]
pub enum Axis {
    VerticalScroll,
    HorizontalScroll,
}

/// What the user turned or moved to scroll.
#[derive(Clone, Copy, Debug, PartialEq, Eq, Structural)]
pub enum AxisSource {
    Wheel,
    Finger,
    Continuous,
    WheelTilt,
}

/// An event of the `wl_pointer` protocol object.
///
/// Coordinates and scroll distances are in 256ths of a pixel, the unit of the protocol's
/// fixed-point numbers.
#[derive(Clone, Copy, Debug, PartialEq, Eq, Structural)]
pub enum Event {
    Enter { serial: u32, surface: SurfaceId, surface_x: i32, surface_y: i32 },
    Leave { serial: u32, surface: SurfaceId },
    Motion { time: u32, surface_x: i32, surface_y: i32 },
    Button { serial: u32, time: u32, button: u32, state: WEnum<ButtonState> },
    Axis { time: u32, axis: WEnum<Axis>, value: i32 },
    Frame,
    AxisSource { axis_source: WEnum<AxisSource> },
    AxisStop { time: u32, axis: WEnum<Axis> },
    AxisDiscrete { axis: WEnum<Axis>, discrete: i32 },
}

/// Describes a scroll along one axis
#[derive(Clone, Copy, Debug, PartialEq, Eq, Structural)]
pub struct AxisScroll {
    /// The scroll measured in 256ths of a pixel.
    pub absolute: i64,
    /// The scroll measured in steps.
    ///
    /// Note: this might always be zero if the scrolling is due to a touchpad or other continuous
    /// source.
    pub discrete: i32,
    /// The scroll was stopped.
    ///
    /// Generally this is encountered when hardware indicates the end of some continuous scrolling.
    pub stop: bool,
}

/// A single pointer event.
#[derive(Clone, Copy, Debug, PartialEq, Eq)]
pub struct PointerEvent {
    pub surface: SurfaceId,
    /// Relative to the surface, in 256ths of a pixel.
    pub position: (i32, i32),
    pub kind: PointerEventKind,
}

#[derive(Clone, Copy, Debug, PartialEq, Eq, Structural)]
pub enum PointerEventKind {
    Enter { serial: u32 },
    Leave { serial: u32 },
    Motion { time: u32 },
    Press { time: u32, button: u32, serial: u32 },
    Release { time: u32, button: u32, serial: u32 },
    Axis {
        time: u32,
        horizontal: AxisScroll,
        vertical: AxisScroll,
        source: Option<AxisSource>,
    },
}

/// What a protocol event says, before it is known which surface it is about.
#[derive(Clone, Copy, Debug, PartialEq, Eq, Structural)]
pub enum Meaning {
    /// A pointer event of this kind.
    Event(PointerEventKind),
    /// The end of a group of events.
    Frame,
    UnknownButtonState(u32),
    UnknownAxis(u32),
    UnknownAxisSource(u32),
}

/// What has to be done about a protocol event once it is taken in.
#[derive(Debug, PartialEq, Eq)]
pub enum Dispatched<F> {
    /// Hand these events to the handler, as one frame.
    Deliver(F),
    /// Nothing: the event waits for the end of its frame.
    Queued,
    /// Nothing: a frame without events ended.
    EmptyFrame,
    /// Warn that the event was dropped because of an unknown button state.
    UnknownButtonState(u32),
    /// Warn that the event was dropped because of an unknown axis.
    UnknownAxis(u32),
    /// Warn that the event was dropped because of an unknown axis source.
    UnknownAxisSource(u32),
    /// Warn that the event was dropped because the pointer is on no surface.
    NoSurface(PointerEventKind),
}

impl View for Dispatched<Vec<PointerEvent>> {
    type V = Dispatched<Seq<PointerEvent>>;

    open spec fn view(&self) -> Dispatched<Seq<PointerEvent>> {
        match *self {
            Dispatched::Deliver(events) => Dispatched::Deliver(events@),
            Dispatched::Queued => Dispatched::Queued,
            Dispatched::EmptyFrame => Dispatched::EmptyFrame,
            Dispatched::UnknownButtonState(unknown) => Dispatched::UnknownButtonState(unknown),
            Dispatched::UnknownAxis(unknown) => Dispatched::UnknownAxis(unknown),
            Dispatched::UnknownAxisSource(unknown) => Dispatched::UnknownAxisSource(unknown),
            Dispatched::NoSurface(kind) => Dispatched::NoSurface(kind),
        }
    }
}

impl AxisScroll {
    /// No scroll at all.
    pub open spec fn none() -> AxisScroll {
        AxisScroll { absolute: 0, discrete: 0, stop: false }
    }

    /// The sum of the two scrolls is within what can be counted.
    pub open spec fn fits(self, other: AxisScroll) -> bool {
        &&& -ABSOLUTE_LIMIT <= self.absolute + other.absolute <= ABSOLUTE_LIMIT
        &&& i32::MIN <= self.discrete + other.discrete <= i32::MAX
    }

    /// Both scrolls, one after the other.
    pub open spec fn plus(self, other: AxisScroll) -> AxisScroll {
        AxisScroll {
            absolute: (self.absolute + other.absolute) as i64,
            discrete: (self.discrete + other.discrete) as i32,
            stop: self.stop || other.stop,
        }
    }

    /// Returns true if there was no movement along this axis.
    pub fn is_none(&self) -> (none: bool)
        ensures
            none == (self.absolute == 0 && self.discrete == 0),
    {
        self.absolute == 0 && self.discrete == 0
    }

    /// Whether [`AxisScroll::merge`] can add the other scroll.
    pub fn can_merge(&self, other: &AxisScroll) -> (can: bool)
        ensures
            can == self.fits(*other),
            can == (-0x20_0000_0000_0000 <= self.absolute + other.absolute <= 0x20_0000_0000_0000
                && i32::MIN <= self.discrete + other.discrete <= i32::MAX),
    {
        let absolute: i128 = self.absolute as i128 + other.absolute as i128;
        let discrete: i64 = self.discrete as i64 + other.discrete as i64;
        -(ABSOLUTE_LIMIT as i128) <= absolute && absolute <= ABSOLUTE_LIMIT as i128
            && i32::MIN as i64 <= discrete && discrete <= i32::MAX as i64
    }

    /// Adds another scroll along the same axis.
    pub fn merge(&mut self, other: &AxisScroll)
        requires
            old(self).fits(*other),
        ensures
            *final(self) == old(self).plus(*other),
            final(self).absolute == old(self).absolute + other.absolute,
            final(self).discrete == old(self).discrete + other.discrete,
            final(self).stop == (old(self).stop || other.stop),
    {
        self.absolute += other.absolute;
        self.discrete += other.discrete;
        self.stop = self.stop || other.stop;
    }
}

impl Default for AxisScroll {
    fn default() -> (scroll: AxisScroll)
        ensures
            scroll == AxisScroll::none(),
            scroll.absolute == 0 && scroll.discrete == 0 && !scroll.stop,
    {
        AxisScroll { absolute: 0, discrete: 0, stop: false }
    }
}

impl PointerEventKind {
    /// A scroll at this time, this far along this axis and not at all along the other one, with no
    /// source.
    pub open spec fn scrolls_along(
        self,
        axis: Axis,
        time: u32,
        absolute: int,
        discrete: int,
        stop: bool,
    ) -> bool {
        &&& self is Axis
        &&& self->Axis_time == time
        &&& self->source is None
        &&& axis is VerticalScroll ==> {
            &&& self->vertical.absolute == absolute
            &&& self->vertical.discrete == discrete
            &&& self->vertical.stop == stop
            &&& self->horizontal.absolute == 0
            &&& self->horizontal.discrete == 0
            &&& !self->horizontal.stop
        }
        &&& axis is HorizontalScroll ==> {
            &&& self->horizontal.absolute == absolute
            &&& self->horizontal.discrete == discrete
            &&& self->horizontal.stop == stop
            &&& self->vertical.absolute == 0
            &&& self->vertical.discrete == 0
            &&& !self->vertical.stop
        }
    }

    /// A scroll that goes nowhere and is about its source only, at an unknown time.
    pub open spec fn only_has_source(self, source: AxisSource) -> bool {
        &&& self is Axis
        &&& self->Axis_time == 0
        &&& self->source == Some(source)
        &&& self->vertical.absolute == 0
        &&& self->vertical.discrete == 0
        &&& !self->vertical.stop
        &&& self->horizontal.absolute == 0
        &&& self->horizontal.discrete == 0
        &&& !self->horizontal.stop
    }

    /// An axis event with a scroll along one axis only.
    pub open spec fn along(time: u32, axis: Axis, scroll: AxisScroll) -> PointerEventKind {
        PointerEventKind::Axis {
            time,
            horizontal: if axis == Axis::HorizontalScroll {
                scroll
            } else {
                AxisScroll::none()
            },
            vertical: if axis == Axis::VerticalScroll {
                scroll
            } else {
                AxisScroll::none()
            },
            source: None,
        }
    }
}

impl Event {
    /// What the event says.
    ///
    /// The scroll events carry only part of what an axis event holds: what a protocol event leaves
    /// out is zero, or no source.
    pub open spec fn meaning(self) -> Meaning {
        match self {
            Event::Enter { serial, .. } => Meaning::Event(PointerEventKind::Enter { serial }),
            Event::Leave { serial, .. } => Meaning::Event(PointerEventKind::Leave { serial }),
            Event::Motion { time, .. } => Meaning::Event(PointerEventKind::Motion { time }),
            Event::Button { serial, time, button, state } => match state {
                WEnum::Value(ButtonState::Pressed) => Meaning::Event(
                    PointerEventKind::Press { time, button, serial },
                ),
                WEnum::Value(ButtonState::Released) => Meaning::Event(
                    PointerEventKind::Release { time, button, serial },
                ),
                WEnum::Unknown(unknown) => Meaning::UnknownButtonState(unknown),
            },
            Event::Axis { time, axis, value } => match axis {
                WEnum::Value(axis) => Meaning::Event(
                    PointerEventKind::along(
                        time,
                        axis,
                        AxisScroll { absolute: value as i64, ..AxisScroll::none() },
                    ),
                ),
                WEnum::Unknown(unknown) => Meaning::UnknownAxis(unknown),
            },
            Event::Frame => Meaning::Frame,
            Event::AxisSource { axis_source } => match axis_source {
                WEnum::Value(source) => Meaning::Event(
                    PointerEventKind::Axis {
                        time: 0,
                        horizontal: AxisScroll::none(),
                        vertical: AxisScroll::none(),
                        source: Some(source),
                    },
                ),
                WEnum::Unknown(unknown) => Meaning::UnknownAxisSource(unknown),
            },
            Event::AxisStop { time, axis } => match axis {
                WEnum::Value(axis) => Meaning::Event(
                    PointerEventKind::along(
                        time,
                        axis,
                        AxisScroll { stop: true, ..AxisScroll::none() },
                    ),
                ),
                WEnum::Unknown(unknown) => Meaning::UnknownAxis(unknown),
            },
            Event::AxisDiscrete { axis, discrete } => match axis {
                WEnum::Value(axis) => Meaning::Event(
                    PointerEventKind::along(
                        0,
                        axis,
                        AxisScroll { discrete, ..AxisScroll::none() },
                    ),
                ),
                WEnum::Unknown(unknown) => Meaning::UnknownAxis(unknown),
            },
        }
    }

    /// Reads what the event says.
    pub fn decode(&self) -> (meaning: Meaning)
        ensures
            meaning == self.meaning(),
            *self matches Event::Enter { serial, .. } ==> meaning == Meaning::Event(
                (PointerEventKind::Enter { serial }),
            ),
            *self matches Event::Leave { serial, .. } ==> meaning == Meaning::Event(
                (PointerEventKind::Leave { serial }),
            ),
            *self matches Event::Motion { time, .. } ==> meaning == Meaning::Event(
                (PointerEventKind::Motion { time }),
            ),
            *self matches Event::Button { serial, time, button, state } ==> match state {
                WEnum::Value(ButtonState::Pressed) => meaning == Meaning::Event(
                    (PointerEventKind::Press { time, button, serial }),
                ),
                WEnum::Value(ButtonState::Released) => meaning == Meaning::Event(
                    (PointerEventKind::Release { time, button, serial }),
                ),
                WEnum::Unknown(unknown) => meaning == Meaning::UnknownButtonState(unknown),
            },
            *self matches Event::Axis { time, axis, value } ==> match axis {
                WEnum::Value(axis) => meaning matches Meaning::Event(kind) && kind.scrolls_along(
                    axis,
                    time,
                    value as int,
                    0,
                    false,
                ),
                WEnum::Unknown(unknown) => meaning == Meaning::UnknownAxis(unknown),
            },
            *self matches Event::AxisStop { time, axis } ==> match axis {
                WEnum::Value(axis) => meaning matches Meaning::Event(kind) && kind.scrolls_along(
                    axis,
                    time,
                    0,
                    0,
                    true,
                ),
                WEnum::Unknown(unknown) => meaning == Meaning::UnknownAxis(unknown),
            },
            *self matches Event::AxisDiscrete { axis, discrete } ==> match axis {
                WEnum::Value(axis) => meaning matches Meaning::Event(kind) && kind.scrolls_along(
                    axis,
                    0,
                    0,
                    discrete as int,
                    false,
                ),
                WEnum::Unknown(unknown) => meaning == Meaning::UnknownAxis(unknown),
            },
            *self matches Event::AxisSource { axis_source } ==> match axis_source {
                WEnum::Value(source) => meaning matches Meaning::Event(kind)
                    && kind.only_has_source(source),
                WEnum::Unknown(unknown) => meaning == Meaning::UnknownAxisSource(unknown),
            },
            self is Frame ==> meaning is Frame,
    {
        let mut horizontal = AxisScroll::default();
        let mut vertical = AxisScroll::default();
        match *self {
            Event::Enter { serial, .. } => Meaning::Event(PointerEventKind::Enter { serial }),
            Event::Leave { serial, .. } => Meaning::Event(PointerEventKind::Leave { serial }),
            Event::Motion { time, .. } => Meaning::Event(PointerEventKind::Motion { time }),
            Event::Button { serial, time, button, state } => match state {
                WEnum::Value(ButtonState::Pressed) => {
                    Meaning::Event(PointerEventKind::Press { time, button, serial })
                },
                WEnum::Value(ButtonState::Released) => {
                    Meaning::Event(PointerEventKind::Release { time, button, serial })
                },
                WEnum::Unknown(unknown) => Meaning::UnknownButtonState(unknown),
            },
            Event::Axis { time, axis, value } => match axis {
                WEnum::Value(axis) => {
                    match axis {
                        Axis::VerticalScroll => {
                            vertical.absolute = value as i64;
                        },
                        Axis::HorizontalScroll => {
                            horizontal.absolute = value as i64;
                        },
                    }
                    Meaning::Event(
                        PointerEventKind::Axis { time, horizontal, vertical, source: None },
                    )
                },
                WEnum::Unknown(unknown) => Meaning::UnknownAxis(unknown),
            },
            Event::Frame => Meaning::Frame,
            Event::AxisSource { axis_source } => match axis_source {
                WEnum::Value(source) => {
                    Meaning::Event(
                        PointerEventKind::Axis {
                            time: 0,
                            horizontal,
                            vertical,
                            source: Some(source),
                        },
                    )
                },
                WEnum::Unknown(unknown) => Meaning::UnknownAxisSource(unknown),
            },
            Event::AxisStop { time, axis } => match axis {
                WEnum::Value(axis) => {
                    match axis {
                        Axis::VerticalScroll => {
                            vertical.stop = true;
                        },
                        Axis::HorizontalScroll => {
                            horizontal.stop = true;
                        },
                    }
                    Meaning::Event(
                        PointerEventKind::Axis { time, horizontal, vertical, source: None },
                    )
                },
                WEnum::Unknown(unknown) => Meaning::UnknownAxis(unknown),
            },
            Event::AxisDiscrete { axis, discrete } => match axis {
                WEnum::Value(axis) => {
                    match axis {
                        Axis::VerticalScroll => {
                            vertical.discrete = discrete;
                        },
                        Axis::HorizontalScroll => {
                            horizontal.discrete = discrete;
                        },
                    }
                    Meaning::Event(
                        PointerEventKind::Axis { time: 0, horizontal, vertical, source: None },
                    )
                },
                WEnum::Unknown(unknown) => Meaning::UnknownAxis(unknown),
            },
        }
    }
}

impl PointerEvent {
    /// Both events are scrolls.
    pub open spec fn both_axis(self, other: PointerEvent) -> bool {
        self.kind is Axis && other.kind is Axis
    }

    /// What two scrolls have along the two axes can be added.
    pub open spec fn fits(self, other: PointerEvent) -> bool {
        &&& self.kind->horizontal.fits(other.kind->horizontal)
        &&& self.kind->vertical.fits(other.kind->vertical)
    }

    /// Two scrolls as one: the place of the first, all of what both scrolled, and the earliest
    /// time and source that are known. A time of 0 is "don't know".
    pub open spec fn merged(self, other: PointerEvent) -> PointerEvent {
        PointerEvent {
            kind: PointerEventKind::Axis {
                time: if self.kind->Axis_time == 0 {
                    other.kind->Axis_time
                } else {
                    self.kind->Axis_time
                },
                horizontal: self.kind->horizontal.plus(other.kind->horizontal),
                vertical: self.kind->vertical.plus(other.kind->vertical),
                source: if self.kind->source is Some {
                    self.kind->source
                } else {
                    other.kind->source
                },
            },
            ..self
        }
    }
}

/// The pending events once another one has come: a scroll becomes one with a scroll right before
/// it, any other event is put behind the rest.
pub open spec fn with_event(pending: Seq<PointerEvent>, event: PointerEvent) -> Seq<PointerEvent> {
    if pending.len() > 0 && pending.last().both_axis(event) {
        pending.drop_last().push(pending.last().merged(event))
    } else {
        pending.push(event)
    }
}

/// There is room for another event among the pending ones.
pub open spec fn can_take(pending: Seq<PointerEvent>, event: PointerEvent) -> bool {
    if pending.len() > 0 && pending.last().both_axis(event) {
        pending.last().fits(event)
    } else {
        room_for_one(pending.len())
    }
}

/// What is known of a pointer.
pub struct PointerModel {
    /// Surface the pointer most recently entered
    pub surface: Option<SurfaceId>,
    /// Position relative to the surface
    pub position: (i32, i32),
    /// Events of the current frame
    pub pending: Seq<PointerEvent>,
}

impl PointerModel {
    /// The pointer as it is before its first event.
    pub open spec fn initial() -> PointerModel {
        PointerModel { surface: None, position: (0, 0), pending: Seq::empty() }
    }

    /// The surface that the pointer is on after the event.
    pub open spec fn surface_after(self, event: Event) -> Option<SurfaceId> {
        match event {
            Event::Enter { surface, .. } => Some(surface),
            Event::Leave { surface, .. } => if self.surface == Some(surface) {
                None
            } else {
                self.surface
            },
            _ => self.surface,
        }
    }

    /// Where the pointer is after the event.
    pub open spec fn position_after(self, event: Event) -> (i32, i32) {
        match event {
            Event::Enter { surface_x, surface_y, .. } => (surface_x, surface_y),
            Event::Motion { surface_x, surface_y, .. } => (surface_x, surface_y),
            _ => self.position,
        }
    }

    /// The surface that the event is about: the one left, or else the one that the pointer is on.
    pub open spec fn target(self, event: Event) -> Option<SurfaceId> {
        match event {
            Event::Leave { surface, .. } => Some(surface),
            _ => self.surface_after(event),
        }
    }

    /// The pointer event that a protocol event stands for, if it stands for one and it is known
    /// which surface it is about.
    pub open spec fn reported(self, event: Event) -> Option<PointerEvent> {
        match (event.meaning(), self.target(event)) {
            (Meaning::Event(kind), Some(surface)) => Some(
                PointerEvent { surface, position: self.position_after(event), kind },
            ),
            _ => None,
        }
    }

    /// The event can be taken in: where it has to wait for the end of its frame, there is room.
    pub open spec fn accepts(self, version: u32, event: Event) -> bool {
        version >= FRAME_SINCE ==> match self.reported(event) {
            Some(reported) => can_take(self.pending, reported),
            None => true,
        }
    }

    /// The pointer after the event.
    pub open spec fn after(self, version: u32, event: Event) -> PointerModel {
        PointerModel {
            surface: self.surface_after(event),
            position: self.position_after(event),
            pending: match self.reported(event) {
                Some(reported) if version >= FRAME_SINCE => with_event(self.pending, reported),
                _ => if event is Frame {
                    Seq::empty()
                } else {
                    self.pending
                },
            },
        }
    }

    /// What has to be done about the event.
    pub open spec fn dispatched(self, version: u32, event: Event) -> Dispatched<Seq<PointerEvent>> {
        match event.meaning() {
            Meaning::Event(kind) => match self.reported(event) {
                Some(reported) => if version >= FRAME_SINCE {
                    Dispatched::Queued
                } else {
                    Dispatched::Deliver(seq![reported])
                },
                None => Dispatched::NoSurface(kind),
            },
            Meaning::Frame => if self.pending.len() == 0 {
                Dispatched::EmptyFrame
            } else {
                Dispatched::Deliver(self.pending)
            },
            Meaning::UnknownButtonState(unknown) => Dispatched::UnknownButtonState(unknown),
            Meaning::UnknownAxis(unknown) => Dispatched::UnknownAxis(unknown),
            Meaning::UnknownAxisSource(unknown) => Dispatched::UnknownAxisSource(unknown),
        }
    }

    /// No two scrolls are pending one right after the other.
    pub open spec fn scrolls_merged(self) -> bool {
        forall|i: int|
            0 <= i < self.pending.len() - 1 ==> !(#[trigger] self.pending[i]).both_axis(
                self.pending[i + 1],
            )
    }
}

/// The state of a pointer.
#[derive(Debug)]
pub struct PointerDataInner {
    /// Surface the pointer most recently entered
    pub surface: Option<SurfaceId>,
    /// Position relative to the surface, in 256ths of a pixel
    pub position: (i32, i32),
    /// List of pending events.  Only used for version >= 5.
    pub pending: PendingEvents,
}

impl View for PointerDataInner {
    type V = PointerModel;

    open spec fn view(&self) -> PointerModel {
        PointerModel {
            surface: self.surface,
            position: self.position,
            pending: queued(self.pending),
        }
    }
}

impl Default for PointerDataInner {
    fn default() -> (data: PointerDataInner)
        ensures
            data@ == PointerModel::initial(),
            data@.scrolls_merged(),
            data.surface is None,
            data.position == (0i32, 0i32),
            queued(data.pending).len() == 0,
    {
        PointerDataInner { surface: None, position: (0, 0), pending: PendingEvents::new() }
    }
}

impl PointerDataInner {
    /// The surface that the pointer is on after the event.
    fn surface_after(&self, event: &Event) -> (surface: Option<SurfaceId>)
        ensures
            surface == self@.surface_after(*event),
    {
        match *event {
            Event::Enter { surface, .. } => Some(surface),
            Event::Leave { surface, .. } => match self.surface {
                Some(entered) if entered == surface => None,
                _ => self.surface,
            },
            _ => self.surface,
        }
    }

    /// Where the pointer is after the event.
    fn position_after(&self, event: &Event) -> (position: (i32, i32))
        ensures
            position == self@.position_after(*event),
    {
        match *event {
            Event::Enter { surface_x, surface_y, .. } => (surface_x, surface_y),
            Event::Motion { surface_x, surface_y, .. } => (surface_x, surface_y),
            _ => self.position,
        }
    }

    /// The pointer event that a protocol event of this kind stands for, unless it is about no
    /// surface.
    fn report(&self, event: &Event, kind: PointerEventKind) -> (reported: Option<PointerEvent>)
        requires
            event.meaning() == Meaning::Event(kind),
        ensures
            reported == self@.reported(*event),
    {
        let leave_surface: Option<SurfaceId> = match *event {
            Event::Leave { surface, .. } => Some(surface),
            _ => None,
        };
        let position = self.position_after(event);
        match (leave_surface, self.surface_after(event)) {
            (Some(surface), _) => Some(PointerEvent { surface, position, kind }),
            (None, Some(surface)) => Some(PointerEvent { surface, position, kind }),
            (None, None) => None,
        }
    }

    /// Whether [`PointerDataInner::event`] can take in the event.
    ///
    /// What it cannot take in are scrolls that add up, within one frame, to more than can be
    /// counted, and more events in one frame than memory can hold.
    pub fn accepts(&self, version: u32, event: &Event) -> (accepts: bool)
        ensures
            accepts == self@.accepts(version, *event),
    {
        if version < FRAME_SINCE {
            return true;
        }
        let kind = match event.decode() {
            Meaning::Event(kind) => kind,
            _ => {
                return true;
            },
        };
        if self.report(event, kind).is_none() {
            return true;
        }
        if let PointerEventKind::Axis { horizontal: nh, vertical: nv, .. } = kind {
            if let Some(last) = self.pending.last() {
                if let PointerEventKind::Axis { horizontal: oh, vertical: ov, .. } = last.kind {
                    return oh.can_merge(&nh) && ov.can_merge(&nv);
                }
            }
        }
        self.pending.len() < isize::MAX as usize / 256
    }

    /// Merges a new Axis event with the previous event to create an event with more information
    /// and potentially diagonal scrolling. Any other event is put behind the pending ones.
    fn queue(&mut self, event: PointerEvent)
        requires
            can_take(old(self)@.pending, event),
        ensures
            final(self)@.pending == with_event(old(self)@.pending, event),
            final(self).surface == old(self).surface,
            final(self).position == old(self).position,
    {
        if let PointerEventKind::Axis { time: nt, horizontal: nh, vertical: nv, source: ns }
            = event.kind {
            if let Some(last) = self.pending.last_mut() {
                if let PointerEventKind::Axis {
                    time: ot,
                    horizontal: mut oh,
                    vertical: mut ov,
                    source: os,
                } = last.kind {
                    oh.merge(&nh);
                    ov.merge(&nv);
                    last.kind = PointerEventKind::Axis {
                        // A time of 0 is "don't know", so avoid using it if possible.
                        time: if ot == 0 {
                            nt
                        } else {
                            ot
                        },
                        horizontal: oh,
                        vertical: ov,
                        source: if os.is_some() {
                            os
                        } else {
                            ns
                        },
                    };
                    return ;
                }
            }
        }
        self.pending.push(event);
    }

    /// Takes in an event of a `wl_pointer` object of the given version and says what has to be
    /// done about it.
    pub fn event(&mut self, version: u32, event: Event) -> (dispatched: Dispatched<
        Vec<PointerEvent>,
    >)
        requires
            old(self)@.accepts(version, event),
        ensures
            final(self)@ == old(self)@.after(version, event),
            dispatched@ == old(self)@.dispatched(version, event),
            old(self)@.scrolls_merged() ==> final(self)@.scrolls_merged(),
            dispatched matches Dispatched::Deliver(events) ==> events@.len() > 0,
            event matches Event::Enter { surface, surface_x, surface_y, .. } ==> {
                &&& final(self).surface == Some(surface)
                &&& final(self).position == (surface_x, surface_y)
            },
            event matches Event::Leave { surface, .. } ==> {
                &&& old(self).surface == Some(surface) ==> final(self).surface is None
                &&& old(self).surface != Some(surface) ==> final(self).surface == old(self).surface
                &&& final(self).position == old(self).position
            },
            event matches Event::Motion { surface_x, surface_y, .. } ==> {
                &&& final(self).surface == old(self).surface
                &&& final(self).position == (surface_x, surface_y)
            },
            !(event is Enter || event is Leave || event is Motion) ==> {
                &&& final(self).surface == old(self).surface
                &&& final(self).position == old(self).position
            },
            event is Frame ==> {
                &&& queued(final(self).pending).len() == 0
                &&& queued(old(self).pending).len() == 0 ==> dispatched is EmptyFrame
                &&& queued(old(self).pending).len() > 0 ==> (dispatched matches Dispatched::Deliver(
                    events,
                ) && events@ == queued(old(self).pending))
            },
            version >= 5 && !(event is Frame) ==> !(dispatched is Deliver),
            version < 5 && !(event is Frame) ==> {
                &&& queued(final(self).pending) == queued(old(self).pending)
                &&& dispatched matches Dispatched::Deliver(events) ==> {
                    &&& events@.len() == 1
                    &&& events@[0].position == final(self).position
                    &&& event matches Event::Leave { surface, .. } ==> events@[0].surface == surface
                    &&& !(event is Leave) ==> final(self).surface == Some(events@[0].surface)
                }
            },
    {
        let kind = match event.decode() {
            Meaning::Event(kind) => kind,
            Meaning::Frame => {
                let mut pending = PendingEvents::new();
                core::mem::swap(&mut pending, &mut self.pending);
                if pending.len() == 0 {
                    return Dispatched::EmptyFrame;
                }
                return Dispatched::Deliver(pending.into_vec());
            },
            Meaning::UnknownButtonState(unknown) => {
                return Dispatched::UnknownButtonState(unknown);
            },
            Meaning::UnknownAxis(unknown) => {
                return Dispatched::UnknownAxis(unknown);
            },
            Meaning::UnknownAxisSource(unknown) => {
                return Dispatched::UnknownAxisSource(unknown);
            },
        };
        let reported = self.report(&event, kind);
        let surface = self.surface_after(&event);
        let position = self.position_after(&event);
        self.surface = surface;
        self.position = position;
        let reported = match reported {
            Some(reported) => reported,
            None => {
                return Dispatched::NoSurface(kind);
            },
        };
        if version < FRAME_SINCE {
            // No Frame events, send right away
            let events = vec![reported];
            assert(events@ == seq![reported]);
            Dispatched::Deliver(events)
        } else {
            self.queue(reported);
            Dispatched::Queued
        }
    }
}

} // verus!
