use smithay_client_toolkit::seat::pointer::{
    Axis, AxisScroll, AxisSource, ButtonState, Dispatched, Event, Meaning, PointerDataInner,
    PointerEvent, PointerEventKind, SurfaceId, ABSOLUTE_LIMIT, BTN_BACK, BTN_EXTRA, BTN_FORWARD,
    BTN_LEFT, BTN_MIDDLE, BTN_RIGHT, BTN_SIDE, BTN_TASK,
};
use smithay_client_toolkit::wire::WEnum;

const A: SurfaceId = SurfaceId(1);
const B: SurfaceId = SurfaceId(2);

fn enter(surface: SurfaceId) -> Event {
    Event::Enter { serial: 7, surface, surface_x: 256, surface_y: 512 }
}

fn scroll(absolute: i64, discrete: i32, stop: bool) -> AxisScroll {
    AxisScroll { absolute, discrete, stop }
}

fn entered(version: u32) -> PointerDataInner {
    let mut data = PointerDataInner::default();
    data.event(version, enter(A));
    data.event(version, Event::Frame);
    data
}

fn frame(data: &mut PointerDataInner, events: &[Event]) -> Dispatched<Vec<PointerEvent>> {
    for event in events {
        assert!(data.accepts(5, event));
        assert_eq!(data.event(5, *event), Dispatched::Queued);
    }
    data.event(5, Event::Frame)
}

fn on_a(kind: PointerEventKind) -> PointerEvent {
    PointerEvent { surface: A, position: (256, 512), kind }
}

fn vertical(value: i32, time: u32) -> Event {
    Event::Axis { time, axis: WEnum::Value(Axis::VerticalScroll), value }
}

#[test]
fn button_codes() {
    assert_eq!(
        [BTN_LEFT, BTN_RIGHT, BTN_MIDDLE, BTN_SIDE, BTN_EXTRA, BTN_FORWARD, BTN_BACK, BTN_TASK],
        [0x110, 0x111, 0x112, 0x113, 0x114, 0x115, 0x116, 0x117]
    );
}

#[test]
fn default_scroll_is_none() {
    assert!(AxisScroll::default().is_none());
    assert!(!scroll(1, 0, false).is_none());
    assert!(!scroll(0, -1, false).is_none());
    // To stop is no movement.
    assert!(scroll(0, 0, true).is_none());
    assert!(!scroll(1, 0, true).is_none());
}

#[test]
fn initial_state_is_empty() {
    let mut data = PointerDataInner::default();
    assert_eq!(data.surface, None);
    assert_eq!(data.position, (0, 0));
    assert_eq!(data.event(5, Event::Frame), Dispatched::EmptyFrame);
}

#[test]
fn pointer_events_are_small() {
    assert!(std::mem::size_of::<PointerEvent>() <= 128);
}

#[test]
fn decoding_of_each_event() {
    let none = AxisScroll::default();
    assert_eq!(enter(A).decode(), Meaning::Event(PointerEventKind::Enter { serial: 7 }));
    assert_eq!(
        Event::Leave { serial: 8, surface: A }.decode(),
        Meaning::Event(PointerEventKind::Leave { serial: 8 })
    );
    assert_eq!(
        Event::Motion { time: 9, surface_x: 1, surface_y: 2 }.decode(),
        Meaning::Event(PointerEventKind::Motion { time: 9 })
    );
    assert_eq!(
        Event::Button { serial: 1, time: 2, button: BTN_LEFT, state: WEnum::Value(ButtonState::Pressed) }
            .decode(),
        Meaning::Event(PointerEventKind::Press { time: 2, button: BTN_LEFT, serial: 1 })
    );
    assert_eq!(
        Event::Button { serial: 1, time: 2, button: BTN_LEFT, state: WEnum::Value(ButtonState::Released) }
            .decode(),
        Meaning::Event(PointerEventKind::Release { time: 2, button: BTN_LEFT, serial: 1 })
    );
    assert_eq!(
        vertical(-300, 4).decode(),
        Meaning::Event(PointerEventKind::Axis {
            time: 4,
            horizontal: none,
            vertical: scroll(-300, 0, false),
            source: None
        })
    );
    assert_eq!(
        Event::Axis { time: 4, axis: WEnum::Value(Axis::HorizontalScroll), value: 5 }.decode(),
        Meaning::Event(PointerEventKind::Axis {
            time: 4,
            horizontal: scroll(5, 0, false),
            vertical: none,
            source: None
        })
    );
    assert_eq!(
        Event::AxisSource { axis_source: WEnum::Value(AxisSource::Finger) }.decode(),
        Meaning::Event(PointerEventKind::Axis {
            time: 0,
            horizontal: none,
            vertical: none,
            source: Some(AxisSource::Finger)
        })
    );
    assert_eq!(
        Event::AxisStop { time: 6, axis: WEnum::Value(Axis::HorizontalScroll) }.decode(),
        Meaning::Event(PointerEventKind::Axis {
            time: 6,
            horizontal: scroll(0, 0, true),
            vertical: none,
            source: None
        })
    );
    assert_eq!(
        Event::AxisStop { time: 6, axis: WEnum::Value(Axis::VerticalScroll) }.decode(),
        Meaning::Event(PointerEventKind::Axis {
            time: 6,
            horizontal: none,
            vertical: scroll(0, 0, true),
            source: None
        })
    );
    assert_eq!(
        Event::AxisDiscrete { axis: WEnum::Value(Axis::HorizontalScroll), discrete: -2 }.decode(),
        Meaning::Event(PointerEventKind::Axis {
            time: 0,
            horizontal: scroll(0, -2, false),
            vertical: none,
            source: None
        })
    );
    assert_eq!(
        Event::AxisDiscrete { axis: WEnum::Value(Axis::VerticalScroll), discrete: 3 }.decode(),
        Meaning::Event(PointerEventKind::Axis {
            time: 0,
            horizontal: none,
            vertical: scroll(0, 3, false),
            source: None
        })
    );
    assert_eq!(Event::Frame.decode(), Meaning::Frame);
}

#[test]
fn unknown_values_are_ignored() {
    let mut data = entered(5);
    assert_eq!(
        data.event(5, Event::Button { serial: 1, time: 2, button: 3, state: WEnum::Unknown(9) }),
        Dispatched::UnknownButtonState(9)
    );
    assert_eq!(
        data.event(5, Event::Axis { time: 1, axis: WEnum::Unknown(10), value: 3 }),
        Dispatched::UnknownAxis(10)
    );
    assert_eq!(
        data.event(5, Event::AxisStop { time: 1, axis: WEnum::Unknown(11) }),
        Dispatched::UnknownAxis(11)
    );
    assert_eq!(
        data.event(5, Event::AxisDiscrete { axis: WEnum::Unknown(12), discrete: 1 }),
        Dispatched::UnknownAxis(12)
    );
    assert_eq!(
        data.event(5, Event::AxisSource { axis_source: WEnum::Unknown(13) }),
        Dispatched::UnknownAxisSource(13)
    );
    assert_eq!(data.event(5, Event::Frame), Dispatched::EmptyFrame);
    assert_eq!(data.surface, Some(A));
}

#[test]
fn delivered_at_once_before_frames() {
    let mut data = PointerDataInner::default();
    assert_eq!(
        data.event(4, enter(A)),
        Dispatched::Deliver(vec![on_a(PointerEventKind::Enter { serial: 7 })])
    );
    assert_eq!(
        data.event(4, Event::Motion { time: 3, surface_x: -1, surface_y: 0 }),
        Dispatched::Deliver(vec![PointerEvent {
            surface: A,
            position: (-1, 0),
            kind: PointerEventKind::Motion { time: 3 }
        }])
    );
    assert_eq!(data.event(4, Event::Frame), Dispatched::EmptyFrame);
}

#[test]
fn release_and_leave_in_one_frame() {
    let mut data = entered(5);
    let release = Event::Button {
        serial: 11,
        time: 12,
        button: BTN_LEFT,
        state: WEnum::Value(ButtonState::Released),
    };
    assert_eq!(
        frame(&mut data, &[release, Event::Leave { serial: 13, surface: A }]),
        Dispatched::Deliver(vec![
            on_a(PointerEventKind::Release { time: 12, button: BTN_LEFT, serial: 11 }),
            on_a(PointerEventKind::Leave { serial: 13 }),
        ])
    );
    assert_eq!(data.surface, None);
}

#[test]
fn enter_and_leave_in_one_frame() {
    let mut data = entered(5);
    let delivered = frame(&mut data, &[Event::Leave { serial: 1, surface: A }, enter(B)]);
    assert_eq!(
        delivered,
        Dispatched::Deliver(vec![
            on_a(PointerEventKind::Leave { serial: 1 }),
            PointerEvent {
                surface: B,
                position: (256, 512),
                kind: PointerEventKind::Enter { serial: 7 }
            },
        ])
    );
    assert_eq!(data.surface, Some(B));
}

#[test]
fn late_leave_keeps_the_new_surface() {
    let mut data = entered(5);
    let delivered = frame(&mut data, &[enter(B), Event::Leave { serial: 1, surface: A }]);
    assert_eq!(data.surface, Some(B));
    match delivered {
        Dispatched::Deliver(events) => {
            assert_eq!(events.len(), 2);
            assert_eq!(events[0].surface, B);
            assert_eq!(events[1].surface, A);
        }
        other => panic!("unexpected {:?}", other),
    }
}

#[test]
fn nothing_is_reported_off_surface() {
    let mut data = PointerDataInner::default();
    let motion = Event::Motion { time: 3, surface_x: 5, surface_y: 6 };
    assert_eq!(
        data.event(5, motion),
        Dispatched::NoSurface(PointerEventKind::Motion { time: 3 })
    );
    // The position is kept all the same.
    assert_eq!(data.position, (5, 6));
    assert_eq!(data.event(5, Event::Frame), Dispatched::EmptyFrame);
    assert_eq!(
        data.event(4, vertical(1, 1)),
        Dispatched::NoSurface(PointerEventKind::Axis {
            time: 1,
            horizontal: AxisScroll::default(),
            vertical: scroll(1, 0, false),
            source: None
        })
    );
    assert_eq!(data.event(5, Event::Leave { serial: 4, surface: A }), Dispatched::Queued);
}

#[test]
fn scrolls_merge_into_a_diagonal_one() {
    let mut data = entered(5);
    let delivered = frame(
        &mut data,
        &[
            Event::AxisSource { axis_source: WEnum::Value(AxisSource::Wheel) },
            Event::AxisDiscrete { axis: WEnum::Value(Axis::VerticalScroll), discrete: 2 },
            vertical(2560, 77),
            Event::Axis { time: 78, axis: WEnum::Value(Axis::HorizontalScroll), value: -256 },
            vertical(-60, 79),
            Event::AxisStop { time: 80, axis: WEnum::Value(Axis::HorizontalScroll) },
        ],
    );
    assert_eq!(
        delivered,
        Dispatched::Deliver(vec![on_a(PointerEventKind::Axis {
            time: 77,
            horizontal: scroll(-256, 0, true),
            vertical: scroll(2500, 2, false),
            source: Some(AxisSource::Wheel),
        })])
    );
    assert_eq!(data.event(5, Event::Frame), Dispatched::EmptyFrame);
}

#[test]
fn first_source_wins() {
    let mut data = entered(5);
    let delivered = frame(
        &mut data,
        &[
            vertical(1, 0),
            Event::AxisSource { axis_source: WEnum::Value(AxisSource::Continuous) },
            Event::AxisSource { axis_source: WEnum::Value(AxisSource::WheelTilt) },
        ],
    );
    assert_eq!(
        delivered,
        Dispatched::Deliver(vec![on_a(PointerEventKind::Axis {
            time: 0,
            horizontal: AxisScroll::default(),
            vertical: scroll(1, 0, false),
            source: Some(AxisSource::Continuous),
        })])
    );
}

#[test]
fn scrolls_apart_do_not_merge() {
    let mut data = entered(5);
    let motion = Event::Motion { time: 5, surface_x: 0, surface_y: 0 };
    match frame(&mut data, &[vertical(1, 1), motion, vertical(2, 2)]) {
        Dispatched::Deliver(events) => {
            assert_eq!(events.len(), 3);
            assert_eq!(events[0].position, (256, 512));
            assert_eq!(events[1].kind, PointerEventKind::Motion { time: 5 });
            assert_eq!(
                events[2].kind,
                PointerEventKind::Axis {
                    time: 2,
                    horizontal: AxisScroll::default(),
                    vertical: scroll(2, 0, false),
                    source: None
                }
            );
        }
        other => panic!("unexpected {:?}", other),
    }
}

#[test]
fn merged_scroll_stays_where_it_began() {
    let mut data = entered(5);
    assert_eq!(data.event(5, vertical(1, 1)), Dispatched::Queued);
    assert_eq!(data.event(5, vertical(1, 1)), Dispatched::Queued);
    data.position = (9, 9);
    assert_eq!(data.event(5, vertical(1, 1)), Dispatched::Queued);
    match data.event(5, Event::Frame) {
        Dispatched::Deliver(events) => {
            assert_eq!(events.len(), 1);
            assert_eq!(events[0].position, (256, 512));
        }
        other => panic!("unexpected {:?}", other),
    }
}

#[test]
fn long_frames_keep_their_order() {
    let mut data = entered(5);
    let events: Vec<Event> =
        (0..40u32).map(|time| Event::Motion { time, surface_x: time as i32, surface_y: 0 }).collect();
    match frame(&mut data, &events) {
        Dispatched::Deliver(delivered) => {
            assert_eq!(delivered.len(), 40);
            for (time, event) in delivered.iter().enumerate() {
                assert_eq!(event.position, (time as i32, 0));
                assert_eq!(event.kind, PointerEventKind::Motion { time: time as u32 });
            }
        }
        other => panic!("unexpected {:?}", other),
    }
}

#[test]
fn scrolls_beyond_counting_are_not_accepted() {
    let mut data = entered(5);
    let step = |discrete: i32| Event::AxisDiscrete {
        axis: WEnum::Value(Axis::VerticalScroll),
        discrete,
    };
    assert_eq!(data.event(5, step(i32::MAX)), Dispatched::Queued);
    assert!(!data.accepts(5, &step(1)));
    assert!(data.accepts(5, &step(-1)));
    assert!(data.accepts(4, &step(1)));
    assert!(data.accepts(5, &Event::Frame));
    data.event(5, Event::Frame);
    assert!(data.accepts(5, &step(1)));
    assert_eq!(ABSOLUTE_LIMIT, 1 << 53);
}

#[test]
fn pixels_are_exact() {
    // What the protocol counts in 256ths of a pixel, a double counts in pixels.
    let mut data = entered(5);
    match frame(&mut data, &[vertical(i32::MAX, 1), vertical(i32::MAX, 1), vertical(1, 1)]) {
        Dispatched::Deliver(events) => match events[0].kind {
            PointerEventKind::Axis { vertical, .. } => {
                let pixels = i32::MAX as f64 / 256. + i32::MAX as f64 / 256. + 1. / 256.;
                assert_eq!(vertical.absolute as f64 / 256., pixels);
            }
            other => panic!("unexpected {:?}", other),
        },
        other => panic!("unexpected {:?}", other),
    }
}

#[test]
fn scrolling_adds_up_over_frames() {
    let mut data = entered(5);
    let step = |discrete: i32| Event::AxisDiscrete {
        axis: WEnum::Value(Axis::HorizontalScroll),
        discrete,
    };
    let motion = Event::Motion { time: 1, surface_x: 0, surface_y: 0 };
    let frames = [
        vec![step(1), vertical(-100, 0), step(2)],
        vec![vertical(40, 3), motion, step(-7), vertical(60, 4)],
        vec![motion],
    ];
    let (mut discrete, mut absolute) = (0, 0);
    for events in &frames {
        match frame(&mut data, events) {
            Dispatched::Deliver(delivered) => {
                for event in delivered {
                    if let PointerEventKind::Axis { horizontal, vertical, .. } = event.kind {
                        discrete += horizontal.discrete;
                        absolute += vertical.absolute;
                    }
                }
            }
            other => panic!("unexpected {:?}", other),
        }
    }
    assert_eq!((discrete, absolute), (-4, 0));
}

#[test]
fn without_frames_everything_is_delivered_in_order() {
    let mut data = PointerDataInner::default();
    let mut delivered = Vec::new();
    let events = [
        vertical(1, 1),
        enter(A),
        vertical(2, 2),
        Event::Frame,
        vertical(3, 3),
        Event::Leave { serial: 9, surface: A },
        vertical(4, 4),
    ];
    for event in &events {
        if let Dispatched::Deliver(events) = data.event(1, *event) {
            assert_eq!(events.len(), 1);
            delivered.extend(events);
        }
    }
    let axis = |absolute: i64, time: u32| PointerEventKind::Axis {
        time,
        horizontal: AxisScroll::default(),
        vertical: scroll(absolute, 0, false),
        source: None,
    };
    let kinds: Vec<PointerEventKind> = delivered.iter().map(|event| event.kind).collect();
    assert_eq!(
        kinds,
        vec![
            PointerEventKind::Enter { serial: 7 },
            axis(2, 2),
            axis(3, 3),
            PointerEventKind::Leave { serial: 9 },
        ]
    );
}

#[test]
fn scrolls_merge_in_any_order() {
    let parts = [scroll(5, -2, false), scroll(-9, 7, true), scroll(100, 0, false)];
    let merged = |order: [usize; 3]| {
        let mut sum = AxisScroll::default();
        for i in order {
            assert!(sum.can_merge(&parts[i]));
            sum.merge(&parts[i]);
        }
        sum
    };
    assert_eq!(merged([0, 1, 2]), scroll(96, 5, true));
    assert_eq!(merged([2, 0, 1]), merged([0, 1, 2]));
    assert_eq!(merged([1, 2, 0]), merged([0, 1, 2]));
    assert!(!scroll(0, i32::MIN, false).can_merge(&scroll(0, -1, false)));
    assert!(!scroll(ABSOLUTE_LIMIT, 0, false).can_merge(&scroll(1, 0, false)));
    assert!(scroll(ABSOLUTE_LIMIT, 0, false).can_merge(&scroll(-1, 0, false)));
}

#[test]
fn each_run_of_scrolls_becomes_one_event() {
    let mut data = entered(5);
    let motion = |time: u32| Event::Motion { time, surface_x: 256, surface_y: 512 };
    let events = [
        vertical(1, 0),
        vertical(2, 8),
        motion(1),
        motion(2),
        vertical(4, 9),
        vertical(8, 9),
        vertical(16, 9),
        motion(3),
    ];
    let axis = |absolute: i64, time: u32| {
        on_a(PointerEventKind::Axis {
            time,
            horizontal: AxisScroll::default(),
            vertical: scroll(absolute, 0, false),
            source: None,
        })
    };
    assert_eq!(
        frame(&mut data, &events),
        Dispatched::Deliver(vec![
            axis(3, 8),
            on_a(PointerEventKind::Motion { time: 1 }),
            on_a(PointerEventKind::Motion { time: 2 }),
            axis(28, 9),
            on_a(PointerEventKind::Motion { time: 3 }),
        ])
    );
}
