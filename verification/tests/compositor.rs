use smithay_client_toolkit::compositor::{
    CompositorState, OutputId, SurfaceData, SurfaceEvent, COMPOSITOR_MAX_VERSION,
    COMPOSITOR_MIN_VERSION,
};
use smithay_client_toolkit::error::GlobalError;
use smithay_client_toolkit::registry::GlobalProxy;

const LEFT: OutputId = OutputId(10);
const RIGHT: OutputId = OutputId(20);

#[test]
fn compositor_is_missing_until_bound() {
    let mut state: CompositorState<u32> = CompositorState::new();
    assert_eq!(state.wl_compositor(), Err(GlobalError::MissingGlobal));
    assert_eq!(state.create_region(), Err(GlobalError::MissingGlobal));
    assert!(matches!(state.create_surface(), Err(GlobalError::MissingGlobal)));
    state.ready(Ok::<u32, ()>(3));
    assert_eq!(state.wl_compositor(), Ok(&3));
    assert_eq!(state.create_region(), Ok(&3));
    let (compositor, data) = state.create_surface().unwrap();
    assert_eq!(*compositor, 3);
    assert_eq!(data.scale_factor(), 1);
    assert!(data.outputs().is_empty());
    state.ready(Err::<u32, &str>("unsupported version"));
    assert_eq!(state.wl_compositor(), Err(GlobalError::MissingGlobal));
    assert_eq!((COMPOSITOR_MIN_VERSION, COMPOSITOR_MAX_VERSION), (1, 4));
}

#[test]
fn global_proxy() {
    assert_eq!(GlobalProxy::<u8>::new().get(), Err(GlobalError::MissingGlobal));
    assert_eq!(GlobalProxy::from_bind(Ok::<u8, ()>(5)).get(), Ok(&5));
    assert_eq!(GlobalProxy::<u8>::from_bind(Err(())).get(), Err(GlobalError::MissingGlobal));
}

#[test]
fn outputs_are_entered_and_left() {
    let mut data = SurfaceData::default();
    data.event(SurfaceEvent::Enter { output: LEFT });
    data.event(SurfaceEvent::Enter { output: RIGHT });
    data.event(SurfaceEvent::Enter { output: LEFT });
    assert_eq!(data.outputs(), vec![LEFT, RIGHT, LEFT]);
    data.event(SurfaceEvent::Leave { output: LEFT });
    assert_eq!(data.outputs(), vec![RIGHT]);
    data.event(SurfaceEvent::Leave { output: LEFT });
    assert_eq!(data.outputs(), vec![RIGHT]);
    data.event(SurfaceEvent::Enter { output: LEFT });
    data.event(SurfaceEvent::Leave { output: LEFT });
    assert_eq!(data.outputs(), vec![RIGHT]);
}

#[test]
fn scale_factor_is_the_largest() {
    let mut data = SurfaceData::default();
    data.event(SurfaceEvent::Enter { output: LEFT });
    // The same factor as before is no change.
    assert_eq!(data.update_scale_factor(&vec![Some(1)]), None);
    data.event(SurfaceEvent::Enter { output: RIGHT });
    assert_eq!(data.update_scale_factor(&vec![Some(1), Some(3)]), Some(3));
    assert_eq!(data.update_scale_factor(&vec![Some(2), Some(3)]), None);
    assert_eq!(data.scale_factor(), 3);
    data.event(SurfaceEvent::Leave { output: RIGHT });
    assert_eq!(data.update_scale_factor(&vec![Some(2)]), Some(2));
    data.event(SurfaceEvent::Leave { output: LEFT });
    // Without any output the factor stays.
    assert_eq!(data.update_scale_factor(&vec![]), None);
    assert_eq!(data.scale_factor(), 2);
}

#[test]
fn outputs_without_scale_factor_do_not_count() {
    let mut data = SurfaceData::default();
    data.event(SurfaceEvent::Enter { output: LEFT });
    data.event(SurfaceEvent::Enter { output: RIGHT });
    assert_eq!(data.update_scale_factor(&vec![None, None]), None);
    assert_eq!(data.scale_factor(), 1);
    assert_eq!(data.update_scale_factor(&vec![None, Some(-4)]), Some(-4));
    assert_eq!(data.update_scale_factor(&vec![Some(2), None]), Some(2));
    assert_eq!(data.update_scale_factor(&vec![Some(5), Some(4)]), Some(5));
}

#[test]
fn history_of_a_surface() {
    let third = OutputId(30);
    let enter = |output: OutputId| SurfaceEvent::Enter { output };
    let leave = |output: OutputId| SurfaceEvent::Leave { output };
    let scale = |output: &OutputId| match *output {
        LEFT => Some(2),
        RIGHT => Some(3),
        _ => None,
    };
    let mut data = SurfaceData::default();
    let steps = [
        (leave(LEFT), vec![], 1),
        (enter(third), vec![third], 1),
        (enter(LEFT), vec![third, LEFT], 2),
        (enter(RIGHT), vec![third, LEFT, RIGHT], 3),
        (leave(LEFT), vec![third, RIGHT], 3),
        (enter(LEFT), vec![third, RIGHT, LEFT], 3),
        (leave(RIGHT), vec![third, LEFT], 2),
        (leave(LEFT), vec![third], 2),
        (leave(third), vec![], 2),
    ];
    for (event, outputs, factor) in steps {
        let before = data.scale_factor();
        data.event(event);
        assert_eq!(data.outputs(), outputs);
        let factors: Vec<Option<i32>> = outputs.iter().map(scale).collect();
        let changed = data.update_scale_factor(&factors);
        assert_eq!(data.scale_factor(), factor);
        assert_eq!(changed, if factor == before { None } else { Some(factor) });
    }
}
