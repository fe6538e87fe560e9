//! The compositor global, and what is kept for each surface that it makes.

use crate::error::GlobalError;
use crate::registry::GlobalProxy;
use vstd::prelude::*;

verus! {

/// The lowest version of the compositor global that can be bound.
pub const COMPOSITOR_MIN_VERSION: u32 = 1;

/// The highest version of the compositor global that can be bound.
pub const COMPOSITOR_MAX_VERSION: u32 = 4;

/// The scale factor of a surface that no output has scaled yet.
pub const INITIAL_SCALE_FACTOR: i32 = 1;

/// The compositor global, by a proxy of type `C`.
#[derive(Debug)]
pub struct CompositorState<C> {
    pub wl_compositor: GlobalProxy<C>,
}

impl<C> CompositorState<C> {
    pub fn new() -> (state: CompositorState<C>)
        ensures
            state.wl_compositor == GlobalProxy::<C>::NotPresent,
    {
        CompositorState { wl_compositor: GlobalProxy::new() }
    }

    pub fn wl_compositor(&self) -> (compositor: Result<&C, GlobalError>)
        ensures
            compositor == match self.wl_compositor {
                GlobalProxy::Bound(bound) => Ok::<&C, GlobalError>(&bound),
                GlobalProxy::NotPresent => Err::<&C, GlobalError>(GlobalError::MissingGlobal),
            },
    {
        self.wl_compositor.get()
    }

    /// The compositor to ask for a new surface, and the data to attach to the surface.
    pub fn create_surface(&self) -> (request: Result<(&C, SurfaceData), GlobalError>)
        ensures
            match (self.wl_compositor, request) {
                (GlobalProxy::Bound(bound), Ok((compositor, data))) => {
                    &&& *compositor == bound
                    &&& data@ == SurfaceModel::initial()
                    &&& data@.scale_factor == 1
                    &&& data@.outputs.len() == 0
                },
                (GlobalProxy::NotPresent, Err(error)) => error == GlobalError::MissingGlobal,
                _ => false,
            },
    {
        match self.wl_compositor.get() {
            Ok(compositor) => Ok((compositor, SurfaceData::default())),
            Err(error) => Err(error),
        }
    }

    /// The compositor to ask for a new region.
    pub fn create_region(&self) -> (compositor: Result<&C, GlobalError>)
        ensures
            compositor == match self.wl_compositor {
                GlobalProxy::Bound(bound) => Ok::<&C, GlobalError>(&bound),
                GlobalProxy::NotPresent => Err::<&C, GlobalError>(GlobalError::MissingGlobal),
            },
    {
        self.wl_compositor.get()
    }

    /// Keeps what the attempt to bind the compositor gave, once the globals are listed.
    pub fn ready<E>(&mut self, bound: Result<C, E>)
        ensures
            final(self).wl_compositor == match bound {
                Ok(bound) => GlobalProxy::Bound(bound),
                Err(_) => GlobalProxy::NotPresent,
            },
    {
        self.wl_compositor = GlobalProxy::from_bind(bound);
    }
}

/// An output, by a number that tells it apart from every other output.
#[derive(Clone, Copy, Debug, PartialEq, Eq, Structural)]
pub struct OutputId(pub u64);

/// An event of the `wl_surface` protocol object.
#[derive(Clone, Copy, Debug, PartialEq, Eq, Structural)]
pub enum SurfaceEvent {
    Enter { output: OutputId },
    Leave { output: OutputId },
}

/// What is known of a surface.
pub struct SurfaceModel {
    /// The scale factor of the output with the highest scale factor.
    pub scale_factor: i32,
    /// The outputs the surface is currently inside.
    pub outputs: Seq<OutputId>,
}

/// The largest of the scale factors that are known.
pub open spec fn largest(factors: Seq<Option<i32>>) -> Option<i32>
    decreases factors.len(),
{
    if factors.len() == 0 {
        None
    } else {
        match (largest(factors.drop_last()), factors.last()) {
            (Some(before), Some(factor)) => Some(
                if before > factor {
                    before
                } else {
                    factor
                },
            ),
            (before, None) => before,
            (None, factor) => factor,
        }
    }
}

impl SurfaceModel {
    /// A surface that has entered no output.
    pub open spec fn initial() -> SurfaceModel {
        SurfaceModel { scale_factor: INITIAL_SCALE_FACTOR, outputs: Seq::empty() }
    }

    /// The surface after the event, before the scale factors of its outputs are looked up.
    pub open spec fn after(self, event: SurfaceEvent) -> SurfaceModel {
        SurfaceModel {
            outputs: match event {
                SurfaceEvent::Enter { output } => self.outputs.push(output),
                SurfaceEvent::Leave { output } => self.outputs.filter(|o: OutputId| o != output),
            },
            ..self
        }
    }

    /// The surface once the scale factors of its outputs are looked up. Without any, the surface
    /// has left its only output and keeps its scale factor.
    pub open spec fn scaled(self, factors: Seq<Option<i32>>) -> SurfaceModel {
        SurfaceModel {
            scale_factor: match largest(factors) {
                Some(factor) => factor,
                None => self.scale_factor,
            },
            ..self
        }
    }
}

/// Data associated with a surface.
#[derive(Debug)]
pub struct SurfaceData {
    scale_factor: i32,
    outputs: Vec<OutputId>,
}

impl View for SurfaceData {
    type V = SurfaceModel;

    closed spec fn view(&self) -> SurfaceModel {
        SurfaceModel { scale_factor: self.scale_factor, outputs: self.outputs@ }
    }
}

impl Default for SurfaceData {
    fn default() -> (data: SurfaceData)
        ensures
            data@ == SurfaceModel::initial(),
            data@.scale_factor == 1,
            data@.outputs.len() == 0,
    {
        SurfaceData { scale_factor: INITIAL_SCALE_FACTOR, outputs: Vec::new() }
    }
}

impl SurfaceData {
    /// The scale factor of the output with the highest scale factor.
    pub fn scale_factor(&self) -> (factor: i32)
        ensures
            factor == self@.scale_factor,
    {
        self.scale_factor
    }

    /// The outputs the surface is currently inside.
    pub fn outputs(&self) -> (outputs: Vec<OutputId>)
        ensures
            outputs@ == self@.outputs,
    {
        let mut outputs: Vec<OutputId> = Vec::new();
        for i in 0..self.outputs.len()
            invariant
                outputs@ == self.outputs@.take(i as int),
        {
            outputs.push(self.outputs[i]);
            assert(self.outputs@.take(i + 1) =~= self.outputs@.take(i as int).push(
                self.outputs@[i as int],
            ));
        }
        assert(self.outputs@.take(self.outputs@.len() as int) =~= self.outputs@);
        outputs
    }

    /// Takes in that the surface entered or left an output. The scale factors of the outputs that
    /// the surface is then inside are to be looked up for [`SurfaceData::update_scale_factor`].
    pub fn event(&mut self, event: SurfaceEvent)
        ensures
            final(self)@ == old(self)@.after(event),
    {
        match event {
            SurfaceEvent::Enter { output } => {
                self.outputs.push(output);
            },
            SurfaceEvent::Leave { output } => {
                let mut outputs: Vec<OutputId> = Vec::new();
                let ghost others = |o: OutputId| o != output;
                for i in 0..self.outputs.len()
                    invariant
                        others == (|o: OutputId| o != output),
                        outputs@ == self.outputs@.take(i as int).filter(others),
                {
                    reveal(Seq::filter);
                    assert(self.outputs@.take(i + 1).drop_last() =~= self.outputs@.take(i as int));
                    if self.outputs[i] != output {
                        outputs.push(self.outputs[i]);
                    }
                }
                assert(self.outputs@.take(self.outputs@.len() as int) =~= self.outputs@);
                self.outputs = outputs;
            },
        }
    }

    /// Computes the new max of the scale factors for all outputs this surface is displayed on,
    /// from what is known of each of them, and returns it where it is a new one.
    pub fn update_scale_factor(&mut self, factors: &Vec<Option<i32>>) -> (changed: Option<i32>)
        requires
            factors@.len() == old(self)@.outputs.len(),
        ensures
            final(self)@ == old(self)@.scaled(factors@),
            changed == (if final(self)@.scale_factor == old(self)@.scale_factor {
                None
            } else {
                Some(final(self)@.scale_factor)
            }),
    {
        let mut found: Option<i32> = None;
        for i in 0..factors.len()
            invariant
                found == largest(factors@.take(i as int)),
        {
            assert(factors@.take(i + 1).drop_last() =~= factors@.take(i as int));
            found = match (found, factors[i]) {
                (Some(before), Some(factor)) => Some(
                    if before > factor {
                        before
                    } else {
                        factor
                    },
                ),
                (before, None) => before,
                (None, factor) => factor,
            };
        }
        assert(factors@.take(factors@.len() as int) =~= factors@);
        match found {
            // If no scale factor is found, because the surface has left its only output, do not
            // change the scale factor.
            None => None,
            Some(factor) if factor == self.scale_factor => None,
            Some(factor) => {
                self.scale_factor = factor;
                Some(factor)
            },
        }
    }
}

/// What is known of a surface is what its data holds.
proof fn lemma_data_is_what_is_known(data: SurfaceData)
    ensures
        data@.scale_factor == data.scale_factor,
        data@.outputs == data.outputs@,
{
}

/// The compositor can be bound in versions 1 to 4 and in no other.
pub proof fn lemma_versions_that_can_be_bound(version: u32)
    ensures
        COMPOSITOR_MIN_VERSION <= version <= COMPOSITOR_MAX_VERSION <==> 1 <= version <= 4,
{
}

/// A surface starts inside no output, with a scale factor of 1.
pub proof fn lemma_a_surface_starts_unscaled()
    ensures
        SurfaceModel::initial().scale_factor == 1,
        SurfaceModel::initial().outputs.len() == 0,
{
}

/// An output that is entered comes behind all others. Neither entering nor leaving changes the
/// scale factor by itself, and a look at the scale factors does not change the outputs.
pub proof fn lemma_entering_an_output(
    surface: SurfaceModel,
    output: OutputId,
    factors: Seq<Option<i32>>,
)
    ensures
        surface.after(SurfaceEvent::Enter { output }).outputs == surface.outputs.push(output),
        surface.after(SurfaceEvent::Enter { output }).scale_factor == surface.scale_factor,
        surface.after(SurfaceEvent::Leave { output }).scale_factor == surface.scale_factor,
        surface.scaled(factors).outputs == surface.outputs,
{
}

/// The outputs of a surface that has left one keep their order: it does not matter whether one of
/// them was entered before or after the other was left.
pub proof fn lemma_leaving_commutes_with_entering(
    surface: SurfaceModel,
    output: OutputId,
    other: OutputId,
)
    requires
        other != output,
    ensures
        surface.after(SurfaceEvent::Enter { output: other }).after(SurfaceEvent::Leave { output })
            == surface.after(SurfaceEvent::Leave { output }).after(
            SurfaceEvent::Enter { output: other },
        ),
{
    reveal(Seq::filter);
    assert(surface.outputs.push(other).drop_last() =~= surface.outputs);
}

/// The largest scale factor is that of one of the outputs, no output has a larger one, and there
/// is none only where no output has one.
pub proof fn lemma_largest_is_the_maximum(factors: Seq<Option<i32>>)
    ensures
        match largest(factors) {
            Some(factor) => {
                &&& factors.contains(Some(factor))
                &&& forall|i: int|
                    0 <= i < factors.len() && (#[trigger] factors[i]) is Some ==> factors[i]->0
                        <= factor
            },
            None => forall|i: int| 0 <= i < factors.len() ==> (#[trigger] factors[i]) is None,
        },
    decreases factors.len(),
{
    if factors.len() > 0 {
        let before = factors.drop_last();
        lemma_largest_is_the_maximum(before);
        assert forall|i: int| 0 <= i < before.len() implies factors[i] == #[trigger] before[i] by {}
        if largest(before) is Some && largest(factors) == largest(before) {
            let i = choose|i: int| 0 <= i < before.len() && before[i] == largest(before);
            assert(factors[i] == largest(factors));
        } else if largest(factors) is Some {
            assert(factors[factors.len() - 1] == largest(factors));
        }
        assert forall|i: int| 0 <= i < factors.len() - 1 implies #[trigger] factors[i]
            == before[i] by {}
    }
}

/// A surface that has left an output is not inside it, however often it entered, and is inside
/// every other output as before.
pub proof fn lemma_leaving_an_output(surface: SurfaceModel, output: OutputId)
    ensures
        !surface.after(SurfaceEvent::Leave { output }).outputs.contains(output),
        forall|other: OutputId|
            other != output ==> (#[trigger] surface.after(
                SurfaceEvent::Leave { output },
            ).outputs.contains(other) <==> surface.outputs.contains(other)),
{
    broadcast use vstd::seq_lib::group_filter_ensures;

    let others = |o: OutputId| o != output;
    let left = surface.outputs.filter(others);
    assert forall|other: OutputId| other != output implies (#[trigger] left.contains(other)
        <==> surface.outputs.contains(other)) by {
        if surface.outputs.contains(other) {
            let i = choose|i: int| 0 <= i < surface.outputs.len() && surface.outputs[i] == other;
            assert(others(surface.outputs[i]));
        }
        if left.contains(other) {
            surface.outputs.lemma_filter_contains_rev(others, other);
        }
    }
}

/// Nothing is filtered out of outputs that do not hold the one to be filtered out.
proof fn lemma_filter_keeps_others(outputs: Seq<OutputId>, output: OutputId)
    requires
        !outputs.contains(output),
    ensures
        outputs.filter(|o: OutputId| o != output) == outputs,
    decreases outputs.len(),
{
    reveal(Seq::filter);
    if outputs.len() > 0 {
        let before = outputs.drop_last();
        assert(outputs[outputs.len() - 1] != output);
        assert forall|i: int| 0 <= i < before.len() implies #[trigger] before[i] != output by {
            assert(outputs[i] == before[i]);
        }
        lemma_filter_keeps_others(before, output);
        assert(before.push(outputs.last()) =~= outputs);
    }
}

/// To leave an output that the surface is not inside changes nothing, and to enter and then leave
/// one brings the surface back to where it was.
pub proof fn lemma_leaving_undoes_entering(surface: SurfaceModel, output: OutputId)
    requires
        !surface.outputs.contains(output),
    ensures
        surface.after(SurfaceEvent::Leave { output }) == surface,
        surface.after(SurfaceEvent::Enter { output }).after(SurfaceEvent::Leave { output })
            == surface,
{
    reveal(Seq::filter);
    lemma_filter_keeps_others(surface.outputs, output);
    assert(surface.outputs.push(output).drop_last() =~= surface.outputs);
}

/// After each look at the scale factors, the scale factor of the surface is the largest one found,
/// and it is the old one where none is found.
pub proof fn lemma_scale_factor_is_the_largest(surface: SurfaceModel, factors: Seq<Option<i32>>)
    ensures
        forall|i: int|
            0 <= i < factors.len() && (#[trigger] factors[i]) is Some ==> factors[i]->0
                <= surface.scaled(factors).scale_factor,
        factors.contains(Some(surface.scaled(factors).scale_factor)) || surface.scaled(
            factors,
        ).scale_factor == surface.scale_factor,
        (exists|i: int| 0 <= i < factors.len() && (#[trigger] factors[i]) is Some)
            ==> factors.contains(Some(surface.scaled(factors).scale_factor)),
        (forall|i: int| 0 <= i < factors.len() ==> (#[trigger] factors[i]) is None)
            ==> surface.scaled(factors) == surface,
        surface.scaled(factors).scaled(factors) == surface.scaled(factors),
{
    lemma_largest_is_the_maximum(factors);
}

/// After the surface has entered or left an output and the scale factors of the outputs that it is
/// then inside are looked up, no such output has a larger scale factor than the surface, and one
/// of them has the same, if any has one.
pub proof fn lemma_scale_factor_follows_the_outputs(
    surface: SurfaceModel,
    event: SurfaceEvent,
    lookup: spec_fn(OutputId) -> Option<i32>,
)
    ensures
        ({
            let outputs = surface.after(event).outputs;
            let after = surface.after(event).scaled(outputs.map_values(lookup));
            &&& after.outputs == outputs
            &&& forall|i: int|
                0 <= i < outputs.len() && lookup(#[trigger] outputs[i]) is Some ==> lookup(
                    outputs[i],
                )->0 <= after.scale_factor
            &&& (exists|i: int| 0 <= i < outputs.len() && lookup(#[trigger] outputs[i]) is Some)
                ==> (exists|i: int|
                0 <= i < outputs.len() && lookup(#[trigger] outputs[i]) == Some(
                    after.scale_factor,
                ))
        }),
{
    let outputs = surface.after(event).outputs;
    let factors = outputs.map_values(lookup);
    lemma_largest_is_the_maximum(factors);
    assert forall|i: int| 0 <= i < outputs.len() implies lookup(#[trigger] outputs[i])
        == factors[i] by {}
    if let Some(factor) = largest(factors) {
        let i = choose|i: int| 0 <= i < factors.len() && factors[i] == Some(factor);
        assert(lookup(outputs[i]) == Some(factor));
    }
}

/// Something that happened to a surface, and what a look at the scale factors of outputs gave then.
pub struct SurfaceStep {
    pub event: SurfaceEvent,
    pub lookup: spec_fn(OutputId) -> Option<i32>,
}

/// A surface, from its making through all that happened to it.
pub open spec fn run(history: Seq<SurfaceStep>) -> SurfaceModel
    decreases history.len(),
{
    if history.len() == 0 {
        SurfaceModel::initial()
    } else {
        let entered = run(history.drop_last()).after(history.last().event);
        entered.scaled(entered.outputs.map_values(history.last().lookup))
    }
}

/// The event with this index is an Enter, and no Leave of the same output comes later.
pub open spec fn not_left(history: Seq<SurfaceStep>, i: int) -> bool {
    match history[i].event {
        SurfaceEvent::Enter { output } => forall|j: int|
            i < j < history.len() ==> (#[trigger] history[j]).event != (SurfaceEvent::Leave {
                output,
            }),
        SurfaceEvent::Leave { .. } => false,
    }
}

/// The outputs of the Enters among the first events that no Leave follows, in their order.
pub open spec fn entered_and_not_left(history: Seq<SurfaceStep>, first: nat) -> Seq<OutputId>
    decreases first,
{
    if first == 0 {
        Seq::empty()
    } else {
        let before = entered_and_not_left(history, (first - 1) as nat);
        if not_left(history, first - 1) {
            before.push(history[first - 1].event->Enter_output)
        } else {
            before
        }
    }
}

/// The scale factors that were found after the event with this index, for the outputs that the
/// surface was then inside.
pub open spec fn factors_at(history: Seq<SurfaceStep>, i: int) -> Seq<Option<i32>> {
    run(history.take(i + 1)).outputs.map_values(history[i].lookup)
}

proof fn lemma_not_left_before_another_event(
    history: Seq<SurfaceStep>,
    step: SurfaceStep,
    first: nat,
)
    requires
        first <= history.len(),
    ensures
        entered_and_not_left(history.push(step), first) == match step.event {
            SurfaceEvent::Enter { .. } => entered_and_not_left(history, first),
            SurfaceEvent::Leave { output } => entered_and_not_left(history, first).filter(
                |o: OutputId| o != output,
            ),
        },
    decreases first,
{
    reveal(Seq::filter);
    if first > 0 {
        let more = history.push(step);
        let i = first - 1;
        lemma_not_left_before_another_event(history, step, i as nat);
        assert(more[i] == history[i]);
        assert(more[history.len() as int] == step);
        assert forall|j: int| i < j < history.len() implies more[j] == #[trigger] history[j] by {}
        if not_left(more, i) {
            assert(not_left(history, i)) by {
                assert forall|j: int| i < j < history.len() implies (
                #[trigger] history[j]).event != (SurfaceEvent::Leave {
                    output: history[i].event->Enter_output,
                }) by {
                    assert(more[j] == history[j]);
                }
            }
        }
        if not_left(history, i) {
            let before = entered_and_not_left(history, i as nat);
            let output = history[i].event->Enter_output;
            assert(before.push(output).drop_last() =~= before);
            assert(not_left(more, i) <==> step.event != (SurfaceEvent::Leave { output }));
        }
    }
}

/// The outputs that a surface is inside are those of the Enters that no later Leave undid, in their
/// order.
pub proof fn lemma_outputs_are_those_not_left(history: Seq<SurfaceStep>)
    ensures
        run(history).outputs == entered_and_not_left(history, history.len()),
    decreases history.len(),
{
    if history.len() > 0 {
        let before = history.drop_last();
        let step = history.last();
        lemma_outputs_are_those_not_left(before);
        lemma_not_left_before_another_event(before, step, before.len());
        assert(before.push(step) =~= history);
        assert(history[history.len() - 1] == step);
    }
}

/// The scale factor of a surface is the largest one that the last look at its outputs found, or
/// that the last look before it found which found any, and 1 if none ever did.
pub proof fn lemma_scale_factor_is_the_last_found(history: Seq<SurfaceStep>)
    ensures
        forall|i: int|
            0 <= i < history.len() && #[trigger] largest(factors_at(history, i)) is Some && (
            forall|j: int|
                i < j < history.len() ==> #[trigger] largest(factors_at(history, j)) is None)
                ==> Some(run(history).scale_factor) == largest(factors_at(history, i)),
        (forall|i: int|
            0 <= i < history.len() ==> #[trigger] largest(factors_at(history, i)) is None) ==> run(
            history,
        ).scale_factor == INITIAL_SCALE_FACTOR == 1,
    decreases history.len(),
{
    if history.len() > 0 {
        let before = history.drop_last();
        let last = history.len() - 1;
        lemma_scale_factor_is_the_last_found(before);
        assert(history.take(last + 1) =~= history);
        assert(history[last] == history.last());
        let entered = run(before).after(history.last().event);
        assert(factors_at(history, last) == entered.outputs.map_values(history.last().lookup));
        assert forall|i: int| 0 <= i < before.len() implies #[trigger] factors_at(history, i)
            == factors_at(before, i) by {
            assert(history.take(i + 1) =~= before.take(i + 1));
        }
        assert forall|i: int|
            0 <= i < history.len() && #[trigger] largest(factors_at(history, i)) is Some && (
            forall|j: int|
                i < j < history.len() ==> #[trigger] largest(
                    factors_at(history, j),
                ) is None) implies Some(run(history).scale_factor) == largest(
            factors_at(history, i),
        ) by {
            if i < last {
                assert(largest(factors_at(history, last)) is None);
                assert(largest(factors_at(before, i)) is Some);
                assert forall|j: int| i < j < before.len() implies #[trigger] largest(
                    factors_at(before, j),
                ) is None by {
                    assert(largest(factors_at(history, j)) is None);
                }
            }
        }
        if forall|i: int|
            0 <= i < history.len() ==> #[trigger] largest(factors_at(history, i)) is None {
            assert(largest(factors_at(history, last)) is None);
            assert forall|i: int| 0 <= i < before.len() implies #[trigger] largest(
                factors_at(before, i),
            ) is None by {
                assert(largest(factors_at(history, i)) is None);
            }
        }
    }
}

/// Over any history: the scale factor of a surface is not smaller than that of any output that it
/// is inside, and is that of one of them, if any has one. Once the surface has left all outputs it
/// keeps the scale factor that it had. Before it enters its first output the scale factor is 1.
pub proof fn lemma_scale_factor_over_history(history: Seq<SurfaceStep>)
    ensures
        ({
            let surface = run(history);
            &&& history.len() > 0 ==> {
                let lookup = history.last().lookup;
                &&& forall|i: int|
                    0 <= i < surface.outputs.len() && lookup(
                        #[trigger] surface.outputs[i],
                    ) is Some ==> lookup(surface.outputs[i])->0 <= surface.scale_factor
                &&& (exists|i: int|
                    0 <= i < surface.outputs.len() && lookup(
                        #[trigger] surface.outputs[i],
                    ) is Some) ==> (exists|i: int|
                    0 <= i < surface.outputs.len() && lookup(#[trigger] surface.outputs[i]) == Some(
                        surface.scale_factor,
                    ))
                &&& surface.outputs.len() == 0 ==> surface.scale_factor == run(
                    history.drop_last(),
                ).scale_factor
            }
            &&& (forall|i: int| 0 <= i < history.len() ==> !((#[trigger] history[i]).event is Enter))
                ==> surface == SurfaceModel::initial() && surface.scale_factor == 1
        }),
{
    if history.len() > 0 {
        lemma_scale_factor_follows_the_outputs(
            run(history.drop_last()),
            history.last().event,
            history.last().lookup,
        );
    }
    if forall|i: int| 0 <= i < history.len() ==> !((#[trigger] history[i]).event is Enter) {
        lemma_nothing_before_the_first_enter(history);
    }
}

proof fn lemma_nothing_before_the_first_enter(history: Seq<SurfaceStep>)
    requires
        forall|i: int| 0 <= i < history.len() ==> !((#[trigger] history[i]).event is Enter),
    ensures
        run(history) == SurfaceModel::initial(),
    decreases history.len(),
{
    if history.len() > 0 {
        let before = history.drop_last();
        assert forall|i: int| 0 <= i < before.len() implies !((
        #[trigger] before[i]).event is Enter) by {
            assert(history[i] == before[i]);
        }
        assert(history[history.len() - 1] == history.last());
        lemma_nothing_before_the_first_enter(before);
        reveal(Seq::filter);
    }
}

} // verus!
