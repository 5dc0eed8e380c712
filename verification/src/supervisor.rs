//! The acquisition supervisor.
//!
//! The supervisor runs acquisition cycles forever.  Per cycle it starts one
//! annotation producer, folds the produced annotations into a fresh decoder
//! state in arrival order, and, when the producer finishes, emits the
//! completed frame if the cycle reached `End` — otherwise it emits nothing.
//! The next cycle then begins unconditionally from a fresh `Idle` state.
//!
//! The loop that blocks on the producer lives outside this library; the
//! decisions it takes are [`supervisor_step`], a pure function from state and
//! event to successor state and action, and [`decode_cycle`], the fold of one
//! whole cycle.

use vstd::prelude::*;

use crate::annotation::AnnotationModel;
use crate::annotation::DecoderAnnotation;
use crate::state_machine::DmxOutput;
use crate::state_machine::DmxStateMachineState;
use crate::state_machine::FrameModel;
use crate::state_machine::StateModel;
use crate::state_machine::Transition;
use crate::state_machine::spec_transition;

verus! {

/// What the supervisor loop observes while a cycle runs: either the next
/// annotation of the producer's stream, or the producer's termination.
pub enum SupervisorEvent {
    Annotation(DecoderAnnotation),
    ProducerFinished,
}

/// What the supervisor does in reaction to an event: keep folding, emit the
/// cycle's completed frame and restart, or discard the cycle and restart.
pub enum SupervisorAction {
    Continue,
    EmitFrame(DmxOutput),
    Discard,
}

/// Mathematical model of a supervisor event.
pub enum EventModel {
    Annotation(AnnotationModel),
    ProducerFinished,
}

/// Mathematical model of a supervisor action.
#[verifier::ext_equal]
pub enum ActionModel {
    Continue,
    Emit(FrameModel),
    Discard,
}

impl View for SupervisorEvent {
    type V = EventModel;

    open spec fn view(&self) -> EventModel {
        match self {
            SupervisorEvent::Annotation(a) => EventModel::Annotation(a@),
            SupervisorEvent::ProducerFinished => EventModel::ProducerFinished,
        }
    }
}

impl View for SupervisorAction {
    type V = ActionModel;

    open spec fn view(&self) -> ActionModel {
        match self {
            SupervisorAction::Continue => ActionModel::Continue,
            SupervisorAction::EmitFrame(out) => ActionModel::Emit(out@),
            SupervisorAction::Discard => ActionModel::Discard,
        }
    }
}

/// The state every acquisition cycle starts from.
pub open spec fn spec_initial_state() -> StateModel {
    StateModel::Idle
}

/// Folds a whole annotation sequence into a decoder state, in arrival order.
pub open spec fn spec_run(s: StateModel, anns: Seq<AnnotationModel>) -> StateModel
    decreases anns.len(),
{
    if anns.len() == 0 {
        s
    } else {
        spec_run(spec_transition(s, anns[0]), anns.drop_first())
    }
}

/// Outcome of one acquisition cycle over `anns`: the completed frame if the
/// fold from `Idle` reaches `End`, and nothing otherwise.
pub open spec fn spec_decode(anns: Seq<AnnotationModel>) -> Option<FrameModel> {
    match spec_run(spec_initial_state(), anns) {
        StateModel::End(frame) => Some(frame),
        _ => None,
    }
}

/// One decision of the supervisor loop: an annotation is folded into the
/// state and the cycle continues; the producer's termination ends the cycle,
/// emits the frame exactly when the cycle reached `End`, and restarts from
/// the initial state.
pub open spec fn spec_supervisor_step(s: StateModel, e: EventModel) -> (StateModel, ActionModel) {
    match e {
        EventModel::Annotation(a) => (spec_transition(s, a), ActionModel::Continue),
        EventModel::ProducerFinished => match s {
            StateModel::End(frame) => (spec_initial_state(), ActionModel::Emit(frame)),
            _ => (spec_initial_state(), ActionModel::Discard),
        },
    }
}

/// The views of a sequence of annotations, in order.
pub open spec fn views_of(anns: Seq<DecoderAnnotation>) -> Seq<AnnotationModel> {
    Seq::new(anns.len(), |i: int| anns[i]@)
}

/// The decoder state a cycle starts from.
pub fn initial_state() -> (s: DmxStateMachineState)
    ensures
        s@ == spec_initial_state(),
{
    DmxStateMachineState::Idle()
}

/// Running the fold one annotation longer folds that annotation into the
/// fold's result.
pub proof fn lemma_run_snoc(s: StateModel, anns: Seq<AnnotationModel>, a: AnnotationModel)
    ensures
        spec_run(s, anns.push(a)) == spec_transition(spec_run(s, anns), a),
    decreases anns.len(),
{
    if anns.len() == 0 {
        assert(anns.push(a)[0] == a);
        assert(anns.push(a).drop_first() =~= Seq::<AnnotationModel>::empty());
        assert(spec_run(s, anns.push(a)) == spec_run(
            spec_transition(s, a),
            anns.push(a).drop_first(),
        ));
    } else {
        assert(anns.push(a)[0] == anns[0]);
        assert(anns.push(a).drop_first() =~= anns.drop_first().push(a));
        lemma_run_snoc(spec_transition(s, anns[0]), anns.drop_first(), a);
    }
}

/// Folding a concatenation is folding its parts one after the other.
pub proof fn lemma_run_concat(s: StateModel, x: Seq<AnnotationModel>, y: Seq<AnnotationModel>)
    ensures
        spec_run(s, x + y) == spec_run(spec_run(s, x), y),
    decreases x.len(),
{
    if x.len() == 0 {
        assert(x + y =~= y);
    } else {
        assert((x + y).drop_first() =~= x.drop_first() + y);
        lemma_run_concat(spec_transition(s, x[0]), x.drop_first(), y);
    }
}

/// Decodes one whole acquisition cycle: folds `annotations` in arrival order
/// into a fresh decoder state and returns the completed frame exactly when
/// the cycle ends in `End`.
pub fn decode_cycle(annotations: Vec<DecoderAnnotation>) -> (frame: Option<DmxOutput>)
    ensures
        (match frame {
            Some(out) => Some(out@),
            None => None,
        }) == spec_decode(views_of(annotations@)),
{
    let ghost all: Seq<AnnotationModel> = views_of(annotations@);
    let ghost done: Seq<AnnotationModel> = Seq::empty();
    let mut remaining = annotations;
    let mut state = initial_state();
    while remaining.len() > 0
        invariant
            state@ == spec_run(spec_initial_state(), done),
            all =~= done + views_of(remaining@),
        decreases remaining.len(),
    {
        let ghost remaining_before: Seq<DecoderAnnotation> = remaining@;
        let a = remaining.remove(0);
        proof {
            assert(views_of(remaining_before) =~= seq![a@] + views_of(remaining@));
            lemma_run_snoc(spec_initial_state(), done, a@);
            assert(done + views_of(remaining_before) =~= done.push(a@) + views_of(remaining@));
        }
        state = state.transition(a);
        proof {
            done = done.push(a@);
        }
    }
    proof {
        assert(all =~= done);
    }
    match state {
        DmxStateMachineState::End(output) => Some(output),
        _ => None,
    }
}

/// One decision of the supervisor loop, exactly as [`spec_supervisor_step`]
/// describes on the models.
pub fn supervisor_step(state: DmxStateMachineState, event: SupervisorEvent) -> (r: (
    DmxStateMachineState,
    SupervisorAction,
))
    ensures
        r.0@ == spec_supervisor_step(state@, event@).0,
        r.1@ == spec_supervisor_step(state@, event@).1,
{
    match event {
        SupervisorEvent::Annotation(a) => (state.transition(a), SupervisorAction::Continue),
        SupervisorEvent::ProducerFinished => match state {
            DmxStateMachineState::End(output) => (
                initial_state(),
                SupervisorAction::EmitFrame(output),
            ),
            _ => (initial_state(), SupervisorAction::Discard),
        },
    }
}

/// Decoding is deterministic: two independent cycles over the same
/// annotation sequence end in the same terminal state and yield bit-identical
/// frames.
pub proof fn lemma_replay_identical(first: Seq<AnnotationModel>, second: Seq<AnnotationModel>)
    requires
        first == second,
    ensures
        spec_decode(first) == spec_decode(second),
{
}

/// Restarting is leak-free: after the producer of any cycle finishes, the
/// supervisor continues from the fresh initial state, so the outcome of the
/// next cycle depends on that cycle's annotations alone, never on the state
/// the previous cycle ended in.
pub proof fn lemma_restart_fresh(prev: StateModel, next_cycle: Seq<AnnotationModel>)
    ensures
        spec_supervisor_step(prev, EventModel::ProducerFinished).0 == spec_initial_state(),
        spec_run(
            spec_supervisor_step(prev, EventModel::ProducerFinished).0,
            next_cycle,
        ) == spec_run(spec_initial_state(), next_cycle),
{
}

} // verus!
