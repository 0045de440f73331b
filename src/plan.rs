use vstd::prelude::*;
use crate::cli::{CircuitAction, CircuitKind, CliError};
use crate::lifecycle::{run_events, SlotEvent, SlotState, LifecycleError};

verus! {

pub const PREPARE_PROVING_KEY: &'static str = "keys/prepare_proving.key";
pub const PREPARE_VERIFYING_KEY: &'static str = "keys/prepare_verifying.key";
pub const PREPARE_WITNESS: &'static str = "keys/prepare_witness.bin";
pub const PREPARE_PROOF: &'static str = "keys/prepare_proof.bin";
pub const SHOW_PROVING_KEY: &'static str = "keys/show_proving.key";
pub const SHOW_VERIFYING_KEY: &'static str = "keys/show_verifying.key";
pub const SHOW_WITNESS: &'static str = "keys/show_witness.bin";
pub const SHOW_PROOF: &'static str = "keys/show_proof.bin";
pub const SHARED_BLINDS: &'static str = "keys/shared_blinds.bin";

/// Where the keys and the proof slot of one circuit are kept.
pub struct ArtifactPaths {
    pub proving_key: &'static str,
    pub verifying_key: &'static str,
    /// The backend's prepared state: the witness together with the instance's
    /// commitments and their blinds, which a reblind starts from.
    pub witness: &'static str,
    pub proof: &'static str,
}

/// The fixed artifact paths of a circuit.
pub fn artifact_paths(circuit: CircuitKind) -> (r: ArtifactPaths)
    ensures
        circuit == CircuitKind::Prepare ==> r.proving_key@ == PREPARE_PROVING_KEY@
            && r.verifying_key@ == PREPARE_VERIFYING_KEY@
            && r.witness@ == PREPARE_WITNESS@ && r.proof@ == PREPARE_PROOF@,
        circuit == CircuitKind::Show ==> r.proving_key@ == SHOW_PROVING_KEY@
            && r.verifying_key@ == SHOW_VERIFYING_KEY@
            && r.witness@ == SHOW_WITNESS@ && r.proof@ == SHOW_PROOF@,
{
    match circuit {
        CircuitKind::Prepare => ArtifactPaths {
            proving_key: PREPARE_PROVING_KEY,
            verifying_key: PREPARE_VERIFYING_KEY,
            witness: PREPARE_WITNESS,
            proof: PREPARE_PROOF,
        },
        CircuitKind::Show => ArtifactPaths {
            proving_key: SHOW_PROVING_KEY,
            verifying_key: SHOW_VERIFYING_KEY,
            witness: SHOW_WITNESS,
            proof: SHOW_PROOF,
        },
    }
}

/// One operation that a command carries out, on the artifacts of its circuit.
#[derive(Clone, Copy, Debug, PartialEq, Eq, Structural)]
pub enum Step {
    /// Generate and save the circuit's keys.
    Setup(CircuitKind),
    /// Set up, prove and verify in memory, reporting the time of each phase.
    Run(CircuitKind),
    /// Prove into the circuit's slot.
    Prove(CircuitKind),
    /// Reblind the proof in the circuit's slot with the shared blinds.
    Reblind(CircuitKind),
    /// Verify the proof in the circuit's slot.
    Verify(CircuitKind),
    /// Draw and save the shared blinds.
    GenerateSharedBlinds,
    /// Report the measurements taken over the preceding steps.
    Summary,
}

/// The steps of the benchmark: both setups, the shared blinds, each circuit proved and
/// reblinded, both proofs verified, then the summary.
pub open spec fn benchmark_steps() -> Seq<Step> {
    seq![
        Step::Setup(CircuitKind::Prepare),
        Step::Setup(CircuitKind::Show),
        Step::GenerateSharedBlinds,
        Step::Prove(CircuitKind::Prepare),
        Step::Reblind(CircuitKind::Prepare),
        Step::Prove(CircuitKind::Show),
        Step::Reblind(CircuitKind::Show),
        Step::Verify(CircuitKind::Prepare),
        Step::Verify(CircuitKind::Show),
        Step::Summary,
    ]
}

/// The steps of `action` on `circuit`.
pub open spec fn action_steps(circuit: CircuitKind, action: CircuitAction) -> Seq<Step> {
    match action {
        CircuitAction::Setup => seq![Step::Setup(circuit)],
        CircuitAction::Run => seq![Step::Run(circuit)],
        CircuitAction::Prove => seq![Step::Prove(circuit)],
        CircuitAction::Verify => seq![Step::Verify(circuit)],
        CircuitAction::Reblind => seq![Step::Reblind(circuit)],
        CircuitAction::GenerateSharedBlinds => seq![Step::GenerateSharedBlinds],
        CircuitAction::Benchmark => benchmark_steps(),
    }
}

fn benchmark_plan() -> (r: Vec<Step>)
    ensures
        r@ == benchmark_steps(),
{
    let mut v: Vec<Step> = Vec::new();
    v.push(Step::Setup(CircuitKind::Prepare));
    v.push(Step::Setup(CircuitKind::Show));
    v.push(Step::GenerateSharedBlinds);
    v.push(Step::Prove(CircuitKind::Prepare));
    v.push(Step::Reblind(CircuitKind::Prepare));
    v.push(Step::Prove(CircuitKind::Show));
    v.push(Step::Reblind(CircuitKind::Show));
    v.push(Step::Verify(CircuitKind::Prepare));
    v.push(Step::Verify(CircuitKind::Show));
    v.push(Step::Summary);
    assert(v@ =~= benchmark_steps());
    v
}

fn action_plan(circuit: CircuitKind, action: CircuitAction) -> (r: Vec<Step>)
    ensures
        r@ == action_steps(circuit, action),
{
    let mut v: Vec<Step> = Vec::new();
    match action {
        CircuitAction::Setup => v.push(Step::Setup(circuit)),
        CircuitAction::Run => v.push(Step::Run(circuit)),
        CircuitAction::Prove => v.push(Step::Prove(circuit)),
        CircuitAction::Verify => v.push(Step::Verify(circuit)),
        CircuitAction::Reblind => v.push(Step::Reblind(circuit)),
        CircuitAction::GenerateSharedBlinds => v.push(Step::GenerateSharedBlinds),
        CircuitAction::Benchmark => return benchmark_plan(),
    }
    assert(v@ =~= action_steps(circuit, action));
    v
}

/// The steps that an action on the Prepare circuit carries out.
pub fn execute_prepare(action: CircuitAction) -> (r: Vec<Step>)
    ensures
        r@ == action_steps(CircuitKind::Prepare, action),
{
    action_plan(CircuitKind::Prepare, action)
}

/// The steps that an action on the Show circuit carries out. The shared blinds are
/// drawn through the Prepare circuit only.
pub fn execute_show(action: CircuitAction) -> (r: Result<Vec<Step>, CliError>)
    ensures
        action == CircuitAction::GenerateSharedBlinds ==> r == Err::<Vec<Step>, CliError>(CliError::SharedBlindsOnlyForPrepare),
        action != CircuitAction::GenerateSharedBlinds ==> (r matches Ok(v) && v@ == action_steps(CircuitKind::Show, action)),
{
    if action == CircuitAction::GenerateSharedBlinds {
        Err(CliError::SharedBlindsOnlyForPrepare)
    } else {
        Ok(action_plan(CircuitKind::Show, action))
    }
}

/// The events that a run of steps applies to the proof slot of `circuit`.
pub open spec fn slot_events(steps: Seq<Step>, circuit: CircuitKind) -> Seq<SlotEvent>
    decreases steps.len(),
{
    if steps.len() == 0 {
        Seq::empty()
    } else {
        let rest = slot_events(steps.drop_first(), circuit);
        match steps[0] {
            Step::Prove(c) => if c == circuit { seq![SlotEvent::Prove] + rest } else { rest },
            Step::Reblind(c) => if c == circuit { seq![SlotEvent::Reblind] + rest } else { rest },
            Step::Verify(c) => if c == circuit { seq![SlotEvent::Verify] + rest } else { rest },
            _ => rest,
        }
    }
}

/// Position of the first step of a run that reblinds.
pub open spec fn first_reblind(steps: Seq<Step>) -> int
    decreases steps.len(),
{
    if steps.len() == 0 {
        0
    } else if steps[0] is Reblind {
        0
    } else {
        1 + first_reblind(steps.drop_first())
    }
}

/// The benchmark is a valid run of both proof slots from scratch: each is proved,
/// reblinded once and verified, never touched before it is proved; and the shared
/// blinds are drawn before the first reblind, so both reblinds use the same blinds.
pub proof fn lemma_benchmark_follows_lifecycle()
    ensures
        run_events(SlotState::Uncreated, slot_events(benchmark_steps(), CircuitKind::Prepare))
            == Ok::<SlotState, LifecycleError>(SlotState::Reblinded(1)),
        run_events(SlotState::Uncreated, slot_events(benchmark_steps(), CircuitKind::Show))
            == Ok::<SlotState, LifecycleError>(SlotState::Reblinded(1)),
        exists|i: int| 0 <= i < first_reblind(benchmark_steps()) && benchmark_steps()[i] == Step::GenerateSharedBlinds,
{
    reveal_with_fuel(slot_events, 11);
    reveal_with_fuel(first_reblind, 6);
    let p = slot_events(benchmark_steps(), CircuitKind::Prepare);
    let s = slot_events(benchmark_steps(), CircuitKind::Show);
    assert(p =~= seq![SlotEvent::Prove, SlotEvent::Reblind, SlotEvent::Verify]);
    assert(s =~= seq![SlotEvent::Prove, SlotEvent::Reblind, SlotEvent::Verify]);
    reveal_with_fuel(run_events, 4);
    assert(benchmark_steps()[2] == Step::GenerateSharedBlinds);
    assert(first_reblind(benchmark_steps()) == 4);
}

} // verus!
