//! The bootstrap pipeline: a linear sequence of fallible stages from process
//! start to serving. Each stage must complete before the next begins, and a
//! failing stage moves the process to a terminal failure state.

use vstd::prelude::*;

verus! {

/// Where the bootstrap stands. The first six variants are reached in this
/// order, one per successful stage; `Failed` is terminal.
#[derive(Clone, Copy, Debug, PartialEq, Eq, Structural)]
pub enum Phase {
    Start,
    ConfigLoaded,
    PoolCreated,
    MigrationsApplied,
    StateBuilt,
    RouterBuilt,
    Serving,
    Failed,
}

/// The phase a successful stage leads to. `Serving` and `Failed` are
/// absorbing: nothing follows them.
pub open spec fn success_step(p: Phase) -> Phase {
    match p {
        Phase::Start => Phase::ConfigLoaded,
        Phase::ConfigLoaded => Phase::PoolCreated,
        Phase::PoolCreated => Phase::MigrationsApplied,
        Phase::MigrationsApplied => Phase::StateBuilt,
        Phase::StateBuilt => Phase::RouterBuilt,
        Phase::RouterBuilt => Phase::Serving,
        Phase::Serving => Phase::Serving,
        Phase::Failed => Phase::Failed,
    }
}

pub open spec fn spec_advance(p: Phase, ok: bool) -> Phase {
    if p == Phase::Failed || !ok {
        Phase::Failed
    } else {
        success_step(p)
    }
}

/// One bootstrap transition: the next phase after the current stage reports
/// success or failure. Any failure is terminal; no stage is retried.
pub fn advance(p: Phase, ok: bool) -> (r: Phase)
    ensures
        r == spec_advance(p, ok),
{
    if !ok {
        return Phase::Failed;
    }
    match p {
        Phase::Start => Phase::ConfigLoaded,
        Phase::ConfigLoaded => Phase::PoolCreated,
        Phase::PoolCreated => Phase::MigrationsApplied,
        Phase::MigrationsApplied => Phase::StateBuilt,
        Phase::StateBuilt => Phase::RouterBuilt,
        Phase::RouterBuilt => Phase::Serving,
        Phase::Serving => Phase::Serving,
        Phase::Failed => Phase::Failed,
    }
}

/// The phase reached after the stages report `outcomes`, in order, starting
/// from `Start`.
pub open spec fn run_phases(outcomes: Seq<bool>) -> Phase
    decreases outcomes.len(),
{
    if outcomes.len() == 0 {
        Phase::Start
    } else {
        spec_advance(run_phases(outcomes.drop_last()), outcomes.last())
    }
}

/// The phase reached after `n` consecutive successful stages.
pub open spec fn phase_after(n: int) -> Phase {
    if n <= 0 {
        Phase::Start
    } else if n == 1 {
        Phase::ConfigLoaded
    } else if n == 2 {
        Phase::PoolCreated
    } else if n == 3 {
        Phase::MigrationsApplied
    } else if n == 4 {
        Phase::StateBuilt
    } else if n == 5 {
        Phase::RouterBuilt
    } else {
        Phase::Serving
    }
}

/// Law: the bootstrap is a linear pipeline. If every stage so far succeeded,
/// the phases are visited in their fixed order, one per stage; if any stage
/// failed, the process is in the terminal failure state.
pub proof fn lemma_run_phases_exact(outcomes: Seq<bool>)
    ensures
        run_phases(outcomes) == if forall|i: int| 0 <= i < outcomes.len() ==> outcomes[i] {
            phase_after(outcomes.len() as int)
        } else {
            Phase::Failed
        },
    decreases outcomes.len(),
{
    if outcomes.len() > 0 {
        let head = outcomes.drop_last();
        lemma_run_phases_exact(head);
        if forall|i: int| 0 <= i < head.len() ==> head[i] {
            if !outcomes.last() {
                assert(!outcomes[outcomes.len() - 1]);
            } else {
                assert forall|i: int| 0 <= i < outcomes.len() implies outcomes[i] by {
                    if i < outcomes.len() - 1 {
                        assert(head[i]);
                    } else {
                        assert(outcomes.last());
                    }
                }
            }
        } else {
            let i = choose|i: int| 0 <= i < head.len() && !head[i];
            assert(!outcomes[i]);
        }
    }
}

/// Law: when configuration loading — the first stage — fails, the process
/// aborts at once: no later point of the run reaches the phase in which a
/// connection pool exists, and the run ends in the terminal failure state.
pub proof fn lemma_config_failure_never_pools(outcomes: Seq<bool>)
    requires
        outcomes.len() >= 1,
        !outcomes[0],
    ensures
        run_phases(outcomes) == Phase::Failed,
        forall|j: int| 0 <= j <= outcomes.len() ==> run_phases(outcomes.take(j))
            != Phase::PoolCreated,
{
    lemma_run_phases_exact(outcomes);
    assert forall|j: int| 0 <= j <= outcomes.len() implies run_phases(outcomes.take(j))
        != Phase::PoolCreated by {
        lemma_run_phases_exact(outcomes.take(j));
        if j >= 1 {
            assert(!outcomes.take(j)[0]);
        }
    }
    assert(outcomes.take(outcomes.len() as int) =~= outcomes);
}

/// Law: serving begins only after every stage has succeeded, so at least the
/// six bootstrap stages all reported success.
pub proof fn lemma_serving_needs_all_stages(outcomes: Seq<bool>)
    requires
        run_phases(outcomes) == Phase::Serving,
    ensures
        outcomes.len() >= 6,
        forall|i: int| 0 <= i < outcomes.len() ==> outcomes[i],
{
    lemma_run_phases_exact(outcomes);
}

} // verus!
