use vstd::prelude::*;

verus! {

/// Number of shared rows the circuits declare, and so the number of shared blinds.
pub const NUM_SHARED: usize = 1;

/// Where a proof slot (an instance, witness and proof kept together) stands.
#[derive(Clone, Copy, Debug, PartialEq, Eq, Structural)]
pub enum SlotState {
    /// Nothing has been proved into the slot yet.
    Uncreated,
    /// A fresh proof was written.
    Proved,
    /// The proof was reblinded this many times since it was proved.
    Reblinded(u64),
}

/// An operation on a proof slot.
#[derive(Clone, Copy, Debug, PartialEq, Eq, Structural)]
pub enum SlotEvent {
    Prove,
    Reblind,
    Verify,
}

/// Why an operation on a proof slot, or its blinds, cannot proceed.
#[derive(Clone, Copy, Debug, PartialEq, Eq, Structural)]
pub enum LifecycleError {
    /// Reblinding or verifying a slot that holds no proof.
    NotProved,
    /// The shared blinds do not match the instance's shared rows in number.
    SharedBlindsLength { expected: usize, found: usize },
}

/// The state a slot moves to under an event: proving overwrites whatever was there,
/// reblinding counts up (without wrapping), verifying changes nothing; a slot
/// without a proof can be neither reblinded nor verified.
pub open spec fn next_state(s: SlotState, e: SlotEvent) -> Result<SlotState, LifecycleError> {
    match e {
        SlotEvent::Prove => Ok(SlotState::Proved),
        SlotEvent::Reblind => match s {
            SlotState::Uncreated => Err(LifecycleError::NotProved),
            SlotState::Proved => Ok(SlotState::Reblinded(1)),
            SlotState::Reblinded(n) => Ok(SlotState::Reblinded(if n == u64::MAX { n } else { (n + 1) as u64 })),
        },
        SlotEvent::Verify => match s {
            SlotState::Uncreated => Err(LifecycleError::NotProved),
            _ => Ok(s),
        },
    }
}

/// Applies one event to a slot.
pub fn slot_step(s: SlotState, e: SlotEvent) -> (r: Result<SlotState, LifecycleError>)
    ensures
        r == next_state(s, e),
{
    match e {
        SlotEvent::Prove => Ok(SlotState::Proved),
        SlotEvent::Reblind => match s {
            SlotState::Uncreated => Err(LifecycleError::NotProved),
            SlotState::Proved => Ok(SlotState::Reblinded(1)),
            SlotState::Reblinded(n) => Ok(SlotState::Reblinded(n.saturating_add(1))),
        },
        SlotEvent::Verify => match s {
            SlotState::Uncreated => Err(LifecycleError::NotProved),
            _ => Ok(s),
        },
    }
}

/// The state after a run of events, or the first refusal.
pub open spec fn run_events(s: SlotState, events: Seq<SlotEvent>) -> Result<SlotState, LifecycleError>
    decreases events.len(),
{
    if events.len() == 0 {
        Ok(s)
    } else {
        match next_state(s, events[0]) {
            Ok(t) => run_events(t, events.drop_first()),
            Err(err) => Err(err),
        }
    }
}

/// Applies a run of events to a slot, stopping at the first refusal.
pub fn run_slot(s: SlotState, events: &Vec<SlotEvent>) -> (r: Result<SlotState, LifecycleError>)
    ensures
        r == run_events(s, events@),
{
    let mut state = s;
    let mut i: usize = 0;
    assert(events@.skip(0) =~= events@);
    while i < events.len()
        invariant
            i <= events@.len(),
            run_events(s, events@) == run_events(state, events@.skip(i as int)),
        decreases events@.len() - i,
    {
        assert(events@.skip(i as int).drop_first() =~= events@.skip(i as int + 1));
        match slot_step(state, events[i]) {
            Ok(t) => state = t,
            Err(err) => return Err(err),
        }
        i = i + 1;
    }
    assert(events@.skip(i as int) =~= Seq::<SlotEvent>::empty());
    Ok(state)
}

/// Checks, before a reblind, that there is one shared blind for each shared row of the
/// instance.
pub fn check_shared_blinds(num_shared_rows: usize, num_blinds: usize) -> (r: Result<(), LifecycleError>)
    ensures
        r is Ok <==> num_blinds == num_shared_rows,
        r matches Err(e) ==> e == (LifecycleError::SharedBlindsLength { expected: num_shared_rows, found: num_blinds }),
{
    if num_blinds == num_shared_rows {
        Ok(())
    } else {
        Err(LifecycleError::SharedBlindsLength { expected: num_shared_rows, found: num_blinds })
    }
}

/// Once proved, a slot can be verified; verifying is a query that leaves it as it is.
pub proof fn lemma_verify_after_prove(s: SlotState)
    ensures
        next_state(s, SlotEvent::Prove) == Ok::<SlotState, LifecycleError>(SlotState::Proved),
        next_state(SlotState::Proved, SlotEvent::Verify) == Ok::<SlotState, LifecycleError>(SlotState::Proved),
{
}

/// Reblinding a proved slot any number of times keeps it verifiable: every
/// intermediate state accepts a further reblind and a verify, and none returns the
/// slot to having no proof.
pub proof fn lemma_reblinds_stay_verifiable(s: SlotState, k: nat)
    requires
        s != SlotState::Uncreated,
    ensures
        run_events(s, Seq::new(k, |i: int| SlotEvent::Reblind)) matches Ok(t)
            && t != SlotState::Uncreated
            && next_state(t, SlotEvent::Verify) == Ok::<SlotState, LifecycleError>(t),
    decreases k,
{
    let events = Seq::new(k, |i: int| SlotEvent::Reblind);
    if k > 0 {
        let t = next_state(s, SlotEvent::Reblind)->Ok_0;
        assert(events[0] == SlotEvent::Reblind);
        assert(events.drop_first() =~= Seq::new((k - 1) as nat, |i: int| SlotEvent::Reblind));
        lemma_reblinds_stay_verifiable(t, (k - 1) as nat);
    }
}

/// After `k` reblinds of a freshly proved slot, the slot counts `k` reblinds
/// (within the range of the counter).
pub proof fn lemma_reblind_count(k: nat)
    requires
        1 <= k <= u64::MAX,
    ensures
        run_events(SlotState::Proved, Seq::new(k, |i: int| SlotEvent::Reblind))
            == Ok::<SlotState, LifecycleError>(SlotState::Reblinded(k as u64)),
    decreases k,
{
    let events = Seq::new(k, |i: int| SlotEvent::Reblind);
    if k == 1 {
        assert(events.drop_first() =~= Seq::<SlotEvent>::empty());
        assert(events[0] == SlotEvent::Reblind);
        assert(run_events(SlotState::Reblinded(1), Seq::<SlotEvent>::empty())
            == Ok::<SlotState, LifecycleError>(SlotState::Reblinded(1)));
    } else {
        lemma_reblind_count((k - 1) as nat);
        lemma_run_events_push(SlotState::Proved, Seq::new((k - 1) as nat, |i: int| SlotEvent::Reblind), SlotEvent::Reblind);
        assert(Seq::new((k - 1) as nat, |i: int| SlotEvent::Reblind).push(SlotEvent::Reblind) =~= events);
    }
}

/// Running one more event after a run is the same as stepping from its result.
pub proof fn lemma_run_events_push(s: SlotState, events: Seq<SlotEvent>, e: SlotEvent)
    ensures
        run_events(s, events.push(e)) == match run_events(s, events) {
            Ok(t) => next_state(t, e),
            Err(err) => Err(err),
        },
    decreases events.len(),
{
    if events.len() == 0 {
        assert(events.push(e).drop_first() =~= Seq::<SlotEvent>::empty());
        assert(events.push(e)[0] == e);
        match next_state(s, e) {
            Ok(t) => {
                assert(run_events(t, Seq::<SlotEvent>::empty()) == Ok::<SlotState, LifecycleError>(t));
            },
            Err(_) => {},
        }
    } else {
        assert(events.push(e).drop_first() =~= events.drop_first().push(e));
        assert(events.push(e)[0] == events[0]);
        match next_state(s, events[0]) {
            Ok(t) => lemma_run_events_push(t, events.drop_first(), e),
            Err(_) => {},
        }
    }
}

/// No event takes a slot that holds a proof back to holding none.
pub proof fn lemma_never_uncreated(s: SlotState, e: SlotEvent)
    requires
        s != SlotState::Uncreated,
    ensures
        next_state(s, e) matches Ok(t) && t != SlotState::Uncreated,
{
}

} // verus!
