//! Connectivity states and how a composite derives its own state from the
//! states of its children.

use vstd::prelude::*;

verus! {

/// Where a subchannel, a policy or the channel stands in its connection
/// lifecycle. A value is in exactly one state at any instant.
#[derive(Copy, Clone, PartialEq, Eq, Debug, Structural)]
pub enum ConnectivityState {
    /// Not connected and not trying to connect.
    Idle,
    /// A connection attempt is under way.
    Connecting,
    /// Connected and able to carry calls.
    Ready,
    /// The last attempt failed; a new one waits for the backoff to elapse.
    TransientFailure,
}

/// The state of a composite over the states of its children: `Ready` if any
/// child is ready, else `Connecting` if any child is connecting, else `Idle`
/// if any child is idle, else `TransientFailure` (in particular for no
/// children at all).
pub open spec fn aggregate_state(states: Seq<ConnectivityState>) -> ConnectivityState {
    if states.contains(ConnectivityState::Ready) {
        ConnectivityState::Ready
    } else if states.contains(ConnectivityState::Connecting) {
        ConnectivityState::Connecting
    } else if states.contains(ConnectivityState::Idle) {
        ConnectivityState::Idle
    } else {
        ConnectivityState::TransientFailure
    }
}

/// The aggregate of a running aggregate `so_far` and one more child state.
pub open spec fn combine_states(
    so_far: ConnectivityState,
    next: ConnectivityState,
) -> ConnectivityState {
    if so_far == ConnectivityState::Ready || next == ConnectivityState::Ready {
        ConnectivityState::Ready
    } else if so_far == ConnectivityState::Connecting || next == ConnectivityState::Connecting {
        ConnectivityState::Connecting
    } else if so_far == ConnectivityState::Idle || next == ConnectivityState::Idle {
        ConnectivityState::Idle
    } else {
        ConnectivityState::TransientFailure
    }
}

/// Extending the children by one state combines it into the aggregate.
pub proof fn lemma_aggregate_push(states: Seq<ConnectivityState>, next: ConnectivityState)
    ensures
        aggregate_state(states.push(next)) == combine_states(aggregate_state(states), next),
{
    let extended = states.push(next);
    assert(extended.last() == next);
    assert forall|s: ConnectivityState| extended.contains(s) <==> (states.contains(s) || s
        == next) by {
        if states.contains(s) {
            let i = choose|i: int| 0 <= i < states.len() && states[i] == s;
            assert(extended[i] == s);
        }
        if s == next {
            assert(extended[extended.len() - 1] == s);
        }
    }
}

/// The aggregate does not depend on the order in which the children are
/// visited: two sequences holding the same states the same number of times
/// have the same aggregate.
pub proof fn lemma_aggregate_order_independent(
    a: Seq<ConnectivityState>,
    b: Seq<ConnectivityState>,
)
    requires
        a.to_multiset() == b.to_multiset(),
    ensures
        aggregate_state(a) == aggregate_state(b),
{
    assert forall|s: ConnectivityState| a.contains(s) <==> b.contains(s) by {
        vstd::seq_lib::to_multiset_contains(a, s);
        vstd::seq_lib::to_multiset_contains(b, s);
    }
}

/// The aggregate of a non-empty collection follows the precedence
/// `Ready` > `Connecting` > `Idle` > `TransientFailure`: it is the
/// highest-ranked state that occurs among the children.
pub proof fn lemma_aggregate_precedence(states: Seq<ConnectivityState>)
    requires
        states.len() > 0,
    ensures
        states.contains(aggregate_state(states)),
        states.contains(ConnectivityState::Ready) ==> aggregate_state(states)
            == ConnectivityState::Ready,
        !states.contains(ConnectivityState::Ready) && states.contains(
            ConnectivityState::Connecting,
        ) ==> aggregate_state(states) == ConnectivityState::Connecting,
        !states.contains(ConnectivityState::Ready) && !states.contains(
            ConnectivityState::Connecting,
        ) && states.contains(ConnectivityState::Idle) ==> aggregate_state(states)
            == ConnectivityState::Idle,
        !states.contains(ConnectivityState::Ready) && !states.contains(
            ConnectivityState::Connecting,
        ) && !states.contains(ConnectivityState::Idle) ==> aggregate_state(states)
            == ConnectivityState::TransientFailure,
{
    let first = states[0];
    assert(states.contains(first));
    if !states.contains(ConnectivityState::Ready) && !states.contains(
        ConnectivityState::Connecting,
    ) && !states.contains(ConnectivityState::Idle) {
        assert(first == ConnectivityState::TransientFailure);
    }
}

/// Computes the aggregate state of the given child states.
pub fn effective_state(states: &Vec<ConnectivityState>) -> (aggregate: ConnectivityState)
    ensures
        aggregate == aggregate_state(states@),
{
    let mut aggregate = ConnectivityState::TransientFailure;
    let n: usize = states.len();
    for i in 0..n
        invariant
            n == states@.len(),
            aggregate == aggregate_state(states@.take(i as int)),
    {
        let next = states[i];
        proof {
            lemma_aggregate_push(states@.take(i as int), next);
            assert(states@.take(i as int).push(next) == states@.take(i + 1));
        }
        aggregate =
        if aggregate == ConnectivityState::Ready || next == ConnectivityState::Ready {
            ConnectivityState::Ready
        } else if aggregate == ConnectivityState::Connecting || next
            == ConnectivityState::Connecting {
            ConnectivityState::Connecting
        } else if aggregate == ConnectivityState::Idle || next == ConnectivityState::Idle {
            ConnectivityState::Idle
        } else {
            ConnectivityState::TransientFailure
        };
    }
    proof {
        assert(states@.take(n as int) == states@);
    }
    aggregate
}

} // verus!
