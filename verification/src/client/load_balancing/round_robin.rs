//! The round-robin picker: one pick for each child in turn.

use crate::client::load_balancing::{PickResult, Picker};
use crate::service::Request;
use std::sync::atomic::AtomicUsize;
use std::sync::Arc;
use vstd::prelude::*;

verus! {

/// The child whose turn it is when the cursor stands at `cursor`, of `n`
/// children.
pub open spec fn turn(cursor: int, n: int) -> int {
    cursor % n
}

/// How many of the `picks` picks that start with the cursor at `start` go
/// to child `k` of `n`.
pub open spec fn turns_of(start: int, picks: nat, n: int, k: int) -> nat
    decreases picks,
{
    if picks == 0 {
        0
    } else {
        let earlier = turns_of(start, (picks - 1) as nat, n, k);
        if turn(start + picks - 1, n) == k {
            earlier + 1
        } else {
            earlier
        }
    }
}

/// The picks of a run are those of its first part and those of the rest.
pub proof fn lemma_turns_split(start: int, first: nat, rest: nat, n: int, k: int)
    ensures
        turns_of(start, first + rest, n, k) == turns_of(start, first, n, k) + turns_of(
            start + first,
            rest,
            n,
            k,
        ),
    decreases rest,
{
    if rest > 0 {
        lemma_turns_split(start, first, (rest - 1) as nat, n, k);
        assert(start + (first + rest) - 1 == (start + first) + rest - 1);
    }
}

/// Two cursors less than `n` apart that give the turn to the same child are
/// the same cursor.
proof fn lemma_same_turn(a: int, b: int, n: int)
    requires
        n > 0,
        -n < a - b < n,
        a % n == b % n,
    ensures
        a == b,
{
    vstd::arithmetic::div_mod::lemma_fundamental_div_mod(a, n);
    vstd::arithmetic::div_mod::lemma_fundamental_div_mod(b, n);
    let qa = a / n;
    let qb = b / n;
    assert(a - b == n * (qa - qb)) by (nonlinear_arith)
        requires
            a == n * qa + a % n,
            b == n * qb + b % n,
            a % n == b % n,
    ;
    assert(a == b) by (nonlinear_arith)
        requires
            a - b == n * (qa - qb),
            -n < a - b < n,
    ;
}

/// Of up to `n` picks in a row, at most one goes to child `k`: the one that
/// is `offset` picks after the start, where `offset` is the distance from
/// the start to the next turn of `k`.
proof fn lemma_turns_in_window(start: int, picks: nat, n: int, k: int, offset: int)
    requires
        n > 0,
        picks <= n,
        0 <= offset < n,
        turn(start + offset, n) == k,
    ensures
        turns_of(start, picks, n, k) == (if picks > offset {
            1nat
        } else {
            0nat
        }),
    decreases picks,
{
    if picks > 0 {
        lemma_turns_in_window(start, (picks - 1) as nat, n, k, offset);
        let here = picks - 1;
        if here != offset && turn(start + here, n) == k {
            lemma_same_turn(start + here, start + offset, n);
        }
    }
}

/// Round-robin is fair: of any `rounds * n` picks in a row, exactly `rounds`
/// go to each of the `n` children.
pub proof fn lemma_round_robin_fair(start: nat, rounds: nat, n: nat, k: nat)
    requires
        n > 0,
        k < n,
    ensures
        turns_of(start as int, rounds * n, n as int, k as int) == rounds,
    decreases rounds,
{
    if rounds == 0 {
        assert(rounds * n == 0) by (nonlinear_arith)
            requires
                rounds == 0,
        ;
    } else {
        let earlier = (rounds - 1) as nat;
        lemma_round_robin_fair(start, earlier, n, k);
        assert(rounds * n == earlier * n + n) by (nonlinear_arith)
            requires
                earlier == rounds - 1,
        ;
        lemma_turns_split(start as int, earlier * n, n, n as int, k as int);
        let window: int = (start + earlier * n) as int;
        let size: int = n as int;
        // The distance from the start of the window to the next turn of `k`.
        let here: int = window % size;
        let offset: int = if k >= here {
            k - here
        } else {
            k + size - here
        };
        assert(turn(window + offset, size) == k) by {
            vstd::arithmetic::div_mod::lemma_fundamental_div_mod(window, size);
            let q = window / size;
            if k >= here {
                assert(window + offset == q * size + k) by (nonlinear_arith)
                    requires
                        window == size * q + here,
                        offset == k - here,
                ;
                vstd::arithmetic::div_mod::lemma_fundamental_div_mod_converse(
                    window + offset,
                    size,
                    q,
                    k as int,
                );
            } else {
                assert(window + offset == (q + 1) * size + k) by (nonlinear_arith)
                    requires
                        window == size * q + here,
                        offset == k + size - here,
                ;
                vstd::arithmetic::div_mod::lemma_fundamental_div_mod_converse(
                    window + offset,
                    size,
                    q + 1,
                    k as int,
                );
            }
        }
        lemma_turns_in_window(window, n, size, k as int, offset);
    }
}

/// Hands each pick to the next of its children, starting over after the
/// last one. The children are fixed when the picker is built.
pub struct RRPickerPicker<P> {
    idx: AtomicUsize,
    children: Vec<Arc<P>>,
}

impl<P: Picker> RRPickerPicker<P> {
    /// The pickers that take turns, in order.
    pub closed spec fn children(&self) -> Seq<Arc<P>> {
        self.children@
    }

    /// A picker over the given children, in the given order.
    pub fn new(children: Vec<Arc<P>>) -> (picker: RRPickerPicker<P>)
        ensures
            picker.children() == children@,
    {
        RRPickerPicker { idx: AtomicUsize::new(0), children }
    }

    /// Moves the cursor on by one and returns where it stood. Picks made at
    /// the same time each get a position of their own.
    fn advance(&self) -> usize {
        self.idx.fetch_add(1, std::sync::atomic::Ordering::Relaxed)
    }

    /// The number of children that take turns.
    pub fn child_count(&self) -> (count: usize)
        ensures
            count == self.children().len(),
    {
        self.children.len()
    }

    /// The pick that is made when the cursor stands at `cursor`: that of the
    /// child whose turn it is. Without children the call is held.
    pub fn pick_at(&self, cursor: usize, request: &Request) -> (result: PickResult)
        ensures
            self.children().len() == 0 ==> result is Queue,
            self.children().len() > 0 ==> self.children()[turn(
                cursor as int,
                self.children().len() as int,
            )].picks(request, &result),
    {
        let n: usize = self.children.len();
        if n == 0 {
            return PickResult::Queue;
        }
        self.children[cursor % n].pick(request)
    }
}

impl<P: Picker> Picker for RRPickerPicker<P> {
    /// The picker answers as one of its children does, or holds the call if
    /// it has none.
    open spec fn picks(&self, request: &Request, result: &PickResult) -> bool {
        if self.children().len() == 0 {
            result is Queue
        } else {
            exists|i: int|
                0 <= i < self.children().len() && (#[trigger] self.children()[i]).picks(
                    request,
                    result,
                )
        }
    }

    /// Advances the cursor by one and makes the pick of the position that
    /// the cursor stood at.
    fn pick(&self, request: &Request) -> (result: PickResult) {
        let cursor = self.advance();
        let result = self.pick_at(cursor, request);
        proof {
            if self.children().len() > 0 {
                let i = turn(cursor as int, self.children().len() as int);
                assert(self.children()[i].picks(request, &result));
            }
        }
        result
    }
}

} // verus!
