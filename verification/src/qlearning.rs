//! The Q-table: what the agent has learnt, and how it chooses its moves.
//!
//! Learning values and the exploration rate are binary32 numbers held by
//! their encodings (see `binary32`). The table reads, writes and compares
//! them; the Bellman update itself is arithmetic on binary32 values and is
//! carried out by the caller, which hands the result to `QTable::set`.
use std::collections::HashMap;

use rand::rngs::ThreadRng;
use rand::Rng;
use vstd::prelude::*;

use crate::binary32::{
    clamp, clamped, is_nan, less_than, lt, max, max_num, rank, rank_of, NEGATIVE_INFINITY, ONE,
    POSITIVE_ZERO,
};

verus! {

/// A move of the agent on the grid.
#[derive(Clone, Copy, PartialEq, Eq, Structural, Hash, Debug)]
pub enum Action {
    Up,
    Down,
    Left,
    Right,
}

impl Action {
    /// Every action, in the order in which ties are broken.
    pub const ALL: [Action; 4] = [Action::Up, Action::Down, Action::Left, Action::Right];

    /// Position of the action in `ALL`.
    pub open spec fn ordinal(self) -> nat {
        match self {
            Action::Up => 0,
            Action::Down => 1,
            Action::Left => 2,
            Action::Right => 3,
        }
    }

    /// The action at position `i` of `ALL`.
    pub open spec fn at(i: int) -> Action {
        if i == 0 {
            Action::Up
        } else if i == 1 {
            Action::Down
        } else if i == 2 {
            Action::Left
        } else {
            Action::Right
        }
    }

    /// Position of the action in `ALL`.
    pub fn index(&self) -> (i: usize)
        ensures
            i == self.ordinal(),
            Action::at(i as int) == *self,
    {
        match self {
            Action::Up => 0,
            Action::Down => 1,
            Action::Left => 2,
            Action::Right => 3,
        }
    }

    /// The action at position `i` of `ALL`.
    pub fn from_index(i: usize) -> (a: Action)
        requires
            i < 4,
        ensures
            a == Action::at(i as int),
            a.ordinal() == i,
    {
        if i == 0 {
            Action::Up
        } else if i == 1 {
            Action::Down
        } else if i == 2 {
            Action::Left
        } else {
            Action::Right
        }
    }
}

/// A learning parameter that can be adjusted while the simulation runs.
#[derive(Clone, Copy, PartialEq, Eq, Structural, Debug)]
pub enum Param {
    Alpha,
    Gamma,
    Epsilon,
}

impl Param {
    /// The parameter after this one in the panel, the last wrapping to the first.
    pub open spec fn following(self) -> Param {
        match self {
            Param::Alpha => Param::Gamma,
            Param::Gamma => Param::Epsilon,
            Param::Epsilon => Param::Alpha,
        }
    }

    /// The parameter before this one in the panel, the first wrapping to the last.
    pub open spec fn preceding(self) -> Param {
        match self {
            Param::Alpha => Param::Epsilon,
            Param::Gamma => Param::Alpha,
            Param::Epsilon => Param::Gamma,
        }
    }

    /// The parameter after this one in the panel.
    pub fn next(&self) -> (p: Param)
        ensures
            p == self.following(),
    {
        match self {
            Param::Alpha => Param::Gamma,
            Param::Gamma => Param::Epsilon,
            Param::Epsilon => Param::Alpha,
        }
    }

    /// The parameter before this one in the panel.
    pub fn prev(&self) -> (p: Param)
        ensures
            p == self.preceding(),
    {
        match self {
            Param::Alpha => Param::Epsilon,
            Param::Gamma => Param::Alpha,
            Param::Epsilon => Param::Gamma,
        }
    }
}

/// A position of the agent: column, then row.
pub type State = (usize, usize);

/// The learning value of each of the four actions in one state, as binary32
/// encodings.
#[derive(Clone, Copy, PartialEq, Eq, Structural, Debug)]
pub struct ActionValues {
    pub up: u32,
    pub down: u32,
    pub left: u32,
    pub right: u32,
}

impl ActionValues {
    /// The value of action `a`.
    pub open spec fn value(self, a: Action) -> u32 {
        match a {
            Action::Up => self.up,
            Action::Down => self.down,
            Action::Left => self.left,
            Action::Right => self.right,
        }
    }

    /// No value is a NaN, so that any two compare.
    pub open spec fn comparable(self) -> bool {
        forall|a: Action| !is_nan(#[trigger] self.value(a))
    }

    /// All four values `+0.0`.
    pub fn zeros() -> (v: ActionValues)
        ensures
            v == (ActionValues { up: POSITIVE_ZERO, down: POSITIVE_ZERO, left: POSITIVE_ZERO, right: POSITIVE_ZERO }),
            forall|a: Action| #[trigger] v.value(a) == POSITIVE_ZERO,
    {
        ActionValues { up: POSITIVE_ZERO, down: POSITIVE_ZERO, left: POSITIVE_ZERO, right: POSITIVE_ZERO }
    }

    /// The value of action `a`.
    pub fn get(&self, a: Action) -> (v: u32)
        ensures
            v == self.value(a),
    {
        match a {
            Action::Up => self.up,
            Action::Down => self.down,
            Action::Left => self.left,
            Action::Right => self.right,
        }
    }

    /// The same values, with that of `a` replaced by `v`.
    pub fn with(&self, a: Action, v: u32) -> (r: ActionValues)
        ensures
            forall|b: Action| #[trigger] r.value(b) == if b == a { v } else { self.value(b) },
    {
        match a {
            Action::Up => ActionValues { up: v, ..*self },
            Action::Down => ActionValues { down: v, ..*self },
            Action::Left => ActionValues { left: v, ..*self },
            Action::Right => ActionValues { right: v, ..*self },
        }
    }
}

/// The largest value of the four, NaNs ignored, starting from negative
/// infinity and folding with maxNum in the order of `Action::ALL`.
pub open spec fn fold_max(v: ActionValues) -> u32 {
    max_num(max_num(max_num(max_num(NEGATIVE_INFINITY, v.up), v.down), v.left), v.right)
}

/// `a` has the largest value in `v`, and every action after it in
/// `Action::ALL` has a strictly smaller one: the last of the best.
pub open spec fn is_last_best(v: ActionValues, a: Action) -> bool {
    &&& forall|b: Action| rank(#[trigger] v.value(b)) <= rank(v.value(a))
    &&& forall|b: Action| b.ordinal() > a.ordinal() ==> rank(#[trigger] v.value(b)) < rank(v.value(a))
}

/// The greedy action's value is the best value of the state: when the four
/// values compare, the last best action carries a value that is not a NaN
/// and equals (as IEEE 754 compares) the largest value.
pub proof fn lemma_best_action_has_best_value(v: ActionValues, a: Action)
    requires
        v.comparable(),
        is_last_best(v, a),
    ensures
        !is_nan(fold_max(v)),
        rank(fold_max(v)) == rank(v.value(a)),
{
    assert(!is_nan(v.value(Action::Up)));
    assert(!is_nan(v.value(Action::Down)));
    assert(!is_nan(v.value(Action::Left)));
    assert(!is_nan(v.value(Action::Right)));
    assert(rank(v.value(Action::Up)) <= rank(v.value(a)));
    assert(rank(v.value(Action::Down)) <= rank(v.value(a)));
    assert(rank(v.value(Action::Left)) <= rank(v.value(a)));
    assert(rank(v.value(Action::Right)) <= rank(v.value(a)));
}

/// A state as a single hash key: the column in the high 64 bits, the row in
/// the low ones.
pub open spec fn state_key(s: State) -> u128 {
    (s.0 as int * 0x1_0000_0000_0000_0000 + s.1 as int) as u128
}

/// Different states have different keys.
pub proof fn lemma_state_key_injective(s: State, t: State)
    ensures
        state_key(s) == state_key(t) ==> s == t,
{
    let ks = s.0 as int * 0x1_0000_0000_0000_0000 + s.1 as int;
    let kt = t.0 as int * 0x1_0000_0000_0000_0000 + t.1 as int;
    assert(0 <= ks < 0x1_0000_0000_0000_0000_0000_0000_0000_0000) by (nonlinear_arith)
        requires
            ks == s.0 as int * 0x1_0000_0000_0000_0000 + s.1 as int,
            0 <= s.0 < 0x1_0000_0000_0000_0000,
            0 <= s.1 < 0x1_0000_0000_0000_0000,
    ;
    assert(0 <= kt < 0x1_0000_0000_0000_0000_0000_0000_0000_0000) by (nonlinear_arith)
        requires
            kt == t.0 as int * 0x1_0000_0000_0000_0000 + t.1 as int,
            0 <= t.0 < 0x1_0000_0000_0000_0000,
            0 <= t.1 < 0x1_0000_0000_0000_0000,
    ;
    if ks == kt {
        assert(s.0 == t.0 && s.1 == t.1) by (nonlinear_arith)
            requires
                s.0 as int * 0x1_0000_0000_0000_0000 + s.1 as int == t.0 as int
                    * 0x1_0000_0000_0000_0000 + t.1 as int,
                0 <= s.1 < 0x1_0000_0000_0000_0000,
                0 <= t.1 < 0x1_0000_0000_0000_0000,
                0 <= s.0,
                0 <= t.0,
        ;
    }
}

/// The hash key of a state.
pub fn key_of(s: State) -> (k: u128)
    ensures
        k == state_key(s),
{
    let x = s.0 as u128;
    let y = s.1 as u128;
    assert(x * 0x1_0000_0000_0000_0000 + y <= 0xFFFF_FFFF_FFFF_FFFF_FFFF_FFFF_FFFF_FFFF) by (nonlinear_arith)
        requires
            x <= 0xFFFF_FFFF_FFFF_FFFF,
            y <= 0xFFFF_FFFF_FFFF_FFFF,
    ;
    x * 0x1_0000_0000_0000_0000 + y
}

/// Initial exploration rate, 1.0: every move random.
pub const EPSILON_START: u32 = 0x3F80_0000;

/// Learning rate, 0.15.
pub const Q_ALPHA: u32 = 0x3E19_999A;

/// Discount factor, 0.99.
pub const Q_GAMMA: u32 = 0x3F7D_70A4;

/// Lowest exploration rate, 0.05.
pub const EPSILON_MIN: u32 = 0x3D4C_CCCD;

/// Amount by which the exploration rate falls after each episode, 0.0015.
pub const EPSILON_DECAY: u32 = 0x3AC4_9BA6;

/// What the agent has learnt: a learning value for each state and action,
/// `+0.0` where nothing was written yet, and the learning parameters, all
/// binary32 encodings.
pub struct QTable {
    pub table: HashMap<u128, ActionValues>,
    pub epsilon: u32,
    pub alpha: u32,
    pub gamma: u32,
    pub epsilon_min: u32,
    pub epsilon_decay: u32,
}

impl QTable {
    /// The values of the four actions in state `s`.
    pub open spec fn row_at(&self, s: State) -> ActionValues {
        if self.table@.contains_key(state_key(s)) {
            self.table@[state_key(s)]
        } else {
            ActionValues { up: POSITIVE_ZERO, down: POSITIVE_ZERO, left: POSITIVE_ZERO, right: POSITIVE_ZERO }
        }
    }

    /// The learning value of action `a` in state `s`.
    pub open spec fn q(&self, s: State, a: Action) -> u32 {
        self.row_at(s).value(a)
    }

    /// The exploration rate is a number no lower than its floor, which is a
    /// number too.
    pub open spec fn exploration_floored(&self) -> bool {
        &&& !is_nan(self.epsilon)
        &&& !is_nan(self.epsilon_min)
        &&& rank(self.epsilon_min) <= rank(self.epsilon)
    }

    /// The values of the four actions in state `s`.
    pub fn row(&self, s: State) -> (v: ActionValues)
        ensures
            v == self.row_at(s),
    {
        let k = key_of(s);
        match self.table.get(&k) {
            Some(v) => *v,
            None => ActionValues::zeros(),
        }
    }

    /// The learning value of action `a` in state `s`.
    pub fn get(&self, state: State, action: Action) -> (v: u32)
        ensures
            v == self.q(state, action),
    {
        self.row(state).get(action)
    }

    /// Writes `value` as the learning value of `action` in `state`; every other
    /// value and every parameter stays as it was.
    pub fn set(&mut self, state: State, action: Action, value: u32)
        ensures
            forall|s: State, a: Action| #[trigger] final(self).q(s, a) == if s == state && a == action {
                value
            } else {
                old(self).q(s, a)
            },
            writes_one(*old(self), *final(self), state, action, value),
            final(self).epsilon == old(self).epsilon,
            final(self).alpha == old(self).alpha,
            final(self).gamma == old(self).gamma,
            final(self).epsilon_min == old(self).epsilon_min,
            final(self).epsilon_decay == old(self).epsilon_decay,
            old(self).exploration_floored() ==> final(self).exploration_floored(),
    {
        let row = self.row(state).with(action, value);
        let k = key_of(state);
        self.table.insert(k, row);
        proof {
            assert forall|s: State, a: Action| #[trigger] self.q(s, a) == if s == state && a == action {
                value
            } else {
                old(self).q(s, a)
            } by {
                lemma_state_key_injective(s, state);
            }
        }
    }

    /// The action with the largest value in `state`, the last such in
    /// `Action::ALL` where several share it. The values must compare.
    pub fn best_action(&self, state: State) -> (a: Action)
        requires
            self.row_at(state).comparable(),
        ensures
            is_last_best(self.row_at(state), a),
    {
        let row = self.row(state);
        let mut best = Action::Up;
        let mut best_rank = rank_of(row.up);
        let mut i: usize = 1;
        while i < 4
            invariant
                1 <= i <= 4,
                row == self.row_at(state),
                best_rank == rank(row.value(best)),
                best.ordinal() < i,
                forall|j: int| 0 <= j < i ==> rank(#[trigger] row.value(Action::at(j))) <= best_rank,
                forall|j: int| best.ordinal() < j < i ==> rank(#[trigger] row.value(Action::at(j))) < best_rank,
            decreases 4 - i,
        {
            let cand = Action::from_index(i);
            let r = rank_of(row.get(cand));
            if best_rank <= r {
                best = cand;
                best_rank = r;
            }
            i = i + 1;
        }
        proof {
            assert forall|b: Action| rank(#[trigger] row.value(b)) <= rank(row.value(best)) by {
                assert(Action::at(b.ordinal() as int) == b);
            }
            assert forall|b: Action| b.ordinal() > best.ordinal() implies rank(#[trigger] row.value(b)) < rank(row.value(best)) by {
                assert(Action::at(b.ordinal() as int) == b);
            }
        }
        best
    }

    /// The largest learning value in `state`, NaNs ignored; negative
    /// infinity when all four are NaN.
    pub fn best_value(&self, state: State) -> (v: u32)
        ensures
            v == fold_max(self.row_at(state)),
            forall|a: Action| !is_nan(#[trigger] self.q(state, a)) ==> !is_nan(v) && rank(self.q(state, a)) <= rank(v),
            v == NEGATIVE_INFINITY || exists|a: Action| v == #[trigger] self.q(state, a),
    {
        let row = self.row(state);
        let v = max(max(max(max(NEGATIVE_INFINITY, row.up), row.down), row.left), row.right);
        proof {
            let m1 = max_num(NEGATIVE_INFINITY, row.up);
            let m2 = max_num(m1, row.down);
            let m3 = max_num(m2, row.left);
            assert(rank(NEGATIVE_INFINITY) <= rank(v));
            assert forall|a: Action| !is_nan(#[trigger] self.q(state, a)) implies !is_nan(v) && rank(self.q(state, a)) <= rank(v) by {
                assert(self.q(state, a) == row.value(a));
            }
            if v != NEGATIVE_INFINITY {
                if v == row.up {
                    assert(v == self.q(state, Action::Up));
                } else if v == row.down {
                    assert(v == self.q(state, Action::Down));
                } else if v == row.left {
                    assert(v == self.q(state, Action::Left));
                } else {
                    assert(v == self.q(state, Action::Right));
                }
            }
        }
        v
    }

    /// Lowers the exploration rate to `lowered`, the rate minus its decay
    /// step, but never below the floor: the rate becomes maxNum of the two.
    pub fn decay_epsilon(&mut self, lowered: u32)
        ensures
            final(self).epsilon == max_num(lowered, old(self).epsilon_min),
            !is_nan(old(self).epsilon_min) ==> !is_nan(final(self).epsilon) && rank(
                old(self).epsilon_min,
            ) <= rank(final(self).epsilon),
            !is_nan(lowered) && !is_nan(old(self).epsilon_min) && rank(lowered) <= rank(old(self).epsilon)
                && rank(old(self).epsilon_min) <= rank(old(self).epsilon) ==> rank(final(self).epsilon) <= rank(
                old(self).epsilon,
            ),
            final(self).table@ == old(self).table@,
            forall|s: State, a: Action| #[trigger] final(self).q(s, a) == old(self).q(s, a),
            final(self).alpha == old(self).alpha,
            final(self).gamma == old(self).gamma,
            final(self).epsilon_min == old(self).epsilon_min,
            final(self).epsilon_decay == old(self).epsilon_decay,
            old(self).exploration_floored() ==> final(self).exploration_floored(),
            old(self).exploration_floored() && !is_nan(lowered) && rank(lowered) < rank(old(self).epsilon) ==> {
                &&& rank(final(self).epsilon) <= rank(old(self).epsilon)
                &&& (rank(final(self).epsilon) == rank(old(self).epsilon) <==> rank(old(self).epsilon)
                    == rank(old(self).epsilon_min))
            },
    {
        self.epsilon = max(lowered, self.epsilon_min);
    }
}

/// What a table reads depends on its stored values alone: two tables that
/// store the same map read the same value for every state and action,
/// whatever their parameters.
pub proof fn lemma_reads_depend_only_on_stored_values(t1: QTable, t2: QTable, s: State, a: Action)
    requires
        t1.table@ == t2.table@,
    ensures
        t1.q(s, a) == t2.q(s, a),
{
}

/// `after` holds `value` for `action` in `state` and, for every other state
/// and action, what `before` holds.
pub open spec fn writes_one(before: QTable, after: QTable, state: State, action: Action, value: u32) -> bool {
    forall|s: State, a: Action| #[trigger] after.q(s, a) == if s == state && a == action {
        value
    } else {
        before.q(s, a)
    }
}

/// The value last written for action `a` in state `s` by the writes
/// `writes` (state, action, value), taken in order; `+0.0` if none wrote it.
pub open spec fn last_written(writes: Seq<(State, Action, u32)>, s: State, a: Action) -> u32
    decreases writes.len(),
{
    if writes.len() == 0 {
        POSITIVE_ZERO
    } else if writes.last().0 == s && writes.last().1 == a {
        writes.last().2
    } else {
        last_written(writes.drop_last(), s, a)
    }
}

/// The table remembers: starting from a table that reads `+0.0` everywhere,
/// as `QTable::default` gives, after any sequence of writes, as `QTable::set`
/// makes them, each value read is the one last written for its state and
/// action, or `+0.0` if none was.
pub proof fn lemma_reads_give_last_write(
    tables: Seq<QTable>,
    writes: Seq<(State, Action, u32)>,
    s: State,
    a: Action,
)
    requires
        tables.len() == writes.len() + 1,
        forall|s2: State, a2: Action| #[trigger] tables[0].q(s2, a2) == POSITIVE_ZERO,
        forall|i: int|
            0 <= i < writes.len() ==> #[trigger] writes_one(
                tables[i],
                tables[i + 1],
                writes[i].0,
                writes[i].1,
                writes[i].2,
            ),
    ensures
        tables.last().q(s, a) == last_written(writes, s, a),
    decreases writes.len(),
{
    if writes.len() == 0 {
        assert(tables.last().q(s, a) == POSITIVE_ZERO);
    } else {
        let n = writes.len() - 1;
        lemma_reads_give_last_write(tables.drop_last(), writes.drop_last(), s, a);
        assert(writes_one(tables[n], tables[n + 1], writes[n].0, writes[n].1, writes[n].2));
        assert(tables.drop_last().last() == tables[n]);
    }
}

impl QTable {
    /// The current value of parameter `p`.
    pub open spec fn param_value(&self, p: Param) -> u32 {
        match p {
            Param::Alpha => self.alpha,
            Param::Gamma => self.gamma,
            Param::Epsilon => self.epsilon,
        }
    }

    /// The current value of parameter `p`.
    pub fn parameter(&self, p: Param) -> (v: u32)
        ensures
            v == self.param_value(p),
    {
        match p {
            Param::Alpha => self.alpha,
            Param::Gamma => self.gamma,
            Param::Epsilon => self.epsilon,
        }
    }

    /// Sets parameter `p` to `value` brought into its range: `[0, 1]` for
    /// the learning rate and the discount, `[floor, 1]` for the exploration
    /// rate. A NaN leaves the parameter as it was. Nothing else changes.
    pub fn set_parameter(&mut self, p: Param, value: u32)
        ensures
            final(self).param_value(p) == match p {
                Param::Epsilon => clamped(value, old(self).epsilon_min, ONE, old(self).epsilon),
                _ => clamped(value, POSITIVE_ZERO, ONE, old(self).param_value(p)),
            },
            forall|r: Param| r != p ==> #[trigger] final(self).param_value(r) == old(self).param_value(r),
            final(self).table@ == old(self).table@,
            forall|s: State, a: Action| #[trigger] final(self).q(s, a) == old(self).q(s, a),
            final(self).epsilon_min == old(self).epsilon_min,
            final(self).epsilon_decay == old(self).epsilon_decay,
            old(self).exploration_floored() && rank(old(self).epsilon_min) <= rank(ONE)
                ==> final(self).exploration_floored(),
    {
        match p {
            Param::Alpha => {
                self.alpha = clamp(value, POSITIVE_ZERO, ONE, self.alpha);
            },
            Param::Gamma => {
                self.gamma = clamp(value, POSITIVE_ZERO, ONE, self.gamma);
            },
            Param::Epsilon => {
                self.epsilon = clamp(value, self.epsilon_min, ONE, self.epsilon);
            },
        }
    }
}

impl Default for QTable {
    /// An empty table, every value `+0.0`, with the shipped parameters.
    fn default() -> (t: QTable)
        ensures
            forall|s: State, a: Action| #[trigger] t.q(s, a) == POSITIVE_ZERO,
            t.epsilon == EPSILON_START,
            t.alpha == Q_ALPHA,
            t.gamma == Q_GAMMA,
            t.epsilon_min == EPSILON_MIN,
            t.epsilon_decay == EPSILON_DECAY,
            t.exploration_floored(),
    {
        QTable {
            table: HashMap::new(),
            epsilon: EPSILON_START,
            alpha: Q_ALPHA,
            gamma: Q_GAMMA,
            epsilon_min: EPSILON_MIN,
            epsilon_decay: EPSILON_DECAY,
        }
    }
}

/// rand's handle on the thread-local random generator; nothing inside it is
/// seen here, it is only passed through to rand.
#[verifier::external_type_specification]
#[verifier::external_body]
pub struct ExThreadRng(rand::rngs::ThreadRng);

/// Calls `rand::Rng::gen_range` with the range `0..n` on the thread's
/// generator. rand documents that the result lies in the range and that an
/// empty range panics; which number comes out is left to chance.
#[verifier::external_body]
fn random_below(rng: &mut ThreadRng, n: usize) -> (r: usize)
    requires
        n > 0,
    ensures
        r < n,
{
    rng.gen_range(0..n)
}

/// Number of actions the agent chooses from.
pub fn action_count() -> (n: usize)
    ensures
        n == 4,
{
    Action::ALL.len()
}

/// Epsilon-greedy choice in `state` once the random numbers are drawn:
/// `draw` is a uniform binary32 number in `[0, 1)`, `idx` a uniform index
/// below 4. Below the exploration rate the agent explores and takes the
/// action at `idx`; otherwise it takes the best action.
pub fn choose_action(qtable: &QTable, state: State, draw: u32, idx: usize) -> (a: Action)
    requires
        idx < 4,
        lt(draw, qtable.epsilon) || qtable.row_at(state).comparable(),
    ensures
        lt(draw, qtable.epsilon) ==> a == Action::at(idx as int),
        !lt(draw, qtable.epsilon) ==> is_last_best(qtable.row_at(state), a),
{
    if less_than(draw, qtable.epsilon) {
        Action::from_index(idx)
    } else {
        qtable.best_action(state)
    }
}

/// A draw in `[0, 1)` is below the initial exploration rate 1.0, so an
/// agent at that rate always explores. The encodings of `[+0, 1)` are
/// exactly those below the encoding of 1.0.
pub proof fn lemma_full_rate_always_explores(draw: u32)
    requires
        draw < EPSILON_START,
    ensures
        lt(draw, EPSILON_START),
{
}

/// Epsilon-greedy choice in `state`. `draw` is a uniform random binary32
/// number in `[0, 1)`: below the exploration rate `rng` draws an index below
/// `action_count()` and the agent takes the action there; otherwise it takes
/// the best action.
pub fn pick_action(qtable: &QTable, state: State, draw: u32, rng: &mut ThreadRng) -> (a: Action)
    requires
        lt(draw, qtable.epsilon) || qtable.row_at(state).comparable(),
    ensures
        lt(draw, qtable.epsilon) ==> exists|i: int| 0 <= i < 4 && a == Action::at(i),
        !lt(draw, qtable.epsilon) ==> is_last_best(qtable.row_at(state), a),
{
    if less_than(draw, qtable.epsilon) {
        let idx = random_below(rng, action_count());
        choose_action(qtable, state, draw, idx)
    } else {
        qtable.best_action(state)
    }
}

} // verus!
