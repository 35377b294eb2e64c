use vstd::prelude::*;

use crate::model::State;
use crate::quota::CountTable;

verus! {

/// The value of an optional string key.
pub open spec fn key_view(o: Option<String>) -> Option<Seq<char>> {
    match o {
        Some(s) => Some(s@),
        None => None,
    }
}

/// The values of a column of optional string keys.
pub open spec fn keys_view(s: Seq<Option<String>>) -> Seq<Option<Seq<char>>> {
    s.map_values(|o: Option<String>| key_view(o))
}

/// How many of the first `n` answer values are `v`.
pub open spec fn num_in(ans: Seq<Option<Seq<char>>>, v: Seq<char>, n: int) -> nat
    decreases n,
{
    if n <= 0 {
        0
    } else {
        num_in(ans, v, n - 1) + if ans[n - 1] == Some(v) { 1nat } else { 0 }
    }
}

/// How many of the first `n` positions guess `v` at exactly the place the answer has it.
pub open spec fn num_exact(ans: Seq<Option<Seq<char>>>, att: Seq<Option<Seq<char>>>, v: Seq<char>, n: int) -> nat
    decreases n,
{
    if n <= 0 {
        0
    } else {
        num_exact(ans, att, v, n - 1) + if att[n - 1] == Some(v) && ans[n - 1] == att[n - 1] {
            1nat
        } else {
            0
        }
    }
}

/// How many of the first `n` positions guess `v` where the answer has something else.
pub open spec fn num_open(ans: Seq<Option<Seq<char>>>, att: Seq<Option<Seq<char>>>, v: Seq<char>, n: int) -> nat
    decreases n,
{
    if n <= 0 {
        0
    } else {
        num_open(ans, att, v, n - 1) + if att[n - 1] == Some(v) && ans[n - 1] != att[n - 1] {
            1nat
        } else {
            0
        }
    }
}

/// Copies of `v` in the answer that no exact match used up.
pub open spec fn spare(ans: Seq<Option<Seq<char>>>, att: Seq<Option<Seq<char>>>, v: Seq<char>) -> int {
    num_in(ans, v, ans.len() as int) - num_exact(ans, att, v, att.len() as int)
}

/// The feedback at position `i` for one attribute: `Correct` where the guess equals the
/// answer there (two undefined values, such as two neutral tones, are equal); otherwise `Misplaced` where the guessed value is defined and fewer earlier
/// non-exact guesses of it came before than the answer has spare copies; else `Missing`.
pub open spec fn column_state(ans: Seq<Option<Seq<char>>>, att: Seq<Option<Seq<char>>>, i: int) -> State {
    if att[i] == ans[i] {
        State::Correct
    } else if att[i] is Some && num_open(ans, att, att[i]->0, i) < spare(ans, att, att[i]->0) {
        State::Misplaced
    } else {
        State::Missing
    }
}

pub proof fn lemma_num_in_bounded(ans: Seq<Option<Seq<char>>>, v: Seq<char>, k: int, n: int)
    requires
        0 <= k <= n,
    ensures
        num_in(ans, v, k) <= num_in(ans, v, n),
        num_in(ans, v, k) <= k,
    decreases n,
{
    if n > k {
        lemma_num_in_bounded(ans, v, k, n - 1);
    } else if k > 0 {
        lemma_num_in_bounded(ans, v, k - 1, k - 1);
    }
}

pub proof fn lemma_exact_within_answer(ans: Seq<Option<Seq<char>>>, att: Seq<Option<Seq<char>>>, v: Seq<char>, n: int)
    requires
        0 <= n,
    ensures
        num_exact(ans, att, v, n) <= num_in(ans, v, n),
    decreases n,
{
    if n > 0 {
        lemma_exact_within_answer(ans, att, v, n - 1);
    }
}

/// Whether two optional keys are the same.
pub fn same_key(a: &Option<String>, b: &Option<String>) -> (r: bool)
    ensures
        r == (key_view(*a) == key_view(*b)),
{
    match (a, b) {
        (Some(x), Some(y)) => *x == *y,
        (None, None) => true,
        _ => false,
    }
}

/// Scores one attribute column of a guess against the answer's column, drawing on
/// `quota`, which holds the answer's values: first every exact match (each uses up one
/// copy of its value), then, left to right, every other defined guess that still finds a
/// copy.
pub fn score_column(quota: &mut CountTable, ans: &Vec<Option<String>>, att: &Vec<Option<String>>) -> (r: Vec<State>)
    requires
        old(quota).wf(),
        ans.len() == att.len(),
        forall|v: Seq<char>| #[trigger] old(quota).count(v) == num_in(keys_view(ans@), v, ans.len() as int),
    ensures
        final(quota).wf(),
        r.len() == att.len(),
        forall|i: int| 0 <= i < r.len() ==> r[i] == column_state(keys_view(ans@), keys_view(att@), i),
{
    let ghost a = keys_view(ans@);
    let ghost t = keys_view(att@);
    let n = att.len();
    let mut states: Vec<State> = Vec::new();
    let mut i: usize = 0;
    while i < n
        invariant
            quota.wf(),
            n == att.len(),
            n == ans.len(),
            a == keys_view(ans@),
            t == keys_view(att@),
            i <= n,
            states.len() == i,
            forall|j: int| 0 <= j < i ==> states[j] == if t[j] == a[j] { State::Correct } else { State::Missing },
            forall|v: Seq<char>| #[trigger] quota.count(v) as int == num_in(a, v, n as int) as int - num_exact(a, t, v, i as int) as int,
        decreases n - i,
    {
        if same_key(&att[i], &ans[i]) {
            if let Some(s) = &att[i] {
                proof {
                    lemma_exact_within_answer(a, t, s@, i as int + 1);
                    lemma_num_in_bounded(a, s@, i as int + 1, n as int);
                }
                quota.take(s);
            }
            states.push(State::Correct);
        } else {
            states.push(State::Missing);
        }
        proof {
            assert forall|v: Seq<char>| #[trigger] quota.count(v) as int == num_in(a, v, n as int) as int - num_exact(a, t, v, i as int + 1) as int by {
            }
        }
        i = i + 1;
    }
    proof {
        assert forall|v: Seq<char>| #[trigger] quota.count(v) as int == if num_open(a, t, v, 0) <= spare(a, t, v) {
            spare(a, t, v) - num_open(a, t, v, 0)
        } else {
            0
        } by {
            lemma_exact_within_answer(a, t, v, n as int);
        }
    }
    let mut i: usize = 0;
    while i < n
        invariant
            quota.wf(),
            n == att.len(),
            n == ans.len(),
            a == keys_view(ans@),
            t == keys_view(att@),
            i <= n,
            states.len() == n,
            forall|j: int| 0 <= j < i ==> states[j] == column_state(a, t, j),
            forall|j: int| i <= j < n ==> states[j] == if t[j] == a[j] { State::Correct } else { State::Missing },
            forall|v: Seq<char>| #[trigger] quota.count(v) as int == if num_open(a, t, v, i as int) <= spare(a, t, v) {
                spare(a, t, v) - num_open(a, t, v, i as int)
            } else {
                0
            },
        decreases n - i,
    {
        if states[i] == State::Missing {
            if let Some(s) = &att[i] {
                if quota.take(s) {
                    states.set(i, State::Misplaced);
                }
            }
        }
        proof {
            assert forall|v: Seq<char>| #[trigger] quota.count(v) as int == if num_open(a, t, v, i as int + 1) <= spare(a, t, v) {
                spare(a, t, v) - num_open(a, t, v, i as int + 1)
            } else {
                0
            } by {
                lemma_exact_within_answer(a, t, v, n as int);
            }
        }
        i = i + 1;
    }
    states
}


/// How many of the first `n` positions guess `v` and get credit (`Correct` or `Misplaced`).
pub open spec fn num_credited(ans: Seq<Option<Seq<char>>>, att: Seq<Option<Seq<char>>>, v: Seq<char>, n: int) -> nat
    decreases n,
{
    if n <= 0 {
        0
    } else {
        num_credited(ans, att, v, n - 1) + if att[n - 1] == Some(v) && column_state(ans, att, n - 1) != State::Missing {
            1nat
        } else {
            0
        }
    }
}

/// How many of the first `n` positions are in state `s`.
pub open spec fn num_state(ans: Seq<Option<Seq<char>>>, att: Seq<Option<Seq<char>>>, s: State, n: int) -> nat
    decreases n,
{
    if n <= 0 {
        0
    } else {
        num_state(ans, att, s, n - 1) + if column_state(ans, att, n - 1) == s { 1nat } else { 0 }
    }
}

proof fn lemma_credited_split(ans: Seq<Option<Seq<char>>>, att: Seq<Option<Seq<char>>>, v: Seq<char>, n: int)
    requires
        0 <= n <= att.len(),
        spare(ans, att, v) >= 0,
    ensures
        num_credited(ans, att, v, n) == num_exact(ans, att, v, n) + if num_open(ans, att, v, n) <= spare(ans, att, v) {
            num_open(ans, att, v, n) as int
        } else {
            spare(ans, att, v)
        },
    decreases n,
{
    if n > 0 {
        lemma_credited_split(ans, att, v, n - 1);
    }
}

proof fn lemma_state_count_bounded(ans: Seq<Option<Seq<char>>>, att: Seq<Option<Seq<char>>>, s: State, n: int)
    requires
        0 <= n,
    ensures
        num_state(ans, att, s, n) <= n,
    decreases n,
{
    if n > 0 {
        lemma_state_count_bounded(ans, att, s, n - 1);
    }
}

/// For one attribute of a guess as long as the answer, at most N positions are `Correct`,
/// and for every value, the positions guessing it that get credit (`Correct` or
/// `Misplaced`) are no more than the answer's copies of it.
pub proof fn lemma_credit_within_answer(ans: Seq<Option<Seq<char>>>, att: Seq<Option<Seq<char>>>, v: Seq<char>)
    requires
        ans.len() == att.len(),
    ensures
        num_state(ans, att, State::Correct, att.len() as int) <= att.len(),
        num_credited(ans, att, v, att.len() as int) <= num_in(ans, v, ans.len() as int),
{
    lemma_state_count_bounded(ans, att, State::Correct, att.len() as int);
    lemma_exact_within_answer(ans, att, v, att.len() as int);
    lemma_credited_split(ans, att, v, att.len() as int);
}

proof fn lemma_open_grows(ans: Seq<Option<Seq<char>>>, att: Seq<Option<Seq<char>>>, v: Seq<char>, i: int, j: int)
    requires
        0 <= i < j <= att.len(),
        att[i] == Some(v),
        ans[i] != att[i],
    ensures
        num_open(ans, att, v, j) >= num_open(ans, att, v, i) + 1,
    decreases j,
{
    if j > i + 1 {
        lemma_open_grows(ans, att, v, i, j - 1);
    }
}

/// Among guesses of one value that are not exact, credit goes left to right: if a later
/// one is `Misplaced`, so is every earlier one; and where the answer has a single spare
/// copy, the first such guess takes it and a later one is `Missing`.
pub proof fn lemma_left_to_right(ans: Seq<Option<Seq<char>>>, att: Seq<Option<Seq<char>>>, i: int, j: int)
    requires
        ans.len() == att.len(),
        0 <= i < j < att.len(),
        att[i] is Some,
        att[i] == att[j],
        ans[i] != att[i],
        ans[j] != att[j],
    ensures
        column_state(ans, att, j) == State::Misplaced ==> column_state(ans, att, i) == State::Misplaced,
        spare(ans, att, att[i]->0) == 1 && num_open(ans, att, att[i]->0, i) == 0 ==> column_state(ans, att, i)
            == State::Misplaced && column_state(ans, att, j) == State::Missing,
{
    lemma_open_grows(ans, att, att[i]->0, i, j);
}

} // verus!
