//! Counting the steps of an orbit until it escapes.
//!
//! An orbit is tested for divergence before each step. Its count is the index
//! of the first test that succeeds, or the cap if none of the first `cap`
//! tests does; the cap itself is thereby reserved for orbits that stayed
//! bounded. The tests themselves are the caller's business: this module only
//! keeps count.

use vstd::prelude::*;

verus! {

/// The count of an orbit whose divergence tests, from step `index` on, come
/// out as `tests` says.
pub open spec fn count_from(tests: Seq<bool>, cap: nat, index: nat) -> nat
    decreases cap - index,
{
    if index >= cap {
        cap
    } else if index < tests.len() && tests[index as int] {
        index
    } else {
        count_from(tests, cap, index + 1)
    }
}

/// The count of an orbit under a cap, given the outcome of each divergence
/// test.
pub open spec fn escape_count(tests: Seq<bool>, cap: nat) -> nat {
    count_from(tests, cap, 0)
}

/// `count` is the first index below the cap at which the test succeeds, or the
/// cap where there is none.
pub open spec fn is_first_escape(tests: Seq<bool>, cap: nat, count: nat) -> bool {
    &&& count <= cap
    &&& forall|j: int| 0 <= j < count ==> !#[trigger] tests[j]
    &&& count < cap ==> tests[count as int]
}

/// One test settles the count or hands it on: a test that succeeds gives its
/// own index, the last test below the cap gives the cap when it fails, and any
/// other failure leaves the count to the tests that follow.
pub proof fn lemma_count_step(tests: Seq<bool>, cap: nat, index: nat)
    requires
        index < cap,
    ensures
        count_from(tests, cap, index) == (if index < tests.len() && tests[index as int] {
            index
        } else if index + 1 == cap {
            cap
        } else {
            count_from(tests, cap, index + 1)
        }),
{
    reveal_with_fuel(count_from, 2);
}

/// Counting from `index` finds the first successful test at or after it.
pub proof fn lemma_count_from(tests: Seq<bool>, cap: nat, index: nat)
    requires
        cap <= tests.len(),
        index <= cap,
    ensures
        index <= count_from(tests, cap, index) <= cap,
        forall|j: int| index <= j < count_from(tests, cap, index) ==> !#[trigger] tests[j],
        count_from(tests, cap, index) < cap ==> tests[count_from(tests, cap, index) as int],
    decreases cap - index,
{
    if index < cap && !tests[index as int] {
        lemma_count_from(tests, cap, index + 1);
    }
}

/// The count is the index of the first successful test below the cap, and the
/// cap exactly when no test below it succeeds; no other number is.
pub proof fn lemma_escape_count_is_first(tests: Seq<bool>, cap: nat, count: nat)
    requires
        cap <= tests.len(),
    ensures
        is_first_escape(tests, cap, escape_count(tests, cap)),
        is_first_escape(tests, cap, count) ==> count == escape_count(tests, cap),
        escape_count(tests, cap) == cap <==> forall|j: int| 0 <= j < cap ==> !#[trigger] tests[j],
{
    lemma_count_from(tests, cap, 0);
    let found = escape_count(tests, cap);
    if is_first_escape(tests, cap, count) && count != found {
        if count < found {
            assert(!tests[count as int]);
        } else {
            assert(!tests[found as int]);
        }
    }
}

/// Two ways of testing for divergence that agree at every step below the cap
/// give the same count.
pub proof fn lemma_agreeing_tests_agree(first: Seq<bool>, second: Seq<bool>, cap: nat)
    requires
        cap <= first.len(),
        cap <= second.len(),
        forall|j: int| 0 <= j < cap ==> first[j] == second[j],
    ensures
        escape_count(first, cap) == escape_count(second, cap),
{
    lemma_escape_count_is_first(first, cap, escape_count(second, cap));
    lemma_escape_count_is_first(second, cap, escape_count(second, cap));
}

/// The step counter of one orbit.
#[derive(Clone, Copy, Debug, PartialEq, Eq, Structural)]
pub struct EscapeTimer {
    /// Index of the divergence test that comes next.
    pub index: u32,
    /// Number of tests after which the orbit counts as bounded.
    pub cap: u32,
}

impl EscapeTimer {
    /// A counter before the first test.
    pub fn start(cap: u32) -> (timer: EscapeTimer)
        ensures
            timer.index == 0,
            timer.cap == cap,
    {
        EscapeTimer { index: 0, cap }
    }

    /// Whether a divergence test is still due. Where none is, the count is
    /// the cap.
    pub fn pending(&self) -> (due: bool)
        ensures
            due == (self.index < self.cap),
    {
        self.index < self.cap
    }

    /// Takes the outcome of the test that was due. Returns the orbit's count
    /// once it is known: the index of this test if it succeeded, the cap if
    /// it was the last one and failed. Otherwise the orbit is to be advanced
    /// by one step and tested again.
    pub fn observe(&mut self, escaped: bool) -> (count: Option<u32>)
        requires
            old(self).index < old(self).cap,
        ensures
            final(self).cap == old(self).cap,
            escaped ==> count == Some(old(self).index) && final(self).index == old(self).index,
            !escaped ==> final(self).index == old(self).index + 1,
            !escaped ==> count == (if old(self).index + 1 == old(self).cap {
                Some(old(self).cap)
            } else {
                None
            }),
    {
        if escaped {
            Some(self.index)
        } else {
            self.index = self.index + 1;
            if self.index == self.cap {
                Some(self.cap)
            } else {
                None
            }
        }
    }
}

/// Counts an orbit from a record of its divergence tests. Tests that the
/// record lacks count as failed.
pub fn count_recorded(tests: &Vec<bool>, cap: u32) -> (count: u32)
    ensures
        count == escape_count(tests@, cap as nat),
        cap <= tests.len() ==> is_first_escape(tests@, cap as nat, count as nat),
{
    proof {
        if cap <= tests.len() {
            lemma_escape_count_is_first(tests@, cap as nat, 0);
        }
    }
    let mut timer = EscapeTimer::start(cap);
    while timer.pending()
        invariant
            timer.cap == cap,
            timer.index <= cap,
            cap <= tests.len() ==> is_first_escape(
                tests@,
                cap as nat,
                escape_count(tests@, cap as nat),
            ),
            escape_count(tests@, cap as nat) == count_from(
                tests@,
                cap as nat,
                timer.index as nat,
            ),
        decreases cap - timer.index,
    {
        let at: usize = timer.index as usize;
        let escaped: bool = at < tests.len() && tests[at];
        let ghost before = timer;
        let known = timer.observe(escaped);
        proof {
            lemma_count_step(tests@, cap as nat, before.index as nat);
        }
        if let Some(count) = known {
            return count;
        }
    }
    cap
}

} // verus!
