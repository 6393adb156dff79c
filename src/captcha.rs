//! The challenge gate: a puzzle answer, and an attempt count that escalates
//! from retry to a fresh puzzle to a permanent block.

use vstd::prelude::*;

verus! {

/// Attempts after which a wrong answer blocks the applicant.
pub const BLOCK_AFTER: u8 = 30;

/// Every this many attempts a wrong answer brings a fresh puzzle.
pub const REFRESH_EVERY: u8 = 10;

/// What one answer to the puzzle leads to.
#[derive(Clone, Copy, Debug, PartialEq, Eq, Structural)]
pub enum CheckState {
    Correct,
    Incorrect,
    Update,
    Block,
}

/// The verdict on a wrong answer given as attempt number `count`.
pub open spec fn attempt_outcome(count: int) -> CheckState {
    if count >= BLOCK_AFTER {
        CheckState::Block
    } else if count % (REFRESH_EVERY as int) == 0 {
        CheckState::Update
    } else {
        CheckState::Incorrect
    }
}

/// The attempt count after one more answer; it stays at the top of its range.
pub open spec fn bumped(count: u8) -> u8 {
    if count < 255 {
        (count + 1) as u8
    } else {
        count
    }
}

/// The verdict on `given` when `expected` is the answer and `count` answers
/// came before it.
pub open spec fn check_outcome(expected: Seq<char>, count: u8, given: Seq<char>) -> CheckState {
    if expected == given {
        CheckState::Correct
    } else {
        attempt_outcome(bumped(count) as int)
    }
}

/// Waiting for the answer to the puzzle shown; counts the answers given.
#[derive(Clone, Debug)]
pub struct ReceiveCaptchaState {
    pub answer: String,
    pub attempt_count: u8,
}

impl ReceiveCaptchaState {
    /// A gate for a fresh puzzle whose answer is `answer`.
    pub fn new(answer: String) -> (r: ReceiveCaptchaState)
        ensures
            r.answer@ == answer@,
            r.attempt_count == 0,
    {
        ReceiveCaptchaState { answer, attempt_count: 0 }
    }

    /// Counts one more answer and judges it.
    pub fn check_answer(&mut self, answer: String) -> (r: CheckState)
        ensures
            final(self).attempt_count == bumped(old(self).attempt_count),
            final(self).answer@ == old(self).answer@,
            r == check_outcome(old(self).answer@, old(self).attempt_count, answer@),
    {
        if self.attempt_count < 255 {
            self.attempt_count = self.attempt_count + 1;
        }
        if self.answer == answer {
            CheckState::Correct
        } else {
            self.check_attempt()
        }
    }

    /// The same gate with a fresh puzzle's answer; the count is kept.
    pub fn change_answer(self, answer: String) -> (r: ReceiveCaptchaState)
        ensures
            r.answer@ == answer@,
            r.attempt_count == self.attempt_count,
    {
        let mut s = self;
        s.answer = answer;
        s
    }

    fn check_attempt(&self) -> (r: CheckState)
        ensures
            r == attempt_outcome(self.attempt_count as int),
    {
        if self.attempt_count >= BLOCK_AFTER {
            CheckState::Block
        } else if self.attempt_count % REFRESH_EVERY == 0 {
            CheckState::Update
        } else {
            CheckState::Incorrect
        }
    }
}

/// A wrong answer blocks exactly when it is attempt thirty or later, and it
/// refreshes the puzzle exactly on the attempts before thirty that are
/// multiples of ten; the block is checked first.
pub proof fn lemma_block_iff_thirty(count: int)
    requires
        0 < count,
    ensures
        (attempt_outcome(count) == CheckState::Block) <==> count >= 30,
        (attempt_outcome(count) == CheckState::Update) <==> (count < 30 && count % 10 == 0),
        attempt_outcome(count) != CheckState::Correct,
{
}

/// The attempt count after `n` more answers, right or wrong.
pub open spec fn count_after(count: u8, n: nat) -> u8
    decreases n,
{
    if n == 0 {
        count
    } else {
        bumped(count_after(count, (n - 1) as nat))
    }
}

proof fn lemma_count_after_fresh(n: nat)
    requires
        n <= 255,
    ensures
        count_after(0, n) == n,
    decreases n,
{
    if n > 0 {
        lemma_count_after_fresh((n - 1) as nat);
    }
}

/// Whatever the earlier answers were, a wrong answer given as the `n`-th
/// answer to a fresh gate blocks exactly when `n` is thirty or more, and
/// brings a fresh puzzle exactly when `n` is ten or twenty.
pub proof fn lemma_nth_answer_blocks_iff_thirty(expected: Seq<char>, given: Seq<char>, n: nat)
    requires
        1 <= n <= 255,
        expected != given,
    ensures
        (check_outcome(expected, count_after(0, (n - 1) as nat), given) == CheckState::Block)
            <==> n >= 30,
        (check_outcome(expected, count_after(0, (n - 1) as nat), given) == CheckState::Update)
            <==> (n == 10 || n == 20),
{
    lemma_count_after_fresh((n - 1) as nat);
    lemma_block_iff_thirty(n as int);
}

} // verus!
