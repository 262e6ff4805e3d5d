//! Scripted dialogue: lines shown one after another until the last.

use vstd::prelude::*;
use vstd::string::*;

verus! {

/// One line of dialogue.
#[derive(Debug)]
pub struct DialogueLine {
    /// Who speaks.
    pub speaker: String,
    /// What is said.
    pub text: String,
}

impl DialogueLine {
    /// Makes a line.
    pub fn new(speaker: &str, text: &str) -> (r: Self)
        ensures
            r.speaker@ == speaker@,
            r.text@ == text@,
    {
        DialogueLine { speaker: String::from_str(speaker), text: String::from_str(text) }
    }
}

/// A sequence of lines and the position of the one shown.
#[derive(Debug)]
pub struct Dialogue {
    /// All the lines.
    pub lines: Vec<DialogueLine>,
    /// The position of the line shown.
    pub index: usize,
    /// Whether the dialogue has been played through.
    pub finished: bool,
}

impl Dialogue {
    /// Whether the dialogue has been played through.
    pub open spec fn done(&self) -> bool {
        self.finished
    }

    /// The lines.
    pub open spec fn line_seq(&self) -> Seq<DialogueLine> {
        self.lines@
    }

    /// The position of the line shown.
    pub open spec fn position(&self) -> int {
        self.index as int
    }

    /// The position is that of a line, or the start of an empty dialogue.
    pub open spec fn wf(&self) -> bool {
        self.index == 0 || self.index < self.lines@.len()
    }

    /// Starts a dialogue at its first line.
    pub fn new(lines: Vec<DialogueLine>) -> (r: Self)
        ensures
            r.line_seq() == lines@,
            r.position() == 0,
            !r.done(),
            r.wf(),
    {
        Dialogue { lines, index: 0, finished: false }
    }

    /// The line shown, if the position holds one.
    pub fn current_line(&self) -> (r: Option<&DialogueLine>)
        ensures
            self.position() < self.line_seq().len() ==> r == Some(&self.line_seq()[self.position()]),
            self.position() >= self.line_seq().len() ==> r is None,
    {
        if self.index < self.lines.len() {
            Some(&self.lines[self.index])
        } else {
            None
        }
    }

    /// Moves to the next line; past the last one, the dialogue is finished instead.
    pub fn next(&mut self)
        requires
            old(self).position() < usize::MAX,
        ensures
            final(self).line_seq() == old(self).line_seq(),
            old(self).position() + 1 < old(self).line_seq().len() ==> {
                &&& final(self).position() == old(self).position() + 1
                &&& final(self).done() == old(self).done()
            },
            old(self).position() + 1 >= old(self).line_seq().len() ==> {
                &&& final(self).position() == old(self).position()
                &&& final(self).done()
            },
            old(self).wf() ==> final(self).wf(),
    {
        if self.index + 1 < self.lines.len() {
            self.index = self.index + 1;
        } else {
            self.finished = true;
        }
    }

    /// Whether the dialogue has been played through.
    pub fn is_finished(&self) -> (r: bool)
        ensures
            r == self.done(),
    {
        self.finished
    }
}

/// The position and finished flag a dialogue of `n` lines has after one call of `next` from
/// `(index, finished)`, as `Dialogue::next` states it.
pub open spec fn next_state(n: int, state: (int, bool)) -> (int, bool) {
    if state.0 + 1 < n {
        (state.0 + 1, state.1)
    } else {
        (state.0, true)
    }
}

/// The position and finished flag of a dialogue of `n` lines after `Dialogue::new` and `k`
/// calls of `next`.
pub open spec fn state_after_nexts(n: int, k: nat) -> (int, bool)
    decreases k,
{
    if k == 0 {
        (0, false)
    } else {
        next_state(n, state_after_nexts(n, (k - 1) as nat))
    }
}

/// A dialogue of `n >= 1` lines shows line `min(k, n - 1)` after `k` calls of `next`, so its
/// position never reaches `n`, and it is finished exactly when `k >= n`. A dialogue without
/// lines stays at position 0 and is finished after the first call.
pub proof fn law_dialogue_after_nexts(n: int, k: nat)
    requires
        n >= 0,
    ensures
        state_after_nexts(n, k).0 == (if n >= 1 && k > n - 1 { n - 1 } else if n >= 1 { k as int } else { 0 }),
        state_after_nexts(n, k).1 == (k >= n && k >= 1),
        n >= 1 ==> 0 <= state_after_nexts(n, k).0 < n,
    decreases k,
{
    if k > 0 {
        law_dialogue_after_nexts(n, (k - 1) as nat);
    }
}

} // verus!
