//! A fixed sequence of AT commands sent one after the other, stopping at the
//! first failure. The caller sends what an action names and reports back how
//! the command went; these functions decide what comes next.

use vstd::prelude::*;
use crate::text::{append_chars, chars_of_string, string_of};

verus! {

/// One command of a sequence.
pub struct AtStep {
    /// The AT command sent.
    pub command: String,
    /// What the step does, reported among the completed steps.
    pub label: String,
    /// Text put before the error when this step fails.
    pub fail_prefix: String,
    /// On failure the module is first taken back to normal operation.
    pub restore_on_fail: bool,
}

/// A command sequence and the message of its success.
pub struct AtScript {
    pub steps: Vec<AtStep>,
    pub success: String,
}

/// What the caller does next.
pub enum AtAction {
    /// Send this command and report how it went.
    Send(String),
    /// Send the restore command, ignoring its outcome, then fail with this message.
    RestoreThenFail(String),
    /// Fail with this message.
    Fail(String),
    /// The sequence completed; report this message.
    Succeed(String),
}

/// An action with its texts as character sequences.
pub ghost enum ActionView {
    Send(Seq<char>),
    RestoreThenFail(Seq<char>),
    Fail(Seq<char>),
    Succeed(Seq<char>),
}

/// The texts of an action.
pub open spec fn action_view(a: AtAction) -> ActionView {
    match a {
        AtAction::Send(c) => ActionView::Send(c@),
        AtAction::RestoreThenFail(m) => ActionView::RestoreThenFail(m@),
        AtAction::Fail(m) => ActionView::Fail(m@),
        AtAction::Succeed(m) => ActionView::Succeed(m@),
    }
}

/// A step as (command, label, failure prefix, restore on failure).
pub open spec fn step_view(s: AtStep) -> (Seq<char>, Seq<char>, Seq<char>, bool) {
    (s.command@, s.label@, s.fail_prefix@, s.restore_on_fail)
}

/// The steps of a script.
pub open spec fn steps_view(v: Seq<AtStep>) -> Seq<(Seq<char>, Seq<char>, Seq<char>, bool)> {
    v.map_values(|s: AtStep| step_view(s))
}

/// The first action of a sequence: send its first command, or succeed at
/// once when it has none.
pub open spec fn first_action(steps: Seq<(Seq<char>, Seq<char>, Seq<char>, bool)>, success: Seq<
    char,
>) -> ActionView {
    if steps.len() > 0 {
        ActionView::Send(steps[0].0)
    } else {
        ActionView::Succeed(success)
    }
}

/// The action after step `pos` went as `result`: on success the next
/// command, or the success message after the last; on failure the step's
/// prefix followed by the error, restoring first where the step asks it.
pub open spec fn next_action(
    steps: Seq<(Seq<char>, Seq<char>, Seq<char>, bool)>,
    success: Seq<char>,
    pos: int,
    result: Result<(), Seq<char>>,
) -> ActionView {
    match result {
        Ok(_) => if pos + 1 < steps.len() {
            ActionView::Send(steps[pos + 1].0)
        } else {
            ActionView::Succeed(success)
        },
        Err(e) => if steps[pos].3 {
            ActionView::RestoreThenFail(steps[pos].2 + e)
        } else {
            ActionView::Fail(steps[pos].2 + e)
        },
    }
}

/// The outcome of a command as text.
pub open spec fn result_view(r: Result<(), String>) -> Result<(), Seq<char>> {
    match r {
        Ok(_) => Ok(()),
        Err(e) => Err(e@),
    }
}

/// A step from its texts.
pub fn at_step(command: &str, label: &str, fail_prefix: &str, restore_on_fail: bool) -> (r: AtStep)
    ensures
        step_view(r) == (command@, label@, fail_prefix@, restore_on_fail),
{
    AtStep {
        command: command.to_owned(),
        label: label.to_owned(),
        fail_prefix: fail_prefix.to_owned(),
        restore_on_fail,
    }
}

impl AtScript {
    /// What to do first.
    pub fn first_action(&self) -> (r: AtAction)
        ensures
            action_view(r) == first_action(steps_view(self.steps@), self.success@),
    {
        if self.steps.len() > 0 {
            AtAction::Send(self.steps[0].command.clone())
        } else {
            AtAction::Succeed(self.success.clone())
        }
    }

    /// What to do after step `pos` went as `result`.
    pub fn after_step(&self, pos: usize, result: Result<(), String>) -> (r: AtAction)
        requires
            pos < self.steps@.len(),
        ensures
            action_view(r) == next_action(
                steps_view(self.steps@),
                self.success@,
                pos as int,
                result_view(result),
            ),
    {
        match result {
            Ok(_) => {
                if pos < self.steps.len() - 1 {
                    AtAction::Send(self.steps[pos + 1].command.clone())
                } else {
                    AtAction::Succeed(self.success.clone())
                }
            },
            Err(e) => {
                let step = &self.steps[pos];
                let mut msg = chars_of_string(&step.fail_prefix);
                let ev = chars_of_string(&e);
                append_chars(&mut msg, ev.as_slice());
                let m = string_of(msg.as_slice());
                if step.restore_on_fail {
                    AtAction::RestoreThenFail(m)
                } else {
                    AtAction::Fail(m)
                }
            },
        }
    }

    /// Labels of the first `n` steps, the steps completed before the sequence
    /// ended.
    pub fn completed_labels(&self, n: usize) -> (r: Vec<String>)
        requires
            n <= self.steps@.len(),
        ensures
            r@.len() == n,
            forall|i: int| 0 <= i < n ==> r@[i]@ == self.steps@[i].label@,
    {
        let mut out: Vec<String> = Vec::new();
        let mut i: usize = 0;
        while i < n
            invariant
                i <= n <= self.steps@.len(),
                out@.len() == i,
                forall|j: int| 0 <= j < i ==> out@[j]@ == self.steps@[j].label@,
            decreases n - i,
        {
            out.push(self.steps[i].label.clone());
            i = i + 1;
        }
        out
    }
}

/// A sequence sends its commands one by one in their order while they
/// succeed, succeeds after the last one, and stops at the first failure,
/// naming the failed step's prefix and the error.
pub proof fn lemma_sequence_runs_in_order(
    steps: Seq<(Seq<char>, Seq<char>, Seq<char>, bool)>,
    success: Seq<char>,
)
    ensures
        steps.len() == 0 ==> first_action(steps, success) == ActionView::Succeed(success),
        steps.len() > 0 ==> first_action(steps, success) == ActionView::Send(steps[0].0),
        forall|pos: int|
            0 <= pos < steps.len() - 1 ==> #[trigger] next_action(steps, success, pos, Ok(()))
                == ActionView::Send(steps[pos + 1].0),
        steps.len() > 0 ==> next_action(steps, success, steps.len() - 1, Ok(()))
            == ActionView::Succeed(success),
        forall|pos: int, e: Seq<char>|
            0 <= pos < steps.len() ==> match #[trigger] next_action(steps, success, pos, Err(e)) {
                ActionView::RestoreThenFail(m) => steps[pos].3 && m == steps[pos].2 + e,
                ActionView::Fail(m) => !steps[pos].3 && m == steps[pos].2 + e,
                _ => false,
            },
{
}

} // verus!
