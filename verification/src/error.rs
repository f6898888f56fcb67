//! Errors of a replay session and the text that a caller sees.
use vstd::prelude::*;

use crate::text::decimal_string;

verus! {

/// Why a request to a replay session was refused.
#[derive(Clone, Debug, PartialEq, Eq)]
pub enum ReplError {
    /// No replay state has the id `state`; the session holds `len` states.
    UnknownState { state: u64, len: usize },
    /// State `state` has no goal at `index`; it has `goals` goals.
    NoGoal { index: usize, state: u64, goals: usize },
    /// The environment has no constant of this name.
    UnknownConstant { name: String },
    /// The source file could not be read.
    CannotRead { path: String, reason: String },
    /// Freed import regions could not be mapped again, so nothing was imported.
    ImportBlocked { importing: String, reasons: String },
    /// The declaration tactic of a `check` query left no goal.
    CheckLeftNoGoal,
    /// The goal that a `check` query left has no hypothesis.
    CheckLeftNoHypothesis,
    /// Lean itself reported a failure.
    Lean { message: String },
}

/// A [`ReplError`] with its texts.
#[verifier::ext_equal]
pub enum ErrorModel {
    UnknownState { state: u64, len: usize },
    NoGoal { index: usize, state: u64, goals: usize },
    UnknownConstant { name: Seq<char> },
    CannotRead { path: Seq<char>, reason: Seq<char> },
    ImportBlocked { importing: Seq<char>, reasons: Seq<char> },
    CheckLeftNoGoal,
    CheckLeftNoHypothesis,
    Lean { message: Seq<char> },
}

impl View for ReplError {
    type V = ErrorModel;

    open spec fn view(&self) -> ErrorModel {
        match *self {
            ReplError::UnknownState { state, len } => ErrorModel::UnknownState { state, len },
            ReplError::NoGoal { index, state, goals } => ErrorModel::NoGoal {
                index,
                state,
                goals,
            },
            ReplError::UnknownConstant { name } => ErrorModel::UnknownConstant { name: name@ },
            ReplError::CannotRead { path, reason } => ErrorModel::CannotRead {
                path: path@,
                reason: reason@,
            },
            ReplError::ImportBlocked { importing, reasons } => ErrorModel::ImportBlocked {
                importing: importing@,
                reasons: reasons@,
            },
            ReplError::CheckLeftNoGoal => ErrorModel::CheckLeftNoGoal,
            ReplError::CheckLeftNoHypothesis => ErrorModel::CheckLeftNoHypothesis,
            ReplError::Lean { message } => ErrorModel::Lean { message: message@ },
        }
    }
}

/// What is said of a state id that is out of range.
pub open spec fn unknown_state_text(state: u64, len: nat) -> Seq<char> {
    if len == 0 {
        "unknown state "@ + crate::text::decimal(state as nat)
            + " (no states yet; call set_goal first)"@
    } else {
        "unknown state "@ + crate::text::decimal(state as nat) + " (valid states: 0..="@
            + crate::text::decimal((len - 1) as nat) + ")"@
    }
}

/// What is said of a goal index that is out of range.
pub open spec fn no_goal_text(index: nat, state: u64, goals: nat) -> Seq<char> {
    "no goal at index "@ + crate::text::decimal(index) + " in state "@ + crate::text::decimal(
        state as nat,
    ) + " (state has "@ + crate::text::decimal(goals) + " goals)"@
}

impl ReplError {
    /// The text of the error.
    pub open spec fn text(self) -> Seq<char> {
        match self {
            ReplError::UnknownState { state, len } => unknown_state_text(state, len as nat),
            ReplError::NoGoal { index, state, goals } => no_goal_text(
                index as nat,
                state,
                goals as nat,
            ),
            ReplError::UnknownConstant { name } => "unknown constant: "@ + name@,
            ReplError::CannotRead { path, reason } => "cannot read "@ + path@ + ": "@ + reason@,
            ReplError::ImportBlocked { importing, reasons } => {
                "cannot revive freed import regions before importing "@ + importing@ + ": "@
                    + reasons@
            },
            ReplError::CheckLeftNoGoal => "internal error: check have produced no goals"@,
            ReplError::CheckLeftNoHypothesis => {
                "internal error: check declaration not found in goal context"@
            },
            ReplError::Lean { message } => message@,
        }
    }

    /// The text of the error, as a caller sees it.
    pub fn message(&self) -> (r: String)
        ensures
            r@ == self.text(),
    {
        match self {
            ReplError::UnknownState { state, len } => unknown_state_msg(*state, *len),
            ReplError::NoGoal { index, state, goals } => no_goal_msg(*index, *state, *goals),
            ReplError::UnknownConstant { name } => {
                "unknown constant: ".to_owned().concat(name.as_str())
            },
            ReplError::CannotRead { path, reason } => {
                "cannot read ".to_owned().concat(path.as_str()).concat(": ").concat(
                    reason.as_str(),
                )
            },
            ReplError::ImportBlocked { importing, reasons } => {
                "cannot revive freed import regions before importing ".to_owned().concat(
                    importing.as_str(),
                ).concat(": ").concat(reasons.as_str())
            },
            ReplError::CheckLeftNoGoal => {
                "internal error: check have produced no goals".to_owned()
            },
            ReplError::CheckLeftNoHypothesis => {
                "internal error: check declaration not found in goal context".to_owned()
            },
            ReplError::Lean { message } => message.clone(),
        }
    }
}

/// Error text for an out-of-range replay-state id, with the valid range so that users can
/// correct themselves.
pub fn unknown_state_msg(state: u64, len: usize) -> (r: String)
    ensures
        r@ == unknown_state_text(state, len as nat),
{
    let head = "unknown state ".to_owned().concat(decimal_string(state).as_str());
    if len == 0 {
        head.concat(" (no states yet; call set_goal first)")
    } else {
        let last: u64 = (len - 1) as u64;
        head.concat(" (valid states: 0..=").concat(decimal_string(last).as_str()).concat(")")
    }
}

/// Error text for an out-of-range goal index.
pub fn no_goal_msg(index: usize, state: u64, goals: usize) -> (r: String)
    ensures
        r@ == no_goal_text(index as nat, state, goals as nat),
{
    "no goal at index ".to_owned().concat(decimal_string(index as u64).as_str()).concat(
        " in state ",
    ).concat(decimal_string(state).as_str()).concat(" (state has ").concat(
        decimal_string(goals as u64).as_str(),
    ).concat(" goals)")
}

/// What each error says.
pub proof fn law_errors_read(
    state: u64,
    index: usize,
    len: usize,
    name: String,
    path: String,
    reason: String,
    message: String,
)
    ensures
        (ReplError::UnknownState { state, len: 0 }).text() == "unknown state "@
            + crate::text::decimal(state as nat) + " (no states yet; call set_goal first)"@,
        len > 0 ==> (ReplError::UnknownState { state, len }).text() == "unknown state "@
            + crate::text::decimal(state as nat) + " (valid states: 0..="@ + crate::text::decimal(
            (len - 1) as nat,
        ) + ")"@,
        (ReplError::NoGoal { index, state, goals: len }).text() == "no goal at index "@
            + crate::text::decimal(index as nat) + " in state "@ + crate::text::decimal(
            state as nat,
        ) + " (state has "@ + crate::text::decimal(len as nat) + " goals)"@,
        (ReplError::UnknownConstant { name }).text() == "unknown constant: "@ + name@,
        (ReplError::CannotRead { path, reason }).text() == "cannot read "@ + path@ + ": "@
            + reason@,
        (ReplError::ImportBlocked { importing: name, reasons: reason }).text()
            == "cannot revive freed import regions before importing "@ + name@ + ": "@ + reason@,
        ReplError::CheckLeftNoGoal.text() == "internal error: check have produced no goals"@,
        ReplError::CheckLeftNoHypothesis.text()
            == "internal error: check declaration not found in goal context"@,
        (ReplError::Lean { message }).text() == message@,
        unknown_state_text(state, len as nat) == (ReplError::UnknownState { state, len }).text(),
        no_goal_text(index as nat, state, len as nat) == (ReplError::NoGoal {
            index,
            state,
            goals: len,
        }).text(),
{
}

/// The contents of an error are its variant with the texts of its strings.
pub proof fn law_errors_hold_their_texts(e: ReplError)
    ensures
        match e {
            ReplError::UnknownState { state, len } => e@ == (ErrorModel::UnknownState {
                state,
                len,
            }),
            ReplError::NoGoal { index, state, goals } => e@ == (ErrorModel::NoGoal {
                index,
                state,
                goals,
            }),
            ReplError::UnknownConstant { name } => e@ == (ErrorModel::UnknownConstant {
                name: name@,
            }),
            ReplError::CannotRead { path, reason } => e@ == (ErrorModel::CannotRead {
                path: path@,
                reason: reason@,
            }),
            ReplError::ImportBlocked { importing, reasons } => e@ == (ErrorModel::ImportBlocked {
                importing: importing@,
                reasons: reasons@,
            }),
            ReplError::CheckLeftNoGoal => e@ == ErrorModel::CheckLeftNoGoal,
            ReplError::CheckLeftNoHypothesis => e@ == ErrorModel::CheckLeftNoHypothesis,
            ReplError::Lean { message } => e@ == (ErrorModel::Lean { message: message@ }),
        },
{
}

} // verus!
