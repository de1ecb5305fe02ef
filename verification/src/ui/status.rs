//! The status line.

use vstd::prelude::*;

verus! {

/// What the assistant is doing.
#[derive(Clone, Copy, Debug, PartialEq, Eq, Structural)]
pub enum GenState {
    Idle,
    Generating,
    Connecting,
}

/// The word for what the assistant is doing.
pub fn status_word(state: GenState) -> (r: &'static str)
    ensures
        r@ == match state {
            GenState::Idle => "ready"@,
            GenState::Generating => "generating…"@,
            GenState::Connecting => "connecting…"@,
        },
{
    match state {
        GenState::Idle => "ready",
        GenState::Generating => "generating…",
        GenState::Connecting => "connecting…",
    }
}

/// The branch, or a dash where there is none.
pub fn branch_label(branch: Option<&str>) -> (r: String)
    ensures
        r@ == match branch {
            Some(b) => " "@ + b@ + " "@,
            None => " – "@,
        },
{
    match branch {
        Some(b) => {
            let mut t = " ".to_string();
            t.append(b);
            t.append(" ");
            t
        },
        None => " – ".to_string(),
    }
}

} // verus!
