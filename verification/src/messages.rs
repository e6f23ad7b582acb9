//! Status messages and the checks that report through them.

use vstd::prelude::*;
use crate::style::{bright_green, bright_red, bright_yellow, bright_green_text, bright_red_text, bright_yellow_text};
use crate::text::push_str;

verus! {

/// An error as the tool reports it: a styled message, and, where an outside
/// parser refused the input, that parser's own description of why.
#[derive(Debug)]
pub struct AlignError {
    pub message: String,
    pub cause: Option<String>,
}

impl AlignError {
    pub open spec fn message_view(&self) -> Seq<char> {
        self.message@
    }

    pub open spec fn cause_view(&self) -> Option<Seq<char>> {
        match self.cause {
            Some(c) => Some(c@),
            None => None,
        }
    }
}

pub open spec fn success_mark() -> Seq<char> {
    bright_green_text(seq!['\u{2714}'])
}

pub open spec fn warning_mark() -> Seq<char> {
    bright_yellow_text(seq!['\u{26a0}'])
}

pub open spec fn error_mark() -> Seq<char> {
    bright_red_text(seq!['\u{2716}'])
}

pub open spec fn success_msg(msg: Seq<char>) -> Seq<char> {
    success_mark() + seq![' '] + msg
}

pub open spec fn warning_msg(msg: Seq<char>) -> Seq<char> {
    warning_mark() + seq![' '] + msg
}

pub open spec fn error_msg(msg: Seq<char>) -> Seq<char> {
    error_mark() + seq![' '] + msg
}

/// A success message: a green check mark, a space, then `msg`.
pub fn get_success_msg(msg: &str) -> (r: String)
    ensures
        r@ == success_msg(msg@),
{
    proof {
        reveal_strlit("\u{2714}");
    }
    let mut r = bright_green("\u{2714}");
    r.push(' ');
    push_str(&mut r, msg);
    r
}

/// A warning message: a yellow warning sign, a space, then `msg`.
pub fn get_warning_msg(msg: &str) -> (r: String)
    ensures
        r@ == warning_msg(msg@),
{
    proof {
        reveal_strlit("\u{26a0}");
    }
    let mut r = bright_yellow("\u{26a0}");
    r.push(' ');
    push_str(&mut r, msg);
    r
}

/// An error message: a red cross, a space, then `msg`.
pub fn get_error_msg(msg: &str) -> (r: String)
    ensures
        r@ == error_msg(msg@),
{
    proof {
        reveal_strlit("\u{2716}");
    }
    let mut r = bright_red("\u{2716}");
    r.push(' ');
    push_str(&mut r, msg);
    r
}

} // verus!
