//! What a finished child process left behind, for the parsers that read the
//! output of `pactl`, `ip` and the like.

use vstd::prelude::*;

use crate::text::{utf8_lossy, words, words_of};

verus! {

pub struct CommandOutput {
    /// Whether the process exited successfully.
    pub success: bool,
    pub stdout: Vec<u8>,
    pub stderr: Vec<u8>,
}

/// Output as text, the way `String::from_utf8_lossy` reads it.
pub open spec fn output_text(bytes: Seq<u8>) -> Seq<char> {
    utf8_lossy(bytes)
}

/// The second whitespace-separated word of a line: `split_whitespace().nth(1)`.
pub open spec fn second_word(line: Seq<char>) -> Option<Seq<char>> {
    if words(line).len() > 1 {
        Some(words(line)[1])
    } else {
        None
    }
}

pub fn second_word_of(line: &[char]) -> (r: Option<Vec<char>>)
    ensures
        match r {
            Some(w) => second_word(line@) == Some(w@),
            None => second_word(line@) is None,
        },
{
    let mut ws = words_of(line);
    if ws.len() > 1 {
        Some(ws.swap_remove(1))
    } else {
        None
    }
}

} // verus!
