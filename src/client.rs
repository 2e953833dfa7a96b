//! Decisions of the interactive client: what a typed line asks for, and
//! whether a failed connection attempt is retried.

use vstd::prelude::*;
use crate::text::{to_chars, trim, trim_of};

verus! {

/// The command that sends a file: `/file <path>`.
pub const FILE_COMMAND: &'static str = "/file ";

/// What a line typed at the client asks for.
#[derive(Debug, PartialEq, Eq)]
pub enum ClientInput {
    /// Nothing but white space: send nothing.
    Nothing,
    /// Send this text.
    Text(String),
    /// Read the file at this path and send it.
    File(String),
}

/// `s` starts with the file command.
pub open spec fn starts_with_command(s: Seq<char>) -> bool {
    s.len() >= FILE_COMMAND@.len() && s.subrange(0, FILE_COMMAND@.len() as int) == FILE_COMMAND@
}

/// `s` with every leading copy of the file command removed.
pub open spec fn strip_commands(s: Seq<char>) -> Seq<char>
    decreases s.len(),
{
    if starts_with_command(s) && FILE_COMMAND@.len() > 0 {
        strip_commands(s.subrange(FILE_COMMAND@.len() as int, s.len() as int))
    } else {
        s
    }
}

/// Whether the chars of `s` from `at` on start with those of `p`.
fn has_prefix_at(s: &Vec<char>, at: usize, p: &Vec<char>) -> (r: bool)
    requires
        at <= s@.len(),
    ensures
        r == (s@.len() - at >= p@.len() && s@.subrange(at as int, at + p@.len()) == p@),
{
    let n = s.len();
    if n - at < p.len() {
        return false;
    }
    let mut i: usize = 0;
    while i < p.len()
        invariant
            n == s@.len(),
            at <= s@.len(),
            s@.len() - at >= p@.len(),
            i <= p@.len(),
            forall|j: int| 0 <= j < i ==> s@[at + j] == p@[j],
        decreases p@.len() - i,
    {
        if s[at + i] != p[i] {
            assert(s@.subrange(at as int, at + p@.len())[i as int] != p@[i as int]);
            return false;
        }
        i += 1;
    }
    assert(s@.subrange(at as int, at + p@.len()) =~= p@);
    true
}

/// What an already trimmed line asks for.
pub open spec fn input_of(text: Seq<char>, r: ClientInput) -> bool {
    match r {
        ClientInput::Nothing => text.len() == 0,
        ClientInput::Text(t) => text.len() > 0 && !starts_with_command(text) && t@ == text,
        ClientInput::File(p) => text.len() > 0 && starts_with_command(text) && p@
            == strip_commands(text),
    }
}

/// What the typed `line` asks for: nothing if it is blank once trimmed, a file
/// if the trimmed line starts with the file command (every leading copy of
/// which is dropped from the path), else the trimmed text.
pub fn parse_input(line: &str) -> (r: ClientInput)
    ensures
        input_of(trim_of(line@), r),
{
    classify_input(trim(line))
}

/// What the trimmed line `text` asks for.
pub fn classify_input(text: &str) -> (r: ClientInput)
    ensures
        input_of(text@, r),
{
    let chars = to_chars(text);
    if chars.len() == 0 {
        return ClientInput::Nothing;
    }
    let command = to_chars(FILE_COMMAND);
    if !has_prefix_at(&chars, 0, &command) {
        return ClientInput::Text(text.to_owned());
    }
    let n = chars.len();
    let mut at: usize = command.len();
    assert(command@.len() > 0) by {
        reveal_strlit("/file ");
    }
    loop
        invariant
            n == chars@.len(),
            at <= chars@.len(),
            starts_with_command(text@),
            command@ == FILE_COMMAND@,
            command@.len() > 0,
            chars@ == text@,
            strip_commands(text@) == strip_commands(chars@.subrange(at as int, chars@.len() as int)),
        ensures
            at <= chars@.len(),
            strip_commands(text@) == strip_commands(chars@.subrange(at as int, chars@.len() as int)),
            !(chars@.len() - at >= command@.len() && chars@.subrange(at as int, at + command@.len())
                == command@),
        decreases chars@.len() - at,
    {
        if !has_prefix_at(&chars, at, &command) {
            break;
        }
        let ghost rest = chars@.subrange(at as int, chars@.len() as int);
        assert(rest.subrange(0, command@.len() as int) =~= chars@.subrange(
            at as int,
            at + command@.len(),
        ));
        assert(rest.subrange(command@.len() as int, rest.len() as int) =~= chars@.subrange(
            at + command@.len(),
            chars@.len() as int,
        ));
        at = at + command.len();
    }
    let ghost rest = chars@.subrange(at as int, chars@.len() as int);
    proof {
        if rest.len() >= command@.len() {
            assert(rest.subrange(0, command@.len() as int) =~= chars@.subrange(
                at as int,
                at + command@.len(),
            ));
        }
    }
    ClientInput::File(text.substring_char(at, n).to_owned())
}

/// Whether a failed connection attempt, numbered from zero, is followed by
/// another out of `retries`.
pub fn should_retry(attempt: u8, retries: u8) -> (r: bool)
    ensures
        r == (attempt + 1 < retries),
{
    (attempt as u16) + 1 < retries as u16
}

} // verus!
