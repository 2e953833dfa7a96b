//! Admission of a new connection: the proposed username is trimmed, checked,
//! and registered if free.

use vstd::prelude::*;
use crate::registry::{HandshakeError, Registry};
use crate::text::{to_chars, trim, trim_of};

verus! {

/// What `char::is_alphanumeric` returns for a character.
pub uninterp spec fn is_alnum(c: char) -> bool;

/// Relies on `char::is_alphanumeric`: whether the character is alphabetic or
/// numeric in Unicode's terms, which for an ASCII character means a letter
/// `A`-`Z`, `a`-`z` or a digit `0`-`9`.
#[verifier::external_body]
fn is_alphanumeric(c: char) -> (r: bool)
    ensures
        r == is_alnum(c),
        (c as u32) < 128 ==> (r <==> is_ascii_alnum(c)),
{
    c.is_alphanumeric()
}

/// An ASCII letter or digit.
pub open spec fn is_ascii_alnum(c: char) -> bool {
    ('0' <= c <= '9') || ('A' <= c <= 'Z') || ('a' <= c <= 'z')
}

/// A username has at least three characters, each alphanumeric.
pub open spec fn valid_username(name: Seq<char>) -> bool {
    name.len() >= 3 && forall|i: int| 0 <= i < name.len() ==> is_alnum(#[trigger] name[i])
}

/// Whether `name`, as given, is a valid username.
pub fn is_valid_username(name: &str) -> (r: bool)
    ensures
        r == valid_username(name@),
{
    let chars = to_chars(name);
    if chars.len() < 3 {
        return false;
    }
    let mut i: usize = 0;
    while i < chars.len()
        invariant
            chars@ == name@,
            i <= chars@.len(),
            forall|j: int| 0 <= j < i ==> is_alnum(#[trigger] chars@[j]),
        decreases chars@.len() - i,
    {
        if !is_alphanumeric(chars[i]) {
            return false;
        }
        i += 1;
    }
    true
}

/// The username that `raw` proposes: `raw` trimmed, if that is valid.
pub fn validate_username(raw: &str) -> (r: Result<String, HandshakeError>)
    ensures
        match r {
            Ok(u) => u@ == trim_of(raw@) && valid_username(u@),
            Err(e) => e == HandshakeError::InvalidUsername && !valid_username(trim_of(raw@)),
        },
{
    let name = trim(raw);
    if is_valid_username(name) {
        Ok(name.to_owned())
    } else {
        Err(HandshakeError::InvalidUsername)
    }
}

/// Registers the connection that proposed `raw`, with `outbound` as its queue
/// handle. The registry changes only when the result is `Ok`, which holds the
/// admitted username.
pub fn join<H>(registry: &mut Registry<H>, raw: &str, outbound: H) -> (r: Result<
    String,
    HandshakeError,
>)
    requires
        old(registry).wf(),
    ensures
        final(registry).wf(),
        !valid_username(trim_of(raw@)) ==> r == Err::<String, HandshakeError>(
            HandshakeError::InvalidUsername,
        ) && final(registry)@ == old(registry)@,
        valid_username(trim_of(raw@)) && old(registry).names().contains(trim_of(raw@)) ==> r
            == Err::<String, HandshakeError>(HandshakeError::UsernameTaken) && final(registry)@
            == old(registry)@,
        valid_username(trim_of(raw@)) && !old(registry).names().contains(trim_of(raw@)) ==> (
        r matches Ok(u) && u@ == trim_of(raw@)) && final(registry)@ == old(registry)@.push(
            (trim_of(raw@), outbound),
        ),
{
    let name = match validate_username(raw) {
        Ok(u) => u,
        Err(e) => return Err(e),
    };
    let key = name.clone();
    match registry.insert(key, outbound) {
        Ok(()) => Ok(name),
        Err(e) => Err(e),
    }
}

} // verus!
