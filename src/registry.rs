//! The participant registry: who is connected, and the handle of each one's
//! outbound queue. Usernames are unique at every instant.

use vstd::prelude::*;
use crate::message::Message;
use crate::router::{deliveries_view, fan_out, fanout, Delivery};
use crate::text::text_eq;

verus! {

/// Why a connection was not admitted.
#[derive(Clone, Copy, Debug, PartialEq, Eq, Structural)]
pub enum HandshakeError {
    /// The proposed name is shorter than three characters or holds a
    /// character that is not alphanumeric.
    InvalidUsername,
    /// Another participant already has the name.
    UsernameTaken,
}

/// A connected participant.
pub struct Participant<H> {
    pub username: String,
    pub outbound: H,
}

/// The connected participants, in the order they joined.
pub struct Registry<H> {
    entries: Vec<Participant<H>>,
}

impl<H> View for Registry<H> {
    type V = Seq<(Seq<char>, H)>;

    closed spec fn view(&self) -> Seq<(Seq<char>, H)> {
        self.entries@.map_values(|p: Participant<H>| (p.username@, p.outbound))
    }
}

/// The usernames of registry entries, in order.
pub open spec fn names_of<H>(entries: Seq<(Seq<char>, H)>) -> Seq<Seq<char>> {
    entries.map_values(|e: (Seq<char>, H)| e.0)
}

impl<H> Registry<H> {
    /// Well-formed: no two participants share a username.
    pub open spec fn wf(&self) -> bool {
        self.names().no_duplicates()
    }

    /// The registered usernames, in order.
    pub open spec fn names(&self) -> Seq<Seq<char>> {
        names_of(self@)
    }

    /// An empty registry.
    pub fn new() -> (r: Registry<H>)
        ensures
            r@ == Seq::<(Seq<char>, H)>::empty(),
            r.wf(),
    {
        let r = Registry { entries: Vec::new() };
        assert(r@ =~= Seq::<(Seq<char>, H)>::empty());
        r
    }

    /// The number of participants.
    pub fn len(&self) -> (r: usize)
        ensures
            r == self@.len(),
    {
        self.entries.len()
    }

    /// Where `username` stands, if it is registered.
    fn position(&self, username: &str) -> (r: Option<usize>)
        ensures
            match r {
                Some(i) => i < self@.len() && self@[i as int].0 == username@,
                None => !self.names().contains(username@),
            },
    {
        let mut i: usize = 0;
        while i < self.entries.len()
            invariant
                i <= self@.len(),
                forall|j: int| 0 <= j < i ==> self@[j].0 != username@,
            decreases self@.len() - i,
        {
            if text_eq(self.entries[i].username.as_str(), username) {
                return Some(i);
            }
            i += 1;
        }
        assert forall|j: int| 0 <= j < self.names().len() implies self.names()[j] != username@ by {
            assert(self.names()[j] == self@[j].0);
        }
        None
    }

    /// Whether `username` is registered.
    pub fn contains(&self, username: &str) -> (r: bool)
        ensures
            r == self.names().contains(username@),
    {
        match self.position(username) {
            Some(i) => {
                assert(self.names()[i as int] == username@);
                true
            },
            None => false,
        }
    }

    /// The outbound handle of `username`, if it is registered.
    pub fn lookup(&self, username: &str) -> (r: Option<&H>)
        ensures
            match r {
                Some(h) => exists|i: int| 0 <= i < self@.len() && self@[i] == (username@, *h),
                None => !self.names().contains(username@),
            },
    {
        match self.position(username) {
            Some(i) => {
                let h = &self.entries[i].outbound;
                assert(self@[i as int] == (username@, *h));
                Some(h)
            },
            None => None,
        }
    }

    /// Adds a participant unless the name is taken; the registry is unchanged
    /// when it is.
    pub fn insert(&mut self, username: String, outbound: H) -> (r: Result<(), HandshakeError>)
        requires
            old(self).wf(),
        ensures
            old(self).names().contains(username@) ==> r == Err::<(), HandshakeError>(
                HandshakeError::UsernameTaken,
            ) && final(self)@ == old(self)@,
            !old(self).names().contains(username@) ==> r == Ok::<(), HandshakeError>(())
                && final(self)@ == old(self)@.push((username@, outbound)),
            final(self).wf(),
    {
        if self.contains(username.as_str()) {
            return Err(HandshakeError::UsernameTaken);
        }
        let ghost before = self@;
        let ghost name = username@;
        let ghost h = outbound;
        self.entries.push(Participant { username, outbound });
        assert(self@ =~= before.push((name, h)));
        assert(names_of(self@) =~= names_of(before).push(name));
        Ok(())
    }

    /// Removes `username` if it is registered, and hands back its outbound
    /// handle. Removing an absent name changes nothing.
    pub fn remove(&mut self, username: &str) -> (r: Option<H>)
        requires
            old(self).wf(),
        ensures
            !final(self).names().contains(username@),
            final(self).wf(),
            match r {
                Some(h) => exists|i: int|
                    0 <= i < old(self)@.len() && old(self)@[i] == (username@, h) && final(self)@
                        == old(self)@.remove(i),
                None => !old(self).names().contains(username@) && final(self)@ == old(self)@,
            },
    {
        match self.position(username) {
            Some(i) => {
                let ghost before = self@;
                let p = self.entries.remove(i);
                assert(self@ =~= before.remove(i as int));
                assert(names_of(self@) =~= names_of(before).remove(i as int));
                assert(!self.names().contains(username@)) by {
                    if self.names().contains(username@) {
                        let k = choose|k: int| 0 <= k < self.names().len() && self.names()[k] == username@;
                        let kk = if k < i { k } else { k + 1 };
                        assert(names_of(before)[kk] == username@);
                        assert(names_of(before)[i as int] == username@);
                    }
                }
                Some(p.outbound)
            },
            None => None,
        }
    }

    /// The registered usernames, in order.
    pub fn usernames(&self) -> (r: Vec<String>)
        ensures
            r@.map_values(|s: String| s@) == self.names(),
    {
        let mut r: Vec<String> = Vec::new();
        let mut i: usize = 0;
        while i < self.entries.len()
            invariant
                i <= self@.len(),
                r@.map_values(|s: String| s@) == self.names().subrange(0, i as int),
            decreases self@.len() - i,
        {
            let u = self.entries[i].username.clone();
            assert(u@ == self.names()[i as int]);
            let ghost prev = r@;
            r.push(u);
            assert(r@.map_values(|s: String| s@) =~= prev.map_values(|s: String| s@).push(u@));
            i += 1;
            assert(r@.map_values(|s: String| s@) =~= self.names().subrange(0, i as int));
        }
        assert(self.names().subrange(0, i as int) =~= self.names());
        r
    }

    /// A point-in-time copy of the registry: each username with a clone of its
    /// outbound handle.
    pub fn snapshot(&self) -> (r: Vec<(String, H)>)
        where
            H: Clone,
        ensures
            r@.len() == self@.len(),
            forall|i: int|
                0 <= i < self@.len() ==> #[trigger] r@[i].0@ == self@[i].0 && cloned::<H>(
                    self@[i].1,
                    r@[i].1,
                ),
    {
        let mut r: Vec<(String, H)> = Vec::new();
        let mut i: usize = 0;
        while i < self.entries.len()
            invariant
                i <= self@.len(),
                r@.len() == i,
                forall|j: int|
                    0 <= j < i ==> #[trigger] r@[j].0@ == self@[j].0 && cloned::<H>(
                        self@[j].1,
                        r@[j].1,
                    ),
            decreases self@.len() - i,
        {
            let p = &self.entries[i];
            r.push((p.username.clone(), p.outbound.clone()));
            i += 1;
        }
        r
    }

    /// `message` for every participant but `sender_username`.
    pub fn broadcast_to_others(&self, sender_username: &str, message: &Message) -> (r: Vec<
        Delivery,
    >)
        ensures
            deliveries_view(r@) == fanout(self.names(), sender_username@, message@),
    {
        let names = self.usernames();
        fan_out(names.as_slice(), sender_username, message)
    }

    /// Removes every participant.
    pub fn clear(&mut self)
        ensures
            final(self)@ == Seq::<(Seq<char>, H)>::empty(),
            final(self).wf(),
    {
        self.entries.clear();
        assert(self@ =~= Seq::<(Seq<char>, H)>::empty());
    }
}

} // verus!
