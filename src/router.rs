//! Routing: which participants receive what, for one inbound message.
//!
//! The router performs no I/O. Given a message whose sender is its
//! originator's username, the usernames registered at that moment, and the
//! time, it returns the deliveries to make, in order.

use vstd::prelude::*;
use crate::message::{Content, ContentView, Message, MessageView};
use crate::text::{text_eq, to_chars};

verus! {

/// The sender name of messages that the broker itself writes.
pub const SERVER_NAME: &'static str = "Server";

/// The notice sent back for a whisper whose target is not connected.
pub const USER_NOT_FOUND: &'static str = "User not found";

/// One message to enqueue on one participant's outbound queue.
#[derive(Debug, PartialEq, Eq)]
pub struct Delivery {
    pub to: String,
    pub message: Message,
}

impl View for Delivery {
    type V = (Seq<char>, MessageView);

    open spec fn view(&self) -> (Seq<char>, MessageView) {
        (self.to@, self.message@)
    }
}

/// The values of a list of deliveries.
pub open spec fn deliveries_view(d: Seq<Delivery>) -> Seq<(Seq<char>, MessageView)> {
    d.map_values(|x: Delivery| x@)
}

/// The values of a list of names.
pub open spec fn names_view(n: Seq<String>) -> Seq<Seq<char>> {
    n.map_values(|s: String| s@)
}

/// A message from the broker.
pub open spec fn notice(text: Seq<char>, now: u32) -> MessageView {
    MessageView { sender: SERVER_NAME@, content: ContentView::Text(text), timestamp: now }
}

/// A text addressed to one participant starts with `@`.
pub open spec fn is_whisper(body: Seq<char>) -> bool {
    body.len() > 0 && body[0] == '@'
}

/// `i` is the position of the first space in `s`.
pub open spec fn first_space_at(s: Seq<char>, i: int) -> bool {
    0 <= i < s.len() && s[i] == ' ' && forall|j: int| 0 <= j < i ==> s[j] != ' '
}

pub open spec fn has_space(s: Seq<char>) -> bool {
    exists|i: int| first_space_at(s, i)
}

pub open spec fn first_space(s: Seq<char>) -> int {
    choose|i: int| first_space_at(s, i)
}

/// The name a whisper is addressed to: what lies between `@` and the first space.
pub open spec fn whisper_target(body: Seq<char>) -> Seq<char> {
    body.subrange(1, first_space(body))
}

/// The text of a whisper: what follows the first space.
pub open spec fn whisper_text(body: Seq<char>) -> Seq<char> {
    body.subrange(first_space(body) + 1, body.len() as int)
}

/// Holds of every name but `origin`.
pub open spec fn not_named(origin: Seq<char>) -> spec_fn(Seq<char>) -> bool {
    |n: Seq<char>| n != origin
}

/// The listed names other than `origin`, in order.
pub open spec fn others(names: Seq<Seq<char>>, origin: Seq<char>) -> Seq<Seq<char>> {
    names.filter(not_named(origin))
}

/// `m` sent to every listed name but `origin`, in the order of the list.
pub open spec fn fanout(names: Seq<Seq<char>>, origin: Seq<char>, m: MessageView) -> Seq<
    (Seq<char>, MessageView),
> {
    others(names, origin).map_values(|n: Seq<char>| (n, m))
}

/// The deliveries for message `m` when `names` are registered, at time `now`.
/// Signals go nowhere. A whisper goes to its registered target alone, unless
/// that target is its own sender, when it goes nowhere; a whisper with no
/// space or an unknown target earns its sender a "User not found" notice.
/// Other texts and files go to everyone but the sender.
pub open spec fn route_spec(m: MessageView, names: Seq<Seq<char>>, now: u32) -> Seq<
    (Seq<char>, MessageView),
> {
    match m.content {
        ContentView::Signal(_) => Seq::empty(),
        ContentView::Text(body) => if is_whisper(body) {
            if has_space(body) && names.contains(whisper_target(body)) {
                if whisper_target(body) == m.sender {
                    Seq::empty()
                } else {
                    seq![
                    (whisper_target(body), MessageView {
                        sender: m.sender,
                        content: ContentView::Text(whisper_text(body)),
                        timestamp: now,
                    }),
                    ]
                }
            } else {
                seq![(m.sender, notice(USER_NOT_FOUND@, now))]
            }
        } else {
            fanout(
                names,
                m.sender,
                MessageView { sender: m.sender, content: ContentView::Text(body), timestamp: now },
            )
        },
        ContentView::File(name, data) => fanout(
            names,
            m.sender,
            MessageView { sender: m.sender, content: ContentView::File(name, data), timestamp: now },
        ),
    }
}

/// Whether `name` is among `names`.
pub fn list_contains(names: &[String], name: &str) -> (r: bool)
    ensures
        r == names_view(names@).contains(name@),
{
    let mut i: usize = 0;
    while i < names.len()
        invariant
            i <= names@.len(),
            forall|j: int| 0 <= j < i ==> names@[j]@ != name@,
        decreases names@.len() - i,
    {
        if text_eq(names[i].as_str(), name) {
            assert(names_view(names@)[i as int] == name@);
            return true;
        }
        i += 1;
    }
    assert forall|j: int| 0 <= j < names_view(names@).len() implies names_view(names@)[j]
        != name@ by {
        assert(names_view(names@)[j] == names@[j]@);
    }
    false
}

/// `m` for every listed name but `origin`.
pub fn fan_out(names: &[String], origin: &str, m: &Message) -> (r: Vec<Delivery>)
    ensures
        deliveries_view(r@) == fanout(names_view(names@), origin@, m@),
{
    let ghost nv = names_view(names@);
    let ghost pred = not_named(origin@);
    let ghost lift = |n: Seq<char>| (n, m@);
    let mut r: Vec<Delivery> = Vec::new();
    let mut i: usize = 0;
    while i < names.len()
        invariant
            i <= names@.len(),
            nv == names_view(names@),
            pred == not_named(origin@),
            lift == (|n: Seq<char>| (n, m@)),
            deliveries_view(r@) == nv.subrange(0, i as int).filter(pred).map_values(lift),
        decreases names@.len() - i,
    {
        let ghost prev = r@;
        proof {
            reveal(Seq::filter);
            assert(nv.subrange(0, i + 1).drop_last() =~= nv.subrange(0, i as int));
            assert(nv.subrange(0, i + 1).last() == names@[i as int]@);
        }
        if !text_eq(names[i].as_str(), origin) {
            let d = Delivery { to: names[i].clone(), message: m.clone() };
            r.push(d);
            assert(deliveries_view(r@) =~= deliveries_view(prev).push(d@));
            assert(nv.subrange(0, i + 1).filter(pred) == nv.subrange(0, i as int).filter(pred).push(
                names@[i as int]@,
            ));
            assert(deliveries_view(r@) =~= nv.subrange(0, i + 1).filter(pred).map_values(lift));
        } else {
            assert(nv.subrange(0, i + 1).filter(pred) == nv.subrange(0, i as int).filter(pred));
        }
        i += 1;
    }
    assert(nv.subrange(0, i as int) =~= nv);
    r
}

/// A broker notice with the given text.
pub fn server_notice(text: &str, now: u32) -> (r: Message)
    ensures
        r@ == notice(text@, now),
{
    Message {
        sender: SERVER_NAME.to_owned(),
        content: Content::Text(text.to_owned()),
        timestamp: now,
    }
}

/// The deliveries for `message`, sent by the participant named in its
/// `sender`, when `names` are registered, stamped with `now`.
pub fn route(message: &Message, names: &[String], now: u32) -> (r: Vec<Delivery>)
    ensures
        deliveries_view(r@) == route_spec(message@, names_view(names@), now),
{
    match &message.content {
        Content::Signal(_) => {
            let r: Vec<Delivery> = Vec::new();
            assert(deliveries_view(r@) =~= Seq::empty());
            r
        },
        Content::Text(body) => {
            let chars = to_chars(body.as_str());
            if chars.len() > 0 && chars[0] == '@' {
                let mut i: usize = 1;
                while i < chars.len() && chars[i] != ' '
                    invariant
                        1 <= i <= chars@.len(),
                        chars@ == body@,
                        chars@[0] == '@',
                        forall|j: int| 0 <= j < i ==> chars@[j] != ' ',
                    decreases chars@.len() - i,
                {
                    i += 1;
                }
                let mut r: Vec<Delivery> = Vec::new();
                if i < chars.len() {
                    assert(first_space_at(body@, i as int));
                    assert(first_space(body@) == i) by {
                        let w = first_space(body@);
                        assert(first_space_at(body@, w));
                    }
                    let target = body.as_str().substring_char(1, i).to_owned();
                    if list_contains(names, target.as_str()) {
                        if text_eq(target.as_str(), message.sender.as_str()) {
                            assert(deliveries_view(r@) =~= route_spec(
                                message@,
                                names_view(names@),
                                now,
                            ));
                            return r;
                        }
                        let text = body.as_str().substring_char(i + 1, chars.len()).to_owned();
                        r.push(
                            Delivery {
                                to: target,
                                message: Message {
                                    sender: message.sender.clone(),
                                    content: Content::Text(text),
                                    timestamp: now,
                                },
                            },
                        );
                        assert(deliveries_view(r@) =~= route_spec(
                            message@,
                            names_view(names@),
                            now,
                        ));
                        return r;
                    }
                } else {
                    assert(!has_space(body@));
                }
                r.push(
                    Delivery {
                        to: message.sender.clone(),
                        message: server_notice(USER_NOT_FOUND, now),
                    },
                );
                assert(deliveries_view(r@) =~= route_spec(message@, names_view(names@), now));
                r
            } else {
                let m = Message {
                    sender: message.sender.clone(),
                    content: Content::Text(body.clone()),
                    timestamp: now,
                };
                fan_out(names, message.sender.as_str(), &m)
            }
        },
        Content::File(f) => {
            let m = Message {
                sender: message.sender.clone(),
                content: Content::File(f.clone()),
                timestamp: now,
            };
            fan_out(names, message.sender.as_str(), &m)
        },
    }
}

/// The targets of a fan-out are the listed names other than the origin, each
/// once and in order, and each gets the same message.
pub proof fn lemma_fanout_targets(names: Seq<Seq<char>>, origin: Seq<char>, m: MessageView)
    ensures
        fanout(names, origin, m).map_values(|d: (Seq<char>, MessageView)| d.0) == others(
            names,
            origin,
        ),
        forall|k: int|
            0 <= k < fanout(names, origin, m).len() ==> #[trigger] fanout(names, origin, m)[k].0
                != origin && fanout(names, origin, m)[k].1 == m,
{
    let kept = others(names, origin);
    let f = fanout(names, origin, m);
    assert forall|k: int| 0 <= k < kept.len() implies f.map_values(
        |d: (Seq<char>, MessageView)| d.0,
    )[k] == kept[k] && kept[k] != origin by {
        assert(f[k] == (kept[k], m));
        names.lemma_filter_pred(not_named(origin), k);
    }
    assert(f.map_values(|d: (Seq<char>, MessageView)| d.0) =~= kept);
}

/// A routed message goes to each recipient once and never back to its
/// originator. A broadcast reaches every other registered participant; the
/// originator hears back only the one notice that a whisper found no target.
pub proof fn lemma_route_recipients(m: MessageView, names: Seq<Seq<char>>, now: u32)
    ensures
        (m.content is File || (m.content matches ContentView::Text(body) && !is_whisper(body)))
            ==> route_spec(m, names, now).map_values(|d: (Seq<char>, MessageView)| d.0)
            == others(names, m.sender),
        forall|k: int|
            0 <= k < route_spec(m, names, now).len() && #[trigger] route_spec(m, names, now)[k].0
                == m.sender ==> route_spec(m, names, now) == seq![
                (m.sender, notice(USER_NOT_FOUND@, now)),
            ],
{
    match m.content {
        ContentView::Text(body) => {
            if !is_whisper(body) {
                lemma_fanout_targets(
                    names,
                    m.sender,
                    MessageView { sender: m.sender, content: ContentView::Text(body), timestamp: now },
                );
            }
        },
        ContentView::File(name, data) => {
            lemma_fanout_targets(
                names,
                m.sender,
                MessageView {
                    sender: m.sender,
                    content: ContentView::File(name, data),
                    timestamp: now,
                },
            );
        },
        ContentView::Signal(_) => {},
    }
}

/// A whisper with no space after the target name gets exactly one
/// "User not found" notice, sent to its originator.
pub proof fn lemma_malformed_whisper(m: MessageView, names: Seq<Seq<char>>, now: u32)
    requires
        m.content matches ContentView::Text(body) && is_whisper(body) && !has_space(body),
    ensures
        route_spec(m, names, now) == seq![(m.sender, notice(USER_NOT_FOUND@, now))],
{
}

/// Routing depends on nothing but the message, the registered names and the
/// time stamp: the same inputs always give the same deliveries.
pub proof fn lemma_route_deterministic(
    m1: MessageView,
    m2: MessageView,
    names1: Seq<Seq<char>>,
    names2: Seq<Seq<char>>,
    now: u32,
)
    requires
        m1 == m2,
        names1 == names2,
    ensures
        route_spec(m1, names1, now) == route_spec(m2, names2, now),
{
}

} // verus!
