//! The decisions taken for each message on its way to the child's input.
use vstd::prelude::*;
use crate::message::Message;
use crate::text::{decode, starts_with3, text_of, trim, trimmed};
use crate::watch_set::WatchSet;

verus! {

/// Milliseconds to wait before writing a synthesized message, so that the
/// interpreter's own read and echo cycle keeps up.
pub const PACING_MS: u64 = 100;

/// What stands in the echo for bytes that are not text.
pub open spec fn placeholder() -> Seq<char> {
    seq!['<', 'i', 'n', 'v', 'a', 'l', 'i', 'd', ' ', 'u', 't', 'f', '-', '8', '>']
}

/// Whether `t` begins with `:`, `x`, and a space.
pub open spec fn has_prefix(t: Seq<char>, x: char) -> bool {
    t.len() >= 3 && t[0] == ':' && t[1] == x && t[2] == ' '
}

/// The path that console bytes ask to load, if they form a load directive.
pub open spec fn load_target(b: Seq<u8>) -> Option<Seq<char>> {
    match text_of(b) {
        Some(t) => if has_prefix(t, 'l') {
            Some(trim(t.skip(3)))
        } else {
            None
        },
        None => None,
    }
}

/// The path that console bytes ask to unload, if they form an unload directive.
pub open spec fn unload_target(b: Seq<u8>) -> Option<Seq<char>> {
    match text_of(b) {
        Some(t) => if has_prefix(t, 'u') {
            Some(trim(t.skip(3)))
        } else {
            None
        },
        None => None,
    }
}

/// The watched paths after console bytes `b` reach a dispatcher that watched
/// `w`; `None` where the bytes cannot be carried out.
pub open spec fn watched_after(w: Set<Seq<char>>, b: Seq<u8>) -> Option<Set<Seq<char>>> {
    match load_target(b) {
        Some(p) => Some(w.insert(p)),
        None => match unload_target(b) {
            Some(p) => if w.contains(p) {
                Some(w.remove(p))
            } else {
                None
            },
            None => Some(w),
        },
    }
}

/// Issuing the same load directive twice watches what issuing it once does:
/// the path is in the set, once, and the second time changes nothing.
pub proof fn lemma_load_twice(w: Set<Seq<char>>, b: Seq<u8>)
    requires
        load_target(b) is Some,
    ensures
        watched_after(w, b) matches Some(once) && watched_after(once, b) == Some(once)
            && once.contains(load_target(b)->Some_0) && once.remove(load_target(b)->Some_0)
            == w.remove(load_target(b)->Some_0),
{
    let p = load_target(b)->Some_0;
    assert(w.insert(p).insert(p) =~= w.insert(p));
    assert(w.insert(p).remove(p) =~= w.remove(p));
}

/// An unload directive for a path that is not watched cannot be carried out.
pub proof fn lemma_unload_unwatched(w: Set<Seq<char>>, b: Seq<u8>)
    requires
        unload_target(b) matches Some(p) && !w.contains(p),
    ensures
        watched_after(w, b) is None,
{
    let t = text_of(b)->Some_0;
    assert(has_prefix(t, 'u'));
    assert(!has_prefix(t, 'l'));
}

/// What the user sees of a synthesized message with bytes `b`.
pub open spec fn echo_of(b: Seq<u8>) -> Seq<char> {
    match text_of(b) {
        Some(t) => t,
        None => placeholder(),
    }
}

/// A change to the file-system subscriptions.
#[derive(Debug, PartialEq, Eq)]
pub enum SubscriptionChange {
    /// Start watching this path.
    Watch(String),
    /// Stop watching this path.
    Unwatch(String),
}

/// What to do for one message, in this order: wait, write, echo, then change
/// the subscriptions.
#[derive(Debug, PartialEq, Eq)]
pub struct Step {
    pub delay_ms: u64,
    pub write: Vec<u8>,
    pub echo: Option<String>,
    pub change: Option<SubscriptionChange>,
}

/// A message that cannot be carried out.
#[derive(Debug, PartialEq, Eq)]
pub enum DispatchError {
    /// An unload directive named a path that is not watched.
    NotWatched(String),
}

/// The single consumer of messages; it owns the set of watched paths.
pub struct Dispatcher {
    watched: WatchSet,
}

impl Dispatcher {
    /// The watched paths.
    pub closed spec fn watched_view(&self) -> Set<Seq<char>> {
        self.watched@
    }

    pub closed spec fn wf(&self) -> bool {
        self.watched.wf()
    }

    /// A dispatcher that watches `initial`, if given, and nothing else.
    pub fn new(initial: Option<&str>) -> (d: Dispatcher)
        ensures
            d.wf(),
            initial is None ==> d.watched_view() == Set::<Seq<char>>::empty(),
            initial matches Some(p) ==> d.watched_view() == Set::<Seq<char>>::empty().insert(p@),
    {
        let mut watched = WatchSet::new();
        match initial {
            Some(p) => {
                watched.insert(p);
            },
            None => {},
        }
        Dispatcher { watched }
    }

    /// The watched paths.
    pub fn watched(&self) -> (w: &WatchSet)
        ensures
            w@ == self.watched_view(),
            self.wf() ==> w.wf(),
    {
        &self.watched
    }

    /// Decides what to do for `m`. Its bytes are always written unchanged. A
    /// synthesized message is paced and echoed. A raw message is inspected for
    /// a load directive (`:l path`), which watches the path if it is not
    /// watched yet, and for an unload directive (`:u path`), which stops
    /// watching it and fails if it is not watched.
    pub fn dispatch(&mut self, m: Message) -> (r: Result<Step, DispatchError>)
        requires
            old(self).wf(),
        ensures
            final(self).wf(),
            r matches Ok(s) ==> s.write@ == m.bytes(),
            m is Synthesized ==> {
                &&& r matches Ok(s)
                &&& s.delay_ms == PACING_MS
                &&& s.echo matches Some(e) && e@ == echo_of(m.bytes())
                &&& s.change is None
                &&& final(self).watched_view() == old(self).watched_view()
            },
            m is Raw ==> (r is Err <==> watched_after(old(self).watched_view(), m.bytes()) is None),
            m is Raw ==> (r is Ok ==> watched_after(old(self).watched_view(), m.bytes()) == Some(
                final(self).watched_view(),
            )),
            m is Raw ==> (r is Err <==> (unload_target(m.bytes()) matches Some(p)
                && !old(self).watched_view().contains(p))),
            m is Raw ==> (r matches Err(DispatchError::NotWatched(q)) ==> unload_target(m.bytes())
                == Some(q@) && final(self).watched_view() == old(self).watched_view()),
            m is Raw ==> (r matches Ok(s) ==> s.delay_ms == 0 && s.echo is None),
            m is Raw ==> (load_target(m.bytes()) matches Some(p) ==> {
                &&& final(self).watched_view() == old(self).watched_view().insert(p)
                &&& r matches Ok(s)
                &&& if old(self).watched_view().contains(p) {
                    s.change is None
                } else {
                    s.change matches Some(SubscriptionChange::Watch(q)) && q@ == p
                }
            }),
            m is Raw ==> (unload_target(m.bytes()) matches Some(p) ==> (old(
                self,
            ).watched_view().contains(p) ==> {
                &&& final(self).watched_view() == old(self).watched_view().remove(p)
                &&& r matches Ok(s)
                &&& s.change matches Some(SubscriptionChange::Unwatch(q)) && q@ == p
            })),
            m is Raw ==> (load_target(m.bytes()) is None && unload_target(m.bytes()) is None ==> {
                &&& final(self).watched_view() == old(self).watched_view()
                &&& r matches Ok(s)
                &&& s.change is None
            }),
    {
        match m {
            Message::Synthesized(b) => {
                let echo = match decode(b.as_slice()) {
                    Some(t) => String::from_str(t),
                    None => {
                        let e = String::from_str("<invalid utf-8>");
                        proof {
                            reveal_strlit("<invalid utf-8>");
                        }
                        e
                    },
                };
                Ok(Step { delay_ms: PACING_MS, write: b, echo: Some(echo), change: None })
            },
            Message::Raw(b) => {
                let mut change: Option<SubscriptionChange> = None;
                match decode(b.as_slice()) {
                    None => {},
                    Some(t) => {
                        let is_load = starts_with3(t, ':', 'l', ' ');
                        let is_unload = starts_with3(t, ':', 'u', ' ');
                        if is_load || is_unload {
                            let rest = t.substring_char(3, t.unicode_len());
                            let p = trimmed(rest);
                            if is_load {
                                if self.watched.insert(p) {
                                    change = Some(SubscriptionChange::Watch(String::from_str(p)));
                                }
                            } else if self.watched.remove(p) {
                                change = Some(SubscriptionChange::Unwatch(String::from_str(p)));
                            } else {
                                return Err(DispatchError::NotWatched(String::from_str(p)));
                            }
                        }
                    },
                }
                Ok(Step { delay_ms: 0, write: b, echo: None, change })
            },
        }
    }
}

} // verus!
