//! The daemon side of a client connection: its stream and event subscriptions.

use vstd::prelude::*;
use crate::text::str_eq;
use crate::state::string_views;

verus! {

#[verifier::external_type_specification]
#[verifier::external_body]
pub struct ExUnixStream(tokio::net::UnixStream);

/// The event names in a list of subscriptions.
pub open spec fn name_set(v: Seq<String>) -> Set<Seq<char>> {
    string_views(v).to_set()
}

/// Handle a single client connection
pub struct IpcClient {
    /// The connection to the client
    pub stream: tokio::net::UnixStream,
    /// Event names the client subscribed to ("*" for all)
    pub subscriptions: Vec<String>,
}

fn contains_name(v: &Vec<String>, name: &str) -> (r: bool)
    ensures
        r == name_set(v@).contains(name@),
{
    let mut i: usize = 0;
    while i < v.len()
        invariant
            i <= v@.len(),
            forall|j: int| 0 <= j < i ==> v@[j]@ != name@,
        decreases v.len() - i,
    {
        if str_eq(v[i].as_str(), name) {
            proof {
                assert(string_views(v@)[i as int] == name@);
            }
            return true;
        }
        i = i + 1;
    }
    proof {
        if name_set(v@).contains(name@) {
            let k = choose|k: int| 0 <= k < string_views(v@).len() && string_views(v@)[k] == name@;
            assert(v@[k]@ == name@);
        }
    }
    false
}

impl IpcClient {
    /// A client over `stream` with no subscriptions.
    pub fn new(stream: tokio::net::UnixStream) -> (c: IpcClient)
        ensures
            c.stream == stream,
            c.subscriptions@.len() == 0,
            name_set(c.subscriptions@) == Set::<Seq<char>>::empty(),
    {
        let c = IpcClient { stream, subscriptions: Vec::new() };
        proof {
            assert(name_set(c.subscriptions@) =~= Set::<Seq<char>>::empty());
        }
        c
    }

    /// Subscribe to event types
    pub fn subscribe(&mut self, events: &[String])
        ensures
            name_set(final(self).subscriptions@) == name_set(old(self).subscriptions@).union(
                string_views(events@).to_set(),
            ),
    {
        let ghost start = self.subscriptions@;
        let mut i: usize = 0;
        while i < events.len()
            invariant
                i <= events@.len(),
                name_set(self.subscriptions@) == name_set(start).union(
                    string_views(events@.take(i as int)).to_set(),
                ),
            decreases events.len() - i,
        {
            let e = events[i].clone();
            let ghost before = self.subscriptions@;
            self.subscriptions.push(e);
            proof {
                assert(string_views(self.subscriptions@) == string_views(before).push(events@[i as int]@));
                assert(string_views(events@.take(i + 1)) == string_views(events@.take(i as int)).push(events@[i as int]@));
                string_views(before).lemma_push_to_set_commute(events@[i as int]@);
                string_views(events@.take(i as int)).lemma_push_to_set_commute(events@[i as int]@);
                assert(name_set(self.subscriptions@) =~= name_set(start).union(
                    string_views(events@.take(i + 1)).to_set(),
                ));
            }
            i = i + 1;
        }
        proof {
            assert(events@.take(i as int) == events@);
        }
    }

    /// Unsubscribe from event types
    pub fn unsubscribe(&mut self, events: &[String])
        ensures
            name_set(final(self).subscriptions@) == name_set(old(self).subscriptions@).difference(
                string_views(events@).to_set(),
            ),
    {
        let mut kept: Vec<String> = Vec::new();
        let n = self.subscriptions.len();
        let mut i: usize = 0;
        while i < n
            invariant
                n == self.subscriptions@.len(),
                i <= n,
                name_set(kept@) == name_set(self.subscriptions@.take(i as int)).difference(
                    string_views(events@).to_set(),
                ),
            decreases n - i,
        {
            let s = self.subscriptions[i].clone();
            let ghost before = kept@;
            let drop = contains_name_slice(events, s.as_str());
            proof {
                assert(string_views(self.subscriptions@.take(i + 1)) == string_views(
                    self.subscriptions@.take(i as int),
                ).push(s@));
            }
            proof {
                string_views(self.subscriptions@.take(i as int)).lemma_push_to_set_commute(s@);
            }
            if !drop {
                kept.push(s);
                proof {
                    assert(string_views(kept@) == string_views(before).push(s@));
                    string_views(before).lemma_push_to_set_commute(s@);
                }
            }
            proof {
                assert(name_set(kept@) =~= name_set(self.subscriptions@.take(i + 1)).difference(
                    string_views(events@).to_set(),
                ));
            }
            i = i + 1;
        }
        proof {
            assert(self.subscriptions@.take(n as int) == self.subscriptions@);
        }
        self.subscriptions = kept;
    }

    /// Check if subscribed to an event type (or to all, "*")
    pub fn is_subscribed(&self, event_type: &str) -> (r: bool)
        ensures
            r == (name_set(self.subscriptions@).contains(event_type@) || name_set(
                self.subscriptions@,
            ).contains("*"@)),
    {
        contains_name(&self.subscriptions, event_type) || contains_name(&self.subscriptions, "*")
    }
}

fn contains_name_slice(v: &[String], name: &str) -> (r: bool)
    ensures
        r == string_views(v@).to_set().contains(name@),
{
    let mut i: usize = 0;
    while i < v.len()
        invariant
            i <= v@.len(),
            forall|j: int| 0 <= j < i ==> v@[j]@ != name@,
        decreases v.len() - i,
    {
        if str_eq(v[i].as_str(), name) {
            proof {
                assert(string_views(v@)[i as int] == name@);
            }
            return true;
        }
        i = i + 1;
    }
    proof {
        if string_views(v@).to_set().contains(name@) {
            let k = choose|k: int| 0 <= k < string_views(v@).len() && string_views(v@)[k] == name@;
            assert(v@[k]@ == name@);
        }
    }
    false
}

} // verus!
