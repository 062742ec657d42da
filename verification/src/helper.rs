//! The event sink: de-duplicating collections of follower and subscriber
//! identities, written by the session, read by the reporting surface. The
//! caller guards a sink with its own mutual exclusion; the collections and
//! their idempotent inserts live here.

use vstd::prelude::*;

use crate::strutil::str_eq_str;

verus! {

/// The identities a list holds, as a set of texts.
pub open spec fn names_set(names: Seq<Seq<char>>) -> Set<Seq<char>> {
    names.to_set()
}

/// No identity occurs twice.
pub open spec fn no_dups(names: Seq<Seq<char>>) -> bool {
    forall|a: int, b: int| 0 <= a < b < names.len() ==> names[a] != names[b]
}

/// A list of identities with duplicate-free insertion.
pub struct NameList {
    names: Vec<String>,
}

impl View for NameList {
    type V = Seq<Seq<char>>;

    closed spec fn view(&self) -> Seq<Seq<char>> {
        self.names.deep_view()
    }
}

impl NameList {
    /// Everything an identity list guarantees: no identity occurs twice.
    pub open spec fn wf(&self) -> bool {
        no_dups(self@)
    }

    /// An empty list.
    pub fn new() -> (r: NameList)
        ensures
            r.wf(),
            r@ =~= Seq::<Seq<char>>::empty(),
    {
        let r = NameList { names: Vec::new() };
        proof {
            assert(r@ =~= Seq::<Seq<char>>::empty());
        }
        r
    }

    /// Whether the list already holds `name`.
    pub fn contains(&self, name: &str) -> (r: bool)
        ensures
            r == names_set(self@).contains(name@),
    {
        let mut i: usize = 0;
        let n = self.names.len();
        proof {
            assert(self@.len() == n) by {
                assert(self.names.deep_view().len() == self.names@.len());
            }
        }
        while i < n
            invariant
                n == self@.len(),
                i <= n,
                forall|m: int| 0 <= m < i ==> self@[m] != name@,
            decreases n - i,
        {
            proof {
                assert(self@[i as int] == self.names@[i as int]@);
            }
            if str_eq_str(self.names[i].as_str(), name) {
                proof {
                    assert(names_set(self@).contains(name@)) by {
                        assert(self@[i as int] == name@);
                    }
                }
                return true;
            }
            i += 1;
        }
        proof {
            assert(!names_set(self@).contains(name@)) by {
                if names_set(self@).contains(name@) {
                    let m = choose|m: int| 0 <= m < self@.len() && self@[m] == name@;
                }
            }
        }
        false
    }

    /// Inserts `name` unless it is already present: re-insertion of an
    /// existing identity changes nothing.
    pub fn insert(&mut self, name: String)
        requires
            old(self).wf(),
        ensures
            final(self).wf(),
            names_set(final(self)@) == names_set(old(self)@).insert(name@),
            old(self)@.contains(name@) ==> final(self)@ == old(self)@,
            !old(self)@.contains(name@) ==> final(self)@ == old(self)@.push(name@),
    {
        if self.contains(name.as_str()) {
            proof {
                assert(names_set(self@) =~= names_set(self@).insert(name@));
            }
            return ;
        }
        let ghost before = self@;
        self.names.push(name);
        proof {
            assert(self@ =~= before.push(name@));
            assert forall|x: Seq<char>|
                names_set(self@).contains(x) == names_set(before).insert(name@).contains(x) by {
                if names_set(self@).contains(x) {
                    let idx = choose|idx: int| 0 <= idx < self@.len() && self@[idx] == x;
                    if idx < before.len() {
                        assert(before[idx] == x);
                    } else {
                        assert(x == name@);
                    }
                }
                if names_set(before).contains(x) {
                    let idx = choose|idx: int| 0 <= idx < before.len() && before[idx] == x;
                    assert(self@[idx] == x);
                }
                if x == name@ {
                    assert(self@[before.len() as int] == x);
                }
            }
            assert(names_set(self@) =~= names_set(before).insert(name@));
        }
    }

    /// The identities, in insertion order.
    pub fn entries(&self) -> (r: &Vec<String>)
        ensures
            r.deep_view() == self@,
    {
        &self.names
    }

    /// How many identities the list holds.
    pub fn len(&self) -> (r: usize)
        ensures
            r == self@.len(),
    {
        proof {
            assert(self.names.deep_view().len() == self.names@.len());
        }
        self.names.len()
    }
}

/// The sink the session writes into: one de-duplicating list of follower
/// identities and one of subscriber identities.
pub struct TwitchEventList {
    /// Followers seen so far.
    pub followers_list: NameList,
    /// Subscribers seen so far.
    pub subscribers_list: NameList,
}

/// Both lists of a sink are duplicate-free.
pub open spec fn event_list_wf(l: TwitchEventList) -> bool {
    l.followers_list.wf() && l.subscribers_list.wf()
}

impl TwitchEventList {
    /// Records a follower identity; re-insertion is a no-op. The subscriber
    /// list is untouched.
    pub fn add_follower(&mut self, follower: String)
        requires
            event_list_wf(*old(self)),
        ensures
            event_list_wf(*final(self)),
            names_set(final(self).followers_list@) == names_set(old(self).followers_list@).insert(
                follower@,
            ),
            final(self).subscribers_list == old(self).subscribers_list,
    {
        self.followers_list.insert(follower);
    }

    /// Records a subscriber identity; re-insertion is a no-op. The follower
    /// list is untouched.
    pub fn add_subscriber(&mut self, subscriber: String)
        requires
            event_list_wf(*old(self)),
        ensures
            event_list_wf(*final(self)),
            names_set(final(self).subscribers_list@) == names_set(
                old(self).subscribers_list@,
            ).insert(subscriber@),
            final(self).followers_list == old(self).followers_list,
    {
        self.subscribers_list.insert(subscriber);
    }

    /// The follower identities recorded so far, in arrival order.
    pub fn get_followers(&self) -> (r: &Vec<String>)
        ensures
            r.deep_view() == self.followers_list@,
    {
        self.followers_list.entries()
    }

    /// The subscriber identities recorded so far, in arrival order.
    pub fn get_subscribers(&self) -> (r: &Vec<String>)
        ensures
            r.deep_view() == self.subscribers_list@,
    {
        self.subscribers_list.entries()
    }
}

/// The de-duplicating set of chatter identities the chat client fills.
pub type ChattersList = NameList;

/// A fresh, empty chatters list.
pub fn create_new_chatters_list() -> (r: ChattersList)
    ensures
        r.wf(),
        r@ =~= Seq::<Seq<char>>::empty(),
{
    NameList::new()
}

/// A fresh, empty event sink.
pub fn create_new_twitch_event_list() -> (r: TwitchEventList)
    ensures
        event_list_wf(r),
        r.followers_list@ =~= Seq::<Seq<char>>::empty(),
        r.subscribers_list@ =~= Seq::<Seq<char>>::empty(),
{
    TwitchEventList { followers_list: NameList::new(), subscribers_list: NameList::new() }
}

} // verus!
