use vstd::prelude::*;
use crate::actor::{fetch_post, is_fresh, Counter, Response};
use crate::store::{Store, StoreError};
use crate::text::str_eq;

verus! {

/// Identity derivation is a pure function of the logical name, with no
/// randomness: the same name always selects the same actor instance,
/// and distinct names always select distinct instances.
pub open spec fn identity_of(name: Seq<char>) -> Seq<char> {
    name
}

/// The stable identity of an actor instance.
pub struct ActorId {
    name: String,
}

impl View for ActorId {
    type V = Seq<char>;

    closed spec fn view(&self) -> Seq<char> {
        self.name@
    }
}

impl ActorId {
    pub fn as_str(&self) -> (s: &str)
        ensures
            s@ == self@,
    {
        self.name.as_str()
    }
}

/// Derive the stable identity for a logical name.
pub fn id_from_name(name: &str) -> (id: ActorId)
    ensures
        id@ == identity_of(name@),
{
    ActorId { name: name.to_owned() }
}

struct Entry {
    id: ActorId,
    actor: Counter,
}

/// The registry owns the map from identity to the one live actor
/// instance of that identity. It constructs an instance lazily on the
/// first request to its identity, and funnels every request through
/// `resolve_and_dispatch`, so no two requests to the same instance ever
/// overlap: each `fetch` runs to completion before the next starts.
pub struct Registry {
    entries: Vec<Entry>,
}

/// The complete relation between a registry before and after it routed
/// one request to the named instance: the instance (found, or freshly
/// constructed over an empty store) answered the request, and no other
/// identity's state was touched.
pub open spec fn dispatch_post(
    pre: Registry,
    post: Registry,
    name: Seq<char>,
    path: Seq<char>,
    r: Result<Response, StoreError>,
) -> bool {
    &&& post.wf()
    &&& match pre.lookup(identity_of(name)) {
        Some(c0) => post.lookup(identity_of(name)) matches Some(c1) && fetch_post(c0, c1, path, r),
        None => post.lookup(identity_of(name)) matches Some(c1) && (exists|c0: Counter|
            is_fresh(c0) && fetch_post(c0, c1, path, r)),
    }
    &&& forall|other: Seq<char>|
        other != identity_of(name) ==> post.lookup(other) == pre.lookup(other)
}

impl Registry {
    /// At most one live instance per identity.
    pub closed spec fn wf(self) -> bool {
        forall|i: int, j: int|
            0 <= i < j < self.entries@.len() ==> (#[trigger] self.entries@[i].id@) != (
            #[trigger] self.entries@[j].id@)
    }

    /// The live instance of an identity, if one has been constructed.
    pub closed spec fn lookup(self, id: Seq<char>) -> Option<Counter> {
        if exists|i: int| 0 <= i < self.entries@.len() && (#[trigger] self.entries@[i].id@) == id {
            let i = choose|i: int|
                0 <= i < self.entries@.len() && (#[trigger] self.entries@[i].id@) == id;
            Some(self.entries@[i].actor)
        } else {
            None
        }
    }

    proof fn lemma_lookup_at(self, i: int)
        requires
            self.wf(),
            0 <= i < self.entries@.len(),
        ensures
            self.lookup(self.entries@[i].id@) == Some(self.entries@[i].actor),
    {
        let id = self.entries@[i].id@;
        assert(0 <= i < self.entries@.len() && self.entries@[i].id@ == id);
        let k = choose|k: int|
            0 <= k < self.entries@.len() && (#[trigger] self.entries@[k].id@) == id;
        if k < i {
            assert(self.entries@[k].id@ != self.entries@[i].id@);
        } else if i < k {
            assert(self.entries@[i].id@ != self.entries@[k].id@);
        }
    }

    proof fn lemma_lookup_none(self, id: Seq<char>)
        requires
            forall|i: int| 0 <= i < self.entries@.len() ==> (#[trigger] self.entries@[i].id@) != id,
        ensures
            self.lookup(id) is None,
    {
    }

    /// An empty registry: no identity has a live instance yet.
    pub fn new() -> (r: Registry)
        ensures
            r.wf(),
            forall|id: Seq<char>| #[trigger] r.lookup(id) is None,
    {
        let r = Registry { entries: Vec::new() };
        proof {
            assert forall|id: Seq<char>| #[trigger] r.lookup(id) is None by {
                r.lemma_lookup_none(id);
            }
        }
        r
    }

    /// Route one request: resolve the name to its identity, find the
    /// live instance of that identity or construct one over a fresh
    /// store, and let it handle the request.
    pub fn resolve_and_dispatch(&mut self, name: &str, path: &str) -> (r: Result<
        Response,
        StoreError,
    >)
        requires
            old(self).wf(),
            (old(self).lookup(identity_of(name@)) matches Some(c) ==> c.call_count()
                < usize::MAX),
        ensures
            final(self).wf(),
            dispatch_post(*old(self), *final(self), name@, path@, r),
    {
        let n = self.entries.len();
        let mut i: usize = 0;
        while i < n
            invariant
                n == self.entries@.len(),
                i <= n,
                *self == *old(self),
                old(self).wf(),
                (old(self).lookup(identity_of(name@)) matches Some(c) ==> c.call_count()
                    < usize::MAX),
                forall|j: int| 0 <= j < i ==> (#[trigger] self.entries@[j].id@) != name@,
            decreases n - i,
        {
            if str_eq(self.entries[i].id.as_str(), name) {
                proof {
                    old(self).lemma_lookup_at(i as int);
                }
                let r = self.entries[i].actor.fetch(path);
                proof {
                    let pre = *old(self);
                    let post = *self;
                    assert(post.entries@.len() == pre.entries@.len());
                    assert(forall|k: int|
                        0 <= k < pre.entries@.len() ==> (#[trigger] post.entries@[k].id@)
                            == pre.entries@[k].id@);
                    assert forall|x: int, y: int| 0 <= x < y < post.entries@.len() implies (
                    #[trigger] post.entries@[x].id@) != (#[trigger] post.entries@[y].id@) by {
                        assert(pre.entries@[x].id@ != pre.entries@[y].id@);
                    }
                    post.lemma_lookup_at(i as int);
                    assert forall|other: Seq<char>| other != identity_of(name@) implies post.lookup(
                        other,
                    ) == pre.lookup(other) by {
                        if exists|k: int|
                            0 <= k < pre.entries@.len() && (#[trigger] pre.entries@[k].id@)
                                == other {
                            let k = choose|k: int|
                                0 <= k < pre.entries@.len() && (#[trigger] pre.entries@[k].id@)
                                    == other;
                            assert(k != i);
                            pre.lemma_lookup_at(k);
                            post.lemma_lookup_at(k);
                            assert(post.entries@[k] == pre.entries@[k]);
                        } else {
                            pre.lemma_lookup_none(other);
                            post.lemma_lookup_none(other);
                        }
                    }
                }
                return r;
            }
            i += 1;
        }
        proof {
            self.lemma_lookup_none(name@);
        }
        let store = Store::new();
        let mut actor = Counter::new(store);
        let ghost fresh = actor;
        let r = actor.fetch(path);
        let id = id_from_name(name);
        let ghost pushed = Entry { id: id, actor: actor };
        self.entries.push(Entry { id, actor });
        proof {
            let pre = *old(self);
            let post = *self;
            assert(is_fresh(fresh));
            assert(fetch_post(fresh, pushed.actor, path@, r));
            assert(post.entries@ == pre.entries@.push(pushed));
            assert forall|x: int, y: int| 0 <= x < y < post.entries@.len() implies (
            #[trigger] post.entries@[x].id@) != (#[trigger] post.entries@[y].id@) by {
                if y < pre.entries@.len() {
                    assert(pre.entries@[x].id@ != pre.entries@[y].id@);
                } else {
                    assert(post.entries@[y].id@ == name@);
                    assert(post.entries@[x].id@ == pre.entries@[x].id@);
                }
            }
            post.lemma_lookup_at(pre.entries@.len() as int);
            assert(post.lookup(identity_of(name@)) == Some(pushed.actor));
            assert(exists|c0: Counter| is_fresh(c0) && fetch_post(c0, pushed.actor, path@, r));
            assert forall|other: Seq<char>| other != identity_of(name@) implies post.lookup(other)
                == pre.lookup(other) by {
                if exists|k: int|
                    0 <= k < pre.entries@.len() && (#[trigger] pre.entries@[k].id@) == other {
                    let k = choose|k: int|
                        0 <= k < pre.entries@.len() && (#[trigger] pre.entries@[k].id@) == other;
                    pre.lemma_lookup_at(k);
                    post.lemma_lookup_at(k);
                } else {
                    pre.lemma_lookup_none(other);
                    assert forall|k: int|
                        0 <= k < post.entries@.len() implies (#[trigger] post.entries@[k].id@)
                            != other by {
                        if k < pre.entries@.len() {
                            assert(pre.entries@[k].id@ != other);
                        }
                    }
                    post.lemma_lookup_none(other);
                }
            }
        }
        r
    }

    /// The eviction policy the hosting layer applies: tear down the
    /// named identity's live instance after its idle period. Ephemeral
    /// state is discarded — the next request sees a call count of zero
    /// — while every durable record survives in the instance's store.
    /// Evicting an identity with no live instance changes nothing.
    pub fn evict(&mut self, name: &str)
        requires
            old(self).wf(),
        ensures
            final(self).wf(),
            match old(self).lookup(identity_of(name@)) {
                Some(c0) => final(self).lookup(identity_of(name@)) matches Some(c1)
                    && c1.call_count() == 0 && c1.store() == c0.store(),
                None => *final(self) == *old(self),
            },
            forall|other: Seq<char>|
                other != identity_of(name@) ==> final(self).lookup(other) == old(self).lookup(
                    other,
                ),
    {
        let n = self.entries.len();
        let mut i: usize = 0;
        while i < n
            invariant
                n == self.entries@.len(),
                i <= n,
                *self == *old(self),
                old(self).wf(),
                forall|j: int| 0 <= j < i ==> (#[trigger] self.entries@[j].id@) != name@,
            decreases n - i,
        {
            if str_eq(self.entries[i].id.as_str(), name) {
                proof {
                    old(self).lemma_lookup_at(i as int);
                }
                self.entries[i].actor.reset();
                proof {
                    let pre = *old(self);
                    let post = *self;
                    assert forall|x: int, y: int| 0 <= x < y < post.entries@.len() implies (
                    #[trigger] post.entries@[x].id@) != (#[trigger] post.entries@[y].id@) by {
                        assert(pre.entries@[x].id@ != pre.entries@[y].id@);
                    }
                    post.lemma_lookup_at(i as int);
                    assert forall|other: Seq<char>| other != identity_of(name@) implies post.lookup(
                        other,
                    ) == pre.lookup(other) by {
                        if exists|k: int|
                            0 <= k < pre.entries@.len() && (#[trigger] pre.entries@[k].id@)
                                == other {
                            let k = choose|k: int|
                                0 <= k < pre.entries@.len() && (#[trigger] pre.entries@[k].id@)
                                    == other;
                            assert(k != i);
                            pre.lemma_lookup_at(k);
                            post.lemma_lookup_at(k);
                            assert(post.entries@[k] == pre.entries@[k]);
                        } else {
                            pre.lemma_lookup_none(other);
                            post.lemma_lookup_none(other);
                        }
                    }
                }
                return ;
            }
            i += 1;
        }
        proof {
            self.lemma_lookup_none(name@);
        }
    }
}

} // verus!
