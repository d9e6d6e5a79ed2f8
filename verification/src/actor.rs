use vstd::prelude::*;
use crate::profile::User;
use crate::store::{next_write_count, Store, StoreError, StoreKey, StoreValue};
use crate::text::str_eq;

verus! {

/// The three recognized path suffixes of an actor instance.
pub open spec fn increment_path() -> Seq<char> {
    "/x/increment"@
}

pub open spec fn decrement_path() -> Seq<char> {
    "/x/decrement"@
}

pub open spec fn root_path() -> Seq<char> {
    "/x/"@
}

pub open spec fn recognized(path: Seq<char>) -> bool {
    path == increment_path() || path == decrement_path() || path == root_path()
}

/// The counter is a fixed-width signed integer; overflow wraps around,
/// so an increment and a decrement always undo one another.
pub open spec fn wrap_inc(c: int) -> int {
    if c == i16::MAX {
        i16::MIN as int
    } else {
        c + 1
    }
}

pub open spec fn wrap_dec(c: int) -> int {
    if c == i16::MIN {
        i16::MAX as int
    } else {
        c - 1
    }
}

/// How one recognized request moves the counter value.
pub open spec fn step_counter(c: int, path: Seq<char>) -> int {
    if path == increment_path() {
        wrap_inc(c)
    } else if path == decrement_path() {
        wrap_dec(c)
    } else {
        c
    }
}

/// The counter value a store holds durably: the number under the
/// counter key, defaulted to zero when the record is absent or does not
/// hold a number.
pub open spec fn durable_counter(s: Store) -> int {
    if s.contents().contains_key(StoreKey::Counter) {
        match s.contents()[StoreKey::Counter] {
            StoreValue::Number(n) => n as int,
            StoreValue::Profile(_) => 0,
        }
    } else {
        0
    }
}

/// The counter value a request reads: read failures are absorbed into
/// the default, so an unavailable store reads as zero.
pub open spec fn read_counter(s: Store) -> int {
    if s.is_available() {
        durable_counter(s)
    } else {
        0
    }
}

/// Whether a request finds a persisted profile record to load; when it
/// does not, the built-in placeholder profile is used instead.
pub open spec fn profile_loaded(s: Store) -> bool {
    s.is_available() && s.contents().contains_key(StoreKey::User) && s.contents()[StoreKey::User]
        is Profile
}

/// What an actor instance answers: the applied state for a recognized
/// path, or a route-level rejection that touched nothing durable.
pub enum Response {
    Payload { counter: i16, path: String, calls: usize, user: User, loaded: bool },
    RouteNotFound,
}

/// The complete relation between an actor instance before and after it
/// handled one request, and the answer it gave.
pub open spec fn fetch_post(
    pre: Counter,
    post: Counter,
    path: Seq<char>,
    r: Result<Response, StoreError>,
) -> bool {
    &&& post.call_count() == pre.call_count() + 1
    &&& if !recognized(path) {
        // Route-level rejection: persistence is skipped entirely.
        &&& post.store() == pre.store()
        &&& r == Ok::<Response, StoreError>(Response::RouteNotFound)
    } else if pre.store().is_available() {
        &&& r matches Ok(resp)
        &&& resp matches Response::Payload { counter, path: rpath, calls, user, loaded } && {
            let c1 = step_counter(read_counter(pre.store()), path);
            &&& counter as int == c1
            &&& rpath@ == path
            &&& calls as int == pre.call_count() + 1
            &&& loaded == profile_loaded(pre.store())
            &&& (loaded ==> StoreValue::Profile(user) == pre.store().contents()[StoreKey::User])
            &&& (!loaded ==> user@.name == "Simon"@ && user@.email == "Simon@somewhere.com"@)
            &&& post.store().contents() == pre.store().contents().insert(
                StoreKey::Counter,
                StoreValue::Number(c1 as i16),
            ).insert(StoreKey::User, StoreValue::Profile(user))
            &&& post.store().write_count() == next_write_count(
                next_write_count(pre.store().write_count()),
            )
            &&& post.store().is_available()
        }
    } else {
        // The write-through failed; nothing durable changed, but the
        // ephemeral call count had already moved on.
        &&& r == Err::<Response, StoreError>(StoreError::Unavailable)
        &&& post.store() == pre.store()
    }
}

/// A fresh actor instance as the registry constructs it: no calls seen
/// yet, over an empty, reachable store.
pub open spec fn is_fresh(c: Counter) -> bool {
    &&& c.call_count() == 0
    &&& c.store().contents() == Map::<StoreKey, StoreValue>::empty()
    &&& c.store().write_count() == 0
    &&& c.store().is_available()
}

/// An actor instance: the ephemeral call counter and the handle to the
/// durable store it exclusively owns. Requests reach an instance one at
/// a time, so each `fetch` sees the store exactly as the previous
/// request left it.
pub struct Counter {
    calls: usize,
    state: Store,
}

impl Counter {
    /// How many requests this instance has seen since construction.
    pub closed spec fn call_count(self) -> int {
        self.calls as int
    }

    /// The durable store bound to this instance.
    pub closed spec fn store(self) -> Store {
        self.state
    }

    /// A new instance over the injected store; the call counter starts
    /// over, the durable records are whatever the store already holds.
    pub fn new(state: Store) -> (c: Counter)
        ensures
            c.call_count() == 0,
            c.store() == state,
    {
        Counter { calls: 0, state }
    }

    /// How many requests this instance has seen, for observation.
    pub fn calls(&self) -> (n: usize)
        ensures
            n as int == self.call_count(),
    {
        self.calls
    }

    /// Models eviction by the hosting layer: the instance is torn down
    /// and a fresh one is constructed lazily over the same durable
    /// store, so the ephemeral call counter is discarded while every
    /// durable record survives.
    pub fn reset(&mut self)
        ensures
            final(self).call_count() == 0,
            final(self).store() == old(self).store(),
    {
        self.calls = 0;
    }

    /// Read access to the instance's store.
    pub fn storage(&self) -> (s: &Store)
        ensures
            *s == self.store(),
    {
        &self.state
    }

    /// Handle one request: count the call, read the durable state
    /// (absent records default), apply the transition the path selects,
    /// write the result through, and answer. An unrecognized path is
    /// rejected without touching the store; a failed write-through is
    /// reported and leaves nothing half-persisted.
    pub fn fetch(&mut self, path: &str) -> (r: Result<Response, StoreError>)
        requires
            old(self).call_count() < usize::MAX,
        ensures
            fetch_post(*old(self), *final(self), path@, r),
    {
        self.calls = self.calls + 1;

        // Retrieve from storage, defaulting whatever cannot be read.
        let count: i16 = match self.state.get(StoreKey::Counter) {
            Ok(StoreValue::Number(n)) => n,
            _ => 0,
        };
        let (loaded, user): (bool, User) = match self.state.get(StoreKey::User) {
            Ok(StoreValue::Profile(u)) => (true, u),
            _ => (false, User::new("Simon".to_owned(), "Simon@somewhere.com".to_owned())),
        };

        let new_count: i16 = if str_eq(path, "/x/increment") {
            if count == i16::MAX {
                i16::MIN
            } else {
                count + 1
            }
        } else if str_eq(path, "/x/decrement") {
            if count == i16::MIN {
                i16::MAX
            } else {
                count - 1
            }
        } else if str_eq(path, "/x/") {
            count
        } else {
            return Ok(Response::RouteNotFound);
        };

        // Save back into persistent storage before answering.
        match self.state.put(StoreKey::Counter, StoreValue::Number(new_count)) {
            Ok(_) => (),
            Err(e) => {
                return Err(e);
            },
        }
        match self.state.put(StoreKey::User, StoreValue::Profile(user.clone())) {
            Ok(_) => (),
            Err(e) => {
                return Err(e);
            },
        }

        Ok(
            Response::Payload {
                counter: new_count,
                path: path.to_owned(),
                calls: self.calls,
                user,
                loaded,
            },
        )
    }
}

} // verus!
