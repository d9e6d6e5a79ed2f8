use vstd::prelude::*;
use crate::profile::User;

verus! {

/// The two durable keys an actor instance owns. Records under distinct
/// keys are independent; records of distinct instances never share a
/// store at all, because every instance owns its own `Store`.
#[derive(Clone, Copy, PartialEq, Eq, Structural, Debug)]
pub enum StoreKey {
    Counter,
    User,
}

/// A typed durable value: the signed counter or the profile record.
pub enum StoreValue {
    Number(i16),
    Profile(User),
}

impl Clone for StoreValue {
    fn clone(&self) -> (r: Self)
        ensures
            r == *self,
    {
        match self {
            StoreValue::Number(n) => StoreValue::Number(*n),
            StoreValue::Profile(u) => StoreValue::Profile(u.clone()),
        }
    }
}

/// Failures of the durable store: a read of an absent key, and
/// transient unavailability of the backing storage.
#[derive(Clone, Copy, PartialEq, Eq, Structural, Debug)]
pub enum StoreError {
    NotFound,
    Unavailable,
}

/// The write counter is diagnostic; it saturates instead of wrapping.
pub open spec fn next_write_count(w: int) -> int {
    if w < u64::MAX {
        w + 1
    } else {
        w
    }
}

/// The durable key-value store scoped to one actor instance. Each `put`
/// is atomic: it either overwrites the whole record and counts as one
/// write, or (while the storage is unavailable) leaves the store
/// untouched.
pub struct Store {
    counter_slot: Option<StoreValue>,
    user_slot: Option<StoreValue>,
    writes: u64,
    available: bool,
}

impl Store {
    /// The records currently persisted, as a map from key to value.
    pub closed spec fn contents(self) -> Map<StoreKey, StoreValue> {
        Map::new(
            |k: StoreKey|
                match k {
                    StoreKey::Counter => self.counter_slot is Some,
                    StoreKey::User => self.user_slot is Some,
                },
            |k: StoreKey|
                match k {
                    StoreKey::Counter => match self.counter_slot {
                        Some(v) => v,
                        None => StoreValue::Number(0),
                    },
                    StoreKey::User => match self.user_slot {
                        Some(v) => v,
                        None => StoreValue::Number(0),
                    },
                },
        )
    }

    /// How many successful writes the store has absorbed.
    pub closed spec fn write_count(self) -> int {
        self.writes as int
    }

    /// Whether the backing storage currently answers at all.
    pub closed spec fn is_available(self) -> bool {
        self.available
    }

    /// A fresh, empty, reachable store.
    pub fn new() -> (s: Store)
        ensures
            s.contents() == Map::<StoreKey, StoreValue>::empty(),
            s.write_count() == 0,
            s.is_available(),
    {
        let s = Store { counter_slot: None, user_slot: None, writes: 0, available: true };
        proof {
            assert(s.contents() =~= Map::<StoreKey, StoreValue>::empty());
        }
        s
    }

    /// Read the record under `key`. An absent key is `NotFound`; an
    /// unavailable store answers `Unavailable`; otherwise the stored
    /// value comes back unchanged.
    pub fn get(&self, key: StoreKey) -> (r: Result<StoreValue, StoreError>)
        ensures
            match r {
                Ok(v) => self.is_available() && self.contents().contains_key(key)
                    && v == self.contents()[key],
                Err(StoreError::NotFound) => self.is_available()
                    && !self.contents().contains_key(key),
                Err(StoreError::Unavailable) => !self.is_available(),
            },
    {
        if !self.available {
            return Err(StoreError::Unavailable);
        }
        let slot: &Option<StoreValue> = match key {
            StoreKey::Counter => &self.counter_slot,
            StoreKey::User => &self.user_slot,
        };
        match slot {
            Some(v) => Ok(v.clone()),
            None => Err(StoreError::NotFound),
        }
    }

    /// Overwrite the record under `key`. Succeeds exactly when the
    /// store is available; a failed write leaves the store untouched.
    pub fn put(&mut self, key: StoreKey, value: StoreValue) -> (r: Result<(), StoreError>)
        ensures
            match r {
                Ok(_) => old(self).is_available() && final(self).is_available()
                    && final(self).contents() == old(self).contents().insert(key, value)
                    && final(self).write_count() == next_write_count(old(self).write_count()),
                Err(StoreError::Unavailable) => !old(self).is_available()
                    && *final(self) == *old(self),
                Err(StoreError::NotFound) => false,
            },
    {
        if !self.available {
            return Err(StoreError::Unavailable);
        }
        match key {
            StoreKey::Counter => {
                self.counter_slot = Some(value);
            },
            StoreKey::User => {
                self.user_slot = Some(value);
            },
        }
        if self.writes < u64::MAX {
            self.writes = self.writes + 1;
        }
        proof {
            assert(self.contents() =~= old(self).contents().insert(key, value));
        }
        Ok(())
    }

    /// How many writes the store has absorbed, for observation.
    pub fn writes(&self) -> (w: u64)
        ensures
            w as int == self.write_count(),
    {
        self.writes
    }

    /// Model of a transient outage of the backing storage: while the
    /// store is unavailable, reads and writes fail and nothing changes.
    pub fn set_available(&mut self, available: bool)
        ensures
            final(self).is_available() == available,
            final(self).contents() == old(self).contents(),
            final(self).write_count() == old(self).write_count(),
    {
        self.available = available;
        proof {
            assert(self.contents() =~= old(self).contents());
        }
    }
}

} // verus!
