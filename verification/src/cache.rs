//! The per-authority connection cache: transports keyed by `(host, port)`,
//! at most one per authority, reused for every later request to the same
//! authority and never evicted. The transport type is a parameter, so the
//! cache's bookkeeping is verified independently of what a transport is.

use vstd::prelude::*;

use crate::text::str_eq;

verus! {

/// Owns one transport per network authority. The entries are exposed so
/// the caller that performs I/O can borrow a cached transport mutably; the
/// verified methods are the only ones that grow the cache, and they keep
/// the authorities distinct.
pub struct RequestContext<T> {
    pub entries: Vec<(String, u16, T)>,
}

impl<T> RequestContext<T> {
    /// The authority of entry `i`.
    pub open spec fn key_at(self, i: int) -> (Seq<char>, u16) {
        (self.entries@[i].0@, self.entries@[i].1)
    }

    /// Some entry holds the given authority.
    pub open spec fn has_authority(self, host: Seq<char>, port: u16) -> bool {
        exists|i: int|
            0 <= i < self.entries@.len() && #[trigger] self.key_at(i) == (host, port)
    }

    /// No two entries share an authority.
    pub open spec fn wf(self) -> bool {
        forall|i: int, j: int|
            0 <= i < self.entries@.len() && 0 <= j < self.entries@.len() && i != j
                ==> #[trigger] self.key_at(i) != #[trigger] self.key_at(j)
    }

    /// An empty cache.
    pub fn new() -> (r: Self)
        ensures
            r.entries@.len() == 0,
            r.wf(),
    {
        RequestContext { entries: Vec::new() }
    }

    /// The entry holding the given authority, if one exists.
    pub fn lookup(&self, host: &str, port: u16) -> (r: Option<usize>)
        ensures
            match r {
                Some(i) => i < self.entries@.len() && self.key_at(i as int) == (host@, port),
                None => !self.has_authority(host@, port),
            },
    {
        let n = self.entries.len();
        let mut i: usize = 0;
        while i < n
            invariant
                0 <= i <= n,
                n == self.entries@.len(),
                forall|j: int| 0 <= j < i ==> #[trigger] self.key_at(j) != (host@, port),
            decreases n - i,
        {
            if str_eq(self.entries[i].0.as_str(), host) && self.entries[i].1 == port {
                return Some(i);
            }
            i += 1;
        }
        None
    }

    /// Add a transport for an authority not yet cached; yields its index.
    pub fn insert(&mut self, host: String, port: u16, transport: T) -> (r: usize)
        requires
            old(self).wf(),
            !old(self).has_authority(host@, port),
        ensures
            final(self).wf(),
            final(self).entries@ == old(self).entries@.push((host, port, transport)),
            r == old(self).entries@.len(),
            final(self).key_at(r as int) == (host@, port),
            final(self).has_authority(host@, port),
    {
        let ghost n = old(self).entries@.len() as int;
        let r = self.entries.len();
        self.entries.push((host, port, transport));
        proof {
            assert(self.key_at(n) == (host@, port));
            assert forall|i: int, j: int|
                0 <= i < self.entries@.len() && 0 <= j < self.entries@.len() && i
                    != j implies #[trigger] self.key_at(i) != #[trigger] self.key_at(j) by {
                if i < n && j < n {
                    assert(self.key_at(i) == old(self).key_at(i));
                    assert(self.key_at(j) == old(self).key_at(j));
                    assert(old(self).key_at(i) != old(self).key_at(j));
                } else if i == n {
                    assert(self.key_at(j) == old(self).key_at(j));
                    if old(self).key_at(j) == (host@, port) {
                        assert(old(self).has_authority(host@, port));
                    }
                } else {
                    assert(self.key_at(i) == old(self).key_at(i));
                    if old(self).key_at(i) == (host@, port) {
                        assert(old(self).has_authority(host@, port));
                    }
                }
            }
        }
        r
    }
}

/// Within a well-formed cache an authority names at most one transport:
/// two entries with the same key are the same entry. This is what makes
/// reuse deterministic — every fetch to an authority reaches the one
/// transport created for it.
pub proof fn lemma_authority_unique<T>(c: RequestContext<T>, i: int, j: int)
    requires
        c.wf(),
        0 <= i < c.entries@.len(),
        0 <= j < c.entries@.len(),
        c.key_at(i) == c.key_at(j),
    ensures
        i == j,
{
}

} // verus!
