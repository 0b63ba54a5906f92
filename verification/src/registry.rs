//! The instance registry: a mapping from opaque handles to live client
//! resources.
//!
//! A handle is a randomly drawn alphanumeric string of at least ten
//! characters.  Randomness makes collisions negligible but cannot rule
//! them out, so `open` additionally guarantees freshness outright: a
//! drawn handle that is already live is extended until it is longer than
//! every live handle, and therefore equal to none of them.

use vstd::prelude::*;

use rand::Rng;

use crate::text::{chars_eq, copy_chars, is_alnum_char};

verus! {

/// The number of characters a freshly drawn handle has.
pub const HANDLE_LEN: usize = 10;

/// A registry of live client resources, each named by a distinct handle.
pub struct Registry<R> {
    entries: Vec<(Vec<char>, R)>,
}

impl<R> Registry<R> {
    /// The registry's contents as a sequence of handle/resource pairs.
    pub closed spec fn entry_seq(&self) -> Seq<(Seq<char>, R)> {
        self.entries@.map_values(|e: (Vec<char>, R)| (e.0@, e.1))
    }

    /// Well-formed: no two entries share a handle.
    pub open spec fn wf(&self) -> bool {
        forall|i: int, j: int|
            0 <= i < j < self.entry_seq().len() ==> self.entry_seq()[i].0 != self.entry_seq()[j].0
    }

    /// Whether a resource is registered under handle `h`.
    pub open spec fn has(&self, h: Seq<char>) -> bool {
        exists|i: int| 0 <= i < self.entry_seq().len() && self.entry_seq()[i].0 == h
    }

    /// The resource registered under handle `h`.
    pub open spec fn resource_at(&self, h: Seq<char>) -> R {
        let i = choose|i: int| 0 <= i < self.entry_seq().len() && self.entry_seq()[i].0 == h;
        self.entry_seq()[i].1
    }

    /// How many resources are live.
    pub open spec fn spec_len(&self) -> nat {
        self.entry_seq().len()
    }

    /// In a well-formed registry, the entry at any index holding handle
    /// `h` is the resource registered under `h`.
    pub proof fn lemma_resource_at_index(&self, i: int)
        requires
            self.wf(),
            0 <= i < self.entry_seq().len(),
        ensures
            self.has(self.entry_seq()[i].0),
            self.resource_at(self.entry_seq()[i].0) == self.entry_seq()[i].1,
    {
        let h = self.entry_seq()[i].0;
        assert(self.has(h));
        let j = choose|j: int| 0 <= j < self.entry_seq().len() && self.entry_seq()[j].0 == h;
        if i != j {
            assert(false);
        }
    }

    /// An empty registry: no handle is live.
    pub fn new() -> (r: Registry<R>)
        ensures
            r.wf(),
            r.spec_len() == 0,
            forall|h: Seq<char>| !r.has(h),
    {
        Registry { entries: Vec::new() }
    }

    /// How many resources are live.
    pub fn len(&self) -> (n: usize)
        ensures
            n == self.spec_len(),
    {
        self.entries.len()
    }

    /// The index of the entry registered under `h`, if any.
    fn find(&self, h: &Vec<char>) -> (r: Option<usize>)
        ensures
            match r {
                Some(i) => i < self.entry_seq().len() && self.entry_seq()[i as int].0 == h@,
                None => !self.has(h@),
            },
    {
        let n = self.entries.len();
        let mut i: usize = 0;
        while i < n
            invariant
                n == self.entry_seq().len(),
                i <= n,
                forall|j: int| 0 <= j < i ==> self.entry_seq()[j].0 != h@,
            decreases n - i,
        {
            if chars_eq(&self.entries[i].0, h) {
                return Some(i);
            }
            i = i + 1;
        }
        None
    }

    /// Looks up the resource registered under `h` for shared use.
    ///
    /// Returns `None` exactly when no resource is live under `h`; the
    /// registry itself is untouched either way, so a failed lookup can
    /// never disturb other live handles.
    pub fn resolve(&self, h: &Vec<char>) -> (r: Option<&R>)
        requires
            self.wf(),
        ensures
            r is Some <==> self.has(h@),
            match r {
                Some(res) => *res == self.resource_at(h@),
                None => true,
            },
    {
        match self.find(h) {
            Some(i) => {
                proof {
                    self.lemma_resource_at_index(i as int);
                }
                Some(&self.entries[i].1)
            },
            None => None,
        }
    }

    /// The length of the longest live handle (zero when none is live).
    fn max_handle_len(&self) -> (m: usize)
        ensures
            forall|i: int| 0 <= i < self.entry_seq().len() ==> self.entry_seq()[i].0.len() <= m,
    {
        let n = self.entries.len();
        let mut m: usize = 0;
        let mut i: usize = 0;
        while i < n
            invariant
                n == self.entry_seq().len(),
                i <= n,
                forall|j: int| 0 <= j < i ==> self.entry_seq()[j].0.len() <= m,
            decreases n - i,
        {
            let l = self.entries[i].0.len();
            if l > m {
                m = l;
            }
            i = i + 1;
        }
        m
    }

    /// Inserts `resource` under a fresh handle and returns the handle.
    ///
    /// The handle is alphanumeric, at least `HANDLE_LEN` characters long,
    /// and was not live before the call; every other entry is untouched.
    pub fn open(&mut self, resource: R) -> (h: Vec<char>)
        requires
            old(self).wf(),
        ensures
            final(self).wf(),
            !old(self).has(h@),
            final(self).has(h@),
            final(self).resource_at(h@) == resource,
            final(self).spec_len() == old(self).spec_len() + 1,
            forall|k: Seq<char>| k != h@ ==> (final(self).has(k) <==> old(self).has(k)),
            forall|k: Seq<char>|
                k != h@ && old(self).has(k) ==> final(self).resource_at(k) == old(self).resource_at(
                    k,
                ),
            h@.len() >= HANDLE_LEN,
            forall|i: int| 0 <= i < h@.len() ==> is_alnum_char(#[trigger] h@[i]),
    {
        let mut h = random_alnum(HANDLE_LEN);
        if self.find(&h).is_some() {
            let m = self.max_handle_len();
            while h.len() <= m
                invariant
                    h@.len() >= HANDLE_LEN,
                    forall|i: int| 0 <= i < h@.len() ==> is_alnum_char(#[trigger] h@[i]),
                decreases m + 1 - h.len(),
            {
                let pad = random_alnum(1);
                h.push(pad[0]);
            }
            proof {
                assert forall|i: int|
                    0 <= i < self.entry_seq().len() implies self.entry_seq()[i].0 != h@ by {
                    assert(self.entry_seq()[i].0.len() <= m);
                }
                assert(!self.has(h@));
            }
        }
        let stored = copy_chars(&h);
        let ghost pre = *self;
        self.entries.push((stored, resource));
        proof {
            assert(self.entry_seq() =~= pre.entry_seq().push((h@, resource)));
            let n = pre.entry_seq().len() as int;
            assert(self.entry_seq()[n].0 == h@);
            assert(self.has(h@));
            self.lemma_resource_at_index(n);
            assert forall|k: Seq<char>| k != h@ implies (self.has(k) <==> pre.has(k)) by {
                if self.has(k) {
                    let i = choose|i: int|
                        0 <= i < self.entry_seq().len() && self.entry_seq()[i].0 == k;
                    assert(i < n);
                    assert(pre.entry_seq()[i].0 == k);
                }
                if pre.has(k) {
                    let i = choose|i: int|
                        0 <= i < pre.entry_seq().len() && pre.entry_seq()[i].0 == k;
                    assert(self.entry_seq()[i].0 == k);
                }
            }
            assert forall|k: Seq<char>|
                k != h@ && pre.has(k) implies self.resource_at(k) == pre.resource_at(k) by {
                let i = choose|i: int|
                    0 <= i < pre.entry_seq().len() && pre.entry_seq()[i].0 == k;
                pre.lemma_resource_at_index(i);
                self.lemma_resource_at_index(i);
            }
        }
        h
    }

    /// Removes the entry registered under `h`, if any, and reports whether
    /// one was there.
    ///
    /// After the call no resource is live under `h`; every other entry is
    /// untouched.  A task that already resolved `h` keeps its own shared
    /// reference, so removal never invalidates work in flight.
    pub fn close(&mut self, h: &Vec<char>) -> (r: bool)
        requires
            old(self).wf(),
        ensures
            final(self).wf(),
            r == old(self).has(h@),
            !final(self).has(h@),
            forall|k: Seq<char>| k != h@ ==> (final(self).has(k) <==> old(self).has(k)),
            forall|k: Seq<char>|
                k != h@ && old(self).has(k) ==> final(self).resource_at(k) == old(self).resource_at(
                    k,
                ),
    {
        match self.find(h) {
            Some(i) => {
                let ghost pre = *self;
                self.entries.remove(i);
                proof {
                    let n = pre.entry_seq().len() as int;
                    assert(self.entry_seq() =~= pre.entry_seq().subrange(0, i as int)
                        + pre.entry_seq().subrange(i as int + 1, n));
                    assert forall|a: int|
                        0 <= a < self.entry_seq().len() implies self.entry_seq()[a] == (if a
                        < i as int {
                        pre.entry_seq()[a]
                    } else {
                        pre.entry_seq()[a + 1]
                    }) by {}
                    assert(!self.has(h@)) by {
                        if self.has(h@) {
                            let a = choose|a: int|
                                0 <= a < self.entry_seq().len() && self.entry_seq()[a].0 == h@;
                            if a < i as int {
                                assert(pre.entry_seq()[a].0 == h@);
                                assert(pre.entry_seq()[i as int].0 == h@);
                                assert(false);
                            } else {
                                assert(pre.entry_seq()[a + 1].0 == h@);
                                assert(pre.entry_seq()[i as int].0 == h@);
                                assert(false);
                            }
                        }
                    }
                    assert forall|k: Seq<char>| k != h@ implies (self.has(k) <==> pre.has(k)) by {
                        if self.has(k) {
                            let a = choose|a: int|
                                0 <= a < self.entry_seq().len() && self.entry_seq()[a].0 == k;
                            if a < i as int {
                                assert(pre.entry_seq()[a].0 == k);
                            } else {
                                assert(pre.entry_seq()[a + 1].0 == k);
                            }
                        }
                        if pre.has(k) {
                            let a = choose|a: int|
                                0 <= a < pre.entry_seq().len() && pre.entry_seq()[a].0 == k;
                            assert(a != i as int);
                            if a < i as int {
                                assert(self.entry_seq()[a].0 == k);
                            } else {
                                assert(self.entry_seq()[a - 1].0 == k);
                            }
                        }
                    }
                    assert forall|k: Seq<char>|
                        k != h@ && pre.has(k) implies self.resource_at(k) == pre.resource_at(
                        k,
                    ) by {
                        let a = choose|a: int|
                            0 <= a < pre.entry_seq().len() && pre.entry_seq()[a].0 == k;
                        pre.lemma_resource_at_index(a);
                        assert(a != i as int);
                        if a < i as int {
                            self.lemma_resource_at_index(a);
                        } else {
                            self.lemma_resource_at_index(a - 1);
                        }
                    }
                }
                true
            },
            None => false,
        }
    }
}

/// Relies on rand's thread-local generator sampling the `Alphanumeric`
/// distribution, which yields ASCII letters and digits only.  Which
/// characters come back is chance; only the length and the character
/// class are promised.
#[verifier::external_body]
fn random_alnum(n: usize) -> (r: Vec<char>)
    ensures
        r@.len() == n,
        forall|i: int| 0 <= i < r@.len() ==> is_alnum_char(#[trigger] r@[i]),
{
    rand::thread_rng().sample_iter(&rand::distributions::Alphanumeric).take(n).map(
        |b| b as char,
    ).collect()
}

} // verus!
