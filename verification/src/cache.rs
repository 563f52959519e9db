//! The metadata cache: what was resolved in the virtual machine, kept for
//! the life of the process.
//!
//! Each class and each member is resolved at most once. The first request for
//! a key decides its entry; the entry is never written again, and every
//! request, the first one too, gets what the entry holds. A resolution that
//! fails is kept as well: the key stays failed and is not tried again.

use vstd::prelude::*;

verus! {

/// What a member of a class is looked up by: the type signature of the class,
/// the member's name and the member's signature. A class itself is looked up
/// by its type signature alone, with the other two parts empty.
#[derive(Clone, Debug, PartialEq, Eq)]
pub struct CacheKey {
    pub class: String,
    pub name: String,
    pub signature: String,
}

/// The mathematical value of a [`CacheKey`].
pub struct KeyModel {
    pub class: Seq<char>,
    pub name: Seq<char>,
    pub signature: Seq<char>,
}

impl View for CacheKey {
    type V = KeyModel;

    open spec fn view(&self) -> KeyModel {
        KeyModel { class: self.class@, name: self.name@, signature: self.signature@ }
    }
}

impl CacheKey {
    /// The key of a class, as a mathematical value.
    pub open spec fn class_key(class: Seq<char>) -> KeyModel {
        KeyModel { class, name: Seq::empty(), signature: Seq::empty() }
    }

    /// The key of a member, as a mathematical value.
    pub open spec fn member_key(class: Seq<char>, name: Seq<char>, signature: Seq<char>) -> KeyModel {
        KeyModel { class, name, signature }
    }

    /// The key of a member.
    pub fn member(class: &str, name: &str, signature: &str) -> (key: CacheKey)
        ensures
            key@ == Self::member_key(class@, name@, signature@),
    {
        CacheKey {
            class: String::from_str(class),
            name: String::from_str(name),
            signature: String::from_str(signature),
        }
    }

    /// The key of a class.
    pub fn class(class: &str) -> (key: CacheKey)
        ensures
            key@ == Self::class_key(class@),
    {
        CacheKey { class: String::from_str(class), name: String::new(), signature: String::new() }
    }

    /// Whether two keys name the same thing.
    pub fn same(&self, other: &CacheKey) -> (b: bool)
        ensures
            b == (self@ == other@),
    {
        let b = self.class == other.class && self.name == other.name && self.signature
            == other.signature;
        proof {
            if self@ == other@ {
                assert(self.class@ == other.class@);
            }
        }
        b
    }
}

/// What the cache holds for a key: the handle that was resolved, or the fact
/// that resolution failed.
#[derive(Clone, Debug, PartialEq, Eq)]
pub enum Entry<H> {
    Resolved(H),
    Failed,
}

/// A key with its entry.
struct Slot<H> {
    key: CacheKey,
    entry: Entry<H>,
}

/// A write-once table from keys to entries. No key stands in it twice.
pub struct OnceTable<H> {
    slots: Vec<Slot<H>>,
}

impl<H> OnceTable<H> {
    #[verifier::type_invariant]
    spec fn distinct_keys(&self) -> bool {
        forall|i: int, j: int|
            0 <= i < j < self.slots@.len() ==> self.slots@[i].key@ != self.slots@[j].key@
    }

    /// The entries by key.
    pub closed spec fn view(&self) -> Map<KeyModel, Entry<H>> {
        Map::new(
            |k: KeyModel| exists|i: int| 0 <= i < self.slots@.len() && self.slots@[i].key@ == k,
            |k: KeyModel| self.slots@[self.index_of(k)].entry,
        )
    }

    /// The number of resolutions that were made: one for each entry.
    pub closed spec fn resolutions(&self) -> nat {
        self.slots@.len()
    }

    spec fn index_of(&self, k: KeyModel) -> int {
        choose|i: int| 0 <= i < self.slots@.len() && self.slots@[i].key@ == k
    }

    spec fn domain_upto(&self, n: int) -> Set<KeyModel> {
        Set::new(|k: KeyModel| exists|i: int| 0 <= i < n && self.slots@[i].key@ == k)
    }

    proof fn lemma_domain(&self, n: int)
        requires
            self.distinct_keys(),
            0 <= n <= self.slots@.len(),
        ensures
            self.domain_upto(n).finite(),
            self.domain_upto(n).len() == n,
        decreases n,
    {
        if n == 0 {
            assert(self.domain_upto(0) =~= Set::empty());
        } else {
            self.lemma_domain(n - 1);
            let last = self.slots@[n - 1].key@;
            assert(!self.domain_upto(n - 1).contains(last)) by {
                if self.domain_upto(n - 1).contains(last) {
                    let i = choose|i: int| 0 <= i < n - 1 && self.slots@[i].key@ == last;
                    assert(self.slots@[i].key@ != self.slots@[n - 1].key@);
                }
            }
            assert(self.domain_upto(n) =~= self.domain_upto(n - 1).insert(last)) by {
                assert forall|k: KeyModel| self.domain_upto(n).contains(k) implies self.domain_upto(
                    n - 1,
                ).insert(last).contains(k) by {
                    let i = choose|i: int| 0 <= i < n && self.slots@[i].key@ == k;
                    if i < n - 1 {
                        assert(self.domain_upto(n - 1).contains(k));
                    }
                }
                assert forall|k: KeyModel|
                    self.domain_upto(n - 1).insert(last).contains(k) implies self.domain_upto(
                    n,
                ).contains(k) by {
                    if k == last {
                        assert(self.slots@[n - 1].key@ == k);
                    } else {
                        let i = choose|i: int| 0 <= i < n - 1 && self.slots@[i].key@ == k;
                        assert(0 <= i < n && self.slots@[i].key@ == k);
                    }
                }
            }
        }
    }

    /// A table without entries.
    pub fn new() -> (table: OnceTable<H>)
        ensures
            table@ == Map::<KeyModel, Entry<H>>::empty(),
            table.resolutions() == 0,
    {
        let table = OnceTable { slots: Vec::new() };
        assert(table@ =~= Map::<KeyModel, Entry<H>>::empty());
        table
    }

    /// The number of entries: as many resolutions were made as there are
    /// keys with an entry.
    pub fn len(&self) -> (n: usize)
        ensures
            n == self.resolutions(),
            self@.dom().finite(),
            self@.dom().len() == n,
    {
        proof {
            use_type_invariant(self);
            self.lemma_domain(self.slots@.len() as int);
            assert(self@.dom() =~= self.domain_upto(self.slots@.len() as int));
        }
        self.slots.len()
    }

    /// The entry of a key, if the key was resolved before.
    pub fn get(&self, key: &CacheKey) -> (entry: Option<&Entry<H>>)
        ensures
            match entry {
                Some(e) => self@.contains_key(key@) && *e == self@[key@],
                None => !self@.contains_key(key@),
            },
    {
        proof {
            use_type_invariant(self);
        }
        let mut i: usize = 0;
        while i < self.slots.len()
            invariant
                self.distinct_keys(),
                i <= self.slots@.len(),
                forall|j: int| 0 <= j < i ==> self.slots@[j].key@ != key@,
            decreases self.slots@.len() - i,
        {
            if self.slots[i].key.same(key) {
                proof {
                    let at = self.index_of(key@);
                    assert(self.slots@[i as int].key@ == key@);
                    if at < i {
                        assert(self.slots@[at].key@ != self.slots@[i as int].key@);
                    }
                    if i < at {
                        assert(self.slots@[i as int].key@ != self.slots@[at].key@);
                    }
                }
                return Some(&self.slots[i].entry);
            }
            i += 1;
        }
        None
    }

    /// Writes the entry of a key that has none yet.
    pub fn record(&mut self, key: CacheKey, entry: Entry<H>)
        requires
            !old(self)@.contains_key(key@),
        ensures
            final(self)@ == old(self)@.insert(key@, entry),
            final(self).resolutions() == old(self).resolutions() + 1,
    {
        proof {
            use_type_invariant(&*self);
        }
        let ghost before = *self;
        let ghost k = key@;
        let mut taken = OnceTable { slots: Vec::new() };
        core::mem::swap(self, &mut taken);
        let mut slots = taken.slots;
        slots.push(Slot { key, entry });
        *self = OnceTable { slots };
        proof {
            let n = before.slots@.len() as int;
            assert forall|i: int, j: int| 0 <= i < j < self.slots@.len() implies self.slots@[i].key@
                != self.slots@[j].key@ by {
                if j == n {
                    assert(self.slots@[i] == before.slots@[i]);
                    if before.slots@[i].key@ == k {
                        assert(before@.contains_key(k));
                    }
                } else {
                    assert(self.slots@[i] == before.slots@[i]);
                    assert(self.slots@[j] == before.slots@[j]);
                }
            }
            assert forall|q: KeyModel| #[trigger]
                self@.contains_key(q) <==> before@.insert(k, entry).contains_key(q) by {
                if self@.contains_key(q) {
                    let i = choose|i: int| 0 <= i < self.slots@.len() && self.slots@[i].key@ == q;
                    if i < n {
                        assert(before.slots@[i].key@ == q);
                    }
                }
                if before@.contains_key(q) {
                    let i = choose|i: int| 0 <= i < before.slots@.len() && before.slots@[i].key@ == q;
                    assert(self.slots@[i].key@ == q);
                }
                if q == k {
                    assert(self.slots@[n].key@ == q);
                }
            }
            assert forall|q: KeyModel| #[trigger] self@.contains_key(q) implies self@[q]
                == before@.insert(k, entry)[q] by {
                let at = self.index_of(q);
                if q == k {
                    if at < n {
                        assert(self.slots@[at].key@ != self.slots@[n].key@);
                    }
                } else {
                    assert(at < n);
                    let was = before.index_of(q);
                    assert(before.slots@[at].key@ == q);
                    if was < at {
                        assert(before.slots@[was].key@ != before.slots@[at].key@);
                    }
                    if at < was {
                        assert(before.slots@[at].key@ != before.slots@[was].key@);
                    }
                }
            }
            assert(self@ =~= before@.insert(k, entry));
        }
    }
}

/// Whether every entry of `before` is an entry of `after`, with the same
/// value: nothing that was resolved is resolved again or lost.
pub open spec fn keeps<H>(before: Map<KeyModel, Entry<H>>, after: Map<KeyModel, Entry<H>>) -> bool {
    forall|k: KeyModel| #[trigger]
        before.contains_key(k) ==> after.contains_key(k) && after[k] == before[k]
}

/// What one request does to the entries: a key that has an entry keeps it; a
/// key that has none gets the outcome of the resolution made for it.
pub open spec fn after_request<H>(
    entries: Map<KeyModel, Entry<H>>,
    key: KeyModel,
    outcome: Entry<H>,
) -> Map<KeyModel, Entry<H>> {
    if entries.contains_key(key) {
        entries
    } else {
        entries.insert(key, outcome)
    }
}

/// Whether a request makes a resolution: only for a key without an entry.
pub open spec fn resolves<H>(entries: Map<KeyModel, Entry<H>>, key: KeyModel) -> bool {
    !entries.contains_key(key)
}

/// The entries after a run of requests for one key, where `outcomes[i]` is
/// what a resolution made for request `i` would give.
pub open spec fn after_requests<H>(
    entries: Map<KeyModel, Entry<H>>,
    key: KeyModel,
    outcomes: Seq<Entry<H>>,
) -> Map<KeyModel, Entry<H>>
    decreases outcomes.len(),
{
    if outcomes.len() == 0 {
        entries
    } else {
        after_request(after_requests(entries, key, outcomes.drop_last()), key, outcomes.last())
    }
}

/// The number of resolutions that a run of requests for one key makes.
pub open spec fn resolutions_made<H>(
    entries: Map<KeyModel, Entry<H>>,
    key: KeyModel,
    outcomes: Seq<Entry<H>>,
) -> nat
    decreases outcomes.len(),
{
    if outcomes.len() == 0 {
        0
    } else {
        let before = after_requests(entries, key, outcomes.drop_last());
        resolutions_made(entries, key, outcomes.drop_last()) + if resolves(before, key) {
            1nat
        } else {
            0nat
        }
    }
}

/// Any number of first-time requests for one key make exactly one
/// resolution, and every request gets the entry that the first one made:
/// later outcomes are never looked at.
pub proof fn lemma_resolved_once<H>(
    entries: Map<KeyModel, Entry<H>>,
    key: KeyModel,
    outcomes: Seq<Entry<H>>,
)
    requires
        !entries.contains_key(key),
        outcomes.len() > 0,
    ensures
        resolutions_made(entries, key, outcomes) == 1,
        after_requests(entries, key, outcomes) == entries.insert(key, outcomes[0]),
        forall|n: int|
            1 <= n <= outcomes.len() ==> #[trigger] after_requests(entries, key, outcomes.take(n))[key]
                == outcomes[0],
    decreases outcomes.len(),
{
    reveal_with_fuel(after_requests, 2);
    reveal_with_fuel(resolutions_made, 2);
    if outcomes.len() == 1 {
        assert(outcomes.drop_last().len() == 0);
        assert(outcomes.last() == outcomes[0]);
        assert forall|n: int| 1 <= n <= outcomes.len() implies #[trigger] after_requests(
            entries,
            key,
            outcomes.take(n),
        )[key] == outcomes[0] by {
            assert(outcomes.take(n) =~= outcomes);
        }
    } else {
        let front = outcomes.drop_last();
        lemma_resolved_once(entries, key, front);
        assert(front[0] == outcomes[0]);
        assert forall|n: int| 1 <= n <= outcomes.len() implies #[trigger] after_requests(
            entries,
            key,
            outcomes.take(n),
        )[key] == outcomes[0] by {
            if n == outcomes.len() {
                assert(outcomes.take(n) =~= outcomes);
            } else {
                assert(outcomes.take(n) =~= front.take(n));
            }
        }
    }
}

/// A request for a key that has an entry changes nothing and makes no
/// resolution.
pub proof fn lemma_request_is_idempotent<H>(
    entries: Map<KeyModel, Entry<H>>,
    key: KeyModel,
    first: Entry<H>,
    second: Entry<H>,
)
    ensures
        after_request(after_request(entries, key, first), key, second) == after_request(
            entries,
            key,
            first,
        ),
        !resolves(after_request(entries, key, first), key),
{
}

} // verus!
