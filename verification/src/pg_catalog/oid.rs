//! The oids of catalogs, schemas and tables.
use crate::text;
use vstd::prelude::*;

verus! {

/// An object that has an oid.
#[derive(Debug, PartialEq, Eq)]
pub enum OidCacheKey {
    Catalog(String),
    Schema(String, String),
    /// A table by catalog, schema and name.
    Table(String, String, String),
}

/// The model of an [`OidCacheKey`].
#[verifier::ext_equal]
pub enum OidKeyV {
    Catalog(Seq<char>),
    Schema(Seq<char>, Seq<char>),
    Table(Seq<char>, Seq<char>, Seq<char>),
}

impl View for OidCacheKey {
    type V = OidKeyV;

    open spec fn view(&self) -> OidKeyV {
        match *self {
            OidCacheKey::Catalog(c) => OidKeyV::Catalog(c@),
            OidCacheKey::Schema(c, s) => OidKeyV::Schema(c@, s@),
            OidCacheKey::Table(c, s, t) => OidKeyV::Table(c@, s@, t@),
        }
    }
}

impl OidCacheKey {
    /// True of two keys of one object.
    pub fn same(&self, other: &OidCacheKey) -> (r: bool)
        ensures
            r == (self@ == other@),
    {
        match (self, other) {
            (OidCacheKey::Catalog(a), OidCacheKey::Catalog(b)) => text::same(a, b),
            (OidCacheKey::Schema(a, s), OidCacheKey::Schema(b, t)) => text::same(a, b)
                && text::same(s, t),
            (OidCacheKey::Table(a, s, m), OidCacheKey::Table(b, t, n)) => text::same(a, b)
                && text::same(s, t) && text::same(m, n),
            _ => false,
        }
    }
}

/// The oid of the `pg_catalog` namespace in every Postgres cluster. The rows of the
/// static relations refer to it.
pub const PG_CATALOG_NAMESPACE_OID: u32 = 11;

/// The first oid that is given to an object without a fixed one.
pub const FIRST_DYNAMIC_OID: u32 = 16384;

/// The oid that an object always has.
pub open spec fn fixed(key: OidKeyV) -> Option<u32> {
    match key {
        OidKeyV::Schema(_, schema) => if schema == "pg_catalog"@ {
            Some(PG_CATALOG_NAMESPACE_OID)
        } else {
            None
        },
        _ => None,
    }
}

/// The oid that an object always has.
pub fn fixed_oid(key: &OidCacheKey) -> (r: Option<u32>)
    ensures
        r == fixed(key@),
{
    match key {
        OidCacheKey::Schema(_, schema) => if text::same(schema, "pg_catalog") {
            Some(PG_CATALOG_NAMESPACE_OID)
        } else {
            None
        },
        _ => None,
    }
}

/// Gives out oids in a row.
pub struct OidCounter {
    pub next: u32,
}

/// The oid after an oid. Zero follows the greatest.
pub open spec fn successor(oid: u32) -> u32 {
    if oid == u32::MAX {
        0
    } else {
        (oid + 1) as u32
    }
}

impl OidCounter {
    /// A counter that starts above the oids of Postgres itself.
    pub fn new() -> (r: OidCounter)
        ensures
            r.next == FIRST_DYNAMIC_OID,
    {
        OidCounter { next: FIRST_DYNAMIC_OID }
    }

    /// The next oid.
    pub fn allocate(&mut self) -> (r: u32)
        ensures
            r == old(self).next,
            final(self).next == successor(old(self).next),
    {
        let oid = self.next;
        self.next = if oid == u32::MAX {
            0
        } else {
            oid + 1
        };
        oid
    }
}

/// The oids that were given out.
pub struct OidCache {
    entries: Vec<(OidCacheKey, u32)>,
}

/// The last oid of each object in a list.
pub open spec fn listed(entries: Seq<(OidCacheKey, u32)>) -> Map<OidKeyV, u32>
    decreases entries.len(),
{
    if entries.len() == 0 {
        Map::empty()
    } else {
        listed(entries.drop_last()).insert(entries.last().0@, entries.last().1)
    }
}

impl View for OidCache {
    type V = Map<OidKeyV, u32>;

    closed spec fn view(&self) -> Map<OidKeyV, u32> {
        listed(self.entries@)
    }
}

/// A new last oid of an object takes the place of the one before it.
proof fn lemma_listed_update(
    entries: Seq<(OidCacheKey, u32)>,
    i: int,
    key: OidCacheKey,
    oid: u32,
)
    requires
        0 <= i < entries.len(),
        entries[i].0@ == key@,
        forall|j: int| i < j < entries.len() ==> (#[trigger] entries[j]).0@ != key@,
    ensures
        listed(entries.update(i, (key, oid))) == listed(entries).insert(key@, oid),
    decreases entries.len(),
{
    let rest = entries.drop_last();
    let new = entries.update(i, (key, oid));
    if i == entries.len() - 1 {
        assert(new.drop_last() == rest);
    } else {
        lemma_listed_update(rest, i, key, oid);
        assert(new.drop_last() == rest.update(i, (key, oid)));
        assert(entries[entries.len() - 1].0@ != key@);
    }
    assert(listed(new) =~= listed(entries).insert(key@, oid));
}

impl OidCache {
    /// No object is listed twice.
    #[verifier::type_invariant]
    spec fn well_formed(self) -> bool {
        forall|i: int, j: int|
            0 <= i < j < self.entries@.len() ==> (#[trigger] self.entries@[i]).0@ != (
            #[trigger] self.entries@[j]).0@
    }

    /// No oids.
    pub fn new() -> (r: OidCache)
        ensures
            r@ == Map::<OidKeyV, u32>::empty(),
    {
        OidCache { entries: Vec::new() }
    }

    /// The oid of an object.
    pub fn get(&self, key: &OidCacheKey) -> (r: Option<u32>)
        ensures
            match r {
                Some(oid) => self@.dom().contains(key@) && self@[key@] == oid,
                None => !self@.dom().contains(key@),
            },
    {
        let mut i: usize = self.entries.len();
        assert(self.entries@.take(i as int) == self.entries@);
        while i > 0
            invariant
                i <= self.entries@.len(),
                listed(self.entries@).dom().contains(key@) == listed(
                    self.entries@.take(i as int),
                ).dom().contains(key@),
                listed(self.entries@).dom().contains(key@) ==> listed(self.entries@)[key@]
                    == listed(self.entries@.take(i as int))[key@],
            decreases i,
        {
            i -= 1;
            assert(self.entries@.take(i + 1).drop_last() == self.entries@.take(i as int));
            if self.entries[i].0.same(key) {
                return Some(self.entries[i].1);
            }
        }
        None
    }

    /// Keeps the oid of an object, in place of any earlier one.
    pub fn insert(&mut self, key: OidCacheKey, oid: u32)
        ensures
            final(self)@ == old(self)@.insert(key@, oid),
    {
        proof {
            use_type_invariant(&*self);
        }
        let ghost before = self.entries@;
        let mut entries: Vec<(OidCacheKey, u32)> = Vec::new();
        std::mem::swap(&mut entries, &mut self.entries);
        let mut i: usize = 0;
        while i < entries.len() && !entries[i].0.same(&key)
            invariant
                i <= entries@.len(),
                entries@ == before,
                forall|j: int| 0 <= j < i ==> (#[trigger] before[j]).0@ != key@,
            decreases entries@.len() - i,
        {
            i += 1;
        }
        if i < entries.len() {
            proof {
                lemma_listed_update(before, i as int, key, oid);
            }
            entries.set(i, (key, oid));
        } else {
            entries.push((key, oid));
            assert(entries@.drop_last() == before);
        }
        self.entries = entries;
    }
}

/// The oid of an object, where the counter stands at `next`: the one that it always
/// has, or else the one that it was given before, or else the next one.
pub open spec fn resolved(key: OidKeyV, cache: Map<OidKeyV, u32>, next: u32) -> u32 {
    match fixed(key) {
        Some(oid) => oid,
        None => if cache.dom().contains(key) {
            cache[key]
        } else {
            next
        },
    }
}

/// Where the counter stands after the oid of an object was asked for.
pub open spec fn next_after(key: OidKeyV, cache: Map<OidKeyV, u32>, next: u32) -> u32 {
    if fixed(key) is None && !cache.dom().contains(key) {
        successor(next)
    } else {
        next
    }
}

/// The oid of an object.
pub fn resolve_oid(key: &OidCacheKey, oid_cache: &OidCache, oid_counter: &mut OidCounter) -> (r:
    u32)
    ensures
        r == resolved(key@, oid_cache@, old(oid_counter).next),
        final(oid_counter).next == next_after(key@, oid_cache@, old(oid_counter).next),
{
    if let Some(oid) = fixed_oid(key) {
        oid
    } else if let Some(oid) = oid_cache.get(key) {
        oid
    } else {
        oid_counter.allocate()
    }
}

/// The `pg_catalog` namespace has its oid in every catalog, whatever was given out
/// before, and asking for it gives none out.
pub proof fn law_pg_catalog_namespace(catalog: Seq<char>, cache: Map<OidKeyV, u32>, next: u32)
    ensures
        resolved(OidKeyV::Schema(catalog, "pg_catalog"@), cache, next) == 11,
        next_after(OidKeyV::Schema(catalog, "pg_catalog"@), cache, next) == next,
{
}

/// Once an object has been given an oid, it keeps it, whatever oids other objects are
/// given in between.
pub proof fn law_oid_is_stable(
    key: OidKeyV,
    cache: Map<OidKeyV, u32>,
    next: u32,
    others: Seq<(OidKeyV, u32)>,
    later: u32,
)
    requires
        forall|i: int| 0 <= i < others.len() ==> (#[trigger] others[i]).0 != key,
    ensures
        ({
            let oid = resolved(key, cache, next);
            let known = with_oids(cache.insert(key, oid), others);
            &&& resolved(key, known, later) == oid
            &&& next_after(key, known, later) == later
        }),
    decreases others.len(),
{
    let oid = resolved(key, cache, next);
    lemma_with_oids(cache.insert(key, oid), others, key);
}

/// Oids with more oids, one after the other.
pub open spec fn with_oids(cache: Map<OidKeyV, u32>, more: Seq<(OidKeyV, u32)>) -> Map<
    OidKeyV,
    u32,
>
    decreases more.len(),
{
    if more.len() == 0 {
        cache
    } else {
        with_oids(cache, more.drop_last()).insert(more.last().0, more.last().1)
    }
}

proof fn lemma_with_oids(cache: Map<OidKeyV, u32>, more: Seq<(OidKeyV, u32)>, key: OidKeyV)
    requires
        cache.dom().contains(key),
        forall|i: int| 0 <= i < more.len() ==> (#[trigger] more[i]).0 != key,
    ensures
        with_oids(cache, more).dom().contains(key),
        with_oids(cache, more)[key] == cache[key],
    decreases more.len(),
{
    if more.len() > 0 {
        assert forall|i: int| 0 <= i < more.drop_last().len() implies (#[trigger] more.drop_last()[i]).0
            != key by {
            assert(more[i].0 != key);
        }
        lemma_with_oids(cache, more.drop_last(), key);
        assert(more[more.len() - 1].0 != key);
    }
}

/// A fixed oid is below every oid that the counter gives out before it wraps, so that
/// no two objects share it.
pub proof fn law_fixed_oid_is_not_given_out(
    key: OidKeyV,
    other: OidKeyV,
    cache: Map<OidKeyV, u32>,
    next: u32,
)
    requires
        fixed(key) is Some,
        fixed(other) is None,
        next >= FIRST_DYNAMIC_OID,
        forall|k: OidKeyV| #[trigger] cache.dom().contains(k) && fixed(k) is None ==> cache[k]
            >= FIRST_DYNAMIC_OID,
    ensures
        resolved(other, cache, next) != resolved(key, cache, next),
        resolved(other, cache, next) >= FIRST_DYNAMIC_OID,
{
}

/// What holds of the oids of a session before the counter wraps: each that was given
/// out is below the counter, and no two objects without fixed oids share one.
pub open spec fn well_assigned(cache: Map<OidKeyV, u32>, next: u32) -> bool {
    &&& next >= FIRST_DYNAMIC_OID
    &&& forall|k: OidKeyV| #[trigger] cache.dom().contains(k) && fixed(k) is None ==>
        FIRST_DYNAMIC_OID <= cache[k] < next
    &&& forall|k: OidKeyV, l: OidKeyV|
        #![trigger cache[k], cache[l]]
        cache.dom().contains(k) && cache.dom().contains(l) && fixed(k) is None && fixed(l) is None
            && k != l ==> cache[k] != cache[l]
}

/// Asking for the oid of an object and keeping it leaves the oids of a session well
/// assigned, up to the greatest oid.
pub proof fn law_assignment_keeps_oids_apart(key: OidKeyV, cache: Map<OidKeyV, u32>, next: u32)
    requires
        well_assigned(cache, next),
        next < u32::MAX,
    ensures
        well_assigned(
            cache.insert(key, resolved(key, cache, next)),
            next_after(key, cache, next),
        ),
{
    let oid = resolved(key, cache, next);
    let after = cache.insert(key, oid);
    let later = next_after(key, cache, next);
    assert forall|k: OidKeyV| #[trigger] after.dom().contains(k) && fixed(k) is None implies
        FIRST_DYNAMIC_OID <= after[k] < later by {
        if k != key {
            assert(cache.dom().contains(k));
        } else {
            assert(cache.dom().contains(key) || oid == next);
        }
    }
    assert forall|k: OidKeyV, l: OidKeyV|
        #![trigger after[k], after[l]]
        after.dom().contains(k) && after.dom().contains(l) && fixed(k) is None && fixed(l) is None
            && k != l implies after[k] != after[l] by {
        if k != key && l != key {
            assert(cache[k] != cache[l]);
        } else {
            let other = if k == key {
                l
            } else {
                k
            };
            assert(cache.dom().contains(other) && cache[other] < next);
            if cache.dom().contains(key) {
                assert(cache[other] != cache[key]);
            }
        }
    }
}

} // verus!
