//! Per-connection type cache.
//!
//! Two append-only mappings owned by one connection: type id to resolved
//! descriptor, and type name to type id. Entries are never removed or
//! mutated once inserted; the cache lives exactly as long as its connection
//! and is never shared. Append-only growth is what makes repeated
//! resolution stable: once an id is cached, every later lookup returns a
//! structurally identical descriptor.

use vstd::prelude::*;

use crate::types::TypeDescriptor;

verus! {

/// One cached id-to-descriptor binding.
pub struct CacheEntry {
    pub oid: u32,
    pub descriptor: TypeDescriptor,
}

/// One cached name-to-id binding.
pub struct NameEntry {
    pub name: String,
    pub oid: u32,
}

/// The two append-only mappings of one connection.
pub struct TypeCache {
    pub info: Vec<CacheEntry>,
    pub oids: Vec<NameEntry>,
}

/// First (and, as entries are never superseded, only authoritative)
/// descriptor bound to a type id.
pub open spec fn lookup_info(s: Seq<CacheEntry>, oid: u32) -> Option<TypeDescriptor>
    decreases s.len(),
{
    if s.len() == 0 {
        None
    } else if s[0].oid == oid {
        Some(s[0].descriptor)
    } else {
        lookup_info(s.drop_first(), oid)
    }
}

/// First id bound to a type name.
pub open spec fn lookup_oid(s: Seq<NameEntry>, name: Seq<char>) -> Option<u32>
    decreases s.len(),
{
    if s.len() == 0 {
        None
    } else if s[0].name@ == name {
        Some(s[0].oid)
    } else {
        lookup_oid(s.drop_first(), name)
    }
}

/// Appending never disturbs an existing binding: what was cached stays
/// cached, unchanged. A fresh id becomes visible exactly as inserted.
pub proof fn lemma_lookup_info_push(s: Seq<CacheEntry>, e: CacheEntry, oid: u32)
    ensures
        lookup_info(s.push(e), oid) == if lookup_info(s, oid) is Some {
            lookup_info(s, oid)
        } else if e.oid == oid {
            Some(e.descriptor)
        } else {
            None::<TypeDescriptor>
        },
    decreases s.len(),
{
    reveal_with_fuel(lookup_info, 3);
    if s.len() == 0 {
        assert(s.push(e).drop_first() =~= Seq::<CacheEntry>::empty());
    } else {
        assert(s.push(e).drop_first() =~= s.drop_first().push(e));
        lemma_lookup_info_push(s.drop_first(), e, oid);
    }
}

/// The name mapping grows the same way: append-only, earlier bindings win.
pub proof fn lemma_lookup_oid_push(s: Seq<NameEntry>, e: NameEntry, name: Seq<char>)
    ensures
        lookup_oid(s.push(e), name) == if lookup_oid(s, name) is Some {
            lookup_oid(s, name)
        } else if e.name@ == name {
            Some(e.oid)
        } else {
            None::<u32>
        },
    decreases s.len(),
{
    reveal_with_fuel(lookup_oid, 3);
    if s.len() == 0 {
        assert(s.push(e).drop_first() =~= Seq::<NameEntry>::empty());
    } else {
        assert(s.push(e).drop_first() =~= s.drop_first().push(e));
        lemma_lookup_oid_push(s.drop_first(), e, name);
    }
}

proof fn lemma_lookup_info_skip(s: Seq<CacheEntry>, oid: u32, i: int)
    requires
        0 <= i <= s.len(),
        forall|j: int| 0 <= j < i ==> s[j].oid != oid,
    ensures
        lookup_info(s, oid) == lookup_info(s.subrange(i, s.len() as int), oid),
    decreases i,
{
    if i > 0 {
        lemma_lookup_info_skip(s.drop_first(), oid, i - 1);
        assert(s.drop_first().subrange(i - 1, s.drop_first().len() as int) =~= s.subrange(
            i,
            s.len() as int,
        ));
    } else {
        assert(s.subrange(0, s.len() as int) =~= s);
    }
}

proof fn lemma_lookup_oid_skip(s: Seq<NameEntry>, name: Seq<char>, i: int)
    requires
        0 <= i <= s.len(),
        forall|j: int| 0 <= j < i ==> s[j].name@ != name,
    ensures
        lookup_oid(s, name) == lookup_oid(s.subrange(i, s.len() as int), name),
    decreases i,
{
    if i > 0 {
        lemma_lookup_oid_skip(s.drop_first(), name, i - 1);
        assert(s.drop_first().subrange(i - 1, s.drop_first().len() as int) =~= s.subrange(
            i,
            s.len() as int,
        ));
    } else {
        assert(s.subrange(0, s.len() as int) =~= s);
    }
}

impl TypeCache {
    /// A cold cache: how every connection starts.
    pub fn new() -> (r: TypeCache)
        ensures
            r.info@ =~= Seq::<CacheEntry>::empty(),
            r.oids@ =~= Seq::<NameEntry>::empty(),
    {
        TypeCache { info: Vec::new(), oids: Vec::new() }
    }

    /// Cached descriptor for a type id, structurally identical to what was
    /// inserted.
    pub fn get_info(&self, oid: u32) -> (r: Option<TypeDescriptor>)
        ensures
            r is Some <==> lookup_info(self.info@, oid) is Some,
            r is Some ==> {
                &&& r->0.model() == lookup_info(self.info@, oid)->0.model()
                &&& r->0.spec_oid() == lookup_info(self.info@, oid)->0.spec_oid()
                &&& r->0.spec_name() == lookup_info(self.info@, oid)->0.spec_name()
            },
    {
        let n = self.info.len();
        let mut i: usize = 0;
        while i < n
            invariant
                n == self.info@.len(),
                i <= n,
                forall|j: int| 0 <= j < i ==> self.info@[j].oid != oid,
            decreases n - i,
        {
            if self.info[i].oid == oid {
                proof {
                    lemma_lookup_info_skip(self.info@, oid, i as int);
                    assert(self.info@.subrange(i as int, n as int)[0] == self.info@[i as int]);
                }
                return Some(self.info[i].descriptor.deep_clone());
            }
            i = i + 1;
        }
        proof {
            lemma_lookup_info_skip(self.info@, oid, n as int);
            assert(self.info@.subrange(n as int, n as int) =~= Seq::<CacheEntry>::empty());
        }
        None
    }

    /// Cached id for a type name (exact match; the name is cached as it was
    /// queried).
    pub fn get_oid(&self, name: &String) -> (r: Option<u32>)
        ensures
            r == lookup_oid(self.oids@, name@),
    {
        let n = self.oids.len();
        let mut i: usize = 0;
        while i < n
            invariant
                n == self.oids@.len(),
                i <= n,
                forall|j: int| 0 <= j < i ==> self.oids@[j].name@ != name@,
            decreases n - i,
        {
            if self.oids[i].name.eq(name) {
                proof {
                    lemma_lookup_oid_skip(self.oids@, name@, i as int);
                    assert(self.oids@.subrange(i as int, n as int)[0] == self.oids@[i as int]);
                }
                return Some(self.oids[i].oid);
            }
            i = i + 1;
        }
        proof {
            lemma_lookup_oid_skip(self.oids@, name@, n as int);
            assert(self.oids@.subrange(n as int, n as int) =~= Seq::<NameEntry>::empty());
        }
        None
    }

    /// Appends an id-to-descriptor binding; existing entries are untouched.
    pub fn insert_info(&mut self, oid: u32, descriptor: TypeDescriptor)
        ensures
            final(self).info@ =~= old(self).info@.push(CacheEntry { oid, descriptor }),
            final(self).oids@ == old(self).oids@,
    {
        self.info.push(CacheEntry { oid, descriptor });
    }

    /// Appends a name-to-id binding; existing entries are untouched.
    pub fn insert_oid(&mut self, name: String, oid: u32)
        ensures
            final(self).oids@ =~= old(self).oids@.push(NameEntry { name, oid }),
            final(self).info@ == old(self).info@,
    {
        self.oids.push(NameEntry { name, oid });
    }
}

} // verus!
