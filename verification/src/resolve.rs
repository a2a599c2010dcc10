//! Recursive, cached type resolution.
//!
//! `maybe_fetch_type_info_by_oid` maps an opaque type id to a fully
//! expanded descriptor: builtin table first (no catalog work), then the
//! per-connection cache, then — only if fetching is permitted — catalog
//! rows, recursing into element, subtype and field types. Nested
//! resolutions always fetch, whatever the caller's own setting, because a
//! partially expanded composite, array or range is not a valid result.
//!
//! Resolution of a self-referential type definition is cut off by an
//! in-progress set and surfaces as a type-resolution error instead of
//! recursing forever.

use vstd::prelude::*;
use vstd::string::StringSliceAdditionalSpecFns;

use crate::cache::{lemma_lookup_info_push, lookup_info, lookup_oid, CacheEntry, TypeCache};
use crate::catalog::{
    find_range, find_type, find_type_ci, spec_attrs, spec_enum_labels, AttrRow, Catalog,
    TypeRow,
};
use crate::describe::ColumnDescriptor;
use crate::describe::NameIndexEntry;
use crate::error::Error;
use crate::types::{
    is_builtin, labels_model, try_builtin, CompositeField, CustomType, DescModel, FieldModel,
    KindModel, TypeDescriptor, TypeKind,
};

verus! {

broadcast use vstd::std_specs::vec::group_vec_axioms;

/// One connection's resolution state: the append-only type cache, the
/// published column snapshot of the current statement, and a ghost count of
/// catalog round trips performed over the connection's lifetime.
pub struct Connection {
    pub cache: TypeCache,
    /// Number of catalog round trips performed; ghost, stated so that the
    /// round-trip behaviour of resolution is part of its contract.
    pub fetches: Ghost<int>,
    /// Published column snapshot of the most recent statement description.
    pub row_columns: Vec<ColumnDescriptor>,
    /// Published name-to-ordinal index over `row_columns`; later wins.
    pub row_column_names: Vec<NameIndexEntry>,
}

/// The set of type ids the catalog snapshot has rows for.
pub open spec fn catalog_oids(cat: Catalog) -> Set<u32> {
    cat.types@.map_values(|r: TypeRow| r.oid).to_set()
}

/// Resolution fuel: catalog types not yet on the in-progress path.
pub open spec fn remaining(cat: Catalog, visiting: Seq<u32>) -> nat {
    catalog_oids(cat).difference(visiting.to_set()).len()
}

/// The type id a descriptor model stands for.
pub open spec fn model_oid(m: DescModel) -> u32 {
    match m {
        DescModel::Builtin(oid) => oid,
        DescModel::Custom { oid, .. } => oid,
        DescModel::Unresolved(oid) => oid,
    }
}

/// A descriptor model is fully resolved against a catalog snapshot: no
/// deferred placeholder anywhere, every level consistent with the catalog
/// row it came from, enum variants in catalog sort order, composite fields
/// exactly the relation's live attributes in attribute-number order.
pub open spec fn wf_resolved(cat: Catalog, m: DescModel) -> bool
    decreases m,
{
    match m {
        DescModel::Builtin(oid) => is_builtin(oid),
        DescModel::Unresolved(_) => false,
        DescModel::Custom { oid, name, kind } => {
            &&& !is_builtin(oid)
            &&& find_type(cat.types@, oid) is Some
            &&& {
                let row = find_type(cat.types@, oid)->0;
                &&& name == row.name@
                &&& match kind {
                    KindModel::Simple => !(row.category == 65 || row.category == 80
                        || row.category == 82 || row.category == 69 || row.category == 67),
                    KindModel::Pseudo => row.category == 80,
                    KindModel::Array(el) => {
                        &&& row.category == 65
                        &&& model_oid(*el) == row.element
                        &&& wf_resolved(cat, *el)
                    },
                    KindModel::Range(el) => {
                        &&& row.category == 82
                        &&& find_range(cat.ranges@, oid) is Some
                        &&& model_oid(*el) == find_range(cat.ranges@, oid)->0.subtype
                        &&& wf_resolved(cat, *el)
                    },
                    KindModel::Enum(labels) => {
                        &&& row.category == 69
                        &&& labels == spec_enum_labels(cat.enums@, oid)
                    },
                    KindModel::Composite(fs) => {
                        &&& row.category == 67
                        &&& wf_fields(cat, spec_attrs(cat.attrs@, row.relation_id), fs)
                    },
                }
            }
        },
    }
}

/// Composite fields match the relation's attribute rows one for one: same
/// name, the attribute's type id, and a fully resolved descriptor.
pub open spec fn wf_fields(cat: Catalog, atts: Seq<AttrRow>, fs: Seq<FieldModel>) -> bool
    decreases fs,
{
    if fs.len() != atts.len() {
        false
    } else if fs.len() == 0 {
        true
    } else {
        &&& fs[0].name == atts[0].name@
        &&& model_oid(fs[0].descriptor) == atts[0].type_oid
        &&& wf_resolved(cat, fs[0].descriptor)
        &&& wf_fields(cat, atts.drop_first(), fs.drop_first())
    }
}

/// Every cached descriptor is fully resolved against the catalog and filed
/// under its own type id.
pub open spec fn cache_wf(c: TypeCache, cat: Catalog) -> bool {
    forall|i: int|
        0 <= i < c.info@.len() ==> {
            &&& wf_resolved(cat, #[trigger] c.info@[i].descriptor.model())
            &&& c.info@[i].descriptor.spec_oid() == c.info@[i].oid
        }
}

/// The cache only ever grows: the prior entries stand unchanged, in place.
pub open spec fn cache_extends(new: TypeCache, prior: TypeCache) -> bool {
    prior.info@.is_prefix_of(new.info@) && prior.oids@.is_prefix_of(new.oids@)
}

/// The published column snapshot is untouched.
pub open spec fn columns_unchanged(a: Connection, b: Connection) -> bool {
    a.row_columns@ == b.row_columns@ && a.row_column_names@ == b.row_column_names@
}

/// The connection is observationally unchanged: same cache content, same
/// snapshot, and — the round-trip claims rest on this — same fetch count.
pub open spec fn same_conn(a: Connection, b: Connection) -> bool {
    &&& a.cache.info@ == b.cache.info@
    &&& a.cache.oids@ == b.cache.oids@
    &&& a.fetches@ == b.fetches@
    &&& columns_unchanged(a, b)
}

/// Single-character category codes that require a further catalog fetch.
pub open spec fn special_category(c: u8) -> bool {
    c == 65 || c == 82 || c == 69 || c == 67
}

/// Pushing a fresh, catalogued id onto the in-progress path shrinks the
/// resolution fuel.
pub proof fn lemma_remaining_decreases(cat: Catalog, visiting: Seq<u32>, oid: u32)
    requires
        find_type(cat.types@, oid) is Some,
        !visiting.contains(oid),
    ensures
        remaining(cat, visiting.push(oid)) < remaining(cat, visiting),
{
    lemma_find_type_exists(cat.types@, oid);
    let w = choose|i: int| 0 <= i < cat.types@.len() && cat.types@[i].oid == oid;
    assert(cat.types@.map_values(|t: TypeRow| t.oid)[w] == oid);
    assert(cat.types@.map_values(|t: TypeRow| t.oid).contains(oid));
    vstd::seq_lib::seq_to_set_is_finite::<u32>(cat.types@.map_values(|t: TypeRow| t.oid));
    assert(!visiting.to_set().contains(oid));
    catalog_oids(cat).lemma_set_insert_diff_decreases(visiting.to_set(), oid);
    visiting.lemma_push_to_set_commute(oid);
    assert(visiting.push(oid).to_set() =~= visiting.to_set().insert(oid));
}

/// Whether resolving an id from the given in-progress path can succeed:
/// builtins always; otherwise the catalog must hold the id's row off the
/// path, and every id its expansion recurses into must be resolvable in
/// turn. This is exactly the condition under which the resolver owes
/// success, and its negation is exactly when the resolver errs.
pub open spec fn resolvable(cat: Catalog, visiting: Seq<u32>, oid: u32) -> bool
    decreases remaining(cat, visiting), 0int, 0int,
{
    if is_builtin(oid) {
        true
    } else if visiting.contains(oid) {
        false
    } else {
        match find_type(cat.types@, oid) {
            None => false,
            Some(row) => {
                if row.category == 65 {
                    proof {
                        lemma_remaining_decreases(cat, visiting, oid);
                    }
                    resolvable(cat, visiting.push(oid), row.element)
                } else if row.category == 82 {
                    match find_range(cat.ranges@, oid) {
                        None => false,
                        Some(rr) => {
                            proof {
                                lemma_remaining_decreases(cat, visiting, oid);
                            }
                            resolvable(cat, visiting.push(oid), rr.subtype)
                        },
                    }
                } else if row.category == 67 {
                    proof {
                        lemma_remaining_decreases(cat, visiting, oid);
                    }
                    attrs_resolvable(
                        cat,
                        visiting.push(oid),
                        spec_attrs(cat.attrs@, row.relation_id),
                    )
                } else {
                    true
                }
            },
        }
    }
}

/// Every attribute's type is resolvable from the given path.
pub open spec fn attrs_resolvable(cat: Catalog, visiting: Seq<u32>, atts: Seq<AttrRow>) -> bool
    decreases remaining(cat, visiting), 1int, atts.len(),
{
    if atts.len() == 0 {
        true
    } else {
        resolvable(cat, visiting, atts[0].type_oid) && attrs_resolvable(
            cat,
            visiting,
            atts.drop_first(),
        )
    }
}

/// An attribute list is resolvable exactly when each attribute's type is.
pub proof fn lemma_attrs_resolvable_index(cat: Catalog, visiting: Seq<u32>, atts: Seq<AttrRow>)
    ensures
        attrs_resolvable(cat, visiting, atts) <==> forall|i: int|
            0 <= i < atts.len() ==> resolvable(cat, visiting, atts[i].type_oid),
    decreases atts.len(),
{
    if atts.len() > 0 {
        lemma_attrs_resolvable_index(cat, visiting, atts.drop_first());
        assert(forall|i: int| 1 <= i < atts.len() ==> atts.drop_first()[i - 1] == atts[i]);
        if forall|i: int| 0 <= i < atts.len() ==> resolvable(cat, visiting, atts[i].type_oid) {
            assert(resolvable(cat, visiting, atts[0].type_oid));
            assert(forall|i: int|
                0 <= i < atts.drop_first().len() ==> resolvable(
                    cat,
                    visiting,
                    atts.drop_first()[i].type_oid,
                ));
        }
    }
}

/// A model's id is the descriptor's id.
pub proof fn lemma_model_oid(d: TypeDescriptor)
    ensures
        model_oid(d.model()) == d.spec_oid(),
{
}

/// A first-match hit means some row carries the id.
proof fn lemma_find_type_exists(s: Seq<TypeRow>, oid: u32)
    requires
        find_type(s, oid) is Some,
    ensures
        exists|i: int| 0 <= i < s.len() && s[i].oid == oid,
    decreases s.len(),
{
    if s.len() > 0 && s[0].oid != oid {
        lemma_find_type_exists(s.drop_first(), oid);
        let i = choose|i: int| 0 <= i < s.drop_first().len() && s.drop_first()[i].oid == oid;
        assert(s[i + 1].oid == oid);
    }
}

/// What the cache hands back is covered by the cache invariant.
proof fn lemma_lookup_info_wf(s: Seq<CacheEntry>, cat: Catalog, oid: u32)
    requires
        forall|i: int|
            0 <= i < s.len() ==> {
                &&& wf_resolved(cat, #[trigger] s[i].descriptor.model())
                &&& s[i].descriptor.spec_oid() == s[i].oid
            },
        lookup_info(s, oid) is Some,
    ensures
        wf_resolved(cat, lookup_info(s, oid)->0.model()),
        lookup_info(s, oid)->0.spec_oid() == oid,
    decreases s.len(),
{
    if s.len() > 0 && s[0].oid != oid {
        assert(forall|i: int|
            0 <= i < s.drop_first().len() ==> s.drop_first()[i] == s[i + 1]);
        lemma_lookup_info_wf(s.drop_first(), cat, oid);
    }
}

/// A cached resolution is stable: once a descriptor is filed for an id,
/// any later state of the (append-only) cache answers that id with the
/// very same entry. Together with the resolver's contract — a cache hit
/// costs no catalog round trip and returns the cached structure — this is
/// why resolving one id twice on a connection fetches its rows only once
/// and yields structurally identical descriptors.
pub proof fn lemma_cached_resolution_stable(prior: TypeCache, later: TypeCache, oid: u32)
    requires
        cache_extends(later, prior),
        lookup_info(prior.info@, oid) is Some,
    ensures
        lookup_info(later.info@, oid) == lookup_info(prior.info@, oid),
{
    lemma_lookup_prefix(prior.info@, later.info@, oid);
}

proof fn lemma_lookup_prefix(s: Seq<CacheEntry>, t: Seq<CacheEntry>, oid: u32)
    requires
        s.is_prefix_of(t),
        lookup_info(s, oid) is Some,
    ensures
        lookup_info(t, oid) == lookup_info(s, oid),
    decreases s.len(),
{
    assert(s[0] == t[0]);
    if s[0].oid != oid {
        assert(s.drop_first().is_prefix_of(t.drop_first())) by {
            assert(s.drop_first() =~= t.drop_first().subrange(0, s.len() - 1));
        }
        lemma_lookup_prefix(s.drop_first(), t.drop_first(), oid);
    }
}

/// Prefix extension is transitive.
pub proof fn lemma_extends_trans(a: TypeCache, b: TypeCache, c: TypeCache)
    requires
        cache_extends(a, b),
        cache_extends(b, c),
    ensures
        cache_extends(a, c),
{
    assert(c.info@ =~= a.info@.subrange(0, c.info@.len() as int));
    assert(c.oids@ =~= a.oids@.subrange(0, c.oids@.len() as int));
}

/// Field lists stay well-formed when both sides grow by one matching pair.
proof fn lemma_wf_fields_push(
    cat: Catalog,
    atts: Seq<AttrRow>,
    fs: Seq<FieldModel>,
    att: AttrRow,
    f: FieldModel,
)
    requires
        wf_fields(cat, atts, fs),
        f.name == att.name@,
        model_oid(f.descriptor) == att.type_oid,
        wf_resolved(cat, f.descriptor),
    ensures
        wf_fields(cat, atts.push(att), fs.push(f)),
    decreases fs.len(),
{
    reveal_with_fuel(wf_fields, 3);
    if fs.len() == 0 {
        assert(fs.push(f).drop_first() =~= Seq::<FieldModel>::empty());
        assert(atts.push(att).drop_first() =~= Seq::<AttrRow>::empty());
    } else {
        lemma_wf_fields_push(cat, atts.drop_first(), fs.drop_first(), att, f);
        assert(fs.push(f).drop_first() =~= fs.drop_first().push(f));
        assert(atts.push(att).drop_first() =~= atts.drop_first().push(att));
    }
}

/// Membership test on the in-progress path.
fn vec_contains_u32(v: &Vec<u32>, x: u32) -> (r: bool)
    ensures
        r == v@.contains(x),
{
    let n = v.len();
    let mut i: usize = 0;
    while i < n
        invariant
            n == v@.len(),
            i <= n,
            forall|j: int| 0 <= j < i ==> v@[j] != x,
        decreases n - i,
    {
        if v[i] == x {
            return true;
        }
        i = i + 1;
    }
    false
}

/// A copy of the in-progress path with one more id on it.
fn push_copy(v: &Vec<u32>, x: u32) -> (r: Vec<u32>)
    ensures
        r@ =~= v@.push(x),
{
    let mut out: Vec<u32> = Vec::new();
    let n = v.len();
    let mut i: usize = 0;
    while i < n
        invariant
            n == v@.len(),
            i <= n,
            out@ =~= v@.subrange(0, i as int),
        decreases n - i,
    {
        out.push(v[i]);
        i = i + 1;
    }
    proof {
        assert(v@.subrange(0, n as int) =~= v@);
    }
    out.push(x);
    out
}

impl Connection {
    /// A fresh connection: cold cache, no snapshot, no round trips yet.
    pub fn new() -> (r: Connection)
        ensures
            r.cache.info@ =~= Seq::<CacheEntry>::empty(),
            r.cache.oids@.len() == 0,
            r.fetches@ == 0,
            r.row_columns@.len() == 0,
            r.row_column_names@.len() == 0,
    {
        Connection {
            cache: TypeCache::new(),
            fetches: Ghost(0),
            row_columns: Vec::new(),
            row_column_names: Vec::new(),
        }
    }

    /// Number of catalog round trips performed so far (ghost).
    pub open spec fn round_trips(self) -> int {
        self.fetches@
    }
}

} // verus!

verus! {

impl Connection {
    /// Expands an enum type: one catalog round trip for the variant labels,
    /// ordered by the catalog's explicit sort key.
    pub fn fetch_enum_by_oid(&mut self, cat: &Catalog, oid: u32, name: String) -> (r:
        TypeDescriptor)
        requires
            !is_builtin(oid),
            find_type(cat.types@, oid) is Some,
            find_type(cat.types@, oid)->0.category == 69,
            name@ == find_type(cat.types@, oid)->0.name@,
        ensures
            wf_resolved(*cat, r.model()),
            r.spec_oid() == oid,
            final(self).cache.info@ == old(self).cache.info@,
            final(self).cache.oids@ == old(self).cache.oids@,
            columns_unchanged(*final(self), *old(self)),
            final(self).fetches@ == old(self).fetches@ + 1,
    {
        let labels = cat.fetch_enum_labels(oid);
        self.fetches = Ghost(self.fetches@ + 1);
        let desc = TypeDescriptor::Custom(
            Box::new(CustomType { oid, name, kind: TypeKind::Enum(labels) }),
        );
        proof {
            assert(labels_model(labels@) =~= spec_enum_labels(cat.enums@, oid));
        }
        desc
    }
}

} // verus!

verus! {

impl Connection {
    /// Resolves a type id to a fully expanded descriptor.
    ///
    /// Resolution order: builtin table (no catalog work), connection cache
    /// (no catalog work), then — only when `should_fetch` holds — catalog
    /// rows. With fetching forbidden the result is the `Unresolved`
    /// placeholder, never an error. Every successful fetch is cached before
    /// returning, so resolving the same id again costs no further round
    /// trips and yields a structurally identical descriptor.
    ///
    /// `visiting` is the in-progress path of the current top-level
    /// resolution; re-entering an id on it is a type-resolution error
    /// rather than unbounded recursion. Top-level callers pass an empty
    /// path.
    pub fn maybe_fetch_type_info_by_oid(
        &mut self,
        cat: &Catalog,
        oid: u32,
        should_fetch: bool,
        visiting: &Vec<u32>,
    ) -> (r: Result<TypeDescriptor, Error>)
        requires
            cache_wf(old(self).cache, *cat),
        ensures
            cache_wf(final(self).cache, *cat),
            cache_extends(final(self).cache, old(self).cache),
            columns_unchanged(*final(self), *old(self)),
            final(self).fetches@ >= old(self).fetches@,
            r is Ok ==> r->Ok_0.spec_oid() == oid,
            r is Ok && should_fetch ==> wf_resolved(*cat, r->Ok_0.model()),
            is_builtin(oid) ==> r == Ok::<TypeDescriptor, Error>(TypeDescriptor::Builtin(oid))
                && same_conn(*final(self), *old(self)),
            !is_builtin(oid) && lookup_info(old(self).cache.info@, oid) is Some ==> {
                &&& r is Ok
                &&& r->Ok_0.model() == lookup_info(old(self).cache.info@, oid)->0.model()
                &&& same_conn(*final(self), *old(self))
            },
            !is_builtin(oid) && lookup_info(old(self).cache.info@, oid) is None && !should_fetch
                ==> r == Ok::<TypeDescriptor, Error>(TypeDescriptor::Unresolved(oid))
                && same_conn(*final(self), *old(self)),
            r is Err ==> should_fetch && !is_builtin(oid) && lookup_info(
                old(self).cache.info@,
                oid,
            ) is None,
            !is_builtin(oid) && lookup_info(old(self).cache.info@, oid) is None && should_fetch
                && visiting@.contains(oid) ==> r == Err::<TypeDescriptor, Error>(
                Error::TypeCycle(oid),
            ) && same_conn(*final(self), *old(self)),
            !is_builtin(oid) && lookup_info(old(self).cache.info@, oid) is None && should_fetch
                && !visiting@.contains(oid) && find_type(cat.types@, oid) is None ==> r
                == Err::<TypeDescriptor, Error>(Error::TypeNotFound(oid)) && final(self).fetches@
                == old(self).fetches@ + 1,
            !is_builtin(oid) && lookup_info(old(self).cache.info@, oid) is None && should_fetch
                && !visiting@.contains(oid) && find_type(cat.types@, oid) is Some && !special_category(
                find_type(cat.types@, oid)->0.category,
            ) ==> r is Ok && final(self).fetches@ == old(self).fetches@ + 1,
            !is_builtin(oid) && lookup_info(old(self).cache.info@, oid) is None && should_fetch
                && !visiting@.contains(oid) && find_type(cat.types@, oid) is Some && find_type(
                cat.types@,
                oid,
            )->0.category == 69 ==> r is Ok && final(self).fetches@ == old(self).fetches@ + 2,
            !is_builtin(oid) && lookup_info(old(self).cache.info@, oid) is None && should_fetch
                && !visiting@.contains(oid) && (find_type(cat.types@, oid) matches Some(row)
                && row.category == 65 && (is_builtin(row.element) || lookup_info(
                old(self).cache.info@,
                row.element,
            ) is Some)) ==> r is Ok && final(self).fetches@ == old(self).fetches@ + 1,
            !is_builtin(oid) && lookup_info(old(self).cache.info@, oid) is None && should_fetch
                && !visiting@.contains(oid) && (find_type(cat.types@, oid) matches Some(row)
                && row.category == 82 && (find_range(cat.ranges@, oid) matches Some(rr) && (
                is_builtin(rr.subtype) || lookup_info(
                    old(self).cache.info@,
                    rr.subtype,
                ) is Some))) ==> r is Ok && final(self).fetches@ == old(self).fetches@ + 2,
            !is_builtin(oid) && lookup_info(old(self).cache.info@, oid) is None && should_fetch
                && !visiting@.contains(oid) && (find_type(cat.types@, oid) matches Some(row)
                && row.category == 67 && (forall|i: int|
                0 <= i < spec_attrs(cat.attrs@, row.relation_id).len() ==> is_builtin(
                    #[trigger] spec_attrs(cat.attrs@, row.relation_id)[i].type_oid,
                ) || lookup_info(
                    old(self).cache.info@,
                    spec_attrs(cat.attrs@, row.relation_id)[i].type_oid,
                ) is Some)) ==> r is Ok && final(self).fetches@ == old(self).fetches@ + 2,
            !is_builtin(oid) && lookup_info(old(self).cache.info@, oid) is None && should_fetch
                && r is Ok ==> {
                &&& lookup_info(final(self).cache.info@, oid) is Some
                &&& lookup_info(final(self).cache.info@, oid)->0.model() == r->Ok_0.model()
            },
            should_fetch && resolvable(*cat, visiting@, oid) ==> r is Ok,
            r is Err ==> !resolvable(*cat, visiting@, oid),
            !is_builtin(oid) && lookup_info(old(self).cache.info@, oid) is None && should_fetch
                && r is Ok ==> lookup_oid(
                final(self).cache.oids@,
                r->Ok_0.spec_name(),
            ) is Some,
            forall|o: u32|
                visiting@.contains(o) ==> lookup_info(final(self).cache.info@, o) == lookup_info(
                    old(self).cache.info@,
                    o,
                ),
        decreases remaining(*cat, visiting@), 1int,
    {
        if let Some(d) = try_builtin(oid) {
            return Ok(d);
        }
        if let Some(d) = self.cache.get_info(oid) {
            proof {
                lemma_lookup_info_wf(self.cache.info@, *cat, oid);
            }
            return Ok(d);
        }
        if !should_fetch {
            return Ok(TypeDescriptor::Unresolved(oid));
        }
        if vec_contains_u32(visiting, oid) {
            return Err(Error::TypeCycle(oid));
        }
        match self.fetch_type_by_oid(cat, oid, visiting) {
            Ok(desc) => {
                let copy = desc.deep_clone();
                let name = desc.display_name();
                let ghost nm = name@;
                let ghost before = self.cache.info@;
                let ghost oids_before = self.cache.oids@;
                self.cache.insert_info(oid, copy);
                self.cache.insert_oid(name, oid);
                proof {
                    let e2 = self.cache.oids@.last();
                    assert(self.cache.oids@ =~= oids_before.push(e2));
                    assert(e2.name@ == nm);
                    crate::cache::lemma_lookup_oid_push(oids_before, e2, nm);
                    let entry = CacheEntry { oid, descriptor: copy };
                    assert(self.cache.info@ =~= before.push(entry));
                    assert forall|i: int| 0 <= i < self.cache.info@.len() implies {
                        &&& wf_resolved(*cat, #[trigger] self.cache.info@[i].descriptor.model())
                        &&& self.cache.info@[i].descriptor.spec_oid() == self.cache.info@[i].oid
                    } by {
                        if i < before.len() {
                            assert(self.cache.info@[i] == before[i]);
                        } else {
                            assert(self.cache.info@[i] == entry);
                        }
                    }
                    lemma_lookup_info_push(before, entry, oid);
                    assert forall|o: u32| visiting@.contains(o) implies lookup_info(
                        self.cache.info@,
                        o,
                    ) == lookup_info(old(self).cache.info@, o) by {
                        lemma_lookup_info_push(before, entry, o);
                    }
                    assert(before =~= self.cache.info@.subrange(0, before.len() as int));
                    assert(old(self).cache.info@ =~= before.subrange(
                        0,
                        old(self).cache.info@.len() as int,
                    ));
                    assert(old(self).cache.info@ =~= self.cache.info@.subrange(
                        0,
                        old(self).cache.info@.len() as int,
                    ));
                    assert(old(self).cache.oids@ =~= self.cache.oids@.subrange(
                        0,
                        old(self).cache.oids@.len() as int,
                    ));
                }
                Ok(desc)
            },
            Err(e) => Err(e),
        }
    }

    /// Fetches one type row and dispatches on its category code: array,
    /// pseudo, range, enum, composite; any other code degrades to an opaque
    /// simple type rather than erroring.
    fn fetch_type_by_oid(&mut self, cat: &Catalog, oid: u32, visiting: &Vec<u32>) -> (r: Result<
        TypeDescriptor,
        Error,
    >)
        requires
            cache_wf(old(self).cache, *cat),
            !is_builtin(oid),
            !visiting@.contains(oid),
        ensures
            cache_wf(final(self).cache, *cat),
            cache_extends(final(self).cache, old(self).cache),
            columns_unchanged(*final(self), *old(self)),
            final(self).fetches@ >= old(self).fetches@ + 1,
            r is Ok ==> wf_resolved(*cat, r->Ok_0.model()) && r->Ok_0.spec_oid() == oid,
            find_type(cat.types@, oid) is None ==> r == Err::<TypeDescriptor, Error>(
                Error::TypeNotFound(oid),
            ) && final(self).fetches@ == old(self).fetches@ + 1 && same_cache(
                *final(self),
                *old(self),
            ),
            find_type(cat.types@, oid) is Some && !special_category(
                find_type(cat.types@, oid)->0.category,
            ) ==> r is Ok && final(self).fetches@ == old(self).fetches@ + 1 && same_cache(
                *final(self),
                *old(self),
            ),
            find_type(cat.types@, oid) is Some && find_type(cat.types@, oid)->0.category == 69
                ==> r is Ok && final(self).fetches@ == old(self).fetches@ + 2 && same_cache(
                *final(self),
                *old(self),
            ),
            resolvable(*cat, visiting@, oid) ==> r is Ok,
            r is Err ==> !resolvable(*cat, visiting@, oid),
            find_type(cat.types@, oid) matches Some(row) && row.category == 65 && (is_builtin(
                row.element,
            ) || lookup_info(old(self).cache.info@, row.element) is Some) ==> r is Ok && final(self).fetches@ == old(self).fetches@ + 1 && same_cache(*final(self), *old(self)),
            find_type(cat.types@, oid) matches Some(row) && row.category == 82 && (find_range(
                cat.ranges@,
                oid,
            ) matches Some(rr) && (is_builtin(rr.subtype) || lookup_info(
                old(self).cache.info@,
                rr.subtype,
            ) is Some)) ==> r is Ok && final(self).fetches@ == old(self).fetches@ + 2
                && same_cache(*final(self), *old(self)),
            find_type(cat.types@, oid) matches Some(row) && row.category == 67 && (forall|i: int|
                0 <= i < spec_attrs(cat.attrs@, row.relation_id).len() ==> is_builtin(
                    #[trigger] spec_attrs(cat.attrs@, row.relation_id)[i].type_oid,
                ) || lookup_info(
                    old(self).cache.info@,
                    spec_attrs(cat.attrs@, row.relation_id)[i].type_oid,
                ) is Some) ==> r is Ok && final(self).fetches@ == old(self).fetches@ + 2
                && same_cache(*final(self), *old(self)),
            forall|o: u32|
                visiting@.contains(o) || o == oid ==> lookup_info(final(self).cache.info@, o)
                    == lookup_info(old(self).cache.info@, o),
        decreases remaining(*cat, visiting@), 0int,
    {
        let row = match cat.lookup_type_row(oid) {
            Some(row) => {
                self.fetches = Ghost(self.fetches@ + 1);
                row
            },
            None => {
                self.fetches = Ghost(self.fetches@ + 1);
                return Err(Error::TypeNotFound(oid));
            },
        };
        let visiting2 = push_copy(visiting, oid);
        proof {
            lemma_find_type_exists(cat.types@, oid);
            let w = choose|i: int| 0 <= i < cat.types@.len() && cat.types@[i].oid == oid;
            assert(cat.types@.map_values(|t: TypeRow| t.oid)[w] == oid);
            assert(cat.types@.map_values(|t: TypeRow| t.oid).contains(oid));
            vstd::seq_lib::seq_to_set_is_finite::<u32>(cat.types@.map_values(|t: TypeRow| t.oid));
            assert(catalog_oids(*cat).contains(oid));
            assert(!visiting@.to_set().contains(oid));
            catalog_oids(*cat).lemma_set_insert_diff_decreases(visiting@.to_set(), oid);
            visiting@.lemma_push_to_set_commute(oid);
            assert(visiting2@.to_set() =~= visiting@.to_set().insert(oid));
            assert(remaining(*cat, visiting2@) < remaining(*cat, visiting@));
            assert(visiting2@[visiting@.len() as int] == oid);
            assert(visiting2@.contains(oid));
            assert forall|o: u32| visiting@.contains(o) implies visiting2@.contains(o) by {
                let j = choose|j: int| 0 <= j < visiting@.len() && visiting@[j] == o;
                assert(visiting2@[j] == o);
            }
        }
        if row.category == 65 {
            // array: expand the element type; nested resolution always fetches
            match self.maybe_fetch_type_info_by_oid(cat, row.element, true, &visiting2) {
                Ok(el) => {
                    proof {
                        lemma_model_oid(el);
                    }
                    Ok(
                        TypeDescriptor::Custom(
                            Box::new(
                                CustomType {
                                    oid,
                                    name: row.name,
                                    kind: TypeKind::Array(Box::new(el)),
                                },
                            ),
                        ),
                    )
                },
                Err(e) => Err(e),
            }
        } else if row.category == 80 {
            Ok(
                TypeDescriptor::Custom(
                    Box::new(CustomType { oid, name: row.name, kind: TypeKind::Pseudo }),
                ),
            )
        } else if row.category == 82 {
            self.fetch_range_by_oid(cat, oid, row.name, &visiting2)
        } else if row.category == 69 {
            Ok(self.fetch_enum_by_oid(cat, oid, row.name))
        } else if row.category == 67 {
            self.fetch_composite_by_oid(cat, oid, row.relation_id, row.name, &visiting2)
        } else {
            Ok(
                TypeDescriptor::Custom(
                    Box::new(CustomType { oid, name: row.name, kind: TypeKind::Simple }),
                ),
            )
        }
    }

    /// Expands a range type: one catalog round trip for the subtype id,
    /// then full resolution of the subtype.
    fn fetch_range_by_oid(
        &mut self,
        cat: &Catalog,
        oid: u32,
        name: String,
        visiting: &Vec<u32>,
    ) -> (r: Result<TypeDescriptor, Error>)
        requires
            cache_wf(old(self).cache, *cat),
            !is_builtin(oid),
            find_type(cat.types@, oid) is Some,
            find_type(cat.types@, oid)->0.category == 82,
            name@ == find_type(cat.types@, oid)->0.name@,
        ensures
            cache_wf(final(self).cache, *cat),
            cache_extends(final(self).cache, old(self).cache),
            columns_unchanged(*final(self), *old(self)),
            final(self).fetches@ >= old(self).fetches@ + 1,
            r is Ok ==> wf_resolved(*cat, r->Ok_0.model()) && r->Ok_0.spec_oid() == oid,
            find_range(cat.ranges@, oid) is None ==> r == Err::<TypeDescriptor, Error>(
                Error::TypeNotFound(oid),
            ),
            find_range(cat.ranges@, oid) matches Some(rr) && resolvable(
                *cat,
                visiting@,
                rr.subtype,
            ) ==> r is Ok,
            r is Err ==> (find_range(cat.ranges@, oid) is None || !resolvable(
                *cat,
                visiting@,
                find_range(cat.ranges@, oid)->0.subtype,
            )),
            find_range(cat.ranges@, oid) matches Some(rr) && (is_builtin(rr.subtype)
                || lookup_info(old(self).cache.info@, rr.subtype) is Some) ==> r is Ok && final(self).fetches@ == old(self).fetches@ + 1 && same_cache(*final(self), *old(self)),
            forall|o: u32|
                visiting@.contains(o) ==> lookup_info(final(self).cache.info@, o) == lookup_info(
                    old(self).cache.info@,
                    o,
                ),
        decreases remaining(*cat, visiting@), 2int,
    {
        let sub = match cat.lookup_range_subtype(oid) {
            Some(sub) => {
                self.fetches = Ghost(self.fetches@ + 1);
                sub
            },
            None => {
                self.fetches = Ghost(self.fetches@ + 1);
                return Err(Error::TypeNotFound(oid));
            },
        };
        match self.maybe_fetch_type_info_by_oid(cat, sub, true, visiting) {
            Ok(el) => {
                proof {
                    lemma_model_oid(el);
                }
                Ok(
                    TypeDescriptor::Custom(
                        Box::new(CustomType { oid, name, kind: TypeKind::Range(Box::new(el)) }),
                    ),
                )
            },
            Err(e) => Err(e),
        }
    }

    /// Expands a composite type: one catalog round trip for the relation's
    /// live attributes (dropped and system columns excluded, ordered by
    /// attribute number), then full resolution of every field type.
    fn fetch_composite_by_oid(
        &mut self,
        cat: &Catalog,
        oid: u32,
        relation_id: u32,
        name: String,
        visiting: &Vec<u32>,
    ) -> (r: Result<TypeDescriptor, Error>)
        requires
            cache_wf(old(self).cache, *cat),
            !is_builtin(oid),
            find_type(cat.types@, oid) is Some,
            find_type(cat.types@, oid)->0.category == 67,
            name@ == find_type(cat.types@, oid)->0.name@,
            relation_id == find_type(cat.types@, oid)->0.relation_id,
        ensures
            cache_wf(final(self).cache, *cat),
            cache_extends(final(self).cache, old(self).cache),
            columns_unchanged(*final(self), *old(self)),
            final(self).fetches@ >= old(self).fetches@ + 1,
            r is Ok ==> wf_resolved(*cat, r->Ok_0.model()) && r->Ok_0.spec_oid() == oid,
            attrs_resolvable(*cat, visiting@, spec_attrs(cat.attrs@, relation_id)) ==> r is Ok,
            r is Err ==> !attrs_resolvable(*cat, visiting@, spec_attrs(cat.attrs@, relation_id)),
            (forall|i: int|
                0 <= i < spec_attrs(cat.attrs@, relation_id).len() ==> is_builtin(
                    #[trigger] spec_attrs(cat.attrs@, relation_id)[i].type_oid,
                ) || lookup_info(
                    old(self).cache.info@,
                    spec_attrs(cat.attrs@, relation_id)[i].type_oid,
                ) is Some) ==> r is Ok && final(self).fetches@ == old(self).fetches@ + 1
                && same_cache(*final(self), *old(self)),
            forall|o: u32|
                visiting@.contains(o) ==> lookup_info(final(self).cache.info@, o) == lookup_info(
                    old(self).cache.info@,
                    o,
                ),
        decreases remaining(*cat, visiting@), 2int,
    {
        let raw = cat.fetch_attributes(relation_id);
        self.fetches = Ghost(self.fetches@ + 1);
        let ghost snap = *self;
        let mut fields: Vec<CompositeField> = Vec::new();
        let n = raw.len();
        let mut i: usize = 0;
        while i < n
            invariant
                n == raw@.len(),
                i <= n,
                raw@ =~= spec_attrs(cat.attrs@, relation_id),
                cache_wf(self.cache, *cat),
                cache_extends(self.cache, snap.cache),
                columns_unchanged(*self, snap),
                self.fetches@ >= snap.fetches@,
                snap.cache.info@ == old(self).cache.info@,
                snap.cache.oids@ == old(self).cache.oids@,
                columns_unchanged(snap, *old(self)),
                snap.fetches@ == old(self).fetches@ + 1,
                (forall|j: int|
                    0 <= j < raw@.len() ==> is_builtin(#[trigger] raw@[j].type_oid) || lookup_info(
                        snap.cache.info@,
                        raw@[j].type_oid,
                    ) is Some) ==> (self.fetches@ == snap.fetches@ && self.cache.info@
                    == snap.cache.info@ && self.cache.oids@ == snap.cache.oids@),
                fields@.len() == i,
                wf_fields(
                    *cat,
                    raw@.subrange(0, i as int),
                    crate::types::fields_model(fields@),
                ),
                forall|o: u32|
                    visiting@.contains(o) ==> lookup_info(self.cache.info@, o) == lookup_info(
                        snap.cache.info@,
                        o,
                    ),
            decreases n - i,
        {
            let field_oid = raw[i].type_oid;
            let ghost mid = *self;
            let el = match self.maybe_fetch_type_info_by_oid(cat, field_oid, true, visiting) {
                Ok(el) => el,
                Err(e) => {
                    proof {
                        lemma_extends_trans(self.cache, mid.cache, snap.cache);
                        lemma_attrs_resolvable_index(*cat, visiting@, raw@);
                        assert(!resolvable(*cat, visiting@, raw@[i as int].type_oid));
                    }
                    return Err(e);
                },
            };
            proof {
                lemma_extends_trans(self.cache, mid.cache, snap.cache);
                lemma_model_oid(el);
            }
            let field_name = raw[i].name.clone();
            let fm = CompositeField { name: field_name, descriptor: el };
            proof {
                crate::types::lemma_fields_model_push(fields@, fm);
                lemma_wf_fields_push(
                    *cat,
                    raw@.subrange(0, i as int),
                    crate::types::fields_model(fields@),
                    raw@[i as int],
                    FieldModel { name: fm.name@, descriptor: fm.descriptor.model() },
                );
                assert(raw@.subrange(0, i as int).push(raw@[i as int]) =~= raw@.subrange(
                    0,
                    i + 1,
                ));
            }
            fields.push(fm);
            i = i + 1;
        }
        proof {
            assert(raw@.subrange(0, n as int) =~= raw@);
        }
        Ok(
            TypeDescriptor::Custom(
                Box::new(CustomType { oid, name, kind: TypeKind::Composite(fields) }),
            ),
        )
    }

    /// Resolves a type name to its id: cache first, then one
    /// case-insensitive catalog lookup, cached under the queried name.
    pub fn fetch_type_id_by_name(&mut self, cat: &Catalog, name: &str) -> (r: Result<u32, Error>)
        requires
            cache_wf(old(self).cache, *cat),
        ensures
            cache_wf(final(self).cache, *cat),
            cache_extends(final(self).cache, old(self).cache),
            columns_unchanged(*final(self), *old(self)),
            lookup_oid(old(self).cache.oids@, name@) is Some ==> r == Ok::<u32, Error>(
                lookup_oid(old(self).cache.oids@, name@)->0,
            ) && same_conn(*final(self), *old(self)),
            lookup_oid(old(self).cache.oids@, name@) is None ==> final(self).fetches@ == old(
                self,
            ).fetches@ + 1 && match find_type_ci(cat.types@, name.spec_bytes()) {
                Some(row) => r == Ok::<u32, Error>(row.oid) && lookup_oid(
                    final(self).cache.oids@,
                    name@,
                ) == Some(row.oid),
                None => r == Err::<u32, Error>(Error::CatalogQuery),
            },
        decreases 0int,
    {
        let owned: String = name.to_owned();
        if let Some(oid) = self.cache.get_oid(&owned) {
            return Ok(oid);
        }
        match cat.lookup_type_by_name(name) {
            Some(row) => {
                self.fetches = Ghost(self.fetches@ + 1);
                let ghost before = self.cache.oids@;
                self.cache.insert_oid(owned, row.oid);
                proof {
                    let entry = crate::cache::NameEntry { name: owned, oid: row.oid };
                    assert(self.cache.oids@ =~= before.push(entry));
                    crate::cache::lemma_lookup_oid_push(before, entry, name@);
                    assert(before =~= self.cache.oids@.subrange(0, before.len() as int));
                }
                Ok(row.oid)
            },
            None => {
                self.fetches = Ghost(self.fetches@ + 1);
                Err(Error::CatalogQuery)
            },
        }
    }
}

/// The cache content is unchanged (both mappings, as sequences).
pub open spec fn same_cache(a: Connection, b: Connection) -> bool {
    a.cache.info@ == b.cache.info@ && a.cache.oids@ == b.cache.oids@
}

} // verus!
