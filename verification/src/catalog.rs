//! Snapshot model of the server's metadata tables.
//!
//! The resolver and the nullability engine consume catalog data through the
//! lookup methods here; each method models one catalog query, returning
//! exactly what the corresponding query's result set would hold (matching
//! rows, server-side ordering included). Issuing those queries over the wire
//! is the host's business; the decision logic against their results is
//! verified here.

use vstd::prelude::*;
use vstd::utf8::encode_utf8;
use vstd::string::StringSliceAdditionalSpecFns;

verus! {

broadcast use vstd::std_specs::vec::group_vec_axioms;

/// One row of the type table: name, single-character category
/// classification, owning relation and element type.
pub struct TypeRow {
    pub oid: u32,
    pub name: String,
    pub category: u8,
    pub relation_id: u32,
    pub element: u32,
}

/// One row of the range table: the range type and its subtype.
#[derive(Clone, Copy)]
pub struct RangeRow {
    pub rngtypid: u32,
    pub subtype: u32,
}

/// One row of the enum-variant table: owning type, explicit sort key, label.
pub struct EnumRow {
    pub typid: u32,
    pub sort_key: u32,
    pub label: String,
}

/// One row of the attribute table.
pub struct AttrRow {
    pub relid: u32,
    pub attnum: i16,
    pub name: String,
    pub type_oid: u32,
    pub dropped: bool,
    pub not_null: bool,
}

/// One node of a structured query plan, in pre-order; the first node of a
/// plan is the root.
pub struct PlanNode {
    /// Output column expressions of this node, if the plan reports them.
    pub outputs: Option<Vec<String>>,
    /// Join kind of this node, if any.
    pub join_type: Option<String>,
    /// Which side of the parent join this node feeds, if any.
    pub parent_relation: Option<String>,
}

/// The structured plan the server would report for one prepared statement.
pub struct Plan {
    pub stmt_id: u32,
    pub nodes: Vec<PlanNode>,
}

/// Snapshot of every catalog table the core consults.
pub struct Catalog {
    pub types: Vec<TypeRow>,
    pub ranges: Vec<RangeRow>,
    pub enums: Vec<EnumRow>,
    pub attrs: Vec<AttrRow>,
    pub plans: Vec<Plan>,
}

// ---------------------------------------------------------------------------
// First-match lookups.

/// First type row with the given oid.
pub open spec fn find_type(s: Seq<TypeRow>, oid: u32) -> Option<TypeRow>
    decreases s.len(),
{
    if s.len() == 0 {
        None
    } else if s[0].oid == oid {
        Some(s[0])
    } else {
        find_type(s.drop_first(), oid)
    }
}

/// First range row for the given range type.
pub open spec fn find_range(s: Seq<RangeRow>, oid: u32) -> Option<RangeRow>
    decreases s.len(),
{
    if s.len() == 0 {
        None
    } else if s[0].rngtypid == oid {
        Some(s[0])
    } else {
        find_range(s.drop_first(), oid)
    }
}

/// First attribute row with the given relation and attribute number.
pub open spec fn find_attr(s: Seq<AttrRow>, relid: u32, attnum: i16) -> Option<AttrRow>
    decreases s.len(),
{
    if s.len() == 0 {
        None
    } else if s[0].relid == relid && s[0].attnum == attnum {
        Some(s[0])
    } else {
        find_attr(s.drop_first(), relid, attnum)
    }
}

/// A match-free prefix does not change what a first-match lookup finds.
proof fn lemma_find_type_skip(s: Seq<TypeRow>, oid: u32, i: int)
    requires
        0 <= i <= s.len(),
        forall|j: int| 0 <= j < i ==> s[j].oid != oid,
    ensures
        find_type(s, oid) == find_type(s.subrange(i, s.len() as int), oid),
    decreases i,
{
    if i > 0 {
        lemma_find_type_skip(s.drop_first(), oid, i - 1);
        assert(s.drop_first().subrange(i - 1, s.drop_first().len() as int) =~= s.subrange(
            i,
            s.len() as int,
        ));
    } else {
        assert(s.subrange(0, s.len() as int) =~= s);
    }
}

proof fn lemma_find_range_skip(s: Seq<RangeRow>, oid: u32, i: int)
    requires
        0 <= i <= s.len(),
        forall|j: int| 0 <= j < i ==> s[j].rngtypid != oid,
    ensures
        find_range(s, oid) == find_range(s.subrange(i, s.len() as int), oid),
    decreases i,
{
    if i > 0 {
        lemma_find_range_skip(s.drop_first(), oid, i - 1);
        assert(s.drop_first().subrange(i - 1, s.drop_first().len() as int) =~= s.subrange(
            i,
            s.len() as int,
        ));
    } else {
        assert(s.subrange(0, s.len() as int) =~= s);
    }
}

proof fn lemma_find_attr_skip(s: Seq<AttrRow>, relid: u32, attnum: i16, i: int)
    requires
        0 <= i <= s.len(),
        forall|j: int| 0 <= j < i ==> !(s[j].relid == relid && s[j].attnum == attnum),
    ensures
        find_attr(s, relid, attnum) == find_attr(s.subrange(i, s.len() as int), relid, attnum),
    decreases i,
{
    if i > 0 {
        lemma_find_attr_skip(s.drop_first(), relid, attnum, i - 1);
        assert(s.drop_first().subrange(i - 1, s.drop_first().len() as int) =~= s.subrange(
            i,
            s.len() as int,
        ));
    } else {
        assert(s.subrange(0, s.len() as int) =~= s);
    }
}

// ---------------------------------------------------------------------------
// Case-insensitive name lookup.

/// ASCII lower-casing of one byte.
pub open spec fn lower_byte(b: u8) -> u8 {
    if 65 <= b <= 90 {
        (b + 32) as u8
    } else {
        b
    }
}

/// Case-insensitive equality of two byte strings, ASCII letters only.
pub open spec fn eq_ci(a: Seq<u8>, b: Seq<u8>) -> bool {
    a.len() == b.len() && forall|i: int| 0 <= i < a.len() ==> lower_byte(a[i]) == lower_byte(b[i])
}

/// Case-insensitive comparison of two names.
pub fn str_eq_ci(a: &str, b: &str) -> (r: bool)
    ensures
        r == eq_ci(a.spec_bytes(), b.spec_bytes()),
{
    let ab = a.as_bytes();
    let bb = b.as_bytes();
    if ab.len() != bb.len() {
        return false;
    }
    let n = ab.len();
    let mut i: usize = 0;
    while i < n
        invariant
            ab@ == a.spec_bytes(),
            bb@ == b.spec_bytes(),
            n == ab@.len() == bb@.len(),
            i <= n,
            forall|j: int| 0 <= j < i ==> lower_byte(ab@[j]) == lower_byte(bb@[j]),
        decreases n - i,
    {
        let x = ab[i];
        let y = bb[i];
        let xl = if 65 <= x && x <= 90 {
            x + 32
        } else {
            x
        };
        let yl = if 65 <= y && y <= 90 {
            y + 32
        } else {
            y
        };
        if xl != yl {
            proof {
                assert(lower_byte(a.spec_bytes()[i as int]) != lower_byte(
                    b.spec_bytes()[i as int],
                ));
            }
            return false;
        }
        i = i + 1;
    }
    true
}

/// First type row whose name equals the query case-insensitively.
pub open spec fn find_type_ci(s: Seq<TypeRow>, q: Seq<u8>) -> Option<TypeRow>
    decreases s.len(),
{
    if s.len() == 0 {
        None
    } else if eq_ci(encode_utf8(s[0].name@), q) {
        Some(s[0])
    } else {
        find_type_ci(s.drop_first(), q)
    }
}

proof fn lemma_find_type_ci_skip(s: Seq<TypeRow>, q: Seq<u8>, i: int)
    requires
        0 <= i <= s.len(),
        forall|j: int| 0 <= j < i ==> !eq_ci(encode_utf8(s[j].name@), q),
    ensures
        find_type_ci(s, q) == find_type_ci(s.subrange(i, s.len() as int), q),
    decreases i,
{
    if i > 0 {
        lemma_find_type_ci_skip(s.drop_first(), q, i - 1);
        assert(s.drop_first().subrange(i - 1, s.drop_first().len() as int) =~= s.subrange(
            i,
            s.len() as int,
        ));
    } else {
        assert(s.subrange(0, s.len() as int) =~= s);
    }
}

// ---------------------------------------------------------------------------
// Ordered result sets: enum variants by sort key, attributes by number.

/// Enum rows belonging to one type, in storage order.
pub open spec fn enum_matches(s: Seq<EnumRow>, typid: u32) -> Seq<EnumRow>
    decreases s.len(),
{
    if s.len() == 0 {
        Seq::<EnumRow>::empty()
    } else {
        (if s[0].typid == typid {
            seq![s[0]]
        } else {
            Seq::<EnumRow>::empty()
        }) + enum_matches(s.drop_first(), typid)
    }
}

/// Insertion into a run ordered by sort key.
pub open spec fn insert_enum_sorted(r: EnumRow, s: Seq<EnumRow>) -> Seq<EnumRow>
    decreases s.len(),
{
    if s.len() == 0 {
        seq![r]
    } else if r.sort_key <= s[0].sort_key {
        seq![r] + s
    } else {
        seq![s[0]] + insert_enum_sorted(r, s.drop_first())
    }
}

/// Insertion sort by sort key; stable for equal keys.
pub open spec fn sort_enum(s: Seq<EnumRow>) -> Seq<EnumRow>
    decreases s.len(),
{
    if s.len() == 0 {
        Seq::<EnumRow>::empty()
    } else {
        insert_enum_sorted(s.last(), sort_enum(s.drop_last()))
    }
}

/// The variant labels of one enum type, in the catalog-defined sort order.
pub open spec fn spec_enum_labels(s: Seq<EnumRow>, typid: u32) -> Seq<Seq<char>> {
    sort_enum(enum_matches(s, typid)).map_values(|r: EnumRow| r.label@)
}

proof fn lemma_enum_matches_push(s: Seq<EnumRow>, r: EnumRow, typid: u32)
    ensures
        enum_matches(s.push(r), typid) =~= enum_matches(s, typid) + (if r.typid == typid {
            seq![r]
        } else {
            Seq::<EnumRow>::empty()
        }),
    decreases s.len(),
{
    reveal_with_fuel(enum_matches, 3);
    if s.len() == 0 {
        assert(s.push(r).drop_first() =~= Seq::<EnumRow>::empty());
    } else {
        assert(s.push(r).drop_first() =~= s.drop_first().push(r));
        lemma_enum_matches_push(s.drop_first(), r, typid);
    }
}

proof fn lemma_enum_insert_at(s: Seq<EnumRow>, r: EnumRow, p: int)
    requires
        0 <= p <= s.len(),
        forall|j: int| 0 <= j < p ==> s[j].sort_key < r.sort_key,
        p < s.len() ==> r.sort_key <= s[p].sort_key,
    ensures
        s.insert(p, r) =~= insert_enum_sorted(r, s),
    decreases p,
{
    if p == 0 {
        assert(s.insert(0, r) =~= seq![r] + s);
    } else {
        lemma_enum_insert_at(s.drop_first(), r, p - 1);
        assert(s.insert(p, r) =~= seq![s[0]] + s.drop_first().insert(p - 1, r));
    }
}

/// Inserts one enum row into a run kept ordered by sort key.
fn insert_enum_row(v: &mut Vec<EnumRow>, r: EnumRow)
    ensures
        final(v)@ =~= insert_enum_sorted(r, old(v)@),
{
    let mut p: usize = 0;
    while p < v.len() && v[p].sort_key < r.sort_key
        invariant
            p <= v@.len(),
            forall|j: int| 0 <= j < p ==> v@[j].sort_key < r.sort_key,
        decreases v@.len() - p,
    {
        p = p + 1;
    }
    proof {
        lemma_enum_insert_at(v@, r, p as int);
    }
    v.insert(p, r);
}

/// Attribute rows of one relation that a composite type exposes: dropped
/// columns and system columns (non-positive attribute numbers) are excluded.
pub open spec fn attr_matches(s: Seq<AttrRow>, relid: u32) -> Seq<AttrRow>
    decreases s.len(),
{
    if s.len() == 0 {
        Seq::<AttrRow>::empty()
    } else {
        (if s[0].relid == relid && s[0].attnum > 0 && !s[0].dropped {
            seq![s[0]]
        } else {
            Seq::<AttrRow>::empty()
        }) + attr_matches(s.drop_first(), relid)
    }
}

/// Insertion into a run ordered by attribute number.
pub open spec fn insert_attr_sorted(r: AttrRow, s: Seq<AttrRow>) -> Seq<AttrRow>
    decreases s.len(),
{
    if s.len() == 0 {
        seq![r]
    } else if r.attnum <= s[0].attnum {
        seq![r] + s
    } else {
        seq![s[0]] + insert_attr_sorted(r, s.drop_first())
    }
}

/// Insertion sort by attribute number; stable for equal numbers.
pub open spec fn sort_attrs(s: Seq<AttrRow>) -> Seq<AttrRow>
    decreases s.len(),
{
    if s.len() == 0 {
        Seq::<AttrRow>::empty()
    } else {
        insert_attr_sorted(s.last(), sort_attrs(s.drop_last()))
    }
}

/// The attribute rows a composite type resolves to, ordered by attribute
/// number.
pub open spec fn spec_attrs(s: Seq<AttrRow>, relid: u32) -> Seq<AttrRow> {
    sort_attrs(attr_matches(s, relid))
}

proof fn lemma_attr_matches_push(s: Seq<AttrRow>, r: AttrRow, relid: u32)
    ensures
        attr_matches(s.push(r), relid) =~= attr_matches(s, relid) + (if r.relid == relid
            && r.attnum > 0 && !r.dropped {
            seq![r]
        } else {
            Seq::<AttrRow>::empty()
        }),
    decreases s.len(),
{
    reveal_with_fuel(attr_matches, 3);
    if s.len() == 0 {
        assert(s.push(r).drop_first() =~= Seq::<AttrRow>::empty());
    } else {
        assert(s.push(r).drop_first() =~= s.drop_first().push(r));
        lemma_attr_matches_push(s.drop_first(), r, relid);
    }
}

proof fn lemma_attr_insert_at(s: Seq<AttrRow>, r: AttrRow, p: int)
    requires
        0 <= p <= s.len(),
        forall|j: int| 0 <= j < p ==> s[j].attnum < r.attnum,
        p < s.len() ==> r.attnum <= s[p].attnum,
    ensures
        s.insert(p, r) =~= insert_attr_sorted(r, s),
    decreases p,
{
    if p == 0 {
        assert(s.insert(0, r) =~= seq![r] + s);
    } else {
        lemma_attr_insert_at(s.drop_first(), r, p - 1);
        assert(s.insert(p, r) =~= seq![s[0]] + s.drop_first().insert(p - 1, r));
    }
}

/// Inserts one attribute row into a run kept ordered by attribute number.
fn insert_attr_row(v: &mut Vec<AttrRow>, r: AttrRow)
    ensures
        final(v)@ =~= insert_attr_sorted(r, old(v)@),
{
    let mut p: usize = 0;
    while p < v.len() && v[p].attnum < r.attnum
        invariant
            p <= v@.len(),
            forall|j: int| 0 <= j < p ==> v@[j].attnum < r.attnum,
        decreases v@.len() - p,
    {
        p = p + 1;
    }
    proof {
        lemma_attr_insert_at(v@, r, p as int);
    }
    v.insert(p, r);
}

fn clone_type_row(r: &TypeRow) -> (out: TypeRow)
    ensures
        out == *r,
{
    TypeRow {
        oid: r.oid,
        name: r.name.clone(),
        category: r.category,
        relation_id: r.relation_id,
        element: r.element,
    }
}

fn clone_attr_row(r: &AttrRow) -> (out: AttrRow)
    ensures
        out == *r,
{
    AttrRow {
        relid: r.relid,
        attnum: r.attnum,
        name: r.name.clone(),
        type_oid: r.type_oid,
        dropped: r.dropped,
        not_null: r.not_null,
    }
}

impl Catalog {
    /// Models the type-table query: name, category, owning relation and
    /// element type of one type id.
    pub fn lookup_type_row(&self, oid: u32) -> (r: Option<TypeRow>)
        ensures
            r == find_type(self.types@, oid),
    {
        let n = self.types.len();
        let mut i: usize = 0;
        while i < n
            invariant
                n == self.types@.len(),
                i <= n,
                forall|j: int| 0 <= j < i ==> self.types@[j].oid != oid,
            decreases n - i,
        {
            if self.types[i].oid == oid {
                proof {
                    lemma_find_type_skip(self.types@, oid, i as int);
                    assert(self.types@.subrange(i as int, n as int)[0] == self.types@[i as int]);
                }
                return Some(clone_type_row(&self.types[i]));
            }
            i = i + 1;
        }
        proof {
            lemma_find_type_skip(self.types@, oid, n as int);
            assert(self.types@.subrange(n as int, n as int) =~= Seq::<TypeRow>::empty());
        }
        None
    }

    /// Models the range-table query: the subtype of one range type.
    pub fn lookup_range_subtype(&self, oid: u32) -> (r: Option<u32>)
        ensures
            r == match find_range(self.ranges@, oid) {
                Some(row) => Some(row.subtype),
                None => None::<u32>,
            },
    {
        let n = self.ranges.len();
        let mut i: usize = 0;
        while i < n
            invariant
                n == self.ranges@.len(),
                i <= n,
                forall|j: int| 0 <= j < i ==> self.ranges@[j].rngtypid != oid,
            decreases n - i,
        {
            if self.ranges[i].rngtypid == oid {
                proof {
                    lemma_find_range_skip(self.ranges@, oid, i as int);
                    assert(self.ranges@.subrange(i as int, n as int)[0] == self.ranges@[i as int]);
                }
                return Some(self.ranges[i].subtype);
            }
            i = i + 1;
        }
        proof {
            lemma_find_range_skip(self.ranges@, oid, n as int);
            assert(self.ranges@.subrange(n as int, n as int) =~= Seq::<RangeRow>::empty());
        }
        None
    }

    /// Models the attribute lookup the nullability join performs: the raw
    /// row for one (relation, attribute number) key, dropped or not.
    pub fn lookup_attr(&self, relid: u32, attnum: i16) -> (r: Option<AttrRow>)
        ensures
            r == find_attr(self.attrs@, relid, attnum),
    {
        let n = self.attrs.len();
        let mut i: usize = 0;
        while i < n
            invariant
                n == self.attrs@.len(),
                i <= n,
                forall|j: int|
                    0 <= j < i ==> !(self.attrs@[j].relid == relid && self.attrs@[j].attnum
                        == attnum),
            decreases n - i,
        {
            if self.attrs[i].relid == relid && self.attrs[i].attnum == attnum {
                proof {
                    lemma_find_attr_skip(self.attrs@, relid, attnum, i as int);
                    assert(self.attrs@.subrange(i as int, n as int)[0] == self.attrs@[i as int]);
                }
                return Some(clone_attr_row(&self.attrs[i]));
            }
            i = i + 1;
        }
        proof {
            lemma_find_attr_skip(self.attrs@, relid, attnum, n as int);
            assert(self.attrs@.subrange(n as int, n as int) =~= Seq::<AttrRow>::empty());
        }
        None
    }

    /// Models the name query of the type table: a case-insensitive match,
    /// as the catalog's name operator performs it.
    pub fn lookup_type_by_name(&self, name: &str) -> (r: Option<TypeRow>)
        ensures
            r == find_type_ci(self.types@, name.spec_bytes()),
    {
        let n = self.types.len();
        let mut i: usize = 0;
        while i < n
            invariant
                n == self.types@.len(),
                i <= n,
                forall|j: int|
                    0 <= j < i ==> !eq_ci(
                        encode_utf8(self.types@[j].name@),
                        name.spec_bytes(),
                    ),
            decreases n - i,
        {
            if str_eq_ci(self.types[i].name.as_str(), name) {
                proof {
                    lemma_find_type_ci_skip(self.types@, name.spec_bytes(), i as int);
                    assert(self.types@.subrange(i as int, n as int)[0] == self.types@[i as int]);
                }
                return Some(clone_type_row(&self.types[i]));
            }
            i = i + 1;
        }
        proof {
            lemma_find_type_ci_skip(self.types@, name.spec_bytes(), n as int);
            assert(self.types@.subrange(n as int, n as int) =~= Seq::<TypeRow>::empty());
        }
        None
    }

    /// Models the enum-variant query: all labels of one enum type, ordered
    /// by the catalog's explicit sort key — not alphabetically.
    pub fn fetch_enum_labels(&self, typid: u32) -> (r: Vec<String>)
        ensures
            labels_model_eq(r@, spec_enum_labels(self.enums@, typid)),
    {
        let n = self.enums.len();
        let mut acc: Vec<EnumRow> = Vec::new();
        let mut i: usize = 0;
        while i < n
            invariant
                n == self.enums@.len(),
                i <= n,
                acc@ =~= sort_enum(enum_matches(self.enums@.subrange(0, i as int), typid)),
            decreases n - i,
        {
            let row = &self.enums[i];
            proof {
                assert(self.enums@.subrange(0, i as int).push(self.enums@[i as int]) =~= self
                    .enums@.subrange(0, i + 1));
                lemma_enum_matches_push(self.enums@.subrange(0, i as int), self.enums@[i as int],
                    typid);
            }
            if row.typid == typid {
                let copied = EnumRow { typid: row.typid, sort_key: row.sort_key, label: row.label.clone() };
                proof {
                    let m = enum_matches(self.enums@.subrange(0, i as int), typid);
                    assert(copied == self.enums@[i as int]);
                    assert(enum_matches(self.enums@.subrange(0, i + 1), typid) =~= m.push(copied));
                    assert(m.push(copied).drop_last() =~= m);
                    assert(m.push(copied).last() == copied);
                    assert(sort_enum(m.push(copied)) == insert_enum_sorted(copied, sort_enum(m)));
                }
                insert_enum_row(&mut acc, copied);
            } else {
                proof {
                    assert(enum_matches(self.enums@.subrange(0, i + 1), typid) =~= enum_matches(
                        self.enums@.subrange(0, i as int),
                        typid,
                    ));
                }
            }
            i = i + 1;
        }
        proof {
            assert(self.enums@.subrange(0, n as int) =~= self.enums@);
        }
        let mut out: Vec<String> = Vec::new();
        let mut j: usize = 0;
        while j < acc.len()
            invariant
                j <= acc@.len(),
                out@.len() == j,
                forall|k: int| 0 <= k < j ==> out@[k]@ == acc@[k].label@,
            decreases acc@.len() - j,
        {
            out.push(acc[j].label.clone());
            j = j + 1;
        }
        proof {
            assert(acc@ =~= sort_enum(enum_matches(self.enums@, typid)));
        }
        out
    }

    /// Models the attribute query a composite type resolves through: the
    /// non-dropped, non-system attributes of one relation, ordered by
    /// attribute number.
    pub fn fetch_attributes(&self, relid: u32) -> (r: Vec<AttrRow>)
        ensures
            r@ =~= spec_attrs(self.attrs@, relid),
    {
        let n = self.attrs.len();
        let mut acc: Vec<AttrRow> = Vec::new();
        let mut i: usize = 0;
        while i < n
            invariant
                n == self.attrs@.len(),
                i <= n,
                acc@ =~= sort_attrs(attr_matches(self.attrs@.subrange(0, i as int), relid)),
            decreases n - i,
        {
            let row = &self.attrs[i];
            proof {
                assert(self.attrs@.subrange(0, i as int).push(self.attrs@[i as int]) =~= self
                    .attrs@.subrange(0, i + 1));
                lemma_attr_matches_push(self.attrs@.subrange(0, i as int), self.attrs@[i as int],
                    relid);
            }
            if row.relid == relid && row.attnum > 0 && !row.dropped {
                let copied = clone_attr_row(row);
                proof {
                    let m = attr_matches(self.attrs@.subrange(0, i as int), relid);
                    assert(copied == self.attrs@[i as int]);
                    assert(attr_matches(self.attrs@.subrange(0, i + 1), relid) =~= m.push(copied));
                    assert(m.push(copied).drop_last() =~= m);
                    assert(m.push(copied).last() == copied);
                    assert(sort_attrs(m.push(copied)) == insert_attr_sorted(copied, sort_attrs(m)));
                }
                insert_attr_row(&mut acc, copied);
            } else {
                proof {
                    assert(attr_matches(self.attrs@.subrange(0, i + 1), relid) =~= attr_matches(
                        self.attrs@.subrange(0, i as int),
                        relid,
                    ));
                }
            }
            i = i + 1;
        }
        proof {
            assert(self.attrs@.subrange(0, n as int) =~= self.attrs@);
        }
        acc
    }

    /// Index of the plan recorded for one prepared statement, if any.
    ///
    /// Models executing the structured-explain statement: the server hands
    /// back the plan of the named prepared statement.
    pub fn plan_index(&self, stmt_id: u32) -> (r: Option<usize>)
        ensures
            match r {
                Some(i) => {
                    &&& i < self.plans@.len()
                    &&& self.plans@[i as int].stmt_id == stmt_id
                    &&& find_plan(self.plans@, stmt_id) == Some(self.plans@[i as int])
                },
                None => find_plan(self.plans@, stmt_id) is None,
            },
    {
        let n = self.plans.len();
        let mut i: usize = 0;
        while i < n
            invariant
                n == self.plans@.len(),
                i <= n,
                forall|j: int| 0 <= j < i ==> self.plans@[j].stmt_id != stmt_id,
            decreases n - i,
        {
            if self.plans[i].stmt_id == stmt_id {
                proof {
                    lemma_find_plan_skip(self.plans@, stmt_id, i as int);
                    assert(self.plans@.subrange(i as int, n as int)[0] == self.plans@[i as int]);
                }
                return Some(i);
            }
            i = i + 1;
        }
        proof {
            lemma_find_plan_skip(self.plans@, stmt_id, n as int);
            assert(self.plans@.subrange(n as int, n as int) =~= Seq::<Plan>::empty());
        }
        None
    }
}

/// First plan recorded for a prepared statement.
pub open spec fn find_plan(s: Seq<Plan>, stmt_id: u32) -> Option<Plan>
    decreases s.len(),
{
    if s.len() == 0 {
        None
    } else if s[0].stmt_id == stmt_id {
        Some(s[0])
    } else {
        find_plan(s.drop_first(), stmt_id)
    }
}

proof fn lemma_find_plan_skip(s: Seq<Plan>, stmt_id: u32, i: int)
    requires
        0 <= i <= s.len(),
        forall|j: int| 0 <= j < i ==> s[j].stmt_id != stmt_id,
    ensures
        find_plan(s, stmt_id) == find_plan(s.subrange(i, s.len() as int), stmt_id),
    decreases i,
{
    if i > 0 {
        lemma_find_plan_skip(s.drop_first(), stmt_id, i - 1);
        assert(s.drop_first().subrange(i - 1, s.drop_first().len() as int) =~= s.subrange(
            i,
            s.len() as int,
        ));
    } else {
        assert(s.subrange(0, s.len() as int) =~= s);
    }
}

/// Pointwise equality between executable labels and their ghost model.
pub open spec fn labels_model_eq(labels: Seq<String>, m: Seq<Seq<char>>) -> bool {
    labels.len() == m.len() && forall|i: int| 0 <= i < labels.len() ==> labels[i]@ == m[i]
}

} // verus!
