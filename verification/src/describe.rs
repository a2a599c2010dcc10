//! Descriptor builder: raw wire metadata in, ordered column and parameter
//! descriptors out.

use vstd::prelude::*;

use crate::catalog::Catalog;
use crate::error::Error;
use crate::resolve::{cache_wf, cache_extends, columns_unchanged, resolvable, wf_resolved, Connection};
use crate::types::TypeDescriptor;

verus! {

/// Raw per-field metadata from a prepared statement's wire response.
pub struct Field {
    /// Wire name of the column (already aliased upstream if the statement
    /// renamed it).
    pub name: String,
    /// Opaque type identifier of the column.
    pub data_type_id: u32,
    /// Source relation, zero when the column is computed.
    pub relation_id: u32,
    /// Source attribute number within the relation, zero when computed.
    pub relation_attribute_no: i16,
}

/// One fully described output column.
pub struct ColumnDescriptor {
    /// Dense, zero-based position matching wire order.
    pub ordinal: usize,
    pub name: String,
    pub type_info: TypeDescriptor,
    /// Source relation; zero when the column is computed.
    pub relation_id: u32,
    /// Source attribute number; zero when the column is computed.
    pub relation_attribute_no: i16,
    /// Whether the column can be null: `Some(false)` never null,
    /// `Some(true)` nullable, `None` unknown.
    pub nullable: Option<bool>,
}

/// One described input parameter; parameters are always resolved eagerly.
pub struct ParameterDescriptor {
    pub ordinal: usize,
    pub type_info: TypeDescriptor,
}

/// One binding of the name-to-ordinal index.
pub struct NameIndexEntry {
    pub name: String,
    pub ordinal: usize,
}

/// The complete description of one prepared statement.
pub struct DescribeResult {
    pub columns: Vec<ColumnDescriptor>,
    pub parameters: Vec<ParameterDescriptor>,
    /// Name-to-ordinal index built by insertion; on duplicate names the
    /// later occurrence wins.
    pub column_names: Vec<NameIndexEntry>,
}

/// Ordinal bound to a column name; built by insertion, so the *last*
/// binding for a name wins.
pub open spec fn lookup_ordinal(s: Seq<NameIndexEntry>, name: Seq<char>) -> Option<usize>
    decreases s.len(),
{
    if s.len() == 0 {
        None
    } else if s.last().name@ == name {
        Some(s.last().ordinal)
    } else {
        lookup_ordinal(s.drop_last(), name)
    }
}

proof fn lemma_lookup_ordinal_skip(s: Seq<NameIndexEntry>, name: Seq<char>, i: int)
    requires
        0 <= i <= s.len(),
        forall|j: int| i <= j < s.len() ==> s[j].name@ != name,
    ensures
        lookup_ordinal(s, name) == lookup_ordinal(s.subrange(0, i), name),
    decreases s.len() - i,
{
    if i < s.len() {
        assert(s.drop_last() =~= s.subrange(0, s.len() - 1));
        lemma_lookup_ordinal_skip(s.subrange(0, s.len() - 1), name, i);
        assert(s.subrange(0, s.len() - 1).subrange(0, i) =~= s.subrange(0, i));
    } else {
        assert(s.subrange(0, s.len() as int) =~= s);
    }
}

impl DescribeResult {
    /// Position of the named column, honouring the later-wins policy of the
    /// index.
    pub fn column_index_of(&self, name: &str) -> (r: Option<usize>)
        ensures
            r == lookup_ordinal(self.column_names@, name@),
    {
        let owned: String = name.to_owned();
        let n = self.column_names.len();
        let mut i: usize = n;
        while i > 0
            invariant
                n == self.column_names@.len(),
                i <= n,
                forall|j: int| i <= j < n ==> self.column_names@[j].name@ != name@,
                owned@ == name@,
            decreases i,
        {
            i = i - 1;
            if self.column_names[i].name.eq(&owned) {
                proof {
                    lemma_lookup_ordinal_skip(self.column_names@, name@, i + 1);
                    let p = self.column_names@.subrange(0, i + 1);
                    assert(p.last() == self.column_names@[i as int]);
                }
                return Some(self.column_names[i].ordinal);
            }
        }
        proof {
            lemma_lookup_ordinal_skip(self.column_names@, name@, 0);
        }
        None
    }
}

} // verus!

verus! {

/// A prepared statement's raw wire response: what the builder consumes.
pub struct PreparedStatement {
    /// Server-side identifier of the prepared statement.
    pub stmt_id: u32,
    /// Raw output-field metadata, in wire order.
    pub fields: Vec<Field>,
    /// Raw parameter type ids, in order.
    pub param_type_oids: Vec<u32>,
}

/// One column copy whose observable content equals the original's.
fn clone_column(c: &ColumnDescriptor) -> (r: ColumnDescriptor)
    ensures
        r.ordinal == c.ordinal,
        r.name@ == c.name@,
        r.type_info.model() == c.type_info.model(),
        r.type_info.spec_oid() == c.type_info.spec_oid(),
        r.relation_id == c.relation_id,
        r.relation_attribute_no == c.relation_attribute_no,
        r.nullable == c.nullable,
{
    ColumnDescriptor {
        ordinal: c.ordinal,
        name: c.name.clone(),
        type_info: c.type_info.deep_clone(),
        relation_id: c.relation_id,
        relation_attribute_no: c.relation_attribute_no,
        nullable: c.nullable,
    }
}

} // verus!

verus! {

impl Connection {
    /// Turns raw field metadata into the published column snapshot.
    ///
    /// For each field in wire order: resolve its type with the given fetch
    /// permission, emit a descriptor with a dense zero-based ordinal, the
    /// wire name, and the source relation and attribute copied through
    /// verbatim; build the name-to-ordinal index as it goes (later wins).
    /// Zero fields — no row description at all, or an empty one — is valid
    /// and publishes an empty column list without error. The snapshot is
    /// built aside and replaced wholesale at the end, so a reader holding
    /// the prior snapshot never observes a half-built one.
    pub fn handle_row_description(
        &mut self,
        cat: &Catalog,
        desc: Option<Vec<Field>>,
        should_fetch: bool,
    ) -> (r: Result<(), Error>)
        requires
            cache_wf(old(self).cache, *cat),
        ensures
            cache_wf(final(self).cache, *cat),
            cache_extends(final(self).cache, old(self).cache),
            final(self).fetches@ >= old(self).fetches@,
            r is Err ==> columns_unchanged(*final(self), *old(self)),
            desc is None ==> r is Ok && final(self).row_columns@.len() == 0
                && final(self).row_column_names@.len() == 0
                && final(self).fetches@ == old(self).fetches@,
            r is Ok && desc is Some ==> {
                let fields = desc->0@;
                &&& final(self).row_columns@.len() == fields.len()
                &&& final(self).row_column_names@.len() == fields.len()
                &&& forall|i: int|
                    0 <= i < fields.len() ==> {
                        let c = #[trigger] final(self).row_columns@[i];
                        &&& c.ordinal == i
                        &&& c.name@ == fields[i].name@
                        &&& c.relation_id == fields[i].relation_id
                        &&& c.relation_attribute_no == fields[i].relation_attribute_no
                        &&& c.nullable is None
                        &&& c.type_info.spec_oid() == fields[i].data_type_id
                        &&& (should_fetch ==> wf_resolved(*cat, c.type_info.model()))
                    }
                &&& forall|i: int|
                    0 <= i < fields.len() ==> {
                        let e = #[trigger] final(self).row_column_names@[i];
                        &&& e.name@ == fields[i].name@
                        &&& e.ordinal == i
                    }
            },
            desc is Some && desc->0@.len() == 0 ==> r is Ok,
            !should_fetch ==> r is Ok && final(self).fetches@ == old(self).fetches@,
            should_fetch && desc is Some && (forall|i: int|
                0 <= i < desc->0@.len() ==> resolvable(
                    *cat,
                    Seq::<u32>::empty(),
                    desc->0@[i].data_type_id,
                )) ==> r is Ok,
            r is Err ==> should_fetch && desc is Some && exists|i: int|
                0 <= i < desc->0@.len() && !resolvable(
                    *cat,
                    Seq::<u32>::empty(),
                    desc->0@[i].data_type_id,
                ),
    {
        let fields = match desc {
            Some(fields) => fields,
            None => {
                // no rows: publish the empty snapshot
                self.row_columns = Vec::new();
                self.row_column_names = Vec::new();
                return Ok(());
            },
        };
        let visiting: Vec<u32> = Vec::new();
        let mut columns: Vec<ColumnDescriptor> = Vec::new();
        let mut names: Vec<NameIndexEntry> = Vec::new();
        let n = fields.len();
        let mut i: usize = 0;
        let ghost entry_state = *self;
        while i < n
            invariant
                desc is Some,
                desc->0@ == fields@,
                n == fields@.len(),
                i <= n,
                visiting@.len() == 0,
                cache_wf(self.cache, *cat),
                cache_extends(self.cache, entry_state.cache),
                columns_unchanged(*self, entry_state),
                self.fetches@ >= entry_state.fetches@,
                entry_state.cache.info@ == old(self).cache.info@,
                entry_state.cache.oids@ == old(self).cache.oids@,
                entry_state.fetches@ == old(self).fetches@,
                columns_unchanged(entry_state, *old(self)),
                !should_fetch ==> self.fetches@ == entry_state.fetches@,
                columns@.len() == i,
                names@.len() == i,
                forall|j: int|
                    0 <= j < i ==> {
                        let c = #[trigger] columns@[j];
                        &&& c.ordinal == j
                        &&& c.name@ == fields@[j].name@
                        &&& c.relation_id == fields@[j].relation_id
                        &&& c.relation_attribute_no == fields@[j].relation_attribute_no
                        &&& c.nullable is None
                        &&& c.type_info.spec_oid() == fields@[j].data_type_id
                        &&& (should_fetch ==> wf_resolved(*cat, c.type_info.model()))
                    },
                forall|j: int|
                    0 <= j < i ==> {
                        let e = #[trigger] names@[j];
                        &&& e.name@ == fields@[j].name@
                        &&& e.ordinal == j
                    },
            decreases n - i,
        {
            let field = &fields[i];
            let ghost mid = *self;
            let type_info = match self.maybe_fetch_type_info_by_oid(
                cat,
                field.data_type_id,
                should_fetch,
                &visiting,
            ) {
                Ok(ti) => ti,
                Err(e) => {
                    proof {
                        crate::resolve::lemma_extends_trans(
                            self.cache,
                            mid.cache,
                            entry_state.cache,
                        );
                        assert(visiting@ =~= Seq::<u32>::empty());
                        assert(!resolvable(
                            *cat,
                            Seq::<u32>::empty(),
                            fields@[i as int].data_type_id,
                        ));
                    }
                    return Err(e);
                },
            };
            proof {
                crate::resolve::lemma_extends_trans(self.cache, mid.cache, entry_state.cache);
            }
            let name = field.name.clone();
            columns.push(
                ColumnDescriptor {
                    ordinal: i,
                    name,
                    type_info,
                    relation_id: field.relation_id,
                    relation_attribute_no: field.relation_attribute_no,
                    nullable: None,
                },
            );
            names.push(NameIndexEntry { name: field.name.clone(), ordinal: i });
            i = i + 1;
        }
        // atomically replace the published snapshot
        self.row_columns = columns;
        self.row_column_names = names;
        Ok(())
    }

    /// Resolves every parameter type eagerly — parameter resolution is
    /// never deferred, whatever is happening on the connection.
    pub fn handle_parameter_description(&mut self, cat: &Catalog, type_oids: Vec<u32>) -> (r:
        Result<Vec<ParameterDescriptor>, Error>)
        requires
            cache_wf(old(self).cache, *cat),
        ensures
            cache_wf(final(self).cache, *cat),
            cache_extends(final(self).cache, old(self).cache),
            columns_unchanged(*final(self), *old(self)),
            final(self).fetches@ >= old(self).fetches@,
            r is Ok ==> {
                let ps = r->Ok_0@;
                &&& ps.len() == type_oids@.len()
                &&& forall|i: int|
                    0 <= i < ps.len() ==> {
                        &&& (#[trigger] ps[i]).ordinal == i
                        &&& ps[i].type_info.spec_oid() == type_oids@[i]
                        &&& wf_resolved(*cat, ps[i].type_info.model())
                    }
            },
            type_oids@.len() == 0 ==> r is Ok,
            (forall|i: int|
                0 <= i < type_oids@.len() ==> resolvable(
                    *cat,
                    Seq::<u32>::empty(),
                    type_oids@[i],
                )) ==> r is Ok,
            r is Err ==> exists|i: int|
                0 <= i < type_oids@.len() && !resolvable(*cat, Seq::<u32>::empty(), type_oids@[i]),
    {
        let visiting: Vec<u32> = Vec::new();
        let mut params: Vec<ParameterDescriptor> = Vec::new();
        let n = type_oids.len();
        let mut i: usize = 0;
        let ghost entry_state = *self;
        while i < n
            invariant
                n == type_oids@.len(),
                i <= n,
                visiting@.len() == 0,
                cache_wf(self.cache, *cat),
                cache_extends(self.cache, entry_state.cache),
                columns_unchanged(*self, entry_state),
                self.fetches@ >= entry_state.fetches@,
                entry_state.cache.info@ == old(self).cache.info@,
                entry_state.cache.oids@ == old(self).cache.oids@,
                entry_state.fetches@ == old(self).fetches@,
                columns_unchanged(entry_state, *old(self)),
                params@.len() == i,
                forall|j: int|
                    0 <= j < i ==> {
                        &&& (#[trigger] params@[j]).ordinal == j
                        &&& params@[j].type_info.spec_oid() == type_oids@[j]
                        &&& wf_resolved(*cat, params@[j].type_info.model())
                    },
            decreases n - i,
        {
            let ghost mid = *self;
            let type_info = match self.maybe_fetch_type_info_by_oid(
                cat,
                type_oids[i],
                true,
                &visiting,
            ) {
                Ok(ti) => ti,
                Err(e) => {
                    proof {
                        crate::resolve::lemma_extends_trans(
                            self.cache,
                            mid.cache,
                            entry_state.cache,
                        );
                        assert(visiting@ =~= Seq::<u32>::empty());
                        assert(!resolvable(*cat, Seq::<u32>::empty(), type_oids@[i as int]));
                    }
                    return Err(e);
                },
            };
            proof {
                crate::resolve::lemma_extends_trans(self.cache, mid.cache, entry_state.cache);
            }
            params.push(ParameterDescriptor { ordinal: i, type_info });
            i = i + 1;
        }
        Ok(params)
    }
}

} // verus!

verus! {

impl Connection {
    /// Describes one prepared statement: fully typed columns and
    /// parameters, a name-to-ordinal index, and one nullability verdict per
    /// column.
    ///
    /// Column types are resolved with fetching permitted; parameters are
    /// always eager. Nullability is the bulk catalog check with the
    /// query-plan fallback applied only to ordinals the catalog could not
    /// settle. The connection's published snapshot is replaced wholesale
    /// with the described columns. Unresolved placeholders never appear
    /// here, and unknown nullability is a documented outcome, not an error.
    pub fn describe(&mut self, cat: &Catalog, stmt: PreparedStatement) -> (r: Result<
        DescribeResult,
        Error,
    >)
        requires
            cache_wf(old(self).cache, *cat),
        ensures
            cache_wf(final(self).cache, *cat),
            cache_extends(final(self).cache, old(self).cache),
            final(self).fetches@ >= old(self).fetches@,
            r is Ok ==> {
                let d = r->Ok_0;
                let fields = stmt.fields@;
                &&& d.columns@.len() == fields.len()
                &&& d.column_names@.len() == fields.len()
                &&& d.parameters@.len() == stmt.param_type_oids@.len()
                &&& forall|i: int|
                    0 <= i < fields.len() ==> {
                        let c = #[trigger] d.columns@[i];
                        &&& c.ordinal == i
                        &&& c.name@ == fields[i].name@
                        &&& c.relation_id == fields[i].relation_id
                        &&& c.relation_attribute_no == fields[i].relation_attribute_no
                        &&& c.type_info.spec_oid() == fields[i].data_type_id
                        &&& wf_resolved(*cat, c.type_info.model())
                        &&& c.nullable == crate::nullable::spec_verdict(
                            *cat,
                            stmt.stmt_id,
                            fields[i].relation_id,
                            fields[i].relation_attribute_no,
                            i,
                        )
                    }
                &&& forall|i: int|
                    0 <= i < fields.len() ==> {
                        let e = #[trigger] d.column_names@[i];
                        &&& e.name@ == fields[i].name@
                        &&& e.ordinal == i
                    }
                &&& forall|i: int|
                    0 <= i < stmt.param_type_oids@.len() ==> {
                        let p = #[trigger] d.parameters@[i];
                        &&& p.ordinal == i
                        &&& p.type_info.spec_oid() == stmt.param_type_oids@[i]
                        &&& wf_resolved(*cat, p.type_info.model())
                    }
                &&& final(self).row_columns@.len() == fields.len()
                &&& forall|i: int|
                    0 <= i < fields.len() ==> {
                        let pc = #[trigger] final(self).row_columns@[i];
                        &&& pc.ordinal == d.columns@[i].ordinal
                        &&& pc.name@ == d.columns@[i].name@
                        &&& pc.nullable == d.columns@[i].nullable
                        &&& pc.type_info.model() == d.columns@[i].type_info.model()
                    }
            },
            stmt.fields@.len() == 0 && stmt.param_type_oids@.len() == 0 ==> r is Ok,
            (forall|i: int|
                0 <= i < stmt.fields@.len() ==> resolvable(
                    *cat,
                    Seq::<u32>::empty(),
                    stmt.fields@[i].data_type_id,
                )) && (forall|i: int|
                0 <= i < stmt.param_type_oids@.len() ==> resolvable(
                    *cat,
                    Seq::<u32>::empty(),
                    stmt.param_type_oids@[i],
                )) ==> r is Ok,
            r is Err ==> (exists|i: int|
                0 <= i < stmt.fields@.len() && !resolvable(
                    *cat,
                    Seq::<u32>::empty(),
                    stmt.fields@[i].data_type_id,
                )) || (exists|i: int|
                0 <= i < stmt.param_type_oids@.len() && !resolvable(
                    *cat,
                    Seq::<u32>::empty(),
                    stmt.param_type_oids@[i],
                )),
            r is Ok ==> final(self).row_column_names@.len() == stmt.fields@.len() && forall|i: int|
                0 <= i < stmt.fields@.len() ==> {
                    let e = #[trigger] final(self).row_column_names@[i];
                    &&& e.name@ == stmt.fields@[i].name@
                    &&& e.ordinal == i
                },
    {
        let ghost fseq = stmt.fields@;
        let stmt_id = stmt.stmt_id;
        let nparams = stmt.param_type_oids.len();
        match self.handle_row_description(cat, Some(stmt.fields), true) {
            Ok(()) => {},
            Err(e) => {
                return Err(e);
            },
        }
        let params = match self.handle_parameter_description(cat, stmt.param_type_oids) {
            Ok(p) => p,
            Err(e) => {
                return Err(e);
            },
        };
        // take the snapshot aside; verdicts are computed against it and the
        // verdict-bearing snapshot is published as one replacement below
        let mut cols: Vec<ColumnDescriptor> = Vec::new();
        core::mem::swap(&mut self.row_columns, &mut cols);
        let verdicts = match self.get_nullable_for_columns(cat, stmt_id, nparams, &cols) {
            Ok(v) => v,
            Err(e) => {
                return Err(e);
            },
        };
        let n = cols.len();
        let mut described: Vec<ColumnDescriptor> = Vec::new();
        let mut published: Vec<ColumnDescriptor> = Vec::new();
        let mut names: Vec<NameIndexEntry> = Vec::new();
        let mut i: usize = 0;
        while i < n
            invariant
                n == cols@.len(),
                n == verdicts@.len(),
                n == self.row_column_names@.len(),
                n == fseq.len(),
                forall|j: int|
                    0 <= j < n ==> {
                        let e = #[trigger] self.row_column_names@[j];
                        &&& e.name@ == fseq[j].name@
                        &&& e.ordinal == j
                    },
                i <= n,
                described@.len() == i,
                published@.len() == i,
                names@.len() == i,
                forall|j: int|
                    0 <= j < i ==> {
                        let c = #[trigger] described@[j];
                        &&& c.ordinal == cols@[j].ordinal
                        &&& c.name@ == cols@[j].name@
                        &&& c.relation_id == cols@[j].relation_id
                        &&& c.relation_attribute_no == cols@[j].relation_attribute_no
                        &&& c.type_info.model() == cols@[j].type_info.model()
                        &&& c.type_info.spec_oid() == cols@[j].type_info.spec_oid()
                        &&& c.nullable == verdicts@[j]
                    },
                forall|j: int|
                    0 <= j < i ==> {
                        let c = #[trigger] published@[j];
                        &&& c.ordinal == cols@[j].ordinal
                        &&& c.name@ == cols@[j].name@
                        &&& c.type_info.model() == cols@[j].type_info.model()
                        &&& c.nullable == verdicts@[j]
                    },
                forall|j: int|
                    0 <= j < i ==> {
                        let e = #[trigger] names@[j];
                        &&& e.name@ == self.row_column_names@[j].name@
                        &&& e.ordinal == self.row_column_names@[j].ordinal
                    },
            decreases n - i,
        {
            let mut with_verdict = clone_column(&cols[i]);
            let v = verdicts[i];
            with_verdict.nullable = v;
            published.push(clone_column(&with_verdict));
            described.push(with_verdict);
            names.push(
                NameIndexEntry {
                    name: self.row_column_names[i].name.clone(),
                    ordinal: self.row_column_names[i].ordinal,
                },
            );
            i = i + 1;
        }
        // atomically replace the published snapshot with the described one
        self.row_columns = published;
        Ok(DescribeResult { columns: described, parameters: params, column_names: names })
    }
}

} // verus!
