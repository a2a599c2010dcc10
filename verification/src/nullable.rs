//! Nullability inference: one bulk catalog check, then a query-plan
//! fallback for whatever the catalog could not settle.
//!
//! Step 1 supplies (ordinal, relation id, attribute number) for every
//! column as one batched argument list and left-joins it against the
//! catalog's not-null flag: columns with no backing relation come back
//! unknown, never wrong. Step 2 runs a structured explain of the prepared
//! statement — every parameter slot bound to null, since parameter values
//! cannot affect nullability — and applies its per-output annotations only
//! to ordinals still unknown. Step 1 verdicts are authoritative and are
//! never overwritten; a failed or unusable plan leaves verdicts unknown
//! rather than failing the describe.

use vstd::prelude::*;

use crate::catalog::{find_attr, find_plan, Catalog, PlanNode};
use crate::describe::ColumnDescriptor;
use crate::error::Error;
use crate::resolve::{columns_unchanged, same_cache, Connection};

verus! {

/// One entry of the batched argument list of the bulk query: three binds
/// per column.
pub struct NullBind {
    pub ordinal: usize,
    pub relation_id: u32,
    pub attribute_no: i16,
}

/// Step-1 verdict for one column key: what the left join against the
/// not-null flag yields. Unknown when the column has no backing relation
/// or the catalog has no such attribute.
pub open spec fn spec_step1(cat: Catalog, rel: u32, attno: i16) -> Option<bool> {
    if rel != 0 && find_attr(cat.attrs@, rel, attno) is Some {
        Some(!find_attr(cat.attrs@, rel, attno)->0.not_null)
    } else {
        None
    }
}

/// A plan node that forces its outputs nullable: the full side of a full
/// join, or the inner half of an outer join.
pub open spec fn node_flagged(n: PlanNode) -> bool {
    ||| (n.join_type is Some && n.join_type->0@ == "Full"@)
    ||| (n.parent_relation is Some && n.parent_relation->0@ == "Inner"@)
}

/// Some flagged node of the plan lists this output expression.
pub open spec fn marked_nullable(nodes: Seq<PlanNode>, name: Seq<char>) -> bool {
    exists|a: int, b: int|
        0 <= a < nodes.len() && node_flagged(nodes[a]) && nodes[a].outputs is Some && 0 <= b
            < nodes[a].outputs->0@.len() && nodes[a].outputs->0@[b]@ == name
}

/// Step-2 annotation for one ordinal: `Some(true)` when the plan lists the
/// root's output expression at that ordinal under a flagged node; unknown
/// otherwise — also when there is no usable plan at all.
pub open spec fn spec_fallback(cat: Catalog, stmt_id: u32, i: int) -> Option<bool> {
    match find_plan(cat.plans@, stmt_id) {
        None => None,
        Some(plan) => {
            if plan.nodes@.len() == 0 {
                None
            } else {
                match plan.nodes@[0].outputs {
                    None => None,
                    Some(outs) => {
                        if 0 <= i < outs@.len() && marked_nullable(plan.nodes@, outs@[i]@) {
                            Some(true)
                        } else {
                            None
                        }
                    },
                }
            }
        },
    }
}

/// The verdict the engine owes for one column: step 1 where it is known,
/// else whatever step 2 can add, else unknown.
pub open spec fn spec_verdict(cat: Catalog, stmt_id: u32, rel: u32, attno: i16, i: int) -> Option<
    bool,
> {
    match spec_step1(cat, rel, attno) {
        Some(b) => Some(b),
        None => spec_fallback(cat, stmt_id, i),
    }
}

/// Whether this node forces its outputs nullable.
fn node_flagged_exec(n: &PlanNode) -> (r: bool)
    ensures
        r == node_flagged(*n),
{
    let full: String = "Full".to_owned();
    let inner: String = "Inner".to_owned();
    let by_join = match &n.join_type {
        Some(s) => s.eq(&full),
        None => false,
    };
    let by_parent = match &n.parent_relation {
        Some(s) => s.eq(&inner),
        None => false,
    };
    by_join || by_parent
}

/// Whether any flagged node of the plan lists this output expression.
fn is_marked(nodes: &Vec<PlanNode>, name: &String) -> (r: bool)
    ensures
        r == marked_nullable(nodes@, name@),
{
    let n = nodes.len();
    let mut a: usize = 0;
    while a < n
        invariant
            n == nodes@.len(),
            a <= n,
            forall|x: int, y: int|
                0 <= x < a && node_flagged(nodes@[x]) && nodes@[x].outputs is Some && 0 <= y
                    < nodes@[x].outputs->0@.len() ==> nodes@[x].outputs->0@[y]@ != name@,
        decreases n - a,
    {
        let node = &nodes[a];
        if node_flagged_exec(node) {
            if let Some(outs) = &node.outputs {
                let m = outs.len();
                let mut b: usize = 0;
                while b < m
                    invariant
                        n == nodes@.len(),
                        a < n,
                        m == outs@.len(),
                        b <= m,
                        node_flagged(nodes@[a as int]),
                        nodes@[a as int].outputs is Some,
                        outs@ == nodes@[a as int].outputs->0@,
                        forall|y: int| 0 <= y < b ==> nodes@[a as int].outputs->0@[y]@ != name@,
                    decreases m - b,
                {
                    if outs[b].eq(name) {
                        proof {
                            assert(nodes@[a as int].outputs->0@[b as int]@ == name@);
                        }
                        return true;
                    }
                    b = b + 1;
                }
            }
        }
        a = a + 1;
    }
    false
}

impl Connection {
    /// Step 2: structured explain of the prepared statement, every
    /// parameter slot bound to null, parsed into one annotation per root
    /// output. Fails only when there is no plan or it has no nodes; an
    /// annotation-free plan yields an empty (unusable) list instead.
    pub fn nullables_from_explain(&mut self, cat: &Catalog, stmt_id: u32, params_len: usize) -> (r:
        Result<Vec<Option<bool>>, Error>)
        ensures
            same_cache(*final(self), *old(self)),
            columns_unchanged(*final(self), *old(self)),
            final(self).fetches@ == old(self).fetches@ + 1,
            r is Err <==> (find_plan(cat.plans@, stmt_id) is None || find_plan(
                cat.plans@,
                stmt_id,
            )->0.nodes@.len() == 0),
            match r {
                Ok(fb) => {
                    &&& find_plan(cat.plans@, stmt_id) is Some
                    &&& forall|i: int| 0 <= i < fb@.len() ==> fb@[i] == spec_fallback(*cat, stmt_id, i)
                    &&& forall|i: int|
                        fb@.len() <= i ==> spec_fallback(*cat, stmt_id, i) is None || i < 0
                },
                Err(e) => {
                    &&& e == Error::PlanParse
                    &&& (find_plan(cat.plans@, stmt_id) is None || find_plan(
                        cat.plans@,
                        stmt_id,
                    )->0.nodes@.len() == 0)
                },
            },
    {
        // the statement's params_len parameter slots are all bound to null
        // on the wire: values cannot affect the nullability classification,
        // so only the slot count travels with the explain request
        self.fetches = Ghost(self.fetches@ + 1);
        let pi = match cat.plan_index(stmt_id) {
            Some(pi) => pi,
            None => {
                return Err(Error::PlanParse);
            },
        };
        let plan = &cat.plans[pi];
        if plan.nodes.len() == 0 {
            return Err(Error::PlanParse);
        }
        let root = &plan.nodes[0];
        let outs = match &root.outputs {
            Some(outs) => outs,
            None => {
                // plan carries no output annotations: nothing usable, but
                // that is not an error of the describe
                return Ok(Vec::new());
            },
        };
        let m = outs.len();
        let mut fb: Vec<Option<bool>> = Vec::new();
        let mut i: usize = 0;
        while i < m
            invariant
                m == outs@.len(),
                i <= m,
                fb@.len() == i,
                find_plan(cat.plans@, stmt_id) == Some(cat.plans@[pi as int]),
                pi < cat.plans@.len(),
                cat.plans@[pi as int].nodes@.len() > 0,
                cat.plans@[pi as int].nodes@[0].outputs is Some,
                outs@ == cat.plans@[pi as int].nodes@[0].outputs->0@,
                plan.nodes@ == cat.plans@[pi as int].nodes@,
                forall|j: int| 0 <= j < i ==> fb@[j] == spec_fallback(*cat, stmt_id, j),
            decreases m - i,
        {
            let marked = is_marked(&plan.nodes, &outs[i]);
            fb.push(
                if marked {
                    Some(true)
                } else {
                    None
                },
            );
            i = i + 1;
        }
        Ok(fb)
    }

    /// Computes one nullability verdict per column, order preserved, same
    /// length as the input — always, whatever step 2 could or could not
    /// contribute.
    pub fn get_nullable_for_columns(
        &mut self,
        cat: &Catalog,
        stmt_id: u32,
        params_len: usize,
        columns: &Vec<ColumnDescriptor>,
    ) -> (r: Result<Vec<Option<bool>>, Error>)
        ensures
            same_cache(*final(self), *old(self)),
            columns_unchanged(*final(self), *old(self)),
            final(self).fetches@ >= old(self).fetches@,
            r is Ok,
            r->Ok_0@.len() == columns@.len(),
            forall|i: int|
                0 <= i < columns@.len() ==> r->Ok_0@[i] == spec_verdict(
                    *cat,
                    stmt_id,
                    columns@[i].relation_id,
                    columns@[i].relation_attribute_no,
                    i,
                ),
            forall|i: int|
                0 <= i < columns@.len() && spec_step1(
                    *cat,
                    columns@[i].relation_id,
                    columns@[i].relation_attribute_no,
                ) is Some ==> r->Ok_0@[i] == spec_step1(
                    *cat,
                    columns@[i].relation_id,
                    columns@[i].relation_attribute_no,
                ),
            columns@.len() == 0 ==> final(self).fetches@ == old(self).fetches@,
            columns@.len() > 0 && (forall|i: int|
                0 <= i < columns@.len() ==> spec_step1(
                    *cat,
                    columns@[i].relation_id,
                    columns@[i].relation_attribute_no,
                ) is Some) ==> final(self).fetches@ == old(self).fetches@ + 1,
            columns@.len() > 0 && (exists|i: int|
                0 <= i < columns@.len() && spec_step1(
                    *cat,
                    columns@[i].relation_id,
                    columns@[i].relation_attribute_no,
                ) is None) ==> final(self).fetches@ == old(self).fetches@ + 2,
    {
        if columns.len() == 0 {
            return Ok(Vec::new());
        }
        // one batched argument list: three binds per column, built up
        // front, never string-interpolated
        let n = columns.len();
        let mut binds: Vec<NullBind> = Vec::new();
        let mut i: usize = 0;
        while i < n
            invariant
                n == columns@.len(),
                i <= n,
                binds@.len() == i,
                forall|j: int|
                    0 <= j < i ==> {
                        &&& #[trigger] binds@[j].ordinal == j
                        &&& binds@[j].relation_id == columns@[j].relation_id
                        &&& binds@[j].attribute_no == columns@[j].relation_attribute_no
                    },
            decreases n - i,
        {
            binds.push(
                NullBind {
                    ordinal: i,
                    relation_id: columns[i].relation_id,
                    attribute_no: columns[i].relation_attribute_no,
                },
            );
            i = i + 1;
        }
        // step 1: one bulk round trip, left-joined against the not-null
        // flag, ordered by ordinal
        self.fetches = Ghost(self.fetches@ + 1);
        let mut nullables: Vec<Option<bool>> = Vec::new();
        let mut k: usize = 0;
        while k < n
            invariant
                n == columns@.len(),
                n == binds@.len(),
                k <= n,
                nullables@.len() == k,
                forall|j: int|
                    0 <= j < n ==> {
                        &&& #[trigger] binds@[j].ordinal == j
                        &&& binds@[j].relation_id == columns@[j].relation_id
                        &&& binds@[j].attribute_no == columns@[j].relation_attribute_no
                    },
                forall|j: int|
                    0 <= j < k ==> nullables@[j] == spec_step1(
                        *cat,
                        columns@[j].relation_id,
                        columns@[j].relation_attribute_no,
                    ),
            decreases n - k,
        {
            let b = &binds[k];
            proof {
                assert(binds@[k as int].ordinal == k as int);
            }
            let verdict: Option<bool> = if b.relation_id != 0 {
                match cat.lookup_attr(b.relation_id, b.attribute_no) {
                    Some(a) => Some(!a.not_null),
                    None => None,
                }
            } else {
                None
            };
            nullables.push(verdict);
            k = k + 1;
        }
        // step 2, only if step 1 left gaps
        let mut has_gap = false;
        let mut g: usize = 0;
        while g < n
            invariant
                n == nullables@.len(),
                g <= n,
                has_gap == exists|j: int| 0 <= j < g && nullables@[j] is None,
            decreases n - g,
        {
            if nullables[g].is_none() {
                has_gap = true;
                proof {
                    assert(nullables@[g as int] is None);
                }
            }
            g = g + 1;
        }
        proof {
            assert forall|j: int| 0 <= j < n implies (nullables@[j] is None <==> spec_step1(
                *cat,
                columns@[j].relation_id,
                columns@[j].relation_attribute_no,
            ) is None) by {}
        }
        if has_gap {
            match self.nullables_from_explain(cat, stmt_id, params_len) {
                Ok(fb) => {
                    let mut w: usize = 0;
                    let fl = fb.len();
                    while w < n
                        invariant
                            n == columns@.len(),
                            n == nullables@.len(),
                            fl == fb@.len(),
                            w <= n,
                            forall|j: int|
                                0 <= j < fb@.len() ==> fb@[j] == spec_fallback(*cat, stmt_id, j),
                            forall|j: int|
                                fb@.len() <= j ==> spec_fallback(*cat, stmt_id, j) is None || j
                                    < 0,
                            forall|j: int|
                                w <= j < n ==> nullables@[j] == spec_step1(
                                    *cat,
                                    columns@[j].relation_id,
                                    columns@[j].relation_attribute_no,
                                ),
                            forall|j: int|
                                0 <= j < w ==> nullables@[j] == spec_verdict(
                                    *cat,
                                    stmt_id,
                                    columns@[j].relation_id,
                                    columns@[j].relation_attribute_no,
                                    j,
                                ),
                        decreases n - w,
                    {
                        if nullables[w].is_none() {
                            if w < fl {
                                let fv = fb[w];
                                nullables.set(w, fv);
                            }
                        }
                        w = w + 1;
                    }
                    Ok(nullables)
                },
                Err(_) => {
                    // plan parsing failed: degrade gracefully, the affected
                    // verdicts stay unknown
                    proof {
                        assert forall|j: int| 0 <= j < columns@.len() implies nullables@[j]
                            == spec_verdict(
                            *cat,
                            stmt_id,
                            columns@[j].relation_id,
                            columns@[j].relation_attribute_no,
                            j,
                        ) by {
                            if nullables@[j] is None {
                                assert(spec_fallback(*cat, stmt_id, j) is None);
                            }
                        }
                    }
                    Ok(nullables)
                },
            }
        } else {
            proof {
                assert forall|j: int| 0 <= j < columns@.len() implies nullables@[j]
                    == spec_verdict(
                    *cat,
                    stmt_id,
                    columns@[j].relation_id,
                    columns@[j].relation_attribute_no,
                    j,
                ) by {
                    assert(!(nullables@[j] is None));
                }
                assert forall|j: int| 0 <= j < columns@.len() implies spec_step1(
                    *cat,
                    columns@[j].relation_id,
                    columns@[j].relation_attribute_no,
                ) is Some by {
                    assert(!(nullables@[j] is None));
                }
            }
            Ok(nullables)
        }
    }
}

} // verus!
