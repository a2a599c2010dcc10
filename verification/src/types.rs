//! Type descriptors: the fully expanded shape of a database type.
//!
//! Executable descriptors hold `String` and `Vec` payloads; their
//! mathematical content is the *model*, a ghost tree over `Seq`, and every
//! contract about descriptors speaks of models. Two descriptors with equal
//! models are structurally identical.

use vstd::prelude::*;

verus! {

broadcast use vstd::std_specs::vec::group_vec_axioms;

/// How a custom (non-builtin) type is structured.
#[derive(Debug)]
pub enum TypeKind {
    /// Scalar type with no further structure, including any catalog category
    /// this core does not recognise (unknown categories degrade to `Simple`
    /// rather than erroring, for forward compatibility).
    Simple,
    /// Pseudo-type.
    Pseudo,
    /// Array of an element type.
    Array(Box<TypeDescriptor>),
    /// Range over an element type.
    Range(Box<TypeDescriptor>),
    /// Enumeration; labels in the catalog-defined sort order.
    Enum(Vec<String>),
    /// Struct-like type: ordered named, typed fields.
    Composite(Vec<CompositeField>),
}

/// One field of a composite type.
#[derive(Debug)]
pub struct CompositeField {
    pub name: String,
    pub descriptor: TypeDescriptor,
}

/// A custom type fetched from the catalog.
#[derive(Debug)]
pub struct CustomType {
    /// Catalog object id of the type.
    pub oid: u32,
    /// Catalog name of the type.
    pub name: String,
    pub kind: TypeKind,
}

/// Fully resolved description of a database type.
#[derive(Debug)]
pub enum TypeDescriptor {
    /// One of the fixed builtin types, resolved purely in-process.
    Builtin(u32),
    /// A user-defined type expanded from catalog rows.
    Custom(Box<CustomType>),
    /// Placeholder: resolution was skipped because no catalog fetch was
    /// permitted at this point. Provisional; callers may re-resolve later.
    Unresolved(u32),
}

/// Ghost model of a [`TypeKind`].
pub enum KindModel {
    Simple,
    Pseudo,
    Array(Box<DescModel>),
    Range(Box<DescModel>),
    Enum(Seq<Seq<char>>),
    Composite(Seq<FieldModel>),
}

/// Ghost model of a [`CompositeField`].
pub struct FieldModel {
    pub name: Seq<char>,
    pub descriptor: DescModel,
}

/// Ghost model of a [`TypeDescriptor`].
pub enum DescModel {
    Builtin(u32),
    Custom { oid: u32, name: Seq<char>, kind: KindModel },
    Unresolved(u32),
}

/// Model of a list of composite fields, in order.
pub open spec fn fields_model(s: Seq<CompositeField>) -> Seq<FieldModel>
    decreases s,
{
    if s.len() == 0 {
        Seq::<FieldModel>::empty()
    } else {
        seq![
            FieldModel { name: s[0].name@, descriptor: s[0].descriptor.model() },
        ] + fields_model(s.drop_first())
    }
}

/// Model of a list of enum labels, in order.
pub open spec fn labels_model(s: Seq<String>) -> Seq<Seq<char>> {
    s.map_values(|l: String| l@)
}

impl TypeKind {
    /// Ghost model of this kind.
    pub open spec fn model(self) -> KindModel
        decreases self,
    {
        match self {
            TypeKind::Simple => KindModel::Simple,
            TypeKind::Pseudo => KindModel::Pseudo,
            TypeKind::Array(el) => KindModel::Array(Box::new(el.model())),
            TypeKind::Range(el) => KindModel::Range(Box::new(el.model())),
            TypeKind::Enum(labels) => KindModel::Enum(labels_model(labels@)),
            TypeKind::Composite(fields) => KindModel::Composite(fields_model(fields@)),
        }
    }
}

impl TypeDescriptor {
    /// Ghost model of this descriptor.
    pub open spec fn model(self) -> DescModel
        decreases self,
    {
        match self {
            TypeDescriptor::Builtin(oid) => DescModel::Builtin(oid),
            TypeDescriptor::Custom(c) => DescModel::Custom {
                oid: c.oid,
                name: c.name@,
                kind: c.kind.model(),
            },
            TypeDescriptor::Unresolved(oid) => DescModel::Unresolved(oid),
        }
    }

    /// The catalog object id this descriptor stands for.
    pub open spec fn spec_oid(self) -> u32 {
        match self {
            TypeDescriptor::Builtin(oid) => oid,
            TypeDescriptor::Custom(c) => c.oid,
            TypeDescriptor::Unresolved(oid) => oid,
        }
    }

    /// The display name of this descriptor: the fixed name of a builtin, the
    /// catalog name of a custom type, empty for a deferred placeholder.
    pub open spec fn spec_name(self) -> Seq<char> {
        match self {
            TypeDescriptor::Builtin(oid) => spec_builtin_name(oid),
            TypeDescriptor::Custom(c) => c.name@,
            TypeDescriptor::Unresolved(_) => Seq::<char>::empty(),
        }
    }

    /// The catalog object id this descriptor stands for.
    pub fn oid(&self) -> (r: u32)
        ensures
            r == self.spec_oid(),
    {
        match self {
            TypeDescriptor::Builtin(oid) => *oid,
            TypeDescriptor::Custom(c) => c.oid,
            TypeDescriptor::Unresolved(oid) => *oid,
        }
    }

    /// The display name of this descriptor.
    pub fn display_name(&self) -> (r: String)
        ensures
            r@ == self.spec_name(),
    {
        match self {
            TypeDescriptor::Builtin(oid) => {
                if oid_is_builtin(*oid) {
                    builtin_name(*oid).to_owned()
                } else {
                    String::new()
                }
            },
            TypeDescriptor::Custom(c) => c.name.clone(),
            TypeDescriptor::Unresolved(_) => String::new(),
        }
    }

    /// Structure-preserving copy: the result has the same model, id and name
    /// as the original.
    pub fn deep_clone(&self) -> (r: TypeDescriptor)
        ensures
            r.model() == self.model(),
            r.spec_oid() == self.spec_oid(),
            r.spec_name() == self.spec_name(),
        decreases *self,
    {
        match self {
            TypeDescriptor::Builtin(oid) => TypeDescriptor::Builtin(*oid),
            TypeDescriptor::Unresolved(oid) => TypeDescriptor::Unresolved(*oid),
            TypeDescriptor::Custom(c) => TypeDescriptor::Custom(
                Box::new(
                    CustomType { oid: c.oid, name: c.name.clone(), kind: clone_kind(&c.kind) },
                ),
            ),
        }
    }
}

/// Appending a field extends the model of a field list by that field's model.
pub proof fn lemma_fields_model_push(s: Seq<CompositeField>, f: CompositeField)
    ensures
        fields_model(s.push(f)) =~= fields_model(s).push(
            FieldModel { name: f.name@, descriptor: f.descriptor.model() },
        ),
    decreases s.len(),
{
    reveal_with_fuel(fields_model, 3);
    if s.len() == 0 {
        assert(s.push(f).drop_first() =~= Seq::<CompositeField>::empty());
    } else {
        assert(s.push(f).drop_first() =~= s.drop_first().push(f));
        lemma_fields_model_push(s.drop_first(), f);
    }
}

/// Structure-preserving copy of a type kind.
#[verifier::loop_isolation(false)]
fn clone_kind(k: &TypeKind) -> (r: TypeKind)
    ensures
        r.model() == k.model(),
    decreases *k,
{
    match k {
        TypeKind::Simple => TypeKind::Simple,
        TypeKind::Pseudo => TypeKind::Pseudo,
        TypeKind::Array(el) => TypeKind::Array(Box::new(el.deep_clone())),
        TypeKind::Range(el) => TypeKind::Range(Box::new(el.deep_clone())),
        TypeKind::Enum(labels) => {
            let mut out: Vec<String> = Vec::new();
            let mut i: usize = 0;
            while i < labels.len()
                invariant
                    i <= labels.len(),
                    out@ =~= labels@.subrange(0, i as int),
                decreases labels.len() - i,
            {
                out.push(labels[i].clone());
                i = i + 1;
            }
            proof {
                assert(out@ =~= labels@);
            }
            TypeKind::Enum(out)
        },
        TypeKind::Composite(fields) => {
            let mut out: Vec<CompositeField> = Vec::new();
            let mut i: usize = 0;
            while i < fields.len()
                invariant
                    i <= fields.len(),
                    out@.len() == i,
                    fields_model(out@) =~= fields_model(fields@.subrange(0, i as int)),
                decreases fields.len() - i,
            {
                let f = &fields[i];
                proof {
                    assert(decreases_to!(*k => fields@));
                    assert(decreases_to!(fields@ => fields@[i as int]));
                }
                let copied = CompositeField {
                    name: f.name.clone(),
                    descriptor: f.descriptor.deep_clone(),
                };
                proof {
                    lemma_fields_model_push(out@, copied);
                    lemma_fields_model_push(fields@.subrange(0, i as int), fields@[i as int]);
                    assert(fields@.subrange(0, i as int).push(fields@[i as int]) =~= fields@
                        .subrange(0, i + 1));
                }
                out.push(copied);
                i = i + 1;
            }
            proof {
                assert(fields@.subrange(0, fields@.len() as int) =~= fields@);
            }
            TypeKind::Composite(out)
        },
    }
}

/// The fixed set of type ids the core resolves without any catalog work.
pub open spec fn is_builtin(oid: u32) -> bool {
    ||| oid == 16  // boolean
    ||| oid == 17  // byte array
    ||| oid == 20  // eight-byte integer
    ||| oid == 21  // two-byte integer
    ||| oid == 23  // four-byte integer
    ||| oid == 25  // text
    ||| oid == 114  // json document
    ||| oid == 1042  // blank-padded char
    ||| oid == 1043  // varying-length char
    ||| oid == 1082  // date
    ||| oid == 1083  // time of day
    ||| oid == 1114  // timestamp
    ||| oid == 1184  // timestamp with time zone
    ||| oid == 1700  // arbitrary-precision numeric
    ||| oid == 2950  // uuid
}

/// Whether a type id belongs to the builtin static table.
pub fn oid_is_builtin(oid: u32) -> (r: bool)
    ensures
        r == is_builtin(oid),
{
    oid == 16 || oid == 17 || oid == 20 || oid == 21 || oid == 23 || oid == 25 || oid == 114
        || oid == 1042 || oid == 1043 || oid == 1082 || oid == 1083 || oid == 1114 || oid == 1184
        || oid == 1700 || oid == 2950
}

/// Display name of a builtin type id, as a sequence of characters.
pub open spec fn spec_builtin_name(oid: u32) -> Seq<char> {
    if oid == 16 {
        "BOOLEAN"@
    } else if oid == 17 {
        "BYTEA"@
    } else if oid == 20 {
        "BIGINT"@
    } else if oid == 21 {
        "SMALLINT"@
    } else if oid == 23 {
        "INT"@
    } else if oid == 25 {
        "TEXT"@
    } else if oid == 114 {
        "JSON"@
    } else if oid == 1042 {
        "CHAR"@
    } else if oid == 1043 {
        "VARCHAR"@
    } else if oid == 1082 {
        "DATE"@
    } else if oid == 1083 {
        "TIME"@
    } else if oid == 1114 {
        "TIMESTAMP"@
    } else if oid == 1184 {
        "TIMESTAMPTZ"@
    } else if oid == 1700 {
        "NUMERIC"@
    } else if oid == 2950 {
        "UUID"@
    } else {
        Seq::<char>::empty()
    }
}

/// Builtin static table lookup: zero catalog work, covers the fixed set of
/// primitive types.
pub fn try_builtin(oid: u32) -> (r: Option<TypeDescriptor>)
    ensures
        r is Some <==> is_builtin(oid),
        r is Some ==> r->0 == TypeDescriptor::Builtin(oid),
{
    if oid_is_builtin(oid) {
        Some(TypeDescriptor::Builtin(oid))
    } else {
        None
    }
}

/// Display name of a builtin type id.
pub fn builtin_name(oid: u32) -> (r: &'static str)
    requires
        is_builtin(oid),
    ensures
        r@ == spec_builtin_name(oid),
{
    if oid == 16 {
        "BOOLEAN"
    } else if oid == 17 {
        "BYTEA"
    } else if oid == 20 {
        "BIGINT"
    } else if oid == 21 {
        "SMALLINT"
    } else if oid == 23 {
        "INT"
    } else if oid == 25 {
        "TEXT"
    } else if oid == 114 {
        "JSON"
    } else if oid == 1042 {
        "CHAR"
    } else if oid == 1043 {
        "VARCHAR"
    } else if oid == 1082 {
        "DATE"
    } else if oid == 1083 {
        "TIME"
    } else if oid == 1114 {
        "TIMESTAMP"
    } else if oid == 1184 {
        "TIMESTAMPTZ"
    } else if oid == 1700 {
        "NUMERIC"
    } else {
        "UUID"
    }
}

} // verus!
