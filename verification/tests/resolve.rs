use describe_core::catalog::{AttrRow, Catalog, EnumRow, RangeRow, TypeRow};
use describe_core::error::Error;
use describe_core::resolve::Connection;
use describe_core::types::{TypeDescriptor, TypeKind};

fn empty_catalog() -> Catalog {
    Catalog {
        types: Vec::new(),
        ranges: Vec::new(),
        enums: Vec::new(),
        attrs: Vec::new(),
        plans: Vec::new(),
    }
}

fn no_visiting() -> Vec<u32> {
    Vec::new()
}

#[test]
fn builtin_needs_no_catalog() {
    // every builtin id resolves against a completely empty catalog: no
    // round trip can possibly have happened
    let cat = empty_catalog();
    let mut conn = Connection::new();
    for oid in [16u32, 17, 20, 21, 23, 25, 114, 1042, 1043, 1082, 1083, 1114, 1184, 1700, 2950] {
        let d = conn
            .maybe_fetch_type_info_by_oid(&cat, oid, true, &no_visiting())
            .unwrap();
        assert!(matches!(d, TypeDescriptor::Builtin(o) if o == oid));
    }
    assert_eq!(
        conn.maybe_fetch_type_info_by_oid(&cat, 20, true, &no_visiting())
            .unwrap()
            .display_name(),
        "BIGINT"
    );
}

#[test]
fn second_resolution_hits_the_cache() {
    let cat = Catalog {
        types: vec![TypeRow {
            oid: 50000,
            name: "citext".to_string(),
            category: b'S',
            relation_id: 0,
            element: 0,
        }],
        ranges: Vec::new(),
        enums: Vec::new(),
        attrs: Vec::new(),
        plans: Vec::new(),
    };
    let mut conn = Connection::new();
    let first = conn
        .maybe_fetch_type_info_by_oid(&cat, 50000, true, &no_visiting())
        .unwrap();
    let second = conn
        .maybe_fetch_type_info_by_oid(&cat, 50000, true, &no_visiting())
        .unwrap();
    // structurally identical descriptors
    assert_eq!(first.oid(), 50000);
    assert_eq!(second.oid(), 50000);
    assert_eq!(first.display_name(), "citext");
    assert_eq!(second.display_name(), "citext");
    assert!(matches!(&first, TypeDescriptor::Custom(c) if matches!(c.kind, TypeKind::Simple)));
    assert!(matches!(&second, TypeDescriptor::Custom(c) if matches!(c.kind, TypeKind::Simple)));
    // the successful fetch filed the name-to-id binding too
    assert_eq!(conn.fetch_type_id_by_name(&cat, "citext").unwrap(), 50000);
}

#[test]
fn enum_variants_follow_catalog_sort_order() {
    // catalog sort order is sad < ok < happy, which is not alphabetical;
    // rows are stored shuffled to make the ordering the resolver's work
    let cat = Catalog {
        types: vec![TypeRow {
            oid: 60000,
            name: "mood".to_string(),
            category: b'E',
            relation_id: 0,
            element: 0,
        }],
        ranges: Vec::new(),
        enums: vec![
            EnumRow { typid: 60000, sort_key: 2, label: "ok".to_string() },
            EnumRow { typid: 60000, sort_key: 3, label: "happy".to_string() },
            EnumRow { typid: 60000, sort_key: 1, label: "sad".to_string() },
        ],
        attrs: Vec::new(),
        plans: Vec::new(),
    };
    let mut conn = Connection::new();
    let d = conn
        .maybe_fetch_type_info_by_oid(&cat, 60000, true, &no_visiting())
        .unwrap();
    match d {
        TypeDescriptor::Custom(c) => match &c.kind {
            TypeKind::Enum(labels) => {
                assert_eq!(labels, &vec!["sad".to_string(), "ok".to_string(), "happy".to_string()]);
            }
            other => panic!("expected an enum, got {:?}", std::mem::discriminant(other)),
        },
        _ => panic!("expected a custom type"),
    }
}

#[test]
fn composite_excludes_dropped_and_system_columns() {
    let cat = Catalog {
        types: vec![TypeRow {
            oid: 73000,
            name: "point3".to_string(),
            category: b'C',
            relation_id: 73001,
            element: 0,
        }],
        ranges: Vec::new(),
        enums: Vec::new(),
        attrs: vec![
            AttrRow { relid: 73001, attnum: 0, name: "ctid".to_string(), type_oid: 25, dropped: false, not_null: false },
            AttrRow { relid: 73001, attnum: 2, name: "y".to_string(), type_oid: 20, dropped: false, not_null: false },
            AttrRow { relid: 73001, attnum: 1, name: "x".to_string(), type_oid: 20, dropped: false, not_null: false },
            AttrRow { relid: 73001, attnum: 3, name: "z".to_string(), type_oid: 20, dropped: true, not_null: false },
            AttrRow { relid: 73001, attnum: -1, name: "xmin".to_string(), type_oid: 25, dropped: false, not_null: false },
        ],
        plans: Vec::new(),
    };
    let mut conn = Connection::new();
    let d = conn
        .maybe_fetch_type_info_by_oid(&cat, 73000, true, &no_visiting())
        .unwrap();
    match d {
        TypeDescriptor::Custom(c) => match &c.kind {
            TypeKind::Composite(fields) => {
                assert_eq!(fields.len(), 2);
                assert_eq!(fields[0].name, "x");
                assert_eq!(fields[1].name, "y");
                assert!(matches!(fields[0].descriptor, TypeDescriptor::Builtin(20)));
            }
            _ => panic!("expected a composite type"),
        },
        _ => panic!("expected a custom type"),
    }
}

#[test]
fn array_and_range_expand_their_element() {
    let cat = Catalog {
        types: vec![
            TypeRow { oid: 71000, name: "int8_arr".to_string(), category: b'A', relation_id: 0, element: 20 },
            TypeRow { oid: 72000, name: "tsrange".to_string(), category: b'R', relation_id: 0, element: 0 },
        ],
        ranges: vec![RangeRow { rngtypid: 72000, subtype: 1114 }],
        enums: Vec::new(),
        attrs: Vec::new(),
        plans: Vec::new(),
    };
    let mut conn = Connection::new();
    let arr = conn
        .maybe_fetch_type_info_by_oid(&cat, 71000, true, &no_visiting())
        .unwrap();
    match arr {
        TypeDescriptor::Custom(c) => match &c.kind {
            TypeKind::Array(el) => assert!(matches!(**el, TypeDescriptor::Builtin(20))),
            _ => panic!("expected an array type"),
        },
        _ => panic!("expected a custom type"),
    }
    let rng = conn
        .maybe_fetch_type_info_by_oid(&cat, 72000, true, &no_visiting())
        .unwrap();
    match rng {
        TypeDescriptor::Custom(c) => match &c.kind {
            TypeKind::Range(el) => assert!(matches!(**el, TypeDescriptor::Builtin(1114))),
            _ => panic!("expected a range type"),
        },
        _ => panic!("expected a custom type"),
    }
}

#[test]
fn deferred_resolution_yields_placeholder() {
    // no fetch permitted: unknown ids come back as provisional placeholders
    let cat = empty_catalog();
    let mut conn = Connection::new();
    let d = conn
        .maybe_fetch_type_info_by_oid(&cat, 90000, false, &no_visiting())
        .unwrap();
    assert!(matches!(d, TypeDescriptor::Unresolved(90000)));
}

#[test]
fn missing_type_row_is_an_error() {
    let cat = empty_catalog();
    let mut conn = Connection::new();
    let r = conn.maybe_fetch_type_info_by_oid(&cat, 90001, true, &no_visiting());
    assert_eq!(r.unwrap_err(), Error::TypeNotFound(90001));
}

#[test]
fn self_referential_composite_is_cut_off() {
    // a table holding a column of its own composite type: resolution must
    // fail, not recurse forever
    let cat = Catalog {
        types: vec![TypeRow {
            oid: 70000,
            name: "node".to_string(),
            category: b'C',
            relation_id: 70001,
            element: 0,
        }],
        ranges: Vec::new(),
        enums: Vec::new(),
        attrs: vec![AttrRow {
            relid: 70001,
            attnum: 1,
            name: "self_ref".to_string(),
            type_oid: 70000,
            dropped: false,
            not_null: false,
        }],
        plans: Vec::new(),
    };
    let mut conn = Connection::new();
    let r = conn.maybe_fetch_type_info_by_oid(&cat, 70000, true, &no_visiting());
    assert_eq!(r.unwrap_err(), Error::TypeCycle(70000));
}

#[test]
fn type_id_by_name_is_case_insensitive_and_cached() {
    let cat = Catalog {
        types: vec![TypeRow {
            oid: 50000,
            name: "CiText".to_string(),
            category: b'S',
            relation_id: 0,
            element: 0,
        }],
        ranges: Vec::new(),
        enums: Vec::new(),
        attrs: Vec::new(),
        plans: Vec::new(),
    };
    let mut conn = Connection::new();
    assert_eq!(conn.fetch_type_id_by_name(&cat, "citext").unwrap(), 50000);
    // the second hit is answered from the cache, under the queried name
    assert_eq!(conn.fetch_type_id_by_name(&cat, "citext").unwrap(), 50000);
    assert_eq!(conn.fetch_type_id_by_name(&cat, "no_such_type").unwrap_err(), Error::CatalogQuery);
}

#[test]
fn absent_plan_is_a_parse_error() {
    let cat = empty_catalog();
    let mut conn = Connection::new();
    let r = conn.nullables_from_explain(&cat, 77, 0);
    assert_eq!(r.unwrap_err(), Error::PlanParse);
}

#[test]
fn errors_carry_messages() {
    assert_eq!(Error::TypeNotFound(5).message(), "type not found in catalog");
    assert_eq!(Error::TypeCycle(5).message(), "type definition references itself");
    assert_eq!(Error::PlanParse.message(), "unexpected query plan shape");
    assert_eq!(Error::ConnectionAborted.message(), "connection aborted");
    assert_eq!(Error::CatalogQuery.message(), "catalog query failed");
    assert_eq!(Error::Protocol.message(), "protocol error");
}
