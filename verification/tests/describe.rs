use describe_core::catalog::{AttrRow, Catalog, Plan, PlanNode, TypeRow};
use describe_core::describe::{Field, PreparedStatement};
use describe_core::resolve::Connection;

fn tweet_catalog() -> Catalog {
    let attrs = vec![
        AttrRow { relid: 17000, attnum: 1, name: "id".to_string(), type_oid: 20, dropped: false, not_null: true },
        AttrRow { relid: 17000, attnum: 2, name: "created_at".to_string(), type_oid: 1114, dropped: false, not_null: true },
        AttrRow { relid: 17000, attnum: 3, name: "text".to_string(), type_oid: 25, dropped: false, not_null: true },
        AttrRow { relid: 17000, attnum: 4, name: "owner_id".to_string(), type_oid: 20, dropped: false, not_null: false },
    ];
    Catalog { types: Vec::new(), ranges: Vec::new(), enums: Vec::new(), attrs, plans: Vec::new() }
}

fn tweet_field(name: &str, type_oid: u32, attnum: i16) -> Field {
    Field {
        name: name.to_string(),
        data_type_id: type_oid,
        relation_id: 17000,
        relation_attribute_no: attnum,
    }
}

#[test]
fn it_describes_simple() {
    // SELECT * FROM tweet
    let cat = tweet_catalog();
    let mut conn = Connection::new();
    let stmt = PreparedStatement {
        stmt_id: 1,
        fields: vec![
            tweet_field("id", 20, 1),
            tweet_field("created_at", 1114, 2),
            tweet_field("text", 25, 3),
            tweet_field("owner_id", 20, 4),
        ],
        param_type_oids: Vec::new(),
    };
    let d = conn.describe(&cat, stmt).unwrap();

    assert_eq!(d.columns.len(), 4);
    assert_eq!(d.columns[0].name, "id");
    assert_eq!(d.columns[1].name, "created_at");
    assert_eq!(d.columns[2].name, "text");
    assert_eq!(d.columns[3].name, "owner_id");
    assert_eq!(d.columns[0].type_info.display_name(), "BIGINT");
    assert_eq!(d.columns[1].type_info.display_name(), "TIMESTAMP");
    assert_eq!(d.columns[2].type_info.display_name(), "TEXT");
    assert_eq!(d.columns[3].type_info.display_name(), "BIGINT");
    assert_eq!(d.columns[0].nullable, Some(false));
    assert_eq!(d.columns[1].nullable, Some(false));
    assert_eq!(d.columns[2].nullable, Some(false));
    assert_eq!(d.columns[3].nullable, Some(true));
}

#[test]
fn uses_alias_name() {
    // SELECT text AS tweet_text FROM tweet: aliasing renames the column
    // upstream; provenance (relation, attribute) is unchanged
    let cat = tweet_catalog();
    let mut conn = Connection::new();
    let stmt = PreparedStatement {
        stmt_id: 2,
        fields: vec![tweet_field("tweet_text", 25, 3)],
        param_type_oids: Vec::new(),
    };
    let d = conn.describe(&cat, stmt).unwrap();

    assert_eq!(d.columns.len(), 1);
    assert_eq!(d.columns[0].name, "tweet_text");
    // nullability still derives from the underlying attribute
    assert_eq!(d.columns[0].nullable, Some(false));
    assert_eq!(d.column_index_of("tweet_text"), Some(0));
    assert_eq!(d.column_index_of("text"), None);
}

#[test]
fn empty_statement_describes_empty() {
    // a statement with no output, e.g. a bare INSERT
    let cat = tweet_catalog();
    let mut conn = Connection::new();
    let stmt = PreparedStatement { stmt_id: 3, fields: Vec::new(), param_type_oids: Vec::new() };
    let d = conn.describe(&cat, stmt).unwrap();
    assert!(d.columns.is_empty());
    assert!(d.parameters.is_empty());
}

#[test]
fn duplicate_names_later_wins() {
    let cat = tweet_catalog();
    let mut conn = Connection::new();
    let stmt = PreparedStatement {
        stmt_id: 4,
        fields: vec![tweet_field("id", 20, 1), tweet_field("id", 20, 4)],
        param_type_oids: Vec::new(),
    };
    let d = conn.describe(&cat, stmt).unwrap();
    assert_eq!(d.column_index_of("id"), Some(1));
}

#[test]
fn describes_parameters_eagerly() {
    let cat = tweet_catalog();
    let mut conn = Connection::new();
    let stmt = PreparedStatement {
        stmt_id: 5,
        fields: vec![tweet_field("id", 20, 1)],
        param_type_oids: vec![25, 20],
    };
    let d = conn.describe(&cat, stmt).unwrap();
    assert_eq!(d.parameters.len(), 2);
    assert_eq!(d.parameters[0].ordinal, 0);
    assert_eq!(d.parameters[0].type_info.display_name(), "TEXT");
    assert_eq!(d.parameters[1].type_info.display_name(), "BIGINT");
}

#[test]
fn step1_verdict_never_overwritten_by_fallback() {
    // the "text" column is NOT NULL per catalog; the plan flags it
    // nullable, but step 1 is authoritative. The computed column has no
    // backing relation, so only the plan can settle it.
    let mut cat = tweet_catalog();
    cat.plans = vec![Plan {
        stmt_id: 9,
        nodes: vec![
            PlanNode {
                outputs: Some(vec!["text".to_string(), "expr1".to_string()]),
                join_type: None,
                parent_relation: None,
            },
            PlanNode {
                outputs: Some(vec!["text".to_string(), "expr1".to_string()]),
                join_type: Some("Full".to_string()),
                parent_relation: None,
            },
        ],
    }];
    let mut conn = Connection::new();
    let stmt = PreparedStatement {
        stmt_id: 9,
        fields: vec![
            tweet_field("text", 25, 3),
            Field {
                name: "expr1".to_string(),
                data_type_id: 25,
                relation_id: 0,
                relation_attribute_no: 0,
            },
        ],
        param_type_oids: Vec::new(),
    };
    let d = conn.describe(&cat, stmt).unwrap();
    // catalog verdict stands, the plan's opinion on it is ignored
    assert_eq!(d.columns[0].nullable, Some(false));
    // the gap is filled from the plan
    assert_eq!(d.columns[1].nullable, Some(true));
}

#[test]
fn missing_plan_degrades_to_unknown() {
    // a computed column with no usable plan stays unknown; describe still
    // succeeds
    let cat = tweet_catalog();
    let mut conn = Connection::new();
    let stmt = PreparedStatement {
        stmt_id: 10,
        fields: vec![Field {
            name: "expr1".to_string(),
            data_type_id: 25,
            relation_id: 0,
            relation_attribute_no: 0,
        }],
        param_type_oids: Vec::new(),
    };
    let d = conn.describe(&cat, stmt).unwrap();
    assert_eq!(d.columns[0].nullable, None);
}

#[test]
fn deferred_column_type_can_be_reresolved() {
    // while another result stream is consumed, fetching is forbidden: the
    // column type stays a provisional placeholder, to be resolved later
    let mut cat = tweet_catalog();
    cat.types.push(TypeRow {
        oid: 50000,
        name: "citext".to_string(),
        category: b'S',
        relation_id: 0,
        element: 0,
    });
    let mut conn = Connection::new();
    let fields = vec![Field {
        name: "note".to_string(),
        data_type_id: 50000,
        relation_id: 0,
        relation_attribute_no: 0,
    }];
    conn.handle_row_description(&cat, Some(fields), false).unwrap();
    assert!(matches!(
        conn.row_columns[0].type_info,
        describe_core::types::TypeDescriptor::Unresolved(50000)
    ));
    // re-resolution with fetching permitted expands it for real
    let visiting: Vec<u32> = Vec::new();
    let d = conn
        .maybe_fetch_type_info_by_oid(&cat, 50000, true, &visiting)
        .unwrap();
    assert_eq!(d.display_name(), "citext");
}

#[test]
fn describe_publishes_the_snapshot() {
    let cat = tweet_catalog();
    let mut conn = Connection::new();
    let stmt = PreparedStatement {
        stmt_id: 6,
        fields: vec![tweet_field("id", 20, 1), tweet_field("owner_id", 20, 4)],
        param_type_oids: Vec::new(),
    };
    let d = conn.describe(&cat, stmt).unwrap();
    assert_eq!(conn.row_columns.len(), d.columns.len());
    for i in 0..d.columns.len() {
        assert_eq!(conn.row_columns[i].name, d.columns[i].name);
        assert_eq!(conn.row_columns[i].nullable, d.columns[i].nullable);
    }
}
