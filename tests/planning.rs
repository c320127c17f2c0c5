use pg_filler::statement::{plan_insert, push_decimal, InsertPlan, Slot};
use pg_filler::synth::{ForeignRequest, KeyKind, Value};

fn slot(column: &str, value: Option<Value>) -> Slot {
    Slot { column: column.to_string(), value }
}

#[test]
fn placeholders_count_bound_values_only() {
    let slots = vec![
        slot("id", None),
        slot("name", Some(Value::Text("ab".to_string()))),
        slot("doc", Some(Value::Json("{}".to_string()))),
        slot("note", None),
        slot("n", Some(Value::Int32(-5))),
    ];
    let plan = plan_insert(&"orders".to_string(), &slots, &None);
    assert_eq!(
        plan,
        InsertPlan {
            statement: "INSERT INTO \"orders\" (\"id\", \"name\", \"doc\", \"note\", \"n\") VALUES (DEFAULT, $1, $2::JSON, DEFAULT, $3)"
                .to_string(),
            params: vec![Value::Text("ab".to_string()), Value::Json("{}".to_string()), Value::Int32(-5)],
        }
    );
}

#[test]
fn returning_column_is_requested_back() {
    let slots = vec![slot("name", Some(Value::Text("x".to_string())))];
    let plan = plan_insert(&"customers".to_string(), &slots, &Some("id".to_string()));
    assert_eq!(plan.statement, "INSERT INTO \"customers\" (\"name\") VALUES ($1) RETURNING \"id\"");
    assert_eq!(plan.params, vec![Value::Text("x".to_string())]);
}

#[test]
fn all_default_row_binds_nothing() {
    let slots = vec![slot("a", None), slot("b", None)];
    let plan = plan_insert(&"t".to_string(), &slots, &None);
    assert_eq!(plan.statement, "INSERT INTO \"t\" (\"a\", \"b\") VALUES (DEFAULT, DEFAULT)");
    assert!(plan.params.is_empty());
}

#[test]
fn placeholders_past_nine_have_two_digits() {
    let slots: Vec<Slot> = (0..11).map(|i| slot(&format!("c{}", i), Some(Value::Bool(i % 2 == 0)))).collect();
    let plan = plan_insert(&"t".to_string(), &slots, &None);
    assert!(plan.statement.ends_with("$9, $10, $11)"));
    assert_eq!(plan.params.len(), 11);
}

#[test]
fn decimal_text() {
    for n in [0u64, 7, 10, 99, 1234567890, u64::MAX] {
        let mut s = "x".to_string();
        push_decimal(&mut s, n);
        assert_eq!(s, format!("x{}", n));
    }
}

#[test]
fn foreign_row_statements() {
    let request = ForeignRequest { table: "customers".to_string(), column: "id".to_string(), kind: KeyKind::Int64 };
    assert_eq!(request.count_sql(), "SELECT count(*) FROM \"customers\"");
    assert_eq!(request.fetch_sql(17), "SELECT \"id\" FROM \"customers\" LIMIT 1 OFFSET 17");
}
