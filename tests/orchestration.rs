use pg_filler::config::{parse_arguments, ConfigError, Parameters, Rule};
use pg_filler::orchestrate::{
    draw_table, is_skipped, plan_iteration, returned_kind, Action, Counters, Event, InsertRequest, Iteration, IterationPlan,
    PlanError, Stage,
};
use pg_filler::random::RandomSource;
use pg_filler::schema::{Column, Database, SemanticType, Table};
use pg_filler::synth::{KeyKind, Value};

fn args(list: &[&str]) -> Vec<String> {
    list.iter().map(|s| s.to_string()).collect()
}

fn table(name: &str, columns: Vec<Column>) -> Table {
    Table { name: name.to_string(), columns }
}

fn column(name: &str, ty: SemanticType) -> Column {
    Column { name: name.to_string(), value_type: ty, nullable: false, has_default: false, primary_key: false, foreign_key: None }
}

fn shop() -> Database {
    Database {
        tables: vec![
            table("customers", vec![column("id", SemanticType::Integer64), column("name", SemanticType::Text)]),
            table("orders", vec![column("customer_id", SemanticType::Integer64), column("at", SemanticType::Timestamp)]),
            table("audit", vec![column("line", SemanticType::Text)]),
        ],
    }
}

fn rule(local: &str, table: &str, column: &str) -> Rule {
    Rule { local_column: local.to_string(), related_table: table.to_string(), related_column: column.to_string() }
}

#[test]
fn parses_filters_and_rules() {
    let p = parse_arguments(&args(&[
        "--only=orders",
        "--require-after=orders,customer_id,customers,id",
        "--require-before=audit,line,orders,id",
        "--only=audit",
    ]))
    .unwrap();
    assert_eq!(
        p,
        Parameters {
            onlys: args(&["orders", "audit"]),
            skips: Vec::new(),
            require_afters: vec![("orders".to_string(), rule("customer_id", "customers", "id"))],
            require_befores: vec![("audit".to_string(), rule("line", "orders", "id"))],
        }
    );
    assert_eq!(parse_arguments(&Vec::new()).unwrap().onlys, Vec::<String>::new());
}

#[test]
fn rejects_bad_arguments() {
    assert_eq!(
        parse_arguments(&args(&["--require-after=orders,customer_id,customers"])),
        Err(ConfigError::MalformedRule { argument: "orders,customer_id,customers".to_string() })
    );
    assert_eq!(
        parse_arguments(&args(&["--require-before=a,b,c,d,e"])),
        Err(ConfigError::MalformedRule { argument: "a,b,c,d,e".to_string() })
    );
    assert_eq!(
        parse_arguments(&args(&["--only=a", "--skip=b"])),
        Err(ConfigError::FiltersCombined)
    );
    assert_eq!(parse_arguments(&args(&["--help"])), Err(ConfigError::Usage));
    assert_eq!(
        parse_arguments(&args(&["--verbose"])),
        Err(ConfigError::UnknownOption { argument: "--verbose".to_string() })
    );
}

#[test]
fn later_rule_for_a_table_replaces_earlier() {
    let p = parse_arguments(&args(&[
        "--require-after=orders,customer_id,customers,id",
        "--require-after=orders,customer_id,customers,name",
    ]))
    .unwrap();
    assert_eq!(
        plan_iteration(&p, &"orders".to_string()),
        IterationPlan::Linked {
            related_table: "customers".to_string(),
            related_column: "name".to_string(),
            table: "orders".to_string(),
            local_column: "customer_id".to_string(),
        }
    );
}

#[test]
fn only_filter_always_draws_that_table() {
    let db = shop();
    let p = parse_arguments(&args(&["--only=orders"])).unwrap();
    let mut rng = RandomSource::seeded(21);
    for _ in 0..1000 {
        assert_eq!(draw_table(&mut rng, &db, &p), Some("orders".to_string()));
    }
}

#[test]
fn skipped_tables_are_never_drawn() {
    let db = shop();
    let p = parse_arguments(&args(&["--skip=audit", "--skip=customers"])).unwrap();
    let mut rng = RandomSource::seeded(22);
    let mut drawn = 0;
    for _ in 0..1000 {
        match draw_table(&mut rng, &db, &p) {
            Some(t) => {
                assert_eq!(t, "orders");
                drawn += 1;
            }
            None => {}
        }
    }
    assert!(drawn > 200);
    let empty = Database { tables: Vec::new() };
    let none = parse_arguments(&Vec::new()).unwrap();
    assert_eq!(draw_table(&mut rng, &empty, &none), None);
}

#[test]
fn require_after_inserts_related_row_first_and_feeds_its_key() {
    let p = parse_arguments(&args(&["--require-after=orders,customer_id,customers,id"])).unwrap();
    let plan = plan_iteration(&p, &"orders".to_string());
    let (mut it, first) = Iteration::start(plan);
    assert_eq!(
        first,
        Action::Insert(InsertRequest { table: "customers".to_string(), set_column: None, returning: Some("id".to_string()) })
    );
    let second = it.advance(Event::Inserted(Some(Value::Int64(31))));
    assert_eq!(
        second,
        Action::Insert(InsertRequest {
            table: "orders".to_string(),
            set_column: Some(("customer_id".to_string(), Value::Int64(31))),
            returning: None,
        })
    );
    assert_eq!(it.stage, Stage::AwaitSecond);
    assert_eq!(it.advance(Event::Inserted(None)), Action::Commit);
    assert_eq!(it.stage, Stage::Done);
    assert_eq!(it.advance(Event::Inserted(None)), Action::Abort);
}

#[test]
fn require_after_takes_priority_over_require_before() {
    let p = parse_arguments(&args(&[
        "--require-before=orders,customer_id,customers,name",
        "--require-after=orders,customer_id,customers,id",
    ]))
    .unwrap();
    match plan_iteration(&p, &"orders".to_string()) {
        IterationPlan::Linked { related_column, .. } => assert_eq!(related_column, "id"),
        other => panic!("unexpected {:?}", other),
    }
    let q = parse_arguments(&args(&["--require-before=orders,customer_id,customers,name"])).unwrap();
    assert_eq!(
        plan_iteration(&q, &"customers".to_string()),
        IterationPlan::Plain { table: "customers".to_string() }
    );
}

#[test]
fn failures_abort_the_iteration() {
    let plain = IterationPlan::Plain { table: "audit".to_string() };
    let (mut it, first) = Iteration::start(plain);
    assert_eq!(
        first,
        Action::Insert(InsertRequest { table: "audit".to_string(), set_column: None, returning: None })
    );
    assert_eq!(it.advance(Event::Failed), Action::Abort);

    let linked = IterationPlan::Linked {
        related_table: "customers".to_string(),
        related_column: "id".to_string(),
        table: "orders".to_string(),
        local_column: "customer_id".to_string(),
    };
    let (mut it, _) = Iteration::start(linked);
    assert_eq!(it.advance(Event::Inserted(None)), Action::Abort);

    let (mut it, _) = Iteration::start(IterationPlan::Linked {
        related_table: "customers".to_string(),
        related_column: "id".to_string(),
        table: "orders".to_string(),
        local_column: "customer_id".to_string(),
    });
    assert!(matches!(it.advance(Event::Inserted(Some(Value::Int64(1)))), Action::Insert(_)));
    assert_eq!(it.advance(Event::Failed), Action::Abort);

    let (mut it, _) = Iteration::start(IterationPlan::Plain { table: "audit".to_string() });
    assert_eq!(it.advance(Event::Inserted(None)), Action::Commit);
}

#[test]
fn counters_count_commits_and_failures() {
    let mut c = Counters::new();
    c.record(true);
    c.record(true);
    c.record(false);
    assert_eq!(c, Counters { committed: 2, failed: 1 });
    let mut full = Counters { committed: u64::MAX, failed: 0 };
    full.record(true);
    assert_eq!(full.committed, u64::MAX);
}

#[test]
fn returned_column_kinds() {
    let db = shop();
    assert_eq!(returned_kind(&db, &"customers".to_string(), &"id".to_string()), Ok(KeyKind::Int64));
    assert_eq!(returned_kind(&db, &"customers".to_string(), &"name".to_string()), Ok(KeyKind::Text));
    assert_eq!(
        returned_kind(&db, &"orders".to_string(), &"at".to_string()),
        Err(PlanError::UnsupportedReturnType { table: "orders".to_string(), column: "at".to_string() })
    );
    assert_eq!(
        returned_kind(&db, &"nope".to_string(), &"id".to_string()),
        Err(PlanError::UnknownTable { table: "nope".to_string() })
    );
    assert_eq!(
        returned_kind(&db, &"orders".to_string(), &"nope".to_string()),
        Err(PlanError::UnknownColumn { table: "orders".to_string(), column: "nope".to_string() })
    );
}

#[test]
fn deny_set_membership() {
    let skips = args(&["audit", "logs"]);
    assert!(is_skipped(&skips, &"logs".to_string()));
    assert!(!is_skipped(&skips, &"orders".to_string()));
    assert!(!is_skipped(&Vec::new(), &"orders".to_string()));
}
