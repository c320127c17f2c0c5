use pg_filler::random::RandomSource;
use pg_filler::schema::{Column, SemanticType, Table};
use pg_filler::synth::{
    draft_row, draw_offset, ladder_bound, ladder_int, omits, rand_int, rand_str, synthesize, text_of, Choice, ForeignRequest, KeyKind, SynthError,
    TypedString, Value,
};

fn column(name: &str, ty: SemanticType, nullable: bool, has_default: bool) -> Column {
    Column {
        name: name.to_string(),
        value_type: ty,
        nullable,
        has_default,
        primary_key: false,
        foreign_key: None,
    }
}

fn fk_column(name: &str, ty: SemanticType, table: &str, referenced: &str) -> Column {
    let mut c = column(name, ty, false, false);
    c.foreign_key = Some((table.to_string(), referenced.to_string()));
    c
}

#[test]
fn required_columns_are_never_omitted() {
    let mut rng = RandomSource::seeded(1);
    let types = vec![SemanticType::Boolean, SemanticType::Integer32, SemanticType::Text, SemanticType::Json];
    for ty in types {
        let c = column("c", ty, false, false);
        for _ in 0..500 {
            let choice = synthesize(&mut rng, &c, &None).unwrap();
            assert!(!matches!(choice, Choice::Omit));
        }
    }
}

#[test]
fn nullable_and_defaulted_columns_are_sometimes_omitted() {
    let mut rng = RandomSource::seeded(2);
    let nullable = column("n", SemanticType::Boolean, true, false);
    let defaulted = column("d", SemanticType::Boolean, false, true);
    let mut omitted = (0, 0);
    for _ in 0..3000 {
        if synthesize(&mut rng, &nullable, &None).unwrap() == Choice::Omit {
            omitted.0 += 1;
        }
        if synthesize(&mut rng, &defaulted, &None).unwrap() == Choice::Omit {
            omitted.1 += 1;
        }
    }
    assert!(omitted.0 > 700 && omitted.0 < 1300);
    assert!(omitted.1 > 1700 && omitted.1 < 2300);
}

#[test]
fn foreign_key_columns_ask_for_existing_rows() {
    let mut rng = RandomSource::seeded(3);
    let c = fk_column("customer_id", SemanticType::Integer64, "customers", "id");
    for _ in 0..200 {
        let choice = synthesize(&mut rng, &c, &None).unwrap();
        assert_eq!(
            choice,
            Choice::Foreign(ForeignRequest {
                table: "customers".to_string(),
                column: "id".to_string(),
                kind: KeyKind::Int64,
            })
        );
    }
    let t = fk_column("code", SemanticType::Text, "countries", "code");
    assert!(matches!(synthesize(&mut rng, &t, &None), Ok(Choice::Foreign(ForeignRequest { kind: KeyKind::Text, .. }))));
}

#[test]
fn foreign_keys_of_other_types_are_unsupported() {
    let mut rng = RandomSource::seeded(4);
    let c = fk_column("flag", SemanticType::Boolean, "flags", "value");
    assert_eq!(
        synthesize(&mut rng, &c, &None),
        Err(SynthError::UnsupportedKeyType { column: "flag".to_string() })
    );
}

#[test]
fn override_is_used_verbatim() {
    let mut rng = RandomSource::seeded(5);
    let c = fk_column("customer_id", SemanticType::Integer64, "customers", "id");
    let set = Some(("customer_id".to_string(), Value::Int64(42)));
    for _ in 0..50 {
        assert_eq!(synthesize(&mut rng, &c, &set), Ok(Choice::Bound(Value::Int64(42))));
    }
    let other = Some(("other".to_string(), Value::Int64(42)));
    assert!(matches!(synthesize(&mut rng, &c, &other), Ok(Choice::Foreign(_))));
}

#[test]
fn enumeration_values_are_labels() {
    let mut rng = RandomSource::seeded(6);
    let labels = vec!["open".to_string(), "closed".to_string(), "held".to_string()];
    let c = column("status", SemanticType::Enumeration(labels.clone()), false, false);
    let mut seen = std::collections::BTreeSet::new();
    for _ in 0..300 {
        match synthesize(&mut rng, &c, &None).unwrap() {
            Choice::Bound(Value::Label(TypedString { value })) => {
                assert!(labels.contains(&value));
                seen.insert(value);
            }
            other => panic!("unexpected {:?}", other),
        }
    }
    assert_eq!(seen.len(), 3);
    let empty = column("mood", SemanticType::Enumeration(Vec::new()), false, false);
    assert_eq!(
        synthesize(&mut rng, &empty, &None),
        Err(SynthError::EmptyEnumeration { column: "mood".to_string() })
    );
}

#[test]
fn integer_ladder_reaches_zero_and_large_magnitudes() {
    let mut rng = RandomSource::seeded(7);
    let c = column("n", SemanticType::Integer32, false, false);
    let mut zero = false;
    let mut large = false;
    let mut negative = false;
    for _ in 0..10_000 {
        match synthesize(&mut rng, &c, &None).unwrap() {
            Choice::Bound(Value::Int32(v)) => {
                assert!(v.abs() < 1_000_000);
                zero |= v == 0;
                large |= v.abs() >= 100_000;
                negative |= v < 0;
            }
            other => panic!("unexpected {:?}", other),
        }
    }
    assert!(zero && large && negative);
}

#[test]
fn rand_int_and_rand_str_stay_in_range() {
    let mut rng = RandomSource::seeded(8);
    let mut lengths = std::collections::BTreeSet::new();
    let mut non_ascii = false;
    for _ in 0..2000 {
        assert!(rand_int(&mut rng).abs() < 1_000_000);
        let s = rand_str(&mut rng);
        let n = s.chars().count();
        assert!(n < 50);
        lengths.insert(n);
        non_ascii |= !s.chars().all(|c| c.is_ascii_alphanumeric());
    }
    assert!(lengths.len() > 40);
    assert!(non_ascii);
}

#[test]
fn fixed_types_synthesize_their_values() {
    let mut rng = RandomSource::seeded(9);
    let json = column("doc", SemanticType::Json, false, false);
    assert_eq!(synthesize(&mut rng, &json, &None), Ok(Choice::Bound(Value::Json("{}".to_string()))));
    let bytes = column("blob", SemanticType::ByteArray, false, false);
    assert_eq!(synthesize(&mut rng, &bytes, &None), Ok(Choice::Bound(Value::Bytes(Vec::new()))));
    let array = column("tags", SemanticType::ArrayOf(Box::new(SemanticType::Text)), false, false);
    assert_eq!(synthesize(&mut rng, &array, &None), Ok(Choice::Bound(Value::TextArray(Vec::new()))));
    let ts = column("at", SemanticType::Timestamp, false, false);
    match synthesize(&mut rng, &ts, &None).unwrap() {
        Choice::Bound(Value::Timestamp(nanos)) => assert!(nanos > 1_600_000_000_000_000_000),
        other => panic!("unexpected {:?}", other),
    }
}

#[test]
fn same_seed_gives_same_draws() {
    let c = column("s", SemanticType::Text, false, false);
    let mut a = RandomSource::seeded(10);
    let mut b = RandomSource::seeded(10);
    for _ in 0..100 {
        assert_eq!(synthesize(&mut a, &c, &None), synthesize(&mut b, &c, &None));
    }
}

#[test]
fn empty_referenced_table_fails_the_row() {
    let mut rng = RandomSource::seeded(11);
    let request = ForeignRequest { table: "customers".to_string(), column: "id".to_string(), kind: KeyKind::Int64 };
    assert_eq!(
        draw_offset(&mut rng, &request, 0),
        Err(SynthError::EmptyReferencedTable { table: "customers".to_string() })
    );
    for _ in 0..100 {
        assert!(draw_offset(&mut rng, &request, 5).unwrap() < 5);
    }
    assert_eq!(draw_offset(&mut rng, &request, 1), Ok(0));
}

#[test]
fn draft_row_covers_every_column_in_order() {
    let mut rng = RandomSource::seeded(12);
    let table = Table {
        name: "orders".to_string(),
        columns: vec![
            fk_column("customer_id", SemanticType::Integer64, "customers", "id"),
            column("status", SemanticType::Enumeration(vec!["open".to_string()]), false, false),
            column("total", SemanticType::Integer32, false, false),
        ],
    };
    let set = Some(("customer_id".to_string(), Value::Int64(7)));
    let row = draft_row(&mut rng, &table, &set).unwrap();
    assert_eq!(row.len(), 3);
    assert_eq!(row[0], ("customer_id".to_string(), Choice::Bound(Value::Int64(7))));
    assert_eq!(row[1], ("status".to_string(), Choice::Bound(Value::Label(TypedString { value: "open".to_string() }))));
    assert_eq!(row[2].0, "total");
    let bad = Table { name: "t".to_string(), columns: vec![fk_column("f", SemanticType::Json, "x", "y")] };
    assert!(draft_row(&mut rng, &bad, &None).is_err());
}

#[test]
fn ladder_maps_draws_to_values() {
    assert_eq!(ladder_int(0, 0, false), 0);
    assert_eq!(ladder_int(0, 0, true), 0);
    assert_eq!(ladder_int(1, 2, false), 2);
    assert_eq!(ladder_int(9, 999_999, false), 999_999);
    assert_eq!(ladder_int(9, 999_999, true), -999_999);
    assert_eq!(ladder_int(8, 99_999, true), -99_999);
    let bounds: Vec<u64> = (1..10).map(ladder_bound).collect();
    assert_eq!(bounds, vec![3, 10, 30, 100, 300, 1000, 10_000, 100_000, 1_000_000]);
}

#[test]
fn text_of_keeps_length_and_alphabet() {
    let mut rng = RandomSource::seeded(13);
    for len in [0usize, 1, 17, 49] {
        let s = text_of(&mut rng, len, false);
        assert_eq!(s.chars().count(), len);
        assert!(s.chars().all(|c| c.is_ascii_alphanumeric()));
        assert_eq!(text_of(&mut rng, len, true).chars().count(), len);
    }
    let wide = text_of(&mut rng, 40, true);
    assert!(!wide.chars().all(|c| c.is_ascii_alphanumeric()));
}

#[test]
fn omission_rule_follows_the_draws() {
    assert!(omits(true, false, 0, 0));
    assert!(!omits(true, false, 1, 2));
    assert!(omits(false, true, 1, 1));
    assert!(!omits(false, true, 0, 0));
    assert!(omits(true, true, 2, 2));
    assert!(!omits(true, true, 1, 0));
    assert!(!omits(false, false, 0, 1));
}
