use hackmarket::attr::{AttrValue, Field, Record};
use hackmarket::decimal::{format_u64, parse_u64};
use hackmarket::mutation::{place_on_market, take_off_market, update_outcome, Assignment, Update};
use hackmarket::sale::{CodecError, Sale, SaleField};
use hackmarket::search::{market_search, search_query, skipped_errors, MarketError};

fn text(s: &str) -> AttrValue {
    AttrValue::string(s.to_string())
}

fn num(s: &str) -> AttrValue {
    AttrValue::number(s.to_string())
}

fn record(fields: Vec<(&str, AttrValue)>) -> Record {
    Record::new(
        fields
            .into_iter()
            .map(|(n, v)| Field::new(n.to_string(), v))
            .collect(),
    )
}

fn same_value(a: &AttrValue, b: &AttrValue) -> bool {
    a.s == b.s && a.n == b.n
}

/// Applies an update as the store does: written fields replace their
/// namesakes, removed ones go, the rest stay.
fn apply(rec: &Record, u: &Update) -> Record {
    let mut fields: Vec<Field> = u
        .set
        .iter()
        .map(|a| Field::new(a.name.clone(), a.value.duplicate()))
        .collect();
    for f in &rec.fields {
        let touched = u.set.iter().any(|s| s.name == f.name) || u.remove.iter().any(|n| *n == f.name);
        if !touched {
            fields.push(f.duplicate());
        }
    }
    Record::new(fields)
}

fn cat() -> AttrValue {
    num("1")
}

const ID: u128 = 0xa1a2a3a4b1b2c1c2d1d2d3d4d5d6d7d8;

fn stored_item() -> Record {
    record(vec![
        ("cat", cat()),
        ("id", text("a1a2a3a4-b1b2-c1c2-d1d2-d3d4d5d6d7d8")),
        ("owner", text("U123")),
    ])
}

#[test]
fn codec_reads_a_listing() {
    let r = record(vec![("price", num("500")), ("market_name", text("Golden Egg"))]);
    assert_eq!(Sale::from_item(&r), Ok(Sale::new(500, "Golden Egg".to_string())));
}

#[test]
fn codec_missing_price() {
    let r = record(vec![("market_name", text("Golden Egg"))]);
    assert_eq!(Sale::from_item(&r), Err(CodecError::MissingField(SaleField::Price)));
}

#[test]
fn codec_missing_market_name() {
    let r = record(vec![("price", num("5"))]);
    assert_eq!(Sale::from_item(&r), Err(CodecError::MissingField(SaleField::MarketName)));
}

#[test]
fn codec_missing_beats_wrong_type() {
    let r = record(vec![("market_name", num("7"))]);
    assert_eq!(Sale::from_item(&r), Err(CodecError::MissingField(SaleField::Price)));
}

#[test]
fn codec_wrongly_typed_price() {
    let r = record(vec![("price", text("500")), ("market_name", text("Egg"))]);
    assert_eq!(Sale::from_item(&r), Err(CodecError::WronglyTypedField(SaleField::Price)));
}

#[test]
fn codec_wrongly_typed_market_name() {
    let r = record(vec![("price", num("500")), ("market_name", num("3"))]);
    assert_eq!(
        Sale::from_item(&r),
        Err(CodecError::WronglyTypedField(SaleField::MarketName))
    );
}

#[test]
fn codec_non_numeric_price() {
    for bad in ["abc", "", "12x", "-5", "+", "1.5", "18446744073709551616"] {
        let r = record(vec![("price", num(bad)), ("market_name", text("Egg"))]);
        assert_eq!(Sale::from_item(&r), Err(CodecError::MalformedValue(SaleField::Price)));
    }
}

#[test]
fn codec_first_field_of_a_name_counts() {
    let r = record(vec![
        ("price", num("7")),
        ("market_name", text("A")),
        ("price", num("9")),
    ]);
    assert_eq!(Sale::from_item(&r), Ok(Sale::new(7, "A".to_string())));
}

#[test]
fn decimal_reading() {
    assert_eq!(parse_u64("0"), Some(0));
    assert_eq!(parse_u64("007"), Some(7));
    assert_eq!(parse_u64("+42"), Some(42));
    assert_eq!(parse_u64("18446744073709551615"), Some(u64::MAX));
    assert_eq!(parse_u64("18446744073709551616"), None);
    assert_eq!(parse_u64(""), None);
    assert_eq!(parse_u64("4 2"), None);
}

#[test]
fn decimal_writing() {
    assert_eq!(format_u64(0), "0");
    assert_eq!(format_u64(500), "500");
    assert_eq!(format_u64(u64::MAX), "18446744073709551615");
    assert_eq!(parse_u64(&format_u64(123456789)), Some(123456789));
}

#[test]
fn query_targets_category_index() {
    let q = search_query(&cat());
    assert_eq!(q.index_name, "cat_price_index");
    assert_eq!(q.key_condition, "cat = :sale_cat");
    assert_eq!(q.values.len(), 1);
    assert_eq!(q.values[0].name, ":sale_cat");
    assert!(same_value(&q.values[0].value, &cat()));
}

#[test]
fn search_skips_malformed_record() {
    let good = record(vec![("price", num("10")), ("market_name", text("Good"))]);
    let bad = record(vec![("price", text("ten")), ("market_name", text("Bad"))]);
    let found = market_search(Ok(Some(vec![good, bad]))).unwrap();
    assert_eq!(found.len(), 1);
    assert_eq!(found[0].0, Sale::new(10, "Good".to_string()));
}

#[test]
fn search_skips_unlisted_record() {
    let found = market_search(Ok(Some(vec![stored_item()]))).unwrap();
    assert!(found.is_empty());
}

#[test]
fn search_of_empty_category_is_empty() {
    let found = market_search(Ok(Some(vec![]))).unwrap();
    assert!(found.is_empty());
}

#[test]
fn search_store_failure() {
    match market_search(Err("throttled".to_string())) {
        Err(MarketError::StoreUnavailable { item: None, cause }) => assert_eq!(cause, "throttled"),
        other => panic!("unexpected {:?}", other),
    }
}

#[test]
fn search_without_collection() {
    assert!(matches!(market_search(Ok(None)), Err(MarketError::EmptyResponse)));
}

#[test]
fn place_builds_set_update() {
    let u = place_on_market(&cat(), ID, 500, "Golden Egg".to_string());
    assert_eq!(u.key.len(), 2);
    assert_eq!(u.key[0].name, "cat");
    assert!(same_value(&u.key[0].value, &cat()));
    assert_eq!(u.key[1].name, "id");
    assert_eq!(
        u.key[1].value.s.as_deref(),
        Some("a1a2a3a4-b1b2-c1c2-d1d2-d3d4d5d6d7d8")
    );
    assert_eq!(u.expression(), "SET price = :sale_price, market_name = :new_name");
    let values = u.expression_values().unwrap();
    assert_eq!(values.len(), 2);
    assert_eq!(values[0].name, ":sale_price");
    assert_eq!(values[0].value.n.as_deref(), Some("500"));
    assert_eq!(values[1].name, ":new_name");
    assert_eq!(values[1].value.s.as_deref(), Some("Golden Egg"));
    assert!(u.remove.is_empty());
}

#[test]
fn take_off_builds_remove_update() {
    let u = take_off_market(&cat(), ID);
    assert_eq!(u.expression(), "REMOVE price, market_name");
    assert!(u.expression_values().is_none());
    assert!(u.set.is_empty());
    assert_eq!(u.key[1].value.s.as_deref(), Some("a1a2a3a4-b1b2-c1c2-d1d2-d3d4d5d6d7d8"));
}

#[test]
fn update_with_both_clauses() {
    let u = Update {
        key: vec![],
        set: vec![Assignment::new("a".to_string(), ":v".to_string(), num("1"))],
        remove: vec!["b".to_string(), "c".to_string()],
    };
    assert_eq!(u.expression(), "SET a = :v REMOVE b, c");
    let values = u.expression_values().unwrap();
    assert_eq!(values[0].name, ":v");
    assert_eq!(values[0].value.n.as_deref(), Some("1"));
}

#[test]
fn mutation_outcomes() {
    assert!(update_outcome(ID, Ok(())).is_ok());
    match update_outcome(ID, Err("denied".to_string())) {
        Err(MarketError::StoreUnavailable { item: Some(i), cause }) => {
            assert_eq!(i, ID);
            assert_eq!(cause, "denied");
        }
        other => panic!("unexpected {:?}", other),
    }
}

#[test]
fn placed_item_is_found() {
    let placed = apply(&stored_item(), &place_on_market(&cat(), ID, 500, "Golden Egg".to_string()));
    let found = market_search(Ok(Some(vec![placed]))).unwrap();
    assert_eq!(found.len(), 1);
    assert_eq!(found[0].0, Sale::new(500, "Golden Egg".to_string()));
    assert_eq!(found[0].1.get("owner").and_then(|v| v.s.clone()), Some("U123".to_string()));
}

#[test]
fn take_off_twice_is_once() {
    let listed = apply(&stored_item(), &place_on_market(&cat(), ID, 500, "Egg".to_string()));
    let u = take_off_market(&cat(), ID);
    let once = apply(&listed, &u);
    let twice = apply(&once, &u);
    assert_eq!(once.fields.len(), twice.fields.len());
    for (a, b) in once.fields.iter().zip(twice.fields.iter()) {
        assert_eq!(a.name, b.name);
        assert!(same_value(&a.value, &b.value));
    }
    assert_eq!(once.fields.len(), 3);
    assert!(update_outcome(ID, Ok(())).is_ok());
    assert!(market_search(Ok(Some(vec![twice]))).unwrap().is_empty());
}

#[test]
fn last_placement_wins() {
    let first = apply(&stored_item(), &place_on_market(&cat(), ID, 100, "A".to_string()));
    let second = apply(&first, &place_on_market(&cat(), ID, 200, "B".to_string()));
    let found = market_search(Ok(Some(vec![second]))).unwrap();
    assert_eq!(found.len(), 1);
    assert_eq!(found[0].0, Sale::new(200, "B".to_string()));
}

#[test]
fn skipped_records_are_reported() {
    let good = record(vec![("price", num("10")), ("market_name", text("Good"))]);
    let bad = record(vec![("price", text("ten")), ("market_name", text("Bad"))]);
    let errors = skipped_errors(&vec![good, bad, stored_item()]);
    assert_eq!(
        errors,
        vec![
            CodecError::WronglyTypedField(SaleField::Price),
            CodecError::MissingField(SaleField::MarketName),
        ]
    );
}

#[test]
fn item_id_text() {
    let u = take_off_market(&cat(), 0x0123456789abcdef0011223344556677);
    assert_eq!(u.key[1].value.s.as_deref(), Some("01234567-89ab-cdef-0011-223344556677"));
    let z = take_off_market(&cat(), 0);
    assert_eq!(z.key[1].value.s.as_deref(), Some("00000000-0000-0000-0000-000000000000"));
}
