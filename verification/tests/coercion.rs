use preft::floattext::{float_text_parses, float_text_truncate};
use preft::migrations::{coerce_value, has_schema_changes, migrate_custom_fields};
use preft::models::{Category, CategoryField, CustomField, FieldType, FlowType, TaxDeductionInfo};

fn field(name: &str, field_type: FieldType) -> CategoryField {
    CategoryField { name: name.to_owned(), field_type, required: false, default_value: None }
}

fn category(id: &str, fields: Vec<CategoryField>) -> Category {
    Category {
        id: id.to_owned(),
        name: id.to_owned(),
        flow_type: FlowType::Expense,
        parent_id: None,
        fields,
        tax_deduction: TaxDeductionInfo { deduction_allowed: false, default_value: false },
    }
}

#[test]
fn test_float_grammar_matches_float_parser() {
    let cases = [
        "", "0", "5", "+5", "-5", "5.", ".5", "5.5", "-0.25", "1e5", "1E5", "1e+5", "1e-5",
        "5.e3", ".5e3", "1.2e", "e5", ".", "-", "+", "inf", "INF", "Infinity", "-infinity",
        "nan", "NaN", "-NaN", "infi", "5f", "0x10", " 5", "5 ", "1_000", "--5", "1e99999",
        "123456789123456789123456789", "0.000000000000000000001",
    ];
    for s in cases {
        assert_eq!(
            float_text_parses(s),
            s.parse::<f64>().is_ok(),
            "grammar disagrees on {:?}",
            s
        );
    }
}

#[test]
fn test_float_truncation() {
    assert_eq!(float_text_truncate("3.9"), Some(3));
    assert_eq!(float_text_truncate("-2.7"), Some(-2));
    assert_eq!(float_text_truncate("1.5e3"), Some(1500));
    assert_eq!(float_text_truncate("250e-2"), Some(2));
    assert_eq!(float_text_truncate("inf"), Some(i64::MAX));
    assert_eq!(float_text_truncate("-inf"), Some(i64::MIN));
    assert_eq!(float_text_truncate("nan"), Some(0));
    assert_eq!(float_text_truncate("1e30"), Some(i64::MAX));
    assert_eq!(float_text_truncate("-1e30"), Some(i64::MIN));
    assert_eq!(float_text_truncate("abc"), None);
    assert_eq!(float_text_truncate("0.0000001"), Some(0));
}

#[test]
fn test_coerce_integer() {
    assert_eq!(coerce_value(&FieldType::Integer, "42"), Some("42".to_owned()));
    assert_eq!(coerce_value(&FieldType::Integer, "3.9"), Some("3".to_owned()));
    assert_eq!(coerce_value(&FieldType::Integer, "abc"), None);
}

#[test]
fn test_coerce_float() {
    assert_eq!(coerce_value(&FieldType::Float, "2.5"), Some("2.5".to_owned()));
    assert_eq!(coerce_value(&FieldType::Float, "7"), Some("7".to_owned()));
    assert_eq!(coerce_value(&FieldType::Float, "x"), None);
}

#[test]
fn test_coerce_currency() {
    assert_eq!(coerce_value(&FieldType::Currency, "$1,234.50"), Some("1234.50".to_owned()));
    assert_eq!(coerce_value(&FieldType::Currency, "42"), Some("42".to_owned()));
    assert_eq!(coerce_value(&FieldType::Currency, "$x"), None);
}

#[test]
fn test_coerce_boolean() {
    for yes in ["true", "TRUE", "1", "yes", "Y"] {
        assert_eq!(coerce_value(&FieldType::Boolean, yes), Some("true".to_owned()), "{}", yes);
    }
    for no in ["false", "0", "No", "n"] {
        assert_eq!(coerce_value(&FieldType::Boolean, no), Some("false".to_owned()), "{}", no);
    }
    assert_eq!(coerce_value(&FieldType::Boolean, "maybe"), None);
}

#[test]
fn test_coerce_date() {
    assert_eq!(coerce_value(&FieldType::Date, "2023-12-31"), Some("2023-12-31".to_owned()));
    assert_eq!(coerce_value(&FieldType::Date, "12/31/2023"), Some("2023-12-31".to_owned()));
    assert_eq!(coerce_value(&FieldType::Date, "02/30/2023"), None);
    assert_eq!(coerce_value(&FieldType::Date, "soon"), None);
}

#[test]
fn test_coerce_text_and_select_pass_through() {
    assert_eq!(coerce_value(&FieldType::Text, "anything"), Some("anything".to_owned()));
    let select = FieldType::Select(vec!["a".to_owned()]);
    assert_eq!(coerce_value(&select, "whatever"), Some("whatever".to_owned()));
}

#[test]
fn test_has_schema_changes_detects_each_kind() {
    let base = category("c", vec![field("a", FieldType::Text), field("b", FieldType::Integer)]);
    let unchanged = category("c", vec![field("a", FieldType::Text), field("b", FieldType::Integer)]);
    assert!(!has_schema_changes(&base, &unchanged));

    let removed = category("c", vec![field("a", FieldType::Text)]);
    assert!(has_schema_changes(&base, &removed));

    let added = category(
        "c",
        vec![field("a", FieldType::Text), field("b", FieldType::Integer), field("d", FieldType::Date)],
    );
    assert!(has_schema_changes(&base, &added));

    let retyped = category("c", vec![field("a", FieldType::Text), field("b", FieldType::Currency)]);
    assert!(has_schema_changes(&base, &retyped));
}

#[test]
fn test_select_options_compare_by_content() {
    let a = category("c", vec![field("s", FieldType::Select(vec!["x".to_owned()]))]);
    let b = category("c", vec![field("s", FieldType::Select(vec!["x".to_owned()]))]);
    assert!(!has_schema_changes(&a, &b));
    let c = category("c", vec![field("s", FieldType::Select(vec!["y".to_owned()]))]);
    assert!(has_schema_changes(&a, &c));
}

#[test]
fn test_migrate_custom_fields_drops_and_coerces() {
    let new_fields = vec![
        field("amount", FieldType::Currency),
        field("flag", FieldType::Boolean),
        field("note", FieldType::Text),
    ];
    let cf = vec![
        CustomField { name: "amount".to_owned(), value: "42".to_owned() },
        CustomField { name: "flag".to_owned(), value: "maybe".to_owned() },
        CustomField { name: "gone".to_owned(), value: "1".to_owned() },
        CustomField { name: "note".to_owned(), value: "  ".to_owned() },
    ];
    let out = migrate_custom_fields(&new_fields, &cf);
    let find = |n: &str| out.iter().find(|e| e.name == n).map(|e| e.value.clone());
    // An Integer value retyped to Currency survives unchanged when the
    // stripped text is a valid number.
    assert_eq!(find("amount"), Some("42".to_owned()));
    // A Boolean field holding "maybe" is dropped.
    assert_eq!(find("flag"), None);
    // A field absent from the new schema is dropped.
    assert_eq!(find("gone"), None);
    // Blank values are left untouched, not dropped.
    assert_eq!(find("note"), Some("  ".to_owned()));
}
