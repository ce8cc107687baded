use preft::backup::{record_backup_outcome, BackupPhase, BackupSession};
use preft::db::Database;
use preft::encryption_config::EncryptionConfig;
use preft::errors::StoreError;
use preft::migrations::{run_migrations, MigrationRecord};
use preft::models::{
    get_default_categories, Category, CategoryField, CustomField, FieldType, Flow, FlowType,
    TaxDeductionInfo,
};
use preft::settings::{BackupEntry, UserSettings};

fn field(name: &str, field_type: FieldType) -> CategoryField {
    CategoryField { name: name.to_owned(), field_type, required: false, default_value: None }
}

fn category(id: &str, fields: Vec<CategoryField>) -> Category {
    Category {
        id: id.to_owned(),
        name: format!("category {}", id),
        flow_type: FlowType::Expense,
        parent_id: None,
        fields,
        tax_deduction: TaxDeductionInfo { deduction_allowed: false, default_value: false },
    }
}

fn flow(id: &str, category_id: &str, custom: Vec<(&str, &str)>) -> Flow {
    Flow {
        id: id.to_owned(),
        date: "2024-03-01".to_owned(),
        amount: "12.50".to_owned(),
        category_id: category_id.to_owned(),
        description: format!("flow {}", id),
        linked_flows: Vec::new(),
        custom_fields: custom
            .into_iter()
            .map(|(n, v)| CustomField { name: n.to_owned(), value: v.to_owned() })
            .collect(),
        tax_deductible: None,
    }
}

fn open_store(cats: Vec<Category>, flows: Vec<Flow>) -> Database {
    Database::new(cats, flows, None, Vec::new(), EncryptionConfig::default()).unwrap()
}

#[test]
fn test_open_seeds_default_categories() {
    let db = open_store(Vec::new(), Vec::new());
    let cats = db.load_categories();
    assert_eq!(cats.len(), 9);
    assert_eq!(cats[0].id, "salary");
    assert_eq!(cats[8].id, "other_income");
    // The versioned migration ran: the seeded Number field is now Float.
    let taxes = cats.iter().find(|c| c.id == "taxes_paid").unwrap();
    let tax_year = taxes.fields.iter().find(|f| f.name == "tax_year").unwrap();
    assert_eq!(tax_year.field_type, FieldType::Float);
}

#[test]
fn test_open_rejects_duplicate_ids() {
    let cats = vec![category("a", vec![]), category("a", vec![])];
    let r = Database::new(cats, Vec::new(), None, Vec::new(), EncryptionConfig::default());
    assert!(matches!(r, Err(StoreError::SerializationError)));
}

#[test]
fn test_startup_fallback_store_is_usable() {
    // Even when the store file is unusable, a minimal store starts and
    // accepts work.
    let mut db = Database::new_minimal(EncryptionConfig::default());
    assert_eq!(db.load_categories().len(), 0);
    db.save_flow(&flow("f1", "nowhere", vec![])).unwrap();
    assert_eq!(db.load_flows().len(), 1);
}

#[test]
fn test_save_flow_then_load_round_trips() {
    let mut db = open_store(vec![category("c", vec![])], Vec::new());
    let f = flow("f1", "c", vec![("note", "hello")]);
    db.save_flow(&f).unwrap();
    let loaded = db.load_flows();
    assert_eq!(loaded.len(), 1);
    assert_eq!(loaded[0], f);
}

#[test]
fn test_save_flow_upserts_by_id() {
    let mut db = open_store(vec![category("c", vec![])], Vec::new());
    db.save_flow(&flow("f1", "c", vec![])).unwrap();
    let mut changed = flow("f1", "c", vec![]);
    changed.description = "updated".to_owned();
    db.save_flow(&changed).unwrap();
    let loaded = db.load_flows();
    assert_eq!(loaded.len(), 1);
    assert_eq!(loaded[0].description, "updated");
}

#[test]
fn test_save_category_then_load_round_trips() {
    let stored = category("c", vec![field("a", FieldType::Text)]);
    let mut db = open_store(vec![stored], Vec::new());
    let updated = category("c", vec![field("a", FieldType::Text), field("b", FieldType::Date)]);
    db.save_category(&updated).unwrap();
    let loaded = db.load_categories();
    assert_eq!(loaded.len(), 1);
    assert_eq!(loaded[0], updated);
}

#[test]
fn test_save_category_requires_existing_row() {
    let mut db = open_store(vec![category("c", vec![])], Vec::new());
    let other = category("unknown", vec![]);
    assert_eq!(db.save_category(&other), Err(StoreError::NotFound));
}

#[test]
fn test_save_category_migrates_flows_on_schema_change() {
    // An Integer field holding "42" retyped to Currency keeps "42"; a
    // Boolean field holding "maybe" is dropped from the flow.
    let before = category(
        "c",
        vec![field("amount", FieldType::Integer), field("flag", FieldType::Text)],
    );
    let mut db = open_store(
        vec![before],
        vec![flow("f1", "c", vec![("amount", "42"), ("flag", "maybe")])],
    );
    let after = category(
        "c",
        vec![field("amount", FieldType::Currency), field("flag", FieldType::Boolean)],
    );
    db.save_category(&after).unwrap();
    let flows = db.load_flows();
    assert_eq!(flows.len(), 1);
    let cf = &flows[0].custom_fields;
    assert_eq!(
        cf.iter().find(|e| e.name == "amount").map(|e| e.value.clone()),
        Some("42".to_owned())
    );
    assert!(cf.iter().all(|e| e.name != "flag"));
}

#[test]
fn test_delete_category_and_flows() {
    let mut db = open_store(
        vec![category("a", vec![]), category("b", vec![])],
        vec![flow("f1", "a", vec![]), flow("f2", "b", vec![]), flow("f3", "a", vec![])],
    );
    db.delete_category("a").unwrap();
    db.delete_flows_by_category("a").unwrap();
    assert_eq!(db.load_categories().len(), 1);
    let flows = db.load_flows();
    assert_eq!(flows.len(), 1);
    assert_eq!(flows[0].id, "f2");

    db.delete_flow("f2").unwrap();
    assert_eq!(db.load_flows().len(), 0);
}

#[test]
fn test_user_settings_round_trip_plain() {
    let mut db = open_store(vec![category("c", vec![])], Vec::new());
    assert_eq!(db.load_user_settings().unwrap(), None);
    db.save_user_settings("{\"year\":2024}").unwrap();
    assert_eq!(db.load_user_settings().unwrap(), Some("{\"year\":2024}".to_owned()));
}

#[test]
fn test_user_settings_round_trip_encrypted() {
    let mut db = open_store(vec![category("c", vec![])], Vec::new());
    db.initialize_encryption("hunter2").unwrap();
    assert!(db.is_encrypted());
    db.save_user_settings("visible only with the key").unwrap();
    assert_eq!(
        db.load_user_settings().unwrap(),
        Some("visible only with the key".to_owned())
    );

    // The same store opened without the cipher sees only the sealed token.
    let sealed = db.backup_to_file(true).unwrap().settings_payload.unwrap();
    assert_ne!(sealed, "visible only with the key");
}

#[test]
fn test_unreadable_settings_fall_back_to_absent() {
    let mut db = open_store(vec![category("c", vec![])], Vec::new());
    db.initialize_encryption("right").unwrap();
    db.save_user_settings("payload").unwrap();
    // Swap in a cipher derived from the wrong password: the stored payload
    // no longer opens.  It never comes back as garbage and never as an
    // error either — the caller sees "absent" and reaches fresh defaults.
    let salt = "c2FsdA==";
    db.set_encryption_state(true, Some("wrong"), Some(salt)).unwrap();
    assert_eq!(db.load_user_settings(), Ok(None));
}

#[test]
fn test_migrations_are_idempotent() {
    let mut cats = vec![category("c", vec![field("n", FieldType::Number)])];
    let mut ledger: Vec<MigrationRecord> = Vec::new();
    run_migrations(&mut cats, &mut ledger).unwrap();
    assert_eq!(ledger.len(), 1);
    assert_eq!(ledger[0].name, "convert_number_to_float");
    assert_eq!(ledger[0].version, 1);
    assert_eq!(cats[0].fields[0].field_type, FieldType::Float);

    // A second run applies nothing: the ledger does not grow.
    let snapshot = cats.clone();
    run_migrations(&mut cats, &mut ledger).unwrap();
    assert_eq!(ledger.len(), 1);
    assert_eq!(cats, snapshot);
}

#[test]
fn test_backup_restore_round_trip_unencrypted() {
    let mut db = open_store(
        vec![category("a", vec![field("x", FieldType::Text)]), category("b", vec![])],
        vec![flow("f1", "a", vec![("x", "1")]), flow("f2", "b", vec![])],
    );
    db.save_user_settings("prefs").unwrap();
    let image = db.backup_to_file(false).unwrap();

    let mut fresh = Database::new_minimal(EncryptionConfig::default());
    fresh.restore_from_file(&image, false, None, true).unwrap();
    assert_eq!(fresh.load_categories(), db.load_categories());
    assert_eq!(fresh.load_flows(), db.load_flows());
    assert_eq!(fresh.load_user_settings().unwrap(), Some("prefs".to_owned()));
}

#[test]
fn test_encrypted_backup_requires_active_encryption() {
    let db = open_store(vec![category("c", vec![])], Vec::new());
    assert!(!db.is_encrypted());
    assert!(matches!(db.backup_to_file(true), Err(StoreError::PreconditionFailed)));
}

#[test]
fn test_encrypted_backup_preserves_sealed_settings() {
    let mut db = open_store(vec![category("c", vec![])], Vec::new());
    db.initialize_encryption("pw").unwrap();
    db.save_user_settings("hidden").unwrap();
    let image = db.backup_to_file(true).unwrap();
    // The page-level clone keeps the payload sealed.
    assert_ne!(image.settings_payload.as_deref(), Some("hidden"));
    // The portable backup opens it.
    let portable = db.backup_to_file(false).unwrap();
    assert_eq!(portable.settings_payload.as_deref(), Some("hidden"));
    assert!(portable.ledger.is_empty());
}

#[test]
fn test_restore_requires_password_for_encrypted_backup() {
    let mut db = open_store(vec![category("c", vec![])], Vec::new());
    db.initialize_encryption("pw").unwrap();
    let image = db.backup_to_file(true).unwrap();
    let mut target = Database::new_minimal(EncryptionConfig::default());
    assert_eq!(
        target.restore_from_file(&image, true, None, false),
        Err(StoreError::PasswordRequired)
    );
}

#[test]
fn test_restore_atomicity_on_bad_image() {
    // A backup whose insert phase must fail (duplicate ids) leaves the live
    // store exactly as it was.
    let mut db = open_store(
        vec![category("keep", vec![])],
        vec![flow("f1", "keep", vec![])],
    );
    let bad = preft::db::BackupImage {
        categories: vec![category("dup", vec![]), category("dup", vec![])],
        flows: Vec::new(),
        settings_payload: None,
        ledger: Vec::new(),
    };
    let before_cats = db.load_categories();
    let before_flows = db.load_flows();
    assert_eq!(
        db.restore_from_file(&bad, false, None, false),
        Err(StoreError::SerializationError)
    );
    assert_eq!(db.load_categories(), before_cats);
    assert_eq!(db.load_flows(), before_flows);
}

#[test]
fn test_restore_encrypted_with_password() {
    let mut db = open_store(vec![category("c", vec![])], vec![flow("f1", "c", vec![])]);
    db.initialize_encryption("pw").unwrap();
    db.save_user_settings("sealed prefs").unwrap();
    let image = db.backup_to_file(true).unwrap();

    // Wrong password is refused without touching the store.
    assert_eq!(
        db.restore_from_file(&image, true, Some("nope"), false),
        Err(StoreError::DecryptError)
    );
    // The store's own password restores the clone, still sealed.
    db.restore_from_file(&image, true, Some("pw"), false).unwrap();
    assert_eq!(db.load_user_settings().unwrap(), Some("sealed prefs".to_owned()));
    assert_eq!(db.load_flows().len(), 1);
}

#[test]
fn test_default_categories_contents() {
    let cats = get_default_categories();
    assert_eq!(cats.len(), 9);
    let ids: Vec<&str> = cats.iter().map(|c| c.id.as_str()).collect();
    assert_eq!(
        ids,
        vec![
            "salary",
            "passive_income",
            "taxes_paid",
            "cash_donations",
            "in_kind_donations",
            "medical",
            "dental",
            "other_expense",
            "other_income"
        ]
    );
    let salary = &cats[0];
    assert_eq!(salary.flow_type, FlowType::Income);
    assert_eq!(salary.fields[0].name, "employer");
    let taxes = &cats[2];
    assert!(taxes.tax_deduction.deduction_allowed);
    assert_eq!(taxes.fields[1].field_type, FieldType::Number);
    // The pay-period select carries its options and defaults to one of them.
    let pay = &salary.fields[1];
    assert_eq!(
        pay.field_type,
        FieldType::Select(vec!["Monthly".to_owned(), "Bi-weekly".to_owned(), "Weekly".to_owned()])
    );
    assert_eq!(pay.default_value.as_deref(), Some("Monthly"));
    // Every call yields the same seed list.
    assert_eq!(get_default_categories(), cats);
}

#[test]
fn test_category_new_defaults() {
    let c = Category::new("Groceries".to_owned());
    assert_eq!(c.name, "Groceries");
    assert_eq!(c.flow_type, FlowType::Income);
    assert!(c.fields.is_empty());
    assert!(!c.tax_deduction.deduction_allowed);
    assert!(!c.id.is_empty());
}

#[test]
fn test_user_settings_visibility_toggle() {
    let mut s = UserSettings::new();
    assert!(!s.is_category_hidden("a"));
    s.toggle_category_visibility("a".to_owned());
    assert!(s.is_category_hidden("a"));
    assert!(!s.is_category_hidden("b"));
    s.toggle_category_visibility("a".to_owned());
    assert!(!s.is_category_hidden("a"));
}

#[test]
fn test_backup_history_ring_buffer() {
    let mut s = UserSettings::new();
    for i in 0..12 {
        s.add_backup_entry(BackupEntry {
            timestamp: i,
            file_path: format!("backup-{}.db", i),
            file_size: Some(100),
            success: i % 2 == 0,
            error_message: None,
        });
    }
    // Capped at ten, oldest evicted first.
    assert_eq!(s.backup_history.len(), 10);
    assert_eq!(s.backup_history[0].file_path, "backup-2.db");
    assert_eq!(s.backup_history[9].file_path, "backup-11.db");
    // The most recent successful entry wins.
    assert_eq!(s.get_last_successful_backup().unwrap().file_path, "backup-10.db");
}

#[test]
fn test_record_backup_outcome() {
    let mut s = UserSettings::new();
    record_backup_outcome(
        &mut s,
        BackupEntry {
            timestamp: 1,
            file_path: "good.db".to_owned(),
            file_size: Some(10),
            success: true,
            error_message: None,
        },
    );
    assert_eq!(s.last_backup_path.as_deref(), Some("good.db"));
    record_backup_outcome(
        &mut s,
        BackupEntry {
            timestamp: 2,
            file_path: "bad.db".to_owned(),
            file_size: None,
            success: false,
            error_message: Some("disk full".to_owned()),
        },
    );
    // A failed backup is logged but does not become the last backup path.
    assert_eq!(s.backup_history.len(), 2);
    assert_eq!(s.last_backup_path.as_deref(), Some("good.db"));
}

#[test]
fn test_backup_session_guard() {
    let mut session = BackupSession::new();
    assert_eq!(session.phase, BackupPhase::Idle);
    assert!(session.start_selecting());
    // A second invocation while one is in flight is a no-op.
    assert!(!session.start_selecting());
    session.begin_operation();
    assert!(!session.start_selecting());
    session.finish(true);
    assert_eq!(session.phase, BackupPhase::Completed);
    session.reset();
    session.start_selecting();
    session.begin_operation();
    session.finish(false);
    assert_eq!(session.phase, BackupPhase::Failed);
}

#[test]
fn test_error_messages() {
    assert!(StoreError::NotFound.message().contains("id"));
    assert!(StoreError::DecryptError.message().contains("decrypt"));
}

#[test]
fn test_set_encryption_state_requires_credentials() {
    let mut db = open_store(vec![category("c", vec![])], Vec::new());
    assert_eq!(
        db.set_encryption_state(true, None, None),
        Err(StoreError::PasswordRequired)
    );
    assert_eq!(
        db.set_encryption_state(true, Some("pw"), None),
        Err(StoreError::PasswordRequired)
    );
    db.set_encryption_state(false, None, None).unwrap();
}

#[test]
fn test_deletes_of_absent_ids_are_no_ops() {
    let mut db = open_store(vec![category("c", vec![])], vec![flow("f1", "c", vec![])]);
    db.delete_category("missing").unwrap();
    db.delete_flow("missing").unwrap();
    db.delete_flows_by_category("missing").unwrap();
    assert_eq!(db.load_categories().len(), 1);
    assert_eq!(db.load_flows().len(), 1);
}

#[test]
fn test_restore_re_encrypts_settings_into_live_mode() {
    // A portable (plain) backup restored into an encrypted store must come
    // back sealed under the live store's key.
    let mut source = open_store(vec![category("c", vec![])], Vec::new());
    source.save_user_settings("plain prefs").unwrap();
    let image = source.backup_to_file(false).unwrap();

    let mut target = open_store(vec![category("c", vec![])], Vec::new());
    target.initialize_encryption("pw").unwrap();
    target.restore_from_file(&image, false, None, false).unwrap();
    // The live store reads the settings through its cipher...
    assert_eq!(target.load_user_settings().unwrap(), Some("plain prefs".to_owned()));
    // ...and what it stores is sealed, not the plain payload.
    let stored = target.backup_to_file(true).unwrap().settings_payload.unwrap();
    assert_ne!(stored, "plain prefs");
}

#[test]
fn test_save_category_without_schema_change_keeps_flows() {
    let stored = category("c", vec![field("a", FieldType::Integer)]);
    let mut db = open_store(vec![stored], vec![flow("f1", "c", vec![("a", "not a number")])]);
    // Only the category's name changes; the field set is identical, so the
    // flow's (even invalid) value is left alone.
    let mut renamed = category("c", vec![field("a", FieldType::Integer)]);
    renamed.name = "renamed".to_owned();
    db.save_category(&renamed).unwrap();
    let flows = db.load_flows();
    assert_eq!(flows[0].custom_fields[0].value, "not a number");
}

#[test]
fn test_year_filter_round_trip() {
    let mut s = UserSettings::new();
    assert!(s.get_year_filter().is_some());
    s.set_year_filter(None);
    assert_eq!(s.get_year_filter(), None);
    s.set_year_filter(Some(2022));
    assert_eq!(s.get_year_filter(), Some(2022));
}

#[test]
fn test_auto_backup_preferences() {
    let mut s = UserSettings::new();
    assert!(!s.is_auto_backup_enabled());
    s.set_auto_backup_enabled(true);
    assert!(s.is_auto_backup_enabled());
    s.set_auto_backup_directory(Some("/tmp/backups".to_owned()));
    assert_eq!(s.get_auto_backup_directory().map(|d| d.as_str()), Some("/tmp/backups"));
    s.set_auto_backup_encrypted(Some(true));
    assert_eq!(s.get_auto_backup_encrypted(), Some(true));
}
