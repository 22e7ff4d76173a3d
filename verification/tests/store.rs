use vgstore::{derive_draft_id, draft_with_defaults, Draft, Pronouns, Store, StoreError, Student};

fn student(id: &str, first: &str, last: &str) -> Student {
    Student {
        id: id.to_string(),
        first_name: first.to_string(),
        last_name: last.to_string(),
        preferred_name: None,
        pronouns: Pronouns {
            subject: "she".to_string(),
            object: "her".to_string(),
            possessive: "her".to_string(),
        },
        needs: vec!["reading".to_string(), "math".to_string()],
    }
}

fn draft(student_id: &str, period: &str, frame: &str, section: &str, slots: &str) -> Draft {
    Draft {
        student_id: student_id.to_string(),
        report_period_id: period.to_string(),
        frame: frame.to_string(),
        section: section.to_string(),
        template_id: None,
        slot_values_json: slots.to_string(),
        rendered_text: None,
        author: None,
        status: None,
    }
}

#[test]
fn schema_ensure_is_idempotent() {
    let mut store = Store::new();
    store.init_schema();
    let once = store.drafts_column_names();
    for _ in 0..5 {
        store.init_schema();
    }
    assert_eq!(store.drafts_column_names(), once);
    assert!(once.iter().any(|c| c == "author"));
    assert!(once.iter().any(|c| c == "status"));
}

#[test]
fn migrator_skips_present_columns() {
    let mut store = Store::new();
    store.init_schema();
    let before = store.drafts_column_names();
    store.ensure_drafts_columns();
    store.ensure_drafts_columns();
    assert_eq!(store.drafts_column_names(), before);
}

#[test]
fn column_probe_reports_presence() {
    let mut store = Store::new();
    assert!(!store.column_exists("author"));
    store.init_schema();
    assert!(store.column_exists("author"));
    assert!(store.column_exists("status"));
    assert!(!store.column_exists("no_such_column"));
}

#[test]
fn migration_fills_defaults_into_existing_rows() {
    let mut store = Store::new();
    // A row persisted before the author and status columns existed.
    store.load_draft_row(
        "s1".to_string(),
        "p1".to_string(),
        "frame".to_string(),
        "sectionA".to_string(),
        None,
        "{}".to_string(),
        None,
        None,
        None,
        7,
    );
    let listed = store.list_drafts("p1");
    assert_eq!(listed.len(), 1);
    assert_eq!(listed[0].author.as_deref(), Some("teacher"));
    assert_eq!(listed[0].status.as_deref(), Some("approved"));
}

#[test]
fn derive_id_is_deterministic_and_joins_with_colon() {
    let a = derive_draft_id("s1", "p1", "frameA", "sec2");
    let b = derive_draft_id("s1", "p1", "frameA", "sec2");
    assert_eq!(a, "s1:p1:frameA:sec2");
    assert_eq!(a, b);
    assert_eq!(derive_draft_id("", "", "", ""), ":::");
}

#[test]
fn draft_writes_with_same_key_collide_onto_one_row() {
    let mut store = Store::new();
    let first = draft("s1", "p1", "frameA", "sec1", "{\"x\":1}");
    let second = draft("s1", "p1", "frameA", "sec1", "{\"y\":2}");
    store.upsert_draft(&first, 10);
    store.upsert_draft(&second, 20);
    let listed = store.list_drafts("p1");
    assert_eq!(listed.len(), 1);
    assert_eq!(listed[0].slot_values_json, "{\"y\":2}");
    assert_eq!(store.draft_count(), 1);
}

#[test]
fn draft_writes_with_different_keys_keep_both_rows() {
    let mut store = Store::new();
    store.upsert_draft(&draft("s1", "p1", "frameA", "sec1", "{}"), 10);
    store.upsert_draft(&draft("s1", "p1", "frameA", "sec2", "{}"), 20);
    assert_eq!(store.list_drafts("p1").len(), 2);
}

#[test]
fn student_upsert_replaces_fields_and_keeps_created_at() {
    let mut store = Store::new();
    let mut a = student("s1", "Ada", "Lovelace");
    store.upsert_student(&a, 100);
    let (created1, updated1) = store.student_timestamps("s1").unwrap();
    assert_eq!((created1, updated1), (100, 100));

    a.first_name = "Augusta".to_string();
    a.needs = vec!["writing".to_string()];
    store.upsert_student(&a, 200);
    let (created2, updated2) = store.student_timestamps("s1").unwrap();
    assert_eq!(created2, 100);
    assert_eq!(updated2, 200);

    let listed = store.list_students();
    assert_eq!(listed.len(), 1);
    assert_eq!(listed[0].first_name, "Augusta");
    assert_eq!(listed[0].needs, vec!["writing".to_string()]);
}

#[test]
fn needs_list_round_trips_through_storage() {
    let mut store = Store::new();
    store.upsert_student(&student("s1", "Ada", "Lovelace"), 1);
    let listed = store.list_students();
    assert_eq!(listed[0].needs, vec!["reading".to_string(), "math".to_string()]);
}

#[test]
fn absent_pronoun_columns_default_at_read_time() {
    let mut store = Store::new();
    // A row persisted without pronoun values.
    store.load_student_row(
        "s1".to_string(),
        "Ada".to_string(),
        "Lovelace".to_string(),
        None,
        None,
        None,
        None,
        "[]".to_string(),
        1,
        1,
    );
    let listed = store.list_students();
    assert_eq!(listed.len(), 1);
    assert_eq!(listed[0].pronouns.subject, "they");
    assert_eq!(listed[0].pronouns.object, "them");
    assert_eq!(listed[0].pronouns.possessive, "their");
}

#[test]
fn absent_author_and_status_default_on_write() {
    let mut store = Store::new();
    store.upsert_draft(&draft("s1", "p1", "frameA", "sec1", "{}"), 5);
    let listed = store.list_drafts("p1");
    assert_eq!(listed[0].author.as_deref(), Some("teacher"));
    assert_eq!(listed[0].status.as_deref(), Some("approved"));

    let filled = draft_with_defaults(draft("s1", "p1", "frameA", "sec1", "{}"));
    assert_eq!(filled.author.as_deref(), Some("teacher"));
    assert_eq!(filled.status.as_deref(), Some("approved"));
}

#[test]
fn provided_author_and_status_are_kept() {
    let mut store = Store::new();
    let mut d = draft("s1", "p1", "frameA", "sec1", "{}");
    d.author = Some("assistant".to_string());
    d.status = Some("draft".to_string());
    store.upsert_draft(&d, 5);
    let listed = store.list_drafts("p1");
    assert_eq!(listed[0].author.as_deref(), Some("assistant"));
    assert_eq!(listed[0].status.as_deref(), Some("draft"));
}

#[test]
fn deleting_a_student_cascades_to_its_drafts_only() {
    let mut store = Store::new();
    store.upsert_student(&student("s1", "Ada", "Lovelace"), 1);
    store.upsert_student(&student("s2", "Grace", "Hopper"), 1);
    store.upsert_draft(&draft("s1", "p1", "frameA", "sec1", "{}"), 2);
    store.upsert_draft(&draft("s1", "p1", "frameA", "sec2", "{}"), 2);
    store.upsert_draft(&draft("s2", "p1", "frameA", "sec1", "{\"keep\":true}"), 2);

    store.delete_student("s1");

    let listed = store.list_drafts("p1");
    assert_eq!(listed.len(), 1);
    assert_eq!(listed[0].student_id, "s2");
    assert_eq!(listed[0].slot_values_json, "{\"keep\":true}");
    let students = store.list_students();
    assert_eq!(students.len(), 1);
    assert_eq!(students[0].id, "s2");
}

#[test]
fn settings_round_trip_and_missing_key() {
    let mut store = Store::new();
    store.set_setting("k", "{\"a\":1}", 3);
    assert_eq!(store.get_setting("k"), Ok(Some("{\"a\":1}".to_string())));
    assert_eq!(store.get_setting("missing"), Ok(None));
}

#[test]
fn setting_overwrites_wholesale() {
    let mut store = Store::new();
    store.set_setting("k", "{\"a\":1}", 3);
    store.set_setting("k", "[4,5]", 4);
    assert_eq!(store.get_setting("k"), Ok(Some("[4,5]".to_string())));
    assert_eq!(store.setting_count(), 1);
}

#[test]
fn malformed_setting_payload_is_a_hard_failure() {
    let mut store = Store::new();
    // A row persisted with a payload that is not JSON.
    store.load_setting_row("bad".to_string(), "not json at all".to_string(), 1);
    assert_eq!(store.get_setting("bad"), Err(StoreError::MalformedSetting));
}

#[test]
fn malformed_slot_values_are_tolerated_in_listing() {
    let mut store = Store::new();
    store.load_draft_row(
        "s1".to_string(),
        "p1".to_string(),
        "frameA".to_string(),
        "sec1".to_string(),
        None,
        "{{{ not json".to_string(),
        None,
        Some("teacher".to_string()),
        Some("approved".to_string()),
        9,
    );
    let listed = store.list_drafts("p1");
    assert_eq!(listed.len(), 1);
    assert_eq!(listed[0].slot_values_json, "{}");
    assert_eq!(listed[0].student_id, "s1");
}

#[test]
fn malformed_needs_payload_reads_as_empty_list() {
    let mut store = Store::new();
    store.load_student_row(
        "s1".to_string(),
        "Ada".to_string(),
        "Lovelace".to_string(),
        None,
        Some("she".to_string()),
        Some("her".to_string()),
        Some("her".to_string()),
        "][ broken".to_string(),
        1,
        1,
    );
    let listed = store.list_students();
    assert_eq!(listed.len(), 1);
    assert!(listed[0].needs.is_empty());
}

#[test]
fn students_list_in_last_name_then_first_name_order() {
    let mut store = Store::new();
    store.upsert_student(&student("s1", "Grace", "Hopper"), 1);
    store.upsert_student(&student("s2", "Ada", "Lovelace"), 1);
    store.upsert_student(&student("s3", "Alan", "Hopper"), 1);
    let listed = store.list_students();
    let order: Vec<(&str, &str)> = listed
        .iter()
        .map(|s| (s.last_name.as_str(), s.first_name.as_str()))
        .collect();
    assert_eq!(order, vec![("Hopper", "Alan"), ("Hopper", "Grace"), ("Lovelace", "Ada")]);
}

#[test]
fn list_drafts_filters_by_report_period() {
    let mut store = Store::new();
    store.upsert_draft(&draft("s1", "p1", "frameA", "sec1", "{}"), 1);
    store.upsert_draft(&draft("s1", "p2", "frameA", "sec1", "{}"), 1);
    let p1 = store.list_drafts("p1");
    assert_eq!(p1.len(), 1);
    assert_eq!(p1[0].report_period_id, "p1");
    assert!(store.list_drafts("p3").is_empty());
}
