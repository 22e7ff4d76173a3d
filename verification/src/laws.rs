//! The laws of the store, proved over the model transitions.
//!
//! Each public proof function states one guarantee of the library: schema
//! idempotence, key-derivation collision, upsert replacement, read-time
//! defaulting, cascade deletion, the settings round trip, and tolerance of
//! malformed stored payloads.

use vstd::prelude::*;

use crate::json::{json_of_strings, wf_json};
use crate::keys::spec_draft_id;
use crate::strs::lemma_lex_le_antisymmetric;
use vstd::seq_lib::lemma_multiset_commutative;
use crate::model::{
    column_name, draft_key, draft_row_of, find_draft, find_setting, find_student,
    lemma_find_draft, lemma_find_draft_at, lemma_find_setting, lemma_find_setting_at,
    lemma_find_student, lemma_find_student_at, or_default, row_key, schema_has_column,
    spec_create_tables, spec_decode_draft, spec_decode_student, spec_delete_student,
    spec_ensure_column, spec_get_setting, spec_init_schema, spec_list_drafts, spec_set_setting,
    apply_column_default, empty_store, spec_load_draft_row, spec_load_setting_row,
    spec_load_student_row,
    sort_students, sorted_insert, sorted_students, spec_list_students, student_le, student_lt,
    spec_upsert_draft, spec_upsert_student, student_row_of, wf_store, DraftColumn, DraftKeyV, DraftRowV,
    DraftV, PronounsV, SettingV, StoreError, StoreV, StudentRowV, StudentV,
};

verus! {

/// A pushed column is present, and columns present stay present.
proof fn lemma_has_column_push(cols: Seq<Seq<char>>, name: Seq<char>, pushed: Seq<char>)
    ensures
        schema_has_column(cols.push(pushed), pushed),
        schema_has_column(cols, name) ==> schema_has_column(cols.push(pushed), name),
{
    assert(cols.push(pushed)[cols.len() as int] == pushed);
    if schema_has_column(cols, name) {
        let i = choose|i: int| 0 <= i < cols.len() && cols[i] == name;
        assert(cols.push(pushed)[i] == name);
    }
}

/// After one schema-ensure step both migrated columns are present.
proof fn lemma_init_schema_columns(s: StoreV)
    ensures
        schema_has_column(spec_init_schema(s).schema.drafts_columns, column_name(DraftColumn::Author)),
        schema_has_column(spec_init_schema(s).schema.drafts_columns, column_name(DraftColumn::Status)),
        spec_init_schema(s).schema.tables_created,
{
    let t = spec_create_tables(s);
    let a = spec_ensure_column(t, DraftColumn::Author);
    let b = spec_ensure_column(a, DraftColumn::Status);
    if !schema_has_column(t.schema.drafts_columns, column_name(DraftColumn::Author)) {
        lemma_has_column_push(
            t.schema.drafts_columns,
            column_name(DraftColumn::Author),
            column_name(DraftColumn::Author),
        );
    }
    if !schema_has_column(a.schema.drafts_columns, column_name(DraftColumn::Status)) {
        lemma_has_column_push(
            a.schema.drafts_columns,
            column_name(DraftColumn::Author),
            column_name(DraftColumn::Status),
        );
    }
    if schema_has_column(a.schema.drafts_columns, column_name(DraftColumn::Author)) {
        if b.schema.drafts_columns != a.schema.drafts_columns {
            lemma_has_column_push(
                a.schema.drafts_columns,
                column_name(DraftColumn::Author),
                column_name(DraftColumn::Status),
            );
        }
    }
}

/// The migrator never alters a column that is already present.
pub proof fn lemma_ensure_column_present_is_noop(s: StoreV, c: DraftColumn)
    requires
        schema_has_column(s.schema.drafts_columns, column_name(c)),
    ensures
        spec_ensure_column(s, c) == s,
{
}

/// Running the schema-ensure step again changes nothing.
pub proof fn lemma_init_schema_idempotent(s: StoreV)
    ensures
        spec_init_schema(spec_init_schema(s)) == spec_init_schema(s),
{
    let b = spec_init_schema(s);
    lemma_init_schema_columns(s);
    assert(spec_create_tables(b) == b);
    lemma_ensure_column_present_is_noop(b, DraftColumn::Author);
    lemma_ensure_column_present_is_noop(b, DraftColumn::Status);
}

/// The schema-ensure step applied any number of times.
pub open spec fn iter_init_schema(n: nat, s: StoreV) -> StoreV
    decreases n,
{
    if n == 0 {
        s
    } else {
        spec_init_schema(iter_init_schema((n - 1) as nat, s))
    }
}

/// Ensuring the schema N times leaves the same store as ensuring it once.
pub proof fn lemma_init_schema_n_times(s: StoreV, n: nat)
    requires
        n >= 1,
    ensures
        iter_init_schema(n, s) == spec_init_schema(s),
    decreases n,
{
    if n == 1 {
        assert(iter_init_schema(0, s) == s);
    } else {
        lemma_init_schema_n_times(s, (n - 1) as nat);
        assert(iter_init_schema(n, s) == spec_init_schema(iter_init_schema((n - 1) as nat, s)));
        lemma_init_schema_idempotent(s);
    }
}

/// The stored row written for a draft carries the draft's natural key.
proof fn lemma_draft_row_key(d: DraftV, now: u64)
    ensures
        row_key(draft_row_of(d, now)) == draft_key(d),
{
}

/// Two draft writes with the same natural key land on one row: the second
/// write adds no row, and afterwards exactly one row has that key, carrying
/// the second write's fields, its identifier still derived from the key.
pub proof fn lemma_draft_upserts_collide(s: StoreV, d1: DraftV, d2: DraftV, n1: u64, n2: u64)
    requires
        wf_store(s),
        draft_key(d1) == draft_key(d2),
    ensures
        ({
            let s1 = spec_upsert_draft(s, d1, n1);
            let s2 = spec_upsert_draft(s1, d2, n2);
            &&& s2.drafts.len() == s1.drafts.len()
            &&& exists|i: int|
                {
                    &&& 0 <= i < s2.drafts.len()
                    &&& #[trigger] row_key(s2.drafts[i]) == draft_key(d2)
                    &&& s2.drafts[i].template_id == d2.template_id
                    &&& s2.drafts[i].slot_values_json == d2.slot_values_json
                    &&& s2.drafts[i].rendered_text == d2.rendered_text
                    &&& s2.drafts[i].author == Some(or_default(d2.author, "teacher"@))
                    &&& s2.drafts[i].status == Some(or_default(d2.status, "approved"@))
                    &&& s2.drafts[i].updated_at == n2
                    &&& s2.drafts[i].id == spec_draft_id(
                        d2.student_id,
                        d2.report_period_id,
                        d2.frame,
                        d2.section,
                    )
                    &&& forall|j: int|
                        0 <= j < s2.drafts.len() && j != i ==> row_key(s2.drafts[j]) != draft_key(
                            d2,
                        )
                }
        }),
{
    let k = draft_key(d1);
    let s1 = spec_upsert_draft(s, d1, n1);
    let s2 = spec_upsert_draft(s1, d2, n2);
    lemma_draft_row_key(d1, n1);
    lemma_draft_row_key(d2, n2);
    lemma_find_draft(s.drafts, k);
    let f = find_draft(s.drafts, k);
    if f == -1 {
        let i = s.drafts.len() as int;
        assert(row_key(s1.drafts[i]) == k);
        assert(forall|j: int| 0 <= j < i ==> row_key(#[trigger] s1.drafts[j]) != k);
        lemma_find_draft_at(s1.drafts, k, i);
        assert(s2.drafts[i].id == s1.drafts[i].id);
        assert(s1.drafts[i].id == spec_draft_id(
            d1.student_id,
            d1.report_period_id,
            d1.frame,
            d1.section,
        ));
        assert(d1.student_id == d2.student_id && d1.report_period_id == d2.report_period_id
            && d1.frame == d2.frame && d1.section == d2.section);
        assert(row_key(s2.drafts[i]) == draft_key(d2));
        assert(forall|j: int|
            0 <= j < s2.drafts.len() && j != i ==> row_key(#[trigger] s2.drafts[j]) != k);
    } else {
        assert(row_key(s1.drafts[f]) == k);
        assert(forall|j: int| 0 <= j < f ==> row_key(#[trigger] s1.drafts[j]) != k);
        lemma_find_draft_at(s1.drafts, k, f);
        assert(s1.drafts[f].id == s.drafts[f].id);
        assert(s.drafts[f].id == spec_draft_id(
            s.drafts[f].student_id,
            s.drafts[f].report_period_id,
            s.drafts[f].frame,
            s.drafts[f].section,
        ));
        assert(row_key(s.drafts[f]) == k);
        assert(s2.drafts[f].id == spec_draft_id(
            d2.student_id,
            d2.report_period_id,
            d2.frame,
            d2.section,
        ));
        assert(row_key(s2.drafts[f]) == draft_key(d2));
        assert(forall|j: int|
            0 <= j < s2.drafts.len() && j != f ==> row_key(#[trigger] s2.drafts[j]) == row_key(
                s.drafts[j],
            ));
        assert(forall|j: int|
            0 <= j < s2.drafts.len() && j != f ==> row_key(#[trigger] s2.drafts[j]) != k);
        assert({
            let i = f;
            &&& 0 <= i < s2.drafts.len()
            &&& row_key(s2.drafts[i]) == draft_key(d2)
            &&& s2.drafts[i].template_id == d2.template_id
            &&& s2.drafts[i].slot_values_json == d2.slot_values_json
            &&& s2.drafts[i].rendered_text == d2.rendered_text
            &&& s2.drafts[i].author == Some(or_default(d2.author, "teacher"@))
            &&& s2.drafts[i].status == Some(or_default(d2.status, "approved"@))
            &&& s2.drafts[i].updated_at == n2
            &&& s2.drafts[i].id == spec_draft_id(
                d2.student_id,
                d2.report_period_id,
                d2.frame,
                d2.section,
            )
            &&& forall|j: int|
                0 <= j < s2.drafts.len() && j != i ==> row_key(s2.drafts[j]) != draft_key(d2)
        });
    }
}

/// Writing a student twice under one id replaces every field with the
/// second write's values, keeps the creation timestamp of the first write,
/// and refreshes the update timestamp.
pub proof fn lemma_student_upsert_replaces(s: StoreV, a: StudentV, b: StudentV, n1: u64, n2: u64)
    requires
        wf_store(s),
        a.id == b.id,
    ensures
        ({
            let s1 = spec_upsert_student(s, a, n1);
            let s2 = spec_upsert_student(s1, b, n2);
            let i = find_student(s1.students, b.id);
            &&& s2.students.len() == s1.students.len()
            &&& 0 <= i < s1.students.len()
            &&& s2.students == s1.students.update(
                i,
                student_row_of(b, s1.students[i].created_at, n2),
            )
            &&& s2.students[i].needs_json == json_of_strings(b.needs)
            &&& s2.students[i].created_at == s1.students[i].created_at
            &&& s2.students[i].updated_at == n2
        }),
{
    let s1 = spec_upsert_student(s, a, n1);
    lemma_find_student(s.students, a.id);
    let f = find_student(s.students, a.id);
    if f == -1 {
        let i = s.students.len() as int;
        assert(s1.students[i].id == b.id);
        assert(forall|j: int| 0 <= j < i ==> (#[trigger] s1.students[j]).id != b.id);
        lemma_find_student_at(s1.students, b.id, i);
    } else {
        assert(s1.students[f].id == b.id);
        assert(forall|j: int| 0 <= j < f ==> (#[trigger] s1.students[j]).id != b.id);
        lemma_find_student_at(s1.students, b.id, f);
    }
}

/// Reading a student row whose pronoun columns are all absent yields the
/// default pronouns.
pub proof fn lemma_pronoun_defaults(r: StudentRowV)
    requires
        r.pronouns_subject is None,
        r.pronouns_object is None,
        r.pronouns_possessive is None,
    ensures
        spec_decode_student(r).pronouns == (PronounsV {
            subject: "they"@,
            object: "them"@,
            possessive: "their"@,
        }),
{
}

/// Writing a draft with absent author and status stores the defaults.
pub proof fn lemma_draft_write_defaults(d: DraftV, now: u64)
    requires
        d.author is None,
        d.status is None,
    ensures
        draft_row_of(d, now).author == Some("teacher"@),
        draft_row_of(d, now).status == Some("approved"@),
{
}

/// Deleting a student removes every draft referencing the student and the
/// student row itself, keeps every draft of other students, and touches
/// nothing else.
pub proof fn lemma_delete_student_cascades(s: StoreV, sid: Seq<char>)
    ensures
        ({
            let s2 = spec_delete_student(s, sid);
            &&& forall|i: int|
                0 <= i < s2.drafts.len() ==> (#[trigger] s2.drafts[i]).student_id != sid
            &&& forall|i: int| 0 <= i < s2.students.len() ==> (#[trigger] s2.students[i]).id != sid
            &&& forall|i: int|
                0 <= i < s.drafts.len() && s.drafts[i].student_id != sid ==> s2.drafts.contains(
                    #[trigger] s.drafts[i],
                )
            &&& s2.settings == s.settings
            &&& s2.schema == s.schema
        }),
{
    let s2 = spec_delete_student(s, sid);
    let dpred = |r: DraftRowV| r.student_id != sid;
    let spred = |r: StudentRowV| r.id != sid;
    assert forall|i: int| 0 <= i < s2.drafts.len() implies (#[trigger] s2.drafts[i]).student_id
        != sid by {
        s.drafts.lemma_filter_pred(dpred, i);
    }
    assert forall|i: int| 0 <= i < s2.students.len() implies (#[trigger] s2.students[i]).id
        != sid by {
        s.students.lemma_filter_pred(spred, i);
    }
    assert forall|i: int|
        0 <= i < s.drafts.len() && s.drafts[i].student_id != sid implies s2.drafts.contains(
        #[trigger] s.drafts[i],
    ) by {
        s.drafts.lemma_filter_contains(dpred, i);
    }
}

/// Setting a key and reading it back returns the stored value when it is
/// well-formed JSON, and fails hard otherwise; the update timestamp of the
/// written row is the write's.
pub proof fn lemma_settings_roundtrip(s: StoreV, k: Seq<char>, v: Seq<char>, now: u64)
    ensures
        ({
            let s1 = spec_set_setting(s, k, v, now);
            spec_get_setting(s1, k) == if wf_json(v) {
                Ok::<Option<Seq<char>>, StoreError>(Some(v))
            } else {
                Err::<Option<Seq<char>>, StoreError>(StoreError::MalformedSetting)
            }
        }),
{
    let s1 = spec_set_setting(s, k, v, now);
    lemma_find_setting(s.settings, k);
    let f = find_setting(s.settings, k);
    if f == -1 {
        let i = s.settings.len() as int;
        assert(s1.settings[i].key == k);
        assert(forall|j: int| 0 <= j < i ==> (#[trigger] s1.settings[j]).key != k);
        lemma_find_setting_at(s1.settings, k, i);
    } else {
        assert(s1.settings[f].key == k);
        assert(forall|j: int| 0 <= j < f ==> (#[trigger] s1.settings[j]).key != k);
        lemma_find_setting_at(s1.settings, k, f);
    }
}

/// Reading a key that no row has returns an explicit absence, not an error.
pub proof fn lemma_get_setting_missing(s: StoreV, k: Seq<char>)
    requires
        forall|i: int| 0 <= i < s.settings.len() ==> (#[trigger] s.settings[i]).key != k,
    ensures
        spec_get_setting(s, k) == Ok::<Option<Seq<char>>, StoreError>(None),
{
    lemma_find_setting(s.settings, k);
    if find_setting(s.settings, k) != -1 {
        assert(s.settings[find_setting(s.settings, k)].key == k);
    }
}

/// A draft row whose stored slot values are not well-formed JSON still
/// decodes, with the empty document substituted and every other field kept.
pub proof fn lemma_malformed_slot_values_tolerated(r: DraftRowV)
    requires
        !wf_json(r.slot_values_json),
    ensures
        spec_decode_draft(r).slot_values_json == "{}"@,
        spec_decode_draft(r).student_id == r.student_id,
        spec_decode_draft(r).report_period_id == r.report_period_id,
        spec_decode_draft(r).frame == r.frame,
        spec_decode_draft(r).section == r.section,
        spec_decode_draft(r).author == r.author,
        spec_decode_draft(r).status == r.status,
{
}

/// Every stored draft row of the listed report period appears, decoded, in
/// the listing.
pub proof fn lemma_list_drafts_contains(s: StoreV, pid: Seq<char>, i: int)
    requires
        0 <= i < s.drafts.len(),
        s.drafts[i].report_period_id == pid,
    ensures
        spec_list_drafts(s, pid).contains(spec_decode_draft(s.drafts[i])),
{
    let pred = |r: DraftRowV| r.report_period_id == pid;
    let fs = s.drafts.filter(pred);
    s.drafts.lemma_filter_contains(pred, i);
    let j = choose|j: int| 0 <= j < fs.len() && fs[j] == s.drafts[i];
    assert(spec_list_drafts(s, pid)[j] == spec_decode_draft(s.drafts[i]));
}


/// The empty store is well-formed.
pub proof fn lemma_wf_empty()
    ensures
        wf_store(empty_store()),
{
}

proof fn lemma_wf_ensure_column(s: StoreV, c: DraftColumn)
    requires
        wf_store(s),
    ensures
        wf_store(spec_ensure_column(s, c)),
{
    let s2 = spec_ensure_column(s, c);
    if !schema_has_column(s.schema.drafts_columns, column_name(c)) {
        assert forall|i: int| 0 <= i < s2.drafts.len() implies row_key(#[trigger] s2.drafts[i])
            == row_key(s.drafts[i]) && s2.drafts[i].id == s.drafts[i].id && s2.drafts[i].student_id
            == s.drafts[i].student_id && s2.drafts[i].report_period_id
            == s.drafts[i].report_period_id && s2.drafts[i].frame == s.drafts[i].frame
            && s2.drafts[i].section == s.drafts[i].section by {
            assert(s2.drafts[i] == apply_column_default(s.drafts[i], c));
        }
    }
}

/// The schema-ensure step preserves well-formedness.
pub proof fn lemma_wf_init_schema(s: StoreV)
    requires
        wf_store(s),
    ensures
        wf_store(spec_init_schema(s)),
{
    let t = spec_create_tables(s);
    assert(wf_store(t));
    lemma_wf_ensure_column(t, DraftColumn::Author);
    lemma_wf_ensure_column(spec_ensure_column(t, DraftColumn::Author), DraftColumn::Status);
}

/// Upserting a student preserves well-formedness.
pub proof fn lemma_wf_upsert_student(s: StoreV, st: StudentV, now: u64)
    requires
        wf_store(s),
    ensures
        wf_store(spec_upsert_student(s, st, now)),
{
    lemma_find_student(s.students, st.id);
}

/// Upserting a draft preserves well-formedness.
pub proof fn lemma_wf_upsert_draft(s: StoreV, d: DraftV, now: u64)
    requires
        wf_store(s),
    ensures
        wf_store(spec_upsert_draft(s, d, now)),
{
    lemma_find_draft(s.drafts, draft_key(d));
    lemma_draft_row_key(d, now);
    let f = find_draft(s.drafts, draft_key(d));
    let s2 = spec_upsert_draft(s, d, now);
    if f >= 0 {
        assert(row_key(s.drafts[f]) == draft_key(d));
        assert(s.drafts[f].id == spec_draft_id(
            s.drafts[f].student_id,
            s.drafts[f].report_period_id,
            s.drafts[f].frame,
            s.drafts[f].section,
        ));
        assert(s2.drafts[f].id == spec_draft_id(
            s2.drafts[f].student_id,
            s2.drafts[f].report_period_id,
            s2.drafts[f].frame,
            s2.drafts[f].section,
        ));
    }
}

/// Writing a setting preserves well-formedness.
pub proof fn lemma_wf_set_setting(s: StoreV, k: Seq<char>, v: Seq<char>, now: u64)
    requires
        wf_store(s),
    ensures
        wf_store(spec_set_setting(s, k, v, now)),
{
    lemma_find_setting(s.settings, k);
}

spec fn has_draft_key(s: Seq<DraftRowV>, k: DraftKeyV) -> bool {
    exists|i: int| 0 <= i < s.len() && row_key(s[i]) == k
}

spec fn draft_rows_wf(s: Seq<DraftRowV>) -> bool {
    &&& forall|i: int, j: int| 0 <= i < j < s.len() ==> row_key(s[i]) != row_key(s[j])
    &&& forall|i: int|
        0 <= i < s.len() ==> (#[trigger] s[i]).id == spec_draft_id(
            s[i].student_id,
            s[i].report_period_id,
            s[i].frame,
            s[i].section,
        )
}

proof fn lemma_filter_drafts_wf(s: Seq<DraftRowV>, pred: spec_fn(DraftRowV) -> bool)
    requires
        draft_rows_wf(s),
    ensures
        draft_rows_wf(s.filter(pred)),
        forall|k: DraftKeyV| #[trigger] has_draft_key(s.filter(pred), k) ==> has_draft_key(s, k),
    decreases s.len(),
{
    reveal(Seq::filter);
    if s.len() > 0 {
        let dl = s.drop_last();
        let last = s.last();
        assert(draft_rows_wf(dl)) by {
            assert(forall|i: int| 0 <= i < dl.len() ==> dl[i] == s[i]);
        }
        lemma_filter_drafts_wf(dl, pred);
        let fdl = dl.filter(pred);
        assert forall|k: DraftKeyV| #[trigger] has_draft_key(s.filter(pred), k) implies has_draft_key(
            s,
            k,
        ) by {
            let i = choose|i: int| 0 <= i < s.filter(pred).len() && row_key(s.filter(pred)[i]) == k;
            if pred(last) && i == fdl.len() {
                assert(row_key(s[s.len() - 1]) == k);
            } else {
                assert(s.filter(pred)[i] == fdl[i]);
                assert(has_draft_key(fdl, k));
                assert(has_draft_key(dl, k));
                let j = choose|j: int| 0 <= j < dl.len() && row_key(dl[j]) == k;
                assert(row_key(s[j]) == k);
            }
        }
        if pred(last) {
            assert(s.filter(pred) == fdl.push(last));
            assert(!has_draft_key(dl, row_key(last))) by {
                if has_draft_key(dl, row_key(last)) {
                    let i = choose|i: int| 0 <= i < dl.len() && row_key(dl[i]) == row_key(last);
                    assert(row_key(s[i]) == row_key(s[s.len() - 1]));
                }
            }
            assert forall|i: int, j: int|
                0 <= i < j < s.filter(pred).len() implies row_key(s.filter(pred)[i]) != row_key(
                s.filter(pred)[j],
            ) by {
                if j == fdl.len() {
                    assert(s.filter(pred)[i] == fdl[i]);
                    if row_key(fdl[i]) == row_key(last) {
                        assert(has_draft_key(fdl, row_key(last)));
                        assert(has_draft_key(dl, row_key(last)));
                    }
                } else {
                    assert(s.filter(pred)[i] == fdl[i]);
                    assert(s.filter(pred)[j] == fdl[j]);
                }
            }
        }
    }
}

spec fn has_student_id(s: Seq<StudentRowV>, id: Seq<char>) -> bool {
    exists|i: int| 0 <= i < s.len() && s[i].id == id
}

spec fn student_rows_unique(s: Seq<StudentRowV>) -> bool {
    forall|i: int, j: int| 0 <= i < j < s.len() ==> s[i].id != s[j].id
}

proof fn lemma_filter_students_wf(s: Seq<StudentRowV>, pred: spec_fn(StudentRowV) -> bool)
    requires
        student_rows_unique(s),
    ensures
        student_rows_unique(s.filter(pred)),
        forall|id: Seq<char>| #[trigger] has_student_id(s.filter(pred), id) ==> has_student_id(
            s,
            id,
        ),
    decreases s.len(),
{
    reveal(Seq::filter);
    if s.len() > 0 {
        let dl = s.drop_last();
        let last = s.last();
        assert(student_rows_unique(dl)) by {
            assert(forall|i: int| 0 <= i < dl.len() ==> dl[i] == s[i]);
        }
        lemma_filter_students_wf(dl, pred);
        let fdl = dl.filter(pred);
        assert forall|id: Seq<char>| #[trigger] has_student_id(s.filter(pred), id) implies has_student_id(
            s,
            id,
        ) by {
            let i = choose|i: int|
                0 <= i < s.filter(pred).len() && s.filter(pred)[i].id == id;
            if pred(last) && i == fdl.len() {
                assert(s[s.len() - 1].id == id);
            } else {
                assert(s.filter(pred)[i] == fdl[i]);
                assert(has_student_id(fdl, id));
                assert(has_student_id(dl, id));
                let j = choose|j: int| 0 <= j < dl.len() && dl[j].id == id;
                assert(s[j].id == id);
            }
        }
        if pred(last) {
            assert(s.filter(pred) == fdl.push(last));
            assert(!has_student_id(dl, last.id)) by {
                if has_student_id(dl, last.id) {
                    let i = choose|i: int| 0 <= i < dl.len() && dl[i].id == last.id;
                    assert(s[i].id == s[s.len() - 1].id);
                }
            }
            assert forall|i: int, j: int|
                0 <= i < j < s.filter(pred).len() implies s.filter(pred)[i].id != s.filter(
                pred,
            )[j].id by {
                if j == fdl.len() {
                    assert(s.filter(pred)[i] == fdl[i]);
                    if fdl[i].id == last.id {
                        assert(has_student_id(fdl, last.id));
                        assert(has_student_id(dl, last.id));
                    }
                } else {
                    assert(s.filter(pred)[i] == fdl[i]);
                    assert(s.filter(pred)[j] == fdl[j]);
                }
            }
        }
    }
}

/// Deleting a student preserves well-formedness.
pub proof fn lemma_wf_delete_student(s: StoreV, sid: Seq<char>)
    requires
        wf_store(s),
    ensures
        wf_store(spec_delete_student(s, sid)),
{
    let dpred = |r: DraftRowV| r.student_id != sid;
    let spred = |r: StudentRowV| r.id != sid;
    lemma_filter_drafts_wf(s.drafts, dpred);
    lemma_filter_students_wf(s.students, spred);
}

/// Loading a student row preserves well-formedness.
pub proof fn lemma_wf_load_student_row(s: StoreV, row: StudentRowV)
    requires
        wf_store(s),
    ensures
        wf_store(spec_load_student_row(s, row)),
{
    lemma_find_student(s.students, row.id);
}

/// Loading a draft row whose identifier is derived from its natural key
/// preserves well-formedness.
pub proof fn lemma_wf_load_draft_row(s: StoreV, row: DraftRowV)
    requires
        wf_store(s),
        row.id == spec_draft_id(row.student_id, row.report_period_id, row.frame, row.section),
    ensures
        wf_store(spec_load_draft_row(s, row)),
{
    lemma_find_draft(s.drafts, row_key(row));
}

/// Loading a setting row preserves well-formedness.
pub proof fn lemma_wf_load_setting_row(s: StoreV, row: SettingV)
    requires
        wf_store(s),
    ensures
        wf_store(spec_load_setting_row(s, row)),
{
    lemma_find_setting(s.settings, row.key);
}


/// The listing order is asymmetric: two students cannot each strictly
/// precede the other.
proof fn lemma_student_lt_asymmetric(a: StudentV, b: StudentV)
    ensures
        student_lt(a, b) ==> !student_lt(b, a),
{
    lemma_lex_le_antisymmetric(a.last_name, b.last_name);
    lemma_lex_le_antisymmetric(a.first_name, b.first_name);
}

proof fn lemma_sorted_insert_sorted(s: Seq<StudentV>, x: StudentV)
    requires
        sorted_students(s),
    ensures
        sorted_students(sorted_insert(s, x)),
    decreases s.len(),
{
    if s.len() == 0 {
    } else if student_lt(x, s[0]) {
        lemma_student_lt_asymmetric(x, s[0]);
        let r = seq![x] + s;
        assert forall|i: int| 0 <= i < r.len() - 1 implies student_le(#[trigger] r[i], r[i + 1]) by {
            if i == 0 {
                assert(r[0] == x && r[1] == s[0]);
            } else {
                assert(r[i] == s[i - 1] && r[i + 1] == s[i]);
            }
        }
    } else {
        let d = s.drop_first();
        assert(sorted_students(d)) by {
            assert(forall|i: int| 0 <= i < d.len() ==> d[i] == s[i + 1]);
        }
        lemma_sorted_insert_sorted(d, x);
        let t = sorted_insert(d, x);
        let r = seq![s[0]] + t;
        assert(sorted_insert(s, x) == r);
        assert(t.len() > 0) by {
            if d.len() > 0 && !student_lt(x, d[0]) {
                assert(t == seq![d[0]] + sorted_insert(d.drop_first(), x));
            }
        }
        assert(student_le(s[0], t[0])) by {
            if d.len() == 0 || student_lt(x, d[0]) {
                assert(t[0] == x);
            } else {
                assert(t == seq![d[0]] + sorted_insert(d.drop_first(), x));
                assert(t[0] == d[0]);
                assert(student_le(s[0], s[1]));
            }
        }
        assert forall|i: int| 0 <= i < r.len() - 1 implies student_le(#[trigger] r[i], r[i + 1]) by {
            if i == 0 {
                assert(r[0] == s[0] && r[1] == t[0]);
            } else {
                assert(r[i] == t[i - 1] && r[i + 1] == t[i]);
            }
        }
    }
}

proof fn lemma_sorted_insert_multiset(s: Seq<StudentV>, x: StudentV)
    ensures
        sorted_insert(s, x).to_multiset() == s.to_multiset().insert(x),
    decreases s.len(),
{
    broadcast use vstd::seq_lib::group_to_multiset_ensures;
    broadcast use vstd::multiset::group_multiset_axioms;

    if s.len() == 0 {
        assert(seq![x] =~= Seq::<StudentV>::empty().push(x));
        assert(sorted_insert(s, x).to_multiset() =~= s.to_multiset().insert(x));
    } else if student_lt(x, s[0]) {
        lemma_multiset_commutative(seq![x], s);
        assert(seq![x] =~= Seq::<StudentV>::empty().push(x));
        assert(sorted_insert(s, x).to_multiset() =~= s.to_multiset().insert(x));
    } else {
        let d = s.drop_first();
        lemma_sorted_insert_multiset(d, x);
        lemma_multiset_commutative(seq![s[0]], sorted_insert(d, x));
        lemma_multiset_commutative(seq![s[0]], d);
        assert(seq![s[0]] =~= Seq::<StudentV>::empty().push(s[0]));
        assert(seq![s[0]] + d =~= s);
        assert(sorted_insert(s, x).to_multiset() =~= s.to_multiset().insert(x));
    }
}

/// Sorting for the listing yields a sequence in listing order that holds
/// exactly the given students.
pub proof fn lemma_sort_students_correct(s: Seq<StudentV>)
    ensures
        sorted_students(sort_students(s)),
        sort_students(s).to_multiset() == s.to_multiset(),
    decreases s.len(),
{
    broadcast use vstd::seq_lib::group_to_multiset_ensures;

    if s.len() > 0 {
        let dl = s.drop_last();
        lemma_sort_students_correct(dl);
        lemma_sorted_insert_sorted(sort_students(dl), s.last());
        lemma_sorted_insert_multiset(sort_students(dl), s.last());
        assert(dl.push(s.last()) =~= s);
    }
}

/// Students are listed in listing order, and the listing holds exactly the
/// decoded stored rows.
pub proof fn lemma_list_students_ordered(s: StoreV)
    ensures
        sorted_students(spec_list_students(s)),
        spec_list_students(s).to_multiset() == s.students.map_values(
            |r: StudentRowV| spec_decode_student(r),
        ).to_multiset(),
{
    lemma_sort_students_correct(s.students.map_values(|r: StudentRowV| spec_decode_student(r)));
}

proof fn lemma_has_column_push_other(cols: Seq<Seq<char>>, n1: Seq<char>, n2: Seq<char>)
    requires
        n1 != n2,
    ensures
        schema_has_column(cols.push(n2), n1) == schema_has_column(cols, n1),
{
    if schema_has_column(cols, n1) {
        lemma_has_column_push(cols, n1, n2);
    }
    if schema_has_column(cols.push(n2), n1) {
        let i = choose|i: int| 0 <= i < cols.push(n2).len() && cols.push(n2)[i] == n1;
        if i < cols.len() {
            assert(cols[i] == n1);
        }
    }
}

/// The two column migrations are independent of each other's order: the
/// stored rows come out the same, and the same columns are present.
pub proof fn lemma_ensure_columns_order_independent(s: StoreV, c1: DraftColumn, c2: DraftColumn)
    ensures
        ({
            let ab = spec_ensure_column(spec_ensure_column(s, c1), c2);
            let ba = spec_ensure_column(spec_ensure_column(s, c2), c1);
            &&& ab.drafts == ba.drafts
            &&& ab.students == ba.students
            &&& ab.settings == ba.settings
            &&& ab.schema.tables_created == ba.schema.tables_created
            &&& forall|n: Seq<char>|
                schema_has_column(ab.schema.drafts_columns, n) == schema_has_column(
                    ba.schema.drafts_columns,
                    n,
                )
        }),
{
    let ab = spec_ensure_column(spec_ensure_column(s, c1), c2);
    let ba = spec_ensure_column(spec_ensure_column(s, c2), c1);
    if c1 == c2 {
        let once = spec_ensure_column(s, c1);
        if !schema_has_column(s.schema.drafts_columns, column_name(c1)) {
            lemma_has_column_push(s.schema.drafts_columns, column_name(c1), column_name(c1));
        }
        lemma_ensure_column_present_is_noop(once, c1);
    } else {
        let n1 = column_name(c1);
        let n2 = column_name(c2);
        assert(n1 != n2) by {
            reveal_strlit("author");
            reveal_strlit("status");
            assert(column_name(DraftColumn::Author)[0] == 'a');
            assert(column_name(DraftColumn::Status)[0] == 's');
        }
        let has1 = schema_has_column(s.schema.drafts_columns, n1);
        let has2 = schema_has_column(s.schema.drafts_columns, n2);
        if !has1 {
            lemma_has_column_push_other(s.schema.drafts_columns.push(n2), n1, n2);
            lemma_has_column_push_other(s.schema.drafts_columns, n1, n2);
        }
        if !has2 {
            lemma_has_column_push_other(s.schema.drafts_columns.push(n1), n2, n1);
            lemma_has_column_push_other(s.schema.drafts_columns, n2, n1);
        }
        if has1 {
            lemma_ensure_column_present_is_noop(s, c1);
            lemma_has_column_push(s.schema.drafts_columns, n1, n2);
            lemma_ensure_column_present_is_noop(spec_ensure_column(s, c2), c1);
        }
        if has2 {
            lemma_ensure_column_present_is_noop(s, c2);
            lemma_has_column_push(s.schema.drafts_columns, n2, n1);
            lemma_ensure_column_present_is_noop(spec_ensure_column(s, c1), c2);
        }
        assert(ab.drafts =~= ba.drafts) by {
            assert forall|i: int| 0 <= i < s.drafts.len() implies apply_column_default(
                apply_column_default(s.drafts[i], c1),
                c2,
            ) == apply_column_default(apply_column_default(s.drafts[i], c2), c1) by {
            }
            if !has1 && !has2 {
                assert(ab.drafts =~= s.drafts.map_values(
                    |r: DraftRowV|
                        apply_column_default(apply_column_default(r, c1), c2),
                ));
                assert(ba.drafts =~= s.drafts.map_values(
                    |r: DraftRowV|
                        apply_column_default(apply_column_default(r, c2), c1),
                ));
            }
        }
        assert forall|n: Seq<char>|
            schema_has_column(ab.schema.drafts_columns, n) == schema_has_column(
                ba.schema.drafts_columns,
                n,
            ) by {
            if !has1 && !has2 {
                assert(ab.schema.drafts_columns == s.schema.drafts_columns.push(n1).push(n2));
                assert(ba.schema.drafts_columns == s.schema.drafts_columns.push(n2).push(n1));
                if schema_has_column(ab.schema.drafts_columns, n) {
                    let i = choose|i: int|
                        0 <= i < ab.schema.drafts_columns.len() && ab.schema.drafts_columns[i]
                            == n;
                    if i < s.schema.drafts_columns.len() {
                        lemma_has_column_push(s.schema.drafts_columns, n, n2);
                        lemma_has_column_push(s.schema.drafts_columns.push(n2), n, n1);
                    } else if i == s.schema.drafts_columns.len() {
                        lemma_has_column_push(s.schema.drafts_columns.push(n2), n1, n1);
                    } else {
                        lemma_has_column_push(s.schema.drafts_columns, n2, n2);
                        lemma_has_column_push(s.schema.drafts_columns.push(n2), n2, n1);
                    }
                }
                if schema_has_column(ba.schema.drafts_columns, n) {
                    let i = choose|i: int|
                        0 <= i < ba.schema.drafts_columns.len() && ba.schema.drafts_columns[i]
                            == n;
                    if i < s.schema.drafts_columns.len() {
                        lemma_has_column_push(s.schema.drafts_columns, n, n1);
                        lemma_has_column_push(s.schema.drafts_columns.push(n1), n, n2);
                    } else if i == s.schema.drafts_columns.len() {
                        lemma_has_column_push(s.schema.drafts_columns.push(n1), n2, n2);
                    } else {
                        lemma_has_column_push(s.schema.drafts_columns, n1, n1);
                        lemma_has_column_push(s.schema.drafts_columns.push(n1), n1, n2);
                    }
                }
            }
        }
    }
}

} // verus!


