//! Mathematical model of the store.
//!
//! Every table is a sequence of row values; the schema is the set of
//! structural facts that the creation and migration steps establish. Each
//! public operation of the store is specified as a pure transition on this
//! model, and the laws of the library are proved over these transitions.

use vstd::prelude::*;

use crate::json::{json_of_strings, strings_of_json, wf_json};
use crate::keys::spec_draft_id;
use crate::strs::lex_lt;

verus! {

/// A student's pronouns as handed to callers, each field already defaulted.
#[verifier::ext_equal]
pub struct PronounsV {
    pub subject: Seq<char>,
    pub object: Seq<char>,
    pub possessive: Seq<char>,
}

/// A student as handed to callers.
#[verifier::ext_equal]
pub struct StudentV {
    pub id: Seq<char>,
    pub first_name: Seq<char>,
    pub last_name: Seq<char>,
    pub preferred_name: Option<Seq<char>>,
    pub pronouns: PronounsV,
    pub needs: Seq<Seq<char>>,
}

/// A stored student row. Pronoun columns may be absent (rows written before
/// the application supplied pronouns); defaulting happens at read time.
#[verifier::ext_equal]
pub struct StudentRowV {
    pub id: Seq<char>,
    pub first_name: Seq<char>,
    pub last_name: Seq<char>,
    pub preferred_name: Option<Seq<char>>,
    pub pronouns_subject: Option<Seq<char>>,
    pub pronouns_object: Option<Seq<char>>,
    pub pronouns_possessive: Option<Seq<char>>,
    pub needs_json: Seq<char>,
    pub created_at: u64,
    pub updated_at: u64,
}

/// A draft as handed in and out of the store.
#[verifier::ext_equal]
pub struct DraftV {
    pub student_id: Seq<char>,
    pub report_period_id: Seq<char>,
    pub frame: Seq<char>,
    pub section: Seq<char>,
    pub template_id: Option<Seq<char>>,
    pub slot_values_json: Seq<char>,
    pub rendered_text: Option<Seq<char>>,
    pub author: Option<Seq<char>>,
    pub status: Option<Seq<char>>,
}

/// The natural key of a draft.
#[verifier::ext_equal]
pub struct DraftKeyV {
    pub student_id: Seq<char>,
    pub report_period_id: Seq<char>,
    pub frame: Seq<char>,
    pub section: Seq<char>,
}

/// A stored draft row. `author` and `status` are absent exactly while the
/// corresponding columns have not been added by the migrator.
#[verifier::ext_equal]
pub struct DraftRowV {
    pub id: Seq<char>,
    pub student_id: Seq<char>,
    pub report_period_id: Seq<char>,
    pub frame: Seq<char>,
    pub section: Seq<char>,
    pub template_id: Option<Seq<char>>,
    pub slot_values_json: Seq<char>,
    pub rendered_text: Option<Seq<char>>,
    pub author: Option<Seq<char>>,
    pub status: Option<Seq<char>>,
    pub updated_at: u64,
}

/// A stored application setting.
#[verifier::ext_equal]
pub struct SettingV {
    pub key: Seq<char>,
    pub value_json: Seq<char>,
    pub updated_at: u64,
}

/// The live schema: whether the table-creation batch has run, and which
/// columns the drafts table currently has.
#[verifier::ext_equal]
pub struct SchemaV {
    pub tables_created: bool,
    pub drafts_columns: Seq<Seq<char>>,
}

/// The whole store.
#[verifier::ext_equal]
pub struct StoreV {
    pub schema: SchemaV,
    pub students: Seq<StudentRowV>,
    pub drafts: Seq<DraftRowV>,
    pub settings: Seq<SettingV>,
}

/// Failures the model itself can produce. Environment failures (opening the
/// database, executing a statement) belong to the host shell.
#[derive(Clone, Copy, PartialEq, Eq, Debug)]
pub enum StoreError {
    /// A stored setting payload is not well-formed JSON.
    MalformedSetting,
}

/// The columns the drafts table is created with; `author` and `status` are
/// added by the migrator afterwards.
pub open spec fn base_drafts_columns() -> Seq<Seq<char>> {
    seq![
        "id"@,
        "student_id"@,
        "report_period_id"@,
        "frame"@,
        "section"@,
        "template_id"@,
        "slot_values_json"@,
        "rendered_text"@,
        "updated_at"@,
    ]
}

/// A store with nothing persisted and no tables created.
pub open spec fn empty_store() -> StoreV {
    StoreV {
        schema: SchemaV { tables_created: false, drafts_columns: Seq::empty() },
        students: Seq::empty(),
        drafts: Seq::empty(),
        settings: Seq::empty(),
    }
}

/// The additive migrations: columns added to the drafts table after its
/// first release.
#[derive(Clone, Copy, PartialEq, Eq, Debug)]
pub enum DraftColumn {
    Author,
    Status,
}

/// The name of a migrated column.
pub open spec fn column_name(c: DraftColumn) -> Seq<char> {
    match c {
        DraftColumn::Author => "author"@,
        DraftColumn::Status => "status"@,
    }
}

/// Whether a column of the given name is present.
pub open spec fn schema_has_column(cols: Seq<Seq<char>>, name: Seq<char>) -> bool {
    exists|i: int| 0 <= i < cols.len() && cols[i] == name
}

/// What adding a migrated column does to one stored row: the column's
/// default is filled in where the row had no value.
pub open spec fn apply_column_default(r: DraftRowV, c: DraftColumn) -> DraftRowV {
    match c {
        DraftColumn::Author => if r.author is None {
            DraftRowV { author: Some("teacher"@), ..r }
        } else {
            r
        },
        DraftColumn::Status => if r.status is None {
            DraftRowV { status: Some("approved"@), ..r }
        } else {
            r
        },
    }
}

/// The table-creation step: runs the creation batch once; a later call
/// finds the tables present and changes nothing.
pub open spec fn spec_create_tables(s: StoreV) -> StoreV {
    if s.schema.tables_created {
        s
    } else {
        StoreV {
            schema: SchemaV { tables_created: true, drafts_columns: base_drafts_columns() },
            ..s
        }
    }
}

/// One additive column migration: probe for the column, and only when it is
/// absent add it and fill every existing row with its default.
pub open spec fn spec_ensure_column(s: StoreV, c: DraftColumn) -> StoreV {
    if schema_has_column(s.schema.drafts_columns, column_name(c)) {
        s
    } else {
        StoreV {
            schema: SchemaV {
                drafts_columns: s.schema.drafts_columns.push(column_name(c)),
                ..s.schema
            },
            drafts: s.drafts.map_values(|r: DraftRowV| apply_column_default(r, c)),
            ..s
        }
    }
}

/// The full schema-ensure step run at the start of every operation.
pub open spec fn spec_init_schema(s: StoreV) -> StoreV {
    spec_ensure_column(
        spec_ensure_column(spec_create_tables(s), DraftColumn::Author),
        DraftColumn::Status,
    )
}

/// The index of the setting with the given key, or -1 when absent.
pub open spec fn find_setting(s: Seq<SettingV>, k: Seq<char>) -> int
    decreases s.len(),
{
    if s.len() == 0 {
        -1
    } else if s[0].key == k {
        0
    } else if find_setting(s.drop_first(), k) == -1 {
        -1
    } else {
        find_setting(s.drop_first(), k) + 1
    }
}

/// The index of the student row with the given id, or -1 when absent.
pub open spec fn find_student(s: Seq<StudentRowV>, id: Seq<char>) -> int
    decreases s.len(),
{
    if s.len() == 0 {
        -1
    } else if s[0].id == id {
        0
    } else if find_student(s.drop_first(), id) == -1 {
        -1
    } else {
        find_student(s.drop_first(), id) + 1
    }
}

/// The natural key of a draft.
pub open spec fn draft_key(d: DraftV) -> DraftKeyV {
    DraftKeyV {
        student_id: d.student_id,
        report_period_id: d.report_period_id,
        frame: d.frame,
        section: d.section,
    }
}

/// The natural key of a stored draft row.
pub open spec fn row_key(r: DraftRowV) -> DraftKeyV {
    DraftKeyV {
        student_id: r.student_id,
        report_period_id: r.report_period_id,
        frame: r.frame,
        section: r.section,
    }
}

/// The index of the draft row with the given natural key, or -1 when absent.
pub open spec fn find_draft(s: Seq<DraftRowV>, k: DraftKeyV) -> int
    decreases s.len(),
{
    if s.len() == 0 {
        -1
    } else if row_key(s[0]) == k {
        0
    } else if find_draft(s.drop_first(), k) == -1 {
        -1
    } else {
        find_draft(s.drop_first(), k) + 1
    }
}

/// An optional text, defaulted when absent.
pub open spec fn or_default(o: Option<Seq<char>>, d: Seq<char>) -> Seq<char> {
    match o {
        Some(v) => v,
        None => d,
    }
}

/// Reading a setting: the stored value when present and well-formed, an
/// explicit absence when no row has the key, and a hard failure on a
/// malformed payload.
pub open spec fn spec_get_setting(s: StoreV, k: Seq<char>) -> Result<
    Option<Seq<char>>,
    StoreError,
> {
    let i = find_setting(s.settings, k);
    if i < 0 {
        Ok(None)
    } else if wf_json(s.settings[i].value_json) {
        Ok(Some(s.settings[i].value_json))
    } else {
        Err(StoreError::MalformedSetting)
    }
}

/// Writing a setting: wholesale replacement keyed on the key, with the
/// update timestamp refreshed.
pub open spec fn spec_set_setting(s: StoreV, k: Seq<char>, v: Seq<char>, now: u64) -> StoreV {
    let row = SettingV { key: k, value_json: v, updated_at: now };
    let i = find_setting(s.settings, k);
    if i >= 0 {
        StoreV { settings: s.settings.update(i, row), ..s }
    } else {
        StoreV { settings: s.settings.push(row), ..s }
    }
}

/// The stored row a student upsert writes: pronouns present, needs encoded
/// as JSON.
pub open spec fn student_row_of(st: StudentV, created: u64, now: u64) -> StudentRowV {
    StudentRowV {
        id: st.id,
        first_name: st.first_name,
        last_name: st.last_name,
        preferred_name: st.preferred_name,
        pronouns_subject: Some(st.pronouns.subject),
        pronouns_object: Some(st.pronouns.object),
        pronouns_possessive: Some(st.pronouns.possessive),
        needs_json: json_of_strings(st.needs),
        created_at: created,
        updated_at: now,
    }
}

/// Upserting a student: on a fresh id the row is appended with both
/// timestamps set to now; on an existing id every field is overwritten,
/// the creation timestamp is kept and the update timestamp refreshed.
pub open spec fn spec_upsert_student(s: StoreV, st: StudentV, now: u64) -> StoreV {
    let i = find_student(s.students, st.id);
    if i >= 0 {
        StoreV {
            students: s.students.update(i, student_row_of(st, s.students[i].created_at, now)),
            ..s
        }
    } else {
        StoreV { students: s.students.push(student_row_of(st, now, now)), ..s }
    }
}

/// Deleting a student: first every draft referencing the student, then the
/// student row itself; other rows are untouched.
pub open spec fn spec_delete_student(s: StoreV, id: Seq<char>) -> StoreV {
    StoreV {
        drafts: s.drafts.filter(|r: DraftRowV| r.student_id != id),
        students: s.students.filter(|r: StudentRowV| r.id != id),
        ..s
    }
}

/// Decoding a stored student row: pronouns defaulted field by field, the
/// needs list decoded with an empty list substituted for a payload that is
/// not a JSON list of strings.
pub open spec fn spec_decode_student(r: StudentRowV) -> StudentV {
    StudentV {
        id: r.id,
        first_name: r.first_name,
        last_name: r.last_name,
        preferred_name: r.preferred_name,
        pronouns: PronounsV {
            subject: or_default(r.pronouns_subject, "they"@),
            object: or_default(r.pronouns_object, "them"@),
            possessive: or_default(r.pronouns_possessive, "their"@),
        },
        needs: match strings_of_json(r.needs_json) {
            Some(v) => v,
            None => Seq::empty(),
        },
    }
}

/// Display order of students: by last name, then first name.
pub open spec fn student_lt(a: StudentV, b: StudentV) -> bool {
    lex_lt(a.last_name, b.last_name) || (a.last_name == b.last_name && lex_lt(
        a.first_name,
        b.first_name,
    ))
}

/// `a` may stand before `b` in the listing.
pub open spec fn student_le(a: StudentV, b: StudentV) -> bool {
    !student_lt(b, a)
}

/// Whether a sequence of students is in listing order.
pub open spec fn sorted_students(s: Seq<StudentV>) -> bool {
    forall|i: int| 0 <= i < s.len() - 1 ==> student_le(#[trigger] s[i], s[i + 1])
}

/// Inserting into a sequence sorted by `student_lt`, after any entries the
/// new one does not strictly precede.
pub open spec fn sorted_insert(s: Seq<StudentV>, x: StudentV) -> Seq<StudentV>
    decreases s.len(),
{
    if s.len() == 0 {
        seq![x]
    } else if student_lt(x, s[0]) {
        seq![x] + s
    } else {
        seq![s[0]] + sorted_insert(s.drop_first(), x)
    }
}

/// Sorting a sequence of students by insertion.
pub open spec fn sort_students(s: Seq<StudentV>) -> Seq<StudentV>
    decreases s.len(),
{
    if s.len() == 0 {
        s
    } else {
        sorted_insert(sort_students(s.drop_last()), s.last())
    }
}

/// Listing students: every stored row decoded, ordered by last name then
/// first name.
pub open spec fn spec_list_students(s: StoreV) -> Seq<StudentV> {
    sort_students(s.students.map_values(|r: StudentRowV| spec_decode_student(r)))
}

/// The stored row a draft upsert writes: the identifier derived from the
/// natural key, author and status defaulted, the update timestamp set.
pub open spec fn draft_row_of(d: DraftV, now: u64) -> DraftRowV {
    DraftRowV {
        id: spec_draft_id(d.student_id, d.report_period_id, d.frame, d.section),
        student_id: d.student_id,
        report_period_id: d.report_period_id,
        frame: d.frame,
        section: d.section,
        template_id: d.template_id,
        slot_values_json: d.slot_values_json,
        rendered_text: d.rendered_text,
        author: Some(or_default(d.author, "teacher"@)),
        status: Some(or_default(d.status, "approved"@)),
        updated_at: now,
    }
}

/// Upserting a draft: conflict resolution is keyed on the natural key; on
/// conflict every mutable field is overwritten while the stored identifier
/// of the row is kept, and the update timestamp is refreshed.
pub open spec fn spec_upsert_draft(s: StoreV, d: DraftV, now: u64) -> StoreV {
    let i = find_draft(s.drafts, draft_key(d));
    if i >= 0 {
        StoreV {
            drafts: s.drafts.update(i, DraftRowV { id: s.drafts[i].id, ..draft_row_of(d, now) }),
            ..s
        }
    } else {
        StoreV { drafts: s.drafts.push(draft_row_of(d, now)), ..s }
    }
}

/// Decoding a stored draft row: a slot-values payload that is not
/// well-formed JSON is tolerated by substituting the empty document.
pub open spec fn spec_decode_draft(r: DraftRowV) -> DraftV {
    DraftV {
        student_id: r.student_id,
        report_period_id: r.report_period_id,
        frame: r.frame,
        section: r.section,
        template_id: r.template_id,
        slot_values_json: if wf_json(r.slot_values_json) {
            r.slot_values_json
        } else {
            "{}"@
        },
        rendered_text: r.rendered_text,
        author: r.author,
        status: r.status,
    }
}

/// Listing drafts of one report period: the matching rows in stored order,
/// each decoded.
pub open spec fn spec_list_drafts(s: StoreV, pid: Seq<char>) -> Seq<DraftV> {
    s.drafts.filter(|r: DraftRowV| r.report_period_id == pid).map_values(
        |r: DraftRowV| spec_decode_draft(r),
    )
}

/// Well-formedness of the store: keys are unique per table, and every
/// stored draft identifier agrees with the one derived from the row's
/// natural key.
pub open spec fn wf_store(s: StoreV) -> bool {
    &&& forall|i: int, j: int|
        0 <= i < j < s.students.len() ==> s.students[i].id != s.students[j].id
    &&& forall|i: int, j: int|
        0 <= i < j < s.drafts.len() ==> row_key(s.drafts[i]) != row_key(s.drafts[j])
    &&& forall|i: int|
        0 <= i < s.drafts.len() ==> (#[trigger] s.drafts[i]).id == spec_draft_id(
            s.drafts[i].student_id,
            s.drafts[i].report_period_id,
            s.drafts[i].frame,
            s.drafts[i].section,
        )
    &&& forall|i: int, j: int|
        0 <= i < j < s.settings.len() ==> s.settings[i].key != s.settings[j].key
}


/// Loading one already-stored student row, as the storage boundary hands
/// it over: appended only when its id is not yet present.
pub open spec fn spec_load_student_row(s: StoreV, row: StudentRowV) -> StoreV {
    if find_student(s.students, row.id) == -1 {
        StoreV { students: s.students.push(row), ..s }
    } else {
        s
    }
}

/// Loading one already-stored draft row: appended only when its natural
/// key is not yet present.
pub open spec fn spec_load_draft_row(s: StoreV, row: DraftRowV) -> StoreV {
    if find_draft(s.drafts, row_key(row)) == -1 {
        StoreV { drafts: s.drafts.push(row), ..s }
    } else {
        s
    }
}

/// Loading one already-stored setting row: appended only when its key is
/// not yet present.
pub open spec fn spec_load_setting_row(s: StoreV, row: SettingV) -> StoreV {
    if find_setting(s.settings, row.key) == -1 {
        StoreV { settings: s.settings.push(row), ..s }
    } else {
        s
    }
}

/// What `find_setting` returns: the first index whose key matches, and -1
/// exactly when no index matches.
pub proof fn lemma_find_setting(s: Seq<SettingV>, k: Seq<char>)
    ensures
        find_setting(s, k) == -1 ==> forall|i: int| 0 <= i < s.len() ==> s[i].key != k,
        find_setting(s, k) != -1 ==> {
            &&& 0 <= find_setting(s, k) < s.len()
            &&& s[find_setting(s, k)].key == k
            &&& forall|i: int| 0 <= i < find_setting(s, k) ==> s[i].key != k
        },
    decreases s.len(),
{
    if s.len() > 0 && s[0].key != k {
        let d = s.drop_first();
        lemma_find_setting(d, k);
        let fd = find_setting(d, k);
        if fd == -1 {
            assert forall|i: int| 0 <= i < s.len() implies s[i].key != k by {
                if i >= 1 {
                    assert(d[i - 1] == s[i]);
                }
            }
        } else {
            assert(d[fd] == s[fd + 1]);
            assert forall|i: int| 0 <= i < fd + 1 implies s[i].key != k by {
                if i >= 1 {
                    assert(d[i - 1] == s[i]);
                }
            }
        }
    }
}

/// `find_setting` returns the position of a match that nothing precedes.
pub proof fn lemma_find_setting_at(s: Seq<SettingV>, k: Seq<char>, j: int)
    requires
        0 <= j < s.len(),
        s[j].key == k,
        forall|i: int| 0 <= i < j ==> s[i].key != k,
    ensures
        find_setting(s, k) == j,
{
    lemma_find_setting(s, k);
    let f = find_setting(s, k);
    if f == -1 {
        assert(s[j].key != k);
    } else if f < j {
        assert(s[f].key != k);
    } else if f > j {
        assert(s[j].key != k);
    }
}

/// What `find_student` returns: the first index whose id matches, and -1
/// exactly when no index matches.
pub proof fn lemma_find_student(s: Seq<StudentRowV>, id: Seq<char>)
    ensures
        find_student(s, id) == -1 ==> forall|i: int| 0 <= i < s.len() ==> s[i].id != id,
        find_student(s, id) != -1 ==> {
            &&& 0 <= find_student(s, id) < s.len()
            &&& s[find_student(s, id)].id == id
            &&& forall|i: int| 0 <= i < find_student(s, id) ==> s[i].id != id
        },
    decreases s.len(),
{
    if s.len() > 0 && s[0].id != id {
        let d = s.drop_first();
        lemma_find_student(d, id);
        let fd = find_student(d, id);
        if fd == -1 {
            assert forall|i: int| 0 <= i < s.len() implies s[i].id != id by {
                if i >= 1 {
                    assert(d[i - 1] == s[i]);
                }
            }
        } else {
            assert(d[fd] == s[fd + 1]);
            assert forall|i: int| 0 <= i < fd + 1 implies s[i].id != id by {
                if i >= 1 {
                    assert(d[i - 1] == s[i]);
                }
            }
        }
    }
}

/// `find_student` returns the position of a match that nothing precedes.
pub proof fn lemma_find_student_at(s: Seq<StudentRowV>, id: Seq<char>, j: int)
    requires
        0 <= j < s.len(),
        s[j].id == id,
        forall|i: int| 0 <= i < j ==> s[i].id != id,
    ensures
        find_student(s, id) == j,
{
    lemma_find_student(s, id);
    let f = find_student(s, id);
    if f == -1 {
        assert(s[j].id != id);
    } else if f < j {
        assert(s[f].id != id);
    } else if f > j {
        assert(s[j].id != id);
    }
}

/// What `find_draft` returns: the first index whose natural key matches,
/// and -1 exactly when no index matches.
pub proof fn lemma_find_draft(s: Seq<DraftRowV>, k: DraftKeyV)
    ensures
        find_draft(s, k) == -1 ==> forall|i: int| 0 <= i < s.len() ==> row_key(s[i]) != k,
        find_draft(s, k) != -1 ==> {
            &&& 0 <= find_draft(s, k) < s.len()
            &&& row_key(s[find_draft(s, k)]) == k
            &&& forall|i: int| 0 <= i < find_draft(s, k) ==> row_key(s[i]) != k
        },
    decreases s.len(),
{
    if s.len() > 0 && row_key(s[0]) != k {
        let d = s.drop_first();
        lemma_find_draft(d, k);
        let fd = find_draft(d, k);
        if fd == -1 {
            assert forall|i: int| 0 <= i < s.len() implies row_key(s[i]) != k by {
                if i >= 1 {
                    assert(d[i - 1] == s[i]);
                }
            }
        } else {
            assert(d[fd] == s[fd + 1]);
            assert forall|i: int| 0 <= i < fd + 1 implies row_key(s[i]) != k by {
                if i >= 1 {
                    assert(d[i - 1] == s[i]);
                }
            }
        }
    }
}

/// `find_draft` returns the position of a match that nothing precedes.
pub proof fn lemma_find_draft_at(s: Seq<DraftRowV>, k: DraftKeyV, j: int)
    requires
        0 <= j < s.len(),
        row_key(s[j]) == k,
        forall|i: int| 0 <= i < j ==> row_key(s[i]) != k,
    ensures
        find_draft(s, k) == j,
{
    lemma_find_draft(s, k);
    let f = find_draft(s, k);
    if f == -1 {
        assert(row_key(s[j]) != k);
    } else if f < j {
        assert(row_key(s[f]) != k);
    } else if f > j {
        assert(row_key(s[j]) != k);
    }
}

/// Filtering distributes over appending one element.
pub proof fn lemma_filter_push<A>(s: Seq<A>, pred: spec_fn(A) -> bool, x: A)
    ensures
        s.push(x).filter(pred) == if pred(x) {
            s.filter(pred).push(x)
        } else {
            s.filter(pred)
        },
{
    reveal(Seq::filter);
    assert(s.push(x).drop_last() =~= s);
    assert(s.push(x).last() == x);
}

} // verus!
