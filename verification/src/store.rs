//! The executable store.
//!
//! `Store` holds the persisted state: the schema facts plus one row
//! sequence per table. Every public operation first ensures the schema and
//! then performs one read or write, and its contract equates the outcome
//! with the corresponding pure transition of the model.

use vstd::prelude::*;
use vstd::string::StringExecFns;

use crate::json::{json_text_valid, string_list_from_json, string_list_to_json, strings_of_json};
use crate::keys::{derive_draft_id, spec_draft_id};
use crate::model::{
    apply_column_default, base_drafts_columns, column_name, draft_key, draft_row_of, empty_store,
    find_draft, find_setting, find_student, lemma_filter_push, lemma_find_draft,
    lemma_find_draft_at, lemma_find_setting, lemma_find_setting_at, lemma_find_student,
    lemma_find_student_at, or_default, row_key, schema_has_column, sort_students, sorted_insert,
    spec_create_tables, spec_decode_draft, spec_decode_student, spec_delete_student,
    spec_ensure_column, spec_get_setting, spec_init_schema, spec_list_drafts, spec_list_students,
    spec_load_draft_row, spec_load_setting_row, spec_load_student_row,
    spec_set_setting, spec_upsert_draft, spec_upsert_student, student_lt, student_row_of,
    DraftColumn, DraftRowV, DraftV, PronounsV, SettingV, StoreError, StoreV, StudentRowV, StudentV,
    SchemaV,
};
use crate::strs::{str_eq, str_lt};

verus! {

/// A student's pronouns.
#[derive(Debug, PartialEq, Eq)]
pub struct Pronouns {
    pub subject: String,
    pub object: String,
    pub possessive: String,
}

impl View for Pronouns {
    type V = PronounsV;

    open spec fn view(&self) -> PronounsV {
        PronounsV {
            subject: self.subject@,
            object: self.object@,
            possessive: self.possessive@,
        }
    }
}

/// A student as handed in and out of the store.
#[derive(Debug, PartialEq, Eq)]
pub struct Student {
    pub id: String,
    pub first_name: String,
    pub last_name: String,
    pub preferred_name: Option<String>,
    pub pronouns: Pronouns,
    pub needs: Vec<String>,
}

/// The view of an optional text.
pub open spec fn opt_view(o: Option<String>) -> Option<Seq<char>> {
    match o {
        Some(s) => Some(s@),
        None => None,
    }
}

impl View for Student {
    type V = StudentV;

    open spec fn view(&self) -> StudentV {
        StudentV {
            id: self.id@,
            first_name: self.first_name@,
            last_name: self.last_name@,
            preferred_name: opt_view(self.preferred_name),
            pronouns: self.pronouns@,
            needs: self.needs.deep_view(),
        }
    }
}

/// A draft as handed in and out of the store. The slot values travel as
/// their stored JSON text.
#[derive(Debug, PartialEq, Eq)]
pub struct Draft {
    pub student_id: String,
    pub report_period_id: String,
    pub frame: String,
    pub section: String,
    pub template_id: Option<String>,
    pub slot_values_json: String,
    pub rendered_text: Option<String>,
    pub author: Option<String>,
    pub status: Option<String>,
}

impl View for Draft {
    type V = DraftV;

    open spec fn view(&self) -> DraftV {
        DraftV {
            student_id: self.student_id@,
            report_period_id: self.report_period_id@,
            frame: self.frame@,
            section: self.section@,
            template_id: opt_view(self.template_id),
            slot_values_json: self.slot_values_json@,
            rendered_text: opt_view(self.rendered_text),
            author: opt_view(self.author),
            status: opt_view(self.status),
        }
    }
}

struct StudentRow {
    id: String,
    first_name: String,
    last_name: String,
    preferred_name: Option<String>,
    pronouns_subject: Option<String>,
    pronouns_object: Option<String>,
    pronouns_possessive: Option<String>,
    needs_json: String,
    created_at: u64,
    updated_at: u64,
}

impl View for StudentRow {
    type V = StudentRowV;

    closed spec fn view(&self) -> StudentRowV {
        StudentRowV {
            id: self.id@,
            first_name: self.first_name@,
            last_name: self.last_name@,
            preferred_name: opt_view(self.preferred_name),
            pronouns_subject: opt_view(self.pronouns_subject),
            pronouns_object: opt_view(self.pronouns_object),
            pronouns_possessive: opt_view(self.pronouns_possessive),
            needs_json: self.needs_json@,
            created_at: self.created_at,
            updated_at: self.updated_at,
        }
    }
}

struct DraftRow {
    id: String,
    student_id: String,
    report_period_id: String,
    frame: String,
    section: String,
    template_id: Option<String>,
    slot_values_json: String,
    rendered_text: Option<String>,
    author: Option<String>,
    status: Option<String>,
    updated_at: u64,
}

impl View for DraftRow {
    type V = DraftRowV;

    closed spec fn view(&self) -> DraftRowV {
        DraftRowV {
            id: self.id@,
            student_id: self.student_id@,
            report_period_id: self.report_period_id@,
            frame: self.frame@,
            section: self.section@,
            template_id: opt_view(self.template_id),
            slot_values_json: self.slot_values_json@,
            rendered_text: opt_view(self.rendered_text),
            author: opt_view(self.author),
            status: opt_view(self.status),
            updated_at: self.updated_at,
        }
    }
}

struct Setting {
    key: String,
    value_json: String,
    updated_at: u64,
}

impl View for Setting {
    type V = SettingV;

    closed spec fn view(&self) -> SettingV {
        SettingV { key: self.key@, value_json: self.value_json@, updated_at: self.updated_at }
    }
}

/// The view of a setting read.
pub open spec fn setting_result_view(r: Result<Option<String>, StoreError>) -> Result<
    Option<Seq<char>>,
    StoreError,
> {
    match r {
        Ok(Some(s)) => Ok(Some(s@)),
        Ok(None) => Ok(None),
        Err(e) => Err(e),
    }
}

/// The store: the schema facts and one row sequence per table.
pub struct Store {
    tables_created: bool,
    drafts_columns: Vec<String>,
    students: Vec<StudentRow>,
    drafts: Vec<DraftRow>,
    settings: Vec<Setting>,
}

impl View for Store {
    type V = StoreV;

    closed spec fn view(&self) -> StoreV {
        StoreV {
            schema: SchemaV {
                tables_created: self.tables_created,
                drafts_columns: self.drafts_columns@.map_values(|s: String| s@),
            },
            students: self.students@.map_values(|r: StudentRow| r@),
            drafts: self.drafts@.map_values(|r: DraftRow| r@),
            settings: self.settings@.map_values(|r: Setting| r@),
        }
    }
}

fn clone_opt(o: &Option<String>) -> (r: Option<String>)
    ensures
        opt_view(r) == opt_view(*o),
{
    match o {
        Some(s) => Some(s.clone()),
        None => None,
    }
}

fn opt_or(o: &Option<String>, d: &str) -> (r: String)
    ensures
        r@ == or_default(opt_view(*o), d@),
{
    match o {
        Some(s) => s.clone(),
        None => d.to_owned(),
    }
}

fn fill_draft_default(row: DraftRow, c: DraftColumn) -> (r: DraftRow)
    ensures
        r@ == apply_column_default(row@, c),
{
    match c {
        DraftColumn::Author => {
            if row.author.is_none() {
                DraftRow { author: Some("teacher".to_owned()), ..row }
            } else {
                row
            }
        },
        DraftColumn::Status => {
            if row.status.is_none() {
                DraftRow { status: Some("approved".to_owned()), ..row }
            } else {
                row
            }
        },
    }
}

impl Store {
    /// A fresh store: nothing persisted yet, no tables created.
    pub fn new() -> (r: Store)
        ensures
            r@ == empty_store(),
    {
        let r = Store {
            tables_created: false,
            drafts_columns: Vec::new(),
            students: Vec::new(),
            drafts: Vec::new(),
            settings: Vec::new(),
        };
        proof {
            assert(r@ =~~= empty_store());
        }
        r
    }

    /// Whether the drafts table currently has a column of this name.
    pub fn column_exists(&self, column: &str) -> (r: bool)
        ensures
            r == schema_has_column(self@.schema.drafts_columns, column@),
    {
        let n = self.drafts_columns.len();
        let mut i: usize = 0;
        while i < n
            invariant
                n == self.drafts_columns.len(),
                i <= n,
                forall|j: int| 0 <= j < i ==> self.drafts_columns@[j]@ != column@,
            decreases n - i,
        {
            if str_eq(self.drafts_columns[i].as_str(), column) {
                proof {
                    assert(self@.schema.drafts_columns[i as int] == column@);
                }
                return true;
            }
            i = i + 1;
        }
        proof {
            assert forall|j: int| 0 <= j < self@.schema.drafts_columns.len() implies self@.schema.drafts_columns[j] != column@ by {
                assert(self@.schema.drafts_columns[j] == self.drafts_columns@[j]@);
            }
        }
        false
    }

    /// The table-creation batch: creates every table if it is absent, with
    /// the drafts table in its base shape.
    fn create_tables(&mut self)
        ensures
            final(self)@ == spec_create_tables(old(self)@),
    {
        if !self.tables_created {
            self.tables_created = true;
            let mut cols: Vec<String> = Vec::new();
            cols.push("id".to_owned());
            cols.push("student_id".to_owned());
            cols.push("report_period_id".to_owned());
            cols.push("frame".to_owned());
            cols.push("section".to_owned());
            cols.push("template_id".to_owned());
            cols.push("slot_values_json".to_owned());
            cols.push("rendered_text".to_owned());
            cols.push("updated_at".to_owned());
            self.drafts_columns = cols;
            proof {
                assert(self@.schema.drafts_columns =~= base_drafts_columns());
                assert(self@ =~~= spec_create_tables(old(self)@));
            }
        } else {
            proof {
                assert(self@ =~~= spec_create_tables(old(self)@));
            }
        }
    }

    /// One additive migration: probe for the column and add it, with its
    /// default filled into every existing row, only when it is absent.
    pub fn ensure_column(&mut self, c: DraftColumn)
        ensures
            final(self)@ == spec_ensure_column(old(self)@, c),
    {
        let name: &str = match c {
            DraftColumn::Author => "author",
            DraftColumn::Status => "status",
        };
        proof {
            assert(name@ == column_name(c));
        }
        if self.column_exists(name) {
            proof {
                assert(self@ =~~= spec_ensure_column(old(self)@, c));
            }
            return ;
        }
        self.drafts_columns.push(name.to_owned());
        let ghost mid = self@;
        proof {
            assert(mid.schema.drafts_columns =~= old(self)@.schema.drafts_columns.push(
                column_name(c),
            ));
        }
        let n = self.drafts.len();
        let mut k: usize = 0;
        while k < n
            invariant
                n == self.drafts.len(),
                k <= n,
                self@.schema == mid.schema,
                self@.students == mid.students,
                self@.settings == mid.settings,
                self@.drafts.len() == mid.drafts.len(),
                forall|j: int|
                    0 <= j < k ==> self@.drafts[j] == apply_column_default(mid.drafts[j], c),
                forall|j: int| k <= j < n ==> self@.drafts[j] == mid.drafts[j],
            decreases n - k,
        {
            let ghost before = self@;
            let ghost prev = self.drafts@;
            let row = self.drafts.remove(k);
            let row2 = fill_draft_default(row, c);
            self.drafts.insert(k, row2);
            proof {
                assert(self.drafts@ =~= prev.update(k as int, row2));
                assert(self@.drafts =~= before.drafts.update(
                    k as int,
                    apply_column_default(before.drafts[k as int], c),
                ));
            }
            k = k + 1;
        }
        proof {
            assert(self@.drafts =~= mid.drafts.map_values(
                |r: DraftRowV| apply_column_default(r, c),
            ));
            assert(self@ =~~= spec_ensure_column(old(self)@, c));
        }
    }

    /// The additive migrations of the drafts table: `author`, then `status`.
    pub fn ensure_drafts_columns(&mut self)
        ensures
            final(self)@ == spec_ensure_column(
                spec_ensure_column(old(self)@, DraftColumn::Author),
                DraftColumn::Status,
            ),
    {
        self.ensure_column(DraftColumn::Author);
        self.ensure_column(DraftColumn::Status);
    }

    /// The schema-ensure step: create absent tables, then apply the
    /// additive migrations. Safe to run before every operation.
    pub fn init_schema(&mut self)
        ensures
            final(self)@ == spec_init_schema(old(self)@),
    {
        self.create_tables();
        self.ensure_drafts_columns();
    }

    fn find_setting_idx(&self, key: &str) -> (r: Option<usize>)
        ensures
            match r {
                Some(i) => i < self@.settings.len() && find_setting(self@.settings, key@) == i,
                None => find_setting(self@.settings, key@) == -1,
            },
    {
        let n = self.settings.len();
        let mut i: usize = 0;
        while i < n
            invariant
                n == self.settings.len(),
                i <= n,
                forall|j: int| 0 <= j < i ==> self@.settings[j].key != key@,
            decreases n - i,
        {
            if str_eq(self.settings[i].key.as_str(), key) {
                proof {
                    assert(self@.settings[i as int].key == key@);
                    lemma_find_setting_at(self@.settings, key@, i as int);
                }
                return Some(i);
            }
            proof {
                assert(self@.settings[i as int] == self.settings@[i as int]@);
            }
            i = i + 1;
        }
        proof {
            lemma_find_setting(self@.settings, key@);
            if find_setting(self@.settings, key@) != -1 {
                assert(self@.settings[find_setting(self@.settings, key@)].key == key@);
            }
        }
        None
    }

    /// Reads the stored value of a setting: an explicit absence when no row
    /// has the key, and a hard failure on a malformed stored payload.
    pub fn get_setting(&mut self, key: &str) -> (r: Result<Option<String>, StoreError>)
        ensures
            final(self)@ == spec_init_schema(old(self)@),
            setting_result_view(r) == spec_get_setting(final(self)@, key@),
    {
        self.init_schema();
        match self.find_setting_idx(key) {
            Some(i) => {
                let value = &self.settings[i].value_json;
                if json_text_valid(value.as_str()) {
                    Ok(Some(value.clone()))
                } else {
                    Err(StoreError::MalformedSetting)
                }
            },
            None => Ok(None),
        }
    }

    /// Writes a setting: wholesale replacement keyed on the key, with the
    /// update timestamp refreshed.
    pub fn set_setting(&mut self, key: &str, value_json: &str, now: u64)
        ensures
            final(self)@ == spec_set_setting(spec_init_schema(old(self)@), key@, value_json@, now),
    {
        self.init_schema();
        let ghost s1 = self@;
        let row = Setting { key: key.to_owned(), value_json: value_json.to_owned(), updated_at: now };
        match self.find_setting_idx(key) {
            Some(i) => {
                let ghost prev = self.settings@;
                self.settings.remove(i);
                self.settings.insert(i, row);
                proof {
                    assert(self.settings@ =~= prev.update(i as int, self.settings@[i as int]));
                    assert(self@ =~~= spec_set_setting(s1, key@, value_json@, now));
                }
            },
            None => {
                self.settings.push(row);
                proof {
                    assert(self@ =~~= spec_set_setting(s1, key@, value_json@, now));
                }
            },
        }
    }

    fn find_student_idx(&self, id: &str) -> (r: Option<usize>)
        ensures
            match r {
                Some(i) => i < self@.students.len() && find_student(self@.students, id@) == i,
                None => find_student(self@.students, id@) == -1,
            },
    {
        let n = self.students.len();
        let mut i: usize = 0;
        while i < n
            invariant
                n == self.students.len(),
                i <= n,
                forall|j: int| 0 <= j < i ==> self@.students[j].id != id@,
            decreases n - i,
        {
            if str_eq(self.students[i].id.as_str(), id) {
                proof {
                    assert(self@.students[i as int].id == id@);
                    lemma_find_student_at(self@.students, id@, i as int);
                }
                return Some(i);
            }
            proof {
                assert(self@.students[i as int] == self.students@[i as int]@);
            }
            i = i + 1;
        }
        proof {
            lemma_find_student(self@.students, id@);
            if find_student(self@.students, id@) != -1 {
                assert(self@.students[find_student(self@.students, id@)].id == id@);
            }
        }
        None
    }

    /// Upserts a student: insert on a fresh id, full replacement on an
    /// existing one, keeping the creation timestamp and refreshing the
    /// update timestamp.
    pub fn upsert_student(&mut self, st: &Student, now: u64)
        ensures
            final(self)@ == spec_upsert_student(spec_init_schema(old(self)@), st@, now),
    {
        self.init_schema();
        let ghost s1 = self@;
        let needs_json = string_list_to_json(&st.needs);
        let idx = self.find_student_idx(st.id.as_str());
        let created: u64 = match idx {
            Some(i) => self.students[i].created_at,
            None => now,
        };
        let row = StudentRow {
            id: st.id.clone(),
            first_name: st.first_name.clone(),
            last_name: st.last_name.clone(),
            preferred_name: clone_opt(&st.preferred_name),
            pronouns_subject: Some(st.pronouns.subject.clone()),
            pronouns_object: Some(st.pronouns.object.clone()),
            pronouns_possessive: Some(st.pronouns.possessive.clone()),
            needs_json,
            created_at: created,
            updated_at: now,
        };
        proof {
            assert(row@ =~~= student_row_of(st@, created, now));
        }
        match idx {
            Some(i) => {
                let ghost prev = self.students@;
                self.students.remove(i);
                self.students.insert(i, row);
                proof {
                    assert(self.students@ =~= prev.update(i as int, self.students@[i as int]));
                    assert(self@ =~~= spec_upsert_student(s1, st@, now));
                }
            },
            None => {
                self.students.push(row);
                proof {
                    assert(self@ =~~= spec_upsert_student(s1, st@, now));
                }
            },
        }
    }

    /// Deletes a student: first every draft referencing the student, then
    /// the student row itself.
    #[verifier::loop_isolation(false)]
    pub fn delete_student(&mut self, student_id: &str)
        ensures
            final(self)@ == spec_delete_student(spec_init_schema(old(self)@), student_id@),
    {
        self.init_schema();
        let ghost s1 = self@;
        let ghost dpred = |r: DraftRowV| r.student_id != student_id@;
        let ghost dorig = self@.drafts;
        let ghost mut m: int = 0;
        let mut k: usize = 0;
        while k < self.drafts.len()
            invariant
                self@.students == s1.students,
                self@.settings == s1.settings,
                self@.schema == s1.schema,
                0 <= m <= dorig.len(),
                self@.drafts =~= dorig.take(m).filter(dpred) + dorig.skip(m),
                k as int == dorig.take(m).filter(dpred).len(),
            decreases dorig.len() - m,
        {
            proof {
                assert(self@.drafts[k as int] == dorig[m]);
                assert(dorig.take(m + 1) =~= dorig.take(m).push(dorig[m]));
                lemma_filter_push(dorig.take(m), dpred, dorig[m]);
            }
            let keep = !str_eq(self.drafts[k].student_id.as_str(), student_id);
            proof {
                assert(self.drafts@[k as int]@ == self@.drafts[k as int]);
            }
            if keep {
                proof {
                    assert(dpred(dorig[m]));
                    assert(dorig.take(m + 1).filter(dpred) =~= dorig.take(m).filter(dpred).push(
                        dorig[m],
                    ));
                    assert(dorig.skip(m) =~= seq![dorig[m]] + dorig.skip(m + 1));
                    assert(self@.drafts =~= dorig.take(m + 1).filter(dpred) + dorig.skip(m + 1));
                }
                k = k + 1;
            } else {
                let ghost before = self@.drafts;
                let ghost prevd = self.drafts@;
                self.drafts.remove(k);
                proof {
                    assert(!dpred(dorig[m]));
                    assert(dorig.take(m + 1).filter(dpred) =~= dorig.take(m).filter(dpred));
                    assert(self.drafts@ =~= prevd.remove(k as int));
                    assert(self@.drafts =~= before.remove(k as int));
                    assert(self@.drafts =~= dorig.take(m + 1).filter(dpred) + dorig.skip(m + 1));
                }
            }
            proof {
                m = m + 1;
            }
        }
        proof {
            assert(dorig.take(m) =~= dorig);
            assert(self@.drafts =~= dorig.filter(dpred));
        }
        let ghost spred = |r: StudentRowV| r.id != student_id@;
        let ghost sorig = self@.students;
        let ghost mut sm: int = 0;
        let mut j: usize = 0;
        while j < self.students.len()
            invariant
                self@.drafts == dorig.filter(dpred),
                self@.settings == s1.settings,
                self@.schema == s1.schema,
                0 <= sm <= sorig.len(),
                self@.students =~= sorig.take(sm).filter(spred) + sorig.skip(sm),
                j as int == sorig.take(sm).filter(spred).len(),
            decreases sorig.len() - sm,
        {
            proof {
                assert(self@.students[j as int] == sorig[sm]);
                assert(sorig.take(sm + 1) =~= sorig.take(sm).push(sorig[sm]));
                lemma_filter_push(sorig.take(sm), spred, sorig[sm]);
            }
            let keep = !str_eq(self.students[j].id.as_str(), student_id);
            proof {
                assert(self.students@[j as int]@ == self@.students[j as int]);
            }
            if keep {
                proof {
                    assert(spred(sorig[sm]));
                    assert(sorig.take(sm + 1).filter(spred) =~= sorig.take(sm).filter(spred).push(
                        sorig[sm],
                    ));
                    assert(sorig.skip(sm) =~= seq![sorig[sm]] + sorig.skip(sm + 1));
                    assert(self@.students =~= sorig.take(sm + 1).filter(spred) + sorig.skip(
                        sm + 1,
                    ));
                }
                j = j + 1;
            } else {
                let ghost before = self@.students;
                let ghost prevs = self.students@;
                self.students.remove(j);
                proof {
                    assert(!spred(sorig[sm]));
                    assert(sorig.take(sm + 1).filter(spred) =~= sorig.take(sm).filter(spred));
                    assert(self.students@ =~= prevs.remove(j as int));
                    assert(self@.students =~= before.remove(j as int));
                    assert(self@.students =~= sorig.take(sm + 1).filter(spred) + sorig.skip(
                        sm + 1,
                    ));
                }
            }
            proof {
                sm = sm + 1;
            }
        }
        proof {
            assert(sorig.take(sm) =~= sorig);
            assert(self@.students =~= sorig.filter(spred));
            assert(self@ =~~= spec_delete_student(s1, student_id@));
        }
    }

    fn decode_student_row(&self, i: usize) -> (r: Student)
        requires
            i < self@.students.len(),
        ensures
            r@ == spec_decode_student(self@.students[i as int]),
    {
        let row = &self.students[i];
        proof {
            assert(row@ == self@.students[i as int]);
        }
        let needs: Vec<String> = match string_list_from_json(row.needs_json.as_str()) {
            Some(v) => v,
            None => Vec::new(),
        };
        let r = Student {
            id: row.id.clone(),
            first_name: row.first_name.clone(),
            last_name: row.last_name.clone(),
            preferred_name: clone_opt(&row.preferred_name),
            pronouns: Pronouns {
                subject: opt_or(&row.pronouns_subject, "they"),
                object: opt_or(&row.pronouns_object, "them"),
                possessive: opt_or(&row.pronouns_possessive, "their"),
            },
            needs,
        };
        proof {
            if strings_of_json(row@.needs_json) is None {
                assert(r@.needs =~= Seq::<Seq<char>>::empty());
            }
            assert(r@ =~~= spec_decode_student(self@.students[i as int]));
        }
        r
    }

    /// Lists every student, ordered by last name then first name, pronouns
    /// defaulted and the needs list decoded.
    pub fn list_students(&mut self) -> (r: Vec<Student>)
        ensures
            final(self)@ == spec_init_schema(old(self)@),
            r@.map_values(|s: Student| s@) == spec_list_students(final(self)@),
    {
        self.init_schema();
        let ghost decoded = self@.students.map_values(|row: StudentRowV| spec_decode_student(row));
        let mut out: Vec<Student> = Vec::new();
        let n = self.students.len();
        let mut i: usize = 0;
        while i < n
            invariant
                n == self.students.len(),
                i <= n,
                self@ == spec_init_schema(old(self)@),
                decoded == self@.students.map_values(
                    |row: StudentRowV| spec_decode_student(row),
                ),
                out@.map_values(|s: Student| s@) == sort_students(decoded.take(i as int)),
            decreases n - i,
        {
            let st = self.decode_student_row(i);
            insert_sorted(&mut out, st);
            proof {
                assert(decoded.take(i + 1).drop_last() =~= decoded.take(i as int));
                assert(decoded.take(i + 1).last() == decoded[i as int]);
            }
            i = i + 1;
        }
        proof {
            assert(decoded.take(n as int) =~= decoded);
        }
        out
    }

    fn decode_draft_row(&self, i: usize) -> (r: Draft)
        requires
            i < self@.drafts.len(),
        ensures
            r@ == spec_decode_draft(self@.drafts[i as int]),
    {
        let row = &self.drafts[i];
        proof {
            assert(row@ == self@.drafts[i as int]);
        }
        let slot_values_json: String = if json_text_valid(row.slot_values_json.as_str()) {
            row.slot_values_json.clone()
        } else {
            "{}".to_owned()
        };
        let r = Draft {
            student_id: row.student_id.clone(),
            report_period_id: row.report_period_id.clone(),
            frame: row.frame.clone(),
            section: row.section.clone(),
            template_id: clone_opt(&row.template_id),
            slot_values_json,
            rendered_text: clone_opt(&row.rendered_text),
            author: clone_opt(&row.author),
            status: clone_opt(&row.status),
        };
        proof {
            assert(r@ =~~= spec_decode_draft(self@.drafts[i as int]));
        }
        r
    }

    /// Lists the drafts of one report period in stored order; a malformed
    /// slot-values payload is tolerated by substituting the empty document.
    #[verifier::loop_isolation(false)]
    pub fn list_drafts(&mut self, report_period_id: &str) -> (r: Vec<Draft>)
        ensures
            final(self)@ == spec_init_schema(old(self)@),
            r@.map_values(|d: Draft| d@) == spec_list_drafts(final(self)@, report_period_id@),
    {
        self.init_schema();
        let ghost pred = |row: DraftRowV| row.report_period_id == report_period_id@;
        let ghost dec = |row: DraftRowV| spec_decode_draft(row);
        let mut out: Vec<Draft> = Vec::new();
        let n = self.drafts.len();
        let mut i: usize = 0;
        while i < n
            invariant
                n == self.drafts.len(),
                i <= n,
                self@ == spec_init_schema(old(self)@),
                pred == (|row: DraftRowV| row.report_period_id == report_period_id@),
                dec == (|row: DraftRowV| spec_decode_draft(row)),
                out@.map_values(|d: Draft| d@) == self@.drafts.take(i as int).filter(
                    pred,
                ).map_values(dec),
            decreases n - i,
        {
            proof {
                assert(self@.drafts.take(i + 1) =~= self@.drafts.take(i as int).push(
                    self@.drafts[i as int],
                ));
                lemma_filter_push(self@.drafts.take(i as int), pred, self@.drafts[i as int]);
                assert(self.drafts@[i as int]@ == self@.drafts[i as int]);
            }
            let row_matches = str_eq(self.drafts[i].report_period_id.as_str(), report_period_id);
            if row_matches {
                let d = self.decode_draft_row(i);
                let ghost before_out = out@;
                out.push(d);
                proof {
                    assert(pred(self@.drafts[i as int]));
                    assert(self@.drafts.take(i + 1).filter(pred) =~= self@.drafts.take(
                        i as int,
                    ).filter(pred).push(self@.drafts[i as int]));
                    assert(d@ == dec(self@.drafts[i as int]));
                    assert(out@.map_values(|dd: Draft| dd@) =~= before_out.map_values(
                        |dd: Draft| dd@,
                    ).push(d@));
                    assert(self@.drafts.take(i + 1).filter(pred).map_values(dec)
                        =~= self@.drafts.take(i as int).filter(pred).map_values(dec).push(
                        dec(self@.drafts[i as int]),
                    ));
                    assert(out@.map_values(|dd: Draft| dd@) =~= self@.drafts.take(i + 1).filter(
                        pred,
                    ).map_values(dec));
                }
            } else {
                proof {
                    assert(out@.map_values(|d: Draft| d@) =~= self@.drafts.take(i + 1).filter(
                        pred,
                    ).map_values(dec));
                }
            }
            i = i + 1;
        }
        proof {
            assert(self@.drafts.take(n as int) =~= self@.drafts);
        }
        out
    }

    fn find_draft_idx(&self, d: &Draft) -> (r: Option<usize>)
        ensures
            match r {
                Some(i) => i < self@.drafts.len() && find_draft(self@.drafts, draft_key(d@)) == i,
                None => find_draft(self@.drafts, draft_key(d@)) == -1,
            },
    {
        let n = self.drafts.len();
        let mut i: usize = 0;
        while i < n
            invariant
                n == self.drafts.len(),
                i <= n,
                forall|j: int| 0 <= j < i ==> row_key(self@.drafts[j]) != draft_key(d@),
            decreases n - i,
        {
            let row = &self.drafts[i];
            proof {
                assert(row@ == self@.drafts[i as int]);
            }
            let same = str_eq(row.student_id.as_str(), d.student_id.as_str()) && str_eq(
                row.report_period_id.as_str(),
                d.report_period_id.as_str(),
            ) && str_eq(row.frame.as_str(), d.frame.as_str()) && str_eq(
                row.section.as_str(),
                d.section.as_str(),
            );
            if same {
                proof {
                    assert(row_key(self@.drafts[i as int]) == draft_key(d@));
                    lemma_find_draft_at(self@.drafts, draft_key(d@), i as int);
                }
                return Some(i);
            }
            i = i + 1;
        }
        proof {
            lemma_find_draft(self@.drafts, draft_key(d@));
            if find_draft(self@.drafts, draft_key(d@)) != -1 {
                assert(row_key(self@.drafts[find_draft(self@.drafts, draft_key(d@))]) == draft_key(
                    d@,
                ));
            }
        }
        None
    }

    /// Upserts a draft: the storage identifier is derived from the natural
    /// key, author and status are defaulted, and conflict resolution is
    /// keyed on the natural key with every mutable field overwritten.
    pub fn upsert_draft(&mut self, d: &Draft, now: u64)
        ensures
            final(self)@ == spec_upsert_draft(spec_init_schema(old(self)@), d@, now),
    {
        self.init_schema();
        let ghost s1 = self@;
        let author = opt_or(&d.author, "teacher");
        let status = opt_or(&d.status, "approved");
        let idx = self.find_draft_idx(d);
        match idx {
            Some(i) => {
                let kept_id = self.drafts[i].id.clone();
                let row = DraftRow {
                    id: kept_id,
                    student_id: d.student_id.clone(),
                    report_period_id: d.report_period_id.clone(),
                    frame: d.frame.clone(),
                    section: d.section.clone(),
                    template_id: clone_opt(&d.template_id),
                    slot_values_json: d.slot_values_json.clone(),
                    rendered_text: clone_opt(&d.rendered_text),
                    author: Some(author),
                    status: Some(status),
                    updated_at: now,
                };
                proof {
                    assert(row@ =~~= DraftRowV {
                        id: s1.drafts[i as int].id,
                        ..draft_row_of(d@, now)
                    });
                }
                let ghost prev = self.drafts@;
                self.drafts.remove(i);
                self.drafts.insert(i, row);
                proof {
                    assert(self.drafts@ =~= prev.update(i as int, self.drafts@[i as int]));
                    assert(self@ =~~= spec_upsert_draft(s1, d@, now));
                }
            },
            None => {
                let id = derive_draft_id(
                    d.student_id.as_str(),
                    d.report_period_id.as_str(),
                    d.frame.as_str(),
                    d.section.as_str(),
                );
                let row = DraftRow {
                    id,
                    student_id: d.student_id.clone(),
                    report_period_id: d.report_period_id.clone(),
                    frame: d.frame.clone(),
                    section: d.section.clone(),
                    template_id: clone_opt(&d.template_id),
                    slot_values_json: d.slot_values_json.clone(),
                    rendered_text: clone_opt(&d.rendered_text),
                    author: Some(author),
                    status: Some(status),
                    updated_at: now,
                };
                proof {
                    assert(row@ =~~= draft_row_of(d@, now));
                }
                self.drafts.push(row);
                proof {
                    assert(self@ =~~= spec_upsert_draft(s1, d@, now));
                }
            },
        }
    }

    /// Loads one already-stored student row, as read back from the storage
    /// boundary; it is kept only when its id is not yet present.
    pub fn load_student_row(
        &mut self,
        id: String,
        first_name: String,
        last_name: String,
        preferred_name: Option<String>,
        pronouns_subject: Option<String>,
        pronouns_object: Option<String>,
        pronouns_possessive: Option<String>,
        needs_json: String,
        created_at: u64,
        updated_at: u64,
    )
        ensures
            final(self)@ == spec_load_student_row(
                old(self)@,
                (StudentRowV {
                    id: id@,
                    first_name: first_name@,
                    last_name: last_name@,
                    preferred_name: opt_view(preferred_name),
                    pronouns_subject: opt_view(pronouns_subject),
                    pronouns_object: opt_view(pronouns_object),
                    pronouns_possessive: opt_view(pronouns_possessive),
                    needs_json: needs_json@,
                    created_at: created_at,
                    updated_at: updated_at,
                }),
            ),
    {
        let ghost s0 = self@;
        let ghost rowv = StudentRowV {
            id: id@,
            first_name: first_name@,
            last_name: last_name@,
            preferred_name: opt_view(preferred_name),
            pronouns_subject: opt_view(pronouns_subject),
            pronouns_object: opt_view(pronouns_object),
            pronouns_possessive: opt_view(pronouns_possessive),
            needs_json: needs_json@,
            created_at: created_at,
            updated_at: updated_at,
        };
        let idx = self.find_student_idx(id.as_str());
        match idx {
            Some(_) => {},
            None => {
                let row = StudentRow {
                    id,
                    first_name,
                    last_name,
                    preferred_name,
                    pronouns_subject,
                    pronouns_object,
                    pronouns_possessive,
                    needs_json,
                    created_at,
                    updated_at,
                };
                proof {
                    assert(row@ =~~= rowv);
                }
                self.students.push(row);
                proof {
                    assert(self@ =~~= spec_load_student_row(s0, rowv));
                }
            },
        }
    }

    /// Loads one already-stored draft row; the storage identifier is
    /// derived from the natural key, and the row is kept only when its
    /// natural key is not yet present.
    pub fn load_draft_row(
        &mut self,
        student_id: String,
        report_period_id: String,
        frame: String,
        section: String,
        template_id: Option<String>,
        slot_values_json: String,
        rendered_text: Option<String>,
        author: Option<String>,
        status: Option<String>,
        updated_at: u64,
    )
        ensures
            final(self)@ == spec_load_draft_row(
                old(self)@,
                (DraftRowV {
                    id: spec_draft_id(student_id@, report_period_id@, frame@, section@),
                    student_id: student_id@,
                    report_period_id: report_period_id@,
                    frame: frame@,
                    section: section@,
                    template_id: opt_view(template_id),
                    slot_values_json: slot_values_json@,
                    rendered_text: opt_view(rendered_text),
                    author: opt_view(author),
                    status: opt_view(status),
                    updated_at: updated_at,
                }),
            ),
    {
        let ghost s0 = self@;
        let ghost rowv = DraftRowV {
            id: spec_draft_id(student_id@, report_period_id@, frame@, section@),
            student_id: student_id@,
            report_period_id: report_period_id@,
            frame: frame@,
            section: section@,
            template_id: opt_view(template_id),
            slot_values_json: slot_values_json@,
            rendered_text: opt_view(rendered_text),
            author: opt_view(author),
            status: opt_view(status),
            updated_at: updated_at,
        };
        let probe = Draft {
            student_id,
            report_period_id,
            frame,
            section,
            template_id,
            slot_values_json,
            rendered_text,
            author,
            status,
        };
        let idx = self.find_draft_idx(&probe);
        proof {
            assert(draft_key(probe@) == row_key(rowv));
        }
        match idx {
            Some(_) => {},
            None => {
                let id = derive_draft_id(
                    probe.student_id.as_str(),
                    probe.report_period_id.as_str(),
                    probe.frame.as_str(),
                    probe.section.as_str(),
                );
                let row = DraftRow {
                    id,
                    student_id: probe.student_id,
                    report_period_id: probe.report_period_id,
                    frame: probe.frame,
                    section: probe.section,
                    template_id: probe.template_id,
                    slot_values_json: probe.slot_values_json,
                    rendered_text: probe.rendered_text,
                    author: probe.author,
                    status: probe.status,
                    updated_at,
                };
                proof {
                    assert(row@ =~~= rowv);
                }
                self.drafts.push(row);
                proof {
                    assert(self@ =~~= spec_load_draft_row(s0, rowv));
                }
            },
        }
    }

    /// Loads one already-stored setting row; it is kept only when its key
    /// is not yet present.
    pub fn load_setting_row(&mut self, key: String, value_json: String, updated_at: u64)
        ensures
            final(self)@ == spec_load_setting_row(
                old(self)@,
                (SettingV { key: key@, value_json: value_json@, updated_at: updated_at }),
            ),
    {
        let ghost s0 = self@;
        let ghost rowv = SettingV { key: key@, value_json: value_json@, updated_at: updated_at };
        let idx = self.find_setting_idx(key.as_str());
        match idx {
            Some(_) => {},
            None => {
                self.settings.push(Setting { key, value_json, updated_at });
                proof {
                    assert(self@ =~~= spec_load_setting_row(s0, rowv));
                }
            },
        }
    }

    /// The column names the drafts table currently has, in order.
    pub fn drafts_column_names(&self) -> (r: Vec<String>)
        ensures
            r@.map_values(|s: String| s@) == self@.schema.drafts_columns,
    {
        let n = self.drafts_columns.len();
        let mut r: Vec<String> = Vec::new();
        let mut i: usize = 0;
        while i < n
            invariant
                n == self.drafts_columns.len(),
                i <= n,
                r@.len() == i,
                forall|j: int| 0 <= j < i ==> r@[j]@ == self.drafts_columns@[j]@,
            decreases n - i,
        {
            r.push(self.drafts_columns[i].clone());
            i = i + 1;
        }
        proof {
            assert(r@.map_values(|s: String| s@) =~= self@.schema.drafts_columns);
        }
        r
    }

    /// How many student rows are stored.
    pub fn student_count(&self) -> (r: usize)
        ensures
            r == self@.students.len(),
    {
        self.students.len()
    }

    /// How many draft rows are stored.
    pub fn draft_count(&self) -> (r: usize)
        ensures
            r == self@.drafts.len(),
    {
        self.drafts.len()
    }

    /// How many setting rows are stored.
    pub fn setting_count(&self) -> (r: usize)
        ensures
            r == self@.settings.len(),
    {
        self.settings.len()
    }

    /// The creation and update timestamps of the stored student row with
    /// the given id, when one exists.
    pub fn student_timestamps(&self, id: &str) -> (r: Option<(u64, u64)>)
        ensures
            match r {
                Some(t) => {
                    &&& find_student(self@.students, id@) >= 0
                    &&& t.0 == self@.students[find_student(self@.students, id@)].created_at
                    &&& t.1 == self@.students[find_student(self@.students, id@)].updated_at
                },
                None => find_student(self@.students, id@) == -1,
            },
    {
        match self.find_student_idx(id) {
            Some(i) => Some((self.students[i].created_at, self.students[i].updated_at)),
            None => None,
        }
    }
}

/// Fills the write-time defaults of a draft: `author` and `status`.
pub fn draft_with_defaults(d: Draft) -> (r: Draft)
    ensures
        r@ == (DraftV {
            author: Some(or_default(d@.author, "teacher"@)),
            status: Some(or_default(d@.status, "approved"@)),
            ..d@
        }),
{
    let author = opt_or(&d.author, "teacher");
    let status = opt_or(&d.status, "approved");
    Draft { author: Some(author), status: Some(status), ..d }
}

/// Read-time pronoun defaulting, field by field.
pub fn pronouns_or_default(
    subject: Option<String>,
    object: Option<String>,
    possessive: Option<String>,
) -> (r: Pronouns)
    ensures
        r@ == (PronounsV {
            subject: or_default(opt_view(subject), "they"@),
            object: or_default(opt_view(object), "them"@),
            possessive: or_default(opt_view(possessive), "their"@),
        }),
{
    Pronouns {
        subject: opt_or(&subject, "they"),
        object: opt_or(&object, "them"),
        possessive: opt_or(&possessive, "their"),
    }
}

fn student_lt_exec(a: &Student, b: &Student) -> (r: bool)
    ensures
        r == student_lt(a@, b@),
{
    if str_lt(a.last_name.as_str(), b.last_name.as_str()) {
        true
    } else if str_eq(a.last_name.as_str(), b.last_name.as_str()) {
        str_lt(a.first_name.as_str(), b.first_name.as_str())
    } else {
        false
    }
}

proof fn lemma_sorted_insert_at(s: Seq<StudentV>, x: StudentV, j: int)
    requires
        0 <= j <= s.len(),
        forall|k: int| 0 <= k < j ==> !student_lt(x, s[k]),
        j < s.len() ==> student_lt(x, s[j]),
    ensures
        sorted_insert(s, x) == s.take(j) + seq![x] + s.skip(j),
    decreases j,
{
    if j == 0 {
        if s.len() == 0 {
            assert(s.take(0) + seq![x] + s.skip(0) =~= seq![x]);
        } else {
            assert(s.take(0) + seq![x] + s.skip(0) =~= seq![x] + s);
        }
    } else {
        assert(!student_lt(x, s[0]));
        let d = s.drop_first();
        assert forall|k: int| 0 <= k < j - 1 implies !student_lt(x, d[k]) by {
            assert(d[k] == s[k + 1]);
        }
        if j - 1 < d.len() {
            assert(d[j - 1] == s[j]);
        }
        lemma_sorted_insert_at(d, x, j - 1);
        assert(seq![s[0]] + (d.take(j - 1) + seq![x] + d.skip(j - 1)) =~= s.take(j) + seq![x]
            + s.skip(j));
    }
}

fn find_insert_pos(out: &Vec<Student>, x: &Student) -> (r: usize)
    ensures
        r <= out@.len(),
        forall|k: int| 0 <= k < r ==> !student_lt(x@, out@[k]@),
        r < out@.len() ==> student_lt(x@, out@[r as int]@),
{
    let n = out.len();
    let mut j: usize = 0;
    let mut go: bool = true;
    while go
        invariant
            j <= n,
            n == out@.len(),
            forall|k: int| 0 <= k < j ==> !student_lt(x@, out@[k]@),
            !go ==> (j == n || student_lt(x@, out@[j as int]@)),
        decreases n - j + (if go { 1int } else { 0int }),
    {
        if j == n {
            go = false;
        } else if student_lt_exec(x, &out[j]) {
            go = false;
        } else {
            j = j + 1;
        }
    }
    j
}

fn insert_sorted(out: &mut Vec<Student>, x: Student)
    ensures
        final(out)@.map_values(|s: Student| s@) == sorted_insert(
            old(out)@.map_values(|s: Student| s@),
            x@,
        ),
{
    let j = find_insert_pos(out, &x);
    let ghost before = out@.map_values(|s: Student| s@);
    proof {
        assert forall|k: int| 0 <= k < j implies !student_lt(x@, before[k]) by {
            assert(before[k] == out@[k]@);
        }
        if (j as int) < before.len() {
            assert(before[j as int] == out@[j as int]@);
        }
        lemma_sorted_insert_at(before, x@, j as int);
    }
    out.insert(j, x);
    proof {
        assert(out@.map_values(|s: Student| s@) =~= before.take(j as int) + seq![x@] + before.skip(
            j as int,
        ));
    }
}

} // verus!
