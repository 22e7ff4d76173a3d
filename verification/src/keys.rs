//! Derivation of a draft's storage identifier from its natural key.
//!
//! A draft is identified by the tuple (student, report period, frame,
//! section); the stored row key is those four fields joined with `:`. The
//! identifier is recomputed from the tuple on every write, never assigned
//! independently, so two writes that describe the same tuple always address
//! the same row.

use vstd::prelude::*;
use vstd::string::StringExecFns;

verus! {

/// The storage identifier of a draft: its four natural-key fields joined by `:`.
pub open spec fn spec_draft_id(
    student_id: Seq<char>,
    report_period_id: Seq<char>,
    frame: Seq<char>,
    section: Seq<char>,
) -> Seq<char> {
    student_id + ":"@ + report_period_id + ":"@ + frame + ":"@ + section
}

/// Joins the four natural-key fields with `:` to form the stored row key.
pub fn derive_draft_id(
    student_id: &str,
    report_period_id: &str,
    frame: &str,
    section: &str,
) -> (r: String)
    ensures
        r@ == spec_draft_id(student_id@, report_period_id@, frame@, section@),
{
    let mut s = student_id.to_owned();
    s.append(":");
    s.append(report_period_id);
    s.append(":");
    s.append(frame);
    s.append(":");
    s.append(section);
    s
}

} // verus!
