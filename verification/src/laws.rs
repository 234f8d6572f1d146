use vstd::prelude::*;
use crate::report::ViolationView;
use crate::engine::{
    col_index, has_col, has_required, missing_cols_msg, row_count_message, email_message,
    format_message, range_message, field_at, id_of, row_violations, violations_upto,
    spec_validate,
};
use crate::number::{is_number, age_in_range};
use crate::text::is_blank;
use crate::input::{csv_decoding, spec_validate_bytes};

verus! {

proof fn lemma_fail_ne_pass()
    ensures
        "fail"@ != "pass"@,
{
    reveal_strlit("fail");
    reveal_strlit("pass");
    assert("fail"@[0] == 'f');
    assert("pass"@[0] == 'p');
}

/// The report's status is "fail" exactly when its violation list is
/// non-empty, and every report's status is "fail" or "pass".
pub proof fn lemma_status_iff_violations(h: Seq<Seq<char>>, rows: Seq<Seq<Seq<char>>>)
    ensures
        spec_validate(h, rows).status == "fail"@ <==> spec_validate(h, rows).errors.len() > 0,
        spec_validate(h, rows).status == "fail"@ || spec_validate(h, rows).status == "pass"@,
{
    lemma_fail_ne_pass();
}

/// The same, for a run that starts from raw bytes: a structural decode error
/// also yields a "fail" status with a non-empty violation list.
pub proof fn lemma_status_iff_violations_bytes(content: Seq<u8>)
    ensures
        spec_validate_bytes(content).status == "fail"@ <==> spec_validate_bytes(
            content,
        ).errors.len() > 0,
        spec_validate_bytes(content).status == "fail"@ || spec_validate_bytes(content).status
            == "pass"@,
{
    lemma_fail_ne_pass();
    match csv_decoding(content) {
        Ok(t) => lemma_status_iff_violations(t.0, t.1),
        Err(m) => {},
    }
}

/// When a required column is absent the report holds exactly one violation,
/// a file-level one naming the absent columns, and no row is inspected: the
/// report does not depend on the rows at all.
pub proof fn lemma_missing_schema_terminal(
    h: Seq<Seq<char>>,
    rows: Seq<Seq<Seq<char>>>,
    rows2: Seq<Seq<Seq<char>>>,
)
    requires
        !has_required(h),
    ensures
        spec_validate(h, rows).errors.len() == 1,
        spec_validate(h, rows).errors[0] == (ViolationView {
            row_index: None,
            id: None,
            column: None,
            message: missing_cols_msg(
                has_col(h, "id"@),
                has_col(h, "email"@),
                has_col(h, "age"@),
            ),
        }),
        spec_validate(h, rows) == spec_validate(h, rows2),
{
}

/// When the schema is complete but ten or fewer data rows are present, the
/// report holds exactly one violation, a file-level one citing the row-count
/// rule.
pub proof fn lemma_row_count_terminal(h: Seq<Seq<char>>, rows: Seq<Seq<Seq<char>>>)
    requires
        has_required(h),
        rows.len() <= 10,
    ensures
        spec_validate(h, rows).errors.len() == 1,
        spec_validate(h, rows).errors[0] == (ViolationView {
            row_index: None,
            id: None,
            column: None,
            message: row_count_message(),
        }),
{
}

proof fn lemma_upto_contains(
    rows: Seq<Seq<Seq<char>>>,
    n: int,
    i: int,
    id_idx: int,
    email_idx: int,
    age_idx: int,
    v: ViolationView,
)
    requires
        0 <= i < n <= rows.len(),
        row_violations(rows[i], i + 1, id_idx, email_idx, age_idx).contains(v),
    ensures
        violations_upto(rows, n, id_idx, email_idx, age_idx).contains(v),
    decreases n,
{
    let pre = violations_upto(rows, n - 1, id_idx, email_idx, age_idx);
    let last = row_violations(rows[n - 1], n, id_idx, email_idx, age_idx);
    if i == n - 1 {
        let k = choose|k: int| 0 <= k < last.len() && last[k] == v;
        assert((pre + last)[pre.len() + k] == v);
    } else {
        lemma_upto_contains(rows, n - 1, i, id_idx, email_idx, age_idx, v);
        let k = choose|k: int| 0 <= k < pre.len() && pre[k] == v;
        assert((pre + last)[k] == v);
    }
}

/// Every finding of one row carries that row's 1-based index.
proof fn lemma_row_violation_fields(
    row: Seq<Seq<char>>,
    rownum: int,
    id_idx: int,
    email_idx: int,
    age_idx: int,
    v: ViolationView,
)
    requires
        row_violations(row, rownum, id_idx, email_idx, age_idx).contains(v),
    ensures
        v.row_index == Some(rownum),
{
    let rv = row_violations(row, rownum, id_idx, email_idx, age_idx);
    let k = choose|k: int| 0 <= k < rv.len() && rv[k] == v;
    assert(rv.len() <= 2);
}

/// Every finding of a run's row phase stems from one of the first `n` rows
/// and carries that row's index.
proof fn lemma_upto_row_source(
    rows: Seq<Seq<Seq<char>>>,
    n: int,
    id_idx: int,
    email_idx: int,
    age_idx: int,
    v: ViolationView,
)
    requires
        0 <= n <= rows.len(),
        violations_upto(rows, n, id_idx, email_idx, age_idx).contains(v),
    ensures
        exists|j: int|
            0 <= j < n && v.row_index == Some(j + 1) && row_violations(
                rows[j],
                j + 1,
                id_idx,
                email_idx,
                age_idx,
            ).contains(v),
    decreases n,
{
    let pre = violations_upto(rows, n - 1, id_idx, email_idx, age_idx);
    let last = row_violations(rows[n - 1], n, id_idx, email_idx, age_idx);
    let k = choose|k: int|
        0 <= k < violations_upto(rows, n, id_idx, email_idx, age_idx).len() && violations_upto(
            rows,
            n,
            id_idx,
            email_idx,
            age_idx,
        )[k] == v;
    if k < pre.len() {
        assert(pre[k] == v);
        assert(pre.contains(v));
        lemma_upto_row_source(rows, n - 1, id_idx, email_idx, age_idx, v);
        let j = choose|j: int|
            0 <= j < n - 1 && v.row_index == Some(j + 1) && row_violations(
                rows[j],
                j + 1,
                id_idx,
                email_idx,
                age_idx,
            ).contains(v);
        assert(0 <= j < n);
    } else {
        assert(last[k - pre.len()] == v);
        assert(last.contains(v));
        lemma_row_violation_fields(rows[n - 1], n, id_idx, email_idx, age_idx, v);
        assert(0 <= n - 1 < n && v.row_index == Some(n) && row_violations(
            rows[n - 1],
            n,
            id_idx,
            email_idx,
            age_idx,
        ).contains(v));
    }
}

/// A row whose email field is blank or whitespace-only yields an email
/// violation at that row's 1-based index, carrying the row's id field.
pub proof fn lemma_blank_email_violation(h: Seq<Seq<char>>, rows: Seq<Seq<Seq<char>>>, i: int)
    requires
        has_required(h),
        rows.len() > 10,
        0 <= i < rows.len(),
        is_blank(field_at(rows[i], col_index(h, "email"@))),
    ensures
        spec_validate(h, rows).errors.contains(
            ViolationView {
                row_index: Some(i + 1),
                id: id_of(rows[i], col_index(h, "id"@)),
                column: Some("email"@),
                message: email_message(),
            },
        ),
{
    let id_idx = col_index(h, "id"@);
    let email_idx = col_index(h, "email"@);
    let age_idx = col_index(h, "age"@);
    let rv = row_violations(rows[i], i + 1, id_idx, email_idx, age_idx);
    let v = ViolationView {
        row_index: Some(i + 1),
        id: id_of(rows[i], id_idx),
        column: Some("email"@),
        message: email_message(),
    };
    assert(rv[0] == v);
    assert(rv.contains(v));
    lemma_upto_contains(rows, rows.len() as int, i, id_idx, email_idx, age_idx, v);
}

/// A row whose age field is not a decimal literal yields an age violation at
/// that row's index whose message quotes the raw field unchanged.
pub proof fn lemma_bad_age_format_violation(h: Seq<Seq<char>>, rows: Seq<Seq<Seq<char>>>, i: int)
    requires
        has_required(h),
        rows.len() > 10,
        0 <= i < rows.len(),
        !is_number(field_at(rows[i], col_index(h, "age"@))),
    ensures
        spec_validate(h, rows).errors.contains(
            ViolationView {
                row_index: Some(i + 1),
                id: id_of(rows[i], col_index(h, "id"@)),
                column: Some("age"@),
                message: format_message(field_at(rows[i], col_index(h, "age"@))),
            },
        ),
{
    let id_idx = col_index(h, "id"@);
    let email_idx = col_index(h, "email"@);
    let age_idx = col_index(h, "age"@);
    let rv = row_violations(rows[i], i + 1, id_idx, email_idx, age_idx);
    let v = ViolationView {
        row_index: Some(i + 1),
        id: id_of(rows[i], id_idx),
        column: Some("age"@),
        message: format_message(field_at(rows[i], age_idx)),
    };
    if is_blank(field_at(rows[i], email_idx)) {
        assert(rv[1] == v);
    } else {
        assert(rv[0] == v);
    }
    assert(rv.contains(v));
    lemma_upto_contains(rows, rows.len() as int, i, id_idx, email_idx, age_idx, v);
}

/// A row whose age field is a decimal literal outside [18, 100] yields an
/// age violation at that row's index whose message shows the value truncated
/// toward zero.
pub proof fn lemma_age_out_of_range_violation(h: Seq<Seq<char>>, rows: Seq<Seq<Seq<char>>>, i: int)
    requires
        has_required(h),
        rows.len() > 10,
        0 <= i < rows.len(),
        is_number(field_at(rows[i], col_index(h, "age"@))),
        !age_in_range(field_at(rows[i], col_index(h, "age"@))),
    ensures
        spec_validate(h, rows).errors.contains(
            ViolationView {
                row_index: Some(i + 1),
                id: id_of(rows[i], col_index(h, "id"@)),
                column: Some("age"@),
                message: range_message(field_at(rows[i], col_index(h, "age"@))),
            },
        ),
{
    let id_idx = col_index(h, "id"@);
    let email_idx = col_index(h, "email"@);
    let age_idx = col_index(h, "age"@);
    let rv = row_violations(rows[i], i + 1, id_idx, email_idx, age_idx);
    let v = ViolationView {
        row_index: Some(i + 1),
        id: id_of(rows[i], id_idx),
        column: Some("age"@),
        message: range_message(field_at(rows[i], age_idx)),
    };
    if is_blank(field_at(rows[i], email_idx)) {
        assert(rv[1] == v);
    } else {
        assert(rv[0] == v);
    }
    assert(rv.contains(v));
    lemma_upto_contains(rows, rows.len() as int, i, id_idx, email_idx, age_idx, v);
}

/// A row whose age field is a decimal literal within [18, 100] yields no age
/// violation: any finding at that row's index can only concern its email.
pub proof fn lemma_age_in_range_no_violation(h: Seq<Seq<char>>, rows: Seq<Seq<Seq<char>>>, i: int)
    requires
        has_required(h),
        rows.len() > 10,
        0 <= i < rows.len(),
        age_in_range(field_at(rows[i], col_index(h, "age"@))),
    ensures
        forall|v: ViolationView|
            spec_validate(h, rows).errors.contains(v) && v.row_index == Some(i + 1)
                ==> v.column == Some("email"@),
{
    let id_idx = col_index(h, "id"@);
    let email_idx = col_index(h, "email"@);
    let age_idx = col_index(h, "age"@);
    assert forall|v: ViolationView|
        spec_validate(h, rows).errors.contains(v) && v.row_index == Some(i + 1) implies v.column
        == Some("email"@) by {
        lemma_upto_row_source(rows, rows.len() as int, id_idx, email_idx, age_idx, v);
        let j = choose|j: int|
            0 <= j < rows.len() && v.row_index == Some(j + 1) && row_violations(
                rows[j],
                j + 1,
                id_idx,
                email_idx,
                age_idx,
            ).contains(v);
        assert(j == i);
        let rv = row_violations(rows[i], i + 1, id_idx, email_idx, age_idx);
        let k = choose|k: int| 0 <= k < rv.len() && rv[k] == v;
        assert(is_blank(field_at(rows[i], email_idx)));
        assert(rv[0] == v);
    }
}

} // verus!

