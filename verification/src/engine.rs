use vstd::prelude::*;
use vstd::string::StringExecFns;
use crate::report::{ValidationError, ValidationResponse, ViolationView, ReportView, spec_fail, fail};
use crate::text::{is_blank, str_is_blank, int_string, signed_to_string};
use crate::number::{is_number, is_neg, sat_mag, age_in_range, parse_decimal};

verus! {

/// Position of the first header equal to `name`, or `h.len()` when none is.
pub open spec fn col_index(h: Seq<Seq<char>>, name: Seq<char>) -> int
    decreases h.len(),
{
    if h.len() == 0 {
        0
    } else if h[0] == name {
        0
    } else {
        1 + col_index(h.skip(1), name)
    }
}

/// Whether some header equals `name`.
pub open spec fn has_col(h: Seq<Seq<char>>, name: Seq<char>) -> bool {
    col_index(h, name) < h.len()
}

/// Whether every required column ("id", "email", "age") appears among the
/// headers.
pub open spec fn has_required(h: Seq<Seq<char>>) -> bool {
    has_col(h, "id"@) && has_col(h, "email"@) && has_col(h, "age"@)
}

/// The first header equal to `name` stands at `p` exactly when no earlier
/// header equals it and `p` holds it or is the end.
proof fn lemma_col_index_char(h: Seq<Seq<char>>, name: Seq<char>, p: int)
    requires
        0 <= p <= h.len(),
        forall|k: int| 0 <= k < p ==> h[k] != name,
        p < h.len() ==> h[p] == name,
    ensures
        col_index(h, name) == p,
    decreases h.len(),
{
    if h.len() == 0 {
    } else if h[0] == name {
        assert(p == 0);
    } else {
        assert(p >= 1);
        let t = h.skip(1);
        assert forall|k: int| 0 <= k < p - 1 implies t[k] != name by {
            assert(t[k] == h[k + 1]);
        }
        lemma_col_index_char(t, name, p - 1);
    }
}

/// Finds the position of the first header equal to `needle`, or
/// `headers.len()` when it is absent.
#[verifier::loop_isolation(false)]
fn find_header(headers: &Vec<String>, needle: &String) -> (r: usize)
    ensures
        r as int == col_index(headers.deep_view(), needle@),
        r <= headers.len(),
{
    let ghost h = headers.deep_view();
    let mut j: usize = 0;
    while j < headers.len()
        invariant
            0 <= j <= headers.len(),
            forall|k: int| 0 <= k < j ==> h[k] != needle@,
        decreases headers.len() - j,
    {
        if headers[j].eq(needle) {
            proof {
                lemma_col_index_char(h, needle@, j as int);
            }
            return j;
        }
        j = j + 1;
    }
    proof {
        lemma_col_index_char(h, needle@, j as int);
    }
    j
}

/// The comma-joined list of the required columns that are absent, in the
/// fixed order id, email, age; `hi`, `he`, `ha` say which are present.
pub open spec fn missing_list(hi: bool, he: bool, ha: bool) -> Seq<char> {
    let l1 = if !hi {
        "id"@
    } else {
        Seq::<char>::empty()
    };
    let l2 = if !he {
        if l1.len() > 0 {
            l1 + ", "@ + "email"@
        } else {
            "email"@
        }
    } else {
        l1
    };
    if !ha {
        if l2.len() > 0 {
            l2 + ", "@ + "age"@
        } else {
            "age"@
        }
    } else {
        l2
    }
}

/// The file-level message that names every absent required column.
pub open spec fn missing_cols_msg(hi: bool, he: bool, ha: bool) -> Seq<char> {
    "Missing required columns: "@ + missing_list(hi, he, ha)
}

pub open spec fn row_count_message() -> Seq<char> {
    "File contains 10 or fewer data rows."@
}

pub open spec fn email_message() -> Seq<char> {
    "Email column must not be empty or null."@
}

pub open spec fn format_message(raw: Seq<char>) -> Seq<char> {
    "Invalid number format: '"@ + raw + "'"@
}

pub open spec fn range_message(raw: Seq<char>) -> Seq<char> {
    "Age "@ + int_string(is_neg(raw), sat_mag(raw)) + " is outside the allowed range of 18-100."@
}

/// The field of `row` at position `i`; a row shorter than the headers reads
/// as the empty string there.
pub open spec fn field_at(row: Seq<Seq<char>>, i: int) -> Seq<char> {
    if 0 <= i < row.len() {
        row[i]
    } else {
        Seq::empty()
    }
}

/// The row's record identifier: its "id" field, absent when the row is too
/// short to have one.
pub open spec fn id_of(row: Seq<Seq<char>>, id_idx: int) -> Option<Seq<char>> {
    if 0 <= id_idx < row.len() {
        Some(row[id_idx])
    } else {
        None
    }
}

/// The findings for one data row, in order: the email check first, then the
/// age check.
pub open spec fn row_violations(
    row: Seq<Seq<char>>,
    rownum: int,
    id_idx: int,
    email_idx: int,
    age_idx: int,
) -> Seq<ViolationView> {
    let id = id_of(row, id_idx);
    let email_part = if is_blank(field_at(row, email_idx)) {
        seq![
            ViolationView {
                row_index: Some(rownum),
                id,
                column: Some("email"@),
                message: email_message(),
            },
        ]
    } else {
        Seq::<ViolationView>::empty()
    };
    let raw = field_at(row, age_idx);
    let age_part = if !is_number(raw) {
        seq![
            ViolationView {
                row_index: Some(rownum),
                id,
                column: Some("age"@),
                message: format_message(raw),
            },
        ]
    } else if !age_in_range(raw) {
        seq![
            ViolationView {
                row_index: Some(rownum),
                id,
                column: Some("age"@),
                message: range_message(raw),
            },
        ]
    } else {
        Seq::<ViolationView>::empty()
    };
    email_part + age_part
}

/// The findings of the first `n` data rows, in row order.
pub open spec fn violations_upto(
    rows: Seq<Seq<Seq<char>>>,
    n: int,
    id_idx: int,
    email_idx: int,
    age_idx: int,
) -> Seq<ViolationView>
    decreases n,
{
    if n <= 0 {
        Seq::empty()
    } else {
        violations_upto(rows, n - 1, id_idx, email_idx, age_idx) + row_violations(
            rows[n - 1],
            n,
            id_idx,
            email_idx,
            age_idx,
        )
    }
}

/// The whole validation run over parsed headers and rows: the schema check,
/// then the row-count check, then the per-row checks; the first two are
/// terminal.
pub open spec fn spec_validate(h: Seq<Seq<char>>, rows: Seq<Seq<Seq<char>>>) -> ReportView {
    let hi = has_col(h, "id"@);
    let he = has_col(h, "email"@);
    let ha = has_col(h, "age"@);
    if !(hi && he && ha) {
        spec_fail(missing_cols_msg(hi, he, ha))
    } else if rows.len() <= 10 {
        spec_fail(row_count_message())
    } else {
        let errs = violations_upto(
            rows,
            rows.len() as int,
            col_index(h, "id"@),
            col_index(h, "email"@),
            col_index(h, "age"@),
        );
        ReportView {
            status: if errs.len() == 0 {
                "pass"@
            } else {
                "fail"@
            },
            errors: errs,
        }
    }
}

/// The model of a list of findings.
pub open spec fn errs_view(s: Seq<ValidationError>) -> Seq<ViolationView> {
    s.map_values(|e: ValidationError| e@)
}

proof fn lemma_errs_view_push(s: Seq<ValidationError>, e: ValidationError)
    ensures
        errs_view(s.push(e)) == errs_view(s).push(e@),
{
    assert(errs_view(s.push(e)) =~= errs_view(s).push(e@));
}

/// Builds the message that lists the absent required columns.
fn missing_cols_message(hi: bool, he: bool, ha: bool) -> (r: String)
    ensures
        r@ == missing_cols_msg(hi, he, ha),
{
    let mut list = String::new();
    if !hi {
        list.append("id");
    }
    if !he {
        if !list.as_str().is_empty() {
            list.append(", ");
        }
        list.append("email");
    }
    if !ha {
        if !list.as_str().is_empty() {
            list.append(", ");
        }
        list.append("age");
    }
    let mut msg = "Missing required columns: ".to_owned();
    msg.append(list.as_str());
    msg
}

fn clone_opt_string(o: &Option<String>) -> (r: Option<String>)
    ensures
        r.deep_view() == o.deep_view(),
{
    match o {
        Some(s) => Some(s.clone()),
        None => None,
    }
}

/// Applies the email rule and the age rule to one data row, appending its
/// findings in order.
fn check_row(
    row: &Vec<String>,
    rownum: usize,
    id_idx: usize,
    email_idx: usize,
    age_idx: usize,
    errors: &mut Vec<ValidationError>,
)
    ensures
        errs_view(final(errors)@) == errs_view(old(errors)@) + row_violations(
            row.deep_view(),
            rownum as int,
            id_idx as int,
            email_idx as int,
            age_idx as int,
        ),
{
    let ghost rv = row.deep_view();
    let ghost before = errs_view(errors@);
    let ghost id_spec = id_of(rv, id_idx as int);
    let id_val: Option<String> = if id_idx < row.len() {
        Some(row[id_idx].clone())
    } else {
        None
    };
    proof {
        assert(id_val.deep_view() == id_spec);
    }
    let email_blank: bool = if email_idx < row.len() {
        str_is_blank(row[email_idx].as_str())
    } else {
        true
    };
    proof {
        assert(email_blank == is_blank(field_at(rv, email_idx as int)));
    }
    let ghost email_part = if is_blank(field_at(rv, email_idx as int)) {
        seq![
            ViolationView {
                row_index: Some(rownum as int),
                id: id_spec,
                column: Some("email"@),
                message: email_message(),
            },
        ]
    } else {
        Seq::<ViolationView>::empty()
    };
    if email_blank {
        let e = ValidationError {
            row_index: Some(rownum),
            id: clone_opt_string(&id_val),
            column: Some("email".to_owned()),
            error_message: "Email column must not be empty or null.".to_owned(),
        };
        proof {
            lemma_errs_view_push(errors@, e);
        }
        errors.push(e);
    }
    proof {
        assert(errs_view(errors@) == before + email_part);
    }
    let age_str: &str = if age_idx < row.len() {
        row[age_idx].as_str()
    } else {
        ""
    };
    proof {
        reveal_strlit("");
        assert(""@ =~= Seq::<char>::empty());
        assert(age_str@ == field_at(rv, age_idx as int));
    }
    let ghost raw = field_at(rv, age_idx as int);
    match parse_decimal(age_str) {
        None => {
            let mut m = "Invalid number format: '".to_owned();
            m.append(age_str);
            m.append("'");
            let e = ValidationError {
                row_index: Some(rownum),
                id: id_val,
                column: Some("age".to_owned()),
                error_message: m,
            };
            proof {
                lemma_errs_view_push(errors@, e);
            }
            errors.push(e);
            proof {
                assert(errs_view(errors@) =~= before + row_violations(
                    rv,
                    rownum as int,
                    id_idx as int,
                    email_idx as int,
                    age_idx as int,
                ));
            }
        },
        Some(p) => {
            let in_range = !p.neg && p.int_sat >= 18 && (p.int_sat <= 99 || (p.int_sat == 100
                && !p.frac_nonzero));
            proof {
                assert(in_range == age_in_range(raw));
            }
            if !in_range {
                let mut m = "Age ".to_owned();
                let digits = signed_to_string(p.neg, p.int_sat);
                m.append(digits.as_str());
                m.append(" is outside the allowed range of 18-100.");
                let e = ValidationError {
                    row_index: Some(rownum),
                    id: id_val,
                    column: Some("age".to_owned()),
                    error_message: m,
                };
                proof {
                    lemma_errs_view_push(errors@, e);
                }
                errors.push(e);
            }
            proof {
                assert(errs_view(errors@) =~= before + row_violations(
                    rv,
                    rownum as int,
                    id_idx as int,
                    email_idx as int,
                    age_idx as int,
                ));
            }
        },
    }
}

/// Validates parsed headers and data rows against the fixed schema and the
/// per-row rules, reporting every finding in order of detection.
#[verifier::loop_isolation(false)]
pub fn validate(headers: &Vec<String>, rows: &Vec<Vec<String>>) -> (r: ValidationResponse)
    ensures
        r@ == spec_validate(headers.deep_view(), rows.deep_view()),
{
    let ghost h = headers.deep_view();
    let ghost rs = rows.deep_view();
    let needle_id = "id".to_owned();
    let needle_email = "email".to_owned();
    let needle_age = "age".to_owned();
    let id_idx = find_header(headers, &needle_id);
    let email_idx = find_header(headers, &needle_email);
    let age_idx = find_header(headers, &needle_age);
    let hi = id_idx < headers.len();
    let he = email_idx < headers.len();
    let ha = age_idx < headers.len();
    if !(hi && he && ha) {
        return fail(missing_cols_message(hi, he, ha));
    }
    if rows.len() <= 10 {
        return fail("File contains 10 or fewer data rows.".to_owned());
    }
    let mut errors: Vec<ValidationError> = Vec::new();
    let mut i: usize = 0;
    while i < rows.len()
        invariant
            0 <= i <= rows.len(),
            errs_view(errors@) == violations_upto(
                rs,
                i as int,
                id_idx as int,
                email_idx as int,
                age_idx as int,
            ),
        decreases rows.len() - i,
    {
        check_row(&rows[i], i + 1, id_idx, email_idx, age_idx, &mut errors);
        i = i + 1;
    }
    let status = if errors.len() == 0 {
        "pass"
    } else {
        "fail"
    };
    let r = ValidationResponse { status: status.to_owned(), errors };
    proof {
        assert(errs_view(r.errors@).len() == r.errors@.len());
        assert(r@ =~= spec_validate(h, rs));
    }
    r
}

} // verus!
