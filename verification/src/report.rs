use vstd::prelude::*;

verus! {

/// A single validation finding. File-level findings carry no row index and no
/// column; row-level findings carry the 1-based row index, the row's "id"
/// field when the row is long enough to have one, and the column checked.
pub struct ValidationError {
    pub row_index: Option<usize>,
    pub id: Option<String>,
    pub column: Option<String>,
    pub error_message: String,
}

/// The complete outcome of one validation run: a status tag ("pass" or
/// "fail") and the findings in order of detection.
pub struct ValidationResponse {
    pub status: String,
    pub errors: Vec<ValidationError>,
}

/// Mathematical model of a `ValidationError`.
#[verifier::ext_equal]
pub struct ViolationView {
    pub row_index: Option<int>,
    pub id: Option<Seq<char>>,
    pub column: Option<Seq<char>>,
    pub message: Seq<char>,
}

/// Mathematical model of a `ValidationResponse`.
#[verifier::ext_equal]
pub struct ReportView {
    pub status: Seq<char>,
    pub errors: Seq<ViolationView>,
}

impl View for ValidationError {
    type V = ViolationView;

    open spec fn view(&self) -> ViolationView {
        ViolationView {
            row_index: match self.row_index {
                Some(i) => Some(i as int),
                None => None,
            },
            id: match self.id {
                Some(s) => Some(s@),
                None => None,
            },
            column: match self.column {
                Some(s) => Some(s@),
                None => None,
            },
            message: self.error_message@,
        }
    }
}

impl View for ValidationResponse {
    type V = ReportView;

    open spec fn view(&self) -> ReportView {
        ReportView {
            status: self.status@,
            errors: self.errors@.map_values(|e: ValidationError| e@),
        }
    }
}

/// The model of a report that carries one file-level finding with the given
/// message and nothing else.
pub open spec fn spec_fail(msg: Seq<char>) -> ReportView {
    ReportView {
        status: "fail"@,
        errors: seq![
            ViolationView { row_index: None, id: None, column: None, message: msg },
        ],
    }
}

/// Builds the failing report that carries a single file-level finding.
pub fn fail(msg: String) -> (r: ValidationResponse)
    ensures
        r@ == spec_fail(msg@),
{
    let r = ValidationResponse {
        status: "fail".to_owned(),
        errors: vec![
            ValidationError { row_index: None, id: None, column: None, error_message: msg },
        ],
    };
    proof {
        assert(r@.errors =~= spec_fail(r.errors[0].error_message@).errors);
    }
    r
}

} // verus!
