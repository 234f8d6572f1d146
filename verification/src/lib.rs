pub mod engine;
pub mod input;
pub mod laws;
pub mod number;
pub mod report;
pub mod text;

pub use engine::validate;
pub use input::validate_csv;
pub use number::{parse_decimal, ParsedNumber};
pub use report::{ValidationError, ValidationResponse, ViolationView, ReportView, spec_fail, fail};
pub use text::{str_is_blank, u64_to_string, signed_to_string};
