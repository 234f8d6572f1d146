use vstd::prelude::*;
use crate::report::{ValidationResponse, ReportView, spec_fail, fail};
use crate::engine::{spec_validate, validate};

verus! {

/// What the csv crate decodes the uploaded bytes into: on success the header
/// fields and the data rows' fields, on failure a message describing the
/// structural error. Decoding is a pure function of the bytes, so the result
/// carries a name rather than a definition.
pub uninterp spec fn csv_decoding(content: Seq<u8>) -> Result<
    (Seq<Seq<char>>, Seq<Seq<Seq<char>>>),
    Seq<char>,
>;

/// Relies on csv::ReaderBuilder, csv::Reader::headers and
/// csv::Reader::records of the csv crate: the first row is handed back as
/// headers and the remaining rows as records, rows of differing lengths
/// accepted; a malformed row or undecodable bytes surface as an error value.
/// The crate reads only from the given buffer, so the outcome depends on the
/// bytes alone.
#[verifier::external_body]
fn read_csv(content: &[u8]) -> (r: Result<(Vec<String>, Vec<Vec<String>>), String>)
    ensures
        match r {
            Ok(t) => csv_decoding(content@) == Ok::<
                (Seq<Seq<char>>, Seq<Seq<Seq<char>>>),
                Seq<char>,
            >((t.0.deep_view(), t.1.deep_view())),
            Err(m) => csv_decoding(content@) == Err::<
                (Seq<Seq<char>>, Seq<Seq<Seq<char>>>),
                Seq<char>,
            >(m@),
        },
{
    let mut rdr = csv::ReaderBuilder::new().has_headers(true).flexible(true).from_reader(content);
    let headers: Vec<String> = match rdr.headers() {
        Ok(h) => h.iter().map(|f| f.to_string()).collect(),
        Err(e) => return Err(format!("Failed to parse CSV: {}", e)),
    };
    let mut rows: Vec<Vec<String>> = Vec::new();
    for result in rdr.records() {
        match result {
            Ok(rec) => rows.push(rec.iter().map(|f| f.to_string()).collect()),
            Err(e) => return Err(format!("Failed to read record: {}", e)),
        }
    }
    Ok((headers, rows))
}

/// The whole run over raw bytes: decode, then validate; a structural decode
/// error becomes a failing report with one file-level finding.
pub open spec fn spec_validate_bytes(content: Seq<u8>) -> ReportView {
    match csv_decoding(content) {
        Ok(t) => spec_validate(t.0, t.1),
        Err(m) => spec_fail(m),
    }
}

/// Validates an uploaded byte buffer: decodes it as delimited text with a
/// header row, then applies the schema, row-count and per-row rules.
pub fn validate_csv(content: &[u8]) -> (r: ValidationResponse)
    ensures
        r@ == spec_validate_bytes(content@),
{
    match read_csv(content) {
        Ok((headers, rows)) => validate(&headers, &rows),
        Err(m) => fail(m),
    }
}

/// Validation is deterministic: byte-identical inputs are mapped to
/// identical reports.
pub proof fn lemma_validate_deterministic(a: Seq<u8>, b: Seq<u8>)
    requires
        a == b,
    ensures
        spec_validate_bytes(a) == spec_validate_bytes(b),
{
}

} // verus!
