use csv_validator::{fail, parse_decimal, str_is_blank, u64_to_string, signed_to_string};
use csv_validator::{validate, validate_csv, ValidationError, ValidationResponse};

fn check_violation(
    v: &ValidationError,
    row_index: Option<usize>,
    id: Option<&str>,
    column: Option<&str>,
    message: &str,
) {
    assert_eq!(v.row_index, row_index);
    assert_eq!(v.id.as_deref(), id);
    assert_eq!(v.column.as_deref(), column);
    assert_eq!(v.error_message, message);
}

fn status_matches_errors(r: &ValidationResponse) {
    if r.errors.is_empty() {
        assert_eq!(r.status, "pass");
    } else {
        assert_eq!(r.status, "fail");
    }
}

fn csv_with_rows(rows: &[&str]) -> Vec<u8> {
    let mut s = String::from("id,email,age\n");
    for row in rows {
        s.push_str(row);
        s.push('\n');
    }
    s.into_bytes()
}

fn eleven_valid_rows() -> Vec<String> {
    (1..=11).map(|i| format!("{},user{}@example.com,30", i, i)).collect()
}

#[test]
fn scenario_email_and_age_violations() {
    let mut rows = eleven_valid_rows();
    rows[4] = "5,,30".to_string();
    rows[6] = "7,user7@example.com,150".to_string();
    let refs: Vec<&str> = rows.iter().map(|r| r.as_str()).collect();
    let r = validate_csv(&csv_with_rows(&refs));
    assert_eq!(r.status, "fail");
    assert_eq!(r.errors.len(), 2);
    check_violation(
        &r.errors[0],
        Some(5),
        Some("5"),
        Some("email"),
        "Email column must not be empty or null.",
    );
    check_violation(
        &r.errors[1],
        Some(7),
        Some("7"),
        Some("age"),
        "Age 150 is outside the allowed range of 18-100.",
    );
    status_matches_errors(&r);
}

#[test]
fn scenario_missing_id_column() {
    let data = b"name,email,age\na,a@example.com,30\n".to_vec();
    let r = validate_csv(&data);
    assert_eq!(r.status, "fail");
    assert_eq!(r.errors.len(), 1);
    check_violation(&r.errors[0], None, None, None, "Missing required columns: id");
    status_matches_errors(&r);
}

#[test]
fn scenario_too_few_rows() {
    let rows = eleven_valid_rows();
    let refs: Vec<&str> = rows.iter().take(5).map(|r| r.as_str()).collect();
    let r = validate_csv(&csv_with_rows(&refs));
    assert_eq!(r.status, "fail");
    assert_eq!(r.errors.len(), 1);
    check_violation(&r.errors[0], None, None, None, "File contains 10 or fewer data rows.");
    status_matches_errors(&r);
}

#[test]
fn scenario_all_valid_passes() {
    let rows = eleven_valid_rows();
    let refs: Vec<&str> = rows.iter().map(|r| r.as_str()).collect();
    let r = validate_csv(&csv_with_rows(&refs));
    assert_eq!(r.status, "pass");
    assert!(r.errors.is_empty());
    status_matches_errors(&r);
}

#[test]
fn exactly_ten_rows_fails_row_count() {
    let rows = eleven_valid_rows();
    let refs: Vec<&str> = rows.iter().take(10).map(|r| r.as_str()).collect();
    let r = validate_csv(&csv_with_rows(&refs));
    assert_eq!(r.status, "fail");
    assert_eq!(r.errors.len(), 1);
    check_violation(&r.errors[0], None, None, None, "File contains 10 or fewer data rows.");
}

#[test]
fn missing_several_columns_joined_in_order() {
    let data = b"name,age2\nx,y\n".to_vec();
    let r = validate_csv(&data);
    assert_eq!(r.errors.len(), 1);
    check_violation(&r.errors[0], None, None, None, "Missing required columns: id, email, age");
}

#[test]
fn missing_email_and_age_columns() {
    let data = b"id,name\n1,x\n".to_vec();
    let r = validate_csv(&data);
    assert_eq!(r.errors.len(), 1);
    check_violation(&r.errors[0], None, None, None, "Missing required columns: email, age");
}

#[test]
fn empty_input_reports_all_columns_missing() {
    let r = validate_csv(&[]);
    assert_eq!(r.status, "fail");
    assert_eq!(r.errors.len(), 1);
    check_violation(&r.errors[0], None, None, None, "Missing required columns: id, email, age");
}

#[test]
fn schema_check_precedes_row_count_check() {
    let data = b"name,email,age\na,a@example.com,30\n".to_vec();
    let r = validate_csv(&data);
    assert_eq!(r.errors.len(), 1);
    assert_eq!(r.errors[0].error_message, "Missing required columns: id");
}

#[test]
fn whitespace_only_email_is_violation() {
    let mut rows = eleven_valid_rows();
    rows[2] = "3, \t ,30".to_string();
    let refs: Vec<&str> = rows.iter().map(|r| r.as_str()).collect();
    let r = validate_csv(&csv_with_rows(&refs));
    assert_eq!(r.errors.len(), 1);
    check_violation(
        &r.errors[0],
        Some(3),
        Some("3"),
        Some("email"),
        "Email column must not be empty or null.",
    );
}

#[test]
fn non_numeric_age_quotes_raw_text() {
    let mut rows = eleven_valid_rows();
    rows[0] = "1,a@example.com,abc".to_string();
    let refs: Vec<&str> = rows.iter().map(|r| r.as_str()).collect();
    let r = validate_csv(&csv_with_rows(&refs));
    assert_eq!(r.errors.len(), 1);
    check_violation(&r.errors[0], Some(1), Some("1"), Some("age"), "Invalid number format: 'abc'");
}

#[test]
fn age_boundaries_inclusive() {
    let mut rows = eleven_valid_rows();
    rows[0] = "1,a@example.com,18".to_string();
    rows[1] = "2,b@example.com,100".to_string();
    let refs: Vec<&str> = rows.iter().map(|r| r.as_str()).collect();
    let r = validate_csv(&csv_with_rows(&refs));
    assert_eq!(r.status, "pass");
    assert!(r.errors.is_empty());
}

#[test]
fn age_just_outside_boundaries() {
    let mut rows = eleven_valid_rows();
    rows[0] = "1,a@example.com,17".to_string();
    rows[1] = "2,b@example.com,101".to_string();
    let refs: Vec<&str> = rows.iter().map(|r| r.as_str()).collect();
    let r = validate_csv(&csv_with_rows(&refs));
    assert_eq!(r.errors.len(), 2);
    check_violation(
        &r.errors[0],
        Some(1),
        Some("1"),
        Some("age"),
        "Age 17 is outside the allowed range of 18-100.",
    );
    check_violation(
        &r.errors[1],
        Some(2),
        Some("2"),
        Some("age"),
        "Age 101 is outside the allowed range of 18-100.",
    );
}

#[test]
fn fractional_age_truncates_toward_zero_in_message() {
    let mut rows = eleven_valid_rows();
    rows[0] = "1,a@example.com,17.9".to_string();
    rows[1] = "2,b@example.com,100.5".to_string();
    rows[2] = "3,c@example.com,-0.5".to_string();
    let refs: Vec<&str> = rows.iter().map(|r| r.as_str()).collect();
    let r = validate_csv(&csv_with_rows(&refs));
    assert_eq!(r.errors.len(), 3);
    assert_eq!(r.errors[0].error_message, "Age 17 is outside the allowed range of 18-100.");
    assert_eq!(r.errors[1].error_message, "Age 100 is outside the allowed range of 18-100.");
    assert_eq!(r.errors[2].error_message, "Age 0 is outside the allowed range of 18-100.");
}

#[test]
fn negative_age_out_of_range() {
    let mut rows = eleven_valid_rows();
    rows[0] = "1,a@example.com,-5".to_string();
    let refs: Vec<&str> = rows.iter().map(|r| r.as_str()).collect();
    let r = validate_csv(&csv_with_rows(&refs));
    assert_eq!(r.errors.len(), 1);
    assert_eq!(r.errors[0].error_message, "Age -5 is outside the allowed range of 18-100.");
}

#[test]
fn enormous_age_saturates_in_message() {
    let mut rows = eleven_valid_rows();
    rows[0] = "1,a@example.com,99999999999999999999999".to_string();
    let refs: Vec<&str> = rows.iter().map(|r| r.as_str()).collect();
    let r = validate_csv(&csv_with_rows(&refs));
    assert_eq!(r.errors.len(), 1);
    assert_eq!(
        r.errors[0].error_message,
        "Age 9223372036854775807 is outside the allowed range of 18-100."
    );
}

#[test]
fn short_row_reads_missing_fields_as_empty() {
    let mut rows = eleven_valid_rows();
    rows[3] = "4".to_string();
    let refs: Vec<&str> = rows.iter().map(|r| r.as_str()).collect();
    let r = validate_csv(&csv_with_rows(&refs));
    assert_eq!(r.errors.len(), 2);
    check_violation(
        &r.errors[0],
        Some(4),
        Some("4"),
        Some("email"),
        "Email column must not be empty or null.",
    );
    check_violation(&r.errors[1], Some(4), Some("4"), Some("age"), "Invalid number format: ''");
}

#[test]
fn row_shorter_than_id_column_has_no_id() {
    let mut headers_first = String::from("email,age,id\n");
    for i in 1..=11 {
        if i == 4 {
            headers_first.push_str(",19\n");
        } else {
            headers_first.push_str(&format!("u{}@example.com,30,{}\n", i, i));
        }
    }
    let r = validate_csv(headers_first.as_bytes());
    assert_eq!(r.errors.len(), 1);
    check_violation(
        &r.errors[0],
        Some(4),
        None,
        Some("email"),
        "Email column must not be empty or null.",
    );
}

#[test]
fn undecodable_bytes_are_a_parse_error() {
    let mut data = b"id,email,age\n".to_vec();
    data.extend_from_slice(b"1,a@example.com,\xff\x30\n");
    let r = validate_csv(&data);
    assert_eq!(r.status, "fail");
    assert_eq!(r.errors.len(), 1);
    assert!(r.errors[0].row_index.is_none());
    assert!(r.errors[0].column.is_none());
    assert!(r.errors[0].error_message.starts_with("Failed to read record:"));
}

#[test]
fn undecodable_header_is_a_parse_error() {
    let data = b"id,em\xffail,age\n1,a@example.com,30\n".to_vec();
    let r = validate_csv(&data);
    assert_eq!(r.status, "fail");
    assert_eq!(r.errors.len(), 1);
    assert!(r.errors[0].error_message.starts_with("Failed to parse CSV:"));
}

#[test]
fn validation_is_deterministic() {
    let mut rows = eleven_valid_rows();
    rows[4] = "5,,30".to_string();
    rows[6] = "7,user7@example.com,abc".to_string();
    let refs: Vec<&str> = rows.iter().map(|r| r.as_str()).collect();
    let data = csv_with_rows(&refs);
    let a = validate_csv(&data);
    let b = validate_csv(&data);
    assert_eq!(a.status, b.status);
    assert_eq!(a.errors.len(), b.errors.len());
    for (x, y) in a.errors.iter().zip(b.errors.iter()) {
        assert_eq!(x.row_index, y.row_index);
        assert_eq!(x.id, y.id);
        assert_eq!(x.column, y.column);
        assert_eq!(x.error_message, y.error_message);
    }
}

#[test]
fn validate_on_parsed_rows_directly() {
    let headers: Vec<String> = vec!["id".into(), "email".into(), "age".into()];
    let mut rows: Vec<Vec<String>> = (1..=11)
        .map(|i| vec![i.to_string(), format!("u{}@example.com", i), "42".into()])
        .collect();
    rows[1][1] = "   ".into();
    let r = validate(&headers, &rows);
    assert_eq!(r.status, "fail");
    assert_eq!(r.errors.len(), 1);
    check_violation(
        &r.errors[0],
        Some(2),
        Some("2"),
        Some("email"),
        "Email column must not be empty or null.",
    );
}

#[test]
fn duplicate_headers_use_first_position() {
    let mut s = String::from("age,id,email,age\n");
    for i in 1..=11 {
        s.push_str(&format!("17,{},u{}@example.com,30\n", i, i));
    }
    let r = validate_csv(s.as_bytes());
    assert_eq!(r.status, "fail");
    assert_eq!(r.errors.len(), 11);
    for (k, v) in r.errors.iter().enumerate() {
        check_violation(
            v,
            Some(k + 1),
            Some(&(k + 1).to_string()),
            Some("age"),
            "Age 17 is outside the allowed range of 18-100.",
        );
    }
}

#[test]
fn fail_builds_single_file_level_violation() {
    let r = fail("boom".to_string());
    assert_eq!(r.status, "fail");
    assert_eq!(r.errors.len(), 1);
    check_violation(&r.errors[0], None, None, None, "boom");
}

#[test]
fn parse_decimal_accepts_plain_and_signed_forms() {
    let p = parse_decimal("42").unwrap();
    assert!(!p.neg && p.int_sat == 42 && !p.frac_nonzero);
    let p = parse_decimal("+42").unwrap();
    assert!(!p.neg && p.int_sat == 42);
    let p = parse_decimal("-42").unwrap();
    assert!(p.neg && p.int_sat == 42);
    let p = parse_decimal("12.50").unwrap();
    assert!(!p.neg && p.int_sat == 12 && p.frac_nonzero);
    let p = parse_decimal("12.00").unwrap();
    assert!(!p.frac_nonzero);
    let p = parse_decimal(".5").unwrap();
    assert!(p.int_sat == 0 && p.frac_nonzero);
    let p = parse_decimal("7.").unwrap();
    assert!(p.int_sat == 7 && !p.frac_nonzero);
}

#[test]
fn parse_decimal_rejects_malformed_forms() {
    assert!(parse_decimal("").is_none());
    assert!(parse_decimal("+").is_none());
    assert!(parse_decimal("-").is_none());
    assert!(parse_decimal(".").is_none());
    assert!(parse_decimal("1.2.3").is_none());
    assert!(parse_decimal("12a").is_none());
    assert!(parse_decimal(" 12").is_none());
    assert!(parse_decimal("12 ").is_none());
    assert!(parse_decimal("NaN").is_none());
    assert!(parse_decimal("1e5").is_none());
}

#[test]
fn number_rendering_helpers() {
    assert_eq!(u64_to_string(0), "0");
    assert_eq!(u64_to_string(7), "7");
    assert_eq!(u64_to_string(12345), "12345");
    assert_eq!(u64_to_string(u64::MAX), "18446744073709551615");
    assert_eq!(signed_to_string(false, 17), "17");
    assert_eq!(signed_to_string(true, 17), "-17");
    assert_eq!(signed_to_string(true, 0), "0");
}

#[test]
fn blank_detection_covers_unicode_whitespace() {
    assert!(str_is_blank(""));
    assert!(str_is_blank("   "));
    assert!(str_is_blank(" \t\r\n"));
    assert!(str_is_blank("\u{3000}\u{00a0}"));
    assert!(!str_is_blank(" a "));
}
