use ifrs_hledger::close_command::{check_close_command, close_command_payload, close_entry_tag};
use ifrs_hledger::close_output::{
    close_entry_text, close_record_json, closing_date, format_clipboard_row, parse_amount_expr,
    parse_close_entries, parse_close_entry, parse_close_posting, parse_close_postings,
    parse_formatted_number, parse_hledger_amount, CloseEntryGenerator, CloseRecordGenerator,
};
use ifrs_hledger::date::Date;
use ifrs_hledger::errors::Error;
use ifrs_hledger::spec_types::{CloseLogic, CommandSpecId};

fn number(s: String) -> f64 {
    s.parse::<f64>().unwrap()
}

#[test]
fn close_entry_generator_parse_hledger_amount_handles_commas_and_dot_suffix() {
    assert_eq!(number(parse_formatted_number("-4,000.").unwrap()), -4000.0);
    assert_eq!(number(parse_formatted_number("9,993.").unwrap()), 9993.0);
    assert_eq!(number(parse_formatted_number("-535").unwrap()), -535.0);
}

#[test]
fn parse_close_posting_accepts_amount_before_or_after_commodity() {
    assert_eq!(
        parse_close_posting("    Expenses:Ops -4,000. USD = 0")
            .unwrap()
            .map(|(a, x)| (a, number(x))),
        Some(("Expenses:Ops".to_string(), -4000.0))
    );
    assert_eq!(
        parse_close_posting("    Expenses:Ops USD -4,000. = 0")
            .unwrap()
            .map(|(a, x)| (a, number(x))),
        Some(("Expenses:Ops".to_string(), -4000.0))
    );
}

#[test]
fn parse_amount_expr_handles_currency_symbols_and_explicit_plus() {
    assert_eq!(number(parse_amount_expr("USD +4,000.45").unwrap()), 4000.45);
    assert_eq!(number(parse_amount_expr("($4,000.45)").unwrap()), 4000.45);
    assert_eq!(number(parse_amount_expr("JPY -535").unwrap()), -535.0);
}

#[test]
fn parse_amount_expr_uses_first_parseable_numeric_token() {
    assert_eq!(number(parse_amount_expr("KRW 1,200. note -90").unwrap()), 1200.0);
    assert_eq!(number(parse_amount_expr("abc -12.5 xyz").unwrap()), -12.5);
}

#[test]
fn parse_amount_expr_rejects_empty_or_missing_numeric_tokens() {
    assert!(parse_amount_expr("").is_err());
    assert!(parse_amount_expr("USD KRW").is_err());
    assert!(parse_amount_expr("...").is_err());
}

#[test]
fn parse_amount_expr_rejects_malformed_number_like_double_dot() {
    assert!(parse_amount_expr("USD 1,234..56").is_err());
}

#[test]
fn close_entry_display_is_multiline_with_base64_tag() {
    let tag = "W1siRXhwZW5zZXM6T3BlcmF0aW5nOlNhbXBsZSIsLTEyMDAuMF0sWyJJbmNvbWU6Tm9uT3BlcmF0aW5nOk90aGVyIiwzMDAuMF1d";
    let display = close_entry_text(2024, "2024-12-31", &(-900.0f64).to_string(), tag);
    assert!(display.contains("\u{1b}[1mTag:\u{1b}[0m"));
    assert!(display.contains(tag));
}

#[test]
fn format_clipboard_row_is_tab_separated_for_google_sheets() {
    let row = format_clipboard_row("2024-12-31", "abc123", &(-900.0f64).to_string());
    assert_eq!(
        row,
        ":\t\t2024-12-31\tClose(<CloseLogic>)\tabc123\t\t\t-900"
    );
}

#[test]
fn close_record_generator_parse_hledger_amount_handles_commas_and_dot_suffix() {
    assert_eq!(number(parse_hledger_amount("-4,000.").unwrap()), -4000.0);
    assert_eq!(number(parse_hledger_amount("9,993.").unwrap()), 9993.0);
    assert_eq!(number(parse_hledger_amount("-535").unwrap()), -535.0);
}

#[test]
fn close_record_display_is_minified_json_vector() {
    let entries = vec![
        ("Expenses:Operating:Sample".to_string(), (-1200.0f64).to_string()),
        ("Income:NonOperating:Other".to_string(), 300.0f64.to_string()),
    ];
    assert_eq!(
        close_record_json(&entries),
        r#"[["Expenses:Operating:Sample",-1200],["Income:NonOperating:Other",300]]"#
    );
}

// Further cases.

#[test]
fn formatted_number_error_names_the_value() {
    match parse_formatted_number("1.2.3") {
        Err(Error::HledgerCloseInvalidResponse { details }) => {
            assert_eq!(details, "invalid close amount '1.2.3'")
        }
        other => panic!("unexpected {:?}", other),
    }
}

#[test]
fn close_posting_skips_header_and_void_out_lines() {
    assert_eq!(parse_close_posting("2024-12-31 closing  ; retain:").unwrap(), None);
    assert_eq!(parse_close_posting("    VoidOut").unwrap(), None);
    assert_eq!(parse_close_posting("    ").unwrap(), None);
}

#[test]
fn close_posting_without_assertion_is_refused() {
    match parse_close_posting("    Expenses:Ops -4,000. USD") {
        Err(Error::HledgerCloseInvalidResponse { details }) => assert_eq!(
            details,
            "invalid close output line: '    Expenses:Ops -4,000. USD'"
        ),
        other => panic!("unexpected {:?}", other),
    }
}

#[test]
fn close_postings_are_collected_in_order() {
    let output = "2024-12-31 closing  ; retain:\n    Expenses:A  -1,000. USD = 0 USD\n    Income:B  500 USD = 0 USD\n    VoidOut\n";
    let postings = parse_close_postings(output).unwrap();
    assert_eq!(
        postings,
        vec![
            ("Expenses:A".to_string(), "-1000".to_string()),
            ("Income:B".to_string(), "500".to_string())
        ]
    );
}

#[test]
fn close_entries_take_the_first_word_after_the_account() {
    assert_eq!(parse_close_entry("Expenses:A -12. USD = 0").unwrap(), None);
    assert_eq!(
        parse_close_entry("    Expenses:A -12. USD = 0").unwrap(),
        Some(("Expenses:A".to_string(), "-12".to_string()))
    );
    let entries = parse_close_entries("2024-12-31 x
    Expenses:A -12. USD = 0
    VoidOut
").unwrap();
    assert_eq!(entries.len(), 1);
}

#[test]
fn generators_report_nothing_to_close() {
    let g = CloseEntryGenerator::new("/tmp/ledger.journal".to_string(), 2023);
    assert_eq!(
        g.postings_from_output("2023-12-31 closing\n    VoidOut\n"),
        Err(Error::NoAccountsToClose { year: 2023 })
    );
    let r = CloseRecordGenerator::new("/tmp/ledger.journal".to_string(), 2023, CloseLogic::Retain);
    assert_eq!(
        r.entries_from_output(""),
        Err(Error::NoAccountsToClose { year: 2023 })
    );
}

#[test]
fn generator_arguments_name_the_year() {
    let g = CloseEntryGenerator::new("/tmp/l.journal".to_string(), 2024);
    let args = g.close_args();
    assert!(args.contains(&"2024".to_string()));
    assert!(args.contains(&"/tmp/l.journal".to_string()));
    let r = CloseRecordGenerator::new("/tmp/l.journal".to_string(), 2024, CloseLogic::Retain);
    assert!(r.close_args().contains(&"--retain".to_string()));
    assert!(r.close_args().contains(&"not:tag:close".to_string()));
}

#[test]
fn closing_date_is_december_31() {
    assert_eq!(closing_date(2024), "2024-12-31");
}

#[test]
fn close_tag_round_trips_through_the_close_command() {
    let json = r#"[["Expenses:Operating:Sample",-1200.0],["Income:NonOperating:Other",300.0]]"#;
    let tag = close_entry_tag(json);
    assert_eq!(
        tag,
        "W1siRXhwZW5zZXM6T3BlcmF0aW5nOlNhbXBsZSIsLTEyMDAuMF0sWyJJbmNvbWU6Tm9uT3BlcmF0aW5nOk90aGVyIiwzMDAuMF1d"
    );
    let date = Date::from_ymd_opt(2024, 12, 31).unwrap();
    let payload = close_command_payload(CommandSpecId(7), date, &[tag]).unwrap();
    assert_eq!(payload, json.as_bytes().to_vec());
}

#[test]
fn close_command_errors() {
    let not_dec31 = Date::from_ymd_opt(2024, 6, 30).unwrap();
    match check_close_command(CommandSpecId(3), not_dec31, &["x".to_string()]) {
        Err(Error::InvalidCsvContent { line_id, details }) => {
            assert_eq!(line_id, 3);
            assert_eq!(details, "Close entry for 2024 (id 3) date must be December 31.");
        }
        other => panic!("unexpected {:?}", other),
    }
    let dec31 = Date::from_ymd_opt(2024, 12, 31).unwrap();
    match check_close_command(CommandSpecId(4), dec31, &[]) {
        Err(Error::InvalidCsvContent { details, .. }) => assert!(details.contains("must have argument")),
        other => panic!("unexpected {:?}", other),
    }
    match close_command_payload(CommandSpecId(5), dec31, &["not base64!".to_string()]) {
        Err(Error::InvalidCsvContent { details, .. }) => {
            assert_eq!(details, "Close entry for 2024 (id 5) argument is not valid base64.")
        }
        other => panic!("unexpected {:?}", other),
    }
}
