use ifrs_hledger::closing::{comment_header, parse_record_date, ClosingSection};
use ifrs_hledger::date::Date;
use ifrs_hledger::ledger_sections::{print_correction, print_ledger_extensions};
use ifrs_hledger::notes::{group_pairs, manual_correction_notes};
use ifrs_hledger::sorted_texts::insert_text_sorted;

fn chars(s: &str) -> Vec<char> {
    s.chars().collect()
}

#[test]
fn comment_header_fills_to_one_hundred_bytes() {
    let h = comment_header("Closing 2024");
    assert!(h.starts_with("; --- Closing 2024 -"));
    assert_eq!(h.len(), 100);
    assert!(h.ends_with("----"));
    let long = "x".repeat(120);
    assert_eq!(comment_header(&long), format!("; --- {} ", long));
}

#[test]
fn record_date_reads_the_first_ten_bytes() {
    assert_eq!(
        parse_record_date(&chars("2024-12-31 Retain Earnings")),
        Date::from_ymd_opt(2024, 12, 31)
    );
    assert_eq!(parse_record_date(&chars("2024-12-3")), None);
    assert_eq!(parse_record_date(&chars("    Expenses:A   10")), None);
    assert_eq!(parse_record_date(&chars("2024-02-30 x")), None);
}

#[test]
fn closing_section_sorts_and_dedupes() {
    let a = "; comment\naccount Equity:Retained  \n2024-12-31 Retain\n    Expenses:A  10\n    Equity:Retained\n";
    let b = "account Assets:Cash\naccount Equity:Retained\n2023-12-31 Retain\n    Expenses:B  5\nstray line\n";
    let section = ClosingSection::new(&[a, b]);
    let text = section.render().unwrap();
    let expected = format!(
        "{}\n\n{}",
        comment_header("Closing 2023-2024"),
        [
            "account Assets:Cash",
            "account Equity:Retained",
            "2023-12-31 Retain\n    Expenses:B  5\nstray line",
            "2024-12-31 Retain\n    Expenses:A  10\n    Equity:Retained",
        ]
        .join("\n")
    );
    assert_eq!(text, expected);
    assert_eq!(section.title(), "Closing 2023-2024");
}

#[test]
fn closing_section_of_one_year_and_of_nothing() {
    let s = ClosingSection::new(&["2022-12-31 close\n    A  1\n"]);
    assert_eq!(s.title(), "Closing 2022");
    let empty = ClosingSection::new(&["; nothing here\naccount Assets:Cash\n"]);
    assert_eq!(empty.render(), None);
    assert_eq!(empty.title(), "Closing 0");
}

#[test]
fn sorted_texts_keep_each_once() {
    let mut v: Vec<String> = Vec::new();
    for s in ["b", "a", "c", "a", "b"] {
        insert_text_sorted(&mut v, s.to_string());
    }
    assert_eq!(v, vec!["a", "b", "c"]);
}

#[test]
fn ledger_extensions_print_declarations_once() {
    let e1 = "account Assets:Cash ; type: C\n2024-01-01 Opening\n    Assets:Cash    100 USD\n    Equity:Opening\n".to_string();
    let e2 = "account Assets:Cash   ;type:C\naccount Expenses:Fees ; type: X\n".to_string();
    let text = print_ledger_extensions(&[e1, e2]);
    let decl_cash = format!("account {:81}  ; type: C", "Assets:Cash");
    let decl_fees = format!("account {:81}  ; type: X", "Expenses:Fees");
    let posting = format!("    {}{}{}", "Assets:Cash", " ".repeat(96 - 11 - 7), "100 USD");
    let expected = format!(
        "{}\n{}\n\n2024-01-01 Opening\n{}\n    Equity:Opening\n\n",
        decl_cash, decl_fees, posting
    );
    assert_eq!(text, expected);
    assert_eq!(print_ledger_extensions(&[]), "");
}

#[test]
fn corrections_are_tagged_with_their_year() {
    let out = print_correction("2024-12-31 Fix\n    Assets:Cash  1 USD\n    Equity:Other\n", 2024, &[]);
    assert!(out.starts_with("2024-12-31 Fix  ; correction:2024\n"));
    let noted = print_correction("2024-12-31 Fix\n    Assets:Cash  1 USD\n", 2024, &["why".to_string()]);
    assert!(noted.ends_with("    ;\n    ; why"));
}

#[test]
fn notes_group_transactions_by_treatment() {
    let pairs = vec![
        ("Immaterial".to_string(), "Coffee".to_string()),
        ("FX".to_string(), "Hotel".to_string()),
        ("Immaterial".to_string(), "Bagel".to_string()),
        ("Immaterial".to_string(), "Coffee".to_string()),
    ];
    assert_eq!(
        group_pairs(&pairs),
        vec![
            ("FX".to_string(), "Hotel".to_string()),
            ("Immaterial".to_string(), "Bagel, Coffee".to_string()),
        ]
    );
    assert!(group_pairs(&[]).is_empty());
}

#[test]
fn manual_corrections_by_year() {
    let d = |y, m, dd| Date::from_ymd_opt(y, m, dd).unwrap();
    let notes = manual_correction_notes(&[
        (d(2024, 3, 1), Some("Fix B".to_string())),
        (d(2023, 5, 2), None),
        (d(2024, 1, 1), Some("  ".to_string())),
        (d(2024, 3, 2), Some("Fix B".to_string())),
    ]);
    assert_eq!(
        notes,
        vec![
            ("WARNING: 2023 had manual corrections.".to_string(), "2023-05-02".to_string()),
            ("WARNING: 2024 had manual corrections.".to_string(), "2024-01-01, Fix B".to_string()),
        ]
    );
}
