use ifrs_hledger::date::{is_leap_year, days_in_month, month_end_dates, monthly_accrual_periods, parse_iso_date, Date};
use ifrs_hledger::errors::Error;
use ifrs_hledger::journal_text::{
    attach_transaction_notes, attach_transaction_tag, char_width, extract_and_normalize_account_declarations,
    format_account_declaration_raw, format_note, is_account_declaration, is_indented_line,
    is_transaction_header_line, join_and_pad_between, parse_account_declaration, parse_posting_line,
};
use ifrs_hledger::models::{
    AccountingLogicModel, BackingAccountModel, CloseLogicModel, CommandLogicModel,
    CommonStockWhileUnpaidModel, OperationLogicModel,
};
use ifrs_hledger::report_layout::{
    column_border_scaffold, extend_column_separators_in_section, format_columns, ReportLayout,
};
use ifrs_hledger::spec_types::{
    AccountingLogic, BackingAccount, CloseLogic, CommandLogic, CommonStockWhileUnpaid, OperationLogic,
};
use ifrs_hledger::statement::{build_placeholder_map, build_report_layout, latest_period_index};

fn d(y: i32, m: u32, dd: u32) -> Date {
    Date::from_ymd_opt(y, m, dd).unwrap()
}

#[test]
fn calendar_basics() {
    assert!(is_leap_year(2024));
    assert!(!is_leap_year(1900));
    assert!(is_leap_year(2000));
    assert_eq!(days_in_month(2023, 2), 28);
    assert_eq!(days_in_month(2024, 2), 29);
    assert_eq!(Date::from_ymd_opt(2023, 2, 29), None);
    assert_eq!(d(5, 1, 1).to_iso_string(), "0005-01-01");
    assert_eq!(d(2024, 3, 15).month_end(), d(2024, 3, 31));
    assert_eq!(d(2024, 3, 15).month_start(), d(2024, 3, 1));
}

#[test]
fn iso_dates_are_read_by_chrono() {
    assert_eq!(parse_iso_date("2024-02-29"), Ok(d(2024, 2, 29)));
    assert_eq!(
        parse_iso_date("2023-02-29"),
        Err(Error::InvalidIsoDate { date: "2023-02-29".to_string() })
    );
    assert!(parse_iso_date("yesterday").is_err());
}

#[test]
fn month_ends_within_a_range() {
    assert_eq!(
        month_end_dates(d(2024, 1, 15), d(2024, 3, 10)).unwrap(),
        vec![d(2024, 1, 31), d(2024, 2, 29)]
    );
    assert_eq!(month_end_dates(d(2024, 3, 10), d(2024, 1, 15)).unwrap(), vec![]);
    assert_eq!(month_end_dates(d(2024, 1, 31), d(2024, 1, 31)).unwrap(), vec![d(2024, 1, 31)]);
}

#[test]
fn accrual_periods_tile_the_range() {
    let periods = monthly_accrual_periods(d(2024, 1, 15), d(2024, 3, 31)).unwrap();
    assert_eq!(periods.len(), 3);
    assert_eq!(periods[0].period_start, d(2024, 1, 15));
    assert_eq!(periods[0].period_end, d(2024, 1, 31));
    assert_eq!(periods[0].num_days, 17);
    assert_eq!(periods[1].num_days, 29);
    assert_eq!(periods[2].period_start, d(2024, 3, 1));
    assert_eq!(periods[2].adjustment_date, d(2024, 3, 31));
    let total: i64 = periods.iter().map(|p| p.num_days).sum();
    assert_eq!(total, 17 + 29 + 31);
}

#[test]
fn accrual_periods_keep_a_partial_last_month() {
    let within = monthly_accrual_periods(d(2024, 1, 5), d(2024, 1, 20)).unwrap();
    assert_eq!(within.len(), 1);
    assert_eq!(within[0].period_start, d(2024, 1, 5));
    assert_eq!(within[0].period_end, d(2024, 1, 20));
    assert_eq!(within[0].num_days, 16);
    assert_eq!(within[0].adjustment_date, d(2024, 1, 31));

    let across = monthly_accrual_periods(d(2024, 1, 15), d(2024, 3, 10)).unwrap();
    assert_eq!(across.len(), 3);
    assert_eq!(across[2].period_start, d(2024, 3, 1));
    assert_eq!(across[2].period_end, d(2024, 3, 10));
    assert_eq!(across[2].adjustment_date, d(2024, 3, 31));
    let total: i64 = across.iter().map(|p| p.num_days).sum();
    assert_eq!(total, 17 + 29 + 10);

    assert!(monthly_accrual_periods(d(2024, 3, 10), d(2024, 1, 15)).unwrap().is_empty());
}

#[test]
fn padding_between_texts() {
    assert_eq!(join_and_pad_between("a", "b", 5, 2), "a   b");
    assert_eq!(join_and_pad_between("abc", "def", 5, 2), "abc  def");
    assert_eq!(char_width("héllo"), 5);
    assert!(is_indented_line("    x"));
    assert!(!is_indented_line("   x"));
}

#[test]
fn declarations_and_postings_are_read_back() {
    assert!(is_account_declaration("  account Assets:Cash"));
    assert_eq!(
        parse_account_declaration("account Assets:Cash ; type: C"),
        Some(("Assets:Cash".to_string(), 'C'))
    );
    assert_eq!(parse_account_declaration("account X ; type: CC"), None);
    assert_eq!(parse_account_declaration("account ; type: C"), None);
    let line = format_account_declaration_raw("Assets:Cash", 'C');
    assert_eq!(line, format!("account {:81}  ; type: C", "Assets:Cash"));
    assert_eq!(parse_account_declaration(&line), Some(("Assets:Cash".to_string(), 'C')));
    assert_eq!(
        parse_posting_line("    Assets:Cash    100 USD"),
        Some(("Assets:Cash".to_string(), "100 USD".to_string()))
    );
    assert_eq!(parse_posting_line("    ; a note"), None);
    assert_eq!(parse_posting_line("account Assets:Cash  x"), None);
    assert_eq!(parse_posting_line("Assets:Cash  100"), None);
    assert_eq!(
        extract_and_normalize_account_declarations("account A ; type: A\nfoo\naccount B;type:L\n"),
        vec![format_account_declaration_raw("A", 'A'), format_account_declaration_raw("B", 'L')]
    );
}

#[test]
fn transactions_are_tagged_and_noted() {
    assert!(is_transaction_header_line(&["2024-01-01 x", "    a"], 0));
    assert!(!is_transaction_header_line(&["2024-01-01 x", "    a"], 1));
    assert!(!is_transaction_header_line(&["2024-01-01 x"], 0));
    let tagged = attach_transaction_tag("2024-01-01 X\n    A  1\n".to_string(), "t");
    assert_eq!(tagged, "2024-01-01 X  ; t\n    A  1");
    let again = attach_transaction_tag(tagged.clone(), "t");
    assert_eq!(again, tagged);
    assert_eq!(format_note("short"), vec!["    ;".to_string(), "    ; short".to_string()]);
    let long = "word ".repeat(30);
    let wrapped = format_note(long.trim());
    assert!(wrapped.len() > 2);
    assert!(wrapped.iter().all(|l| l.chars().count() <= 100));
    let noted = attach_transaction_notes("2024-01-01 X\n    A  1\nafter".to_string(), &["n".to_string()]);
    assert_eq!(noted, "2024-01-01 X\n    A  1\n    ;\n    ; n\nafter");
    let untouched = attach_transaction_notes("x\ny\n".to_string(), &[]);
    assert_eq!(untouched, "x\ny\n");
}

#[test]
fn report_layout_widths_and_borders() {
    let l = ReportLayout { period_count: 2, column_width: 10 };
    assert_eq!(l.rendered_columns_width(), 33);
    assert_eq!(l.border_positions(), vec![17]);
    assert_eq!(l.scaffold_end(), 18);
    assert_eq!(l.column_right_padding(0), 2);
    assert_eq!(l.column_right_padding(1), 0);
    let cols = format_columns(&["a".to_string(), "bb".to_string()], &l);
    assert_eq!(cols, format!("     {:>10}  │     {:>10}", "a", "bb"));
    let scaffold = column_border_scaffold(&l);
    assert_eq!(scaffold.len(), 64 + 18);
    assert_eq!(scaffold[64 + 17], '│');
    let one = ReportLayout { period_count: 1, column_width: 4 };
    assert!(one.border_positions().is_empty());
    assert_eq!(one.scaffold_end(), 0);
}

#[test]
fn section_lines_get_column_borders() {
    let l = ReportLayout { period_count: 2, column_width: 10 };
    let rule = "─".repeat(90);
    let text = format!("title\n{}", rule);
    let out = extend_column_separators_in_section(text, &l);
    let lines: Vec<&str> = out.split('\n').collect();
    let first: Vec<char> = lines[0].chars().collect();
    assert_eq!(first.len(), 82);
    assert_eq!(first[81], '│');
    let second: Vec<char> = lines[1].chars().collect();
    assert_eq!(second.len(), 90);
    assert_eq!(second[81], '┼');
}

#[test]
fn statement_layout_and_placeholders() {
    let amounts = vec!["-1,000.00".to_string(), "5".to_string()];
    let periods = vec!["2023".to_string(), "2024".to_string()];
    let layout = build_report_layout(&amounts, &periods);
    assert_eq!(layout, ReportLayout { period_count: 2, column_width: 9 });
    assert_eq!(latest_period_index(&["2023".to_string(), "2024".to_string(), "2024".to_string()]), Some(2));
    assert_eq!(latest_period_index(&[]), None);
    let rows = vec![("net_income".to_string(), vec!["1".to_string(), "2".to_string()])];
    let map = build_placeholder_map(&layout, &periods, &rows, &["moved".to_string()]);
    assert_eq!(map.len(), 4);
    assert_eq!(map[0], ("period".to_string(), format_columns(&periods, &layout)));
    assert_eq!(map[1].1.chars().count(), layout.rendered_columns_width());
    assert_eq!(map[2].0, "net_income");
    assert_eq!(map[3], ("non_cash_reclassifications".to_string(), "• moved".to_string()));
}

#[test]
fn sheet_models_convert() {
    assert_eq!(
        CommonStockWhileUnpaid::from(CommonStockWhileUnpaidModel::Asset),
        CommonStockWhileUnpaid::ReceivableAsset
    );
    assert_eq!(CloseLogic::from(CloseLogicModel::Retain), CloseLogic::Retain);
    let b: BackingAccount<u8, u16, u32> = BackingAccountModel::Cash(7u16).into();
    assert!(matches!(b, BackingAccount::Cash(7)));
    let c: CommandLogic<String> = CommandLogicModel::Close(CloseLogicModel::Retain).into();
    assert!(matches!(c, CommandLogic::Close(CloseLogic::Retain)));
    let o: OperationLogic<String> = OperationLogicModel::Correction("m".to_string()).into();
    assert!(matches!(o, OperationLogic::Correction(ref s) if s == "m"));
    let a: AccountingLogic<u8, u8, u8, u8, u8> = AccountingLogicModel::ClearVat {
        from: d(2024, 1, 1),
        to: d(2024, 3, 31),
    }
    .into();
    assert!(matches!(a, AccountingLogic::ClearVat { from, to } if from == d(2024, 1, 1) && to == d(2024, 3, 31)));
}

#[test]
fn format_columns_puts_borders_at_border_positions() {
    let l = ReportLayout { period_count: 3, column_width: 6 };
    let values = vec!["1".to_string(), "-20".to_string(), "300.5".to_string()];
    let text: Vec<char> = format_columns(&values, &l).chars().collect();
    assert_eq!(text.len(), l.rendered_columns_width());
    let borders: Vec<usize> = (0..text.len()).filter(|&i| text[i] == '│').collect();
    assert_eq!(borders, l.border_positions());
    let tagged = attach_transaction_tag("2024-01-01 A\n    x  1\n2024-01-02 B\n    y  2".to_string(), "k");
    assert_eq!(attach_transaction_tag(tagged.clone(), "k"), tagged);
    assert!(tagged.lines().filter(|l| l.starts_with("2024")).all(|l| l.contains("; k")));
}

#[test]
fn tagging_a_crlf_journal_twice_tags_it_once() {
    let journal = "2024-01-01 A\r\n    x  1\r\n2024-01-02 B\r\n    y  2".to_string();
    let once = attach_transaction_tag(journal, "k");
    assert_eq!(once, "2024-01-01 A  ; k\n    x  1\n2024-01-02 B  ; k\n    y  2");
    assert_eq!(attach_transaction_tag(once.clone(), "k"), once);
}
