use ifrs_hledger::account::{asset, expense_tl, Account, AssetClassification, ExpenseClassification};
use ifrs_hledger::cashflow::CashflowTag;
use ifrs_hledger::date::Date;
use ifrs_hledger::journal_text::{
    format_account_declaration_raw, format_posting_line, parse_account_declaration, parse_posting_line,
};
use ifrs_hledger::printer::{
    assertion_entry, close_entry, posting_with_tags, print_accounts, print_payees,
    sorted_unique_lines, transaction_header,
};
use ifrs_hledger::spec_types::{CloseLogic, TransactionLabel, TransactionSpecId};
use ifrs_hledger::standard_accounts::retained_earnings;

#[test]
fn transaction_headers() {
    let date = Date::from_ymd_opt(2024, 1, 5).unwrap();
    let label = TransactionLabel { payee: "Acme".to_string(), description: "Chairs".to_string() };
    assert_eq!(
        transaction_header(date, TransactionSpecId(12), Some(&label), Some("Late")),
        "2024-01-05 (12) Acme | Late: Chairs"
    );
    assert_eq!(
        transaction_header(date, TransactionSpecId(3), Some(&label), None),
        "2024-01-05 (3) Acme | Chairs"
    );
    assert_eq!(transaction_header(date, TransactionSpecId(3), None, None), "2024-01-05 (3) (unknown)");
}

#[test]
fn postings_carry_their_tags() {
    let line = posting_with_tags(
        "Assets:Cash",
        "-100.00 USD",
        Some(CashflowTag::CashOutflowPpe),
        &[("k".to_string(), "v".to_string())],
    );
    assert_eq!(
        line,
        format!("{}       ; cft: cash_out_ppe, k: v", format_posting_line("Assets:Cash", "-100.00 USD"))
    );
    assert_eq!(
        posting_with_tags("Assets:Cash", "1 USD", None, &[]),
        format_posting_line("Assets:Cash", "1 USD")
    );
}

#[test]
fn declarations_are_sorted_and_unique() {
    let lines = vec!["b".to_string(), "a".to_string(), "b".to_string()];
    assert_eq!(sorted_unique_lines(&lines), "a\nb\n");
    assert_eq!(
        print_payees(&["Zed".to_string(), "Acme".to_string(), "Zed".to_string()]),
        "payee Acme\npayee Zed\n"
    );
    let cash: Account = asset("Bank", AssetClassification::CashAndCashEquivalents).into();
    let other: Account = expense_tl(ExpenseClassification::OtherCashExpense).into();
    let text = print_accounts(&[other.clone(), cash.clone(), other.clone()]);
    let expected = format!(
        "{}\n{}\n",
        format!("account {:81}  ; type: C", "Assets:Current:CashAndCashEquivalents:Bank"),
        format!("account {:81}  ; type: X", "Expenses:Other")
    );
    assert_eq!(text, expected);
}

#[test]
fn assertion_entries() {
    let date = Date::from_ymd_opt(2024, 12, 31).unwrap();
    assert_eq!(
        assertion_entry(date, "Assets:Cash", "1,000.00 USD"),
        format!("2024-12-31 <assertion>\n{}\n\n", format_posting_line("Assets:Cash", "0 == 1,000.00 USD"))
    );
}

#[test]
fn close_entries() {
    let date = Date::from_ymd_opt(2024, 12, 31).unwrap();
    let dest: Account = retained_earnings().into();
    let postings = vec![("Expenses:Ops".to_string(), "-40.00 USD".to_string())];
    let text = close_entry(date, CloseLogic::Retain, &postings, "0.00 USD", &dest.ledger(), Some("40.00 USD"));
    let expected = format!(
        "2024-12-31 Retain Earnings  ; close:2024\n{}\n{}\n\n",
        format_posting_line("Expenses:Ops", "-40.00 USD = 0.00 USD"),
        format_posting_line(&dest.ledger(), "40.00 USD")
    );
    assert_eq!(text, expected);
    let open = close_entry(date, CloseLogic::Retain, &[], "0", "Equity:RetainedEarnings", None);
    assert_eq!(open, "2024-12-31 Retain Earnings  ; close:2024\n    Equity:RetainedEarnings\n\n");
}

#[test]
fn posting_line_reads_back_as_written() {
    for (account, amount) in [
        ("Assets:Current:CashAndCashEquivalents:Bank", "(1,200.50) $"),
        ("Expenses:Ops", "-40.00 USD = 0.00 USD"),
        ("Liabilities:Current:AccountsPayable:A  B", "7 KRW"),
        ("accounts:Odd", "1"),
    ] {
        let line = format_posting_line(account, amount);
        assert_eq!(parse_posting_line(&line), Some((account.to_string(), amount.to_string())));
    }
}

#[test]
fn declaration_line_reads_back_as_written() {
    for (name, tag) in [("Assets:Current:CashAndCashEquivalents:Bank", 'C'), ("Equity:X Y", 'E')] {
        let line = format_account_declaration_raw(name, tag);
        assert_eq!(parse_account_declaration(&line), Some((name.to_string(), tag)));
    }
}
