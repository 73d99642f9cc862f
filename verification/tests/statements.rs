use ifrs_hledger::amount_text::parse_accounting_amount;
use ifrs_hledger::errors::Error;
use ifrs_hledger::hledger_query::{
    account_sum_report_args, balance_report_args, register_report_args, select_amount, Query,
    RegisterOutput,
    RegisterQuery, Return,
};
use ifrs_hledger::placeholders::{fill_placeholders, replace_all_placeholders_in_string};
use ifrs_hledger::statement::{format_reclassification, non_cash_reclassifications, split_sections};

fn pairs(v: &[(&str, &str)]) -> Vec<(String, String)> {
    v.iter().map(|(a, b)| (a.to_string(), b.to_string())).collect()
}

#[test]
fn placeholders_are_replaced_by_their_values() {
    let map = pairs(&[("name", "World"), ("n", "1"), ("n", "2")]);
    let out = replace_all_placeholders_in_string("Hello {{name}} {{n}}!".to_string(), &map, true);
    assert_eq!(out, Ok("Hello World 2!".to_string()));
}

#[test]
fn unknown_placeholders_stay_or_are_reported() {
    let map = pairs(&[("a", "x")]);
    assert_eq!(
        replace_all_placeholders_in_string("{{a}}-{{b}}-{{c}}".to_string(), &map, false),
        Ok("x-{{b}}-{{c}}".to_string())
    );
    assert_eq!(
        replace_all_placeholders_in_string("{{a}}-{{b}}-{{c}}".to_string(), &map, true),
        Err(Error::UnreplacedPlaceholdersRemain {
            unreplaced: vec!["b".to_string(), "c".to_string()]
        })
    );
}

#[test]
fn template_without_values_is_unchanged() {
    let t = "a {{x}} b {{ y }} {x}".to_string();
    assert_eq!(replace_all_placeholders_in_string(t.clone(), &[], false), Ok(t));
}

#[test]
fn fill_placeholders_from_pieces() {
    let segs = vec!["<".to_string(), ">".to_string()];
    let keys = vec!["k".to_string()];
    assert_eq!(
        fill_placeholders(&segs, &keys, &pairs(&[("k", "v")]), true),
        Ok("<v>".to_string())
    );
}

#[test]
fn balance_arguments_of_each_query() {
    let args = balance_report_args(
        "/l.journal",
        "2024",
        &Query::ChangeInAccountReverse { account: "Expenses".to_string() },
        Some("s"),
    );
    assert_eq!(
        args,
        vec![
            "-f", "/l.journal", "-p", "2024", "balance", "^Expenses($|:)", "-r", "--pivot", "s",
            "--output-format=csv", "--layout=bare"
        ]
    );
    let tag = balance_report_args(
        "/l",
        "2024Q1",
        &Query::ChangeByTag { key: "s".to_string(), value: "v".to_string() },
        None,
    );
    assert_eq!(tag[4..6].to_vec(), vec!["balance", "tag:s=v"]);
    let inc = balance_report_args("/l", "2024", &Query::IncomeStatement, None);
    assert_eq!(inc[4], "incomestatement");
}

#[test]
fn register_arguments() {
    let args = register_report_args(
        "/l",
        "2024",
        &RegisterQuery::TagReverse { key: "s".to_string(), value: "x".to_string() },
        None,
        RegisterOutput::Raw { width: 200 },
    );
    assert_eq!(args, vec!["-f", "/l", "-p", "2024", "register", "tag:s=x", "-r", "-w", "200"]);
}

#[test]
fn query_debug_texts() {
    assert_eq!(Query::IncomeStatement.dbg(), "IncomeStatement");
    assert_eq!(
        Query::ChangeInAccount { account: "A\"b".to_string() }.dbg(),
        format!("ChangeInAccount {{ account: {:?} }}", "A\"b")
    );
    assert_eq!(
        Query::ChangeByTag { key: "k".to_string(), value: "v".to_string() }.dbg(),
        "ChangeByTag { key: \"k\", value: \"v\" }"
    );
    assert_eq!(Return::SearchRowOrZero("x".to_string()).dbg(), "SearchRowOrZero(\"x\")");
    assert_eq!(Return::Total.dbg(), "Total");
}

#[test]
fn selected_figures_of_a_report() {
    let records = vec![
        Some(vec!["a".to_string(), "1".to_string()]),
        None,
        Some(vec!["b".to_string(), "2".to_string(), "3".to_string()]),
    ];
    assert_eq!(select_amount(&records, &Return::Total), Some("3".to_string()));
    assert_eq!(
        select_amount(&records, &Return::SearchRowOrZero("a".to_string())),
        Some("1".to_string())
    );
    assert_eq!(
        select_amount(&records, &Return::SearchRowOrZero("zz".to_string())),
        Some("0".to_string())
    );
    assert_eq!(select_amount(&records[..2], &Return::Total), None);
}

#[test]
fn accounting_amounts() {
    assert_eq!(parse_accounting_amount("1,200.50"), Ok((false, "1200.50".to_string())));
    assert_eq!(parse_accounting_amount("(300)"), Ok((true, "300".to_string())));
    assert_eq!(
        parse_accounting_amount("abc"),
        Err(Error::InvalidAccountingAmount { value: "abc".to_string() })
    );
}

#[test]
fn register_sections_and_reclassifications() {
    let s = "2024-01-05 Move cash        Assets:Cash          -100 USD        -100 USD";
    assert_eq!(
        split_sections(s),
        vec!["2024-01-05 Move cash", "Assets:Cash", "-100 USD", "-100 USD"]
    );
    let d = "2024-01-05 Move cash        Assets:Deposit        100 USD         100 USD";
    let text = format_reclassification(s, d);
    let expected = format!(
        "2024-01-05 Move cash\n    {:57} {:>17}\n    {:57} {:>17}",
        "Assets:Cash", "-100 USD", "Assets:Deposit", "100 USD"
    );
    assert_eq!(text, expected);
    let all = non_cash_reclassifications(&[s.to_string(), s.to_string()], &[d.to_string()]);
    assert_eq!(all, vec![expected]);
}

#[test]
fn account_sum_arguments() {
    assert_eq!(
        account_sum_report_args("/l.journal", "2024", "Income"),
        vec!["-f", "/l.journal", "-p", "2024", "balance", "Income", "--output-format=csv", "--layout=bare"]
    );
}
