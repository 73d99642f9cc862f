use ifrs_hledger::date::Date;
use ifrs_hledger::errors::Error;
use ifrs_hledger::sheet::{
    balance_ron_cells, kind_of_row, read_balances_sheet, read_transactions_sheet, ron_cells,
    sheet_records, CsvRecord,
};

const HEADER: &str = "Accrual,Until,Payment,Logic,Decorators,Entity,Description,Amount,Commodity,Backing,Notes\n";

#[test]
fn transactions_sheet_rows_and_commands() {
    let text = format!(
        "{}{}{}{}{}",
        HEADER,
        "2024-01-05,,2024-01-05,SimpleExpense(Fees),,Bank,Wire fee,\"1,200.50\",USD,Cash(Main),\"first\nsecond\"\n",
        "; a comment,,,,,,,,,,\n",
        ",,,,,,,,,,\n",
        ":,,2024-12-31, Close(Retain) ,tagA,tagB,  Close 2024  ,(900),,,\n"
    );
    let (txs, cmds) = read_transactions_sheet(&text, &[]).unwrap();
    assert_eq!(txs.len(), 1);
    assert_eq!(cmds.len(), 1);
    let t = &txs[0];
    assert_eq!(t.id.0, 2);
    assert_eq!(t.accrual_start, Date::from_ymd_opt(2024, 1, 5).unwrap());
    assert_eq!(t.accrual_end, None);
    assert_eq!(t.accounting_logic, "SimpleExpense(Fees)");
    assert_eq!(t.amount, (false, "1200.50".to_string()));
    assert_eq!(t.notes, vec!["first".to_string(), "second".to_string()]);
    let c = &cmds[0];
    assert_eq!(c.id.0, 5);
    assert_eq!(c.date, Date::from_ymd_opt(2024, 12, 31).unwrap());
    assert_eq!(c.logic, "Close(Retain)");
    assert_eq!(c.arguments, vec!["tagA".to_string()]);
    assert_eq!(c.description, Some("Close 2024".to_string()));
    assert_eq!(c.amount, Some((true, "900".to_string())));
    assert_eq!(c.commodity, None);
    assert!(c.notes.is_empty());
}

#[test]
fn transactions_sheet_refuses_bad_rows() {
    let bad_date = format!("{}2024-13-01,,2024-01-05,X,,E,D,1,USD,B,\n", HEADER);
    assert_eq!(
        read_transactions_sheet(&bad_date, &[]).err(),
        Some(Error::InvalidIsoDate { date: "2024-13-01".to_string() })
    );
    let until_before = format!("{}2024-02-01,2024-01-01,2024-01-05,X,,E,D,1,USD,B,\n", HEADER);
    assert_eq!(
        read_transactions_sheet(&until_before, &[]).err(),
        Some(Error::InvalidCsvContent {
            line_id: 2,
            details: "Until date must be after start date.".to_string()
        })
    );
    let bad_amount = format!("{}2024-02-01,,2024-01-05,X,,E,D,12x,USD,B,\n", HEADER);
    assert_eq!(
        read_transactions_sheet(&bad_amount, &[]).err(),
        Some(Error::InvalidAccountingAmount { value: "12x".to_string() })
    );
}

#[test]
fn row_kinds() {
    let s = |v: &[&str]| v.iter().map(|x| x.to_string()).collect::<Vec<String>>();
    assert_eq!(kind_of_row(&s(&["", "  "])), 0);
    assert_eq!(kind_of_row(&s(&["  ;x", "y"])), 0);
    assert_eq!(kind_of_row(&s(&[" :", "y"])), 1);
    assert_eq!(kind_of_row(&s(&["2024-01-01", "y"])), 2);
}

#[test]
fn balances_sheet_rows() {
    let text = "Account,Date,Balance,Commodity\nMain,2024-12-31,\"(1,000)\",USD\nSpare,2024-06-30,5,EUR\n";
    let rows = read_balances_sheet(text, &[]).unwrap();
    assert_eq!(rows.len(), 2);
    assert_eq!(rows[0].account, "Main");
    assert_eq!(rows[0].balance, (true, "1000".to_string()));
    assert_eq!(rows[1].date, Date::from_ymd_opt(2024, 6, 30).unwrap());
    let bad = "Account,Date,Balance,Commodity\nMain,2024-99-31,1,USD\n";
    assert_eq!(
        read_balances_sheet(bad, &[]).err(),
        Some(Error::InvalidIsoDate { date: "2024-99-31".to_string() })
    );
}

type Parsed = Result<String, String>;

fn ok(s: &str) -> Parsed {
    Ok(s.to_string())
}

#[test]
fn csv_record_parse_reads_dates_and_amount() {
    let r = CsvRecord::parse(
        "2024-01-01",
        Some("2024-03-31"),
        "2024-01-15",
        ok("FixedExpense(Rent)"),
        ok("[]"),
        "Landlord",
        "Office rent",
        "(3,000.00)",
        "KRW",
        ok("Cash(Main)"),
    )
    .unwrap();
    assert_eq!(r.accrual_date, Date { year: 2024, month: 1, day: 1 });
    assert_eq!(r.until, Some(Date { year: 2024, month: 3, day: 31 }));
    assert_eq!(r.payment_date, Date { year: 2024, month: 1, day: 15 });
    assert_eq!(r.amount, (true, "3000.00".to_string()));
    assert_eq!(r.accounting_logic, "FixedExpense(Rent)");
    assert_eq!(r.entity, "Landlord");
    assert_eq!(r.backing_account, "Cash(Main)");
}

#[test]
fn csv_record_parse_reports_first_bad_cell() {
    let e = CsvRecord::parse("2024-01-01", Some("2024-13-01"), "bad", ok(""), ok(""), "", "", "x", "", ok(""))
        .unwrap_err();
    assert!(matches!(e, Error::InvalidIsoDate { ref date } if date == "2024-13-01"));
    let e = CsvRecord::parse("2024-01-01", None, "2024-01-02", ok(""), ok(""), "", "", "12a", "", ok(""))
        .unwrap_err();
    assert!(matches!(e, Error::InvalidAccountingAmount { ref value } if value == "12a"));
    let bad_logic: Parsed = Err("unexpected token".to_string());
    let e = CsvRecord::parse("2024-01-01", None, "2024-01-02", bad_logic, ok(""), "", "", "12a", "", ok(""))
        .unwrap_err();
    assert_eq!(
        e,
        Error::InvalidRon { ron_type: "AccountingLogic".to_string(), details: "unexpected token".to_string() }
    );
    let bad_backing: Parsed = Err("no".to_string());
    let e = CsvRecord::parse("2024-01-01", None, "2024-01-02", ok(""), ok(""), "", "", "12a", "", bad_backing)
        .unwrap_err();
    assert!(matches!(e, Error::InvalidAccountingAmount { .. }));
}

#[test]
fn sheet_errors_come_row_by_row() {
    let text = format!(
        "{}{}{}",
        HEADER,
        "2024-01-05,,2024-01-05,Broken(,,Bank,Fee,1,USD,Cash(Main),\n",
        "2024-13-01,,2024-01-05,SimpleExpense(Fees),,Bank,Fee,1,USD,Cash(Main),\n"
    );
    let records = sheet_records(&text);
    assert_eq!(records.len(), 2);
    let cells = records[0].clone().unwrap();
    assert_eq!(
        ron_cells(&cells),
        vec!["Broken(", "[]", "Bank", "USD", "Cash(Main)"]
    );
    let ron = vec![vec![Some("expected ')'".to_string()), None, None, None, None], vec![]];
    assert_eq!(
        read_transactions_sheet(&text, &ron).err(),
        Some(Error::InvalidRon { ron_type: "AccountingLogic".to_string(), details: "expected ')'".to_string() })
    );
    assert_eq!(
        read_transactions_sheet(&text, &[]).err(),
        Some(Error::InvalidIsoDate { date: "2024-13-01".to_string() })
    );
    let command = format!("{}:,,2024-12-31, Close(Retain) ,t,,,,  KRW ,,\n", HEADER);
    let cells = sheet_records(&command)[0].clone().unwrap();
    assert_eq!(ron_cells(&cells), vec!["Close(Retain)", "KRW"]);
    let ron = vec![vec![None, Some("unknown currency".to_string())]];
    assert_eq!(
        read_transactions_sheet(&command, &ron).err(),
        Some(Error::InvalidRon { ron_type: "Commodity".to_string(), details: "unknown currency".to_string() })
    );
}

#[test]
fn balance_rows_report_cash_before_balance() {
    let text = "Account,Date,Balance,Commodity\nMain,2024-01-31,12x,USD\n";
    let cells = sheet_records(text)[0].clone().unwrap();
    assert_eq!(balance_ron_cells(&cells), vec!["Main", "USD"]);
    let ron = vec![vec![Some("bad cash".to_string()), None]];
    assert_eq!(
        read_balances_sheet(text, &ron).err(),
        Some(Error::InvalidRon { ron_type: "Cash".to_string(), details: "bad cash".to_string() })
    );
    assert_eq!(
        read_balances_sheet(text, &[]).err(),
        Some(Error::InvalidAccountingAmount { value: "12x".to_string() })
    );
}
