use ifrs_hledger::account::{
    asset, asset_tl, equity, expense_tl, Account, AssetAccount, AssetClassification,
    EquityAccount, EquityClassification, ExpenseAccount, ExpenseClassification,
    LiabilityClassification,
};
use ifrs_hledger::handlers::{AssetHandler, CashHandler, ShareholderHandler};
use ifrs_hledger::spec_types::BackingAccount;

#[derive(Debug, Clone)]
struct Laptop;

impl AssetHandler for Laptop {
    fn account(&self) -> AssetAccount {
        asset("Laptop", AssetClassification::PropertyPlantEquipment)
    }
}

#[derive(Debug, Clone)]
struct Bank;

impl CashHandler for Bank {
    fn account(&self) -> AssetAccount {
        asset("Bank", AssetClassification::CashAndCashEquivalents)
    }
}

#[derive(Debug, Clone)]
struct Founder;

impl ShareholderHandler for Founder {
    fn account(&self) -> EquityAccount {
        equity("Founder", EquityClassification::CommonStock)
    }
}

#[test]
fn asset_handler_defaults_keep_the_name() {
    let prepaid = Laptop.while_prepaid();
    assert_eq!(prepaid, asset("Laptop", AssetClassification::PrepaidExpenses));
    let payable = Laptop.while_payable();
    assert_eq!(payable.0, Some("Laptop".to_string()));
    assert_eq!(payable.1, LiabilityClassification::AccountsPayable);
    assert!(Laptop.upon_accrual().is_none());
}

#[test]
fn ledger_names_of_accounts() {
    let a: Account = asset("Bank", AssetClassification::CashAndCashEquivalents).into();
    assert_eq!(a.ledger(), "Assets:Current:CashAndCashEquivalents:Bank");
    assert_eq!(a.type_tag(), 'C');
    let x: Account = expense_tl(ExpenseClassification::OtherCashExpense).into();
    assert_eq!(x.ledger(), "Expenses:Other");
    assert_eq!(x.type_tag(), 'X');
    let p: Account = asset_tl(AssetClassification::PrepaidExpenses).into();
    assert_eq!(p.type_tag(), 'A');
    let _unused: ExpenseAccount = expense_tl(ExpenseClassification::RealizedFxLoss);
}

#[test]
fn backing_account_of_contributed_surplus() {
    let b: BackingAccount<Laptop2, Bank, Founder> = BackingAccount::ContributedSurplus(Founder);
    assert!(!b.is_reimburse());
    assert_eq!(
        b.account().ledger(),
        "Equity:Other:ContributedSurplus:Founder"
    );
}

#[derive(Debug, Clone)]
struct Laptop2;

impl ifrs_hledger::handlers::ReimbursableEntityHandler for Laptop2 {
    fn account(&self) -> ifrs_hledger::account::LiabilityAccount {
        ifrs_hledger::account::liability("Alice", LiabilityClassification::OtherCurrentLiabilities)
    }
}

#[test]
fn named_account_extends_its_top_level_name() {
    for c in [AssetClassification::CashAndCashEquivalents, AssetClassification::OtherCurrentAssets] {
        let named = Account::from(asset("Laptop", c)).ledger();
        let top = Account::from(asset_tl(c)).ledger();
        assert_eq!(named, format!("{}:Laptop", top));
        assert!(top.starts_with("Assets:"));
    }
    let e = Account::from(expense_tl(ExpenseClassification::GeneralAdministrativeExpenses)).ledger();
    assert!(e.starts_with("Expenses:"));
}
