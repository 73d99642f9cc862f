//! Chart-of-accounts entities: the five account kinds, their IFRS-style
//! classifications, and the shorthand constructors.
use vstd::prelude::*;

verus! {

#[derive(Debug, PartialEq, Eq, Hash, Clone)]
pub enum Account {
    Asset(AssetAccount),
    Liability(LiabilityAccount),
    Income(IncomeAccount),
    Expense(ExpenseAccount),
    Equity(EquityAccount),
}

#[derive(Debug, PartialEq, Eq, Hash, Clone, Copy, Structural)]
pub enum AssetClassification {
    // Current.
    CashAndCashEquivalents,
    AccountsReceivable,
    Inventory,
    PrepaidExpenses,
    ShortTermInvestments,
    ShortTermDeposits,
    OtherCurrentAssets,
    // Non-current.
    PropertyPlantEquipment,
    IntangibleAssets,
    LongTermInvestments,
    LongTermDeposits,
    DeferredIncomeTax,
    OtherNonCurrentAssets,
}

#[derive(Debug, PartialEq, Eq, Hash, Clone, Copy, Structural)]
pub enum LiabilityClassification {
    // Current.
    AccountsPayable,
    AccruedExpenses,
    DeferredRevenue,
    ShortTermDebt,
    OtherCurrentLiabilities,
    // Non-current.
    LongTermDebt,
    DeferredIncomeTax,
    OtherNonCurrentLiabilities,
}

#[derive(Debug, PartialEq, Eq, Hash, Clone, Copy, Structural)]
pub enum IncomeClassification {
    /// Revenue from selling goods.
    SalesRevenue,
    /// Revenue from providing services.
    ServiceRevenue,
    /// Interest earned on deposits or investments.
    InterestIncome,
    /// Dividends received from investments.
    DividendIncome,
    /// Income from rental properties.
    RentalIncome,
    /// Gains from the sale of long-term assets.
    GainOnSaleOfAssets,
    /// Gains from foreign exchange transactions.
    RealizedFxGain,
    /// VAT adjustments (discounts, rounding gains).
    VatAdjustmentIncome,
    OtherIncome,
}

#[derive(Debug, PartialEq, Eq, Hash, Clone, Copy, Structural)]
pub enum ExpenseClassification {
    /// Direct costs associated with production or purchase of goods.
    CostOfGoodsSold,
    /// Marketing, advertising and sales commissions.
    SellingExpenses,
    /// Overhead costs: office, rent, utilities, non-sales salaries.
    GeneralAdministrativeExpenses,
    /// Costs incurred for R&D activities.
    ResearchAndDevelopmentExpenses,
    /// Costs incurred for cloud services.
    CloudServicesExpenses,
    /// Costs incurred on borrowings.
    InterestExpense,
    /// Income tax expense.
    IncomeTaxExpense,
    /// Other tax expenses.
    OtherTaxExpense,
    /// Losses from the sale of long-term assets.
    LossOnSaleOfAssets,
    /// Losses from foreign exchange transactions.
    RealizedFxLoss,
    /// VAT adjustments (rounding losses).
    VatAdjustmentExpense,
    /// Allocation of cost for tangible assets.
    DepreciationExpense,
    /// Allocation of cost for intangible assets.
    AmortizationExpense,
    OtherCashExpense,
    OtherNonCashExpense,
}

#[derive(Debug, PartialEq, Eq, Hash, Clone, Copy, Structural)]
pub enum EquityClassification {
    // Contributed capital.
    CommonStock,
    PreferredStock,
    TreasuryStock,
    // Earned capital.
    RetainedEarnings,
    // Other equity items.
    ShareIssuanceCosts,
    ContributedSurplus,
    UnpaidShareCapital,
}

#[derive(Debug, PartialEq, Eq, Hash, Clone)]
pub struct AssetAccount(pub Option<String>, pub AssetClassification);

#[derive(Debug, PartialEq, Eq, Hash, Clone)]
pub struct LiabilityAccount(pub Option<String>, pub LiabilityClassification);

#[derive(Debug, PartialEq, Eq, Hash, Clone)]
pub struct IncomeAccount(pub Option<String>, pub IncomeClassification);

#[derive(Debug, PartialEq, Eq, Hash, Clone)]
pub struct ExpenseAccount(pub Option<String>, pub ExpenseClassification);

#[derive(Debug, PartialEq, Eq, Hash, Clone)]
pub struct EquityAccount(pub Option<String>, pub EquityClassification);

/// The name of an optional account segment, as characters.
pub open spec fn name_view(name: Option<String>) -> Option<Seq<char>> {
    match name {
        Some(s) => Some(s@),
        None => None,
    }
}

/// An account named `name`, classified as `classification`.
pub fn asset(name: impl Into<String>, classification: AssetClassification) -> (r: AssetAccount)
    ensures
        r.0 is Some,
        r.1 == classification,
        call_ensures(Into::<String>::into, (name,), r.0->0),
{
    AssetAccount(Some(name.into()), classification)
}

/// A top-level account (no name segment) of the given classification.
pub fn asset_tl(classification: AssetClassification) -> (r: AssetAccount)
    ensures
        r.0 == None::<String>,
        r.1 == classification,
{
    AssetAccount(None, classification)
}

/// An account named `name`, classified as `classification`.
pub fn liability(name: impl Into<String>, classification: LiabilityClassification) -> (r: LiabilityAccount)
    ensures
        r.0 is Some,
        r.1 == classification,
        call_ensures(Into::<String>::into, (name,), r.0->0),
{
    LiabilityAccount(Some(name.into()), classification)
}

/// A top-level account (no name segment) of the given classification.
pub fn liability_tl(classification: LiabilityClassification) -> (r: LiabilityAccount)
    ensures
        r.0 == None::<String>,
        r.1 == classification,
{
    LiabilityAccount(None, classification)
}

/// An account named `name`, classified as `classification`.
pub fn income(name: impl Into<String>, classification: IncomeClassification) -> (r: IncomeAccount)
    ensures
        r.0 is Some,
        r.1 == classification,
        call_ensures(Into::<String>::into, (name,), r.0->0),
{
    IncomeAccount(Some(name.into()), classification)
}

/// A top-level account (no name segment) of the given classification.
pub fn income_tl(classification: IncomeClassification) -> (r: IncomeAccount)
    ensures
        r.0 == None::<String>,
        r.1 == classification,
{
    IncomeAccount(None, classification)
}

/// An account named `name`, classified as `classification`.
pub fn expense(name: impl Into<String>, classification: ExpenseClassification) -> (r: ExpenseAccount)
    ensures
        r.0 is Some,
        r.1 == classification,
        call_ensures(Into::<String>::into, (name,), r.0->0),
{
    ExpenseAccount(Some(name.into()), classification)
}

/// A top-level account (no name segment) of the given classification.
pub fn expense_tl(classification: ExpenseClassification) -> (r: ExpenseAccount)
    ensures
        r.0 == None::<String>,
        r.1 == classification,
{
    ExpenseAccount(None, classification)
}

/// An account named `name`, classified as `classification`.
pub fn equity(name: impl Into<String>, classification: EquityClassification) -> (r: EquityAccount)
    ensures
        r.0 is Some,
        r.1 == classification,
        call_ensures(Into::<String>::into, (name,), r.0->0),
{
    EquityAccount(Some(name.into()), classification)
}

/// A top-level account (no name segment) of the given classification.
pub fn equity_tl(classification: EquityClassification) -> (r: EquityAccount)
    ensures
        r.0 == None::<String>,
        r.1 == classification,
{
    EquityAccount(None, classification)
}

/// A copy of an optional name segment, equal to the original.
pub fn copy_name(name: &Option<String>) -> (r: Option<String>)
    ensures
        r == *name,
{
    match name {
        Some(s) => Some(s.clone()),
        None => None,
    }
}

impl AssetAccount {
    /// A copy of this account, equal to it.
    pub fn duplicate(&self) -> (r: Self)
        ensures
            r == *self,
    {
        AssetAccount(copy_name(&self.0), self.1)
    }
}

impl LiabilityAccount {
    /// A copy of this account, equal to it.
    pub fn duplicate(&self) -> (r: Self)
        ensures
            r == *self,
    {
        LiabilityAccount(copy_name(&self.0), self.1)
    }
}

impl IncomeAccount {
    /// A copy of this account, equal to it.
    pub fn duplicate(&self) -> (r: Self)
        ensures
            r == *self,
    {
        IncomeAccount(copy_name(&self.0), self.1)
    }
}

impl ExpenseAccount {
    /// A copy of this account, equal to it.
    pub fn duplicate(&self) -> (r: Self)
        ensures
            r == *self,
    {
        ExpenseAccount(copy_name(&self.0), self.1)
    }
}

impl EquityAccount {
    /// A copy of this account, equal to it.
    pub fn duplicate(&self) -> (r: Self)
        ensures
            r == *self,
    {
        EquityAccount(copy_name(&self.0), self.1)
    }
}

impl Account {
    /// A copy of this account, equal to it.
    pub fn duplicate(&self) -> (r: Self)
        ensures
            r == *self,
    {
        match self {
            Account::Asset(a) => Account::Asset(a.duplicate()),
            Account::Liability(a) => Account::Liability(a.duplicate()),
            Account::Income(a) => Account::Income(a.duplicate()),
            Account::Expense(a) => Account::Expense(a.duplicate()),
            Account::Equity(a) => Account::Equity(a.duplicate()),
        }
    }
}

impl From<AssetAccount> for Account {
    fn from(a: AssetAccount) -> (r: Account) {
        Account::Asset(a)
    }
}

impl vstd::std_specs::convert::FromSpecImpl<AssetAccount> for Account {
    open spec fn obeys_from_spec() -> bool {
        true
    }

    open spec fn from_spec(v: AssetAccount) -> Account {
        Account::Asset(v)
    }
}

impl From<LiabilityAccount> for Account {
    fn from(a: LiabilityAccount) -> (r: Account) {
        Account::Liability(a)
    }
}

impl vstd::std_specs::convert::FromSpecImpl<LiabilityAccount> for Account {
    open spec fn obeys_from_spec() -> bool {
        true
    }

    open spec fn from_spec(v: LiabilityAccount) -> Account {
        Account::Liability(v)
    }
}

impl From<IncomeAccount> for Account {
    fn from(a: IncomeAccount) -> (r: Account) {
        Account::Income(a)
    }
}

impl vstd::std_specs::convert::FromSpecImpl<IncomeAccount> for Account {
    open spec fn obeys_from_spec() -> bool {
        true
    }

    open spec fn from_spec(v: IncomeAccount) -> Account {
        Account::Income(v)
    }
}

impl From<ExpenseAccount> for Account {
    fn from(a: ExpenseAccount) -> (r: Account) {
        Account::Expense(a)
    }
}

impl vstd::std_specs::convert::FromSpecImpl<ExpenseAccount> for Account {
    open spec fn obeys_from_spec() -> bool {
        true
    }

    open spec fn from_spec(v: ExpenseAccount) -> Account {
        Account::Expense(v)
    }
}

impl From<EquityAccount> for Account {
    fn from(a: EquityAccount) -> (r: Account) {
        Account::Equity(a)
    }
}

impl vstd::std_specs::convert::FromSpecImpl<EquityAccount> for Account {
    open spec fn obeys_from_spec() -> bool {
        true
    }

    open spec fn from_spec(v: EquityAccount) -> Account {
        Account::Equity(v)
    }
}

} // verus!
