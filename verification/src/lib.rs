//! Verified core of an IFRS-flavoured bookkeeping toolkit that produces
//! hledger journals.
pub mod account;
pub mod ledger_names;
pub mod cashflow;
pub mod annotation;
pub mod text;
pub mod numfmt;
pub mod journal_text;
pub mod errors;
pub mod date;
pub mod handlers;
pub mod spec_types;
pub mod close_output;
pub mod report_layout;
pub mod statement;
pub mod closing;
pub mod placeholders;
pub mod close_command;
pub mod models;
pub mod amount_text;
pub mod hledger_query;
pub mod sorted_texts;
pub mod ledger_sections;
pub mod notes;
pub mod sheet;
pub mod standard_accounts;
pub mod printer;
pub mod posting_plan;
pub mod monthly_plan;
pub mod decorator_plan;
pub mod reimbursement;
pub mod plan_laws;
pub mod monthly_laws;
