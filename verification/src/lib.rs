//! Ekstre core library: per-bank pattern parsing of Turkish credit-card
//! statements, the rules of the statement store (dedup, reminder
//! eligibility, backfill suppression), reminder text, calendar arithmetic,
//! and the decisions of the IMAP poll. The desktop shell depends on it.

pub mod text;
pub mod calendar;
pub mod amount;
pub mod pattern;
pub mod matcher;
pub mod banks;
pub mod parser;
pub mod store;
pub mod format;
pub mod config;
pub mod dashboard;
pub mod mail;
pub mod pdf;
pub mod poll;

pub use amount::{format_amount_tr, parse_amount, parse_amount_us};
pub use banks::{banks_from_raw, AmountStyle, Bank, BankError, RawBank};
pub use calendar::{days_left, imap_since, parse_iso};
pub use config::{Config, ImapAccount, StoredAccounts};
pub use dashboard::{BankInfo, CardView};
pub use format::{reminder_body, reminder_text, reminder_title, reminder_title_lead};
pub use mail::{ImapConfig, ImapForm, Scanned};
pub use matcher::{body_text, header_matches, strip_html};
pub use parser::{parse_date, parse_statement, try_parse_statement, Statement};
pub use store::StatementRow;
