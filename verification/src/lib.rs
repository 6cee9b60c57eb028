//! Bank-statement ingestion: calendar-checked dates, fixed-point euro
//! amounts, and a best-effort mapper from delimited text exports to typed
//! transaction records.

pub mod amount;
pub mod date;
pub mod import;
pub mod text;

pub use amount::Amount;
pub use date::Date;
pub use date::DateError;
pub use date::Month;
pub use date::MonthError;
pub use import::from_boursobank_csv;
pub use import::from_csv;
pub use import::BankLine;
pub use import::ColumnLayout;
