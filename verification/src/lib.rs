pub mod directory;
pub mod error;
pub mod filing_index;
pub mod html;
pub mod reports;
pub mod statement;
pub mod text;
pub mod throttle;
