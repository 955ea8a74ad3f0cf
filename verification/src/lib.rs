pub mod answer;
pub mod decimal;
pub mod error;
mod idgen;
pub mod pagination;
pub mod question;
pub mod store;
