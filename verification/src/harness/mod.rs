pub mod models;
pub mod report;
