//! Membership back end of a tennis club: who owes volunteer work hours in a
//! year, which work-hour submissions are acceptable, and how personal and
//! family contributions add up.
pub mod date;
pub mod models;
pub mod numeral;
pub mod eligibility;
pub mod aggregate;
pub mod validate;
pub mod dashboard;
pub mod auth;
pub mod config;
pub mod token_store;
pub mod member_selection;
pub mod rate_limit;
