//! Settings of the service, as plain values.
use vstd::prelude::*;

verus! {

/// The service's settings.
pub struct Config {
    pub database_url: String,
    pub jwt_secret: String,
    pub frontend_url: String,
    pub teable_api_url: String,
    pub teable_token: String,
    pub teable_base_id: String,
    pub members_table_id: String,
    pub work_hours_table_id: String,
}

/// Settings of the outgoing mail server.
pub struct EmailConfig {
    pub host: String,
    pub port: u16,
    pub user: String,
    pub password: String,
}

/// What a client of the records service needs.
pub struct TeableConfig {
    pub api_url: String,
    pub token: String,
    pub members_table_id: String,
    pub work_hours_table_id: String,
}

/// The records-service part of the settings.
pub fn get_teable_config(config: &Config) -> (r: TeableConfig)
    ensures
        r.api_url@ == config.teable_api_url@,
        r.token@ == config.teable_token@,
        r.members_table_id@ == config.members_table_id@,
        r.work_hours_table_id@ == config.work_hours_table_id@,
{
    TeableConfig {
        api_url: config.teable_api_url.clone(),
        token: config.teable_token.clone(),
        members_table_id: config.members_table_id.clone(),
        work_hours_table_id: config.work_hours_table_id.clone(),
    }
}

/// The mail server port given as text, or 587 where it does not read as
/// one to five digits of a `u16`.
pub fn email_port(text: &str) -> (r: u16)
    ensures
        ({
            let s = text@;
            if 0 < s.len() <= 5 && crate::numeral::all_digits(s) && crate::numeral::digits_value(
                s,
            ) <= u16::MAX {
                r == crate::numeral::digits_value(s)
            } else {
                r == 587
            }
        }),
{
    let n = text.unicode_len();
    if n == 0 || n > 5 {
        return 587;
    }
    assert(text@.subrange(0, n as int) == text@);
    match crate::numeral::read_digits(text, 0, n) {
        Some(v) => if v <= 65535 {
            v as u16
        } else {
            587
        },
        None => 587,
    }
}

} // verus!
