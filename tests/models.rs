use tsv_tennis_backend::config::{email_port, get_teable_config, Config};
use tsv_tennis_backend::member_selection::{
    login_choice, normalize_email, same_email, user_responses, LoginChoice,
};
use tsv_tennis_backend::models::{Member, MemberRef, WorkHour};
use tsv_tennis_backend::rate_limit::{first_nonempty, IpKeyExtractor, UserKeyExtractor};

fn member(id: &str, first: &str, last: &str) -> Member {
    Member {
        id: id.to_string(),
        first_name: first.to_string(),
        last_name: last.to_string(),
        email: "Shared@Example.com".to_string(),
        family_id: None,
        birth_date: None,
        join_date: None,
    }
}

#[test]
fn member_name_joins_first_and_last() {
    assert_eq!(member("rec1", "Test", "User").name(), "Test User");
}

fn linked(m: Option<MemberRef>) -> WorkHour {
    WorkHour { id: "w".to_string(), member: m, date: None, description: None, duration_hours: None }
}

#[test]
fn member_id_is_read_from_either_link_form() {
    assert_eq!(linked(Some(MemberRef::Plain("rec1".to_string()))).get_member_id(), Some("rec1".to_string()));
    assert_eq!(
        linked(Some(MemberRef::Linked(Some("rec2".to_string())))).get_member_id(),
        Some("rec2".to_string())
    );
    assert_eq!(linked(Some(MemberRef::Linked(None))).get_member_id(), None);
    assert_eq!(linked(Some(MemberRef::Unrecognized)).get_member_id(), None);
    assert_eq!(linked(None).get_member_id(), None);
}

#[test]
fn records_service_settings_are_taken_over() {
    let c = Config {
        database_url: "sqlite::memory:".to_string(),
        jwt_secret: "secret".to_string(),
        frontend_url: "http://localhost:5173".to_string(),
        teable_api_url: "https://test.teable.io".to_string(),
        teable_token: "test_token".to_string(),
        teable_base_id: "test_base_id".to_string(),
        members_table_id: "test_members_table".to_string(),
        work_hours_table_id: "test_work_hours_table".to_string(),
    };
    let t = get_teable_config(&c);
    assert_eq!(t.api_url, "https://test.teable.io");
    assert_eq!(t.token, "test_token");
    assert_eq!(t.members_table_id, "test_members_table");
    assert_eq!(t.work_hours_table_id, "test_work_hours_table");
}

#[test]
fn email_port_defaults_to_587() {
    assert_eq!(email_port("465"), 465);
    assert_eq!(email_port("65535"), 65535);
    assert_eq!(email_port("65536"), 587);
    assert_eq!(email_port("abc"), 587);
    assert_eq!(email_port(""), 587);
}

#[test]
fn sign_in_goes_by_number_of_members() {
    assert_eq!(login_choice(&vec![]), LoginChoice::NoMember);
    assert_eq!(login_choice(&vec![member("rec1", "A", "B")]), LoginChoice::Single);
    assert_eq!(login_choice(&vec![member("rec1", "A", "B"), member("rec2", "C", "D")]), LoginChoice::Multiple);
}

#[test]
fn members_are_listed_for_selection() {
    let us = user_responses(&vec![member("rec1", "A", "B"), member("rec2", "C", "D")]);
    assert_eq!(us.len(), 2);
    assert_eq!(us[1].id, "rec2");
    assert_eq!(us[1].name, "C D");
    assert_eq!(us[1].email, "Shared@Example.com");
}

#[test]
fn email_addresses_compare_without_case() {
    assert_eq!(normalize_email("Multi@Example.COM"), "multi@example.com");
    assert!(same_email("Multi@Example.COM", "multi@example.com"));
    assert!(!same_email("a@example.com", "b@example.com"));
}

#[test]
fn client_address_comes_from_proxy_headers() {
    let x = IpKeyExtractor;
    assert_eq!(x.client_address(Some(" 10.0.0.1 , 10.0.0.2"), Some("10.0.0.9"), None), Some("10.0.0.1".to_string()));
    assert_eq!(x.client_address(Some("  ,10.0.0.2"), Some(" 10.0.0.9 "), None), Some("10.0.0.9".to_string()));
    assert_eq!(x.client_address(None, Some("  "), Some("1.2.3.4")), Some("1.2.3.4".to_string()));
    assert_eq!(x.client_address(None, None, None), None);
    assert_eq!(x.name(), "client_ip");
    assert_eq!(UserKeyExtractor.name(), "user_id");
}

#[test]
fn first_nonempty_value_wins() {
    let s = |v: &str| Some(v.to_string());
    assert_eq!(first_nonempty(s(""), s("b"), s("c")), s("b"));
    assert_eq!(first_nonempty(s("a"), s("b"), None), s("a"));
    assert_eq!(first_nonempty(None, s(""), s("")), None);
    assert_eq!(first_nonempty(None, None, s("c")), s("c"));
}
