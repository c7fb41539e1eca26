use tsv_tennis_backend::dashboard::{
    build_dashboard, check_work_hour_owner, dashboard_year, family_to_fetch, work_hour_for_member,
    AccessError,
};
use tsv_tennis_backend::models::{Member, MemberRef, WorkHour, WorkHourEntry};

fn member(family: Option<&str>) -> Member {
    Member {
        id: "rec1".to_string(),
        first_name: "Max".to_string(),
        last_name: "Mustermann".to_string(),
        email: "max@example.com".to_string(),
        family_id: family.map(|s| s.to_string()),
        birth_date: Some("1990-01-01".to_string()),
        join_date: Some("2023-05-01".to_string()),
    }
}

fn entry(id: &str, date: &str, hours: u64) -> WorkHourEntry {
    WorkHourEntry {
        id: id.to_string(),
        date: date.to_string(),
        description: "Platzpflege".to_string(),
        duration_hours: hours,
    }
}

fn own_entries() -> Vec<WorkHourEntry> {
    vec![entry("a", "2024-03-01", 250), entry("b", "2024-05-10", 100), entry("c", "2024-09-20", 450)]
}

fn same_entries() -> Vec<WorkHourEntry> {
    own_entries()
}

#[test]
fn full_dashboard_for_sole_family_member() {
    let m = member(Some("fam1"));
    let d = build_dashboard(&m, 2024, &own_entries(), &vec![member(Some("fam1"))], &vec![same_entries()]);
    assert!(d.success);
    assert_eq!(d.year, 2024);
    let p = d.personal.unwrap();
    assert_eq!(p.name, "Max Mustermann");
    assert_eq!(p.hours, 800);
    assert_eq!(p.required, 800);
    assert_eq!(p.entries.len(), 3);
    let f = d.family.unwrap();
    assert_eq!(f.required, 800);
    assert_eq!(f.completed, 800);
    assert_eq!(f.remaining, 0);
    assert_eq!(f.percentage, 10000);
}

#[test]
fn dashboard_without_family() {
    let d = build_dashboard(&member(None), 2024, &own_entries(), &vec![], &vec![]);
    assert!(d.family.is_none());
    assert_eq!(d.personal.unwrap().hours, 800);
    let d = build_dashboard(&member(Some("")), 2024, &own_entries(), &vec![], &vec![]);
    assert!(d.family.is_none());
}

#[test]
fn family_is_fetched_only_when_named() {
    assert_eq!(family_to_fetch(&member(Some("fam1"))), Some("fam1".to_string()));
    assert_eq!(family_to_fetch(&member(Some(""))), None);
    assert_eq!(family_to_fetch(&member(None)), None);
}

#[test]
fn dashboard_year_falls_back() {
    assert_eq!(dashboard_year("2025"), 2025);
    assert_eq!(dashboard_year("abc"), 2024);
    assert_eq!(dashboard_year(""), 2024);
    assert_eq!(dashboard_year("20x5"), 2024);
}

fn record(member_ref: Option<MemberRef>, complete: bool) -> Option<WorkHour> {
    Some(WorkHour {
        id: "work_hour_1".to_string(),
        member: member_ref,
        date: Some("2024-03-05T10:00:00Z".to_string()),
        description: Some("Test work".to_string()),
        duration_hours: if complete { Some(200) } else { None },
    })
}

#[test]
fn only_the_owner_sees_a_record() {
    let me = "rec1".to_string();
    assert!(check_work_hour_owner(&record(Some(MemberRef::Plain("rec1".to_string())), true), &me).is_ok());
    assert!(check_work_hour_owner(&record(Some(MemberRef::Linked(Some("rec1".to_string()))), true), &me).is_ok());
    assert_eq!(
        check_work_hour_owner(&record(Some(MemberRef::Plain("rec2".to_string())), true), &me),
        Err(AccessError::NotFound)
    );
    assert_eq!(check_work_hour_owner(&record(None, true), &me), Err(AccessError::NotFound));
    assert_eq!(check_work_hour_owner(&None, &me), Err(AccessError::NotFound));
}

#[test]
fn owned_record_is_handed_out_as_entry() {
    let me = "rec1".to_string();
    let e = work_hour_for_member(&record(Some(MemberRef::Plain("rec1".to_string())), true), &me).ok().unwrap();
    assert_eq!(e.id, "work_hour_1");
    assert_eq!(e.date, "2024-03-05");
    assert_eq!(e.description, "Test work");
    assert_eq!(e.duration_hours, 200);
    let r = work_hour_for_member(&record(Some(MemberRef::Plain("rec1".to_string())), false), &me);
    assert!(matches!(r, Err(AccessError::IncompleteData)));
    let r = work_hour_for_member(&record(Some(MemberRef::Unrecognized), true), &me);
    assert!(matches!(r, Err(AccessError::NotFound)));
}
