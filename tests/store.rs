use std::collections::HashSet;
use std::sync::Arc;

use dating::{validate_time, DateContent, DatingService};

const DAY: i64 = 86400;

fn test_data() -> DateContent {
    DateContent {
        who: String::from("hacker"),
        what: String::from("self medication"),
        shortdesc: String::from("I am so depressed"),
        longdesc: String::from("I am so depressed. Please gimme something to sleep"),
        contact: String::from("intern@lists.metalab.at"),
        password: String::from("public"),
        action_type: Some(String::from("7")),
    }
}

fn with_lifetime(days: &str) -> DateContent {
    let mut c = test_data();
    c.action_type = Some(String::from(days));
    c
}

#[test]
fn it_works() {
    let mut dating_service = DatingService::new();
    let input_content = test_data();
    let new_uuid = dating_service.add_date(input_content.clone()).unwrap();
    let output_date = dating_service.get_date(&new_uuid).unwrap();

    assert_eq!(input_content.who, output_date.content.who);
}

#[test]
fn create_and_delete() {
    let mut dating_service = DatingService::new();
    let input_content = test_data();
    let new_uuid = dating_service.add_date(input_content.clone()).unwrap();
    dating_service
        .reset_timeout(&new_uuid, String::from("public"), String::from("0"))
        .ok();
    assert!(dating_service.get_date(&new_uuid).is_err());
}

#[test]
fn ids_are_never_reissued() {
    let mut s = DatingService::new();
    let mut seen = HashSet::new();
    for _ in 0..50 {
        let id = s.add_date_at(test_data(), 1000).unwrap();
        assert!(seen.insert(id.clone()));
        assert_eq!(id.len(), 5);
        assert!(id.chars().all(|c| c.is_ascii_lowercase() || c.is_ascii_digit()));
    }
    // deleting does not free an identifier for reuse
    let first = s.list()[0].id.clone();
    s.delete_date(&first, String::from("public")).unwrap();
    let next = s.add_date_at(test_data(), 1000).unwrap();
    assert!(!seen.contains(&next));
}

#[test]
fn ids_do_not_show_the_serial() {
    let mut s = DatingService::new();
    let a = s.add_date_at(test_data(), 1000).unwrap();
    let b = s.add_date_at(test_data(), 1000).unwrap();
    assert_ne!(a, "0");
    assert_ne!(b, "1");
    assert_ne!(a, "00000");
    assert_ne!(b, "00001");
}

#[test]
fn invalid_content_reports_every_rule() {
    let mut s = DatingService::new();
    let mut c = test_data();
    c.who = String::from("a");
    c.what = String::from("x");
    c.shortdesc = String::from("short");
    c.action_type = Some(String::from("abc"));
    let e = s.add_date_at(c, 1000).unwrap_err();
    assert_eq!(
        e.errors,
        vec![
            "Who must be at least 2 characters long",
            "What must be at least 2 characters long",
            "Short description has to be at lesat 10 characters long",
            "Time is not a number",
        ]
    );
    assert_eq!(e.content.who, "a");
    assert_eq!(e.content.what, "x");
    assert_eq!(e.content.shortdesc, "short");
    assert_eq!(e.content.action_type.as_deref(), Some("abc"));
    assert!(s.list().is_empty());
}

#[test]
fn too_long_fields_are_refused() {
    let mut s = DatingService::new();
    let mut c = test_data();
    c.who = "w".repeat(16);
    c.what = "x".repeat(16);
    c.shortdesc = "y".repeat(201);
    c.action_type = Some(String::from("22"));
    let e = s.add_date_at(c, 1000).unwrap_err();
    assert_eq!(
        e.errors,
        vec![
            "Who must be 15 characters or shorter",
            "what must be 15 characters or shorter",
            "Short description must be 200 characters or shorter",
            "Come on! Dont overdo it",
        ]
    );
}

#[test]
fn bounds_of_the_field_rules_are_accepted() {
    let mut s = DatingService::new();
    let mut c = test_data();
    c.who = "w".repeat(2);
    c.what = "x".repeat(15);
    c.shortdesc = "y".repeat(10);
    assert!(s.add_date_at(c, 1000).is_ok());
    let mut c = test_data();
    c.who = "w".repeat(15);
    c.what = "x".repeat(2);
    c.shortdesc = "y".repeat(200);
    assert!(s.add_date_at(c, 1000).is_ok());
}

#[test]
fn lengths_count_characters() {
    let mut s = DatingService::new();
    let mut c = test_data();
    c.who = "ö".repeat(15);
    c.what = String::from("äü");
    assert!(s.add_date_at(c, 1000).is_ok());
}

#[test]
fn missing_lifetime_is_refused() {
    let mut s = DatingService::new();
    let mut c = test_data();
    c.action_type = None;
    let e = s.add_date_at(c, 1000).unwrap_err();
    assert_eq!(e.errors, vec!["Time is not a number"]);
}

#[test]
fn get_after_create_returns_the_content() {
    let mut s = DatingService::new();
    let id = s.add_date_at(test_data(), 5000).unwrap();
    let d = s.get_date(&id).unwrap();
    assert_eq!(d.id, id);
    assert_eq!(d.content.who, "hacker");
    assert_eq!(d.content.what, "self medication");
    assert_eq!(d.content.shortdesc, "I am so depressed");
    assert_eq!(d.content.longdesc, "I am so depressed. Please gimme something to sleep");
    assert_eq!(d.content.contact, "intern@lists.metalab.at");
    assert_eq!(d.content.password, "public");
    assert_eq!(d.created, 5000);
    assert_eq!(d.due, 5000 + 7 * DAY);
}

#[test]
fn zero_day_listing_expires_at_creation() {
    let mut s = DatingService::new();
    let id = s.add_date_at(with_lifetime("0"), 5000).unwrap();
    let d = s.get_date(&id).unwrap();
    assert_eq!(d.due, d.created);
}

#[test]
fn unknown_id_is_not_found() {
    let s = DatingService::new();
    assert!(s.get_date("nope").is_err());
}

#[test]
fn delete_with_wrong_password_keeps_listing() {
    let mut s = DatingService::new();
    let id = s.add_date_at(test_data(), 1000).unwrap();
    let r = s.delete_date(&id, String::from("wrong"));
    assert_eq!(r, Err(String::from("Password incorrect!")));
    assert!(s.get_date(&id).is_ok());
}

#[test]
fn delete_with_right_password_removes_listing() {
    let mut s = DatingService::new();
    let keep = s.add_date_at(test_data(), 1000).unwrap();
    let mut c = test_data();
    c.password = String::from("secret");
    let id = s.add_date_at(c, 1000).unwrap();
    assert_eq!(s.delete_date(&id, String::from("secret")), Ok(()));
    assert!(s.get_date(&id).is_err());
    assert!(s.get_date(&keep).is_ok());
    assert_eq!(
        s.delete_date(&id, String::from("secret")),
        Err(String::from("Date does not exist!"))
    );
}

#[test]
fn reset_to_zero_removes_listing() {
    let mut s = DatingService::new();
    let id = s.add_date_at(test_data(), 1000).unwrap();
    assert_eq!(
        s.reset_timeout_at(&id, String::from("public"), String::from("0"), 2000),
        Ok(())
    );
    assert!(s.get_date(&id).is_err());
}

#[test]
fn reset_beyond_maximum_is_refused() {
    let mut s = DatingService::new();
    let id = s.add_date_at(test_data(), 1000).unwrap();
    let before = s.get_date(&id).unwrap().due;
    let r = s.reset_timeout_at(&id, String::from("public"), String::from("22"), 2000);
    assert_eq!(r, Err(String::from("Come on! Dont overdo it")));
    assert_eq!(s.get_date(&id).unwrap().due, before);
}

#[test]
fn reset_extends_from_now() {
    let mut s = DatingService::new();
    let id = s.add_date_at(test_data(), 1000).unwrap();
    assert_eq!(
        s.reset_timeout_at(&id, String::from("public"), String::from("21"), 2000),
        Ok(())
    );
    let d = s.get_date(&id).unwrap();
    assert_eq!(d.due, 2000 + 21 * DAY);
    assert_eq!(d.created, 1000);
}

#[test]
fn reset_checks_days_before_the_listing() {
    let mut s = DatingService::new();
    assert_eq!(
        s.reset_timeout_at("nope", String::from("x"), String::from("abc"), 2000),
        Err(String::from("Time is not a number"))
    );
    assert_eq!(
        s.reset_timeout_at("nope", String::from("x"), String::from("3"), 2000),
        Err(String::from("Date does not exist!"))
    );
    let id = s.add_date_at(test_data(), 1000).unwrap();
    assert_eq!(
        s.reset_timeout_at(&id, String::from("x"), String::from("3"), 2000),
        Err(String::from("Password incorrect!"))
    );
}

#[test]
fn sweep_removes_only_expired_listings() {
    let mut s = DatingService::new();
    let short = s.add_date_at(with_lifetime("1"), 1000).unwrap();
    let long = s.add_date_at(with_lifetime("2"), 1000).unwrap();
    let later = 1000 + DAY + 1;
    // past its expiry, but not yet swept
    assert!(s.get_date(&short).is_ok());
    assert_eq!(s.clean_old_dates_at(later), 1);
    assert!(s.get_date(&short).is_err());
    assert!(s.get_date(&long).is_ok());
}

#[test]
fn sweep_keeps_listing_at_its_expiry() {
    let mut s = DatingService::new();
    let id = s.add_date_at(with_lifetime("1"), 1000).unwrap();
    assert_eq!(s.clean_old_dates_at(1000 + DAY), 0);
    assert!(s.get_date(&id).is_ok());
}

#[test]
fn sweep_with_real_clock_keeps_fresh_listings() {
    let mut s = DatingService::new();
    let id = s.add_date(test_data()).unwrap();
    assert_eq!(s.clean_old_dates(), 0);
    let d = s.get_date(&id).unwrap();
    assert!(d.created > 1_600_000_000);
    assert_eq!(d.due, d.created + 7 * DAY);
}

#[test]
fn next_on_empty_store_is_placeholder() {
    let s = DatingService::new();
    let d = s.get_next_date_of(None);
    assert_eq!(d.id, "empty");
    assert_eq!(d.content.who, "Dating Plattform");
    assert_eq!(d.content.what, "Date");
    assert_eq!(d.created, d.due);
    let d = s.get_next_date_of(Some("abc"));
    assert_eq!(d.id, "empty");
}

#[test]
fn next_rotates_and_wraps() {
    let mut s = DatingService::new();
    let a = s.add_date_at(test_data(), 1000).unwrap();
    let b = s.add_date_at(test_data(), 1000).unwrap();
    let c = s.add_date_at(test_data(), 1000).unwrap();
    assert_eq!(s.get_next_date_of(None).id, a);
    assert_eq!(s.get_next_date_of(Some(&a)).id, b);
    assert_eq!(s.get_next_date_of(Some(&b)).id, c);
    assert_eq!(s.get_next_date_of(Some(&c)).id, a);
    assert_eq!(s.get_next_date_of(Some("unknown")).id, a);
}

#[test]
fn list_keeps_insertion_order() {
    let mut s = DatingService::new();
    let a = s.add_date_at(test_data(), 1000).unwrap();
    let b = s.add_date_at(test_data(), 1000).unwrap();
    let ids: Vec<String> = s.list().into_iter().map(|d| d.id).collect();
    assert_eq!(ids, vec![a, b]);
}

#[test]
fn find_date_reports_position_and_errors() {
    let mut s = DatingService::new();
    let a = s.add_date_at(test_data(), 1000).unwrap();
    let b = s.add_date_at(test_data(), 1000).unwrap();
    let dates = s.list();
    assert_eq!(s.find_date(&b, String::from("public"), &dates), Ok(1));
    assert_eq!(s.find_date(&a, String::from("public"), &dates), Ok(0));
    assert_eq!(
        s.find_date(&a, String::from("other"), &dates),
        Err(String::from("Password incorrect!"))
    );
    assert_eq!(
        s.find_date("zzzzz", String::from("public"), &dates),
        Err(String::from("Date does not exist!"))
    );
}

#[test]
fn validate_time_cases() {
    assert_eq!(validate_time("0"), Ok(0));
    assert_eq!(validate_time("21"), Ok(21));
    assert_eq!(validate_time("+5"), Ok(5));
    assert_eq!(validate_time("007"), Ok(7));
    assert_eq!(validate_time("22"), Err(String::from("Come on! Dont overdo it")));
    assert_eq!(validate_time("1000"), Err(String::from("Come on! Dont overdo it")));
    assert_eq!(validate_time(""), Err(String::from("Time is not a number")));
    assert_eq!(validate_time("+"), Err(String::from("Time is not a number")));
    assert_eq!(validate_time("-1"), Err(String::from("Time is not a number")));
    assert_eq!(validate_time("7 "), Err(String::from("Time is not a number")));
    assert_eq!(
        validate_time("99999999999999999999999"),
        Err(String::from("Time is not a number"))
    );
}

#[test]
fn empty_form_has_default_password() {
    let c = DateContent::new();
    assert_eq!(c.password, "public");
    assert_eq!(c.who, "");
    assert!(c.action_type.is_none());
    let p = DateContent::new_placeholder();
    assert_eq!(
        p.shortdesc,
        "There is currently no date on this dating plattform feel free to post one"
    );
    assert_eq!(p.password, "public");
}

#[test]
fn concurrent_creates_get_distinct_ids() {
    let runtime = tokio::runtime::Runtime::new().unwrap();
    let store = Arc::new(tokio::sync::RwLock::new(DatingService::new()));
    let ids: Vec<String> = runtime.block_on(async {
        let mut handles = Vec::new();
        for _ in 0..100 {
            let store = store.clone();
            handles.push(tokio::spawn(async move {
                store.write().await.add_date(test_data()).unwrap()
            }));
        }
        let mut ids = Vec::new();
        for h in handles {
            ids.push(h.await.unwrap());
        }
        ids
    });
    let distinct: HashSet<&String> = ids.iter().collect();
    assert_eq!(distinct.len(), 100);
    let listed = runtime.block_on(async { store.read().await.list() });
    assert_eq!(listed.len(), 100);
}
