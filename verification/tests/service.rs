//! The service edges: reply classification, answer checking, identities
//! and the clock.

use mer_matte::api::{classify_fetch_status, classify_submit_status, ApiError};
use mer_matte::clock::current_time_millis;
use mer_matte::user::User;
use mer_matte::util::{validate_input, validate_time_input};

#[test]
fn submit_replies_classified() {
    assert!(classify_submit_status(201, "".to_string()).is_ok());
    assert!(classify_submit_status(204, "".to_string()).is_ok());
    match classify_submit_status(409, "taken".to_string()) {
        Err(ApiError::Conflict(m)) => assert_eq!(m, "taken"),
        _ => panic!("a 409 reply is a conflict"),
    }
    match classify_submit_status(500, "boom".to_string()) {
        Err(ApiError::Server { status, message }) => {
            assert_eq!(status, 500);
            assert_eq!(message, "boom");
        }
        _ => panic!("a 500 reply is a server error"),
    }
}

#[test]
fn fetch_replies_classified() {
    assert!(classify_fetch_status(200, "".to_string()).is_ok());
    assert!(classify_fetch_status(299, "".to_string()).is_ok());
    assert!(classify_fetch_status(404, "missing".to_string()).is_err());
}

#[test]
fn answers_compare_leniently() {
    assert!(validate_input("5", "5"));
    assert!(validate_input("5", "  5  "));
    assert!(validate_input("3.5", "3.50"));
    assert!(validate_input("3.5", "3.54"));
    assert!(!validate_input("3.5", "3.56"));
    assert!(validate_input("-0.5", "-0.5"));
    assert!(!validate_input("5", "five"));
    assert!(!validate_input("5", ""));
    assert!(validate_input("2", "2.0001"));
}

#[test]
fn time_answers_compare_by_fields() {
    assert!(validate_time_input("07:15", 7, 15));
    assert!(validate_time_input(" 7:15 ", 7, 15));
    assert!(validate_time_input("715", 7, 15));
    assert!(validate_time_input("0715", 7, 15));
    assert!(!validate_time_input("7:16", 7, 15));
    assert!(!validate_time_input(":30", 0, 30));
    assert!(!validate_time_input("10:", 10, 0));
    assert!(!validate_time_input("25:00", 1, 0));
    assert!(!validate_time_input("1275", 12, 75));
    assert!(!validate_time_input("10:abc", 10, 0));
    assert!(!validate_time_input("12345", 12, 34));
}

#[test]
fn dummy_users_draw_fresh_identifiers() {
    let a = User::new_dummy();
    let b = User::new_dummy();
    assert_eq!(a.name, "Dummy");
    assert_eq!(a.school, "Donald Duck University");
    // two freshly drawn identifiers collide with vanishing probability
    assert_ne!(a.school_id, b.school_id);
}

#[test]
fn clock_reads_a_modern_time() {
    let t = current_time_millis();
    // well after 2017 on any machine this runs on
    assert!(t > 1_500_000_000_000);
}
