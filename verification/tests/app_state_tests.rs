use matching_server::app_state::AppState;
use matching_server::matcher::Matcher;
use matching_server::start_matching::{start_matching_action, StartMatchingAction};

type State = AppState<&'static str, String, u32>;

fn state() -> State {
    AppState::new("factory")
}

#[test]
fn new_state_has_nobody_waiting() {
    let s = state();
    let m = Matcher::new(1, 2);
    assert_eq!(*s.get_web_rtc_wrapper(), "factory");
    assert!(!s.has_waiting_user(&m));
    assert!(!s.has_waiting_peer_connection_wrapper(&m));
    assert_eq!(s.get_waiting_user_id(&m), None);
    assert_eq!(s.get_waiting_user_id_from_wrappers(&m), None);
}

#[test]
fn waiting_user_is_read_back_after_insert() {
    let mut s = state();
    let m = Matcher::new(1, 2);
    s.insert_waiting_user(&m, &7, 70);
    assert!(s.has_waiting_user(&m));
    assert_eq!(s.get_waiting_user_id(&m), Some((7, 70)));
    assert_eq!(s.waiting_user_id(&m), Some(7));
    // reading does not take the entry out
    assert!(s.has_waiting_user(&m));
}

#[test]
fn later_waiting_user_replaces_earlier_one() {
    let mut s = state();
    let m = Matcher::new(1, 2);
    s.insert_waiting_user(&m, &7, 70);
    s.insert_waiting_user(&m, &8, 80);
    assert_eq!(s.get_waiting_user_id(&m), Some((8, 80)));
}

#[test]
fn waiting_users_of_other_matchers_are_independent() {
    let mut s = state();
    let a = Matcher::new(1, 2);
    let b = Matcher::new(1, 3);
    let c = Matcher::new(2, 2);
    s.insert_waiting_user(&a, &7, 70);
    s.insert_waiting_user(&b, &8, 80);
    assert!(!s.has_waiting_user(&c));
    assert_eq!(s.find_waiting_user_by_id(&a, &7), Some((7, 70)));
    assert_eq!(s.get_waiting_user_id(&b), Some((8, 80)));
}

#[test]
fn waiting_user_is_taken_by_its_id() {
    let mut s = state();
    let m = Matcher::new(1, 2);
    s.insert_waiting_user(&m, &7, 70);
    assert_eq!(s.find_waiting_user_by_id(&m, &7), Some((7, 70)));
    assert!(!s.has_waiting_user(&m));
    assert_eq!(s.find_waiting_user_by_id(&m, &7), None);
}

#[test]
fn taking_waiting_user_by_another_id_drops_it() {
    let mut s = state();
    let m = Matcher::new(1, 2);
    s.insert_waiting_user(&m, &7, 70);
    assert_eq!(s.find_waiting_user_by_id(&m, &9), None);
    assert!(!s.has_waiting_user(&m));
}

#[test]
fn wrapper_line_keeps_the_oldest_first() {
    let mut s = state();
    let m = Matcher::new(4, 5);
    s.insert_wrapper(&m, 10, "a".to_string());
    assert!(s.has_waiting_peer_connection_wrapper(&m));
    assert_eq!(s.get_waiting_user_id_from_wrappers(&m), Some(10));
    s.insert_wrapper(&m, 11, "b".to_string());
    assert_eq!(s.get_waiting_user_id_from_wrappers(&m), Some(10));
    assert_eq!(s.get_waiting_user_id_from_wrappers(&Matcher::new(4, 6)), None);
}

#[test]
fn found_wrapper_is_changed_in_place() {
    let mut s = state();
    let m = Matcher::new(4, 5);
    s.insert_wrapper(&m, 10, "a".to_string());
    s.insert_wrapper(&m, 11, "b".to_string());
    s.insert_wrapper(&m, 11, "c".to_string());
    {
        let w = s.find_wrapper_by_user_id(&m, &11).unwrap();
        assert_eq!(w.as_str(), "b");
        w.push_str("-answered");
    }
    assert_eq!(s.find_wrapper_by_user_id(&m, &11).unwrap().as_str(), "b-answered");
    assert_eq!(s.find_wrapper_by_user_id(&m, &10).unwrap().as_str(), "a");
    assert!(s.find_wrapper_by_user_id(&m, &12).is_none());
    assert!(s.find_wrapper_by_user_id(&Matcher::new(4, 6), &10).is_none());
}

#[test]
fn removing_a_user_keeps_the_others_in_order() {
    let mut s = state();
    let m = Matcher::new(4, 5);
    s.insert_wrapper(&m, 10, "a".to_string());
    s.insert_wrapper(&m, 11, "b".to_string());
    s.insert_wrapper(&m, 10, "c".to_string());
    s.insert_wrapper(&m, 12, "d".to_string());
    assert_eq!(s.remove_wrapper_by_user_id(&m, &10), Ok(()));
    assert!(s.find_wrapper_by_user_id(&m, &10).is_none());
    assert_eq!(s.get_waiting_user_id_from_wrappers(&m), Some(11));
    assert_eq!(s.find_wrapper_by_user_id(&m, &12).unwrap().as_str(), "d");
    assert_eq!(s.remove_wrapper_by_user_id(&m, &11), Ok(()));
    assert_eq!(s.get_waiting_user_id_from_wrappers(&m), Some(12));
}

#[test]
fn removing_from_unknown_matcher_fails() {
    let mut s = state();
    let m = Matcher::new(4, 5);
    assert_eq!(
        s.remove_wrapper_by_user_id(&m, &10),
        Err("matcher does not set".to_string())
    );
}

#[test]
fn removing_from_emptied_matcher_fails() {
    let mut s = state();
    let m = Matcher::new(4, 5);
    s.insert_wrapper(&m, 10, "a".to_string());
    assert_eq!(s.remove_wrapper_by_user_id(&m, &10), Ok(()));
    assert!(!s.has_waiting_peer_connection_wrapper(&m));
    assert_eq!(
        s.remove_wrapper_by_user_id(&m, &10),
        Err("matcher has no wrappers".to_string())
    );
}

#[test]
fn removing_absent_user_keeps_the_line() {
    let mut s = state();
    let m = Matcher::new(4, 5);
    s.insert_wrapper(&m, 10, "a".to_string());
    assert_eq!(s.remove_wrapper_by_user_id(&m, &99), Ok(()));
    assert_eq!(s.get_waiting_user_id_from_wrappers(&m), Some(10));
}

#[test]
fn clearing_wrappers_keeps_waiting_users() {
    let mut s = state();
    let m = Matcher::new(4, 5);
    s.insert_wrapper(&m, 10, "a".to_string());
    s.insert_waiting_user(&m, &7, 70);
    s.clear_matcher_to_wrappers();
    assert!(!s.has_waiting_peer_connection_wrapper(&m));
    assert!(s.find_wrapper_by_user_id(&m, &10).is_none());
    assert!(s.has_waiting_user(&m));
}

#[test]
fn clearing_waiting_users_keeps_wrappers() {
    let mut s = state();
    let m = Matcher::new(4, 5);
    s.insert_wrapper(&m, 10, "a".to_string());
    s.insert_waiting_user(&m, &7, 70);
    s.clear_matcher_to_user_id();
    assert!(!s.has_waiting_user(&m));
    assert_eq!(s.get_waiting_user_id_from_wrappers(&m), Some(10));
}

#[test]
fn start_matching_waits_when_nobody_waits() {
    let s = state();
    assert_eq!(
        start_matching_action(&s, &Matcher::new(1, 1)),
        StartMatchingAction::WaitForOffer
    );
}

#[test]
fn start_matching_matches_with_the_waiting_user() {
    let mut s = state();
    let m = Matcher::new(1, 1);
    s.insert_waiting_user(&m, &42, 0);
    assert_eq!(start_matching_action(&s, &m), StartMatchingAction::Matched(42));
    assert_eq!(
        start_matching_action(&s, &Matcher::new(1, 2)),
        StartMatchingAction::WaitForOffer
    );
}
