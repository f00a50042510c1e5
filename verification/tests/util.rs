use liveness::util::{cbs_exist, gen_rand_str_with, get_now_secs};

#[test]
fn random_string_has_requested_length() {
    let s = gen_rand_str_with(16);
    assert_eq!(s.chars().count(), 16);
    let s = gen_rand_str_with(1);
    assert_eq!(s.chars().count(), 1);
}

#[test]
fn random_string_is_alphanumeric() {
    let s = gen_rand_str_with(64);
    for c in s.chars() {
        assert!(c.is_ascii_alphanumeric());
    }
}

#[test]
fn random_string_of_length_zero_is_empty() {
    assert_eq!(gen_rand_str_with(0), String::new());
}

#[test]
fn backup_wait_event_never_exists_here() {
    assert!(!cbs_exist());
}

#[test]
fn wall_clock_is_past_the_epoch() {
    let now = get_now_secs();
    assert!(now > 0);
    assert!(get_now_secs() >= now);
}
