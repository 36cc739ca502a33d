use rust_validator::dates::Date;
use rust_validator::validate::{validate_at, validate_user};
use rust_validator::verdict::UserInfo;

fn run(key: &str, subs: &str, block: &str, ip: &str, today: Date) -> UserInfo {
    validate_at(
        key.to_string(),
        subs.to_string(),
        block.to_string(),
        ip.to_string(),
        "agent".to_string(),
        today,
    )
}

fn d(year: i32, month: u32, day: u32) -> Date {
    Date { year, month, day }
}

#[test]
fn blocklist_precedence_hides_ledger() {
    let r = run(
        "k1",
        "k1|dev1|01-01-2099|alice|1.2.3.4",
        "k1\nother",
        "1.2.3.4",
        d(2026, 10, 11),
    );
    assert_eq!(r.status, "BLOCKED");
    assert_eq!(r.user, "");
    assert_eq!(r.device, "");
    assert_eq!(r.expires, "");
    assert_eq!(r.ip_bound, None);
}

#[test]
fn blocklist_lines_are_trimmed() {
    let r = run("k1", "k1|dev1|01-01-2099|alice", "  k1  \nother", "", d(2026, 1, 1));
    assert_eq!(r.status, "BLOCKED");
    assert_eq!(r.user, "");
}

#[test]
fn unknown_key_is_none() {
    let r = run(
        "missing",
        "k1|dev1|01-01-2099|alice",
        "other",
        "9.9.9.9",
        d(2026, 10, 11),
    );
    assert_eq!(r.status, "NONE");
    assert_eq!(r.user, "");
    assert_eq!(r.device, "");
    assert_eq!(r.expires, "");
    assert_eq!(r.ip_bound, None);
}

#[test]
fn empty_inputs_are_none() {
    let r = run("k", "", "", "", d(2026, 1, 1));
    assert_eq!(r.status, "NONE");
}

#[test]
fn blank_blocklist_line_blocks_empty_key() {
    let r = run("", "", "\n", "", d(2026, 1, 1));
    assert_eq!(r.status, "BLOCKED");
}

#[test]
fn malformed_record_is_none() {
    let r = run("k1", "k1|dev1|01-01-2099", "", "", d(2026, 1, 1));
    assert_eq!(r.status, "NONE");
    assert_eq!(r.user, "");
    assert_eq!(r.expires, "");
}

#[test]
fn expiry_on_today_is_active() {
    let r = run("k1", "k1|dev1|01-01-2099|alice", "", "", d(2099, 1, 1));
    assert_eq!(r.status, "ACTIVE");
    assert_eq!(r.user, "alice");
    assert_eq!(r.device, "dev1");
    assert_eq!(r.expires, "01-01-2099");
}

#[test]
fn expiry_on_day_before_today_is_expired() {
    let r = run("k1", "k1|dev1|31-12-2098|alice", "", "", d(2099, 1, 1));
    assert_eq!(r.status, "EXPIRED");
    assert_eq!(r.user, "alice");
    assert_eq!(r.device, "dev1");
    assert_eq!(r.expires, "31-12-2098");
    assert_eq!(r.ip_bound, None);
}

#[test]
fn day_after_expiry_is_expired() {
    let r = run("k1", "k1|dev1|01-01-2099|alice", "", "", d(2099, 1, 2));
    assert_eq!(r.status, "EXPIRED");
}

#[test]
fn ip_binding_match_is_active() {
    let r = run(
        "k1",
        "k1|dev1|01-01-2099|alice|1.2.3.4",
        "",
        "1.2.3.4",
        d(2026, 10, 11),
    );
    assert_eq!(r.status, "ACTIVE");
    assert_eq!(r.user, "alice");
    assert_eq!(r.ip_bound, Some("1.2.3.4".to_string()));
}

#[test]
fn ip_binding_mismatch_is_blocked() {
    let r = run(
        "k1",
        "k1|dev1|01-01-2099|alice|1.2.3.4",
        "",
        "9.9.9.9",
        d(2026, 10, 11),
    );
    assert_eq!(r.status, "BLOCKED");
    assert_eq!(r.user, "alice");
    assert_eq!(r.device, "dev1");
    assert_eq!(r.expires, "01-01-2099");
    assert_eq!(r.ip_bound, Some("1.2.3.4".to_string()));
}

#[test]
fn no_ip_field_is_active_for_any_ip() {
    for ip in ["", "1.2.3.4", "9.9.9.9"] {
        let r = run("k2", "k2|dev2|01-01-2099|bob", "", ip, d(2026, 10, 11));
        assert_eq!(r.status, "ACTIVE");
        assert_eq!(r.user, "bob");
        assert_eq!(r.device, "dev2");
        assert_eq!(r.ip_bound, None);
    }
}

#[test]
fn empty_ip_field_is_not_enforced() {
    let r = run("k1", "k1|dev1|01-01-2099|alice|", "", "9.9.9.9", d(2026, 1, 1));
    assert_eq!(r.status, "ACTIVE");
    assert_eq!(r.ip_bound, Some("".to_string()));
}

#[test]
fn expired_record_ignores_binding() {
    let r = run(
        "k1",
        "k1|dev1|01-01-2000|alice|1.2.3.4",
        "",
        "9.9.9.9",
        d(2026, 10, 11),
    );
    assert_eq!(r.status, "EXPIRED");
    assert_eq!(r.user, "alice");
    assert_eq!(r.ip_bound, None);
}

#[test]
fn dash_stripping_parses_identically() {
    let with_dashes = run("k1", "k1|dev1|01-01-2099|alice", "", "", d(2099, 1, 2));
    let without = run("k1", "k1|dev1|01012099|alice", "", "", d(2099, 1, 2));
    assert_eq!(with_dashes.status, "EXPIRED");
    assert_eq!(without.status, "EXPIRED");
    let with_dashes = run("k1", "k1|dev1|01-01-2099|alice", "", "", d(2099, 1, 1));
    let without = run("k1", "k1|dev1|01012099|alice", "", "", d(2099, 1, 1));
    assert_eq!(with_dashes.status, "ACTIVE");
    assert_eq!(without.status, "ACTIVE");
}

#[test]
fn unparseable_expiry_is_not_expired() {
    let r = run("k1", "k1|dev1|notadate|alice", "", "", d(2026, 10, 11));
    assert_eq!(r.status, "ACTIVE");
    assert_eq!(r.expires, "notadate");
}

#[test]
fn repeated_calls_agree() {
    let a = run(
        "k1",
        "k1|dev1|01-01-2099|alice|1.2.3.4",
        "b1\nb2",
        "9.9.9.9",
        d(2026, 10, 11),
    );
    let b = run(
        "k1",
        "k1|dev1|01-01-2099|alice|1.2.3.4",
        "b1\nb2",
        "9.9.9.9",
        d(2026, 10, 11),
    );
    assert_eq!(a.status, b.status);
    assert_eq!(a.user, b.user);
    assert_eq!(a.device, b.device);
    assert_eq!(a.expires, b.expires);
    assert_eq!(a.ip_bound, b.ip_bound);
}

#[test]
fn key_prefix_of_longer_key_does_not_match() {
    let r = run("abc", "abc123|dev|01-01-2099|u", "", "", d(2026, 1, 1));
    assert_eq!(r.status, "NONE");
}

#[test]
fn first_matching_line_wins() {
    let subs = "other|d0|01-01-2099|x\nk1|dev1|01-01-2099|alice\nk1|dev2|01-01-2000|bob";
    let r = run("k1", subs, "", "", d(2026, 1, 1));
    assert_eq!(r.status, "ACTIVE");
    assert_eq!(r.user, "alice");
    assert_eq!(r.device, "dev1");
}

#[test]
fn crlf_line_endings_are_handled() {
    let subs = "other|d0|01-01-2099|x\r\nk1|dev1|01-01-2099|alice\r\n";
    let r = run("k1", subs, "", "", d(2026, 1, 1));
    assert_eq!(r.status, "ACTIVE");
    assert_eq!(r.user, "alice");
}

#[test]
fn fields_are_trimmed() {
    let r = run("k1", "k1| dev1 | 01-01-2099 | alice | 1.2.3.4 ", "", "1.2.3.4", d(2026, 1, 1));
    assert_eq!(r.status, "ACTIVE");
    assert_eq!(r.user, "alice");
    assert_eq!(r.device, "dev1");
    assert_eq!(r.expires, "01-01-2099");
    assert_eq!(r.ip_bound, Some("1.2.3.4".to_string()));
}

#[test]
fn extra_fields_keep_the_fifth_as_binding() {
    let r = run(
        "k1",
        "k1|dev1|01-01-2099|alice|1.2.3.4|extra",
        "",
        "9.9.9.9",
        d(2026, 1, 1),
    );
    assert_eq!(r.status, "BLOCKED");
    assert_eq!(r.ip_bound, Some("1.2.3.4".to_string()));
}

#[test]
fn validate_user_far_future_expiry_is_active() {
    let r = validate_user(
        "k1".to_string(),
        "k1|dev1|01-01-2999|alice".to_string(),
        "".to_string(),
        "1.2.3.4".to_string(),
        "agent".to_string(),
    );
    assert_eq!(r.status, "ACTIVE");
    assert_eq!(r.user, "alice");
}

#[test]
fn validate_user_long_past_expiry_is_expired() {
    let r = validate_user(
        "k1".to_string(),
        "k1|dev1|01-01-2000|alice".to_string(),
        "".to_string(),
        "".to_string(),
        "agent".to_string(),
    );
    assert_eq!(r.status, "EXPIRED");
}

#[test]
fn validate_user_blocked_key() {
    let r = validate_user(
        "k1".to_string(),
        "k1|dev1|01-01-2999|alice".to_string(),
        "k1".to_string(),
        "".to_string(),
        "agent".to_string(),
    );
    assert_eq!(r.status, "BLOCKED");
    assert_eq!(r.user, "");
}

#[test]
fn user_agent_plays_no_part() {
    let subs = "k1|dev1|01-01-2099|alice";
    let a = validate_at(
        "k1".to_string(),
        subs.to_string(),
        "".to_string(),
        "".to_string(),
        "agent-one".to_string(),
        d(2026, 1, 1),
    );
    let b = validate_at(
        "k1".to_string(),
        subs.to_string(),
        "".to_string(),
        "".to_string(),
        "agent-two".to_string(),
        d(2026, 1, 1),
    );
    assert_eq!(a.status, b.status);
    assert_eq!(a.user, b.user);
}
