//! The validator: blocklist check, ledger lookup, field parsing, expiry
//! evaluation and IP-binding enforcement, in that order, each step
//! short-circuiting to a terminal verdict.

use vstd::prelude::*;

use crate::dates::{current_date, date_fields_in_range, is_expired, spec_expired, Date};
use crate::text::{
    line_has_key, line_matches, lines_of, spec_lines, spec_split, spec_trim, split_fields, str_eq,
    trim,
};
use crate::verdict::{
    empty_verdict, status_active, status_blocked, status_expired, status_none, SpecVerdict,
    UserInfo,
};

verus! {

/// Is `key` on the blocklist: equal, untrimmed, to some trimmed line of it?
pub open spec fn spec_blocked(block: Seq<char>, key: Seq<char>) -> bool {
    exists|i: int|
        0 <= i < spec_lines(block).len() && spec_trim(#[trigger] spec_lines(block)[i]) == key
}

/// The first ledger line that begins with `key` followed by `|`, if any.
pub open spec fn spec_find_record(lines: Seq<Seq<char>>, key: Seq<char>) -> Option<Seq<char>>
    decreases lines.len(),
{
    if lines.len() == 0 {
        None
    } else if line_matches(lines[0], key) {
        Some(lines[0])
    } else {
        spec_find_record(lines.drop_first(), key)
    }
}

/// When `lines[i]` is the first match, the lookup returns it.
pub proof fn lemma_find_record_at(lines: Seq<Seq<char>>, key: Seq<char>, i: int)
    requires
        0 <= i < lines.len(),
        line_matches(lines[i], key),
        forall|j: int| 0 <= j < i ==> !line_matches(#[trigger] lines[j], key),
    ensures
        spec_find_record(lines, key) == Some(lines[i]),
    decreases i,
{
    if i > 0 {
        assert(forall|j: int| 0 <= j < i - 1 ==> lines.drop_first()[j] == lines[j + 1]);
        lemma_find_record_at(lines.drop_first(), key, i - 1);
    }
}

/// When no line matches, the lookup returns nothing.
pub proof fn lemma_find_record_none(lines: Seq<Seq<char>>, key: Seq<char>)
    requires
        forall|j: int| 0 <= j < lines.len() ==> !line_matches(#[trigger] lines[j], key),
    ensures
        spec_find_record(lines, key) is None,
    decreases lines.len(),
{
    if lines.len() > 0 {
        assert(forall|j: int|
            0 <= j < lines.drop_first().len() ==> lines.drop_first()[j] == lines[j + 1]);
        lemma_find_record_none(lines.drop_first(), key);
    }
}

/// The `|`-separated fields of a ledger line, each trimmed of whitespace.
pub open spec fn spec_fields(line: Seq<char>) -> Seq<Seq<char>> {
    spec_split(line, '|').map_values(|f: Seq<char>| spec_trim(f))
}

/// The verdict for the matched ledger line `line`: reject a line of fewer
/// than four fields, then judge expiry, then the optional IP binding.
pub open spec fn spec_record_verdict(line: Seq<char>, req_ip: Seq<char>, today: Date) -> SpecVerdict {
    let fields = spec_fields(line);
    if fields.len() < 4 {
        empty_verdict(status_none())
    } else if spec_expired(fields[2], today) {
        SpecVerdict {
            status: status_expired(),
            user: fields[3],
            device: fields[1],
            expires: fields[2],
            ip_bound: None,
        }
    } else if fields.len() >= 5 && fields[4].len() > 0 && fields[4] != req_ip {
        SpecVerdict {
            status: status_blocked(),
            user: fields[3],
            device: fields[1],
            expires: fields[2],
            ip_bound: Some(fields[4]),
        }
    } else {
        SpecVerdict {
            status: status_active(),
            user: fields[3],
            device: fields[1],
            expires: fields[2],
            ip_bound: if fields.len() >= 5 {
                Some(fields[4])
            } else {
                None
            },
        }
    }
}

/// The verdict for `key` against the ledger `subs`, the blocklist `block`
/// and the requester's IP, judged on the date `today`.
pub open spec fn spec_validate(
    key: Seq<char>,
    subs: Seq<char>,
    block: Seq<char>,
    req_ip: Seq<char>,
    today: Date,
) -> SpecVerdict {
    if spec_blocked(block, key) {
        empty_verdict(status_blocked())
    } else {
        match spec_find_record(spec_lines(subs), key) {
            Some(line) => spec_record_verdict(line, req_ip, today),
            None => empty_verdict(status_none()),
        }
    }
}

/// Decide blocklist membership of `key` in the blocklist text `block_raw`.
pub fn is_blocked(block_raw: &str, key: &str) -> (r: bool)
    ensures
        r == spec_blocked(block_raw@, key@),
{
    let lines = lines_of(block_raw);
    let mut i: usize = 0;
    while i < lines.len()
        invariant
            lines.deep_view() == spec_lines(block_raw@),
            0 <= i <= lines.len(),
            forall|j: int| 0 <= j < i ==> spec_trim(#[trigger] lines.deep_view()[j]) != key@,
        decreases lines.len() - i,
    {
        proof {
            assert(lines.deep_view()[i as int] == lines@[i as int]@);
        }
        let t = trim(lines[i].as_str());
        if str_eq(t, key) {
            return true;
        }
        i = i + 1;
    }
    false
}

/// Find the index of the first ledger line that matches `key`.
fn find_record_idx(lines: &Vec<String>, key: &str) -> (r: Option<usize>)
    ensures
        match r {
            Some(i) => i < lines.len() && spec_find_record(lines.deep_view(), key@) == Some(
                lines.deep_view()[i as int],
            ),
            None => spec_find_record(lines.deep_view(), key@) is None,
        },
{
    let mut i: usize = 0;
    while i < lines.len()
        invariant
            0 <= i <= lines.len(),
            forall|j: int|
                0 <= j < i ==> !line_matches(#[trigger] lines.deep_view()[j], key@),
        decreases lines.len() - i,
    {
        proof {
            assert(lines.deep_view()[i as int] == lines@[i as int]@);
        }
        if line_has_key(lines[i].as_str(), key) {
            proof {
                lemma_find_record_at(lines.deep_view(), key@, i as int);
            }
            return Some(i);
        }
        i = i + 1;
    }
    proof {
        lemma_find_record_none(lines.deep_view(), key@);
    }
    None
}

/// Validate `key` on the fixed evaluation date `today`. The verdict is
/// exactly the one the spec-level model assigns; `user_agent` is accepted
/// for interface compatibility and plays no part in the decision.
#[allow(unused_variables)]
pub fn validate_at(
    key: String,
    subs_raw: String,
    block_raw: String,
    req_ip: String,
    user_agent: String,
    today: Date,
) -> (r: UserInfo)
    ensures
        r@ == spec_validate(key@, subs_raw@, block_raw@, req_ip@, today),
{
    if is_blocked(block_raw.as_str(), key.as_str()) {
        return UserInfo {
            status: String::from_str("BLOCKED"),
            user: String::new(),
            device: String::new(),
            expires: String::new(),
            ip_bound: None,
        };
    }
    let lines = lines_of(subs_raw.as_str());
    let idx = match find_record_idx(&lines, key.as_str()) {
        Some(i) => i,
        None => {
            return UserInfo {
                status: String::from_str("NONE"),
                user: String::new(),
                device: String::new(),
                expires: String::new(),
                ip_bound: None,
            };
        },
    };
    let line = &lines[idx];
    proof {
        assert(lines.deep_view()[idx as int] == lines@[idx as int]@);
    }
    let parts = split_fields(line.as_str(), '|');
    let mut fields: Vec<String> = Vec::new();
    let mut k: usize = 0;
    while k < parts.len()
        invariant
            parts.deep_view() == spec_split(line@, '|'),
            0 <= k <= parts.len(),
            fields.len() == k,
            forall|j: int|
                0 <= j < k ==> #[trigger] fields.deep_view()[j] == spec_trim(
                    parts.deep_view()[j],
                ),
        decreases parts.len() - k,
    {
        proof {
            assert(parts.deep_view()[k as int] == parts@[k as int]@);
        }
        let t = String::from_str(trim(parts[k].as_str()));
        let ghost pre = fields.deep_view();
        fields.push(t);
        proof {
            assert(fields.deep_view() =~= pre.push(t@));
        }
        k = k + 1;
    }
    proof {
        assert(fields.deep_view() =~= spec_fields(line@));
    }
    if fields.len() < 4 {
        return UserInfo {
            status: String::from_str("NONE"),
            user: String::new(),
            device: String::new(),
            expires: String::new(),
            ip_bound: None,
        };
    }
    proof {
        assert(fields.deep_view()[2] == fields@[2]@);
        assert(fields.deep_view()[1] == fields@[1]@);
        assert(fields.deep_view()[3] == fields@[3]@);
    }
    if is_expired(fields[2].as_str(), today) {
        return UserInfo {
            status: String::from_str("EXPIRED"),
            user: fields[3].clone(),
            device: fields[1].clone(),
            expires: fields[2].clone(),
            ip_bound: None,
        };
    }
    if fields.len() >= 5 {
        proof {
            assert(fields.deep_view()[4] == fields@[4]@);
        }
        let ipb = &fields[4];
        if ipb.as_str().unicode_len() > 0 && !str_eq(ipb.as_str(), req_ip.as_str()) {
            return UserInfo {
                status: String::from_str("BLOCKED"),
                user: fields[3].clone(),
                device: fields[1].clone(),
                expires: fields[2].clone(),
                ip_bound: Some(ipb.clone()),
            };
        }
        UserInfo {
            status: String::from_str("ACTIVE"),
            user: fields[3].clone(),
            device: fields[1].clone(),
            expires: fields[2].clone(),
            ip_bound: Some(fields[4].clone()),
        }
    } else {
        UserInfo {
            status: String::from_str("ACTIVE"),
            user: fields[3].clone(),
            device: fields[1].clone(),
            expires: fields[2].clone(),
            ip_bound: None,
        }
    }
}

/// Validate `key` on the current UTC date, as the host boundary does. The
/// verdict is the spec-level one for some calendar-range evaluation date:
/// nothing more can be promised of a clock read.
pub fn validate_user(
    key: String,
    subs_raw: String,
    block_raw: String,
    req_ip: String,
    user_agent: String,
) -> (r: UserInfo)
    ensures
        exists|today: Date|
            date_fields_in_range(today) && r@ == #[trigger] spec_validate(
                key@,
                subs_raw@,
                block_raw@,
                req_ip@,
                today,
            ),
{
    let today = current_date();
    let ghost k = key@;
    let ghost s = subs_raw@;
    let ghost b = block_raw@;
    let ghost ip = req_ip@;
    let r = validate_at(key, subs_raw, block_raw, req_ip, user_agent, today);
    proof {
        assert(date_fields_in_range(today) && r@ == spec_validate(k, s, b, ip, today));
    }
    r
}

} // verus!
