//! The validator's general laws, stated over the spec-level model and
//! proved once for all inputs.

use vstd::prelude::*;

use crate::dates::{ddmmyyyy_parse, spec_date_lt, spec_strip_dashes, Date};
use crate::text::spec_lines;
use crate::validate::{
    spec_blocked, spec_fields, spec_find_record, spec_record_verdict, spec_validate,
};
use crate::verdict::{empty_verdict, status_active, status_blocked, status_expired, status_none};

verus! {

/// Blocklist precedence: a blocklisted key yields `BLOCKED` with every other
/// field empty, whatever the ledger, the requester's IP or the date hold —
/// ledger contents never leak for a blocked key.
pub proof fn lemma_blocklist_precedence(
    key: Seq<char>,
    subs: Seq<char>,
    block: Seq<char>,
    req_ip: Seq<char>,
    today: Date,
)
    requires
        spec_blocked(block, key),
    ensures
        spec_validate(key, subs, block, req_ip, today) == empty_verdict(status_blocked()),
{
}

/// Unknown key: a key that is not blocklisted and matches no ledger line
/// yields `NONE` with every other field empty, whatever the requester's IP
/// or the date hold.
pub proof fn lemma_unknown_key(
    key: Seq<char>,
    subs: Seq<char>,
    block: Seq<char>,
    req_ip: Seq<char>,
    today: Date,
)
    requires
        !spec_blocked(block, key),
        spec_find_record(spec_lines(subs), key) is None,
    ensures
        spec_validate(key, subs, block, req_ip, today) == empty_verdict(status_none()),
{
}

/// Malformed record: a matched ledger line with fewer than four fields
/// yields `NONE`, exactly as an absent key does.
pub proof fn lemma_malformed_record(
    key: Seq<char>,
    subs: Seq<char>,
    block: Seq<char>,
    req_ip: Seq<char>,
    today: Date,
    line: Seq<char>,
)
    requires
        !spec_blocked(block, key),
        spec_find_record(spec_lines(subs), key) == Some(line),
        spec_fields(line).len() < 4,
    ensures
        spec_validate(key, subs, block, req_ip, today) == empty_verdict(status_none()),
{
}

/// When the key is not blocklisted and a ledger line matches it, the
/// verdict of the whole validation equals the verdict of that record.
pub proof fn lemma_found_record_verdict(
    key: Seq<char>,
    subs: Seq<char>,
    block: Seq<char>,
    req_ip: Seq<char>,
    today: Date,
    line: Seq<char>,
)
    requires
        !spec_blocked(block, key),
        spec_find_record(spec_lines(subs), key) == Some(line),
    ensures
        spec_validate(key, subs, block, req_ip, today) == spec_record_verdict(
            line,
            req_ip,
            today,
        ),
{
}

/// Expiry boundary: a record whose expiry parses to exactly `today` is not
/// expired, while one that parses to any strictly earlier date is.
pub proof fn lemma_expiry_boundary(
    line: Seq<char>,
    req_ip: Seq<char>,
    today: Date,
    d: (i32, u32, u32),
)
    requires
        spec_fields(line).len() >= 4,
        ddmmyyyy_parse(spec_strip_dashes(spec_fields(line)[2])) == Some(d),
    ensures
        d == today.triple() ==> spec_record_verdict(line, req_ip, today).status
            != status_expired(),
        spec_date_lt(d, today.triple()) ==> spec_record_verdict(line, req_ip, today).status
            == status_expired(),
{
    assert(status_active() != status_expired()) by {
        reveal_strlit("ACTIVE");
        reveal_strlit("EXPIRED");
        assert(status_active().len() != status_expired().len());
    }
    assert(status_blocked() != status_expired()) by {
        reveal_strlit("BLOCKED");
        reveal_strlit("EXPIRED");
        assert(status_blocked()[0] == 'B');
        assert(status_expired()[0] == 'E');
    }
}

/// No IP field: a well-formed, unexpired record of exactly four fields is
/// `ACTIVE` with no binding reported, whatever the requester's IP.
pub proof fn lemma_no_ip_field(line: Seq<char>, req_ip: Seq<char>, today: Date)
    requires
        spec_fields(line).len() == 4,
        !crate::dates::spec_expired(spec_fields(line)[2], today),
    ensures
        spec_record_verdict(line, req_ip, today).status == status_active(),
        spec_record_verdict(line, req_ip, today).ip_bound is None,
        spec_record_verdict(line, req_ip, today).user == spec_fields(line)[3],
        spec_record_verdict(line, req_ip, today).device == spec_fields(line)[1],
        spec_record_verdict(line, req_ip, today).expires == spec_fields(line)[2],
{
}

/// Expiry precedes the IP check: an expired record reports `EXPIRED` with no
/// binding, even when a binding is present and mismatches the requester.
pub proof fn lemma_expired_overrides_binding(line: Seq<char>, req_ip: Seq<char>, today: Date)
    requires
        spec_fields(line).len() >= 4,
        crate::dates::spec_expired(spec_fields(line)[2], today),
    ensures
        spec_record_verdict(line, req_ip, today).status == status_expired(),
        spec_record_verdict(line, req_ip, today).ip_bound is None,
{
}

/// Dash-stripping: two expiry strings that agree once their dashes are
/// removed parse to the same date.
pub proof fn lemma_dash_insensitive(s1: Seq<char>, s2: Seq<char>)
    requires
        spec_strip_dashes(s1) == spec_strip_dashes(s2),
    ensures
        ddmmyyyy_parse(spec_strip_dashes(s1)) == ddmmyyyy_parse(spec_strip_dashes(s2)),
{
}

/// Stripping dashes from a string that holds none leaves it unchanged, so a
/// separator-free expiry string parses as itself.
pub proof fn lemma_strip_dashes_dashless(s: Seq<char>)
    requires
        forall|j: int| 0 <= j < s.len() ==> s[j] != '-',
    ensures
        spec_strip_dashes(s) == s,
    decreases s.len(),
{
    if s.len() == 0 {
        assert(spec_strip_dashes(s) =~= s);
    } else {
        assert(forall|j: int| 0 <= j < s.drop_last().len() ==> s.drop_last()[j] == s[j]);
        lemma_strip_dashes_dashless(s.drop_last());
        assert(spec_strip_dashes(s) =~= s.drop_last() + seq![s[s.len() - 1]]);
        assert(s.drop_last() + seq![s[s.len() - 1]] =~= s);
    }
}

/// Idempotence: the verdict is a function of the key, the two texts, the
/// requester's IP and the evaluation date alone, so repeated calls on
/// identical inputs agree.
pub proof fn lemma_validate_deterministic(
    key: Seq<char>,
    subs: Seq<char>,
    block: Seq<char>,
    req_ip: Seq<char>,
    today: Date,
    r1: crate::verdict::SpecVerdict,
    r2: crate::verdict::SpecVerdict,
)
    requires
        r1 == spec_validate(key, subs, block, req_ip, today),
        r2 == spec_validate(key, subs, block, req_ip, today),
    ensures
        r1 == r2,
{
}

} // verus!
