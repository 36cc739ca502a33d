//! The verdict returned to the caller, and its spec-level model.

use vstd::prelude::*;

verus! {

/// The structured validation result: a status tag and the record fields of
/// the matched ledger line, when one was found.
pub struct UserInfo {
    pub status: String,
    pub user: String,
    pub device: String,
    pub expires: String,
    pub ip_bound: Option<String>,
}

/// The mathematical model of a [`UserInfo`]: the same fields as character
/// sequences.
pub ghost struct SpecVerdict {
    pub status: Seq<char>,
    pub user: Seq<char>,
    pub device: Seq<char>,
    pub expires: Seq<char>,
    pub ip_bound: Option<Seq<char>>,
}

impl View for UserInfo {
    type V = SpecVerdict;

    open spec fn view(&self) -> SpecVerdict {
        SpecVerdict {
            status: self.status@,
            user: self.user@,
            device: self.device@,
            expires: self.expires@,
            ip_bound: match self.ip_bound {
                Some(b) => Some(b@),
                None => None,
            },
        }
    }
}

/// The status of a record within expiry whose IP check passed or was absent.
pub open spec fn status_active() -> Seq<char> {
    "ACTIVE"@
}

/// The status of a record found but past its expiry date.
pub open spec fn status_expired() -> Seq<char> {
    "EXPIRED"@
}

/// The status of a blocklisted key, or of a record whose IP binding mismatches.
pub open spec fn status_blocked() -> Seq<char> {
    "BLOCKED"@
}

/// The status when the key is absent from the ledger or its record malformed.
pub open spec fn status_none() -> Seq<char> {
    "NONE"@
}

/// A verdict that carries a status and nothing else: empty fields, no binding.
pub open spec fn empty_verdict(status: Seq<char>) -> SpecVerdict {
    SpecVerdict {
        status,
        user: Seq::empty(),
        device: Seq::empty(),
        expires: Seq::empty(),
        ip_bound: None,
    }
}

} // verus!
