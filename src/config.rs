//! The picker's configuration options and their values.
use crate::oracle::CaseMatching;
use vstd::prelude::*;
use vstd::string::*;

verus! {

/// The case matching policy that a value names, if it names one.
pub open spec fn case_setting(v: Seq<char>) -> Option<CaseMatching> {
    if v == "respect"@ {
        Some(CaseMatching::Respect)
    } else if v == "ignore"@ {
        Some(CaseMatching::Ignore)
    } else if v == "smart"@ {
        Some(CaseMatching::Smart)
    } else {
        None
    }
}

/// The boolean that a value names, if it names one.
pub open spec fn flag_setting(v: Seq<char>) -> Option<bool> {
    if v == "true"@ {
        Some(true)
    } else if v == "false"@ {
        Some(false)
    } else {
        None
    }
}

/// Whether two strings hold the same characters.
fn str_eq(a: &str, b: &str) -> (r: bool)
    ensures
        r == (a@ == b@),
{
    let n = a.unicode_len();
    if n != b.unicode_len() {
        return false;
    }
    let mut i: usize = 0;
    while i < n
        invariant
            i <= n,
            n == a@.len(),
            n == b@.len(),
            forall|j: int| 0 <= j < i ==> a@[j] == b@[j],
        decreases n - i,
    {
        if a.get_char(i) != b.get_char(i) {
            return false;
        }
        i = i + 1;
    }
    assert(a@ =~= b@);
    true
}

/// Reads a value of the case matching option.
pub fn parse_case_matching(v: &str) -> (r: Option<CaseMatching>)
    ensures
        r == case_setting(v@),
{
    if str_eq(v, "respect") {
        Some(CaseMatching::Respect)
    } else if str_eq(v, "ignore") {
        Some(CaseMatching::Ignore)
    } else if str_eq(v, "smart") {
        Some(CaseMatching::Smart)
    } else {
        None
    }
}

/// Reads a value of a boolean option.
pub fn parse_flag(v: &str) -> (r: Option<bool>)
    ensures
        r == flag_setting(v@),
{
    if str_eq(v, "true") {
        Some(true)
    } else if str_eq(v, "false") {
        Some(false)
    } else {
        None
    }
}

/// Whether an optional value of the case matching option is acceptable.
pub open spec fn case_ok(v: Option<&str>) -> bool {
    match v {
        Some(s) => case_setting(s@) is Some,
        None => true,
    }
}

/// Whether an optional value of a boolean option is acceptable.
pub open spec fn flag_ok(v: Option<&str>) -> bool {
    match v {
        Some(s) => flag_setting(s@) is Some,
        None => true,
    }
}

} // verus!
