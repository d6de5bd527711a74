//! The diagnostic response body: a JSON object with the fixed `message`
//! and `status` members and the request-time `timestamp` member.

use crate::rfc3339::{
    date_tail_ok, frac_len, is_digit, is_rfc3339, leading_digits, offset_ok, time_ok, year_len,
    year_sign_len,
};
use vstd::prelude::*;

verus! {

/// The fixed `message` member of every diagnostic response.
pub open spec fn message_text() -> Seq<char> {
    "Test endpoint is working!"@
}

/// The fixed `status` member of every diagnostic response.
pub open spec fn status_text() -> Seq<char> {
    "success"@
}

/// A JSON string literal around `v`; faithful only where `v` is
/// `json_safe`, which every RFC 3339 date-time is.
pub open spec fn json_string(v: Seq<char>) -> Seq<char> {
    seq!['"'] + v + seq!['"']
}

/// A JSON object member `"k":"v"`.
pub open spec fn json_member(k: Seq<char>, v: Seq<char>) -> Seq<char> {
    json_string(k) + seq![':'] + json_string(v)
}

/// The serialized response body for the timestamp `ts`: a JSON object
/// holding exactly the members `message`, `status` and `timestamp`.
pub open spec fn test_body(ts: Seq<char>) -> Seq<char> {
    seq!['{'] + json_member("message"@, message_text()) + seq![','] + json_member(
        "status"@,
        status_text(),
    ) + seq![','] + json_member("timestamp"@, ts) + seq!['}']
}

/// `s` can stand between the quotes of a JSON string as it is: it holds
/// no quote, no backslash and no control character.
pub open spec fn json_safe(s: Seq<char>) -> bool {
    forall|i: int| 0 <= i < s.len() ==> s[i] != '"' && s[i] != '\\' && s[i] as int >= 32
}

/// Every position counted by `leading_digits` holds a digit.
proof fn lemma_leading_digits_are_digits(s: Seq<char>, i: int)
    requires
        0 <= i,
    ensures
        forall|k: int| i <= k < i + leading_digits(s, i) ==> is_digit(s[k]),
    decreases s.len() - i,
{
    if i < s.len() && is_digit(s[i]) {
        lemma_leading_digits_are_digits(s, i + 1);
    }
}

/// An RFC 3339 date-time consists of digits and the punctuation
/// `+ - : . T Z` alone, so it is safe inside a JSON string.
pub proof fn lemma_rfc3339_json_safe(s: Seq<char>)
    requires
        is_rfc3339(s),
    ensures
        json_safe(s),
{
    let p = year_len(s);
    let q = p + 15;
    let z = q + frac_len(s, q);
    lemma_leading_digits_are_digits(s, year_sign_len(s));
    lemma_leading_digits_are_digits(s, q + 1);
    assert forall|i: int| 0 <= i < s.len() implies s[i] != '"' && s[i] != '\\' && s[i] as int
        >= 32 by {
        if i < p {
            // The year: an optional sign, then digits.
            assert(i == 0 && year_sign_len(s) == 1 || is_digit(s[i]));
        } else if i < q {
            // The date tail and the time of day: a fixed pattern of
            // digits and punctuation.
            assert(date_tail_ok(s, p) && time_ok(s, p));
            assert(i == p || i == p + 3 || i == p + 6 || i == p + 9 || i == p + 12 || is_digit(
                s[i],
            ));
        } else if i < z {
            // The fractional seconds: a dot, then digits.
            assert(s[q] == '.');
            assert(i == q || is_digit(s[i]));
        } else {
            // The offset: `Z`, or a signed `hh:mm`.
            assert(offset_ok(s, z));
            assert(i == z || i == z + 3 || is_digit(s[i]));
        }
    }
}

/// Builds the response body for the timestamp `ts`, exactly as
/// `test_body` states it.
pub fn build_test_body(ts: &str) -> (b: String)
    ensures
        b@ == test_body(ts@),
{
    let mut b = String::from_str(
        "{\"message\":\"Test endpoint is working!\",\"status\":\"success\",\"timestamp\":\"",
    );
    b.append(ts);
    b.append("\"}");
    proof {
        reveal_strlit(
            "{\"message\":\"Test endpoint is working!\",\"status\":\"success\",\"timestamp\":\"",
        );
        reveal_strlit("\"}");
        reveal_strlit("message");
        reveal_strlit("status");
        reveal_strlit("timestamp");
        reveal_strlit("Test endpoint is working!");
        reveal_strlit("success");
        assert(b@ =~= test_body(ts@));
    }
    b
}

/// Two response bodies are equal exactly where their timestamps are: the
/// fixed members never tell two responses apart.
pub proof fn lemma_body_equal_iff_timestamp_equal(ts1: Seq<char>, ts2: Seq<char>)
    ensures
        test_body(ts1) == test_body(ts2) <==> ts1 == ts2,
{
    if test_body(ts1) == test_body(ts2) {
        let b1 = test_body(ts1);
        let b2 = test_body(ts2);
        assert(b1.len() == b2.len());
        assert(ts1.len() == ts2.len());
        let pre = seq!['{'] + json_member("message"@, message_text()) + seq![','] + json_member(
            "status"@,
            status_text(),
        ) + seq![','] + json_string("timestamp"@) + seq![':'] + seq!['"'];
        assert forall|i: int| 0 <= i < ts1.len() implies ts1[i] == ts2[i] by {
            assert(b1[pre.len() + i] == ts1[i]);
            assert(b2[pre.len() + i] == ts2[i]);
        }
        assert(ts1 =~= ts2);
    }
}

} // verus!
