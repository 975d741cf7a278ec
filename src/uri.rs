use vstd::prelude::*;
use vstd::string::StrSliceExecFns;
use vstd::string::StringExecFns;
use vstd::string::StringSliceAdditionalSpecFns;
use vstd::utf8::{decode_utf8, valid_utf8};

verus! {

/// The value of a hexadecimal digit, in either case.
pub open spec fn hex_value(c: u8) -> Option<u8> {
    if 48 <= c <= 57 {
        Some((c - 48) as u8)
    } else if 97 <= c <= 102 {
        Some((c - 87) as u8)
    } else if 65 <= c <= 70 {
        Some((c - 55) as u8)
    } else {
        None
    }
}

/// `b` with each `%` that two hexadecimal digits follow replaced by the byte
/// they give; every other byte is kept.
pub open spec fn percent_decoded(b: Seq<u8>) -> Seq<u8>
    decreases b.len(),
{
    if b.len() == 0 {
        b
    } else if b[0] == 37 && b.len() >= 3 && hex_value(b[1]) is Some && hex_value(b[2]) is Some {
        seq![(hex_value(b[1])->0 * 16 + hex_value(b[2])->0) as u8] + percent_decoded(b.skip(3))
    } else {
        seq![b[0]] + percent_decoded(b.skip(1))
    }
}

/// Relies on `percent_encoding::percent_decode_str` with `decode_utf8`: the
/// percent-decoded bytes of `s`, when they are UTF-8.
#[verifier::external_body]
fn percent_decode_text(s: &str) -> (r: Option<String>)
    ensures
        r is Some <==> valid_utf8(percent_decoded(s.spec_bytes())),
        r matches Some(t) ==> t@ == decode_utf8(percent_decoded(s.spec_bytes())),
{
    match percent_encoding::percent_decode_str(s).decode_utf8() {
        Ok(t) => Some(t.into_owned()),
        Err(_) => None,
    }
}

pub open spec fn file_scheme() -> Seq<char> {
    seq!['f', 'i', 'l', 'e', ':', '/', '/']
}

/// `s` without a leading `file://`.
pub open spec fn without_scheme(s: Seq<char>) -> Seq<char> {
    if s.len() >= 7 && s.take(7) == file_scheme() {
        s.skip(7)
    } else {
        s
    }
}

pub open spec fn is_space(c: char) -> bool {
    c == ' ' || c == '\t' || c == '\n' || c == '\r'
}

/// Index of the first character of `s` at or after `from` that is not a space.
pub open spec fn first_non_space(s: Seq<char>, from: int) -> int
    decreases s.len() - from,
{
    if from < 0 || from >= s.len() {
        s.len() as int
    } else if !is_space(s[from]) {
        from
    } else {
        first_non_space(s, from + 1)
    }
}

/// One past the last character of `s` before `to` that is not a space, or
/// `from` where there is none after `from`.
pub open spec fn end_non_space(s: Seq<char>, from: int, to: int) -> int
    decreases to - from,
{
    if to <= from || to > s.len() {
        from
    } else if !is_space(s[to - 1]) {
        to
    } else {
        end_non_space(s, from, to - 1)
    }
}

/// `s` without leading and trailing spaces, tabs and line breaks.
pub open spec fn trimmed(s: Seq<char>) -> Seq<char> {
    let a = first_non_space(s, 0);
    s.subrange(a, end_non_space(s, a, s.len() as int))
}

/// The local path that a dropped item names: its text percent-decoded, with
/// no `file://` in front and no spaces around. `None` where the decoded text
/// is not UTF-8.
pub open spec fn dropped_path(s: &str) -> Option<Seq<char>> {
    if valid_utf8(percent_decoded(s.spec_bytes())) {
        Some(trimmed(without_scheme(decode_utf8(percent_decoded(s.spec_bytes())))))
    } else {
        None
    }
}

fn space_at(s: &str, i: usize) -> (r: bool)
    requires
        i < s@.len(),
    ensures
        r == is_space(s@[i as int]),
{
    let c = s.get_char(i);
    c == ' ' || c == '\t' || c == '\n' || c == '\r'
}

/// The local path that a dropped item's text names.
pub fn clean_filename(path: &str) -> (r: Option<String>)
    ensures
        match r {
            Some(p) => dropped_path(path) == Some(p@),
            None => dropped_path(path) is None,
        },
{
    let decoded = match percent_decode_text(path) {
        Some(t) => t,
        None => return None,
    };
    let s = decoded.as_str();
    let n = s.unicode_len();
    let mut start: usize = 0;
    let scheme = "file://";
    proof {
        reveal_strlit("file://");
        assert(scheme@ =~= file_scheme());
    }
    if n >= 7 {
        let head = String::from_str(s.substring_char(0, 7));
        assert(s@.subrange(0, 7) =~= s@.take(7));
        if head == String::from_str(scheme) {
            start = 7;
        }
    }
    let ghost body = without_scheme(s@);
    assert(body == s@.skip(start as int)) by {
        if start == 0 {
            assert(s@.skip(0) =~= s@);
        }
        if n >= 7 && s@.take(7) == file_scheme() {
            assert(start == 7);
        }
    }
    let mut a: usize = start;
    while a < n && space_at(s, a)
        invariant
            start <= a <= n,
            n == s@.len(),
            body == s@.skip(start as int),
            first_non_space(body, (a - start) as int) == first_non_space(body, 0),
        decreases n - a,
    {
        assert(body[a - start] == s@[a as int]);
        a = a + 1;
    }
    proof {
        if a < n {
            assert(body[a - start] == s@[a as int]);
        }
    }
    let mut b: usize = n;
    while b > a && space_at(s, b - 1)
        invariant
            start <= a <= b <= n,
            n == s@.len(),
            body == s@.skip(start as int),
            first_non_space(body, 0) == a - start,
            end_non_space(body, (a - start) as int, (b - start) as int) == end_non_space(body, (a - start) as int, body.len() as int),
        decreases b - a,
    {
        assert(body[b - 1 - start] == s@[b - 1]);
        b = b - 1;
    }
    proof {
        if b > a {
            assert(body[b - 1 - start] == s@[b - 1]);
        }
    }
    let out = String::from_str(s.substring_char(a, b));
    assert(out@ =~= trimmed(body));
    Some(out)
}

} // verus!
