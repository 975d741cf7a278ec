use vstd::prelude::*;
use vstd::utf8::{decode_utf8, encode_utf8, valid_utf8};
use vstd::string::StrSliceExecFns;
use vstd::string::StringExecFns;
use vstd::string::StringSliceAdditionalSpecFns;

use crate::peer::{os_code, transfer_type_code, OperatingSystem, TransferType};

verus! {

/// Largest payload, in bytes, that a receiver takes on: 16 GiB.
pub const MAX_PAYLOAD_SIZE: u64 = 17179869184;

pub const NEWLINE: u8 = 10;

/// Why a record could not be read.
#[derive(Debug, Clone, Copy, PartialEq, Eq, Structural)]
pub enum WireError {
    /// The bytes end before the record does.
    Incomplete,
    /// The size field is not a non-negative decimal integer.
    InvalidSize,
    /// The size field exceeds the largest payload taken on.
    SizeTooLarge,
    /// A text field is not UTF-8.
    InvalidUtf8,
    /// The transfer-type byte is outside the enumeration.
    InvalidTransferType,
    /// The answer byte is neither 0 nor 1.
    InvalidAnswer,
    /// The operating-system byte is outside the enumeration.
    InvalidOs,
}

// ---------------------------------------------------------------- lines

pub open spec fn no_newline(s: Seq<u8>) -> bool {
    forall|i: int| 0 <= i < s.len() ==> s[i] != NEWLINE
}

/// `s` followed by a newline.
pub open spec fn row(s: Seq<u8>) -> Seq<u8> {
    s.push(NEWLINE)
}

/// Index of the first newline at or after `from`, or `-1` when there is none.
pub open spec fn find_newline(b: Seq<u8>, from: int) -> int
    decreases b.len() - from,
{
    if from < 0 || from >= b.len() {
        -1
    } else if b[from] == NEWLINE {
        from
    } else {
        find_newline(b, from + 1)
    }
}

/// The first line of `b` (without its newline) and what follows it; `None`
/// when `b` holds no newline.
pub open spec fn split_line(b: Seq<u8>) -> Option<(Seq<u8>, Seq<u8>)> {
    let k = find_newline(b, 0);
    if k < 0 {
        None
    } else {
        Some((b.take(k), b.skip(k + 1)))
    }
}

pub open spec fn is_blank(c: u8) -> bool {
    c == 32 || c == 9 || c == 13
}

/// `s` without trailing spaces, tabs and carriage returns.
pub open spec fn trim_end(s: Seq<u8>) -> Seq<u8>
    decreases s.len(),
{
    if s.len() > 0 && is_blank(s.last()) {
        trim_end(s.drop_last())
    } else {
        s
    }
}

/// A text field that the line format carries unchanged: no newline, no
/// trailing blank.
pub open spec fn line_safe(s: Seq<char>) -> bool {
    no_newline(encode_utf8(s)) && trim_end(encode_utf8(s)) == encode_utf8(s)
}

proof fn lemma_find_newline_after(a: Seq<u8>, r: Seq<u8>, from: int)
    requires
        no_newline(a),
        0 <= from <= a.len(),
    ensures
        find_newline(row(a) + r, from) == a.len(),
    decreases a.len() - from,
{
    let b = row(a) + r;
    assert(b[a.len() as int] == NEWLINE);
    if from < a.len() {
        assert(b[from] == a[from]);
        lemma_find_newline_after(a, r, from + 1);
    }
}

/// A row followed by anything splits back into the row's text and the rest.
pub proof fn lemma_split_row(a: Seq<u8>, r: Seq<u8>)
    requires
        no_newline(a),
    ensures
        split_line(row(a) + r) == Some((a, r)),
{
    lemma_find_newline_after(a, r, 0);
    assert((row(a) + r).take(a.len() as int) =~= a);
    assert((row(a) + r).skip(a.len() as int + 1) =~= r);
}

proof fn lemma_find_newline_facts(b: Seq<u8>, from: int)
    requires
        0 <= from,
    ensures
        find_newline(b, from) == -1 || (from <= find_newline(b, from) < b.len() && b[find_newline(b, from)] == NEWLINE),
        find_newline(b, from) == -1 ==> forall|i: int| from <= i < b.len() ==> b[i] != NEWLINE,
        find_newline(b, from) != -1 ==> forall|i: int| from <= i < find_newline(b, from) ==> b[i] != NEWLINE,
    decreases b.len() - from,
{
    if from < b.len() && b[from] != NEWLINE {
        lemma_find_newline_facts(b, from + 1);
    }
}

/// Index of the first newline in `b` at or after `from`, if any.
fn find_newline_exec(b: &[u8], from: usize) -> (r: Option<usize>)
    ensures
        match r {
            Some(k) => k as int == find_newline(b@, from as int),
            None => find_newline(b@, from as int) == -1,
        },
    decreases b@.len() - from,
{
    if from >= b.len() {
        None
    } else if b[from] == NEWLINE {
        Some(from)
    } else {
        find_newline_exec(b, from + 1)
    }
}

/// The length of `b[start..end]` once trailing blanks are dropped.
fn trimmed_end(b: &[u8], start: usize, end: usize) -> (r: usize)
    requires
        start <= end <= b@.len(),
    ensures
        start <= r <= end,
        b@.subrange(start as int, r as int) == trim_end(b@.subrange(start as int, end as int)),
    decreases end - start,
{
    if end > start && (b[end - 1] == 32 || b[end - 1] == 9 || b[end - 1] == 13) {
        assert(b@.subrange(start as int, end as int).drop_last() =~= b@.subrange(start as int, end - 1));
        trimmed_end(b, start, end - 1)
    } else {
        end
    }
}

/// `value` as a row: its UTF-8 bytes followed by a newline.
pub fn add_row(value: &str) -> (r: Vec<u8>)
    ensures
        r@ == row(value.spec_bytes()),
{
    let mut v = vstd::slice::slice_to_vec(value.as_bytes());
    v.push(NEWLINE);
    v
}

// ---------------------------------------------------------------- decimal

pub open spec fn is_digit(c: u8) -> bool {
    48 <= c <= 57
}

pub open spec fn all_digits(s: Seq<u8>) -> bool {
    forall|i: int| 0 <= i < s.len() ==> is_digit(s[i])
}

/// The value of a string of decimal digits.
pub open spec fn digits_value(s: Seq<u8>) -> nat
    decreases s.len(),
{
    if s.len() == 0 {
        0
    } else {
        digits_value(s.drop_last()) * 10 + (s.last() - 48) as nat
    }
}

/// The decimal digits of `n`, most significant first, without leading zeros.
pub open spec fn decimal(n: nat) -> Seq<u8>
    decreases n,
{
    if n < 10 {
        seq![(48 + n) as u8]
    } else {
        decimal(n / 10).push((48 + n % 10) as u8)
    }
}

proof fn lemma_decimal_parses(n: nat)
    ensures
        decimal(n).len() > 0,
        all_digits(decimal(n)),
        digits_value(decimal(n)) == n,
        no_newline(decimal(n)),
        trim_end(decimal(n)) == decimal(n),
    decreases n,
{
    if n >= 10 {
        lemma_decimal_parses(n / 10);
        assert(decimal(n).drop_last() =~= decimal(n / 10));
        let c = (48 + n % 10) as u8;
        assert(c == 48 + n % 10);
        assert(decimal(n).last() == c);
        assert(n == (n / 10) * 10 + n % 10);
        assert(digits_value(decimal(n)) == digits_value(decimal(n).drop_last()) * 10 + (decimal(n).last() - 48) as nat);
    } else {
        assert(decimal(n).drop_last() =~= Seq::<u8>::empty());
        assert(digits_value(Seq::<u8>::empty()) == 0);
        assert(digits_value(decimal(n)) == digits_value(decimal(n).drop_last()) * 10 + (decimal(n).last() - 48) as nat);
    }
}

fn push_decimal(n: u64, out: &mut Vec<u8>)
    ensures
        final(out)@ == old(out)@ + decimal(n as nat),
    decreases n,
{
    if n >= 10 {
        push_decimal(n / 10, out);
    }
    out.push((48 + n % 10) as u8);
    proof {
        assert(old(out)@ + decimal(n as nat) =~= final(out)@);
    }
}

/// The decimal digits of `n`.
pub fn decimal_bytes(n: u64) -> (r: Vec<u8>)
    ensures
        r@ == decimal(n as nat),
{
    let mut v: Vec<u8> = Vec::new();
    push_decimal(n, &mut v);
    assert(v@ =~= decimal(n as nat));
    v
}

proof fn lemma_digits_value_grows(s: Seq<u8>, c: u8)
    requires
        is_digit(c),
    ensures
        digits_value(s.push(c)) >= digits_value(s),
        digits_value(s.push(c)) == digits_value(s) * 10 + (c - 48) as nat,
{
    assert(s.push(c).drop_last() =~= s);
}

/// The size that a size field gives: `Ok(v)` for digits whose value fits the
/// largest payload.
pub open spec fn parse_size(s: Seq<u8>) -> Result<u64, WireError> {
    if s.len() == 0 || !all_digits(s) {
        Err(WireError::InvalidSize)
    } else if digits_value(s) > MAX_PAYLOAD_SIZE {
        Err(WireError::SizeTooLarge)
    } else {
        Ok(digits_value(s) as u64)
    }
}

/// Reads the size field `b[start..end]`.
pub fn parse_size_exec(b: &[u8], start: usize, end: usize) -> (r: Result<u64, WireError>)
    requires
        start <= end <= b@.len(),
    ensures
        r == parse_size(b@.subrange(start as int, end as int)),
{
    let ghost s = b@.subrange(start as int, end as int);
    if start == end {
        return Err(WireError::InvalidSize);
    }
    let mut i: usize = start;
    while i < end
        invariant
            start <= i <= end <= b@.len(),
            s == b@.subrange(start as int, end as int),
            forall|j: int| start <= j < i ==> is_digit(b@[j]),
        decreases end - i,
    {
        if b[i] < 48 || b[i] > 57 {
            assert(!is_digit(s[i - start]));
            return Err(WireError::InvalidSize);
        }
        i = i + 1;
    }
    assert(all_digits(s));
    let mut acc: u64 = 0;
    let mut i: usize = start;
    while i < end
        invariant
            start <= i <= end <= b@.len(),
            s == b@.subrange(start as int, end as int),
            all_digits(s),
            acc <= MAX_PAYLOAD_SIZE,
            acc == digits_value(s.take(i - start)),
        decreases end - i,
    {
        proof {
            assert(s[i - start] == b@[i as int]);
            assert(is_digit(b@[i as int]));
        }
        let d = (b[i] - 48) as u64;
        proof {
            assert(s.take(i + 1 - start) =~= s.take(i - start).push(b@[i as int]));
            lemma_digits_value_grows(s.take(i - start), b@[i as int]);
        }
        if acc > (MAX_PAYLOAD_SIZE - d) / 10 {
            proof {
                lemma_digits_value_monotone(s, i + 1 - start);
            }
            return Err(WireError::SizeTooLarge);
        }
        acc = acc * 10 + d;
        i = i + 1;
    }
    assert(s.take(end - start) =~= s);
    Ok(acc)
}

/// The value of a longer prefix of digits is at least that of a shorter one.
proof fn lemma_digits_value_monotone(s: Seq<u8>, k: int)
    requires
        all_digits(s),
        0 <= k <= s.len(),
    ensures
        digits_value(s) >= digits_value(s.take(k)),
    decreases s.len() - k,
{
    if k < s.len() {
        assert(s.take(k + 1) =~= s.take(k).push(s[k]));
        lemma_digits_value_grows(s.take(k), s[k]);
        lemma_digits_value_monotone(s, k + 1);
    } else {
        assert(s.take(k) =~= s);
    }
}

// ---------------------------------------------------------------- text fields

/// Relies on std::str::from_utf8: it accepts exactly the valid UTF-8 byte
/// strings, and the text it gives holds those bytes.
#[verifier::external_body]
fn utf8_text(b: &[u8]) -> (r: Option<String>)
    ensures
        r is Some <==> valid_utf8(b@),
        r matches Some(t) ==> t@ == decode_utf8(b@),
{
    match std::str::from_utf8(b) {
        Ok(t) => Some(t.to_string()),
        Err(_) => None,
    }
}

/// The text that a raw line carries: its bytes without trailing blanks, as UTF-8.
pub open spec fn text_field(raw: Seq<u8>) -> Option<Seq<char>> {
    if valid_utf8(trim_end(raw)) {
        Some(decode_utf8(trim_end(raw)))
    } else {
        None
    }
}

/// Reads the text field `b[start..end]`.
fn text_field_exec(b: &[u8], start: usize, end: usize) -> (r: Option<String>)
    requires
        start <= end <= b@.len(),
    ensures
        match r {
            Some(t) => text_field(b@.subrange(start as int, end as int)) == Some(t@),
            None => text_field(b@.subrange(start as int, end as int)) is None,
        },
{
    let t = trimmed_end(b, start, end);
    let part = vstd::slice::slice_subrange(b, start, t);
    utf8_text(part)
}

proof fn lemma_text_field_of_safe(s: Seq<char>)
    requires
        line_safe(s),
    ensures
        text_field(encode_utf8(s)) == Some(s),
{
    vstd::utf8::encode_utf8_valid_utf8(s);
    vstd::utf8::encode_utf8_decode_utf8(s);
}

// ---------------------------------------------------------------- names

pub open spec fn is_separator(c: char) -> bool {
    c == '/' || c == '\\'
}

pub open spec fn no_separator(s: Seq<char>) -> bool {
    forall|i: int| 0 <= i < s.len() ==> !is_separator(s[i])
}

/// Index of the last path separator in `s`, or `-1` when there is none.
pub open spec fn last_separator(s: Seq<char>) -> int
    decreases s.len(),
{
    if s.len() == 0 {
        -1
    } else if is_separator(s.last()) {
        s.len() - 1
    } else {
        last_separator(s.drop_last())
    }
}

/// What follows the last path separator.
pub open spec fn basename(s: Seq<char>) -> Seq<char> {
    s.skip(last_separator(s) + 1)
}

pub open spec fn fallback_prefix() -> Seq<char> {
    seq!['f', 'i', 'l', 'e', '_']
}

/// The name under which a received payload is stored: the base name of what
/// the sender announced, or, where that is empty, one made from the hash.
pub open spec fn sanitize(name: Seq<char>, hash: Seq<char>) -> Seq<char> {
    if basename(name).len() > 0 {
        basename(name)
    } else {
        fallback_prefix() + basename(hash)
    }
}

pub proof fn lemma_last_separator(s: Seq<char>)
    ensures
        -1 <= last_separator(s) < s.len(),
        last_separator(s) >= 0 ==> is_separator(s[last_separator(s)]),
        forall|j: int| last_separator(s) < j < s.len() ==> !is_separator(s[j]),
    decreases s.len(),
{
    if s.len() > 0 && !is_separator(s.last()) {
        lemma_last_separator(s.drop_last());
        assert forall|j: int| last_separator(s) < j < s.len() implies !is_separator(s[j]) by {
            if j < s.len() - 1 {
                assert(s.drop_last()[j] == s[j]);
            }
        }
    }
}

proof fn lemma_basename_clean(s: Seq<char>)
    ensures
        no_separator(basename(s)),
        no_separator(s) ==> basename(s) == s,
    decreases s.len(),
{
    lemma_last_separator(s);
    if no_separator(s) {
        lemma_no_separator_last(s);
        assert(s.skip(0) =~= s);
    }
}

proof fn lemma_no_separator_last(s: Seq<char>)
    requires
        no_separator(s),
    ensures
        last_separator(s) == -1,
    decreases s.len(),
{
    if s.len() > 0 {
        assert(no_separator(s.drop_last()));
        lemma_no_separator_last(s.drop_last());
    }
}

/// Sanitizing is idempotent, and its result is a non-empty name with no path
/// separator.
pub proof fn lemma_sanitize_idempotent(name: Seq<char>, hash: Seq<char>)
    ensures
        sanitize(sanitize(name, hash), hash) == sanitize(name, hash),
        no_separator(sanitize(name, hash)),
        sanitize(name, hash).len() > 0,
{
    lemma_basename_clean(name);
    lemma_basename_clean(hash);
    let r = sanitize(name, hash);
    if basename(name).len() == 0 {
        assert(no_separator(r)) by {
            assert forall|i: int| 0 <= i < r.len() implies !is_separator(r[i]) by {
                if i >= 5 {
                    assert(r[i] == basename(hash)[i - 5]);
                }
            }
        }
    }
    lemma_basename_clean(r);
}

/// The index just past the last separator of `s`.
pub(crate) fn basename_start(s: &str) -> (r: usize)
    ensures
        r as int == last_separator(s@) + 1,
{
    let n = s.unicode_len();
    let mut start: usize = 0;
    let mut i: usize = 0;
    while i < n
        invariant
            n == s@.len(),
            i <= n,
            start as int == last_separator(s@.take(i as int)) + 1,
        decreases n - i,
    {
        let c = s.get_char(i);
        proof {
            assert(s@.take(i + 1).drop_last() =~= s@.take(i as int));
        }
        if c == '/' || c == '\\' {
            start = i + 1;
        }
        i = i + 1;
    }
    assert(s@.take(n as int) =~= s@);
    start
}

/// The name under which a received payload is stored, made from the name the
/// sender announced and the payload's hash.
pub fn sanitize_name(name: &str, hash: &str) -> (r: String)
    ensures
        r@ == sanitize(name@, hash@),
{
    let start = basename_start(name);
    let n = name.unicode_len();
    proof {
        lemma_last_separator(name@);
    }
    if start < n {
        String::from_str(name.substring_char(start, n))
    } else {
        let mut r = String::from_str("file_");
        proof {
            reveal_strlit("file_");
        }
        let hs = basename_start(hash);
        let hn = hash.unicode_len();
        proof {
            lemma_last_separator(hash@);
        }
        r.append(hash.substring_char(hs, hn));
        assert(r@ =~= sanitize(name@, hash@));
        r
    }
}

// ---------------------------------------------------------------- records

/// What a sender announces before a payload.
pub struct MetadataView {
    pub name: Seq<char>,
    pub hash: Seq<char>,
    pub size: u64,
    pub transfer_type: TransferType,
}

#[derive(Debug, Clone)]
pub struct Metadata {
    pub name: String,
    pub hash: String,
    pub size: u64,
    pub transfer_type: TransferType,
}

impl View for Metadata {
    type V = MetadataView;

    open spec fn view(&self) -> MetadataView {
        MetadataView {
            name: self.name@,
            hash: self.hash@,
            size: self.size,
            transfer_type: self.transfer_type,
        }
    }
}

/// Metadata on the wire: name, hash and decimal size, each on its own line,
/// then the transfer-type byte.
pub open spec fn metadata_bytes(m: MetadataView) -> Seq<u8> {
    row(encode_utf8(m.name)) + row(encode_utf8(m.hash)) + row(decimal(m.size as nat)) + seq![
        transfer_type_code(m.transfer_type),
    ]
}

pub open spec fn transfer_type_of(b: u8) -> TransferType {
    if b == 0 {
        TransferType::File
    } else {
        TransferType::Directory
    }
}

/// What reading metadata from the front of `b` gives: the record and the
/// number of bytes it took, or why it failed.
pub open spec fn parse_metadata(b: Seq<u8>) -> Result<(MetadataView, int), WireError> {
    match split_line(b) {
        None => Err(WireError::Incomplete),
        Some((n, r1)) => match split_line(r1) {
            None => Err(WireError::Incomplete),
            Some((h, r2)) => match split_line(r2) {
                None => Err(WireError::Incomplete),
                Some((sz, r3)) => if r3.len() == 0 {
                    Err(WireError::Incomplete)
                } else {
                    match parse_size(trim_end(sz)) {
                        Err(e) => Err(e),
                        Ok(size) => if r3[0] > 1 {
                            Err(WireError::InvalidTransferType)
                        } else if text_field(n) is None || text_field(h) is None {
                            Err(WireError::InvalidUtf8)
                        } else {
                            let hash = text_field(h)->0;
                            Ok(
                                (
                                    MetadataView {
                                        name: sanitize(text_field(n)->0, hash),
                                        hash,
                                        size,
                                        transfer_type: transfer_type_of(r3[0]),
                                    },
                                    b.len() - r3.len() + 1,
                                ),
                            )
                        },
                    }
                },
            },
        },
    }
}

proof fn lemma_find_newline_shift(b: Seq<u8>, j: int, i: int)
    requires
        0 <= j <= b.len(),
        0 <= i,
    ensures
        find_newline(b.skip(j), i) == (if find_newline(b, j + i) == -1 {
            -1
        } else {
            find_newline(b, j + i) - j
        }),
    decreases b.len() - j - i,
{
    if j + i < b.len() {
        assert(b.skip(j)[i] == b[j + i]);
        if b[j + i] != NEWLINE {
            lemma_find_newline_shift(b, j, i + 1);
        }
    }
}

/// The line that starts at `from`: where it ends, with what `split_line` says
/// of `b.skip(from)`.
fn line_at(b: &[u8], from: usize) -> (r: Option<usize>)
    requires
        from <= b@.len(),
    ensures
        match r {
            Some(k) => from <= k < b@.len() && split_line(b@.skip(from as int)) == Some(
                (b@.subrange(from as int, k as int), b@.skip(k + 1)),
            ),
            None => split_line(b@.skip(from as int)) is None,
        },
{
    let r = find_newline_exec(b, from);
    proof {
        lemma_find_newline_shift(b@, from as int, 0);
        lemma_find_newline_facts(b@, from as int);
    }
    match r {
        Some(k) => {
            assert(b@.skip(from as int).take(k - from) =~= b@.subrange(from as int, k as int));
            assert(b@.skip(from as int).skip(k - from + 1) =~= b@.skip(k + 1));
            Some(k)
        },
        None => None,
    }
}

/// Reads metadata from the front of `b`.
pub fn decode_metadata(b: &[u8]) -> (r: Result<(Metadata, usize), WireError>)
    ensures
        match r {
            Ok((m, used)) => parse_metadata(b@) == Ok::<(MetadataView, int), WireError>(
                (m@, used as int),
            ),
            Err(e) => parse_metadata(b@) == Err::<(MetadataView, int), WireError>(e),
        },
{
    assert(b@.skip(0) =~= b@);
    let len = b.len();
    let k1 = match line_at(b, 0) {
        Some(k) => k,
        None => return Err(WireError::Incomplete),
    };
    let k2 = match line_at(b, k1 + 1) {
        Some(k) => k,
        None => return Err(WireError::Incomplete),
    };
    let k3 = match line_at(b, k2 + 1) {
        Some(k) => k,
        None => return Err(WireError::Incomplete),
    };
    if k3 + 1 >= b.len() {
        return Err(WireError::Incomplete);
    }
    let t = trimmed_end(b, k2 + 1, k3);
    let size = match parse_size_exec(b, k2 + 1, t) {
        Ok(v) => v,
        Err(e) => return Err(e),
    };
    let code = b[k3 + 1];
    assert(b@.skip(k3 + 1)[0] == code);
    if code > 1 {
        return Err(WireError::InvalidTransferType);
    }
    let name = text_field_exec(b, 0, k1);
    let hash = text_field_exec(b, k1 + 1, k2);
    match (name, hash) {
        (Some(name), Some(hash)) => {
            let transfer_type = if code == 0 {
                TransferType::File
            } else {
                TransferType::Directory
            };
            let clean = sanitize_name(name.as_str(), hash.as_str());
            Ok((Metadata { name: clean, hash, size, transfer_type }, k3 + 2))
        },
        _ => Err(WireError::InvalidUtf8),
    }
}

/// Writes metadata.
pub fn encode_metadata(m: &Metadata) -> (r: Vec<u8>)
    ensures
        r@ == metadata_bytes(m@),
{
    let mut out = add_row(m.name.as_str());
    let mut h = add_row(m.hash.as_str());
    out.append(&mut h);
    let mut sz = decimal_bytes(m.size);
    sz.push(NEWLINE);
    out.append(&mut sz);
    out.push(m.transfer_type.to_byte());
    assert(out@ =~= metadata_bytes(m@));
    out
}

/// Metadata that the wire carries unchanged: its texts are line-safe, its
/// name is already sanitized and its size is taken on.
pub open spec fn metadata_wire_safe(m: MetadataView) -> bool {
    &&& line_safe(m.name)
    &&& line_safe(m.hash)
    &&& sanitize(m.name, m.hash) == m.name
    &&& m.size <= MAX_PAYLOAD_SIZE
}

/// Reading back written metadata gives the same record, and takes all the bytes.
pub proof fn lemma_metadata_round_trip(m: MetadataView, rest: Seq<u8>)
    requires
        metadata_wire_safe(m),
    ensures
        parse_metadata(metadata_bytes(m) + rest) == Ok::<(MetadataView, int), WireError>(
            (m, metadata_bytes(m).len() as int),
        ),
{
    let n = encode_utf8(m.name);
    let h = encode_utf8(m.hash);
    let d = decimal(m.size as nat);
    let t = seq![transfer_type_code(m.transfer_type)];
    lemma_decimal_parses(m.size as nat);
    let b = metadata_bytes(m) + rest;
    let r1 = row(h) + row(d) + t + rest;
    let r2 = row(d) + t + rest;
    let r3 = t + rest;
    assert(b =~= row(n) + r1);
    assert(r1 =~= row(h) + r2);
    assert(r2 =~= row(d) + r3);
    lemma_split_row(n, r1);
    lemma_split_row(h, r2);
    lemma_split_row(d, r3);
    lemma_text_field_of_safe(m.name);
    lemma_text_field_of_safe(m.hash);
    assert(r3[0] == transfer_type_code(m.transfer_type));
    assert(transfer_type_of(r3[0]) == m.transfer_type);
    assert(parse_size(d) == Ok::<u64, WireError>(m.size));
}

/// An answer on the wire: `1` to accept or `0` to refuse, then the hash it
/// answers, on its own line.
pub open spec fn answer_bytes(accepted: bool, hash: Seq<char>) -> Seq<u8> {
    seq![if accepted { 1u8 } else { 0u8 }] + row(encode_utf8(hash))
}

/// What reading an answer from the front of `b` gives: the decision, the
/// echoed hash and the number of bytes taken, or why it failed.
pub open spec fn parse_answer(b: Seq<u8>) -> Result<(bool, Seq<char>, int), WireError> {
    if b.len() == 0 {
        Err(WireError::Incomplete)
    } else {
        match split_line(b.skip(1)) {
            None => Err(WireError::Incomplete),
            Some((h, rest)) => if b[0] > 1 {
                Err(WireError::InvalidAnswer)
            } else if text_field(h) is None {
                Err(WireError::InvalidUtf8)
            } else {
                Ok((b[0] == 1, text_field(h)->0, b.len() - rest.len()))
            },
        }
    }
}

/// Writes an answer.
pub fn encode_answer(accepted: bool, hash: &str) -> (r: Vec<u8>)
    ensures
        r@ == answer_bytes(accepted, hash@),
{
    let mut out: Vec<u8> = Vec::new();
    out.push(if accepted { 1u8 } else { 0u8 });
    let mut h = add_row(hash);
    out.append(&mut h);
    assert(out@ =~= answer_bytes(accepted, hash@));
    out
}

/// Reads an answer from the front of `b`.
pub fn decode_answer(b: &[u8]) -> (r: Result<(bool, String, usize), WireError>)
    ensures
        match r {
            Ok((a, h, used)) => parse_answer(b@) == Ok::<(bool, Seq<char>, int), WireError>(
                (a, h@, used as int),
            ),
            Err(e) => parse_answer(b@) == Err::<(bool, Seq<char>, int), WireError>(e),
        },
{
    let len = b.len();
    if len == 0 {
        return Err(WireError::Incomplete);
    }
    let k = match line_at(b, 1) {
        Some(k) => k,
        None => return Err(WireError::Incomplete),
    };
    if b[0] > 1 {
        return Err(WireError::InvalidAnswer);
    }
    match text_field_exec(b, 1, k) {
        Some(h) => Ok((b[0] == 1, h, k + 1)),
        None => Err(WireError::InvalidUtf8),
    }
}

/// Reading back a written answer gives the same decision and hash.
pub proof fn lemma_answer_round_trip(accepted: bool, hash: Seq<char>, rest: Seq<u8>)
    requires
        line_safe(hash),
    ensures
        parse_answer(answer_bytes(accepted, hash) + rest) == Ok::<(bool, Seq<char>, int), WireError>(
            (accepted, hash, answer_bytes(accepted, hash).len() as int),
        ),
{
    let b = answer_bytes(accepted, hash) + rest;
    let h = encode_utf8(hash);
    assert(b.skip(1) =~= row(h) + rest);
    lemma_split_row(h, rest);
    lemma_text_field_of_safe(hash);
}

/// A discovery record on the wire: the hostname on its own line, then the
/// operating-system byte.
pub open spec fn discovery_bytes(hostname: Seq<char>, os: OperatingSystem) -> Seq<u8> {
    row(encode_utf8(hostname)) + seq![os_code(os)]
}

pub open spec fn os_of(b: u8) -> OperatingSystem {
    if b == 0 {
        OperatingSystem::Linux
    } else if b == 1 {
        OperatingSystem::Windows
    } else if b == 2 {
        OperatingSystem::Macos
    } else if b == 3 {
        OperatingSystem::Other
    } else {
        OperatingSystem::Unknown
    }
}

/// What reading a discovery record from the front of `b` gives.
pub open spec fn parse_discovery(b: Seq<u8>) -> Result<(Seq<char>, OperatingSystem, int), WireError> {
    match split_line(b) {
        None => Err(WireError::Incomplete),
        Some((h, rest)) => if rest.len() == 0 {
            Err(WireError::Incomplete)
        } else if rest[0] > 4 {
            Err(WireError::InvalidOs)
        } else if text_field(h) is None {
            Err(WireError::InvalidUtf8)
        } else {
            Ok((text_field(h)->0, os_of(rest[0]), b.len() - rest.len() + 1))
        },
    }
}

/// Writes a discovery record.
pub fn encode_discovery(hostname: &str, os: OperatingSystem) -> (r: Vec<u8>)
    ensures
        r@ == discovery_bytes(hostname@, os),
{
    let mut out = add_row(hostname);
    out.push(os.to_byte());
    out
}

/// Reads a discovery record from the front of `b`.
pub fn decode_discovery(b: &[u8]) -> (r: Result<(String, OperatingSystem, usize), WireError>)
    ensures
        match r {
            Ok((h, os, used)) => parse_discovery(b@) == Ok::<(Seq<char>, OperatingSystem, int), WireError>(
                (h@, os, used as int),
            ),
            Err(e) => parse_discovery(b@) == Err::<(Seq<char>, OperatingSystem, int), WireError>(e),
        },
{
    assert(b@.skip(0) =~= b@);
    let len = b.len();
    let k = match line_at(b, 0) {
        Some(k) => k,
        None => return Err(WireError::Incomplete),
    };
    if k + 1 >= len {
        return Err(WireError::Incomplete);
    }
    assert(b@.skip(k + 1)[0] == b@[k + 1]);
    let os = match OperatingSystem::from_byte(b[k + 1]) {
        Some(os) => os,
        None => return Err(WireError::InvalidOs),
    };
    assert(os == os_of(b@[k + 1]));
    match text_field_exec(b, 0, k) {
        Some(h) => Ok((h, os, k + 2)),
        None => Err(WireError::InvalidUtf8),
    }
}

/// Reading back a written discovery record gives the same hostname and system.
pub proof fn lemma_discovery_round_trip(hostname: Seq<char>, os: OperatingSystem, rest: Seq<u8>)
    requires
        line_safe(hostname),
    ensures
        parse_discovery(discovery_bytes(hostname, os) + rest) == Ok::<(Seq<char>, OperatingSystem, int), WireError>(
            (hostname, os, discovery_bytes(hostname, os).len() as int),
        ),
{
    let h = encode_utf8(hostname);
    let t = seq![os_code(os)] + rest;
    assert(discovery_bytes(hostname, os) + rest =~= row(h) + t);
    lemma_split_row(h, t);
    lemma_text_field_of_safe(hostname);
    assert(t[0] == os_code(os));
}

} // verus!
