use vstd::prelude::*;
use vstd::string::StrSliceExecFns;
use vstd::string::StringExecFns;

use crypto::digest::Digest;

use crate::codec::decimal;

verus! {

/// The lowercase hexadecimal SHA-1 digest of a byte string.
pub uninterp spec fn sha1_hex(b: Seq<u8>) -> Seq<char>;

pub open spec fn is_lower_hex(c: char) -> bool {
    ('0' <= c && c <= '9') || ('a' <= c && c <= 'f')
}

/// Relies on rust-crypto's `Sha1` with `Digest::result_str`: the digest of
/// the bytes put in, as 40 lowercase hexadecimal digits.
#[verifier::external_body]
fn sha1_of(b: &[u8]) -> (r: String)
    ensures
        r@ == sha1_hex(b@),
        r@.len() == 40,
        forall|i: int| 0 <= i < r@.len() ==> is_lower_hex(#[trigger] r@[i]),
{
    let mut hasher = crypto::sha1::Sha1::new();
    hasher.input(b);
    hasher.result_str()
}

/// The SHA-1 digest of `contents`, in lowercase hexadecimal.
pub fn hash_contents(contents: &Vec<u8>) -> (r: String)
    ensures
        r@ == sha1_hex(contents@),
        r@.len() == 40,
{
    sha1_of(contents.as_slice())
}

/// Whether bytes read back from disk are the payload that `expected` names.
pub fn payload_matches(contents: &Vec<u8>, expected: &String) -> (r: bool)
    ensures
        r == (sha1_hex(contents@) == expected@),
{
    let h = hash_contents(contents);
    h == *expected
}

/// The decimal digits of `n` as text.
pub open spec fn decimal_text(n: nat) -> Seq<char> {
    decimal(n).map_values(|c: u8| c as char)
}

/// Relies on `u64`'s `ToString`, which writes an integer in decimal.
#[verifier::external_body]
fn decimal_string(n: u64) -> (r: String)
    ensures
        r@ == decimal_text(n as nat),
{
    n.to_string()
}

/// Relies on `directories::UserDirs::download_dir`: the user's Downloads
/// folder, where the platform names one. What it is depends on the machine.
#[verifier::external_body]
fn user_download_dir() -> (r: Option<String>) {
    match directories::UserDirs::new() {
        Some(dirs) => match dirs.download_dir() {
            Some(p) => match p.to_str() {
                Some(s) => Some(s.to_string()),
                None => None,
            },
            None => None,
        },
        None => None,
    }
}

/// Relies on `std::time::SystemTime::now`: whole seconds since the Unix epoch,
/// or 0 for a clock set before it. What it is depends on the moment.
#[verifier::external_body]
fn unix_secs() -> (r: u64) {
    match std::time::SystemTime::now().duration_since(std::time::UNIX_EPOCH) {
        Ok(d) => d.as_secs(),
        Err(_) => 0,
    }
}

/// The file name under which a payload named `name` received at `secs` is stored.
pub open spec fn stored_name(secs: nat, name: Seq<char>) -> Seq<char> {
    decimal_text(secs) + seq!['_'] + name
}

/// `file` inside the directory `dir`.
pub open spec fn joined(dir: Seq<char>, file: Seq<char>) -> Seq<char> {
    if dir.len() > 0 && dir.last() == '/' {
        dir + file
    } else {
        dir + seq!['/'] + file
    }
}

/// Where a payload named `name` received at `secs` is stored under `dir`.
pub fn target_path(dir: &str, secs: u64, name: &str) -> (r: String)
    ensures
        r@ == joined(dir@, stored_name(secs as nat, name@)),
{
    let mut file = decimal_string(secs);
    file.append("_");
    file.append(name);
    proof {
        reveal_strlit("_");
    }
    let mut r = String::from_str(dir);
    let n = dir.unicode_len();
    if n == 0 || dir.get_char(n - 1) != '/' {
        r.append("/");
        proof {
            reveal_strlit("/");
        }
    }
    r.append(file.as_str());
    assert(r@ =~= joined(dir@, stored_name(secs as nat, name@)));
    r
}

/// Why no place could be found for a received payload.
#[derive(Debug, Clone, Copy, PartialEq, Eq, Structural)]
pub enum PathError {
    /// No downloads directory is configured and the platform names none.
    DownloadsNotFound,
}

/// Where a payload named `name` received now is stored: under `downloads_dir`
/// when one is configured, else under the user's Downloads folder.
pub fn get_target_path(name: &str, downloads_dir: Option<&String>) -> (r: Result<String, PathError>)
    ensures
        downloads_dir matches Some(d) ==> (r matches Ok(p) && exists|secs: nat|
            p@ == joined(d@, stored_name(secs, name@))),
        r matches Ok(p) ==> exists|dir: Seq<char>, secs: nat| p@ == joined(dir, stored_name(secs, name@)),
{
    let secs = unix_secs();
    match downloads_dir {
        Some(d) => Ok(target_path(d.as_str(), secs, name)),
        None => match user_download_dir() {
            Some(d) => Ok(target_path(d.as_str(), secs, name)),
            None => Err(PathError::DownloadsNotFound),
        },
    }
}

} // verus!
