//! Trusted wrappers around outside crates. Each wrapper holds one outside
//! call; Verus believes the stated contract and the rest of the library is
//! verified against it.
use vstd::prelude::*;

verus! {

/// Relies on chrono: `Local::now()` formatted with `%Y-%m-%d`. The value
/// depends on the clock and time zone, so nothing is claimed of it beyond
/// the minimum length the format guarantees (a zero-padded four-digit
/// year, two dashes, two two-digit fields).
#[verifier::external_body]
pub fn today_key() -> (r: Vec<u8>)
    ensures
        r@.len() >= 10,
{
    chrono::Local::now().format("%Y-%m-%d").to_string().into_bytes()
}

/// Relies on chrono: `Local::now()` formatted with `%H-%M-%S`. The value
/// depends on the clock, so only the format's minimum length is claimed.
#[verifier::external_body]
pub fn clock_key() -> (r: Vec<u8>)
    ensures
        r@.len() >= 8,
{
    chrono::Local::now().format("%H-%M-%S").to_string().into_bytes()
}

/// Relies on dirs::data_local_dir: the platform's local-data directory,
/// if the platform defines one. The value depends on the environment, so
/// nothing is claimed of it.
#[verifier::external_body]
pub fn local_data_dir() -> (r: Option<Vec<u8>>)
{
    dirs::data_local_dir().map(|p| p.to_string_lossy().to_string().into_bytes())
}

/// What str::to_lowercase returns, encoded as UTF-8: a function of the
/// characters alone.
pub uninterp spec fn lower_of(s: Seq<char>) -> Seq<u8>;

/// Relies on str::to_lowercase: the Unicode lowercase of `s`, which
/// depends only on the characters of `s`. An empty string stays empty.
#[verifier::external_body]
pub fn lower_bytes(s: &str) -> (r: Vec<u8>)
    ensures
        r@ == lower_of(s@),
        s@.len() == 0 ==> r@.len() == 0,
{
    s.to_lowercase().into_bytes()
}

/// Relies on uuid::Uuid::new_v4: a random identifier; its hyphenated text
/// form is always 36 bytes. The value is random, so nothing more is
/// claimed of it.
#[verifier::external_body]
pub fn new_uuid() -> (r: Vec<u8>)
    ensures
        r@.len() == 36,
{
    uuid::Uuid::new_v4().to_string().into_bytes()
}

/// What String::from_utf8_lossy returns: a function of the bytes alone.
pub uninterp spec fn lossy_of(b: Seq<u8>) -> Seq<char>;

/// Relies on String::from_utf8_lossy: the text decoded from `b`, with
/// invalid sequences replaced; a function of the bytes alone. Empty input
/// stays empty.
#[verifier::external_body]
pub fn utf8_lossy(b: &[u8]) -> (r: String)
    ensures
        r@ == lossy_of(b@),
        b@.len() == 0 ==> r@.len() == 0,
{
    String::from_utf8_lossy(b).into_owned()
}

} // verus!
