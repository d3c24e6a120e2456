//! Calls into other crates and into parts of std that have no specification
//! yet. Each item here is believed by its contract: nothing is proved of it.

use vstd::prelude::*;
use crate::text::{digits_in, longest_number};

verus! {

/// std's `String::push`: the string afterwards is the string before with `c`
/// at its end.
pub assume_specification[ String::push ](s: &mut String, c: char)
    ensures
        final(s)@ == old(s)@.push(c),
;

/// Whether `c` has the Unicode property `White_Space`: the tab, the line
/// feed and the three controls after it, the space, the next-line control,
/// the no-break space, the Ogham space mark, the spaces from the en quad to
/// the hair space, the line and the paragraph separator, the narrow no-break
/// space, the medium mathematical space and the ideographic space.
pub open spec fn whitespace(c: char) -> bool {
    ||| '\u{9}' <= c <= '\u{d}'
    ||| c == '\u{20}'
    ||| c == '\u{85}'
    ||| c == '\u{a0}'
    ||| c == '\u{1680}'
    ||| '\u{2000}' <= c <= '\u{200a}'
    ||| c == '\u{2028}'
    ||| c == '\u{2029}'
    ||| c == '\u{202f}'
    ||| c == '\u{205f}'
    ||| c == '\u{3000}'
}

/// std's `char::is_whitespace`, which tells whether the character has the
/// Unicode property `White_Space`.
pub assume_specification[ char::is_whitespace ](c: char) -> (r: bool)
    ensures
        r == whitespace(c),
;

/// What `humantime::parse_duration` makes of `text`: the whole seconds and the
/// nanoseconds beyond them, or nothing where it reports an error.
pub uninterp spec fn humantime_duration(text: Seq<char>) -> Option<(u64, u32)>;

/// The most digits of a text that is handed to `humantime::parse_duration`
/// whatever its numbers are.
pub const MAX_DURATION_DIGITS: usize = 15;

/// The most digits of each number of a longer text that is handed to
/// `humantime::parse_duration`.
pub const MAX_NUMBER_DIGITS: usize = 9;

/// The most characters of such a longer text.
pub const MAX_DURATION_CHARS: usize = 1000;

/// Whether `text` is one that `humantime::parse_duration` cannot panic on.
///
/// The function adds the spans of the text up in a `std::time::Duration`.
/// Its own arithmetic is checked, but `Duration::new` panics where a full
/// second of nanoseconds is carried into seconds that stand at the most a
/// `u64` holds, 18446744073709551615. The longest unit, the year, has
/// 31557600 seconds, and no letter stands within a number.
///
/// - With 15 digits or fewer, the seconds come that far only through a
///   number of 12 digits or more, in days or a longer unit, which brings no
///   nanoseconds. A full second of nanoseconds takes 4 digits, as in
///   `1000ms`. That makes 16.
/// - With 1000 characters or fewer there are 500 numbers at the most, and
///   where each has 9 digits or fewer, the seconds stay under
///   500 * 10^9 * 31557600, which is less.
pub open spec fn duration_text_safe(text: Seq<char>) -> bool {
    digits_in(text) <= MAX_DURATION_DIGITS || (text.len() <= MAX_DURATION_CHARS
        && longest_number(text) <= MAX_NUMBER_DIGITS)
}

/// Calls `humantime::parse_duration`. The result is that function's, which
/// depends on the text alone; a parsed duration comes back as the pair that
/// `Duration::as_secs` and `Duration::subsec_nanos` give. Texts on which the
/// function could panic are kept out.
#[verifier::external_body]
pub(crate) fn parse_duration_parts(text: &str) -> (r: Option<(u64, u32)>)
    requires
        duration_text_safe(text@),
    ensures
        r == humantime_duration(text@),
{
    match humantime::parse_duration(text) {
        Ok(d) => Some((d.as_secs(), d.subsec_nanos())),
        Err(_) => None,
    }
}

/// Whether `url::Url::parse` accepts `text` as an absolute URL.
pub uninterp spec fn url_accepted(text: Seq<char>) -> bool;

/// Calls `Url::parse` (the `url` crate's, as `reqwest` hands it on) and says
/// whether it returned `Ok`. That depends on the text alone.
#[verifier::external_body]
pub(crate) fn url_parses(text: &str) -> (r: bool)
    ensures
        r == url_accepted(text@),
{
    reqwest::Url::parse(text).is_ok()
}

/// Whether `regex::Regex::new` accepts `pattern`.
pub uninterp spec fn regex_compiles(pattern: Seq<char>) -> bool;

/// Whether `regex::Regex::is_match`, asked of the regex that `Regex::new`
/// made of `pattern`, finds a match anywhere in `text`.
pub uninterp spec fn regex_finds(pattern: Seq<char>, text: Seq<char>) -> bool;

/// What the `regex` crate makes of `pattern` on `text`: nothing where it
/// rejects the pattern, else whether it finds a match in `text`.
pub open spec fn regex_match(pattern: Seq<char>, text: Seq<char>) -> Option<bool> {
    if regex_compiles(pattern) {
        Some(regex_finds(pattern, text))
    } else {
        None
    }
}

/// Compiles `pattern` with `regex::Regex::new` and searches `text` with
/// `Regex::is_match`. Both depend on their arguments alone.
#[verifier::external_body]
pub(crate) fn regex_is_match(pattern: &str, text: &str) -> (r: Option<bool>)
    ensures
        r == if regex_compiles(pattern@) {
            Some(regex_finds(pattern@, text@))
        } else {
            None
        },
{
    match regex::Regex::new(pattern) {
        Ok(re) => Some(re.is_match(text)),
        Err(_) => None,
    }
}

/// `text` as `Debug` formats a `str`: in double quotes, with escapes.
pub uninterp spec fn quoted(text: Seq<char>) -> Seq<char>;

/// Formats `text` with `{:?}`, that is with std's `Debug` for `str`.
#[verifier::external_body]
pub(crate) fn quote(text: &str) -> (r: String)
    ensures
        r@ == quoted(text@),
{
    format!("{:?}", text)
}

/// What `serde_json::from_str::<String>` makes of `text`: the string that
/// the JSON text stands for, or nothing where it reports an error.
pub uninterp spec fn json_string(text: Seq<char>) -> Option<Seq<char>>;

/// Calls `serde_json::from_str` for a `String`. The result depends on the
/// text alone.
#[verifier::external_body]
pub(crate) fn parse_json_string(text: &str) -> (r: Option<String>)
    ensures
        match r {
            Some(s) => json_string(text@) == Some(s@),
            None => json_string(text@) is None,
        },
{
    match serde_json::from_str::<String>(text) {
        Ok(s) => Some(s),
        Err(_) => None,
    }
}

/// Whether `time::format_description::parse_borrowed`, in its first version,
/// accepts `format` as a format description.
pub uninterp spec fn format_accepted(format: Seq<char>) -> bool;

/// Whether `time::OffsetDateTime::from_unix_timestamp_nanos` accepts
/// `unix_nanos` as an instant.
pub uninterp spec fn instant_accepted(unix_nanos: int) -> bool;

/// What `time::OffsetDateTime::format` writes for the instant `unix_nanos`
/// nanoseconds after the Unix epoch, in UTC, under the format description
/// `format`; or nothing where it reports an error.
pub uninterp spec fn written_time(unix_nanos: int, format: Seq<char>) -> Option<Seq<char>>;

/// What the `time` crate writes for the instant `unix_nanos` nanoseconds
/// after the Unix epoch under `format`; or nothing where it rejects the
/// description or the instant, or cannot write the one under the other.
pub open spec fn formatted_time(unix_nanos: int, format: Seq<char>) -> Option<Seq<char>> {
    if format_accepted(format) && instant_accepted(unix_nanos) {
        written_time(unix_nanos, format)
    } else {
        None
    }
}

/// Reads `format` with `time::format_description::parse_borrowed`, makes the
/// instant with `OffsetDateTime::from_unix_timestamp_nanos` and writes it
/// with `OffsetDateTime::format`. All three depend on their arguments alone.
#[verifier::external_body]
pub(crate) fn format_time(unix_nanos: i128, format: &str) -> (r: Option<String>)
    ensures
        match r {
            Some(s) => format_accepted(format@) && instant_accepted(unix_nanos as int)
                && written_time(unix_nanos as int, format@) == Some(s@),
            None => !format_accepted(format@) || !instant_accepted(unix_nanos as int)
                || written_time(unix_nanos as int, format@) is None,
        },
{
    let items = time::format_description::parse_borrowed::<1>(format).ok()?;
    let at = time::OffsetDateTime::from_unix_timestamp_nanos(unix_nanos).ok()?;
    at.format(&items).ok()
}

/// Eight bytes from `rand::rng()`, the thread's random number generator,
/// filled by `Rng::fill`. Nothing is claimed of them.
#[verifier::external_body]
pub(crate) fn random_bytes() -> [u8; 8] {
    let mut bytes = [0u8; 8];
    rand::Rng::fill(&mut rand::rng(), &mut bytes);
    bytes
}

/// The time by the system's clock, from `time::OffsetDateTime::now_utc`, as
/// `unix_timestamp_nanos` counts it. Nothing is claimed of it.
#[verifier::external_body]
pub(crate) fn now_unix_nanos() -> i128 {
    time::OffsetDateTime::now_utc().unix_timestamp_nanos()
}

} // verus!
