//! Output layout: `<base>/<channel name>/<sanitized title>-<YYYY-MM-DD>`,
//! with `.mp4` for the media capture and `-chat.json` for the transcript.

use vstd::prelude::*;
use vstd::string::*;
use crate::sanitize::{push_char, sanitize_filename, sanitized};

verus! {

/// A calendar day.
#[derive(Debug, Clone, Copy, PartialEq, Eq, Structural)]
pub struct CaptureDate {
    pub year: i32,
    pub month: u32,
    pub day: u32,
}

impl CaptureDate {
    /// A four-digit year, a month and a day of month in range.
    pub open spec fn wf(&self) -> bool {
        &&& 0 <= self.year <= 9999
        &&& 1 <= self.month <= 12
        &&& 1 <= self.day <= 31
    }

    /// The date, when its fields are in range.
    pub fn new(year: i32, month: u32, day: u32) -> (r: Option<CaptureDate>)
        ensures
            r is Some <==> (CaptureDate { year, month, day }).wf(),
            r is Some ==> r->Some_0 == (CaptureDate { year, month, day }),
    {
        if 0 <= year && year <= 9999 && 1 <= month && month <= 12 && 1 <= day && day <= 31 {
            Some(CaptureDate { year, month, day })
        } else {
            None
        }
    }
}

/// Relies on `std::time::SystemTime::now` and `duration_since(UNIX_EPOCH)`:
/// whole seconds since 1970, or none for a clock set before 1970.
#[verifier::external_body]
fn unix_now_secs() -> (r: Option<u64>) {
    match std::time::SystemTime::now().duration_since(std::time::UNIX_EPOCH) {
        Ok(d) => Some(d.as_secs()),
        Err(_) => None,
    }
}

/// Relies on `chrono::DateTime::from_timestamp` (none outside chrono's
/// range) and on chrono's `Datelike` accessors for the UTC calendar date,
/// whose month runs 1 to 12 and day 1 to 31.
#[verifier::external_body]
fn utc_date_of(secs: i64) -> (r: Option<(i32, u32, u32)>)
    ensures
        r is Some ==> 1 <= r->Some_0.1 <= 12 && 1 <= r->Some_0.2 <= 31,
{
    chrono::DateTime::from_timestamp(secs, 0).map(
        |t| {
            let d = t.date_naive();
            (chrono::Datelike::year(&d), chrono::Datelike::month(&d), chrono::Datelike::day(&d))
        },
    )
}

/// Today's date in UTC; none when the clock reads before 1970 or a year
/// after 9999.
pub fn today() -> (r: Option<CaptureDate>)
    ensures
        r is Some ==> r->Some_0.wf(),
{
    let secs = match unix_now_secs() {
        Some(s) => s,
        None => return None,
    };
    if secs > i64::MAX as u64 {
        return None;
    }
    match utc_date_of(secs as i64) {
        Some((y, m, d)) => CaptureDate::new(y, m, d),
        None => None,
    }
}

/// The decimal digit `d`.
pub open spec fn digit_char(d: int) -> char {
    ((d + 48) as u8) as char
}

/// `n` written with exactly two digits.
pub open spec fn two_digits(n: int) -> Seq<char> {
    seq![digit_char(n / 10), digit_char(n % 10)]
}

/// `n` written with exactly four digits.
pub open spec fn four_digits(n: int) -> Seq<char> {
    seq![digit_char(n / 1000), digit_char(n / 100 % 10), digit_char(n / 10 % 10), digit_char(n % 10)]
}

/// The date as `YYYY-MM-DD`.
pub open spec fn date_label(d: CaptureDate) -> Seq<char> {
    four_digits(d.year as int) + seq!['-'] + two_digits(d.month as int) + seq!['-'] + two_digits(
        d.day as int,
    )
}

fn push_digit(s: &mut String, d: u32)
    requires
        d < 10,
    ensures
        final(s)@ == old(s)@.push(digit_char(d as int)),
{
    let c = ((d as u8) + 48) as char;
    push_char(s, c);
}

/// Appends the date as `YYYY-MM-DD`.
pub fn push_date_label(s: &mut String, date: &CaptureDate)
    requires
        date.wf(),
    ensures
        final(s)@ == old(s)@ + date_label(*date),
{
    let y = date.year as u32;
    push_digit(s, y / 1000);
    push_digit(s, y / 100 % 10);
    push_digit(s, y / 10 % 10);
    push_digit(s, y % 10);
    push_char(s, '-');
    push_digit(s, date.month / 10);
    push_digit(s, date.month % 10);
    push_char(s, '-');
    push_digit(s, date.day / 10);
    push_digit(s, date.day % 10);
    assert(final(s)@ =~= old(s)@ + date_label(*date));
}

/// Where the two captures of one broadcast go.
#[derive(Debug, Clone)]
pub struct CapturePaths {
    pub media_path: String,
    pub transcript_path: String,
}

/// `<channel name>/<sanitized title>-<YYYY-MM-DD>`.
pub open spec fn file_stem(name: Seq<char>, title: Seq<char>, date: CaptureDate) -> Seq<char> {
    name + seq!['/'] + sanitized(title) + seq!['-'] + date_label(date)
}

pub open spec fn media_path_of(base: Seq<char>, name: Seq<char>, title: Seq<char>, date: CaptureDate) -> Seq<
    char,
> {
    base + seq!['/'] + file_stem(name, title, date) + seq!['.', 'm', 'p', '4']
}

pub open spec fn transcript_path_of(
    base: Seq<char>,
    name: Seq<char>,
    title: Seq<char>,
    date: CaptureDate,
) -> Seq<char> {
    base + seq!['/'] + file_stem(name, title, date) + seq![
        '-',
        'c',
        'h',
        'a',
        't',
        '.',
        'j',
        's',
        'o',
        'n',
    ]
}

/// The output paths of a capture pair for channel `entity_name`, broadcast
/// title `title` and day `date`, under `base_dir`.
pub fn build_paths(base_dir: &str, entity_name: &str, title: &str, date: &CaptureDate) -> (r:
    CapturePaths)
    requires
        date.wf(),
    ensures
        r.media_path@ == media_path_of(base_dir@, entity_name@, title@, *date),
        r.transcript_path@ == transcript_path_of(base_dir@, entity_name@, title@, *date),
{
    let mut stem = String::from_str(base_dir);
    push_char(&mut stem, '/');
    stem.append(entity_name);
    push_char(&mut stem, '/');
    let clean = sanitize_filename(title);
    stem.append(clean.as_str());
    push_char(&mut stem, '-');
    push_date_label(&mut stem, date);
    let mut media = stem.clone();
    media.append(".mp4");
    let mut transcript = stem;
    transcript.append("-chat.json");
    proof {
        reveal_strlit(".mp4");
        reveal_strlit("-chat.json");
        assert(media@ =~= media_path_of(base_dir@, entity_name@, title@, *date));
        assert(transcript@ =~= transcript_path_of(base_dir@, entity_name@, title@, *date));
    }
    CapturePaths { media_path: media, transcript_path: transcript }
}

} // verus!
