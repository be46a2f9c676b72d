//! The replay descriptor model: a raw metadata record, the descriptor
//! derived from it, and the canonical filename and download URL that the
//! rest of the pipeline is keyed on.

use vstd::prelude::*;
use crate::errors::SyncError;
use chrono::Datelike;
use chrono::Timelike;

verus! {

/// An instant in UTC, held as plain calendar fields.
#[derive(Clone, Copy, Debug, PartialEq, Eq, Structural)]
pub struct Timestamp {
    pub year: u16,
    pub month: u8,
    pub day: u8,
    pub hour: u8,
    pub minute: u8,
    pub second: u8,
}

impl Timestamp {
    /// The field ranges of a calendar instant whose year fits the
    /// four-digit filename prefix.
    pub open spec fn valid(self) -> bool {
        &&& self.year <= 9999
        &&& 1 <= self.month <= 12
        &&& 1 <= self.day <= 31
        &&& self.hour <= 23
        &&& self.minute <= 59
        &&& self.second <= 59
    }
}

/// A raw metadata record as the metadata service reports it: an opaque
/// replay id, an optional multiplayer flag, and an RFC 3339 timestamp.
pub struct RawRecord {
    pub replay_id: String,
    pub is_multi: Option<bool>,
    pub recorded_at: String,
}

/// The mathematical value of a raw record.
pub struct RawRecordView {
    pub replay_id: Seq<char>,
    pub is_multi: Option<bool>,
    pub recorded_at: Seq<char>,
}

impl Clone for RawRecord {
    fn clone(&self) -> (r: RawRecord)
        ensures
            r@ == self@,
    {
        RawRecord {
            replay_id: self.replay_id.clone(),
            is_multi: self.is_multi,
            recorded_at: self.recorded_at.clone(),
        }
    }
}

impl View for RawRecord {
    type V = RawRecordView;

    open spec fn view(&self) -> RawRecordView {
        RawRecordView {
            replay_id: self.replay_id@,
            is_multi: self.is_multi,
            recorded_at: self.recorded_at@,
        }
    }
}

/// A replay descriptor: the locally modeled identity of a replay.
pub struct Replay {
    pub id: String,
    pub is_multi: bool,
    pub timestamp: Timestamp,
}

/// The mathematical value of a replay descriptor.
pub struct ReplayView {
    pub id: Seq<char>,
    pub is_multi: bool,
    pub timestamp: Timestamp,
}

impl ReplayView {
    /// Well-formedness: the timestamp fields are in calendar range.
    pub open spec fn wf(self) -> bool {
        self.timestamp.valid()
    }
}

impl View for Replay {
    type V = ReplayView;

    open spec fn view(&self) -> ReplayView {
        ReplayView { id: self.id@, is_multi: self.is_multi, timestamp: self.timestamp }
    }
}

impl Clone for Replay {
    fn clone(&self) -> (r: Replay)
        ensures
            r@ == self@,
    {
        Replay { id: self.id.clone(), is_multi: self.is_multi, timestamp: self.timestamp }
    }
}

/// Whether two descriptors are the same entity: equality over the full
/// tuple of id, multiplayer flag and timestamp.
pub fn replay_eq(a: &Replay, b: &Replay) -> (r: bool)
    ensures
        r == (a@ == b@),
{
    let r = a.id == b.id && a.is_multi == b.is_multi && a.timestamp == b.timestamp;
    proof {
        if a.id@ == b.id@ && a.is_multi == b.is_multi && a.timestamp == b.timestamp {
            assert(a@ == b@);
        }
    }
    r
}

/// The decimal digit `d` as a character.
pub open spec fn spec_digit(d: int) -> char {
    if d == 0 {
        '0'
    } else if d == 1 {
        '1'
    } else if d == 2 {
        '2'
    } else if d == 3 {
        '3'
    } else if d == 4 {
        '4'
    } else if d == 5 {
        '5'
    } else if d == 6 {
        '6'
    } else if d == 7 {
        '7'
    } else if d == 8 {
        '8'
    } else {
        '9'
    }
}

/// `v` written in decimal, zero-padded to exactly `width` digits
/// (the low `width` digits of `v`).
pub open spec fn spec_pad(v: int, width: nat) -> Seq<char>
    decreases width,
{
    if width == 0 {
        Seq::empty()
    } else {
        spec_pad(v / 10, (width - 1) as nat).push(spec_digit(v % 10))
    }
}

fn digit_str(d: u16) -> (r: &'static str)
    requires
        d < 10,
    ensures
        r@ == seq![spec_digit(d as int)],
{
    let r: &'static str = if d == 0 {
        "0"
    } else if d == 1 {
        "1"
    } else if d == 2 {
        "2"
    } else if d == 3 {
        "3"
    } else if d == 4 {
        "4"
    } else if d == 5 {
        "5"
    } else if d == 6 {
        "6"
    } else if d == 7 {
        "7"
    } else if d == 8 {
        "8"
    } else {
        "9"
    };
    proof {
        reveal_strlit("0");
        reveal_strlit("1");
        reveal_strlit("2");
        reveal_strlit("3");
        reveal_strlit("4");
        reveal_strlit("5");
        reveal_strlit("6");
        reveal_strlit("7");
        reveal_strlit("8");
        reveal_strlit("9");
        assert(r@ =~= seq![spec_digit(d as int)]);
    }
    r
}

fn append_pad2(out: &mut String, v: u8)
    requires
        v <= 99,
    ensures
        final(out)@ == old(out)@ + spec_pad(v as int, 2),
{
    out.append(digit_str((v / 10) as u16));
    out.append(digit_str((v % 10) as u16));
    proof {
        reveal_with_fuel(spec_pad, 3);
        assert(out@ =~= old(out)@ + spec_pad(v as int, 2));
    }
}

fn append_pad4(out: &mut String, v: u16)
    requires
        v <= 9999,
    ensures
        final(out)@ == old(out)@ + spec_pad(v as int, 4),
{
    let q1 = v / 10;
    let q2 = q1 / 10;
    let q3 = q2 / 10;
    out.append(digit_str(q3));
    out.append(digit_str(q2 % 10));
    out.append(digit_str(q1 % 10));
    out.append(digit_str(v % 10));
    proof {
        reveal_with_fuel(spec_pad, 5);
        assert(out@ =~= old(out)@ + spec_pad(v as int, 4));
    }
}

/// The filename extension for a replay: `ttrm` for multiplayer replays,
/// `ttr` otherwise.
pub open spec fn spec_extension(is_multi: bool) -> Seq<char> {
    if is_multi {
        seq!['t', 't', 'r', 'm']
    } else {
        seq!['t', 't', 'r']
    }
}

/// A timestamp in the compact UTC form `YYYYMMDDThhmmssZ`.
pub open spec fn spec_timestamp_str(t: Timestamp) -> Seq<char> {
    spec_pad(t.year as int, 4) + spec_pad(t.month as int, 2) + spec_pad(t.day as int, 2)
        + seq!['T'] + spec_pad(t.hour as int, 2) + spec_pad(t.minute as int, 2)
        + spec_pad(t.second as int, 2) + seq!['Z']
}

/// The canonical filename of a replay:
/// `{compact UTC timestamp}-{id}.{extension}`.
pub open spec fn spec_filename(r: ReplayView) -> Seq<char> {
    spec_timestamp_str(r.timestamp) + seq!['-'] + r.id + seq!['.'] + spec_extension(r.is_multi)
}

/// The content-service URL a replay is downloaded from.
pub open spec fn spec_replay_url(id: Seq<char>) -> Seq<char> {
    "https://inoue.szy.lol/api/replay/"@ + id
}

/// The metadata-service URL a stream's records are fetched from.
pub open spec fn spec_stream_url(stream: Seq<char>) -> Seq<char> {
    "https://ch.tetr.io/api/streams/"@ + stream
}

impl Replay {
    /// The canonical filename this descriptor is stored under.
    pub fn filename(&self) -> (r: String)
        requires
            self@.wf(),
        ensures
            r@ == spec_filename(self@),
    {
        let t = self.timestamp;
        let mut out = String::new();
        append_pad4(&mut out, t.year);
        append_pad2(&mut out, t.month);
        append_pad2(&mut out, t.day);
        out.append("T");
        append_pad2(&mut out, t.hour);
        append_pad2(&mut out, t.minute);
        append_pad2(&mut out, t.second);
        out.append("Z");
        out.append("-");
        out.append(self.id.as_str());
        out.append(".");
        if self.is_multi {
            out.append("ttrm");
        } else {
            out.append("ttr");
        }
        proof {
            reveal_strlit("T");
            reveal_strlit("Z");
            reveal_strlit("-");
            reveal_strlit(".");
            reveal_strlit("ttr");
            reveal_strlit("ttrm");
            assert(out@ =~= spec_filename(self@));
        }
        out
    }

    /// The content-service URL for this descriptor.
    pub fn url(&self) -> (r: String)
        ensures
            r@ == spec_replay_url(self@.id),
    {
        let mut out = String::from_str("https://inoue.szy.lol/api/replay/");
        out.append(self.id.as_str());
        out
    }
}

/// The metadata-service URL for a named stream.
pub fn stream_url(stream: &str) -> (r: String)
    ensures
        r@ == spec_stream_url(stream@),
{
    let mut out = String::from_str("https://ch.tetr.io/api/streams/");
    out.append(stream);
    out
}

/// What chrono's RFC 3339 parser, normalized to UTC, yields for a string:
/// `None` on invalid input, else year, month, day, hour, minute, second.
pub uninterp spec fn parse_rfc3339_utc(s: Seq<char>) -> Option<(i32, u32, u32, u32, u32, u32)>;

/// Relies on chrono's `DateTime::parse_from_rfc3339` and `with_timezone(&Utc)`:
/// the result depends on the input string alone, and the field ranges are
/// those documented for chrono's `Datelike` and `Timelike` (month 1-12,
/// day 1-31, hour 0-23, minute 0-59, second 0-59).
#[verifier::external_body]
fn parse_rfc3339_fields(s: &str) -> (r: Option<(i32, u32, u32, u32, u32, u32)>)
    ensures
        r == parse_rfc3339_utc(s@),
        r matches Some(t) ==> 1 <= t.1 <= 12 && 1 <= t.2 <= 31 && t.3 <= 23 && t.4 <= 59
            && t.5 <= 59,
{
    match chrono::DateTime::parse_from_rfc3339(s) {
        Ok(dt) => {
            let utc = dt.with_timezone(&chrono::Utc);
            Some((utc.year(), utc.month(), utc.day(), utc.hour(), utc.minute(), utc.second()))
        },
        Err(_) => None,
    }
}

/// The timestamp a record's RFC 3339 string denotes, or `None` when the
/// string does not parse or its UTC year falls outside four digits.
pub open spec fn spec_timestamp_of(s: Seq<char>) -> Option<Timestamp> {
    match parse_rfc3339_utc(s) {
        None => None,
        Some(t) => if 0 <= t.0 <= 9999 {
            Some(
                Timestamp {
                    year: t.0 as u16,
                    month: t.1 as u8,
                    day: t.2 as u8,
                    hour: t.3 as u8,
                    minute: t.4 as u8,
                    second: t.5 as u8,
                },
            )
        } else {
            None
        },
    }
}

/// Parse an RFC 3339 string into a UTC timestamp.
pub fn timestamp_from_rfc3339(s: &str) -> (r: Option<Timestamp>)
    ensures
        r == spec_timestamp_of(s@),
        r matches Some(t) ==> t.valid(),
{
    match parse_rfc3339_fields(s) {
        None => None,
        Some((y, mo, d, h, mi, sec)) => {
            if 0 <= y && y <= 9999 {
                Some(
                    Timestamp {
                        year: y as u16,
                        month: mo as u8,
                        day: d as u8,
                        hour: h as u8,
                        minute: mi as u8,
                        second: sec as u8,
                    },
                )
            } else {
                None
            }
        },
    }
}

/// The descriptor a raw record denotes: the multiplayer flag defaults to
/// false when absent, and the conversion fails exactly when the timestamp
/// does not resolve to a four-digit-year UTC instant.
pub open spec fn spec_replay_of(r: RawRecordView) -> Option<ReplayView> {
    match spec_timestamp_of(r.recorded_at) {
        None => None,
        Some(t) => Some(
            ReplayView {
                id: r.replay_id,
                is_multi: match r.is_multi {
                    Some(b) => b,
                    None => false,
                },
                timestamp: t,
            },
        ),
    }
}

impl Replay {
    /// Convert a raw metadata record into a descriptor, failing with a
    /// timestamp-parse error on a bad `recorded_at` string.
    pub fn from_record(rec: RawRecord) -> (r: Result<Replay, SyncError>)
        ensures
            match spec_replay_of(rec@) {
                Some(v) => r matches Ok(rep) && rep@ == v && rep@.wf(),
                None => r matches Err(e) && (e matches SyncError::TimestampParse { input }
                    && input@ == rec@.recorded_at),
            },
    {
        match timestamp_from_rfc3339(rec.recorded_at.as_str()) {
            Some(ts) => {
                let is_multi = match rec.is_multi {
                    Some(b) => b,
                    None => false,
                };
                Ok(Replay { id: rec.replay_id, is_multi, timestamp: ts })
            },
            None => Err(SyncError::TimestampParse { input: rec.recorded_at }),
        }
    }
}

} // verus!
