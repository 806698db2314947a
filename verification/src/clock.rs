//! The clock streamer's per-tick logic: formatting the local time of day as
//! an `HH:MM:SS` frame, and the connection state machine that stops the loop
//! on the first failed send.

use chrono::Timelike;
use vstd::prelude::*;

verus! {

/// The ASCII byte of a single decimal digit.
pub open spec fn digit_byte(d: u8) -> u8 {
    (48 + d) as u8
}

/// The eight ASCII bytes `HH:MM:SS` for a time of day.
pub open spec fn hms_bytes(h: u8, m: u8, s: u8) -> Seq<u8> {
    seq![
        digit_byte(h / 10),
        digit_byte(h % 10),
        58u8,
        digit_byte(m / 10),
        digit_byte(m % 10),
        58u8,
        digit_byte(s / 10),
        digit_byte(s % 10),
    ]
}

/// The `HH:MM:SS` frame for a time of day, as characters.
pub open spec fn hms_chars(h: u8, m: u8, s: u8) -> Seq<char> {
    hms_bytes(h, m, s).map_values(|b: u8| b as char)
}

/// A frame is well formed when it renders some valid time of day.
pub open spec fn is_clock_frame(s: Seq<char>) -> bool {
    exists|h: u8, m: u8, sec: u8|
        h < 24 && m < 60 && sec < 60 && s == hms_chars(h, m, sec)
}

/// Relies on String::from_utf8: bytes below 128 are valid UTF-8 and decode
/// to one character per byte, with the same code point.
#[verifier::external_body]
fn ascii_to_string(bytes: Vec<u8>) -> (r: String)
    requires
        forall|i: int| 0 <= i < bytes@.len() ==> bytes@[i] < 128,
    ensures
        r@ == bytes@.map_values(|b: u8| b as char),
{
    match String::from_utf8(bytes) {
        Ok(s) => s,
        Err(_) => String::new(),
    }
}

/// Format a time of day as the frame `HH:MM:SS`, two digits per field.
pub fn format_hms(h: u8, m: u8, s: u8) -> (r: String)
    requires
        h < 24,
        m < 60,
        s < 60,
    ensures
        r@ == hms_chars(h, m, s),
        is_clock_frame(r@),
{
    let mut bytes: Vec<u8> = Vec::new();
    bytes.push(48 + h / 10);
    bytes.push(48 + h % 10);
    bytes.push(58);
    bytes.push(48 + m / 10);
    bytes.push(48 + m % 10);
    bytes.push(58);
    bytes.push(48 + s / 10);
    bytes.push(48 + s % 10);
    proof {
        assert(bytes@ =~= hms_bytes(h, m, s));
    }
    let r = ascii_to_string(bytes);
    proof {
        assert(h < 24 && m < 60 && s < 60 && r@ == hms_chars(h, m, s));
    }
    r
}

/// Relies on chrono::Local::now and chrono::Timelike: `hour` is below 24,
/// `minute` below 60, `second` below 60 (a leap second is carried in the
/// nanosecond field, never here). The value depends on the clock and the
/// machine's time zone, so nothing more is promised.
#[verifier::external_body]
fn local_hms() -> (r: (u8, u8, u8))
    ensures
        r.0 < 24,
        r.1 < 60,
        r.2 < 60,
{
    let now = chrono::Local::now();
    (now.hour() as u8, now.minute() as u8, now.second() as u8)
}

/// One frame of the clock stream: the current local time of day, rendered
/// as `HH:MM:SS`. Whatever instant the clock reports, the frame is well
/// formed.
pub fn current_time_frame() -> (r: String)
    ensures
        is_clock_frame(r@),
{
    let (h, m, s) = local_hms();
    format_hms(h, m, s)
}

/// Connection state of one streamer instance.
#[derive(Clone, Copy, PartialEq, Eq, Structural, Debug)]
pub enum StreamState {
    Open,
    Closed,
}

/// Advance the streamer after one send attempt: the first failed send closes
/// the connection, and a closed connection never reopens; nothing else ends
/// the loop.
pub fn stream_step(state: StreamState, send_ok: bool) -> (r: StreamState)
    ensures
        r == StreamState::Open <==> (state == StreamState::Open && send_ok),
{
    match state {
        StreamState::Open => if send_ok {
            StreamState::Open
        } else {
            StreamState::Closed
        },
        StreamState::Closed => StreamState::Closed,
    }
}

/// The streamer keeps ticking exactly while its connection is open.
pub fn stream_active(state: StreamState) -> (r: bool)
    ensures
        r <==> state == StreamState::Open,
{
    match state {
        StreamState::Open => true,
        StreamState::Closed => false,
    }
}

} // verus!
