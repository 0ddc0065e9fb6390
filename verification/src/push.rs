//! Push notification types.

use vstd::prelude::*;
use vstd::string::*;
use crate::text::{opt_str_view, push_char};

verus! {

/// Push notification info for a device.
#[derive(Debug, Clone)]
pub struct PushInfo {
    /// APNs push token (raw bytes).
    pub token: Vec<u8>,
    /// Push magic string.
    pub push_magic: String,
    /// APNs topic (from push certificate).
    pub topic: String,
}

/// Push notification info over plain sequences.
pub struct PushInfoView {
    pub token: Seq<u8>,
    pub push_magic: Seq<char>,
    pub topic: Seq<char>,
}

impl View for PushInfo {
    type V = PushInfoView;

    open spec fn view(&self) -> PushInfoView {
        PushInfoView { token: self.token@, push_magic: self.push_magic@, topic: self.topic@ }
    }
}

/// The lower-case hexadecimal digit for a value below sixteen.
pub open spec fn hex_digit(n: int) -> char {
    seq!['0', '1', '2', '3', '4', '5', '6', '7', '8', '9', 'a', 'b', 'c', 'd', 'e', 'f'][n]
}

/// Two lower-case hexadecimal digits for each byte, high digit first.
pub open spec fn hex_lower(bytes: Seq<u8>) -> Seq<char> {
    Seq::new(
        2 * bytes.len(),
        |i: int| if i % 2 == 0 { hex_digit(bytes[i / 2] as int / 16) } else { hex_digit(bytes[i / 2] as int % 16) },
    )
}

fn hex_digit_of(n: u8) -> (c: char)
    requires
        n < 16,
    ensures
        c == hex_digit(n as int),
{
    if n == 0 {
        '0'
    } else if n == 1 {
        '1'
    } else if n == 2 {
        '2'
    } else if n == 3 {
        '3'
    } else if n == 4 {
        '4'
    } else if n == 5 {
        '5'
    } else if n == 6 {
        '6'
    } else if n == 7 {
        '7'
    } else if n == 8 {
        '8'
    } else if n == 9 {
        '9'
    } else if n == 10 {
        'a'
    } else if n == 11 {
        'b'
    } else if n == 12 {
        'c'
    } else if n == 13 {
        'd'
    } else if n == 14 {
        'e'
    } else {
        'f'
    }
}

/// Lower-case hexadecimal encoding of `bytes`.
pub fn hex_encode(bytes: &[u8]) -> (s: String)
    ensures
        s@ == hex_lower(bytes@),
{
    let mut s = String::new();
    let mut i: usize = 0;
    while i < bytes.len()
        invariant
            i <= bytes@.len(),
            s@ == hex_lower(bytes@.take(i as int)),
        decreases bytes@.len() - i,
    {
        let b = bytes[i];
        push_char(&mut s, hex_digit_of(b / 16));
        push_char(&mut s, hex_digit_of(b % 16));
        proof {
            let prev = bytes@.take(i as int);
            let next = bytes@.take(i + 1);
            assert(next == prev.push(b));
            assert(s@ =~= hex_lower(next));
        }
        i += 1;
    }
    assert(bytes@.take(bytes@.len() as int) == bytes@);
    s
}

impl PushInfo {
    /// Get push token as hex string.
    pub fn token_hex(&self) -> (s: String)
        ensures
            s@ == hex_lower(self.token@),
    {
        hex_encode(self.token.as_slice())
    }
}

/// The wake-up payload for a device: the JSON object whose one member,
/// `mdm`, holds the push magic.
pub open spec fn wake_payload(push_magic: Seq<char>) -> Seq<char> {
    "{\"mdm\":\""@ + push_magic + "\"}"@
}

/// Builds the wake-up payload sent through APNs.
pub fn mdm_payload(push_magic: &str) -> (body: String)
    ensures
        body@ == wake_payload(push_magic@),
{
    let mut body = "{\"mdm\":\"".to_owned();
    body.append(push_magic);
    body.append("\"}");
    body
}

/// Result of a push notification attempt.
#[derive(Debug, Clone)]
pub struct PushResult {
    /// Enrollment ID that was pushed.
    pub enrollment_id: String,
    /// APNs response ID (if successful).
    pub apns_id: Option<String>,
    /// Error (if failed).
    pub error: Option<String>,
}

/// A push result over plain sequences.
pub struct PushResultView {
    pub enrollment_id: Seq<char>,
    pub apns_id: Option<Seq<char>>,
    pub error: Option<Seq<char>>,
}

impl View for PushResult {
    type V = PushResultView;

    open spec fn view(&self) -> PushResultView {
        PushResultView {
            enrollment_id: self.enrollment_id@,
            apns_id: opt_str_view(self.apns_id),
            error: opt_str_view(self.error),
        }
    }
}

impl PushResult {
    /// Create a successful push result.
    pub fn success(enrollment_id: String, apns_id: String) -> (r: Self)
        ensures
            r@ == (PushResultView {
                enrollment_id: enrollment_id@,
                apns_id: Some(apns_id@),
                error: None,
            }),
    {
        PushResult { enrollment_id, apns_id: Some(apns_id), error: None }
    }

    /// Create a failed push result, with the error's text as `to_string`
    /// gives it.
    pub fn failure<E: core::fmt::Display>(enrollment_id: String, error: E) -> (r: Self)
        ensures
            r.enrollment_id@ == enrollment_id@,
            r.apns_id is None,
            r.error is Some,
            to_string_from_display_ensures::<E>(&error, r.error->0),
    {
        PushResult { enrollment_id, apns_id: None, error: Some(error.to_string()) }
    }

    /// Check if push was successful.
    pub fn is_success(&self) -> (b: bool)
        ensures
            b == (self@.error is None),
    {
        self.error.is_none()
    }
}

} // verus!
