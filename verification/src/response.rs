use vstd::prelude::*;

verus! {

use vstd::string::*;
use vstd::pervasive::unreached;
use crate::data::{StoredValue, EntryV};
use crate::parse::{ParseFail, ParseFailV};

// ---------------------------------------------------------------------------
// Response grammar:
//   STORED\r\n | NOT_STORED\r\n | END\r\n
//   VALUE <key> <flags> <byte_count>\r\n<payload>\r\nEND\r\n
//   one diagnostic line for a rejected command line
// ---------------------------------------------------------------------------

/// The character for one decimal digit.
pub open spec fn digit_char(d: nat) -> char {
    if d == 0 {
        '0'
    } else if d == 1 {
        '1'
    } else if d == 2 {
        '2'
    } else if d == 3 {
        '3'
    } else if d == 4 {
        '4'
    } else if d == 5 {
        '5'
    } else if d == 6 {
        '6'
    } else if d == 7 {
        '7'
    } else if d == 8 {
        '8'
    } else {
        '9'
    }
}

/// The decimal text of a number, most significant digit first, with no sign
/// and no leading zeros except for the number zero itself.
pub open spec fn dec_digits(n: nat) -> Seq<char>
    decreases n,
{
    if n < 10 {
        seq![digit_char(n)]
    } else {
        dec_digits(n / 10).push(digit_char(n % 10))
    }
}

/// The text of one decimal digit.
fn digit_str(d: u64) -> (r: &'static str)
    requires
        d < 10,
    ensures
        r@ == seq![digit_char(d as nat)],
{
    let r = if d == 0 {
        "0"
    } else if d == 1 {
        "1"
    } else if d == 2 {
        "2"
    } else if d == 3 {
        "3"
    } else if d == 4 {
        "4"
    } else if d == 5 {
        "5"
    } else if d == 6 {
        "6"
    } else if d == 7 {
        "7"
    } else if d == 8 {
        "8"
    } else {
        "9"
    };
    proof {
        reveal_strlit("0");
        reveal_strlit("1");
        reveal_strlit("2");
        reveal_strlit("3");
        reveal_strlit("4");
        reveal_strlit("5");
        reveal_strlit("6");
        reveal_strlit("7");
        reveal_strlit("8");
        reveal_strlit("9");
        assert(r@ =~= seq![digit_char(d as nat)]);
    }
    r
}

fn push_digits(s: &mut String, n: u64)
    ensures
        final(s)@ == old(s)@ + dec_digits(n as nat),
    decreases n,
{
    if n < 10 {
        s.append(digit_str(n));
    } else {
        push_digits(s, n / 10);
        s.append(digit_str(n % 10));
        proof {
            assert(old(s)@ + dec_digits((n / 10) as nat) + seq![digit_char((n % 10) as nat)]
                =~= old(s)@ + dec_digits(n as nat));
        }
    }
}

/// The decimal text of a number.
pub fn dec_string(n: u64) -> (r: String)
    ensures
        r@ == dec_digits(n as nat),
{
    let mut s = String::new();
    push_digits(&mut s, n);
    proof {
        assert(Seq::<char>::empty() + dec_digits(n as nat) =~= dec_digits(n as nat));
    }
    s
}

/// The response to a write command that stored its entry.
pub open spec fn stored_response() -> Seq<char> {
    "STORED\r\n"@
}

/// The response to a write command whose precondition failed.
pub open spec fn not_stored_response() -> Seq<char> {
    "NOT_STORED\r\n"@
}

/// The response to a `get` that finds nothing.
pub open spec fn end_response() -> Seq<char> {
    "END\r\n"@
}

/// The first line of the response to a `get` that finds an entry: its key,
/// flags and declared byte count.
pub open spec fn value_header(key: Seq<char>, flags: u16, byte_count: nat) -> Seq<char> {
    "VALUE "@ + key + " "@ + dec_digits(flags as nat) + " "@ + dec_digits(byte_count) + "\r\n"@
}

/// The response to a `get` that finds an entry whose payload is text: the
/// header line, the payload text, then `END`.
pub open spec fn value_response(key: Seq<char>, flags: u16, byte_count: nat, body: Seq<char>) -> Seq<
    char,
> {
    value_header(key, flags, byte_count) + body + "\r\nEND\r\n"@
}

/// The response to a `get` that finds an entry, as raw bytes: the encoded
/// header line, the payload bytes verbatim, then the encoded closing line.
/// Total over every payload.
pub open spec fn value_response_bytes(
    key: Seq<char>,
    flags: u16,
    byte_count: nat,
    payload: Seq<u8>,
) -> Seq<u8> {
    vstd::utf8::encode_utf8(value_header(key, flags, byte_count)) + payload
        + vstd::utf8::encode_utf8("\r\nEND\r\n"@)
}

/// The miss line of a `get`, as raw bytes.
pub open spec fn end_response_bytes() -> Seq<u8> {
    vstd::utf8::encode_utf8(end_response())
}

/// The success or failure line of a write command.
pub fn write_response(stored: bool) -> (r: String)
    ensures
        r@ == if stored {
            stored_response()
        } else {
            not_stored_response()
        },
{
    if stored {
        "STORED\r\n".to_owned()
    } else {
        "NOT_STORED\r\n".to_owned()
    }
}

/// The miss line of a `get`.
pub fn miss_response() -> (r: String)
    ensures
        r@ == end_response(),
{
    "END\r\n".to_owned()
}

/// The characters that a strict text decode of raw bytes yields, if the
/// bytes are valid; the result depends on the bytes alone.
pub uninterp spec fn utf8_decode_of(b: Seq<u8>) -> Option<Seq<char>>;

/// Relies on `String::from_utf8`: it succeeds exactly when the bytes are
/// well-formed text, and the decoded characters are a function of the bytes
/// alone.
#[verifier::external_body]
fn vec_to_utf8(v: Vec<u8>) -> (r: Option<String>)
    ensures
        match r {
            Some(s) => utf8_decode_of(v@) == Some(s@),
            None => utf8_decode_of(v@) is None,
        },
{
    match String::from_utf8(v) {
        Ok(s) => Some(s),
        Err(_) => None,
    }
}

/// The payload of an entry as decoded text, taken where it is known to
/// decode.
pub open spec fn decoded_payload(e: EntryV) -> Seq<char> {
    match utf8_decode_of(e.payload) {
        Some(s) => s,
        None => Seq::empty(),
    }
}

/// The header line of a `VALUE` response, as text.
fn value_header_string(key: &str, flags: u16, byte_count: usize) -> (r: String)
    ensures
        r@ == value_header(key@, flags, byte_count as nat),
{
    let mut r = "VALUE ".to_owned();
    r.append(key);
    r.append(" ");
    let ftext = dec_string(flags as u64);
    r.append(ftext.as_str());
    r.append(" ");
    let ctext = dec_string(byte_count as u64);
    r.append(ctext.as_str());
    r.append("\r\n");
    proof {
        assert(r@ =~= value_header(key@, flags, byte_count as nat));
    }
    r
}

impl StoredValue {
    /// The full `VALUE` response for this entry under the given key, as raw
    /// bytes: the payload goes out verbatim, whatever bytes it holds.
    pub fn response_bytes(self, key: &str) -> (r: Vec<u8>)
        ensures
            r@ == value_response_bytes(key@, self@.flags, self@.byte_count, self@.payload),
    {
        let mut this = self;
        let flags = this.get_flags();
        let count = this.get_byte_count();
        let header = value_header_string(key, flags, count);
        let mut r = header.as_str().as_bytes_vec();
        let mut payload = this.get_value();
        r.append(&mut payload);
        let mut tail = "\r\nEND\r\n".as_bytes_vec();
        r.append(&mut tail);
        proof {
            assert(r@ =~= value_response_bytes(key@, self@.flags, self@.byte_count, self@.payload));
        }
        r
    }

    /// The full `VALUE` response for this entry under the given key, as
    /// text. The payload must be decodable text; `try_response_string`
    /// checks that first, and `response_bytes` serves any payload.
    pub fn response_string(self, key: &str) -> (r: String)
        requires
            utf8_decode_of(self@.payload) is Some,
        ensures
            r@ == value_response(key@, self@.flags, self@.byte_count, decoded_payload(self@)),
    {
        let mut this = self;
        let body = match vec_to_utf8(this.get_value()) {
            Some(s) => s,
            None => unreached(),
        };
        let flags = this.get_flags();
        let count = this.get_byte_count();
        let mut r = value_header_string(key, flags, count);
        r.append(body.as_str());
        r.append("\r\nEND\r\n");
        proof {
            assert(r@ =~= value_response(key@, self@.flags, self@.byte_count, decoded_payload(
                self@,
            )));
        }
        r
    }

    /// The full `VALUE` response for this entry, or nothing when the payload
    /// is not decodable text.
    pub fn try_response_string(self, key: &str) -> (r: Option<String>)
        ensures
            match r {
                Some(s) => utf8_decode_of(self@.payload) is Some && s@ == value_response(
                    key@,
                    self@.flags,
                    self@.byte_count,
                    decoded_payload(self@),
                ),
                None => utf8_decode_of(self@.payload) is None,
            },
    {
        let probe = vec_to_utf8(self.get_value());
        match probe {
            Some(_) => Some(self.response_string(key)),
            None => None,
        }
    }
}

/// The miss line of a `get`, as raw bytes.
pub fn miss_response_bytes() -> (r: Vec<u8>)
    ensures
        r@ == end_response_bytes(),
{
    "END\r\n".as_bytes_vec()
}

/// The full response to a `get`, as raw bytes: the `VALUE` form for a hit —
/// the payload verbatim, whatever bytes it holds — and the `END` line for a
/// miss. Total over every outcome.
pub fn get_response(found: Option<StoredValue>, key: &str) -> (r: Vec<u8>)
    ensures
        match found {
            None => r@ == end_response_bytes(),
            Some(v) => r@ == value_response_bytes(key@, v@.flags, v@.byte_count, v@.payload),
        },
{
    match found {
        None => miss_response_bytes(),
        Some(v) => v.response_bytes(key),
    }
}

/// The diagnostic line for a command line that held no tokens.
pub open spec fn empty_failure_response() -> Seq<char> {
    "ERROR empty command\r\n"@
}

/// The diagnostic line for a known action with tokens missing after it.
pub open spec fn missing_argument_response(action: Seq<char>) -> Seq<char> {
    "ERROR "@ + action + " is missing arguments\r\n"@
}

/// The diagnostic line for a numeric field that does not parse.
pub open spec fn bad_number_response(token: Seq<char>) -> Seq<char> {
    "ERROR not a number: "@ + token + "\r\n"@
}

/// The diagnostic line naming an unrecognized action.
pub open spec fn unknown_response(action: Seq<char>) -> Seq<char> {
    "HTTP/1.1 500 ERR\r\nNot a valid command: "@ + action + "\r\n"@
}

/// The diagnostic line for a rejected command line.
pub open spec fn failure_text(f: ParseFailV) -> Seq<char> {
    match f {
        ParseFailV::EmptyV => empty_failure_response(),
        ParseFailV::MissingArgumentV { action } => missing_argument_response(action),
        ParseFailV::BadNumberV { token } => bad_number_response(token),
        ParseFailV::UnknownV { action } => unknown_response(action),
    }
}

/// The diagnostic line sent for a rejected command line; the connection
/// stays open.
pub fn failure_response(f: &ParseFail) -> (r: String)
    ensures
        r@ == failure_text(f@),
{
    match f {
        ParseFail::Empty => "ERROR empty command\r\n".to_owned(),
        ParseFail::MissingArgument { action } => {
            let mut r = "ERROR ".to_owned();
            r.append(action.as_str());
            r.append(" is missing arguments\r\n");
            r
        },
        ParseFail::BadNumber { token } => {
            let mut r = "ERROR not a number: ".to_owned();
            r.append(token.as_str());
            r.append("\r\n");
            r
        },
        ParseFail::Unknown { action } => {
            let mut r = "HTTP/1.1 500 ERR\r\nNot a valid command: ".to_owned();
            r.append(action.as_str());
            r.append("\r\n");
            r
        },
    }
}

} // verus!
