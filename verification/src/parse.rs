use vstd::prelude::*;

verus! {

use vstd::string::*;

// ---------------------------------------------------------------------------
// Tokenization: a command line is a sequence of tokens separated by
// whitespace.
// ---------------------------------------------------------------------------

/// The characters that separate tokens on a command line: the Unicode
/// white-space set, as line splitting by whitespace recognizes it.
pub open spec fn is_space(c: char) -> bool {
    let n = c as int;
    n == 0x09 || n == 0x0A || n == 0x0B || n == 0x0C || n == 0x0D || n == 0x20 || n == 0x85 || n
        == 0xA0 || n == 0x1680 || (0x2000 <= n && n <= 0x200A) || n == 0x2028 || n == 0x2029 || n
        == 0x202F || n == 0x205F || n == 0x3000
}

/// Length of the token at the head of `s`: the number of leading characters
/// before the first separator.
pub open spec fn token_len(s: Seq<char>) -> nat
    decreases s.len(),
{
    if s.len() == 0 || is_space(s[0]) {
        0
    } else {
        1 + token_len(s.drop_first())
    }
}

/// The tokens of a line, in order: maximal runs of non-separator characters.
pub open spec fn tokens_of(s: Seq<char>) -> Seq<Seq<char>>
    decreases s.len(),
    via tokens_of_decreases
{
    if s.len() == 0 {
        Seq::empty()
    } else if is_space(s[0]) {
        tokens_of(s.drop_first())
    } else {
        seq![s.take(token_len(s) as int)] + tokens_of(s.skip(token_len(s) as int))
    }
}

proof fn lemma_token_len_le(s: Seq<char>)
    ensures
        token_len(s) <= s.len(),
    decreases s.len(),
{
    if s.len() > 0 && !is_space(s[0]) {
        lemma_token_len_le(s.drop_first());
    }
}

#[via_fn]
proof fn tokens_of_decreases(s: Seq<char>) {
    if s.len() > 0 && !is_space(s[0]) {
        lemma_token_len_le(s);
        assert(token_len(s) >= 1);
    }
}

proof fn lemma_tokens_skip_space(s: Seq<char>, i: int)
    requires
        0 <= i < s.len(),
        is_space(s[i]),
    ensures
        tokens_of(s.skip(i)) == tokens_of(s.skip(i + 1)),
{
    assert(s.skip(i)[0] == s[i]);
    assert(s.skip(i).drop_first() =~= s.skip(i + 1));
}

proof fn lemma_token_len_at(s: Seq<char>, i: int, j: int)
    requires
        0 <= i <= j <= s.len(),
        forall|m: int| i <= m < j ==> !is_space(#[trigger] s[m]),
        j == s.len() || is_space(s[j]),
    ensures
        token_len(s.skip(i)) == j - i,
    decreases j - i,
{
    if i == j {
        if j < s.len() {
            assert(s.skip(i)[0] == s[i]);
        }
    } else {
        assert(s.skip(i)[0] == s[i]);
        lemma_token_len_at(s, i + 1, j);
        assert(s.skip(i).drop_first() =~= s.skip(i + 1));
    }
}

proof fn lemma_tokens_at_token(s: Seq<char>, i: int, j: int)
    requires
        0 <= i < j <= s.len(),
        forall|m: int| i <= m < j ==> !is_space(#[trigger] s[m]),
        j == s.len() || is_space(s[j]),
    ensures
        tokens_of(s.skip(i)) == seq![s.subrange(i, j)] + tokens_of(s.skip(j)),
{
    lemma_token_len_at(s, i, j);
    assert(s.skip(i)[0] == s[i]);
    assert(!is_space(s.skip(i)[0]));
    assert(tokens_of(s.skip(i)) == seq![s.skip(i).take(j - i)] + tokens_of(
        s.skip(i).skip(j - i),
    ));
    assert(s.skip(i).take(j - i) =~= s.subrange(i, j));
    assert(s.skip(i).skip(j - i) =~= s.skip(j));
}

/// Whether `c` separates tokens.
pub fn is_space_char(c: char) -> (r: bool)
    ensures
        r == is_space(c),
{
    let n = c as u32;
    n == 0x09 || n == 0x0A || n == 0x0B || n == 0x0C || n == 0x0D || n == 0x20 || n == 0x85 || n
        == 0xA0 || n == 0x1680 || (0x2000 <= n && n <= 0x200A) || n == 0x2028 || n == 0x2029 || n
        == 0x202F || n == 0x205F || n == 0x3000
}

/// Split a line into its whitespace-separated tokens.
pub fn tokenize(s: &str) -> (r: Vec<String>)
    ensures
        r@.map_values(|t: String| t@) == tokens_of(s@),
{
    let n = s.unicode_len();
    let mut r: Vec<String> = Vec::new();
    let mut i: usize = 0;
    proof {
        assert(s@.skip(0) =~= s@);
        assert(r@.map_values(|t: String| t@) =~= Seq::<Seq<char>>::empty());
        assert(Seq::<Seq<char>>::empty() + tokens_of(s@) =~= tokens_of(s@));
    }
    while i < n
        invariant
            i <= n,
            n == s@.len(),
            tokens_of(s@) == r@.map_values(|t: String| t@) + tokens_of(s@.skip(i as int)),
        decreases n - i,
    {
        if is_space_char(s.get_char(i)) {
            proof {
                lemma_tokens_skip_space(s@, i as int);
            }
            i = i + 1;
        } else {
            let start = i;
            let mut j = i + 1;
            while j < n && !is_space_char(s.get_char(j))
                invariant
                    start < j <= n,
                    n == s@.len(),
                    forall|m: int| start <= m < j ==> !is_space(#[trigger] s@[m]),
                decreases n - j,
            {
                j = j + 1;
            }
            let tok = s.substring_char(start, j).to_owned();
            proof {
                lemma_tokens_at_token(s@, start as int, j as int);
                let f = |t: String| t@;
                assert((r@.push(tok)).map_values(f) =~= r@.map_values(f).push(tok@));
                assert(r@.map_values(f).push(tok@) + tokens_of(s@.skip(j as int)) =~= r@
                    .map_values(f) + (seq![tok@] + tokens_of(s@.skip(j as int))));
            }
            r.push(tok);
            i = j;
        }
    }
    proof {
        assert(s@.skip(n as int) =~= Seq::<char>::empty());
        assert(r@.map_values(|t: String| t@) + tokens_of(Seq::<char>::empty()) =~= r@.map_values(
            |t: String| t@,
        ));
    }
    r
}

/// Character-wise string equality, with the sequence of characters as its
/// meaning.
pub fn str_eq(a: &str, b: &str) -> (r: bool)
    ensures
        r == (a@ == b@),
{
    let n = a.unicode_len();
    let m = b.unicode_len();
    if n != m {
        return false;
    }
    let mut i: usize = 0;
    while i < n
        invariant
            i <= n,
            n == a@.len(),
            n == b@.len(),
            forall|k: int| 0 <= k < i ==> a@[k] == b@[k],
        decreases n - i,
    {
        if a.get_char(i) != b.get_char(i) {
            return false;
        }
        i = i + 1;
    }
    proof {
        assert(a@ =~= b@);
    }
    true
}

// ---------------------------------------------------------------------------
// Decimal number tokens.
// ---------------------------------------------------------------------------

/// Whether `c` is a decimal digit.
pub open spec fn is_digit(c: char) -> bool {
    48 <= c as int && c as int <= 57
}

/// The numeric value of a digit character.
pub open spec fn digit_val(c: char) -> nat {
    (c as int - 48) as nat
}

/// Whether every character of `s` is a decimal digit.
pub open spec fn all_digits(s: Seq<char>) -> bool {
    forall|i: int| 0 <= i < s.len() ==> is_digit(#[trigger] s[i])
}

/// The value of a run of decimal digits, most significant first.
pub open spec fn digits_val(s: Seq<char>) -> nat
    decreases s.len(),
{
    if s.len() == 0 {
        0
    } else {
        digits_val(s.drop_last()) * 10 + digit_val(s.last())
    }
}

/// The value of an unsigned decimal token: an optional leading `+`, then at
/// least one digit.
pub open spec fn spec_parse_unsigned(s: Seq<char>) -> Option<nat> {
    let body = if s.len() > 0 && s[0] == '+' {
        s.drop_first()
    } else {
        s
    };
    if body.len() > 0 && all_digits(body) {
        Some(digits_val(body))
    } else {
        None
    }
}

/// The value of a signed decimal token: an optional leading `-` or `+`, then
/// at least one digit.
pub open spec fn spec_parse_signed(s: Seq<char>) -> Option<int> {
    if s.len() > 0 && s[0] == '-' {
        let body = s.drop_first();
        if body.len() > 0 && all_digits(body) {
            Some(-(digits_val(body) as int))
        } else {
            None
        }
    } else {
        match spec_parse_unsigned(s) {
            Some(m) => Some(m as int),
            None => None,
        }
    }
}

proof fn lemma_digits_take_step(s: Seq<char>, i: int)
    requires
        0 <= i < s.len(),
    ensures
        digits_val(s.take(i + 1)) == digits_val(s.take(i)) * 10 + digit_val(s[i]),
{
    assert(s.take(i + 1).drop_last() =~= s.take(i));
    assert(s.take(i + 1).last() == s[i]);
}

proof fn lemma_digits_prefix_le(s: Seq<char>, k: int)
    requires
        0 <= k <= s.len(),
    ensures
        digits_val(s) >= digits_val(s.take(k)),
    decreases s.len() - k,
{
    if k == s.len() {
        assert(s.take(k) =~= s);
    } else {
        lemma_digits_take_step(s, k);
        lemma_digits_prefix_le(s, k + 1);
    }
}

/// Parse a token of decimal digits, rejecting values above `max`.
fn parse_digits_str(t: &str, max: u64) -> (r: Option<u64>)
    ensures
        match r {
            Some(v) => t@.len() > 0 && all_digits(t@) && v as nat == digits_val(t@) && v <= max,
            None => t@.len() == 0 || !all_digits(t@) || digits_val(t@) > max,
        },
{
    let n = t.unicode_len();
    if n == 0 {
        return None;
    }
    let mut acc: u64 = 0;
    let mut i: usize = 0;
    proof {
        assert(t@.take(0) =~= Seq::<char>::empty());
    }
    while i < n
        invariant
            i <= n,
            n == t@.len(),
            all_digits(t@.take(i as int)),
            acc as nat == digits_val(t@.take(i as int)),
            acc <= max,
        decreases n - i,
    {
        let c = t.get_char(i);
        let code = c as u32;
        if code < 48 || code > 57 {
            proof {
                assert(!is_digit(t@[i as int]));
            }
            return None;
        }
        let d = (code - 48) as u64;
        proof {
            lemma_digits_take_step(t@, i as int);
        }
        if acc > max / 10 || (acc == max / 10 && d > max % 10) {
            proof {
                assert(max / 10 * 10 + max % 10 == max) by (nonlinear_arith);
                assert(acc * 10 + d > max) by (nonlinear_arith)
                    requires
                        acc > max / 10 || (acc == max / 10 && d > max % 10),
                        max / 10 * 10 + max % 10 == max,
                        d <= 9,
                ;
                assert(digits_val(t@.take(i as int + 1)) > max);
                lemma_digits_prefix_le(t@, i as int + 1);
            }
            return None;
        }
        proof {
            assert(acc * 10 + d <= max) by (nonlinear_arith)
                requires
                    acc <= max / 10,
                    !(acc > max / 10 || (acc == max / 10 && d > max % 10)),
                    max / 10 * 10 + max % 10 == max,
                    d <= 9,
            ;
            assert(max / 10 * 10 + max % 10 == max) by (nonlinear_arith);
            assert(all_digits(t@.take(i as int + 1)));
        }
        acc = acc * 10 + d;
        i = i + 1;
    }
    proof {
        assert(t@.take(n as int) =~= t@);
    }
    Some(acc)
}

/// Parse an unsigned decimal token, rejecting values above `max`.
fn parse_unsigned_str(t: &str, max: u64) -> (r: Option<u64>)
    ensures
        match spec_parse_unsigned(t@) {
            Some(m) => if m <= max { r == Some(m as u64) } else { r is None },
            None => r is None,
        },
{
    let n = t.unicode_len();
    if n > 0 && t.get_char(0) == '+' {
        let rest = t.substring_char(1, n);
        let r = parse_digits_str(rest, max);
        proof {
            assert(rest@ =~= t@.drop_first());
        }
        r
    } else {
        parse_digits_str(t, max)
    }
}

/// Parse a signed decimal token, rejecting values outside the machine's
/// signed word.
fn parse_isize_str(t: &str) -> (r: Option<isize>)
    ensures
        match spec_parse_signed(t@) {
            Some(m) => if isize::MIN <= m <= isize::MAX {
                r == Some(m as isize)
            } else {
                r is None
            },
            None => r is None,
        },
{
    let n = t.unicode_len();
    if n > 0 && t.get_char(0) == '-' {
        let rest = t.substring_char(1, n);
        let mag_max: u64 = (isize::MAX as u64) + 1;
        match parse_digits_str(rest, mag_max) {
            Some(m) => {
                proof {
                    assert(rest@ =~= t@.drop_first());
                }
                if m == mag_max {
                    Some(isize::MIN)
                } else {
                    Some(-(m as isize))
                }
            },
            None => {
                proof {
                    assert(rest@ =~= t@.drop_first());
                }
                None
            },
        }
    } else {
        match parse_unsigned_str(t, isize::MAX as u64) {
            Some(v) => Some(v as isize),
            None => None,
        }
    }
}

// ---------------------------------------------------------------------------
// Request grammar:
//   <command> <key> <flags> <exptime> <byte_count> [noreply]
//   get <key>
// ---------------------------------------------------------------------------

/// The five write commands.
#[derive(Clone, Copy, PartialEq, Eq, Debug)]
pub enum Action {
    SetCmd,
    AddCmd,
    ReplaceCmd,
    AppendCmd,
    PrependCmd,
}

/// A parsed request. For a write command the payload is not part of the
/// command line: it follows on the connection and is `byte_count` bytes
/// long.
pub enum Request {
    Get { key: String },
    Write {
        action: Action,
        key: String,
        flags: u16,
        exptime: isize,
        byte_count: usize,
        noreply: bool,
    },
}

/// Why a command line was rejected.
pub enum ParseFail {
    /// The line holds no tokens at all.
    Empty,
    /// The action is known but tokens are missing after it.
    MissingArgument { action: String },
    /// A numeric field does not parse or is out of range.
    BadNumber { token: String },
    /// The action token names no known command.
    Unknown { action: String },
}

/// Model of a parsed request.
pub ghost enum RequestV {
    GetV { key: Seq<char> },
    WriteV {
        action: Action,
        key: Seq<char>,
        flags: u16,
        exptime: int,
        byte_count: nat,
        noreply: bool,
    },
}

/// Model of a rejected command line.
pub ghost enum ParseFailV {
    EmptyV,
    MissingArgumentV { action: Seq<char> },
    BadNumberV { token: Seq<char> },
    UnknownV { action: Seq<char> },
}

impl View for Request {
    type V = RequestV;

    open spec fn view(&self) -> RequestV {
        match self {
            Request::Get { key } => RequestV::GetV { key: key@ },
            Request::Write { action, key, flags, exptime, byte_count, noreply } => {
                RequestV::WriteV {
                    action: *action,
                    key: key@,
                    flags: *flags,
                    exptime: *exptime as int,
                    byte_count: *byte_count as nat,
                    noreply: *noreply,
                }
            },
        }
    }
}

impl View for ParseFail {
    type V = ParseFailV;

    open spec fn view(&self) -> ParseFailV {
        match self {
            ParseFail::Empty => ParseFailV::EmptyV,
            ParseFail::MissingArgument { action } => {
                ParseFailV::MissingArgumentV { action: action@ }
            },
            ParseFail::BadNumber { token } => ParseFailV::BadNumberV { token: token@ },
            ParseFail::Unknown { action } => ParseFailV::UnknownV { action: action@ },
        }
    }
}

/// The write command named by an action token, if any.
pub open spec fn spec_action_of(tok: Seq<char>) -> Option<Action> {
    if tok == "set"@ {
        Some(Action::SetCmd)
    } else if tok == "add"@ {
        Some(Action::AddCmd)
    } else if tok == "replace"@ {
        Some(Action::ReplaceCmd)
    } else if tok == "append"@ {
        Some(Action::AppendCmd)
    } else if tok == "prepend"@ {
        Some(Action::PrependCmd)
    } else {
        None
    }
}

/// Whether a token is a valid flags field: an unsigned 16-bit decimal.
pub open spec fn valid_u16_token(t: Seq<char>) -> bool {
    spec_parse_unsigned(t) matches Some(m) && m <= u16::MAX
}

/// Whether a token is a valid exptime field: a signed decimal that fits the
/// machine's signed word.
pub open spec fn valid_isize_token(t: Seq<char>) -> bool {
    spec_parse_signed(t) matches Some(m) && isize::MIN <= m <= isize::MAX
}

/// Whether a token is a valid byte count field: an unsigned decimal that
/// fits the machine's word.
pub open spec fn valid_usize_token(t: Seq<char>) -> bool {
    spec_parse_unsigned(t) matches Some(m) && m <= usize::MAX
}

/// The value of an unsigned token, taken where it is known valid.
pub open spec fn unsigned_of(t: Seq<char>) -> nat {
    match spec_parse_unsigned(t) {
        Some(m) => m,
        None => 0,
    }
}

/// The value of a signed token, taken where it is known valid.
pub open spec fn signed_of(t: Seq<char>) -> int {
    match spec_parse_signed(t) {
        Some(m) => m,
        None => 0,
    }
}

/// What parsing a command line yields: the request, or the reason it is
/// rejected. A `get` line needs a key; a write line needs key, flags,
/// exptime and byte count, with `noreply` exactly when a sixth token reads
/// `noreply`. Tokens beyond those used are ignored.
pub open spec fn spec_parse(line: Seq<char>) -> Result<RequestV, ParseFailV> {
    let toks = tokens_of(line);
    if toks.len() == 0 {
        Err(ParseFailV::EmptyV)
    } else if toks[0] == "get"@ {
        if toks.len() < 2 {
            Err(ParseFailV::MissingArgumentV { action: toks[0] })
        } else {
            Ok(RequestV::GetV { key: toks[1] })
        }
    } else {
        match spec_action_of(toks[0]) {
            Some(a) => {
                if toks.len() < 5 {
                    Err(ParseFailV::MissingArgumentV { action: toks[0] })
                } else if !valid_u16_token(toks[2]) {
                    Err(ParseFailV::BadNumberV { token: toks[2] })
                } else if !valid_isize_token(toks[3]) {
                    Err(ParseFailV::BadNumberV { token: toks[3] })
                } else if !valid_usize_token(toks[4]) {
                    Err(ParseFailV::BadNumberV { token: toks[4] })
                } else {
                    Ok(RequestV::WriteV {
                        action: a,
                        key: toks[1],
                        flags: unsigned_of(toks[2]) as u16,
                        exptime: signed_of(toks[3]),
                        byte_count: unsigned_of(toks[4]),
                        noreply: toks.len() >= 6 && toks[5] == "noreply"@,
                    })
                }
            },
            None => Err(ParseFailV::UnknownV { action: toks[0] }),
        }
    }
}

/// Parse one command line.
pub fn parse_request(line: &str) -> (r: Result<Request, ParseFail>)
    ensures
        match r {
            Ok(req) => spec_parse(line@) == Ok::<RequestV, ParseFailV>(req@),
            Err(e) => spec_parse(line@) == Err::<RequestV, ParseFailV>(e@),
        },
{
    let toks = tokenize(line);
    let ghost tv = tokens_of(line@);
    proof {
        assert(forall|k: int|
            0 <= k < toks@.len() ==> (#[trigger] toks@[k])@ == tv[k]);
    }
    if toks.len() == 0 {
        return Err(ParseFail::Empty);
    }
    if str_eq(toks[0].as_str(), "get") {
        if toks.len() < 2 {
            return Err(ParseFail::MissingArgument { action: toks[0].clone() });
        }
        return Ok(Request::Get { key: toks[1].clone() });
    }
    let act: Option<Action> = if str_eq(toks[0].as_str(), "set") {
        Some(Action::SetCmd)
    } else if str_eq(toks[0].as_str(), "add") {
        Some(Action::AddCmd)
    } else if str_eq(toks[0].as_str(), "replace") {
        Some(Action::ReplaceCmd)
    } else if str_eq(toks[0].as_str(), "append") {
        Some(Action::AppendCmd)
    } else if str_eq(toks[0].as_str(), "prepend") {
        Some(Action::PrependCmd)
    } else {
        None
    };
    match act {
        None => Err(ParseFail::Unknown { action: toks[0].clone() }),
        Some(a) => {
            if toks.len() < 5 {
                return Err(ParseFail::MissingArgument { action: toks[0].clone() });
            }
            let flags: u16 = match parse_unsigned_str(toks[2].as_str(), 65535) {
                Some(v) => v as u16,
                None => {
                    return Err(ParseFail::BadNumber { token: toks[2].clone() });
                },
            };
            let exptime: isize = match parse_isize_str(toks[3].as_str()) {
                Some(v) => v,
                None => {
                    return Err(ParseFail::BadNumber { token: toks[3].clone() });
                },
            };
            let byte_count: usize = match parse_unsigned_str(toks[4].as_str(), usize::MAX as u64) {
                Some(v) => v as usize,
                None => {
                    return Err(ParseFail::BadNumber { token: toks[4].clone() });
                },
            };
            let noreply = toks.len() >= 6 && str_eq(toks[5].as_str(), "noreply");
            Ok(Request::Write {
                action: a,
                key: toks[1].clone(),
                flags,
                exptime,
                byte_count,
                noreply,
            })
        },
    }
}

/// The characters that a lossy text decode of raw bytes yields; the result
/// depends on the bytes alone.
pub uninterp spec fn lossy_decode_of(b: Seq<u8>) -> Seq<char>;

/// Relies on `String::from_utf8_lossy`: the decoded text is a function of
/// the raw bytes, with invalid sequences replaced.
#[verifier::external_body]
fn lossy_decode(b: &[u8]) -> (r: String)
    ensures
        r@ == lossy_decode_of(b@),
{
    String::from_utf8_lossy(b).into_owned()
}

/// Parse one command line handed over as the raw bytes read from a
/// connection, decoding them lossily first.
pub fn parse_request_bytes(buf: &[u8]) -> (r: Result<Request, ParseFail>)
    ensures
        match r {
            Ok(req) => spec_parse(lossy_decode_of(buf@)) == Ok::<RequestV, ParseFailV>(req@),
            Err(e) => spec_parse(lossy_decode_of(buf@)) == Err::<RequestV, ParseFailV>(e@),
        },
{
    let line = lossy_decode(buf);
    parse_request(line.as_str())
}

} // verus!
