//! LSP framing: each message is a `Content-Length` header, a blank
//! line, then a body of exactly that many bytes. The encoder here
//! produces the header block exactly; the decimal length round-trips
//! through the parser, and the message kinds of the protocol are told
//! apart by their fields.

use vstd::prelude::*;
use vstd::string::*;

use crate::errors::LspProxyError;
use crate::manager::{has_prefix, spec_has_prefix};

verus! {

/// The decimal digit character for `d`.
pub open spec fn spec_digit_char(d: nat) -> char {
    if d == 0 {
        '0'
    } else if d == 1 {
        '1'
    } else if d == 2 {
        '2'
    } else if d == 3 {
        '3'
    } else if d == 4 {
        '4'
    } else if d == 5 {
        '5'
    } else if d == 6 {
        '6'
    } else if d == 7 {
        '7'
    } else if d == 8 {
        '8'
    } else {
        '9'
    }
}

/// The decimal rendering of `n`, most significant digit first, no
/// leading zeros (a lone `0` for zero).
pub open spec fn spec_digits(n: nat) -> Seq<char>
    decreases n,
{
    if n < 10 {
        seq![spec_digit_char(n)]
    } else {
        spec_digits(n / 10).push(spec_digit_char(n % 10))
    }
}

fn digit_str(d: u64) -> (r: &'static str)
    requires
        d < 10,
    ensures
        r@ == seq![spec_digit_char(d as nat)],
{
    proof {
        reveal_strlit("0");
        reveal_strlit("1");
        reveal_strlit("2");
        reveal_strlit("3");
        reveal_strlit("4");
        reveal_strlit("5");
        reveal_strlit("6");
        reveal_strlit("7");
        reveal_strlit("8");
        reveal_strlit("9");
        assert("0"@ =~= seq![spec_digit_char(0)]);
        assert("1"@ =~= seq![spec_digit_char(1)]);
        assert("2"@ =~= seq![spec_digit_char(2)]);
        assert("3"@ =~= seq![spec_digit_char(3)]);
        assert("4"@ =~= seq![spec_digit_char(4)]);
        assert("5"@ =~= seq![spec_digit_char(5)]);
        assert("6"@ =~= seq![spec_digit_char(6)]);
        assert("7"@ =~= seq![spec_digit_char(7)]);
        assert("8"@ =~= seq![spec_digit_char(8)]);
        assert("9"@ =~= seq![spec_digit_char(9)]);
    }
    if d == 0 {
        "0"
    } else if d == 1 {
        "1"
    } else if d == 2 {
        "2"
    } else if d == 3 {
        "3"
    } else if d == 4 {
        "4"
    } else if d == 5 {
        "5"
    } else if d == 6 {
        "6"
    } else if d == 7 {
        "7"
    } else if d == 8 {
        "8"
    } else {
        "9"
    }
}

fn push_digits(s: &mut String, n: u64)
    ensures
        final(s)@ == old(s)@ + spec_digits(n as nat),
    decreases n,
{
    if n < 10 {
        s.append(digit_str(n));
    } else {
        push_digits(s, n / 10);
        s.append(digit_str(n % 10));
        proof {
            assert(old(s)@ + spec_digits((n / 10) as nat) + seq![
                spec_digit_char((n % 10) as nat),
            ] =~= old(s)@ + spec_digits(n as nat));
        }
    }
}

/// The frame for a message body, exactly as the protocol asks: the
/// `Content-Length` header with the body's length in decimal, a blank
/// line, then the body.
pub fn encode_frame(body: &str) -> (r: String)
    ensures
        r@ == "Content-Length: "@ + spec_digits(body@.len()) + "\r\n\r\n"@ + body@,
{
    let len = body.unicode_len();
    let mut s = String::from_str("Content-Length: ");
    push_digits(&mut s, len as u64);
    s.append("\r\n\r\n");
    s.append(body);
    s
}

/// The value a digit sequence denotes, or nothing when `s` is not a
/// plain nonempty digit string.
pub open spec fn spec_parse_digits(s: Seq<char>) -> Option<nat>
    decreases s.len(),
{
    if s.len() == 0 {
        None
    } else if !spec_is_digit(s.last()) {
        None
    } else if s.len() == 1 {
        Some(spec_digit_value(s.last()))
    } else {
        match spec_parse_digits(s.drop_last()) {
            Some(h) => Some(h * 10 + spec_digit_value(s.last())),
            None => None,
        }
    }
}

pub open spec fn spec_is_digit(c: char) -> bool {
    '0' <= c <= '9'
}

pub open spec fn spec_digit_value(c: char) -> nat {
    ((c as int) - ('0' as int)) as nat
}

/// Rendering and parsing a length agree: the decimal digits of `n`
/// parse back to exactly `n`.
pub proof fn lemma_digits_roundtrip(n: nat)
    ensures
        spec_parse_digits(spec_digits(n)) == Some(n),
    decreases n,
{
    if n < 10 {
        assert(spec_is_digit(spec_digit_char(n)));
        assert(spec_digit_value(spec_digit_char(n)) == n);
    } else {
        lemma_digits_roundtrip(n / 10);
        let s = spec_digits(n / 10).push(spec_digit_char(n % 10));
        assert(s.drop_last() =~= spec_digits(n / 10));
        assert(s.last() == spec_digit_char(n % 10));
        assert(spec_digit_value(spec_digit_char(n % 10)) == n % 10);
        assert(s.len() > 1) by {
            lemma_digits_len(n / 10);
        }
        assert((n / 10) * 10 + n % 10 == n) by (nonlinear_arith);
    }
}

pub proof fn lemma_digits_len(n: nat)
    ensures
        spec_digits(n).len() >= 1,
    decreases n,
{
    if n >= 10 {
        lemma_digits_len(n / 10);
    }
}

/// Parses a plain nonempty decimal digit string, rejecting values that
/// do not fit in a `u64`.
#[verifier::loop_isolation(false)]
pub fn parse_digits(s: &str) -> (r: Option<u64>)
    ensures
        match r {
            Some(v) => spec_parse_digits(s@) == Some(v as nat),
            None => spec_parse_digits(s@) is None || (spec_parse_digits(s@) matches Some(v) && v
                > u64::MAX),
        },
{
    let len = s.unicode_len();
    if len == 0 {
        return None;
    }
    let mut acc: u64 = 0;
    let mut i: usize = 0;
    while i < len
        invariant
            i <= len,
            i > 0 ==> spec_parse_digits(s@.take(i as int)) == Some(acc as nat),
            i == 0 ==> acc == 0,
        decreases len - i,
    {
        let c = s.get_char(i);
        if c < '0' || c > '9' {
            proof {
                lemma_parse_digits_prefix_none(s@, i as int);
            }
            return None;
        }
        let d: u64 = (c as u32 as u64) - 48;
        proof {
            assert(s@.take(i as int + 1).drop_last() =~= s@.take(i as int));
            assert(s@.take(i as int + 1).last() == s@[i as int]);
            assert(spec_parse_digits(s@.take(i as int + 1)) == Some((acc * 10 + d) as nat));
        }
        let wide: u128 = (acc as u128) * 10 + (d as u128);
        if wide > u64::MAX as u128 {
            proof {
                if i as int + 1 < len as int {
                    lemma_parse_digits_grows(s@, i as int + 1);
                } else {
                    assert(s@.take(i as int + 1) =~= s@);
                }
            }
            return None;
        }
        acc = wide as u64;
        i = i + 1;
    }
    proof {
        assert(s@.take(len as int) =~= s@);
    }
    Some(acc)
}

/// A non-digit at position `i` sinks the whole parse.
proof fn lemma_parse_digits_prefix_none(s: Seq<char>, i: int)
    requires
        0 <= i < s.len(),
        !spec_is_digit(s[i]),
    ensures
        spec_parse_digits(s) is None,
    decreases s.len(),
{
    if s.len() > 0 && i < s.len() - 1 {
        assert(s.drop_last()[i] == s[i]);
        lemma_parse_digits_prefix_none(s.drop_last(), i);
    }
}

/// A parsed value is at least the value of any of its digit prefixes.
proof fn lemma_parse_digits_grows(s: Seq<char>, i: int)
    requires
        0 < i < s.len(),
        spec_parse_digits(s.take(i)) is Some,
    ensures
        spec_parse_digits(s) is None || (spec_parse_digits(s) matches Some(v) && v
            >= spec_parse_digits(s.take(i))->Some_0),
    decreases s.len() - i,
{
    let t = s.take(i + 1);
    assert(t.drop_last() =~= s.take(i));
    assert(t.last() == s[i]);
    if !spec_is_digit(s[i]) {
        lemma_parse_digits_prefix_none(s, i);
    } else {
        let v = spec_parse_digits(s.take(i))->Some_0;
        assert(spec_parse_digits(t) == Some(v * 10 + spec_digit_value(s[i])));
        assert(v * 10 + spec_digit_value(s[i]) >= v) by (nonlinear_arith);
        if i + 1 == s.len() {
            assert(t =~= s);
        } else {
            lemma_parse_digits_grows(s, i + 1);
        }
    }
}

/// Reads the length out of a `Content-Length` header line. Any other
/// header name, or a value that is not a plain decimal fitting a `u64`,
/// is a protocol violation.
#[verifier::loop_isolation(false)]
pub fn header_content_length(line: &str) -> (r: Result<u64, LspProxyError>)
    ensures
        match r {
            Ok(v) => spec_has_prefix(line@, "Content-Length: "@) && spec_parse_digits(
                line@.skip("Content-Length: "@.len() as int),
            ) == Some(v as nat),
            Err(e) => e == LspProxyError::ProtocolError && (spec_has_prefix(
                line@,
                "Content-Length: "@,
            ) ==> {
                let parsed = spec_parse_digits(line@.skip("Content-Length: "@.len() as int));
                parsed is None || parsed->Some_0 > u64::MAX
            }),
        },
{
    let p = "Content-Length: ";
    let pl = p.unicode_len();
    let ll = line.unicode_len();
    if ll < pl {
        return Err(LspProxyError::ProtocolError);
    }
    let mut i: usize = 0;
    while i < pl
        invariant
            i <= pl,
            forall|j: int| 0 <= j < i ==> line@[j] == p@[j],
        decreases pl - i,
    {
        if line.get_char(i) != p.get_char(i) {
            proof {
                assert(!spec_has_prefix(line@, p@)) by {
                    if spec_has_prefix(line@, p@) {
                        assert(line@.subrange(0, pl as int)[i as int] == p@[i as int]);
                    }
                }
            }
            return Err(LspProxyError::ProtocolError);
        }
        i = i + 1;
    }
    proof {
        assert(line@.subrange(0, pl as int) =~= p@);
    }
    let rest = line.substring_char(pl, ll);
    proof {
        assert(rest@ =~= line@.skip(pl as int));
    }
    match parse_digits(rest) {
        Some(v) => Ok(v),
        None => Err(LspProxyError::ProtocolError),
    }
}

/// Scans a message's header block line by line: the `Content-Length`
/// header is recorded, every other header — `Content-Type` among them —
/// is accepted and ignored, and the blank line ends the block, which
/// must by then have named a length.
pub struct HeaderScanner {
    pub content_length: Option<u64>,
}

impl HeaderScanner {
    pub fn new() -> (r: HeaderScanner)
        ensures
            r.content_length is None,
    {
        HeaderScanner { content_length: None }
    }

    /// Feeds one header line, stripped of its CRLF. `Ok(Some(n))` ends
    /// the block with body length `n` (on the blank line); `Ok(None)`
    /// asks for the next line. A `Content-Length` line whose value is
    /// not a plain decimal fitting a `u64`, or a block ending without
    /// any `Content-Length`, is a protocol violation.
    pub fn feed_line(&mut self, line: &str) -> (r: Result<Option<u64>, LspProxyError>)
        ensures
            line@.len() == 0 ==> *final(self) == *old(self) && r == match old(
                self,
            ).content_length {
                Some(n) => Ok::<Option<u64>, LspProxyError>(Some(n)),
                None => Err::<Option<u64>, LspProxyError>(LspProxyError::ProtocolError),
            },
            line@.len() > 0 && spec_has_prefix(line@, "Content-Length: "@) ==> {
                let parsed = spec_parse_digits(line@.skip("Content-Length: "@.len() as int));
                if parsed is Some && parsed->Some_0 <= u64::MAX {
                    &&& r == Ok::<Option<u64>, LspProxyError>(None)
                    &&& final(self).content_length == Some(parsed->Some_0 as u64)
                } else {
                    &&& r == Err::<Option<u64>, LspProxyError>(LspProxyError::ProtocolError)
                    &&& *final(self) == *old(self)
                }
            },
            line@.len() > 0 && !spec_has_prefix(line@, "Content-Length: "@) ==> r == Ok::<
                Option<u64>,
                LspProxyError,
            >(None) && *final(self) == *old(self),
    {
        if line.unicode_len() == 0 {
            return match self.content_length {
                Some(n) => Ok(Some(n)),
                None => Err(LspProxyError::ProtocolError),
            };
        }
        if has_prefix(line, "Content-Length: ") {
            match header_content_length(line) {
                Ok(n) => {
                    self.content_length = Some(n);
                    Ok(None)
                },
                Err(_) => Err(LspProxyError::ProtocolError),
            }
        } else {
            Ok(None)
        }
    }
}

/// The three message kinds the protocol distinguishes, and the frames
/// that fit none of them.
#[derive(Clone, Copy, PartialEq, Eq, Structural, Debug)]
pub enum MessageKind {
    /// Has a method and an id: the peer expects a response.
    Request,
    /// Has an id and a result or error, but no method.
    Response,
    /// Has a method and no id: fire-and-forget.
    Notification,
    /// None of the above: a protocol violation.
    Invalid,
}

/// Classifies a decoded message by which fields it carries, as the
/// protocol defines the kinds.
pub fn classify_message(has_method: bool, has_id: bool, has_result: bool, has_error: bool) -> (r:
    MessageKind)
    ensures
        has_method && has_id ==> r == MessageKind::Request,
        has_method && !has_id ==> r == MessageKind::Notification,
        !has_method && has_id && (has_result || has_error) ==> r == MessageKind::Response,
        !has_method && !(has_id && (has_result || has_error)) ==> r == MessageKind::Invalid,
{
    if has_method {
        if has_id {
            MessageKind::Request
        } else {
            MessageKind::Notification
        }
    } else if has_id && (has_result || has_error) {
        MessageKind::Response
    } else {
        MessageKind::Invalid
    }
}

} // verus!
