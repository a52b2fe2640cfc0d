//! Source endpoints and stream URLs. A source is given as
//! `scheme://host:port`; a missing scheme means `console`, a missing host
//! `127.0.0.1`, a missing port `51441`. A spectated stream is given either
//! as a full WebSocket URL or as a bare stream id, which expands to the
//! relay's viewer URL.

use vstd::prelude::*;
use vstd::utf8::encode_utf8;

verus! {

/// Default port of a source endpoint.
pub const DEFAULT_PORT: u16 = 51441;

/// Which ingest adapter serves an endpoint.
#[derive(Debug, Clone, Copy, PartialEq, Eq, Structural)]
pub enum SourceKind {
    /// TCP console adapter.
    Console,
    /// Reliable-UDP emulator adapter.
    Emulator,
}

/// A parsed source endpoint.
pub struct SourceEndpoint {
    pub kind: SourceKind,
    pub host: String,
    pub port: u16,
}

/// Why a source string was rejected.
#[derive(Debug)]
pub enum EndpointError {
    /// The string is not a URL.
    UrlParse,
    /// The scheme is neither `console` nor `dolphin` nor `emulator`.
    UnknownScheme(String),
}

/// The spec-level picture of an optional string.
pub open spec fn opt_str_view(o: Option<String>) -> Option<Seq<char>> {
    match o {
        Some(s) => Some(s@),
        None => None,
    }
}

/// The scheme, host and port of the text when it parses as a URL, `None`
/// otherwise. A function of the text alone.
pub uninterp spec fn url_parts_of(s: Seq<char>) -> Option<
    (Seq<char>, Option<Seq<char>>, Option<u16>),
>;

/// Relies on url::Url::parse and Url::{scheme, host_str, port}: parses an
/// absolute URL and reads its scheme, host and explicit port. The result
/// depends on the text alone.
#[verifier::external_body]
fn parse_url_parts(s: &str) -> (r: Option<(String, Option<String>, Option<u16>)>)
    ensures
        match r {
            Some(parts) => url_parts_of(s@) == Some(
                (parts.0@, opt_str_view(parts.1), parts.2),
            ),
            None => url_parts_of(s@) is None,
        },
{
    let url = url::Url::parse(s).ok()?;
    let host = url.host_str().map(|h| h.to_string());
    Some((url.scheme().to_string(), host, url.port()))
}

/// Whether the bytes contain the scheme separator `://`.
pub open spec fn spec_has_scheme_sep(b: Seq<u8>) -> bool {
    exists|i: int|
        {
            &&& 0 <= i
            &&& i + 2 < b.len()
            &&& #[trigger] b[i] == 58
            &&& b[i + 1] == 47
            &&& b[i + 2] == 47
        }
}

/// Whether the text contains `://` among its UTF-8 bytes.
fn has_scheme_sep(s: &str) -> (res: bool)
    ensures
        res == spec_has_scheme_sep(encode_utf8(s@)),
{
    let b = s.as_bytes();
    if b.len() < 3 {
        return false;
    }
    let mut i: usize = 0;
    while i <= b.len() - 3
        invariant
            b@ == encode_utf8(s@),
            b@.len() >= 3,
            i <= b@.len() - 2,
            forall|j: int|
                0 <= j < i ==> !(#[trigger] b@[j] == 58 && b@[j + 1] == 47 && b@[j + 2] == 47),
        decreases b@.len() - i,
    {
        if b[i] == 58 && b[i + 1] == 47 && b[i + 2] == 47 {
            proof {
                assert(spec_has_scheme_sep(b@));
            }
            return true;
        }
        i = i + 1;
    }
    proof {
        assert(!spec_has_scheme_sep(b@));
    }
    false
}

/// The text actually parsed as a URL: the input itself when it already names
/// a scheme, else the input behind the default `console://`.
pub open spec fn spec_source_text(s: Seq<char>) -> Seq<char> {
    if spec_has_scheme_sep(encode_utf8(s)) {
        s
    } else {
        "console://"@ + s
    }
}

/// Which endpoint kind a scheme names, if any. `dolphin` is the emulator
/// scheme's historical spelling and stays accepted.
pub open spec fn spec_scheme_kind(scheme: Seq<char>) -> Option<SourceKind> {
    if scheme == "console"@ {
        Some(SourceKind::Console)
    } else if scheme == "dolphin"@ || scheme == "emulator"@ {
        Some(SourceKind::Emulator)
    } else {
        None
    }
}

/// Parse one source string into an endpoint, defaulting the scheme to
/// `console`, the host to `127.0.0.1`, and the port to `51441`.
pub fn parse_source_endpoint(s: &str) -> (res: Result<SourceEndpoint, EndpointError>)
    ensures
        ({
            let parts = url_parts_of(spec_source_text(s@));
            match res {
                Ok(ep) => match parts {
                    Some((scheme, host, port)) => {
                        &&& spec_scheme_kind(scheme) == Some(ep.kind)
                        &&& ep.host@ == match host {
                            Some(h) => h,
                            None => "127.0.0.1"@,
                        }
                        &&& ep.port == match port {
                            Some(p) => p,
                            None => DEFAULT_PORT,
                        }
                    },
                    None => false,
                },
                Err(e) => match e {
                    EndpointError::UrlParse => parts is None,
                    EndpointError::UnknownScheme(sch) => match parts {
                        Some((scheme, _, _)) => sch@ == scheme && spec_scheme_kind(scheme)
                            is None,
                        None => false,
                    },
                },
            }
        }),
{
    let text: String = if has_scheme_sep(s) {
        String::from_str(s)
    } else {
        let mut t = String::from_str("console://");
        t.append(s);
        t
    };
    let parts = match parse_url_parts(text.as_str()) {
        Some(p) => p,
        None => {
            return Err(EndpointError::UrlParse);
        },
    };
    let (scheme, host_opt, port_opt) = parts;
    let kind: SourceKind = if scheme == String::from_str("console") {
        SourceKind::Console
    } else if scheme == String::from_str("dolphin") || scheme == String::from_str("emulator") {
        SourceKind::Emulator
    } else {
        return Err(EndpointError::UnknownScheme(scheme));
    };
    let host: String = match host_opt {
        Some(h) => h,
        None => String::from_str("127.0.0.1"),
    };
    let port: u16 = match port_opt {
        Some(p) => p,
        None => DEFAULT_PORT,
    };
    Ok(SourceEndpoint { kind, host, port })
}

/// The decimal digit a character stands for, if any.
pub open spec fn spec_char_digit(c: char) -> Option<int> {
    if c == '0' {
        Some(0int)
    } else if c == '1' {
        Some(1int)
    } else if c == '2' {
        Some(2int)
    } else if c == '3' {
        Some(3int)
    } else if c == '4' {
        Some(4int)
    } else if c == '5' {
        Some(5int)
    } else if c == '6' {
        Some(6int)
    } else if c == '7' {
        Some(7int)
    } else if c == '8' {
        Some(8int)
    } else if c == '9' {
        Some(9int)
    } else {
        None
    }
}

/// The value of a digit string, most significant first.
pub open spec fn spec_digits_value(s: Seq<char>) -> int
    decreases s.len(),
{
    if s.len() == 0 {
        0
    } else {
        spec_digits_value(s.drop_last()) * 10 + match spec_char_digit(s.last()) {
            Some(d) => d,
            None => 0,
        }
    }
}

/// Whether every character is a decimal digit.
pub open spec fn spec_all_digits(s: Seq<char>) -> bool {
    forall|i: int| 0 <= i < s.len() ==> (#[trigger] spec_char_digit(s[i])) is Some
}

/// What parsing the text as a decimal `u32` yields: an optional leading `+`,
/// then one or more digits, valued within `u32`.
pub open spec fn spec_parse_u32(s: Seq<char>) -> Option<u32> {
    let body = if s.len() > 0 && s[0] == '+' {
        s.drop_first()
    } else {
        s
    };
    if body.len() == 0 || !spec_all_digits(body) {
        None
    } else if spec_digits_value(body) > u32::MAX {
        None
    } else {
        Some(spec_digits_value(body) as u32)
    }
}

/// The digit character for one decimal digit.
pub open spec fn spec_digit_char(d: int) -> char {
    if d == 0 {
        '0'
    } else if d == 1 {
        '1'
    } else if d == 2 {
        '2'
    } else if d == 3 {
        '3'
    } else if d == 4 {
        '4'
    } else if d == 5 {
        '5'
    } else if d == 6 {
        '6'
    } else if d == 7 {
        '7'
    } else if d == 8 {
        '8'
    } else {
        '9'
    }
}

/// The decimal spelling of a number, without sign or leading zeros (except
/// for zero itself).
pub open spec fn spec_u32_dec(n: int) -> Seq<char>
    decreases n,
{
    if n < 10 {
        seq![spec_digit_char(n)]
    } else {
        spec_u32_dec(n / 10).push(spec_digit_char(n % 10))
    }
}

/// One digit as a string slice.
pub(crate) fn digit_str(d: u32) -> (res: &'static str)
    requires
        d < 10,
    ensures
        res@ == seq![spec_digit_char(d as int)],
{
    proof {
        reveal_strlit("0");
        reveal_strlit("1");
        reveal_strlit("2");
        reveal_strlit("3");
        reveal_strlit("4");
        reveal_strlit("5");
        reveal_strlit("6");
        reveal_strlit("7");
        reveal_strlit("8");
        reveal_strlit("9");
    }
    if d == 0 {
        proof {
            assert("0"@ =~= seq![spec_digit_char(0)]);
        }
        "0"
    } else if d == 1 {
        proof {
            assert("1"@ =~= seq![spec_digit_char(1)]);
        }
        "1"
    } else if d == 2 {
        proof {
            assert("2"@ =~= seq![spec_digit_char(2)]);
        }
        "2"
    } else if d == 3 {
        proof {
            assert("3"@ =~= seq![spec_digit_char(3)]);
        }
        "3"
    } else if d == 4 {
        proof {
            assert("4"@ =~= seq![spec_digit_char(4)]);
        }
        "4"
    } else if d == 5 {
        proof {
            assert("5"@ =~= seq![spec_digit_char(5)]);
        }
        "5"
    } else if d == 6 {
        proof {
            assert("6"@ =~= seq![spec_digit_char(6)]);
        }
        "6"
    } else if d == 7 {
        proof {
            assert("7"@ =~= seq![spec_digit_char(7)]);
        }
        "7"
    } else if d == 8 {
        proof {
            assert("8"@ =~= seq![spec_digit_char(8)]);
        }
        "8"
    } else {
        proof {
            assert("9"@ =~= seq![spec_digit_char(9)]);
        }
        "9"
    }
}

/// Append the decimal spelling of `n` to the string.
pub fn append_u32_decimal(s: &mut String, n: u32)
    ensures
        final(s)@ == old(s)@ + spec_u32_dec(n as int),
    decreases n,
{
    if n >= 10 {
        append_u32_decimal(s, n / 10);
        s.append(digit_str(n % 10));
        proof {
            assert(s@ =~= old(s)@ + spec_u32_dec(n as int));
        }
    } else {
        s.append(digit_str(n));
        proof {
            assert(s@ =~= old(s)@ + spec_u32_dec(n as int));
        }
    }
}

/// Parse the text as a decimal `u32`, exactly as `spec_parse_u32` says.
pub fn parse_u32_text(s: &str) -> (res: Option<u32>)
    ensures
        res == spec_parse_u32(s@),
{
    let n_chars = s.unicode_len();
    let skip: usize = if n_chars > 0 && s.get_char(0) == '+' {
        1
    } else {
        0
    };
    let ghost body = if s@.len() > 0 && s@[0] == '+' {
        s@.drop_first()
    } else {
        s@
    };
    if n_chars == skip {
        return None;
    }
    let mut val: u64 = 0;
    let mut i: usize = skip;
    while i < n_chars
        invariant
            skip <= i <= n_chars,
            n_chars == s@.len(),
            skip == (if s@.len() > 0 && s@[0] == '+' {
                1int
            } else {
                0int
            }),
            body == (if s@.len() > 0 && s@[0] == '+' {
                s@.drop_first()
            } else {
                s@
            }),
            spec_all_digits(body.take(i - skip)),
            val == spec_digits_value(body.take(i - skip)),
            val <= u32::MAX,
        decreases n_chars - i,
    {
        let c = s.get_char(i);
        let d: u32 = if c == '0' {
            0
        } else if c == '1' {
            1
        } else if c == '2' {
            2
        } else if c == '3' {
            3
        } else if c == '4' {
            4
        } else if c == '5' {
            5
        } else if c == '6' {
            6
        } else if c == '7' {
            7
        } else if c == '8' {
            8
        } else if c == '9' {
            9
        } else {
            proof {
                assert(body[i - skip] == s@[i as int]);
                assert(spec_char_digit(body[i - skip]) is None);
            }
            return None;
        };
        proof {
            assert(body[i - skip] == s@[i as int]);
            assert(spec_char_digit(body[i - skip]) == Some(d as int));
            assert(body.take(i + 1 - skip).drop_last() =~= body.take(i - skip));
        }
        proof {
            assert(spec_all_digits(body.take(i + 1 - skip)));
            assert(spec_digits_value(body.take(i + 1 - skip)) == val * 10 + d);
        }
        let next: u64 = val * 10 + (d as u64);
        if next > 0xFFFF_FFFF {
            proof {
                if spec_all_digits(body) {
                    lemma_digits_value_monotone(body, i + 1 - skip);
                    assert(spec_digits_value(body) > u32::MAX);
                }
            }
            return None;
        }
        val = next;
        i = i + 1;
    }
    proof {
        assert(body.take(body.len() as int) =~= body);
    }
    Some(val as u32)
}

/// A digit string's value never goes below zero.
proof fn lemma_digits_value_nonneg(s: Seq<char>)
    ensures
        spec_digits_value(s) >= 0,
    decreases s.len(),
{
    if s.len() > 0 {
        lemma_digits_value_nonneg(s.drop_last());
    }
}

/// The value of a digit string only grows as digits are appended.
proof fn lemma_digits_value_monotone(s: Seq<char>, k: int)
    requires
        0 <= k <= s.len(),
    ensures
        spec_digits_value(s) >= spec_digits_value(s.take(k)),
    decreases s.len() - k,
{
    if k == s.len() {
        assert(s.take(k) =~= s);
    } else {
        lemma_digits_value_monotone(s, k + 1);
        assert(s.take(k + 1).drop_last() =~= s.take(k));
        lemma_digits_value_nonneg(s.take(k));
    }
}

/// The viewer URL for a bare stream id.
pub open spec fn spec_viewer_url(n: u32) -> Seq<char> {
    "wss://spectatormode.tv/viewer_socket/websocket?stream_id="@ + spec_u32_dec(n as int)
        + "&full_replay=true"@
}

/// Why a spectate argument was rejected.
#[derive(Debug, Clone, Copy, PartialEq, Eq, Structural)]
pub enum StreamUrlError {
    /// Neither a URL nor a decimal stream id.
    NotAnId,
}

/// Interpret a spectate argument: a URL is taken as given; a bare decimal
/// stream id expands to the relay's viewer URL for that stream.
pub fn infer_stream_url(s: &str) -> (res: Result<String, StreamUrlError>)
    ensures
        match res {
            Ok(u) => (url_parts_of(s@) is Some && u@ == s@) || (url_parts_of(s@) is None
                && spec_parse_u32(s@) is Some && u@ == spec_viewer_url(
                spec_parse_u32(s@).unwrap(),
            )),
            Err(_) => url_parts_of(s@) is None && spec_parse_u32(s@) is None,
        },
{
    if parse_url_parts(s).is_some() {
        return Ok(String::from_str(s));
    }
    match parse_u32_text(s) {
        Some(n) => {
            let mut url = String::from_str(
                "wss://spectatormode.tv/viewer_socket/websocket?stream_id=",
            );
            append_u32_decimal(&mut url, n);
            url.append("&full_replay=true");
            Ok(url)
        },
        None => Err(StreamUrlError::NotAnId),
    }
}

} // verus!
