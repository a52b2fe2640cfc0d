//! Mirror control for the external playback process: the timestamped replay
//! file name for each new game, and the JSON communication-spec document the
//! playback process watches. The process itself is spawned outside the
//! library; everything written to disk is framed here, byte for byte.

use vstd::prelude::*;
use crate::endpoint::{digit_str, spec_digit_char};
use chrono::{Datelike, Timelike};
use rand::distr::SampleString;

verus! {

/// Length of a generated mirror command id.
pub const COMMAND_ID_LEN: usize = 16;

/// A wall-clock timestamp, split into plain fields.
#[derive(Debug, Clone, Copy, PartialEq, Eq, Structural)]
pub struct Timestamp {
    pub year: i32,
    pub month: u8,
    pub day: u8,
    pub hour: u8,
    pub minute: u8,
    pub second: u8,
}

/// Whether the fields form a calendar time the filename format covers.
pub open spec fn spec_timestamp_valid(t: Timestamp) -> bool {
    &&& 0 <= t.year <= 9999
    &&& 1 <= t.month <= 12
    &&& 1 <= t.day <= 31
    &&& t.hour < 24
    &&& t.minute < 60
    &&& t.second < 60
}

/// Relies on chrono's `Local::now` and its `Datelike`/`Timelike` accessors:
/// month is 1..=12, day is 1..=31, hour is 0..24, minute and second are
/// 0..60. The year is whatever the local clock says.
#[verifier::external_body]
pub fn local_timestamp() -> (t: Timestamp)
    ensures
        1 <= t.month <= 12,
        1 <= t.day <= 31,
        t.hour < 24,
        t.minute < 60,
        t.second < 60,
{
    let now = chrono::Local::now();
    Timestamp {
        year: now.year(),
        month: now.month() as u8,
        day: now.day() as u8,
        hour: now.hour() as u8,
        minute: now.minute() as u8,
        second: now.second() as u8,
    }
}

/// Two digits, zero padded.
pub open spec fn spec_pad2(n: int) -> Seq<char> {
    seq![spec_digit_char(n / 10 % 10), spec_digit_char(n % 10)]
}

/// Four digits, zero padded.
pub open spec fn spec_pad4(n: int) -> Seq<char> {
    seq![
        spec_digit_char(n / 1000 % 10),
        spec_digit_char(n / 100 % 10),
        spec_digit_char(n / 10 % 10),
        spec_digit_char(n % 10),
    ]
}

/// The file name for a game that began at `t`:
/// `Game_YYYYMMDDHHMMSS.slp`.
pub open spec fn spec_game_filename(t: Timestamp) -> Seq<char> {
    "Game_"@ + spec_pad4(t.year as int) + spec_pad2(t.month as int) + spec_pad2(t.day as int)
        + spec_pad2(t.hour as int) + spec_pad2(t.minute as int) + spec_pad2(t.second as int)
        + ".slp"@
}

/// Append `n` as two zero-padded digits.
fn push_pad2(s: &mut String, n: u8)
    requires
        n < 100,
    ensures
        final(s)@ == old(s)@ + spec_pad2(n as int),
{
    s.append(digit_str((n / 10) as u32));
    s.append(digit_str((n % 10) as u32));
    proof {
        assert(s@ =~= old(s)@ + spec_pad2(n as int));
    }
}

/// Whether the format's fixed digit widths can carry the fields.
pub open spec fn spec_timestamp_formattable(t: Timestamp) -> bool {
    &&& 0 <= t.year <= 9999
    &&& t.month < 100
    &&& t.day < 100
    &&& t.hour < 100
    &&& t.minute < 100
    &&& t.second < 100
}

/// The timestamped name of a new game's replay file, or `None` for fields
/// the fixed-width format cannot carry.
pub fn game_filename(t: Timestamp) -> (res: Option<String>)
    ensures
        match res {
            Some(name) => spec_timestamp_formattable(t) && name@ == spec_game_filename(t),
            None => !spec_timestamp_formattable(t),
        },
{
    if t.year < 0 || t.year > 9999 || t.month >= 100 || t.day >= 100 || t.hour >= 100
        || t.minute >= 100 || t.second >= 100 {
        return None;
    }
    proof {
        reveal_strlit("Game_");
    }
    let mut name = String::from_str("Game_");
    let y = t.year as u32;
    name.append(digit_str(y / 1000 % 10));
    name.append(digit_str(y / 100 % 10));
    name.append(digit_str(y / 10 % 10));
    name.append(digit_str(y % 10));
    proof {
        assert(name@ =~= "Game_"@ + spec_pad4(t.year as int));
    }
    push_pad2(&mut name, t.month);
    push_pad2(&mut name, t.day);
    push_pad2(&mut name, t.hour);
    push_pad2(&mut name, t.minute);
    push_pad2(&mut name, t.second);
    name.append(".slp");
    proof {
        reveal_strlit(".slp");
        assert(name@ =~= spec_game_filename(t));
    }
    Some(name)
}

/// Digit characters stand for their digit alone.
proof fn lemma_digit_char_injective(x: int, y: int)
    requires
        0 <= x <= 9,
        0 <= y <= 9,
        spec_digit_char(x) == spec_digit_char(y),
    ensures
        x == y,
{
}

/// Four zero-padded digits pin the number.
proof fn lemma_pad4_injective(x: int, y: int)
    requires
        0 <= x <= 9999,
        0 <= y <= 9999,
        spec_pad4(x) == spec_pad4(y),
    ensures
        x == y,
{
    assert(spec_pad4(x)[0] == spec_pad4(y)[0]);
    assert(spec_pad4(x)[1] == spec_pad4(y)[1]);
    assert(spec_pad4(x)[2] == spec_pad4(y)[2]);
    assert(spec_pad4(x)[3] == spec_pad4(y)[3]);
    lemma_digit_char_injective(x / 1000 % 10, y / 1000 % 10);
    lemma_digit_char_injective(x / 100 % 10, y / 100 % 10);
    lemma_digit_char_injective(x / 10 % 10, y / 10 % 10);
    lemma_digit_char_injective(x % 10, y % 10);
}

/// Two zero-padded digits pin the number.
proof fn lemma_pad2_injective(x: int, y: int)
    requires
        0 <= x <= 99,
        0 <= y <= 99,
        spec_pad2(x) == spec_pad2(y),
    ensures
        x == y,
{
    assert(spec_pad2(x)[0] == spec_pad2(y)[0]);
    assert(spec_pad2(x)[1] == spec_pad2(y)[1]);
    lemma_digit_char_injective(x / 10 % 10, y / 10 % 10);
    lemma_digit_char_injective(x % 10, y % 10);
}

/// Law: games that begin at different times get different file names — the
/// timestamped name determines every field of the timestamp.
pub proof fn lemma_game_filename_injective(a: Timestamp, b: Timestamp)
    requires
        spec_timestamp_valid(a),
        spec_timestamp_valid(b),
        spec_game_filename(a) == spec_game_filename(b),
    ensures
        a == b,
{
    reveal_strlit("Game_");
    reveal_strlit(".slp");
    let fa = spec_game_filename(a);
    let fb = spec_game_filename(b);
    assert(spec_pad4(a.year as int) =~= seq![fa[5], fa[6], fa[7], fa[8]]);
    assert(spec_pad4(b.year as int) =~= seq![fb[5], fb[6], fb[7], fb[8]]);
    lemma_pad4_injective(a.year as int, b.year as int);
    assert(spec_pad2(a.month as int) =~= seq![fa[9], fa[10]]);
    assert(spec_pad2(b.month as int) =~= seq![fb[9], fb[10]]);
    lemma_pad2_injective(a.month as int, b.month as int);
    assert(spec_pad2(a.day as int) =~= seq![fa[11], fa[12]]);
    assert(spec_pad2(b.day as int) =~= seq![fb[11], fb[12]]);
    lemma_pad2_injective(a.day as int, b.day as int);
    assert(spec_pad2(a.hour as int) =~= seq![fa[13], fa[14]]);
    assert(spec_pad2(b.hour as int) =~= seq![fb[13], fb[14]]);
    lemma_pad2_injective(a.hour as int, b.hour as int);
    assert(spec_pad2(a.minute as int) =~= seq![fa[15], fa[16]]);
    assert(spec_pad2(b.minute as int) =~= seq![fb[15], fb[16]]);
    lemma_pad2_injective(a.minute as int, b.minute as int);
    assert(spec_pad2(a.second as int) =~= seq![fa[17], fa[18]]);
    assert(spec_pad2(b.second as int) =~= seq![fb[17], fb[18]]);
    lemma_pad2_injective(a.second as int, b.second as int);
}

/// Whether a character is an ASCII letter or digit.
pub open spec fn spec_is_alnum(c: char) -> bool {
    (48 <= c as u32 && c as u32 <= 57) || (97 <= c as u32 && c as u32 <= 122) || (65
        <= c as u32 && c as u32 <= 90)
}

/// Relies on rand's thread rng sampled through the `Alphanumeric`
/// distribution, which draws uniformly from the 62 ASCII letters and digits;
/// the length is fixed by this call. The value itself is random: nothing
/// more is promised of it.
#[verifier::external_body]
fn random_command_id() -> (r: String)
    ensures
        r@.len() == COMMAND_ID_LEN,
        forall|i: int| 0 <= i < r@.len() ==> spec_is_alnum(#[trigger] r@[i]),
{
    rand::distr::Alphanumeric.sample_string(&mut rand::rng(), COMMAND_ID_LEN)
}

/// How one character appears inside a JSON string literal.
pub open spec fn spec_escape_char(c: char) -> Seq<char> {
    if c == '"' {
        seq!['\\', '"']
    } else if c == '\\' {
        seq!['\\', '\\']
    } else if c == '\n' {
        seq!['\\', 'n']
    } else if c == '\r' {
        seq!['\\', 'r']
    } else if c == '\t' {
        seq!['\\', 't']
    } else if c == '\u{8}' {
        seq!['\\', 'b']
    } else if c == '\u{c}' {
        seq!['\\', 'f']
    } else if (c as u32) < 32 {
        seq!['\\', 'u', '0', '0', spec_digit_char(c as int / 16), spec_hex_char(c as int % 16)]
    } else {
        seq![c]
    }
}

/// The body of a JSON string literal for the text.
pub open spec fn spec_escape(s: Seq<char>) -> Seq<char>
    decreases s.len(),
{
    if s.len() == 0 {
        Seq::empty()
    } else {
        spec_escape(s.drop_last()) + spec_escape_char(s.last())
    }
}

/// The lower-case hex character for one value below 16.
pub open spec fn spec_hex_char(d: int) -> char {
    if d < 10 {
        spec_digit_char(d)
    } else if d == 10 {
        'a'
    } else if d == 11 {
        'b'
    } else if d == 12 {
        'c'
    } else if d == 13 {
        'd'
    } else if d == 14 {
        'e'
    } else {
        'f'
    }
}

/// One low hex digit as a string slice.
fn hex_str(d: u32) -> (res: &'static str)
    requires
        d < 16,
    ensures
        res@ == seq![spec_hex_char(d as int)],
{
    if d < 10 {
        digit_str(d)
    } else if d == 10 {
        proof {
            reveal_strlit("a");
            assert("a"@ =~= seq![spec_hex_char(10)]);
        }
        "a"
    } else if d == 11 {
        proof {
            reveal_strlit("b");
            assert("b"@ =~= seq![spec_hex_char(11)]);
        }
        "b"
    } else if d == 12 {
        proof {
            reveal_strlit("c");
            assert("c"@ =~= seq![spec_hex_char(12)]);
        }
        "c"
    } else if d == 13 {
        proof {
            reveal_strlit("d");
            assert("d"@ =~= seq![spec_hex_char(13)]);
        }
        "d"
    } else if d == 14 {
        proof {
            reveal_strlit("e");
            assert("e"@ =~= seq![spec_hex_char(14)]);
        }
        "e"
    } else {
        proof {
            reveal_strlit("f");
            assert("f"@ =~= seq![spec_hex_char(15)]);
        }
        "f"
    }
}

/// Append the JSON-escaped form of the text.
fn append_escaped(out: &mut String, s: &str)
    ensures
        final(out)@ == old(out)@ + spec_escape(s@),
{
    let n = s.unicode_len();
    let mut i: usize = 0;
    while i < n
        invariant
            i <= n,
            n == s@.len(),
            out@ == old(out)@ + spec_escape(s@.take(i as int)),
        decreases n - i,
    {
        let c = s.get_char(i);
        proof {
            assert(s@.take(i + 1).drop_last() =~= s@.take(i as int));
            assert(s@.take(i + 1).last() == s@[i as int]);
        }
        if c == '"' {
            out.append("\\\"");
            proof {
                reveal_strlit("\\\"");
                assert(out@ =~= old(out)@ + spec_escape(s@.take(i + 1)));
            }
        } else if c == '\\' {
            out.append("\\\\");
            proof {
                reveal_strlit("\\\\");
                assert(out@ =~= old(out)@ + spec_escape(s@.take(i + 1)));
            }
        } else if c == '\n' {
            out.append("\\n");
            proof {
                reveal_strlit("\\n");
                assert(out@ =~= old(out)@ + spec_escape(s@.take(i + 1)));
            }
        } else if c == '\r' {
            out.append("\\r");
            proof {
                reveal_strlit("\\r");
                assert(out@ =~= old(out)@ + spec_escape(s@.take(i + 1)));
            }
        } else if c == '\t' {
            out.append("\\t");
            proof {
                reveal_strlit("\\t");
                assert(out@ =~= old(out)@ + spec_escape(s@.take(i + 1)));
            }
        } else if c == '\u{8}' {
            out.append("\\b");
            proof {
                reveal_strlit("\\b");
                assert(out@ =~= old(out)@ + spec_escape(s@.take(i + 1)));
            }
        } else if c == '\u{c}' {
            out.append("\\f");
            proof {
                reveal_strlit("\\f");
                assert(out@ =~= old(out)@ + spec_escape(s@.take(i + 1)));
            }
        } else if (c as u32) < 32 {
            out.append("\\u00");
            let code = c as u32;
            out.append(digit_str(code / 16));
            out.append(hex_str(code % 16));
            proof {
                reveal_strlit("\\u00");
                assert(out@ =~= old(out)@ + spec_escape(s@.take(i + 1)));
            }
        } else {
            let piece = s.substring_char(i, i + 1);
            out.append(piece);
            proof {
                assert(piece@ =~= seq![s@[i as int]]);
                assert(out@ =~= old(out)@ + spec_escape(s@.take(i + 1)));
            }
        }
        i = i + 1;
    }
    proof {
        assert(s@.take(n as int) =~= s@);
    }
}

/// The JSON communication-spec document: mirror mode, the command id, and
/// the replay path when one is named.
pub open spec fn spec_comm_spec_json(id: Seq<char>, replay: Option<Seq<char>>) -> Seq<char> {
    "{\"mode\":\"mirror\",\"commandId\":\""@ + spec_escape(id) + (match replay {
        None => "\"}"@,
        Some(p) => "\",\"replay\":\""@ + spec_escape(p) + "\"}"@,
    })
}

/// Build the communication-spec document for the given command id and
/// optional replay path.
pub fn comm_spec_json(id: &str, replay: Option<&str>) -> (res: String)
    ensures
        res@ == spec_comm_spec_json(
            id@,
            match replay {
                Some(p) => Some(p@),
                None => None,
            },
        ),
{
    let mut out = String::from_str("{\"mode\":\"mirror\",\"commandId\":\"");
    append_escaped(&mut out, id);
    match replay {
        None => {
            out.append("\"}");
        },
        Some(p) => {
            out.append("\",\"replay\":\"");
            append_escaped(&mut out, p);
            out.append("\"}");
        },
    }
    proof {
        assert(out@ =~= spec_comm_spec_json(
            id@,
            match replay {
                Some(p) => Some(p@),
                None => None,
            },
        ));
    }
    out
}

/// One mirror command: the comm-spec document to write, and the command id
/// it carries.
pub struct MirrorCommand {
    pub comm_spec: String,
    pub command_id: String,
}

/// The mirror command for a freshly opened replay file: a random 16-character
/// alphanumeric command id, and the comm-spec document naming the file.
pub fn mirror_command(replay_path: &str) -> (res: MirrorCommand)
    ensures
        res.command_id@.len() == COMMAND_ID_LEN,
        forall|i: int|
            0 <= i < res.command_id@.len() ==> spec_is_alnum(#[trigger] res.command_id@[i]),
        res.comm_spec@ == spec_comm_spec_json(res.command_id@, Some(replay_path@)),
{
    let command_id = random_command_id();
    let comm_spec = comm_spec_json(command_id.as_str(), Some(replay_path));
    MirrorCommand { comm_spec, command_id }
}

/// The blank comm-spec document written when the playback process launches:
/// command id `0`, no replay yet.
pub fn launch_comm_spec() -> (res: String)
    ensures
        res@ == spec_comm_spec_json("0"@, None),
{
    proof {
        reveal_strlit("0");
        assert(spec_escape("0"@.drop_last()) =~= Seq::<char>::empty());
        assert(spec_escape("0"@) =~= seq!['0']);
    }
    let out = comm_spec_json("0", None);
    proof {
        assert(out@ =~= spec_comm_spec_json("0"@, None));
    }
    out
}

} // verus!
