//! Console source adapter logic. The console speaks a framed protocol over
//! TCP: a fixed opening handshake, then length-prefixed messages, each a
//! binary-JSON envelope `{type, payload?}` whose `payload.data` carries the
//! gameplay bytes. The framing and the envelope grammar are part of the
//! wire contract with the console firmware and are parsed here, byte by
//! byte; the reads themselves happen outside the library.

use vstd::prelude::*;

verus! {

/// Read timeout of the console connection, in seconds.
pub const READ_TIMEOUT_SECS: u64 = 5;

/// Why a console message ended the stream.
#[derive(Debug, Clone, Copy, PartialEq, Eq, Structural)]
pub enum ConsoleError {
    /// The message was not a well-formed envelope.
    DecodeError,
}

/// The fixed 83-byte opening handshake, bitwise as the firmware expects it.
pub open spec fn spec_console_handshake() -> Seq<u8> {
    seq![
        0x00u8, 0x00, 0x00, 0x4f, 0x7b, 0x69, 0x04, 0x74, 0x79, 0x70, 0x65,
        0x69, 0x01, 0x69, 0x07, 0x70, 0x61, 0x79, 0x6c, 0x6f, 0x61, 0x64,
        0x7b, 0x69, 0x06, 0x63, 0x75, 0x72, 0x73, 0x6f, 0x72, 0x5b, 0x24,
        0x55, 0x23, 0x69, 0x08, 0x00, 0x00, 0x00, 0x00, 0x00, 0x00, 0x00,
        0x00, 0x69, 0x0b, 0x63, 0x6c, 0x69, 0x65, 0x6e, 0x74, 0x54, 0x6f,
        0x6b, 0x65, 0x6e, 0x5b, 0x24, 0x55, 0x23, 0x69, 0x04, 0x00, 0x00,
        0x00, 0x00, 0x69, 0x0a, 0x69, 0x73, 0x52, 0x65, 0x61, 0x6c, 0x74,
        0x69, 0x6d, 0x65, 0x46, 0x7d, 0x7d,
    ]
}

/// The opening handshake to write right after connecting.
pub fn console_handshake() -> (res: Vec<u8>)
    ensures
        res@ == spec_console_handshake(),
{
    let res: Vec<u8> = vec![
        0x00u8, 0x00, 0x00, 0x4f, 0x7b, 0x69, 0x04, 0x74, 0x79, 0x70, 0x65,
        0x69, 0x01, 0x69, 0x07, 0x70, 0x61, 0x79, 0x6c, 0x6f, 0x61, 0x64,
        0x7b, 0x69, 0x06, 0x63, 0x75, 0x72, 0x73, 0x6f, 0x72, 0x5b, 0x24,
        0x55, 0x23, 0x69, 0x08, 0x00, 0x00, 0x00, 0x00, 0x00, 0x00, 0x00,
        0x00, 0x69, 0x0b, 0x63, 0x6c, 0x69, 0x65, 0x6e, 0x74, 0x54, 0x6f,
        0x6b, 0x65, 0x6e, 0x5b, 0x24, 0x55, 0x23, 0x69, 0x04, 0x00, 0x00,
        0x00, 0x00, 0x69, 0x0a, 0x69, 0x73, 0x52, 0x65, 0x61, 0x6c, 0x74,
        0x69, 0x6d, 0x65, 0x46, 0x7d, 0x7d,
    ];
    proof {
        assert(res@ =~= spec_console_handshake());
    }
    res
}

/// The big-endian value of a 4-byte length prefix.
pub open spec fn spec_be32(b: Seq<u8>) -> int
    recommends
        b.len() == 4,
{
    b[0] * 0x1000000 + b[1] * 0x10000 + b[2] * 0x100 + b[3]
}

/// Read the 4-byte big-endian message size that precedes each envelope.
pub fn read_message_size(b: &[u8]) -> (res: u32)
    requires
        b@.len() == 4,
    ensures
        res == spec_be32(b@),
{
    (b[0] as u32) * 0x1000000 + (b[1] as u32) * 0x10000 + (b[2] as u32) * 0x100 + (b[3] as u32)
}

/// A marker-prefixed non-negative integer at `pos`: its value and the
/// position after it. Negative values and unknown markers give `None`.
pub open spec fn spec_uint(b: Seq<u8>, pos: int) -> Option<(int, int)> {
    if pos < 0 || pos >= b.len() {
        None
    } else {
        let m = b[pos];
        if m == 0x69 || m == 0x55 {
            // int8 / uint8
            if pos + 2 > b.len() {
                None
            } else {
                let v = b[pos + 1] as int;
                if m == 0x69 && v >= 128 {
                    None
                } else {
                    Some((v, pos + 2))
                }
            }
        } else if m == 0x49 {
            // int16, big endian
            if pos + 3 > b.len() {
                None
            } else {
                let v = b[pos + 1] * 0x100 + b[pos + 2];
                if v >= 0x8000 {
                    None
                } else {
                    Some((v, pos + 3))
                }
            }
        } else if m == 0x6C {
            // int32, big endian
            if pos + 5 > b.len() {
                None
            } else {
                let v = b[pos + 1] * 0x1000000 + b[pos + 2] * 0x10000 + b[pos + 3] * 0x100 + b[pos
                    + 4];
                if v >= 0x80000000 {
                    None
                } else {
                    Some((v, pos + 5))
                }
            }
        } else if m == 0x4C {
            // int64, big endian
            if pos + 9 > b.len() {
                None
            } else {
                let v = b[pos + 1] * 0x100000000000000 + b[pos + 2] * 0x1000000000000 + b[pos + 3]
                    * 0x10000000000 + b[pos + 4] * 0x100000000 + b[pos + 5] * 0x1000000 + b[pos + 6]
                    * 0x10000 + b[pos + 7] * 0x100 + b[pos + 8];
                if v >= 0x8000000000000000 {
                    None
                } else {
                    Some((v, pos + 9))
                }
            }
        } else {
            None
        }
    }
}

/// An object key at `pos`: a length-prefixed name.
pub open spec fn spec_key(b: Seq<u8>, pos: int) -> Option<(Seq<u8>, int)> {
    match spec_uint(b, pos) {
        None => None,
        Some((n, p)) => if p + n > b.len() {
            None
        } else {
            Some((b.subrange(p, p + n), p + n))
        },
    }
}

/// The payload width of one element of a strongly-typed array, by its type
/// marker; booleans and null carry no payload.
pub open spec fn spec_elem_width(m: u8) -> Option<int> {
    if m == 0x55 || m == 0x69 {
        Some(1int)
    } else if m == 0x49 {
        Some(2int)
    } else if m == 0x6C {
        Some(4int)
    } else if m == 0x4C {
        Some(8int)
    } else if m == 0x54 || m == 0x46 || m == 0x5A {
        Some(0int)
    } else {
        None
    }
}

/// The position after the value that starts at `pos`.
pub open spec fn spec_skip_value(b: Seq<u8>, pos: int) -> Option<int>
    decreases b.len() - pos, 0int,
    when 0 <= pos <= b.len()
{
    if pos >= b.len() {
        None
    } else {
        let m = b[pos];
        if m == 0x54 || m == 0x46 || m == 0x5A {
            // true / false / null
            Some(pos + 1)
        } else if m == 0x69 || m == 0x55 {
            if pos + 2 > b.len() {
                None
            } else {
                Some(pos + 2)
            }
        } else if m == 0x49 {
            if pos + 3 > b.len() {
                None
            } else {
                Some(pos + 3)
            }
        } else if m == 0x6C {
            if pos + 5 > b.len() {
                None
            } else {
                Some(pos + 5)
            }
        } else if m == 0x4C {
            if pos + 9 > b.len() {
                None
            } else {
                Some(pos + 9)
            }
        } else if m == 0x53 {
            // string: marker, then a length-prefixed byte run
            match spec_uint(b, pos + 1) {
                None => None,
                Some((n, p)) => if p + n > b.len() {
                    None
                } else {
                    Some(p + n)
                },
            }
        } else if m == 0x7B {
            spec_skip_fields(b, pos + 1)
        } else if m == 0x5B {
            if pos + 1 < b.len() && b[pos + 1] == 0x24 {
                // strongly typed array: $ type # count, then the payloads
                if pos + 3 < b.len() && b[pos + 3] == 0x23 {
                    match spec_elem_width(b[pos + 2]) {
                        None => None,
                        Some(w) => match spec_uint(b, pos + 4) {
                            None => None,
                            Some((n, p)) => if p + n * w > b.len() {
                                None
                            } else {
                                Some(p + n * w)
                            },
                        },
                    }
                } else {
                    None
                }
            } else {
                spec_skip_items(b, pos + 1)
            }
        } else {
            None
        }
    }
}

/// The position after the remaining fields of an object, closing brace
/// included.
pub open spec fn spec_skip_fields(b: Seq<u8>, pos: int) -> Option<int>
    decreases b.len() - pos, 1int,
    when 0 <= pos <= b.len()
{
    if pos >= b.len() {
        None
    } else if b[pos] == 0x7D {
        Some(pos + 1)
    } else {
        match spec_key(b, pos) {
            None => None,
            Some((_, kp)) => if kp <= pos || kp > b.len() {
                None
            } else {
                match spec_skip_value(b, kp) {
                    None => None,
                    Some(vp) => if vp <= kp || vp > b.len() {
                        None
                    } else {
                        spec_skip_fields(b, vp)
                    },
                }
            },
        }
    }
}

/// The position after the remaining items of a plain array, closing bracket
/// included.
pub open spec fn spec_skip_items(b: Seq<u8>, pos: int) -> Option<int>
    decreases b.len() - pos, 1int,
    when 0 <= pos <= b.len()
{
    if pos >= b.len() {
        None
    } else if b[pos] == 0x5D {
        Some(pos + 1)
    } else {
        match spec_skip_value(b, pos) {
            None => None,
            Some(vp) => if vp <= pos || vp > b.len() {
                None
            } else {
                spec_skip_items(b, vp)
            },
        }
    }
}

/// The bytes of a `data` array at `pos`: either a strongly-typed byte array
/// or a plain array of byte-sized integers.
pub open spec fn spec_data_array(b: Seq<u8>, pos: int) -> Option<(Seq<u8>, int)>
    decreases b.len() - pos,
    when 0 <= pos <= b.len()
{
    if pos >= b.len() || b[pos] != 0x5B {
        None
    } else if pos + 3 < b.len() && b[pos + 1] == 0x24 && b[pos + 2] == 0x55 && b[pos + 3]
        == 0x23 {
        match spec_uint(b, pos + 4) {
            None => None,
            Some((n, p)) => if p + n > b.len() {
                None
            } else {
                Some((b.subrange(p, p + n), p + n))
            },
        }
    } else {
        spec_data_items(b, pos + 1)
    }
}

/// The byte items of a plain array, read until the closing bracket.
pub open spec fn spec_data_items(b: Seq<u8>, pos: int) -> Option<(Seq<u8>, int)>
    decreases b.len() - pos,
    when 0 <= pos <= b.len()
{
    if pos >= b.len() {
        None
    } else if b[pos] == 0x5D {
        Some((Seq::empty(), pos + 1))
    } else {
        match spec_uint(b, pos) {
            None => None,
            Some((v, p)) => if v > 255 || p <= pos || p > b.len() {
                None
            } else {
                match spec_data_items(b, p) {
                    None => None,
                    Some((rest, e)) => Some((seq![v as u8] + rest, e)),
                }
            },
        }
    }
}

/// The fields of the payload object from `pos` on: the value of its `data`
/// array, if one appears, and the position after the closing brace.
pub open spec fn spec_payload_fields(b: Seq<u8>, pos: int, data: Option<Seq<u8>>) -> Option<
    (Option<Seq<u8>>, int),
>
    decreases b.len() - pos,
    when 0 <= pos <= b.len()
{
    if pos >= b.len() {
        None
    } else if b[pos] == 0x7D {
        Some((data, pos + 1))
    } else {
        match spec_key(b, pos) {
            None => None,
            Some((key, kp)) => if kp <= pos || kp > b.len() {
                None
            } else if key == seq![100u8, 97u8, 116u8, 97u8] {
                match spec_data_array(b, kp) {
                    None => None,
                    Some((bytes, e)) => if e <= kp || e > b.len() {
                        None
                    } else {
                        spec_payload_fields(b, e, Some(bytes))
                    },
                }
            } else {
                match spec_skip_value(b, kp) {
                    None => None,
                    Some(vp) => if vp <= kp || vp > b.len() {
                        None
                    } else {
                        spec_payload_fields(b, vp, data)
                    },
                }
            },
        }
    }
}

/// The fields of the envelope object from `pos` on, carrying the `type`
/// value and the payload seen so far. The envelope is rejected when no
/// `type` field appears.
pub open spec fn spec_top_fields(
    b: Seq<u8>,
    pos: int,
    ty: Option<u8>,
    payload: Option<Option<Seq<u8>>>,
) -> Option<(u8, Option<Option<Seq<u8>>>)>
    decreases b.len() - pos,
    when 0 <= pos <= b.len()
{
    if pos >= b.len() {
        None
    } else if b[pos] == 0x7D {
        match ty {
            Some(t) => Some((t, payload)),
            None => None,
        }
    } else {
        match spec_key(b, pos) {
            None => None,
            Some((key, kp)) => if kp <= pos || kp > b.len() {
                None
            } else if key == seq![116u8, 121u8, 112u8, 101u8] {
                // "type"
                match spec_uint(b, kp) {
                    None => None,
                    Some((v, p)) => if v > 255 || p <= kp || p > b.len() {
                        None
                    } else {
                        spec_top_fields(b, p, Some(v as u8), payload)
                    },
                }
            } else if key == seq![112u8, 97u8, 121u8, 108u8, 111u8, 97u8, 100u8] {
                // "payload"
                if kp < b.len() && b[kp] == 0x7B {
                    match spec_payload_fields(b, kp + 1, None) {
                        None => None,
                        Some((data, e)) => if e <= kp || e > b.len() {
                            None
                        } else {
                            spec_top_fields(b, e, ty, Some(data))
                        },
                    }
                } else if kp < b.len() && b[kp] == 0x5A {
                    // explicit null payload
                    spec_top_fields(b, kp + 1, ty, payload)
                } else {
                    None
                }
            } else {
                match spec_skip_value(b, kp) {
                    None => None,
                    Some(vp) => if vp <= kp || vp > b.len() {
                        None
                    } else {
                        spec_top_fields(b, vp, ty, payload)
                    },
                }
            },
        }
    }
}

/// What a whole console message means: its `type` value, and its payload —
/// `None` when the envelope has no payload, else the `data` bytes when that
/// field appears.
pub open spec fn spec_envelope(b: Seq<u8>) -> Option<(u8, Option<Option<Seq<u8>>>)> {
    if b.len() == 0 || b[0] != 0x7B {
        None
    } else {
        spec_top_fields(b, 1, None, None)
    }
}

/// The spec-level picture of an optional byte vector.
pub open spec fn opt_bytes_view(o: Option<Vec<u8>>) -> Option<Seq<u8>> {
    match o {
        Some(v) => Some(v@),
        None => None,
    }
}

/// The spec-level picture of an envelope's payload field.
pub open spec fn opt_payload_view(o: Option<Option<Vec<u8>>>) -> Option<Option<Seq<u8>>> {
    match o {
        Some(d) => Some(opt_bytes_view(d)),
        None => None,
    }
}

/// Read a marker-prefixed non-negative integer, as `spec_uint` says.
fn parse_uint(b: &Vec<u8>, pos: usize) -> (res: Option<(u64, usize)>)
    requires
        pos <= b@.len(),
    ensures
        match res {
            Some((v, p)) => spec_uint(b@, pos as int) == Some(((v as int), (p as int))) && pos < p
                <= b@.len(),
            None => spec_uint(b@, pos as int) is None,
        },
{
    let len = b.len();
    if pos >= len {
        return None;
    }
    let m = b[pos];
    if m == 0x69 || m == 0x55 {
        if len - pos < 2 {
            return None;
        }
        let v = b[pos + 1];
        if m == 0x69 && v >= 128 {
            return None;
        }
        Some(((v as u64), pos + 2))
    } else if m == 0x49 {
        if len - pos < 3 {
            return None;
        }
        let v: u64 = (b[pos + 1] as u64) * 0x100 + (b[pos + 2] as u64);
        if v >= 0x8000 {
            return None;
        }
        Some((v, pos + 3))
    } else if m == 0x6C {
        if len - pos < 5 {
            return None;
        }
        let v: u64 = (b[pos + 1] as u64) * 0x1000000 + (b[pos + 2] as u64) * 0x10000 + (b[pos
            + 3] as u64) * 0x100 + (b[pos + 4] as u64);
        if v >= 0x80000000 {
            return None;
        }
        Some((v, pos + 5))
    } else if m == 0x4C {
        if len - pos < 9 {
            return None;
        }
        let v: u64 = (b[pos + 1] as u64) * 0x100000000000000 + (b[pos + 2] as u64)
            * 0x1000000000000 + (b[pos + 3] as u64) * 0x10000000000 + (b[pos + 4] as u64)
            * 0x100000000 + (b[pos + 5] as u64) * 0x1000000 + (b[pos + 6] as u64) * 0x10000 + (
        b[pos + 7] as u64) * 0x100 + (b[pos + 8] as u64);
        if v >= 0x8000000000000000 {
            return None;
        }
        Some((v, pos + 9))
    } else {
        None
    }
}

/// Read an object key; returns where its name starts, the name's length and
/// the position after it, as `spec_key` says.
fn parse_key(b: &Vec<u8>, pos: usize) -> (res: Option<(usize, usize, usize)>)
    requires
        pos <= b@.len(),
    ensures
        match res {
            Some((s, n, e)) => spec_key(b@, pos as int) == Some(
                (b@.subrange(s as int, s as int + n as int), e as int),
            ) && pos < e <= b@.len() && s as int + n as int == e as int,
            None => spec_key(b@, pos as int) is None,
        },
{
    match parse_uint(b, pos) {
        None => None,
        Some((n, p)) => {
            if n > (b.len() - p) as u64 {
                return None;
            }
            let klen = n as usize;
            Some((p, klen, p + klen))
        },
    }
}

/// Whether the key bytes at `s..s+n` spell the given word.
fn key_is(b: &Vec<u8>, s: usize, n: usize, w: &Vec<u8>) -> (res: bool)
    requires
        s + n <= b@.len(),
    ensures
        res == (b@.subrange(s as int, s as int + n as int) == w@),
{
    let blen = b.len();
    if n != w.len() {
        proof {
            assert(b@.subrange(s as int, s as int + n as int).len() == n);
        }
        return false;
    }
    let mut i: usize = 0;
    while i < n
        invariant
            i <= n,
            n == w@.len(),
            s + n <= blen,
            blen == b@.len(),
            forall|j: int| 0 <= j < i ==> b@[s + j] == w@[j],
        decreases n - i,
    {
        if b[s + i] != w[i] {
            proof {
                assert(b@.subrange(s as int, s as int + n as int)[i as int] != w@[i as int]);
            }
            return false;
        }
        i = i + 1;
    }
    proof {
        assert(b@.subrange(s as int, s as int + n as int) =~= w@);
    }
    true
}

/// Width of one strongly-typed array element, as `spec_elem_width` says.
fn elem_width(m: u8) -> (res: Option<u64>)
    ensures
        match res {
            Some(w) => spec_elem_width(m) == Some(w as int),
            None => spec_elem_width(m) is None,
        },
{
    if m == 0x55 || m == 0x69 {
        Some(1)
    } else if m == 0x49 {
        Some(2)
    } else if m == 0x6C {
        Some(4)
    } else if m == 0x4C {
        Some(8)
    } else if m == 0x54 || m == 0x46 || m == 0x5A {
        Some(0)
    } else {
        None
    }
}

/// Skip one value, as `spec_skip_value` says.
fn skip_value(b: &Vec<u8>, pos: usize) -> (res: Option<usize>)
    requires
        pos <= b@.len(),
    ensures
        match res {
            Some(p) => spec_skip_value(b@, pos as int) == Some(p as int) && pos < p <= b@.len(),
            None => spec_skip_value(b@, pos as int) is None,
        },
    decreases b@.len() - pos, 0int,
{
    let len = b.len();
    if pos >= len {
        return None;
    }
    let m = b[pos];
    if m == 0x54 || m == 0x46 || m == 0x5A {
        Some(pos + 1)
    } else if m == 0x69 || m == 0x55 {
        if len - pos < 2 {
            None
        } else {
            Some(pos + 2)
        }
    } else if m == 0x49 {
        if len - pos < 3 {
            None
        } else {
            Some(pos + 3)
        }
    } else if m == 0x6C {
        if len - pos < 5 {
            None
        } else {
            Some(pos + 5)
        }
    } else if m == 0x4C {
        if len - pos < 9 {
            None
        } else {
            Some(pos + 9)
        }
    } else if m == 0x53 {
        match parse_uint(b, pos + 1) {
            None => None,
            Some((n, p)) => {
                if n > (len - p) as u64 {
                    return None;
                }
                Some(p + n as usize)
            },
        }
    } else if m == 0x7B {
        skip_fields(b, pos + 1)
    } else if m == 0x5B {
        if len - pos > 1 && b[pos + 1] == 0x24 {
            if len - pos > 3 && b[pos + 3] == 0x23 {
                let w = match elem_width(b[pos + 2]) {
                    None => {
                        return None;
                    },
                    Some(w) => w,
                };
                match parse_uint(b, pos + 4) {
                    None => None,
                    Some((n, p)) => {
                        let need: u128 = (n as u128) * (w as u128);
                        if need > (len - p) as u128 {
                            return None;
                        }
                        Some(p + (need as usize))
                    },
                }
            } else {
                None
            }
        } else {
            skip_items(b, pos + 1)
        }
    } else {
        None
    }
}

/// Skip the rest of an object's fields, as `spec_skip_fields` says.
fn skip_fields(b: &Vec<u8>, pos: usize) -> (res: Option<usize>)
    requires
        pos <= b@.len(),
    ensures
        match res {
            Some(p) => spec_skip_fields(b@, pos as int) == Some(p as int) && pos < p <= b@.len(),
            None => spec_skip_fields(b@, pos as int) is None,
        },
    decreases b@.len() - pos, 1int,
{
    if pos >= b.len() {
        return None;
    }
    if b[pos] == 0x7D {
        return Some(pos + 1);
    }
    match parse_key(b, pos) {
        None => None,
        Some((_, _, kp)) => match skip_value(b, kp) {
            None => None,
            Some(vp) => skip_fields(b, vp),
        },
    }
}

/// Skip the rest of a plain array's items, as `spec_skip_items` says.
fn skip_items(b: &Vec<u8>, pos: usize) -> (res: Option<usize>)
    requires
        pos <= b@.len(),
    ensures
        match res {
            Some(p) => spec_skip_items(b@, pos as int) == Some(p as int) && pos < p <= b@.len(),
            None => spec_skip_items(b@, pos as int) is None,
        },
    decreases b@.len() - pos, 1int,
{
    if pos >= b.len() {
        return None;
    }
    if b[pos] == 0x5D {
        return Some(pos + 1);
    }
    match skip_value(b, pos) {
        None => None,
        Some(vp) => skip_items(b, vp),
    }
}

/// Collect the byte items of a plain array, as `spec_data_items` says.
fn data_items(b: &Vec<u8>, pos: usize) -> (res: Option<(Vec<u8>, usize)>)
    requires
        pos <= b@.len(),
    ensures
        match res {
            Some((v, e)) => spec_data_items(b@, pos as int) == Some((v@, e as int)) && pos < e
                <= b@.len(),
            None => spec_data_items(b@, pos as int) is None,
        },
    decreases b@.len() - pos,
{
    if pos >= b.len() {
        return None;
    }
    if b[pos] == 0x5D {
        return Some((Vec::new(), pos + 1));
    }
    match parse_uint(b, pos) {
        None => None,
        Some((v, p)) => {
            if v > 255 {
                return None;
            }
            match data_items(b, p) {
                None => None,
                Some((rest, e)) => {
                    let mut out = rest;
                    out.insert(0, v as u8);
                    proof {
                        assert(out@ =~= seq![v as u8] + out@.subrange(1, out@.len() as int));
                    }
                    Some((out, e))
                },
            }
        },
    }
}

/// Read the bytes of a `data` array, as `spec_data_array` says.
fn data_array(b: &Vec<u8>, pos: usize) -> (res: Option<(Vec<u8>, usize)>)
    requires
        pos <= b@.len(),
    ensures
        match res {
            Some((v, e)) => spec_data_array(b@, pos as int) == Some((v@, e as int)) && pos < e
                <= b@.len(),
            None => spec_data_array(b@, pos as int) is None,
        },
{
    let len = b.len();
    if pos >= len || b[pos] != 0x5B {
        return None;
    }
    if len - pos > 3 && b[pos + 1] == 0x24 && b[pos + 2] == 0x55 && b[pos + 3] == 0x23 {
        match parse_uint(b, pos + 4) {
            None => None,
            Some((n, p)) => {
                if n > (len - p) as u64 {
                    return None;
                }
                let count = n as usize;
                let mut out: Vec<u8> = Vec::new();
                let mut i: usize = 0;
                while i < count
                    invariant
                        i <= count,
                        p + count <= len,
                        len == b@.len(),
                        out@ == b@.subrange(p as int, p + i),
                    decreases count - i,
                {
                    out.push(b[p + i]);
                    proof {
                        assert(out@ =~= b@.subrange(p as int, p + i + 1));
                    }
                    i = i + 1;
                }
                Some((out, p + count))
            },
        }
    } else {
        data_items(b, pos + 1)
    }
}

/// Scan the payload object's fields for `data`, as `spec_payload_fields`
/// says.
fn payload_fields(b: &Vec<u8>, pos: usize, data: Option<Vec<u8>>) -> (res: Option<
    (Option<Vec<u8>>, usize),
>)
    requires
        pos <= b@.len(),
    ensures
        match res {
            Some((d, e)) => spec_payload_fields(b@, pos as int, opt_bytes_view(data)) == Some(
                (opt_bytes_view(d), e as int),
            ) && pos < e <= b@.len(),
            None => spec_payload_fields(b@, pos as int, opt_bytes_view(data)) is None,
        },
    decreases b@.len() - pos,
{
    if pos >= b.len() {
        return None;
    }
    if b[pos] == 0x7D {
        return Some((data, pos + 1));
    }
    match parse_key(b, pos) {
        None => None,
        Some((s, n, kp)) => {
            let data_word: Vec<u8> = vec![0x64u8, 0x61, 0x74, 0x61];
            proof {
                assert(data_word@ =~= seq![100u8, 97u8, 116u8, 97u8]);
            }
            if key_is(b, s, n, &data_word) {
                match data_array(b, kp) {
                    None => None,
                    Some((bytes, e)) => payload_fields(b, e, Some(bytes)),
                }
            } else {
                match skip_value(b, kp) {
                    None => None,
                    Some(vp) => payload_fields(b, vp, data),
                }
            }
        },
    }
}

/// Scan the envelope object's fields for `type` and `payload`, as
/// `spec_top_fields` says.
fn top_fields(b: &Vec<u8>, pos: usize, ty: Option<u8>, payload: Option<Option<Vec<u8>>>) -> (res:
    Option<(u8, Option<Option<Vec<u8>>>)>)
    requires
        pos <= b@.len(),
    ensures
        match res {
            Some((t, p)) => spec_top_fields(b@, pos as int, ty, opt_payload_view(payload))
                == Some((t, opt_payload_view(p))),
            None => spec_top_fields(b@, pos as int, ty, opt_payload_view(payload)) is None,
        },
    decreases b@.len() - pos,
{
    if pos >= b.len() {
        return None;
    }
    if b[pos] == 0x7D {
        return match ty {
            Some(t) => Some((t, payload)),
            None => None,
        };
    }
    match parse_key(b, pos) {
        None => None,
        Some((s, n, kp)) => {
            let type_word: Vec<u8> = vec![0x74u8, 0x79, 0x70, 0x65];
            let payload_word: Vec<u8> = vec![0x70u8, 0x61, 0x79, 0x6C, 0x6F, 0x61, 0x64];
            proof {
                assert(type_word@ =~= seq![116u8, 121u8, 112u8, 101u8]);
                assert(payload_word@ =~= seq![112u8, 97u8, 121u8, 108u8, 111u8, 97u8, 100u8]);
            }
            if key_is(b, s, n, &type_word) {
                match parse_uint(b, kp) {
                    None => None,
                    Some((v, p)) => {
                        if v > 255 {
                            return None;
                        }
                        top_fields(b, p, Some(v as u8), payload)
                    },
                }
            } else if key_is(b, s, n, &payload_word) {
                if kp < b.len() && b[kp] == 0x7B {
                    match payload_fields(b, kp + 1, None) {
                        None => None,
                        Some((data, e)) => top_fields(b, e, ty, Some(data)),
                    }
                } else if kp < b.len() && b[kp] == 0x5A {
                    top_fields(b, kp + 1, ty, payload)
                } else {
                    None
                }
            } else {
                match skip_value(b, kp) {
                    None => None,
                    Some(vp) => top_fields(b, vp, ty, payload),
                }
            }
        },
    }
}

/// Parse one whole console message, as `spec_envelope` says.
pub fn parse_envelope(b: &Vec<u8>) -> (res: Option<(u8, Option<Option<Vec<u8>>>)>)
    ensures
        match res {
            Some((t, p)) => spec_envelope(b@) == Some((t, opt_payload_view(p))),
            None => spec_envelope(b@) is None,
        },
{
    if b.len() == 0 {
        return None;
    }
    if b[0] != 0x7B {
        return None;
    }
    top_fields(b, 1, None, None)
}

/// Decide what one console message contributes to the source stream: its
/// payload's `data` bytes when they are present and non-empty, nothing for a
/// missing payload or empty data, and an error for a malformed envelope.
pub fn console_payload(msg: &Vec<u8>) -> (res: Result<Option<Vec<u8>>, ConsoleError>)
    ensures
        match res {
            Err(e) => spec_envelope(msg@) is None && e == ConsoleError::DecodeError,
            Ok(out) => match spec_envelope(msg@) {
                None => false,
                Some((_, payload)) => match out {
                    Some(v) => payload == Some(Some(v@)) && v@.len() > 0,
                    None => payload is None || payload == Some(None::<Seq<u8>>) || (payload
                        matches Some(Some(d)) && d.len() == 0),
                },
            },
        },
{
    match parse_envelope(msg) {
        None => Err(ConsoleError::DecodeError),
        Some((_t, payload)) => match payload {
            None => Ok(None),
            Some(None) => Ok(None),
            Some(Some(d)) => if d.len() == 0 {
                Ok(None)
            } else {
                Ok(Some(d))
            },
        },
    }
}

} // verus!
