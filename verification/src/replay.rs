//! Incremental replay-event parser and file-writer state machine.
//!
//! Inbound byte blobs are event-aligned: each blob holds whole events. Every
//! game opens with the payload-sizes event (tag `0x35`), whose table gives the
//! body length of every later event; the game ends with tag `0x39`. The
//! writer turns each blob into a list of file actions (open, write, close,
//! mirror) that the caller applies to the file system.

use vstd::prelude::*;
use std::collections::HashMap;

verus! {

broadcast use vstd::std_specs::hash::group_hash_axioms;

/// Tag of the payload-sizes event that starts every game.
pub const PAYLOAD_SIZES_EVENT: u8 = 0x35;

/// Tag of the game-start event; the sizes table must list it.
pub const GAME_START_EVENT: u8 = 0x36;

/// Tag of the game-end event; writing it closes the current file.
pub const GAME_END_EVENT: u8 = 0x39;

/// Why a blob was rejected.
#[derive(Debug, Clone, Copy, PartialEq, Eq, Structural)]
pub enum ReplayError {
    /// A new game's first event was not the payload-sizes event.
    ExpectedPayloadSizes,
    /// The payload-sizes body length was not one more than a multiple of 3.
    BadPayloadSizesLength,
    /// The sizes table lacks the game-start event.
    MissingGameStart,
    /// The sizes table lacks the game-end event.
    MissingGameEnd,
    /// An event tag that the sizes table does not list.
    UnknownEvent(u8),
    /// The blob ended in the middle of an event.
    Truncated,
}

/// One file action the caller must apply, in order.
#[derive(Debug, Clone, Copy, PartialEq, Eq, Structural)]
pub enum ReplayAction {
    /// Open a fresh output file for a new game (replacing any current one).
    OpenFile,
    /// Issue the mirror command for the freshly opened file.
    EmitMirror,
    /// Append `data[start..end]` — one whole event — to the current file.
    Write { start: usize, end: usize },
    /// Close the current file: the game has ended.
    CloseFile,
}

/// The big-endian 16-bit value of two bytes.
pub open spec fn spec_be16(hi: u8, lo: u8) -> u16 {
    (hi as int * 256 + lo as int) as u16
}

/// The sizes map read from the first `n` `{code, size_be16}` triples starting
/// at `base`. Later triples overwrite earlier ones with the same code.
pub open spec fn spec_table(data: Seq<u8>, base: int, n: nat) -> Map<u8, u16>
    decreases n,
{
    if n == 0 {
        Map::empty()
    } else {
        spec_table(data, base, (n - 1) as nat).insert(
            data[base + 3 * (n - 1)],
            spec_be16(data[base + 3 * (n - 1) + 1], data[base + 3 * (n - 1) + 2]),
        )
    }
}

/// Outcome of reading a payload-sizes event at offset `i`: the sizes map and
/// the number of bytes consumed, or the exact reason for rejection.
pub open spec fn spec_parse_payloads(data: Seq<u8>, i: int) -> Result<
    (Map<u8, u16>, int),
    ReplayError,
>
    recommends
        0 <= i < data.len(),
{
    if data[i] != PAYLOAD_SIZES_EVENT {
        Err(ReplayError::ExpectedPayloadSizes)
    } else if i + 1 >= data.len() {
        Err(ReplayError::Truncated)
    } else {
        let size = data[i + 1] as int;
        if size % 3 != 1 {
            Err(ReplayError::BadPayloadSizesLength)
        } else if i + 1 + size > data.len() {
            Err(ReplayError::Truncated)
        } else {
            let m = spec_table(data, i + 2, ((size - 1) / 3) as nat);
            if !m.contains_key(GAME_START_EVENT) {
                Err(ReplayError::MissingGameStart)
            } else if !m.contains_key(GAME_END_EVENT) {
                Err(ReplayError::MissingGameEnd)
            } else {
                Ok((m, size + 1))
            }
        }
    }
}

/// The writer's run over a blob from offset `i`: the final sizes state, the
/// final file-open state, the actions emitted, and the error that stopped the
/// run, if any. A payload-sizes tag (with or without a current table) starts
/// a new game: open a file, mirror if enabled, write the table event. Every
/// other event is written when a file is open and dropped when none is; the
/// game-end event additionally closes the file and clears the table.
pub open spec fn spec_run(
    sizes: Option<Map<u8, u16>>,
    open: bool,
    mirror: bool,
    data: Seq<u8>,
    i: int,
) -> (Option<Map<u8, u16>>, bool, Seq<ReplayAction>, Option<ReplayError>)
    recommends
        0 <= i <= data.len() <= usize::MAX,
    decreases data.len() - i,
    when 0 <= i <= data.len()
{
    if i >= data.len() {
        (sizes, open, Seq::empty(), None)
    } else if sizes is None || data[i] == PAYLOAD_SIZES_EVENT {
        match spec_parse_payloads(data, i) {
            Err(e) => (sizes, open, Seq::empty(), Some(e)),
            Ok((m, c)) => {
                let first = if mirror {
                    seq![
                        ReplayAction::OpenFile,
                        ReplayAction::EmitMirror,
                        ReplayAction::Write { start: i as usize, end: (i + c) as usize },
                    ]
                } else {
                    seq![
                        ReplayAction::OpenFile,
                        ReplayAction::Write { start: i as usize, end: (i + c) as usize },
                    ]
                };
                let rest = spec_run(Some(m), true, mirror, data, i + c);
                (rest.0, rest.1, first + rest.2, rest.3)
            },
        }
    } else {
        match sizes {
            None => (sizes, open, Seq::empty(), None),  // unreachable in this branch
            Some(m) => {
                let tag = data[i];
                if !m.contains_key(tag) {
                    (sizes, open, Seq::empty(), Some(ReplayError::UnknownEvent(tag)))
                } else {
                    let body = m[tag] as int;
                    if i + 1 + body > data.len() {
                        (sizes, open, Seq::empty(), Some(ReplayError::Truncated))
                    } else {
                        let first: Seq<ReplayAction> = if open {
                            seq![
                                ReplayAction::Write {
                                    start: i as usize,
                                    end: (i + 1 + body) as usize,
                                },
                            ]
                        } else {
                            Seq::empty()
                        };
                        if tag == GAME_END_EVENT {
                            let closing: Seq<ReplayAction> = if open {
                                seq![ReplayAction::CloseFile]
                            } else {
                                Seq::empty()
                            };
                            let rest = spec_run(None, false, mirror, data, i + 1 + body);
                            (rest.0, rest.1, first + closing + rest.2, rest.3)
                        } else {
                            let rest = spec_run(sizes, open, mirror, data, i + 1 + body);
                            (rest.0, rest.1, first + rest.2, rest.3)
                        }
                    }
                }
            },
        }
    }
}

/// Read a payload-sizes event at offset `i`; returns the sizes map and the
/// bytes consumed, exactly as `spec_parse_payloads` says.
pub fn parse_payloads(data: &Vec<u8>, i: usize) -> (res: Result<
    (HashMap<u8, u16>, usize),
    ReplayError,
>)
    requires
        i < data@.len(),
    ensures
        match res {
            Ok((m, c)) => spec_parse_payloads(data@, i as int) == Ok::<_, ReplayError>(
                (m@, c as int),
            ) && 2 <= c && i + c <= data@.len(),
            Err(e) => spec_parse_payloads(data@, i as int) == Err::<(Map<u8, u16>, int), _>(e),
        },
{
    let dlen = data.len();
    if data[i] != PAYLOAD_SIZES_EVENT {
        return Err(ReplayError::ExpectedPayloadSizes);
    }
    if i + 1 >= dlen {
        return Err(ReplayError::Truncated);
    }
    let size: usize = data[i + 1] as usize;
    if size % 3 != 1 {
        return Err(ReplayError::BadPayloadSizesLength);
    }
    if size > dlen - (i + 1) {
        return Err(ReplayError::Truncated);
    }
    let n: usize = (size - 1) / 3;
    let base: usize = i + 2;
    proof {
        assert(3 * ((size - 1) / 3) == size - 1) by (nonlinear_arith)
            requires
                size % 3 == 1,
                size >= 1,
        ;
    }
    let mut m: HashMap<u8, u16> = HashMap::new();
    let mut t: usize = 0;
    while t < n
        invariant
            t <= n,
            3 * n == size - 1,
            size <= 255,
            base == i + 2,
            i + 1 + size <= data@.len(),
            data@.len() <= usize::MAX,
            m@ == spec_table(data@, base as int, t as nat),
        decreases n - t,
    {
        let code = data[base + 3 * t];
        let hi = data[base + 3 * t + 1];
        let lo = data[base + 3 * t + 2];
        let val: u16 = (hi as u16) * 256 + (lo as u16);
        m.insert(code, val);
        t = t + 1;
    }
    if !m.contains_key(&GAME_START_EVENT) {
        return Err(ReplayError::MissingGameStart);
    }
    if !m.contains_key(&GAME_END_EVENT) {
        return Err(ReplayError::MissingGameEnd);
    }
    Ok((m, size + 1))
}

/// Streaming replay writer: holds the current game's sizes table and whether
/// an output file is open, and translates each inbound blob into file
/// actions.
pub struct ReplayWriter {
    sizes: Option<HashMap<u8, u16>>,
    file_open: bool,
    mirror: bool,
}

impl ReplayWriter {
    /// The current sizes table, as a map, if a game is in progress.
    pub closed spec fn model_sizes(self) -> Option<Map<u8, u16>> {
        match self.sizes {
            Some(m) => Some(m@),
            None => None,
        }
    }

    /// Whether an output file is currently open.
    pub closed spec fn is_open(self) -> bool {
        self.file_open
    }

    /// Whether each new game also emits a mirror command.
    pub closed spec fn mirror_enabled(self) -> bool {
        self.mirror
    }

    /// A fresh writer: no sizes table, no open file.
    pub fn new(mirror: bool) -> (res: ReplayWriter)
        ensures
            res.model_sizes() is None,
            !res.is_open(),
            res.mirror_enabled() == mirror,
    {
        ReplayWriter { sizes: None, file_open: false, mirror }
    }

    /// Consume one blob: emit the file actions for every whole event in it,
    /// exactly as `spec_run` says, stopping at the first malformed event.
    pub fn write_all(&mut self, data: &Vec<u8>) -> (res: (Vec<ReplayAction>, Option<ReplayError>))
        ensures
            ({
                let r = spec_run(
                    old(self).model_sizes(),
                    old(self).is_open(),
                    old(self).mirror_enabled(),
                    data@,
                    0,
                );
                &&& final(self).model_sizes() == r.0
                &&& final(self).is_open() == r.1
                &&& final(self).mirror_enabled() == old(self).mirror_enabled()
                &&& res.0@ == r.2
                &&& res.1 == r.3
            }),
    {
        let dlen = data.len();
        let ghost mir = self.mirror;
        let ghost full = spec_run(self.model_sizes(), self.file_open, mir, data@, 0);
        let mut acts: Vec<ReplayAction> = Vec::new();
        let mut i: usize = 0;
        loop
            invariant
                i <= dlen,
                dlen == data@.len(),
                self.mirror == mir,
                mir == old(self).mirror_enabled(),
                full == spec_run(old(self).model_sizes(), old(self).is_open(), mir, data@, 0),
                ({
                    let r = spec_run(self.model_sizes(), self.file_open, mir, data@, i as int);
                    &&& full.0 == r.0
                    &&& full.1 == r.1
                    &&& full.2 == acts@ + r.2
                    &&& full.3 == r.3
                }),
            decreases dlen - i,
        {
            if i >= dlen {
                proof {
                    assert(full.2 =~= acts@);
                }
                return (acts, None);
            }
            let tag = data[i];
            let table_needed = match &self.sizes {
                None => true,
                Some(_) => tag == PAYLOAD_SIZES_EVENT,
            };
            if table_needed {
                match parse_payloads(data, i) {
                    Err(e) => {
                        proof {
                            let r = spec_run(
                                self.model_sizes(),
                                self.file_open,
                                mir,
                                data@,
                                i as int,
                            );
                            assert(r.2 == Seq::<ReplayAction>::empty() && r.3 == Some(e));
                            assert(full.2 =~= acts@);
                        }
                        return (acts, Some(e));
                    },
                    Ok((m, c)) => {
                        let ghost prev = spec_run(
                            self.model_sizes(),
                            self.file_open,
                            mir,
                            data@,
                            i as int,
                        );
                        let ghost acts0 = acts@;
                        acts.push(ReplayAction::OpenFile);
                        if self.mirror {
                            acts.push(ReplayAction::EmitMirror);
                        }
                        acts.push(ReplayAction::Write { start: i, end: i + c });
                        self.sizes = Some(m);
                        self.file_open = true;
                        proof {
                            let first: Seq<ReplayAction> = if mir {
                                seq![
                                    ReplayAction::OpenFile,
                                    ReplayAction::EmitMirror,
                                    ReplayAction::Write { start: i, end: (i + c) as usize },
                                ]
                            } else {
                                seq![
                                    ReplayAction::OpenFile,
                                    ReplayAction::Write { start: i, end: (i + c) as usize },
                                ]
                            };
                            assert(acts@ =~= acts0 + first);
                            let rest = spec_run(
                                self.model_sizes(),
                                self.file_open,
                                mir,
                                data@,
                                i + c,
                            );
                            assert(prev == (rest.0, rest.1, first + rest.2, rest.3));
                            assert(full.2 =~= acts@ + rest.2);
                        }
                        i = i + c;
                    },
                }
            } else {
                let body_len: Option<u16> = match &self.sizes {
                    Some(m) => match m.get(&tag) {
                        Some(v) => Some(*v),
                        None => None,
                    },
                    None => None,
                };
                match body_len {
                    None => {
                        proof {
                            let r = spec_run(
                                self.model_sizes(),
                                self.file_open,
                                mir,
                                data@,
                                i as int,
                            );
                            assert(r.2 == Seq::<ReplayAction>::empty() && r.3 == Some(
                                ReplayError::UnknownEvent(tag),
                            ));
                            assert(full.2 =~= acts@);
                        }
                        return (acts, Some(ReplayError::UnknownEvent(tag)));
                    },
                    Some(l16) => {
                        let l: usize = l16 as usize;
                        if l > dlen - (i + 1) {
                            proof {
                                let r = spec_run(
                                    self.model_sizes(),
                                    self.file_open,
                                    mir,
                                    data@,
                                    i as int,
                                );
                                assert(r.2 == Seq::<ReplayAction>::empty() && r.3 == Some(
                                    ReplayError::Truncated,
                                ));
                                assert(full.2 =~= acts@);
                            }
                            return (acts, Some(ReplayError::Truncated));
                        }
                        let ghost prev = spec_run(
                            self.model_sizes(),
                            self.file_open,
                            mir,
                            data@,
                            i as int,
                        );
                        let ghost acts0 = acts@;
                        let was_open = self.file_open;
                        if was_open {
                            acts.push(ReplayAction::Write { start: i, end: i + 1 + l });
                        }
                        if tag == GAME_END_EVENT {
                            if was_open {
                                acts.push(ReplayAction::CloseFile);
                            }
                            self.sizes = None;
                            self.file_open = false;
                        }
                        proof {
                            let first: Seq<ReplayAction> = if was_open {
                                seq![
                                    ReplayAction::Write {
                                        start: i,
                                        end: (i + 1 + l) as usize,
                                    },
                                ]
                            } else {
                                Seq::empty()
                            };
                            let closing: Seq<ReplayAction> = if tag == GAME_END_EVENT
                                && was_open {
                                seq![ReplayAction::CloseFile]
                            } else {
                                Seq::empty()
                            };
                            assert(acts@ =~= acts0 + (first + closing));
                            let rest = spec_run(
                                self.model_sizes(),
                                self.file_open,
                                mir,
                                data@,
                                i + 1 + l,
                            );
                            if tag == GAME_END_EVENT {
                                assert(prev == (
                                    rest.0,
                                    rest.1,
                                    (first + closing) + rest.2,
                                    rest.3,
                                ));
                            } else {
                                assert(first + closing =~= first);
                                assert(prev == (rest.0, rest.1, first + rest.2, rest.3));
                            }
                            assert(full.2 =~= acts@ + rest.2);
                        }
                        i = i + 1 + l;
                    },
                }
            }
        }
    }
}

} // verus!
