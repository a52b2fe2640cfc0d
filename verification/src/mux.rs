//! Multiplexer: merges the payload streams of several sources into one
//! sequence of `(stream_id, payload)` pairs. Stream ids are assigned
//! positionally from the list the relay delivered; empty payloads are
//! filtered out here; the merge ends only when every source has ended.

use vstd::prelude::*;

verus! {

/// One multiplexed packet: the id of the stream it belongs to, and its bytes.
pub struct SourcePacket {
    pub stream_id: u32,
    pub payload: Vec<u8>,
}

/// Why a multiplexer could not be built.
#[derive(Debug, PartialEq, Eq, Structural)]
pub enum MuxError {
    /// Fewer stream ids were supplied than there are sources.
    NotEnoughStreamIds,
}

/// The wire sequence determined by an id assignment and a log of source
/// emissions `(source index, payload)`: each non-empty payload appears as a
/// pair tagged with its source's id, in log order; empty payloads are dropped.
pub open spec fn spec_mux_wire(ids: Seq<u32>, log: Seq<(int, Seq<u8>)>) -> Seq<(u32, Seq<u8>)>
    decreases log.len(),
{
    if log.len() == 0 {
        Seq::empty()
    } else {
        let rest = spec_mux_wire(ids, log.drop_last());
        let last = log.last();
        if last.1.len() == 0 {
            rest
        } else {
            rest.push((ids[last.0], last.1))
        }
    }
}

/// The payloads on a wire sequence that carry the given stream id, in order.
pub open spec fn spec_stream_payloads(wire: Seq<(u32, Seq<u8>)>, id: u32) -> Seq<Seq<u8>>
    decreases wire.len(),
{
    if wire.len() == 0 {
        Seq::empty()
    } else {
        let rest = spec_stream_payloads(wire.drop_last(), id);
        if wire.last().0 == id {
            rest.push(wire.last().1)
        } else {
            rest
        }
    }
}

/// The non-empty payloads a single source emitted, in emission order.
pub open spec fn spec_source_emissions(log: Seq<(int, Seq<u8>)>, k: int) -> Seq<Seq<u8>>
    decreases log.len(),
{
    if log.len() == 0 {
        Seq::empty()
    } else {
        let rest = spec_source_emissions(log.drop_last(), k);
        let last = log.last();
        if last.0 == k && last.1.len() > 0 {
            rest.push(last.1)
        } else {
            rest
        }
    }
}

/// Merges N sources into one packet sequence, assigning ids positionally.
pub struct Multiplexer {
    stream_ids: Vec<u32>,
    ended: Vec<bool>,
    log: Ghost<Seq<(int, Seq<u8>)>>,
}

impl Multiplexer {
    /// The id assigned to each source, positionally.
    pub closed spec fn ids(self) -> Seq<u32> {
        self.stream_ids@
    }

    /// How many sources feed this multiplexer.
    pub closed spec fn source_count(self) -> nat {
        self.ended@.len()
    }

    /// Which sources have ended.
    pub closed spec fn ended_flags(self) -> Seq<bool> {
        self.ended@
    }

    /// The log of accepted source emissions, including empty ones.
    pub closed spec fn log(self) -> Seq<(int, Seq<u8>)> {
        self.log@
    }

    /// The packets handed to the wire so far, as `(stream id, payload)` pairs.
    pub open spec fn wire(self) -> Seq<(u32, Seq<u8>)> {
        spec_mux_wire(self.ids(), self.log())
    }

    /// Internal consistency: enough ids for the sources, and every logged
    /// emission names a real source.
    pub closed spec fn wf(self) -> bool {
        &&& self.ended@.len() <= self.stream_ids@.len()
        &&& forall|i: int|
            0 <= i < self.log@.len() ==> 0 <= (#[trigger] self.log@[i]).0 < self.ended@.len()
    }

    /// Build a multiplexer over `source_count` sources; fails when fewer
    /// stream ids are supplied than there are sources.
    pub fn new(stream_ids: Vec<u32>, source_count: usize) -> (res: Result<Multiplexer, MuxError>)
        ensures
            match res {
                Ok(m) => {
                    &&& stream_ids@.len() >= source_count
                    &&& m.wf()
                    &&& m.ids() == stream_ids@
                    &&& m.source_count() == source_count
                    &&& m.log() == Seq::<(int, Seq<u8>)>::empty()
                    &&& forall|k: int| 0 <= k < source_count ==> !(#[trigger] m.ended_flags()[k])
                },
                Err(e) => stream_ids@.len() < source_count && e == MuxError::NotEnoughStreamIds,
            },
    {
        if stream_ids.len() < source_count {
            return Err(MuxError::NotEnoughStreamIds);
        }
        let mut ended: Vec<bool> = Vec::new();
        let mut i: usize = 0;
        while i < source_count
            invariant
                i <= source_count,
                ended@.len() == i,
                forall|k: int| 0 <= k < i ==> !(#[trigger] ended@[k]),
            decreases source_count - i,
        {
            ended.push(false);
            i = i + 1;
        }
        Ok(Multiplexer { stream_ids, ended, log: Ghost(Seq::empty()) })
    }

    /// Accept one element from source `k`. A non-empty payload becomes a
    /// packet carrying that source's assigned id; an empty one is dropped.
    pub fn on_source_item(&mut self, k: usize, payload: Vec<u8>) -> (res: Option<SourcePacket>)
        requires
            old(self).wf(),
            k < old(self).source_count(),
        ensures
            final(self).wf(),
            final(self).ids() == old(self).ids(),
            final(self).source_count() == old(self).source_count(),
            final(self).ended_flags() == old(self).ended_flags(),
            final(self).log() == old(self).log().push((k as int, payload@)),
            payload@.len() == 0 ==> res is None && final(self).wire() == old(self).wire(),
            payload@.len() > 0 ==> match res {
                Some(p) => {
                    &&& p.stream_id == old(self).ids()[k as int]
                    &&& p.payload@ == payload@
                    &&& final(self).wire() == old(self).wire().push(
                        (old(self).ids()[k as int], payload@),
                    )
                },
                None => false,
            },
    {
        proof {
            self.log@ = self.log@.push((k as int, payload@));
            assert(self.log@.drop_last() =~= old(self).log@);
        }
        if payload.len() == 0 {
            None
        } else {
            let stream_id = self.stream_ids[k];
            Some(SourcePacket { stream_id, payload })
        }
    }

    /// Record that source `k` has ended. The merge itself goes on while any
    /// other source is still live.
    pub fn on_source_end(&mut self, k: usize)
        requires
            old(self).wf(),
            k < old(self).source_count(),
        ensures
            final(self).wf(),
            final(self).ids() == old(self).ids(),
            final(self).log() == old(self).log(),
            final(self).ended_flags() == old(self).ended_flags().update(k as int, true),
    {
        self.ended.set(k, true);
    }

    /// Whether the merged stream has ended: true exactly when every source
    /// has ended.
    pub fn is_done(&self) -> (res: bool)
        ensures
            res == (forall|k: int|
                0 <= k < self.source_count() ==> (#[trigger] self.ended_flags()[k])),
    {
        let mut i: usize = 0;
        while i < self.ended.len()
            invariant
                i <= self.ended@.len(),
                forall|k: int| 0 <= k < i ==> (#[trigger] self.ended@[k]),
            decreases self.ended@.len() - i,
        {
            if !self.ended[i] {
                proof {
                    assert(!self.ended_flags()[i as int]);
                }
                return false;
            }
            i = i + 1;
        }
        true
    }

    /// How many sources this multiplexer was built over.
    pub fn len(&self) -> (res: usize)
        ensures
            res == self.source_count(),
    {
        self.ended.len()
    }
}

/// Forward one source element to the wire: drop an empty payload, frame a
/// non-empty one with the source's assigned stream id.
pub fn forward_element(m: &mut Multiplexer, k: usize, payload: Vec<u8>) -> (res: Option<Vec<u8>>)
    requires
        old(m).wf(),
        k < old(m).source_count(),
        payload@.len() <= u32::MAX,
    ensures
        final(m).wf(),
        final(m).ids() == old(m).ids(),
        final(m).source_count() == old(m).source_count(),
        final(m).ended_flags() == old(m).ended_flags(),
        final(m).log() == old(m).log().push((k as int, payload@)),
        payload@.len() == 0 ==> res is None && final(m).wire() == old(m).wire(),
        payload@.len() > 0 ==> match res {
            Some(frame) => {
                &&& frame@ == crate::codec::spec_frame_bytes(old(m).ids()[k as int], payload@)
                &&& final(m).wire() == old(m).wire().push((old(m).ids()[k as int], payload@))
            },
            None => false,
        },
{
    match m.on_source_item(k, payload) {
        None => None,
        Some(packet) => Some(crate::codec::create_packet(packet.stream_id, packet.payload)),
    }
}

/// Law: within one stream the wire preserves the source's own order. For any
/// source `k` with a distinct id, the payloads on the wire bearing id
/// `ids[k]` are exactly the non-empty payloads source `k` emitted, in order.
pub proof fn lemma_mux_within_stream_order(ids: Seq<u32>, log: Seq<(int, Seq<u8>)>, k: int)
    requires
        0 <= k < ids.len(),
        forall|i: int| 0 <= i < log.len() ==> 0 <= (#[trigger] log[i]).0 < ids.len(),
        forall|j: int| 0 <= j < ids.len() && j != k ==> ids[j] != ids[k],
    ensures
        spec_stream_payloads(spec_mux_wire(ids, log), ids[k]) == spec_source_emissions(log, k),
    decreases log.len(),
{
    if log.len() == 0 {
    } else {
        let prior = log.drop_last();
        lemma_mux_within_stream_order(ids, prior, k);
        let last = log.last();
        let wire = spec_mux_wire(ids, log);
        if last.1.len() == 0 {
            assert(spec_source_emissions(log, k) == spec_source_emissions(prior, k));
        } else {
            let prior_wire = spec_mux_wire(ids, prior);
            assert(wire == prior_wire.push((ids[last.0], last.1)));
            assert(wire.drop_last() =~= prior_wire);
            if last.0 == k {
                assert(spec_stream_payloads(wire, ids[k]) == spec_stream_payloads(
                    prior_wire,
                    ids[k],
                ).push(last.1));
            } else {
                assert(ids[last.0] != ids[k]);
                assert(spec_stream_payloads(wire, ids[k]) == spec_stream_payloads(
                    prior_wire,
                    ids[k],
                ));
            }
        }
    }
}

/// Law: every packet on the wire from source `k` carries `ids[k]`; packets
/// from other sources never borrow it (when ids are distinct this pins each
/// packet's id to its source positionally).
pub proof fn lemma_mux_positional_ids(ids: Seq<u32>, log: Seq<(int, Seq<u8>)>)
    requires
        forall|i: int| 0 <= i < log.len() ==> 0 <= (#[trigger] log[i]).0 < ids.len(),
    ensures
        forall|w: int|
            0 <= w < spec_mux_wire(ids, log).len() ==> exists|i: int|
                0 <= i < log.len() && (#[trigger] spec_mux_wire(ids, log)[w]).0
                    == ids[(#[trigger] log[i]).0] && spec_mux_wire(ids, log)[w].1 == log[i].1,
    decreases log.len(),
{
    if log.len() == 0 {
    } else {
        let prior = log.drop_last();
        lemma_mux_positional_ids(ids, prior);
        let wire = spec_mux_wire(ids, log);
        let prior_wire = spec_mux_wire(ids, prior);
        assert forall|w: int| 0 <= w < wire.len() implies exists|i: int|
            0 <= i < log.len() && (#[trigger] wire[w]).0 == ids[(#[trigger] log[i]).0]
                && wire[w].1 == log[i].1 by {
            if w < prior_wire.len() {
                assert(wire[w] == prior_wire[w]);
                let i = choose|i: int|
                    0 <= i < prior.len() && (#[trigger] prior_wire[w]).0 == ids[(#[trigger] prior[i]).0]
                        && prior_wire[w].1 == prior[i].1;
                assert(log[i] == prior[i]);
            } else {
                let i = log.len() - 1;
                assert(wire[w].0 == ids[log[i].0] && wire[w].1 == log[i].1);
            }
        }
    }
}

} // verus!
