//! Wire-frame codec: each outbound packet is an 8-byte header (stream id and
//! payload length, both little-endian `u32`) followed by the payload bytes.

use vstd::prelude::*;
use vstd::bytes::{spec_u32_from_le_bytes, spec_u32_to_le_bytes, u32_from_le_bytes, u32_to_le_bytes};

verus! {

/// The 8 header bytes for a packet: stream id, then payload length.
pub open spec fn spec_header_bytes(stream_id: u32, length: u32) -> Seq<u8> {
    spec_u32_to_le_bytes(stream_id) + spec_u32_to_le_bytes(length)
}

/// The full wire frame for a payload: header, then the payload itself.
pub open spec fn spec_frame_bytes(stream_id: u32, payload: Seq<u8>) -> Seq<u8>
    recommends
        payload.len() <= u32::MAX,
{
    spec_header_bytes(stream_id, payload.len() as u32) + payload
}

/// Build the 8-byte header from `[stream_id, length]`.
pub fn create_header(data: &[u32; 2]) -> (res: [u8; 8])
    ensures
        res@ == spec_header_bytes(data@[0], data@[1]),
{
    proof {
        vstd::bytes::lemma_auto_spec_u32_to_from_le_bytes();
    }
    let a = u32_to_le_bytes(data[0]);
    let b = u32_to_le_bytes(data[1]);
    let res: [u8; 8] = [a[0], a[1], a[2], a[3], b[0], b[1], b[2], b[3]];
    proof {
        assert(res@ =~= spec_header_bytes(data@[0], data@[1]));
    }
    res
}

/// Frame one payload: header then payload bytes.
pub fn create_packet(stream_id: u32, data: Vec<u8>) -> (res: Vec<u8>)
    requires
        data@.len() <= u32::MAX,
    ensures
        res@ == spec_frame_bytes(stream_id, data@),
{
    let len: u32 = data.len() as u32;
    let header = create_header(&[stream_id, len]);
    let mut res: Vec<u8> = Vec::new();
    let mut i: usize = 0;
    while i < 8
        invariant
            i <= 8,
            res@ == spec_header_bytes(stream_id, len).take(i as int),
            header@ == spec_header_bytes(stream_id, len),
        decreases 8 - i,
    {
        res.push(header[i]);
        proof {
            assert(res@ =~= spec_header_bytes(stream_id, len).take(i + 1));
        }
        i = i + 1;
    }
    proof {
        assert(res@ =~= spec_header_bytes(stream_id, len));
    }
    let mut j: usize = 0;
    while j < data.len()
        invariant
            j <= data@.len(),
            data@.len() <= u32::MAX,
            len == data@.len() as u32,
            res@ == spec_header_bytes(stream_id, len) + data@.take(j as int),
        decreases data@.len() - j,
    {
        res.push(data[j]);
        proof {
            assert(res@ =~= spec_header_bytes(stream_id, len) + data@.take(j + 1));
        }
        j = j + 1;
    }
    proof {
        assert(data@.take(data@.len() as int) =~= data@);
        assert(res@ =~= spec_frame_bytes(stream_id, data@));
    }
    res
}

/// The flattened bytes of a list of chunks, in order.
pub open spec fn spec_concat(chunks: Seq<Seq<u8>>) -> Seq<u8>
    decreases chunks.len(),
{
    if chunks.len() == 0 {
        Seq::empty()
    } else {
        chunks[0] + spec_concat(chunks.drop_first())
    }
}

proof fn lemma_concat_push(chunks: Seq<Seq<u8>>, c: Seq<u8>)
    ensures
        spec_concat(chunks.push(c)) == spec_concat(chunks) + c,
    decreases chunks.len(),
{
    if chunks.len() == 0 {
        assert(chunks.push(c).drop_first() =~= Seq::<Seq<u8>>::empty());
        assert(chunks.push(c)[0] == c);
        assert(spec_concat(chunks.push(c)) == c + spec_concat(Seq::<Seq<u8>>::empty()));
        assert(spec_concat(chunks.push(c)) =~= spec_concat(chunks) + c);
    } else {
        assert(chunks.push(c).drop_first() =~= chunks.drop_first().push(c));
        lemma_concat_push(chunks.drop_first(), c);
        assert(chunks.push(c)[0] == chunks[0]);
        assert(spec_concat(chunks.push(c)) == chunks[0] + (spec_concat(chunks.drop_first()) + c));
        assert(spec_concat(chunks.push(c)) =~= spec_concat(chunks) + c);
    }
}

/// Flatten a list of chunks into one payload, preserving order.
pub fn concat_chunks(chunks: &Vec<Vec<u8>>) -> (res: Vec<u8>)
    ensures
        res@ == spec_concat(chunks@.map_values(|c: Vec<u8>| c@)),
{
    let ghost model = chunks@.map_values(|c: Vec<u8>| c@);
    let mut res: Vec<u8> = Vec::new();
    let mut i: usize = 0;
    while i < chunks.len()
        invariant
            i <= chunks@.len(),
            model == chunks@.map_values(|c: Vec<u8>| c@),
            res@ == spec_concat(model.take(i as int)),
        decreases chunks@.len() - i,
    {
        let chunk = &chunks[i];
        let mut j: usize = 0;
        while j < chunk.len()
            invariant
                j <= chunk@.len(),
                res@ == spec_concat(model.take(i as int)) + chunk@.take(j as int),
                i < chunks@.len(),
                model == chunks@.map_values(|c: Vec<u8>| c@),
                chunk@ == model[i as int],
            decreases chunk@.len() - j,
        {
            res.push(chunk[j]);
            proof {
                assert(res@ =~= spec_concat(model.take(i as int)) + chunk@.take(j + 1));
            }
            j = j + 1;
        }
        proof {
            assert(chunk@.take(chunk@.len() as int) =~= chunk@);
            assert(model.take(i + 1) =~= model.take(i as int).push(model[i as int]));
            lemma_concat_push(model.take(i as int), model[i as int]);
            assert(res@ =~= spec_concat(model.take(i + 1)));
        }
        i = i + 1;
    }
    proof {
        assert(model.take(model.len() as int) =~= model);
    }
    res
}

/// Frame the concatenation of several chunks as one packet.
pub fn create_packet_chunks(stream_id: u32, data: Vec<Vec<u8>>) -> (res: Vec<u8>)
    requires
        spec_concat(data@.map_values(|c: Vec<u8>| c@)).len() <= u32::MAX,
    ensures
        res@ == spec_frame_bytes(stream_id, spec_concat(data@.map_values(|c: Vec<u8>| c@))),
{
    let flat = concat_chunks(&data);
    create_packet(stream_id, flat)
}

/// What decoding a frame yields: stream id, declared length, and the bytes
/// after the header.
pub open spec fn spec_decode(bytes: Seq<u8>) -> (u32, u32, Seq<u8>)
    recommends
        bytes.len() >= 8,
{
    (
        spec_u32_from_le_bytes(bytes.subrange(0, 4)),
        spec_u32_from_le_bytes(bytes.subrange(4, 8)),
        bytes.skip(8),
    )
}

/// Split a received frame into stream id, declared length, and payload.
pub fn decode_packet(bytes: &Vec<u8>) -> (res: (u32, u32, Vec<u8>))
    requires
        bytes@.len() >= 8,
    ensures
        (res.0, res.1, res.2@) == spec_decode(bytes@),
{
    let id_slice = slice_head(bytes.as_slice(), 0, 4);
    let stream_id = u32_from_le_bytes(id_slice);
    let len_slice = slice_head(bytes.as_slice(), 4, 8);
    let size = u32_from_le_bytes(len_slice);
    let mut data: Vec<u8> = Vec::new();
    let mut i: usize = 8;
    while i < bytes.len()
        invariant
            8 <= i <= bytes@.len(),
            data@ == bytes@.subrange(8, i as int),
        decreases bytes@.len() - i,
    {
        data.push(bytes[i]);
        proof {
            assert(data@ =~= bytes@.subrange(8, i + 1));
        }
        i = i + 1;
    }
    proof {
        assert(data@ =~= bytes@.skip(8));
    }
    (stream_id, size, data)
}

/// Copy `s[from..to]` out as a slice.
fn slice_head<'a>(s: &'a [u8], from: usize, to: usize) -> (res: &'a [u8])
    requires
        from <= to <= s@.len(),
    ensures
        res@ == s@.subrange(from as int, to as int),
{
    vstd::slice::slice_subrange(s, from, to)
}

/// Law: decoding a frame built by the codec returns the stream id, the
/// payload's length, and the payload itself, unchanged.
pub proof fn lemma_frame_round_trip(stream_id: u32, payload: Seq<u8>)
    requires
        payload.len() <= u32::MAX,
    ensures
        spec_decode(spec_frame_bytes(stream_id, payload)) == (
            stream_id,
            payload.len() as u32,
            payload,
        ),
{
    vstd::bytes::lemma_auto_spec_u32_to_from_le_bytes();
    let frame = spec_frame_bytes(stream_id, payload);
    assert(frame.subrange(0, 4) =~= spec_u32_to_le_bytes(stream_id));
    assert(frame.subrange(4, 8) =~= spec_u32_to_le_bytes(payload.len() as u32));
    assert(frame.skip(8) =~= payload);
}

} // verus!
