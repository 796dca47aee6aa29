//! Wire framing for TURZX desktop display panels.
//!
//! Control packets are sequences of four-byte TLV records; stream packets
//! carry an eight-byte header (magic, opcode, 24-bit big-endian offset,
//! 24-bit big-endian size) followed by the payload, and the final URB of a
//! stream additionally ends with the `MAGIC COMMIT` marker.

use vstd::prelude::*;

verus! {

/// First byte of every record and header.
pub const MAGIC: u8 = 0xAF;
/// Opcode of a control TLV record.
pub const CTRL_OP: u8 = 0x20;
/// Second byte of the commit trailer.
pub const COMMIT: u8 = 0x66;
/// Opcode of an intermediate stream A fragment (no commit trailer).
pub const STREAM_A_FRAG: u8 = 0x6C;
/// Opcode of the final stream A URB (carries the commit trailer).
pub const STREAM_A_FINAL: u8 = 0x6D;
/// Opcode of a stream B frame.
pub const STREAM_B_FINAL: u8 = 0x69;
/// Frame format code for MJPEG payloads.
pub const FMT_MJPEG: u16 = 0x0111;

/// The four bytes of one control record.
pub open spec fn tlv_bytes(sub_op: u8, value: u8) -> Seq<u8> {
    seq![MAGIC, CTRL_OP, sub_op, value]
}

/// High byte of a 16-bit value.
pub open spec fn hi8(x: u16) -> u8 {
    (x / 256) as u8
}

/// Low byte of a 16-bit value.
pub open spec fn lo8(x: u16) -> u8 {
    (x % 256) as u8
}

/// The display configuration packet: enable, width, height, format, commit.
pub open spec fn config_packet_spec(width: u16, height: u16, format: u16) -> Seq<u8> {
    tlv_bytes(0x00, 0x01) + tlv_bytes(0x01, hi8(width)) + tlv_bytes(0x02, lo8(width))
        + tlv_bytes(0x03, hi8(height)) + tlv_bytes(0x04, lo8(height))
        + tlv_bytes(lo8(format), hi8(format)) + tlv_bytes(0x1F, 0x01)
}

/// Appends one control record to `buf`.
pub fn tlv(buf: &mut Vec<u8>, sub_op: u8, value: u8)
    ensures
        final(buf)@ == old(buf)@ + tlv_bytes(sub_op, value),
{
    buf.push(MAGIC);
    buf.push(CTRL_OP);
    buf.push(sub_op);
    buf.push(value);
}

proof fn lemma_u16_bytes(x: u16)
    ensures
        (x >> 8) as u8 == hi8(x),
        x as u8 == lo8(x),
{
    assert((x >> 8) == x / 256) by (bit_vector);
    assert((x >> 8) < 256) by (bit_vector);
    assert(x as u8 == x % 256) by (bit_vector);
}

/// Builds the configuration packet announcing the frame geometry and format.
pub fn build_config_packet(width: u16, height: u16, format: u16) -> (pkt: Vec<u8>)
    ensures
        pkt@ == config_packet_spec(width, height, format),
        pkt@.len() == 28,
{
    proof {
        lemma_u16_bytes(width);
        lemma_u16_bytes(height);
        lemma_u16_bytes(format);
    }
    let mut pkt: Vec<u8> = Vec::with_capacity(28);
    tlv(&mut pkt, 0x00, 0x01);
    tlv(&mut pkt, 0x01, (width >> 8) as u8);
    tlv(&mut pkt, 0x02, width as u8);
    tlv(&mut pkt, 0x03, (height >> 8) as u8);
    tlv(&mut pkt, 0x04, height as u8);
    tlv(&mut pkt, format as u8, (format >> 8) as u8);
    tlv(&mut pkt, 0x1F, 0x01);
    pkt
}

/// The power-off control record.
pub fn build_power_off() -> (r: [u8; 4])
    ensures
        r@ == tlv_bytes(0x1F, 0x02),
{
    let r = [MAGIC, CTRL_OP, 0x1F, 0x02];
    assert(r@ =~= tlv_bytes(0x1F, 0x02));
    r
}

/// Three bytes, big-endian, of the low 24 bits of `x`.
pub open spec fn be24(x: int) -> Seq<u8> {
    seq![((x / 0x10000) % 0x100) as u8, ((x / 0x100) % 0x100) as u8, (x % 0x100) as u8]
}

/// The 24-bit big-endian number held in three bytes.
pub open spec fn be24_value(b0: u8, b1: u8, b2: u8) -> int {
    b0 * 0x10000 + b1 * 0x100 + b2
}

/// Stream header: magic, opcode, offset and size (each the low 24 bits).
pub open spec fn header_spec(opcode: u8, offset: int, size: int) -> Seq<u8> {
    seq![MAGIC, opcode] + be24(offset) + be24(size)
}

/// A complete frame: header, payload and commit trailer.
pub open spec fn frame_spec(opcode: u8, offset: int, payload: Seq<u8>) -> Seq<u8> {
    header_spec(opcode, offset, payload.len() as int) + payload + seq![MAGIC, COMMIT]
}

/// A fragment: header and payload, without commit trailer.
pub open spec fn fragment_spec(opcode: u8, offset: int, payload: Seq<u8>) -> Seq<u8> {
    header_spec(opcode, offset, payload.len() as int) + payload
}

proof fn lemma_be24_u32(x: u32)
    ensures
        ((x >> 16) & 0xFF) as u8 == ((x as int / 0x10000) % 0x100) as u8,
        ((x >> 8) & 0xFF) as u8 == ((x as int / 0x100) % 0x100) as u8,
        (x & 0xFF) as u8 == (x as int % 0x100) as u8,
{
    assert(((x >> 16) & 0xFF) == (x / 0x10000) % 0x100) by (bit_vector);
    assert(((x >> 8) & 0xFF) == (x / 0x100) % 0x100) by (bit_vector);
    assert((x & 0xFF) == x % 0x100) by (bit_vector);
}

proof fn lemma_be24_truncate(n: usize)
    ensures
        be24((n as u32) as int) == be24(n as int),
{
    let t = n as u32;
    assert((t / 0x10000u32) % 0x100u32 == ((n / 0x10000usize) % 0x100usize) as u32) by (bit_vector)
        requires t == n as u32;
    assert((t / 0x100u32) % 0x100u32 == ((n / 0x100usize) % 0x100usize) as u32) by (bit_vector)
        requires t == n as u32;
    assert(t % 0x100u32 == (n % 0x100usize) as u32) by (bit_vector)
        requires t == n as u32;
    assert(be24(t as int) =~= be24(n as int));
}

fn write_header(buf: &mut Vec<u8>, opcode: u8, offset: u32, size: u32)
    ensures
        final(buf)@ == old(buf)@ + header_spec(opcode, offset as int, size as int),
{
    proof {
        lemma_be24_u32(offset);
        lemma_be24_u32(size);
    }
    buf.push(MAGIC);
    buf.push(opcode);
    buf.push(((offset >> 16) & 0xFF) as u8);
    buf.push(((offset >> 8) & 0xFF) as u8);
    buf.push((offset & 0xFF) as u8);
    buf.push(((size >> 16) & 0xFF) as u8);
    buf.push(((size >> 8) & 0xFF) as u8);
    buf.push((size & 0xFF) as u8);
    assert(final(buf)@ =~= old(buf)@ + header_spec(opcode, offset as int, size as int));
}

fn append_bytes(buf: &mut Vec<u8>, data: &[u8])
    ensures
        final(buf)@ == old(buf)@ + data@,
{
    let mut i: usize = 0;
    while i < data.len()
        invariant
            i <= data@.len(),
            buf@ == old(buf)@ + data@.subrange(0, i as int),
        decreases data@.len() - i,
    {
        buf.push(data[i]);
        i = i + 1;
        assert(buf@ =~= old(buf)@ + data@.subrange(0, i as int));
    }
    assert(data@.subrange(0, i as int) =~= data@);
}

/// Frames `payload` as one complete URB (header, payload, commit trailer).
pub fn pack_frame(opcode: u8, offset: u32, payload: &[u8]) -> (pkt: Vec<u8>)
    ensures
        pkt@ == frame_spec(opcode, offset as int, payload@),
{
    let mut pkt: Vec<u8> = Vec::with_capacity(payload.len().saturating_add(10));
    proof { lemma_be24_truncate(payload@.len() as usize); }
    write_header(&mut pkt, opcode, offset, payload.len() as u32);
    append_bytes(&mut pkt, payload);
    pkt.push(MAGIC);
    pkt.push(COMMIT);
    assert(pkt@ =~= frame_spec(opcode, offset as int, payload@));
    pkt
}

/// Frames `payload` as an intermediate URB (header and payload only).
pub fn pack_fragment(opcode: u8, offset: u32, payload: &[u8]) -> (pkt: Vec<u8>)
    ensures
        pkt@ == fragment_spec(opcode, offset as int, payload@),
{
    let mut pkt: Vec<u8> = Vec::with_capacity(payload.len().saturating_add(8));
    proof { lemma_be24_truncate(payload@.len() as usize); }
    write_header(&mut pkt, opcode, offset, payload.len() as u32);
    append_bytes(&mut pkt, payload);
    assert(pkt@ =~= fragment_spec(opcode, offset as int, payload@));
    pkt
}

/// The URB size actually used: `urb_max`, but never below 16.
pub open spec fn urb_limit(urb_max: int) -> int {
    if urb_max < 16 { 16 } else { urb_max }
}

/// The URBs that carry `packet[offset..]` once the packet needs more than one.
pub open spec fn stream_a_from(packet: Seq<u8>, offset: int, urb_max: int) -> Seq<Seq<u8>>
    decreases packet.len() - offset,
{
    let m = urb_limit(urb_max);
    if offset < 0 || offset >= packet.len() {
        seq![]
    } else {
        let remaining = packet.len() - offset;
        if remaining <= m - 10 {
            seq![frame_spec(STREAM_A_FINAL, offset, packet.subrange(offset, packet.len() as int))]
        } else {
            let chunk = if m - 8 < remaining - 1 { m - 8 } else { remaining - 1 };
            seq![fragment_spec(STREAM_A_FRAG, offset, packet.subrange(offset, offset + chunk))]
                + stream_a_from(packet, offset + chunk, urb_max)
        }
    }
}

/// The URBs of a stream A packet: a single final frame when it fits, else
/// fragments of at most `limit - 8` payload bytes followed by a final frame.
pub open spec fn stream_a_spec(packet: Seq<u8>, urb_max: int) -> Seq<Seq<u8>> {
    if packet.len() <= urb_limit(urb_max) - 10 {
        seq![frame_spec(STREAM_A_FINAL, 0, packet)]
    } else {
        stream_a_from(packet, 0, urb_max)
    }
}

/// The byte contents of a list of buffers.
pub open spec fn urbs_view(urbs: Seq<Vec<u8>>) -> Seq<Seq<u8>> {
    urbs.map_values(|v: Vec<u8>| v@)
}

/// Split a stream A payload into one or more URB-sized buffers: intermediate
/// fragments use opcode `STREAM_A_FRAG` with no commit trailer; the last URB
/// uses opcode `STREAM_A_FINAL` and carries the commit marker.
pub fn fragment_stream_a(packet: &[u8], urb_max: usize) -> (urbs: Vec<Vec<u8>>)
    ensures
        urbs_view(urbs@) == stream_a_spec(packet@, urb_max as int),
{
    let limit: usize = if urb_max < 16 { 16 } else { urb_max };
    let budget_final: usize = limit - 10;
    let budget_frag: usize = limit - 8;

    if packet.len() <= budget_final {
        let only = pack_frame(STREAM_A_FINAL, 0, packet);
        let mut out: Vec<Vec<u8>> = Vec::new();
        out.push(only);
        assert(urbs_view(out@) =~= stream_a_spec(packet@, urb_max as int));
        return out;
    }
    let mut out: Vec<Vec<u8>> = Vec::new();
    let mut offset: usize = 0;
    assert(urbs_view(out@) =~= Seq::<Seq<u8>>::empty());
    while offset < packet.len()
        invariant
            offset <= packet@.len(),
            packet@.len() > budget_final,
            limit == urb_limit(urb_max as int),
            budget_final == limit - 10,
            budget_frag == limit - 8,
            stream_a_spec(packet@, urb_max as int)
                == urbs_view(out@) + stream_a_from(packet@, offset as int, urb_max as int),
        decreases packet@.len() - offset,
    {
        let remaining = packet.len() - offset;
        proof { lemma_be24_truncate(offset); }
        if remaining <= budget_final {
            let last = pack_frame(STREAM_A_FINAL, offset as u32, &packet[offset..packet.len()]);
            let ghost before = out@;
            out.push(last);
            assert(urbs_view(out@) =~= urbs_view(before).push(last@));
            assert(stream_a_spec(packet@, urb_max as int) =~= urbs_view(out@));
            return out;
        }
        let chunk: usize = if budget_frag < remaining - 1 { budget_frag } else { remaining - 1 };
        let frag = pack_fragment(STREAM_A_FRAG, offset as u32, &packet[offset..offset + chunk]);
        let ghost before = out@;
        out.push(frag);
        assert(urbs_view(out@) =~= urbs_view(before).push(frag@));
        let ghost old_offset = offset as int;
        offset = offset + chunk;
        assert(stream_a_from(packet@, old_offset, urb_max as int) =~= seq![frag@]
            + stream_a_from(packet@, offset as int, urb_max as int));
        assert(stream_a_spec(packet@, urb_max as int)
            =~= urbs_view(out@) + stream_a_from(packet@, offset as int, urb_max as int));
    }
    assert(stream_a_from(packet@, offset as int, urb_max as int) =~= Seq::<Seq<u8>>::empty());
    assert(stream_a_spec(packet@, urb_max as int) =~= urbs_view(out@));
    out
}

/// A complete frame is the fragment with the same opcode, offset and
/// payload followed by the commit marker, ten bytes longer than the payload.
pub proof fn law_frame_is_fragment_and_commit(opcode: u8, offset: u32, payload: Seq<u8>)
    ensures
        frame_spec(opcode, offset as int, payload) == fragment_spec(opcode, offset as int, payload) + seq![
            MAGIC,
            COMMIT,
        ],
        frame_spec(opcode, offset as int, payload).len() == payload.len() + 10,
        fragment_spec(opcode, offset as int, payload).len() == payload.len() + 8,
{
}

/// The 24-bit offset field of a URB header.
pub open spec fn urb_offset_field(urb: Seq<u8>) -> int {
    be24_value(urb[2], urb[3], urb[4])
}

/// The 24-bit size field of a URB header.
pub open spec fn urb_size_field(urb: Seq<u8>) -> int {
    be24_value(urb[5], urb[6], urb[7])
}

/// The payload bytes a receiver reads from a URB, as told by its size field.
pub open spec fn urb_payload(urb: Seq<u8>) -> Seq<u8> {
    urb.subrange(8, 8 + urb_size_field(urb))
}

/// The bytes a receiver obtains by concatenating the payloads of `urbs`.
pub open spec fn reassemble(urbs: Seq<Seq<u8>>) -> Seq<u8>
    decreases urbs.len(),
{
    if urbs.len() == 0 {
        seq![]
    } else {
        urb_payload(urbs[0]) + reassemble(urbs.drop_first())
    }
}

proof fn lemma_be24_roundtrip(x: int)
    requires
        0 <= x < 0x100_0000,
    ensures
        be24_value(be24(x)[0], be24(x)[1], be24(x)[2]) == x,
{
    let y = x as u32;
    assert(((y / 0x10000) % 0x100) * 0x10000 + ((y / 0x100) % 0x100) * 0x100 + y % 0x100 == y)
        by (bit_vector)
        requires y < 0x100_0000;
}

proof fn lemma_reassemble_cons(x: Seq<u8>, rest: Seq<Seq<u8>>)
    ensures
        reassemble(seq![x] + rest) == urb_payload(x) + reassemble(rest),
{
    assert((seq![x] + rest).drop_first() =~= rest);
}

proof fn lemma_frame_fields(opcode: u8, offset: int, payload: Seq<u8>)
    requires
        0 <= offset < 0x100_0000,
        payload.len() < 0x100_0000,
    ensures
        urb_offset_field(frame_spec(opcode, offset, payload)) == offset,
        urb_payload(frame_spec(opcode, offset, payload)) == payload,
        urb_offset_field(fragment_spec(opcode, offset, payload)) == offset,
        urb_payload(fragment_spec(opcode, offset, payload)) == payload,
{
    lemma_be24_roundtrip(offset);
    lemma_be24_roundtrip(payload.len() as int);
    let f = frame_spec(opcode, offset, payload);
    let g = fragment_spec(opcode, offset, payload);
    assert(f.subrange(8, 8 + payload.len() as int) =~= payload);
    assert(g.subrange(8, 8 + payload.len() as int) =~= payload);
}

proof fn lemma_frame_size_field(opcode: u8, offset: int, payload: Seq<u8>)
    requires
        payload.len() < 0x100_0000,
    ensures
        urb_payload(frame_spec(opcode, offset, payload)) == payload,
        urb_payload(fragment_spec(opcode, offset, payload)) == payload,
{
    lemma_be24_roundtrip(payload.len() as int);
    let f = frame_spec(opcode, offset, payload);
    let g = fragment_spec(opcode, offset, payload);
    assert(f.subrange(8, 8 + payload.len() as int) =~= payload);
    assert(g.subrange(8, 8 + payload.len() as int) =~= payload);
}

proof fn lemma_from_reassembles(packet: Seq<u8>, offset: int, urb_max: int)
    requires
        0 <= offset <= packet.len(),
        packet.len() < 0x100_0000 || urb_max <= 0x100_0000,
    ensures
        reassemble(stream_a_from(packet, offset, urb_max))
            == packet.subrange(offset, packet.len() as int),
    decreases packet.len() - offset,
{
    let m = urb_limit(urb_max);
    if offset == packet.len() {
        assert(packet.subrange(offset, packet.len() as int) =~= Seq::<u8>::empty());
    } else {
        let remaining = packet.len() - offset;
        if remaining <= m - 10 {
            let tail = packet.subrange(offset, packet.len() as int);
            lemma_frame_size_field(STREAM_A_FINAL, offset, tail);
            lemma_reassemble_cons(frame_spec(STREAM_A_FINAL, offset, tail), seq![]);
            assert(seq![frame_spec(STREAM_A_FINAL, offset, tail)]
                =~= seq![frame_spec(STREAM_A_FINAL, offset, tail)] + Seq::<Seq<u8>>::empty());
            assert(reassemble(Seq::<Seq<u8>>::empty()) =~= Seq::<u8>::empty());
            assert(tail + Seq::<u8>::empty() =~= tail);
        } else {
            let chunk = if m - 8 < remaining - 1 { m - 8 } else { remaining - 1 };
            let piece = packet.subrange(offset, offset + chunk);
            lemma_frame_size_field(STREAM_A_FRAG, offset, piece);
            lemma_from_reassembles(packet, offset + chunk, urb_max);
            lemma_reassemble_cons(
                fragment_spec(STREAM_A_FRAG, offset, piece),
                stream_a_from(packet, offset + chunk, urb_max),
            );
            assert(piece + packet.subrange(offset + chunk, packet.len() as int)
                =~= packet.subrange(offset, packet.len() as int));
        }
    }
}

/// A receiver that concatenates the payloads named by each URB's size field
/// gets back exactly the packet, whenever every URB payload fits the 24-bit
/// size field: the packet is shorter than 2^24 bytes, or `urb_max` is at
/// most 2^24.
pub proof fn law_stream_a_reassembles(packet: Seq<u8>, urb_max: usize)
    requires
        packet.len() < 0x100_0000 || urb_max <= 0x100_0000,
    ensures
        reassemble(stream_a_spec(packet, urb_max as int)) == packet,
{
    let m = urb_limit(urb_max as int);
    if packet.len() <= m - 10 {
        lemma_frame_size_field(STREAM_A_FINAL, 0, packet);
        lemma_reassemble_cons(frame_spec(STREAM_A_FINAL, 0, packet), seq![]);
        assert(seq![frame_spec(STREAM_A_FINAL, 0, packet)]
            =~= seq![frame_spec(STREAM_A_FINAL, 0, packet)] + Seq::<Seq<u8>>::empty());
        assert(packet + Seq::<u8>::empty() =~= packet);
    } else {
        lemma_from_reassembles(packet, 0, urb_max as int);
        assert(packet.subrange(0, packet.len() as int) =~= packet);
    }
}

proof fn lemma_from_offsets(packet: Seq<u8>, offset: int, urb_max: int)
    requires
        0 <= offset <= packet.len(),
        packet.len() < 0x100_0000,
    ensures
        forall|i: int|
            0 <= i < stream_a_from(packet, offset, urb_max).len() ==> urb_offset_field(
                #[trigger] stream_a_from(packet, offset, urb_max)[i],
            ) == offset + reassemble(stream_a_from(packet, offset, urb_max).take(i)).len(),
    decreases packet.len() - offset,
{
    let m = urb_limit(urb_max);
    let s = stream_a_from(packet, offset, urb_max);
    if offset == packet.len() {
    } else {
        let remaining = packet.len() - offset;
        if remaining <= m - 10 {
            let tail = packet.subrange(offset, packet.len() as int);
            lemma_frame_fields(STREAM_A_FINAL, offset, tail);
            assert(s.take(0) =~= Seq::<Seq<u8>>::empty());
        } else {
            let chunk = if m - 8 < remaining - 1 { m - 8 } else { remaining - 1 };
            let piece = packet.subrange(offset, offset + chunk);
            let x = fragment_spec(STREAM_A_FRAG, offset, piece);
            let rest = stream_a_from(packet, offset + chunk, urb_max);
            lemma_frame_fields(STREAM_A_FRAG, offset, piece);
            lemma_from_offsets(packet, offset + chunk, urb_max);
            assert forall|i: int| 0 <= i < s.len() implies urb_offset_field(#[trigger] s[i])
                == offset + reassemble(s.take(i)).len() by {
                if i == 0 {
                    assert(s.take(0) =~= Seq::<Seq<u8>>::empty());
                } else {
                    assert(s[i] == rest[i - 1]);
                    assert(s.take(i) =~= seq![x] + rest.take(i - 1));
                    lemma_reassemble_cons(x, rest.take(i - 1));
                }
            }
        }
    }
}

/// Each URB's offset field equals the number of payload bytes carried by
/// the URBs before it, whenever offsets fit the 24-bit field (packets
/// shorter than 2^24 bytes), whatever the URB size.
pub proof fn law_stream_a_offsets(packet: Seq<u8>, urb_max: usize)
    requires
        packet.len() < 0x100_0000,
    ensures
        forall|i: int|
            0 <= i < stream_a_spec(packet, urb_max as int).len() ==> urb_offset_field(
                #[trigger] stream_a_spec(packet, urb_max as int)[i],
            ) == reassemble(stream_a_spec(packet, urb_max as int).take(i)).len(),
{
    let m = urb_limit(urb_max as int);
    let s = stream_a_spec(packet, urb_max as int);
    if packet.len() <= m - 10 {
        lemma_frame_fields(STREAM_A_FINAL, 0, packet);
        assert(s.take(0) =~= Seq::<Seq<u8>>::empty());
    } else {
        lemma_from_offsets(packet, 0, urb_max as int);
    }
}

/// Shape of a stream: every URB starts with `MAGIC` and fits the URB
/// limit; all URBs but the last are `STREAM_A_FRAG` fragments; the last is
/// a `STREAM_A_FINAL` frame ending with the commit marker.
pub open spec fn stream_shape_ok(urbs: Seq<Seq<u8>>, limit: int) -> bool {
    &&& urbs.len() >= 1
    &&& forall|i: int|
        0 <= i < urbs.len() ==> {
            &&& 8 <= (#[trigger] urbs[i]).len() <= limit
            &&& urbs[i][0] == MAGIC
            &&& i < urbs.len() - 1 ==> urbs[i][1] == STREAM_A_FRAG
        }
    &&& urbs.last()[1] == STREAM_A_FINAL
    &&& urbs.last()[urbs.last().len() - 2] == MAGIC
    &&& urbs.last()[urbs.last().len() - 1] == COMMIT
}

proof fn lemma_from_shape(packet: Seq<u8>, offset: int, urb_max: int)
    requires
        0 <= offset < packet.len(),
    ensures
        stream_shape_ok(stream_a_from(packet, offset, urb_max), urb_limit(urb_max)),
    decreases packet.len() - offset,
{
    let m = urb_limit(urb_max);
    let s = stream_a_from(packet, offset, urb_max);
    let remaining = packet.len() - offset;
    if remaining <= m - 10 {
    } else {
        let chunk = if m - 8 < remaining - 1 { m - 8 } else { remaining - 1 };
        let rest = stream_a_from(packet, offset + chunk, urb_max);
        lemma_from_shape(packet, offset + chunk, urb_max);
        assert(s.last() == rest.last());
        assert forall|i: int| 0 <= i < s.len() implies {
            &&& 8 <= (#[trigger] s[i]).len() <= m
            &&& s[i][0] == MAGIC
            &&& i < s.len() - 1 ==> s[i][1] == STREAM_A_FRAG
        } by {
            if i > 0 {
                assert(s[i] == rest[i - 1]);
            }
        }
    }
}

/// Every stream produced for a packet has the shape of `stream_shape_ok`.
pub proof fn law_stream_a_shape(packet: Seq<u8>, urb_max: usize)
    ensures
        stream_shape_ok(stream_a_spec(packet, urb_max as int), urb_limit(urb_max as int)),
{
    if packet.len() > urb_limit(urb_max as int) - 10 {
        lemma_from_shape(packet, 0, urb_max as int);
    }
}

} // verus!
