//! FrameParser: raw link-layer frame -> addressed UDP payload, or rejection.
//!
//! A frame is accepted when it carries a 14-byte link header, a network
//! header of at least 20 bytes whose protocol field is the UDP value (17)
//! and whose declared header length fits the buffer, and a transport header
//! whose declared length is at least 8 and at most the bytes available.
//! Rejection is silent: malformed or non-matching frames are routine.

use vstd::prelude::*;

verus! {

/// The UDP protocol number carried in the network header's protocol field.
pub const UDP_PROTOCOL: u8 = 17;

/// A network endpoint: four address octets and a port.
#[derive(Clone, Copy, PartialEq, Eq, Structural, Debug)]
pub struct Addr {
    pub o0: u8,
    pub o1: u8,
    pub o2: u8,
    pub o3: u8,
    pub port: u16,
}

/// An addressed UDP payload extracted from one captured frame.
pub struct ParsedDatagram {
    pub source: Addr,
    pub destination: Addr,
    pub payload: Vec<u8>,
}

/// Mathematical model of a parsed datagram.
pub ghost struct DatagramModel {
    pub source: Addr,
    pub destination: Addr,
    pub payload: Seq<u8>,
}

impl View for ParsedDatagram {
    type V = DatagramModel;

    open spec fn view(&self) -> DatagramModel {
        DatagramModel {
            source: self.source,
            destination: self.destination,
            payload: self.payload@,
        }
    }
}

/// Declared network-header length in bytes: the low 4 bits of the first
/// header byte, in 4-byte units. Meaningful only when `data.len() >= 15`.
pub open spec fn header_len_of(data: Seq<u8>) -> int {
    (data[14] & 0x0f) * 4
}

/// Offset of the transport header within the frame.
pub open spec fn transport_off(data: Seq<u8>) -> int {
    14 + header_len_of(data)
}

/// Declared transport length: big-endian 16 bits at offset 4 of the
/// transport header.
pub open spec fn transport_len_of(data: Seq<u8>) -> int {
    data[transport_off(data) + 4] * 256 + data[transport_off(data) + 5]
}

/// What FrameParser returns on a given frame.
pub open spec fn parse_frame_spec(data: Seq<u8>) -> Option<DatagramModel> {
    if data.len() < 34 {
        // no room for link header (14) plus minimum network header (20)
        None
    } else if data[23] != UDP_PROTOCOL {
        None
    } else if header_len_of(data) < 20 {
        // declared network header below the minimum header size
        None
    } else if data.len() < transport_off(data) + 8 {
        None
    } else if transport_len_of(data) < 8 || data.len() - transport_off(data) < transport_len_of(data) {
        None
    } else {
        let u = transport_off(data);
        Some(DatagramModel {
            source: Addr {
                o0: data[26], o1: data[27], o2: data[28], o3: data[29],
                port: (data[u] * 256 + data[u + 1]) as u16,
            },
            destination: Addr {
                o0: data[30], o1: data[31], o2: data[32], o3: data[33],
                port: (data[u + 2] * 256 + data[u + 3]) as u16,
            },
            payload: data.subrange(u + 8, u + transport_len_of(data)),
        })
    }
}

/// Parse one captured frame into an addressed UDP payload.
///
/// Returns `None` exactly where `parse_frame_spec` rejects; a returned
/// datagram is exactly the one the model describes, so its payload never
/// exceeds the available buffer.
pub fn parse_frame(data: &[u8]) -> (r: Option<ParsedDatagram>)
    ensures
        (r is Some) == (parse_frame_spec(data@) is Some),
        r is Some ==> r->Some_0@ == parse_frame_spec(data@)->Some_0,
{
    if data.len() < 34 {
        return None;
    }
    if data[23] != UDP_PROTOCOL {
        return None;
    }
    let header_len: usize = ((data[14] & 0x0f) as usize) * 4;
    if header_len < 20 {
        return None;
    }
    let u: usize = 14 + header_len;
    if data.len() < u + 8 {
        return None;
    }
    let transport_len: usize = (data[u + 4] as usize) * 256 + (data[u + 5] as usize);
    if transport_len < 8 || data.len() - u < transport_len {
        return None;
    }
    let source = Addr {
        o0: data[26], o1: data[27], o2: data[28], o3: data[29],
        port: (data[u] as u16) * 256 + (data[u + 1] as u16),
    };
    let destination = Addr {
        o0: data[30], o1: data[31], o2: data[32], o3: data[33],
        port: (data[u + 2] as u16) * 256 + (data[u + 3] as u16),
    };
    let mut payload: Vec<u8> = Vec::new();
    let mut j: usize = u + 8;
    while j < u + transport_len
        invariant
            u + 8 <= j <= u + transport_len,
            u + transport_len <= data.len(),
            payload@ == data@.subrange(u + 8, j as int),
        decreases u + transport_len - j,
    {
        payload.push(data[j]);
        proof {
            assert(payload@ =~= data@.subrange(u + 8, j + 1));
        }
        j = j + 1;
    }
    Some(ParsedDatagram { source, destination, payload })
}

/// The bytes of a well-formed frame carrying `payload` between `src` and
/// `dst`: a zeroed 14-byte link header, a network header with `options`
/// appended (declared length 20 + options), protocol UDP, and a transport
/// header declaring length 8 + payload.
pub open spec fn frame_bytes(src: Addr, dst: Addr, options: Seq<u8>, payload: Seq<u8>) -> Seq<u8> {
    let ihl_units = 5 + options.len() / 4;
    let tlen = 8 + payload.len();
    seq![0u8, 0, 0, 0, 0, 0, 0, 0, 0, 0, 0, 0, 0, 0]
        + seq![
            (0x40u8 | (ihl_units as u8)), 0, 0, 0, 0, 0, 0, 0, 0, UDP_PROTOCOL, 0, 0,
            src.o0, src.o1, src.o2, src.o3, dst.o0, dst.o1, dst.o2, dst.o3,
        ]
        + options
        + seq![
            (src.port / 256) as u8, (src.port % 256) as u8,
            (dst.port / 256) as u8, (dst.port % 256) as u8,
            (tlen / 256) as u8, (tlen % 256) as u8, 0, 0,
        ]
        + payload
}

/// Round trip: FrameParser returns exactly the addresses and payload that a
/// well-formed synthetic frame was built from, for any network-header
/// options block (a multiple of 4 bytes, at most 40) and any payload that
/// the 16-bit transport length field can declare.
pub proof fn lemma_parse_round_trip(src: Addr, dst: Addr, options: Seq<u8>, payload: Seq<u8>)
    requires
        options.len() % 4 == 0,
        options.len() <= 40,
        payload.len() <= 0xffff - 8,
    ensures
        parse_frame_spec(frame_bytes(src, dst, options, payload))
            == Some(DatagramModel { source: src, destination: dst, payload }),
{
    let data = frame_bytes(src, dst, options, payload);
    let k = options.len() / 4;
    let ihl_units = 5 + k;
    assert(data.len() == 42 + options.len() + payload.len());
    assert(data[23] == UDP_PROTOCOL);
    assert(data[14] == (0x40u8 | (ihl_units as u8)));
    let b = ihl_units as u8;
    assert(b <= 15) by {
        assert(k <= 10);
    }
    assert((0x40u8 | b) & 0x0f == b) by (bit_vector)
        requires b <= 15,
    ;
    assert(4 * (options.len() / 4) == options.len());
    assert(header_len_of(data) == 20 + options.len());
    let u = transport_off(data);
    assert(u == 34 + options.len());
    let tlen = 8 + payload.len();
    assert(data[u + 4] == (tlen / 256) as u8);
    assert(data[u + 5] == (tlen % 256) as u8);
    assert(transport_len_of(data) == tlen) by {
        assert(tlen <= 0xffff);
        assert(256 * (tlen / 256) + tlen % 256 == tlen);
    }
    let d = parse_frame_spec(data)->Some_0;
    assert(data[u] == (src.port / 256) as u8);
    assert(d.source.port == src.port) by {
        assert(256 * (src.port / 256) + src.port % 256 == src.port);
    }
    assert(d.destination.port == dst.port) by {
        assert(256 * (dst.port / 256) + dst.port % 256 == dst.port);
    }
    assert(d.payload =~= payload);
    assert(d.source == src);
    assert(d.destination == dst);
}

/// Build the synthetic frame that `frame_bytes` describes.
pub fn build_frame(src: &Addr, dst: &Addr, options: &[u8], payload: &[u8]) -> (r: Vec<u8>)
    requires
        options@.len() % 4 == 0,
        options@.len() <= 40,
        payload@.len() <= 0xffff - 8,
    ensures
        r@ == frame_bytes(*src, *dst, options@, payload@),
{
    let mut r: Vec<u8> = Vec::new();
    let mut i: usize = 0;
    while i < 14
        invariant
            i <= 14,
            r@ =~= seq![0u8, 0, 0, 0, 0, 0, 0, 0, 0, 0, 0, 0, 0, 0].take(i as int),
        decreases 14 - i,
    {
        r.push(0);
        i = i + 1;
    }
    let ihl_byte: u8 = 0x40u8 | ((5 + options.len() / 4) as u8);
    r.push(ihl_byte);
    r.push(0); r.push(0); r.push(0);
    r.push(0); r.push(0); r.push(0); r.push(0);
    r.push(0); r.push(UDP_PROTOCOL); r.push(0); r.push(0);
    r.push(src.o0); r.push(src.o1); r.push(src.o2); r.push(src.o3);
    r.push(dst.o0); r.push(dst.o1); r.push(dst.o2); r.push(dst.o3);
    let ghost before_options = r@;
    let mut j: usize = 0;
    while j < options.len()
        invariant
            j <= options@.len(),
            r@ == before_options + options@.take(j as int),
        decreases options@.len() - j,
    {
        r.push(options[j]);
        proof {
            assert(r@ =~= before_options + options@.take(j + 1));
        }
        j = j + 1;
    }
    proof {
        assert(r@ =~= before_options + options@);
    }
    let tlen: usize = 8 + payload.len();
    r.push((src.port / 256) as u8);
    r.push((src.port % 256) as u8);
    r.push((dst.port / 256) as u8);
    r.push((dst.port % 256) as u8);
    r.push((tlen / 256) as u8);
    r.push((tlen % 256) as u8);
    r.push(0);
    r.push(0);
    let ghost before_payload = r@;
    let mut p: usize = 0;
    while p < payload.len()
        invariant
            p <= payload@.len(),
            r@ == before_payload + payload@.take(p as int),
        decreases payload@.len() - p,
    {
        r.push(payload[p]);
        proof {
            assert(r@ =~= before_payload + payload@.take(p + 1));
        }
        p = p + 1;
    }
    proof {
        assert(r@ =~= frame_bytes(*src, *dst, options@, payload@));
    }
    r
}

/// Any buffer shorter than the three minimum headers together (14 + 20 + 8
/// bytes) is rejected.
pub proof fn lemma_short_frame_rejected(data: Seq<u8>)
    requires
        data.len() < 42,
    ensures
        parse_frame_spec(data) is None,
{
}

/// A frame whose transport-protocol field is not the UDP value is rejected,
/// whatever the rest of its structure.
pub proof fn lemma_non_udp_rejected(data: Seq<u8>)
    requires
        data.len() < 34 || data[23] != UDP_PROTOCOL,
    ensures
        parse_frame_spec(data) is None,
{
}

/// A buffer with too few bytes for the declared network-header length plus
/// the minimum transport header is rejected.
pub proof fn lemma_underlength_header_rejected(data: Seq<u8>)
    requires
        data.len() < transport_off(data) + 8,
    ensures
        parse_frame_spec(data) is None,
{
}

/// A declared transport length below the minimum transport header size, or
/// above the bytes physically available, is rejected.
pub proof fn lemma_bad_transport_length_rejected(data: Seq<u8>)
    requires
        transport_len_of(data) < 8 || data.len() - transport_off(data) < transport_len_of(data),
    ensures
        parse_frame_spec(data) is None,
{
}

/// An accepted frame's payload never exceeds the available buffer.
pub proof fn lemma_payload_within_buffer(data: Seq<u8>)
    ensures
        parse_frame_spec(data) matches Some(d) ==> d.payload.len() <= data.len(),
{
}

} // verus!
