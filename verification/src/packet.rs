//! ICMP Echo packet codec: message layout, Internet checksum, serialization
//! and parsing.

use vstd::prelude::*;

verus! {

/// Mathematical image of an ICMP echo message: the four header fields and the
/// payload bytes.
#[verifier::ext_equal]
pub ghost struct PacketView {
    pub type_: u8,
    pub code: u8,
    pub checksum: u16,
    pub identifier: u16,
    pub sequence: u16,
    pub payload: Seq<u8>,
}

/// An ICMP message: type, code, checksum, identifier, sequence, payload.
///
/// The checksum field holds whatever was last computed or parsed (0 on a
/// freshly built message); serialization discards it and stores the value
/// freshly computed over the rest of the message.
#[derive(Debug, Clone)]
pub struct IcmpPacket {
    pub type_: u8,
    pub code: u8,
    pub checksum: u16,
    pub identifier: u16,
    pub sequence: u16,
    pub payload: Vec<u8>,
}

impl View for IcmpPacket {
    type V = PacketView;

    open spec fn view(&self) -> PacketView {
        PacketView {
            type_: self.type_,
            code: self.code,
            checksum: self.checksum,
            identifier: self.identifier,
            sequence: self.sequence,
            payload: self.payload@,
        }
    }
}

/// A sequence of `n` zero bytes.
pub open spec fn zeroes(n: nat) -> Seq<u8> {
    Seq::new(n, |i: int| 0u8)
}

/// The message an echo request is built as: type 8, code 0, checksum not yet
/// computed, and a payload of 56 zero bytes.
pub open spec fn echo_request_view(identifier: u16, sequence: u16) -> PacketView {
    PacketView {
        type_: 8u8,
        code: 0u8,
        checksum: 0u16,
        identifier: identifier,
        sequence: sequence,
        payload: zeroes(56),
    }
}

/// The reply an echo request `m` is answered with: only the type changes
/// (8 to 0); identifier, sequence and payload are kept verbatim.
pub open spec fn reply_view(m: PacketView) -> PacketView {
    PacketView {
        type_: 0u8,
        code: 0u8,
        checksum: 0u16,
        identifier: m.identifier,
        sequence: m.sequence,
        payload: m.payload,
    }
}

/// One 16-bit big-endian word formed from two bytes.
pub open spec fn be_word(hi: u8, lo: u8) -> int {
    (hi as int) * 256 + (lo as int)
}

/// Sum of the four 16-bit header words: type/code, the stored checksum,
/// identifier, sequence.
pub open spec fn header_sum(m: PacketView) -> int {
    be_word(m.type_, m.code) + (m.checksum as int) + (m.identifier as int) + (m.sequence as int)
}

/// Sum of the payload's 16-bit big-endian words; an odd trailing byte is
/// padded with a zero byte to form its word.
pub open spec fn payload_sum(p: Seq<u8>) -> int
    decreases p.len(),
{
    if p.len() == 0 {
        0
    } else if p.len() == 1 {
        (p[0] as int) * 256
    } else {
        be_word(p[0], p[1]) + payload_sum(p.skip(2))
    }
}

/// The unfolded one's-complement sum of the whole message, headers then
/// payload, with the stored checksum field included as-is.
pub open spec fn checksum_total(m: PacketView) -> int {
    header_sum(m) + payload_sum(m.payload)
}

/// Fold the carries of a one's-complement sum: add everything above 16 bits
/// back into the low 16 bits until nothing is left above.
pub open spec fn fold_carries(s: int) -> int
    decreases s,
{
    if s < 0x10000 {
        s
    } else {
        fold_carries(s % 0x10000 + s / 0x10000)
    }
}

/// RFC 1071 Internet checksum of the message: the folded one's-complement
/// sum, complemented, with the stored checksum field entering the sum as
/// found.
pub open spec fn spec_checksum(m: PacketView) -> u16 {
    (0xFFFF - fold_carries(checksum_total(m))) as u16
}

/// The checksum a message goes out with: computed with the stored checksum
/// field zeroed, so any previously stored value is discarded.
pub open spec fn wire_checksum(m: PacketView) -> u16 {
    spec_checksum(PacketView { checksum: 0u16, ..m })
}

/// The two big-endian bytes of a 16-bit value, high byte first.
pub open spec fn be_bytes(x: u16) -> Seq<u8> {
    seq![(x / 256) as u8, (x % 256) as u8]
}

/// The serialized form of a message: type, code, the freshly computed
/// checksum (over the message with its stored checksum field zeroed),
/// identifier and sequence, all big-endian, then the payload.
pub open spec fn spec_encode(m: PacketView) -> Seq<u8> {
    seq![m.type_, m.code] + be_bytes(wire_checksum(m)) + be_bytes(m.identifier) + be_bytes(
        m.sequence,
    ) + m.payload
}

/// The 16-bit big-endian value read from bytes `i` and `i + 1`.
pub open spec fn word_at(b: Seq<u8>, i: int) -> u16 {
    ((b[i] as int) * 256 + (b[i + 1] as int)) as u16
}

/// The message parsed from at least 8 bytes: the four big-endian header
/// fields, then everything after byte 8 as the payload.
pub open spec fn spec_decode(b: Seq<u8>) -> PacketView {
    PacketView {
        type_: b[0],
        code: b[1],
        checksum: word_at(b, 2),
        identifier: word_at(b, 4),
        sequence: word_at(b, 6),
        payload: b.skip(8),
    }
}

pub proof fn lemma_fold_carries_bounds(s: int)
    requires
        0 <= s,
    ensures
        0 <= fold_carries(s) < 0x10000,
    decreases s,
{
    if s >= 0x10000 {
        lemma_fold_carries_bounds(s % 0x10000 + s / 0x10000);
    }
}

pub proof fn lemma_payload_sum_bounds(p: Seq<u8>)
    ensures
        0 <= payload_sum(p) <= 0xFFFF * ((p.len() + 1) / 2),
    decreases p.len(),
{
    if p.len() >= 2 {
        lemma_payload_sum_bounds(p.skip(2));
    }
}

impl IcmpPacket {
    /// Build an Echo Request (type 8, code 0) with a 56-byte zero payload.
    pub fn new_echo_req(identifier: u16, sequence: u16) -> (r: Self)
        ensures
            r@ == echo_request_view(identifier, sequence),
    {
        let mut payload: Vec<u8> = Vec::new();
        let mut i: usize = 0;
        while i < 56
            invariant
                i <= 56,
                payload@.len() == i,
                forall|j: int| 0 <= j < i ==> payload@[j] == 0u8,
            decreases 56 - i,
        {
            payload.push(0u8);
            i += 1;
        }
        proof {
            assert(payload@ =~= zeroes(56));
        }
        Self {
            type_: 8,
            code: 0,
            checksum: 0,
            identifier,
            sequence,
            payload,
        }
    }

    /// Derive the Echo Reply for this message: type becomes 0, identifier,
    /// sequence and payload are preserved exactly.
    pub fn make_echo_resp(&self) -> (r: Self)
        ensures
            r@ == reply_view(self@),
    {
        Self {
            type_: 0,
            code: 0,
            checksum: 0,
            identifier: self.identifier,
            sequence: self.sequence,
            payload: vstd::slice::slice_to_vec(self.payload.as_slice()),
        }
    }

    /// Compute the RFC 1071 Internet checksum over the whole message
    /// (headers, with the stored checksum field included as-is, then
    /// payload), using a 32-bit accumulator and carry folding.
    pub fn calculate_checksum(&self) -> (r: u16)
        requires
            self@.payload.len() <= 65535,
        ensures
            r == spec_checksum(self@),
    {
        let ghost p: Seq<u8> = self@.payload;
        proof {
            lemma_payload_sum_bounds(p);
        }

        let mut sum: u32 = (self.type_ as u32) * 256 + (self.code as u32);
        sum = sum + (self.checksum as u32);
        sum = sum + (self.identifier as u32);
        sum = sum + (self.sequence as u32);
        assert(sum as int == header_sum(self@));
        proof {
            assert(p.skip(0) =~= p);
        }

        let mut i: usize = 0;
        while i < self.payload.len()
            invariant
                self@.payload.len() <= 65535,
                p == self@.payload,
                i <= p.len() + 1,
                i <= p.len() ==> sum as int == header_sum(self@) + payload_sum(p) - payload_sum(
                    p.skip(i as int),
                ),
                i > p.len() ==> sum as int == checksum_total(self@),
            decreases p.len() + 2 - i,
        {
            proof {
                lemma_payload_sum_bounds(p);
                lemma_payload_sum_bounds(p.skip(i as int));
            }
            let word: u16 = if i + 1 < self.payload.len() {
                (self.payload[i] as u16) * 256 + (self.payload[i + 1] as u16)
            } else {
                (self.payload[i] as u16) * 256
            };
            proof {
                let ii = i as int;
                if ii + 1 < p.len() {
                    assert(p.skip(ii)[0] == p[ii]);
                    assert(p.skip(ii)[1] == p[ii + 1]);
                    assert(p.skip(ii).skip(2) =~= p.skip(ii + 2));
                    assert(payload_sum(p.skip(ii)) == be_word(p[ii], p[ii + 1]) + payload_sum(
                        p.skip(ii + 2),
                    ));
                    lemma_payload_sum_bounds(p.skip(ii + 2));
                } else {
                    assert(p.skip(ii).len() == 1);
                    assert(p.skip(ii)[0] == p[ii]);
                    assert(payload_sum(p.skip(ii)) == (p[ii] as int) * 256);
                }
            }
            sum = sum + (word as u32);
            i = i + 2;
        }
        assert(sum as int == checksum_total(self@)) by {
            if i <= p.len() {
                assert(p.skip(i as int).len() == 0);
                assert(payload_sum(p.skip(i as int)) == 0);
            }
        }

        proof {
            lemma_fold_carries_bounds(checksum_total(self@));
        }
        while sum >> 16u32 != 0u32
            invariant
                fold_carries(sum as int) == fold_carries(checksum_total(self@)),
            decreases sum,
        {
            let hi = sum >> 16u32;
            let lo = sum & 0xFFFFu32;
            proof {
                assert(sum >> 16u32 != 0u32 ==> sum >= 0x10000) by (bit_vector);
                assert(sum >> 16u32 == sum / 0x10000) by (bit_vector);
                assert(sum & 0xFFFFu32 == sum % 0x10000) by (bit_vector);
                assert(sum >= 0x10000 ==> ((sum & 0xFFFFu32) + (sum >> 16u32)) < sum)
                    by (bit_vector);
            }
            sum = lo + hi;
        }
        proof {
            assert(sum >> 16u32 == 0u32 ==> sum < 0x10000) by (bit_vector);
            assert(fold_carries(sum as int) == sum as int);
        }
        let r: u16 = !(sum as u16);
        proof {
            assert(sum < 0x10000 ==> !(sum as u16) == (0xFFFFu32 - sum) as u16) by (bit_vector);
        }
        r
    }

    /// Serialize: recompute the checksum with the stored checksum field
    /// zeroed — any previously stored value is discarded — store the fresh
    /// value, then emit type, code, checksum, identifier and sequence
    /// big-endian, then the payload verbatim.
    pub fn bytes(&mut self) -> (r: Vec<u8>)
        requires
            old(self)@.payload.len() <= 65535,
        ensures
            final(self)@ == (PacketView { checksum: wire_checksum(old(self)@), ..old(self)@ }),
            r@ == spec_encode(old(self)@),
    {
        self.checksum = 0;
        proof {
            assert(self@ =~= (PacketView { checksum: 0u16, ..old(self)@ }));
        }
        let ck = self.calculate_checksum();
        self.checksum = ck;
        proof {
            assert(self@ =~= (PacketView { checksum: wire_checksum(old(self)@), ..old(self)@ }));
        }

        let mut bytes: Vec<u8> = Vec::with_capacity(8 + self.payload.len());
        bytes.push(self.type_);
        bytes.push(self.code);
        bytes.push((ck / 256) as u8);
        bytes.push((ck % 256) as u8);
        bytes.push((self.identifier / 256) as u8);
        bytes.push((self.identifier % 256) as u8);
        bytes.push((self.sequence / 256) as u8);
        bytes.push((self.sequence % 256) as u8);

        let ghost header: Seq<u8> = bytes@;
        let ghost p: Seq<u8> = self@.payload;
        let mut i: usize = 0;
        while i < self.payload.len()
            invariant
                self@ == (PacketView { checksum: wire_checksum(old(self)@), ..old(self)@ }),
                p == self@.payload,
                i <= p.len(),
                bytes@ == header + p.take(i as int),
            decreases p.len() - i,
        {
            proof {
                assert(p.take(i as int).push(p[i as int]) =~= p.take(i as int + 1));
            }
            bytes.push(self.payload[i]);
            i = i + 1;
        }
        proof {
            assert(p.take(p.len() as int) =~= p);
            assert(bytes@ =~= spec_encode(old(self)@));
        }
        bytes
    }

    /// Parse a message from bytes: fails on fewer than 8 bytes; otherwise
    /// reads the four big-endian header fields and takes everything after
    /// byte 8, possibly empty, as the payload.
    pub fn from_bytes(bytes: &[u8]) -> (r: Option<Self>)
        ensures
            r is Some <==> bytes@.len() >= 8,
            r matches Some(p) ==> p@ == spec_decode(bytes@),
    {
        if bytes.len() < 8 {
            return None;
        }

        let tail: &[u8] = &bytes[8..bytes.len()];
        let p = Self {
            type_: bytes[0],
            code: bytes[1],
            checksum: (bytes[2] as u16) * 256 + (bytes[3] as u16),
            identifier: (bytes[4] as u16) * 256 + (bytes[5] as u16),
            sequence: (bytes[6] as u16) * 256 + (bytes[7] as u16),
            payload: vstd::slice::slice_to_vec(tail),
        };
        proof {
            assert(bytes@.subrange(8, bytes@.len() as int) =~= bytes@.skip(8));
            assert(p@ =~= spec_decode(bytes@));
        }
        Some(p)
    }

    /// True exactly when this message is an Echo Request: type 8 and code 0.
    pub fn is_echo_req(&self) -> (r: bool)
        ensures
            r == (self@.type_ == 8 && self@.code == 0),
    {
        self.type_ == 8 && self.code == 0
    }
}

/// Round trip: decoding an encoded message reproduces its type, code,
/// identifier, sequence and payload exactly; the checksum field of the
/// decoded message carries the value computed during encoding.
pub proof fn lemma_encode_decode_round_trip(m: PacketView)
    ensures
        spec_decode(spec_encode(m)).type_ == m.type_,
        spec_decode(spec_encode(m)).code == m.code,
        spec_decode(spec_encode(m)).identifier == m.identifier,
        spec_decode(spec_encode(m)).sequence == m.sequence,
        spec_decode(spec_encode(m)).payload == m.payload,
        spec_decode(spec_encode(m)).checksum == wire_checksum(m),
{
    let e = spec_encode(m);
    let ck = wire_checksum(m);
    assert(e[2] == (ck / 256) as u8 && e[3] == (ck % 256) as u8);
    assert(e[4] == (m.identifier / 256) as u8 && e[5] == (m.identifier % 256) as u8);
    assert(e[6] == (m.sequence / 256) as u8 && e[7] == (m.sequence % 256) as u8);
    assert(word_at(e, 2) == ck);
    assert(word_at(e, 4) == m.identifier);
    assert(word_at(e, 6) == m.sequence);
    assert(e.skip(8) =~= m.payload);
}

/// Serialization discards the stored checksum field: messages that differ
/// only in that field serialize identically. In particular serializing a
/// message again, after a first serialization stored the computed checksum,
/// yields the same bytes.
pub proof fn lemma_encode_ignores_stored_checksum(m: PacketView, c: u16)
    ensures
        spec_encode(PacketView { checksum: c, ..m }) == spec_encode(m),
{
    assert((PacketView { checksum: 0u16, ..(PacketView { checksum: c, ..m }) }) =~= (PacketView {
        checksum: 0u16,
        ..m
    }));
    assert(spec_encode(PacketView { checksum: c, ..m }) =~= spec_encode(m));
}

/// Any non-negative sum is its folded value plus a multiple of 0xFFFF.
proof fn lemma_fold_carries_decomposition(s: int) -> (k: int)
    requires
        0 <= s,
    ensures
        0 <= k,
        s == 0xFFFF * k + fold_carries(s),
    decreases s,
{
    if s < 0x10000 {
        0
    } else {
        let q = s / 0x10000;
        let r = s % 0x10000;
        vstd::arithmetic::div_mod::lemma_fundamental_div_mod(s, 0x10000);
        assert(s == 0xFFFF * q + (q + r));
        let k = lemma_fold_carries_decomposition(q + r);
        q + k
    }
}

/// Folding a positive multiple of 0xFFFF yields exactly 0xFFFF.
proof fn lemma_fold_carries_of_multiple(j: int)
    requires
        1 <= j,
    ensures
        fold_carries(0xFFFF * j) == 0xFFFF,
    decreases j,
{
    let t = 0xFFFF * j;
    if t >= 0x10000 {
        let q = t / 0x10000;
        let r = t % 0x10000;
        vstd::arithmetic::div_mod::lemma_fundamental_div_mod(t, 0x10000);
        assert(q + r == 0xFFFF * (j - q));
        assert(q < j);
        lemma_fold_carries_of_multiple(j - q);
    }
}

/// The emitted packet self-verifies, as standard ICMP stacks check it:
/// summing the serialized bytes as 16-bit big-endian words — the emitted
/// checksum word included — and folding the carries yields 0xFFFF, whose
/// one's complement is zero, for every message.
pub proof fn lemma_encoded_packet_self_verifies(m: PacketView)
    ensures
        fold_carries(payload_sum(spec_encode(m))) == 0xFFFF,
{
    let e = spec_encode(m);
    let z = PacketView { checksum: 0u16, ..m };
    let s = checksum_total(z);
    let ck = wire_checksum(m) as int;

    // The word sum of the serialized bytes is the zeroed-field message sum
    // plus the emitted checksum word.
    assert(e.skip(2).skip(2) =~= e.skip(4));
    assert(e.skip(4).skip(2) =~= e.skip(6));
    assert(e.skip(6).skip(2) =~= e.skip(8));
    assert(e.skip(8) =~= m.payload);
    assert(payload_sum(e) == be_word(e[0], e[1]) + payload_sum(e.skip(2)));
    assert(payload_sum(e.skip(2)) == be_word(e[2], e[3]) + payload_sum(e.skip(4)));
    assert(payload_sum(e.skip(4)) == be_word(e[4], e[5]) + payload_sum(e.skip(6)));
    assert(payload_sum(e.skip(6)) == be_word(e[6], e[7]) + payload_sum(e.skip(8)));
    assert(be_word(e[2], e[3]) == ck);
    assert(be_word(e[4], e[5]) == m.identifier as int);
    assert(be_word(e[6], e[7]) == m.sequence as int);
    assert(payload_sum(e) == s + ck);

    // That total is a positive multiple of 0xFFFF, so it folds to 0xFFFF.
    lemma_payload_sum_bounds(m.payload);
    lemma_fold_carries_bounds(s);
    let k = lemma_fold_carries_decomposition(s);
    assert(s + ck == 0xFFFF * (k + 1));
    lemma_fold_carries_of_multiple(k + 1);
}

} // verus!
