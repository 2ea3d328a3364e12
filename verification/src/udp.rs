//! UDP stream messages and their wire encoding.
//!
//! An address on the wire is a type byte, a length byte, and a payload; a
//! hostname payload ends with a terminating zero byte.  Decoding pins the
//! result to the bytes read; the length byte of an IP address is carried
//! on the wire but, as ever, not consulted when reading one.

use vstd::prelude::*;

use crate::relaycell::{ascii_lower, spec_ascii_lower, BytesError, CellError, RelayMsg,
    DATA_MAXLEN};
use vstd::string::StringSliceAdditionalSpecFns;

verus! {

/// Wire tag for a hostname address.
pub const T_HOSTNAME: u8 = 0x01;

/// Wire tag for an IPv4 address.
pub const T_IPV4: u8 = 0x04;

/// Wire tag for an IPv6 address.
pub const T_IPV6: u8 = 0x06;

/// Longest allowable hostname: its length plus the terminating zero byte
/// must fit in the length byte.
pub const MAX_HOSTNAME_LEN: usize = 254;

/// An address carried in UDP stream messages.
#[derive(Debug)]
pub enum Address {
    /// A hostname, as raw bytes.
    Hostname(Vec<u8>),
    /// An IPv4 address: four bytes.
    Ipv4(Vec<u8>),
    /// An IPv6 address: sixteen bytes.
    Ipv6(Vec<u8>),
}

impl Address {
    /// A well-formed address: payloads have their wire sizes, and a
    /// hostname is short enough for the length byte and holds no zero
    /// byte (the wire format ends hostnames with one).
    pub open spec fn spec_wf(&self) -> bool {
        match self {
            Address::Hostname(h) => h@.len() <= MAX_HOSTNAME_LEN && (forall|i: int|
                0 <= i < h@.len() ==> h@[i] != 0),
            Address::Ipv4(b) => b@.len() == 4,
            Address::Ipv6(b) => b@.len() == 16,
        }
    }

    /// Parse a hostname address from text: the fallback used when the
    /// text is no IP literal (recognizing IP literals is the platform's
    /// affair).  The text must be nonempty ASCII and short enough for
    /// the wire length byte; it is stored lower-cased.
    pub fn from_host_str(s: &str) -> (r: Result<Address, BytesError>)
        ensures
            (vstd::string::is_ascii(s) && 0 < s.spec_bytes().len() <= MAX_HOSTNAME_LEN) ==> (
            r matches Ok(a) && a is Hostname && a->Hostname_0@ == spec_ascii_lower(
                s.spec_bytes(),
            )),
            !(vstd::string::is_ascii(s) && 0 < s.spec_bytes().len() <= MAX_HOSTNAME_LEN) ==> r
                == Err::<Address, BytesError>(BytesError::BadMessage),
    {
        if s.is_empty() {
            return Err(BytesError::BadMessage);
        }
        if !s.is_ascii() {
            return Err(BytesError::BadMessage);
        }
        let bytes = s.as_bytes_vec();
        if bytes.len() > MAX_HOSTNAME_LEN {
            return Err(BytesError::BadMessage);
        }
        Ok(Address::Hostname(ascii_lower(&bytes)))
    }

    /// True iff this is a hostname.
    pub fn is_hostname(&self) -> (r: bool)
        ensures
            r == (self is Hostname),
    {
        matches!(self, Address::Hostname(_))
    }

    /// The wire type byte of this address.
    pub fn wire_addr_type(&self) -> (r: u8)
        ensures
            r == spec_addr_type(*self),
    {
        match self {
            Address::Hostname(_) => T_HOSTNAME,
            Address::Ipv4(_) => T_IPV4,
            Address::Ipv6(_) => T_IPV6,
        }
    }

    /// The wire length byte of this address: the payload length, counting
    /// a hostname's terminating zero byte.
    pub fn wire_addr_len(&self) -> (r: u8)
        requires
            self.spec_wf(),
        ensures
            r == spec_addr_len(*self),
    {
        match self {
            Address::Hostname(h) => (h.len() + 1) as u8,
            Address::Ipv4(_) => 4,
            Address::Ipv6(_) => 16,
        }
    }

    /// Append the wire encoding of this address to `w`.
    pub fn write_onto(&self, w: &mut Vec<u8>)
        requires
            self.spec_wf(),
        ensures
            final(w)@ == old(w)@ + spec_encode_addr(*self),
    {
        let ghost start = w@;
        w.push(self.wire_addr_type());
        w.push(self.wire_addr_len());
        match self {
            Address::Hostname(h) => {
                push_bytes(w, h);
                w.push(0);
            },
            Address::Ipv4(b) => {
                push_bytes(w, b);
            },
            Address::Ipv6(b) => {
                push_bytes(w, b);
            },
        }
        proof {
            assert(w@ =~= start + spec_encode_addr(*self));
        }
    }

    /// Decode one address from `b`, starting at `pos`.  On success the
    /// address is well formed and pinned to the bytes consumed.
    pub fn take_from(b: &[u8], pos: usize) -> (r: Result<(Address, usize), BytesError>)
        requires
            pos <= b@.len(),
        ensures
            (match r {
                Ok((a, n)) => {
                    &&& spec_addr_decode(b@.skip(pos as int)) == Ok::<int, BytesError>(n as int)
                    &&& a.spec_wf()
                    &&& is_addr_decoding(a, b@.skip(pos as int), n as int)
                    &&& pos + n <= b@.len()
                },
                Err(e) => spec_addr_decode(b@.skip(pos as int)) == Err::<int, BytesError>(e),
            }),
    {
        let ghost suffix = b@.skip(pos as int);
        let len = b.len();
        if len - pos < 2 {
            return Err(BytesError::Truncated);
        }
        let ty = b[pos];
        let alen = b[pos + 1];
        if ty == T_HOSTNAME {
            let mut k: usize = pos + 2;
            while k < len && b[k] != 0
                invariant
                    pos + 2 <= k <= len,
                    len == b@.len(),
                    suffix == b@.skip(pos as int),
                    forall|j: int| pos + 2 <= j < k ==> b@[j] != 0,
                decreases len - k,
            {
                k = k + 1;
            }
            proof {
                assert forall|j: int| 2 <= j < k - pos implies suffix[j] != 0 by {
                    assert(suffix[j] == b@[pos + j]);
                }
            }
            if k == len {
                proof {
                    lemma_first_zero_none(suffix, 2);
                }
                return Err(BytesError::Truncated);
            }
            proof {
                assert(suffix[k - pos] == b@[k as int]);
                lemma_first_zero_found(suffix, 2, k - pos as int);
            }
            if k - (pos + 2) + 1 != alen as usize {
                return Err(BytesError::BadMessage);
            }
            let h = copy_range(b, pos + 2, k);
            let a = Address::Hostname(h);
            let n = k + 1 - pos;
            proof {
                assert(suffix.subrange(2, n - 1) =~= b@.subrange(pos + 2 as int, k as int));
            }
            Ok((a, n))
        } else if ty == T_IPV4 {
            if len - pos < 6 {
                return Err(BytesError::Truncated);
            }
            let a = Address::Ipv4(copy_range(b, pos + 2, pos + 6));
            proof {
                assert(suffix.subrange(2, 6) =~= b@.subrange(pos + 2 as int, pos + 6 as int));
            }
            Ok((a, 6))
        } else if ty == T_IPV6 {
            if len - pos < 18 {
                return Err(BytesError::Truncated);
            }
            let a = Address::Ipv6(copy_range(b, pos + 2, pos + 18));
            proof {
                assert(suffix.subrange(2, 18) =~= b@.subrange(pos + 2 as int, pos + 18 as int));
            }
            Ok((a, 18))
        } else {
            Err(BytesError::BadMessage)
        }
    }
}

/// The wire type byte of an address.
pub open spec fn spec_addr_type(a: Address) -> u8 {
    match a {
        Address::Hostname(_) => T_HOSTNAME,
        Address::Ipv4(_) => T_IPV4,
        Address::Ipv6(_) => T_IPV6,
    }
}

/// The wire length byte of an address.
pub open spec fn spec_addr_len(a: Address) -> u8 {
    match a {
        Address::Hostname(h) => (h@.len() + 1) as u8,
        Address::Ipv4(_) => 4,
        Address::Ipv6(_) => 16,
    }
}

/// The wire encoding of an address: type byte, length byte, payload, and
/// for hostnames the terminating zero byte.
pub open spec fn spec_encode_addr(a: Address) -> Seq<u8> {
    match a {
        Address::Hostname(h) => seq![T_HOSTNAME, spec_addr_len(a)] + h@ + seq![0u8],
        Address::Ipv4(b) => seq![T_IPV4, 4u8] + b@,
        Address::Ipv6(b) => seq![T_IPV6, 16u8] + b@,
    }
}

/// How many bytes the wire form of an address occupies.
pub open spec fn spec_addr_wire_len(a: Address) -> int {
    match a {
        Address::Hostname(h) => h@.len() as int + 3,
        Address::Ipv4(_) => 6,
        Address::Ipv6(_) => 18,
    }
}

/// True when decoding the head of `b` yields the address `a` after `n`
/// bytes.  This pins everything the decoder reads: the type byte, the
/// payload, a hostname's length byte and terminating zero.  The length
/// byte of an IP address is carried on the wire but not read.
pub open spec fn is_addr_decoding(a: Address, b: Seq<u8>, n: int) -> bool {
    &&& n == spec_addr_wire_len(a)
    &&& n <= b.len()
    &&& b[0] == spec_addr_type(a)
    &&& match a {
        Address::Hostname(h) => b[1] == h@.len() + 1 && b.subrange(2, n - 1) == h@ && b[n - 1]
            == 0,
        Address::Ipv4(p) => b.subrange(2, 6) == p@,
        Address::Ipv6(p) => b.subrange(2, 18) == p@,
    }
}

/// The position of the first zero byte of `b` at or after `from`.
pub open spec fn spec_first_zero(b: Seq<u8>, from: int) -> Option<int>
    decreases b.len() - from,
{
    if from < 0 || from >= b.len() {
        None
    } else if b[from] == 0 {
        Some(from)
    } else {
        spec_first_zero(b, from + 1)
    }
}

/// If nothing before `k` is zero and `b[k]` is zero, then `k` is the first
/// zero position.
proof fn lemma_first_zero_found(b: Seq<u8>, start: int, k: int)
    requires
        0 <= start <= k < b.len(),
        forall|j: int| start <= j < k ==> b[j] != 0,
        b[k] == 0,
    ensures
        spec_first_zero(b, start) == Some(k),
    decreases k - start,
{
    if start < k {
        lemma_first_zero_found(b, start + 1, k);
    }
}

/// If no byte from `start` on is zero, there is no first zero position.
proof fn lemma_first_zero_none(b: Seq<u8>, start: int)
    requires
        0 <= start,
        forall|j: int| start <= j < b.len() ==> b[j] != 0,
    ensures
        spec_first_zero(b, start) is None,
    decreases b.len() - start,
{
    if start < b.len() {
        lemma_first_zero_none(b, start + 1);
    }
}

/// How many bytes one address occupies at the head of `b`, or the decoding
/// error: the type and length bytes must be present; a hostname must have
/// a terminating zero byte and a length byte matching it; addresses of
/// unknown type are invalid.
pub open spec fn spec_addr_decode(b: Seq<u8>) -> Result<int, BytesError> {
    if b.len() < 2 {
        Err(BytesError::Truncated)
    } else {
        let ty = b[0];
        let alen = b[1] as int;
        if ty == T_HOSTNAME {
            match spec_first_zero(b, 2) {
                Some(k) => if k - 2 == alen - 1 {
                    Ok(k + 1)
                } else {
                    Err(BytesError::BadMessage)
                },
                None => Err(BytesError::Truncated),
            }
        } else if ty == T_IPV4 {
            if b.len() >= 6 {
                Ok(6)
            } else {
                Err(BytesError::Truncated)
            }
        } else if ty == T_IPV6 {
            if b.len() >= 18 {
                Ok(18)
            } else {
                Err(BytesError::Truncated)
            }
        } else {
            Err(BytesError::BadMessage)
        }
    }
}

/// Round trip: decoding the encoding of a well-formed address consumes
/// exactly its wire form and reads back the same address.
pub proof fn lemma_addr_decode_encode(a: Address)
    requires
        a.spec_wf(),
    ensures
        spec_addr_decode(spec_encode_addr(a)) == Ok::<int, BytesError>(spec_addr_wire_len(a)),
        is_addr_decoding(a, spec_encode_addr(a), spec_addr_wire_len(a)),
{
    let enc = spec_encode_addr(a);
    match a {
        Address::Hostname(h) => {
            let n = h@.len() as int;
            assert(enc.len() == n + 3);
            assert(enc[0] == T_HOSTNAME);
            assert(enc[1] == n + 1);
            assert forall|j: int| 2 <= j < n + 2 implies enc[j] != 0 by {
                assert(enc[j] == h@[j - 2]);
            }
            assert(enc[n + 2] == 0);
            lemma_first_zero_found(enc, 2, n + 2);
            assert(enc.subrange(2, n + 2) =~= h@);
        },
        Address::Ipv4(p) => {
            assert(enc.subrange(2, 6) =~= p@);
        },
        Address::Ipv6(p) => {
            assert(enc.subrange(2, 18) =~= p@);
        },
    }
}

/// Append every byte of `v` to `w`.
pub fn push_bytes(w: &mut Vec<u8>, v: &Vec<u8>)
    ensures
        final(w)@ == old(w)@ + v@,
{
    let mut i: usize = 0;
    while i < v.len()
        invariant
            i <= v@.len(),
            w@ == old(w)@ + v@.take(i as int),
        decreases v@.len() - i,
    {
        w.push(v[i]);
        proof {
            assert(old(w)@ + v@.take(i + 1 as int) =~= (old(w)@ + v@.take(i as int)).push(
                v@[i as int],
            ));
        }
        i = i + 1;
    }
    proof {
        assert(v@.take(v@.len() as int) =~= v@);
    }
}

/// The bytes of `b` from `from` (inclusive) to `to` (exclusive), as a new
/// vector.
pub fn copy_range(b: &[u8], from: usize, to: usize) -> (r: Vec<u8>)
    requires
        from <= to <= b@.len(),
    ensures
        r@ == b@.subrange(from as int, to as int),
{
    let mut out: Vec<u8> = Vec::new();
    let mut i: usize = from;
    while i < to
        invariant
            from <= i <= to <= b@.len(),
            out@ == b@.subrange(from as int, i as int),
        decreases to - i,
    {
        out.push(b[i]);
        proof {
            assert(b@.subrange(from as int, i + 1 as int) =~= b@.subrange(from as int, i as int)
                .push(b@[i as int]));
        }
        i = i + 1;
    }
    out
}

/// True when the two bytes of `b` are the big-endian encoding of `x`.
pub open spec fn is_be16(x: u16, b: Seq<u8>) -> bool {
    b.len() == 2 && x == b[0] * 0x100 + b[1]
}

/// True when the four bytes of `b` are the big-endian encoding of `x`.
pub open spec fn is_be32(x: u32, b: Seq<u8>) -> bool {
    b.len() == 4 && x == b[0] * 0x1000000 + b[1] * 0x10000 + b[2] * 0x100 + b[3]
}

/// Append the big-endian encoding of `x` to `w`.
pub fn push_be16(w: &mut Vec<u8>, x: u16)
    ensures
        final(w)@.len() == old(w)@.len() + 2,
        final(w)@ == old(w)@ + final(w)@.skip(old(w)@.len() as int),
        is_be16(x, final(w)@.skip(old(w)@.len() as int)),
{
    let hi = x / 0x100;
    let lo = x % 0x100;
    w.push(hi as u8);
    w.push(lo as u8);
    proof {
        assert(w@.skip(old(w)@.len() as int) =~= seq![(x / 0x100) as u8, (x % 0x100) as u8]);
        assert(w@ =~= old(w)@ + w@.skip(old(w)@.len() as int));
    }
}

/// Append the big-endian encoding of `x` to `w`.
pub fn push_be32(w: &mut Vec<u8>, x: u32)
    ensures
        final(w)@.len() == old(w)@.len() + 4,
        final(w)@ == old(w)@ + final(w)@.skip(old(w)@.len() as int),
        is_be32(x, final(w)@.skip(old(w)@.len() as int)),
{
    let b0 = x / 0x1000000;
    let b1 = (x / 0x10000) % 0x100;
    let b2 = (x / 0x100) % 0x100;
    let b3 = x % 0x100;
    proof {
        assert(x == (x / 0x1000000) * 0x1000000 + ((x / 0x10000) % 0x100) * 0x10000 + ((x
            / 0x100) % 0x100) * 0x100 + x % 0x100) by (nonlinear_arith);
        assert(x / 0x1000000 < 0x100);
    }
    w.push(b0 as u8);
    w.push(b1 as u8);
    w.push(b2 as u8);
    w.push(b3 as u8);
    proof {
        assert(w@.skip(old(w)@.len() as int) =~= seq![b0 as u8, b1 as u8, b2 as u8, b3 as u8]);
        assert(w@ =~= old(w)@ + w@.skip(old(w)@.len() as int));
    }
}

/// Read a big-endian 16-bit value at `pos`.
pub fn read_be16(b: &[u8], pos: usize) -> (x: u16)
    requires
        pos + 2 <= b@.len(),
    ensures
        is_be16(x, b@.subrange(pos as int, pos + 2 as int)),
{
    let hi = b[pos];
    let lo = b[pos + 1];
    (hi as u16) * 0x100 + (lo as u16)
}

/// Read a big-endian 32-bit value at `pos`.
pub fn read_be32(b: &[u8], pos: usize) -> (x: u32)
    requires
        pos + 4 <= b@.len(),
    ensures
        is_be32(x, b@.subrange(pos as int, pos + 4 as int)),
{
    let b0 = b[pos] as u32;
    let b1 = b[pos + 1] as u32;
    let b2 = b[pos + 2] as u32;
    let b3 = b[pos + 3] as u32;
    b0 * 0x1000000 + b1 * 0x10000 + b2 * 0x100 + b3
}

/// A request to open a new UDP stream to an address and port.
#[derive(Debug)]
pub struct ConnectUdp {
    /// Flags carried with the request.
    pub flags: u32,
    /// The address to connect to.
    pub addr: Address,
    /// The port to connect to.
    pub port: u16,
}

/// True when `b` is exactly the wire encoding of `c`: four flag bytes, the
/// address, and two port bytes.
pub open spec fn is_connect_udp_encoding(c: ConnectUdp, b: Seq<u8>) -> bool {
    let alen = spec_encode_addr(c.addr).len() as int;
    &&& b.len() == 4 + alen + 2
    &&& is_be32(c.flags, b.take(4))
    &&& b.subrange(4, 4 + alen) == spec_encode_addr(c.addr)
    &&& is_be16(c.port, b.skip(4 + alen))
}

/// True when decoding the head of `b` yields the request `c` after `n`
/// bytes: four flag bytes, one address, two port bytes.
pub open spec fn is_connect_udp_decoding(c: ConnectUdp, b: Seq<u8>, n: int) -> bool {
    let alen = spec_addr_wire_len(c.addr);
    &&& n == 4 + alen + 2
    &&& n <= b.len()
    &&& is_be32(c.flags, b.take(4))
    &&& is_addr_decoding(c.addr, b.skip(4), alen)
    &&& is_be16(c.port, b.subrange(4 + alen, n))
}

/// How many bytes one UDP stream request occupies at the head of `b`, or
/// the decoding error: four flag bytes, one address, and two port bytes
/// must be present.
pub open spec fn spec_connect_udp_decode(b: Seq<u8>) -> Result<int, BytesError> {
    if b.len() < 4 {
        Err(BytesError::Truncated)
    } else {
        match spec_addr_decode(b.skip(4)) {
            Ok(alen) => if b.len() >= 4 + alen + 2 {
                Ok(4 + alen + 2)
            } else {
                Err(BytesError::Truncated)
            },
            Err(e) => Err(e),
        }
    }
}

impl ConnectUdp {
    /// Wrap this request as a relay message.
    pub fn into_message(self) -> (r: RelayMsg)
        ensures
            r == RelayMsg::ConnectUdp(self),
    {
        RelayMsg::ConnectUdp(self)
    }

    /// Append the wire encoding of this request to `w`.
    pub fn encode_onto(&self, w: &mut Vec<u8>)
        requires
            self.addr.spec_wf(),
        ensures
            final(w)@.len() >= old(w)@.len(),
            final(w)@.take(old(w)@.len() as int) == old(w)@,
            is_connect_udp_encoding(*self, final(w)@.skip(old(w)@.len() as int)),
    {
        let ghost start = w@;
        push_be32(w, self.flags);
        let ghost flag_bytes = w@.skip(start.len() as int);
        self.addr.write_onto(w);
        let ghost after_addr = w@;
        push_be16(w, self.port);
        let ghost port_bytes = w@.skip(after_addr.len() as int);
        proof {
            let enc = spec_encode_addr(self.addr);
            assert(w@ =~= start + flag_bytes + enc + port_bytes);
            let added = w@.skip(start.len() as int);
            assert(added =~= flag_bytes + enc + port_bytes);
            assert(w@.take(start.len() as int) =~= start);
            assert(added.take(4) =~= flag_bytes);
            assert(added.subrange(4, 4 + enc.len() as int) =~= enc);
            assert(added.skip(4 + enc.len() as int) =~= port_bytes);
        }
    }

    /// Decode one request from `b`, starting at `pos`.  On success the
    /// result is pinned to the bytes consumed; on failure the error is
    /// exactly what the decode spec assigns to the input.
    pub fn decode_from_reader(b: &[u8], pos: usize) -> (r: Result<(ConnectUdp, usize), BytesError>)
        requires
            pos <= b@.len(),
        ensures
            (match r {
                Ok((c, n)) => {
                    &&& pos + n <= b@.len()
                    &&& c.addr.spec_wf()
                    &&& is_connect_udp_decoding(c, b@.skip(pos as int), n as int)
                    &&& spec_connect_udp_decode(b@.skip(pos as int)) == Ok::<int, BytesError>(
                        n as int,
                    )
                },
                Err(e) => spec_connect_udp_decode(b@.skip(pos as int)) == Err::<int, BytesError>(
                    e,
                ),
            }),
    {
        let len = b.len();
        if len - pos < 4 {
            return Err(BytesError::Truncated);
        }
        proof {
            assert(b@.skip(pos as int).skip(4) =~= b@.skip(pos + 4 as int));
        }
        let flags = read_be32(b, pos);
        let (addr, alen) = match Address::take_from(b, pos + 4) {
            Ok(x) => x,
            Err(e) => {
                return Err(e);
            },
        };
        if len - (pos + 4) - alen < 2 {
            return Err(BytesError::Truncated);
        }
        let port = read_be16(b, pos + 4 + alen);
        let c = ConnectUdp { flags, addr, port };
        let n = 4 + alen + 2;
        proof {
            let suffix = b@.skip(pos as int);
            assert(suffix.take(4) =~= b@.subrange(pos as int, pos + 4 as int));
            assert(suffix.skip(4) =~= b@.skip(pos + 4 as int));
            assert(suffix.subrange(4 + alen as int, n as int) =~= b@.subrange(
                pos + 4 + alen as int,
                pos + 4 + alen + 2 as int,
            ));
        }
        Ok((c, n))
    }
}

/// The reply to a UDP stream request: the relay's bound address and the
/// address the stream is connected to.  Neither may be a hostname.
#[derive(Debug)]
pub struct ConnectedUdp {
    /// The address the relay bound locally.
    pub our_address: Address,
    /// The address the stream is connected to.
    pub their_address: Address,
}

/// True when `b` is exactly the wire encoding of `c`: the two addresses in
/// order.
pub open spec fn is_connected_udp_encoding(c: ConnectedUdp, b: Seq<u8>) -> bool {
    let alen = spec_encode_addr(c.our_address).len() as int;
    &&& b.len() == alen + spec_encode_addr(c.their_address).len()
    &&& b.take(alen) == spec_encode_addr(c.our_address)
    &&& b.skip(alen) == spec_encode_addr(c.their_address)
}

/// True when decoding the head of `b` yields the reply `c` after `n`
/// bytes: the two addresses in order.
pub open spec fn is_connected_udp_decoding(c: ConnectedUdp, b: Seq<u8>, n: int) -> bool {
    let alen = spec_addr_wire_len(c.our_address);
    &&& n == alen + spec_addr_wire_len(c.their_address)
    &&& n <= b.len()
    &&& is_addr_decoding(c.our_address, b, alen)
    &&& is_addr_decoding(c.their_address, b.skip(alen), spec_addr_wire_len(c.their_address))
}

/// How many bytes one UDP stream reply occupies at the head of `b`, or
/// the decoding error: two addresses must be present, and neither may be
/// a hostname (recognized by its wire type byte).
pub open spec fn spec_connected_udp_decode(b: Seq<u8>) -> Result<int, BytesError> {
    match spec_addr_decode(b) {
        Ok(n1) => if b[0] == T_HOSTNAME {
            Err(BytesError::BadMessage)
        } else {
            match spec_addr_decode(b.skip(n1)) {
                Ok(n2) => if b[n1] == T_HOSTNAME {
                    Err(BytesError::BadMessage)
                } else {
                    Ok(n1 + n2)
                },
                Err(e) => Err(e),
            }
        },
        Err(e) => Err(e),
    }
}

impl ConnectedUdp {
    /// Wrap this reply as a relay message.
    pub fn into_message(self) -> (r: RelayMsg)
        ensures
            r == RelayMsg::ConnectedUdp(self),
    {
        RelayMsg::ConnectedUdp(self)
    }

    /// Append the wire encoding of this reply to `w`.
    pub fn encode_onto(&self, w: &mut Vec<u8>)
        requires
            self.our_address.spec_wf(),
            self.their_address.spec_wf(),
        ensures
            final(w)@.len() >= old(w)@.len(),
            final(w)@.take(old(w)@.len() as int) == old(w)@,
            is_connected_udp_encoding(*self, final(w)@.skip(old(w)@.len() as int)),
    {
        let ghost start = w@;
        self.our_address.write_onto(w);
        self.their_address.write_onto(w);
        proof {
            let enc1 = spec_encode_addr(self.our_address);
            let enc2 = spec_encode_addr(self.their_address);
            assert(w@ =~= start + enc1 + enc2);
            let added = w@.skip(start.len() as int);
            assert(added =~= enc1 + enc2);
            assert(w@.take(start.len() as int) =~= start);
            assert(added.take(enc1.len() as int) =~= enc1);
            assert(added.skip(enc1.len() as int) =~= enc2);
        }
    }

    /// Decode one reply from `b`, starting at `pos`.  Hostname addresses
    /// are rejected.  On success the result is pinned to the bytes
    /// consumed; on failure the error is exactly what the decode spec
    /// assigns to the input.
    pub fn decode_from_reader(b: &[u8], pos: usize) -> (r: Result<
        (ConnectedUdp, usize),
        BytesError,
    >)
        requires
            pos <= b@.len(),
        ensures
            (match r {
                Ok((c, n)) => {
                    &&& pos + n <= b@.len()
                    &&& c.our_address.spec_wf()
                    &&& c.their_address.spec_wf()
                    &&& !(c.our_address is Hostname)
                    &&& !(c.their_address is Hostname)
                    &&& is_connected_udp_decoding(c, b@.skip(pos as int), n as int)
                    &&& spec_connected_udp_decode(b@.skip(pos as int)) == Ok::<int, BytesError>(
                        n as int,
                    )
                },
                Err(e) => spec_connected_udp_decode(b@.skip(pos as int)) == Err::<
                    int,
                    BytesError,
                >(e),
            }),
    {
        let ghost suffix = b@.skip(pos as int);
        let blen = b.len();
        let (our_address, n1) = match Address::take_from(b, pos) {
            Ok(x) => x,
            Err(e) => {
                return Err(e);
            },
        };
        proof {
            // The first address's wire type byte tells hostname-ness.
            assert(suffix[0] == spec_addr_type(our_address));
        }
        if our_address.is_hostname() {
            return Err(BytesError::BadMessage);
        }
        proof {
            assert(pos + n1 <= blen);
            assert(suffix.skip(n1 as int) =~= b@.skip(pos + n1 as int));
        }
        let (their_address, n2) = match Address::take_from(b, pos + n1) {
            Ok(x) => x,
            Err(e) => {
                return Err(e);
            },
        };
        proof {
            assert(suffix[n1 as int] == suffix.skip(n1 as int)[0]);
            assert(suffix[n1 as int] == spec_addr_type(their_address));
        }
        if their_address.is_hostname() {
            return Err(BytesError::BadMessage);
        }
        let c = ConnectedUdp { our_address, their_address };
        let n = n1 + n2;
        Ok((c, n))
    }
}

/// A datagram sent along a UDP stream.
#[derive(Debug)]
pub struct Datagram {
    /// The bytes carried by this message.
    pub body: Vec<u8>,
}

impl Datagram {
    /// Construct a new datagram; an error when `inp` is longer than the
    /// data-message maximum.
    pub fn new(inp: &[u8]) -> (r: Result<Datagram, CellError>)
        ensures
            inp@.len() <= DATA_MAXLEN ==> (r matches Ok(d) && d.body@ == inp@),
            inp@.len() > DATA_MAXLEN ==> r == Err::<Datagram, CellError>(CellError::CantEncode),
    {
        if inp.len() > DATA_MAXLEN {
            return Err(CellError::CantEncode);
        }
        Ok(Self::new_unchecked(vstd::slice::slice_to_vec(inp)))
    }

    /// Construct a datagram from an already-checked body.
    pub fn new_unchecked(body: Vec<u8>) -> (r: Datagram)
        ensures
            r.body == body,
    {
        Datagram { body }
    }

    /// The carried bytes.
    pub fn as_bytes(&self) -> (r: &Vec<u8>)
        ensures
            *r == self.body,
    {
        &self.body
    }

    /// The carried bytes, by value.
    pub fn into_vec(self) -> (r: Vec<u8>)
        ensures
            r == self.body,
    {
        self.body
    }

    /// Wrap this datagram as a relay message.
    pub fn into_message(self) -> (r: RelayMsg)
        ensures
            r == RelayMsg::Datagram(self),
    {
        RelayMsg::Datagram(self)
    }

    /// Decode a datagram: everything from `pos` to the end of the input.
    pub fn decode_from_reader(b: &[u8], pos: usize) -> (r: Result<(Datagram, usize), BytesError>)
        requires
            pos <= b@.len(),
        ensures
            (r matches Ok((d, n)) && d.body@ == b@.skip(pos as int) && pos + n == b@.len()),
    {
        let body = copy_range(b, pos, b.len());
        proof {
            assert(b@.subrange(pos as int, b@.len() as int) =~= b@.skip(pos as int));
        }
        Ok((Datagram { body }, b.len() - pos))
    }

    /// Append the carried bytes to `w`.
    pub fn encode_onto(&self, w: &mut Vec<u8>)
        ensures
            final(w)@ == old(w)@ + self.body@,
    {
        push_bytes(w, &self.body);
    }
}

} // verus!
