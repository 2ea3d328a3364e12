//! Relay messages and the cells that carry them along circuits.

use vstd::prelude::*;

use crate::udp::{ConnectUdp, ConnectedUdp, Datagram};
use vstd::string::StringSliceAdditionalSpecFns;

verus! {

/// Errors raised while encoding or decoding wire data.
#[derive(Clone, Copy, PartialEq, Eq, Structural, Debug)]
pub enum BytesError {
    /// The input ended before the object was complete.
    Truncated,
    /// The input cannot be a valid encoding of the object.
    BadMessage,
}

/// An error raised while constructing a cell.
#[derive(Clone, Copy, PartialEq, Eq, Structural, Debug)]
pub enum CellError {
    /// The object is too large for a cell.
    CantEncode,
}

/// The identifier of a stream within a circuit.
#[derive(Clone, Copy, PartialEq, Eq, Structural, Debug)]
pub struct StreamId(pub u16);

impl From<u16> for StreamId {
    /// Wrap a raw stream number.
    fn from(v: u16) -> (r: StreamId)
        ensures
            r == StreamId(v),
    {
        StreamId(v)
    }
}

impl vstd::std_specs::convert::FromSpecImpl<u16> for StreamId {
    open spec fn obeys_from_spec() -> bool {
        true
    }

    open spec fn from_spec(v: u16) -> StreamId {
        StreamId(v)
    }
}

/// The longest allowable address in a `Begin` message, in bytes.
pub const BEGIN_ADDR_MAXLEN: usize = 255;

/// The lower-case image of a byte: ASCII capital letters gain the case
/// bit, all other bytes are unchanged.
pub open spec fn spec_ascii_lower_byte(b: u8) -> u8 {
    if 65 <= b <= 90 {
        (b + 32) as u8
    } else {
        b
    }
}

/// The lower-case image of a byte sequence.
pub open spec fn spec_ascii_lower(s: Seq<u8>) -> Seq<u8> {
    s.map_values(|b: u8| spec_ascii_lower_byte(b))
}

/// Lower-case a byte vector in the ASCII range.
pub fn ascii_lower(v: &Vec<u8>) -> (r: Vec<u8>)
    ensures
        r@ == spec_ascii_lower(v@),
{
    let mut out: Vec<u8> = Vec::new();
    let mut i: usize = 0;
    while i < v.len()
        invariant
            i <= v@.len(),
            out@.len() == i,
            forall|j: int| 0 <= j < i ==> out@[j] == spec_ascii_lower_byte(v@[j]),
        decreases v@.len() - i,
    {
        let b = v[i];
        if 65 <= b && b <= 90 {
            out.push(b + 32);
        } else {
            out.push(b);
        }
        i = i + 1;
    }
    proof {
        assert(out@ =~= spec_ascii_lower(v@));
    }
    out
}

/// A request to open a new stream to an address and port.
#[derive(Debug)]
pub struct Begin {
    /// The address to connect to, lower-cased.
    pub addr: Vec<u8>,
    /// The port to connect to.
    pub port: u16,
    /// Flags carried with the request.
    pub flags: u32,
}

impl Begin {
    /// Construct a new stream request.  The address must be ASCII and at
    /// most [`BEGIN_ADDR_MAXLEN`] bytes; it is stored lower-cased.
    pub fn new(addr: &str, port: u16, flags: u32) -> (r: Result<Begin, BytesError>)
        ensures
            (vstd::string::is_ascii(addr) && addr.spec_bytes().len() <= BEGIN_ADDR_MAXLEN) ==> (
            r matches Ok(b) && b.addr@ == spec_ascii_lower(addr.spec_bytes()) && b.port == port
                && b.flags == flags),
            !(vstd::string::is_ascii(addr) && addr.spec_bytes().len() <= BEGIN_ADDR_MAXLEN) ==> r
                == Err::<Begin, BytesError>(BytesError::BadMessage),
    {
        if !addr.is_ascii() {
            return Err(BytesError::BadMessage);
        }
        let bytes = addr.as_bytes_vec();
        if bytes.len() > BEGIN_ADDR_MAXLEN {
            return Err(BytesError::BadMessage);
        }
        Ok(Begin { addr: ascii_lower(&bytes), port, flags })
    }

    /// Wrap this request as a relay message.
    pub fn into_message(self) -> (r: RelayMsg)
        ensures
            r == RelayMsg::Begin(self),
    {
        RelayMsg::Begin(self)
    }
}

/// The longest allowable body for a single data message, in bytes.
pub const DATA_MAXLEN: usize = crate::CELL_DATA_LEN - 11;

/// Data sent along an open stream.
#[derive(Debug)]
pub struct Data {
    /// The bytes carried by this message.
    pub body: Vec<u8>,
}

impl Data {
    /// Construct a new data message; an error when `inp` is longer than
    /// [`DATA_MAXLEN`] bytes.
    pub fn new(inp: &[u8]) -> (r: Result<Data, CellError>)
        ensures
            inp@.len() <= DATA_MAXLEN ==> (r matches Ok(d) && d.body@ == inp@),
            inp@.len() > DATA_MAXLEN ==> r == Err::<Data, CellError>(CellError::CantEncode),
    {
        if inp.len() > DATA_MAXLEN {
            return Err(CellError::CantEncode);
        }
        Ok(Data { body: vstd::slice::slice_to_vec(inp) })
    }

    /// Wrap this data as a relay message.
    pub fn into_message(self) -> (r: RelayMsg)
        ensures
            r == RelayMsg::Data(self),
    {
        RelayMsg::Data(self)
    }
}

/// A message carried in a relay cell.
#[derive(Debug)]
pub enum RelayMsg {
    /// A request to open a stream.
    Begin(Begin),
    /// Data on an open stream.
    Data(Data),
    /// A request to open a UDP stream.
    ConnectUdp(ConnectUdp),
    /// The reply to a UDP stream request.
    ConnectedUdp(ConnectedUdp),
    /// A datagram on a UDP stream.
    Datagram(Datagram),
}

impl From<Begin> for RelayMsg {
    /// Wrap a stream request.
    fn from(v: Begin) -> (r: RelayMsg)
        ensures
            r == RelayMsg::Begin(v),
    {
        RelayMsg::Begin(v)
    }
}

impl vstd::std_specs::convert::FromSpecImpl<Begin> for RelayMsg {
    open spec fn obeys_from_spec() -> bool {
        true
    }

    open spec fn from_spec(v: Begin) -> RelayMsg {
        RelayMsg::Begin(v)
    }
}

impl From<Data> for RelayMsg {
    /// Wrap a data message.
    fn from(v: Data) -> (r: RelayMsg)
        ensures
            r == RelayMsg::Data(v),
    {
        RelayMsg::Data(v)
    }
}

impl vstd::std_specs::convert::FromSpecImpl<Data> for RelayMsg {
    open spec fn obeys_from_spec() -> bool {
        true
    }

    open spec fn from_spec(v: Data) -> RelayMsg {
        RelayMsg::Data(v)
    }
}

impl From<ConnectUdp> for RelayMsg {
    /// Wrap a UDP stream request.
    fn from(v: ConnectUdp) -> (r: RelayMsg)
        ensures
            r == RelayMsg::ConnectUdp(v),
    {
        RelayMsg::ConnectUdp(v)
    }
}

impl vstd::std_specs::convert::FromSpecImpl<ConnectUdp> for RelayMsg {
    open spec fn obeys_from_spec() -> bool {
        true
    }

    open spec fn from_spec(v: ConnectUdp) -> RelayMsg {
        RelayMsg::ConnectUdp(v)
    }
}

impl From<ConnectedUdp> for RelayMsg {
    /// Wrap a UDP stream reply.
    fn from(v: ConnectedUdp) -> (r: RelayMsg)
        ensures
            r == RelayMsg::ConnectedUdp(v),
    {
        RelayMsg::ConnectedUdp(v)
    }
}

impl vstd::std_specs::convert::FromSpecImpl<ConnectedUdp> for RelayMsg {
    open spec fn obeys_from_spec() -> bool {
        true
    }

    open spec fn from_spec(v: ConnectedUdp) -> RelayMsg {
        RelayMsg::ConnectedUdp(v)
    }
}

impl From<Datagram> for RelayMsg {
    /// Wrap a datagram.
    fn from(v: Datagram) -> (r: RelayMsg)
        ensures
            r == RelayMsg::Datagram(v),
    {
        RelayMsg::Datagram(v)
    }
}

impl vstd::std_specs::convert::FromSpecImpl<Datagram> for RelayMsg {
    open spec fn obeys_from_spec() -> bool {
        true
    }

    open spec fn from_spec(v: Datagram) -> RelayMsg {
        RelayMsg::Datagram(v)
    }
}

/// A relay cell: a message addressed to a stream.
#[derive(Debug)]
pub struct RelayCell {
    /// The stream the message belongs to.
    pub streamid: StreamId,
    /// The message itself.
    pub msg: RelayMsg,
}

impl RelayCell {
    /// Construct a new relay cell.
    pub fn new(streamid: StreamId, msg: RelayMsg) -> (r: RelayCell)
        ensures
            r.streamid == streamid,
            r.msg == msg,
    {
        RelayCell { streamid, msg }
    }

    /// The message this cell carries.
    pub fn msg(&self) -> (r: &RelayMsg)
        ensures
            *r == self.msg,
    {
        &self.msg
    }
}

/// True exactly for the messages that flow-control windows count: data
/// messages, and nothing else.
pub fn msg_counts_towards_windows(msg: &RelayMsg) -> (r: bool)
    ensures
        r == (msg is Data),
{
    matches!(msg, RelayMsg::Data(_))
}

/// True exactly when the cell carries a message that flow-control windows
/// count.
pub fn cell_counts_towards_windows(cell: &RelayCell) -> (r: bool)
    ensures
        r == (cell.msg is Data),
{
    msg_counts_towards_windows(&cell.msg)
}

} // verus!
