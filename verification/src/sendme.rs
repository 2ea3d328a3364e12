//! Flow-control windows for circuits and streams.
//!
//! Windows count how many cells may still be sent or received; an
//! acknowledgment opens a window back up by a fixed increment.  Send
//! windows additionally remember the authentication tags that incoming
//! acknowledgments must present.

use vstd::prelude::*;

use crate::relay_ids::{bytes_eq, copy_bytes};

verus! {

/// A protocol violation: a window was pushed past its bounds by the peer.
#[derive(Clone, Copy, PartialEq, Eq, Structural, Debug)]
pub enum ProtoError {
    /// A cell arrived, or an acknowledgment was claimed, in violation of a
    /// window.
    CircProto,
}

/// The maximum and increment that parameterize one kind of window.
pub trait WindowParams {
    /// Largest allowable value for this window.
    spec fn spec_maximum() -> u16;

    /// The adjustment each acknowledgment applies.
    spec fn spec_increment() -> u16;

    /// Largest allowable value for this window.
    fn maximum() -> (r: u16)
        ensures
            r == Self::spec_maximum(),
    ;

    /// The adjustment each acknowledgment applies; always positive.
    fn increment() -> (r: u16)
        ensures
            r == Self::spec_increment(),
            r > 0,
    ;
}

/// Window parameters for whole circuits.
pub struct CircParams;

impl WindowParams for CircParams {
    open spec fn spec_maximum() -> u16 {
        1000
    }

    open spec fn spec_increment() -> u16 {
        100
    }

    fn maximum() -> u16 {
        1000
    }

    fn increment() -> u16 {
        100
    }
}

/// Window parameters for single streams.
pub struct StreamParams;

impl WindowParams for StreamParams {
    open spec fn spec_maximum() -> u16 {
        500
    }

    open spec fn spec_increment() -> u16 {
        50
    }

    fn maximum() -> u16 {
        500
    }

    fn increment() -> u16 {
        50
    }
}

/// Tracks when acknowledgments must be sent for incoming data.
pub struct RecvWindow<P: WindowParams> {
    /// How many cells we are still willing to receive before sending an
    /// acknowledgment.
    pub window: u16,
    /// Marker tying the window to its parameters.
    pub params: core::marker::PhantomData<P>,
}

impl<P: WindowParams> RecvWindow<P> {
    /// Create a new receive window with the given initial value.
    pub fn new(window: u16) -> (r: RecvWindow<P>)
        ensures
            r.window == window,
    {
        RecvWindow { window, params: core::marker::PhantomData }
    }

    /// The current window value.
    pub fn window(&self) -> (r: u16)
        ensures
            r == self.window,
    {
        self.window
    }

    /// Note one received cell.  Returns whether an acknowledgment is now
    /// due, or an error when the cell violated the window.
    pub fn take(&mut self) -> (r: Result<bool, ProtoError>)
        ensures
            old(self).window == 0 ==> r == Err::<bool, ProtoError>(ProtoError::CircProto)
                && final(self).window == 0,
            old(self).window > 0 ==> r == Ok::<bool, ProtoError>(
                (old(self).window - 1) % (P::spec_increment() as int) == 0,
            ) && final(self).window == old(self).window - 1,
    {
        if self.window == 0 {
            Err(ProtoError::CircProto)
        } else {
            let x = self.window - 1;
            self.window = x;
            Ok(x % P::increment() == 0)
        }
    }

    /// Reduce the window by `n`; an error when that is not possible.
    pub fn decrement_n(&mut self, n: u16) -> (r: Result<(), ProtoError>)
        ensures
            old(self).window >= n ==> r == Ok::<(), ProtoError>(())
                && final(self).window == old(self).window - n,
            old(self).window < n ==> r == Err::<(), ProtoError>(ProtoError::CircProto)
                && final(self).window == old(self).window,
    {
        if self.window >= n {
            self.window = self.window - n;
            Ok(())
        } else {
            Err(ProtoError::CircProto)
        }
    }

    /// Note that an acknowledgment was just sent, reopening the window.
    pub fn put(&mut self)
        requires
            old(self).window + P::spec_increment() <= u16::MAX,
        ensures
            final(self).window == old(self).window + P::spec_increment(),
    {
        self.window = self.window + P::increment();
    }
}

/// Tracks how many cells may still be sent, and the authentication tags
/// that incoming acknowledgments must match, oldest first.
///
/// Waiting for the window to reopen is the caller's affair: `try_take`
/// reports an empty window instead of blocking.
pub struct SendWindow<P: WindowParams> {
    /// The current window value.
    pub window: u16,
    /// Tags that incoming acknowledgments must match, oldest first.
    pub tags: Vec<Vec<u8>>,
    /// Marker tying the window to its parameters.
    pub params: core::marker::PhantomData<P>,
}

impl<P: WindowParams> SendWindow<P> {
    /// The recorded tags as byte sequences, oldest first.
    pub open spec fn deep_tags(&self) -> Seq<Seq<u8>> {
        self.tags@.map_values(|v: Vec<u8>| v@)
    }

    /// Create a new send window with the given initial value.
    pub fn new(window: u16) -> (r: SendWindow<P>)
        ensures
            r.window == window,
            r.deep_tags() == Seq::<Seq<u8>>::empty(),
    {
        let r = SendWindow { window, tags: Vec::new(), params: core::marker::PhantomData };
        proof {
            assert(r.deep_tags() =~= Seq::<Seq<u8>>::empty());
        }
        r
    }

    /// Remove one cell from the window, recording `tag` whenever the new
    /// value crosses an increment boundary.  Returns the cells left, or
    /// `None` when the window is empty and the caller must wait for an
    /// acknowledgment before sending.
    pub fn try_take(&mut self, tag: &Vec<u8>) -> (r: Option<u16>)
        ensures
            old(self).window == 0 ==> r is None && final(self).window == 0
                && final(self).deep_tags() == old(self).deep_tags(),
            old(self).window > 0 ==> {
                &&& r == Some((old(self).window - 1) as u16)
                &&& final(self).window == old(self).window - 1
                &&& if (old(self).window - 1) % (P::spec_increment() as int) == 0 {
                    final(self).deep_tags() == old(self).deep_tags().push(tag@)
                } else {
                    final(self).deep_tags() == old(self).deep_tags()
                }
            },
    {
        if self.window == 0 {
            return None;
        }
        let x = self.window - 1;
        self.window = x;
        if x % P::increment() == 0 {
            let ghost before = self.tags@;
            self.tags.push(copy_bytes(tag));
            proof {
                assert(self.tags@.map_values(|v: Vec<u8>| v@) =~= before.map_values(
                    |v: Vec<u8>| v@,
                ).push(tag@));
            }
        }
        Some(x)
    }

    /// Handle an incoming acknowledgment carrying `tag` (or none, when tag
    /// enforcement is off).  On success, drop the oldest recorded tag and
    /// return the reopened window.  On a missing or wrong tag, or when the
    /// window cannot grow, return `None`; a wrong tag leaves the window
    /// untouched, while overflow still consumes the tag.
    pub fn put(&mut self, tag: Option<&Vec<u8>>) -> (r: Option<u16>)
        ensures
            ({
                let accepted = old(self).deep_tags().len() > 0 && (match tag {
                    Some(t) => old(self).deep_tags()[0] == t@,
                    None => true,
                });
                &&& (!accepted ==> r is None && final(self).window == old(self).window
                    && final(self).deep_tags() == old(self).deep_tags())
                &&& (accepted && old(self).window + P::spec_increment() > u16::MAX ==> r is None
                    && final(self).window == old(self).window
                    && final(self).deep_tags() == old(self).deep_tags().drop_first())
                &&& (accepted && old(self).window + P::spec_increment() <= u16::MAX ==> r == Some(
                    (old(self).window + P::spec_increment()) as u16,
                ) && final(self).window == old(self).window + P::spec_increment()
                    && final(self).deep_tags() == old(self).deep_tags().drop_first())
            }),
    {
        let accepted: bool = if self.tags.len() == 0 {
            false
        } else {
            match tag {
                Some(t) => bytes_eq(&self.tags[0], t),
                None => true,
            }
        };
        if !accepted {
            return None;
        }
        let ghost before = self.tags@;
        let _ = self.tags.remove(0);
        proof {
            assert(self.tags@.map_values(|v: Vec<u8>| v@) =~= before.map_values(
                |v: Vec<u8>| v@,
            ).drop_first());
        }
        let incr = P::increment();
        if self.window as u32 + incr as u32 <= u16::MAX as u32 {
            let v = self.window + incr;
            self.window = v;
            Some(v)
        } else {
            None
        }
    }

    /// The current window value and a copy of the expected tags.
    pub fn window_and_expected_tags(&self) -> (r: (u16, Vec<Vec<u8>>))
        ensures
            r.0 == self.window,
            r.1@.map_values(|v: Vec<u8>| v@) == self.deep_tags(),
    {
        let mut out: Vec<Vec<u8>> = Vec::new();
        let mut i: usize = 0;
        while i < self.tags.len()
            invariant
                i <= self.tags@.len(),
                out@.len() == i,
                forall|j: int| 0 <= j < i ==> out@[j]@ == self.tags@[j]@,
            decreases self.tags@.len() - i,
        {
            out.push(copy_bytes(&self.tags[i]));
            i = i + 1;
        }
        proof {
            assert(out@.map_values(|v: Vec<u8>| v@) =~= self.deep_tags());
        }
        (self.window, out)
    }
}

} // verus!
