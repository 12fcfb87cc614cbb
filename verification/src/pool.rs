//! The pool of connections to the runtime: one hot slot and a bounded list
//! of idle connections, both last in, first out.

use vstd::prelude::*;
use crate::limits::BRIDGE_READ_BUFFER_BYTES;
use crate::limits::MAX_BRIDGE_FRAME_BYTES;

verus! {

/// One connection to the runtime: its stream and the buffer that frames are
/// read into.
#[derive(Debug)]
pub struct BridgeConnection<S> {
    pub stream: S,
    pub read_buffer: Vec<u8>,
}

/// Connections that are ready for use.
#[derive(Debug)]
pub struct BridgePool<S> {
    pub max_idle: usize,
    pub hot: Option<BridgeConnection<S>>,
    pub idle: Vec<BridgeConnection<S>>,
}

/// Asks `Vec::capacity` of std how many bytes the buffer can hold without
/// growing. Std promises no more than that the contents fit.
#[verifier::external_body]
pub(crate) fn read_buffer_capacity(buffer: &Vec<u8>) -> (capacity: usize)
    ensures
        capacity >= buffer@.len(),
{
    buffer.capacity()
}

/// Makes a read buffer ready for the next use. A buffer that grew past the
/// frame limit is given up for a fresh one of the default capacity; any
/// other is emptied and kept.
pub fn recycle_read_buffer(buffer: Vec<u8>, capacity: usize) -> (recycled: Vec<u8>)
    ensures
        recycled@.len() == 0,
{
    if capacity > MAX_BRIDGE_FRAME_BYTES {
        Vec::with_capacity(BRIDGE_READ_BUFFER_BYTES)
    } else {
        let mut kept = buffer;
        kept.clear();
        kept
    }
}

impl<S> BridgeConnection<S> {
    /// A connection over `stream` with a fresh read buffer.
    pub fn new(stream: S) -> (connection: Self)
        ensures
            connection.stream == stream,
            connection.read_buffer@.len() == 0,
    {
        BridgeConnection { stream, read_buffer: Vec::with_capacity(BRIDGE_READ_BUFFER_BYTES) }
    }
}

impl<S> BridgePool<S> {
    /// Whether the idle list keeps within its limit.
    pub open spec fn well_formed(&self) -> bool {
        self.idle@.len() <= self.max_idle
    }

    /// Number of connections in the pool.
    pub open spec fn pooled(&self) -> nat {
        self.idle@.len() + if self.hot is Some {
            1nat
        } else {
            0nat
        }
    }

    /// An empty pool that keeps at most `max_idle` connections in its idle list.
    pub fn new(max_idle: usize) -> (pool: Self)
        ensures
            pool.well_formed(),
            pool.max_idle == max_idle,
            pool.hot is None,
            pool.idle@.len() == 0,
    {
        BridgePool { max_idle, hot: None, idle: Vec::new() }
    }

    /// Takes a connection out of the pool: the hot one if there is one, else
    /// the idle one that came last. `None` tells the caller to connect anew.
    pub fn acquire(&mut self) -> (connection: Option<BridgeConnection<S>>)
        requires
            old(self).well_formed(),
        ensures
            final(self).well_formed(),
            final(self).max_idle == old(self).max_idle,
            match old(self).hot {
                Some(hot) => {
                    &&& connection == Some(hot)
                    &&& final(self).hot is None
                    &&& final(self).idle@ == old(self).idle@
                },
                None => if old(self).idle@.len() > 0 {
                    &&& connection == Some(old(self).idle@.last())
                    &&& final(self).hot is None
                    &&& final(self).idle@ == old(self).idle@.drop_last()
                } else {
                    &&& connection is None
                    &&& final(self).hot is None
                    &&& final(self).idle@ == old(self).idle@
                },
            },
    {
        if self.hot.is_some() {
            return self.hot.take();
        }
        self.idle.pop()
    }

    /// Puts a connection back once its exchange ended cleanly. Its read
    /// buffer is emptied. It becomes the hot connection if there is none,
    /// else it joins the idle list if that has room, else it is given up.
    pub fn release(&mut self, connection: BridgeConnection<S>)
        requires
            old(self).well_formed(),
        ensures
            final(self).well_formed(),
            final(self).max_idle == old(self).max_idle,
            match old(self).hot {
                None => {
                    &&& final(self).hot is Some
                    &&& final(self).hot->Some_0.stream == connection.stream
                    &&& final(self).hot->Some_0.read_buffer@.len() == 0
                    &&& final(self).idle@ == old(self).idle@
                },
                Some(hot) => {
                    &&& final(self).hot == Some(hot)
                    &&& if old(self).idle@.len() < old(self).max_idle {
                        &&& final(self).idle@.len() == old(self).idle@.len() + 1
                        &&& final(self).idle@.drop_last() == old(self).idle@
                        &&& final(self).idle@.last().stream == connection.stream
                        &&& final(self).idle@.last().read_buffer@.len() == 0
                    } else {
                        final(self).idle@ == old(self).idle@
                    }
                },
            },
    {
        let BridgeConnection { stream, read_buffer } = connection;
        let capacity = read_buffer_capacity(&read_buffer);
        let cleaned = BridgeConnection { stream, read_buffer: recycle_read_buffer(read_buffer, capacity) };
        if self.hot.is_none() {
            self.hot = Some(cleaned);
            return;
        }
        if self.idle.len() < self.max_idle {
            let ghost before = self.idle@;
            self.idle.push(cleaned);
            assert(self.idle@.drop_last() =~= before);
        }
    }
}

} // verus!
