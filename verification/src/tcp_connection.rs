//! Per-connection stream reassembly: segments arrive in any order, are
//! buffered by sequence number, and contiguous runs are appended to each
//! direction's stream; a push flag delivers the accumulated bytes as one
//! complete message, and a shared counter drives the close heuristic.

pub mod laws;

use crate::parser::tcp::{TCPPacketInfo, TCP_FLAG_ACK, TCP_FLAG_FIN, TCP_FLAG_PSH, TCP_FLAG_SYN};
use std::collections::HashMap;
use vstd::arithmetic::div_mod::lemma_add_mod_noop;
use vstd::prelude::*;

verus! {

broadcast use vstd::std_specs::hash::group_hash_axioms;

/// What one processed segment yields: a complete delivered message with its
/// direction, or the connection's end.
#[derive(Debug, Clone)]
pub enum ConnectionState {
    Data(Vec<u8>, bool),
    Closed,
}

/// Mathematical image of a [`ConnectionState`].
pub enum ConnectionStateModel {
    Data(Seq<u8>, bool),
    Closed,
}

impl View for ConnectionState {
    type V = ConnectionStateModel;

    open spec fn view(&self) -> ConnectionStateModel {
        match self {
            ConnectionState::Data(d, sb) => ConnectionStateModel::Data(d@, *sb),
            ConnectionState::Closed => ConnectionStateModel::Closed,
        }
    }
}

/// One direction of a connection: the contiguous bytes accumulated so far,
/// the sequence number the stream expects next, and the out-of-order
/// segments held until their turn, keyed by sequence number.
#[derive(Debug)]
pub struct TCPData {
    pub data: Vec<u8>,
    pub next_seq: u32,
    pub buffer: HashMap<u32, TCPPacketInfo>,
}

/// Mathematical image of a [`TCPData`].
pub struct StreamModel {
    pub data: Seq<u8>,
    pub next_seq: u32,
    pub buffer: Map<u32, TCPPacketInfo>,
}

impl View for TCPData {
    type V = StreamModel;

    open spec fn view(&self) -> StreamModel {
        StreamModel { data: self.data@, next_seq: self.next_seq, buffer: self.buffer@ }
    }
}

impl Default for TCPData {
    /// An empty direction: no bytes, expecting sequence number zero,
    /// holding nothing.
    fn default() -> (r: TCPData)
        ensures
            r@ == (StreamModel {
                data: Seq::<u8>::empty(),
                next_seq: 0u32,
                buffer: Map::<u32, TCPPacketInfo>::empty(),
            }),
    {
        let r = TCPData { data: Vec::new(), next_seq: 0, buffer: HashMap::new() };
        proof {
            assert(r@.data =~= Seq::<u8>::empty());
        }
        r
    }
}

/// Advance a 32-bit sequence number by `n`, wrapping modulo `2^32`.
pub open spec fn seq_add(a: u32, n: int) -> u32 {
    ((a + n) % 0x100000000) as u32
}

/// Incrementing the close counter saturates instead of wrapping.
pub open spec fn sat_inc(c: u8) -> u8 {
    if c < 255 {
        (c + 1) as u8
    } else {
        255u8
    }
}

/// A segment's payload enters the holding buffer under its sequence number
/// — overwriting any earlier arrival there, so a retransmission leaves one
/// copy — unless the payload is empty.
pub open spec fn spec_insert(st: StreamModel, p: TCPPacketInfo) -> StreamModel {
    if p.payload@.len() > 0 {
        StreamModel { buffer: st.buffer.insert(p.seq_num, p), ..st }
    } else {
        st
    }
}

/// Drain the holding buffer: while a segment is waiting at the expected
/// sequence number, remove it, append its payload, and advance the
/// expectation by the payload's length; a drained segment carrying the push
/// flag stops the drain and delivers everything accumulated, resetting the
/// stream's bytes.
pub open spec fn spec_drain(st: StreamModel) -> (StreamModel, Option<Seq<u8>>)
    decreases st.buffer.dom().len()
        when st.buffer.dom().finite()
{
    if !st.buffer.dom().contains(st.next_seq) {
        (st, None)
    } else {
        let p = st.buffer[st.next_seq];
        let st1 = StreamModel {
            data: st.data + p.payload@,
            next_seq: seq_add(st.next_seq, p.payload@.len() as int),
            buffer: st.buffer.remove(st.next_seq),
        };
        if p.flags.spec_has(TCP_FLAG_PSH) {
            (StreamModel { data: Seq::<u8>::empty(), ..st1 }, Some(st1.data))
        } else {
            spec_drain(st1)
        }
    }
}

/// Insert one data segment and drain, as the reassembler does for a
/// segment that carries neither connection-control flag.
pub open spec fn spec_feed(st: StreamModel, p: TCPPacketInfo) -> (StreamModel, Option<Seq<u8>>) {
    spec_drain(spec_insert(st, p))
}

/// The two directions of one watched connection, and the shared close
/// counter (zero while the connection is open).
#[derive(Debug)]
pub struct TCPConnection {
    pub c2s_data: TCPData,
    pub s2c_data: TCPData,
    pub closing_state: u8,
}

/// Mathematical image of a [`TCPConnection`].
pub struct ConnectionModel {
    pub c2s: StreamModel,
    pub s2c: StreamModel,
    pub closing: u8,
}

impl View for TCPConnection {
    type V = ConnectionModel;

    open spec fn view(&self) -> ConnectionModel {
        ConnectionModel { c2s: self.c2s_data@, s2c: self.s2c_data@, closing: self.closing_state }
    }
}

/// What processing one segment does to a connection, in order: an
/// acknowledgment while the close counter is positive raises the counter,
/// reaching four ends the connection; a synchronize segment (re)starts its
/// direction at the following sequence number; a finish segment raises the
/// counter; anything else is a data segment, fed to its direction's stream,
/// possibly delivering one complete message.
pub open spec fn spec_process(m: ConnectionModel, p: TCPPacketInfo, server_bounded: bool) -> (
    ConnectionModel,
    Option<ConnectionStateModel>,
) {
    if p.flags.spec_has(TCP_FLAG_ACK) && m.closing > 0 {
        let nc = sat_inc(m.closing);
        if nc == 4 {
            (ConnectionModel { closing: nc, ..m }, Some(ConnectionStateModel::Closed))
        } else {
            (ConnectionModel { closing: nc, ..m }, None)
        }
    } else if p.flags.spec_has(TCP_FLAG_SYN) {
        let st = if server_bounded {
            m.c2s
        } else {
            m.s2c
        };
        let st1 = StreamModel { next_seq: seq_add(p.seq_num, 1), ..st };
        if server_bounded {
            (ConnectionModel { c2s: st1, ..m }, None)
        } else {
            (ConnectionModel { s2c: st1, ..m }, None)
        }
    } else if p.flags.spec_has(TCP_FLAG_FIN) {
        (ConnectionModel { closing: sat_inc(m.closing), ..m }, None)
    } else {
        let st = if server_bounded {
            m.c2s
        } else {
            m.s2c
        };
        let (st1, out) = spec_feed(st, p);
        let m1 = if server_bounded {
            ConnectionModel { c2s: st1, ..m }
        } else {
            ConnectionModel { s2c: st1, ..m }
        };
        match out {
            Some(d) => (m1, Some(ConnectionStateModel::Data(d, server_bounded))),
            None => (m1, None),
        }
    }
}

impl TCPData {
    /// Feed one data segment to this direction, exactly as [`spec_feed`]
    /// describes: buffer it, drain every segment whose turn has come, and
    /// deliver the accumulated bytes where a drained segment pushes.
    pub fn insert_and_drain(&mut self, packet: TCPPacketInfo) -> (res: Option<Vec<u8>>)
        ensures
            ({
                let (st1, out) = spec_feed(old(self)@, packet);
                &&& final(self)@ == st1
                &&& match (res, out) {
                    (Some(d), Some(o)) => d@ == o,
                    (None, None) => true,
                    _ => false,
                }
            }),
    {
        if !packet.payload.is_empty() {
            self.buffer.insert(packet.seq_num, packet);
        }
        proof {
            assert(self@ == spec_insert(old(self)@, packet));
        }
        loop
            invariant
                self@.buffer.dom().finite(),
                spec_feed(old(self)@, packet) == spec_drain(self@),
            decreases self@.buffer.dom().len(),
        {
            let ghost pre = self@;
            match self.buffer.remove(&self.next_seq) {
                None => {
                    proof {
                        assert(pre.buffer.remove(pre.next_seq) =~= pre.buffer);
                        assert(self@ == pre);
                        assert(spec_drain(pre) == (pre, None::<Seq<u8>>));
                    }
                    return None;
                },
                Some(mut tcp_packet) => {
                    let ghost p = pre.buffer[pre.next_seq];
                    let ghost st1 = StreamModel {
                        data: pre.data + p.payload@,
                        next_seq: seq_add(pre.next_seq, p.payload@.len() as int),
                        buffer: pre.buffer.remove(pre.next_seq),
                    };
                    proof {
                        assert(tcp_packet == p);
                    }
                    let psh = tcp_packet.flags.has(TCP_FLAG_PSH);
                    let n64 = tcp_packet.payload.len() as u64;
                    let pl32 = #[verifier::truncate] (n64 as u32);
                    proof {
                        assert((n64 as u32) as u64 == n64 % 0x100000000) by (bit_vector);
                        lemma_add_mod_noop(
                            self.next_seq as int,
                            p.payload@.len() as int,
                            0x100000000,
                        );
                    }
                    self.next_seq = self.next_seq.wrapping_add(pl32);
                    self.data.append(&mut tcp_packet.payload);
                    proof {
                        assert(self@ == st1);
                    }
                    if psh {
                        proof {
                            assert(spec_drain(pre) == (
                                StreamModel { data: Seq::<u8>::empty(), ..st1 },
                                Some(st1.data),
                            ));
                        }
                        let mut output = Vec::new();
                        output.append(&mut self.data);
                        proof {
                            assert(self@.data =~= Seq::<u8>::empty());
                            assert(self@ == (StreamModel { data: Seq::<u8>::empty(), ..st1 }));
                        }
                        return Some(output);
                    }
                    proof {
                        assert(spec_drain(pre) == spec_drain(st1));
                    }
                },
            }
        }
    }
}

impl TCPConnection {
    /// A fresh connection: both directions empty, the close counter at
    /// zero.
    pub fn new() -> (r: TCPConnection)
        ensures
            r@.c2s == (StreamModel {
                data: Seq::<u8>::empty(),
                next_seq: 0u32,
                buffer: Map::<u32, TCPPacketInfo>::empty(),
            }),
            r@.s2c == (StreamModel {
                data: Seq::<u8>::empty(),
                next_seq: 0u32,
                buffer: Map::<u32, TCPPacketInfo>::empty(),
            }),
            r@.closing == 0,
    {
        TCPConnection {
            c2s_data: Default::default(),
            s2c_data: Default::default(),
            closing_state: 0,
        }
    }

    /// Process one parsed segment, exactly as [`spec_process`] describes.
    pub fn process_packet(&mut self, tcp_packet: TCPPacketInfo, server_bounded: bool) -> (res:
        Option<ConnectionState>)
        ensures
            ({
                let (m1, out) = spec_process(old(self)@, tcp_packet, server_bounded);
                &&& final(self)@ == m1
                &&& match (res, out) {
                    (Some(cs), Some(o)) => cs@ == o,
                    (None, None) => true,
                    _ => false,
                }
            }),
    {
        if tcp_packet.flags.has(TCP_FLAG_ACK) && self.closing_state > 0 {
            self.closing_state = if self.closing_state < 255 {
                self.closing_state + 1
            } else {
                255
            };
            if self.closing_state == 4 {
                return Some(ConnectionState::Closed);
            }
            return None;
        } else if tcp_packet.flags.has(TCP_FLAG_SYN) {
            let ns = tcp_packet.seq_num.wrapping_add(1);
            if server_bounded {
                self.c2s_data.next_seq = ns;
            } else {
                self.s2c_data.next_seq = ns;
            }
            return None;
        } else if tcp_packet.flags.has(TCP_FLAG_FIN) {
            self.closing_state = if self.closing_state < 255 {
                self.closing_state + 1
            } else {
                255
            };
            return None;
        } else {
            let out = if server_bounded {
                self.c2s_data.insert_and_drain(tcp_packet)
            } else {
                self.s2c_data.insert_and_drain(tcp_packet)
            };
            match out {
                Some(d) => Some(ConnectionState::Data(d, server_bounded)),
                None => None,
            }
        }
    }
}

} // verus!
