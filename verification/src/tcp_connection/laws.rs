//! Properties of the reassembler: what holds of retransmitted segments, of
//! the close heuristic, and of segments arriving in any order.

use crate::parser::tcp::{TCPPacketInfo, TCP_FLAG_ACK, TCP_FLAG_FIN, TCP_FLAG_PSH, TCP_FLAG_SYN};
use crate::tcp_connection::{
    seq_add, spec_drain, spec_feed, spec_insert, spec_process, ConnectionModel,
    ConnectionStateModel, StreamModel,
};
use vstd::arithmetic::div_mod::{lemma_add_mod_noop, lemma_small_mod, lemma_mod_sub_multiples_vanish};
use vstd::prelude::*;
use vstd::set_lib::{lemma_int_range, lemma_len_subset, set_int_range};

verus! {

broadcast use vstd::set_lib::lemma_set_subset_finite;

/// Advancing a sequence number by a positive amount under `2^32` never
/// returns it to where it was.
pub proof fn lemma_seq_add_moves(a: u32, l: int)
    requires
        0 < l < 0x100000000,
    ensures
        seq_add(a, l) != a,
{
    if a + l < 0x100000000 {
        lemma_small_mod((a + l) as nat, 0x100000000);
    } else {
        lemma_mod_sub_multiples_vanish(a + l, 0x100000000);
        lemma_small_mod((a + l - 0x100000000) as nat, 0x100000000);
    }
}

/// Advancing twice is advancing by the sum.
pub proof fn lemma_seq_add_assoc(a: u32, x: int, y: int)
    requires
        0 <= x,
        0 <= y,
    ensures
        seq_add(seq_add(a, x), y) == seq_add(a, x + y),
{
    lemma_add_mod_noop((a + x) as int, y, 0x100000000);
    lemma_small_mod(((a + x) % 0x100000000) as nat, 0x100000000);
}

/// Retransmission idempotence, buffered form: inserting a segment twice
/// leaves exactly what inserting it once leaves — the later copy overwrites
/// the earlier at the same sequence number.
pub proof fn lemma_retransmission_insert_once(st: StreamModel, p: TCPPacketInfo)
    ensures
        spec_insert(spec_insert(st, p), p) == spec_insert(st, p),
{
    if p.payload@.len() > 0 {
        assert(st.buffer.insert(p.seq_num, p).insert(p.seq_num, p) =~= st.buffer.insert(
            p.seq_num,
            p,
        ));
    }
}

/// Retransmission idempotence, delivered form: a pushing segment at the
/// stream's expected sequence number is delivered once; feeding the very
/// same segment again delivers nothing more.
pub proof fn lemma_retransmission_idempotent(st: StreamModel, p: TCPPacketInfo)
    requires
        st.buffer == Map::<u32, TCPPacketInfo>::empty(),
        p.seq_num == st.next_seq,
        0 < p.payload@.len() < 0x100000000,
        p.flags.spec_has(TCP_FLAG_PSH),
    ensures
        ({
            let (st1, out1) = spec_feed(st, p);
            let (st2, out2) = spec_feed(st1, p);
            &&& out1 == Some(st.data + p.payload@)
            &&& out2 == None::<Seq<u8>>
        }),
{
    let stb = spec_insert(st, p);
    assert(stb.buffer.dom().finite()) by {
        assert(stb.buffer.dom() =~= Set::<u32>::empty().insert(p.seq_num));
    }
    let mid = StreamModel {
        data: st.data + p.payload@,
        next_seq: seq_add(st.next_seq, p.payload@.len() as int),
        buffer: stb.buffer.remove(p.seq_num),
    };
    assert(spec_drain(stb) == (
        StreamModel { data: Seq::<u8>::empty(), ..mid },
        Some(st.data + p.payload@),
    ));
    let st1 = spec_feed(st, p).0;
    // the repeat sits in the buffer at a sequence number the stream has
    // already moved past
    let stb2 = spec_insert(st1, p);
    lemma_seq_add_moves(st.next_seq, p.payload@.len() as int);
    assert(!stb2.buffer.dom().contains(stb2.next_seq)) by {
        assert(st1.buffer =~= Map::<u32, TCPPacketInfo>::empty());
        assert(stb2.buffer.dom() =~= Set::<u32>::empty().insert(p.seq_num));
    }
    assert(stb2.buffer.dom().finite()) by {
        assert(stb2.buffer.dom() =~= Set::<u32>::empty().insert(p.seq_num));
    }
    assert(spec_drain(stb2) == (stb2, None::<Seq<u8>>));
}

/// Close detection: on an open connection with an empty stream, a
/// synchronize, one pushed data segment, a finish, and three
/// acknowledgments deliver exactly one message — the segment's payload —
/// and then the closed signal, exactly at the third acknowledgment.
pub proof fn lemma_close_detection(
    m0: ConnectionModel,
    syn: TCPPacketInfo,
    data: TCPPacketInfo,
    fin: TCPPacketInfo,
    ack1: TCPPacketInfo,
    ack2: TCPPacketInfo,
    ack3: TCPPacketInfo,
    sb: bool,
)
    requires
        m0.closing == 0,
        (if sb {
            m0.c2s
        } else {
            m0.s2c
        }).buffer == Map::<u32, TCPPacketInfo>::empty(),
        (if sb {
            m0.c2s
        } else {
            m0.s2c
        }).data == Seq::<u8>::empty(),
        syn.flags.spec_has(TCP_FLAG_SYN),
        !data.flags.spec_has(TCP_FLAG_SYN),
        !data.flags.spec_has(TCP_FLAG_FIN),
        data.flags.spec_has(TCP_FLAG_PSH),
        data.seq_num == seq_add(syn.seq_num, 1),
        0 < data.payload@.len() < 0x100000000,
        !fin.flags.spec_has(TCP_FLAG_SYN),
        fin.flags.spec_has(TCP_FLAG_FIN),
        ack1.flags.spec_has(TCP_FLAG_ACK),
        ack2.flags.spec_has(TCP_FLAG_ACK),
        ack3.flags.spec_has(TCP_FLAG_ACK),
    ensures
        ({
            let (m1, o1) = spec_process(m0, syn, sb);
            let (m2, o2) = spec_process(m1, data, sb);
            let (m3, o3) = spec_process(m2, fin, sb);
            let (m4, o4) = spec_process(m3, ack1, sb);
            let (m5, o5) = spec_process(m4, ack2, sb);
            let (m6, o6) = spec_process(m5, ack3, sb);
            &&& o1 == None::<ConnectionStateModel>
            &&& o2 == Some(ConnectionStateModel::Data(data.payload@, sb))
            &&& o3 == None::<ConnectionStateModel>
            &&& o4 == None::<ConnectionStateModel>
            &&& o5 == None::<ConnectionStateModel>
            &&& o6 == Some(ConnectionStateModel::Closed)
        }),
{
    let (m1, o1) = spec_process(m0, syn, sb);
    let st1 = if sb {
        m1.c2s
    } else {
        m1.s2c
    };
    assert(st1.next_seq == data.seq_num);
    let stb = spec_insert(st1, data);
    assert(stb.buffer.dom().finite()) by {
        assert(stb.buffer.dom() =~= Set::<u32>::empty().insert(data.seq_num));
    }
    let mid = StreamModel {
        data: st1.data + data.payload@,
        next_seq: seq_add(st1.next_seq, data.payload@.len() as int),
        buffer: stb.buffer.remove(data.seq_num),
    };
    assert(spec_drain(stb) == (
        StreamModel { data: Seq::<u8>::empty(), ..mid },
        Some(st1.data + data.payload@),
    ));
    assert(st1.data + data.payload@ =~= data.payload@);
    let (m2, o2) = spec_process(m1, data, sb);
    assert(m2.closing == 0);
    let (m3, o3) = spec_process(m2, fin, sb);
    assert(m3.closing == 1);
    let (m4, o4) = spec_process(m3, ack1, sb);
    assert(m4.closing == 2);
    let (m5, o5) = spec_process(m4, ack2, sb);
    assert(m5.closing == 3);
    let (m6, o6) = spec_process(m5, ack3, sb);
    assert(m6.closing == 4);
}

/// The total length of the payloads of the first `i` chain entries.
pub open spec fn prefix_len(chain: Seq<TCPPacketInfo>, i: int) -> int
    decreases i,
{
    if i <= 0 {
        0
    } else {
        prefix_len(chain, i - 1) + chain[i - 1].payload@.len()
    }
}

/// The payloads of the first `i` chain entries, joined in order.
pub open spec fn concat_payloads(chain: Seq<TCPPacketInfo>, i: int) -> Seq<u8>
    decreases i,
{
    if i <= 0 {
        Seq::empty()
    } else {
        concat_payloads(chain, i - 1) + chain[i - 1].payload@
    }
}

/// The sequence number at which chain entry `i` starts.
pub open spec fn seq_at(chain: Seq<TCPPacketInfo>, base: u32, i: int) -> u32 {
    seq_add(base, prefix_len(chain, i))
}

/// A well-formed chain of data segments for one direction: nonempty, each
/// payload nonempty, under `2^32` bytes in all, each segment starting where
/// the previous one ends (from `base`), and the push flag on the last
/// segment exactly.
pub open spec fn chain_wf(chain: Seq<TCPPacketInfo>, base: u32) -> bool {
    &&& chain.len() > 0
    &&& prefix_len(chain, chain.len() as int) < 0x100000000
    &&& (forall|i: int| 0 <= i < chain.len() ==> (#[trigger] chain[i]).payload@.len() > 0)
    &&& (forall|i: int|
        0 <= i < chain.len() ==> (#[trigger] chain[i]).seq_num == seq_at(chain, base, i))
    &&& (forall|i: int|
        0 <= i < chain.len() ==> ((#[trigger] chain[i]).flags.spec_has(TCP_FLAG_PSH) <==> i
            == chain.len() - 1))
}

/// Prefix lengths grow strictly along a chain of nonempty payloads.
pub proof fn lemma_prefix_len_mono(chain: Seq<TCPPacketInfo>, i: int, j: int)
    requires
        forall|k: int| 0 <= k < chain.len() ==> (#[trigger] chain[k]).payload@.len() > 0,
        0 <= i <= j <= chain.len(),
    ensures
        prefix_len(chain, i) <= prefix_len(chain, j),
        i < j ==> prefix_len(chain, i) < prefix_len(chain, j),
        0 <= prefix_len(chain, i),
    decreases j,
{
    if i < j {
        lemma_prefix_len_mono(chain, i, j - 1);
    } else if j > 0 {
        lemma_prefix_len_mono(chain, i - 1, j - 1);
    }
}

/// Distinct chain entries start at distinct sequence numbers.
pub proof fn lemma_chain_seq_distinct(chain: Seq<TCPPacketInfo>, base: u32, i: int, j: int)
    requires
        chain_wf(chain, base),
        0 <= i < chain.len(),
        0 <= j < chain.len(),
        i != j,
    ensures
        chain[i].seq_num != chain[j].seq_num,
{
    let n = chain.len() as int;
    lemma_prefix_len_mono(chain, if i < j { i } else { j }, if i < j { j } else { i });
    lemma_prefix_len_mono(chain, if i < j { j } else { i }, n);
    let x = prefix_len(chain, i);
    let y = prefix_len(chain, j);
    assert(x != y);
    assert(0 <= x < 0x100000000);
    assert(0 <= y < 0x100000000);
    lemma_seq_add_inj(base, x, y);
}

/// Advancing a sequence number by two different amounts under `2^32` lands
/// on two different numbers.
pub proof fn lemma_seq_add_inj(a: u32, x: int, y: int)
    requires
        0 <= x < 0x100000000,
        0 <= y < 0x100000000,
        x != y,
    ensures
        seq_add(a, x) != seq_add(a, y),
{
    assert((a + x) % 0x100000000 != (a + y) % 0x100000000) by (nonlinear_arith)
        requires
            0 <= x < 0x100000000,
            0 <= y < 0x100000000,
            x != y,
            a >= 0,
    ;
}

/// The indices of `s` at or past `e`.
pub open spec fn idxs_above(s: Set<int>, e: int) -> Set<int> {
    Set::new(|i: int| s.contains(i) && i >= e)
}

/// The holding buffer holding exactly the chain entries with indices in
/// `idxs`, each under its sequence number.
pub open spec fn buf_of(chain: Seq<TCPPacketInfo>, idxs: Set<int>) -> Map<u32, TCPPacketInfo> {
    Map::new(
        |k: u32|
            exists|i: int|
                #![trigger chain[i].seq_num]
                idxs.contains(i) && 0 <= i < chain.len() && chain[i].seq_num == k,
        |k: u32|
            chain[choose|i: int|
                #![trigger chain[i].seq_num]
                idxs.contains(i) && 0 <= i < chain.len() && chain[i].seq_num == k],
    )
}

/// A buffer over finitely many indices has a finite domain.
pub proof fn lemma_buf_of_finite(chain: Seq<TCPPacketInfo>, idxs: Set<int>)
    requires
        idxs.finite(),
        forall|i: int| idxs.contains(i) ==> 0 <= i < chain.len(),
    ensures
        buf_of(chain, idxs).dom().finite(),
{
    let f = |i: int| chain[i].seq_num;
    assert(buf_of(chain, idxs).dom() =~= idxs.map(f));
    idxs.lemma_map_finite(f);
}

/// What the buffer holds at the sequence number of a held index: exactly
/// that chain entry.
pub proof fn lemma_buf_of_at(chain: Seq<TCPPacketInfo>, base: u32, idxs: Set<int>, i0: int)
    requires
        chain_wf(chain, base),
        forall|i: int| idxs.contains(i) ==> 0 <= i < chain.len(),
        idxs.contains(i0),
    ensures
        buf_of(chain, idxs).dom().contains(chain[i0].seq_num),
        buf_of(chain, idxs)[chain[i0].seq_num] == chain[i0],
{
    let k = chain[i0].seq_num;
    assert(idxs.contains(i0) && 0 <= i0 < chain.len() && chain[i0].seq_num == k);
    let iw = choose|i: int|
        #![trigger chain[i].seq_num]
        idxs.contains(i) && 0 <= i < chain.len() && chain[i].seq_num == k;
    if iw != i0 {
        lemma_chain_seq_distinct(chain, base, iw, i0);
    }
}

/// A sequence number of an index not held is not in the buffer's domain.
pub proof fn lemma_buf_of_absent(chain: Seq<TCPPacketInfo>, base: u32, idxs: Set<int>, i0: int)
    requires
        chain_wf(chain, base),
        forall|i: int| idxs.contains(i) ==> 0 <= i < chain.len(),
        0 <= i0 < chain.len(),
        !idxs.contains(i0),
    ensures
        !buf_of(chain, idxs).dom().contains(chain[i0].seq_num),
{
    let k = chain[i0].seq_num;
    if buf_of(chain, idxs).dom().contains(k) {
        let iw = choose|i: int|
            #![trigger chain[i].seq_num]
            idxs.contains(i) && 0 <= i < chain.len() && chain[i].seq_num == k;
        lemma_chain_seq_distinct(chain, base, iw, i0);
    }
}

/// The first index at or past `q` (up to `n`) that `idxs` does not hold.
pub open spec fn run_end(idxs: Set<int>, q: int, n: int) -> int
    decreases n - q,
    when q <= n
{
    if q >= n || !idxs.contains(q) {
        q
    } else {
        run_end(idxs, q + 1, n)
    }
}

/// Where the run ends: it is between `q` and `n`, everything before it
/// (from `q`) is held, and it is itself not held unless it is `n`.
pub proof fn lemma_run_end_props(idxs: Set<int>, q: int, n: int)
    requires
        q <= n,
    ensures
        q <= run_end(idxs, q, n) <= n,
        forall|i: int| q <= i < run_end(idxs, q, n) ==> idxs.contains(i),
        run_end(idxs, q, n) < n ==> !idxs.contains(run_end(idxs, q, n)),
    decreases n - q,
{
    if q < n && idxs.contains(q) {
        lemma_run_end_props(idxs, q + 1, n);
    }
}

/// Two index sets that agree from `q` on have the same run end from `q`.
pub proof fn lemma_run_end_agree(s1: Set<int>, s2: Set<int>, q: int, n: int)
    requires
        q <= n,
        forall|i: int| q <= i < n ==> (s1.contains(i) <==> s2.contains(i)),
    ensures
        run_end(s1, q, n) == run_end(s2, q, n),
    decreases n - q,
{
    if q < n && s1.contains(q) {
        lemma_run_end_agree(s1, s2, q + 1, n);
    }
}

/// Removing a held index from the buffer is removing its sequence number.
pub proof fn lemma_buf_of_remove(chain: Seq<TCPPacketInfo>, base: u32, idxs: Set<int>, q: int)
    requires
        chain_wf(chain, base),
        forall|i: int| idxs.contains(i) ==> 0 <= i < chain.len(),
        idxs.contains(q),
    ensures
        buf_of(chain, idxs).remove(chain[q].seq_num) == buf_of(chain, idxs.remove(q)),
{
    let m1 = buf_of(chain, idxs).remove(chain[q].seq_num);
    let m2 = buf_of(chain, idxs.remove(q));
    assert forall|k: u32| m1.dom().contains(k) implies m2.dom().contains(k) && m1[k] == m2[k] by {
        let i = choose|i: int|
            #![trigger chain[i].seq_num]
            idxs.contains(i) && 0 <= i < chain.len() && chain[i].seq_num == k;
        if i == q {
            lemma_buf_of_at(chain, base, idxs, q);
        } else {
            assert(idxs.remove(q).contains(i));
            lemma_buf_of_at(chain, base, idxs.remove(q), i);
            lemma_buf_of_at(chain, base, idxs, i);
        }
    }
    assert forall|k: u32| m2.dom().contains(k) implies m1.dom().contains(k) by {
        let i = choose|i: int|
            #![trigger chain[i].seq_num]
            idxs.remove(q).contains(i) && 0 <= i < chain.len() && chain[i].seq_num == k;
        lemma_buf_of_at(chain, base, idxs, i);
        lemma_chain_seq_distinct(chain, base, i, q);
    }
    assert(m1 =~= m2);
}

/// Inserting a chain entry into the buffer is adding its index.
pub proof fn lemma_buf_of_insert(chain: Seq<TCPPacketInfo>, base: u32, idxs: Set<int>, j: int)
    requires
        chain_wf(chain, base),
        forall|i: int| idxs.contains(i) ==> 0 <= i < chain.len(),
        0 <= j < chain.len(),
    ensures
        buf_of(chain, idxs).insert(chain[j].seq_num, chain[j]) == buf_of(chain, idxs.insert(j)),
{
    let m1 = buf_of(chain, idxs).insert(chain[j].seq_num, chain[j]);
    let m2 = buf_of(chain, idxs.insert(j));
    assert forall|k: u32| m1.dom().contains(k) implies m2.dom().contains(k) && m1[k] == m2[k] by {
        if k == chain[j].seq_num {
            lemma_buf_of_at(chain, base, idxs.insert(j), j);
        } else {
            let i = choose|i: int|
                #![trigger chain[i].seq_num]
                idxs.contains(i) && 0 <= i < chain.len() && chain[i].seq_num == k;
            lemma_buf_of_at(chain, base, idxs, i);
            assert(idxs.insert(j).contains(i));
            lemma_buf_of_at(chain, base, idxs.insert(j), i);
        }
    }
    assert forall|k: u32| m2.dom().contains(k) implies m1.dom().contains(k) by {
        let i = choose|i: int|
            #![trigger chain[i].seq_num]
            idxs.insert(j).contains(i) && 0 <= i < chain.len() && chain[i].seq_num == k;
        if i != j {
            lemma_buf_of_at(chain, base, idxs, i);
        }
    }
    assert(m1 =~= m2);
}

/// Draining a chain-shaped buffer from position `q`: the drain walks the
/// contiguous run of held indices from `q`; where the run reaches the
/// chain's end, the last segment's push flag flushes the whole message;
/// otherwise the drain stops at the first gap with nothing delivered.
#[verifier::rlimit(100)]
pub proof fn lemma_drain_chain(chain: Seq<TCPPacketInfo>, base: u32, idxs: Set<int>, q: int)
    requires
        chain_wf(chain, base),
        idxs.finite(),
        forall|i: int| idxs.contains(i) ==> q <= i < chain.len(),
        0 <= q < chain.len(),
    ensures
        ({
            let n = chain.len() as int;
            let st = StreamModel {
                data: concat_payloads(chain, q),
                next_seq: seq_at(chain, base, q),
                buffer: buf_of(chain, idxs),
            };
            let e = run_end(idxs, q, n);
            if e == n {
                spec_drain(st) == (
                    StreamModel {
                        data: Seq::<u8>::empty(),
                        next_seq: seq_at(chain, base, n),
                        buffer: buf_of(chain, idxs_above(idxs, n)),
                    },
                    Some(concat_payloads(chain, n)),
                )
            } else {
                spec_drain(st) == (
                    StreamModel {
                        data: concat_payloads(chain, e),
                        next_seq: seq_at(chain, base, e),
                        buffer: buf_of(chain, idxs_above(idxs, e)),
                    },
                    None::<Seq<u8>>,
                )
            }
        }),
    decreases chain.len() - q,
{
    let n = chain.len() as int;
    let st = StreamModel {
        data: concat_payloads(chain, q),
        next_seq: seq_at(chain, base, q),
        buffer: buf_of(chain, idxs),
    };
    let e = run_end(idxs, q, n);
    lemma_buf_of_finite(chain, idxs);
    lemma_run_end_props(idxs, q, n);
    lemma_prefix_len_mono(chain, q, n);
    if !idxs.contains(q) {
        lemma_buf_of_absent(chain, base, idxs, q);
        assert(spec_drain(st) == (st, None::<Seq<u8>>));
        assert(idxs_above(idxs, q) =~= idxs);
    } else {
        let p = chain[q];
        lemma_buf_of_at(chain, base, idxs, q);
        assert(st.buffer[st.next_seq] == p);
        let idxs2 = idxs.remove(q);
        lemma_buf_of_remove(chain, base, idxs, q);
        lemma_seq_add_assoc(base, prefix_len(chain, q), p.payload@.len() as int);
        let st1 = StreamModel {
            data: concat_payloads(chain, q + 1),
            next_seq: seq_at(chain, base, q + 1),
            buffer: buf_of(chain, idxs2),
        };
        assert(st.data + p.payload@ == concat_payloads(chain, q + 1));
        if q == n - 1 {
            assert(p.flags.spec_has(TCP_FLAG_PSH));
            assert(e == n);
            assert(idxs_above(idxs, n) =~= idxs2);
            assert(spec_drain(st) == (
                StreamModel { data: Seq::<u8>::empty(), ..st1 },
                Some(st1.data),
            ));
        } else {
            assert(!p.flags.spec_has(TCP_FLAG_PSH));
            lemma_drain_chain(chain, base, idxs2, q + 1);
            lemma_run_end_agree(idxs2, idxs, q + 1, n);
            let e2 = run_end(idxs2, q + 1, n);
            assert(e2 == e);
            if e == n {
                assert(idxs_above(idxs2, n) =~= idxs_above(idxs, n));
            } else {
                assert(e > q);
                assert(idxs_above(idxs2, e) =~= idxs_above(idxs, e));
            }
            assert(spec_drain(st) == spec_drain(st1));
        }
    }
}

/// A run skips over any stretch known to be held.
pub proof fn lemma_run_end_through(idxs: Set<int>, a: int, b: int, n: int)
    requires
        a <= b <= n,
        forall|i: int| a <= i < b ==> idxs.contains(i),
    ensures
        run_end(idxs, a, n) == run_end(idxs, b, n),
    decreases b - a,
{
    if a < b {
        lemma_run_end_through(idxs, a + 1, b, n);
    }
}

/// The stream after any subset `fed` of the chain has arrived, in whatever
/// order: the longest contiguous prefix has been drained into the stream,
/// and the arrivals past the first gap wait in the buffer.
pub open spec fn chain_state(chain: Seq<TCPPacketInfo>, base: u32, fed: Set<int>) -> StreamModel {
    let mp = run_end(fed, 0, chain.len() as int);
    StreamModel {
        data: concat_payloads(chain, mp),
        next_seq: seq_at(chain, base, mp),
        buffer: buf_of(chain, idxs_above(fed, mp)),
    }
}

/// Feeding one new chain segment to a mid-reassembly stream: where it
/// completes the chain, the whole message is delivered and the stream is
/// left empty; otherwise nothing is delivered and the stream is the state
/// of the grown arrival set.
#[verifier::rlimit(100)]
pub proof fn lemma_feed_step(chain: Seq<TCPPacketInfo>, base: u32, fed: Set<int>, j: int)
    requires
        chain_wf(chain, base),
        fed.finite(),
        forall|i: int| fed.contains(i) ==> 0 <= i < chain.len(),
        0 <= j < chain.len(),
        !fed.contains(j),
    ensures
        ({
            let n = chain.len() as int;
            let fed2 = fed.insert(j);
            let mp2 = run_end(fed2, 0, n);
            if mp2 == n {
                spec_feed(chain_state(chain, base, fed), chain[j]) == (
                    StreamModel {
                        data: Seq::<u8>::empty(),
                        next_seq: seq_at(chain, base, n),
                        buffer: buf_of(chain, idxs_above(fed2, n)),
                    },
                    Some(concat_payloads(chain, n)),
                )
            } else {
                spec_feed(chain_state(chain, base, fed), chain[j]) == (
                    chain_state(chain, base, fed2),
                    None::<Seq<u8>>,
                )
            }
        }),
{
    let n = chain.len() as int;
    let mp = run_end(fed, 0, n);
    lemma_run_end_props(fed, 0, n);
    assert(mp <= j);
    let st = chain_state(chain, base, fed);
    let above = idxs_above(fed, mp);
    assert(above.subset_of(fed));
    lemma_buf_of_insert(chain, base, above, j);
    let fed2 = fed.insert(j);
    let idxs = idxs_above(fed2, mp);
    assert(above.insert(j) =~= idxs);
    let stb = spec_insert(st, chain[j]);
    assert(stb == (StreamModel {
        data: concat_payloads(chain, mp),
        next_seq: seq_at(chain, base, mp),
        buffer: buf_of(chain, idxs),
    }));
    assert(idxs.subset_of(fed2));
    lemma_drain_chain(chain, base, idxs, mp);
    lemma_run_end_agree(idxs, fed2, mp, n);
    lemma_run_end_through(fed2, 0, mp, n);
    let mp2 = run_end(fed2, 0, n);
    assert(run_end(idxs, mp, n) == mp2);
    if mp2 == n {
        assert(idxs_above(idxs, n) =~= idxs_above(fed2, n));
    } else {
        lemma_run_end_props(fed2, 0, n);
        assert(mp2 >= mp);
        assert(idxs_above(idxs, mp2) =~= idxs_above(fed2, mp2));
    }
}

/// Feeding the chain entries named by `order`, in that order: the final
/// stream and the delivery of each step.
pub open spec fn feed_order(st: StreamModel, chain: Seq<TCPPacketInfo>, order: Seq<int>) -> (
    StreamModel,
    Seq<Option<Seq<u8>>>,
)
    decreases order.len(),
{
    if order.len() == 0 {
        (st, Seq::empty())
    } else {
        let r1 = spec_feed(st, chain[order[0]]);
        let r2 = feed_order(r1.0, chain, order.skip(1));
        (r2.0, seq![r1.1] + r2.1)
    }
}

/// Feeding every not-yet-arrived chain entry, in any order, from any
/// mid-reassembly state: every step but the last delivers nothing, and the
/// last delivers the whole message.
#[verifier::rlimit(100)]
proof fn lemma_feed_order_from(chain: Seq<TCPPacketInfo>, base: u32, fed: Set<int>, order: Seq<
    int,
>)
    requires
        chain_wf(chain, base),
        fed.finite(),
        forall|i: int| fed.contains(i) ==> 0 <= i < chain.len(),
        order.no_duplicates(),
        order.len() > 0,
        forall|k: int|
            0 <= k < order.len() ==> 0 <= #[trigger] order[k] < chain.len() && !fed.contains(
                order[k],
            ),
        forall|i: int| 0 <= i < chain.len() ==> fed.contains(i) || order.contains(i),
    ensures
        ({
            let n = chain.len() as int;
            let r = feed_order(chain_state(chain, base, fed), chain, order);
            &&& r.1.len() == order.len()
            &&& (forall|k: int| 0 <= k < order.len() - 1 ==> r.1[k] == None::<Seq<u8>>)
            &&& r.1[order.len() - 1] == Some(concat_payloads(chain, n))
            &&& r.0.data == Seq::<u8>::empty()
            &&& r.0.next_seq == seq_at(chain, base, n)
        }),
    decreases order.len(),
{
    let n = chain.len() as int;
    let j = order[0];
    lemma_feed_step(chain, base, fed, j);
    let fed2 = fed.insert(j);
    let mp2 = run_end(fed2, 0, n);
    lemma_run_end_props(fed2, 0, n);
    if order.len() == 1 {
        assert forall|i: int| 0 <= i < n implies fed2.contains(i) by {
            if !fed.contains(i) {
                let k = choose|k: int| 0 <= k < order.len() && order[k] == i;
                assert(order[k] == i);
            }
        }
        assert(mp2 == n);
        let st0 = chain_state(chain, base, fed);
        let r1 = spec_feed(st0, chain[j]);
        assert(r1.1 == Some(concat_payloads(chain, n)));
        assert(order.skip(1).len() == 0);
        let r2 = feed_order(r1.0, chain, order.skip(1));
        assert(r2 == (r1.0, Seq::<Option<Seq<u8>>>::empty()));
        let r = feed_order(st0, chain, order);
        assert(r.0 == r1.0);
        assert(r.1 =~= seq![r1.1]);
        assert(r.1[0] == Some(concat_payloads(chain, n)));
    } else {
        let rest = order.skip(1);
        assert(order[1] != j);
        assert(!fed2.contains(order[1]));
        assert(mp2 < n) by {
            if mp2 == n {
                assert(fed2.contains(order[1]));
            }
        }
        assert forall|k1: int, k2: int| 0 <= k1 < k2 < rest.len() implies rest[k1] != rest[k2] by {
            assert(order[k1 + 1] != order[k2 + 1]);
        }
        assert(rest.no_duplicates());
        assert forall|k: int|
            0 <= k < rest.len() implies 0 <= #[trigger] rest[k] < n && !fed2.contains(rest[k]) by {
            assert(order[k + 1] == rest[k]);
            assert(order[k + 1] != order[0]);
        }
        assert forall|i: int| 0 <= i < n implies fed2.contains(i) || rest.contains(i) by {
            if !fed.contains(i) {
                let k = choose|k: int| 0 <= k < order.len() && order[k] == i;
                if k == 0 {
                    assert(fed2.contains(i));
                } else {
                    assert(rest[k - 1] == i);
                }
            }
        }
        lemma_feed_order_from(chain, base, fed2, rest);
        let r1 = spec_feed(chain_state(chain, base, fed), chain[j]);
        let r2 = feed_order(r1.0, chain, rest);
        let outs = seq![r1.1] + r2.1;
        assert(outs.len() == order.len());
        assert forall|k: int| 0 <= k < order.len() - 1 implies outs[k] == None::<Seq<u8>> by {
            if k > 0 {
                assert(outs[k] == r2.1[k - 1]);
            }
        }
        assert(outs[order.len() - 1] == r2.1[rest.len() - 1]);
    }
}

/// Reassembly is order-independent: a chain of non-overlapping data
/// segments, the pushing one last in sequence order, fed to a fresh stream
/// as any permutation, delivers nothing until the final arrival and then
/// exactly the payloads joined in sequence order.
pub proof fn lemma_reassembly_order_independence(
    chain: Seq<TCPPacketInfo>,
    base: u32,
    order: Seq<int>,
)
    requires
        chain_wf(chain, base),
        order.no_duplicates(),
        order.len() == chain.len(),
        forall|k: int| 0 <= k < order.len() ==> 0 <= #[trigger] order[k] < chain.len(),
    ensures
        ({
            let n = chain.len() as int;
            let init = StreamModel {
                data: Seq::<u8>::empty(),
                next_seq: base,
                buffer: Map::<u32, TCPPacketInfo>::empty(),
            };
            let r = feed_order(init, chain, order);
            &&& r.1.len() == order.len()
            &&& (forall|k: int| 0 <= k < order.len() - 1 ==> r.1[k] == None::<Seq<u8>>)
            &&& r.1[order.len() - 1] == Some(concat_payloads(chain, n))
            &&& r.0.data == Seq::<u8>::empty()
        }),
{
    let n = chain.len() as int;
    let init = StreamModel {
        data: Seq::<u8>::empty(),
        next_seq: base,
        buffer: Map::<u32, TCPPacketInfo>::empty(),
    };
    let fed0 = Set::<int>::empty();
    assert(run_end(fed0, 0, n) == 0);
    lemma_small_mod(base as nat, 0x100000000);
    assert(buf_of(chain, idxs_above(fed0, 0)) =~= Map::<u32, TCPPacketInfo>::empty());
    assert(chain_state(chain, base, fed0) == init);
    order.unique_seq_to_set();
    lemma_int_range(0, n);
    let full = set_int_range(0, n);
    assert(order.to_set().subset_of(full));
    assert forall|i: int| 0 <= i < n implies order.contains(i) by {
        if !order.to_set().contains(i) {
            assert(order.to_set().subset_of(full.remove(i)));
            lemma_len_subset(order.to_set(), full.remove(i));
        }
    }
    lemma_feed_order_from(chain, base, fed0, order);
}

} // verus!
