//! Packets of a connection: their headers, and the decisions that sending and receiving them
//! take.
//!
//! A packet starts with an eight-byte header, big-endian: its kind, its length including the
//! header, and a sequence number. A reliable message is sent in chunks of at most
//! `MAX_DATAGRAM` bytes, each acknowledged before the next is sent; an unreliable message goes
//! in one packet. The connection here decides; the caller sends and receives the packets.

use vstd::prelude::*;
use std::collections::VecDeque;
use super::{describe, describe_mismatch, MsgKind, NetError, HEADER_SIZE, MAX_DATAGRAM, MAX_MESSAGE};
use crate::wire::{
    seq_u16_be, seq_u32_be, u16_be_bytes, u32_be_bytes, u16_le, u32_le, read_u16_be, read_u32_be,
    write_u16_be, write_u32_be, lemma_u16_le_roundtrip, lemma_u32_le_roundtrip,
};

verus! {

/// The header of a packet.
pub open spec fn header_bytes(kind: u16, len: u16, seq: u32) -> Seq<u8> {
    u16_be_bytes(kind) + u16_be_bytes(len) + u32_be_bytes(seq)
}

/// A packet of the given kind and sequence number carrying `content`.
pub open spec fn packet_bytes(kind: MsgKind, seq: u32, content: Seq<u8>) -> Seq<u8> {
    header_bytes(kind.spec_code(), (8 + content.len()) as u16, seq) + content
}

/// Writes the header of a packet.
pub fn compose_header(kind: u16, len: u16, seq: u32) -> (r: [u8; 8])
    ensures
        r@ == header_bytes(kind, len, seq),
{
    let k = write_u16_be(kind);
    let l = write_u16_be(len);
    let s = write_u32_be(seq);
    let r = [k[0], k[1], l[0], l[1], s[0], s[1], s[2], s[3]];
    assert(r@ =~= header_bytes(kind, len, seq));
    r
}

/// Writes a packet of the given kind and sequence number carrying `content`.
pub fn compose_packet(kind: MsgKind, seq: u32, content: &[u8]) -> (r: Vec<u8>)
    requires
        content.len() <= MAX_DATAGRAM,
    ensures
        r@ == packet_bytes(kind, seq, content@),
{
    let header = compose_header(kind.code(), (HEADER_SIZE + content.len()) as u16, seq);
    let mut r: Vec<u8> = Vec::new();
    crate::wire::push_all(&mut r, &header);
    crate::wire::push_all(&mut r, content);
    assert(r@ =~= packet_bytes(kind, seq, content@));
    r
}

/// The chunks that a message is sent in: pieces of `n` bytes, the last one possibly shorter.
pub open spec fn chunks_of(s: Seq<u8>, n: nat) -> Seq<Seq<u8>>
    decreases s.len(),
{
    if n == 0 || s.len() <= n {
        seq![s]
    } else {
        seq![s.take(n as int)] + chunks_of(s.skip(n as int), n)
    }
}

/// What a connection knows.
#[verifier::ext_equal]
pub struct QSocketView {
    pub unreliable_send_sequence: u32,
    pub unreliable_recv_sequence: u32,
    pub ack_sequence: u32,
    pub send_sequence: u32,
    pub send_queue: Seq<Seq<u8>>,
    pub send_cache: Seq<u8>,
    pub send_next: bool,
    pub send_count: usize,
    pub resend_count: usize,
    pub recv_sequence: u32,
}

/// The state of a connection: sequence numbers, the chunks of a reliable message not yet
/// sent, and the last reliable packet sent, kept until it is acknowledged.
pub struct QSocket {
    unreliable_send_sequence: u32,
    unreliable_recv_sequence: u32,
    ack_sequence: u32,
    send_sequence: u32,
    send_queue: VecDeque<Vec<u8>>,
    send_cache: Vec<u8>,
    send_next: bool,
    send_count: usize,
    resend_count: usize,
    recv_sequence: u32,
}

/// The bytes of each queued chunk.
pub open spec fn queue_view(q: Seq<Vec<u8>>) -> Seq<Seq<u8>> {
    q.map_values(|v: Vec<u8>| v@)
}

impl View for QSocket {
    type V = QSocketView;

    closed spec fn view(&self) -> QSocketView {
        QSocketView {
            unreliable_send_sequence: self.unreliable_send_sequence,
            unreliable_recv_sequence: self.unreliable_recv_sequence,
            ack_sequence: self.ack_sequence,
            send_sequence: self.send_sequence,
            send_queue: queue_view(self.send_queue@),
            send_cache: self.send_cache@,
            send_next: self.send_next,
            send_count: self.send_count,
            resend_count: self.resend_count,
            recv_sequence: self.recv_sequence,
        }
    }
}


impl QSocketView {
    /// Every queued chunk fits in a packet, and a pending chunk is there to be sent.
    pub open spec fn wf(self) -> bool {
        &&& forall|i: int| 0 <= i < self.send_queue.len() ==> #[trigger] self.send_queue[i].len() <= MAX_DATAGRAM
        &&& self.send_next ==> self.send_queue.len() > 0
    }

    /// The state after the first queued chunk is sent: it leaves the queue and, in a packet
    /// marked as the end of the message when it is the last one, becomes the packet kept for
    /// resending.
    pub open spec fn after_send_next(self) -> QSocketView {
        QSocketView {
            send_queue: self.send_queue.drop_first(),
            send_cache: packet_bytes(
                if self.send_queue.len() == 1 { MsgKind::ReliableEom } else { MsgKind::Reliable },
                self.send_sequence,
                self.send_queue[0],
            ),
            send_sequence: (self.send_sequence + 1) as u32,
            send_count: (self.send_count + 1) as usize,
            send_next: false,
            ..self
        }
    }
}

impl QSocketView {
    /// The same state with another send queue.
    pub open spec fn with_queue(self, q: Seq<Seq<u8>>) -> QSocketView {
        QSocketView { send_queue: q, ..self }
    }

    /// The state after the kept packet is sent again.
    pub open spec fn after_resend(self) -> QSocketView {
        QSocketView { resend_count: (self.resend_count + 1) as usize, ..self }
    }

    /// The state after an unreliable message is sent.
    pub open spec fn after_send_unreliable(self) -> QSocketView {
        QSocketView {
            unreliable_send_sequence: (self.unreliable_send_sequence + 1) as u32,
            send_count: (self.send_count + 1) as usize,
            ..self
        }
    }
}

/// A fresh connection.
pub open spec fn fresh_socket() -> QSocketView {
    QSocketView {
        unreliable_send_sequence: 0,
        unreliable_recv_sequence: 0,
        ack_sequence: 0,
        send_sequence: 0,
        send_queue: Seq::empty(),
        send_cache: Seq::empty(),
        send_next: false,
        send_count: 0,
        resend_count: 0,
        recv_sequence: 0,
    }
}

/// What receiving one packet asks of the caller.
#[derive(Debug)]
pub enum RecvStep {
    /// Keep receiving packets.
    Continue,
    /// The message is complete: send the pending chunk, if any, and hand the message over.
    Done,
    /// An unreliable message arrived: hand the message over at once.
    Deliver,
    /// Receiving fails.
    Fail(NetError),
}

/// The kind of a receiving step, without the error's text.
pub enum StepKind {
    Continue,
    Done,
    Deliver,
    FailIo,
    FailInvalidData,
    FailOther,
}

/// The kind of a receiving step.
pub open spec fn step_kind(r: RecvStep) -> StepKind {
    match r {
        RecvStep::Continue => StepKind::Continue,
        RecvStep::Done => StepKind::Done,
        RecvStep::Deliver => StepKind::Deliver,
        RecvStep::Fail(NetError::Io) => StepKind::FailIo,
        RecvStep::Fail(NetError::InvalidData(_)) => StepKind::FailInvalidData,
        RecvStep::Fail(NetError::Other(_)) => StepKind::FailOther,
    }
}

/// The outcome of receiving one packet: the new state, the acknowledgement to send, the bytes
/// added to the message, and what comes next.
pub struct RecvOutcome {
    pub state: QSocketView,
    pub ack: Option<Seq<u8>>,
    pub appended: Seq<u8>,
    pub step: StepKind,
}

/// The packet kind that a packet names, if it names one.
pub open spec fn packet_kind(p: Seq<u8>) -> Option<MsgKind> {
    let code = seq_u16_be(p);
    if code == MsgKind::Reliable.spec_code() {
        Some(MsgKind::Reliable)
    } else if code == MsgKind::Ack.spec_code() {
        Some(MsgKind::Ack)
    } else if code == MsgKind::ReliableEom.spec_code() {
        Some(MsgKind::ReliableEom)
    } else if code == MsgKind::Unreliable.spec_code() {
        Some(MsgKind::Unreliable)
    } else if code == MsgKind::Ctl.spec_code() {
        Some(MsgKind::Ctl)
    } else {
        None
    }
}

/// The sequence number that a packet carries; a control packet carries none.
pub open spec fn packet_seq(p: Seq<u8>, kind: MsgKind) -> u32 {
    if kind == MsgKind::Ctl { 0 } else { seq_u32_be(p.skip(4)) }
}

/// The packet with which a reliable packet of the given sequence number is acknowledged.
pub open spec fn ack_bytes(seq: u32) -> Seq<u8> {
    header_bytes(MsgKind::Ack.spec_code(), 8, seq)
}

/// A packet whose header is sound: long enough, of a known kind, and with a length field
/// equal to its length.
pub open spec fn header_ok(p: Seq<u8>) -> bool {
    &&& p.len() >= 8
    &&& packet_kind(p) is Some
    &&& seq_u16_be(p.skip(2)) as int == p.len()
}

/// What receiving the packet `p` in the state `s` does.
pub open spec fn recv_outcome(s: QSocketView, p: Seq<u8>) -> RecvOutcome {
    let same = RecvOutcome { state: s, ack: None, appended: Seq::empty(), step: StepKind::Continue };
    if p.len() < 2 {
        RecvOutcome { step: StepKind::FailIo, ..same }
    } else if packet_kind(p) is None {
        RecvOutcome { step: StepKind::FailInvalidData, ..same }
    } else if p.len() < 8 {
        same
    } else if seq_u16_be(p.skip(2)) as int != p.len() {
        RecvOutcome { step: StepKind::FailInvalidData, ..same }
    } else {
        let kind = packet_kind(p).unwrap();
        let seq = packet_seq(p, kind);
        let payload = p.skip(8);
        match kind {
            MsgKind::Ctl => same,
            MsgKind::Unreliable => if seq < s.unreliable_recv_sequence {
                RecvOutcome { step: StepKind::Done, ..same }
            } else {
                RecvOutcome {
                    state: QSocketView { unreliable_recv_sequence: (seq + 1) as u32, ..s },
                    ack: None,
                    appended: payload,
                    step: StepKind::Deliver,
                }
            },
            MsgKind::Ack => if seq != s.send_sequence - 1 || seq != s.ack_sequence {
                same
            } else {
                let acked = QSocketView { ack_sequence: (s.ack_sequence + 1) as u32, ..s };
                if acked.ack_sequence != s.send_sequence {
                    RecvOutcome { state: acked, step: StepKind::FailOther, ..same }
                } else if s.send_queue.len() == 0 {
                    RecvOutcome { state: QSocketView { send_cache: Seq::empty(), ..acked }, ..same }
                } else {
                    RecvOutcome { state: QSocketView { send_next: true, ..acked }, ..same }
                }
            },
            _ => if seq != s.recv_sequence {
                RecvOutcome { ack: Some(ack_bytes(seq)), ..same }
            } else {
                RecvOutcome {
                    state: QSocketView { recv_sequence: (s.recv_sequence + 1) as u32, ..s },
                    ack: Some(ack_bytes(seq)),
                    appended: payload,
                    step: if kind == MsgKind::ReliableEom { StepKind::Done } else { StepKind::Continue },
                }
            },
        }
    }
}

/// Receiving `p` in the state `s` would overflow a counter: an acknowledgement before anything
/// was sent, or a sequence number that cannot be counted past.
pub open spec fn recv_overflows(s: QSocketView, p: Seq<u8>) -> bool {
    &&& header_ok(p)
    &&& {
        let kind = packet_kind(p).unwrap();
        let seq = packet_seq(p, kind);
        ||| kind == MsgKind::Ack && s.send_sequence == 0
        ||| kind == MsgKind::Unreliable && seq >= s.unreliable_recv_sequence && seq == u32::MAX
        ||| (kind == MsgKind::Reliable || kind == MsgKind::ReliableEom) && seq == s.recv_sequence
            && seq == u32::MAX
    }
}

/// Decoding a big-endian header gives back its fields.
pub proof fn lemma_header_roundtrip(kind: u16, len: u16, seq: u32, rest: Seq<u8>)
    ensures
        ({
            let p = header_bytes(kind, len, seq) + rest;
            &&& seq_u16_be(p) == kind
            &&& seq_u16_be(p.skip(2)) == len
            &&& seq_u32_be(p.skip(4)) == seq
            &&& p.skip(8) == rest
        }),
{
    let p = header_bytes(kind, len, seq) + rest;
    lemma_u16_le_roundtrip(kind, 0, 0);
    lemma_u16_le_roundtrip(len, 0, 0);
    lemma_u32_le_roundtrip(seq);
    assert(p.skip(2)[0] == p[2] && p.skip(2)[1] == p[3]);
    assert(p.skip(4)[0] == p[4] && p.skip(4)[1] == p[5] && p.skip(4)[2] == p[6] && p.skip(4)[3] == p[7]);
    assert(p.skip(8) =~= rest);
}


impl QSocket {
    /// A fresh connection: nothing sent or received yet.
    pub fn new() -> (r: QSocket)
        ensures
            r@ == fresh_socket(),
            r@.wf(),
    {
        let r = QSocket {
            unreliable_send_sequence: 0,
            unreliable_recv_sequence: 0,
            ack_sequence: 0,
            send_sequence: 0,
            send_queue: VecDeque::new(),
            send_cache: Vec::new(),
            send_next: false,
            send_count: 0,
            resend_count: 0,
            recv_sequence: 0,
        };
        assert(r@ =~= fresh_socket());
        r
    }

    /// Whether a new reliable message can be sent: the last one was sent and acknowledged in
    /// full.
    pub fn can_send(&self) -> (r: bool)
        ensures
            r == (self@.send_queue.len() == 0 && self@.send_cache.len() == 0),
    {
        self.send_queue.len() == 0 && self.send_cache.len() == 0
    }

    /// Sends the first queued chunk of a reliable message: returns its packet, which is kept
    /// for resending until it is acknowledged.
    pub fn send_msg_next(&mut self) -> (r: Vec<u8>)
        requires
            old(self)@.wf(),
            old(self)@.send_queue.len() > 0,
            old(self)@.send_sequence < u32::MAX,
            old(self)@.send_count < usize::MAX,
        ensures
            final(self)@ == old(self)@.after_send_next(),
            final(self)@.wf(),
            r@ == final(self)@.send_cache,
    {
        let ghost old_queue = self@.send_queue;
        let content = match self.send_queue.pop_front() {
            Some(c) => c,
            None => Vec::new(),
        };
        assert(content@ == old_queue[0]);
        assert(queue_view(self.send_queue@) =~= old_queue.drop_first());
        let kind = if self.send_queue.len() == 0 { MsgKind::ReliableEom } else { MsgKind::Reliable };
        let packet = compose_packet(kind, self.send_sequence, content.as_slice());
        self.send_cache = packet;
        self.send_sequence = self.send_sequence + 1;
        self.send_count = self.send_count + 1;
        self.send_next = false;
        assert(self@ =~= old(self)@.after_send_next());
        vstd::slice::slice_to_vec(self.send_cache.as_slice())
    }

    /// Begins sending a reliable message: splits it into chunks of at most `MAX_DATAGRAM`
    /// bytes, queues them, and sends the first; returns its packet.
    ///
    /// Fails while an earlier message is still queued, and on a message that is empty or
    /// longer than `MAX_MESSAGE`; the connection is then unchanged.
    pub fn begin_send_msg(&mut self, msg: &[u8]) -> (r: Result<Vec<u8>, NetError>)
        requires
            old(self)@.wf(),
            old(self)@.send_queue.len() == 0 && 0 < msg.len() <= MAX_MESSAGE ==> old(self)@.send_sequence
                < u32::MAX && old(self)@.send_count < usize::MAX,
        ensures
            final(self)@.wf(),
            old(self)@.send_queue.len() > 0 ==> (r matches Err(NetError::Other(m)) && m@
                == "begin_send_msg: previous message unacknowledged"@ && final(self)@ == old(self)@),
            old(self)@.send_queue.len() == 0 && msg.len() == 0 ==> (r matches Err(NetError::Other(m))
                && m@ == "begin_send_msg: Input data has zero length"@ && final(self)@ == old(self)@),
            old(self)@.send_queue.len() == 0 && msg.len() > MAX_MESSAGE ==> (r matches Err(
                NetError::Other(m),
            ) && m@ == "begin_send_msg: Input data exceeds MAX_MESSAGE"@ && final(self)@ == old(self)@),
            old(self)@.send_queue.len() == 0 && 0 < msg.len() <= MAX_MESSAGE ==> (r matches Ok(p)
                && final(self)@ == old(self)@.with_queue(chunks_of(msg@, MAX_DATAGRAM as nat)).after_send_next()
                && p@ == final(self)@.send_cache),
    {
        if self.send_queue.len() != 0 {
            return Err(NetError::with_msg("begin_send_msg: previous message unacknowledged"));
        }
        if msg.len() == 0 {
            return Err(NetError::with_msg("begin_send_msg: Input data has zero length"));
        }
        if msg.len() > MAX_MESSAGE {
            return Err(NetError::with_msg("begin_send_msg: Input data exceeds MAX_MESSAGE"));
        }
        let ghost chunks = chunks_of(msg@, MAX_DATAGRAM as nat);
        let mut start: usize = 0;
        assert(msg@.skip(0) =~= msg@);
        assert(queue_view(self.send_queue@) + chunks_of(msg@.skip(0), MAX_DATAGRAM as nat) =~= chunks);
        loop
            invariant_except_break
                queue_view(self.send_queue@) + chunks_of(msg@.skip(start as int), MAX_DATAGRAM as nat)
                    == chunks,
            invariant
                start < msg.len(),
                msg.len() <= MAX_MESSAGE,
                forall|i: int|
                    0 <= i < self.send_queue@.len() ==> #[trigger] self.send_queue@[i]@.len()
                        <= MAX_DATAGRAM,
                chunks == chunks_of(msg@, MAX_DATAGRAM as nat),
                self.unreliable_send_sequence == old(self).unreliable_send_sequence,
                self.unreliable_recv_sequence == old(self).unreliable_recv_sequence,
                self.ack_sequence == old(self).ack_sequence,
                self.send_sequence == old(self).send_sequence,
                self.send_cache == old(self).send_cache,
                self.send_next == old(self).send_next,
                self.send_count == old(self).send_count,
                self.resend_count == old(self).resend_count,
                self.recv_sequence == old(self).recv_sequence,
            ensures
                queue_view(self.send_queue@) == chunks,
                forall|i: int|
                    0 <= i < self.send_queue@.len() ==> #[trigger] self.send_queue@[i]@.len()
                        <= MAX_DATAGRAM,
                self.unreliable_send_sequence == old(self).unreliable_send_sequence,
                self.unreliable_recv_sequence == old(self).unreliable_recv_sequence,
                self.ack_sequence == old(self).ack_sequence,
                self.send_sequence == old(self).send_sequence,
                self.send_cache == old(self).send_cache,
                self.send_next == old(self).send_next,
                self.send_count == old(self).send_count,
                self.resend_count == old(self).resend_count,
                self.recv_sequence == old(self).recv_sequence,
            decreases msg.len() - start,
        {
            let ghost rest = msg@.skip(start as int);
            let end: usize = if msg.len() - start <= MAX_DATAGRAM { msg.len() } else { start + MAX_DATAGRAM };
            let chunk = vstd::slice::slice_to_vec(vstd::slice::slice_subrange(msg, start, end));
            let ghost before = queue_view(self.send_queue@);
            self.send_queue.push_back(chunk);
            assert(queue_view(self.send_queue@) =~= before.push(chunk@));
            if end == msg.len() {
                assert(chunk@ =~= rest);
                assert(chunks_of(rest, MAX_DATAGRAM as nat) == seq![rest]);
                assert(before.push(chunk@) =~= before + seq![rest]);
                break;
            }
            assert(chunk@ =~= rest.take(MAX_DATAGRAM as int));
            assert(rest.skip(MAX_DATAGRAM as int) =~= msg@.skip(end as int));
            assert(before + chunks_of(rest, MAX_DATAGRAM as nat) =~= before.push(chunk@)
                + chunks_of(msg@.skip(end as int), MAX_DATAGRAM as nat));
            start = end;
        }
        assert(self@ =~= old(self)@.with_queue(chunks));
        assert(chunks.len() > 0);
        let packet = self.send_msg_next();
        Ok(packet)
    }

    /// Returns the last reliable packet again, to be resent.
    ///
    /// Fails when no packet waits for an acknowledgement.
    pub fn resend_msg(&mut self) -> (r: Result<Vec<u8>, NetError>)
        requires
            old(self)@.send_cache.len() > 0 ==> old(self)@.resend_count < usize::MAX,
        ensures
            old(self)@.send_cache.len() == 0 ==> (r matches Err(NetError::Other(m)) && m@
                == "Attempted resend with empty send cache"@ && final(self)@ == old(self)@),
            old(self)@.send_cache.len() > 0 ==> (r matches Ok(p) && p@ == old(self)@.send_cache
                && final(self)@ == old(self)@.after_resend()),
    {
        if self.send_cache.len() == 0 {
            Err(NetError::with_msg("Attempted resend with empty send cache"))
        } else {
            self.resend_count = self.resend_count + 1;
            let r = vstd::slice::slice_to_vec(self.send_cache.as_slice());
            assert(self@ =~= old(self)@.after_resend());
            Ok(r)
        }
    }

    /// Sends an unreliable message in one packet; returns the packet.
    ///
    /// Fails on a message that is empty or longer than `MAX_DATAGRAM`; the connection is then
    /// unchanged.
    pub fn send_msg_unreliable(&mut self, content: &[u8]) -> (r: Result<Vec<u8>, NetError>)
        requires
            0 < content.len() <= MAX_DATAGRAM ==> old(self)@.unreliable_send_sequence < u32::MAX
                && old(self)@.send_count < usize::MAX,
        ensures
            content.len() == 0 ==> (r matches Err(NetError::Other(m)) && m@
                == "Unreliable message has zero length"@ && final(self)@ == old(self)@),
            content.len() > MAX_DATAGRAM ==> (r matches Err(NetError::Other(m)) && m@
                == "Unreliable message length exceeds MAX_DATAGRAM"@ && final(self)@ == old(self)@),
            0 < content.len() <= MAX_DATAGRAM ==> (r matches Ok(p) && p@ == packet_bytes(
                MsgKind::Unreliable,
                old(self)@.unreliable_send_sequence,
                content@,
            ) && final(self)@ == old(self)@.after_send_unreliable()),
            old(self)@.wf() ==> final(self)@.wf(),
    {
        if content.len() == 0 {
            return Err(NetError::with_msg("Unreliable message has zero length"));
        }
        if content.len() > MAX_DATAGRAM {
            return Err(NetError::with_msg("Unreliable message length exceeds MAX_DATAGRAM"));
        }
        let packet = compose_packet(MsgKind::Unreliable, self.unreliable_send_sequence, content);
        self.unreliable_send_sequence = self.unreliable_send_sequence + 1;
        self.send_count = self.send_count + 1;
        assert(self@ =~= old(self)@.after_send_unreliable());
        Ok(packet)
    }
}


impl QSocket {
    /// Whether receiving `packet` now would overflow a counter of this connection.
    pub fn recv_would_overflow(&self, packet: &[u8]) -> (r: bool)
        ensures
            r == recv_overflows(self@, packet@),
    {
        let h = read_header(packet);
        match h {
            None => false,
            Some((kind, seq)) => match kind {
                MsgKind::Ack => self.send_sequence == 0,
                MsgKind::Unreliable => seq >= self.unreliable_recv_sequence && seq == u32::MAX,
                MsgKind::Reliable | MsgKind::ReliableEom => seq == self.recv_sequence && seq == u32::MAX,
                MsgKind::Ctl => false,
            },
        }
    }

    /// Takes in one packet of the peer: updates the connection, adds what the packet carries
    /// to `msg`, and says what to send back and what comes next.
    ///
    /// A reliable packet is acknowledged, also when it was received before, and only a new one
    /// is added. An unreliable packet older than the last one is dropped. An acknowledgement of
    /// the last reliable packet lets the next chunk go, or, after the last chunk, clears the
    /// packet kept for resending.
    pub fn recv_step(&mut self, packet: &[u8], msg: &mut Vec<u8>) -> (r: (Option<[u8; 8]>, RecvStep))
        requires
            old(self)@.wf(),
            !recv_overflows(old(self)@, packet@),
        ensures
            final(self)@.wf(),
            final(self)@ == recv_outcome(old(self)@, packet@).state,
            final(msg)@ == old(msg)@ + recv_outcome(old(self)@, packet@).appended,
            step_kind(r.1) == recv_outcome(old(self)@, packet@).step,
            r.0 is Some <==> recv_outcome(old(self)@, packet@).ack is Some,
            r.0 is Some ==> r.0.unwrap()@ == recv_outcome(old(self)@, packet@).ack.unwrap(),
    {
        if packet.len() < 2 {
            return (None, RecvStep::Fail(NetError::Io));
        }
        let code = read_u16_be(packet);
        let kind = match MsgKind::from_u16(code) {
            Some(k) => k,
            None => {
                proof { lemma_packet_kind(packet@); }
                return (None, RecvStep::Fail(NetError::InvalidData(describe("Invalid message kind", code as u32))));
            },
        };
        proof { lemma_packet_kind(packet@); }
        if packet.len() < HEADER_SIZE {
            return (None, RecvStep::Continue);
        }
        let len_field = read_u16_be(vstd::slice::slice_subrange(packet, 2, 4));
        assert(packet@.subrange(2, 4)[0] == packet@.skip(2)[0] && packet@.subrange(2, 4)[1] == packet@.skip(2)[1]);
        if len_field as usize != packet.len() {
            return (
                None,
                RecvStep::Fail(NetError::InvalidData(describe_mismatch(
                    "Length field and actual length differ",
                    len_field as u32,
                    packet.len(),
                ))),
            );
        }
        let seq: u32 = if kind == MsgKind::Ctl {
            0
        } else {
            let s = read_u32_be(vstd::slice::slice_subrange(packet, 4, 8));
            assert(packet@.subrange(4, 8)[0] == packet@.skip(4)[0] && packet@.subrange(4, 8)[1] == packet@.skip(4)[1]
                && packet@.subrange(4, 8)[2] == packet@.skip(4)[2] && packet@.subrange(4, 8)[3] == packet@.skip(4)[3]);
            s
        };
        let ghost s0 = self@;
        let ghost o = recv_outcome(s0, packet@);
        let payload = vstd::slice::slice_subrange(packet, HEADER_SIZE, packet.len());
        assert(payload@ =~= packet@.skip(8));
        match kind {
            MsgKind::Ctl => {
                assert(msg@ =~= old(msg)@ + o.appended);
                (None, RecvStep::Continue)
            },
            MsgKind::Unreliable => {
                if seq < self.unreliable_recv_sequence {
                    assert(msg@ =~= old(msg)@ + o.appended);
                    (None, RecvStep::Done)
                } else {
                    self.unreliable_recv_sequence = seq + 1;
                    crate::wire::push_all(msg, payload);
                    assert(self@ =~= o.state);
                    (None, RecvStep::Deliver)
                }
            },
            MsgKind::Ack => {
                assert(msg@ =~= old(msg)@ + o.appended);
                if seq != self.send_sequence - 1 || seq != self.ack_sequence {
                    (None, RecvStep::Continue)
                } else {
                    self.ack_sequence = self.ack_sequence + 1;
                    if self.ack_sequence != self.send_sequence {
                        return (None, RecvStep::Fail(NetError::with_msg("ACK sequencing error")));
                    }
                    if self.send_queue.len() == 0 {
                        self.send_cache = Vec::new();
                    } else {
                        self.send_next = true;
                    }
                    assert(self@ =~= o.state);
                    (None, RecvStep::Continue)
                }
            },
            _ => {
                let ack = compose_header(MsgKind::Ack.code(), 8, seq);
                if seq != self.recv_sequence {
                    assert(msg@ =~= old(msg)@ + o.appended);
                    (Some(ack), RecvStep::Continue)
                } else {
                    self.recv_sequence = self.recv_sequence + 1;
                    crate::wire::push_all(msg, payload);
                    assert(self@ =~= o.state);
                    if kind == MsgKind::ReliableEom {
                        (Some(ack), RecvStep::Done)
                    } else {
                        (Some(ack), RecvStep::Continue)
                    }
                }
            },
        }
    }

    /// Ends receiving a message: sends the next chunk of the outgoing message if an
    /// acknowledgement let it go, and returns its packet.
    pub fn finish_recv(&mut self) -> (r: Option<Vec<u8>>)
        requires
            old(self)@.wf(),
            old(self)@.send_next ==> old(self)@.send_sequence < u32::MAX && old(self)@.send_count
                < usize::MAX,
        ensures
            final(self)@.wf(),
            old(self)@.send_next ==> (r matches Some(p) && final(self)@ == old(self)@.after_send_next()
                && p@ == final(self)@.send_cache),
            !old(self)@.send_next ==> r is None && final(self)@ == old(self)@,
    {
        if self.send_next {
            Some(self.send_msg_next())
        } else {
            None
        }
    }
}

/// `packet_kind` names the kind whose code the packet starts with.
proof fn lemma_packet_kind(p: Seq<u8>)
    ensures
        forall|k: MsgKind| k.spec_code() == seq_u16_be(p) <==> packet_kind(p) == Some(k),
{
    assert forall|k: MsgKind| k.spec_code() == seq_u16_be(p) <==> packet_kind(p) == Some(k) by {
        match k {
            MsgKind::Reliable => {},
            MsgKind::Ack => {},
            MsgKind::ReliableEom => {},
            MsgKind::Unreliable => {},
            MsgKind::Ctl => {},
        }
    }
}

/// Reads the kind and sequence number of a packet whose header is sound.
fn read_header(packet: &[u8]) -> (r: Option<(MsgKind, u32)>)
    ensures
        r is Some <==> header_ok(packet@),
        r matches Some((k, s)) ==> packet_kind(packet@) == Some(k) && s == packet_seq(packet@, k),
{
    if packet.len() < HEADER_SIZE {
        return None;
    }
    proof { lemma_packet_kind(packet@); }
    let kind = match MsgKind::from_u16(read_u16_be(packet)) {
        Some(k) => k,
        None => { return None; },
    };
    let len_field = read_u16_be(vstd::slice::slice_subrange(packet, 2, 4));
    assert(packet@.subrange(2, 4)[0] == packet@.skip(2)[0] && packet@.subrange(2, 4)[1] == packet@.skip(2)[1]);
    if len_field as usize != packet.len() {
        return None;
    }
    if kind == MsgKind::Ctl {
        return Some((kind, 0));
    }
    let s = read_u32_be(vstd::slice::slice_subrange(packet, 4, 8));
    assert(packet@.subrange(4, 8)[0] == packet@.skip(4)[0] && packet@.subrange(4, 8)[1] == packet@.skip(4)[1]
        && packet@.subrange(4, 8)[2] == packet@.skip(4)[2] && packet@.subrange(4, 8)[3] == packet@.skip(4)[3]);
    Some((kind, s))
}


/// The chunks of a message, put back together, are the message; each fits in `n` bytes, and
/// each is non-empty when the message is.
pub proof fn lemma_chunks_of(s: Seq<u8>, n: nat)
    requires
        n > 0,
    ensures
        chunks_of(s, n).flatten() == s,
        forall|i: int| 0 <= i < chunks_of(s, n).len() ==> #[trigger] chunks_of(s, n)[i].len() <= n,
        s.len() > 0 ==> forall|i: int|
            0 <= i < chunks_of(s, n).len() ==> #[trigger] chunks_of(s, n)[i].len() > 0,
    decreases s.len(),
{
    if s.len() <= n {
        assert(chunks_of(s, n).drop_first() =~= Seq::<Seq<u8>>::empty());
        assert(Seq::<Seq<u8>>::empty().flatten() == Seq::<u8>::empty());
        assert(s + Seq::<u8>::empty() =~= s);
    } else {
        let rest = s.skip(n as int);
        lemma_chunks_of(rest, n);
        let c = chunks_of(s, n);
        assert(c.first() == s.take(n as int));
        assert(c.drop_first() =~= chunks_of(rest, n));
        assert(s.take(n as int) + rest =~= s);
        assert forall|i: int| 0 <= i < c.len() implies #[trigger] c[i].len() <= n by {
            if i > 0 {
                assert(c[i] == chunks_of(rest, n)[i - 1]);
            }
        }
        assert forall|i: int| 0 <= i < c.len() implies #[trigger] c[i].len() > 0 by {
            if i > 0 {
                assert(c[i] == chunks_of(rest, n)[i - 1]);
            }
        }
    }
}

/// The packet that a connection sends for its first queued chunk is taken in by a peer that
/// expects its sequence number: the chunk is added to the message, the packet is acknowledged
/// by its sequence number, and the message is complete after the last chunk.
pub proof fn lemma_reliable_delivery(s: QSocketView, r: QSocketView)
    requires
        s.wf(),
        s.send_queue.len() > 0,
        s.send_sequence < u32::MAX,
        r.recv_sequence == s.send_sequence,
    ensures
        !recv_overflows(r, s.after_send_next().send_cache),
        recv_outcome(r, s.after_send_next().send_cache).appended == s.send_queue[0],
        recv_outcome(r, s.after_send_next().send_cache).ack == Some(ack_bytes(s.send_sequence)),
        recv_outcome(r, s.after_send_next().send_cache).step == if s.send_queue.len() == 1 {
            StepKind::Done
        } else {
            StepKind::Continue
        },
        recv_outcome(r, s.after_send_next().send_cache).state.recv_sequence == r.recv_sequence + 1,
{
    let kind = if s.send_queue.len() == 1 { MsgKind::ReliableEom } else { MsgKind::Reliable };
    let content = s.send_queue[0];
    assert(content.len() <= MAX_DATAGRAM);
    lemma_header_roundtrip(kind.spec_code(), (8 + content.len()) as u16, s.send_sequence, content);
    lemma_packet_kind(s.after_send_next().send_cache);
}

/// The acknowledgement of the last reliable packet, taken in by its sender when everything
/// before it was acknowledged, lets the next chunk go or, after the last chunk, clears the
/// packet kept for resending.
pub proof fn lemma_ack_releases(s: QSocketView)
    requires
        s.wf(),
        s.send_queue.len() > 0,
        s.send_sequence < u32::MAX,
        s.send_count < usize::MAX,
        s.ack_sequence == s.send_sequence,
    ensures
        !recv_overflows(s.after_send_next(), ack_bytes(s.send_sequence)),
        recv_outcome(s.after_send_next(), ack_bytes(s.send_sequence)).step == StepKind::Continue,
        recv_outcome(s.after_send_next(), ack_bytes(s.send_sequence)).state.ack_sequence
            == s.after_send_next().send_sequence,
        s.send_queue.len() > 1 ==> recv_outcome(
            s.after_send_next(),
            ack_bytes(s.send_sequence),
        ).state.send_next,
        s.send_queue.len() == 1 ==> recv_outcome(
            s.after_send_next(),
            ack_bytes(s.send_sequence),
        ).state.send_cache.len() == 0,
{
    let p = ack_bytes(s.send_sequence);
    lemma_header_roundtrip(MsgKind::Ack.spec_code(), 8, s.send_sequence, Seq::empty());
    assert(p + Seq::<u8>::empty() =~= p);
    lemma_packet_kind(p);
    assert(packet_kind(p) == Some(MsgKind::Ack));
    assert(header_ok(p));
    assert(packet_seq(p, MsgKind::Ack) == s.send_sequence);
}

/// An unreliable packet no older than the last one received is delivered at once with what it
/// carries; an older one ends receiving with nothing added.
pub proof fn lemma_unreliable_delivery(r: QSocketView, seq: u32, content: Seq<u8>)
    requires
        content.len() <= MAX_DATAGRAM,
        seq < u32::MAX,
    ensures
        !recv_overflows(r, packet_bytes(MsgKind::Unreliable, seq, content)),
        r.unreliable_recv_sequence <= seq ==> {
            let o = recv_outcome(r, packet_bytes(MsgKind::Unreliable, seq, content));
            &&& o.appended == content
            &&& o.step == StepKind::Deliver
            &&& o.state.unreliable_recv_sequence == seq + 1
        },
        seq < r.unreliable_recv_sequence ==> {
            let o = recv_outcome(r, packet_bytes(MsgKind::Unreliable, seq, content));
            &&& o.appended.len() == 0
            &&& o.step == StepKind::Done
            &&& o.state == r
        },
{
    lemma_header_roundtrip(MsgKind::Unreliable.spec_code(), (8 + content.len()) as u16, seq, content);
    lemma_packet_kind(packet_bytes(MsgKind::Unreliable, seq, content));
}

/// A reliable packet received again is acknowledged again, and nothing is added or changed.
pub proof fn lemma_duplicate_ignored(r: QSocketView, kind: MsgKind, seq: u32, content: Seq<u8>)
    requires
        kind == MsgKind::Reliable || kind == MsgKind::ReliableEom,
        content.len() <= MAX_DATAGRAM,
        seq != r.recv_sequence,
    ensures
        !recv_overflows(r, packet_bytes(kind, seq, content)),
        recv_outcome(r, packet_bytes(kind, seq, content)).state == r,
        recv_outcome(r, packet_bytes(kind, seq, content)).appended.len() == 0,
        recv_outcome(r, packet_bytes(kind, seq, content)).ack == Some(ack_bytes(seq)),
        recv_outcome(r, packet_bytes(kind, seq, content)).step == StepKind::Continue,
{
    let p = packet_bytes(kind, seq, content);
    lemma_header_roundtrip(kind.spec_code(), (8 + content.len()) as u16, seq, content);
    lemma_packet_kind(p);
    assert(packet_kind(p) == Some(kind));
    assert(header_ok(p));
    assert(packet_seq(p, kind) == seq);
}

} // verus!
