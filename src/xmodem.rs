//! The XMODEM (checksum variant) file transfer protocol: 128-byte packets
//! framed as `SOH, n, 255 - n, payload, checksum`, acknowledged one by one,
//! and a double `EOT` to finish.
use vstd::prelude::*;
use crate::channel::Channel;
use crate::io::ErrorKind;

verus! {

pub const SOH: u8 = 0x01;
pub const EOT: u8 = 0x04;
pub const ACK: u8 = 0x06;
pub const NAK: u8 = 0x15;
pub const CAN: u8 = 0x18;

/// The payload size of a packet.
pub const PACKET_SIZE: usize = 128;

/// How often a packet is tried before the transfer is given up.
pub const MAX_TRIES: usize = 10;

/// The 8-bit wrapping sum of the bytes of `p`.
pub open spec fn checksum(p: Seq<u8>) -> u8
    decreases p.len(),
{
    if p.len() == 0 {
        0
    } else {
        ((checksum(p.drop_last()) as nat + p.last() as nat) % 256) as u8
    }
}

/// The packet number that follows `n` (wrapping from 255 to 0).
pub open spec fn next_packet(n: u8) -> u8 {
    ((n as nat + 1) % 256) as u8
}

/// Packet number `n` carrying payload `p`, as it goes over the wire.
pub open spec fn frame(n: u8, p: Seq<u8>) -> Seq<u8> {
    seq![SOH, n, (255 - n) as u8] + p + seq![checksum(p)]
}

/// The frames of the first `i` packets of the payload `p`, numbered from 1.
pub open spec fn frames(p: Seq<u8>, i: int) -> Seq<u8>
    decreases i,
{
    if i <= 0 {
        seq![]
    } else {
        frames(p, i - 1) + frame((i % 256) as u8, p.subrange(128 * (i - 1), 128 * i))
    }
}

/// The number of packets that carry `len` bytes.
pub open spec fn packet_count(len: nat) -> nat {
    (len + 127) / 128
}

/// `d` padded with zeros to whole packets.
pub open spec fn padded(d: Seq<u8>) -> Seq<u8> {
    d + Seq::new((128 * packet_count(d.len()) - d.len()) as nat, |i: int| 0u8)
}

/// What a sender puts on the wire for `d` when every packet is accepted at
/// once: its packets, then `EOT` twice.
pub open spec fn tx_wire(d: Seq<u8>) -> Seq<u8> {
    frames(padded(d), packet_count(d.len()) as int) + seq![EOT, EOT]
}

/// `k` acknowledgements.
pub open spec fn acks(k: nat) -> Seq<u8> {
    Seq::new(k, |i: int| ACK)
}

/// What a receiver answers to a transfer of `k` packets that all arrive
/// intact: `NAK` to start, an `ACK` per packet, `NAK` then `ACK` to the two
/// `EOT`s.
pub open spec fn clean_replies(k: nat) -> Seq<u8> {
    seq![NAK] + acks(k) + seq![NAK, ACK]
}

/// The bytes read from a channel that has not started yet: the `NAK` that
/// starts a transfer.
pub open spec fn start_nak(started: bool) -> Seq<u8> {
    if started {
        seq![]
    } else {
        seq![NAK]
    }
}

proof fn lemma_frames_len(p: Seq<u8>, i: int)
    requires
        i >= 0,
        p.len() >= 128 * i,
    ensures
        frames(p, i).len() == 132 * i,
    decreases i,
{
    if i > 0 {
        lemma_frames_len(p, i - 1);
    }
}

/// The first `i` frames depend on the first `128 * i` bytes only.
proof fn lemma_frames_prefix(p: Seq<u8>, q: Seq<u8>, i: int)
    requires
        i >= 0,
        p.len() >= 128 * i,
        q.len() >= 128 * i,
        p.take(128 * i) == q.take(128 * i),
    ensures
        frames(p, i) == frames(q, i),
    decreases i,
{
    if i > 0 {
        assert(p.take(128 * (i - 1)) =~= p.take(128 * i).take(128 * (i - 1)));
        assert(q.take(128 * (i - 1)) =~= q.take(128 * i).take(128 * (i - 1)));
        lemma_frames_prefix(p, q, i - 1);
        assert(p.subrange(128 * (i - 1), 128 * i) =~= p.take(128 * i).subrange(128 * (i - 1), 128 * i));
        assert(q.subrange(128 * (i - 1), 128 * i) =~= q.take(128 * i).subrange(128 * (i - 1), 128 * i));
    }
}

/// Different payloads of whole packets give different frames.
proof fn lemma_frames_injective(p: Seq<u8>, q: Seq<u8>, k: int)
    requires
        k >= 0,
        p.len() == 128 * k,
        q.len() == 128 * k,
        frames(p, k) == frames(q, k),
    ensures
        p == q,
    decreases k,
{
    if k == 0 {
        assert(p =~= q);
    } else {
        let j = k - 1;
        let pa = p.take(128 * j);
        let qa = q.take(128 * j);
        lemma_frames_len(p, j);
        lemma_frames_len(q, j);
        let fp = frame((k % 256) as u8, p.subrange(128 * j, 128 * k));
        let fq = frame((k % 256) as u8, q.subrange(128 * j, 128 * k));
        assert(frames(p, k) == frames(p, j) + fp);
        assert(frames(q, k) == frames(q, j) + fq);
        assert(frames(p, j) =~= frames(p, k).take(132 * j));
        assert(frames(q, j) =~= frames(q, k).take(132 * j));
        assert(fp =~= frames(p, k).skip(132 * j));
        assert(fq =~= frames(q, k).skip(132 * j));
        assert(p.subrange(128 * j, 128 * k) =~= fp.subrange(3, 131));
        assert(q.subrange(128 * j, 128 * k) =~= fq.subrange(3, 131));
        assert(pa.take(128 * j) =~= p.take(128 * j));
        assert(qa.take(128 * j) =~= q.take(128 * j));
        lemma_frames_prefix(p, pa, j);
        lemma_frames_prefix(q, qa, j);
        lemma_frames_injective(pa, qa, j);
        assert(p =~= pa + p.subrange(128 * j, 128 * k));
        assert(q =~= qa + q.subrange(128 * j, 128 * k));
    }
}

/// Round trip: a receiver that reads, packet by packet, exactly what a
/// sender put on the wire for `data` hands out `data` padded with zeros to
/// whole packets: `128 * ceil(len / 128)` bytes.
pub proof fn lemma_round_trip(data: Seq<u8>, payload: Seq<u8>, m: int)
    requires
        m >= 0,
        payload.len() == 128 * m,
        frames(payload, m) + seq![EOT, EOT] == tx_wire(data),
    ensures
        payload == padded(data),
        m == packet_count(data.len()),
        payload.len() == 128 * packet_count(data.len()),
{
    let k = packet_count(data.len()) as int;
    let pd = padded(data);
    assert(pd.len() == 128 * k) by {
        assert(128 * ((data.len() + 127) / 128) >= data.len()) by (nonlinear_arith);
    }
    lemma_frames_len(payload, m);
    lemma_frames_len(pd, k);
    let w = tx_wire(data);
    assert(frames(payload, m) =~= w.take(w.len() - 2));
    assert(frames(pd, k) =~= w.take(w.len() - 2));
    lemma_frames_injective(payload, pd, k);
}

/// Every packet frame starts with `SOH, n, 255 - n` and ends with the
/// wrapping sum of its payload.
pub proof fn lemma_frame_layout(n: u8, p: Seq<u8>)
    requires
        p.len() == 128,
    ensures
        frame(n, p).len() == 132,
        frame(n, p)[0] == SOH,
        frame(n, p)[1] == n,
        frame(n, p)[2] == 255 - n,
        frame(n, p).subrange(3, 131) == p,
        frame(n, p)[131] == checksum(p),
{
    assert(frame(n, p).subrange(3, 131) =~= p);
}

/// Returns the 8-bit wrapping sum of the bytes of `buf`.
pub fn checksum_of(buf: &Vec<u8>) -> (r: u8)
    ensures
        r == checksum(buf@),
{
    let mut c: u8 = 0;
    let mut i: usize = 0;
    while i < buf.len()
        invariant
            i <= buf@.len(),
            c == checksum(buf@.take(i as int)),
        decreases buf@.len() - i,
    {
        proof {
            assert(buf@.take(i + 1).drop_last() =~= buf@.take(i as int));
        }
        c = ((c as u16 + buf[i] as u16) % 256) as u8;
        i = i + 1;
    }
    assert(buf@.take(buf@.len() as int) =~= buf@);
    c
}

/// The error for an unexpected byte `b`: `ConnectionAborted` for `CAN`,
/// else `InvalidData`.
pub open spec fn reject_kind(b: u8) -> ErrorKind {
    if b == CAN {
        ErrorKind::ConnectionAborted
    } else {
        ErrorKind::InvalidData
    }
}

/// What a sender makes of the receiver's reply `b` to a packet.
pub open spec fn reply_result(b: u8) -> Result<usize, ErrorKind> {
    if b == ACK {
        Ok(128)
    } else if b == NAK {
        Err(ErrorKind::Interrupted)
    } else {
        Err(reject_kind(b))
    }
}

/// An XMODEM endpoint over the channel `inner`: the number of the next
/// packet and whether the transfer has started.
pub struct Xmodem<T: Channel> {
    packet: u8,
    started: bool,
    inner: T,
}

impl<T: Channel> Xmodem<T> {
    pub closed spec fn spec_packet(&self) -> u8 {
        self.packet
    }

    pub closed spec fn spec_started(&self) -> bool {
        self.started
    }

    pub closed spec fn spec_inner(&self) -> T {
        self.inner
    }

    pub open spec fn received(&self) -> Seq<u8> {
        self.spec_inner().received()
    }

    pub open spec fn sent(&self) -> Seq<u8> {
        self.spec_inner().sent()
    }

    /// An endpoint over `inner`; the first packet is number 1.
    pub fn new(inner: T) -> (r: Xmodem<T>)
        ensures
            r.spec_packet() == 1,
            !r.spec_started(),
            r.spec_inner() == inner,
    {
        Xmodem { packet: 1, started: false, inner }
    }

    pub fn into_inner(self) -> (r: T)
        ensures
            r == self.spec_inner(),
    {
        self.inner
    }

    pub fn inner(&self) -> (r: &T)
        ensures
            *r == self.spec_inner(),
    {
        &self.inner
    }

    /// Reads one byte. With `abort_on_can`, a `CAN` byte gives
    /// `ConnectionAborted`.
    pub fn read_byte(&mut self, abort_on_can: bool) -> (r: Result<u8, ErrorKind>)
        ensures
            final(self).spec_packet() == old(self).spec_packet(),
            final(self).spec_started() == old(self).spec_started(),
            final(self).sent() == old(self).sent(),
            r matches Ok(b) ==> final(self).received() == old(self).received().push(b) && !(
            abort_on_can && b == CAN),
            r is Err ==> final(self).received() == old(self).received() || (abort_on_can
                && final(self).received() == old(self).received().push(CAN) && r == Err::<
                u8,
                ErrorKind,
            >(ErrorKind::ConnectionAborted)),
            r != Err::<u8, ErrorKind>(ErrorKind::Interrupted),
    {
        let b = self.inner.read_byte()?;
        if abort_on_can && b == CAN {
            Err(ErrorKind::ConnectionAborted)
        } else {
            Ok(b)
        }
    }

    /// Writes one byte.
    pub fn write_byte(&mut self, b: u8) -> (r: Result<(), ErrorKind>)
        ensures
            final(self).spec_packet() == old(self).spec_packet(),
            final(self).spec_started() == old(self).spec_started(),
            final(self).received() == old(self).received(),
            r is Ok ==> final(self).sent() == old(self).sent().push(b),
            r is Err ==> final(self).sent() == old(self).sent(),
            r != Err::<(), ErrorKind>(ErrorKind::Interrupted),
    {
        self.inner.write_byte(b)
    }

    /// Writes all of `bytes`; on failure fewer than all of them went out.
    pub fn write_all(&mut self, bytes: &Vec<u8>) -> (r: Result<(), ErrorKind>)
        ensures
            final(self).spec_packet() == old(self).spec_packet(),
            final(self).spec_started() == old(self).spec_started(),
            final(self).received() == old(self).received(),
            r is Ok ==> final(self).sent() == old(self).sent() + bytes@,
            r is Err ==> final(self).sent().len() < old(self).sent().len() + bytes@.len(),
            r != Err::<(), ErrorKind>(ErrorKind::Interrupted),
    {
        let mut i: usize = 0;
        while i < bytes.len()
            invariant
                i <= bytes@.len(),
                self.spec_packet() == old(self).spec_packet(),
                self.spec_started() == old(self).spec_started(),
                self.received() == old(self).received(),
                self.sent() == old(self).sent() + bytes@.take(i as int),
            decreases bytes@.len() - i,
        {
            match self.write_byte(bytes[i]) {
                Ok(()) => {},
                Err(e) => {
                    return Err(e);
                },
            }
            i = i + 1;
            assert(self.sent() =~= old(self).sent() + bytes@.take(i as int));
        }
        assert(bytes@.take(bytes@.len() as int) =~= bytes@);
        Ok(())
    }

    /// Reads one byte and checks that it is `byte`: a `CAN` instead gives
    /// `ConnectionAborted`, any other byte `InvalidData`.
    pub fn expect_byte(&mut self, byte: u8) -> (r: Result<u8, ErrorKind>)
        ensures
            final(self).spec_packet() == old(self).spec_packet(),
            final(self).spec_started() == old(self).spec_started(),
            final(self).sent() == old(self).sent(),
            r matches Ok(b) ==> b == byte && final(self).received() == old(self).received().push(
                byte,
            ),
            r != Err::<u8, ErrorKind>(ErrorKind::Interrupted),
            final(self).received().len() == old(self).received().len() + 1 ==> final(self).received() == old(self).received().push(final(self).received().last()) && (r is Ok
                <==> final(self).received().last() == byte) && (final(self).received().last()
                == CAN && byte != CAN ==> r == Err::<u8, ErrorKind>(ErrorKind::ConnectionAborted))
                && (final(self).received().last() != CAN && final(self).received().last() != byte
                ==> r == Err::<u8, ErrorKind>(ErrorKind::InvalidData)),
            final(self).received() == old(self).received() || final(self).received().len()
                == old(self).received().len() + 1,
    {
        let b = self.read_byte(false)?;
        if b == byte {
            Ok(b)
        } else if b == CAN {
            Err(ErrorKind::ConnectionAborted)
        } else {
            Err(ErrorKind::InvalidData)
        }
    }

    /// Reads one byte and checks that it is `byte`; if not, writes `CAN` to
    /// cancel the transfer and fails: `ConnectionAborted` when the byte was a
    /// `CAN` itself, else `InvalidData`.
    pub fn expect_byte_or_cancel(&mut self, byte: u8) -> (r: Result<u8, ErrorKind>)
        ensures
            final(self).spec_packet() == old(self).spec_packet(),
            final(self).spec_started() == old(self).spec_started(),
            r matches Ok(b) ==> b == byte && final(self).received() == old(self).received().push(
                byte,
            ) && final(self).sent() == old(self).sent(),
            r != Err::<u8, ErrorKind>(ErrorKind::Interrupted),
            final(self).received().len() == old(self).received().len() + 1 && final(self).received().last() != byte ==> r is Err && (final(self).sent() == old(self).sent()
                || final(self).sent() == old(self).sent().push(CAN)),
            final(self).received() == old(self).received() || final(self).received() == old(self).received().push(final(self).received().last()),
            final(self).sent() == old(self).sent() || final(self).sent() == old(self).sent().push(CAN),
            final(self).received().len() == old(self).received().len() + 1 && final(self).received().last()
                != byte && final(self).sent() == old(self).sent().push(CAN) ==> r == Err::<u8, ErrorKind>(
                reject_kind(final(self).received().last()),
            ),
    {
        let b = self.read_byte(false)?;
        if b == byte {
            Ok(b)
        } else {
            match self.write_byte(CAN) {
                Ok(()) => {},
                Err(e) => {
                    assert(self.sent().len() != old(self).sent().push(CAN).len());
                    return Err(e);
                },
            }
            if b == CAN {
                Err(ErrorKind::ConnectionAborted)
            } else {
                Err(ErrorKind::InvalidData)
            }
        }
    }

    /// Reads one packet into `buf`, which must hold exactly 128 bytes (else
    /// `UnexpectedEof`). The first call sends `NAK` to start the transfer.
    /// Returns 128 for a packet, acknowledged with `ACK`; 0 at the end of
    /// the transfer (`EOT`, answered `NAK`, a second `EOT`, answered `ACK`).
    /// A wrong checksum is answered `NAK` and gives `Interrupted`, so that
    /// the packet can be read again. A wrong packet number cancels the
    /// transfer with `CAN` and gives `InvalidData`; any other header gives
    /// `InvalidData`, and a `CAN` header `ConnectionAborted`.
    #[verifier::rlimit(80)]
    #[verifier::spinoff_prover]
    pub fn read_packet(&mut self, buf: &mut Vec<u8>) -> (r: Result<usize, ErrorKind>)
        ensures
            final(buf)@.len() == old(buf)@.len(),
            old(buf)@.len() != 128 ==> r == Err::<usize, ErrorKind>(ErrorKind::UnexpectedEof)
                && *final(self) == *old(self) && final(buf)@ == old(buf)@,
            r matches Ok(n) ==> final(self).spec_started() && ((n == 128 && final(self).received()
                == old(self).received() + frame(old(self).spec_packet(), final(buf)@) && final(self).sent() == old(self).sent() + start_nak(old(self).spec_started()) + seq![ACK]
                && final(self).spec_packet() == next_packet(old(self).spec_packet())) || (n == 0
                && final(self).received() == old(self).received() + seq![EOT, EOT] && final(self).sent() == old(self).sent() + start_nak(old(self).spec_started()) + seq![NAK, ACK]
                && final(self).spec_packet() == old(self).spec_packet())),
            r == Err::<usize, ErrorKind>(ErrorKind::Interrupted) ==> final(self).spec_started()
                && final(self).sent() == old(self).sent() + start_nak(old(self).spec_started())
                + seq![NAK] && final(self).spec_packet() == old(self).spec_packet() && exists|c: u8|
                c != checksum(final(buf)@) && final(self).received() == old(self).received()
                    + seq![SOH, old(self).spec_packet(), (255 - old(self).spec_packet()) as u8]
                    + final(buf)@ + seq![c],
            r is Err ==> final(self).spec_packet() == old(self).spec_packet(),
            old(buf)@.len() == 128 && final(self).received() == old(self).received() + frame(
                old(self).spec_packet(),
                final(buf)@,
            ) && final(self).sent() == old(self).sent() + start_nak(old(self).spec_started()) + seq![ACK]
                ==> r == Ok::<usize, ErrorKind>(128),
            old(buf)@.len() == 128 && final(self).received() == old(self).received() + seq![EOT, EOT]
                && final(self).sent() == old(self).sent() + start_nak(old(self).spec_started()) + seq![
                NAK,
                ACK,
            ] ==> r == Ok::<usize, ErrorKind>(0),
            old(buf)@.len() == 128 && final(self).received().len() == old(self).received().len() + 132
                && final(self).received() == old(self).received() + seq![
                SOH,
                old(self).spec_packet(),
                (255 - old(self).spec_packet()) as u8,
            ] + final(buf)@ + seq![final(self).received().last()] && final(self).received().last()
                != checksum(final(buf)@) && final(self).sent() == old(self).sent() + start_nak(
                old(self).spec_started(),
            ) + seq![NAK] ==> r == Err::<usize, ErrorKind>(ErrorKind::Interrupted),
            old(buf)@.len() == 128 && (final(self).received() == old(self).received() + seq![
                SOH,
                final(self).received().last(),
            ] && final(self).received().last() != old(self).spec_packet() || final(self).received()
                == old(self).received() + seq![SOH, old(self).spec_packet(), final(self).received().last()]
                && final(self).received().last() != (255 - old(self).spec_packet()) as u8) && final(self).sent() == old(self).sent() + start_nak(old(self).spec_started()) + seq![CAN] ==> r
                == Err::<usize, ErrorKind>(reject_kind(final(self).received().last())),
            old(buf)@.len() == 128 && final(self).received() == old(self).received() + seq![
                final(self).received().last(),
            ] && final(self).received().last() != SOH && final(self).received().last() != EOT ==> r
                == Err::<usize, ErrorKind>(reject_kind(final(self).received().last())),
            final(self).received().len() >= old(self).received().len(),
            forall|j: int|
                0 <= j < old(self).received().len() ==> #[trigger] final(self).received()[j] == old(self).received()[j],
            final(self).sent().len() >= old(self).sent().len(),
            forall|j: int|
                0 <= j < old(self).sent().len() ==> #[trigger] final(self).sent()[j] == old(self).sent()[j],
            final(self).sent().len() <= old(self).sent().len() + start_nak(old(self).spec_started()).len() + 2,
    {
        if buf.len() != PACKET_SIZE {
            return Err(ErrorKind::UnexpectedEof);
        }
        let ghost r0 = self.received();
        let ghost s0 = self.sent();
        let ghost was_started = self.started;
        if !self.started {
            self.write_byte(NAK)?;
            self.started = true;
        }
        assert(self.sent() == s0 + start_nak(was_started));
        assert(self.received() == r0);
        let header = self.read_byte(true)?;
        if header == SOH {
            let n = self.packet;
            let ghost r_soh = self.received();
            assert(r_soh == r0.push(SOH));
            match self.expect_byte_or_cancel(n) {
                Ok(_) => {},
                Err(e) => {
                    proof {
                        let rr = self.received();
                        assert(rr == r_soh || rr == r_soh.push(rr.last()));
                        assert(rr.len() != (r0 + seq![SOH, n, rr.last()]).len());
                        assert(rr.len() != (r0 + frame(n, buf@)).len());
                        assert((r0 + seq![EOT, EOT])[r0.len() as int] == EOT);
                        assert(rr[r0.len() as int] == SOH);
                        if rr.len() == r0.len() + 2 {
                            assert(rr =~= r0 + seq![SOH, rr.last()]);
                        }
                    }
                    return Err(e);
                },
            }
            let ghost r_mid = self.received();
            match self.expect_byte_or_cancel(255 - n) {
                Ok(_) => {},
                Err(e) => {
                    proof {
                        let rr = self.received();
                        assert(rr == r_mid || rr == r_mid.push(rr.last()));
                        if rr.len() == r0.len() + 2 {
                            assert(rr =~= r0 + seq![SOH, n]);
                        }
                        assert(rr.len() != (r0 + frame(n, buf@)).len());
                        assert((r0 + seq![EOT, EOT])[r0.len() as int] == EOT);
                        assert(rr[r0.len() as int] == SOH);
                        if rr.len() == r0.len() + 3 {
                            assert(rr =~= r0 + seq![SOH, n, rr.last()]);
                        }
                    }
                    return Err(e);
                },
            }
            let ghost r1 = self.received();
            assert(r1 == r0 + seq![SOH, n, (255 - n) as u8]);
            let mut i: usize = 0;
            while i < PACKET_SIZE
                invariant
                    i <= 128,
                    buf@.len() == 128,
                    old(buf)@.len() == 128,
                    self.packet == n,
                    n == old(self).spec_packet(),
                    self.started,
                    self.sent() == s0 + start_nak(was_started),
                    r1 == r0 + seq![SOH, n, (255 - n) as u8],
                    r0 == old(self).received(),
                    s0 == old(self).sent(),
                    was_started == old(self).spec_started(),
                    self.received() == r1 + buf@.take(i as int),
                decreases 128 - i,
            {
                let b = match self.read_byte(false) {
                    Ok(b) => b,
                    Err(e) => {
                        proof {
                            let rr = self.received();
                            assert(rr.len() == r0.len() + 3 + i);
                            assert(rr[r0.len() as int] == SOH);
                            assert(rr.len() != (r0 + frame(n, buf@)).len());
                            assert((r0 + seq![EOT, EOT])[r0.len() as int] == EOT);
                            assert(rr.len() != (r0 + seq![SOH, rr.last()]).len());
                            if i == 0 {
                                assert(rr =~= r0 + seq![SOH, n, (255 - n) as u8]);
                            } else {
                                assert(rr.len() != (r0 + seq![SOH, n, rr.last()]).len());
                            }
                        }
                        return Err(e);
                    },
                };
                buf.set(i, b);
                i = i + 1;
                assert(self.received() =~= r1 + buf@.take(i as int));
            }
            assert(buf@.take(128) =~= buf@);
            let sum = checksum_of(buf);
            let c = self.read_byte(false)?;
            if sum != c {
                self.write_byte(NAK)?;
                assert(self.received() =~= r0 + seq![SOH, n, (255 - n) as u8] + buf@ + seq![c]);
                return Err(ErrorKind::Interrupted);
            }
            assert(self.received() =~= r0 + frame(n, buf@));
            match self.write_byte(ACK) {
                Ok(()) => {},
                Err(e) => {
                    assert(self.received().len() == r0.len() + 132);
                    assert(self.sent().len() < (s0 + start_nak(was_started) + seq![ACK]).len());
                    return Err(e);
                },
            }
            self.packet = if self.packet == 255 { 0 } else { self.packet + 1 };
            Ok(128)
        } else if header == EOT {
            self.write_byte(NAK)?;
            self.expect_byte(EOT)?;
            match self.write_byte(ACK) {
                Ok(()) => {},
                Err(e) => {
                    assert(self.sent().len() < (s0 + start_nak(was_started) + seq![NAK, ACK]).len());
                    assert(self.received().len() == r0.len() + 2);
                    assert(self.received()[r0.len() as int] == EOT);
                    assert((r0 + seq![SOH, self.received().last()])[r0.len() as int] == SOH);
                    assert(self.received().len() != (r0 + frame(old(self).spec_packet(), buf@)).len());
                    return Err(e);
                },
            }
            assert(self.received() =~= r0 + seq![EOT, EOT]);
            assert(self.sent() =~= s0 + start_nak(was_started) + seq![NAK, ACK]);
            Ok(0)
        } else {
            Err(ErrorKind::InvalidData)
        }
    }

    /// Sends one packet: `buf` holds 128 bytes, or none to end the transfer
    /// (any other length gives `UnexpectedEof`). The first call waits for the
    /// receiver's `NAK`. A packet goes out as `SOH, n, 255 - n`, the payload
    /// and its checksum; an `ACK` accepts it, a `NAK` asks for it again
    /// (`Interrupted`), anything else is `InvalidData`. The end is `EOT`,
    /// answered `NAK`, then `EOT`, answered `ACK`.
    pub fn write_packet(&mut self, buf: &Vec<u8>) -> (r: Result<usize, ErrorKind>)
        ensures
            buf@.len() != 0 && buf@.len() != 128 ==> r == Err::<usize, ErrorKind>(
                ErrorKind::UnexpectedEof,
            ) && *final(self) == *old(self),
            r matches Ok(n) ==> n == buf@.len() && final(self).spec_started() && (n == 128 ==> final(self).sent() == old(self).sent() + frame(old(self).spec_packet(), buf@) && final(self).received() == old(self).received() + start_nak(old(self).spec_started()) + seq![ACK]
                && final(self).spec_packet() == next_packet(old(self).spec_packet())) && (n == 0
                ==> final(self).sent() == old(self).sent() + seq![EOT, EOT] && final(self).received() == old(self).received() + start_nak(old(self).spec_started()) + seq![
                NAK,
                ACK,
            ] && final(self).spec_packet() == old(self).spec_packet()),
            r == Err::<usize, ErrorKind>(ErrorKind::Interrupted) ==> buf@.len() == 128 && final(self).spec_started() && final(self).sent() == old(self).sent() + frame(
                old(self).spec_packet(),
                buf@,
            ) && final(self).received() == old(self).received() + start_nak(
                old(self).spec_started(),
            ) + seq![NAK] && final(self).spec_packet() == old(self).spec_packet(),
            r is Err ==> final(self).spec_packet() == old(self).spec_packet(),
            buf@.len() == 128 && final(self).sent() == old(self).sent() + frame(
                old(self).spec_packet(),
                buf@,
            ) && final(self).received().len() == old(self).received().len() + start_nak(
                old(self).spec_started(),
            ).len() + 1 ==> r == reply_result(final(self).received().last()),
            buf@.len() == 0 && final(self).sent() == old(self).sent() + seq![EOT, EOT] && final(self).received() == old(self).received() + start_nak(old(self).spec_started()) + seq![NAK, ACK]
                ==> r == Ok::<usize, ErrorKind>(0),
            final(self).received().len() >= old(self).received().len(),
            forall|j: int|
                0 <= j < old(self).received().len() ==> #[trigger] final(self).received()[j] == old(self).received()[j],
            final(self).received().len() <= old(self).received().len() + start_nak(
                old(self).spec_started(),
            ).len() + (if buf@.len() == 0 {
                2int
            } else {
                1int
            }),
    {
        if buf.len() != PACKET_SIZE && buf.len() != 0 {
            return Err(ErrorKind::UnexpectedEof);
        }
        let ghost r0 = self.received();
        let ghost s0 = self.sent();
        let ghost was_started = self.started;
        if !self.started {
            match self.expect_byte(NAK) {
                Ok(_) => {},
                Err(e) => {
                    assert(self.sent() == s0);
                    assert(self.sent().len() < (s0 + frame(old(self).spec_packet(), buf@)).len());
                    assert(self.sent().len() < (s0 + seq![EOT, EOT]).len());
                    return Err(e);
                },
            }
            self.started = true;
        }
        assert(self.received() == r0 + start_nak(was_started));
        assert(self.sent() == s0);
        if buf.len() == 0 {
            self.write_byte(EOT)?;
            self.expect_byte(NAK)?;
            self.write_byte(EOT)?;
            self.expect_byte(ACK)?;
            assert(self.sent() =~= s0 + seq![EOT, EOT]);
            assert(self.received() =~= r0 + start_nak(was_started) + seq![NAK, ACK]);
            Ok(0)
        } else {
            let n = self.packet;
            let mut out: Vec<u8> = Vec::new();
            out.push(SOH);
            out.push(n);
            out.push(255 - n);
            let mut i: usize = 0;
            while i < PACKET_SIZE
                invariant
                    i <= 128,
                    buf@.len() == 128,
                    out@ == seq![SOH, n, (255 - n) as u8] + buf@.take(i as int),
                decreases 128 - i,
            {
                out.push(buf[i]);
                i = i + 1;
                assert(out@ =~= seq![SOH, n, (255 - n) as u8] + buf@.take(i as int));
            }
            assert(buf@.take(128) =~= buf@);
            let sum = checksum_of(buf);
            out.push(sum);
            assert(out@ =~= frame(n, buf@));
            match self.write_all(&out) {
                Ok(()) => {},
                Err(e) => {
                    assert(self.received() == r0 + start_nak(was_started));
                    return Err(e);
                },
            }
            assert(self.sent() =~= s0 + frame(n, buf@));
            let reply = self.read_byte(true)?;
            if reply == ACK {
                self.packet = if self.packet == 255 { 0 } else { self.packet + 1 };
                Ok(128)
            } else if reply == NAK {
                Err(ErrorKind::Interrupted)
            } else {
                Err(ErrorKind::InvalidData)
            }
        }
    }

    /// Flushes the channel.
    pub fn flush(&mut self) -> (r: Result<(), ErrorKind>)
        ensures
            final(self).spec_packet() == old(self).spec_packet(),
            final(self).spec_started() == old(self).spec_started(),
            final(self).received() == old(self).received(),
            final(self).sent() == old(self).sent(),
    {
        self.inner.flush()
    }
}

/// The replies a sender has read after `i` accepted packets and no resend:
/// the starting `NAK` once the transfer has started, then an `ACK` each.
pub open spec fn replies_so_far(started: bool, i: nat) -> Seq<u8> {
    (if started {
        seq![NAK]
    } else {
        seq![]
    }) + acks(i)
}

proof fn lemma_padded(d: Seq<u8>)
    ensures
        padded(d).len() == 128 * packet_count(d.len()),
        forall|t: int| 0 <= t < d.len() ==> #[trigger] padded(d)[t] == d[t],
        forall|t: int| d.len() <= t < padded(d).len() ==> #[trigger] padded(d)[t] == 0,
        128 * packet_count(d.len()) < d.len() + 128,
{
    assert(128 * ((d.len() + 127) / 128) >= d.len()) by (nonlinear_arith);
    assert(128 * ((d.len() + 127) / 128) < d.len() + 128) by (nonlinear_arith);
}

proof fn lemma_next_number(i: nat)
    ensures
        next_packet(((i + 1) % 256) as u8) == ((i + 2) % 256) as u8,
{
}

/// A receiver read exactly the sender's wire for `d` and answered every
/// packet at once: `r` and `s` are its read and written logs, which began as
/// `r0` and `s0`.
pub open spec fn clean_rx(r0: Seq<u8>, s0: Seq<u8>, r: Seq<u8>, s: Seq<u8>, d: Seq<u8>) -> bool {
    r == r0 + tx_wire(d) && s == s0 + clean_replies(packet_count(d.len()))
}

proof fn lemma_tx_wire_len(d: Seq<u8>)
    ensures
        tx_wire(d).len() == 132 * packet_count(d.len()) + 2,
{
    lemma_padded(d);
    lemma_frames_len(padded(d), packet_count(d.len()) as int);
}

/// A receiver that asked for a packet again (the `NAK` at `1 + bad` of its
/// replies) after reading `bad` whole packets did not answer a wire cleanly.
proof fn lemma_retried_not_clean(r0: Seq<u8>, s0: Seq<u8>, r: Seq<u8>, s: Seq<u8>, sd: Seq<u8>, bad: nat, d: Seq<u8>)
    requires
        s.len() >= s0.len() + sd.len(),
        forall|j: int| 0 <= j < s0.len() + sd.len() ==> #[trigger] s[j] == (s0 + sd)[j],
        sd.len() > 1 + bad,
        sd[1 + bad as int] == NAK,
        r.len() >= r0.len() + 132 * bad + 132,
    ensures
        !clean_rx(r0, s0, r, s, d),
{
    let k = packet_count(d.len());
    lemma_tx_wire_len(d);
    if clean_rx(r0, s0, r, s, d) {
        if bad < k {
            let at = s0.len() + 1 + bad as int;
            assert(s[at] == (s0 + sd)[at]);
            assert((s0 + clean_replies(k))[at] == ACK);
        } else {
            assert(132 * bad + 132 > 132 * k + 2) by (nonlinear_arith)
                requires
                    bad >= k,
            ;
        }
    }
}

impl<T: Channel> Xmodem<T> {
    /// Sends `data` over `to`, padded with zeros to whole packets, and ends
    /// the transfer. A packet the receiver asks for again is resent, up to
    /// ten times in all, then the transfer fails with `BrokenPipe`; any other
    /// error ends it at once. Returns the number of bytes of `data` sent, and
    /// the channel. When every reply was the expected one, the wire carries
    /// exactly the packets of `data` and the double `EOT`.
    pub fn transmit(data: &Vec<u8>, to: T) -> (r: (Result<usize, ErrorKind>, T))
        ensures
            r.0 matches Ok(n) ==> n == data@.len() && (r.1.received() == to.received()
                + clean_replies(packet_count(data@.len())) ==> r.1.sent() == to.sent() + tx_wire(
                data@,
            )),
            r.0 != Err::<usize, ErrorKind>(ErrorKind::Interrupted),
            r.1.received() == to.received() + clean_replies(packet_count(data@.len())) && r.1.sent()
                == to.sent() + tx_wire(data@) ==> r.0 == Ok::<usize, ErrorKind>(data@.len() as usize),
    {
        let ghost r0 = to.received();
        let ghost s0 = to.sent();
        let ghost pd = padded(data@);
        let ghost k = packet_count(data@.len());
        proof {
            lemma_padded(data@);
        }
        let mut x = Xmodem::new(to);
        let len = data.len();
        let mut pos: usize = 0;
        let mut i: usize = 0;
        let ghost mut retries: nat = 0;
        let ghost mut rd: Seq<u8> = seq![];
        let ghost mut bad: int = 0;
        while pos < len
            invariant
                r0 == to.received(),
                s0 == to.sent(),
                retries > 0 ==> 1 <= bad <= k && bad < rd.len() && rd[bad] == NAK,
                len == data@.len(),
                pd == padded(data@),
                k == packet_count(len as nat),
                pd.len() == 128 * k,
                forall|t: int| 0 <= t < len ==> #[trigger] pd[t] == data@[t],
                forall|t: int| len <= t < pd.len() ==> #[trigger] pd[t] == 0,
                pos <= len,
                128 * i < len + 128,
                pos == (if 128 * i < len { 128 * i } else { len as int }),
                x.packet == ((i + 1) % 256) as u8,
                i > 0 ==> x.started,
                x.received() == r0 + rd,
                rd.len() == (if x.started { 1nat } else { 0nat }) + i + retries,
                retries == 0 ==> rd == replies_so_far(x.started, i as nat) && x.sent() == s0 + frames(pd, i as int),
            decreases len - pos,
        {
            proof {
                assert(128 * i < 128 * k) by (nonlinear_arith)
                    requires
                        128 * i < len,
                        len <= 128 * k,
                ;
                assert(128 * i + 128 <= 128 * k) by (nonlinear_arith)
                    requires
                        128 * i < 128 * k,
                ;
            }
            let mut chunk: Vec<u8> = Vec::new();
            let mut j: usize = 0;
            while j < PACKET_SIZE
                invariant
                    j <= 128,
                    pos == 128 * i,
                    pos < len,
                    len == data@.len(),
                    128 * i + 128 <= pd.len(),
                    forall|t: int| 0 <= t < len ==> #[trigger] pd[t] == data@[t],
                    forall|t: int| len <= t < pd.len() ==> #[trigger] pd[t] == 0,
                    chunk@ == pd.subrange(128 * i, 128 * i + j),
                decreases 128 - j,
            {
                let b = if j < len - pos { data[pos + j] } else { 0 };
                chunk.push(b);
                j = j + 1;
                assert(chunk@ =~= pd.subrange(128 * i, 128 * i + j));
            }
            let mut tries: usize = 0;
            loop
                invariant_except_break
                    tries <= MAX_TRIES,
                    tries <= retries,
                    retries > 0 ==> 1 <= bad <= k && bad < rd.len() && rd[bad] == NAK,
                    x.packet == ((i + 1) % 256) as u8,
                    i > 0 ==> x.started,
                    x.received() == r0 + rd,
                    rd.len() == (if x.started { 1nat } else { 0nat }) + i + retries,
                    retries == 0 ==> rd == replies_so_far(x.started, i as nat) && x.sent() == s0 + frames(pd, i as int),
                invariant
                    chunk@ == pd.subrange(128 * i, 128 * i + 128),
                    chunk@.len() == 128,
                    r0 == to.received(),
                    s0 == to.sent(),
                    128 * i < 128 * k,
                    k == packet_count(data@.len()),
                ensures
                    retries > 0 ==> 1 <= bad <= k && bad < rd.len() && rd[bad] == NAK,
                    x.packet == ((i + 2) % 256) as u8,
                    x.started,
                    x.received() == r0 + rd,
                    rd.len() == 1 + (i + 1) + retries,
                    retries == 0 ==> rd == replies_so_far(true, (i + 1) as nat) && x.sent() == s0 + frames(pd, i + 1),
                decreases MAX_TRIES - tries,
            {
                if tries == MAX_TRIES {
                    proof {
                        assert((r0 + clean_replies(k))[r0.len() + bad] == ACK);
                        assert(x.received()[r0.len() + bad] == NAK);
                        assert(x.received() != r0 + clean_replies(k));
                    }
                    return (Err(ErrorKind::BrokenPipe), x.into_inner());
                }
                let ghost was_started = x.started;
                let ghost r_before = x.received();
                let res = x.write_packet(&chunk);
                match res {
                    Ok(_) => {
                        proof {
                            lemma_next_number(i as nat);
                            rd = rd + start_nak(was_started) + seq![ACK];
                            if retries == 0 {
                                assert(rd =~= replies_so_far(true, (i + 1) as nat));
                                assert(x.sent() == s0 + frames(pd, i + 1)) by {
                                    assert(frames(pd, i + 1) == frames(pd, i as int) + frame(
                                        ((i + 1) % 256) as u8,
                                        pd.subrange(128 * i, 128 * i + 128),
                                    ));
                                    assert(x.sent() =~= s0 + frames(pd, i as int) + frame(
                                        ((i + 1) % 256) as u8,
                                        chunk@,
                                    ));
                                }
                            }
                        }
                        break;
                    },
                    Err(ErrorKind::Interrupted) => {
                        proof {
                            if retries == 0 {
                                bad = (rd.len() + start_nak(was_started).len()) as int;
                                assert(128 * i < 128 * k ==> i < k) by (nonlinear_arith);
                            }
                            rd = rd + start_nak(was_started) + seq![NAK];
                            retries = retries + 1;
                        }
                    },
                    Err(e) => {
                        proof {
                            let rr = x.received();
                            if retries > 0 {
                                assert(rr[r0.len() + bad] == (r0 + rd)[r0.len() + bad]);
                                assert((r0 + clean_replies(k))[r0.len() + bad] == ACK);
                            } else {
                                assert(128 * i < 128 * k ==> i < k) by (nonlinear_arith);
                                assert(rr.len() < (r0 + clean_replies(k)).len());
                            }
                            assert(rr != r0 + clean_replies(k));
                        }
                        return (Err(e), x.into_inner());
                    },
                }
                tries = tries + 1;
            }
            i = i + 1;
            pos = if len - pos < 128 { len } else { pos + 128 };
        }
        proof {
            assert(i == k) by (nonlinear_arith)
                requires
                    128 * i >= len,
                    128 * i < len + 128,
                    k == (len + 127) / 128,
            ;
        }
        let ghost was_started = x.started;
        let ghost r_before = x.received();
        let ghost s_before = x.sent();
        let empty: Vec<u8> = Vec::new();
        match x.write_packet(&empty) {
            Ok(_) => {
                proof {
                    let rd_final = rd + start_nak(was_started) + seq![NAK, ACK];
                    assert(x.received() =~= r0 + rd_final);
                    if x.received() == r0 + clean_replies(k) {
                        assert(rd_final =~= x.received().skip(r0.len() as int));
                        assert(clean_replies(k) =~= x.received().skip(r0.len() as int));
                        assert(retries == 0);
                        assert(rd_final =~= clean_replies(k));
                    }
                }
                (Ok(pos), x.into_inner())
            },
            Err(e) => {
                proof {
                    let rr = x.received();
                    let ss = x.sent();
                    if retries > 0 {
                        assert(rr[r0.len() + bad] == (r0 + rd)[r0.len() + bad]);
                        assert((r0 + clean_replies(k))[r0.len() + bad] == ACK);
                    } else if rr == r0 + clean_replies(k) && ss == s0 + tx_wire(data@) {
                        assert(rr =~= r_before + start_nak(was_started) + seq![NAK, ACK]);
                        assert(ss =~= s_before + seq![EOT, EOT]);
                        assert(false);
                    }
                }
                (Err(e), x.into_inner())
            },
        }
    }

    /// Receives a transfer from `from` and appends the payload of every
    /// packet to `into`. A packet with a wrong checksum is asked for again,
    /// up to ten times in all, then the transfer fails with `BrokenPipe`;
    /// any other error ends it at once. Returns the number of bytes received
    /// (a multiple of 128), and the channel. When every reply was the
    /// expected one, what was read is exactly the packets of that payload and
    /// the double `EOT`.
    pub fn receive(from: T, into: &mut Vec<u8>) -> (r: (Result<usize, ErrorKind>, T))
        ensures
            r.0 matches Ok(n) ==> n % 128 == 0,
            r.0 matches Ok(n) ==> final(into)@.len() == old(into)@.len() + n,
            r.0 matches Ok(n) ==> final(into)@.take(old(into)@.len() as int) == old(into)@,
            r.0 matches Ok(n) ==> (r.1.sent() == from.sent() + clean_replies((n / 128) as nat)
                ==> r.1.received() == from.received() + frames(
                final(into)@.skip(old(into)@.len() as int),
                (n / 128) as int,
            ) + seq![EOT, EOT]),
            r.0 != Err::<usize, ErrorKind>(ErrorKind::Interrupted),
            forall|d: Seq<u8>|
                #[trigger] clean_rx(from.received(), from.sent(), r.1.received(), r.1.sent(), d) ==> r.0
                    == Ok::<usize, ErrorKind>((128 * packet_count(d.len())) as usize) && final(into)@ == old(
                    into,
                )@ + padded(d),
    {
        let ghost r0 = from.received();
        let ghost s0 = from.sent();
        let ghost base = into@;
        let mut x = Xmodem::new(from);
        let mut buf: Vec<u8> = vec![0u8; PACKET_SIZE];
        let mut received: usize = 0;
        let ghost mut i: nat = 0;
        let ghost mut retries: nat = 0;
        let ghost mut sd: Seq<u8> = seq![];
        let ghost mut payload: Seq<u8> = seq![];
        let ghost mut bad: nat = 0;
        loop
            invariant
                x.received().len() >= r0.len() + 132 * i,
                retries > 0 ==> bad <= i && sd.len() > 1 + bad && sd[1 + bad as int] == NAK
                    && x.received().len() >= r0.len() + 132 * bad + 132,
                buf@.len() == 128,
                received == 128 * i,
                base == old(into)@,
                r0 == from.received(),
                s0 == from.sent(),
                into@ == base + payload,
                payload.len() == received,
                x.packet == ((i + 1) % 256) as u8,
                i > 0 ==> x.started,
                x.sent() == s0 + sd,
                sd.len() == (if x.started { 1nat } else { 0nat }) + i + retries,
                retries == 0 ==> sd == replies_so_far(x.started, i) && x.received() == r0 + frames(payload, i as int),
            decreases usize::MAX - received,
        {
            let mut tries: usize = 0;
            let mut got: usize = 0;
            loop
                invariant_except_break
                    tries <= MAX_TRIES,
                    tries <= retries,
                    x.received().len() >= r0.len() + 132 * i,
                    retries > 0 ==> bad <= i && sd.len() > 1 + bad && sd[1 + bad as int] == NAK
                        && x.received().len() >= r0.len() + 132 * bad + 132,
                    x.packet == ((i + 1) % 256) as u8,
                    i > 0 ==> x.started,
                    x.sent() == s0 + sd,
                    sd.len() == (if x.started { 1nat } else { 0nat }) + i + retries,
                    retries == 0 ==> sd == replies_so_far(x.started, i) && x.received() == r0 + frames(payload, i as int),
                invariant
                    buf@.len() == 128,
                    r0 == from.received(),
                    s0 == from.sent(),
                    payload.len() == 128 * i,
                ensures
                    retries > 0 ==> bad <= i && sd.len() > 1 + bad && sd[1 + bad as int] == NAK
                        && x.received().len() >= r0.len() + 132 * bad + 132,
                    got == 128 ==> x.received().len() >= r0.len() + 132 * (i + 1),
                    got == 0 ==> x.received().len() >= r0.len() + 132 * i,
                    x.started,
                    got == 0 || got == 128,
                    got == 128 ==> x.packet == ((i + 2) % 256) as u8 && x.sent() == s0 + sd && sd.len() == 1 + (i + 1) + retries
                        && (retries == 0 ==> sd == replies_so_far(true, i + 1) && x.received() == r0 + frames(payload, i as int) + frame(((i + 1) % 256) as u8, buf@)),
                    got == 0 ==> x.sent() == s0 + sd && sd.len() == 1 + i + retries + 2
                        && (retries == 0 ==> sd == replies_so_far(true, i) + seq![NAK, ACK] && x.received() == r0 + frames(payload, i as int) + seq![EOT, EOT]),
                decreases MAX_TRIES - tries,
            {
                if tries == MAX_TRIES {
                    proof {
                        assert forall|d: Seq<u8>| !clean_rx(r0, s0, x.received(), x.sent(), d) by {
                            lemma_retried_not_clean(r0, s0, x.received(), x.sent(), sd, bad, d);
                        }
                    }
                    return (Err(ErrorKind::BrokenPipe), x.into_inner());
                }
                let ghost was_started = x.started;
                let ghost r_b = x.received();
                let ghost s_b = x.sent();
                match x.read_packet(&mut buf) {
                    Ok(n) => {
                        proof {
                            if n == 128 {
                                lemma_next_number(i);
                                sd = sd + start_nak(was_started) + seq![ACK];
                                if retries == 0 {
                                    assert(sd =~= replies_so_far(true, i + 1));
                                }
                            } else {
                                sd = sd + start_nak(was_started) + seq![NAK, ACK];
                                if retries == 0 {
                                    assert(sd =~= replies_so_far(true, i) + seq![NAK, ACK]);
                                }
                            }
                        }
                        got = n;
                        break;
                    },
                    Err(ErrorKind::Interrupted) => {
                        proof {
                            if retries == 0 {
                                bad = i;
                                lemma_frames_len(payload, i as int);
                            }
                            sd = sd + start_nak(was_started) + seq![NAK];
                            retries = retries + 1;
                        }
                    },
                    Err(e) => {
                        proof {
                            let rr = x.received();
                            let ss = x.sent();
                            assert forall|d: Seq<u8>| !clean_rx(r0, s0, rr, ss, d) by {
                                if retries > 0 {
                                    lemma_retried_not_clean(r0, s0, rr, ss, sd, bad, d);
                                } else if clean_rx(r0, s0, rr, ss, d) {
                                    let k = packet_count(d.len());
                                    lemma_tx_wire_len(d);
                                    lemma_frames_len(payload, i as int);
                                    if i > k {
                                        assert(132 * i > 132 * k + 2) by (nonlinear_arith)
                                            requires
                                                i > k,
                                        ;
                                    } else if i < k {
                                        assert(ss.len() < (s0 + clean_replies(k)).len());
                                    } else {
                                        assert(rr =~= r_b + seq![EOT, EOT]);
                                        assert(clean_replies(k) =~= replies_so_far(was_started, i) + start_nak(
                                            was_started,
                                        ) + seq![NAK, ACK]);
                                        assert(ss =~= s_b + start_nak(was_started) + seq![NAK, ACK]);
                                    }
                                }
                            }
                        }
                        return (Err(e), x.into_inner());
                    },
                }
                tries = tries + 1;
            }
            if got == 0 {
                proof {
                    assert(into@.skip(base.len() as int) =~= payload);
                    assert(into@.take(base.len() as int) =~= base);
                    if x.sent() == s0 + clean_replies(i) {
                        assert(sd =~= x.sent().skip(s0.len() as int));
                        assert(clean_replies(i) =~= x.sent().skip(s0.len() as int));
                        assert(retries == 0);
                    }
                    assert(received % 128 == 0 && received / 128 == i) by (nonlinear_arith)
                        requires
                            received == 128 * i,
                    ;
                    if x.sent() == s0 + clean_replies(i) {
                        assert(x.received() == r0 + frames(into@.skip(base.len() as int), i as int) + seq![EOT, EOT]);
                    }
                    assert(((received / 128) as nat) == i);
                    assert(x.sent() == s0 + clean_replies((received / 128) as nat) ==> x.received() == r0
                        + frames(into@.skip(base.len() as int), (received / 128) as int) + seq![EOT, EOT]);
                    assert forall|d: Seq<u8>| #[trigger] clean_rx(r0, s0, x.received(), x.sent(), d) implies received
                        == 128 * packet_count(d.len()) && into@ == base + padded(d) by {
                        let k = packet_count(d.len());
                        if retries > 0 {
                            lemma_retried_not_clean(r0, s0, x.received(), x.sent(), sd, bad, d);
                        }
                        assert(x.sent().len() == s0.len() + k + 3);
                        assert(i == k);
                        assert(x.sent() == s0 + clean_replies(i));
                        assert(x.received() == r0 + frames(payload, i as int) + seq![EOT, EOT]);
                        assert(frames(payload, i as int) + seq![EOT, EOT] =~= x.received().skip(r0.len() as int));
                        assert(tx_wire(d) =~= x.received().skip(r0.len() as int));
                        lemma_round_trip(d, payload, i as int);
                    }
                }
                return (Ok(received), x.into_inner());
            }
            if received > usize::MAX - PACKET_SIZE {
                proof {
                    assert forall|d: Seq<u8>| !clean_rx(r0, s0, x.received(), x.sent(), d) by {
                        if retries > 0 {
                            lemma_retried_not_clean(r0, s0, x.received(), x.sent(), sd, bad, d);
                        } else if clean_rx(r0, s0, x.received(), x.sent(), d) {
                            let k = packet_count(d.len());
                            lemma_tx_wire_len(d);
                            assert(i + 1 == k + 2);
                            assert(132 * (i + 1) > 132 * k + 2) by (nonlinear_arith)
                                requires
                                    i + 1 == k + 2,
                            ;
                        }
                    }
                }
                return (Err(ErrorKind::Other), x.into_inner());
            }
            let ghost old_payload = payload;
            let mut j: usize = 0;
            while j < PACKET_SIZE
                invariant
                    j <= 128,
                    buf@.len() == 128,
                    into@ == base + old_payload + buf@.take(j as int),
                decreases 128 - j,
            {
                into.push(buf[j]);
                j = j + 1;
                assert(into@ =~= base + old_payload + buf@.take(j as int));
            }
            proof {
                payload = old_payload + buf@;
                assert(buf@.take(128) =~= buf@);
                assert(into@ =~= base + payload);
                if retries == 0 {
                    let ii = i as int;
                    assert(payload.take(128 * ii) =~= old_payload.take(128 * ii));
                    assert(old_payload.take(128 * ii) =~= old_payload);
                    lemma_frames_prefix(payload, old_payload, ii);
                    assert(payload.subrange(128 * ii, 128 * ii + 128) =~= buf@);
                    assert(frames(payload, ii + 1) == frames(payload, ii) + frame(((ii + 1) % 256) as u8, payload.subrange(128 * ii, 128 * (ii + 1))));
                }
                i = i + 1;
            }
            received = received + PACKET_SIZE;
        }
    }
}

} // verus!
