//! The packet buffer pool: a fixed set of fixed-size slots handed out as
//! exclusive handles, so that staging an outbound frame costs no per-packet
//! allocation at steady state. The slot state table is the single source of
//! truth for the lifecycle Empty -> Allocated -> (Empty | ReadyToTransmit).

use vstd::prelude::*;

use crate::Error;

verus! {

pub const PACKET_SIZE: usize = 1568;

#[derive(Clone, Copy, Debug, PartialEq, Eq, Structural)]
pub enum PacketStatus {
    /// The slot is free and its content undefined.
    Empty,
    /// The slot is held by exactly one outstanding handle.
    Allocated,
    /// Reserved for asynchronous receive-side staging; the current
    /// dispatch flow never enters it.
    WaitingForArp,
    /// The handle was released after being marked sent; the slot waits for
    /// the transport drain.
    ReadyToTransmit,
    /// Reserved for asynchronous receive-side staging; the current
    /// dispatch flow never enters it.
    ReadyToRead,
}

/// The first index at or after `i` whose slot is free.
pub open spec fn first_empty_from(s: Seq<PacketStatus>, i: int) -> Option<int>
    recommends
        0 <= i <= s.len(),
    decreases s.len() - i,
{
    if i < 0 || i >= s.len() {
        None
    } else if s[i] == PacketStatus::Empty {
        Some(i)
    } else {
        first_empty_from(s, i + 1)
    }
}

/// The first free slot, if any.
pub open spec fn first_empty(s: Seq<PacketStatus>) -> Option<int> {
    first_empty_from(s, 0)
}

/// The number of free slots.
pub open spec fn count_empty(s: Seq<PacketStatus>) -> int
    decreases s.len(),
{
    if s.len() == 0 {
        0
    } else {
        count_empty(s.drop_last()) + if s.last() == PacketStatus::Empty {
            1int
        } else {
            0int
        }
    }
}

/// Everything strictly before the index `first_empty_from` returns is
/// occupied; `None` means nothing from `i` on is free.
proof fn lemma_first_empty_from_props(s: Seq<PacketStatus>, i: int)
    requires
        0 <= i <= s.len(),
    ensures
        match first_empty_from(s, i) {
            Some(k) => i <= k < s.len() && s[k] == PacketStatus::Empty && forall|j: int|
                i <= j < k ==> s[j] != PacketStatus::Empty,
            None => forall|j: int| i <= j < s.len() ==> s[j] != PacketStatus::Empty,
        },
    decreases s.len() - i,
{
    if i < s.len() {
        lemma_first_empty_from_props(s, i + 1);
    }
}

/// An allocation returns `None` exactly on a pool with no free slot.
pub proof fn lemma_first_empty_none(s: Seq<PacketStatus>)
    ensures
        first_empty(s) is None <==> count_empty(s) == 0,
{
    lemma_first_empty_from_props(s, 0);
    match first_empty(s) {
        Some(k) => lemma_count_empty_positive(s, k),
        None => lemma_count_empty_all_occupied(s),
    }
}

proof fn lemma_count_empty_all_occupied(s: Seq<PacketStatus>)
    requires
        forall|j: int| 0 <= j < s.len() ==> s[j] != PacketStatus::Empty,
    ensures
        count_empty(s) == 0,
    decreases s.len(),
{
    if s.len() > 0 {
        lemma_count_empty_all_occupied(s.drop_last());
    }
}

proof fn lemma_count_empty_nonneg(s: Seq<PacketStatus>)
    ensures
        count_empty(s) >= 0,
    decreases s.len(),
{
    if s.len() > 0 {
        lemma_count_empty_nonneg(s.drop_last());
    }
}

proof fn lemma_count_empty_positive(s: Seq<PacketStatus>, k: int)
    requires
        0 <= k < s.len(),
        s[k] == PacketStatus::Empty,
    ensures
        count_empty(s) >= 1,
    decreases s.len(),
{
    lemma_count_empty_nonneg(s.drop_last());
    if k < s.len() - 1 {
        lemma_count_empty_positive(s.drop_last(), k);
    }
}

/// Allocating the free slot at `k` leaves one fewer free slot; releasing a
/// slot back to `Empty` adds one.
pub proof fn lemma_count_empty_update(s: Seq<PacketStatus>, k: int, st: PacketStatus)
    requires
        0 <= k < s.len(),
    ensures
        s[k] == PacketStatus::Empty && st != PacketStatus::Empty ==> count_empty(
            s.update(k, st),
        ) == count_empty(s) - 1,
        s[k] != PacketStatus::Empty && st == PacketStatus::Empty ==> count_empty(
            s.update(k, st),
        ) == count_empty(s) + 1,
        (s[k] == PacketStatus::Empty <==> st == PacketStatus::Empty) ==> count_empty(
            s.update(k, st),
        ) == count_empty(s),
    decreases s.len(),
{
    let t = s.update(k, st);
    if k == s.len() - 1 {
        assert(t.drop_last() =~= s.drop_last());
    } else {
        assert(t.drop_last() =~= s.drop_last().update(k, st));
        lemma_count_empty_update(s.drop_last(), k, st);
    }
}

/// The exclusive handle to one allocated slot: an index plus the slot's
/// buffer, which travels with the handle while it is out.
pub struct Packet {
    idx: usize,
    buf: Vec<u8>,
    used_bytes: usize,
    sent: bool,
}

impl Packet {
    /// The slot index this handle owns.
    pub closed spec fn idx(&self) -> int {
        self.idx as int
    }

    /// The bytes of the owned slot.
    pub closed spec fn data(&self) -> Seq<u8> {
        self.buf@
    }

    /// The high-water mark of bytes written.
    pub closed spec fn used(&self) -> int {
        self.used_bytes as int
    }

    /// Whether the handle was marked sent.
    pub closed spec fn is_sent(&self) -> bool {
        self.sent
    }

    /// The handle always carries a full slot and a used length within it.
    pub open spec fn wf(&self) -> bool {
        self.data().len() == PACKET_SIZE && 0 <= self.used() <= PACKET_SIZE
    }

    /// Wraps a slot taken out of the pool into a fresh handle.
    fn from_packet(idx: usize, buf: Vec<u8>, used_bytes: usize) -> (p: Packet)
        requires
            buf@.len() == PACKET_SIZE,
            used_bytes <= PACKET_SIZE,
        ensures
            p.wf(),
            p.idx() == idx,
            p.data() == buf@,
            p.used() == used_bytes,
            !p.is_sent(),
    {
        Packet { idx, buf, used_bytes, sent: false }
    }

    /// Every slot holds the same fixed capacity.
    pub fn capacity(&self) -> (r: usize)
        ensures
            r == PACKET_SIZE,
    {
        PACKET_SIZE
    }

    /// The index of the slot this handle owns; the transport drain hands
    /// it to `PacketPool::complete_transmit` after the release.
    pub fn slot_index(&self) -> (r: usize)
        ensures
            r == self.idx(),
    {
        self.idx
    }

    /// Copies `buf` into the owned region at `idx` and raises the
    /// used-length high-water mark; `OutOfRange` when the write would run
    /// past the slot capacity.
    pub fn write_data(&mut self, idx: usize, buf: &[u8]) -> (r: Result<(), Error>)
        requires
            old(self).wf(),
        ensures
            final(self).wf(),
            final(self).idx() == old(self).idx(),
            final(self).is_sent() == old(self).is_sent(),
            idx + buf@.len() > PACKET_SIZE ==> r == Err::<(), Error>(Error::OutOfRange)
                && *final(self) == *old(self),
            idx + buf@.len() <= PACKET_SIZE ==> {
                &&& r == Ok::<(), Error>(())
                &&& final(self).data().subrange(idx as int, idx + buf@.len()) == buf@
                &&& forall|j: int|
                    0 <= j < PACKET_SIZE && !(idx <= j < idx + buf@.len())
                        ==> final(self).data()[j] == old(self).data()[j]
                &&& final(self).used() == if idx + buf@.len() > old(self).used() {
                    idx + buf@.len()
                } else {
                    old(self).used()
                }
            },
    {
        let n = buf.len();
        if n > PACKET_SIZE || idx > PACKET_SIZE - n {
            return Err(Error::OutOfRange);
        }
        let mut k: usize = 0;
        while k < n
            invariant
                k <= n,
                n == buf@.len(),
                idx + n <= PACKET_SIZE,
                self.buf@.len() == PACKET_SIZE,
                self.idx == old(self).idx,
                self.sent == old(self).sent,
                self.used_bytes == old(self).used_bytes,
                forall|j: int| idx <= j < idx + k ==> self.buf@[j] == buf@[j - idx],
                forall|j: int|
                    0 <= j < PACKET_SIZE && !(idx <= j < idx + k)
                        ==> self.buf@[j] == old(self).buf@[j],
            decreases n - k,
        {
            self.buf[idx + k] = buf[k];
            k = k + 1;
        }
        if idx + n > self.used_bytes {
            self.used_bytes = idx + n;
        }
        proof {
            assert(self.buf@.subrange(idx as int, idx + n) =~= buf@);
        }
        Ok(())
    }

    /// Copies the slot's bytes into the front of `out`, as many as fit,
    /// and returns the meaningful length; `Truncated` when `out` is
    /// smaller than the full slot capacity.
    pub fn read_data(&self, out: &mut Vec<u8>) -> (r: Result<usize, Error>)
        requires
            self.wf(),
        ensures
            final(out)@.len() == old(out)@.len(),
            forall|j: int|
                0 <= j < old(out)@.len() && j < PACKET_SIZE ==> final(out)@[j] == self.data()[j],
            forall|j: int|
                PACKET_SIZE <= j < old(out)@.len() ==> final(out)@[j] == old(out)@[j],
            old(out)@.len() < PACKET_SIZE ==> r == Err::<usize, Error>(Error::Truncated),
            old(out)@.len() >= PACKET_SIZE ==> r == Ok::<usize, Error>(
                (self.used() as usize),
            ),
    {
        let n = out.len();
        let m = if n < PACKET_SIZE {
            n
        } else {
            PACKET_SIZE
        };
        let mut k: usize = 0;
        while k < m
            invariant
                k <= m,
                m <= PACKET_SIZE,
                m <= out@.len(),
                out@.len() == old(out)@.len(),
                self.buf@.len() == PACKET_SIZE,
                forall|j: int| 0 <= j < k ==> out@[j] == self.buf@[j],
                forall|j: int| k <= j < out@.len() ==> out@[j] == old(out)@[j],
            decreases m - k,
        {
            out[k] = self.buf[k];
            k = k + 1;
        }
        if n < PACKET_SIZE {
            Err(Error::Truncated)
        } else {
            Ok(self.used_bytes)
        }
    }

    /// Marks the handle sent, so that its release queues the slot for the
    /// transport drain instead of freeing it.
    pub fn mark_sent(&mut self)
        requires
            old(self).wf(),
        ensures
            final(self).wf(),
            final(self).is_sent(),
            final(self).idx() == old(self).idx(),
            final(self).data() == old(self).data(),
            final(self).used() == old(self).used(),
    {
        self.sent = true;
    }
}

/// The pool: one status per slot, and the buffers of the slots that are
/// not currently out with a handle. The whole table is meant to sit behind
/// one coarse lock owned by the caller; every operation is a short scan or
/// an O(1) state flip.
pub struct PacketPool {
    statuses: Vec<PacketStatus>,
    bufs: Vec<Vec<u8>>,
    used: Vec<usize>,
}

impl View for PacketPool {
    type V = Seq<PacketStatus>;

    closed spec fn view(&self) -> Seq<PacketStatus> {
        self.statuses@
    }
}

impl PacketPool {
    /// The bytes parked in slot `i` (meaningful when no handle holds it).
    pub closed spec fn slot_data(&self, i: int) -> Seq<u8> {
        self.bufs@[i]@
    }

    /// The used length parked in slot `i`.
    pub closed spec fn slot_used(&self, i: int) -> int {
        self.used@[i] as int
    }

    /// Every slot not out with a handle holds a full buffer and a used
    /// length within it.
    pub closed spec fn wf(&self) -> bool {
        &&& self.bufs@.len() == self.statuses@.len()
        &&& self.used@.len() == self.statuses@.len()
        &&& forall|i: int|
            0 <= i < self.statuses@.len() && self.statuses@[i] != PacketStatus::Allocated ==> #[trigger] self.bufs@[i]@.len()
                == PACKET_SIZE && self.used@[i] <= PACKET_SIZE
    }

    /// A pool of `num_packets` free slots.
    pub fn new(num_packets: usize) -> (p: PacketPool)
        ensures
            p.wf(),
            p@.len() == num_packets,
            forall|i: int| 0 <= i < num_packets ==> p@[i] == PacketStatus::Empty,
    {
        let mut statuses: Vec<PacketStatus> = Vec::new();
        let mut bufs: Vec<Vec<u8>> = Vec::new();
        let mut used: Vec<usize> = Vec::new();
        let mut i: usize = 0;
        while i < num_packets
            invariant
                i <= num_packets,
                statuses@.len() == i,
                bufs@.len() == i,
                used@.len() == i,
                forall|j: int| 0 <= j < i ==> statuses@[j] == PacketStatus::Empty,
                forall|j: int|
                    0 <= j < i ==> #[trigger] bufs@[j]@.len() == PACKET_SIZE && used@[j] == 0,
            decreases num_packets - i,
        {
            let mut slot: Vec<u8> = Vec::new();
            let mut k: usize = 0;
            while k < PACKET_SIZE
                invariant
                    k <= PACKET_SIZE,
                    slot@.len() == k,
                decreases PACKET_SIZE - k,
            {
                slot.push(0);
                k = k + 1;
            }
            statuses.push(PacketStatus::Empty);
            bufs.push(slot);
            used.push(0);
            i = i + 1;
        }
        PacketPool { statuses, bufs, used }
    }

    /// Scans for the first free slot, flips it to `Allocated` and hands
    /// out its exclusive handle; `None` means every slot is taken and the
    /// caller must treat it as backpressure.
    pub fn allocate(&mut self) -> (r: Option<Packet>)
        requires
            old(self).wf(),
        ensures
            final(self).wf(),
            match r {
                None => *final(self) == *old(self) && first_empty(old(self)@) is None,
                Some(pkt) => {
                    &&& first_empty(old(self)@) == Some(pkt.idx())
                    &&& final(self)@ == old(self)@.update(pkt.idx(), PacketStatus::Allocated)
                    &&& pkt.wf()
                    &&& pkt.used() == 0
                    &&& !pkt.is_sent()
                    &&& forall|j: int|
                        0 <= j < old(self)@.len() && j != pkt.idx()
                            ==> #[trigger] final(self).slot_data(j) == old(self).slot_data(j)
                            && final(self).slot_used(j) == old(self).slot_used(j)
                },
            },
    {
        let ghost s = self@;
        let n = self.statuses.len();
        let mut i: usize = 0;
        while i < n
            invariant
                i <= n,
                n == self@.len(),
                self == old(self),
                s == self@,
                self.wf(),
                first_empty(s) == first_empty_from(s, i as int),
            decreases n - i,
        {
            let is_empty = match self.statuses[i] {
                PacketStatus::Empty => true,
                _ => false,
            };
            if is_empty {
                self.statuses[i] = PacketStatus::Allocated;
                let mut taken: Vec<u8> = Vec::new();
                core::mem::swap(&mut taken, &mut self.bufs[i]);
                self.used[i] = 0;
                let pkt = Packet::from_packet(i, taken, 0);
                return Some(pkt);
            }
            i = i + 1;
        }
        None
    }

    /// Takes a handle back. A handle never marked sent frees its slot; a
    /// sent one queues it for the transport drain. A handle whose slot is
    /// not `Allocated` reports the contract breach instead.
    pub fn release(&mut self, pkt: Packet) -> (r: Result<(), Error>)
        requires
            old(self).wf(),
            pkt.wf(),
        ensures
            final(self).wf(),
            pkt.idx() < old(self)@.len() && old(self)@[pkt.idx()] == PacketStatus::Allocated ==> {
                &&& r == Ok::<(), Error>(())
                &&& final(self)@ == old(self)@.update(
                    pkt.idx(),
                    if pkt.is_sent() {
                        PacketStatus::ReadyToTransmit
                    } else {
                        PacketStatus::Empty
                    },
                )
                &&& final(self).slot_data(pkt.idx()) == pkt.data()
                &&& final(self).slot_used(pkt.idx()) == pkt.used()
                &&& forall|j: int|
                    0 <= j < old(self)@.len() && j != pkt.idx()
                        ==> #[trigger] final(self).slot_data(j) == old(self).slot_data(j)
                        && final(self).slot_used(j) == old(self).slot_used(j)
            },
            !(pkt.idx() < old(self)@.len() && old(self)@[pkt.idx()] == PacketStatus::Allocated)
                ==> r == Err::<(), Error>(Error::PoolInvariantViolated)
                && *final(self) == *old(self),
    {
        let Packet { idx, buf, used_bytes, sent } = pkt;
        if idx >= self.statuses.len() {
            return Err(Error::PoolInvariantViolated);
        }
        let is_allocated = match self.statuses[idx] {
            PacketStatus::Allocated => true,
            _ => false,
        };
        if !is_allocated {
            return Err(Error::PoolInvariantViolated);
        }
        self.statuses[idx] = if sent {
            PacketStatus::ReadyToTransmit
        } else {
            PacketStatus::Empty
        };
        self.bufs[idx] = buf;
        self.used[idx] = used_bytes;
        proof {
            assert forall|i: int|
                0 <= i < self.statuses@.len() && self.statuses@[i] != PacketStatus::Allocated
                implies #[trigger] self.bufs@[i]@.len() == PACKET_SIZE && self.used@[i]
                <= PACKET_SIZE by {
                if i != idx {
                    assert(self.bufs@[i] == old(self).bufs@[i]);
                    assert(old(self).statuses@[i] != PacketStatus::Allocated);
                    assert(old(self).bufs@[i]@.len() == PACKET_SIZE);
                }
            }
        }
        Ok(())
    }

    /// The transport drain resets a transmitted slot to free. A slot not
    /// queued for transmission reports the contract breach instead.
    pub fn complete_transmit(&mut self, idx: usize) -> (r: Result<(), Error>)
        requires
            old(self).wf(),
        ensures
            final(self).wf(),
            idx < old(self)@.len() && old(self)@[idx as int] == PacketStatus::ReadyToTransmit ==> r
                == Ok::<(), Error>(()) && final(self)@ == old(self)@.update(
                idx as int,
                PacketStatus::Empty,
            ),
            forall|j: int|
                0 <= j < old(self)@.len() ==> #[trigger] final(self).slot_data(j) == old(
                    self,
                ).slot_data(j) && final(self).slot_used(j) == old(self).slot_used(j),
            !(idx < old(self)@.len() && old(self)@[idx as int] == PacketStatus::ReadyToTransmit)
                ==> r == Err::<(), Error>(Error::PoolInvariantViolated)
                && *final(self) == *old(self),
    {
        if idx >= self.statuses.len() {
            return Err(Error::PoolInvariantViolated);
        }
        let is_ready = match self.statuses[idx] {
            PacketStatus::ReadyToTransmit => true,
            _ => false,
        };
        if !is_ready {
            return Err(Error::PoolInvariantViolated);
        }
        self.statuses[idx] = PacketStatus::Empty;
        Ok(())
    }
}

} // verus!
