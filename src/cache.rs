//! A write-back sector cache in front of a block device, with a partition's
//! logical sectors mapped onto the device's physical ones.
use vstd::prelude::*;
use std::collections::HashMap;
use crate::bytes::prefix_upto;
use crate::device::{overwrite_prefix, BlockDevice};
use crate::io::ErrorKind;

verus! {

broadcast use vstd::std_specs::hash::group_hash_axioms;

/// Where a partition starts and the size of its logical sectors.
#[derive(Clone, Copy, Debug, PartialEq, Eq, Structural)]
pub struct Partition {
    /// The physical sector where the partition begins.
    pub start: u64,
    /// The size, in bytes, of a logical sector of the partition.
    pub sector_size: u64,
}

/// The physical sectors that hold sector `virt`: the first one and how many.
/// Before the partition a sector is one physical sector; inside it, a
/// logical sector is `factor` consecutive physical sectors. `None` when the
/// numbers do not fit in 64 bits.
pub open spec fn spec_virtual_to_physical(p: Partition, factor: nat, virt: nat) -> Option<(nat, nat)> {
    if virt < p.start {
        Some((virt, 1))
    } else {
        let phys: nat = (p.start + (virt - p.start) * factor) as nat;
        if phys + factor <= u64::MAX {
            Some((phys, factor))
        } else {
            None
        }
    }
}

/// Cache addressing: a sector before the partition is one physical sector
/// of the same number; a logical sector `n` of the partition is `factor`
/// physical sectors from `start + (n - start) * factor`, wherever those
/// numbers fit in 64 bits.
pub proof fn lemma_cache_addressing(p: Partition, factor: nat, n: nat)
    requires
        n >= p.start ==> p.start + (n - p.start) * factor + factor <= u64::MAX,
    ensures
        n < p.start ==> spec_virtual_to_physical(p, factor, n) == Some((n, 1nat)),
        n >= p.start ==> spec_virtual_to_physical(p, factor, n) == Some(
            ((p.start + (n - p.start) * factor) as nat, factor),
        ),
{
}

/// The bytes of `count` consecutive device sectors from `first`, each cut to
/// the device's sector size.
pub open spec fn assembled<T: BlockDevice>(dev: T, first: nat, count: nat) -> Seq<u8>
    decreases count,
{
    if count == 0 {
        seq![]
    } else {
        assembled(dev, first, (count - 1) as nat) + prefix_upto(
            dev.sector((first + count - 1) as u64),
            dev.spec_sector_size(),
        )
    }
}

proof fn lemma_assembled_same<T: BlockDevice>(d0: T, d1: T, first: nat, count: nat)
    requires
        d0.spec_sector_size() == d1.spec_sector_size(),
        forall|m: u64| #[trigger] d1.sector(m) == d0.sector(m),
    ensures
        assembled(d0, first, count) == assembled(d1, first, count),
    decreases count,
{
    if count > 0 {
        lemma_assembled_same(d0, d1, first, (count - 1) as nat);
        assert(d1.sector((first + count - 1) as u64) == d0.sector((first + count - 1) as u64));
    }
}

/// A cached sector.
#[derive(Debug)]
pub struct CacheEntry {
    pub data: Vec<u8>,
    pub dirty: bool,
}

/// A sector cache over `device`. Sectors are read from the device on first
/// use and kept; writes go to the cache only.
pub struct CachedDevice<T: BlockDevice> {
    device: T,
    cache: HashMap<u64, CacheEntry>,
    partition: Partition,
    factor: u64,
}

impl<T: BlockDevice> CachedDevice<T> {
    pub closed spec fn spec_partition(&self) -> Partition {
        self.partition
    }

    /// The physical sectors per logical sector of the partition.
    pub closed spec fn spec_factor(&self) -> nat {
        self.factor as nat
    }

    /// The device under the cache.
    pub closed spec fn spec_device(&self) -> T {
        self.device
    }

    /// The cached sectors and whether each is dirty.
    pub closed spec fn cached(&self) -> Map<u64, (Seq<u8>, bool)> {
        self.cache@.map_values(|e: CacheEntry| (e.data@, e.dirty))
    }

    pub closed spec fn wf(&self) -> bool {
        &&& self.device.spec_sector_size() > 0
        &&& self.device.spec_sector_size() <= u64::MAX
        &&& self.factor * self.device.spec_sector_size() == self.partition.sector_size
        &&& self.factor >= 1
    }

    /// What sector `n` holds when it is not cached yet.
    pub open spec fn uncached(&self, n: u64) -> Seq<u8> {
        match spec_virtual_to_physical(self.spec_partition(), self.spec_factor(), n as nat) {
            Some((first, count)) => assembled(self.spec_device(), first, count),
            None => seq![],
        }
    }

    /// A cache with the same partition and the same device contents holds
    /// the same uncached sectors.
    proof fn lemma_uncached_same(c0: &Self, c1: &Self)
        requires
            c0.spec_partition() == c1.spec_partition(),
            c0.spec_factor() == c1.spec_factor(),
            c0.spec_device().spec_sector_size() == c1.spec_device().spec_sector_size(),
            forall|m: u64| #[trigger] c1.spec_device().sector(m) == c0.spec_device().sector(m),
        ensures
            forall|m: u64| #[trigger] c1.uncached(m) == c0.uncached(m),
    {
        assert forall|m: u64| #[trigger] c1.uncached(m) == c0.uncached(m) by {
            match spec_virtual_to_physical(c0.spec_partition(), c0.spec_factor(), m as nat) {
                Some((first, count)) => {
                    lemma_assembled_same(c0.spec_device(), c1.spec_device(), first, count);
                },
                None => {},
            }
        }
    }

    /// Creates a cache over `device` for `partition`, whose logical sectors
    /// are a whole multiple of the device's sectors.
    pub fn new(device: T, partition: Partition) -> (r: CachedDevice<T>)
        requires
            device.spec_sector_size() > 0,
            partition.sector_size >= device.spec_sector_size(),
            partition.sector_size as nat % device.spec_sector_size() == 0,
        ensures
            r.wf(),
            r.spec_partition() == partition,
            r.spec_device() == device,
            r.spec_factor() == partition.sector_size as nat / device.spec_sector_size(),
            r.cached() == Map::<u64, (Seq<u8>, bool)>::empty(),
    {
        let dev_size = device.sector_size();
        let factor = partition.sector_size / dev_size;
        proof {
            vstd::arithmetic::div_mod::lemma_fundamental_div_mod(partition.sector_size as int, dev_size as int);
            vstd::arithmetic::mul::lemma_mul_is_commutative(factor as int, dev_size as int);
            vstd::arithmetic::div_mod::lemma_div_non_zero(partition.sector_size as int, dev_size as int);
        }
        let r = CachedDevice { device, cache: HashMap::new(), partition, factor };
        assert(r.cached() =~= Map::<u64, (Seq<u8>, bool)>::empty());
        r
    }

    /// The device under the cache.
    pub fn device(&self) -> (r: &T)
        ensures
            *r == self.spec_device(),
    {
        &self.device
    }

    /// Whether sector `n` is cached and has been written to.
    pub fn is_dirty(&self, n: u64) -> (r: bool)
        ensures
            r == (self.cached().contains_key(n) && self.cached()[n].1),
    {
        match self.cache.get(&n) {
            Some(e) => e.dirty,
            None => false,
        }
    }

    /// Maps sector `virt` to its first physical sector and the number of
    /// physical sectors that hold it.
    pub fn virtual_to_physical(&self, virt: u64) -> (r: Option<(u64, u64)>)
        ensures
            match spec_virtual_to_physical(self.spec_partition(), self.spec_factor(), virt as nat) {
                Some((first, count)) => r == Some((first as u64, count as u64)),
                None => r is None,
            },
    {
        if virt < self.partition.start {
            return Some((virt, 1));
        }
        let offset = virt - self.partition.start;
        if offset > 0 && self.factor > u64::MAX / offset {
            proof {
                assert(offset * self.factor > u64::MAX) by (nonlinear_arith)
                    requires
                        offset > 0,
                        self.factor > u64::MAX / offset,
                ;
            }
            return None;
        }
        proof {
            assert(offset * self.factor <= u64::MAX) by (nonlinear_arith)
                requires
                    offset == 0 || self.factor <= u64::MAX / offset,
            ;
        }
        let scaled = offset * self.factor;
        if scaled > u64::MAX - self.partition.start || self.partition.start + scaled > u64::MAX - self.factor {
            return None;
        }
        Some((self.partition.start + scaled, self.factor))
    }

    /// Reads device sector `n` and appends its bytes to `data`.
    fn read_all_sector(&mut self, n: u64, data: &mut Vec<u8>) -> (r: Result<(), ErrorKind>)
        ensures
            old(self).wf() ==> final(self).wf(),
            final(self).spec_partition() == old(self).spec_partition(),
            final(self).spec_factor() == old(self).spec_factor(),
            final(self).cached() == old(self).cached(),
            final(self).cache@ == old(self).cache@,
            final(self).spec_device().spec_sector_size() == old(self).spec_device().spec_sector_size(),
            forall|m: u64| #[trigger] final(self).spec_device().sector(m) == old(self).spec_device().sector(m),
            r is Ok ==> final(data)@ == old(data)@ + prefix_upto(
                old(self).spec_device().sector(n),
                old(self).spec_device().spec_sector_size(),
            ),
    {
        let size = self.device.sector_size();
        if size > usize::MAX as u64 {
            return Err(ErrorKind::Other);
        }
        let mut buf: Vec<u8> = Vec::new();
        let mut i: usize = 0;
        while i < size as usize
            invariant
                i <= size,
                buf@.len() == i,
            decreases size - i,
        {
            buf.push(0);
            i = i + 1;
        }
        let ghost sec = self.device.sector(n);
        let k = self.device.read_sector(n, &mut buf)?;
        let mut j: usize = 0;
        let ghost base = data@;
        while j < k
            invariant
                j <= k,
                k <= buf@.len(),
                data@ == base + buf@.take(j as int),
            decreases k - j,
        {
            data.push(buf[j]);
            j = j + 1;
            assert(data@ =~= base + buf@.take(j as int));
        }
        proof {
            assert(buf@.take(k as int) =~= prefix_upto(sec, size as nat));
        }
        Ok(())
    }

    /// Loads sector `n` into the cache, unless it is cached already.
    fn ensure_sector(&mut self, n: u64) -> (r: Result<(), ErrorKind>)
        ensures
            old(self).wf() ==> final(self).wf(),
            final(self).spec_partition() == old(self).spec_partition(),
            final(self).spec_factor() == old(self).spec_factor(),
            final(self).spec_device().spec_sector_size() == old(self).spec_device().spec_sector_size(),
            forall|m: u64| #[trigger] final(self).spec_device().sector(m) == old(self).spec_device().sector(m),
            r is Ok ==> final(self).cached() == (if old(self).cached().contains_key(n) {
                old(self).cached()
            } else {
                old(self).cached().insert(n, (old(self).uncached(n), false))
            }),
            r is Err ==> final(self).cached() == old(self).cached(),
            r is Ok ==> final(self).cache@.contains_key(n),
            forall|m: u64| #[trigger] final(self).uncached(m) == old(self).uncached(m),
            forall|m: u64| #[trigger] final(self).sector(m) == old(self).sector(m),
    {
        if self.cache.contains_key(&n) {
            return Ok(());
        }
        let (first, count) = match self.virtual_to_physical(n) {
            Some(p) => p,
            None => return Err(ErrorKind::InvalidInput),
        };
        let ghost dev0 = self.device;
        let mut data: Vec<u8> = Vec::new();
        let mut i: u64 = 0;
        while i < count
            invariant
                old(self).wf() ==> self.wf(),
                i <= count,
                first + count <= u64::MAX,
                self.spec_partition() == old(self).spec_partition(),
                self.spec_factor() == old(self).spec_factor(),
                self.cached() == old(self).cached(),
                self.device.spec_sector_size() == dev0.spec_sector_size(),
                forall|m: u64| #[trigger] self.device.sector(m) == dev0.sector(m),
                data@ == assembled(dev0, first as nat, i as nat),
                !self.cache@.contains_key(n),
                dev0 == old(self).spec_device(),
            decreases count - i,
        {
            match self.read_all_sector(first + i, &mut data) {
                Ok(()) => {},
                Err(e) => {
                    proof {
                        CachedDevice::lemma_uncached_same(old(self), self);
                        assert forall|m: u64| #[trigger] self.sector(m) == old(self).sector(m) by {
                            if old(self).cached().contains_key(m) {
                                assert(self.cached()[m] == old(self).cached()[m]);
                            }
                        }
                    }
                    return Err(e);
                },
            }
            i = i + 1;
        }
        proof {
            CachedDevice::lemma_uncached_same(old(self), self);
            assert(self.uncached(n) == assembled(dev0, first as nat, count as nat));
        }
        self.cache.insert(n, CacheEntry { data, dirty: false });
        proof {
            assert(self.cached() =~= old(self).cached().insert(n, (old(self).uncached(n), false)));
            CachedDevice::lemma_uncached_same(old(self), self);
            assert forall|m: u64| #[trigger] self.sector(m) == old(self).sector(m) by {
                if m != n && old(self).cached().contains_key(m) {
                    assert(self.cached()[m] == old(self).cached()[m]);
                }
            }
        }
        Ok(())
    }

    /// Returns a copy of sector `n`, reading it from the device first if it
    /// is not cached.
    pub fn get(&mut self, n: u64) -> (r: Result<Vec<u8>, ErrorKind>)
        ensures
            old(self).wf() ==> final(self).wf(),
            final(self).spec_partition() == old(self).spec_partition(),
            final(self).spec_factor() == old(self).spec_factor(),
            forall|m: u64| #[trigger] final(self).sector(m) == old(self).sector(m),
            final(self).cached().contains_key(n) || r is Err,
            r matches Ok(d) ==> d@ == old(self).sector(n),
    {
        self.ensure_sector(n)?;
        let entry = self.cache.get(&n).unwrap();
        proof {
            assert(self.cached()[n] == (entry.data@, entry.dirty));
            assert(self.sector(n) == old(self).sector(n));
        }
        let mut out: Vec<u8> = Vec::new();
        let mut i: usize = 0;
        while i < entry.data.len()
            invariant
                i <= entry.data@.len(),
                out@ == entry.data@.take(i as int),
            decreases entry.data@.len() - i,
        {
            out.push(entry.data[i]);
            i = i + 1;
            assert(out@ =~= entry.data@.take(i as int));
        }
        assert(out@ =~= entry.data@);
        Ok(out)
    }
}

impl<T: BlockDevice> BlockDevice for CachedDevice<T> {
    open spec fn sector(&self, n: u64) -> Seq<u8> {
        if self.cached().contains_key(n) {
            self.cached()[n].0
        } else {
            self.uncached(n)
        }
    }

    open spec fn spec_sector_size(&self) -> nat {
        self.spec_partition().sector_size as nat
    }

    /// The size of the partition's logical sectors.
    fn sector_size(&self) -> (r: u64) {
        self.partition.sector_size
    }

    fn read_sector(&mut self, n: u64, buf: &mut Vec<u8>) -> (r: Result<usize, ErrorKind>) {
        let data = self.get(n)?;
        let k = if buf.len() < data.len() { buf.len() } else { data.len() };
        let mut i: usize = 0;
        while i < k
            invariant
                i <= k,
                k <= buf@.len(),
                k <= data@.len(),
                buf@.len() == old(buf)@.len(),
                forall|j: int| 0 <= j < i ==> buf@[j] == data@[j],
                forall|j: int| i <= j < buf@.len() ==> buf@[j] == old(buf)@[j],
            decreases k - i,
        {
            buf.set(i, data[i]);
            i = i + 1;
        }
        assert(buf@ =~= overwrite_prefix(old(buf)@, data@, k as nat));
        Ok(k)
    }

    /// Overwrites cached sector `n` with `buf`, which must hold a whole
    /// logical sector (else `UnexpectedEof`), and marks it dirty. The device
    /// itself is not written.
    fn write_sector(&mut self, n: u64, buf: &Vec<u8>) -> (r: Result<usize, ErrorKind>) {
        if (buf.len() as u64) < self.partition.sector_size {
            return Err(ErrorKind::UnexpectedEof);
        }
        self.ensure_sector(n)?;
        let ghost mid = *self;
        let ghost before = self.sector(n);
        let mut entry = self.cache.remove(&n).unwrap();
        let k = if buf.len() < entry.data.len() { buf.len() } else { entry.data.len() };
        let mut i: usize = 0;
        while i < k
            invariant
                i <= k,
                k <= buf@.len(),
                k <= entry.data@.len(),
                entry.data@.len() == before.len(),
                forall|j: int| 0 <= j < i ==> entry.data@[j] == buf@[j],
                forall|j: int| i <= j < entry.data@.len() ==> entry.data@[j] == before[j],
            decreases k - i,
        {
            entry.data.set(i, buf[i]);
            i = i + 1;
        }
        entry.dirty = true;
        let ghost written = entry.data@;
        self.cache.insert(n, entry);
        proof {
            assert(written =~= overwrite_prefix(before, buf@, k as nat));
            assert(mid.sector(n) == old(self).sector(n));
            assert(self.cached()[n] == (written, true));
            CachedDevice::lemma_uncached_same(&mid, self);
            assert forall|m: u64| m != n implies #[trigger] self.sector(m) == old(self).sector(m) by {
                assert(mid.sector(m) == old(self).sector(m));
                if mid.cached().contains_key(m) {
                    assert(self.cached()[m] == mid.cached()[m]);
                }
            }
        }
        Ok(k)
    }
}

} // verus!
