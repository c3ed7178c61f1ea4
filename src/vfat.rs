//! A read-only FAT32 filesystem over a cached block device.
use vstd::prelude::*;
use crate::bytes::{le32, prefix_upto, read_u32};
use crate::cache::{CachedDevice, Partition};
use crate::cluster::{status_of, Cluster, FatEntry, Status};
use crate::device::{overwrite_prefix, BlockDevice};
use crate::ebpb::{ebpb_result, BiosParameterBlock};
use crate::io::ErrorKind;
use crate::mbr::{self, mbr_result, MasterBootRecord, PartitionEntry};

verus! {

/// The errors of mounting a FAT32 filesystem.
#[derive(Clone, Copy, Debug, PartialEq, Eq, Structural)]
pub enum Error {
    /// The MBR could not be read or is invalid.
    Mbr(mbr::Error),
    /// An I/O error, or a parameter block that the cache cannot serve.
    Io(ErrorKind),
    /// The EBPB's signature is not 0xAA55.
    BadSignature,
    /// No partition is a FAT32 partition.
    NotFound,
    /// The EBPB's sectors are not a whole, non-zero multiple of the
    /// device's, or its clusters are empty.
    BadGeometry,
    /// The device failed to read a sector.
    Device(ErrorKind),
}

/// Where and how the filesystem lies on the device.
#[derive(Clone, Copy, Debug, PartialEq, Eq, Structural)]
pub struct Geometry {
    pub partition_start: u64,
    pub bytes_per_sector: u16,
    pub sectors_per_cluster: u8,
    pub sectors_per_fat: u32,
    pub fat_start_sector: u64,
    pub data_start_sector: u64,
    pub root_dir_cluster: Cluster,
}

/// The first sector of the first FAT32 partition that the MBR bytes `b0`
/// name, or why there is none.
pub open spec fn partition_start_of(b0: Seq<u8>) -> Result<u64, Error> {
    match mbr_result(b0) {
        Err(e) => Err(Error::Mbr(e)),
        Ok(m) => match first_fat_partition(m, 0) {
            None => Err(Error::NotFound),
            Some(i) => Ok(m.partition_table[i].relative_sector as u64),
        },
    }
}

/// The geometry that the EBPB bytes `b1` of the partition at `start` give on
/// a device of `dev_size`-byte sectors, or why they give none.
pub open spec fn geometry_of(start: u64, b1: Seq<u8>, dev_size: nat) -> Result<Geometry, Error> {
    match ebpb_result(b1) {
        Err(e) => Err(e),
        Ok(e) => if dev_size == 0 || e.bytes_per_sector == 0 || e.sectors_per_cluster == 0
            || e.bytes_per_sector < dev_size || e.bytes_per_sector as nat % dev_size != 0 {
            Err(Error::BadGeometry)
        } else {
            Ok(
                Geometry {
                    partition_start: start,
                    bytes_per_sector: e.bytes_per_sector,
                    sectors_per_cluster: e.sectors_per_cluster,
                    sectors_per_fat: e.sectors_per_fat_32,
                    fat_start_sector: (start + e.reserved_sectors) as u64,
                    data_start_sector: (start + e.reserved_sectors + e.sectors_per_fat_32 * e.fat_count) as u64,
                    root_dir_cluster: Cluster(crate::cluster::low28(e.root_cluster)),
                },
            )
        },
    }
}

/// The first sector of the first FAT32 partition named by the MBR bytes
/// `b0`.
pub fn partition_start(b0: &Vec<u8>) -> (r: Result<u64, Error>)
    ensures
        r == partition_start_of(b0@),
{
    let mbr = match MasterBootRecord::from_bytes(b0) {
        Ok(m) => m,
        Err(e) => return Err(Error::Mbr(e)),
    };
    let mut i: usize = 0;
    while i < 4 && !mbr.partition_table[i].is_fat()
        invariant
            i <= 4,
            first_fat_partition(mbr, 0) == first_fat_partition(mbr, i as int),
        decreases 4 - i,
    {
        i = i + 1;
    }
    if i == 4 {
        return Err(Error::NotFound);
    }
    Ok(mbr.partition_table[i].relative_sector as u64)
}

/// The geometry of the filesystem whose EBPB bytes are `b1`, in the
/// partition at `start`, on a device of `dev_size`-byte sectors.
pub fn geometry(start: u64, b1: &Vec<u8>, dev_size: u64) -> (r: Result<Geometry, Error>)
    requires
        start <= u32::MAX,
    ensures
        r == geometry_of(start, b1@, dev_size as nat),
{
    let e = BiosParameterBlock::from_bytes(b1)?;
    let bps = e.bytes_per_sector();
    if dev_size == 0 || bps == 0 || e.sectors_per_cluster() == 0 || (bps as u64) < dev_size
        || (bps as u64) % dev_size != 0 {
        return Err(Error::BadGeometry);
    }
    assert(e.sectors_per_fat_32 * e.fat_count <= 0xFFFF_FFFF * 255) by (nonlinear_arith);
    Ok(Geometry {
        partition_start: start,
        bytes_per_sector: bps,
        sectors_per_cluster: e.sectors_per_cluster(),
        sectors_per_fat: e.sectors_per_fat(),
        fat_start_sector: start + e.fat_start_sector(),
        data_start_sector: start + e.data_start_sector(),
        root_dir_cluster: Cluster::from(e.root_cluster()),
    })
}

/// Reads the first 512 bytes of sector `n` of `device` (fewer at its end).
fn read_head<T: BlockDevice>(device: &mut T, n: u64) -> (r: Result<Vec<u8>, ErrorKind>)
    ensures
        final(device).spec_sector_size() == old(device).spec_sector_size(),
        forall|m: u64| #[trigger] final(device).sector(m) == old(device).sector(m),
        r matches Ok(b) ==> b@ == prefix_upto(old(device).sector(n), 512),
{
    let mut buf: Vec<u8> = vec![0u8; 512];
    let k = device.read_sector(n, &mut buf)?;
    let mut out: Vec<u8> = Vec::new();
    let mut i: usize = 0;
    while i < k
        invariant
            i <= k,
            k <= buf@.len(),
            out@ == buf@.take(i as int),
        decreases k - i,
    {
        out.push(buf[i]);
        i = i + 1;
        assert(out@ =~= buf@.take(i as int));
    }
    assert(out@ =~= prefix_upto(old(device).sector(n), 512));
    Ok(out)
}

pub open spec fn is_fat_entry(e: PartitionEntry) -> bool {
    e.partition_type == 0x0B || e.partition_type == 0x0C
}

/// The index of the first FAT32 partition of `m` from entry `i` on.
pub open spec fn first_fat_partition(m: MasterBootRecord, i: int) -> Option<int>
    decreases 4 - i,
{
    if i < 0 || i >= 4 {
        None
    } else if is_fat_entry(m.partition_table[i]) {
        Some(i)
    } else {
        first_fat_partition(m, i + 1)
    }
}

/// A mounted FAT32 filesystem.
pub struct VFat<T: BlockDevice> {
    pub device: CachedDevice<T>,
    pub bytes_per_sector: u16,
    pub sectors_per_cluster: u8,
    pub sectors_per_fat: u32,
    pub fat_start_sector: u64,
    pub data_start_sector: u64,
    pub root_dir_cluster: Cluster,
}

/// The first logical sector of cluster `c`.
pub open spec fn cluster_first_sector(data_start: nat, spc: nat, c: Cluster) -> nat {
    (data_start + (c.0 - 2) * spc) as nat
}

impl<T: BlockDevice> VFat<T> {
    /// Sector `n` as the filesystem sees it through its cache.
    pub closed spec fn sector(&self, n: u64) -> Seq<u8> {
        self.device.sector(n)
    }

    pub closed spec fn wf(&self) -> bool {
        &&& self.device.wf()
        &&& self.bytes_per_sector > 0
        &&& self.sectors_per_cluster > 0
        &&& self.device.spec_partition().sector_size == self.bytes_per_sector
    }

    /// The raw FAT entry of cluster `c`, when it lies within the FAT and its
    /// sector holds it.
    pub open spec fn fat_value(&self, c: Cluster) -> Option<u32> {
        let off: nat = c.0 as nat * 4;
        let sector = off / self.bytes_per_sector as nat;
        let within = off % self.bytes_per_sector as nat;
        let data = self.sector((self.fat_start_sector + sector) as u64);
        if sector >= self.sectors_per_fat || within + 4 > data.len() || self.fat_start_sector + sector
            > u64::MAX {
            None
        } else {
            Some(le32(data, within as int) as u32)
        }
    }

    /// The bytes of the sectors of cluster `c`, from sector `i` up to `n`.
    pub open spec fn sectors_bytes(&self, first: nat, n: nat) -> Seq<u8>
        decreases n,
    {
        if n == 0 {
            seq![]
        } else {
            self.sectors_bytes(first, (n - 1) as nat) + self.sector((first + n - 1) as u64)
        }
    }

    /// The bytes of cluster `c`: its sectors, in order.
    pub open spec fn cluster_bytes(&self, c: Cluster) -> Seq<u8> {
        self.sectors_bytes(
            cluster_first_sector(self.data_start_sector as nat, self.sectors_per_cluster as nat, c),
            self.sectors_per_cluster as nat,
        )
    }

    /// What reading the chain from cluster `c`, following at most `fuel`
    /// links, yields: the bytes of its clusters up to the end-of-chain mark.
    pub open spec fn chain(&self, c: Cluster, fuel: nat) -> Option<Seq<u8>>
        decreases fuel,
    {
        if fuel == 0 || c.0 < 2 {
            None
        } else {
            match self.fat_value(c) {
                None => None,
                Some(v) => match status_of(v) {
                    Status::Data(next) => match self.chain(next, (fuel - 1) as nat) {
                        Some(rest) => Some(self.cluster_bytes(c) + rest),
                        None => None,
                    },
                    Status::Eoc(_) => Some(self.cluster_bytes(c)),
                    _ => None,
                },
            }
        }
    }

    /// The number of entries of the FAT: the longest chain there can be.
    pub open spec fn fat_entries(&self) -> nat {
        self.sectors_per_fat as nat * self.bytes_per_sector as nat / 4
    }

    proof fn lemma_same_fs_bytes(a: Self, b: Self, first: nat, n: nat)
        requires
            a.same_fs(b),
        ensures
            a.sectors_bytes(first, n) == b.sectors_bytes(first, n),
        decreases n,
    {
        if n > 0 {
            VFat::lemma_same_fs_bytes(a, b, first, (n - 1) as nat);
            assert(a.sector((first + n - 1) as u64) == b.sector((first + n - 1) as u64));
        }
    }

    /// Mounts the filesystem on `device`: reads the MBR, takes its first
    /// FAT32 partition, reads that partition's EBPB, and sets up a cache
    /// whose logical sectors are the EBPB's. The result is a device error,
    /// or exactly what the two sectors' bytes give.
    pub fn from(device: T) -> (r: Result<VFat<T>, Error>)
        ensures
            r matches Err(Error::Device(_)) || ({
                let b0 = prefix_upto(device.sector(0), 512);
                match partition_start_of(b0) {
                    Err(e) => r == Err::<VFat<T>, Error>(e),
                    Ok(start) => match geometry_of(
                        start,
                        prefix_upto(device.sector(start), 512),
                        device.spec_sector_size(),
                    ) {
                        Err(e) => r == Err::<VFat<T>, Error>(e),
                        Ok(g) => r matches Ok(v) && v.wf() && v.geometry_matches(g),
                    },
                }
            }),
    {
        let mut device = device;
        let dev_size = device.sector_size();
        let b0 = match read_head(&mut device, 0) {
            Ok(b) => b,
            Err(e) => return Err(Error::Device(e)),
        };
        let start = partition_start(&b0)?;
        let b1 = match read_head(&mut device, start) {
            Ok(b) => b,
            Err(e) => return Err(Error::Device(e)),
        };
        let g = geometry(start, &b1, dev_size)?;
        let cache = CachedDevice::new(device, Partition { start, sector_size: g.bytes_per_sector as u64 });
        Ok(VFat {
            device: cache,
            bytes_per_sector: g.bytes_per_sector,
            sectors_per_cluster: g.sectors_per_cluster,
            sectors_per_fat: g.sectors_per_fat,
            fat_start_sector: g.fat_start_sector,
            data_start_sector: g.data_start_sector,
            root_dir_cluster: g.root_dir_cluster,
        })
    }

    /// The geometry of the mounted filesystem, without the partition start.
    pub open spec fn geometry_matches(&self, g: Geometry) -> bool {
        &&& self.bytes_per_sector == g.bytes_per_sector
        &&& self.sectors_per_cluster == g.sectors_per_cluster
        &&& self.sectors_per_fat == g.sectors_per_fat
        &&& self.fat_start_sector == g.fat_start_sector
        &&& self.data_start_sector == g.data_start_sector
        &&& self.root_dir_cluster == g.root_dir_cluster
    }

    /// Returns a copy of logical sector `n`.
    pub fn get_sector(&mut self, n: u64) -> (r: Result<Vec<u8>, ErrorKind>)
        requires
            old(self).wf(),
        ensures
            final(self).wf(),
            final(self).same_fs(*old(self)),
            r matches Ok(d) ==> d@ == old(self).sector(n),
    {
        self.device.get(n)
    }

    /// Two states of the filesystem read the same.
    pub open spec fn same_fs(&self, other: Self) -> bool {
        &&& self.bytes_per_sector == other.bytes_per_sector
        &&& self.sectors_per_cluster == other.sectors_per_cluster
        &&& self.sectors_per_fat == other.sectors_per_fat
        &&& self.fat_start_sector == other.fat_start_sector
        &&& self.data_start_sector == other.data_start_sector
        &&& self.root_dir_cluster == other.root_dir_cluster
        &&& forall|m: u64| #[trigger] self.sector(m) == other.sector(m)
    }

    /// The FAT entry of cluster `c`: at byte `4c` of the FAT. A cluster past
    /// the FAT gives `NotFound`.
    pub fn fat_entry(&mut self, c: Cluster) -> (r: Result<FatEntry, ErrorKind>)
        requires
            old(self).wf(),
        ensures
            final(self).wf(),
            final(self).same_fs(*old(self)),
            r matches Ok(e) ==> old(self).fat_value(c) == Some(e.0),
            old(self).fat_value(c) is None ==> r is Err,
    {
        let off: u64 = c.0 as u64 * 4;
        let sector = off / self.bytes_per_sector as u64;
        let within = off % self.bytes_per_sector as u64;
        if sector >= self.sectors_per_fat as u64 {
            return Err(ErrorKind::NotFound);
        }
        if self.fat_start_sector > u64::MAX - sector {
            return Err(ErrorKind::NotFound);
        }
        let data = self.get_sector(self.fat_start_sector + sector)?;
        if within + 4 > data.len() as u64 {
            return Err(ErrorKind::InvalidData);
        }
        Ok(FatEntry(read_u32(&data, within as usize)))
    }

    /// Reads from byte `offset` of cluster `c` into the front of `buf`, up
    /// to the end of the sector that holds that byte; returns how many bytes
    /// were read.
    pub fn read_cluster(&mut self, c: Cluster, offset: usize, buf: &mut Vec<u8>) -> (r: Result<usize, ErrorKind>)
        requires
            old(self).wf(),
            c.0 >= 2,
        ensures
            final(self).wf(),
            final(self).same_fs(*old(self)),
            final(buf)@.len() == old(buf)@.len(),
            r matches Ok(n) ==> {
                let sector = cluster_first_sector(
                    old(self).data_start_sector as nat,
                    old(self).sectors_per_cluster as nat,
                    c,
                ) + offset as nat / (old(self).bytes_per_sector as nat);
                let data = old(self).sector(sector as u64);
                let within = offset as nat % (old(self).bytes_per_sector as nat);
                &&& within <= data.len()
                &&& n == crate::device::min_nat(old(buf)@.len(), (data.len() - within) as nat)
                &&& final(buf)@ == overwrite_prefix(old(buf)@, data.skip(within as int), n as nat)
            },
            r is Err ==> final(buf)@ == old(buf)@,
    {
        let bps = self.bytes_per_sector as u64;
        let sector_index = offset as u64 / bps;
        let within = (offset as u64 % bps) as usize;
        let spc = self.sectors_per_cluster as u64;
        let idx = (c.0 - 2) as u64;
        assert(idx * spc <= 0xFFFF_FFFF * 255) by (nonlinear_arith)
            requires
                idx <= 0xFFFF_FFFF,
                spc <= 255,
        ;
        if self.data_start_sector > u64::MAX - idx * spc || self.data_start_sector + idx * spc > u64::MAX
            - sector_index {
            return Err(ErrorKind::InvalidInput);
        }
        let sector = self.data_start_sector + idx * spc + sector_index;
        let data = self.get_sector(sector)?;
        if within > data.len() {
            return Err(ErrorKind::UnexpectedEof);
        }
        let dlen = data.len();
        let n = if buf.len() < dlen - within { buf.len() } else { dlen - within };
        let mut i: usize = 0;
        while i < n
            invariant
                i <= n,
                n <= buf@.len(),
                within + n <= dlen,
                dlen == data@.len(),
                buf@.len() == old(buf)@.len(),
                forall|j: int| 0 <= j < i ==> buf@[j] == data@[within + j],
                forall|j: int| i <= j < buf@.len() ==> buf@[j] == old(buf)@[j],
            decreases n - i,
        {
            buf.set(i, data[within + i]);
            i = i + 1;
        }
        assert(buf@ =~= overwrite_prefix(old(buf)@, data@.skip(within as int), n as nat));
        Ok(n)
    }

    /// Appends the bytes of cluster `c` (all its sectors) to `buf`.
    pub fn append_cluster_data(&mut self, c: Cluster, buf: &mut Vec<u8>) -> (r: Result<usize, ErrorKind>)
        requires
            old(self).wf(),
            c.0 >= 2,
        ensures
            final(self).wf(),
            final(self).same_fs(*old(self)),
            r matches Ok(n) ==> final(buf)@ == old(buf)@ + old(self).cluster_bytes(c) && n == old(
                self,
            ).cluster_bytes(c).len(),
            cluster_first_sector(old(self).data_start_sector as nat, old(self).sectors_per_cluster as nat, c)
                + old(self).sectors_per_cluster > u64::MAX ==> r == Err::<usize, ErrorKind>(
                ErrorKind::InvalidInput,
            ),
            r is Err ==> final(buf)@.len() >= old(buf)@.len(),
    {
        let spc = self.sectors_per_cluster as u64;
        let idx = (c.0 - 2) as u64;
        proof {
            assert(idx * spc <= 0xFFFF_FFFF * 255) by (nonlinear_arith)
                requires
                    idx <= 0xFFFF_FFFF,
                    spc <= 255,
            ;
        }
        if self.data_start_sector > u64::MAX - idx * spc - spc {
            return Err(ErrorKind::InvalidInput);
        }
        let first = self.data_start_sector + idx * spc;
        let ghost fs0 = *self;
        let ghost base = buf@;
        let base_len = buf.len();
        let mut i: u64 = 0;
        while i < spc
            invariant
                self.wf(),
                self.same_fs(fs0),
                fs0 == *old(self),
                i <= spc,
                first + spc <= u64::MAX,
                first == cluster_first_sector(fs0.data_start_sector as nat, fs0.sectors_per_cluster as nat, c),
                spc == fs0.sectors_per_cluster,
                buf@ == base + fs0.sectors_bytes(first as nat, i as nat),
                base == old(buf)@,
                base_len == base.len(),
            decreases spc - i,
        {
            let data = self.get_sector(first + i)?;
            let mut j: usize = 0;
            let ghost mid = buf@;
            while j < data.len()
                invariant
                    j <= data@.len(),
                    buf@ == mid + data@.take(j as int),
                decreases data@.len() - j,
            {
                buf.push(data[j]);
                j = j + 1;
                assert(buf@ =~= mid + data@.take(j as int));
            }
            assert(data@.take(data@.len() as int) =~= data@);
            i = i + 1;
            assert(buf@ =~= base + fs0.sectors_bytes(first as nat, i as nat));
        }
        Ok(buf.len() - base_len)
    }

    /// Reads the whole cluster chain that starts at `start` and appends its
    /// bytes to `buf`. A free, reserved or bad entry in the chain, or a chain
    /// longer than the FAT, gives `InvalidData`.
    pub fn read_chain(&mut self, start: Cluster, buf: &mut Vec<u8>) -> (r: Result<usize, ErrorKind>)
        requires
            old(self).wf(),
        ensures
            final(self).wf(),
            final(self).same_fs(*old(self)),
            r matches Ok(n) ==> old(self).chain(start, old(self).fat_entries() + 1) matches Some(bytes)
                && final(buf)@ == old(buf)@ + bytes && n == bytes.len(),
            old(self).chain(start, old(self).fat_entries() + 1) is None ==> r is Err,
    {
        let ghost fs0 = *self;
        assert(self.sectors_per_fat * self.bytes_per_sector <= 0xFFFF_FFFF * 0xFFFF) by (nonlinear_arith);
        let fuel_total: u64 = self.sectors_per_fat as u64 * self.bytes_per_sector as u64 / 4 + 1;
        let mut fuel: u64 = fuel_total;
        let mut cluster = start;
        let mut total: usize = 0;
        let ghost base = buf@;
        let ghost mut read: Seq<u8> = seq![];
        loop
            invariant
                self.wf(),
                self.same_fs(fs0),
                fs0 == *old(self),
                base == old(buf)@,
                buf@ == base + read,
                total == read.len(),
                fuel <= fuel_total,
                fuel_total == fs0.fat_entries() + 1,
                forall|rest: Seq<u8>|
                    fs0.chain(cluster, fuel as nat) == Some(rest) ==> fs0.chain(start, fuel_total as nat)
                        == Some(read + rest),
            decreases fuel,
        {
            if fuel == 0 || cluster.0 < 2 {
                return Err(ErrorKind::InvalidData);
            }
            let ghost cur = *self;
            let entry = self.fat_entry(cluster)?;
            let status = entry.status();
            let ghost cur2 = *self;
            proof {
                assert(cur.fat_value(cluster) == fs0.fat_value(cluster));
                VFat::lemma_same_fs_bytes(cur2, fs0, cluster_first_sector(fs0.data_start_sector as nat, fs0.sectors_per_cluster as nat, cluster), fs0.sectors_per_cluster as nat);
            }
            match status {
                Status::Data(next) => {
                    let n = self.append_cluster_data(cluster, buf)?;
                    if total > usize::MAX - n {
                        return Err(ErrorKind::Other);
                    }
                    total = total + n;
                    proof {
                        let cb = fs0.cluster_bytes(cluster);
                        assert forall|rest: Seq<u8>|
                            fs0.chain(next, (fuel - 1) as nat) == Some(rest) implies fs0.chain(
                                start,
                                fuel_total as nat,
                            ) == Some((read + cb) + rest) by {
                            assert(fs0.chain(cluster, fuel as nat) == Some(cb + rest));
                            assert(read + (cb + rest) =~= (read + cb) + rest);
                        }
                        read = read + cb;
                    }
                    cluster = next;
                    fuel = fuel - 1;
                },
                Status::Eoc(_) => {
                    let n = self.append_cluster_data(cluster, buf)?;
                    if total > usize::MAX - n {
                        return Err(ErrorKind::Other);
                    }
                    proof {
                        let cb = fs0.cluster_bytes(cluster);
                        assert(fs0.chain(cluster, fuel as nat) == Some(cb));
                        assert(buf@ =~= base + (read + cb));
                    }
                    return Ok(total + n);
                },
                _ => {
                    return Err(ErrorKind::InvalidData);
                },
            }
        }
    }
}

} // verus!
