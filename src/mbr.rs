//! The master boot record (MBR) and its partition table.
use vstd::prelude::*;
use crate::bytes::{le16, le32, prefix_upto, read_u16, read_u32};
use crate::device::BlockDevice;
use crate::io::ErrorKind;

verus! {

/// The size of the MBR.
pub const MBR_SIZE: usize = 512;

/// The offset of the partition table.
pub const PARTITION_TABLE_OFFSET: usize = 446;

/// The size of one partition entry.
pub const PARTITION_ENTRY_SIZE: usize = 16;

/// A cylinder-head-sector address.
#[derive(Clone, Copy, Debug, PartialEq, Eq, Structural)]
pub struct CHS {
    pub head: u8,
    pub sector_cylinder_upper: u8,
    pub cylinder_lower: u8,
}

impl CHS {
    /// The sector: the low six bits of the second byte.
    pub fn sector(self) -> (r: u8)
        ensures
            r == self.sector_cylinder_upper & 0b0011_1111,
    {
        self.sector_cylinder_upper & 0b0011_1111
    }

    /// The cylinder: the top two bits of the second byte over the third.
    pub fn cylinder(self) -> (r: u16)
        ensures
            r == ((self.sector_cylinder_upper & 0b1100_0000) as u16) * 4 + self.cylinder_lower as u16,
    {
        let scu = self.sector_cylinder_upper;
        let upper = (scu & 0b1100_0000) as u16;
        assert(scu & 0b1100_0000 <= 0b1100_0000) by (bit_vector);
        upper * 4 + self.cylinder_lower as u16
    }
}

/// The boot indicator of a partition.
#[derive(Clone, Copy, Debug, PartialEq, Eq, Structural)]
pub struct BootIndicator(pub u8);

impl BootIndicator {
    /// Valid indicators are 0x00 (not bootable) and 0x80 (active).
    pub open spec fn valid(self) -> bool {
        self.0 == 0x00 || self.0 == 0x80
    }

    pub fn is_valid(&self) -> (r: bool)
        ensures
            r == self.valid(),
    {
        self.0 == 0x00 || self.0 == 0x80
    }
}

/// The FAT32 partition types.
#[derive(Clone, Copy, Debug, PartialEq, Eq, Structural)]
pub enum PartitionType {
    Fat32,
    Fat32Alt,
}

/// The partition type that a type byte names, if it is FAT32.
pub open spec fn spec_partition_type(b: u8) -> Option<PartitionType> {
    if b == 0x0B {
        Some(PartitionType::Fat32)
    } else if b == 0x0C {
        Some(PartitionType::Fat32Alt)
    } else {
        None
    }
}

/// One entry of the partition table.
#[derive(Clone, Copy, Debug, PartialEq, Eq, Structural)]
pub struct PartitionEntry {
    pub boot_indicator: BootIndicator,
    pub starting_chs: CHS,
    pub partition_type: u8,
    pub ending_chs: CHS,
    pub relative_sector: u32,
    pub total_sectors: u32,
}

impl PartitionEntry {
    /// The FAT32 type of this partition, or `None` for any other type.
    pub fn fat_type(&self) -> (r: Option<PartitionType>)
        ensures
            r == spec_partition_type(self.partition_type),
    {
        if self.partition_type == 0x0B {
            Some(PartitionType::Fat32)
        } else if self.partition_type == 0x0C {
            Some(PartitionType::Fat32Alt)
        } else {
            None
        }
    }

    /// Whether this is a FAT32 partition (type 0x0B or 0x0C).
    pub fn is_fat(&self) -> (r: bool)
        ensures
            r == (self.partition_type == 0x0B || self.partition_type == 0x0C),
    {
        self.partition_type == 0x0B || self.partition_type == 0x0C
    }
}

/// The partition entry that the 16 bytes at `o` encode.
pub open spec fn entry_at(b: Seq<u8>, o: int) -> PartitionEntry {
    PartitionEntry {
        boot_indicator: BootIndicator(b[o]),
        starting_chs: CHS { head: b[o + 1], sector_cylinder_upper: b[o + 2], cylinder_lower: b[o + 3] },
        partition_type: b[o + 4],
        ending_chs: CHS { head: b[o + 5], sector_cylinder_upper: b[o + 6], cylinder_lower: b[o + 7] },
        relative_sector: le32(b, o + 8) as u32,
        total_sectors: le32(b, o + 12) as u32,
    }
}

/// The offset of partition entry `i`.
pub open spec fn entry_offset(i: int) -> int {
    446 + 16 * i
}

/// The errors of reading an MBR.
#[derive(Clone, Copy, Debug, PartialEq, Eq, Structural)]
pub enum Error {
    /// An I/O error while reading the MBR.
    Io(ErrorKind),
    /// Partition `.0` (0-indexed) holds an invalid boot indicator.
    UnknownBootIndicator(u8),
    /// The MBR's signature is not 0xAA55.
    BadSignature,
}

/// The master boot record.
#[derive(Clone, Copy, Debug)]
pub struct MasterBootRecord {
    pub disk_id: [u8; 10],
    pub partition_table: [PartitionEntry; 4],
    pub signature: u16,
}

/// The index of the first partition entry of `b` with an invalid boot
/// indicator, searching from entry `i`.
pub open spec fn first_bad_indicator(b: Seq<u8>, i: int) -> Option<int>
    decreases 4 - i,
{
    if i >= 4 {
        None
    } else if !BootIndicator(b[entry_offset(i)]).valid() {
        Some(i)
    } else {
        first_bad_indicator(b, i + 1)
    }
}

/// What reading the MBR from the bytes `b` of sector 0 gives.
pub open spec fn mbr_result(b: Seq<u8>) -> Result<MasterBootRecord, Error> {
    if b.len() != 512 {
        Err(Error::Io(ErrorKind::UnexpectedEof))
    } else if le16(b, 510) != 0xAA55 {
        Err(Error::BadSignature)
    } else {
        match first_bad_indicator(b, 0) {
            Some(i) => Err(Error::UnknownBootIndicator(i as u8)),
            None => Ok(
                MasterBootRecord {
                    disk_id: [b[436], b[437], b[438], b[439], b[440], b[441], b[442], b[443], b[444], b[445]],
                    partition_table: [entry_at(b, 446), entry_at(b, 462), entry_at(b, 478), entry_at(b, 494)],
                    signature: 0xAA55,
                },
            ),
        }
    }
}

fn read_entry(b: &Vec<u8>, o: usize) -> (r: PartitionEntry)
    requires
        o + 16 <= b@.len(),
    ensures
        r == entry_at(b@, o as int),
{
    assert(o + 16 <= b.len());
    PartitionEntry {
        boot_indicator: BootIndicator(b[o]),
        starting_chs: CHS { head: b[o + 1], sector_cylinder_upper: b[o + 2], cylinder_lower: b[o + 3] },
        partition_type: b[o + 4],
        ending_chs: CHS { head: b[o + 5], sector_cylinder_upper: b[o + 6], cylinder_lower: b[o + 7] },
        relative_sector: read_u32(b, o + 8),
        total_sectors: read_u32(b, o + 12),
    }
}

impl MasterBootRecord {
    /// Parses an MBR from the bytes of sector 0: exactly 512 of them, with
    /// the signature 0xAA55 at 510 and a valid boot indicator in each of the
    /// four partition entries.
    pub fn from_bytes(b: &Vec<u8>) -> (r: Result<MasterBootRecord, Error>)
        ensures
            r == mbr_result(b@),
    {
        if b.len() != MBR_SIZE {
            return Err(Error::Io(ErrorKind::UnexpectedEof));
        }
        let signature = read_u16(b, 510);
        if signature != 0xAA55 {
            return Err(Error::BadSignature);
        }
        let mut i: usize = 0;
        while i < 4
            invariant
                i <= 4,
                b@.len() == 512,
                le16(b@, 510) == 0xAA55,
                signature == 0xAA55,
                first_bad_indicator(b@, 0) == first_bad_indicator(b@, i as int),
            decreases 4 - i,
        {
            if !BootIndicator(b[PARTITION_TABLE_OFFSET + PARTITION_ENTRY_SIZE * i]).is_valid() {
                assert(first_bad_indicator(b@, i as int) == Some(i as int));
                return Err(Error::UnknownBootIndicator(i as u8));
            }
            i = i + 1;
        }
        let disk_id = [b[436], b[437], b[438], b[439], b[440], b[441], b[442], b[443], b[444], b[445]];
        let partition_table = [read_entry(b, 446), read_entry(b, 462), read_entry(b, 478), read_entry(b, 494)];
        let r = MasterBootRecord { disk_id, partition_table, signature };
        assert(r.disk_id@ =~= [b@[436], b@[437], b@[438], b@[439], b@[440], b@[441], b@[442], b@[443], b@[444], b@[445]]@);
        Ok(r)
    }

    /// Reads the MBR from sector 0 of `device`. The result is either an I/O
    /// error of the device, or what `from_bytes` gives on the sector's bytes.
    pub fn from<T: BlockDevice>(device: &mut T) -> (r: Result<MasterBootRecord, Error>)
        ensures
            r matches Err(Error::Io(_)) || r == mbr_result(prefix_upto(old(device).sector(0), 512)),
            r is Ok ==> r == mbr_result(prefix_upto(old(device).sector(0), 512)),
            forall|m: u64| #[trigger] final(device).sector(m) == old(device).sector(m),
            final(device).spec_sector_size() == old(device).spec_sector_size(),
    {
        let mut sector: Vec<u8> = vec![0u8; MBR_SIZE];
        match device.read_sector(0, &mut sector) {
            Err(e) => Err(Error::Io(e)),
            Ok(n) => {
                if n != MBR_SIZE {
                    return Err(Error::Io(ErrorKind::UnexpectedEof));
                }
                proof {
                    assert(sector@ =~= prefix_upto(old(device).sector(0), 512));
                }
                MasterBootRecord::from_bytes(&sector)
            },
        }
    }

    /// Partition entry `i`.
    pub fn partition_at(&self, i: usize) -> (r: PartitionEntry)
        requires
            i < 4,
        ensures
            r == self.partition_table[i as int],
    {
        self.partition_table[i]
    }
}

} // verus!
