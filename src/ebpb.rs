//! The FAT32 extended BIOS parameter block (EBPB).
use vstd::prelude::*;
use crate::bytes::{le16, le32, prefix_upto, read_u16, read_u32};
use crate::device::BlockDevice;
use crate::io::ErrorKind;
use crate::vfat::Error;

verus! {

/// The size of the EBPB.
pub const EBPB_SIZE: usize = 512;

/// The fields of the EBPB that the filesystem reads.
#[derive(Clone, Copy, Debug, PartialEq, Eq, Structural)]
pub struct BiosParameterBlock {
    pub bytes_per_sector: u16,
    pub sectors_per_cluster: u8,
    pub reserved_sectors: u16,
    pub fat_count: u8,
    pub max_dir_entries: u16,
    pub logical_sectors_16: u16,
    pub media_descriptor_type: u8,
    pub logical_sectors_32: u32,
    pub sectors_per_fat_32: u32,
    pub flags: u16,
    pub root_cluster: u32,
    pub fsinfo_sector: u16,
    pub backup_boot_sector: u16,
    pub drive_number: u8,
    pub signature: u8,
    pub volumeid_serial: u32,
    pub bootable_partition_signature: u16,
}

/// The EBPB that the 512 bytes `b` encode.
pub open spec fn ebpb_fields(b: Seq<u8>) -> BiosParameterBlock {
    BiosParameterBlock {
        bytes_per_sector: le16(b, 11) as u16,
        sectors_per_cluster: b[13],
        reserved_sectors: le16(b, 14) as u16,
        fat_count: b[16],
        max_dir_entries: le16(b, 17) as u16,
        logical_sectors_16: le16(b, 19) as u16,
        media_descriptor_type: b[21],
        logical_sectors_32: le32(b, 32) as u32,
        sectors_per_fat_32: le32(b, 36) as u32,
        flags: le16(b, 40) as u16,
        root_cluster: le32(b, 44) as u32,
        fsinfo_sector: le16(b, 48) as u16,
        backup_boot_sector: le16(b, 50) as u16,
        drive_number: b[64],
        signature: b[66],
        volumeid_serial: le32(b, 67) as u32,
        bootable_partition_signature: le16(b, 510) as u16,
    }
}

/// What reading the EBPB from the bytes `b` of its sector gives.
pub open spec fn ebpb_result(b: Seq<u8>) -> Result<BiosParameterBlock, Error> {
    if b.len() != 512 {
        Err(Error::Io(ErrorKind::UnexpectedEof))
    } else if le16(b, 510) != 0xAA55 {
        Err(Error::BadSignature)
    } else {
        Ok(ebpb_fields(b))
    }
}

impl BiosParameterBlock {
    /// Parses the EBPB from the bytes of its sector: exactly 512 of them,
    /// with the signature 0xAA55 at 510.
    pub fn from_bytes(b: &Vec<u8>) -> (r: Result<BiosParameterBlock, Error>)
        ensures
            r == ebpb_result(b@),
    {
        if b.len() != EBPB_SIZE {
            return Err(Error::Io(ErrorKind::UnexpectedEof));
        }
        let sig = read_u16(b, 510);
        if sig != 0xAA55 {
            return Err(Error::BadSignature);
        }
        Ok(BiosParameterBlock {
            bytes_per_sector: read_u16(b, 11),
            sectors_per_cluster: b[13],
            reserved_sectors: read_u16(b, 14),
            fat_count: b[16],
            max_dir_entries: read_u16(b, 17),
            logical_sectors_16: read_u16(b, 19),
            media_descriptor_type: b[21],
            logical_sectors_32: read_u32(b, 32),
            sectors_per_fat_32: read_u32(b, 36),
            flags: read_u16(b, 40),
            root_cluster: read_u32(b, 44),
            fsinfo_sector: read_u16(b, 48),
            backup_boot_sector: read_u16(b, 50),
            drive_number: b[64],
            signature: b[66],
            volumeid_serial: read_u32(b, 67),
            bootable_partition_signature: sig,
        })
    }

    /// Reads the EBPB from sector `sector` of `device`. The result is either
    /// an I/O error of the device, or what `from_bytes` gives on the first
    /// 512 bytes of the sector.
    pub fn from<T: BlockDevice>(device: &mut T, sector: u64) -> (r: Result<BiosParameterBlock, Error>)
        ensures
            r matches Err(Error::Io(_)) || r == ebpb_result(prefix_upto(old(device).sector(sector), 512)),
            r is Ok ==> r == ebpb_result(prefix_upto(old(device).sector(sector), 512)),
            forall|m: u64| #[trigger] final(device).sector(m) == old(device).sector(m),
            final(device).spec_sector_size() == old(device).spec_sector_size(),
    {
        let mut data: Vec<u8> = vec![0u8; EBPB_SIZE];
        match device.read_sector(sector, &mut data) {
            Err(e) => Err(Error::Io(e)),
            Ok(n) => {
                if n != EBPB_SIZE {
                    return Err(Error::Io(ErrorKind::UnexpectedEof));
                }
                proof {
                    assert(data@ =~= prefix_upto(old(device).sector(sector), 512));
                }
                BiosParameterBlock::from_bytes(&data)
            },
        }
    }

    /// The number of logical sectors of the partition: the 16-bit count when
    /// it is non-zero, else the 32-bit one.
    pub fn logical_sectors(&self) -> (r: u32)
        ensures
            r == (if self.logical_sectors_16 != 0 { self.logical_sectors_16 as u32 } else { self.logical_sectors_32 }),
    {
        if self.logical_sectors_16 != 0 {
            self.logical_sectors_16 as u32
        } else {
            self.logical_sectors_32
        }
    }

    pub fn bytes_per_sector(&self) -> (r: u16)
        ensures
            r == self.bytes_per_sector,
    {
        self.bytes_per_sector
    }

    pub fn sectors_per_fat(&self) -> (r: u32)
        ensures
            r == self.sectors_per_fat_32,
    {
        self.sectors_per_fat_32
    }

    pub fn sectors_per_cluster(&self) -> (r: u8)
        ensures
            r == self.sectors_per_cluster,
    {
        self.sectors_per_cluster
    }

    /// The offset, in logical sectors from the partition's start, of the
    /// first FAT.
    pub fn fat_start_sector(&self) -> (r: u64)
        ensures
            r == self.reserved_sectors,
    {
        self.reserved_sectors as u64
    }

    /// The offset, in logical sectors from the partition's start, of the
    /// data region: after the reserved sectors and all the FATs.
    pub fn data_start_sector(&self) -> (r: u64)
        ensures
            r == self.reserved_sectors + self.sectors_per_fat_32 * self.fat_count,
    {
        assert(self.sectors_per_fat_32 * self.fat_count <= 0xFFFF_FFFF * 255) by (nonlinear_arith);
        self.reserved_sectors as u64 + self.sectors_per_fat_32 as u64 * self.fat_count as u64
    }

    pub fn root_cluster(&self) -> (r: u32)
        ensures
            r == self.root_cluster,
    {
        self.root_cluster
    }
}

} // verus!
