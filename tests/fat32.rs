use pios::cache::{CachedDevice, Partition};
use pios::cluster::{Cluster, FatEntry, Status};
use pios::device::{BlockDevice, MemDevice};
use pios::dir::{Dir, DirIterator, EntryData, VFatRegularDirEntry, DIR_ENTRY_SIZE};
use pios::ebpb::BiosParameterBlock;
use pios::file::{File, SeekFrom};
use pios::io::ErrorKind;
use pios::mbr::{Error as MbrError, MasterBootRecord, CHS};
use pios::metadata::{Date, Time};
use pios::vfat::{Error, VFat};

#[test]
fn mbr_test_block_size_small() {
    let data = vec![0u8; 511];
    let result = MasterBootRecord::from(&mut MemDevice::new(data));
    match result.expect_err("EOF") {
        MbrError::Io(kind) => assert_eq!(kind, ErrorKind::UnexpectedEof),
        _ => assert!(false, "Invalid error"),
    }
}

#[test]
fn mbr_test_simple_block() {
    let mut data = vec![0u8; 512];
    data[446] = 0x00;
    data[462] = 0x00;
    data[478] = 0x00;
    data[494] = 0x00;
    data[510] = 0x55;
    data[511] = 0xAA;
    MasterBootRecord::from(&mut MemDevice::new(data)).expect("Valid block");
}

#[test]
fn mbr_test_invalid_signature() {
    let mut data = vec![0u8; 512];
    let check = |data: &Vec<u8>| MasterBootRecord::from(&mut MemDevice::new(data.clone()));
    match check(&data).expect_err("Signature") {
        MbrError::BadSignature => (),
        _ => assert!(false, "Invalid error"),
    }

    data[510] = 0x55;
    data[511] = 0xAB;
    match check(&data).expect_err("Signature") {
        MbrError::BadSignature => (),
        _ => assert!(false, "Invalid error"),
    }

    data[511] = 0xAA;
    data[446] = 0x01;
    match check(&data).expect_err("Signature") {
        MbrError::UnknownBootIndicator(0) => (),
        _ => assert!(false, "Invalid error"),
    }

    data[511] = 0xAA;
    data[446] = 0x00;
    data[462] = 0x01;
    match check(&data).expect_err("Signature") {
        MbrError::UnknownBootIndicator(1) => (),
        _ => assert!(false, "Invalid error"),
    }

    data[462] = 0x00;
    data[478] = 0x01;
    match check(&data).expect_err("Signature") {
        MbrError::UnknownBootIndicator(2) => (),
        _ => assert!(false, "Invalid error"),
    }

    data[478] = 0x00;
    data[494] = 0x01;
    match check(&data).expect_err("Signature") {
        MbrError::UnknownBootIndicator(3) => (),
        _ => assert!(false, "Invalid error"),
    }
}

#[test]
fn mbr_partition_fields() {
    let mut data = vec![0u8; 512];
    data[446] = 0x80;
    data[446 + 1] = 3;
    data[446 + 2] = 0b1100_0101;
    data[446 + 3] = 7;
    data[446 + 4] = 0x0C;
    data[446 + 8..446 + 12].copy_from_slice(&0x0102_0304u32.to_le_bytes());
    data[446 + 12..446 + 16].copy_from_slice(&77u32.to_le_bytes());
    data[510] = 0x55;
    data[511] = 0xAA;
    let mbr = MasterBootRecord::from_bytes(&data).expect("valid");
    let p = mbr.partition_at(0);
    assert!(p.boot_indicator.is_valid());
    assert!(p.is_fat());
    assert_eq!(p.relative_sector, 0x0102_0304);
    assert_eq!(p.total_sectors, 77);
    assert_eq!(p.starting_chs.sector(), 0b00_0101);
    assert_eq!(p.starting_chs.cylinder(), (0b11 << 8) | 7);
    assert!(!mbr.partition_at(1).is_fat());
    let chs = CHS { head: 0, sector_cylinder_upper: 0x3F, cylinder_lower: 0 };
    assert_eq!(chs.sector(), 0x3F);
}

#[test]
fn ebpb_test_block_size_small() {
    let data = vec![0u8; 511];
    let result = BiosParameterBlock::from(&mut MemDevice::new(data), 0);
    match result.expect_err("EOF") {
        Error::Io(kind) => assert_eq!(kind, ErrorKind::UnexpectedEof),
        _ => assert!(false, "Invalid error"),
    }
}

#[test]
fn ebpb_test_simple_block() {
    let mut data = vec![0u8; 512];
    data[510] = 0x55;
    data[511] = 0xAA;
    BiosParameterBlock::from(&mut MemDevice::new(data), 0).expect("Valid block");
}

#[test]
fn ebpb_test_invalid_signature() {
    let mut data = vec![0u8; 512];
    match BiosParameterBlock::from(&mut MemDevice::new(data.clone()), 0).expect_err("Signature") {
        Error::BadSignature => (),
        _ => assert!(false, "Invalid error"),
    }
    data[510] = 0x55;
    data[511] = 0xAB;
    match BiosParameterBlock::from(&mut MemDevice::new(data), 0).expect_err("Signature") {
        Error::BadSignature => (),
        _ => assert!(false, "Invalid error"),
    }
}

#[test]
fn ebpb_derived_sectors() {
    let mut data = vec![0u8; 512];
    data[11..13].copy_from_slice(&512u16.to_le_bytes());
    data[13] = 8;
    data[14..16].copy_from_slice(&32u16.to_le_bytes());
    data[16] = 2;
    data[19..21].copy_from_slice(&0u16.to_le_bytes());
    data[32..36].copy_from_slice(&100_000u32.to_le_bytes());
    data[36..40].copy_from_slice(&1000u32.to_le_bytes());
    data[44..48].copy_from_slice(&2u32.to_le_bytes());
    data[510] = 0x55;
    data[511] = 0xAA;
    let e = BiosParameterBlock::from_bytes(&data).expect("valid");
    assert_eq!(e.bytes_per_sector(), 512);
    assert_eq!(e.sectors_per_cluster(), 8);
    assert_eq!(e.fat_start_sector(), 32);
    assert_eq!(e.data_start_sector(), 32 + 2 * 1000);
    assert_eq!(e.logical_sectors(), 100_000);
    assert_eq!(e.root_cluster(), 2);
}

#[test]
fn validate_sizes() {
    assert_eq!(DIR_ENTRY_SIZE, 32);
    let raw = vec![0x41u8; 32];
    let regular = VFatRegularDirEntry::from_bytes(&raw, 0);
    assert_eq!(regular.filename.len() + regular.extension.len(), 11);
    let lfn = pios::dir::VFatLfnDirEntry::from_bytes(&raw, 0);
    assert_eq!(lfn.name.len(), 13);
}

#[test]
fn cluster_keeps_low_28_bits() {
    for x in [0u32, 1, 2, 0x0FFF_FFFF, 0x1000_0000, 0xFFFF_FFFF, 0xABCD_1234] {
        assert_eq!(Cluster::from(x).0, x & 0x0FFF_FFFF);
    }
    assert!(!Cluster::from(1).is_valid());
    assert!(Cluster::from(2).is_valid());
    assert_eq!(Cluster::from(7).data_index(), 5);
    assert_eq!(Cluster::from(0x1000_0007).fat_index(), 7);
}

#[test]
fn fat_entry_status_table() {
    assert_eq!(FatEntry(0).status(), Status::Free);
    assert_eq!(FatEntry(1).status(), Status::Reserved);
    assert_eq!(FatEntry(2).status(), Status::Data(Cluster(2)));
    assert_eq!(FatEntry(0x0FFF_FFEF).status(), Status::Data(Cluster(0x0FFF_FFEF)));
    assert_eq!(FatEntry(0x0FFF_FFF5).status(), Status::Data(Cluster(0x0FFF_FFF5)));
    assert_eq!(FatEntry(0x0FFF_FFF6).status(), Status::Reserved);
    assert_eq!(FatEntry(0x0FFF_FFF7).status(), Status::Bad);
    assert_eq!(FatEntry(0x0FFF_FFF8).status(), Status::Eoc(0x0FFF_FFF8));
    assert_eq!(FatEntry(0xFFFF_FFFF).status(), Status::Eoc(0x0FFF_FFFF));
    assert_eq!(FatEntry(0xF000_0000).status(), Status::Free);
}

#[test]
fn test_cache_read() {
    let mut data = vec![0u8; 8192];
    data[0] = 1;
    data[7680] = 255;
    let mut cache = CachedDevice::new(MemDevice::new(data), Partition { start: 0, sector_size: 512 });

    let mut sector = vec![0u8; 512];
    assert_eq!(cache.read_sector(0, &mut sector).expect("Valid read"), 512);
    assert_eq!(sector[0], 1);
    assert_eq!(&sector[1..], &[0u8; 511][..]);

    assert_eq!(cache.read_sector(15, &mut sector).expect("Valid read"), 512);
    assert_eq!(sector[0], 255);
    assert_eq!(&sector[1..], &[0u8; 511][..]);

    assert_eq!(cache.read_sector(0, &mut sector).expect("Valid read"), 512);
    assert_eq!(sector[0], 1);
    assert_eq!(&sector[1..], &[0u8; 511][..]);
}

#[test]
fn test_cache_write() {
    let data = vec![0u8; 8192];
    let mut cache = CachedDevice::new(MemDevice::new(data), Partition { start: 0, sector_size: 512 });

    let mut sector = vec![0u8; 512];
    sector[0] = 255;
    assert_eq!(cache.write_sector(0, &sector).expect("Valid write"), 512);
    assert!(cache.is_dirty(0));

    let mut read_sector = vec![0u8; 512];
    assert_eq!(cache.read_sector(0, &mut read_sector).expect("Valid read"), 512);
    assert_eq!(read_sector[0], 255);
    assert_eq!(&read_sector[1..], &[0u8; 511][..]);

    assert_eq!(cache.device().get_ref()[0], 0);
    assert_eq!(cache.write_sector(0, &vec![1u8; 10]), Err(ErrorKind::UnexpectedEof));
}

#[test]
fn test_partition() {
    let mut data = vec![0u8; 8192];
    data[2048] = 1;
    data[512] = 255;
    let mut cache = CachedDevice::new(MemDevice::new(data), Partition { start: 2, sector_size: 1024 });

    let mut physical_sector = vec![0u8; 512];
    assert_eq!(cache.read_sector(1, &mut physical_sector).expect("Valid read"), 512);
    assert_eq!(physical_sector[0], 255);
    assert_eq!(&physical_sector[1..], &[0u8; 511][..]);

    let mut sector = vec![0u8; 1024];
    assert_eq!(cache.read_sector(3, &mut sector).expect("Valid read"), 1024);
    assert_eq!(sector[0], 1);
    assert_eq!(&sector[1..], &[0u8; 1023][..]);
}

#[test]
fn test_bounds() {
    let data = vec![0u8; 512];
    let mut cache = CachedDevice::new(MemDevice::new(data), Partition { start: 0, sector_size: 512 });
    let mut sector = vec![0u8; 512];
    cache.read_sector(1, &mut sector).expect_err("Out of bounds");
}

#[test]
fn cache_virtual_to_physical() {
    let cache = CachedDevice::new(MemDevice::new(vec![]), Partition { start: 10, sector_size: 2048 });
    assert_eq!(cache.virtual_to_physical(0), Some((0, 1)));
    assert_eq!(cache.virtual_to_physical(9), Some((9, 1)));
    assert_eq!(cache.virtual_to_physical(10), Some((10, 4)));
    assert_eq!(cache.virtual_to_physical(13), Some((22, 4)));
    assert_eq!(cache.virtual_to_physical(u64::MAX), None);
}

/// An image with an MBR whose first partition (FAT32 at relative sector 2)
/// has 1024-byte sectors, 2 per cluster, 1 reserved, 1 FAT of 2 sectors and
/// the root directory at cluster 2.
fn test_image() -> Vec<u8> {
    let mut data = vec![0u8; 16384];
    let p1_offset = 446;
    data[p1_offset] = 0x80;
    data[p1_offset + 4] = 0xB;
    data[p1_offset + 8] = 2;
    data[510] = 0x55;
    data[511] = 0xAA;

    let ebpb = &mut data[1024..1536];
    ebpb[11..13].copy_from_slice(&1024u16.to_le_bytes());
    ebpb[13] = 2;
    ebpb[14..16].copy_from_slice(&1u16.to_le_bytes());
    ebpb[16] = 1;
    ebpb[36..40].copy_from_slice(&2u32.to_le_bytes());
    ebpb[44..48].copy_from_slice(&2u32.to_le_bytes());
    ebpb[510] = 0x55;
    ebpb[511] = 0xAA;
    data
}

#[test]
fn test_vfat_parse() {
    let vfat = VFat::from(MemDevice::new(test_image())).expect("Create VFat");
    assert_eq!(vfat.bytes_per_sector, 1024);
    assert_eq!(vfat.sectors_per_cluster, 2);
    assert_eq!(vfat.sectors_per_fat, 2);
    assert_eq!(vfat.fat_start_sector, 3);
    assert_eq!(vfat.data_start_sector, 5);
    assert_eq!(vfat.root_dir_cluster, Cluster(2));
}

#[test]
fn vfat_without_fat_partition_is_not_found() {
    let mut data = test_image();
    data[446 + 4] = 0x83;
    assert!(matches!(VFat::from(MemDevice::new(data)), Err(Error::NotFound)));
}

/// Logical sector `n` of the partition of `test_image` starts at byte
/// `(2 + 2 * (n - 2)) * 512`.
fn logical(n: usize) -> usize {
    (2 + 2 * (n - 2)) * 512
}

fn set_fat(data: &mut Vec<u8>, cluster: usize, value: u32) {
    let at = logical(3) + cluster * 4;
    data[at..at + 4].copy_from_slice(&value.to_le_bytes());
}

fn short_entry(name: &[u8; 8], ext: &[u8; 3], attributes: u8, cluster: u32, size: u32) -> Vec<u8> {
    let mut e = vec![0u8; 32];
    e[0..8].copy_from_slice(name);
    e[8..11].copy_from_slice(ext);
    e[11] = attributes;
    e[20..22].copy_from_slice(&((cluster >> 16) as u16).to_le_bytes());
    e[26..28].copy_from_slice(&(cluster as u16).to_le_bytes());
    e[28..32].copy_from_slice(&size.to_le_bytes());
    e
}

fn lfn_entry(seq: u8, text: &str) -> Vec<u8> {
    let mut units: Vec<u16> = text.encode_utf16().collect();
    if units.len() < 13 {
        units.push(0);
    }
    while units.len() < 13 {
        units.push(0xFFFF);
    }
    let mut e = vec![0u8; 32];
    e[0] = seq;
    e[11] = 0x0F;
    let offsets = [1, 3, 5, 7, 9, 14, 16, 18, 20, 22, 24, 28, 30];
    for (k, at) in offsets.iter().enumerate() {
        e[*at..*at + 2].copy_from_slice(&units[k].to_le_bytes());
    }
    e
}

#[test]
fn directory_iteration_slots() {
    let mut data = Vec::new();
    data.extend(lfn_entry(2, "ng name.txt"));
    data.extend(short_entry(b"GONE    ", b"TXT", 0, 9, 1).iter().enumerate().map(|(i, b)| if i == 0 { 0xE5 } else { *b }));
    data.extend(lfn_entry(0x41, "a very lo"));
    data.extend(short_entry(b"AVERYL~1", b"TXT", 0x20, 5, 42));
    data.extend(short_entry(b"DOCS    ", b"   ", 0x10, 0x0001_0003, 0));
    data.extend(short_entry(b"README  ", b"MD ", 0x01, 7, 3));
    data.extend(vec![0u8; 32]);
    data.extend(short_entry(b"HIDDEN  ", b"   ", 0, 8, 1));

    let mut it = DirIterator::new(data);
    let e = it.next().expect("first entry");
    assert_eq!(e.name(), "a very long name.txt");
    match e.item {
        EntryData::File(f) => {
            assert_eq!(f.start(), Cluster(5));
            assert_eq!(f.size(), 42);
        },
        EntryData::Dir(_) => assert!(false),
    }

    let e = it.next().expect("second entry");
    assert_eq!(e.name(), "DOCS");
    assert!(e.is_dir());
    assert_eq!(e.as_dir().map(|d| d.start), Some(Cluster(0x0001_0003)));

    let e = it.next().expect("third entry");
    assert_eq!(e.name(), "README.MD");
    assert!(e.metadata().read_only());

    assert!(it.next().is_none());
    assert!(it.next().is_none());
}

#[test]
fn metadata_fields() {
    let date = Date((44 << 9) | (7 << 5) | 19);
    assert_eq!(date.year(), 2024);
    assert_eq!(date.month(), 7);
    assert_eq!(date.day(), 19);
    let time = Time((13 << 11) | (45 << 5) | 21);
    assert_eq!(time.hour(), 13);
    assert_eq!(time.minute(), 45);
    assert_eq!(time.second(), 42);
}

#[test]
fn vfat_reads_chains_files_and_directories() {
    let mut data = test_image();
    // Root directory at cluster 2, a file at clusters 3 -> 4.
    set_fat(&mut data, 2, 0x0FFF_FFFF);
    set_fat(&mut data, 3, 4);
    set_fat(&mut data, 4, 0x0FFF_FFF8);
    let cluster_bytes = 2048;
    let root = logical(5);
    data[root..root + 32].copy_from_slice(&short_entry(b"HELLO   ", b"TXT", 0x20, 3, 2500));
    for i in 0..2500usize {
        let at = if i < cluster_bytes { logical(7) + i } else { logical(9) + i - cluster_bytes };
        data[at] = (i % 251) as u8;
    }

    let mut vfat = VFat::from(MemDevice::new(data)).expect("mount");
    let mut chain = Vec::new();
    assert_eq!(vfat.read_chain(Cluster(3), &mut chain), Ok(4096));
    assert_eq!(chain[2049], (2049 % 251) as u8);

    let root_dir = Dir::new(vfat.root_dir_cluster);
    let entry = root_dir.find(&mut vfat, "hello.TXT").expect("found");
    assert_eq!(entry.name(), "HELLO.TXT");
    assert!(matches!(root_dir.find(&mut vfat, "nothing"), Err(ErrorKind::NotFound)));

    let mut file = entry.as_file().expect("a file");
    assert_eq!(file.seek(SeekFrom::Start(2040)), Ok(2040));
    let mut buf = vec![0u8; 20];
    assert_eq!(file.read(&mut vfat, &mut buf), Ok(20));
    for (k, b) in buf.iter().enumerate() {
        assert_eq!(*b, ((2040 + k) % 251) as u8);
    }
    assert_eq!(file.seek(SeekFrom::End(-10)), Ok(2490));
    let mut buf = vec![0u8; 64];
    assert_eq!(file.read(&mut vfat, &mut buf), Ok(10));
    assert_eq!(file.read(&mut vfat, &mut buf), Ok(0));
    assert_eq!(file.seek(SeekFrom::End(1)), Err(ErrorKind::InvalidInput));
    assert_eq!(file.seek(SeekFrom::Current(-3000)), Err(ErrorKind::InvalidInput));
    assert_eq!(file.seek(SeekFrom::Current(-500)), Ok(2000));
    assert_eq!(file.pointer(), 2000);

    set_fat_after_mount_is_invisible(&mut vfat);
}

fn set_fat_after_mount_is_invisible(vfat: &mut VFat<MemDevice>) {
    let mut chain = Vec::new();
    assert_eq!(vfat.read_chain(Cluster(2), &mut chain), Ok(2048));
    let mut bad = Vec::new();
    assert_eq!(vfat.read_chain(Cluster(5), &mut bad), Err(ErrorKind::InvalidData));
}

#[test]
fn file_seek_bounds() {
    let mut f = File::new(Cluster(2), 100);
    assert_eq!(f.seek(SeekFrom::Start(100)), Ok(100));
    assert_eq!(f.seek(SeekFrom::Start(101)), Err(ErrorKind::InvalidInput));
    assert_eq!(f.seek(SeekFrom::End(0)), Ok(100));
    assert_eq!(f.seek(SeekFrom::End(-100)), Ok(0));
    assert_eq!(f.seek(SeekFrom::End(-101)), Err(ErrorKind::InvalidInput));
    assert_eq!(f.seek(SeekFrom::Current(i64::MIN)), Err(ErrorKind::InvalidInput));
    assert_eq!(f.seek(SeekFrom::Current(60)), Ok(60));
    assert_eq!(f.pointer(), 60);
}

#[test]
fn vfat_read_cluster_from_offset() {
    let mut data = test_image();
    let start = logical(7);
    for i in 0..2048usize {
        data[start + i] = (i % 199) as u8;
    }
    let mut vfat = VFat::from(MemDevice::new(data)).expect("mount");
    let mut buf = vec![0u8; 2000];
    // Byte 1030 of cluster 3 lies in its second sector, 6 bytes in.
    assert_eq!(vfat.read_cluster(Cluster(3), 1030, &mut buf), Ok(1018));
    assert_eq!(buf[0], (1030 % 199) as u8);
    assert_eq!(buf[1017], (2047 % 199) as u8);
    assert_eq!(buf[1018], 0);
}

#[test]
fn vfat_mount_errors() {
    assert!(matches!(VFat::from(MemDevice::new(vec![0u8; 511])), Err(Error::Device(ErrorKind::UnexpectedEof))));

    let mut data = test_image();
    data[1024 + 11..1024 + 13].copy_from_slice(&256u16.to_le_bytes());
    assert!(matches!(VFat::from(MemDevice::new(data)), Err(Error::BadGeometry)));

    let mut data = test_image();
    data[1024 + 511] = 0;
    assert!(matches!(VFat::from(MemDevice::new(data)), Err(Error::BadSignature)));

    let mut data = test_image();
    data[446] = 0x01;
    assert!(matches!(VFat::from(MemDevice::new(data)), Err(Error::Mbr(MbrError::UnknownBootIndicator(0)))));
}

#[test]
fn vfat_geometry_from_bytes() {
    let data = test_image();
    assert_eq!(pios::vfat::partition_start(&data[0..512].to_vec()), Ok(2));
    let g = pios::vfat::geometry(2, &data[1024..1536].to_vec(), 512).expect("geometry");
    assert_eq!(g.fat_start_sector, 3);
    assert_eq!(g.data_start_sector, 5);
    assert_eq!(pios::vfat::geometry(2, &data[1024..1536].to_vec(), 2048), Err(Error::BadGeometry));
}
