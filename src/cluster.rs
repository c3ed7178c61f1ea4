//! FAT32 cluster numbers and file allocation table entries.
use vstd::prelude::*;

verus! {

/// A FAT32 cluster number: 28 bits, the top nibble of the raw value is
/// ignored.
#[derive(Clone, Copy, Debug, PartialEq, Eq, Structural)]
pub struct Cluster(pub u32);

/// The low 28 bits of `x`.
pub open spec fn low28(x: u32) -> u32 {
    (x % 0x1000_0000) as u32
}

impl vstd::std_specs::convert::FromSpecImpl<u32> for Cluster {
    open spec fn obeys_from_spec() -> bool {
        true
    }

    open spec fn from_spec(raw: u32) -> Cluster {
        Cluster(low28(raw))
    }
}

impl From<u32> for Cluster {
    /// Keeps the low 28 bits of `raw`.
    fn from(raw: u32) -> (r: Cluster)
        ensures
            r.0 == raw & 0x0FFF_FFFF,
            r.0 == low28(raw),
    {
        assert(raw & 0x0FFF_FFFF == raw % 0x1000_0000) by (bit_vector);
        Cluster(raw & 0x0FFF_FFFF)
    }
}

impl Cluster {
    /// A cluster is valid when its number is above 1 (0 and 1 are reserved).
    pub open spec fn valid(self) -> bool {
        self.0 > 1
    }

    pub fn is_valid(&self) -> (r: bool)
        ensures
            r == self.valid(),
    {
        self.0 > 1
    }

    /// The index of this cluster's entry in the FAT.
    pub fn fat_index(&self) -> (r: u32)
        ensures
            r == self.0,
    {
        self.0
    }

    /// The index of this cluster in the data region.
    pub fn data_index(&self) -> (r: u32)
        requires
            self.valid(),
        ensures
            r == self.0 - 2,
    {
        self.0 - 2
    }
}

/// The status of a FAT entry.
#[derive(Clone, Copy, Debug, PartialEq, Eq, Structural)]
pub enum Status {
    /// An unused cluster.
    Free,
    /// A reserved cluster.
    Reserved,
    /// A data cluster; the next cluster of the chain is given.
    Data(Cluster),
    /// A bad (failed) cluster.
    Bad,
    /// The last cluster of its chain, with the end-of-chain marker.
    Eoc(u32),
}

/// The classification of a raw FAT entry, by its low 28 bits.
pub open spec fn status_of(raw: u32) -> Status {
    let v = low28(raw);
    if v == 0 {
        Status::Free
    } else if v == 1 {
        Status::Reserved
    } else if v <= 0x0FFF_FFF5 {
        Status::Data(Cluster(v))
    } else if v == 0x0FFF_FFF6 {
        Status::Reserved
    } else if v == 0x0FFF_FFF7 {
        Status::Bad
    } else {
        Status::Eoc(v)
    }
}

/// Every raw entry falls in exactly one of the ranges that the FAT32 format
/// defines; none is left over.
pub proof fn lemma_status_total(raw: u32)
    ensures
        low28(raw) <= 0x0FFF_FFFF,
        ({
            let v = low28(raw);
            v == 0 || v == 1 || (2 <= v <= 0x0FFF_FFF5) || v == 0x0FFF_FFF6 || v == 0x0FFF_FFF7
                || (0x0FFF_FFF8 <= v <= 0x0FFF_FFFF)
        }),
{
}

/// A raw 32-bit FAT entry.
#[derive(Clone, Copy, Debug, PartialEq, Eq, Structural)]
pub struct FatEntry(pub u32);

impl FatEntry {
    /// Classifies this entry.
    pub fn status(&self) -> (r: Status)
        ensures
            r == status_of(self.0),
    {
        let raw = self.0;
        let v = raw & 0x0FFF_FFFF;
        assert(raw & 0x0FFF_FFFF == raw % 0x1000_0000) by (bit_vector);
        if v == 0 {
            Status::Free
        } else if v == 1 {
            Status::Reserved
        } else if v <= 0x0FFF_FFF5 {
            Status::Data(Cluster(v))
        } else if v == 0x0FFF_FFF6 {
            Status::Reserved
        } else if v == 0x0FFF_FFF7 {
            Status::Bad
        } else {
            Status::Eoc(v)
        }
    }
}

} // verus!
