//! Dates, times, attributes and metadata of FAT32 directory entries.
use vstd::prelude::*;

verus! {

/// A date as FAT32 stores it: year since 1980 in bits 15..9, month in bits
/// 8..5, day in bits 4..0.
#[derive(Clone, Copy, Debug, PartialEq, Eq, Structural)]
pub struct Date(pub u16);

impl Date {
    pub fn year(&self) -> (r: usize)
        ensures
            r == self.0 / 512 + 1980,
    {
        (self.0 / 512) as usize + 1980
    }

    pub fn month(&self) -> (r: u8)
        ensures
            r == (self.0 / 32) % 16,
    {
        ((self.0 / 32) % 16) as u8
    }

    pub fn day(&self) -> (r: u8)
        ensures
            r == self.0 % 32,
    {
        (self.0 % 32) as u8
    }
}

/// A time of day as FAT32 stores it: hour in bits 15..11, minute in bits
/// 10..5, seconds divided by two in bits 4..0.
#[derive(Clone, Copy, Debug, PartialEq, Eq, Structural)]
pub struct Time(pub u16);

impl Time {
    pub fn hour(&self) -> (r: u8)
        ensures
            r == self.0 / 2048,
    {
        (self.0 / 2048) as u8
    }

    pub fn minute(&self) -> (r: u8)
        ensures
            r == (self.0 / 32) % 64,
    {
        ((self.0 / 32) % 64) as u8
    }

    pub fn second(&self) -> (r: u8)
        ensures
            r == (self.0 % 32) * 2,
    {
        ((self.0 % 32) * 2) as u8
    }
}

/// The attribute byte of a directory entry.
#[derive(Clone, Copy, Debug, PartialEq, Eq, Structural)]
pub struct Attributes(pub u8);

pub const READ_ONLY: u8 = 0x01;
pub const HIDDEN: u8 = 0x02;
pub const SYSTEM: u8 = 0x04;
pub const VOLUME_ID: u8 = 0x08;
pub const DIRECTORY: u8 = 0x10;
pub const ARCHIVE: u8 = 0x20;

impl Attributes {
    pub fn read_only(&self) -> (r: bool)
        ensures
            r == (self.0 & READ_ONLY != 0),
    {
        self.0 & READ_ONLY != 0
    }

    pub fn hidden(&self) -> (r: bool)
        ensures
            r == (self.0 & HIDDEN != 0),
    {
        self.0 & HIDDEN != 0
    }

    pub fn system(&self) -> (r: bool)
        ensures
            r == (self.0 & SYSTEM != 0),
    {
        self.0 & SYSTEM != 0
    }

    pub fn volume_id(&self) -> (r: bool)
        ensures
            r == (self.0 & VOLUME_ID != 0),
    {
        self.0 & VOLUME_ID != 0
    }

    pub fn directory(&self) -> (r: bool)
        ensures
            r == (self.0 & DIRECTORY != 0),
    {
        self.0 & DIRECTORY != 0
    }

    pub fn archive(&self) -> (r: bool)
        ensures
            r == (self.0 & ARCHIVE != 0),
    {
        self.0 & ARCHIVE != 0
    }
}

/// A date and a time.
#[derive(Clone, Copy, Debug, PartialEq, Eq, Structural)]
pub struct Timestamp {
    pub date: Date,
    pub time: Time,
}

impl Timestamp {
    pub fn year(&self) -> (r: usize)
        ensures
            r == self.date.0 / 512 + 1980,
    {
        self.date.year()
    }

    pub fn month(&self) -> (r: u8)
        ensures
            r == (self.date.0 / 32) % 16,
    {
        self.date.month()
    }

    pub fn day(&self) -> (r: u8)
        ensures
            r == self.date.0 % 32,
    {
        self.date.day()
    }

    pub fn hour(&self) -> (r: u8)
        ensures
            r == self.time.0 / 2048,
    {
        self.time.hour()
    }

    pub fn minute(&self) -> (r: u8)
        ensures
            r == (self.time.0 / 32) % 64,
    {
        self.time.minute()
    }

    pub fn second(&self) -> (r: u8)
        ensures
            r == (self.time.0 % 32) * 2,
    {
        self.time.second()
    }
}

/// The metadata of a directory entry.
#[derive(Clone, Copy, Debug, PartialEq, Eq, Structural)]
pub struct Metadata {
    pub attributes: Attributes,
    pub created: Timestamp,
    pub accessed: Timestamp,
    pub modified: Timestamp,
}

impl Metadata {
    pub fn new(attributes: Attributes, created: Timestamp, accessed: Timestamp, modified: Timestamp) -> (r: Metadata)
        ensures
            r == (Metadata { attributes, created, accessed, modified }),
    {
        Metadata { attributes, created, accessed, modified }
    }

    pub fn read_only(&self) -> (r: bool)
        ensures
            r == (self.attributes.0 & READ_ONLY != 0),
    {
        self.attributes.read_only()
    }

    pub fn hidden(&self) -> (r: bool)
        ensures
            r == (self.attributes.0 & HIDDEN != 0),
    {
        self.attributes.hidden()
    }

    pub fn created(&self) -> (r: Timestamp)
        ensures
            r == self.created,
    {
        self.created
    }

    pub fn accessed(&self) -> (r: Timestamp)
        ensures
            r == self.accessed,
    {
        self.accessed
    }

    pub fn modified(&self) -> (r: Timestamp)
        ensures
            r == self.modified,
    {
        self.modified
    }
}

} // verus!
