//! FAT32 directories: 32-byte entry slots and their iteration.
use vstd::prelude::*;
use vstd::string::StringExecFns;
use crate::bytes::{le16, le32, read_u16, read_u32};
use crate::cluster::{low28, Cluster};
use crate::file::File;
use crate::device::BlockDevice;
use crate::io::ErrorKind;
use crate::metadata::{Attributes, Date, Metadata, Time, Timestamp};
use crate::vfat::VFat;

verus! {

/// The size of a directory entry slot.
pub const DIR_ENTRY_SIZE: usize = 32;

/// First byte of the slot that ends a directory.
pub const ENTRY_END: u8 = 0x00;

/// First byte of an unused (deleted) slot.
pub const ENTRY_UNUSED: u8 = 0xE5;

/// Attribute byte of a long-filename slot.
pub const LFN_FLAG: u8 = 0x0F;

/// What `String::from_utf8_lossy` makes of the bytes `b`.
pub uninterp spec fn utf8_lossy(b: Seq<u8>) -> Seq<char>;

/// What `String::from_utf16_lossy` makes of the code units `u`.
pub uninterp spec fn utf16_lossy(u: Seq<u16>) -> Seq<char>;

/// Relies on `String::from_utf8_lossy`: the string depends on the bytes alone.
#[verifier::external_body]
fn decode_utf8(b: &Vec<u8>) -> (r: String)
    ensures
        r@ == utf8_lossy(b@),
{
    String::from_utf8_lossy(b.as_slice()).into_owned()
}

/// Relies on `String::from_utf16_lossy`: the string depends on the code
/// units alone.
#[verifier::external_body]
fn decode_utf16(u: &Vec<u16>) -> (r: String)
    ensures
        r@ == utf16_lossy(u@),
{
    String::from_utf16_lossy(u.as_slice())
}

/// Slot `i` of the directory bytes `data`.
pub open spec fn slot(data: Seq<u8>, i: int) -> Seq<u8> {
    data.subrange(32 * i, 32 * i + 32)
}

/// The number of whole slots in `data`.
pub open spec fn slot_count(data: Seq<u8>) -> int {
    data.len() as int / 32
}

pub open spec fn is_end_slot(s: Seq<u8>) -> bool {
    s[0] == ENTRY_END
}

pub open spec fn is_unused_slot(s: Seq<u8>) -> bool {
    s[0] == ENTRY_UNUSED
}

/// A slot that iteration takes as a long-filename fragment.
pub open spec fn is_lfn_slot(s: Seq<u8>) -> bool {
    !is_end_slot(s) && !is_unused_slot(s) && s[11] == LFN_FLAG
}

/// A slot that iteration emits as an entry.
pub open spec fn is_regular_slot(s: Seq<u8>) -> bool {
    !is_end_slot(s) && !is_unused_slot(s) && s[11] != LFN_FLAG
}

/// The index of the first regular slot at or after `i`, unless an end slot
/// or the end of the data comes first.
pub open spec fn next_regular(data: Seq<u8>, i: int) -> Option<int>
    decreases slot_count(data) - i,
{
    if i < 0 || i >= slot_count(data) {
        None
    } else if is_end_slot(slot(data, i)) {
        None
    } else if is_regular_slot(slot(data, i)) {
        Some(i)
    } else {
        next_regular(data, i + 1)
    }
}

/// The long-filename slots among slots `i..j`, in order.
pub open spec fn lfn_slots(data: Seq<u8>, i: int, j: int) -> Seq<Seq<u8>>
    decreases j - i,
{
    if j <= i {
        seq![]
    } else if is_lfn_slot(slot(data, j - 1)) {
        lfn_slots(data, i, j - 1).push(slot(data, j - 1))
    } else {
        lfn_slots(data, i, j - 1)
    }
}

/// Iteration from slot `i` emits slot `j`: slot `j` is regular and every
/// slot before it from `i` on is unused or a long-filename fragment, so one
/// regular slot and the fragments before it are consumed.
pub proof fn lemma_next_regular(data: Seq<u8>, i: int)
    requires
        0 <= i,
    ensures
        next_regular(data, i) matches Some(j) ==> i <= j < slot_count(data) && is_regular_slot(
            slot(data, j),
        ) && forall|k: int|
            i <= k < j ==> is_unused_slot(#[trigger] slot(data, k)) || is_lfn_slot(slot(data, k)),
    decreases slot_count(data) - i,
{
    if i < slot_count(data) && !is_end_slot(slot(data, i)) && !is_regular_slot(slot(data, i)) {
        lemma_next_regular(data, i + 1);
    }
}

/// An end slot stops the iteration: when every slot from `i` up to the end
/// slot `e` is unused or a long-filename fragment, nothing more is emitted.
pub proof fn lemma_end_slot_stops(data: Seq<u8>, i: int, e: int)
    requires
        0 <= i <= e < slot_count(data),
        is_end_slot(slot(data, e)),
        forall|k: int| i <= k < e ==> is_unused_slot(#[trigger] slot(data, k)) || is_lfn_slot(slot(data, k)),
    ensures
        next_regular(data, i) is None,
    decreases e - i,
{
    if i < e {
        assert(is_unused_slot(slot(data, i)) || is_lfn_slot(slot(data, i)));
        lemma_end_slot_stops(data, i + 1, e);
    }
}

/// An unused slot is skipped: iteration from it goes on with the next slot.
pub proof fn lemma_unused_slot_skipped(data: Seq<u8>, i: int)
    requires
        0 <= i < slot_count(data),
        is_unused_slot(slot(data, i)),
    ensures
        next_regular(data, i) == next_regular(data, i + 1),
        lfn_slots(data, i, i + 1) == Seq::<Seq<u8>>::empty(),
{
    assert(lfn_slots(data, i, i) == Seq::<Seq<u8>>::empty());
}

/// The index of the first byte of `b` from `i` on that pads a short name
/// (0x00 or 0x20), or the length of `b`.
pub open spec fn pad_from(b: Seq<u8>, i: int) -> int
    decreases b.len() - i,
{
    if i >= b.len() {
        b.len() as int
    } else if b[i] == 0x00 || b[i] == 0x20 {
        i
    } else {
        pad_from(b, i + 1)
    }
}

/// A short-name field without its padding.
pub open spec fn trim_fat(b: Seq<u8>) -> Seq<u8> {
    b.take(pad_from(b, 0))
}

/// The index of the first code unit of `u` from `i` on that ends a
/// long-filename fragment (0x0000 or 0xFFFF), or the length of `u`.
pub open spec fn term_from(u: Seq<u16>, i: int) -> int
    decreases u.len() - i,
{
    if i >= u.len() {
        u.len() as int
    } else if u[i] == 0x0000 || u[i] == 0xFFFF {
        i
    } else {
        term_from(u, i + 1)
    }
}

/// The code units of a fragment up to its terminator.
pub open spec fn until_term(u: Seq<u16>) -> Seq<u16> {
    u.take(term_from(u, 0))
}

/// The byte offset, in a long-filename slot, of code unit `k` (of 13).
pub open spec fn unit_offset(k: int) -> int {
    if k < 5 {
        1 + 2 * k
    } else if k < 11 {
        14 + 2 * (k - 5)
    } else {
        28 + 2 * (k - 11)
    }
}

/// The 13 code units of a long-filename slot.
pub open spec fn lfn_units(s: Seq<u8>) -> Seq<u16> {
    Seq::new(13, |k: int| le16(s, unit_offset(k)) as u16)
}

/// The sequence number of a long-filename slot (its low five bits).
pub open spec fn lfn_seq(s: Seq<u8>) -> u8 {
    s[0] & 0x1F
}

/// The name units of those fragments of `lfns` whose sequence number is
/// `n`, in order.
pub open spec fn units_with_seq(lfns: Seq<Seq<u8>>, n: int) -> Seq<u16>
    decreases lfns.len(),
{
    if lfns.len() == 0 {
        seq![]
    } else {
        units_with_seq(lfns.drop_last(), n) + if lfn_seq(lfns.last()) == n {
            until_term(lfn_units(lfns.last()))
        } else {
            seq![]
        }
    }
}

/// The name units of the fragments with sequence numbers below `n`, ordered
/// by sequence number (fragments with equal numbers keep their order).
pub open spec fn lfn_name_upto(lfns: Seq<Seq<u8>>, n: int) -> Seq<u16>
    decreases n,
{
    if n <= 0 {
        seq![]
    } else {
        lfn_name_upto(lfns, n - 1) + units_with_seq(lfns, n - 1)
    }
}

/// The long name that the fragments `lfns` spell.
pub open spec fn lfn_name(lfns: Seq<Seq<u8>>) -> Seq<u16> {
    lfn_name_upto(lfns, 32)
}

/// A regular directory entry.
#[derive(Clone, Copy, Debug)]
pub struct VFatRegularDirEntry {
    pub filename: [u8; 8],
    pub extension: [u8; 3],
    pub attributes: Attributes,
    pub created: Timestamp,
    pub accessed: Date,
    pub cluster_high: u16,
    pub modified: Timestamp,
    pub cluster_low: u16,
    pub file_size: u32,
}

/// The regular entry that the slot `s` encodes.
pub open spec fn regular_of(s: Seq<u8>) -> VFatRegularDirEntry {
    VFatRegularDirEntry {
        filename: [s[0], s[1], s[2], s[3], s[4], s[5], s[6], s[7]],
        extension: [s[8], s[9], s[10]],
        attributes: Attributes(s[11]),
        created: Timestamp { time: Time(le16(s, 14) as u16), date: Date(le16(s, 16) as u16) },
        accessed: Date(le16(s, 18) as u16),
        cluster_high: le16(s, 20) as u16,
        modified: Timestamp { time: Time(le16(s, 22) as u16), date: Date(le16(s, 24) as u16) },
        cluster_low: le16(s, 26) as u16,
        file_size: le32(s, 28) as u32,
    }
}

/// The name of a regular entry: the 8.3 name without padding, joined as
/// `name.ext` when the extension is not empty and the entry is no directory.
pub open spec fn short_name(e: VFatRegularDirEntry) -> Seq<char> {
    let name = utf8_lossy(trim_fat(e.filename@));
    let ext = utf8_lossy(trim_fat(e.extension@));
    if e.attributes.0 & 0x10 == 0 && ext.len() > 0 {
        name + seq!['.'] + ext
    } else {
        name
    }
}

/// The start cluster of a regular entry.
pub open spec fn cluster_of(e: VFatRegularDirEntry) -> Cluster {
    Cluster(low28((e.cluster_high as nat * 65536 + e.cluster_low as nat) as u32))
}

fn bytes_of(a: &[u8]) -> (r: Vec<u8>)
    ensures
        r@ == a@,
{
    let mut r: Vec<u8> = Vec::new();
    let mut i: usize = 0;
    while i < a.len()
        invariant
            i <= a@.len(),
            r@ == a@.take(i as int),
        decreases a@.len() - i,
    {
        r.push(a[i]);
        i = i + 1;
        assert(r@ =~= a@.take(i as int));
    }
    assert(r@ =~= a@);
    r
}

fn trimmed(b: &Vec<u8>) -> (r: Vec<u8>)
    ensures
        r@ == trim_fat(b@),
{
    let mut end: usize = 0;
    while end < b.len() && b[end] != 0x00 && b[end] != 0x20
        invariant
            end <= b@.len(),
            pad_from(b@, 0) == pad_from(b@, end as int),
        decreases b@.len() - end,
    {
        end = end + 1;
    }
    let mut r: Vec<u8> = Vec::new();
    let mut i: usize = 0;
    while i < end
        invariant
            i <= end <= b@.len(),
            r@ == b@.take(i as int),
        decreases end - i,
    {
        r.push(b[i]);
        i = i + 1;
        assert(r@ =~= b@.take(i as int));
    }
    r
}

impl VFatRegularDirEntry {
    /// Decodes the regular entry in the 32 bytes of `data` at `off`.
    pub fn from_bytes(data: &Vec<u8>, off: usize) -> (r: VFatRegularDirEntry)
        requires
            off + 32 <= data@.len(),
        ensures
            r == regular_of(data@.subrange(off as int, off + 32)),
    {
        assert(off + 32 <= data.len());
        let ghost s = data@.subrange(off as int, off + 32);
        let r = VFatRegularDirEntry {
            filename: [
                data[off],
                data[off + 1],
                data[off + 2],
                data[off + 3],
                data[off + 4],
                data[off + 5],
                data[off + 6],
                data[off + 7],
            ],
            extension: [data[off + 8], data[off + 9], data[off + 10]],
            attributes: Attributes(data[off + 11]),
            created: Timestamp { time: Time(read_u16(data, off + 14)), date: Date(read_u16(data, off + 16)) },
            accessed: Date(read_u16(data, off + 18)),
            cluster_high: read_u16(data, off + 20),
            modified: Timestamp { time: Time(read_u16(data, off + 22)), date: Date(read_u16(data, off + 24)) },
            cluster_low: read_u16(data, off + 26),
            file_size: read_u32(data, off + 28),
        };
        assert(r.filename@ =~= regular_of(s).filename@);
        assert(r.extension@ =~= regular_of(s).extension@);
        r
    }

    /// The text of a short-name field, up to its first 0x00 or 0x20 byte.
    pub fn fat_string(buf: &Vec<u8>) -> (r: String)
        ensures
            r@ == utf8_lossy(trim_fat(buf@)),
    {
        let t = trimmed(buf);
        decode_utf8(&t)
    }

    /// The entry's name.
    pub fn filename(&self) -> (r: String)
        ensures
            r@ == short_name(*self),
    {
        let name_bytes = bytes_of(self.filename.as_slice());
        let mut name = VFatRegularDirEntry::fat_string(&name_bytes);
        if !self.is_dir() {
            let ext_bytes = bytes_of(self.extension.as_slice());
            let ext = VFatRegularDirEntry::fat_string(&ext_bytes);
            if !ext.as_str().is_empty() {
                proof {
                    reveal_strlit(".");
                }
                name.append(".");
                name.append(ext.as_str());
            }
        }
        name
    }

    pub fn is_dir(&self) -> (r: bool)
        ensures
            r == (self.attributes.0 & 0x10 != 0),
    {
        self.attributes.directory()
    }

    /// The start cluster: the high and low halves joined, the top nibble
    /// dropped.
    pub fn cluster(&self) -> (r: Cluster)
        ensures
            r == cluster_of(*self),
    {
        Cluster::from(self.cluster_high as u32 * 65536 + self.cluster_low as u32)
    }
}

/// A long-filename entry.
#[derive(Clone, Copy, Debug)]
pub struct VFatLfnDirEntry {
    pub sequence_number: u8,
    pub name: [u16; 13],
    pub attributes: u8,
    pub checksum: u8,
}

impl VFatLfnDirEntry {
    /// Decodes the long-filename entry in the 32 bytes of `data` at `off`.
    pub fn from_bytes(data: &Vec<u8>, off: usize) -> (r: VFatLfnDirEntry)
        requires
            off + 32 <= data@.len(),
        ensures
            r.sequence_number == data@[off as int],
            r.name@ == lfn_units(data@.subrange(off as int, off + 32)),
            r.attributes == data@[off + 11],
            r.checksum == data@[off + 13],
    {
        assert(off + 32 <= data.len());
        let ghost s = data@.subrange(off as int, off + 32);
        let name = [
            read_u16(data, off + 1),
            read_u16(data, off + 3),
            read_u16(data, off + 5),
            read_u16(data, off + 7),
            read_u16(data, off + 9),
            read_u16(data, off + 14),
            read_u16(data, off + 16),
            read_u16(data, off + 18),
            read_u16(data, off + 20),
            read_u16(data, off + 22),
            read_u16(data, off + 24),
            read_u16(data, off + 28),
            read_u16(data, off + 30),
        ];
        assert(name@ =~= lfn_units(s));
        VFatLfnDirEntry { sequence_number: data[off], name, attributes: data[off + 11], checksum: data[off + 13] }
    }

    /// The sequence number: the low five bits, which are never zero in a
    /// well-formed fragment.
    pub fn sequence_number(&self) -> (r: usize)
        requires
            self.sequence_number & 0x1F != 0,
        ensures
            r == self.sequence_number & 0x1F,
    {
        (self.sequence_number & 0x1F) as usize
    }

    /// Whether this is the last fragment of the name.
    pub fn last_entry(&self) -> (r: bool)
        ensures
            r == (self.sequence_number & 0x40 != 0),
    {
        self.sequence_number & 0x40 != 0
    }

    /// Appends this fragment's code units, up to its terminator, to `buf`.
    pub fn append_name(&self, buf: &mut Vec<u16>)
        ensures
            final(buf)@ == old(buf)@ + until_term(self.name@),
    {
        let mut k: usize = 0;
        while k < 13 && self.name[k] != 0x0000 && self.name[k] != 0xFFFF
            invariant
                k <= 13,
                term_from(self.name@, 0) == term_from(self.name@, k as int),
                buf@ == old(buf)@ + self.name@.take(k as int),
            decreases 13 - k,
        {
            buf.push(self.name[k]);
            k = k + 1;
            assert(buf@ =~= old(buf)@ + self.name@.take(k as int));
        }
    }
}

/// The two bytes of a slot that tell its kind.
#[derive(Clone, Copy, Debug, PartialEq, Eq, Structural)]
pub struct VFatUnknownDirEntry {
    pub entry_info: u8,
    pub attributes: u8,
}

impl VFatUnknownDirEntry {
    pub fn from_bytes(data: &Vec<u8>, off: usize) -> (r: VFatUnknownDirEntry)
        requires
            off + 32 <= data@.len(),
        ensures
            r.entry_info == data@[off as int],
            r.attributes == data@[off + 11],
    {
        assert(off + 32 <= data.len());
        VFatUnknownDirEntry { entry_info: data[off], attributes: data[off + 11] }
    }

    pub fn is_end(&self) -> (r: bool)
        ensures
            r == (self.entry_info == ENTRY_END),
    {
        self.entry_info == ENTRY_END
    }

    pub fn is_unused(&self) -> (r: bool)
        ensures
            r == (self.entry_info == ENTRY_UNUSED),
    {
        self.entry_info == ENTRY_UNUSED
    }

    pub fn is_lfn(&self) -> (r: bool)
        ensures
            r == (self.attributes == LFN_FLAG),
    {
        self.attributes == LFN_FLAG
    }
}

/// A directory: where its cluster chain starts.
#[derive(Clone, Copy, Debug, PartialEq, Eq, Structural)]
pub struct Dir {
    pub start: Cluster,
}

/// `c` in ASCII lower case.
pub open spec fn ascii_lower(c: char) -> char {
    if 'A' <= c <= 'Z' {
        ((c as u32) + 32) as char
    } else {
        c
    }
}

/// `a` and `b` are equal but for the case of ASCII letters.
pub open spec fn eq_ignore_ascii_case(a: Seq<char>, b: Seq<char>) -> bool {
    a.len() == b.len() && forall|i: int| 0 <= i < a.len() ==> ascii_lower(a[i]) == ascii_lower(b[i])
}

/// Relies on `str::eq_ignore_ascii_case`: the two strings are equal once
/// ASCII letters are lowered.
#[verifier::external_body]
fn names_match(a: &str, b: &str) -> (r: bool)
    ensures
        r == eq_ignore_ascii_case(a@, b@),
{
    a.eq_ignore_ascii_case(b)
}

impl Dir {
    pub fn new(start: Cluster) -> (r: Dir)
        ensures
            r.start == start,
    {
        Dir { start }
    }

    /// An iterator over the entries of this directory: the bytes of its
    /// cluster chain, read through `vfat`.
    pub fn entries<T: BlockDevice>(&self, vfat: &mut VFat<T>) -> (r: Result<DirIterator, ErrorKind>)
        requires
            old(vfat).wf(),
        ensures
            final(vfat).wf(),
            final(vfat).same_fs(*old(vfat)),
            r matches Ok(it) ==> it.wf() && it.cursor() == 0 && old(vfat).chain(
                self.start,
                old(vfat).fat_entries() + 1,
            ) == Some(it.bytes()),
    {
        let mut data: Vec<u8> = Vec::new();
        vfat.read_chain(self.start, &mut data)?;
        assert(data@ =~= Seq::<u8>::empty() + data@);
        Ok(DirIterator::new(data))
    }

    /// Finds the first entry named `name`, ignoring the case of ASCII
    /// letters, among the entries of this directory; `NotFound` when there
    /// is none.
    pub fn find<T: BlockDevice>(&self, vfat: &mut VFat<T>, name: &str) -> (r: Result<Entry, ErrorKind>)
        requires
            old(vfat).wf(),
        ensures
            final(vfat).wf(),
            final(vfat).same_fs(*old(vfat)),
            r matches Ok(e) ==> eq_ignore_ascii_case(e.name@, name@) && (old(vfat).chain(
                self.start,
                old(vfat).fat_entries() + 1,
            ) matches Some(bytes) && first_match(bytes, 0, name@) matches Some((c, j)) && entry_matches(
                e,
                slot(bytes, j),
                lfn_slots(bytes, c, j),
            )),
    {
        let mut it = self.entries(vfat)?;
        match it.find_entry(name) {
            Some(e) => Ok(e),
            None => Err(ErrorKind::NotFound),
        }
    }
}

/// The name of the entry that iteration from slot `c` emits for the
/// regular slot `j`.
pub open spec fn entry_name(bytes: Seq<u8>, c: int, j: int) -> Seq<char> {
    let lfns = lfn_slots(bytes, c, j);
    if lfns.len() == 0 {
        short_name(regular_of(slot(bytes, j)))
    } else {
        utf16_lossy(lfn_name(lfns))
    }
}

/// The first entry emitted from slot `c` on whose name matches `name` but
/// for ASCII case: the slot iteration started from and its regular slot.
pub open spec fn first_match(bytes: Seq<u8>, c: int, name: Seq<char>) -> Option<(int, int)>
    decreases slot_count(bytes) - c,
{
    if c < 0 || c > slot_count(bytes) {
        None
    } else {
        match next_regular(bytes, c) {
            None => None,
            Some(j) => if j < c || j >= slot_count(bytes) {
                None
            } else if eq_ignore_ascii_case(entry_name(bytes, c, j), name) {
                Some((c, j))
            } else {
                first_match(bytes, j + 1, name)
            },
        }
    }
}

/// What a directory entry names.
#[derive(Clone, Copy, Debug)]
pub enum EntryData {
    File(File),
    Dir(Dir),
}

/// A directory entry: its name, its metadata, and the file or directory.
#[derive(Clone, Debug)]
pub struct Entry {
    pub name: String,
    pub metadata: Metadata,
    pub item: EntryData,
}

impl Entry {
    pub fn new_file(name: String, metadata: Metadata, file: File) -> (r: Entry)
        ensures
            r.name@ == name@,
            r.metadata == metadata,
            r.item == EntryData::File(file),
    {
        Entry { name, metadata, item: EntryData::File(file) }
    }

    pub fn new_dir(name: String, metadata: Metadata, dir: Dir) -> (r: Entry)
        ensures
            r.name@ == name@,
            r.metadata == metadata,
            r.item == EntryData::Dir(dir),
    {
        Entry { name, metadata, item: EntryData::Dir(dir) }
    }

    pub fn name(&self) -> (r: &str)
        ensures
            r@ == self.name@,
    {
        self.name.as_str()
    }

    pub fn metadata(&self) -> (r: &Metadata)
        ensures
            *r == self.metadata,
    {
        &self.metadata
    }

    pub fn as_file(&self) -> (r: Option<File>)
        ensures
            r == (match self.item {
                EntryData::File(f) => Some(f),
                EntryData::Dir(_) => None,
            }),
    {
        match self.item {
            EntryData::File(f) => Some(f),
            EntryData::Dir(_) => None,
        }
    }

    pub fn as_dir(&self) -> (r: Option<Dir>)
        ensures
            r == (match self.item {
                EntryData::File(_) => None,
                EntryData::Dir(d) => Some(d),
            }),
    {
        match self.item {
            EntryData::File(_) => None,
            EntryData::Dir(d) => Some(d),
        }
    }

    pub fn is_dir(&self) -> (r: bool)
        ensures
            r == self.item is Dir,
    {
        match self.item {
            EntryData::File(_) => false,
            EntryData::Dir(_) => true,
        }
    }
}

/// The entry that iteration emits for the regular slot `s` preceded by the
/// long-filename slots `lfns`.
pub open spec fn entry_matches(e: Entry, s: Seq<u8>, lfns: Seq<Seq<u8>>) -> bool {
    let reg = regular_of(s);
    &&& e.name@ == (if lfns.len() == 0 {
        short_name(reg)
    } else {
        utf16_lossy(lfn_name(lfns))
    })
    &&& e.metadata == Metadata {
        attributes: reg.attributes,
        created: reg.created,
        accessed: Timestamp { date: reg.accessed, time: Time(0) },
        modified: reg.modified,
    }
    &&& if reg.attributes.0 & 0x10 != 0 {
        e.item == EntryData::Dir(Dir { start: cluster_of(reg) })
    } else {
        e.item matches EntryData::File(f) && f.start_cluster() == cluster_of(reg) && f.file_size()
            == reg.file_size && f.position() == 0 && f.wf()
    }
}

/// An iterator over the entries of a directory, given the bytes of its
/// cluster chain.
pub struct DirIterator {
    data: Vec<u8>,
    offset: usize,
}

impl DirIterator {
    /// The directory's bytes.
    pub closed spec fn bytes(&self) -> Seq<u8> {
        self.data@
    }

    /// The slot that iteration looks at next.
    pub closed spec fn cursor(&self) -> nat {
        self.offset as nat
    }

    pub closed spec fn wf(&self) -> bool {
        self.offset <= self.data@.len() / 32
    }

    /// An iterator over the slots of `data`, from the first.
    pub fn new(data: Vec<u8>) -> (r: DirIterator)
        ensures
            r.bytes() == data@,
            r.cursor() == 0,
            r.wf(),
    {
        DirIterator { data, offset: 0 }
    }

    /// The name that the long-filename slots at `lfn` (slot indices) spell.
    fn lfn_to_string(&self, lfn: &Vec<usize>, lfns: Ghost<Seq<Seq<u8>>>) -> (r: String)
        requires
            forall|t: int| 0 <= t < lfn@.len() ==> (#[trigger] lfn@[t]) < self.data@.len() / 32,
            lfns@.len() == lfn@.len(),
            forall|t: int| 0 <= t < lfn@.len() ==> #[trigger] lfns@[t] == slot(self.data@, lfn@[t] as int),
        ensures
            r@ == utf16_lossy(lfn_name(lfns@)),
    {
        let mut units: Vec<u16> = Vec::new();
        let mut n: u8 = 0;
        while n < 32
            invariant
                n <= 32,
                forall|t: int| 0 <= t < lfn@.len() ==> (#[trigger] lfn@[t]) < self.data@.len() / 32,
                lfns@.len() == lfn@.len(),
                forall|t: int| 0 <= t < lfn@.len() ==> #[trigger] lfns@[t] == slot(self.data@, lfn@[t] as int),
                units@ == lfn_name_upto(lfns@, n as int),
            decreases 32 - n,
        {
            let mut t: usize = 0;
            while t < lfn.len()
                invariant
                    n < 32,
                    t <= lfn@.len(),
                    forall|t: int| 0 <= t < lfn@.len() ==> (#[trigger] lfn@[t]) < self.data@.len() / 32,
                    lfns@.len() == lfn@.len(),
                    forall|t: int| 0 <= t < lfn@.len() ==> #[trigger] lfns@[t] == slot(self.data@, lfn@[t] as int),
                    units@ == lfn_name_upto(lfns@, n as int) + units_with_seq(lfns@.take(t as int), n as int),
                decreases lfn@.len() - t,
            {
                let idx = lfn[t];
                let len = self.data.len();
                proof {
                    assert(idx * 32 + 32 <= len) by (nonlinear_arith)
                        requires
                            idx < len / 32,
                    ;
                }
                let entry = VFatLfnDirEntry::from_bytes(&self.data, idx * 32);
                let ghost before = units@;
                let ghost s = lfns@[t as int];
                proof {
                    assert(s =~= self.data@.subrange(idx * 32, idx * 32 + 32));
                    assert(lfns@.take(t + 1).drop_last() =~= lfns@.take(t as int));
                    assert(lfns@.take(t + 1).last() == s);
                }
                if entry.sequence_number & 0x1F == n {
                    entry.append_name(&mut units);
                }
                t = t + 1;
                proof {
                    assert(units@ =~= lfn_name_upto(lfns@, n as int) + units_with_seq(lfns@.take(t as int), n as int));
                }
            }
            proof {
                assert(lfns@.take(lfn@.len() as int) =~= lfns@);
            }
            n = n + 1;
        }
        decode_utf16(&units)
    }

    /// Builds the entry for the regular slot `i`, named by the long-filename
    /// slots at `lfn` if there are any.
    pub fn create_entry(&self, lfn: &Vec<usize>, lfns: Ghost<Seq<Seq<u8>>>, i: usize) -> (r: Entry)
        requires
            i < self.bytes().len() / 32,
            forall|t: int| 0 <= t < lfn@.len() ==> (#[trigger] lfn@[t]) < self.bytes().len() / 32,
            lfns@.len() == lfn@.len(),
            forall|t: int| 0 <= t < lfn@.len() ==> #[trigger] lfns@[t] == slot(self.bytes(), lfn@[t] as int),
        ensures
            entry_matches(r, slot(self.bytes(), i as int), lfns@),
    {
        let len = self.data.len();
        proof {
            assert(i * 32 + 32 <= len) by (nonlinear_arith)
                requires
                    i < len / 32,
            ;
        }
        let entry = VFatRegularDirEntry::from_bytes(&self.data, i * 32);
        proof {
            assert(slot(self.data@, i as int) =~= self.data@.subrange(i * 32, i * 32 + 32));
        }
        let name = if lfn.len() == 0 {
            entry.filename()
        } else {
            self.lfn_to_string(lfn, lfns)
        };
        let metadata = Metadata::new(
            entry.attributes,
            entry.created,
            Timestamp { date: entry.accessed, time: Time(0) },
            entry.modified,
        );
        if entry.is_dir() {
            Entry::new_dir(name, metadata, Dir::new(entry.cluster()))
        } else {
            Entry::new_file(name, metadata, File::new(entry.cluster(), entry.file_size))
        }
    }

    /// Emits entries until one is named `name`, ignoring the case of ASCII
    /// letters, and returns it; `None` when no entry from the cursor on is.
    pub fn find_entry(&mut self, name: &str) -> (r: Option<Entry>)
        requires
            old(self).wf(),
        ensures
            final(self).wf(),
            final(self).bytes() == old(self).bytes(),
            r is None <==> first_match(old(self).bytes(), old(self).cursor() as int, name@) is None,
            r matches Some(e) ==> first_match(old(self).bytes(), old(self).cursor() as int, name@) matches Some((c, j))
                && entry_matches(e, slot(old(self).bytes(), j), lfn_slots(old(self).bytes(), c, j))
                && eq_ignore_ascii_case(e.name@, name@),
    {
        loop
            invariant
                self.wf(),
                self.bytes() == old(self).bytes(),
                first_match(old(self).bytes(), old(self).cursor() as int, name@) == first_match(
                    self.bytes(),
                    self.cursor() as int,
                    name@,
                ),
            decreases slot_count(self.bytes()) - self.cursor(),
        {
            proof {
                lemma_next_regular(self.bytes(), self.cursor() as int);
            }
            match self.next() {
                Some(e) => {
                    if names_match(e.name(), name) {
                        return Some(e);
                    }
                },
                None => {
                    return None;
                },
            }
        }
    }

    /// Emits the next entry: the first regular slot from the cursor on,
    /// named by the long-filename slots before it. Unused slots are skipped;
    /// an end slot, or the end of the data, ends the iteration.
    pub fn next(&mut self) -> (r: Option<Entry>)
        requires
            old(self).wf(),
        ensures
            final(self).wf(),
            final(self).bytes() == old(self).bytes(),
            match next_regular(old(self).bytes(), old(self).cursor() as int) {
                Some(j) => r matches Some(e) && entry_matches(
                    e,
                    slot(old(self).bytes(), j),
                    lfn_slots(old(self).bytes(), old(self).cursor() as int, j),
                ) && final(self).cursor() == j + 1,
                None => r is None && final(self).cursor() == slot_count(old(self).bytes()),
            },
    {
        let count = self.data.len() / 32;
        let mut lfn: Vec<usize> = Vec::new();
        let ghost start = self.offset as int;
        let ghost lfns: Seq<Seq<u8>> = seq![];
        let mut i = self.offset;
        while i < count
            invariant
                self.wf(),
                self.data@ == old(self).data@,
                self.offset == old(self).offset,
                count == self.data@.len() / 32,
                start == self.offset,
                start <= i <= count,
                next_regular(self.data@, start) == next_regular(self.data@, i as int),
                lfns == lfn_slots(self.data@, start, i as int),
                lfns.len() == lfn@.len(),
                forall|t: int| 0 <= t < lfn@.len() ==> (#[trigger] lfn@[t]) < i,
                forall|t: int| 0 <= t < lfn@.len() ==> #[trigger] lfns[t] == slot(self.data@, lfn@[t] as int),
            decreases count - i,
        {
            let len = self.data.len();
            proof {
                assert(i * 32 + 32 <= len) by (nonlinear_arith)
                    requires
                        i < len / 32,
                ;
            }
            let kind = VFatUnknownDirEntry::from_bytes(&self.data, i * 32);
            let ghost s = slot(self.data@, i as int);
            proof {
                assert(s[0] == self.data@[i * 32]);
                assert(s[11] == self.data@[i * 32 + 11]);
            }
            if kind.is_end() {
                self.offset = count;
                return None;
            }
            if kind.is_unused() {
                i = i + 1;
                continue;
            }
            if kind.is_lfn() {
                lfn.push(i);
                proof {
                    lfns = lfns.push(s);
                }
                i = i + 1;
                continue;
            }
            let entry = self.create_entry(&lfn, Ghost(lfns), i);
            self.offset = i + 1;
            return Some(entry);
        }
        self.offset = count;
        None
    }
}

} // verus!
