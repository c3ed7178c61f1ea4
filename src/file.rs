//! Files of a FAT32 filesystem: a start cluster, a size and a cursor.
use vstd::prelude::*;
use crate::cluster::Cluster;
use crate::device::{overwrite_prefix, BlockDevice};
use crate::io::ErrorKind;
use crate::vfat::VFat;

verus! {

/// Where a seek is measured from.
#[derive(Clone, Copy, Debug, PartialEq, Eq, Structural)]
pub enum SeekFrom {
    Start(u64),
    End(i64),
    Current(i64),
}

/// The position that `pos` names in a file of `size` bytes with the cursor
/// at `pointer`.
pub open spec fn seek_target(pos: SeekFrom, size: nat, pointer: nat) -> int {
    match pos {
        SeekFrom::Start(o) => o as int,
        SeekFrom::End(o) => size + o,
        SeekFrom::Current(o) => pointer + o,
    }
}

/// An open file: where its cluster chain starts, its size and the cursor.
#[derive(Clone, Copy, Debug)]
pub struct File {
    start: Cluster,
    size: u32,
    pointer: u64,
}

impl File {
    pub closed spec fn start_cluster(self) -> Cluster {
        self.start
    }

    pub closed spec fn file_size(self) -> nat {
        self.size as nat
    }

    /// The cursor.
    pub closed spec fn position(self) -> nat {
        self.pointer as nat
    }

    /// The cursor lies within the file.
    pub closed spec fn wf(self) -> bool {
        self.pointer <= self.size
    }

    /// A file starting at cluster `start` of `size` bytes, with the cursor
    /// at its start.
    pub fn new(start: Cluster, size: u32) -> (r: File)
        ensures
            r.start_cluster() == start,
            r.file_size() == size,
            r.position() == 0,
            r.wf(),
    {
        File { start, size, pointer: 0 }
    }

    /// The size of the file in bytes.
    pub fn size(&self) -> (r: u64)
        ensures
            r == self.file_size(),
    {
        self.size as u64
    }

    /// The first cluster of the file.
    pub fn start(&self) -> (r: Cluster)
        ensures
            r == self.start_cluster(),
    {
        self.start
    }

    /// The cursor.
    pub fn pointer(&self) -> (r: u64)
        ensures
            r == self.position(),
    {
        self.pointer
    }

    /// Moves the cursor to the position that `pos` names and returns it. A
    /// position before the start or past the end of the file is
    /// `InvalidInput`, and the cursor stays.
    pub fn seek(&mut self, pos: SeekFrom) -> (r: Result<u64, ErrorKind>)
        requires
            old(self).wf(),
        ensures
            final(self).wf(),
            final(self).start_cluster() == old(self).start_cluster(),
            final(self).file_size() == old(self).file_size(),
            ({
                let t = seek_target(pos, old(self).file_size(), old(self).position());
                if 0 <= t <= old(self).file_size() {
                    r == Ok::<u64, ErrorKind>(t as u64) && final(self).position() == t
                } else {
                    r == Err::<u64, ErrorKind>(ErrorKind::InvalidInput) && final(self).position()
                        == old(self).position()
                }
            }),
    {
        let size = self.size as u64;
        let target: Option<u64> = match pos {
            SeekFrom::Start(o) => {
                if o <= size {
                    Some(o)
                } else {
                    None
                }
            },
            SeekFrom::End(o) => {
                if o > 0 || o < -(size as i64) {
                    None
                } else {
                    Some((size as i64 + o) as u64)
                }
            },
            SeekFrom::Current(o) => {
                if o >= 0 {
                    if o as u64 <= size - self.pointer {
                        Some(self.pointer + o as u64)
                    } else {
                        None
                    }
                } else if o == i64::MIN || (-o) as u64 > self.pointer {
                    None
                } else {
                    Some(self.pointer - (-o) as u64)
                }
            },
        };
        match target {
            Some(p) => {
                self.pointer = p;
                Ok(p)
            },
            None => Err(ErrorKind::InvalidInput),
        }
    }

    /// Reads from the cursor into the front of `buf`: as many bytes as fit,
    /// up to the end of the file, taken from the file's cluster chain.
    /// Returns how many were read and moves the cursor past them.
    pub fn read<T: BlockDevice>(&mut self, vfat: &mut VFat<T>, buf: &mut Vec<u8>) -> (r: Result<usize, ErrorKind>)
        requires
            old(self).wf(),
            old(vfat).wf(),
        ensures
            final(self).wf(),
            final(vfat).wf(),
            final(vfat).same_fs(*old(vfat)),
            final(self).start_cluster() == old(self).start_cluster(),
            final(self).file_size() == old(self).file_size(),
            final(buf)@.len() == old(buf)@.len(),
            old(self).position() == old(self).file_size() || old(buf)@.len() == 0 ==> r == Ok::<
                usize,
                ErrorKind,
            >(0),
            r matches Ok(n) ==> final(self).position() == old(self).position() + n && (!(old(self).position() == old(self).file_size() || old(buf)@.len() == 0) ==> (
            old(vfat).chain(old(self).start_cluster(), old(vfat).fat_entries() + 1) matches Some(
                bytes,
            ) && n == min3(old(buf)@.len(), (old(self).file_size() - old(self).position()) as nat, (if bytes.len()
                > old(self).position() {
                bytes.len() - old(self).position()
            } else {
                0
            }) as nat) && final(buf)@ == overwrite_prefix(
                old(buf)@,
                bytes.subrange(old(self).position() as int, old(self).position() + n),
                n as nat,
            ))),
            r is Err ==> final(self).position() == old(self).position() && final(buf)@ == old(buf)@,
    {
        if self.pointer == self.size as u64 || buf.len() == 0 {
            return Ok(0);
        }
        let mut bytes: Vec<u8> = Vec::new();
        let total = vfat.read_chain(self.start, &mut bytes)?;
        proof {
            assert(bytes@ =~= Seq::<u8>::empty() + bytes@);
        }
        let p = self.pointer;
        if p >= bytes.len() as u64 {
            assert(buf@ =~= overwrite_prefix(old(buf)@, bytes@.subrange(p as int, p as int), 0));
            return Ok(0);
        }
        let mut n: usize = buf.len();
        if (self.size as u64 - p) < n as u64 {
            n = (self.size as u64 - p) as usize;
        }
        if (bytes.len() - p as usize) < n {
            n = bytes.len() - p as usize;
        }
        let blen = bytes.len();
        let mut i: usize = 0;
        while i < n
            invariant
                i <= n,
                n <= buf@.len(),
                p + n <= blen,
                blen == bytes@.len(),
                buf@.len() == old(buf)@.len(),
                forall|j: int| 0 <= j < i ==> buf@[j] == bytes@[p + j],
                forall|j: int| i <= j < buf@.len() ==> buf@[j] == old(buf)@[j],
            decreases n - i,
        {
            buf.set(i, bytes[p as usize + i]);
            i = i + 1;
        }
        proof {
            assert(buf@ =~= overwrite_prefix(old(buf)@, bytes@.subrange(p as int, p + n), n as nat));
        }
        self.pointer = p + n as u64;
        Ok(n)
    }
}

/// The smallest of three naturals.
pub open spec fn min3(a: nat, b: nat, c: nat) -> nat {
    if a <= b && a <= c {
        a
    } else if b <= c {
        b
    } else {
        c
    }
}

} // verus!
