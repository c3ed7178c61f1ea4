//! Sector-addressed block devices.
use vstd::prelude::*;
use crate::io::ErrorKind;

verus! {

/// The bytes of `b` from index `i` up to (not including) `j`, with both
/// bounds cut to the length of `b`.
pub open spec fn clamp_range(b: Seq<u8>, i: int, j: int) -> Seq<u8> {
    let lo = if i < b.len() { i } else { b.len() as int };
    let hi = if j < b.len() { j } else { b.len() as int };
    if lo < hi { b.subrange(lo, hi) } else { seq![] }
}

/// The smaller of two naturals.
pub open spec fn min_nat(a: nat, b: nat) -> nat {
    if a < b { a } else { b }
}

/// `buf` after its first `k` bytes were replaced by those of `src`.
pub open spec fn overwrite_prefix(buf: Seq<u8>, src: Seq<u8>, k: nat) -> Seq<u8> {
    src.take(k as int) + buf.skip(k as int)
}

/// A device that reads and writes whole sectors.
pub trait BlockDevice {
    /// The bytes that a read of sector `n` yields: a whole sector, fewer at
    /// the end of the device, none past it.
    spec fn sector(&self, n: u64) -> Seq<u8>;

    /// The size of a sector in bytes.
    spec fn spec_sector_size(&self) -> nat;

    fn sector_size(&self) -> (r: u64)
        ensures
            r == self.spec_sector_size(),
    ;

    /// Reads sector `n` into the front of `buf`; returns the number of bytes
    /// read.
    fn read_sector(&mut self, n: u64, buf: &mut Vec<u8>) -> (r: Result<usize, ErrorKind>)
        ensures
            final(self).spec_sector_size() == old(self).spec_sector_size(),
            forall|m: u64| #[trigger] final(self).sector(m) == old(self).sector(m),
            final(buf)@.len() == old(buf)@.len(),
            r matches Ok(k) ==> k == min_nat(old(buf)@.len(), old(self).sector(n).len())
                && final(buf)@ == overwrite_prefix(old(buf)@, old(self).sector(n), k as nat),
            r is Err ==> final(buf)@ == old(buf)@,
    ;

    /// Overwrites the front of sector `n` with `buf`; returns the number of
    /// bytes written.
    fn write_sector(&mut self, n: u64, buf: &Vec<u8>) -> (r: Result<usize, ErrorKind>)
        ensures
            final(self).spec_sector_size() == old(self).spec_sector_size(),
            forall|m: u64| m != n ==> #[trigger] final(self).sector(m) == old(self).sector(m),
            r matches Ok(k) ==> k == min_nat(buf@.len(), old(self).sector(n).len())
                && final(self).sector(n) == overwrite_prefix(old(self).sector(n), buf@, k as nat),
            r is Err ==> final(self).sector(n) == old(self).sector(n),
    ;
}

/// The sector size of an in-memory device.
pub const MEM_SECTOR_SIZE: u64 = 512;

/// A block device over an in-memory byte image, with 512-byte sectors. A
/// read that would run past the end of the image fails with
/// `UnexpectedEof`.
pub struct MemDevice {
    data: Vec<u8>,
}

impl MemDevice {
    /// The image.
    pub closed spec fn image(&self) -> Seq<u8> {
        self.data@
    }

    pub fn new(data: Vec<u8>) -> (r: MemDevice)
        ensures
            r.image() == data@,
    {
        MemDevice { data }
    }

    /// The image.
    pub fn get_ref(&self) -> (r: &Vec<u8>)
        ensures
            r@ == self.image(),
    {
        &self.data
    }

    /// Gives the image back.
    pub fn into_inner(self) -> (r: Vec<u8>)
        ensures
            r@ == self.image(),
    {
        self.data
    }

    /// The start of sector `n` in the image, or the image's length when the
    /// sector lies past it.
    fn sector_start(&self, n: u64) -> (r: usize)
        ensures
            r == (if n * 512 < self.data@.len() { n * 512 } else { self.data@.len() as int }),
    {
        let len = self.data.len();
        if n >= (len as u64) / 512 + 1 {
            proof {
                assert(n * 512 >= len) by (nonlinear_arith)
                    requires
                        n >= len / 512 + 1,
                ;
            }
            len
        } else {
            proof {
                assert(n * 512 <= len + 512) by (nonlinear_arith)
                    requires
                        n <= len / 512,
                ;
            }
            let s = (n * 512) as usize;
            if s < len {
                s
            } else {
                len
            }
        }
    }
}

impl BlockDevice for MemDevice {
    open spec fn sector(&self, n: u64) -> Seq<u8> {
        clamp_range(self.image(), n * 512, n * 512 + 512)
    }

    open spec fn spec_sector_size(&self) -> nat {
        512
    }

    fn sector_size(&self) -> (r: u64) {
        MEM_SECTOR_SIZE
    }

    fn read_sector(&mut self, n: u64, buf: &mut Vec<u8>) -> (r: Result<usize, ErrorKind>) {
        let start = self.sector_start(n);
        let len = self.data.len();
        let avail = if len - start < 512 { len - start } else { 512 };
        let want: usize = if buf.len() < 512 { buf.len() } else { 512 };
        if want > avail {
            return Err(ErrorKind::UnexpectedEof);
        }
        let k = want;
        let ghost sec = self.sector(n);
        assert(sec =~= self.data@.subrange(start as int, start + avail) || avail == 0);
        let mut i: usize = 0;
        while i < k
            invariant
                i <= k,
                k <= buf@.len(),
                k <= avail,
                start + avail <= len,
                len == self.data@.len(),
                buf@.len() == old(buf)@.len(),
                avail == 0 || sec =~= self.data@.subrange(start as int, start + avail),
                avail == sec.len(),
                forall|j: int| 0 <= j < i ==> buf@[j] == sec[j],
                forall|j: int| i <= j < buf@.len() ==> buf@[j] == old(buf)@[j],
            decreases k - i,
        {
            buf.set(i, self.data[start + i]);
            i = i + 1;
        }
        assert(buf@ =~= overwrite_prefix(old(buf)@, sec, k as nat));
        Ok(k)
    }

    fn write_sector(&mut self, n: u64, buf: &Vec<u8>) -> (r: Result<usize, ErrorKind>) {
        let start = self.sector_start(n);
        let len = self.data.len();
        let avail = if len - start < 512 { len - start } else { 512 };
        let k = if buf.len() < avail { buf.len() } else { avail };
        let ghost old_data = self.data@;
        let mut i: usize = 0;
        while i < k
            invariant
                i <= k,
                k <= buf@.len(),
                k <= avail,
                start + avail <= len,
                len == self.data@.len(),
                len == old_data.len(),
                forall|j: int| start <= j < start + i ==> self.data@[j] == buf@[j - start],
                forall|j: int| 0 <= j < len && !(start <= j < start + i) ==> self.data@[j] == old_data[j],
            decreases k - i,
        {
            self.data.set(start + i, buf[i]);
            i = i + 1;
        }
        proof {
            assert forall|m: u64| m != n implies #[trigger] self.sector(m) == old(self).sector(m) by {
                if m * 512 < len {
                    if m < n {
                        assert(m * 512 + 512 <= n * 512) by (nonlinear_arith)
                            requires
                                m < n,
                        ;
                    } else {
                        assert(n * 512 + 512 <= m * 512) by (nonlinear_arith)
                            requires
                                n < m,
                        ;
                    }
                    assert(self.sector(m) =~= old(self).sector(m));
                }
            }
            assert(self.sector(n) =~= overwrite_prefix(old(self).sector(n), buf@, k as nat));
        }
        Ok(k)
    }
}

} // verus!
