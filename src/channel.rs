//! Byte channels: two-way byte streams with a record of the traffic.
use vstd::prelude::*;
use crate::io::ErrorKind;

verus! {

/// A two-way byte stream. `received` is every byte read so far and `sent`
/// every byte written so far. A failed read or write moves no byte, and a
/// channel retries interrupted transfers itself, so it never reports
/// `Interrupted`. The records default to empty only so that code outside
/// the library can name the trait; an implementation that keeps the
/// defaults does not meet the contract of `read_byte` and `write_byte`, and
/// nothing the library proves about the traffic holds for it.
pub trait Channel {
    open spec fn received(&self) -> Seq<u8> {
        Seq::empty()
    }

    open spec fn sent(&self) -> Seq<u8> {
        Seq::empty()
    }

    fn read_byte(&mut self) -> (r: Result<u8, ErrorKind>)
        ensures
            final(self).sent() == old(self).sent(),
            r matches Ok(b) ==> final(self).received() == old(self).received().push(b),
            r is Err ==> final(self).received() == old(self).received(),
            r != Err::<u8, ErrorKind>(ErrorKind::Interrupted),
    ;

    fn write_byte(&mut self, b: u8) -> (r: Result<(), ErrorKind>)
        ensures
            final(self).received() == old(self).received(),
            r is Ok ==> final(self).sent() == old(self).sent().push(b),
            r is Err ==> final(self).sent() == old(self).sent(),
            r != Err::<(), ErrorKind>(ErrorKind::Interrupted),
    ;

    fn flush(&mut self) -> (r: Result<(), ErrorKind>)
        ensures
            final(self).received() == old(self).received(),
            final(self).sent() == old(self).sent(),
    ;
}

/// A byte buffer with one position for reading and writing alike: a read
/// takes the byte at the position, a write overwrites it (or appends at the
/// end); both move the position on by one.
pub struct Cursor {
    buf: Vec<u8>,
    pos: usize,
    read_log: Ghost<Seq<u8>>,
    write_log: Ghost<Seq<u8>>,
}

impl Cursor {
    pub closed spec fn contents(&self) -> Seq<u8> {
        self.buf@
    }

    pub closed spec fn spec_position(&self) -> nat {
        self.pos as nat
    }

    pub closed spec fn wf(&self) -> bool {
        self.pos <= self.buf@.len()
    }

    pub fn new(buf: Vec<u8>) -> (r: Cursor)
        ensures
            r.wf(),
            r.contents() == buf@,
            r.spec_position() == 0,
            r.received() == Seq::<u8>::empty(),
            r.sent() == Seq::<u8>::empty(),
    {
        let read_log: Ghost<Seq<u8>> = Ghost(Seq::empty());
        let write_log: Ghost<Seq<u8>> = Ghost(Seq::empty());
        Cursor { buf, pos: 0, read_log, write_log }
    }

    pub fn position(&self) -> (r: usize)
        ensures
            r == self.spec_position(),
    {
        self.pos
    }

    pub fn get_ref(&self) -> (r: &Vec<u8>)
        ensures
            r@ == self.contents(),
    {
        &self.buf
    }

    pub fn into_inner(self) -> (r: Vec<u8>)
        ensures
            r@ == self.contents(),
    {
        self.buf
    }
}

impl Channel for Cursor {
    closed spec fn received(&self) -> Seq<u8> {
        self.read_log@
    }

    closed spec fn sent(&self) -> Seq<u8> {
        self.write_log@
    }

    /// Reads the byte at the position; at the end, `UnexpectedEof`.
    fn read_byte(&mut self) -> (r: Result<u8, ErrorKind>) {
        if self.pos >= self.buf.len() {
            return Err(ErrorKind::UnexpectedEof);
        }
        let b = self.buf[self.pos];
        self.pos = self.pos + 1;
        let ghost log = self.read_log@.push(b);
        self.read_log = Ghost(log);
        Ok(b)
    }

    /// Overwrites the byte at the position, or appends at the end.
    fn write_byte(&mut self, b: u8) -> (r: Result<(), ErrorKind>) {
        if self.pos < self.buf.len() {
            self.buf.set(self.pos, b);
            self.pos = self.pos + 1;
        } else {
            self.buf.push(b);
            self.pos = self.buf.len();
        }
        let ghost log = self.write_log@.push(b);
        self.write_log = Ghost(log);
        Ok(())
    }

    fn flush(&mut self) -> (r: Result<(), ErrorKind>) {
        Ok(())
    }
}

/// A channel that reads from a fixed script of input bytes and keeps what
/// is written to it; past the end of the script a read fails with
/// `UnexpectedEof`.
pub struct Duplex {
    input: Vec<u8>,
    pos: usize,
    output: Vec<u8>,
}

impl Duplex {
    pub closed spec fn script(&self) -> Seq<u8> {
        self.input@
    }

    pub fn new(input: Vec<u8>) -> (r: Duplex)
        ensures
            r.script() == input@,
            r.received() == Seq::<u8>::empty(),
            r.sent() == Seq::<u8>::empty(),
    {
        Duplex { input, pos: 0, output: Vec::new() }
    }

    /// Everything written so far.
    pub fn output(&self) -> (r: &Vec<u8>)
        ensures
            r@ == self.sent(),
    {
        &self.output
    }

    /// The number of script bytes read so far.
    pub fn consumed(&self) -> (r: usize)
        ensures
            r == self.received().len(),
    {
        if self.pos <= self.input.len() {
            self.pos
        } else {
            self.input.len()
        }
    }
}

impl Channel for Duplex {
    closed spec fn received(&self) -> Seq<u8> {
        if self.pos <= self.input@.len() {
            self.input@.take(self.pos as int)
        } else {
            self.input@
        }
    }

    closed spec fn sent(&self) -> Seq<u8> {
        self.output@
    }

    fn read_byte(&mut self) -> (r: Result<u8, ErrorKind>) {
        if self.pos >= self.input.len() {
            return Err(ErrorKind::UnexpectedEof);
        }
        let b = self.input[self.pos];
        proof {
            assert(self.input@.take(self.pos + 1) =~= self.input@.take(self.pos as int).push(b));
        }
        self.pos = self.pos + 1;
        Ok(b)
    }

    fn write_byte(&mut self, b: u8) -> (r: Result<(), ErrorKind>) {
        self.output.push(b);
        Ok(())
    }

    fn flush(&mut self) -> (r: Result<(), ErrorKind>) {
        Ok(())
    }
}

} // verus!
