use vstd::prelude::*;

verus! {

/// The two big-endian bytes of a 16-bit value.
pub open spec fn be16(v: u16) -> Seq<u8> {
    seq![(v / 256) as u8, (v % 256) as u8]
}

/// The value of two big-endian bytes.
pub open spec fn from_be16(hi: u8, lo: u8) -> u16 {
    (hi as int * 256 + lo as int) as u16
}

/// A cursor over a byte slice, reading from the front.
pub struct Reader<'a> {
    buf: &'a [u8],
    offs: usize,
}

impl<'a> Reader<'a> {
    /// The bytes not read yet.
    pub closed spec fn rest_view(&self) -> Seq<u8> {
        self.buf@.subrange(self.offs as int, self.buf@.len() as int)
    }

    pub closed spec fn wf(&self) -> bool {
        self.offs <= self.buf@.len()
    }

    /// A reader over the whole of `bytes`.
    pub fn init(bytes: &'a [u8]) -> (r: Reader<'a>)
        ensures
            r.wf(),
            r.rest_view() == bytes@,
    {
        let r = Reader { buf: bytes, offs: 0 };
        assert(r.rest_view() =~= bytes@);
        r
    }

    /// Whether any byte is left.
    pub fn any_left(&self) -> (r: bool)
        requires
            self.wf(),
        ensures
            r == (self.rest_view().len() > 0),
    {
        self.offs < self.buf.len()
    }

    /// The number of bytes left.
    pub fn left(&self) -> (r: usize)
        requires
            self.wf(),
        ensures
            r == self.rest_view().len(),
    {
        self.buf.len() - self.offs
    }

    /// Reads one byte.
    pub fn read_u8(&mut self) -> (r: Option<u8>)
        requires
            old(self).wf(),
        ensures
            final(self).wf(),
            old(self).rest_view().len() >= 1 ==> r == Some(old(self).rest_view()[0])
                && final(self).rest_view() == old(self).rest_view().subrange(1, old(self).rest_view().len() as int),
            old(self).rest_view().len() < 1 ==> r is None && final(self).rest_view() == old(self).rest_view(),
    {
        if self.offs < self.buf.len() {
            let b = self.buf[self.offs];
            self.offs = self.offs + 1;
            assert(final(self).rest_view() =~= old(self).rest_view().subrange(1, old(self).rest_view().len() as int));
            Some(b)
        } else {
            None
        }
    }

    /// Reads a big-endian 16-bit value.
    pub fn read_u16(&mut self) -> (r: Option<u16>)
        requires
            old(self).wf(),
        ensures
            final(self).wf(),
            old(self).rest_view().len() >= 2 ==> r == Some(from_be16(old(self).rest_view()[0], old(self).rest_view()[1]))
                && final(self).rest_view() == old(self).rest_view().subrange(2, old(self).rest_view().len() as int),
            old(self).rest_view().len() < 2 ==> r is None && final(self).rest_view() == old(self).rest_view(),
    {
        if self.buf.len() - self.offs >= 2 {
            let hi = self.buf[self.offs];
            let lo = self.buf[self.offs + 1];
            self.offs = self.offs + 2;
            assert(final(self).rest_view() =~= old(self).rest_view().subrange(2, old(self).rest_view().len() as int));
            Some((hi as u16) * 256 + (lo as u16))
        } else {
            None
        }
    }

    /// Takes the next `n` bytes.
    pub fn take(&mut self, n: usize) -> (r: Option<&'a [u8]>)
        requires
            old(self).wf(),
        ensures
            final(self).wf(),
            n <= old(self).rest_view().len() ==> r is Some && r.unwrap()@ == old(self).rest_view().subrange(0, n as int)
                && final(self).rest_view() == old(self).rest_view().subrange(n as int, old(self).rest_view().len() as int),
            n > old(self).rest_view().len() ==> r is None && final(self).rest_view() == old(self).rest_view(),
    {
        if n <= self.buf.len() - self.offs {
            let s = &self.buf[self.offs..self.offs + n];
            self.offs = self.offs + n;
            assert(s@ =~= old(self).rest_view().subrange(0, n as int));
            assert(final(self).rest_view() =~= old(self).rest_view().subrange(n as int, old(self).rest_view().len() as int));
            Some(s)
        } else {
            None
        }
    }

    /// Takes all bytes that are left.
    pub fn rest(&mut self) -> (r: &'a [u8])
        requires
            old(self).wf(),
        ensures
            final(self).wf(),
            r@ == old(self).rest_view(),
            final(self).rest_view().len() == 0,
    {
        let s = &self.buf[self.offs..self.buf.len()];
        self.offs = self.buf.len();
        s
    }

    /// Splits off a reader over the next `n` bytes.
    pub fn sub(&mut self, n: usize) -> (r: Option<Reader<'a>>)
        requires
            old(self).wf(),
        ensures
            final(self).wf(),
            n <= old(self).rest_view().len() ==> r is Some && r.unwrap().wf()
                && r.unwrap().rest_view() == old(self).rest_view().subrange(0, n as int)
                && final(self).rest_view() == old(self).rest_view().subrange(n as int, old(self).rest_view().len() as int),
            n > old(self).rest_view().len() ==> r is None && final(self).rest_view() == old(self).rest_view(),
    {
        match self.take(n) {
            Some(s) => Some(Reader::init(s)),
            None => None,
        }
    }
}

/// Appends `b` to `out`.
pub fn put_bytes(out: &mut Vec<u8>, b: &[u8])
    ensures
        final(out)@ == old(out)@ + b@,
{
    let mut i: usize = 0;
    while i < b.len()
        invariant
            i <= b@.len(),
            out@ == old(out)@ + b@.subrange(0, i as int),
        decreases b@.len() - i,
    {
        out.push(b[i]);
        i = i + 1;
        assert(out@ =~= old(out)@ + b@.subrange(0, i as int));
    }
    assert(b@.subrange(0, b@.len() as int) =~= b@);
}

/// Appends the two big-endian bytes of `v` to `out`.
pub fn put_u16(out: &mut Vec<u8>, v: u16)
    ensures
        final(out)@ == old(out)@ + be16(v),
{
    out.push((v / 256) as u8);
    out.push((v % 256) as u8);
    assert(out@ =~= old(out)@ + be16(v));
}

} // verus!
