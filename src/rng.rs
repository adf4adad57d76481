use vstd::prelude::*;

verus! {

/// One step of the xorshift64 generator.
pub open spec fn xorshift(x: u64) -> u64 {
    let a = x ^ (x << 13u64);
    let b = a ^ (a >> 7u64);
    b ^ (b << 17u64)
}

/// A small deterministic xorshift64 generator; a seed pins its whole output.
#[derive(Debug, Clone, Copy)]
pub struct SimpleRng {
    pub state: u64,
}

/// The seed used when none is given.
pub const DEFAULT_SEED: u64 = 0x123456789ABCDEF0;

impl SimpleRng {
    /// A generator with the default seed.
    pub fn new() -> (r: Self)
        ensures
            r.state == DEFAULT_SEED,
    {
        SimpleRng { state: DEFAULT_SEED }
    }

    /// A generator with the given seed; a zero seed is replaced by the default one,
    /// since xorshift never leaves zero.
    pub fn with_seed(seed: u64) -> (r: Self)
        ensures
            r.state == if seed == 0 { DEFAULT_SEED } else { seed },
    {
        SimpleRng { state: if seed == 0 { DEFAULT_SEED } else { seed } }
    }

    /// The next 64-bit output.
    pub fn next_u64(&mut self) -> (r: u64)
        ensures
            r == xorshift(old(self).state),
            final(self).state == r,
    {
        let mut x = self.state;
        x = x ^ (x << 13u64);
        x = x ^ (x >> 7u64);
        x = x ^ (x << 17u64);
        self.state = x;
        x
    }

    /// A value below `n`: the next output modulo `n`.
    pub fn below(&mut self, n: u64) -> (r: u64)
        requires
            n > 0,
        ensures
            r < n,
            r == xorshift(old(self).state) % n,
            final(self).state == xorshift(old(self).state),
    {
        let x = self.next_u64();
        x % n
    }

    /// A value in `[min, max]`; `min` when `min >= max`.
    pub fn gen_range(&mut self, min: u16, max: u16) -> (r: u16)
        ensures
            min >= max ==> r == min && final(self).state == old(self).state,
            min < max ==> min <= r <= max && final(self).state == xorshift(old(self).state),
    {
        if min >= max {
            return min;
        }
        let span = (max - min) as u64 + 1;
        let v = self.below(span);
        min + v as u16
    }

    /// An index below `len`.
    pub fn index(&mut self, len: usize) -> (r: usize)
        requires
            len > 0,
        ensures
            r < len,
            final(self).state == xorshift(old(self).state),
    {
        let v = self.below(len as u64);
        v as usize
    }

    /// True with probability `permille` / 1000.
    pub fn chance(&mut self, permille: u16) -> (r: bool)
        ensures
            permille >= 1000 ==> r,
            permille == 0 ==> !r,
            final(self).state == xorshift(old(self).state),
    {
        let v = self.below(1000);
        v < permille as u64
    }
}

} // verus!
