use vstd::prelude::*;

verus! {

/// Number of words in memory.
pub const MEM_SIZE: u32 = 1 << 16;

/// A plain memory of 65,536 words, indexed by `usize`.
pub struct Mem([u16; 65536]);

impl View for Mem {
    type V = Seq<u16>;

    closed spec fn view(&self) -> Seq<u16> {
        self.0@
    }
}

/// Every `Mem` holds exactly 65,536 words.
pub broadcast proof fn lemma_mem_len(m: &Mem)
    ensures
        #[trigger] m@.len() == 0x10000,
{
}

impl Mem {
    /// A memory whose words are all zero.
    pub fn new() -> (r: Self)
        ensures
            r@ == Seq::new(0x10000, |i: int| 0u16),
    {
        let r = Mem([0; 65536]);
        assert(r@ =~= Seq::new(0x10000, |i: int| 0u16));
        r
    }

    /// The word at `addr`, which must lie inside memory.
    pub fn get_mem(&mut self, addr: usize) -> (r: u16)
        requires
            addr < 0x10000,
        ensures
            r == old(self)@[addr as int],
            final(self)@ == old(self)@,
    {
        self.0[addr]
    }

    /// Writes `val` at `addr`, which must lie inside memory.
    pub fn set_mem(&mut self, addr: usize, val: u16)
        requires
            addr < 0x10000,
        ensures
            final(self)@ == old(self)@.update(addr as int, val),
    {
        self.0[addr] = val
    }
}

} // verus!
