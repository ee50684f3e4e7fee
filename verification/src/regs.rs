use vstd::prelude::*;

verus! {

/// Number of registers in a [`Regs`] file: the eight general-purpose registers,
/// the program counter and the condition register.
pub const REG_SIZE: u8 = 10;

/// A register file indexed by number.
pub struct Regs([u16; 10]);

impl View for Regs {
    type V = Seq<u16>;

    closed spec fn view(&self) -> Seq<u16> {
        self.0@
    }
}

/// Every `Regs` holds exactly [`REG_SIZE`] registers.
pub broadcast proof fn lemma_regs_len(r: &Regs)
    ensures
        #[trigger] r@.len() == REG_SIZE,
{
}

impl Regs {
    /// A register file with every register zero.
    pub fn new() -> (r: Self)
        ensures
            r@ == Seq::new(REG_SIZE as nat, |i: int| 0u16),
    {
        let r = Regs([0; 10]);
        assert(r@ =~= Seq::new(REG_SIZE as nat, |i: int| 0u16));
        r
    }

    /// The register numbered `addr`, which must be below [`REG_SIZE`].
    pub fn get_by_num(&self, addr: u8) -> (r: u16)
        requires
            addr < REG_SIZE,
        ensures
            r == self@[addr as int],
    {
        self.0[addr as usize]
    }

    /// Sets the register numbered `addr`, which must be below [`REG_SIZE`].
    pub fn set_by_num(&mut self, addr: u8, value: u16)
        requires
            addr < REG_SIZE,
        ensures
            final(self)@ == old(self)@.update(addr as int, value),
    {
        self.0[addr as usize] = value;
    }
}

} // verus!
