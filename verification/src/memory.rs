use vstd::prelude::*;
use crate::error::{Result, VmError};
use crate::types::Address;

verus! {

/// The big-endian word made of bytes `hi` and `lo`.
pub open spec fn be_word(hi: u8, lo: u8) -> u16 {
    (hi * 0x100 + lo) as u16
}

/// The words of an image, two bytes each, high byte first.
pub open spec fn image_words(bytes: Seq<u8>) -> Seq<u16> {
    Seq::new(bytes.len() / 2, |k: int| be_word(bytes[2 * k], bytes[2 * k + 1]))
}

/// `mem` with `words` written from index `start` on.
pub open spec fn overwrite(mem: Seq<u16>, start: int, words: Seq<u16>) -> Seq<u16> {
    Seq::new(mem.len(), |i: int| if start <= i < start + words.len() { words[i - start] } else { mem[i] })
}

/// What reading `address` gives.
pub open spec fn read_spec(mem: Seq<u16>, address: Address) -> Result<u16> {
    Ok(mem[address.0 as int])
}

/// Memory after writing `value` at `address`.
pub open spec fn write_spec(mem: Seq<u16>, address: Address, value: u16) -> Seq<u16> {
    mem.update(address.0 as int, value)
}

/// What loading an image at `start` gives, and the memory after it: an odd number of
/// bytes, or an image that does not fit, is refused and leaves memory as it was.
pub open spec fn load_image_spec(mem: Seq<u16>, start: Address, bytes: Seq<u8>) -> (Result<()>, Seq<u16>) {
    if bytes.len() % 2 != 0 {
        (Err(VmError::ImageTooShort), mem)
    } else if start.0 + bytes.len() / 2 > 0x10000 {
        (Err(VmError::StartAddressOutOfBounds(start.0)), mem)
    } else {
        (Ok(()), overwrite(mem, start.0 as int, image_words(bytes)))
    }
}

/// The big-endian word made of bytes `hi` and `lo`.
pub(crate) fn word_from_be_bytes(hi: u8, lo: u8) -> (r: u16)
    ensures
        r == be_word(hi, lo),
{
    (hi as u16) * 0x100 + (lo as u16)
}

/// Whether a word is in use, that is, non-zero.
pub open spec fn is_used(w: u16) -> bool {
    w != 0
}

/// LC-3 memory: 65,536 words of 16 bits.
#[derive(Debug)]
pub struct Memory {
    data: [u16; 65536],
}

impl View for Memory {
    type V = Seq<u16>;

    closed spec fn view(&self) -> Seq<u16> {
        self.data@
    }
}

/// Every memory holds exactly 65,536 words.
pub broadcast proof fn lemma_memory_len(m: &Memory)
    ensures
        #[trigger] m@.len() == 0x10000,
{
}

impl Memory {
    /// Number of words.
    pub const SIZE: usize = 65536;

    /// The highest address.
    pub fn max_address() -> (r: Address)
        ensures
            r.0 == 0xFFFF,
    {
        Address(0xFFFF)
    }

    /// A memory whose words are all zero.
    pub fn new() -> (r: Self)
        ensures
            r@ == Seq::new(0x10000, |i: int| 0u16),
    {
        let r = Memory { data: [0; 65536] };
        assert(r@ =~= Seq::new(0x10000, |i: int| 0u16));
        r
    }

    /// The word at `address`.
    pub fn read(&self, address: Address) -> (r: Result<u16>)
        ensures
            r == read_spec(self@, address),
            r == Ok::<u16, VmError>(self@[address.0 as int]),
    {
        self.validate_address(address)?;
        Ok(self.data[address.usize()])
    }

    /// Writes `value` at `address`.
    pub fn write(&mut self, address: Address, value: u16) -> (r: Result<()>)
        ensures
            r == Ok::<(), VmError>(()),
            final(self)@ == write_spec(old(self)@, address, value),
            final(self)@ == old(self)@.update(address.0 as int, value),
            final(self)@[address.0 as int] == value,
            forall|other: int|
                0 <= other < 0x10000 && other != address.0 ==> #[trigger] final(self)@[other]
                    == old(self)@[other],
    {
        self.validate_address(address)?;
        self.data[address.usize()] = value;
        Ok(())
    }

    /// The `count` words from `start` on; fails when they run past the end of memory,
    /// naming the end index truncated to 16 bits.
    pub fn read_range(&self, start: Address, count: usize) -> (r: Result<&[u16]>)
        requires
            start.0 + count <= usize::MAX,
        ensures
            start.0 + count > 0x10000 ==> r == Err::<&[u16], VmError>(
                VmError::MemoryOutOfBounds((start.0 + count) as u16),
            ),
            start.0 + count <= 0x10000 ==> (r matches Ok(s) && s@ == self@.subrange(
                start.0 as int,
                start.0 + count,
            )),
    {
        let start_idx = start.usize();
        let end_idx = start_idx + count;
        if end_idx > Self::SIZE {
            return Err(VmError::MemoryOutOfBounds(end_idx as u16));
        }
        Ok(vstd::slice::slice_subrange(self.data.as_slice(), start_idx, end_idx))
    }

    /// Loads an image of big-endian words at `start_address`. Fails, leaving memory as it
    /// was, when the image has an odd number of bytes or does not fit.
    pub fn load_image(&mut self, start_address: Address, image_data: &[u8]) -> (r: Result<()>)
        ensures
            (r, final(self)@) == load_image_spec(old(self)@, start_address, image_data@),
            image_data@.len() % 2 != 0 ==> r == Err::<(), VmError>(VmError::ImageTooShort)
                && final(self)@ == old(self)@,
            image_data@.len() % 2 == 0 && start_address.0 + image_data@.len() / 2 > 0x10000
                ==> r == Err::<(), VmError>(VmError::StartAddressOutOfBounds(start_address.0))
                && final(self)@ == old(self)@,
            image_data@.len() % 2 == 0 && start_address.0 + image_data@.len() / 2 <= 0x10000
                ==> r == Ok::<(), VmError>(()) && final(self)@ == overwrite(
                old(self)@,
                start_address.0 as int,
                image_words(image_data@),
            ),
    {
        if image_data.len() % 2 != 0 {
            return Err(VmError::ImageTooShort);
        }
        let start_idx = start_address.usize();
        let word_count = image_data.len() / 2;
        let end_idx = start_idx + word_count;
        if end_idx > Self::SIZE {
            return Err(VmError::StartAddressOutOfBounds(start_address.0));
        }
        let ghost old_mem = self@;
        let ghost words = image_words(image_data@);
        let mut i: usize = 0;
        while i < word_count
            invariant
                word_count == image_data@.len() / 2,
                start_idx == start_address.0,
                start_idx + word_count <= 0x10000,
                i <= word_count,
                words == image_words(image_data@),
                old_mem.len() == 0x10000,
                self@ == overwrite(old_mem, start_idx as int, words.take(i as int)),
            decreases word_count - i,
        {
            let hi = image_data[2 * i];
            let lo = image_data[2 * i + 1];
            let value = word_from_be_bytes(hi, lo);
            self.data[start_idx + i] = value;
            assert(self@ =~= overwrite(old_mem, start_idx as int, words.take(i + 1)));
            i = i + 1;
        }
        assert(words.take(word_count as int) =~= words);
        Ok(())
    }

    /// Number of words in use (non-zero).
    pub fn used_words(&self) -> (n: usize)
        ensures
            n == self@.filter(|w: u16| w != 0).len(),
            n == self@.filter(|w: u16| is_used(w)).len(),
    {
        let mut n: usize = 0;
        let mut i: usize = 0;
        while i < Self::SIZE
            invariant
                i <= 0x10000,
                self@.len() == 0x10000,
                n == self@.take(i as int).filter(|w: u16| w != 0).len(),
                n <= i,
            decreases 0x10000 - i,
        {
            proof {
                self@.take(i as int).lemma_filter_len_push(|w: u16| w != 0, self@[i as int]);
                assert(self@.take(i + 1) =~= self@.take(i as int).push(self@[i as int]));
            }
            if self.data[i] != 0 {
                n = n + 1;
            }
            i = i + 1;
        }
        assert(self@.take(0x10000) =~= self@);
        assert((|w: u16| is_used(w)) =~= (|w: u16| w != 0));
        n
    }

    /// `Ok` for every address: each 16-bit address lies inside memory.
    fn validate_address(&self, address: Address) -> (r: Result<()>)
        ensures
            r == Ok::<(), VmError>(()),
    {
        if address.0 as usize >= Self::SIZE {
            Err(VmError::MemoryOutOfBounds(address.0))
        } else {
            Ok(())
        }
    }
}

impl Default for Memory {
    fn default() -> (r: Self)
        ensures
            r@ == Seq::new(0x10000, |i: int| 0u16),
    {
        Self::new()
    }
}

} // verus!
