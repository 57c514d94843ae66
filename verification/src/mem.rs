//! On-board system memory (BIOS, EWRAM, IWRAM) and little-endian byte
//! access helpers shared with the bus.
use vstd::prelude::*;

verus! {

pub const BIOS_SIZE: usize = 0x4000;

pub const EWRAM_SIZE: usize = 0x40000;

pub const IWRAM_SIZE: usize = 0x8000;

/// The offset after `offset` in a region of `n` bytes, wrapping to 0.
pub open spec fn wrap_next(offset: int, n: int) -> int {
    if offset + 1 < n {
        offset + 1
    } else {
        0
    }
}

/// The little-endian halfword at `offset`, the high byte wrapping to the
/// start of the region.
pub open spec fn le16_at(s: Seq<u8>, offset: int) -> u16 {
    (s[offset] as u16) | ((s[wrap_next(offset, s.len() as int)] as u16) << 8u16)
}

/// The little-endian word at `offset`, wrapping to the start of the region.
pub open spec fn le32_at(s: Seq<u8>, offset: int) -> u32 {
    let n = s.len() as int;
    let o1 = wrap_next(offset, n);
    let o2 = wrap_next(o1, n);
    let o3 = wrap_next(o2, n);
    (s[offset] as u32) | ((s[o1] as u32) << 8u32) | ((s[o2] as u32) << 16u32) | ((s[o3] as u32)
        << 24u32)
}

/// `s` with a little-endian halfword stored at `offset` (wrapping).
pub open spec fn store16(s: Seq<u8>, offset: int, val: u16) -> Seq<u8> {
    s.update(offset, val as u8).update(wrap_next(offset, s.len() as int), (val >> 8u16) as u8)
}

/// `s` with a little-endian word stored at `offset` (wrapping).
pub open spec fn store32(s: Seq<u8>, offset: int, val: u32) -> Seq<u8> {
    let n = s.len() as int;
    let o1 = wrap_next(offset, n);
    let o2 = wrap_next(o1, n);
    let o3 = wrap_next(o2, n);
    s.update(offset, val as u8).update(o1, (val >> 8u32) as u8).update(o2, (val >> 16u32) as u8).update(
        o3,
        (val >> 24u32) as u8,
    )
}

fn next_offset(offset: usize, n: usize) -> (r: usize)
    requires
        offset < n,
    ensures
        r == wrap_next(offset as int, n as int),
        r < n,
{
    if offset + 1 < n {
        offset + 1
    } else {
        0
    }
}

pub fn read_u16<const N: usize>(slice: &[u8; N], offset: usize) -> (r: u16)
    requires
        offset < N,
    ensures
        r == le16_at(slice@, offset as int),
{
    let lo = slice[offset] as u16;
    let hi = slice[next_offset(offset, N)] as u16;
    lo | (hi << 8u16)
}

pub fn read_u32<const N: usize>(slice: &[u8; N], offset: usize) -> (r: u32)
    requires
        offset < N,
    ensures
        r == le32_at(slice@, offset as int),
{
    let n = N;
    let o1 = next_offset(offset, n);
    let o2 = next_offset(o1, n);
    let o3 = next_offset(o2, n);
    (slice[offset] as u32) | ((slice[o1] as u32) << 8u32) | ((slice[o2] as u32) << 16u32) | ((
    slice[o3] as u32) << 24u32)
}

pub fn write_u16<const N: usize>(slice: &mut [u8; N], offset: usize, val: u16)
    requires
        offset < N,
    ensures
        final(slice)@ == store16(old(slice)@, offset as int, val),
{
    let o1 = next_offset(offset, N);
    slice[offset] = val as u8;
    slice[o1] = (val >> 8u16) as u8;
}

pub fn write_u32<const N: usize>(slice: &mut [u8; N], offset: usize, val: u32)
    requires
        offset < N,
    ensures
        final(slice)@ == store32(old(slice)@, offset as int, val),
{
    let o1 = next_offset(offset, N);
    let o2 = next_offset(o1, N);
    let o3 = next_offset(o2, N);
    slice[offset] = val as u8;
    slice[o1] = (val >> 8u32) as u8;
    slice[o2] = (val >> 16u32) as u8;
    slice[o3] = (val >> 24u32) as u8;
}

/// A halfword or word stored and read back at the same offset of a region
/// of at least four bytes is the value stored.
pub proof fn lemma_store_then_load(s: Seq<u8>, offset: int, v16: u16, v32: u32)
    requires
        0 <= offset < s.len(),
        s.len() >= 4,
    ensures
        le16_at(store16(s, offset, v16), offset) == v16,
        le32_at(store32(s, offset, v32), offset) == v32,
{
    assert(((v16 as u8) as u16) | ((((v16 >> 8u16) as u8) as u16) << 8u16) == v16) by (bit_vector);
    assert(((v32 as u8) as u32) | ((((v32 >> 8u32) as u8) as u32) << 8u32) | ((((v32 >> 16u32) as u8)
        as u32) << 16u32) | ((((v32 >> 24u32) as u8) as u32) << 24u32) == v32) by (bit_vector);
}

/// On-board system memory owned by the GBA core.
#[derive(Debug, Clone, PartialEq, Eq)]
pub struct Memory {
    bios: Box<[u8; BIOS_SIZE]>,
    ewram: Box<[u8; EWRAM_SIZE]>,
    iwram: Box<[u8; IWRAM_SIZE]>,
}

#[derive(Debug, Clone, PartialEq, Eq, Structural)]
pub enum BiosLoadError {
    TooLarge { actual: usize, max: usize },
}

/// Byte offset of an address within a region whose size is a power of two
/// (the region mirrors across its whole window).
pub open spec fn mirror(addr: u32, size: usize) -> int {
    (addr & ((size - 1) as u32)) as int
}

pub proof fn lemma_mirror_bounds(addr: u32)
    ensures
        0 <= mirror(addr, BIOS_SIZE) < BIOS_SIZE,
        0 <= mirror(addr, EWRAM_SIZE) < EWRAM_SIZE,
        0 <= mirror(addr, IWRAM_SIZE) < IWRAM_SIZE,
{
    assert(addr & 0x3fff < 0x4000) by (bit_vector);
    assert(addr & 0x3ffff < 0x40000) by (bit_vector);
    assert(addr & 0x7fff < 0x8000) by (bit_vector);
}

/// Addresses that differ by a multiple of a region's size reach the same byte.
pub proof fn lemma_mirror_period(addr: u32, k: u32)
    requires
        addr as int + k as int * EWRAM_SIZE as int <= u32::MAX,
        addr as int + k as int * IWRAM_SIZE as int <= u32::MAX,
    ensures
        mirror((addr + k * 0x40000) as u32, EWRAM_SIZE) == mirror(addr, EWRAM_SIZE),
        mirror((addr + k * 0x8000) as u32, IWRAM_SIZE) == mirror(addr, IWRAM_SIZE),
{
    let a = (addr + k * 0x40000) as u32;
    let b = (addr + k * 0x8000) as u32;
    assert(a == addr + k * 0x40000);
    assert(b == addr + k * 0x8000);
    let m = k * 0x40000;
    let m2 = k * 0x8000;
    assert(m == (m / 0x40000) * 0x40000) by (nonlinear_arith)
        requires m == k * 0x40000, k >= 0;
    assert(m2 == (m2 / 0x8000) * 0x8000) by (nonlinear_arith)
        requires m2 == k * 0x8000, k >= 0;
    let mu = m as u32;
    let m2u = m2 as u32;
    assert(mu & 0x3ffff == 0) by (bit_vector)
        requires mu % 0x40000 == 0;
    assert(m2u & 0x7fff == 0) by (bit_vector)
        requires m2u % 0x8000 == 0;
    assert((addr + mu) as u32 & 0x3ffff == addr & 0x3ffff) by (bit_vector)
        requires mu & 0x3ffff == 0, addr + mu <= 0xffff_ffff;
    assert((addr + m2u) as u32 & 0x7fff == addr & 0x7fff) by (bit_vector)
        requires m2u & 0x7fff == 0, addr + m2u <= 0xffff_ffff;
}

impl Memory {
    /// Each region has its size.
    pub open spec fn wf(&self) -> bool {
        &&& self.bios().len() == BIOS_SIZE
        &&& self.ewram().len() == EWRAM_SIZE
        &&& self.iwram().len() == IWRAM_SIZE
    }

    pub proof fn lemma_wf_sizes(&self)
        ensures
            self.bios().len() == BIOS_SIZE,
            self.ewram().len() == EWRAM_SIZE,
            self.iwram().len() == IWRAM_SIZE,
    {
    }

    pub closed spec fn bios(&self) -> Seq<u8> {
        self.bios@
    }

    pub closed spec fn ewram(&self) -> Seq<u8> {
        self.ewram@
    }

    pub closed spec fn iwram(&self) -> Seq<u8> {
        self.iwram@
    }

    /// Zero-filled BIOS, EWRAM and IWRAM.
    pub fn new() -> (r: Memory)
        ensures
            r.wf(),
            r.bios() == Seq::new(BIOS_SIZE as nat, |i: int| 0u8),
            r.ewram() == Seq::new(EWRAM_SIZE as nat, |i: int| 0u8),
            r.iwram() == Seq::new(IWRAM_SIZE as nat, |i: int| 0u8),
    {
        let r = Memory {
            bios: Box::new([0u8; BIOS_SIZE]),
            ewram: Box::new([0u8; EWRAM_SIZE]),
            iwram: Box::new([0u8; IWRAM_SIZE]),
        };
        assert(r.bios@ =~= Seq::new(BIOS_SIZE as nat, |i: int| 0u8));
        assert(r.ewram@ =~= Seq::new(EWRAM_SIZE as nat, |i: int| 0u8));
        assert(r.iwram@ =~= Seq::new(IWRAM_SIZE as nat, |i: int| 0u8));
        r
    }

    /// Copies an image into the BIOS, zero-filling the rest; an image larger
    /// than the BIOS is refused and nothing changes.
    pub fn load_bios(&mut self, bios: &[u8]) -> (r: Result<(), BiosLoadError>)
        ensures
            final(self).wf(),
            bios@.len() > BIOS_SIZE ==> r == Err::<(), BiosLoadError>(
                BiosLoadError::TooLarge { actual: bios@.len() as usize, max: BIOS_SIZE },
            ) && final(self).bios() == old(self).bios(),
            bios@.len() <= BIOS_SIZE ==> r is Ok && final(self).bios() == bios@ + Seq::new(
                (BIOS_SIZE - bios@.len()) as nat,
                |i: int| 0u8,
            ),
            final(self).ewram() == old(self).ewram(),
            final(self).iwram() == old(self).iwram(),
    {
        if bios.len() > BIOS_SIZE {
            return Err(BiosLoadError::TooLarge { actual: bios.len(), max: BIOS_SIZE });
        }
        let mut image = Box::new([0u8; BIOS_SIZE]);
        let mut i: usize = 0;
        while i < bios.len()
            invariant
                bios@.len() <= BIOS_SIZE,
                i <= bios@.len(),
                forall|j: int| 0 <= j < BIOS_SIZE ==> image@[j] == (if j < i {
                    bios@[j]
                } else {
                    0u8
                }),
            decreases bios@.len() - i,
        {
            image[i] = bios[i];
            i = i + 1;
        }
        assert(image@ =~= bios@ + Seq::new((BIOS_SIZE - bios@.len()) as nat, |i: int| 0u8));
        self.bios = image;
        Ok(())
    }

    pub fn read_bios_8(&self, addr: u32) -> (r: u8)
        ensures
            r == self.bios()[mirror(addr, BIOS_SIZE)],
    {
        proof {
            lemma_mirror_bounds(addr);
        }
        self.bios[(addr & 0x3fff) as usize]
    }

    pub fn read_bios_16(&self, addr: u32) -> (r: u16)
        ensures
            r == le16_at(self.bios(), mirror(addr, BIOS_SIZE)),
    {
        proof {
            lemma_mirror_bounds(addr);
        }
        read_u16(&self.bios, (addr & 0x3fff) as usize)
    }

    pub fn read_bios_32(&self, addr: u32) -> (r: u32)
        ensures
            r == le32_at(self.bios(), mirror(addr, BIOS_SIZE)),
    {
        proof {
            lemma_mirror_bounds(addr);
        }
        read_u32(&self.bios, (addr & 0x3fff) as usize)
    }

    pub fn read_ewram_8(&self, addr: u32) -> (r: u8)
        ensures
            r == self.ewram()[mirror(addr, EWRAM_SIZE)],
    {
        proof {
            lemma_mirror_bounds(addr);
        }
        self.ewram[(addr & 0x3ffff) as usize]
    }

    pub fn read_ewram_16(&self, addr: u32) -> (r: u16)
        ensures
            r == le16_at(self.ewram(), mirror(addr, EWRAM_SIZE)),
    {
        proof {
            lemma_mirror_bounds(addr);
        }
        read_u16(&self.ewram, (addr & 0x3ffff) as usize)
    }

    pub fn read_ewram_32(&self, addr: u32) -> (r: u32)
        ensures
            r == le32_at(self.ewram(), mirror(addr, EWRAM_SIZE)),
    {
        proof {
            lemma_mirror_bounds(addr);
        }
        read_u32(&self.ewram, (addr & 0x3ffff) as usize)
    }

    pub fn write_ewram_8(&mut self, addr: u32, val: u8)
        ensures
            final(self).wf(),
            final(self).ewram() == old(self).ewram().update(mirror(addr, EWRAM_SIZE), val),
            final(self).bios() == old(self).bios(),
            final(self).iwram() == old(self).iwram(),
    {
        proof {
            lemma_mirror_bounds(addr);
        }
        self.ewram[(addr & 0x3ffff) as usize] = val;
    }

    pub fn write_ewram_16(&mut self, addr: u32, val: u16)
        ensures
            final(self).wf(),
            final(self).ewram() == store16(old(self).ewram(), mirror(addr, EWRAM_SIZE), val),
            final(self).bios() == old(self).bios(),
            final(self).iwram() == old(self).iwram(),
    {
        proof {
            lemma_mirror_bounds(addr);
        }
        write_u16(&mut self.ewram, (addr & 0x3ffff) as usize, val);
    }

    pub fn write_ewram_32(&mut self, addr: u32, val: u32)
        ensures
            final(self).wf(),
            final(self).ewram() == store32(old(self).ewram(), mirror(addr, EWRAM_SIZE), val),
            final(self).bios() == old(self).bios(),
            final(self).iwram() == old(self).iwram(),
    {
        proof {
            lemma_mirror_bounds(addr);
        }
        write_u32(&mut self.ewram, (addr & 0x3ffff) as usize, val);
    }

    pub fn read_iwram_8(&self, addr: u32) -> (r: u8)
        ensures
            r == self.iwram()[mirror(addr, IWRAM_SIZE)],
    {
        proof {
            lemma_mirror_bounds(addr);
        }
        self.iwram[(addr & 0x7fff) as usize]
    }

    pub fn read_iwram_16(&self, addr: u32) -> (r: u16)
        ensures
            r == le16_at(self.iwram(), mirror(addr, IWRAM_SIZE)),
    {
        proof {
            lemma_mirror_bounds(addr);
        }
        read_u16(&self.iwram, (addr & 0x7fff) as usize)
    }

    pub fn read_iwram_32(&self, addr: u32) -> (r: u32)
        ensures
            r == le32_at(self.iwram(), mirror(addr, IWRAM_SIZE)),
    {
        proof {
            lemma_mirror_bounds(addr);
        }
        read_u32(&self.iwram, (addr & 0x7fff) as usize)
    }

    pub fn write_iwram_8(&mut self, addr: u32, val: u8)
        ensures
            final(self).wf(),
            final(self).iwram() == old(self).iwram().update(mirror(addr, IWRAM_SIZE), val),
            final(self).bios() == old(self).bios(),
            final(self).ewram() == old(self).ewram(),
    {
        proof {
            lemma_mirror_bounds(addr);
        }
        self.iwram[(addr & 0x7fff) as usize] = val;
    }

    pub fn write_iwram_16(&mut self, addr: u32, val: u16)
        ensures
            final(self).wf(),
            final(self).iwram() == store16(old(self).iwram(), mirror(addr, IWRAM_SIZE), val),
            final(self).bios() == old(self).bios(),
            final(self).ewram() == old(self).ewram(),
    {
        proof {
            lemma_mirror_bounds(addr);
        }
        write_u16(&mut self.iwram, (addr & 0x7fff) as usize, val);
    }

    pub fn write_iwram_32(&mut self, addr: u32, val: u32)
        ensures
            final(self).wf(),
            final(self).iwram() == store32(old(self).iwram(), mirror(addr, IWRAM_SIZE), val),
            final(self).bios() == old(self).bios(),
            final(self).ewram() == old(self).ewram(),
    {
        proof {
            lemma_mirror_bounds(addr);
        }
        write_u32(&mut self.iwram, (addr & 0x7fff) as usize, val);
    }
}

/// Zero the bytes of `v` below `end`.
pub fn zero_prefix<const N: usize>(v: &mut [u8; N], end: usize)
    requires
        end <= N,
    ensures
        final(v)@.len() == old(v)@.len(),
        forall|i: int| 0 <= i < end ==> final(v)@[i] == 0u8,
        forall|i: int| end <= i < old(v)@.len() ==> final(v)@[i] == old(v)@[i],
{
    let mut i: usize = 0;
    while i < end
        invariant
            i <= end,
            end <= N,
            v@.len() == old(v)@.len(),
            forall|j: int| 0 <= j < i ==> v@[j] == 0u8,
            forall|j: int| i <= j < v@.len() ==> v@[j] == old(v)@[j],
        decreases end - i,
    {
        v[i] = 0;
        i = i + 1;
    }
}

impl Memory {
    /// Zero the whole of EWRAM.
    pub fn clear_ewram(&mut self)
        ensures
            final(self).wf(),
            final(self).ewram() == Seq::new(EWRAM_SIZE as nat, |i: int| 0u8),
            final(self).bios() == old(self).bios(),
            final(self).iwram() == old(self).iwram(),
    {
        zero_prefix(&mut self.ewram, EWRAM_SIZE);
        assert(self.ewram@ =~= Seq::new(EWRAM_SIZE as nat, |i: int| 0u8));
    }

    /// Zero IWRAM below offset `end`, keeping the bytes from `end` up.
    pub fn clear_iwram_below(&mut self, end: usize)
        requires
            end <= IWRAM_SIZE,
        ensures
            final(self).wf(),
            forall|i: int| 0 <= i < end ==> final(self).iwram()[i] == 0u8,
            forall|i: int| end <= i < IWRAM_SIZE ==> final(self).iwram()[i] == old(self).iwram()[i],
            final(self).bios() == old(self).bios(),
            final(self).ewram() == old(self).ewram(),
    {
        zero_prefix(&mut self.iwram, end);
    }
}

impl Default for Memory {
    fn default() -> (r: Memory)
        ensures
            r.wf(),
            r.bios() == Seq::new(BIOS_SIZE as nat, |i: int| 0u8),
            r.ewram() == Seq::new(EWRAM_SIZE as nat, |i: int| 0u8),
            r.iwram() == Seq::new(IWRAM_SIZE as nat, |i: int| 0u8),
    {
        Memory::new()
    }
}

/// A word written to EWRAM or IWRAM reads back unchanged at the same
/// address, and at every mirror of it.
pub proof fn lemma_write_read_ewram(m: Seq<u8>, addr: u32, other: u32, val: u32)
    requires
        m.len() == EWRAM_SIZE,
        mirror(other, EWRAM_SIZE) == mirror(addr, EWRAM_SIZE),
    ensures
        le32_at(store32(m, mirror(addr, EWRAM_SIZE), val), mirror(other, EWRAM_SIZE)) == val,
{
    lemma_mirror_bounds(addr);
    lemma_store_then_load(m, mirror(addr, EWRAM_SIZE), 0, val);
}

} // verus!
