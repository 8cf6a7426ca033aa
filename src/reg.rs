use vstd::prelude::*;

verus! {

/// A guest register: the sixteen architectural registers and the two status registers.
#[derive(Clone, Copy, PartialEq, Eq, Structural, Debug)]
pub enum Reg {
    R0,
    R1,
    R2,
    R3,
    R4,
    R5,
    R6,
    R7,
    R8,
    R9,
    R10,
    R11,
    R12,
    SP,
    LR,
    PC,
    CPSR,
    SPSR,
}

pub open spec fn spec_reg_index(r: Reg) -> u8 {
    match r {
        Reg::R0 => 0,
        Reg::R1 => 1,
        Reg::R2 => 2,
        Reg::R3 => 3,
        Reg::R4 => 4,
        Reg::R5 => 5,
        Reg::R6 => 6,
        Reg::R7 => 7,
        Reg::R8 => 8,
        Reg::R9 => 9,
        Reg::R10 => 10,
        Reg::R11 => 11,
        Reg::R12 => 12,
        Reg::SP => 13,
        Reg::LR => 14,
        Reg::PC => 15,
        Reg::CPSR => 16,
        Reg::SPSR => 17,
    }
}

pub open spec fn spec_reg_from_index(i: u8) -> Reg {
    if i == 0 { Reg::R0 }
    else if i == 1 { Reg::R1 }
    else if i == 2 { Reg::R2 }
    else if i == 3 { Reg::R3 }
    else if i == 4 { Reg::R4 }
    else if i == 5 { Reg::R5 }
    else if i == 6 { Reg::R6 }
    else if i == 7 { Reg::R7 }
    else if i == 8 { Reg::R8 }
    else if i == 9 { Reg::R9 }
    else if i == 10 { Reg::R10 }
    else if i == 11 { Reg::R11 }
    else if i == 12 { Reg::R12 }
    else if i == 13 { Reg::SP }
    else if i == 14 { Reg::LR }
    else if i == 15 { Reg::PC }
    else if i == 16 { Reg::CPSR }
    else { Reg::SPSR }
}

impl Reg {
    /// Number of the register: 0 to 15 for the architectural ones, then CPSR and SPSR.
    pub fn index(self) -> (r: u8)
        ensures
            r == spec_reg_index(self),
            r < 18,
    {
        match self {
            Reg::R0 => 0,
            Reg::R1 => 1,
            Reg::R2 => 2,
            Reg::R3 => 3,
            Reg::R4 => 4,
            Reg::R5 => 5,
            Reg::R6 => 6,
            Reg::R7 => 7,
            Reg::R8 => 8,
            Reg::R9 => 9,
            Reg::R10 => 10,
            Reg::R11 => 11,
            Reg::R12 => 12,
            Reg::SP => 13,
            Reg::LR => 14,
            Reg::PC => 15,
            Reg::CPSR => 16,
            Reg::SPSR => 17,
        }
    }

    /// The register numbered `i`; numbers past the last one give SPSR.
    pub fn from_index(i: u8) -> (r: Reg)
        ensures
            r == spec_reg_from_index(i),
            i < 18 ==> spec_reg_index(r) == i,
    {
        if i == 0 { Reg::R0 }
        else if i == 1 { Reg::R1 }
        else if i == 2 { Reg::R2 }
        else if i == 3 { Reg::R3 }
        else if i == 4 { Reg::R4 }
        else if i == 5 { Reg::R5 }
        else if i == 6 { Reg::R6 }
        else if i == 7 { Reg::R7 }
        else if i == 8 { Reg::R8 }
        else if i == 9 { Reg::R9 }
        else if i == 10 { Reg::R10 }
        else if i == 11 { Reg::R11 }
        else if i == 12 { Reg::R12 }
        else if i == 13 { Reg::SP }
        else if i == 14 { Reg::LR }
        else if i == 15 { Reg::PC }
        else if i == 16 { Reg::CPSR }
        else { Reg::SPSR }
    }
}

/// Bit of register `r` in a register set.
pub open spec fn reg_bit(r: Reg) -> u32 {
    (1u32 << (spec_reg_index(r) as u32)) as u32
}

/// Whether register number `i` is in the set `bits`.
pub open spec fn has_bit(bits: u32, i: int) -> bool {
    0 <= i < 32 && (bits >> (i as u32)) & 1 == 1
}

/// Number of registers in the set `bits` among the numbers below `n`.
pub open spec fn count_bits(bits: u32, n: int) -> nat
    decreases n,
{
    if n <= 0 {
        0
    } else {
        count_bits(bits, n - 1) + if has_bit(bits, n - 1) { 1nat } else { 0nat }
    }
}

/// A set of guest registers, one bit per register number.
#[derive(Clone, Copy, PartialEq, Eq, Structural, Debug)]
pub struct RegReserve(pub u32);

/// The general-purpose registers R0 to R12.
pub const GP_REGS_MASK: u32 = 0x1FFF;
/// Bit of the program counter.
pub const PC_BIT: u32 = 0x8000;

impl RegReserve {
    pub fn new() -> (r: Self)
        ensures
            r.0 == 0,
    {
        RegReserve(0)
    }

    /// The general-purpose registers R0 to R12.
    pub fn gp() -> (r: Self)
        ensures
            r.0 == GP_REGS_MASK,
    {
        RegReserve(GP_REGS_MASK)
    }

    pub fn is_empty(&self) -> (r: bool)
        ensures
            r == (self.0 == 0),
    {
        self.0 == 0
    }

    pub fn is_reserved(&self, reg: Reg) -> (r: bool)
        ensures
            r == has_bit(self.0, spec_reg_index(reg) as int),
    {
        let i = reg.index();
        (self.0 >> (i as u32)) & 1 == 1
    }

    /// The set with `reg` added.
    pub fn add_reg(&self, reg: Reg) -> (r: Self)
        ensures
            r.0 == self.0 | reg_bit(reg),
    {
        let i = reg.index();
        RegReserve(self.0 | (1u32 << (i as u32)))
    }

    /// The set with `reg` taken out.
    pub fn remove_reg(&self, reg: Reg) -> (r: Self)
        ensures
            r.0 == self.0 & !reg_bit(reg),
    {
        let i = reg.index();
        RegReserve(self.0 & !(1u32 << (i as u32)))
    }

    /// The general-purpose registers of the set.
    pub fn get_gp_regs(&self) -> (r: Self)
        ensures
            r.0 == self.0 & GP_REGS_MASK,
    {
        RegReserve(self.0 & GP_REGS_MASK)
    }

    /// Number of registers in the set.
    pub fn len(&self) -> (r: u32)
        ensures
            r == count_bits(self.0, 32),
            r <= 32,
    {
        let mut n: u32 = 0;
        let mut i: u32 = 0;
        while i < 32
            invariant
                i <= 32,
                n == count_bits(self.0, i as int),
                n <= i,
            decreases 32 - i,
        {
            if (self.0 >> i) & 1 == 1 {
                n = n + 1;
            }
            i = i + 1;
        }
        n
    }
}

/// Register numbers that a set can hold.
pub const REG_BITS_MASK: u32 = 0x3FFFF;

/// The registers of `bits` numbered below `n`, in increasing order.
pub open spec fn regs_below(bits: u32, n: int) -> Seq<Reg>
    decreases n,
{
    if n <= 0 {
        Seq::empty()
    } else {
        regs_below(bits, n - 1) + if has_bit(bits, n - 1) { seq![spec_reg_from_index((n - 1) as u8)] } else { Seq::empty() }
    }
}

pub proof fn lemma_high_bits_zero(b: u32, i: u32, k: u32)
    requires
        b >> i == 0,
        i <= k < 32,
    ensures
        (b >> k) & 1 != 1,
{
    assert((b >> k) & 1 != 1) by (bit_vector)
        requires b >> i == 0, i <= k < 32;
}

pub proof fn lemma_clear_bit_smaller(b: u32, i: u32)
    requires
        i < 32,
        (b >> i) & 1 == 1,
    ensures
        b & !(1u32 << i) < b,
{
    assert(b & !(1u32 << i) < b) by (bit_vector)
        requires i < 32, (b >> i) & 1 == 1;
}

pub proof fn lemma_low_bits_step(b: u32, i: u32)
    requires
        i < 31,
        b & (((1u32 << i) - 1) as u32) == 0,
        (b >> i) & 1 != 1,
    ensures
        b & (((1u32 << ((i + 1) as u32)) - 1) as u32) == 0,
{
    assert(b & (((1u32 << ((i + 1) as u32)) - 1) as u32) == 0) by (bit_vector)
        requires i < 31, b & (((1u32 << i) - 1) as u32) == 0, (b >> i) & 1 != 1;
}

impl RegReserve {
    /// Only register numbers are set.
    pub open spec fn wf(&self) -> bool {
        self.0 & !REG_BITS_MASK == 0
    }

    /// The register with the lowest number in the set, taken out of it.
    pub fn pop(&mut self) -> (r: Option<Reg>)
        requires
            old(self).wf(),
        ensures
            final(self).wf(),
            old(self).0 == 0 ==> r is None && final(self).0 == 0,
            old(self).0 != 0 ==> r is Some && has_bit(old(self).0, spec_reg_index(r->0) as int)
                && final(self).0 == old(self).0 & !reg_bit(r->0)
                && final(self).0 < old(self).0,
    {
        let mut i: u32 = 0;
        proof {
            let b = self.0;
            assert(b & (((1u32 << 0u32) - 1) as u32) == 0) by (bit_vector);
        }
        while i < 18
            invariant
                i <= 18,
                self.wf(),
                *self == *old(self),
                self.0 & (((1u32 << i) - 1) as u32) == 0,
            decreases 18 - i,
        {
            if (self.0 >> i) & 1 == 1 {
                let reg = Reg::from_index(i as u8);
                let b = self.0;
                self.0 = b & !(1u32 << i);
                proof {
                    lemma_clear_bit_smaller(b, i);
                    assert(b & !(1u32 << i) & !0x3FFFFu32 == 0) by (bit_vector)
                        requires b & !0x3FFFFu32 == 0;
                }
                return Some(reg);
            }
            proof {
                lemma_low_bits_step(self.0, i);
            }
            i = i + 1;
        }
        proof {
            let b = self.0;
            assert(b == 0) by (bit_vector)
                requires b & !0x3FFFFu32 == 0, b & (((1u32 << 18u32) - 1) as u32) == 0;
        }
        None
    }

    /// The register with the highest number in the set, taken out of it.
    pub fn pop_rev(&mut self) -> (r: Option<Reg>)
        requires
            old(self).wf(),
        ensures
            final(self).wf(),
            old(self).0 == 0 ==> r is None && final(self).0 == 0,
            old(self).0 != 0 ==> r is Some && has_bit(old(self).0, spec_reg_index(r->0) as int)
                && final(self).0 == old(self).0 & !reg_bit(r->0)
                && forall|k: int| spec_reg_index(r->0) < k < 32 ==> !#[trigger] has_bit(old(self).0, k),
    {
        let mut i: u32 = 18;
        proof {
            let b = self.0;
            assert(b >> 18u32 == 0) by (bit_vector)
                requires b & !0x3FFFFu32 == 0;
        }
        while i > 0
            invariant
                i <= 18,
                self.wf(),
                *self == *old(self),
                self.0 >> i == 0,
            decreases i,
        {
            let j = i - 1;
            if (self.0 >> j) & 1 == 1 {
                let reg = Reg::from_index(j as u8);
                let b = self.0;
                self.0 = b & !(1u32 << j);
                proof {
                    assert(b & !(1u32 << j) & !0x3FFFFu32 == 0) by (bit_vector)
                        requires b & !0x3FFFFu32 == 0;
                    assert(b != 0) by (bit_vector)
                        requires (b >> j) & 1 == 1;
                    assert forall|k: int| j < k < 32 implies !#[trigger] has_bit(b, k) by {
                        lemma_high_bits_zero(b, i, k as u32);
                    }
                }
                return Some(reg);
            }
            proof {
                let b = self.0;
                assert(b >> j == 0) by (bit_vector)
                    requires j < 18, b >> ((j + 1) as u32) == 0, (b >> j) & 1 != 1;
            }
            i = j;
        }
        proof {
            let b = self.0;
            assert(b >> 0u32 == b) by (bit_vector);
        }
        None
    }

    /// The register with the highest number in a set that is not empty.
    pub fn get_highest_reg(&self) -> (r: Reg)
        requires
            self.wf(),
            self.0 != 0,
        ensures
            has_bit(self.0, spec_reg_index(r) as int),
            forall|k: int| spec_reg_index(r) < k < 32 ==> !#[trigger] has_bit(self.0, k),
    {
        let mut copy = *self;
        match copy.pop_rev() {
            Some(r) => r,
            None => Reg::R0,
        }
    }
}

pub proof fn lemma_bit_clear(b: u32, i: u32, j: u32)
    requires
        i < 32,
        j < 32,
    ensures
        ((b & !(1u32 << i)) >> j) & 1 == (if j == i { 0u32 } else { (b >> j) & 1 }),
{
    assert(((b & !(1u32 << i)) >> j) & 1 == (if j == i { 0u32 } else { (b >> j) & 1 })) by (bit_vector)
        requires i < 32, j < 32;
}

pub proof fn lemma_bit_and_not(a: u32, b: u32, j: u32)
    requires
        j < 32,
    ensures
        ((a & !b) >> j) & 1 == (if (b >> j) & 1 == 1 { 0u32 } else { (a >> j) & 1 }),
{
    assert(((a & !b) >> j) & 1 == (if (b >> j) & 1 == 1 { 0u32 } else { (a >> j) & 1 })) by (bit_vector)
        requires j < 32;
}

pub proof fn lemma_low_mask_bits(k: u32, j: u32)
    requires
        k < 32,
        j < 32,
    ensures
        (((((1u32 << k) - 1) as u32) >> j) & 1 == 1) == (j < k),
{
    assert((((((1u32 << k) - 1) as u32) >> j) & 1 == 1) == (j < k)) by (bit_vector)
        requires k < 32, j < 32;
}

pub proof fn lemma_low_bits_ends(b: u32)
    ensures
        b & (((1u32 << 0u32) - 1) as u32) == 0,
        b & !REG_BITS_MASK == 0 && b & (((1u32 << 18u32) - 1) as u32) == 0 ==> b == 0,
        ((1u32 << 18u32) - 1) as u32 == REG_BITS_MASK,
{
    assert(b & (((1u32 << 0u32) - 1) as u32) == 0) by (bit_vector);
    assert((b & !0x3FFFFu32 == 0 && b & (((1u32 << 18u32) - 1) as u32) == 0 ==> b == 0)
        && ((1u32 << 18u32) - 1) as u32 == 0x3FFFFu32) by (bit_vector);
}

/// A register set holds at most 18 registers.
pub proof fn lemma_count_wf(b: u32)
    requires
        b & !REG_BITS_MASK == 0,
    ensures
        count_bits(b, 32) <= 18,
{
    lemma_low_bits_ends(b);
    lemma_count_low_mask(18, 32);
    lemma_count_subset(REG_BITS_MASK, b, 32);
}

pub proof fn lemma_subset_bits(a: u32, b: u32, j: u32)
    requires
        b & !a == 0,
        j < 32,
    ensures
        (b >> j) & 1 == 1 ==> (a >> j) & 1 == 1,
{
    assert((b >> j) & 1 == 1 ==> (a >> j) & 1 == 1) by (bit_vector)
        requires b & !a == 0, j < 32;
}

/// Clearing a register of the set removes one from its count.
pub proof fn lemma_count_clear(b: u32, i: u32, n: int)
    requires
        i < 32,
        has_bit(b, i as int),
        0 <= n <= 32,
    ensures
        count_bits(b & !(1u32 << i), n) + (if (i as int) < n { 1int } else { 0int }) == count_bits(b, n),
    decreases n,
{
    if n > 0 {
        lemma_count_clear(b, i, n - 1);
        lemma_bit_clear(b, i, (n - 1) as u32);
    }
}

/// Count of a difference with a subset.
pub proof fn lemma_count_diff(a: u32, b: u32, n: int)
    requires
        b & !a == 0,
        0 <= n <= 32,
    ensures
        count_bits(a & !b, n) + count_bits(b, n) == count_bits(a, n),
    decreases n,
{
    if n > 0 {
        lemma_count_diff(a, b, n - 1);
        lemma_bit_and_not(a, b, (n - 1) as u32);
        lemma_subset_bits(a, b, (n - 1) as u32);
    }
}

/// Registers below `n` of a set whose count there is 0: none.
pub proof fn lemma_count_zero_low(b: u32, n: int)
    requires
        0 <= n <= 31,
        count_bits(b, n) == 0,
    ensures
        b & (((1u32 << (n as u32)) - 1) as u32) == 0,
    decreases n,
{
    if n == 0 {
        lemma_low_bits_ends(b);
    } else {
        lemma_count_zero_low(b, n - 1);
        lemma_low_bits_step(b, (n - 1) as u32);
    }
}

pub proof fn lemma_count_zero(b: u32)
    requires
        b & !REG_BITS_MASK == 0,
        count_bits(b, 32) == 0,
    ensures
        b == 0,
{
    lemma_count_prefix(b, 18, 32);
    lemma_count_zero_low(b, 18);
    lemma_low_bits_ends(b);
}

/// Counts grow with the bound.
pub proof fn lemma_count_prefix(b: u32, m: int, n: int)
    requires
        0 <= m <= n,
    ensures
        count_bits(b, m) <= count_bits(b, n),
    decreases n - m,
{
    if m < n {
        lemma_count_prefix(b, m, n - 1);
    }
}

/// Count of the general-purpose mask below `n`.
pub proof fn lemma_count_low_mask(k: u32, n: int)
    requires
        k < 32,
        0 <= n <= 32,
    ensures
        count_bits(((1u32 << k) - 1) as u32, n) == if n < k { n } else { k as int },
    decreases n,
{
    if n > 0 {
        lemma_count_low_mask(k, n - 1);
        lemma_low_mask_bits(k, (n - 1) as u32);
    }
}

pub proof fn lemma_count_subset(a: u32, b: u32, n: int)
    requires
        b & !a == 0,
        0 <= n <= 32,
    ensures
        count_bits(b, n) <= count_bits(a, n),
{
    lemma_count_diff(a, b, n);
}

pub proof fn lemma_count_of_zero(n: int)
    requires
        0 <= n <= 32,
    ensures
        count_bits(0, n) == 0,
    decreases n,
{
    if n > 0 {
        lemma_count_of_zero(n - 1);
        let j = (n - 1) as u32;
        assert((0u32 >> j) & 1 == 0) by (bit_vector);
    }
}

/// Moving register `i` from one part of a partition to another keeps the union.
pub proof fn lemma_move_bit(g: u32, n: u32, m: u32, r: u32, i: u32)
    requires
        i < 32,
        (n >> i) & 1 == 1,
        g | n | m == r,
    ensures
        g | (n & !(1u32 << i)) | (m | (1u32 << i)) == r,
        n == 0 ==> g | m == r,
{
    assert(g | (n & !(1u32 << i)) | (m | (1u32 << i)) == r && (n == 0 ==> g | m == r)) by (bit_vector)
        requires i < 32, (n >> i) & 1 == 1, g | n | m == r;
}

pub proof fn lemma_gp_mask_count()
    ensures
        count_bits(GP_REGS_MASK, 32) == 13,
{
    assert(((1u32 << 13u32) - 1) as u32 == 0x1FFFu32) by (bit_vector);
    lemma_count_low_mask(13, 32);
}

pub proof fn lemma_union_drop_empty(g: u32, n: u32, m: u32, r: u32)
    requires
        g | n | m == r,
        n == 0,
    ensures
        g | m == r,
{
    assert(g | n | m == r && n == 0 ==> g | m == r) by (bit_vector);
}

} // verus!
