//! The unwind rules of one instruction address and what they make of the
//! stack pointer.

use crate::register::{dwarf_number, register_numbered, Arch, CpuRegister};
use vstd::arithmetic::div_mod::lemma_mod_multiples_vanish;
use vstd::prelude::*;

verus! {

/// How the canonical frame address (CFA) is found.
#[derive(Clone, Copy, Debug, PartialEq, Eq, Structural)]
pub enum CfaRule {
    /// The value of the register with DWARF number `reg`, plus `offset`.
    RegisterAndOffset { reg: u16, offset: i64 },
    /// A DWARF expression, which this unwinder does not evaluate.
    Expression,
}

/// How the return address of a frame is found.
#[derive(Clone, Copy, Debug, PartialEq, Eq, Structural)]
pub enum ReturnAddressRule {
    /// It is the machine word stored at the CFA plus this offset.
    Offset(i64),
    /// Any other rule, none of which this unwinder follows.
    Unknown,
}

/// The rules that apply at one instruction address.
#[derive(Clone, Copy, Debug, PartialEq, Eq, Structural)]
pub struct UnwindStepInfo {
    pub cfa: CfaRule,
    pub return_address: ReturnAddressRule,
}

/// `value` reduced to a machine word: addresses wrap around.
pub open spec fn wrap_word(value: int) -> usize {
    (value % (usize::MAX + 1)) as usize
}

/// The address `offset` bytes from `base`.
pub fn offset_address(base: usize, offset: i64) -> (address: usize)
    ensures
        address == wrap_word(base + offset),
{
    let modulus: u128 = usize::MAX as u128 + 1;
    let shifted: u128 = (base as i128 + offset as i128 + 0x1_0000_0000_0000_0000i128) as u128;
    proof {
        let m: int = usize::MAX + 1;
        let k: int = if m == 0x1_0000_0000 {
            0x1_0000_0000
        } else {
            1
        };
        assert(m * k == 0x1_0000_0000_0000_0000);
        lemma_mod_multiples_vanish(k, base + offset, m);
    }
    (shifted % modulus) as usize
}

/// The distance from `base` up to `address`, as a machine word.
pub fn address_minus(address: usize, base: usize) -> (distance: usize)
    ensures
        distance == wrap_word(address - base),
{
    proof {
        let m: int = usize::MAX + 1;
        if address < base {
            lemma_mod_multiples_vanish(1, address - base, m);
            vstd::arithmetic::div_mod::lemma_small_mod((address - base + m) as nat, m as nat);
        } else {
            vstd::arithmetic::div_mod::lemma_small_mod((address - base) as nat, m as nat);
        }
    }
    address.wrapping_sub(base)
}

/// The CFA that `rule` yields from the stack pointer `sp`. Only a rule
/// based on the stack pointer is followed; under any other the stack
/// pointer stands.
pub open spec fn cfa_of(arch: Arch, sp: usize, rule: CfaRule) -> usize {
    match rule {
        CfaRule::RegisterAndOffset { reg, offset } => if register_numbered(arch, reg) == Some(
            CpuRegister::SP,
        ) {
            wrap_word(sp + offset)
        } else {
            sp
        },
        CfaRule::Expression => sp,
    }
}

/// The address of the stack slot that holds the return address, where the
/// rule names one.
pub open spec fn return_slot_of(cfa: usize, rule: ReturnAddressRule) -> Option<usize> {
    match rule {
        ReturnAddressRule::Offset(offset) => Some(wrap_word(cfa + offset)),
        ReturnAddressRule::Unknown => None,
    }
}

/// Applies a CFA rule to the stack pointer.
pub fn canonical_frame_address(arch: Arch, sp: usize, rule: CfaRule) -> (cfa: usize)
    ensures
        cfa == cfa_of(arch, sp, rule),
{
    match rule {
        CfaRule::RegisterAndOffset { reg, offset } => match arch.reg_idx_dwarf_to_cpu(reg) {
            Some(CpuRegister::SP) => offset_address(sp, offset),
            _ => sp,
        },
        CfaRule::Expression => sp,
    }
}

/// Applies a return-address rule to the CFA.
pub fn return_slot(cfa: usize, rule: ReturnAddressRule) -> (slot: Option<usize>)
    ensures
        slot == return_slot_of(cfa, rule),
{
    match rule {
        ReturnAddressRule::Offset(offset) => Some(offset_address(cfa, offset)),
        ReturnAddressRule::Unknown => None,
    }
}

/// The call-frame information of an executable: the bytes of its
/// `.eh_frame` section and what a reader of them needs to know.
pub struct UnwindTable {
    /// The contents of `.eh_frame`.
    pub eh_frame: Vec<u8>,
    /// The byte order of the executable.
    pub little_endian: bool,
    /// Whether an address in the executable has 8 bytes, not 4.
    pub wide: bool,
    /// The static address of `.text`.
    pub text_address: u64,
    /// The static address of `.eh_frame`.
    pub eh_frame_address: u64,
}

impl UnwindTable {
    /// The size of an address in the executable, in bytes: 8 or 4.
    pub fn address_size(&self) -> (size: u8)
        ensures
            size == if self.wide {
                8u8
            } else {
                4u8
            },
    {
        if self.wide {
            8
        } else {
            4
        }
    }
}

/// The DWARF number of the return-address register of `arch`, whose rule
/// an unwind step needs.
pub fn return_address_register(arch: Arch) -> (index: u16)
    ensures
        dwarf_number(arch, CpuRegister::RA) == Some(index),
{
    match arch {
        Arch::X86_64 => 16,
        Arch::X86 => 8,
    }
}

} // verus!
