//! The abstract CPU registers the unwinder works with, and their DWARF numbers.

use vstd::prelude::*;

pub mod x86;
pub mod x86_64;

verus! {

/// A register the unwinder cares about.
#[derive(Clone, Copy, Debug, PartialEq, Eq, Structural)]
pub enum CpuRegister {
    /// Stack pointer.
    SP,
    /// Program counter.
    PC,
    /// Return address (a pseudo register: no CPU register holds it).
    RA,
}

/// The x86 variant whose register numbering is in use.
#[derive(Clone, Copy, Debug, PartialEq, Eq, Structural)]
pub enum Arch {
    X86_64,
    X86,
}

/// The stack pointer and program counter of a thread, as read at one point
/// of its execution.
#[derive(Clone, Copy, Debug, PartialEq, Eq, Structural)]
pub struct CpuSnapshot {
    pub sp: usize,
    pub pc: usize,
}

/// What [`read_register`] answers for the return-address pseudo register,
/// which no CPU register holds: never the address of an instruction or of
/// a stack slot.
pub const NO_REGISTER: usize = 0;

/// The DWARF number of `register` on `arch`, if it has one.
pub open spec fn dwarf_number(arch: Arch, register: CpuRegister) -> Option<u16> {
    match (arch, register) {
        (Arch::X86_64, CpuRegister::SP) => Some(7u16),
        (Arch::X86_64, CpuRegister::RA) => Some(16u16),
        (Arch::X86, CpuRegister::SP) => Some(4u16),
        (Arch::X86, CpuRegister::RA) => Some(8u16),
        (_, CpuRegister::PC) => None,
    }
}

/// The register that carries DWARF number `index` on `arch`, if any.
pub open spec fn register_numbered(arch: Arch, index: u16) -> Option<CpuRegister> {
    if dwarf_number(arch, CpuRegister::SP) == Some(index) {
        Some(CpuRegister::SP)
    } else if dwarf_number(arch, CpuRegister::RA) == Some(index) {
        Some(CpuRegister::RA)
    } else {
        None
    }
}

/// The value of `register` in `snapshot`. Asking for the return address
/// makes no sense and yields [`NO_REGISTER`].
#[inline(always)]
pub fn read_register(snapshot: &CpuSnapshot, register: CpuRegister) -> (value: usize)
    ensures
        value == match register {
            CpuRegister::SP => snapshot.sp,
            CpuRegister::PC => snapshot.pc,
            CpuRegister::RA => NO_REGISTER,
        },
{
    match register {
        CpuRegister::SP => snapshot.sp,
        CpuRegister::PC => snapshot.pc,
        CpuRegister::RA => NO_REGISTER,
    }
}

impl Arch {
    /// The register with DWARF number `reg_index`, if any.
    #[inline(always)]
    pub fn reg_idx_dwarf_to_cpu(self, reg_index: u16) -> (register: Option<CpuRegister>)
        ensures
            register == register_numbered(self, reg_index),
    {
        match self {
            Arch::X86_64 => x86_64::reg_idx_dwarf_to_cpu(reg_index),
            Arch::X86 => x86::reg_idx_dwarf_to_cpu(reg_index),
        }
    }

    /// The DWARF number of `cpu_reg`; the program counter has none.
    #[inline(always)]
    pub fn reg_idx_cpu_to_dwarf(self, cpu_reg: CpuRegister) -> (index: Result<u16, ()>)
        ensures
            index == match dwarf_number(self, cpu_reg) {
                Some(n) => Ok::<u16, ()>(n),
                None => Err::<u16, ()>(()),
            },
    {
        match self {
            Arch::X86_64 => x86_64::reg_idx_cpu_to_dwarf(cpu_reg),
            Arch::X86 => x86::reg_idx_cpu_to_dwarf(cpu_reg),
        }
    }
}

/// The two numberings are inverse to each other: a register's number leads
/// back to the register, and a number that names a register is that
/// register's number.
pub proof fn lemma_numbering_round_trip(arch: Arch, register: CpuRegister, index: u16)
    ensures
        dwarf_number(arch, register) == Some(index) <==> register_numbered(arch, index) == Some(
            register,
        ),
{
}

} // verus!
