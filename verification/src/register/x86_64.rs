//! DWARF register numbers on x86-64.

use crate::register::{dwarf_number, register_numbered, Arch, CpuRegister};
use vstd::prelude::*;

verus! {

/// The register with DWARF number `reg_index` on x86-64: 7 is the stack
/// pointer, 16 the return address.
#[inline(always)]
pub fn reg_idx_dwarf_to_cpu(reg_index: u16) -> (register: Option<CpuRegister>)
    ensures
        register == register_numbered(Arch::X86_64, reg_index),
        register == if reg_index == 7 {
            Some(CpuRegister::SP)
        } else if reg_index == 16 {
            Some(CpuRegister::RA)
        } else {
            None
        },
{
    if reg_index == 7 {
        Some(CpuRegister::SP)
    } else if reg_index == 16 {
        Some(CpuRegister::RA)
    } else {
        None
    }
}

/// The DWARF number of `cpu_reg` on x86-64; the program counter has none.
#[inline(always)]
pub fn reg_idx_cpu_to_dwarf(cpu_reg: CpuRegister) -> (index: Result<u16, ()>)
    ensures
        index == match dwarf_number(Arch::X86_64, cpu_reg) {
            Some(n) => Ok::<u16, ()>(n),
            None => Err::<u16, ()>(()),
        },
        index == match cpu_reg {
            CpuRegister::SP => Ok::<u16, ()>(7),
            CpuRegister::PC => Err::<u16, ()>(()),
            CpuRegister::RA => Ok::<u16, ()>(16),
        },
{
    match cpu_reg {
        CpuRegister::SP => Ok(7),
        CpuRegister::PC => Err(()),
        CpuRegister::RA => Ok(16),
    }
}

} // verus!
