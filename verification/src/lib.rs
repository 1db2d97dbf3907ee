//! Call-stack capture for x86 and x86-64 ELF executables: the decisions of
//! a stack unwinder that follows the call-frame information of `.eh_frame`,
//! and the resolution of each return address to the source-level functions
//! at it, inlined ones included.
//!
//! The library works on plain values: the bytes of the executable file and
//! what its parser found in it, the text of the process's region listing,
//! register values, the machine words read from the stack, the unwind
//! rules and the inline chains looked up for an address. Reading and
//! looking up is left to the caller: the parsers of ELF files, of
//! `.eh_frame` and of the debug sections panic on some malformed input,
//! and nothing in this library does.
//!
//! - [`image`] takes a parsed executable in;
//! - [`capture`] walks the stack, one frame at a time;
//! - [`unwind`] holds the unwind rules and applies them;
//! - [`symbolize`] names the functions at an address, with
//!   [`symbol_table`] as its second source;
//! - [`address`] finds the load base in the region listing;
//! - [`register`] numbers the registers;
//! - [`backtrace`] is the result, and [`render`] its printed form.

pub mod address;
pub mod backtrace;
pub mod capture;
pub mod image;
pub mod register;
pub mod render;
pub mod symbol_table;
pub mod symbolize;
pub mod unwind;
