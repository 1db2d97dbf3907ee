//! The unwinder: what to do next, given what the unwind table, the stack
//! and the debug information have shown so far.
//!
//! Reading registers, stack memory, the unwind table and the debug
//! information is the caller's part. A capture starts with
//! [`Unwinder::start`] and then follows the [`Unwinding`] it is handed
//! until that is `Finished`: a `Ready` unwinder takes a [`Unwinder::step`]
//! with the unwind rules at its address; a `Read` is answered by
//! [`PendingRead::resume`] with the machine word at the slot it names, and
//! the [`PendingFrame`] that follows by [`PendingFrame::resolve`] with the
//! inline chain at the address it names.

use crate::address::{get_start_section, section_start};
use crate::backtrace::{frame_views, Backtrace, BacktraceFrame, SymbolView};
use crate::image::Linking;
use crate::register::{Arch, CpuSnapshot};
use crate::symbol_table::SymbolTable;
use crate::symbolize::{
    call_site, probe_address, record_views, resolved_symbols, table_name, FrameRecord,
    FrameRecordView,
};
use crate::unwind::{
    address_minus, canonical_frame_address, cfa_of, return_slot, return_slot_of, wrap_word,
    CfaRule, UnwindStepInfo,
};
use vstd::prelude::*;

verus! {

/// Why a trace ended.
#[derive(Clone, Copy, Debug, PartialEq, Eq, Structural)]
pub enum StopReason {
    /// The unwind table has nothing for the address: the stack ends here.
    EndOfStack,
    /// The unwind rules at the address are not followed: the return address
    /// is not saved at an offset from the CFA.
    UnsupportedCfaRule,
    /// No mapped region contains the captured program counter.
    OutOfSection,
}

/// Something the caller should report while the trace goes on.
#[derive(Clone, Copy, Debug, PartialEq, Eq, Structural)]
pub enum Diagnostic {
    /// The CFA is given by a DWARF expression, which is not evaluated; the
    /// stack pointer was left as it was.
    CfaExpression,
}

/// An unwinder between two frames.
pub struct Unwinder {
    pub arch: Arch,
    /// The load base: what a runtime address lies above its static one.
    pub base: usize,
    /// The static address of the instruction the frame will return to.
    pub ip: usize,
    /// The stack pointer: the CFA of the frame unwound last.
    pub sp: usize,
    /// The frames found so far, top of stack first.
    pub frames: Vec<BacktraceFrame>,
}

/// An unwinder that waits for the machine word at `slot`.
pub struct PendingRead {
    pub unwinder: Unwinder,
    /// The runtime address of the stack slot that holds the return address.
    pub slot: usize,
}

/// An unwinder that waits for the inline chain of the frame it has just
/// unwound: what the debug information holds for `probe`.
pub struct PendingFrame {
    /// The unwinder, already at the return address.
    pub unwinder: Unwinder,
    /// The address to look up; `None` where there is none, and the chain is
    /// empty.
    pub probe: Option<u64>,
}

/// Where a trace stands.
pub enum Unwinding {
    /// The next frame can be unwound.
    Ready(Unwinder),
    /// The return address has to be read from the stack first.
    Read(PendingRead),
    /// The trace has ended, for the reason given.
    Finished(Backtrace, StopReason),
}

/// The load base of an executable in a process with the region listing
/// `maps` and program counter `pc`: 0 where it was linked statically, else
/// the start of the region that contains `pc`.
pub open spec fn load_base(linking: Linking, maps: Seq<u8>, pc: usize) -> Option<usize> {
    match linking {
        Linking::Static => Some(0usize),
        Linking::Dynamic => section_start(maps, pc),
    }
}

/// What a CFA rule gives to report.
pub open spec fn diagnostic_of(rule: CfaRule) -> Option<Diagnostic> {
    match rule {
        CfaRule::Expression => Some(Diagnostic::CfaExpression),
        CfaRule::RegisterAndOffset { .. } => None,
    }
}

/// The inline chain of the call that returns to the static address `ip`,
/// innermost function first, given what the debug information holds for
/// each address (`chains`).
pub open spec fn chain_of(chains: spec_fn(u64) -> Seq<FrameRecordView>, ip: usize) -> Seq<
    FrameRecordView,
> {
    match call_site(ip) {
        Some(probe) => chains(probe),
        None => Seq::empty(),
    }
}

/// The frame that returns to the static address `ip`, given what the debug
/// information holds for each address (`chains`) and the symbol table.
pub open spec fn frame_at(
    chains: spec_fn(u64) -> Seq<FrameRecordView>,
    symbol_table: SymbolTable,
    ip: usize,
) -> Seq<SymbolView> {
    resolved_symbols(chain_of(chains, ip), table_name(symbol_table, ip))
}

/// The static return addresses up the stack from the function that runs at
/// `ip` with stack pointer `sp`, nearest first: where that function
/// returns to, then where its caller returns to, and so on, at most
/// `limit` of them.
pub open spec fn callers_above(
    rows: spec_fn(usize) -> Option<UnwindStepInfo>,
    arch: Arch,
    base: usize,
    ip: usize,
    sp: usize,
    memory: Map<usize, usize>,
    limit: nat,
) -> Seq<usize>
    decreases limit,
{
    if limit == 0 {
        Seq::empty()
    } else {
        match rows(ip) {
            None => Seq::empty(),
            Some(info) => {
                let cfa = cfa_of(arch, sp, info.cfa);
                match return_slot_of(cfa, info.return_address) {
                    None => Seq::empty(),
                    Some(slot) => {
                        let caller = wrap_word(memory[slot] - base);
                        seq![caller] + callers_above(
                            rows,
                            arch,
                            base,
                            caller,
                            cfa,
                            memory,
                            (limit - 1) as nat,
                        )
                    },
                }
            },
        }
    }
}

/// The frames above the function that runs at the static address `ip` with
/// stack pointer `sp`, innermost first, on a stack whose memory holds
/// `memory`, in an executable with the unwind rules `rows` and the debug
/// information `chains`: the frame of that function's caller, then the
/// frames above the caller. At most `limit` frames are followed. The
/// function at `ip` itself has no frame here.
pub open spec fn frames_above(
    rows: spec_fn(usize) -> Option<UnwindStepInfo>,
    chains: spec_fn(u64) -> Seq<FrameRecordView>,
    symbol_table: SymbolTable,
    arch: Arch,
    base: usize,
    ip: usize,
    sp: usize,
    memory: Map<usize, usize>,
    limit: nat,
) -> Seq<Seq<SymbolView>>
    decreases limit,
{
    if limit == 0 {
        Seq::empty()
    } else {
        match rows(ip) {
            None => Seq::empty(),
            Some(info) => {
                let cfa = cfa_of(arch, sp, info.cfa);
                match return_slot_of(cfa, info.return_address) {
                    None => Seq::empty(),
                    Some(slot) => {
                        let caller = wrap_word(memory[slot] - base);
                        seq![frame_at(chains, symbol_table, caller)] + frames_above(
                            rows,
                            chains,
                            symbol_table,
                            arch,
                            base,
                            caller,
                            cfa,
                            memory,
                            (limit - 1) as nat,
                        )
                    },
                }
            },
        }
    }
}

/// A trace has one frame for each return address up the stack, in the
/// order of the stack: the frame of that address.
pub proof fn lemma_frames_are_the_callers(
    rows: spec_fn(usize) -> Option<UnwindStepInfo>,
    chains: spec_fn(u64) -> Seq<FrameRecordView>,
    symbol_table: SymbolTable,
    arch: Arch,
    base: usize,
    ip: usize,
    sp: usize,
    memory: Map<usize, usize>,
    limit: nat,
)
    ensures
        frames_above(rows, chains, symbol_table, arch, base, ip, sp, memory, limit).len()
            == callers_above(rows, arch, base, ip, sp, memory, limit).len(),
        forall|i: int|
            0 <= i < callers_above(rows, arch, base, ip, sp, memory, limit).len()
                ==> #[trigger] frames_above(
                rows,
                chains,
                symbol_table,
                arch,
                base,
                ip,
                sp,
                memory,
                limit,
            )[i] == frame_at(
                chains,
                symbol_table,
                callers_above(rows, arch, base, ip, sp, memory, limit)[i],
            ),
    decreases limit,
{
    if limit > 0 {
        match rows(ip) {
            None => {},
            Some(info) => {
                let cfa = cfa_of(arch, sp, info.cfa);
                match return_slot_of(cfa, info.return_address) {
                    None => {},
                    Some(slot) => {
                        let caller = wrap_word(memory[slot] - base);
                        lemma_frames_are_the_callers(
                            rows,
                            chains,
                            symbol_table,
                            arch,
                            base,
                            caller,
                            cfa,
                            memory,
                            (limit - 1) as nat,
                        );
                    },
                }
            },
        }
    }
}

/// A call chain without inlining gives one frame for each function, each
/// with exactly one symbol, in the order of the stack: where the debug
/// information holds a single function for a return address, the frame of
/// that address has that function's symbol and no other.
pub proof fn lemma_chain_without_inlining(
    rows: spec_fn(usize) -> Option<UnwindStepInfo>,
    chains: spec_fn(u64) -> Seq<FrameRecordView>,
    symbol_table: SymbolTable,
    arch: Arch,
    base: usize,
    ip: usize,
    sp: usize,
    memory: Map<usize, usize>,
    limit: nat,
)
    ensures
        forall|i: int|
            0 <= i < callers_above(rows, arch, base, ip, sp, memory, limit).len() && chain_of(
                chains,
                callers_above(rows, arch, base, ip, sp, memory, limit)[i],
            ).len() == 1 ==> {
                let frame = #[trigger] frames_above(
                    rows,
                    chains,
                    symbol_table,
                    arch,
                    base,
                    ip,
                    sp,
                    memory,
                    limit,
                )[i];
                let chain = chain_of(
                    chains,
                    callers_above(rows, arch, base, ip, sp, memory, limit)[i],
                );
                frame.len() == 1 && frame[0].name == chain[0].function
            },
{
    lemma_frames_are_the_callers(rows, chains, symbol_table, arch, base, ip, sp, memory, limit);
}

/// A fully inlined call chain gives a single frame: where the debug
/// information holds a chain of inlined functions for a return address,
/// the one frame of that address lists them all, from the physical
/// function down to the innermost inlined callee. Its first symbol names
/// the physical function, which is the implementation where the call
/// stands in a method of a trait.
pub proof fn lemma_inlined_chain_in_one_frame(
    rows: spec_fn(usize) -> Option<UnwindStepInfo>,
    chains: spec_fn(u64) -> Seq<FrameRecordView>,
    symbol_table: SymbolTable,
    arch: Arch,
    base: usize,
    ip: usize,
    sp: usize,
    memory: Map<usize, usize>,
    limit: nat,
)
    ensures
        forall|i: int|
            0 <= i < callers_above(rows, arch, base, ip, sp, memory, limit).len() && chain_of(
                chains,
                callers_above(rows, arch, base, ip, sp, memory, limit)[i],
            ).len() > 0 ==> {
                let frame = #[trigger] frames_above(
                    rows,
                    chains,
                    symbol_table,
                    arch,
                    base,
                    ip,
                    sp,
                    memory,
                    limit,
                )[i];
                let chain = chain_of(
                    chains,
                    callers_above(rows, arch, base, ip, sp, memory, limit)[i],
                );
                &&& frame.len() == chain.len()
                &&& frame.first().name == chain.last().function
                &&& frame.last().name == chain.first().function
                &&& forall|j: int|
                    0 <= j < chain.len() ==> (#[trigger] frame[j]).name == chain[chain.len() - 1
                        - j].function
            },
{
    lemma_frames_are_the_callers(rows, chains, symbol_table, arch, base, ip, sp, memory, limit);
}

/// The first frame of a trace is that of the caller of the function in
/// which the program counter was captured, never that function's own.
pub proof fn lemma_first_frame_is_the_callers(
    rows: spec_fn(usize) -> Option<UnwindStepInfo>,
    chains: spec_fn(u64) -> Seq<FrameRecordView>,
    symbol_table: SymbolTable,
    arch: Arch,
    base: usize,
    ip: usize,
    sp: usize,
    memory: Map<usize, usize>,
    limit: nat,
)
    requires
        frames_above(rows, chains, symbol_table, arch, base, ip, sp, memory, limit).len() > 0,
    ensures
        rows(ip) matches Some(info) && return_slot_of(
            cfa_of(arch, sp, info.cfa),
            info.return_address,
        ) matches Some(slot) && frames_above(
            rows,
            chains,
            symbol_table,
            arch,
            base,
            ip,
            sp,
            memory,
            limit,
        )[0] == frame_at(chains, symbol_table, wrap_word(memory[slot] - base)),
{
}

/// A step that is answered with the word in the slot it names, and then
/// with the chain at the address it names, moves one frame from the stack
/// to the frames found: the frames found and those still above are
/// together what they were. So a trace that is followed to its end lists
/// the frames above the captured program counter in their order, innermost
/// first.
pub proof fn lemma_step_follows_the_stack(
    rows: spec_fn(usize) -> Option<UnwindStepInfo>,
    chains: spec_fn(u64) -> Seq<FrameRecordView>,
    symbol_table: SymbolTable,
    arch: Arch,
    base: usize,
    ip: usize,
    sp: usize,
    memory: Map<usize, usize>,
    limit: nat,
    found: Seq<Seq<SymbolView>>,
)
    requires
        limit > 0,
    ensures
        match rows(ip) {
            None => found + frames_above(
                rows,
                chains,
                symbol_table,
                arch,
                base,
                ip,
                sp,
                memory,
                limit,
            ) == found,
            Some(info) => match return_slot_of(
                cfa_of(arch, sp, info.cfa),
                info.return_address,
            ) {
                None => found + frames_above(
                    rows,
                    chains,
                    symbol_table,
                    arch,
                    base,
                    ip,
                    sp,
                    memory,
                    limit,
                ) == found,
                Some(slot) => found + frames_above(
                    rows,
                    chains,
                    symbol_table,
                    arch,
                    base,
                    ip,
                    sp,
                    memory,
                    limit,
                ) == found.push(frame_at(chains, symbol_table, wrap_word(memory[slot] - base)))
                    + frames_above(
                    rows,
                    chains,
                    symbol_table,
                    arch,
                    base,
                    wrap_word(memory[slot] - base),
                    cfa_of(arch, sp, info.cfa),
                    memory,
                    (limit - 1) as nat,
                ),
            },
        },
{
    let above = frames_above(rows, chains, symbol_table, arch, base, ip, sp, memory, limit);
    match rows(ip) {
        None => {
            assert(found + above =~= found);
        },
        Some(info) => {
            let cfa = cfa_of(arch, sp, info.cfa);
            match return_slot_of(cfa, info.return_address) {
                None => {
                    assert(found + above =~= found);
                },
                Some(slot) => {
                    let caller = wrap_word(memory[slot] - base);
                    let rest = frames_above(
                        rows,
                        chains,
                        symbol_table,
                        arch,
                        base,
                        caller,
                        cfa,
                        memory,
                        (limit - 1) as nat,
                    );
                    assert(found + above =~= found.push(frame_at(chains, symbol_table, caller))
                        + rest);
                },
            }
        },
    }
}

impl Diagnostic {
    /// The text to report.
    pub fn message(self) -> (text: &'static str)
        ensures
            text@ == "TO BE IMPLEMENTED"@,
    {
        "TO BE IMPLEMENTED"
    }
}

impl Unwinder {
    /// Begins a trace at the captured registers `snapshot` of a thread that
    /// runs an executable linked as `linking` says, in a process whose
    /// regions `maps` lists. The captured program counter itself gets no
    /// frame: the trace starts empty. It ends at once where no region
    /// contains the program counter.
    pub fn start(linking: Linking, arch: Arch, snapshot: &CpuSnapshot, maps: &[u8]) -> (state:
        Unwinding)
        ensures
            match load_base(linking, maps@, snapshot.pc) {
                Some(base) => {
                    &&& state matches Unwinding::Ready(unwinder)
                    &&& unwinder.arch == arch
                    &&& unwinder.base == base
                    &&& unwinder.ip == wrap_word(snapshot.pc - base)
                    &&& unwinder.sp == snapshot.sp
                    &&& unwinder.frames@.len() == 0
                },
                None => {
                    &&& state matches Unwinding::Finished(backtrace, reason)
                    &&& reason == StopReason::OutOfSection
                    &&& backtrace@.len() == 0
                },
            },
    {
        let base = match linking {
            Linking::Static => 0,
            Linking::Dynamic => match get_start_section(maps, snapshot.pc) {
                Ok(base) => base,
                Err(_) => {
                    return Unwinding::Finished(
                        Backtrace::from_frames(Vec::new()),
                        StopReason::OutOfSection,
                    );
                },
            },
        };
        Unwinding::Ready(
            Unwinder {
                arch,
                base,
                ip: address_minus(snapshot.pc, base),
                sp: snapshot.sp,
                frames: Vec::new(),
            },
        )
    }

    /// Unwinds one frame as far as the unwind rules allow. `info` holds the
    /// rules that the unwind table has for the current address `self.ip`,
    /// or nothing where it has none. The stack pointer moves to the CFA,
    /// and the stack slot of the return address is named. The trace ends
    /// where there are no rules, and where the return address is not saved
    /// at an offset from the CFA. No frame is added.
    pub fn step(self, info: Option<UnwindStepInfo>) -> (next: (Unwinding, Option<Diagnostic>))
        ensures
            match info {
                None => {
                    &&& next.0 matches Unwinding::Finished(backtrace, reason)
                    &&& reason == StopReason::EndOfStack
                    &&& backtrace@ == frame_views(self.frames@)
                    &&& next.1 is None
                },
                Some(info) => {
                    &&& next.1 == diagnostic_of(info.cfa)
                    &&& match return_slot_of(
                        cfa_of(self.arch, self.sp, info.cfa),
                        info.return_address,
                    ) {
                        Some(slot) => {
                            &&& next.0 matches Unwinding::Read(pending)
                            &&& pending.slot == slot
                            &&& pending.unwinder.sp == cfa_of(self.arch, self.sp, info.cfa)
                            &&& pending.unwinder.ip == self.ip
                            &&& pending.unwinder.base == self.base
                            &&& pending.unwinder.arch == self.arch
                            &&& pending.unwinder.frames == self.frames
                        },
                        None => {
                            &&& next.0 matches Unwinding::Finished(backtrace, reason)
                            &&& reason == StopReason::UnsupportedCfaRule
                            &&& backtrace@ == frame_views(self.frames@)
                        },
                    }
                },
            },
    {
        let info = match info {
            Some(info) => info,
            None => {
                return (
                    Unwinding::Finished(Backtrace::from_frames(self.frames), StopReason::EndOfStack),
                    None,
                );
            },
        };
        let diagnostic = match info.cfa {
            CfaRule::Expression => Some(Diagnostic::CfaExpression),
            CfaRule::RegisterAndOffset { .. } => None,
        };
        let cfa = canonical_frame_address(self.arch, self.sp, info.cfa);
        match return_slot(cfa, info.return_address) {
            Some(slot) => (
                Unwinding::Read(
                    PendingRead {
                        unwinder: Unwinder {
                            arch: self.arch,
                            base: self.base,
                            ip: self.ip,
                            sp: cfa,
                            frames: self.frames,
                        },
                        slot,
                    },
                ),
                diagnostic,
            ),
            None => (
                Unwinding::Finished(
                    Backtrace::from_frames(self.frames),
                    StopReason::UnsupportedCfaRule,
                ),
                diagnostic,
            ),
        }
    }
}

impl PendingRead {
    /// Goes on with `word`, the machine word read at `self.slot`: the
    /// return address. Its static address becomes the current one; the
    /// frame that returns there is to be looked up at the byte before it.
    pub fn resume(self, word: usize) -> (pending: PendingFrame)
        ensures
            pending.unwinder.arch == self.unwinder.arch,
            pending.unwinder.base == self.unwinder.base,
            pending.unwinder.sp == self.unwinder.sp,
            pending.unwinder.frames == self.unwinder.frames,
            pending.unwinder.ip == wrap_word(word - self.unwinder.base),
            pending.probe == call_site(pending.unwinder.ip),
    {
        let PendingRead { unwinder, slot: _ } = self;
        let Unwinder { arch, base, ip: _, sp, frames } = unwinder;
        let ip = address_minus(word, base);
        PendingFrame { unwinder: Unwinder { arch, base, ip, sp, frames }, probe: probe_address(ip) }
    }
}

impl PendingFrame {
    /// Goes on with `chain`, the inline chain that the debug information
    /// holds for `self.probe`, innermost function first (empty where there
    /// is no probe or nothing is held): the frame that returns to the
    /// current address is added below the frames found so far.
    pub fn resolve(self, chain: Vec<FrameRecord>, symbol_table: &SymbolTable) -> (unwinder:
        Unwinder)
        ensures
            unwinder.arch == self.unwinder.arch,
            unwinder.base == self.unwinder.base,
            unwinder.sp == self.unwinder.sp,
            unwinder.ip == self.unwinder.ip,
            frame_views(unwinder.frames@) == frame_views(self.unwinder.frames@).push(
                resolved_symbols(record_views(chain@), table_name(*symbol_table, unwinder.ip)),
            ),
    {
        let PendingFrame { unwinder, probe: _ } = self;
        let Unwinder { arch, base, ip, sp, frames } = unwinder;
        let ghost before = frames@;
        let mut frames = frames;
        let symbols = Backtrace::parse_frames(chain, symbol_table, ip);
        let frame = BacktraceFrame::new(symbols);
        frames.push(frame);
        assert(frame_views(frames@) =~= frame_views(before).push(frame@));
        Unwinder { arch, base, ip, sp, frames }
    }
}

} // verus!
