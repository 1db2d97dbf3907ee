//! Resolution of a static code address to the source-level functions at it.
//!
//! The debug information is looked up by the caller, who hands in what it
//! holds for an address as a chain of [`FrameRecord`]s, innermost function
//! first. An address that returns from a call is looked up at
//! [`probe_address`].

use crate::backtrace::{symbol_views, Backtrace, BacktraceSymbol, SymbolView};
use crate::symbol_table::SymbolTable;
use vstd::prelude::*;
use vstd::string::*;

verus! {

/// A source position as the debug information gives it.
pub struct SourceLocation {
    pub file: Option<String>,
    pub line: Option<u32>,
    pub column: Option<u32>,
}

/// What a [`SourceLocation`] stands for in specifications.
pub struct SourceLocationView {
    pub file: Option<Seq<char>>,
    pub line: Option<u32>,
    pub column: Option<u32>,
}

impl View for SourceLocation {
    type V = SourceLocationView;

    open spec fn view(&self) -> SourceLocationView {
        SourceLocationView { file: self.file.deep_view(), line: self.line, column: self.column }
    }
}

/// One level of the inline-expansion chain at an address: the demangled
/// name of the function, and the position in it.
pub struct FrameRecord {
    pub function: Option<String>,
    pub location: Option<SourceLocation>,
}

/// What a [`FrameRecord`] stands for in specifications.
pub struct FrameRecordView {
    pub function: Option<Seq<char>>,
    pub location: Option<SourceLocationView>,
}

impl View for FrameRecord {
    type V = FrameRecordView;

    open spec fn view(&self) -> FrameRecordView {
        FrameRecordView {
            function: self.function.deep_view(),
            location: match self.location {
                Some(location) => Some(location@),
                None => None,
            },
        }
    }
}

/// The views of a sequence of records, in the same order.
pub open spec fn record_views(records: Seq<FrameRecord>) -> Seq<FrameRecordView> {
    Seq::new(records.len(), |i: int| records[i]@)
}

/// The symbol that one frame record becomes: the name as it is, file and
/// line from the location, each absent where the record lacks it.
pub open spec fn symbol_of_record(record: FrameRecordView) -> SymbolView {
    SymbolView {
        name: record.function,
        file: match record.location {
            Some(location) => location.file,
            None => None,
        },
        line: match record.location {
            Some(location) => location.line,
            None => None,
        },
    }
}

/// The symbols of an inline chain. The debug information lists the chain
/// innermost first; a frame lists it outermost first.
pub open spec fn symbols_of_records(records: Seq<FrameRecordView>) -> Seq<SymbolView> {
    Seq::new(records.len(), |i: int| symbol_of_record(records[records.len() - 1 - i]))
}

/// The symbol for one record.
pub fn symbol_from_record(record: FrameRecord) -> (symbol: BacktraceSymbol)
    ensures
        symbol@ == symbol_of_record(record@),
{
    let FrameRecord { function, location } = record;
    match location {
        Some(location) => {
            let SourceLocation { file, line, column: _ } = location;
            BacktraceSymbol::new(function, file, line)
        },
        None => BacktraceSymbol::new(function, None, None),
    }
}

/// The symbols for an inline chain given innermost first: one symbol per
/// record, the outermost function first.
pub fn symbols_from_records(records: Vec<FrameRecord>) -> (symbols: Vec<BacktraceSymbol>)
    ensures
        symbol_views(symbols@) == symbols_of_records(record_views(records@)),
        symbols@.len() == records@.len(),
{
    let ghost all = record_views(records@);
    let mut records = records;
    let mut symbols: Vec<BacktraceSymbol> = Vec::new();
    while records.len() > 0
        invariant
            record_views(records@) == all.subrange(0, records@.len() as int),
            records@.len() <= all.len(),
            symbols@.len() == all.len() - records@.len(),
            forall|i: int|
                0 <= i < symbols@.len() ==> (#[trigger] symbols@[i])@ == symbol_of_record(
                    all[all.len() - 1 - i],
                ),
        decreases records@.len(),
    {
        let ghost before = records@;
        let record = records.pop().unwrap();
        assert(record@ == record_views(before)[before.len() - 1]);
        assert(record_views(records@) =~= all.subrange(0, records@.len() as int));
        let symbol = symbol_from_record(record);
        symbols.push(symbol);
    }
    assert(symbol_views(symbols@) =~= symbols_of_records(all));
    symbols
}

/// A hexadecimal digit, in either case.
pub open spec fn is_hex_digit(c: char) -> bool {
    ('0' <= c && c <= '9') || ('a' <= c && c <= 'f') || ('A' <= c && c <= 'F')
}

/// The length of the suffix that the compiler appends to make a symbol
/// unique: `::h` and sixteen hexadecimal digits.
pub const HASH_SUFFIX_LEN: usize = 19;

/// Whether `name` ends in `::h` followed by exactly sixteen hexadecimal
/// digits.
pub open spec fn has_hash_suffix(name: Seq<char>) -> bool {
    &&& name.len() >= HASH_SUFFIX_LEN
    &&& name[name.len() - 19] == ':'
    &&& name[name.len() - 18] == ':'
    &&& name[name.len() - 17] == 'h'
    &&& forall|i: int| name.len() - 16 <= i < name.len() ==> is_hex_digit(#[trigger] name[i])
}

/// `name` without its hash suffix, if it has one.
pub open spec fn without_hash_suffix(name: Seq<char>) -> Seq<char> {
    if has_hash_suffix(name) {
        name.subrange(0, name.len() - 19)
    } else {
        name
    }
}

/// The name given to an address that neither the debug information nor the
/// symbol table resolves.
pub open spec fn unknown_name() -> Seq<char> {
    "Name unknown"@
}

/// The symbol that stands for an address without debug information:
/// named after the symbol table's entry where there is one.
pub open spec fn fallback_symbol_of(demangled: Option<Seq<char>>) -> SymbolView {
    SymbolView {
        name: Some(
            match demangled {
                Some(name) => without_hash_suffix(name),
                None => unknown_name(),
            },
        ),
        file: None,
        line: None,
    }
}

fn hex_digit(c: char) -> (yes: bool)
    ensures
        yes == is_hex_digit(c),
{
    ('0' <= c && c <= '9') || ('a' <= c && c <= 'f') || ('A' <= c && c <= 'F')
}

/// Removes the hash suffix of a demangled name, if it has one:
/// `test::main::h3778bc7a1687e186` becomes `test::main`.
pub fn strip_hash_suffix(name: &str) -> (stripped: String)
    ensures
        stripped@ == without_hash_suffix(name@),
{
    let len = name.unicode_len();
    if len < HASH_SUFFIX_LEN {
        return String::from_str(name);
    }
    let start = len - HASH_SUFFIX_LEN;
    if name.get_char(start) != ':' || name.get_char(start + 1) != ':' || name.get_char(start + 2)
        != 'h' {
        return String::from_str(name);
    }
    let mut i: usize = start + 3;
    while i < len
        invariant
            len == name@.len(),
            start + 3 <= i <= len,
            start == len - 19,
            forall|j: int| start + 3 <= j < i ==> is_hex_digit(#[trigger] name@[j]),
        decreases len - i,
    {
        if !hex_digit(name.get_char(i)) {
            return String::from_str(name);
        }
        i += 1;
    }
    String::from_str(name.substring_char(0, start))
}

/// The one symbol of a frame at an address without debug information.
/// `demangled` is the demangled name of the symbol table's entry for the
/// address, if it has one.
pub fn fallback_symbol(demangled: Option<String>) -> (symbol: BacktraceSymbol)
    ensures
        symbol@ == fallback_symbol_of(demangled.deep_view()),
{
    let name = match demangled {
        Some(name) => strip_hash_suffix(name.as_str()),
        None => String::from_str("Name unknown"),
    };
    BacktraceSymbol::new(Some(name), None, None)
}

/// What `rustc_demangle::demangle` makes of a symbol name, written out in
/// its plain form (with the hash, where the name carries one).
pub uninterp spec fn rust_demangled(mangled: Seq<char>) -> Seq<char>;

/// `rustc_demangle::demangle`, written out by its `Display` in plain form.
#[verifier::external_body]
fn demangle(mangled: &str) -> (name: String)
    ensures
        name@ == rust_demangled(mangled@),
{
    rustc_demangle::demangle(mangled).to_string()
}

/// The address at which the debug information is asked about the call
/// that returns to `ip_static`: the byte before the return address, which
/// lies in the call instruction. Address 0 has no such byte.
pub open spec fn call_site(ip_static: usize) -> Option<u64> {
    if ip_static == 0 {
        None
    } else {
        Some((ip_static - 1) as u64)
    }
}

/// The address at which to look up the debug information for the frame
/// that returns to `ip_static`. A return address points behind its call,
/// so it is the byte before; for address 0 there is none, and the chain is
/// empty.
pub fn probe_address(ip_static: usize) -> (probe: Option<u64>)
    ensures
        probe == call_site(ip_static),
{
    if ip_static == 0 {
        None
    } else {
        Some((ip_static - 1) as u64)
    }
}

/// The demangled name of the symbol table's entry for `code_address`.
pub open spec fn table_name(table: SymbolTable, code_address: usize) -> Option<Seq<char>> {
    match table.name_of(code_address as u64) {
        Some(mangled) => Some(rust_demangled(mangled)),
        None => None,
    }
}

/// The symbols of the frame at a code address, given the inline chain
/// there (innermost first) and the demangled name from the symbol table:
/// the chain, outermost first, where it is not empty; else the one symbol
/// that the table or the name for the unknown gives.
pub open spec fn resolved_symbols(
    chain: Seq<FrameRecordView>,
    table_name: Option<Seq<char>>,
) -> Seq<SymbolView> {
    if chain.len() > 0 {
        symbols_of_records(chain)
    } else {
        seq![fallback_symbol_of(table_name)]
    }
}

impl Backtrace {
    /// The source-level functions at the static address `code_address`,
    /// the physical function first and each inlined callee after it, given
    /// the inline `chain` that the debug information holds for the address,
    /// innermost function first. The chain decides where it is not empty;
    /// otherwise the symbol table names the one symbol, or nothing does and
    /// the symbol is called `Name unknown`.
    pub fn parse_frames(
        chain: Vec<FrameRecord>,
        symbol_table: &SymbolTable,
        code_address: usize,
    ) -> (symbols: Vec<BacktraceSymbol>)
        ensures
            symbol_views(symbols@) == resolved_symbols(
                record_views(chain@),
                table_name(*symbol_table, code_address),
            ),
            symbols@.len() > 0,
    {
        if chain.len() > 0 {
            return symbols_from_records(chain);
        }
        let name = match symbol_table.name_at(code_address as u64) {
            Some(mangled) => Some(demangle(mangled.as_str())),
            None => None,
        };
        let symbol = fallback_symbol(name);
        let mut symbols: Vec<BacktraceSymbol> = Vec::new();
        symbols.push(symbol);
        assert(symbol_views(symbols@) =~= seq![symbol@]);
        symbols
    }
}

/// Every symbol of a frame has a line wherever it has a file, provided the
/// debug information gives a line with every file.
pub proof fn lemma_file_comes_with_line(chain: Seq<FrameRecordView>, table_name: Option<Seq<char>>)
    requires
        forall|i: int|
            0 <= i < chain.len() && (#[trigger] chain[i]).location is Some
                && chain[i].location.unwrap().file is Some
                ==> chain[i].location.unwrap().line is Some,
    ensures
        forall|i: int|
            0 <= i < resolved_symbols(chain, table_name).len() && (#[trigger] resolved_symbols(
                chain,
                table_name,
            )[i]).file is Some ==> resolved_symbols(chain, table_name)[i].line is Some,
{
    assert forall|i: int|
        0 <= i < resolved_symbols(chain, table_name).len() && (#[trigger] resolved_symbols(
            chain,
            table_name,
        )[i]).file is Some implies resolved_symbols(chain, table_name)[i].line is Some by {
        if chain.len() > 0 {
            let record = chain[chain.len() - 1 - i];
            assert(resolved_symbols(chain, table_name)[i] == symbol_of_record(record));
        }
    }
}

/// A frame lists the whole inline chain at its address, from the physical
/// function down to the innermost inlined callee: one symbol for the
/// function and one for each inlined call, as many as the chain has
/// levels, named as the levels are.
pub proof fn lemma_frame_lists_inline_chain(
    chain: Seq<FrameRecordView>,
    table_name: Option<Seq<char>>,
)
    requires
        chain.len() > 0,
    ensures
        resolved_symbols(chain, table_name).len() == chain.len(),
        forall|i: int|
            0 <= i < chain.len() ==> (#[trigger] resolved_symbols(chain, table_name)[i]).name
                == chain[chain.len() - 1 - i].function,
        resolved_symbols(chain, table_name).first().name == chain.last().function,
        resolved_symbols(chain, table_name).last().name == chain.first().function,
{
}

/// A frame is never empty.
pub proof fn lemma_frame_has_symbol(chain: Seq<FrameRecordView>, table_name: Option<Seq<char>>)
    ensures
        resolved_symbols(chain, table_name).len() >= 1,
{
}

} // verus!
