//! The result model: symbols, frames and the backtrace they form.

use vstd::prelude::*;

verus! {

/// What a [`BacktraceSymbol`] stands for in specifications.
pub struct SymbolView {
    pub name: Option<Seq<char>>,
    pub file: Option<Seq<char>>,
    pub line: Option<u32>,
}

/// One source-level function at a code address: its name, and where in the
/// sources the address lies. Each part may be absent.
pub struct BacktraceSymbol {
    name: Option<String>,
    file: Option<String>,
    line: Option<u32>,
}

impl View for BacktraceSymbol {
    type V = SymbolView;

    closed spec fn view(&self) -> SymbolView {
        SymbolView {
            name: self.name.deep_view(),
            file: self.file.deep_view(),
            line: self.line,
        }
    }
}

impl BacktraceSymbol {
    pub fn new(name: Option<String>, file: Option<String>, line: Option<u32>) -> (symbol:
        BacktraceSymbol)
        ensures
            symbol@ == (SymbolView { name: name.deep_view(), file: file.deep_view(), line }),
    {
        BacktraceSymbol { name, file, line }
    }

    /// The function's name, if one was found.
    pub fn name(&self) -> (name: &Option<String>)
        ensures
            name.deep_view() == self@.name,
    {
        &self.name
    }

    /// The source file, if one was found.
    pub fn file(&self) -> (file: &Option<String>)
        ensures
            file.deep_view() == self@.file,
    {
        &self.file
    }

    /// The source line, if one was found.
    pub fn line(&self) -> (line: Option<u32>)
        ensures
            line == self@.line,
    {
        self.line
    }
}

/// The views of a sequence of symbols, in the same order.
pub open spec fn symbol_views(symbols: Seq<BacktraceSymbol>) -> Seq<SymbolView> {
    Seq::new(symbols.len(), |i: int| symbols[i]@)
}

/// The source-level functions that share one physical stack frame: the
/// physical function first, then each inlined callee, innermost last.
/// A frame is never empty.
pub struct BacktraceFrame {
    symbols: Vec<BacktraceSymbol>,
}

impl View for BacktraceFrame {
    type V = Seq<SymbolView>;

    closed spec fn view(&self) -> Seq<SymbolView> {
        symbol_views(self.symbols@)
    }
}

impl BacktraceFrame {
    #[verifier::type_invariant]
    spec fn inhabited(self) -> bool {
        self.symbols@.len() > 0
    }

    pub fn new(symbols: Vec<BacktraceSymbol>) -> (frame: BacktraceFrame)
        requires
            symbols@.len() > 0,
        ensures
            frame@ == symbol_views(symbols@),
    {
        BacktraceFrame { symbols }
    }

    /// The symbols of the frame, outermost first. There is at least one.
    pub fn symbols(&self) -> (symbols: &Vec<BacktraceSymbol>)
        ensures
            symbols@.len() > 0,
            symbol_views(symbols@) == self@,
    {
        proof {
            use_type_invariant(self);
        }
        &self.symbols
    }
}

/// The views of a sequence of frames, in the same order.
pub open spec fn frame_views(frames: Seq<BacktraceFrame>) -> Seq<Seq<SymbolView>> {
    Seq::new(frames.len(), |i: int| frames[i]@)
}

/// A captured call stack: one frame per return address, top of stack first.
pub struct Backtrace {
    frames: Vec<BacktraceFrame>,
}

impl View for Backtrace {
    type V = Seq<Seq<SymbolView>>;

    closed spec fn view(&self) -> Seq<Seq<SymbolView>> {
        frame_views(self.frames@)
    }
}

impl Backtrace {
    /// A backtrace of the given frames, top of stack first.
    pub fn from_frames(frames: Vec<BacktraceFrame>) -> (backtrace: Backtrace)
        ensures
            backtrace@ == frame_views(frames@),
    {
        Backtrace { frames }
    }

    /// The frames, top of stack first.
    pub fn frames(&self) -> (frames: &Vec<BacktraceFrame>)
        ensures
            frame_views(frames@) == self@,
    {
        &self.frames
    }
}

} // verus!
