//! The printed form of a backtrace.

use crate::backtrace::{frame_views, symbol_views, Backtrace, BacktraceSymbol, SymbolView};
use vstd::prelude::*;
use vstd::string::*;

verus! {

/// The character of a decimal digit.
pub open spec fn digit_char(digit: nat) -> char {
    if digit == 0 {
        '0'
    } else if digit == 1 {
        '1'
    } else if digit == 2 {
        '2'
    } else if digit == 3 {
        '3'
    } else if digit == 4 {
        '4'
    } else if digit == 5 {
        '5'
    } else if digit == 6 {
        '6'
    } else if digit == 7 {
        '7'
    } else if digit == 8 {
        '8'
    } else {
        '9'
    }
}

/// A number in decimal digits, without leading zeros.
pub open spec fn decimal(number: nat) -> Seq<char>
    decreases number,
{
    if number < 10 {
        seq![digit_char(number)]
    } else {
        decimal(number / 10).push(digit_char(number % 10))
    }
}

/// `count` spaces.
pub open spec fn spaces(count: nat) -> Seq<char> {
    Seq::new(count, |i: int| ' ')
}

/// `text` moved to the right end of a field of `width` characters; as it
/// is where it fills the field or is wider.
pub open spec fn right_aligned(text: Seq<char>, width: nat) -> Seq<char> {
    if text.len() >= width {
        text
    } else {
        spaces((width - text.len()) as nat) + text
    }
}

/// Whether a symbol can be printed: it has a name, and a line where it has
/// a file.
pub open spec fn printable(symbol: SymbolView) -> bool {
    symbol.name is Some && (symbol.file is Some ==> symbol.line is Some)
}

/// Whether every symbol of every frame can be printed.
pub open spec fn renderable(backtrace: Seq<Seq<SymbolView>>) -> bool {
    forall|i: int, j: int|
        0 <= i < backtrace.len() && 0 <= j < backtrace[i].len() ==> printable(
            #[trigger] backtrace[i][j],
        )
}

/// The lines of one symbol. The first symbol of a frame stands behind the
/// frame's index, which is right-aligned in four columns and followed by
/// `": "`; each further one stands behind six spaces. A symbol with a file
/// has a second line: twelve spaces, `" at "`, the file, `":"` and the
/// line number.
pub open spec fn symbol_lines(frame_index: nat, position: nat, symbol: SymbolView) -> Seq<char> {
    let heading = if position == 0 {
        right_aligned(decimal(frame_index), 4) + seq![':', ' ']
    } else {
        spaces(6)
    };
    let place = match symbol.file {
        Some(file) => spaces(12) + seq![' ', 'a', 't', ' '] + file + seq![':'] + decimal(
            symbol.line.unwrap() as nat,
        ) + seq!['\n'],
        None => Seq::empty(),
    };
    heading + symbol.name.unwrap() + seq!['\n'] + place
}

/// The lines of the first `count` symbols of a frame.
pub open spec fn frame_lines(frame_index: nat, symbols: Seq<SymbolView>, count: nat) -> Seq<char>
    decreases count,
{
    if count == 0 {
        Seq::empty()
    } else {
        frame_lines(frame_index, symbols, (count - 1) as nat) + symbol_lines(
            frame_index,
            (count - 1) as nat,
            symbols[count - 1],
        )
    }
}

/// The lines of the first `count` frames of a backtrace.
pub open spec fn backtrace_lines(backtrace: Seq<Seq<SymbolView>>, count: nat) -> Seq<char>
    decreases count,
{
    if count == 0 {
        Seq::empty()
    } else {
        backtrace_lines(backtrace, (count - 1) as nat) + frame_lines(
            (count - 1) as nat,
            backtrace[count - 1],
            backtrace[count - 1].len(),
        )
    }
}

/// The printed form of a backtrace: its frames in order, numbered from 0.
pub open spec fn rendered(backtrace: Seq<Seq<SymbolView>>) -> Seq<char> {
    backtrace_lines(backtrace, backtrace.len())
}

fn digit_text(digit: u64) -> (text: &'static str)
    requires
        digit < 10,
    ensures
        text@ == seq![digit_char(digit as nat)],
{
    proof {
        reveal_strlit("0");
        reveal_strlit("1");
        reveal_strlit("2");
        reveal_strlit("3");
        reveal_strlit("4");
        reveal_strlit("5");
        reveal_strlit("6");
        reveal_strlit("7");
        reveal_strlit("8");
        reveal_strlit("9");
    }
    let text = if digit == 0 {
        "0"
    } else if digit == 1 {
        "1"
    } else if digit == 2 {
        "2"
    } else if digit == 3 {
        "3"
    } else if digit == 4 {
        "4"
    } else if digit == 5 {
        "5"
    } else if digit == 6 {
        "6"
    } else if digit == 7 {
        "7"
    } else if digit == 8 {
        "8"
    } else {
        "9"
    };
    assert(text@ =~= seq![digit_char(digit as nat)]);
    text
}

/// Appends `number` in decimal digits.
pub fn push_decimal(out: &mut String, number: u64)
    ensures
        final(out)@ == old(out)@ + decimal(number as nat),
    decreases number,
{
    if number >= 10 {
        push_decimal(out, number / 10);
    }
    out.append(digit_text(number % 10));
    proof {
        if number >= 10 {
            assert(old(out)@ + decimal((number / 10) as nat) + seq![
                digit_char((number % 10) as nat),
            ] =~= old(out)@ + decimal(number as nat));
        }
    }
}

/// Appends `count` spaces.
pub fn push_spaces(out: &mut String, count: usize)
    ensures
        final(out)@ == old(out)@ + spaces(count as nat),
{
    let mut done: usize = 0;
    assert(out@ =~= old(out)@ + spaces(0));
    while done < count
        invariant
            done <= count,
            out@ == old(out)@ + spaces(done as nat),
        decreases count - done,
    {
        proof {
            reveal_strlit(" ");
        }
        out.append(" ");
        done += 1;
        assert(out@ =~= old(out)@ + spaces(done as nat));
    }
}

/// Appends `number` in decimal digits, right-aligned in `width` columns.
pub fn push_right_aligned(out: &mut String, number: u64, width: usize)
    ensures
        final(out)@ == old(out)@ + right_aligned(decimal(number as nat), width as nat),
{
    let mut digits = String::new();
    push_decimal(&mut digits, number);
    assert(digits@ =~= decimal(number as nat));
    let length = digits.as_str().unicode_len();
    if length < width {
        push_spaces(out, width - length);
    }
    out.append(digits.as_str());
    assert(out@ =~= old(out)@ + right_aligned(decimal(number as nat), width as nat));
}

/// Appends the lines of one symbol.
pub fn push_symbol(out: &mut String, frame_index: usize, position: usize, symbol: &BacktraceSymbol)
    requires
        printable(symbol@),
    ensures
        final(out)@ == old(out)@ + symbol_lines(frame_index as nat, position as nat, symbol@),
{
    proof {
        reveal_strlit(": ");
        reveal_strlit("\n");
        reveal_strlit(" at ");
        reveal_strlit(":");
    }
    if position == 0 {
        push_right_aligned(out, frame_index as u64, 4);
        out.append(": ");
    } else {
        push_spaces(out, 6);
    }
    let ghost heading = if position == 0 {
        right_aligned(decimal(frame_index as nat), 4) + seq![':', ' ']
    } else {
        spaces(6)
    };
    assert(out@ =~= old(out)@ + heading);
    match symbol.name() {
        Some(name) => {
            out.append(name.as_str());
        },
        None => {},
    }
    out.append("\n");
    let ghost named = old(out)@ + heading + symbol@.name.unwrap() + seq!['\n'];
    assert(out@ =~= named);
    match (symbol.file(), symbol.line()) {
        (Some(file), Some(line)) => {
            push_spaces(out, 12);
            out.append(" at ");
            out.append(file.as_str());
            out.append(":");
            push_decimal(out, line as u64);
            out.append("\n");
            assert(out@ =~= named + (spaces(12) + seq![' ', 'a', 't', ' '] + file@ + seq![':']
                + decimal(line as nat) + seq!['\n']));
        },
        _ => {
            assert(out@ =~= named + Seq::<char>::empty());
        },
    }
    assert(out@ =~= old(out)@ + symbol_lines(frame_index as nat, position as nat, symbol@));
}

impl Backtrace {
    /// Whether the backtrace can be printed: every symbol has a name, and a
    /// line where it has a file.
    pub fn is_renderable(&self) -> (yes: bool)
        ensures
            yes == renderable(self@),
    {
        let frames = self.frames();
        let mut i: usize = 0;
        while i < frames.len()
            invariant
                i <= frames@.len(),
                frame_views(frames@) == self@,
                forall|a: int, b: int|
                    0 <= a < i && 0 <= b < self@[a].len() ==> printable(#[trigger] self@[a][b]),
            decreases frames@.len() - i,
        {
            let symbols = frames[i].symbols();
            assert(symbol_views(symbols@) == self@[i as int]);
            let mut j: usize = 0;
            while j < symbols.len()
                invariant
                    j <= symbols@.len(),
                    i < frames@.len(),
                    frame_views(frames@) == self@,
                    symbol_views(symbols@) == self@[i as int],
                    forall|b: int| 0 <= b < j ==> printable(#[trigger] self@[i as int][b]),
                decreases symbols@.len() - j,
            {
                let symbol = &symbols[j];
                assert(symbol@ == self@[i as int][j as int]);
                let named = symbol.name().is_some();
                let placed = symbol.file().is_none() || symbol.line().is_some();
                if !(named && placed) {
                    assert(!printable(self@[i as int][j as int]));
                    return false;
                }
                j += 1;
            }
            i += 1;
        }
        true
    }

    /// The printed form of the backtrace: for each frame, numbered from 0,
    /// a line with the index and the name of the physical function, a line
    /// for each inlined callee, and below each name the place in the
    /// sources, where it is known.
    pub fn render(&self) -> (text: String)
        requires
            renderable(self@),
        ensures
            text@ == rendered(self@),
    {
        let mut out = String::new();
        let frames = self.frames();
        let mut i: usize = 0;
        assert(out@ =~= backtrace_lines(self@, 0));
        while i < frames.len()
            invariant
                i <= frames@.len(),
                frame_views(frames@) == self@,
                renderable(self@),
                out@ == backtrace_lines(self@, i as nat),
            decreases frames@.len() - i,
        {
            let symbols = frames[i].symbols();
            assert(symbol_views(symbols@) == self@[i as int]);
            let ghost before = out@;
            let mut j: usize = 0;
            assert(out@ =~= before + frame_lines(i as nat, self@[i as int], 0));
            while j < symbols.len()
                invariant
                    j <= symbols@.len(),
                    i < frames@.len(),
                    frame_views(frames@) == self@,
                    symbol_views(symbols@) == self@[i as int],
                    renderable(self@),
                    out@ == before + frame_lines(i as nat, self@[i as int], j as nat),
                decreases symbols@.len() - j,
            {
                let symbol = &symbols[j];
                assert(symbol@ == self@[i as int][j as int]);
                push_symbol(&mut out, i, j, symbol);
                j += 1;
                assert(out@ =~= before + frame_lines(i as nat, self@[i as int], j as nat));
            }
            i += 1;
        }
        out
    }
}

} // verus!
