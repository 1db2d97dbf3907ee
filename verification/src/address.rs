//! From a runtime address to the start of the memory region it lies in,
//! read off the system's listing of a process's mapped regions.

use vstd::prelude::*;
use vstd::slice::slice_subrange;

verus! {

pub const NEWLINE: u8 = 0x0a;

pub const CARRIAGE_RETURN: u8 = 0x0d;

pub const DASH: u8 = 0x2d;

pub const SPACE: u8 = 0x20;

pub const PLUS: u8 = 0x2b;

/// The value of a hexadecimal digit, in either case.
pub open spec fn hex_digit_value(byte: u8) -> Option<nat> {
    if 0x30 <= byte <= 0x39 {
        Some((byte - 0x30) as nat)
    } else if 0x61 <= byte <= 0x66 {
        Some((byte - 0x61 + 10) as nat)
    } else if 0x41 <= byte <= 0x46 {
        Some((byte - 0x41 + 10) as nat)
    } else {
        None
    }
}

/// Whether every byte is a hexadecimal digit.
pub open spec fn all_hex(digits: Seq<u8>) -> bool {
    forall|i: int| 0 <= i < digits.len() ==> hex_digit_value(#[trigger] digits[i]) is Some
}

/// The number that a run of hexadecimal digits writes.
pub open spec fn hex_value(digits: Seq<u8>) -> nat
    decreases digits.len(),
{
    if digits.len() == 0 {
        0
    } else {
        16 * hex_value(digits.drop_last()) + hex_digit_value(digits.last()).unwrap()
    }
}

/// The digits of a number: the token itself, without a leading `+`.
pub open spec fn digits_of(token: Seq<u8>) -> Seq<u8> {
    if token.len() > 0 && token[0] == PLUS {
        token.skip(1)
    } else {
        token
    }
}

/// The address that a token writes: one or more hexadecimal digits, which
/// a `+` may precede, whose number is a machine word.
pub open spec fn address_written(token: Seq<u8>) -> Option<usize> {
    let digits = digits_of(token);
    if digits.len() > 0 && all_hex(digits) && hex_value(digits) <= usize::MAX {
        Some(hex_value(digits) as usize)
    } else {
        None
    }
}

/// Where the token that starts at `from` ends: at the next `-` or space,
/// or with the line.
pub open spec fn token_end(line: Seq<u8>, from: int) -> int
    decreases line.len() - from,
{
    if from >= line.len() {
        line.len() as int
    } else if line[from] == DASH || line[from] == SPACE {
        from
    } else {
        token_end(line, from + 1)
    }
}

/// The region that a line of the listing describes: the line starts with
/// the region's first address, a `-` or space, and the address after its
/// last. A line of any other form describes none.
pub open spec fn region_of(line: Seq<u8>) -> Option<(usize, usize)> {
    let first_end = token_end(line, 0);
    if first_end >= line.len() {
        None
    } else {
        let second_end = token_end(line, first_end + 1);
        match (
            address_written(line.subrange(0, first_end)),
            address_written(line.subrange(first_end + 1, second_end)),
        ) {
            (Some(start), Some(end)) => Some((start, end)),
            _ => None,
        }
    }
}

/// Whether the region that `line` describes contains `address`.
pub open spec fn line_holds(line: Seq<u8>, address: usize) -> bool {
    region_of(line) matches Some((start, end)) && start <= address < end
}

/// Where the line that starts at `from` ends: at the next newline, or with
/// the text.
pub open spec fn line_end(text: Seq<u8>, from: int) -> int
    decreases text.len() - from,
{
    if from >= text.len() {
        text.len() as int
    } else if text[from] == NEWLINE {
        from
    } else {
        line_end(text, from + 1)
    }
}

/// The line between `from` and `end`, without the carriage return that
/// may stand before its newline.
pub open spec fn line_between(text: Seq<u8>, from: int, end: int) -> Seq<u8> {
    if end < text.len() && from < end && text[end - 1] == CARRIAGE_RETURN {
        text.subrange(from, end - 1)
    } else {
        text.subrange(from, end)
    }
}

/// The lines of `text` from `from` on.
pub open spec fn lines_from(text: Seq<u8>, from: int) -> Seq<Seq<u8>>
    decreases text.len() + 1 - from,
{
    if from < 0 || from >= text.len() {
        Seq::empty()
    } else {
        let end = line_end(text, from);
        proof {
            lemma_line_end_bounds(text, from);
        }
        seq![line_between(text, from, end)] + lines_from(text, end + 1)
    }
}

/// The lines of a text, each without the newline (or carriage return and
/// newline) that ends it. The last line needs no newline.
pub open spec fn lines_of(text: Seq<u8>) -> Seq<Seq<u8>> {
    lines_from(text, 0)
}

/// A line ends at or after the place where it starts, within the text.
pub proof fn lemma_line_end_bounds(text: Seq<u8>, from: int)
    requires
        0 <= from <= text.len(),
    ensures
        from <= line_end(text, from) <= text.len(),
    decreases text.len() - from,
{
    if from < text.len() && text[from] != NEWLINE {
        lemma_line_end_bounds(text, from + 1);
    }
}

proof fn lemma_hex_value_grows(digits: Seq<u8>, shorter: int)
    requires
        0 <= shorter <= digits.len(),
    ensures
        hex_value(digits.subrange(0, shorter)) <= hex_value(digits),
    decreases digits.len(),
{
    if shorter == digits.len() {
        assert(digits.subrange(0, shorter) =~= digits);
    } else {
        lemma_hex_value_grows(digits.drop_last(), shorter);
        assert(digits.drop_last().subrange(0, shorter) =~= digits.subrange(0, shorter));
    }
}

fn find_token_end(line: &[u8], from: usize) -> (end: usize)
    requires
        from <= line@.len(),
    ensures
        end == token_end(line@, from as int),
        from <= end <= line@.len(),
{
    let mut end = from;
    while end < line.len() && line[end] != DASH && line[end] != SPACE
        invariant
            from <= end <= line@.len(),
            token_end(line@, from as int) == token_end(line@, end as int),
        decreases line@.len() - end,
    {
        end += 1;
    }
    end
}

fn find_line_end(text: &[u8], from: usize) -> (end: usize)
    requires
        from <= text@.len(),
    ensures
        end == line_end(text@, from as int),
        from <= end <= text@.len(),
{
    let mut end = from;
    while end < text.len() && text[end] != NEWLINE
        invariant
            from <= end <= text@.len(),
            line_end(text@, from as int) == line_end(text@, end as int),
        decreases text@.len() - end,
    {
        end += 1;
    }
    end
}

fn digit_value(byte: u8) -> (value: Option<usize>)
    ensures
        match value {
            Some(value) => hex_digit_value(byte) == Some(value as nat),
            None => hex_digit_value(byte) is None,
        },
{
    if 0x30 <= byte && byte <= 0x39 {
        Some((byte - 0x30) as usize)
    } else if 0x61 <= byte && byte <= 0x66 {
        Some((byte - 0x61 + 10) as usize)
    } else if 0x41 <= byte && byte <= 0x46 {
        Some((byte - 0x41 + 10) as usize)
    } else {
        None
    }
}

/// Reads an address written in hexadecimal digits, which a `+` may
/// precede. `None` for anything else, and for a number beyond a machine
/// word.
pub fn parse_address(token: &[u8]) -> (address: Option<usize>)
    ensures
        address == address_written(token@),
{
    let first: usize = if token.len() > 0 && token[0] == PLUS {
        1
    } else {
        0
    };
    let digits = slice_subrange(token, first, token.len());
    assert(digits@ =~= digits_of(token@));
    if digits.len() == 0 {
        return None;
    }
    let mut value: usize = 0;
    let mut index: usize = 0;
    while index < digits.len()
        invariant
            index <= digits@.len(),
            digits@.len() > 0,
            digits@ == digits_of(token@),
            all_hex(digits@.subrange(0, index as int)),
            value == hex_value(digits@.subrange(0, index as int)),
        decreases digits@.len() - index,
    {
        let ghost read = digits@.subrange(0, index as int);
        let ghost next = digits@.subrange(0, index + 1);
        proof {
            assert(next.drop_last() =~= read);
            assert(next.last() == digits@[index as int]);
            lemma_hex_value_grows(digits@, index + 1);
        }
        let digit = match digit_value(digits[index]) {
            Some(digit) => digit,
            None => {
                assert(!all_hex(digits@));
                return None;
            },
        };
        let shifted = match value.checked_mul(16) {
            Some(shifted) => shifted,
            None => { return None; },
        };
        value = match shifted.checked_add(digit) {
            Some(sum) => sum,
            None => { return None; },
        };
        index += 1;
        assert forall|i: int| 0 <= i < next.len() implies hex_digit_value(
            #[trigger] next[i],
        ) is Some by {
            if i < read.len() {
                assert(next[i] == read[i]);
            }
        }
    }
    assert(digits@.subrange(0, index as int) =~= digits@);
    Some(value)
}

/// Reads the region that a line of the listing describes.
pub fn parse_region(line: &[u8]) -> (region: Option<(usize, usize)>)
    ensures
        region == region_of(line@),
{
    let first_end = find_token_end(line, 0);
    if first_end >= line.len() {
        return None;
    }
    let second_end = find_token_end(line, first_end + 1);
    let start = parse_address(slice_subrange(line, 0, first_end));
    let end = parse_address(slice_subrange(line, first_end + 1, second_end));
    match (start, end) {
        (Some(start), Some(end)) => Some((start, end)),
        _ => None,
    }
}

/// The start of the first region among `lines` that contains `address`.
pub open spec fn first_holding(lines: Seq<Seq<u8>>, address: usize) -> Option<usize>
    decreases lines.len(),
{
    if lines.len() == 0 {
        None
    } else if line_holds(lines[0], address) {
        Some(region_of(lines[0]).unwrap().0)
    } else {
        first_holding(lines.skip(1), address)
    }
}

/// The start of the mapped region that contains `address`, by the listing
/// `maps`: that of the first line whose region contains it.
pub open spec fn section_start(maps: Seq<u8>, address: usize) -> Option<usize> {
    first_holding(lines_of(maps), address)
}

/// The start of the mapped region that contains the runtime address
/// `section_addr`, by the listing `maps` of the process's regions
/// (in the form of `/proc/<pid>/maps`: one region a line, each line
/// starting `START-END` in hexadecimal). The first line whose region
/// `[START, END)` contains the address decides; a line that describes no
/// region contains nothing. Fails where no line contains the address.
pub fn get_start_section(maps: &[u8], section_addr: usize) -> (start: Result<usize, ()>)
    ensures
        start == match section_start(maps@, section_addr) {
            Some(first) => Ok::<usize, ()>(first),
            None => Err::<usize, ()>(()),
        },
{
    let mut from: usize = 0;
    while from < maps.len()
        invariant
            from <= maps@.len(),
            section_start(maps@, section_addr) == first_holding(
                lines_from(maps@, from as int),
                section_addr,
            ),
        ensures
            section_start(maps@, section_addr) is None,
        decreases maps@.len() - from,
    {
        let end = find_line_end(maps, from);
        let stop = if end < maps.len() && from < end && maps[end - 1] == CARRIAGE_RETURN {
            end - 1
        } else {
            end
        };
        let line = slice_subrange(maps, from, stop);
        assert(line@ == line_between(maps@, from as int, end as int));
        let ghost rest = lines_from(maps@, end + 1);
        assert(lines_from(maps@, from as int) == seq![line@] + rest);
        assert((seq![line@] + rest).skip(1) =~= rest);
        match parse_region(line) {
            Some((first, last)) => {
                if first <= section_addr && section_addr < last {
                    return Ok(first);
                }
            },
            None => {},
        }
        assert(section_start(maps@, section_addr) == first_holding(rest, section_addr));
        if end >= maps.len() {
            assert(rest =~= Seq::<Seq<u8>>::empty());
            break;
        }
        from = end + 1;
    }
    Err(())
}

/// The region found is the first that contains the address: a line before
/// it contains the address no more than any line does where none is found.
pub proof fn lemma_first_holding(lines: Seq<Seq<u8>>, address: usize)
    ensures
        match first_holding(lines, address) {
            Some(start) => exists|i: int|
                {
                    &&& 0 <= i < lines.len()
                    &&& line_holds(#[trigger] lines[i], address)
                    &&& region_of(lines[i]).unwrap().0 == start
                    &&& forall|j: int| 0 <= j < i ==> !line_holds(#[trigger] lines[j], address)
                },
            None => forall|i: int| 0 <= i < lines.len() ==> !line_holds(#[trigger] lines[i], address),
        },
    decreases lines.len(),
{
    if lines.len() > 0 && !line_holds(lines[0], address) {
        let rest = lines.skip(1);
        lemma_first_holding(rest, address);
        match first_holding(rest, address) {
            Some(start) => {
                let i = choose|i: int|
                    {
                        &&& 0 <= i < rest.len()
                        &&& line_holds(#[trigger] rest[i], address)
                        &&& region_of(rest[i]).unwrap().0 == start
                        &&& forall|j: int| 0 <= j < i ==> !line_holds(#[trigger] rest[j], address)
                    };
                assert(lines[i + 1] == rest[i]);
                assert forall|j: int| 0 <= j < i + 1 implies !line_holds(
                    #[trigger] lines[j],
                    address,
                ) by {
                    if j > 0 {
                        assert(lines[j] == rest[j - 1]);
                    }
                }
                assert(line_holds(lines[i + 1], address));
            },
            None => {
                assert forall|i: int| 0 <= i < lines.len() implies !line_holds(
                    #[trigger] lines[i],
                    address,
                ) by {
                    if i > 0 {
                        assert(lines[i] == rest[i - 1]);
                    }
                }
            },
        }
    } else if lines.len() > 0 {
        assert(line_holds(lines[0], address));
    }
}

/// The start that is found lies at or below the address: the address is in
/// the region that starts there.
pub proof fn lemma_section_start_below(maps: Seq<u8>, address: usize)
    ensures
        section_start(maps, address) matches Some(start) ==> start <= address,
{
    lemma_first_holding(lines_of(maps), address);
}

} // verus!
