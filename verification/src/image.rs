//! The executable file as the unwinder needs it: symbol table, call-frame
//! information, and how it was linked.
//!
//! Parsing the file is the caller's part. [`Executable::read`] asks the
//! parsed file for its [`ObjectFacts`] and its symbol map, and
//! [`Executable::assemble`] holds these against the file itself and cuts
//! the call-frame information out of it.

use crate::symbol_table::{extents_fit, symbol_extents, SymbolTable};
use crate::unwind::UnwindTable;
use vstd::prelude::*;
use vstd::slice::{slice_subrange, slice_to_vec};

verus! {

/// How an executable was linked, which decides where it is loaded.
#[derive(Clone, Copy, Debug, PartialEq, Eq, Structural)]
pub enum Linking {
    /// Loaded at the addresses the file names: runtime and static
    /// addresses are the same.
    Static,
    /// Loaded wherever the system chose: runtime addresses lie a load base
    /// above the static ones.
    Dynamic,
}

/// Why an executable could not be taken in.
#[derive(Clone, Copy, Debug, PartialEq, Eq, Structural)]
pub enum LoadError {
    /// The file or its symbol table cannot be parsed.
    ObjectParseError,
    /// The file has no `.text` or no `.eh_frame` section.
    MissingSection,
}

/// Where in the ELF header the type of the file stands.
pub const ELF_TYPE_OFFSET: usize = 0x10;

/// The file type of an executable with fixed addresses.
pub const ET_EXEC: u8 = 0x02;

/// What the object reader tells of an executable file.
pub struct ObjectFacts {
    /// The byte order of the file.
    pub little_endian: bool,
    /// Whether the file holds 64-bit addresses.
    pub wide: bool,
    /// Offset and size, in the file, of the first loadable segment.
    pub first_segment: Option<(u64, u64)>,
    /// The static address of `.text`.
    pub text_address: Option<u64>,
    /// The static address of `.eh_frame`.
    pub eh_frame_address: Option<u64>,
    /// Offset and size, in the file, of `.eh_frame`; `None` where the
    /// section takes no room in the file.
    pub eh_frame_range: Option<(u64, u64)>,
}

/// `object::File`, a parsed object file: known by what the names below say
/// it holds.
#[verifier::external_type_specification]
#[verifier::external_body]
pub struct ExObjectFile<'data>(object::File<'data>);

/// Whether a parsed file was parsed as an ELF file: whether
/// `object::File::format` is `Elf`.
pub uninterp spec fn elf_format(file: object::File) -> bool;

/// The byte order of a parsed file: `object::Object::is_little_endian`.
pub uninterp spec fn little_endian_held(file: object::File) -> bool;

/// Whether a parsed file holds 64-bit addresses: `object::Object::is_64`.
pub uninterp spec fn wide_held(file: object::File) -> bool;

/// Offset and size, in the file, of the first loadable segment of a parsed
/// file, if it has one: `object::ObjectSegment::file_range` of the first of
/// `object::Object::segments`.
pub uninterp spec fn first_segment_held(file: object::File) -> Option<(u64, u64)>;

/// The address of the section with the given name in a parsed file, if
/// there is one: `object::ObjectSection::address` of
/// `object::Object::section_by_name`.
pub uninterp spec fn section_address_held(file: object::File, name: Seq<char>) -> Option<u64>;

/// Offset and size, in the file, of the section with the given name in a
/// parsed file; `None` where there is no such section or it takes no room
/// in the file: `object::ObjectSection::file_range` of
/// `object::Object::section_by_name`.
pub uninterp spec fn section_range_held(file: object::File, name: Seq<char>) -> Option<
    (u64, u64),
>;

/// Start and size of each symbol in the symbol map of a parsed file:
/// [`symbol_extents`] of `object::Object::symbol_map`.
pub uninterp spec fn symbols_held(file: object::File) -> Seq<(u64, u64)>;

/// What a parsed file tells of itself.
pub open spec fn facts_held(file: object::File) -> ObjectFacts {
    ObjectFacts {
        little_endian: little_endian_held(file),
        wide: wide_held(file),
        first_segment: first_segment_held(file),
        text_address: section_address_held(file, ".text"@),
        eh_frame_address: section_address_held(file, ".eh_frame"@),
        eh_frame_range: section_range_held(file, ".eh_frame"@),
    }
}

/// `object::File::format`, held against `Elf`.
#[verifier::external_body]
fn is_elf_format(file: &object::File) -> (yes: bool)
    ensures
        yes == elf_format(*file),
{
    matches!(file.format(), object::target_lexicon::BinaryFormat::Elf)
}

/// `object::Object::is_little_endian` of a file that was parsed as an ELF
/// file.
#[verifier::external_body]
fn is_little_endian(file: &object::File) -> (yes: bool)
    requires
        elf_format(*file),
    ensures
        yes == little_endian_held(*file),
{
    object::Object::is_little_endian(file)
}

/// `object::Object::is_64` of a file that was parsed as an ELF file.
#[verifier::external_body]
fn is_wide(file: &object::File) -> (yes: bool)
    requires
        elf_format(*file),
    ensures
        yes == wide_held(*file),
{
    object::Object::is_64(file)
}

/// `object::ObjectSegment::file_range` of the first of
/// `object::Object::segments`, of a file that was parsed as an ELF file.
#[verifier::external_body]
fn first_segment_range(file: &object::File) -> (range: Option<(u64, u64)>)
    requires
        elf_format(*file),
    ensures
        range == first_segment_held(*file),
{
    object::Object::segments(file).next().map(|segment| object::ObjectSegment::file_range(&segment))
}

/// `object::ObjectSection::address` of `object::Object::section_by_name`,
/// of a file that was parsed as an ELF file.
#[verifier::external_body]
fn section_address(file: &object::File, name: &str) -> (address: Option<u64>)
    requires
        elf_format(*file),
    ensures
        address == section_address_held(*file, name@),
{
    object::Object::section_by_name(file, name).map(|section| object::ObjectSection::address(&section))
}

/// `object::ObjectSection::file_range` of `object::Object::section_by_name`,
/// of a file that was parsed as an ELF file.
#[verifier::external_body]
fn section_file_range(file: &object::File, name: &str) -> (range: Option<(u64, u64)>)
    requires
        elf_format(*file),
    ensures
        range == section_range_held(*file, name@),
{
    object::Object::section_by_name(file, name).and_then(|section| object::ObjectSection::file_range(&section))
}

/// `object::Object::symbol_map` of a file that was parsed as an ELF file.
#[verifier::external_body]
fn read_symbol_map<'data>(file: &object::File<'data>) -> (map: object::SymbolMap<'data>)
    requires
        elf_format(*file),
    ensures
        symbol_extents(map) == symbols_held(*file),
{
    object::Object::symbol_map(file)
}

/// Whether a file starts as an ELF file does: with the byte 0x7f and the
/// letters `ELF`.
pub open spec fn starts_as_elf(image: Seq<u8>) -> bool {
    image.len() >= 4 && image[0] == 0x7f && image[1] == 0x45 && image[2] == 0x4c && image[3]
        == 0x46
}

/// The part of `image` that starts at `range.0` and has `range.1` bytes.
pub open spec fn file_part(image: Seq<u8>, range: (u64, u64)) -> Option<Seq<u8>> {
    if range.0 + range.1 <= image.len() {
        Some(image.subrange(range.0 as int, range.0 + range.1))
    } else {
        None
    }
}

/// The linking that an ELF header shows: static where the type of the file
/// is `ET_EXEC`, dynamic otherwise. `None` where the header is cut short.
pub open spec fn linking_shown(header: Seq<u8>) -> Option<Linking> {
    if header.len() > ELF_TYPE_OFFSET {
        Some(
            if header[ELF_TYPE_OFFSET as int] == ET_EXEC {
                Linking::Static
            } else {
                Linking::Dynamic
            },
        )
    } else {
        None
    }
}

/// The linking of the executable `image`, read from its first loadable
/// segment, which starts with the ELF header.
pub open spec fn linking_in(image: Seq<u8>, first_segment: Option<(u64, u64)>) -> Option<
    Linking,
> {
    match first_segment {
        Some(range) => match file_part(image, range) {
            Some(header) => linking_shown(header),
            None => None,
        },
        None => None,
    }
}

/// The bytes of `.eh_frame` in `image`: none where the section takes no
/// room in the file.
pub open spec fn eh_frame_in(image: Seq<u8>, range: Option<(u64, u64)>) -> Option<Seq<u8>> {
    match range {
        Some(range) => file_part(image, range),
        None => Some(Seq::empty()),
    }
}

/// The part of `image` that starts at `range.0` and has `range.1` bytes,
/// if the image reaches that far.
pub fn part_of_file<'a>(image: &'a [u8], range: (u64, u64)) -> (part: Option<&'a [u8]>)
    ensures
        match part {
            Some(part) => file_part(image@, range) == Some(part@),
            None => file_part(image@, range) is None,
        },
{
    let (offset, size) = range;
    let len = image.len();
    match offset.checked_add(size) {
        Some(end) => {
            if end <= len as u64 {
                let part = slice_subrange(image, offset as usize, end as usize);
                assert(part@ == image@.subrange(offset as int, offset + size));
                Some(part)
            } else {
                None
            }
        },
        None => None,
    }
}

/// Whether a file starts as an ELF file does.
pub fn is_elf(image: &[u8]) -> (yes: bool)
    ensures
        yes == starts_as_elf(image@),
{
    image.len() >= 4 && image[0] == 0x7f && image[1] == 0x45 && image[2] == 0x4c && image[3]
        == 0x46
}

/// The linking that an ELF header shows.
pub fn linking_of(header: &[u8]) -> (linking: Option<Linking>)
    ensures
        linking == linking_shown(header@),
{
    if header.len() > ELF_TYPE_OFFSET {
        if header[ELF_TYPE_OFFSET] == ET_EXEC {
            Some(Linking::Static)
        } else {
            Some(Linking::Dynamic)
        }
    } else {
        None
    }
}

/// An executable, taken in for unwinding and symbol resolution.
pub struct Executable<'data> {
    pub symbol_table: SymbolTable<'data>,
    pub unwind_table: UnwindTable,
    pub linking: Linking,
}

/// The call-frame information and the linking of the executable `image`,
/// given what the object reader tells of it: the bytes of `.eh_frame`, the
/// addresses of `.text` and `.eh_frame`, and the linking. Anything but an
/// ELF file is a parse error. A missing `.text` or `.eh_frame` is reported
/// as such; a section or header that the file does not hold in full as a
/// parse error.
pub open spec fn layout_of(image: Seq<u8>, facts: ObjectFacts) -> Result<
    (Seq<u8>, u64, u64, Linking),
    LoadError,
> {
    if !starts_as_elf(image) {
        Err(LoadError::ObjectParseError)
    } else if facts.text_address is None || facts.eh_frame_address is None {
        Err(LoadError::MissingSection)
    } else if eh_frame_in(image, facts.eh_frame_range) is None || linking_in(
        image,
        facts.first_segment,
    ) is None {
        Err(LoadError::ObjectParseError)
    } else {
        Ok(
            (
                eh_frame_in(image, facts.eh_frame_range).unwrap(),
                facts.text_address.unwrap(),
                facts.eh_frame_address.unwrap(),
                linking_in(image, facts.first_segment).unwrap(),
            ),
        )
    }
}

impl<'data> Executable<'data> {
    /// Takes in the executable whose file holds the bytes `image` and was
    /// parsed as `file` (or could not be parsed, where there is none).
    ///
    /// A file that was not parsed, or not as an ELF file, is a parse error.
    /// For the others, what `file` tells of itself is held against `image`
    /// as [`Executable::assemble`] says: a file without `.text` or without
    /// `.eh_frame` is reported as missing a section, one that is cut short
    /// or whose symbols reach beyond the address space as a parse error,
    /// and every other file gives an executable.
    pub fn read(image: &[u8], file: Option<&object::File<'data>>) -> (executable: Result<
        Executable<'data>,
        LoadError,
    >)
        ensures
            match file {
                Some(file) if elf_format(*file) => match layout_of(image@, facts_held(*file)) {
                    Err(error) => executable == Err::<Executable<'data>, _>(error),
                    Ok(layout) => if extents_fit(symbols_held(*file)) {
                        &&& executable matches Ok(loaded)
                        &&& layout == (
                            loaded.unwind_table.eh_frame@,
                            loaded.unwind_table.text_address,
                            loaded.unwind_table.eh_frame_address,
                            loaded.linking,
                        )
                        &&& loaded.unwind_table.little_endian == little_endian_held(*file)
                        &&& loaded.unwind_table.wide == wide_held(*file)
                        &&& symbol_extents(loaded.symbol_table.map()) == symbols_held(*file)
                    } else {
                        executable == Err::<Executable<'data>, _>(LoadError::ObjectParseError)
                    },
                },
                _ => executable == Err::<Executable<'data>, _>(LoadError::ObjectParseError),
            },
    {
        let file = match file {
            Some(file) => file,
            None => { return Err(LoadError::ObjectParseError); },
        };
        if !is_elf_format(file) {
            return Err(LoadError::ObjectParseError);
        }
        let facts = ObjectFacts {
            little_endian: is_little_endian(file),
            wide: is_wide(file),
            first_segment: first_segment_range(file),
            text_address: section_address(file, ".text"),
            eh_frame_address: section_address(file, ".eh_frame"),
            eh_frame_range: section_file_range(file, ".eh_frame"),
        };
        let symbol_map = read_symbol_map(file);
        Executable::assemble(image, Some(facts), Some(symbol_map))
    }

    /// Puts an executable together from its file `image` and what the
    /// object reader made of it: the `facts` and the symbol map, or nothing
    /// where it could not parse the file.
    ///
    /// A file that was not parsed is a parse error, as is anything but an
    /// ELF file, a file that does not hold in full its `.eh_frame` or the
    /// header its first segment starts with, and a symbol map with a symbol
    /// that reaches beyond the address space. A file without `.text` or
    /// without `.eh_frame` is reported as missing a section. Every other
    /// file gives an executable.
    pub fn assemble(
        image: &[u8],
        facts: Option<ObjectFacts>,
        symbol_map: Option<object::SymbolMap<'data>>,
    ) -> (executable: Result<Executable<'data>, LoadError>)
        ensures
            match (facts, symbol_map) {
                (Some(facts), Some(symbol_map)) => match layout_of(image@, facts) {
                    Err(error) => executable == Err::<Executable<'data>, _>(error),
                    Ok(layout) => if extents_fit(symbol_extents(symbol_map)) {
                        &&& executable matches Ok(loaded)
                        &&& layout == (
                            loaded.unwind_table.eh_frame@,
                            loaded.unwind_table.text_address,
                            loaded.unwind_table.eh_frame_address,
                            loaded.linking,
                        )
                        &&& loaded.unwind_table.little_endian == facts.little_endian
                        &&& loaded.unwind_table.wide == facts.wide
                        &&& loaded.symbol_table.map() == symbol_map
                    } else {
                        executable == Err::<Executable<'data>, _>(LoadError::ObjectParseError)
                    },
                },
                _ => executable == Err::<Executable<'data>, _>(LoadError::ObjectParseError),
            },
    {
        let (facts, symbol_map) = match (facts, symbol_map) {
            (Some(facts), Some(symbol_map)) => (facts, symbol_map),
            _ => { return Err(LoadError::ObjectParseError); },
        };
        if !is_elf(image) {
            return Err(LoadError::ObjectParseError);
        }
        let (text_address, eh_frame_address) = match (facts.text_address, facts.eh_frame_address) {
            (Some(text), Some(eh_frame)) => (text, eh_frame),
            _ => { return Err(LoadError::MissingSection); },
        };
        let eh_frame: Vec<u8> = match facts.eh_frame_range {
            Some(range) => match part_of_file(image, range) {
                Some(part) => slice_to_vec(part),
                None => { return Err(LoadError::ObjectParseError); },
            },
            None => Vec::new(),
        };
        let linking = match facts.first_segment {
            Some(range) => match part_of_file(image, range) {
                Some(header) => match linking_of(header) {
                    Some(linking) => linking,
                    None => { return Err(LoadError::ObjectParseError); },
                },
                None => { return Err(LoadError::ObjectParseError); },
            },
            None => { return Err(LoadError::ObjectParseError); },
        };
        match SymbolTable::new(symbol_map) {
            Some(symbol_table) => Ok(
                Executable {
                    symbol_table,
                    unwind_table: UnwindTable {
                        eh_frame,
                        little_endian: facts.little_endian,
                        wide: facts.wide,
                        text_address,
                        eh_frame_address,
                    },
                    linking,
                },
            ),
            None => Err(LoadError::ObjectParseError),
        }
    }
}

} // verus!
