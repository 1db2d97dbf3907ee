use backtrace_rust::backtrace::{Backtrace, BacktraceSymbol};
use backtrace_rust::capture::{Diagnostic, StopReason, Unwinder, Unwinding};
use backtrace_rust::image::{Executable, Linking, LoadError};
use backtrace_rust::register::{Arch, CpuSnapshot};
use backtrace_rust::symbolize::{probe_address, FrameRecord, SourceLocation};
use backtrace_rust::unwind::{
    return_address_register, CfaRule, ReturnAddressRule, UnwindStepInfo, UnwindTable,
};
use gimli::UnwindSection;
use std::collections::HashMap;

// ---- reading executables as a capture does ----

struct Loaded<'a> {
    executable: Executable<'a>,
    context: addr2line::Context<gimli::EndianRcSlice<gimli::RunTimeEndian>>,
}

fn load(image: &[u8]) -> Result<Loaded<'_>, LoadError> {
    let file = object::File::parse(image).ok();
    let executable = Executable::read(image, file.as_ref())?;
    let context = addr2line::Context::new(file.as_ref().unwrap()).unwrap();
    Ok(Loaded { executable, context })
}

fn chain_at(loaded: &Loaded, probe: Option<u64>) -> Vec<FrameRecord> {
    let mut chain = Vec::new();
    let probe = match probe {
        Some(probe) => probe,
        None => return chain,
    };
    if let Ok(mut frames) = loaded.context.find_frames(probe) {
        while let Ok(Some(frame)) = frames.next() {
            chain.push(FrameRecord {
                function: frame.function.and_then(|f| f.demangle().ok().map(|n| n.into_owned())),
                location: frame.location.map(|l| SourceLocation {
                    file: l.file.map(String::from),
                    line: l.line,
                    column: l.column,
                }),
            });
        }
    }
    chain
}

fn rules_at(table: &UnwindTable, arch: Arch, ip: usize) -> Option<UnwindStepInfo> {
    let endian =
        if table.little_endian { gimli::RunTimeEndian::Little } else { gimli::RunTimeEndian::Big };
    let mut section = gimli::EhFrame::new(&table.eh_frame, endian);
    section.set_address_size(table.address_size());
    let bases = gimli::BaseAddresses::default()
        .set_text(table.text_address)
        .set_eh_frame(table.eh_frame_address);
    let mut context = gimli::UninitializedUnwindContext::new();
    let row = section
        .unwind_info_for_address(
            &bases,
            &mut context,
            ip as u64,
            gimli::UnwindSection::cie_from_offset,
        )
        .ok()?;
    let cfa = match row.cfa() {
        gimli::CfaRule::RegisterAndOffset { register, offset } => {
            CfaRule::RegisterAndOffset { reg: register.0, offset: *offset }
        }
        gimli::CfaRule::Expression(_) => CfaRule::Expression,
    };
    let return_address = match row.register(gimli::Register(return_address_register(arch))) {
        gimli::RegisterRule::Offset(offset) => ReturnAddressRule::Offset(offset),
        _ => ReturnAddressRule::Unknown,
    };
    Some(UnwindStepInfo { cfa, return_address })
}

fn frames_at(loaded: &Loaded, address: usize) -> Vec<BacktraceSymbol> {
    let chain = chain_at(loaded, Some(address as u64));
    Backtrace::parse_frames(chain, &loaded.executable.symbol_table, address)
}

fn frames_returning_to(loaded: &Loaded, ip: usize) -> Vec<BacktraceSymbol> {
    let chain = chain_at(loaded, probe_address(ip));
    Backtrace::parse_frames(chain, &loaded.executable.symbol_table, ip)
}

// ---- building executables in memory ----

struct Function {
    name: &'static str,
    linkage_name: Option<&'static str>,
    start: u64,
    size: u64,
    line: u64,
    inlined: Vec<Inlined>,
}

struct Inlined {
    name: &'static str,
    start: u64,
    size: u64,
    call_line: u64,
    inlined: Vec<Inlined>,
}

struct Symbol {
    name: &'static str,
    start: u64,
    size: u64,
}

struct Layout {
    file_type: u16,
    language: gimli::DwLang,
    source: &'static str,
    functions: Vec<Function>,
    symbols: Vec<Symbol>,
    eh_frame: Vec<u8>,
}

fn function(name: &'static str, start: u64, size: u64, line: u64) -> Function {
    Function { name, linkage_name: None, start, size, line, inlined: Vec::new() }
}

fn push_u16(out: &mut Vec<u8>, value: u16) {
    out.extend_from_slice(&value.to_le_bytes());
}

fn push_u32(out: &mut Vec<u8>, value: u32) {
    out.extend_from_slice(&value.to_le_bytes());
}

fn push_u64(out: &mut Vec<u8>, value: u64) {
    out.extend_from_slice(&value.to_le_bytes());
}

struct Section {
    name: &'static str,
    kind: u32,
    flags: u64,
    address: u64,
    data: Vec<u8>,
    link: u32,
    info: u32,
    entry_size: u64,
}

fn plain_section(name: &'static str, data: Vec<u8>) -> Section {
    Section { name, kind: 1, flags: 0, address: 0, data, link: 0, info: 0, entry_size: 0 }
}

const TEXT_ADDRESS: u64 = 0x400;
const TEXT_SIZE: u64 = 0x10000;
const EH_FRAME_ADDRESS: u64 = 0x20000;

fn add_inlined(
    unit: &mut gimli::write::Unit,
    parent: gimli::write::UnitEntryId,
    file: gimli::write::FileId,
    inlined: &Inlined,
) {
    let root = unit.root();
    let origin = unit.add(root, gimli::DW_TAG_subprogram);
    unit.get_mut(origin).set(
        gimli::DW_AT_name,
        gimli::write::AttributeValue::String(inlined.name.as_bytes().to_vec()),
    );
    unit.get_mut(origin).set(
        gimli::DW_AT_inline,
        gimli::write::AttributeValue::Inline(gimli::DW_INL_inlined),
    );
    let entry = unit.add(parent, gimli::DW_TAG_inlined_subroutine);
    let die = unit.get_mut(entry);
    die.set(gimli::DW_AT_abstract_origin, gimli::write::AttributeValue::ThisUnitEntryRef(origin));
    die.set(
        gimli::DW_AT_low_pc,
        gimli::write::AttributeValue::Address(gimli::write::Address::Constant(inlined.start)),
    );
    die.set(gimli::DW_AT_high_pc, gimli::write::AttributeValue::Udata(inlined.size));
    die.set(gimli::DW_AT_call_file, gimli::write::AttributeValue::FileIndex(Some(file)));
    die.set(gimli::DW_AT_call_line, gimli::write::AttributeValue::Udata(inlined.call_line));
    for inner in &inlined.inlined {
        add_inlined(unit, entry, file, inner);
    }
}

fn debug_sections(layout: &Layout) -> Vec<Section> {
    if layout.functions.is_empty() {
        return Vec::new();
    }
    let encoding =
        gimli::Encoding { address_size: 8, format: gimli::Format::Dwarf32, version: 4 };
    let mut dwarf = gimli::write::DwarfUnit::new(encoding);
    let first = layout.functions.iter().map(|f| f.start).min().unwrap();
    let last = layout.functions.iter().map(|f| f.start + f.size).max().unwrap();
    let mut lines = gimli::write::LineProgram::new(
        encoding,
        gimli::LineEncoding::default(),
        gimli::write::LineString::String(b"/work".to_vec()),
        gimli::write::LineString::String(layout.source.as_bytes().to_vec()),
        None,
    );
    let directory = lines.default_directory();
    let file = lines.add_file(
        gimli::write::LineString::String(layout.source.as_bytes().to_vec()),
        directory,
        None,
    );
    lines.begin_sequence(Some(gimli::write::Address::Constant(first)));
    let mut ordered: Vec<&Function> = layout.functions.iter().collect();
    ordered.sort_by_key(|f| f.start);
    for function in ordered {
        lines.row().address_offset = function.start - first;
        lines.row().file = file;
        lines.row().line = function.line;
        lines.generate_row();
    }
    lines.end_sequence(last - first);
    dwarf.unit.line_program = lines;

    let root = dwarf.unit.root();
    {
        let die = dwarf.unit.get_mut(root);
        die.set(
            gimli::DW_AT_name,
            gimli::write::AttributeValue::String(layout.source.as_bytes().to_vec()),
        );
        die.set(gimli::DW_AT_comp_dir, gimli::write::AttributeValue::String(b"/work".to_vec()));
        die.set(gimli::DW_AT_language, gimli::write::AttributeValue::Language(layout.language));
        die.set(
            gimli::DW_AT_low_pc,
            gimli::write::AttributeValue::Address(gimli::write::Address::Constant(first)),
        );
        die.set(gimli::DW_AT_high_pc, gimli::write::AttributeValue::Udata(last - first));
    }
    for function in &layout.functions {
        let entry = dwarf.unit.add(root, gimli::DW_TAG_subprogram);
        let die = dwarf.unit.get_mut(entry);
        die.set(
            gimli::DW_AT_name,
            gimli::write::AttributeValue::String(function.name.as_bytes().to_vec()),
        );
        if let Some(linkage_name) = function.linkage_name {
            die.set(
                gimli::DW_AT_linkage_name,
                gimli::write::AttributeValue::String(linkage_name.as_bytes().to_vec()),
            );
        }
        die.set(
            gimli::DW_AT_low_pc,
            gimli::write::AttributeValue::Address(gimli::write::Address::Constant(function.start)),
        );
        die.set(gimli::DW_AT_high_pc, gimli::write::AttributeValue::Udata(function.size));
        for inlined in &function.inlined {
            add_inlined(&mut dwarf.unit, entry, file, inlined);
        }
    }
    let mut sections =
        gimli::write::Sections::new(gimli::write::EndianVec::new(gimli::LittleEndian));
    dwarf.write(&mut sections).unwrap();
    let mut out = Vec::new();
    sections
        .for_each(|id, data| -> Result<(), ()> {
            if !data.slice().is_empty() {
                out.push(plain_section(id.name(), data.slice().to_vec()));
            }
            Ok(())
        })
        .unwrap();
    out
}

fn executable_image(layout: &Layout) -> Vec<u8> {
    let mut sections = vec![
        Section {
            name: "",
            kind: 0,
            flags: 0,
            address: 0,
            data: Vec::new(),
            link: 0,
            info: 0,
            entry_size: 0,
        },
        Section {
            name: ".text",
            kind: 8,
            flags: 6,
            address: TEXT_ADDRESS,
            data: Vec::new(),
            link: 0,
            info: 0,
            entry_size: 0,
        },
        Section {
            name: ".eh_frame",
            kind: 1,
            flags: 2,
            address: EH_FRAME_ADDRESS,
            data: layout.eh_frame.clone(),
            link: 0,
            info: 0,
            entry_size: 0,
        },
    ];
    sections.extend(debug_sections(layout));
    let mut names = vec![0u8];
    let mut table = vec![0u8; 24];
    for symbol in &layout.symbols {
        push_u32(&mut table, names.len() as u32);
        names.extend_from_slice(symbol.name.as_bytes());
        names.push(0);
        table.push(0x12);
        table.push(0);
        push_u16(&mut table, 1);
        push_u64(&mut table, symbol.start);
        push_u64(&mut table, symbol.size);
    }
    let string_table = sections.len() as u32 + 1;
    sections.push(Section {
        name: ".symtab",
        kind: 2,
        flags: 0,
        address: 0,
        data: table,
        link: string_table,
        info: 1,
        entry_size: 24,
    });
    sections.push(Section {
        name: ".strtab",
        kind: 3,
        flags: 0,
        address: 0,
        data: names,
        link: 0,
        info: 0,
        entry_size: 0,
    });
    let mut section_names = vec![0u8];
    let mut name_offsets = Vec::new();
    for section in &sections {
        name_offsets.push(section_names.len() as u32);
        section_names.extend_from_slice(section.name.as_bytes());
        section_names.push(0);
    }
    name_offsets.push(section_names.len() as u32);
    section_names.extend_from_slice(b".shstrtab\0");
    sections.push(Section {
        name: ".shstrtab",
        kind: 3,
        flags: 0,
        address: 0,
        data: section_names,
        link: 0,
        info: 0,
        entry_size: 0,
    });

    let mut body = Vec::new();
    let mut offsets = Vec::new();
    for section in &sections {
        offsets.push(64 + 56 + body.len() as u64);
        body.extend_from_slice(&section.data);
    }
    let headers_at = 64 + 56 + body.len() as u64;

    let mut image = vec![0x7f, b'E', b'L', b'F', 2, 1, 1, 0, 0, 0, 0, 0, 0, 0, 0, 0];
    push_u16(&mut image, layout.file_type);
    push_u16(&mut image, 62);
    push_u32(&mut image, 1);
    push_u64(&mut image, TEXT_ADDRESS);
    push_u64(&mut image, 64);
    push_u64(&mut image, headers_at);
    push_u32(&mut image, 0);
    push_u16(&mut image, 64);
    push_u16(&mut image, 56);
    push_u16(&mut image, 1);
    push_u16(&mut image, 64);
    push_u16(&mut image, sections.len() as u16);
    push_u16(&mut image, sections.len() as u16 - 1);
    push_u32(&mut image, 1);
    push_u32(&mut image, 5);
    push_u64(&mut image, 0);
    push_u64(&mut image, 0);
    push_u64(&mut image, 0);
    push_u64(&mut image, headers_at);
    push_u64(&mut image, headers_at);
    push_u64(&mut image, 0x1000);
    image.extend_from_slice(&body);
    for (index, section) in sections.iter().enumerate() {
        push_u32(&mut image, name_offsets[index]);
        push_u32(&mut image, section.kind);
        push_u64(&mut image, section.flags);
        push_u64(&mut image, section.address);
        push_u64(&mut image, offsets[index]);
        push_u64(&mut image, if section.kind == 8 { TEXT_SIZE } else { section.data.len() as u64 });
        push_u32(&mut image, section.link);
        push_u32(&mut image, section.info);
        push_u64(&mut image, 1);
        push_u64(&mut image, section.entry_size);
    }
    image
}

fn eh_frame_for(functions: &[(u64, u32)]) -> Vec<u8> {
    eh_frame_with(functions, &[])
}

fn eh_frame_with(
    functions: &[(u64, u32)],
    special: &[(u64, u32, gimli::write::CallFrameInstruction)],
) -> Vec<u8> {
    let encoding =
        gimli::Encoding { address_size: 8, format: gimli::Format::Dwarf32, version: 1 };
    let mut table = gimli::write::FrameTable::default();
    let mut cie =
        gimli::write::CommonInformationEntry::new(encoding, 1, -8, gimli::Register(16));
    cie.add_instruction(gimli::write::CallFrameInstruction::Cfa(gimli::Register(7), 8));
    cie.add_instruction(gimli::write::CallFrameInstruction::Offset(gimli::Register(16), -8));
    let cie = table.add_cie(cie);
    for (start, length) in functions {
        table.add_fde(
            cie,
            gimli::write::FrameDescriptionEntry::new(
                gimli::write::Address::Constant(*start),
                *length,
            ),
        );
    }
    for (start, length, instruction) in special {
        let mut entry = gimli::write::FrameDescriptionEntry::new(
            gimli::write::Address::Constant(*start),
            *length,
        );
        entry.add_instruction(0, instruction.clone());
        table.add_fde(cie, entry);
    }
    let mut section = gimli::write::EhFrame(gimli::write::EndianVec::new(gimli::LittleEndian));
    table.write_eh_frame(&mut section).unwrap();
    section.0.into_vec()
}

fn binary_layout(binary: &str) -> Layout {
    match binary {
        "./tests/basic" => Layout {
            file_type: 3,
            language: gimli::DW_LANG_C99,
            source: "basic.c",
            functions: vec![
                function("foo", 0x5fa, 6, 1),
                function("bar", 0x600, 6, 5),
                function("tar", 0x606, 9, 9),
                function("main", 0x60f, 11, 14),
            ],
            symbols: vec![],
            eh_frame: Vec::new(),
        },
        "./tests/multithreaded_server" => Layout {
            file_type: 3,
            language: gimli::DW_LANG_Rust,
            source: "main.rs",
            functions: vec![
                function("main", 0xb670, 0x2ad, 9),
                function("handle_connection", 0xb920, 0x480, 40),
            ],
            symbols: vec![],
            eh_frame: Vec::new(),
        },
        _ => panic!("no such binary"),
    }
}

fn names(symbols: &[BacktraceSymbol]) -> Vec<String> {
    symbols.iter().map(|symbol| symbol.name().clone().unwrap()).collect()
}

fn get_function_name(binary: &str, address: usize) -> Result<String, LoadError> {
    let image = executable_image(&binary_layout(binary));
    let loaded = load(&image)?;
    let symbols = frames_at(&loaded, address);
    Ok(names(&symbols).remove(0))
}

#[test]
fn c_functions_basic_test1() {
    assert_eq!(get_function_name("./tests/basic", 0x5fb).unwrap(), "foo");
}

#[test]
fn c_functions_basic_test2() {
    assert_eq!(get_function_name("./tests/basic", 0x5ff).unwrap(), "foo");
}

#[test]
fn c_functions_basic_test3() {
    assert_eq!(get_function_name("./tests/basic", 0x601).unwrap(), "bar");
}

#[test]
fn c_functions_basic_test4() {
    assert_eq!(get_function_name("./tests/basic", 0x605).unwrap(), "bar");
}

#[test]
fn basic_test5() {
    assert_eq!(get_function_name("./tests/basic", 0x608).unwrap(), "tar");
}

#[test]
fn basic_test6() {
    assert_eq!(get_function_name("./tests/basic", 0x60e).unwrap(), "tar");
}

#[test]
fn basic_test7() {
    assert_eq!(get_function_name("./tests/basic", 0x60f).unwrap(), "main");
}

#[test]
fn basic_test8() {
    assert_eq!(get_function_name("./tests/basic", 0x619).unwrap(), "main");
}

#[test]
fn basic_test9() {
    // <__libc_csu_init> function
    assert_eq!(get_function_name("./tests/basic", 0x620).unwrap(), "Name unknown");
}

#[test]
fn rust_functions_basic_test1() {
    assert_eq!(get_function_name("./tests/multithreaded_server", 0xb670).unwrap(), "main");
}

#[test]
fn rust_functions_basic_test2() {
    assert_eq!(
        get_function_name("./tests/multithreaded_server", 0xb920).unwrap(),
        "handle_connection"
    );
}

#[test]
fn rust_functions_basic_test3() {
    assert_eq!(
        get_function_name("./tests/multithreaded_server", 0xb920 + 0x47f).unwrap(),
        "handle_connection"
    );
}

#[test]
fn rust_functions_basic_test4() {
    assert_eq!(get_function_name("./tests/multithreaded_server", 0xb670 + 0x2ac).unwrap(), "main");
}

#[test]
fn address_before_the_first_function_is_unknown() {
    assert_eq!(get_function_name("./tests/basic", 0x5f9).unwrap(), "Name unknown");
}

#[test]
fn every_address_of_a_function_resolves_to_it() {
    for address in 0x606..0x60f {
        assert_eq!(get_function_name("./tests/basic", address).unwrap(), "tar");
    }
}

#[test]
fn symbol_carries_file_and_line() {
    let image = executable_image(&binary_layout("./tests/basic"));
    let loaded = load(&image).unwrap();
    let symbols = frames_at(&loaded, 0x602);
    assert_eq!(symbols.len(), 1);
    assert_eq!(symbols[0].name().as_deref(), Some("bar"));
    assert_eq!(symbols[0].file().as_deref(), Some("/work/basic.c"));
    assert_eq!(symbols[0].line(), Some(5));
}

#[test]
fn return_address_is_resolved_at_the_byte_before_it() {
    let image = executable_image(&binary_layout("./tests/basic"));
    let loaded = load(&image).unwrap();
    let at_start = frames_returning_to(&loaded, 0x60f);
    assert_eq!(names(&at_start), vec!["tar"]);
    let at_end = frames_returning_to(&loaded, 0x61a);
    assert_eq!(names(&at_end), vec!["main"]);
    let inside = frames_returning_to(&loaded, 0x610);
    assert_eq!(names(&inside), vec!["main"]);
    let nowhere = frames_returning_to(&loaded, 0);
    assert_eq!(names(&nowhere), vec!["Name unknown"]);
}

fn inlined_layout() -> Layout {
    let tar = Inlined { name: "tar", start: 0x1420, size: 0x10, call_line: 30, inlined: vec![] };
    let bar =
        Inlined { name: "bar", start: 0x1418, size: 0x20, call_line: 20, inlined: vec![tar] };
    let foo =
        Inlined { name: "foo", start: 0x1410, size: 0x30, call_line: 10, inlined: vec![bar] };
    let mut main = function("main", 0x1400, 0x80, 50);
    main.inlined = vec![foo];
    Layout {
        file_type: 3,
        language: gimli::DW_LANG_C99,
        source: "inline.c",
        functions: vec![function("capture", 0x1000, 0x40, 3), main],
        symbols: vec![Symbol { name: "_start", start: 0x1500, size: 0x40 }],
        eh_frame: eh_frame_for(&[(0x1000, 0x40), (0x1400, 0x80)]),
    }
}

#[test]
fn inlined_chain_is_listed_outermost_first() {
    let image = executable_image(&inlined_layout());
    let loaded = load(&image).unwrap();
    let symbols = frames_at(&loaded, 0x1424);
    assert_eq!(names(&symbols), vec!["main", "foo", "bar", "tar"]);
    let partly = frames_at(&loaded, 0x1419);
    assert_eq!(names(&partly), vec!["main", "foo", "bar"]);
    let outside = frames_at(&loaded, 0x1450);
    assert_eq!(names(&outside), vec!["main"]);
}

#[test]
fn inlined_symbols_carry_their_call_sites() {
    let image = executable_image(&inlined_layout());
    let loaded = load(&image).unwrap();
    let symbols = frames_at(&loaded, 0x1424);
    let lines: Vec<Option<u32>> = symbols.iter().map(|symbol| symbol.line()).collect();
    assert_eq!(lines, vec![Some(10), Some(20), Some(30), Some(50)]);
    for symbol in &symbols {
        assert_eq!(symbol.file().as_deref(), Some("/work/inline.c"));
    }
}

fn symbols_only(symbols: Vec<Symbol>) -> Layout {
    Layout {
        file_type: 2,
        language: gimli::DW_LANG_C99,
        source: "none.c",
        functions: vec![],
        symbols,
        eh_frame: Vec::new(),
    }
}

#[test]
fn symbol_table_names_what_debug_information_does_not() {
    let image = executable_image(&symbols_only(vec![
        Symbol { name: "_ZN4test4main17h3778bc7a1687e186E", start: 0x2000, size: 0x20 },
        Symbol { name: "helper", start: 0x2020, size: 0x10 },
    ]));
    let loaded = load(&image).unwrap();
    let rust = frames_at(&loaded, 0x2004);
    assert_eq!(rust.len(), 1);
    assert_eq!(rust[0].name().as_deref(), Some("test::main"));
    assert_eq!(rust[0].file().as_deref(), None);
    assert_eq!(rust[0].line(), None);
    let plain = frames_at(&loaded, 0x2020);
    assert_eq!(names(&plain), vec!["helper"]);
    let beyond = frames_at(&loaded, 0x2030);
    assert_eq!(names(&beyond), vec!["Name unknown"]);
}

#[test]
fn symbol_table_lookup_reports_names_as_written() {
    let image = executable_image(&symbols_only(vec![Symbol {
        name: "_ZN4test4main17h3778bc7a1687e186E",
        start: 0x2000,
        size: 0x20,
    }]));
    let loaded = load(&image).unwrap();
    assert_eq!(
        loaded.executable.symbol_table.name_at(0x201f).as_deref(),
        Some("_ZN4test4main17h3778bc7a1687e186E")
    );
    assert_eq!(loaded.executable.symbol_table.name_at(0x1fff), None);
}

#[test]
fn trait_method_resolves_to_the_implementation() {
    let mut method = function("test", 0x3000, 0x40, 12);
    method.linkage_name =
        Some("_ZN48_$LT$test..MyStruct$u20$as$u20$test..MyTrait$GT$4test17h0123456789abcdefE");
    let layout = Layout {
        file_type: 3,
        language: gimli::DW_LANG_Rust,
        source: "test.rs",
        functions: vec![method],
        symbols: vec![],
        eh_frame: Vec::new(),
    };
    let image = executable_image(&layout);
    let loaded = load(&image).unwrap();
    let symbols = frames_at(&loaded, 0x3010);
    assert_eq!(names(&symbols), vec!["<test::MyStruct as test::MyTrait>::test"]);
}

#[test]
fn short_file_is_a_parse_error() {
    assert!(matches!(load(&[0x7f, b'E', b'L', b'F']).map(|_| ()), Err(LoadError::ObjectParseError)));
    assert!(matches!(load(&[]).map(|_| ()), Err(LoadError::ObjectParseError)));
}

#[test]
fn file_of_another_format_is_a_parse_error() {
    let image = [0x00, b'a', b's', b'm', 1, 0, 0, 0, 0x00, 0x06, 0x01, b'x', 1, 2, 3, 4];
    let file = object::File::parse(&image).ok();
    assert!(file.is_some());
    assert!(matches!(
        Executable::read(&image, file.as_ref()).map(|_| ()),
        Err(LoadError::ObjectParseError)
    ));
}

#[test]
fn parsed_file_is_held_against_the_bytes_given() {
    let image = executable_image(&binary_layout("./tests/basic"));
    let file = object::File::parse(&image).ok();
    assert!(Executable::read(&image, file.as_ref()).is_ok());
    assert!(matches!(
        Executable::read(&image[..16], file.as_ref()).map(|_| ()),
        Err(LoadError::ObjectParseError)
    ));
    assert!(matches!(
        Executable::read(&image[1..], file.as_ref()).map(|_| ()),
        Err(LoadError::ObjectParseError)
    ));
    assert!(matches!(
        Executable::read(&image, None).map(|_| ()),
        Err(LoadError::ObjectParseError)
    ));
}

#[test]
fn unknown_format_is_a_parse_error() {
    assert!(matches!(load(&[0u8; 64]).map(|_| ()), Err(LoadError::ObjectParseError)));
}

#[test]
fn symbol_beyond_the_address_space_is_a_parse_error() {
    let image = executable_image(&symbols_only(vec![Symbol {
        name: "wild",
        start: u64::MAX - 4,
        size: 16,
    }]));
    assert!(matches!(load(&image).map(|_| ()), Err(LoadError::ObjectParseError)));
}

#[test]
fn missing_eh_frame_is_reported() {
    let mut image = executable_image(&binary_layout("./tests/basic"));
    let at = image.windows(9).position(|bytes| bytes == b".eh_frame").unwrap();
    image[at + 1] = b'x';
    assert!(matches!(load(&image).map(|_| ()), Err(LoadError::MissingSection)));
}

#[test]
fn missing_text_is_reported() {
    let mut image = executable_image(&binary_layout("./tests/basic"));
    let at = image.windows(6).position(|bytes| bytes == b".text\0").unwrap();
    image[at + 1] = b'x';
    assert!(matches!(load(&image).map(|_| ()), Err(LoadError::MissingSection)));
}

#[test]
fn file_type_decides_linking() {
    let mut layout = binary_layout("./tests/basic");
    layout.file_type = 2;
    let image = executable_image(&layout);
    assert_eq!(load(&image).unwrap().executable.linking, Linking::Static);
    layout.file_type = 3;
    let image = executable_image(&layout);
    assert_eq!(load(&image).unwrap().executable.linking, Linking::Dynamic);
}

#[test]
fn unwind_table_is_taken_from_the_file() {
    let layout = plain_stack_layout();
    let image = executable_image(&layout);
    let loaded = load(&image).unwrap();
    assert_eq!(loaded.executable.unwind_table.eh_frame, layout.eh_frame);
    assert_eq!(loaded.executable.unwind_table.text_address, TEXT_ADDRESS);
    assert_eq!(loaded.executable.unwind_table.eh_frame_address, EH_FRAME_ADDRESS);
    assert!(loaded.executable.unwind_table.little_endian);
    assert!(loaded.executable.unwind_table.wide);
}

fn plain_stack_layout() -> Layout {
    Layout {
        file_type: 3,
        language: gimli::DW_LANG_C99,
        source: "stack.c",
        functions: vec![
            function("capture", 0x1000, 0x40, 3),
            function("tar", 0x1100, 0x40, 10),
            function("bar", 0x1200, 0x40, 20),
            function("foo", 0x1300, 0x40, 30),
            function("main", 0x1400, 0x40, 40),
        ],
        symbols: vec![Symbol { name: "_start", start: 0x1500, size: 0x40 }],
        eh_frame: eh_frame_for(&[
            (0x1000, 0x40),
            (0x1100, 0x40),
            (0x1200, 0x40),
            (0x1300, 0x40),
            (0x1400, 0x40),
        ]),
    }
}

#[test]
fn unwind_rules_are_read_from_eh_frame() {
    let image = executable_image(&plain_stack_layout());
    let loaded = load(&image).unwrap();
    let expected = UnwindStepInfo {
        cfa: CfaRule::RegisterAndOffset { reg: 7, offset: 8 },
        return_address: ReturnAddressRule::Offset(-8),
    };
    assert_eq!(rules_at(&loaded.executable.unwind_table, Arch::X86_64, 0x1000), Some(expected));
    assert_eq!(rules_at(&loaded.executable.unwind_table, Arch::X86_64, 0x123f), Some(expected));
    assert_eq!(rules_at(&loaded.executable.unwind_table, Arch::X86_64, 0x1240), None);
    assert_eq!(rules_at(&loaded.executable.unwind_table, Arch::X86_64, 0x1510), None);
    assert_eq!(
        rules_at(&loaded.executable.unwind_table, Arch::X86, 0x1000).map(|info| info.return_address),
        Some(ReturnAddressRule::Unknown)
    );
}

const BASE: usize = 0x5555_5555_4000;
const MAPS: &[u8] = b"555555554000-555555575000 r-xp 00000000 08:01 1311 /bin/app\n\
7ffd00000000-7ffd00021000 rw-p 00000000 00:00 0 [stack]\n";

fn run(
    loaded: &Loaded,
    snapshot: &CpuSnapshot,
    maps: &[u8],
    stack: &HashMap<usize, usize>,
) -> (Backtrace, StopReason, Vec<Diagnostic>) {
    let executable = &loaded.executable;
    let mut diagnostics = Vec::new();
    let mut state = Unwinder::start(executable.linking, Arch::X86_64, snapshot, maps);
    loop {
        state = match state {
            Unwinding::Ready(unwinder) => {
                let info = rules_at(&executable.unwind_table, unwinder.arch, unwinder.ip);
                let (next, diagnostic) = unwinder.step(info);
                diagnostics.extend(diagnostic);
                next
            }
            Unwinding::Read(pending) => {
                let word = stack[&pending.slot];
                let pending = pending.resume(word);
                let chain = chain_at(loaded, pending.probe);
                Unwinding::Ready(pending.resolve(chain, &executable.symbol_table))
            }
            Unwinding::Finished(backtrace, reason) => return (backtrace, reason, diagnostics),
        };
    }
}

fn frame_names(backtrace: &Backtrace) -> Vec<Vec<String>> {
    backtrace.frames().iter().map(|frame| names(frame.symbols())).collect()
}

#[test]
fn chain_without_inlining_gives_one_frame_per_function() {
    let image = executable_image(&plain_stack_layout());
    let loaded = load(&image).unwrap();
    let sp = 0x7ffd_0001_0000usize;
    let mut stack = HashMap::new();
    stack.insert(sp, BASE + 0x1110);
    stack.insert(sp + 8, BASE + 0x1210);
    stack.insert(sp + 16, BASE + 0x1310);
    stack.insert(sp + 24, BASE + 0x1410);
    stack.insert(sp + 32, BASE + 0x1510);
    let snapshot = CpuSnapshot { sp, pc: BASE + 0x1010 };
    let (backtrace, reason, diagnostics) = run(&loaded, &snapshot, MAPS, &stack);
    assert_eq!(reason, StopReason::EndOfStack);
    assert!(diagnostics.is_empty());
    assert_eq!(
        frame_names(&backtrace),
        vec![vec!["tar"], vec!["bar"], vec!["foo"], vec!["main"], vec!["_start"]]
    );
    for frame in backtrace.frames() {
        assert_eq!(frame.symbols().len(), 1);
    }
    let files: Vec<Option<String>> =
        backtrace.frames().iter().map(|frame| frame.symbols()[0].file().clone()).collect();
    let file = Some(String::from("/work/stack.c"));
    assert_eq!(files, vec![file.clone(), file.clone(), file.clone(), file, None]);
    let lines: Vec<Option<u32>> =
        backtrace.frames().iter().map(|frame| frame.symbols()[0].line()).collect();
    assert_eq!(lines, vec![Some(10), Some(20), Some(30), Some(40), None]);
}

#[test]
fn every_frame_has_a_symbol_and_every_file_its_line() {
    let image = executable_image(&inlined_layout());
    let loaded = load(&image).unwrap();
    let sp = 0x7ffd_0001_0000usize;
    let mut stack = HashMap::new();
    stack.insert(sp, BASE + 0x1428);
    stack.insert(sp + 8, BASE + 0x9000);
    let snapshot = CpuSnapshot { sp, pc: BASE + 0x1010 };
    let (backtrace, _, _) = run(&loaded, &snapshot, MAPS, &stack);
    assert_eq!(backtrace.frames().len(), 2);
    for frame in backtrace.frames() {
        assert!(!frame.symbols().is_empty());
        for symbol in frame.symbols() {
            assert!(symbol.file().is_none() || symbol.line().is_some());
        }
    }
    assert_eq!(frame_names(&backtrace)[1], vec!["Name unknown"]);
}

#[test]
fn inlined_chain_gives_a_single_frame() {
    let image = executable_image(&inlined_layout());
    let loaded = load(&image).unwrap();
    let sp = 0x7ffd_0001_0000usize;
    let mut stack = HashMap::new();
    stack.insert(sp, BASE + 0x1428);
    stack.insert(sp + 8, BASE + 0x1510);
    let snapshot = CpuSnapshot { sp, pc: BASE + 0x1010 };
    let (backtrace, reason, _) = run(&loaded, &snapshot, MAPS, &stack);
    assert_eq!(reason, StopReason::EndOfStack);
    assert_eq!(
        frame_names(&backtrace),
        vec![vec!["main", "foo", "bar", "tar"], vec!["_start"]]
    );
    assert_eq!(
        backtrace.render(),
        "   0: main\n             at /work/inline.c:10\n      foo\n             at /work/inline.c:20\n      bar\n             at /work/inline.c:30\n      tar\n             at /work/inline.c:50\n   1: _start\n"
    );
}

#[test]
fn static_executable_is_unwound_without_a_base() {
    let mut layout = plain_stack_layout();
    layout.file_type = 2;
    let image = executable_image(&layout);
    let loaded = load(&image).unwrap();
    let sp = 0x7ffd_0001_0000usize;
    let mut stack = HashMap::new();
    stack.insert(sp, 0x1110);
    stack.insert(sp + 8, 0x1510);
    let snapshot = CpuSnapshot { sp, pc: 0x1010 };
    let (backtrace, reason, _) = run(&loaded, &snapshot, b"", &stack);
    assert_eq!(reason, StopReason::EndOfStack);
    assert_eq!(frame_names(&backtrace), vec![vec!["tar"], vec!["_start"]]);
}

#[test]
fn trace_ends_where_no_region_holds_the_program_counter() {
    let image = executable_image(&plain_stack_layout());
    let loaded = load(&image).unwrap();
    let snapshot = CpuSnapshot { sp: 0x7ffd_0001_0000, pc: 0x1010 };
    let (backtrace, reason, _) = run(&loaded, &snapshot, MAPS, &HashMap::new());
    assert_eq!(reason, StopReason::OutOfSection);
    assert!(backtrace.frames().is_empty());
}

#[test]
fn captured_program_counter_gets_no_frame() {
    let image = executable_image(&plain_stack_layout());
    let loaded = load(&image).unwrap();
    let snapshot = CpuSnapshot { sp: 0x7ffd_0001_0000, pc: BASE + 0x1510 };
    let (backtrace, reason, _) = run(&loaded, &snapshot, MAPS, &HashMap::new());
    assert_eq!(reason, StopReason::EndOfStack);
    assert!(backtrace.frames().is_empty());
}

#[test]
fn expression_for_the_cfa_is_reported_and_passed_over() {
    let mut layout = plain_stack_layout();
    layout.eh_frame = eh_frame_with(
        &[(0x1100, 0x40)],
        &[(
            0x1000,
            0x40,
            gimli::write::CallFrameInstruction::CfaExpression(gimli::write::Expression(vec![
                0x77, 0x08,
            ])),
        )],
    );
    let image = executable_image(&layout);
    let loaded = load(&image).unwrap();
    assert_eq!(
        rules_at(&loaded.executable.unwind_table, Arch::X86_64, 0x1010),
        Some(UnwindStepInfo {
            cfa: CfaRule::Expression,
            return_address: ReturnAddressRule::Offset(-8)
        })
    );
    let sp = 0x7ffd_0001_0000usize;
    let mut stack = HashMap::new();
    stack.insert(sp - 8, BASE + 0x1110);
    stack.insert(sp, BASE + 0x1510);
    let snapshot = CpuSnapshot { sp, pc: BASE + 0x1010 };
    let (backtrace, reason, diagnostics) = run(&loaded, &snapshot, MAPS, &stack);
    assert_eq!(diagnostics, vec![Diagnostic::CfaExpression]);
    assert_eq!(Diagnostic::CfaExpression.message(), "TO BE IMPLEMENTED");
    assert_eq!(reason, StopReason::EndOfStack);
    assert_eq!(frame_names(&backtrace), vec![vec!["tar"], vec!["_start"]]);
}

#[test]
fn unsupported_return_address_rule_ends_the_trace() {
    let mut layout = plain_stack_layout();
    layout.eh_frame = eh_frame_with(
        &[(0x1000, 0x40)],
        &[(0x1100, 0x40, gimli::write::CallFrameInstruction::Undefined(gimli::Register(16)))],
    );
    let image = executable_image(&layout);
    let loaded = load(&image).unwrap();
    let sp = 0x7ffd_0001_0000usize;
    let mut stack = HashMap::new();
    stack.insert(sp, BASE + 0x1110);
    let snapshot = CpuSnapshot { sp, pc: BASE + 0x1010 };
    let (backtrace, reason, _) = run(&loaded, &snapshot, MAPS, &stack);
    assert_eq!(reason, StopReason::UnsupportedCfaRule);
    assert_eq!(frame_names(&backtrace), vec![vec!["tar"]]);
}
