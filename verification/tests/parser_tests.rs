use macho_vm::errors::{FormatError, LoadError};
use macho_vm::macho::Bin;
use macho_vm::parser::Macho;

fn push_u32(v: &mut Vec<u8>, x: u32) {
    v.extend_from_slice(&x.to_le_bytes());
}

fn push_u64(v: &mut Vec<u8>, x: u64) {
    v.extend_from_slice(&x.to_le_bytes());
}

fn push_name16(v: &mut Vec<u8>, name: &[u8]) {
    let mut field = [0u8; 16];
    field[..name.len()].copy_from_slice(name);
    v.extend_from_slice(&field);
}

fn header(ncmds: u32, sizeofcmds: u32) -> Vec<u8> {
    let mut v = Vec::new();
    push_u32(&mut v, 0xFEEDFACE);
    push_u32(&mut v, 7); // cpu type
    push_u32(&mut v, 3); // cpu subtype
    push_u32(&mut v, 2); // file type
    push_u32(&mut v, ncmds);
    push_u32(&mut v, sizeofcmds);
    push_u32(&mut v, 0x85); // flags
    v
}

/// One segment load command with `sections` (name, address, size, offset,
/// alignment) section headers.
fn segment_cmd(name: &[u8], vm_address: u32, sections: &[(&[u8], u32, u32, u32, u32)]) -> Vec<u8> {
    let mut v = Vec::new();
    let size = 56 + 68 * sections.len() as u32;
    push_u32(&mut v, 1); // LC_SEGMENT
    push_u32(&mut v, size);
    push_name16(&mut v, name);
    push_u32(&mut v, vm_address);
    push_u32(&mut v, 0x2000); // vm size
    push_u32(&mut v, 0); // file offset
    push_u32(&mut v, 0x2000); // file size
    push_u32(&mut v, 7); // max protection
    push_u32(&mut v, 5); // initial protection
    push_u32(&mut v, sections.len() as u32);
    push_u32(&mut v, 0); // flags
    for (sname, address, ssize, offset, alignment) in sections {
        push_name16(&mut v, sname);
        push_name16(&mut v, b"SEGFIELD"); // the 16..32 field, which the reader ignores
        push_u32(&mut v, *address);
        push_u32(&mut v, *ssize);
        push_u32(&mut v, *offset);
        push_u32(&mut v, *alignment);
        for _ in 0..5 {
            push_u32(&mut v, 0); // relocations and reserved words
        }
    }
    assert_eq!(v.len() as u32, size);
    v
}

fn unixthread_cmd(registers: &[u32; 16]) -> Vec<u8> {
    let mut v = Vec::new();
    push_u32(&mut v, 5); // LC_UNIXTHREAD
    push_u32(&mut v, 80);
    push_u32(&mut v, 1); // flavor
    push_u32(&mut v, 16); // count
    for r in registers {
        push_u32(&mut v, *r);
    }
    assert_eq!(v.len(), 80);
    v
}

fn lc_main_cmd(entry_offset: u64, stack_size: u64) -> Vec<u8> {
    let mut v = Vec::new();
    push_u32(&mut v, 0x80000028);
    push_u32(&mut v, 24);
    push_u64(&mut v, entry_offset);
    push_u64(&mut v, stack_size);
    assert_eq!(v.len(), 24);
    v
}

/// A well-formed image: one `__TEXT` segment with a `__text` section and a
/// unix-thread command. `text` is placed at file offset 0x200.
fn simple_image(registers: &[u32; 16], text: &[u8]) -> Vec<u8> {
    let seg = segment_cmd(
        b"__TEXT",
        0x1000,
        &[(b"__text", 0x1000, text.len() as u32, 0x200, 2)],
    );
    let ut = unixthread_cmd(registers);
    let mut v = header(2, (seg.len() + ut.len()) as u32);
    v.extend_from_slice(&seg);
    v.extend_from_slice(&ut);
    v.resize(0x200, 0);
    v.extend_from_slice(text);
    v
}

#[test]
fn parse_header_reads_little_endian_words() {
    let bytes = header(3, 0x188);
    let h = Macho::new(bytes).parse_header().unwrap();
    assert_eq!(h.magic, 0xFEEDFACE);
    assert_eq!(h.cpu_type, 7);
    assert_eq!(h.cpu_subtype, 3);
    assert_eq!(h.file_type, 2);
    assert_eq!(h.load_commands_count, 3);
    assert_eq!(h.load_commands_size, 0x188);
    assert_eq!(h.flags, 0x85);
}

#[test]
fn parse_header_truncated() {
    assert_eq!(
        Macho::new(vec![]).parse_header(),
        Err(FormatError::TruncatedHeader)
    );
    assert_eq!(
        Macho::new(vec![0xCE, 0xFA]).parse_header(),
        Err(FormatError::TruncatedHeader)
    );
    // The magic word alone can be read, but the header cannot.
    assert_eq!(
        Macho::new(vec![0xCE, 0xFA, 0xED, 0xFE, 0x07]).parse_header(),
        Err(FormatError::TruncatedHeader)
    );
}

#[test]
fn parse_header_invalid_magic() {
    let mut bytes = header(1, 80);
    bytes[0] = 0xCF;
    assert_eq!(
        Macho::new(bytes).parse_header(),
        Err(FormatError::InvalidMagic)
    );
    // The magic is checked before the rest of the header is required.
    assert_eq!(
        Macho::new(vec![0, 0, 0, 0, 1]).parse_header(),
        Err(FormatError::InvalidMagic)
    );
    // Big-endian magic is a different first word, hence rejected.
    assert_eq!(
        Macho::new(vec![0xFE, 0xED, 0xFA, 0xCE, 0, 0, 0, 0]).parse_header(),
        Err(FormatError::InvalidMagic)
    );
}

#[test]
fn parse_bin_segment_and_thread() {
    let regs: [u32; 16] = [1, 2, 3, 4, 5, 6, 7, 8, 9, 10, 11, 12, 13, 14, 15, 16];
    let text = [0x90u8; 16];
    let bin = Macho::parse_bin(&simple_image(&regs, &text)).unwrap();

    assert_eq!(bin.header.load_commands_count, 2);
    assert_eq!(bin.load_commands.segments.len(), 1);
    let seg = &bin.load_commands.segments[0];
    assert_eq!(seg.name, b"__TEXT".to_vec());
    assert_eq!(seg.vm_address, 0x1000);
    assert_eq!(seg.vm_sizes, 0x2000);
    assert_eq!(seg.file_offset, 0);
    assert_eq!(seg.file_size, 0x2000);
    assert_eq!(seg.max_vm_protection, 7);
    assert_eq!(seg.initial_vm_protection, 5);
    assert_eq!(seg.number_of_sections, 1);
    assert_eq!(seg.section_headers.len(), 1);
    let sec = &seg.section_headers[0];
    assert_eq!(sec.section_name, b"__text".to_vec());
    // Both name fields come from the same leading 16 bytes.
    assert_eq!(sec.segment_name, b"__text".to_vec());
    assert_eq!(sec.address, 0x1000);
    assert_eq!(sec.size, 16);
    assert_eq!(sec.offset, 0x200);
    assert_eq!(sec.alignment, 2);

    let ut = bin.load_commands.unixthread.as_ref().unwrap();
    assert_eq!(ut.flavor, 1);
    assert_eq!(ut.count, 16);
    assert_eq!(ut.registers.eax, 1);
    assert_eq!(ut.registers.ebx, 2);
    assert_eq!(ut.registers.ecx, 3);
    assert_eq!(ut.registers.edx, 4);
    assert_eq!(ut.registers.edi, 5);
    assert_eq!(ut.registers.esi, 6);
    assert_eq!(ut.registers.ebp, 7);
    assert_eq!(ut.registers.esp, 8);
    assert_eq!(ut.registers.ss, 9);
    assert_eq!(ut.registers.eflags, 10);
    assert_eq!(ut.registers.eip, 11);
    assert_eq!(ut.registers.cs, 12);
    assert_eq!(ut.registers.ds, 13);
    assert_eq!(ut.registers.es, 14);
    assert_eq!(ut.registers.fs, 15);
    assert_eq!(ut.registers.gs, 16);
    assert!(bin.load_commands.main.is_none());
    assert!(bin.load_commands.unsupported.is_empty());
}

#[test]
fn parse_bin_entry_point_command() {
    let seg = segment_cmd(b"__TEXT", 0x1000, &[(b"__text", 0x1000, 4, 0x100, 0)]);
    let main = lc_main_cmd(0x20, 0x80000);
    let mut v = header(2, (seg.len() + main.len()) as u32);
    v.extend_from_slice(&seg);
    v.extend_from_slice(&main);
    v.resize(0x104, 0);

    let bin = Macho::parse_bin(&v).unwrap();
    let m = bin.load_commands.main.as_ref().unwrap();
    assert_eq!(m.entry_offset, 0x20);
    assert_eq!(m.stack_size, 0x80000);
    assert!(bin.load_commands.unixthread.is_none());
}

#[test]
fn parse_bin_missing_entry_state() {
    let seg = segment_cmd(b"__TEXT", 0x1000, &[]);
    let mut v = header(1, seg.len() as u32);
    v.extend_from_slice(&seg);
    assert_eq!(Macho::parse_bin(&v).unwrap_err(), FormatError::MissingEntryState);
}

#[test]
fn parse_bin_records_unsupported_commands() {
    let mut unknown = Vec::new();
    push_u32(&mut unknown, 0x22); // an identifier the reader does not interpret
    push_u32(&mut unknown, 16);
    push_u64(&mut unknown, 0xDEAD_BEEF);
    let ut = unixthread_cmd(&[0; 16]);
    let mut v = header(2, (unknown.len() + ut.len()) as u32);
    v.extend_from_slice(&unknown);
    v.extend_from_slice(&ut);

    let bin = Macho::parse_bin(&v).unwrap();
    assert_eq!(bin.load_commands.unsupported.len(), 1);
    assert_eq!(bin.load_commands.unsupported[0].cmd, 0x22);
    assert_eq!(bin.load_commands.unsupported[0].size, 16);
    assert!(bin.load_commands.unixthread.is_some());
}

#[test]
fn parse_bin_truncated_load_command() {
    // The (cmd, size) prefix itself cannot be read.
    let mut v = header(1, 8);
    v.extend_from_slice(&[1, 0, 0, 0]);
    assert_eq!(Macho::parse_bin(&v).unwrap_err(), FormatError::TruncatedLoadCommand);

    // A declared size that overruns the buffer is rejected, not sliced.
    let mut v = header(1, 0xFFFF);
    push_u32(&mut v, 0x22);
    push_u32(&mut v, 0xFFFF);
    assert_eq!(Macho::parse_bin(&v).unwrap_err(), FormatError::TruncatedLoadCommand);

    // A segment whose declared section count overruns its own span.
    let mut seg = segment_cmd(b"__TEXT", 0x1000, &[]);
    seg[48] = 2; // declared section count, with no section bytes present
    let mut v = header(1, seg.len() as u32);
    v.extend_from_slice(&seg);
    assert_eq!(Macho::parse_bin(&v).unwrap_err(), FormatError::TruncatedLoadCommand);

    // A unix-thread command shorter than its fixed 80-byte payload.
    let mut short_ut = unixthread_cmd(&[0; 16]);
    short_ut.truncate(40);
    short_ut[4] = 40; // declared size matches the short span
    let mut v = header(1, 40);
    v.extend_from_slice(&short_ut);
    assert_eq!(Macho::parse_bin(&v).unwrap_err(), FormatError::TruncatedLoadCommand);
}

#[test]
fn parse_bin_dishonest_size_desynchronizes_without_crash() {
    // The first command declares 8 bytes although a unix-thread command was
    // meant to follow at offset 16: the reader goes on reading from offset
    // 8, inside what was meant to be padding, and must fail cleanly rather
    // than crash.
    let mut first = Vec::new();
    push_u32(&mut first, 0x22);
    push_u32(&mut first, 8);
    let ut = unixthread_cmd(&[0; 16]);
    let mut v = header(2, 8 + 8 + ut.len() as u32);
    v.extend_from_slice(&first);
    v.extend_from_slice(&[0u8; 8]); // padding the dishonest size points into
    v.extend_from_slice(&ut);
    let r = Macho::parse_bin(&v);
    // Reading at the shifted cursor finds cmd 0 with a zero size, which is
    // recorded as unsupported; no thread or entry point is ever reached.
    assert_eq!(r.unwrap_err(), FormatError::MissingEntryState);
}

#[test]
fn text_section_lookup() {
    let regs = [0u32; 16];
    let text = [0xAAu8; 8];
    let bin = Macho::parse_bin(&simple_image(&regs, &text)).unwrap();
    let sec = bin.text_section().unwrap();
    assert_eq!(sec.section_name, b"__text".to_vec());
    assert_eq!(sec.address, 0x1000);
    assert_eq!(bin.text_address().unwrap(), 0x1000);
}

#[test]
fn text_section_missing() {
    let seg = segment_cmd(b"__DATA", 0x4000, &[(b"__data", 0x4000, 4, 0x100, 0)]);
    let ut = unixthread_cmd(&[0; 16]);
    let mut v = header(2, (seg.len() + ut.len()) as u32);
    v.extend_from_slice(&seg);
    v.extend_from_slice(&ut);
    v.resize(0x104, 0);
    let bin = Macho::parse_bin(&v).unwrap();
    assert_eq!(bin.text_section().unwrap_err(), LoadError::MissingTextSection);
    assert_eq!(bin.text_address().unwrap_err(), LoadError::MissingTextSection);

    // A `__TEXT` segment without a `__text` section is just as missing.
    let seg = segment_cmd(b"__TEXT", 0x1000, &[(b"__cstring", 0x1000, 4, 0x100, 0)]);
    let ut = unixthread_cmd(&[0; 16]);
    let mut v = header(2, (seg.len() + ut.len()) as u32);
    v.extend_from_slice(&seg);
    v.extend_from_slice(&ut);
    v.resize(0x104, 0);
    let bin: Bin = Macho::parse_bin(&v).unwrap();
    assert_eq!(bin.text_section().unwrap_err(), LoadError::MissingTextSection);
    assert_eq!(bin.text_address().unwrap(), 0x1000);
}

#[test]
fn name_fields_are_nul_trimmed() {
    let regs = [0u32; 16];
    let text = [0u8; 4];
    // A name that fills all 16 bytes is kept whole.
    let seg = segment_cmd(b"0123456789ABCDEF", 0x1000, &[]);
    let ut = unixthread_cmd(&regs);
    let mut v = header(2, (seg.len() + ut.len()) as u32);
    v.extend_from_slice(&seg);
    v.extend_from_slice(&ut);
    v.extend_from_slice(&text);
    let bin = Macho::parse_bin(&v).unwrap();
    assert_eq!(bin.load_commands.segments[0].name, b"0123456789ABCDEF".to_vec());
}
