//! The structured model of a parsed 32-bit Mach-O binary: the header, the
//! load commands, and the lookups the execution engine needs.
//!
//! Name fields are kept as the raw bytes of the fixed-width, NUL-padded
//! fields with the padding trimmed from both ends, so that looking a
//! segment or section up by name is plain byte comparison.

use vstd::prelude::*;

use crate::errors::LoadError;
use crate::vm::X86Registers;

verus! {

/// The fixed seven-word Mach-O header.
#[derive(Clone, Copy, Debug, PartialEq, Eq, Structural)]
pub struct Header {
    pub magic: u32,
    pub cpu_type: u32,
    pub cpu_subtype: u32,
    pub file_type: u32,
    pub load_commands_count: u32,
    pub load_commands_size: u32,
    pub flags: u32,
}

/// One section header within a segment.
///
/// The reader derives both names from the same 16-byte field at the start
/// of the section header, so the two are always equal.
#[derive(Debug)]
pub struct SectionHeader {
    pub section_name: Vec<u8>,
    pub segment_name: Vec<u8>,
    pub address: u32,
    pub size: u32,
    pub offset: u32,
    pub alignment: u32,
}

/// The mathematical value of a [`SectionHeader`].
#[verifier::ext_equal]
pub struct SectionHeaderV {
    pub section_name: Seq<u8>,
    pub segment_name: Seq<u8>,
    pub address: u32,
    pub size: u32,
    pub offset: u32,
    pub alignment: u32,
}

impl View for SectionHeader {
    type V = SectionHeaderV;

    open spec fn view(&self) -> SectionHeaderV {
        SectionHeaderV {
            section_name: self.section_name@,
            segment_name: self.segment_name@,
            address: self.address,
            size: self.size,
            offset: self.offset,
            alignment: self.alignment,
        }
    }
}

impl Clone for SectionHeader {
    /// An equal copy of the section header.
    fn clone(&self) -> (r: Self)
        ensures
            r@ == self@,
    {
        SectionHeader {
            section_name: clone_bytes(&self.section_name),
            segment_name: clone_bytes(&self.segment_name),
            address: self.address,
            size: self.size,
            offset: self.offset,
            alignment: self.alignment,
        }
    }
}

/// An owned copy of a byte buffer.
fn clone_bytes(v: &Vec<u8>) -> (r: Vec<u8>)
    ensures
        r@ == v@,
{
    let mut out: Vec<u8> = Vec::new();
    let mut i: usize = 0;
    while i < v.len()
        invariant
            i <= v@.len(),
            out@ =~= v@.subrange(0, i as int),
        decreases v@.len() - i,
    {
        out.push(v[i]);
        i += 1;
    }
    proof {
        assert(out@ =~= v@);
    }
    out
}

/// One segment load command with its ordered section headers.
#[derive(Debug)]
pub struct Segment {
    pub name: Vec<u8>,
    pub vm_address: u32,
    pub vm_sizes: u32,
    pub file_offset: u32,
    pub file_size: u32,
    pub max_vm_protection: u32,
    pub initial_vm_protection: u32,
    pub number_of_sections: u32,
    pub flags: u32,
    pub section_headers: Vec<SectionHeader>,
}

/// The mathematical value of a [`Segment`].
#[verifier::ext_equal]
pub struct SegmentV {
    pub name: Seq<u8>,
    pub vm_address: u32,
    pub vm_sizes: u32,
    pub file_offset: u32,
    pub file_size: u32,
    pub max_vm_protection: u32,
    pub initial_vm_protection: u32,
    pub number_of_sections: u32,
    pub flags: u32,
    pub section_headers: Seq<SectionHeaderV>,
}

impl View for Segment {
    type V = SegmentV;

    open spec fn view(&self) -> SegmentV {
        SegmentV {
            name: self.name@,
            vm_address: self.vm_address,
            vm_sizes: self.vm_sizes,
            file_offset: self.file_offset,
            file_size: self.file_size,
            max_vm_protection: self.max_vm_protection,
            initial_vm_protection: self.initial_vm_protection,
            number_of_sections: self.number_of_sections,
            flags: self.flags,
            section_headers: self.section_headers@.map_values(|s: SectionHeader| s@),
        }
    }
}

/// A unix-thread load command: a flavor/count pair and a full snapshot of
/// the sixteen register values.
#[derive(Clone, Copy, Debug, PartialEq, Eq, Structural)]
pub struct UnixThread {
    pub flavor: u32,
    pub count: u32,
    pub registers: X86Registers,
}

/// An entry-point load command: an offset into the `__TEXT` segment and a
/// declared stack size.
#[derive(Clone, Copy, Debug, PartialEq, Eq, Structural)]
#[allow(non_camel_case_types)]
pub struct LC_Main {
    pub entry_offset: u64,
    pub stack_size: u64,
}

/// A load command the reader does not interpret: its identifier and total
/// size only; the payload is not retained.
#[derive(Clone, Copy, Debug, PartialEq, Eq, Structural)]
pub struct UnsupportedLoadCommand {
    pub cmd: u32,
    pub size: usize,
}

/// The aggregate of all load commands of one binary, in parse order within
/// each group. When several unix-thread or entry-point commands occur, the
/// last one read is kept.
#[derive(Debug)]
pub struct LoadCommands {
    pub segments: Vec<Segment>,
    pub unixthread: Option<UnixThread>,
    pub main: Option<LC_Main>,
    pub unsupported: Vec<UnsupportedLoadCommand>,
}

/// The mathematical value of [`LoadCommands`].
#[verifier::ext_equal]
pub struct LoadCommandsV {
    pub segments: Seq<SegmentV>,
    pub unixthread: Option<UnixThread>,
    pub main: Option<LC_Main>,
    pub unsupported: Seq<UnsupportedLoadCommand>,
}

impl View for LoadCommands {
    type V = LoadCommandsV;

    open spec fn view(&self) -> LoadCommandsV {
        LoadCommandsV {
            segments: self.segments@.map_values(|s: Segment| s@),
            unixthread: self.unixthread,
            main: self.main,
            unsupported: self.unsupported@,
        }
    }
}

/// A parsed binary: the original bytes plus the parsed structure.
#[derive(Debug)]
pub struct Bin {
    pub data: Vec<u8>,
    pub header: Header,
    pub load_commands: LoadCommands,
}

/// The mathematical value of a [`Bin`].
#[verifier::ext_equal]
pub struct BinV {
    pub data: Seq<u8>,
    pub header: Header,
    pub load_commands: LoadCommandsV,
}

impl View for Bin {
    type V = BinV;

    open spec fn view(&self) -> BinV {
        BinV {
            data: self.data@,
            header: self.header,
            load_commands: self.load_commands@,
        }
    }
}

/// The name of the segment that holds executable code: `__TEXT`.
pub open spec fn text_segment_name() -> Seq<u8> {
    seq![0x5fu8, 0x5fu8, 0x54u8, 0x45u8, 0x58u8, 0x54u8]
}

/// The name of the section that holds executable code: `__text`.
pub open spec fn text_section_name() -> Seq<u8> {
    seq![0x5fu8, 0x5fu8, 0x74u8, 0x65u8, 0x78u8, 0x74u8]
}

/// The first segment in `segs` whose name is `name`, if any.
pub open spec fn find_segment(segs: Seq<SegmentV>, name: Seq<u8>) -> Option<SegmentV>
    decreases segs.len(),
{
    if segs.len() == 0 {
        None
    } else if segs[0].name == name {
        Some(segs[0])
    } else {
        find_segment(segs.drop_first(), name)
    }
}

/// The first section header in `sections` whose section name is `name`, if any.
pub open spec fn find_section(sections: Seq<SectionHeaderV>, name: Seq<u8>) -> Option<
    SectionHeaderV,
>
    decreases sections.len(),
{
    if sections.len() == 0 {
        None
    } else if sections[0].section_name == name {
        Some(sections[0])
    } else {
        find_section(sections.drop_first(), name)
    }
}

/// The `__text` section header of the binary's `__TEXT` segment, if both exist.
pub open spec fn spec_text_section(b: BinV) -> Option<SectionHeaderV> {
    match find_segment(b.load_commands.segments, text_segment_name()) {
        Some(seg) => find_section(seg.section_headers, text_section_name()),
        None => None,
    }
}

/// The virtual address of the binary's `__TEXT` segment, if it exists.
pub open spec fn spec_text_address(b: BinV) -> Option<u32> {
    match find_segment(b.load_commands.segments, text_segment_name()) {
        Some(seg) => Some(seg.vm_address),
        None => None,
    }
}

/// The `__TEXT` name as an owned byte buffer.
fn text_segment_name_bytes() -> (r: Vec<u8>)
    ensures
        r@ == text_segment_name(),
{
    let mut v: Vec<u8> = Vec::new();
    v.push(0x5f);
    v.push(0x5f);
    v.push(0x54);
    v.push(0x45);
    v.push(0x58);
    v.push(0x54);
    proof {
        assert(v@ =~= text_segment_name());
    }
    v
}

/// The `__text` name as an owned byte buffer.
fn text_section_name_bytes() -> (r: Vec<u8>)
    ensures
        r@ == text_section_name(),
{
    let mut v: Vec<u8> = Vec::new();
    v.push(0x5f);
    v.push(0x5f);
    v.push(0x74);
    v.push(0x65);
    v.push(0x78);
    v.push(0x74);
    proof {
        assert(v@ =~= text_section_name());
    }
    v
}

/// The first segment of `segs` named `name`, by linear search.
fn find_segment_exec<'a>(segs: &'a Vec<Segment>, name: &Vec<u8>) -> (r: Option<&'a Segment>)
    ensures
        match r {
            Some(seg) => find_segment(segs@.map_values(|s: Segment| s@), name@) == Some(seg@),
            None => find_segment(segs@.map_values(|s: Segment| s@), name@) is None,
        },
{
    let ghost segsv = segs@.map_values(|s: Segment| s@);
    proof {
        assert(segsv.subrange(0, segsv.len() as int) =~= segsv);
    }
    let mut i: usize = 0;
    while i < segs.len()
        invariant
            i <= segs@.len(),
            segsv == segs@.map_values(|s: Segment| s@),
            find_segment(segsv, name@) == find_segment(
                segsv.subrange(i as int, segsv.len() as int),
                name@,
            ),
        decreases segs@.len() - i,
    {
        proof {
            let rest = segsv.subrange(i as int, segsv.len() as int);
            assert(rest[0] == segsv[i as int]);
            assert(rest.drop_first() =~= segsv.subrange(i as int + 1, segsv.len() as int));
        }
        if crate::bytes::bytes_eq(segs[i].name.as_slice(), name.as_slice()) {
            return Some(&segs[i]);
        }
        i += 1;
    }
    proof {
        assert(segsv.subrange(segsv.len() as int, segsv.len() as int) =~= Seq::<
            SegmentV,
        >::empty());
    }
    None
}

/// The first section header of `sections` named `name`, by linear search.
fn find_section_exec<'a>(sections: &'a Vec<SectionHeader>, name: &Vec<u8>) -> (r: Option<
    &'a SectionHeader,
>)
    ensures
        match r {
            Some(sec) => find_section(sections@.map_values(|s: SectionHeader| s@), name@) == Some(
                sec@,
            ),
            None => find_section(sections@.map_values(|s: SectionHeader| s@), name@) is None,
        },
{
    let ghost secsv = sections@.map_values(|s: SectionHeader| s@);
    proof {
        assert(secsv.subrange(0, secsv.len() as int) =~= secsv);
    }
    let mut i: usize = 0;
    while i < sections.len()
        invariant
            i <= sections@.len(),
            secsv == sections@.map_values(|s: SectionHeader| s@),
            find_section(secsv, name@) == find_section(
                secsv.subrange(i as int, secsv.len() as int),
                name@,
            ),
        decreases sections@.len() - i,
    {
        proof {
            let rest = secsv.subrange(i as int, secsv.len() as int);
            assert(rest[0] == secsv[i as int]);
            assert(rest.drop_first() =~= secsv.subrange(i as int + 1, secsv.len() as int));
        }
        if crate::bytes::bytes_eq(sections[i].section_name.as_slice(), name.as_slice()) {
            return Some(&sections[i]);
        }
        i += 1;
    }
    proof {
        assert(secsv.subrange(secsv.len() as int, secsv.len() as int) =~= Seq::<
            SectionHeaderV,
        >::empty());
    }
    None
}

impl Bin {
    /// A copy of the `__text` section header of the `__TEXT` segment, the
    /// section whose bytes the engine loads into memory.
    pub fn text_section(&self) -> (r: Result<SectionHeader, LoadError>)
        ensures
            match r {
                Ok(sec) => spec_text_section(self@) == Some(sec@),
                Err(e) => e == LoadError::MissingTextSection && spec_text_section(self@) is None,
            },
    {
        let segname = text_segment_name_bytes();
        let textseg = match find_segment_exec(&self.load_commands.segments, &segname) {
            Some(seg) => seg,
            None => {
                return Err(LoadError::MissingTextSection);
            },
        };
        let secname = text_section_name_bytes();
        match find_section_exec(&textseg.section_headers, &secname) {
            Some(sec) => Ok(sec.clone()),
            None => Err(LoadError::MissingTextSection),
        }
    }

    /// The virtual address of the `__TEXT` segment.
    pub fn text_address(&self) -> (r: Result<u32, LoadError>)
        ensures
            match r {
                Ok(a) => spec_text_address(self@) == Some(a),
                Err(e) => e == LoadError::MissingTextSection && spec_text_address(self@) is None,
            },
    {
        let segname = text_segment_name_bytes();
        match find_segment_exec(&self.load_commands.segments, &segname) {
            Some(seg) => Ok(seg.vm_address),
            None => Err(LoadError::MissingTextSection),
        }
    }
}

} // verus!
