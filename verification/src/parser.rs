//! The binary format reader: turns a raw byte buffer into the structured
//! model, validating the magic number and walking the load-command table.
//!
//! The reader's behaviour is stated first as spec functions over the byte
//! sequence (`spec_parse_header`, `spec_parse_bin`, ...); every executable
//! parsing function is proved to return exactly what those say.

use vstd::prelude::*;

use crate::bytes::{le32, le64, read_u32_at, read_u64_at, read_name, trim_nul};
use crate::errors::FormatError;
use crate::macho::{
    Bin, BinV, Header, LC_Main, LoadCommands, LoadCommandsV, SectionHeader, SectionHeaderV,
    Segment, SegmentV, UnixThread, UnsupportedLoadCommand,
};
use crate::vm::{regs_from_words, X86Registers};

verus! {

/// The magic number of a 32-bit little-endian Mach-O file.
pub const MACH_MAGIC_32: u32 = 0xFEED_FACE;

/// The fixed size of the seven-word header.
pub const HEADER_SIZE: usize = 28;

/// The fixed size of a segment load command's own header.
pub const LC_SEGMENT_HEADER_SIZE: usize = 56;

/// The fixed size of one section header within a segment load command.
pub const LC_SEGMENT_SECTION_HEADER_SIZE: usize = 68;

/// The fixed size of a unix-thread load command.
pub const LC_UNIXTHREAD_SIZE: usize = 80;

/// The command identifier of a segment load command.
pub const LC_SEGMENT: u32 = 1;

/// The command identifier of a unix-thread load command.
pub const LC_UNIXTHREAD: u32 = 5;

/// The command identifier of an entry-point load command.
pub const LC_MAIN: u32 = 0x8000_0028;

/// What parsing the seven-word header of `d` yields.
///
/// The magic number is checked as soon as its word can be read, before any
/// further interpretation; only then does the rest of the header have to be
/// present in full.
pub open spec fn spec_parse_header(d: Seq<u8>) -> Result<Header, FormatError> {
    if d.len() < 4 {
        Err(FormatError::TruncatedHeader)
    } else if le32(d, 0) != MACH_MAGIC_32 {
        Err(FormatError::InvalidMagic)
    } else if d.len() < HEADER_SIZE {
        Err(FormatError::TruncatedHeader)
    } else {
        Ok(
            Header {
                magic: le32(d, 0),
                cpu_type: le32(d, 4),
                cpu_subtype: le32(d, 8),
                file_type: le32(d, 12),
                load_commands_count: le32(d, 16),
                load_commands_size: le32(d, 20),
                flags: le32(d, 24),
            },
        )
    }
}

/// What parsing one 68-byte section header yields. Both name fields are
/// read from the same leading 16-byte field.
pub open spec fn spec_parse_section_header(d: Seq<u8>) -> Result<SectionHeaderV, FormatError> {
    if d.len() < LC_SEGMENT_SECTION_HEADER_SIZE {
        Err(FormatError::TruncatedLoadCommand)
    } else {
        Ok(
            SectionHeaderV {
                section_name: trim_nul(d.subrange(0, 16)),
                segment_name: trim_nul(d.subrange(0, 16)),
                address: le32(d, 32),
                size: le32(d, 36),
                offset: le32(d, 40),
                alignment: le32(d, 44),
            },
        )
    }
}

/// The `i`-th section header of a segment load command `d`, which follows
/// the 56-byte segment header at a fixed 68-byte stride.
pub open spec fn spec_section_at(d: Seq<u8>, i: int) -> SectionHeaderV {
    spec_parse_section_header(d.subrange(56 + i * 68, 56 + (i + 1) * 68))->Ok_0
}

/// What parsing one segment load command `d` (the whole command span,
/// starting at its cmd word) yields.
pub open spec fn spec_parse_segment(d: Seq<u8>) -> Result<SegmentV, FormatError> {
    if d.len() < LC_SEGMENT_HEADER_SIZE {
        Err(FormatError::TruncatedLoadCommand)
    } else if 56 + (le32(d, 48) as int) * 68 > d.len() {
        Err(FormatError::TruncatedLoadCommand)
    } else {
        Ok(
            SegmentV {
                name: trim_nul(d.subrange(8, 24)),
                vm_address: le32(d, 24),
                vm_sizes: le32(d, 28),
                file_offset: le32(d, 32),
                file_size: le32(d, 36),
                max_vm_protection: le32(d, 40),
                initial_vm_protection: le32(d, 44),
                number_of_sections: le32(d, 48),
                flags: le32(d, 52),
                section_headers: Seq::new(le32(d, 48) as nat, |i: int| spec_section_at(d, i)),
            },
        )
    }
}

/// The sixteen register words of a unix-thread command, which sit at words
/// four through nineteen of the command span.
pub open spec fn spec_thread_words(d: Seq<u8>) -> Seq<u32> {
    Seq::new(16, |i: int| le32(d, 16 + 4 * i))
}

/// What parsing one unix-thread load command yields.
pub open spec fn spec_parse_unixthread(d: Seq<u8>) -> Result<UnixThread, FormatError> {
    if d.len() < LC_UNIXTHREAD_SIZE {
        Err(FormatError::TruncatedLoadCommand)
    } else {
        Ok(
            UnixThread {
                flavor: le32(d, 8),
                count: le32(d, 12),
                registers: regs_from_words(spec_thread_words(d)),
            },
        )
    }
}

/// What parsing one entry-point load command yields: two 64-bit words at
/// byte offset eight of the command span.
pub open spec fn spec_parse_main(d: Seq<u8>) -> Result<LC_Main, FormatError> {
    if d.len() < 24 {
        Err(FormatError::TruncatedLoadCommand)
    } else {
        Ok(LC_Main { entry_offset: le64(d, 8), stack_size: le64(d, 16) })
    }
}

/// The load-command aggregate with nothing parsed into it yet.
pub open spec fn empty_load_commands() -> LoadCommandsV {
    LoadCommandsV {
        segments: Seq::empty(),
        unixthread: None,
        main: None,
        unsupported: Seq::empty(),
    }
}

/// What one step of the load-command walk adds to the aggregate `acc`:
/// `body` is the whole span of one command whose identifier is `cmd` and
/// whose declared size is `size`.
pub open spec fn spec_parse_one_command(
    cmd: u32,
    size: int,
    body: Seq<u8>,
    acc: LoadCommandsV,
) -> Result<LoadCommandsV, FormatError> {
    if cmd == LC_SEGMENT {
        match spec_parse_segment(body) {
            Ok(seg) => Ok(LoadCommandsV { segments: acc.segments.push(seg), ..acc }),
            Err(e) => Err(e),
        }
    } else if cmd == LC_UNIXTHREAD {
        match spec_parse_unixthread(body) {
            Ok(ut) => Ok(LoadCommandsV { unixthread: Some(ut), ..acc }),
            Err(e) => Err(e),
        }
    } else if cmd == LC_MAIN {
        match spec_parse_main(body) {
            Ok(m) => Ok(LoadCommandsV { main: Some(m), ..acc }),
            Err(e) => Err(e),
        }
    } else {
        Ok(
            LoadCommandsV {
                unsupported: acc.unsupported.push(
                    UnsupportedLoadCommand { cmd, size: size as usize },
                ),
                ..acc
            },
        )
    }
}

/// What walking `n` more load commands of `d` yields, starting at cursor
/// `pos` with the aggregate `acc` collected so far, together with the final
/// cursor. Each step reads the two-word (cmd, size) prefix, dispatches on
/// `cmd`, and advances the cursor by exactly `size`.
pub open spec fn spec_parse_lcs(d: Seq<u8>, n: nat, pos: int, acc: LoadCommandsV) -> Result<
    (LoadCommandsV, int),
    FormatError,
>
    decreases n,
{
    if n == 0 {
        Ok((acc, pos))
    } else if pos + 8 > d.len() {
        Err(FormatError::TruncatedLoadCommand)
    } else {
        let cmd = le32(d, pos);
        let size = le32(d, pos + 4) as int;
        if pos + size > d.len() {
            Err(FormatError::TruncatedLoadCommand)
        } else {
            match spec_parse_one_command(cmd, size, d.subrange(pos, pos + size), acc) {
                Ok(acc2) => spec_parse_lcs(d, (n - 1) as nat, pos + size, acc2),
                Err(e) => Err(e),
            }
        }
    }
}

/// What parsing the whole load-command table after the header yields:
/// `d` is the buffer from the end of the header on, `count` the declared
/// command count. A table with neither a unix-thread nor an entry-point
/// command is rejected, since the engine then has no way to determine
/// where execution starts.
pub open spec fn spec_parse_load_commands(d: Seq<u8>, count: nat) -> Result<
    LoadCommandsV,
    FormatError,
> {
    match spec_parse_lcs(d, count, 0, empty_load_commands()) {
        Ok((lcs, end)) => if lcs.unixthread is None && lcs.main is None {
            Err(FormatError::MissingEntryState)
        } else {
            Ok(lcs)
        },
        Err(e) => Err(e),
    }
}

/// What parsing a whole binary yields: the validated header, the
/// load-command aggregate, and the original bytes.
pub open spec fn spec_parse_bin(d: Seq<u8>) -> Result<BinV, FormatError> {
    match spec_parse_header(d) {
        Ok(h) => match spec_parse_load_commands(
            d.subrange(HEADER_SIZE as int, d.len() as int),
            h.load_commands_count as nat,
        ) {
            Ok(lcs) => Ok(BinV { data: d, header: h, load_commands: lcs }),
            Err(e) => Err(e),
        },
        Err(e) => Err(e),
    }
}

/// For a buffer whose first word can be read at all, parsing rejects any
/// value but the magic constant with `InvalidMagic`, before any load
/// command is read; and a parse can only succeed when the magic matches.
pub proof fn lemma_parse_requires_magic(d: Seq<u8>)
    ensures
        d.len() >= 4 && le32(d, 0) != MACH_MAGIC_32 ==> spec_parse_bin(d) == Err::<
            BinV,
            FormatError,
        >(FormatError::InvalidMagic),
        spec_parse_bin(d) is Ok ==> d.len() >= HEADER_SIZE && le32(d, 0) == MACH_MAGIC_32,
{
}

/// The sum of the declared sizes of `n` load commands of `d` starting at
/// cursor `pos`, as far as their (cmd, size) prefixes can be read.
pub open spec fn spec_sizes_sum(d: Seq<u8>, n: nat, pos: int) -> int
    decreases n,
{
    if n == 0 {
        0
    } else if pos + 8 > d.len() {
        0
    } else {
        let size = le32(d, pos + 4) as int;
        if pos + size > d.len() {
            0
        } else {
            size + spec_sizes_sum(d, (n - 1) as nat, pos + size)
        }
    }
}

/// Whenever the load-command walk succeeds, its final cursor sits exactly
/// the sum of the declared command sizes past its start. With a header
/// whose declared total equals that sum, the cursor after the loop equals
/// `load_commands_size`; a wrong size on one command cannot crash the walk
/// (every read is bounds-checked) but shifts where the later commands are
/// read from.
pub proof fn lemma_cursor_advances_by_declared_sizes(
    d: Seq<u8>,
    n: nat,
    pos: int,
    acc: LoadCommandsV,
)
    requires
        spec_parse_lcs(d, n, pos, acc) is Ok,
    ensures
        spec_parse_lcs(d, n, pos, acc)->Ok_0.1 == pos + spec_sizes_sum(d, n, pos),
    decreases n,
{
    if n == 0 {
    } else {
        let size = le32(d, pos + 4) as int;
        let acc2 = spec_parse_one_command(
            le32(d, pos),
            size,
            d.subrange(pos, pos + size),
            acc,
        )->Ok_0;
        lemma_cursor_advances_by_declared_sizes(d, (n - 1) as nat, pos + size, acc2);
    }
}

/// The binary format reader: owns the raw bytes it reads.
pub struct Macho {
    data: Vec<u8>,
}

impl View for Macho {
    type V = Seq<u8>;

    closed spec fn view(&self) -> Seq<u8> {
        self.data@
    }
}

impl Macho {
    /// A reader over the given bytes.
    pub fn new(data: Vec<u8>) -> (r: Macho)
        ensures
            r@ == data@,
    {
        Macho { data }
    }

    /// Parses a whole binary: header first, then the load-command table.
    pub fn parse_bin(data: &[u8]) -> (r: Result<Bin, FormatError>)
        ensures
            match r {
                Ok(b) => spec_parse_bin(data@) == Ok::<BinV, FormatError>(b@),
                Err(e) => spec_parse_bin(data@) == Err::<BinV, FormatError>(e),
            },
    {
        let parser = Macho { data: vstd::slice::slice_to_vec(data) };
        let header = match parser.parse_header() {
            Ok(h) => h,
            Err(e) => {
                return Err(e);
            },
        };
        let lcs = match parser.parse_load_commands(&header) {
            Ok(l) => l,
            Err(e) => {
                return Err(e);
            },
        };
        Ok(Bin { data: vstd::slice::slice_to_vec(data), header, load_commands: lcs })
    }

    /// Parses the seven-word header, rejecting a wrong magic number before
    /// anything else is interpreted.
    pub fn parse_header(&self) -> (r: Result<Header, FormatError>)
        ensures
            r == spec_parse_header(self@),
    {
        let d = self.data.as_slice();
        if d.len() < 4 {
            return Err(FormatError::TruncatedHeader);
        }
        let magic = read_u32_at(d, 0);
        if magic != MACH_MAGIC_32 {
            return Err(FormatError::InvalidMagic);
        }
        if d.len() < HEADER_SIZE {
            return Err(FormatError::TruncatedHeader);
        }
        Ok(
            Header {
                magic,
                cpu_type: read_u32_at(d, 4),
                cpu_subtype: read_u32_at(d, 8),
                file_type: read_u32_at(d, 12),
                load_commands_count: read_u32_at(d, 16),
                load_commands_size: read_u32_at(d, 20),
                flags: read_u32_at(d, 24),
            },
        )
    }

    /// Walks the load-command table that starts right after the header,
    /// `header.load_commands_count` commands in a row, advancing by each
    /// command's declared size.
    pub fn parse_load_commands(&self, header: &Header) -> (r: Result<LoadCommands, FormatError>)
        requires
            self@.len() >= HEADER_SIZE,
        ensures
            match r {
                Ok(lcs) => spec_parse_load_commands(
                    self@.subrange(HEADER_SIZE as int, self@.len() as int),
                    header.load_commands_count as nat,
                ) == Ok::<LoadCommandsV, FormatError>(lcs@),
                Err(e) => spec_parse_load_commands(
                    self@.subrange(HEADER_SIZE as int, self@.len() as int),
                    header.load_commands_count as nat,
                ) == Err::<LoadCommandsV, FormatError>(e),
            },
    {
        let data = vstd::slice::slice_subrange(self.data.as_slice(), HEADER_SIZE, self.data.len());
        let ghost dv = data@;
        let count = header.load_commands_count;

        let mut segments: Vec<Segment> = Vec::new();
        let mut unsupported: Vec<UnsupportedLoadCommand> = Vec::new();
        let mut unixthread: Option<UnixThread> = None;
        let mut main: Option<LC_Main> = None;

        proof {
            assert(LoadCommandsV {
                segments: segments@.map_values(|s: Segment| s@),
                unixthread,
                main,
                unsupported: unsupported@,
            } =~~= empty_load_commands());
        }
        let mut pos: usize = 0;
        let mut i: u32 = 0;
        while i < count
            invariant
                dv == data@,
                dv == self@.subrange(HEADER_SIZE as int, self@.len() as int),
                self@.len() >= HEADER_SIZE,
                count == header.load_commands_count,
                i <= count,
                pos <= dv.len(),
                spec_parse_lcs(dv, count as nat, 0, empty_load_commands()) == spec_parse_lcs(
                    dv,
                    (count - i) as nat,
                    pos as int,
                    LoadCommandsV {
                        segments: segments@.map_values(|s: Segment| s@),
                        unixthread,
                        main,
                        unsupported: unsupported@,
                    },
                ),
            decreases count - i,
        {
            let ghost acc = LoadCommandsV {
                segments: segments@.map_values(|s: Segment| s@),
                unixthread,
                main,
                unsupported: unsupported@,
            };
            if data.len() - pos < 8 {
                return Err(FormatError::TruncatedLoadCommand);
            }
            let cmd = read_u32_at(data, pos);
            let size32 = read_u32_at(data, pos + 4);
            let size = size32 as usize;
            if size > data.len() - pos {
                return Err(FormatError::TruncatedLoadCommand);
            }
            let body = vstd::slice::slice_subrange(data, pos, pos + size);

            if cmd == LC_SEGMENT {
                match self.parse_lc_segment(body) {
                    Ok(seg) => {
                        let ghost segv = seg@;
                        segments.push(seg);
                        proof {
                            assert(segments@.map_values(|s: Segment| s@) =~= acc.segments.push(
                                segv,
                            ));
                        }
                    },
                    Err(e) => {
                        return Err(e);
                    },
                }
            } else if cmd == LC_UNIXTHREAD {
                match self.parse_lc_unixthread(body) {
                    Ok(ut) => {
                        unixthread = Some(ut);
                    },
                    Err(e) => {
                        return Err(e);
                    },
                }
            } else if cmd == LC_MAIN {
                match self.parse_lc_main(body) {
                    Ok(m) => {
                        main = Some(m);
                    },
                    Err(e) => {
                        return Err(e);
                    },
                }
            } else {
                let ghost oldu = unsupported@;
                unsupported.push(UnsupportedLoadCommand { cmd, size });
                proof {
                    assert(unsupported@ =~= oldu.push(UnsupportedLoadCommand { cmd, size }));
                }
            }

            pos += size;
            i += 1;
        }
        if unixthread.is_none() && main.is_none() {
            return Err(FormatError::MissingEntryState);
        }
        Ok(LoadCommands { segments, unixthread, main, unsupported })
    }

    /// Parses one segment load command: its fixed 56-byte header, then
    /// exactly the declared number of 68-byte section headers.
    fn parse_lc_segment(&self, data: &[u8]) -> (r: Result<Segment, FormatError>)
        ensures
            match r {
                Ok(seg) => spec_parse_segment(data@) == Ok::<SegmentV, FormatError>(seg@),
                Err(e) => spec_parse_segment(data@) == Err::<SegmentV, FormatError>(e),
            },
    {
        if data.len() < LC_SEGMENT_HEADER_SIZE {
            return Err(FormatError::TruncatedLoadCommand);
        }
        let name = read_name(vstd::slice::slice_subrange(data, 8, 24));
        let nsect = read_u32_at(data, 48);
        if (nsect as u64) * 68 > (data.len() as u64) - 56 {
            return Err(FormatError::TruncatedLoadCommand);
        }

        let mut section_headers: Vec<SectionHeader> = Vec::new();
        let mut section_pos: usize = LC_SEGMENT_HEADER_SIZE;
        let mut k: u32 = 0;
        while k < nsect
            invariant
                k <= nsect,
                section_pos == 56 + k * 68,
                56 + (nsect as int) * 68 <= data@.len(),
                section_headers@.map_values(|s: SectionHeader| s@) == Seq::new(
                    k as nat,
                    |i: int| spec_section_at(data@, i),
                ),
            decreases nsect - k,
        {
            let n = data.len();
            assert(section_pos + LC_SEGMENT_SECTION_HEADER_SIZE <= n);
            let body = vstd::slice::slice_subrange(
                data,
                section_pos,
                section_pos + LC_SEGMENT_SECTION_HEADER_SIZE,
            );
            let ghost prev = section_headers@.map_values(|s: SectionHeader| s@);
            match parse_section_header(body) {
                Ok(sh) => {
                    let ghost shv = sh@;
                    section_headers.push(sh);
                    proof {
                        assert(shv == spec_section_at(data@, k as int));
                        assert(section_headers@.map_values(|s: SectionHeader| s@) =~= prev.push(
                            shv,
                        ));
                        assert(prev.push(shv) =~= Seq::new(
                            (k + 1) as nat,
                            |i: int| spec_section_at(data@, i),
                        ));
                    }
                },
                Err(e) => {
                    return Err(e);
                },
            }
            section_pos += LC_SEGMENT_SECTION_HEADER_SIZE;
            k += 1;
        }

        let seg = Segment {
            name,
            vm_address: read_u32_at(data, 24),
            vm_sizes: read_u32_at(data, 28),
            file_offset: read_u32_at(data, 32),
            file_size: read_u32_at(data, 36),
            max_vm_protection: read_u32_at(data, 40),
            initial_vm_protection: read_u32_at(data, 44),
            number_of_sections: nsect,
            flags: read_u32_at(data, 52),
            section_headers,
        };
        proof {
            assert(seg@ =~~= spec_parse_segment(data@)->Ok_0);
        }
        Ok(seg)
    }

    /// Parses one unix-thread load command: flavor, count, and the sixteen
    /// register words.
    fn parse_lc_unixthread(&self, data: &[u8]) -> (r: Result<UnixThread, FormatError>)
        ensures
            match r {
                Ok(ut) => spec_parse_unixthread(data@) == Ok::<UnixThread, FormatError>(ut),
                Err(e) => spec_parse_unixthread(data@) == Err::<UnixThread, FormatError>(e),
            },
    {
        if data.len() < LC_UNIXTHREAD_SIZE {
            return Err(FormatError::TruncatedLoadCommand);
        }
        let mut words: Vec<u32> = Vec::new();
        let mut k: usize = 0;
        while k < 16
            invariant
                k <= 16,
                data@.len() >= 80,
                words@.len() == k,
                forall|j: int| 0 <= j < k ==> words@[j] == le32(data@, 16 + 4 * j),
            decreases 16 - k,
        {
            words.push(read_u32_at(data, 16 + 4 * k));
            k += 1;
        }
        proof {
            assert(words@ =~= spec_thread_words(data@));
        }
        let registers = X86Registers::from(words.as_slice());
        Ok(UnixThread { flavor: read_u32_at(data, 8), count: read_u32_at(data, 12), registers })
    }

    /// Parses one entry-point load command: entry offset and stack size.
    fn parse_lc_main(&self, data: &[u8]) -> (r: Result<LC_Main, FormatError>)
        ensures
            match r {
                Ok(m) => spec_parse_main(data@) == Ok::<LC_Main, FormatError>(m),
                Err(e) => spec_parse_main(data@) == Err::<LC_Main, FormatError>(e),
            },
    {
        if data.len() < 24 {
            return Err(FormatError::TruncatedLoadCommand);
        }
        Ok(LC_Main { entry_offset: read_u64_at(data, 8), stack_size: read_u64_at(data, 16) })
    }
}

/// Parses one 68-byte section header.
fn parse_section_header(data: &[u8]) -> (r: Result<SectionHeader, FormatError>)
    ensures
        match r {
            Ok(sh) => spec_parse_section_header(data@) == Ok::<SectionHeaderV, FormatError>(sh@),
            Err(e) => spec_parse_section_header(data@) == Err::<SectionHeaderV, FormatError>(e),
        },
{
    if data.len() < LC_SEGMENT_SECTION_HEADER_SIZE {
        return Err(FormatError::TruncatedLoadCommand);
    }
    let section_name = read_name(vstd::slice::slice_subrange(data, 0, 16));
    let segment_name = read_name(vstd::slice::slice_subrange(data, 0, 16));
    Ok(
        SectionHeader {
            section_name,
            segment_name,
            address: read_u32_at(data, 32),
            size: read_u32_at(data, 36),
            offset: read_u32_at(data, 40),
            alignment: read_u32_at(data, 44),
        },
    )
}

} // verus!
