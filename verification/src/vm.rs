//! The execution engine: a register file, a flat memory image, and a
//! fetch-decode-execute loop over a small, closed x86 opcode set.

use vstd::prelude::*;

use crate::bytes::le32;
use crate::errors::{ExecutionFault, LoadError, VmError};
use crate::macho::{
    find_section, find_segment, spec_text_address, spec_text_section, text_section_name,
    text_segment_name, Bin, BinV,
};

verus! {

/// The x86 32-bit register file: four general-purpose registers, four
/// index/pointer registers, the instruction pointer, the flags word, and
/// six segment registers.
#[derive(Clone, Copy, Debug, PartialEq, Eq, Structural)]
pub struct X86Registers {
    pub eax: u32,
    pub ebx: u32,
    pub ecx: u32,
    pub edx: u32,
    pub edi: u32,
    pub esi: u32,
    pub ebp: u32,
    pub esp: u32,
    pub ss: u32,
    pub eflags: u32,
    pub eip: u32,
    pub cs: u32,
    pub ds: u32,
    pub es: u32,
    pub fs: u32,
    pub gs: u32,
}

/// The register file built from sixteen words in the fixed order
/// eax, ebx, ecx, edx, edi, esi, ebp, esp, ss, eflags, eip, cs, ds, es, fs, gs.
pub open spec fn regs_from_words(w: Seq<u32>) -> X86Registers {
    X86Registers {
        eax: w[0],
        ebx: w[1],
        ecx: w[2],
        edx: w[3],
        edi: w[4],
        esi: w[5],
        ebp: w[6],
        esp: w[7],
        ss: w[8],
        eflags: w[9],
        eip: w[10],
        cs: w[11],
        ds: w[12],
        es: w[13],
        fs: w[14],
        gs: w[15],
    }
}

impl X86Registers {
    /// The all-zero register file, the state of a freshly constructed machine.
    pub open spec fn zeroed() -> X86Registers {
        X86Registers {
            eax: 0,
            ebx: 0,
            ecx: 0,
            edx: 0,
            edi: 0,
            esi: 0,
            ebp: 0,
            esp: 0,
            ss: 0,
            eflags: 0,
            eip: 0,
            cs: 0,
            ds: 0,
            es: 0,
            fs: 0,
            gs: 0,
        }
    }

    /// Builds a register file from an ordered list of sixteen words.
    pub fn from(words: &[u32]) -> (r: X86Registers)
        requires
            words@.len() >= 16,
        ensures
            r == regs_from_words(words@),
    {
        X86Registers {
            eax: words[0],
            ebx: words[1],
            ecx: words[2],
            edx: words[3],
            edi: words[4],
            esi: words[5],
            ebp: words[6],
            esp: words[7],
            ss: words[8],
            eflags: words[9],
            eip: words[10],
            cs: words[11],
            ds: words[12],
            es: words[13],
            fs: words[14],
            gs: words[15],
        }
    }

    /// Overwrites every register from an ordered list of sixteen words.
    pub fn init(&mut self, words: &[u32])
        requires
            words@.len() >= 16,
        ensures
            *final(self) == regs_from_words(words@),
    {
        self.eax = words[0];
        self.ebx = words[1];
        self.ecx = words[2];
        self.edx = words[3];
        self.edi = words[4];
        self.esi = words[5];
        self.ebp = words[6];
        self.esp = words[7];
        self.ss = words[8];
        self.eflags = words[9];
        self.eip = words[10];
        self.cs = words[11];
        self.ds = words[12];
        self.es = words[13];
        self.fs = words[14];
        self.gs = words[15];
    }
}

/// The machine: a flat byte-addressed memory image, a register file, and
/// the exit status through which the exit syscall halts the run loop.
#[derive(Debug)]
pub struct VM {
    pub memory: Vec<u8>,
    pub registers: X86Registers,
    pub exit_status: Option<u8>,
}

/// The mathematical value of a [`VM`].
#[verifier::ext_equal]
pub struct MachineV {
    pub mem: Seq<u8>,
    pub regs: X86Registers,
    pub exit: Option<u8>,
}

impl View for VM {
    type V = MachineV;

    open spec fn view(&self) -> MachineV {
        MachineV { mem: self.memory@, regs: self.registers, exit: self.exit_status }
    }
}

/// `mem` with the four little-endian bytes of `val` written at address `a`.
pub open spec fn write32(mem: Seq<u8>, a: int, val: u32) -> Seq<u8> {
    mem.update(a, (val % 0x100) as u8).update(a + 1, ((val / 0x100) % 0x100) as u8).update(
        a + 2,
        ((val / 0x1_0000) % 0x100) as u8,
    ).update(a + 3, ((val / 0x100_0000) % 0x100) as u8)
}

/// What a stack push does: the value is written as one word at the current
/// stack slot (the word that holds `esp / 4`), then `esp` drops by the word
/// size. A push with `esp` below one word, or with the slot outside the
/// memory image, faults and changes nothing.
pub open spec fn spec_push(m: MachineV, val: u32) -> Result<MachineV, ExecutionFault> {
    let a = (m.regs.esp as int / 4) * 4;
    if m.regs.esp < 4 || a + 4 > m.mem.len() {
        Err(ExecutionFault::MemoryFault)
    } else {
        Ok(
            MachineV {
                mem: write32(m.mem, a, val),
                regs: X86Registers { esp: (m.regs.esp - 4) as u32, ..m.regs },
                exit: m.exit,
            },
        )
    }
}

/// What the exit syscall reads: the word in the stack slot just above the
/// current `esp`, that is the most recently pushed argument.
pub open spec fn exit_slot(esp: u32) -> int {
    ((esp as int + 4) / 4) * 4
}

/// What the syscall dispatcher does for syscall number `n`: only syscall 1
/// (exit) is defined; it sets the exit status to the low byte of the word
/// in the stack slot just above `esp`. Any other number faults.
pub open spec fn spec_syscall(m: MachineV, n: u8) -> Result<MachineV, ExecutionFault> {
    if n == 1 {
        let a = exit_slot(m.regs.esp);
        if a + 4 > m.mem.len() {
            Err(ExecutionFault::MemoryFault)
        } else {
            Ok(MachineV { exit: Some((le32(m.mem, a) % 0x100) as u8), ..m })
        }
    } else {
        Err(ExecutionFault::UnknownSyscall)
    }
}

/// What an interrupt does for vector `n`: only `0x80` is recognized; it
/// forwards to the syscall dispatcher with the low byte of `eax` as the
/// syscall number. Any other vector faults.
pub open spec fn spec_interrupt(m: MachineV, n: u8) -> Result<MachineV, ExecutionFault> {
    if n == 0x80 {
        spec_syscall(m, (m.regs.eax % 0x100) as u8)
    } else {
        Err(ExecutionFault::UnknownInterrupt)
    }
}

/// The opcodes the engine recognizes; anything else is an illegal
/// instruction.
pub open spec fn recognized_opcode(op: u8) -> bool {
    op == 0xb8 || op == 0x6a || op == 0x50 || op == 0xcd
}

/// How a run ends: halted by the exit syscall, or stopped by a fault. Both
/// carry the machine state at that moment; a fault changes nothing beyond
/// what earlier instructions already did.
#[verifier::ext_equal]
pub enum RunOutcome {
    Halted(MachineV),
    Fault(ExecutionFault, MachineV),
}

/// What the fetch-decode-execute loop does from state `m` on: read the
/// opcode byte at `eip`, apply the instruction's effect, advance `eip` by
/// the instruction's fixed length, and repeat until the exit syscall sets
/// the exit status or a fault stops the run. The loop terminates because
/// every instruction moves `eip` strictly forward and a fetch past the end
/// of memory faults.
///
/// The engine addresses memory through 32-bit registers, and its
/// constructor caps the image accordingly; a larger image would put bytes
/// where no instruction pointer can reach, so this specification treats
/// any step in such an image as a memory fault.
pub open spec fn run_spec(m: MachineV) -> RunOutcome
    decreases m.mem.len() - m.regs.eip,
{
    let eip = m.regs.eip as int;
    let len = m.mem.len() as int;
    if m.exit is Some {
        RunOutcome::Halted(m)
    } else if len > 0xFFFF_FFFF {
        RunOutcome::Fault(ExecutionFault::MemoryFault, m)
    } else if eip >= len {
        RunOutcome::Fault(ExecutionFault::MemoryFault, m)
    } else {
        let op = m.mem[eip];
        if op == 0xb8 {
            // mov eax, imm32
            if eip + 5 <= len {
                run_spec(
                    MachineV {
                        regs: X86Registers {
                            eax: le32(m.mem, eip + 1),
                            eip: (m.regs.eip + 5) as u32,
                            ..m.regs
                        },
                        ..m
                    },
                )
            } else {
                RunOutcome::Fault(ExecutionFault::MemoryFault, m)
            }
        } else if op == 0x6a {
            // push imm8, zero-extended
            if eip + 2 <= len {
                match spec_push(m, m.mem[eip + 1] as u32) {
                    Ok(m2) => run_spec(
                        MachineV {
                            regs: X86Registers { eip: (m.regs.eip + 2) as u32, ..m2.regs },
                            ..m2
                        },
                    ),
                    Err(e) => RunOutcome::Fault(e, m),
                }
            } else {
                RunOutcome::Fault(ExecutionFault::MemoryFault, m)
            }
        } else if op == 0x50 {
            // push eax
            match spec_push(m, m.regs.eax) {
                Ok(m2) => run_spec(
                    MachineV {
                        regs: X86Registers { eip: (m.regs.eip + 1) as u32, ..m2.regs },
                        ..m2
                    },
                ),
                Err(e) => RunOutcome::Fault(e, m),
            }
        } else if op == 0xcd {
            // int imm8: a successful interrupt is the exit syscall, which
            // halts the run with `eip` still at the interrupt instruction.
            if eip + 2 <= len {
                match spec_interrupt(m, m.mem[eip + 1]) {
                    Ok(m2) => RunOutcome::Halted(m2),
                    Err(e) => RunOutcome::Fault(e, m),
                }
            } else {
                RunOutcome::Fault(ExecutionFault::MemoryFault, m)
            }
        } else {
            RunOutcome::Fault(ExecutionFault::IllegalInstruction, m)
        }
    }
}

/// `mem` with `bytes` written over the range that starts at address `a`.
pub open spec fn splice(mem: Seq<u8>, a: int, bytes: Seq<u8>) -> Seq<u8> {
    mem.subrange(0, a) + bytes + mem.subrange(a + bytes.len(), mem.len() as int)
}

/// What the load phase does to machine state `m` for parsed binary `b`:
/// seed the registers from the unix-thread snapshot when present, then
/// overwrite `eip` with the entry-point command's offset plus the `__TEXT`
/// segment's address (truncated to 32 bits) when present, seed `esp` with
/// the highest address of the memory image, clear the exit status, and copy
/// the `__text` section's file bytes to its virtual address. The copy
/// faults when it would reach outside the memory image or outside the file
/// buffer; a binary without a `__TEXT`/`__text` pair faults before anything
/// is touched.
pub open spec fn spec_load(m: MachineV, b: BinV) -> Result<MachineV, LoadError> {
    match find_segment(b.load_commands.segments, text_segment_name()) {
        None => Err(LoadError::MissingTextSection),
        Some(seg) => match find_section(seg.section_headers, text_section_name()) {
            None => Err(LoadError::MissingTextSection),
            Some(text) => {
                let regs0 = match b.load_commands.unixthread {
                    Some(ut) => ut.registers,
                    None => m.regs,
                };
                let regs1 = match b.load_commands.main {
                    Some(mn) => X86Registers {
                        eip: (((mn.entry_offset % 0x1_0000_0000) + seg.vm_address)
                            % 0x1_0000_0000) as u32,
                        ..regs0
                    },
                    None => regs0,
                };
                let regs2 = X86Registers { esp: (m.mem.len() - 1) as u32, ..regs1 };
                if text.address + text.size > m.mem.len() || text.offset + text.size
                    > b.data.len() {
                    Err(LoadError::TextOutOfBounds)
                } else {
                    Ok(
                        MachineV {
                            mem: splice(
                                m.mem,
                                text.address as int,
                                b.data.subrange(
                                    text.offset as int,
                                    text.offset + text.size,
                                ),
                            ),
                            regs: regs2,
                            exit: None,
                        },
                    )
                }
            },
        },
    }
}

/// With a unix-thread command and no entry-point command, the load phase
/// seeds every register from the thread snapshot except `esp`, which gets
/// the top of the memory image instead of the snapshot's word.
pub proof fn lemma_load_seeds_registers_from_thread(m: MachineV, b: BinV)
    requires
        b.load_commands.unixthread is Some,
        b.load_commands.main is None,
        spec_load(m, b) is Ok,
    ensures
        spec_load(m, b)->Ok_0.regs == (X86Registers {
            esp: (m.mem.len() - 1) as u32,
            ..b.load_commands.unixthread->Some_0.registers
        }),
{
}

/// With an entry-point command, the load phase computes `eip` as the entry
/// offset plus the `__TEXT` segment's address, truncated to 32 bits,
/// overriding any thread-supplied `eip`.
pub proof fn lemma_entry_point_overrides_eip(m: MachineV, b: BinV)
    requires
        b.load_commands.main is Some,
        spec_load(m, b) is Ok,
    ensures
        spec_load(m, b)->Ok_0.regs.eip == (((b.load_commands.main->Some_0.entry_offset
            % 0x1_0000_0000) + spec_text_address(b)->Some_0) % 0x1_0000_0000) as u32,
{
}

/// After a successful load, the memory image holds the text section's file
/// bytes at its declared virtual address and is untouched everywhere else.
pub proof fn lemma_load_copies_text_bytes(m: MachineV, b: BinV, text: crate::macho::SectionHeaderV)
    requires
        spec_text_section(b) == Some(text),
        spec_load(m, b) is Ok,
    ensures
        spec_load(m, b)->Ok_0.mem.len() == m.mem.len(),
        forall|j: int|
            text.address <= j < text.address + text.size ==> #[trigger] spec_load(
                m,
                b,
            )->Ok_0.mem[j] == b.data[text.offset + (j - text.address)],
        forall|j: int|
            0 <= j < m.mem.len() && !(text.address <= j < text.address + text.size)
                ==> #[trigger] spec_load(m, b)->Ok_0.mem[j] == m.mem[j],
{
}

/// An unrecognized opcode at `eip` stops the run at once with
/// `IllegalInstruction`: the machine state it reports is the state at the
/// faulting fetch, so neither `eip` nor any register or memory byte moves
/// beyond what earlier instructions already did.
pub proof fn lemma_illegal_instruction_stops_run(m: MachineV)
    requires
        m.exit is None,
        m.mem.len() <= 0xFFFF_FFFF,
        m.regs.eip < m.mem.len(),
        !recognized_opcode(m.mem[m.regs.eip as int]),
    ensures
        run_spec(m) == RunOutcome::Fault(ExecutionFault::IllegalInstruction, m),
{
}

/// An interrupt with a vector other than `0x80` stops the run with
/// `UnknownInterrupt` and the state unchanged; in particular the exit
/// status stays unset.
pub proof fn lemma_unknown_interrupt_stops_run(m: MachineV)
    requires
        m.exit is None,
        m.mem.len() <= 0xFFFF_FFFF,
        m.regs.eip + 2 <= m.mem.len(),
        m.mem[m.regs.eip as int] == 0xcd,
        m.mem[m.regs.eip as int + 1] != 0x80,
    ensures
        run_spec(m) == RunOutcome::Fault(ExecutionFault::UnknownInterrupt, m),
{
}

/// A syscall number other than 1 stops the run with `UnknownSyscall` and
/// the state unchanged; in particular the exit status stays unset.
pub proof fn lemma_unknown_syscall_stops_run(m: MachineV)
    requires
        m.exit is None,
        m.mem.len() <= 0xFFFF_FFFF,
        m.regs.eip + 2 <= m.mem.len(),
        m.mem[m.regs.eip as int] == 0xcd,
        m.mem[m.regs.eip as int + 1] == 0x80,
        m.regs.eax % 0x100 != 1,
    ensures
        run_spec(m) == RunOutcome::Fault(ExecutionFault::UnknownSyscall, m),
{
}

impl VM {
    /// A machine with a zero-filled memory image of `memsize` bytes and
    /// all-zero registers. A size that is not a multiple of the word size
    /// is rejected, since word-sized addressing would silently corrupt.
    /// The size is capped at what a 32-bit address can reach.
    pub fn new(memsize: usize) -> (r: Result<VM, LoadError>)
        requires
            memsize <= 0xFFFF_FFFF,
        ensures
            match r {
                Ok(vm) => memsize % 4 == 0 && vm@ == (MachineV {
                    mem: Seq::new(memsize as nat, |i: int| 0u8),
                    regs: X86Registers::zeroed(),
                    exit: None,
                }),
                Err(e) => memsize % 4 != 0 && e == LoadError::InvalidMemorySize,
            },
    {
        if memsize % 4 != 0 {
            return Err(LoadError::InvalidMemorySize);
        }
        let mut memory: Vec<u8> = Vec::new();
        while memory.len() < memsize
            invariant
                memory@.len() <= memsize,
                forall|j: int| 0 <= j < memory@.len() ==> memory@[j] == 0u8,
            decreases memsize - memory@.len(),
        {
            memory.push(0);
        }
        let vm = VM { memory, registers: X86Registers::default(), exit_status: None };
        proof {
            assert(vm@.mem =~= Seq::new(memsize as nat, |i: int| 0u8));
        }
        Ok(vm)
    }

    /// The load phase: locate the text section, seed the registers, and
    /// copy the text bytes into the memory image. On an error the machine
    /// is left part-way initialized and must not be reused.
    pub fn load(&mut self, bin: &Bin) -> (r: Result<(), LoadError>)
        requires
            1 <= old(self).memory@.len() <= 0xFFFF_FFFF,
        ensures
            final(self).memory@.len() == old(self).memory@.len(),
            match r {
                Ok(_) => spec_load(old(self)@, bin@) == Ok::<MachineV, LoadError>(final(self)@),
                Err(e) => spec_load(old(self)@, bin@) == Err::<MachineV, LoadError>(e),
            },
    {
        let text = match bin.text_section() {
            Ok(t) => t,
            Err(e) => {
                return Err(e);
            },
        };
        let text_address = match bin.text_address() {
            Ok(a) => a,
            Err(e) => {
                return Err(e);
            },
        };

        if let Some(ut) = &bin.load_commands.unixthread {
            self.registers = ut.registers;
        }
        if let Some(mn) = &bin.load_commands.main {
            let off32 = #[verifier::truncate] (mn.entry_offset as u32);
            self.registers.eip = off32.wrapping_add(text_address);
            proof {
                let o = mn.entry_offset % 0x1_0000_0000;
                let t = text_address as int;
                let e = mn.entry_offset;
                assert(e as u32 == (e % 0x1_0000_0000) as u32) by (bit_vector);
                assert(off32 as int == o);
                assert(self.registers.eip == vstd::wrapping::u32_specs::wrapping_add(
                    off32,
                    text_address,
                ));
                if o + t > 0xFFFF_FFFF {
                    assert((o + t) % 0x1_0000_0000 == o + t - 0x1_0000_0000) by (nonlinear_arith)
                        requires
                            0x1_0000_0000 <= o + t < 0x2_0000_0000,
                    ;
                } else {
                    assert((o + t) % 0x1_0000_0000 == o + t) by (nonlinear_arith)
                        requires
                            0 <= o + t < 0x1_0000_0000,
                    ;
                }
                assert(self.registers.eip == (((mn.entry_offset % 0x1_0000_0000)
                    + text_address) % 0x1_0000_0000) as u32);
            }
        }
        self.registers.esp = (self.memory.len() - 1) as u32;

        let size = text.size as usize;
        let offset = text.offset as usize;
        let address = text.address as usize;
        let mlen = self.memory.len();
        let dlen = bin.data.len();
        if (text.address as u64) + (text.size as u64) > mlen as u64 || (text.offset as u64) + (
        text.size as u64) > dlen as u64 {
            return Err(LoadError::TextOutOfBounds);
        }

        let ghost mem0 = self.memory@;
        let ghost regs_done = self.registers;
        let mut i: usize = 0;
        while i < size
            invariant
                i <= size,
                address + size <= mlen,
                offset + size <= dlen,
                mlen == self.memory@.len(),
                dlen == bin.data@.len(),
                mem0.len() == mlen,
                self.registers == regs_done,
                self.exit_status == old(self).exit_status,
                forall|j: int|
                    address <= j < address + i ==> #[trigger] self.memory@[j] == bin.data@[offset
                        + (j - address)],
                forall|j: int|
                    0 <= j < mlen && !(address <= j < address + i) ==> #[trigger] self.memory@[j]
                        == mem0[j],
            decreases size - i,
        {
            let byte = bin.data[offset + i];
            self.memory[address + i] = byte;
            i += 1;
        }
        self.exit_status = None;
        proof {
            assert(self@.mem =~= splice(
                mem0,
                address as int,
                bin.data@.subrange(offset as int, offset + size),
            ));
        }
        Ok(())
    }

    /// One stack push, as [`spec_push`] states it; a push that would fault
    /// changes nothing.
    pub fn push(&mut self, val: u32) -> (r: Result<(), ExecutionFault>)
        ensures
            match r {
                Ok(_) => spec_push(old(self)@, val) == Ok::<MachineV, ExecutionFault>(
                    final(self)@,
                ),
                Err(e) => spec_push(old(self)@, val) == Err::<MachineV, ExecutionFault>(e)
                    && *final(self) == *old(self),
            },
    {
        let esp = self.registers.esp;
        if esp < 4 {
            return Err(ExecutionFault::MemoryFault);
        }
        let a = ((esp / 4) * 4) as usize;
        if (a as u64) + 4 > self.memory.len() as u64 {
            return Err(ExecutionFault::MemoryFault);
        }
        self.memory[a] = (val % 0x100) as u8;
        self.memory[a + 1] = ((val / 0x100) % 0x100) as u8;
        self.memory[a + 2] = ((val / 0x1_0000) % 0x100) as u8;
        self.memory[a + 3] = ((val / 0x100_0000) % 0x100) as u8;
        self.registers.esp = esp - 4;
        Ok(())
    }

    /// The interrupt dispatcher: vector `0x80` forwards to the syscall
    /// dispatcher with the low byte of `eax`; any other vector faults.
    pub fn handle_interrupt(&mut self, n: u8) -> (r: Result<(), ExecutionFault>)
        ensures
            match r {
                Ok(_) => spec_interrupt(old(self)@, n) == Ok::<MachineV, ExecutionFault>(
                    final(self)@,
                ),
                Err(e) => spec_interrupt(old(self)@, n) == Err::<MachineV, ExecutionFault>(e)
                    && *final(self) == *old(self),
            },
    {
        if n == 0x80 {
            let sys = (self.registers.eax % 0x100) as u8;
            self.syscall(sys)
        } else {
            Err(ExecutionFault::UnknownInterrupt)
        }
    }

    /// The syscall dispatcher: syscall 1 (exit) reads the most recently
    /// pushed word and sets the exit status to its low byte; any other
    /// number faults.
    pub fn syscall(&mut self, n: u8) -> (r: Result<(), ExecutionFault>)
        ensures
            match r {
                Ok(_) => spec_syscall(old(self)@, n) == Ok::<MachineV, ExecutionFault>(
                    final(self)@,
                ),
                Err(e) => spec_syscall(old(self)@, n) == Err::<MachineV, ExecutionFault>(e)
                    && *final(self) == *old(self),
            },
    {
        if n == 1 {
            let esp = self.registers.esp;
            let a64 = (((esp as u64) + 4) / 4) * 4;
            if a64 + 4 > self.memory.len() as u64 {
                return Err(ExecutionFault::MemoryFault);
            }
            let a = a64 as usize;
            let word = crate::bytes::read_u32_at(self.memory.as_slice(), a);
            self.exit_status = Some((word % 0x100) as u8);
            Ok(())
        } else {
            Err(ExecutionFault::UnknownSyscall)
        }
    }

    /// The run phase: the fetch-decode-execute loop, exactly as
    /// [`run_spec`] states it.
    pub fn exec(&mut self) -> (r: Result<(), ExecutionFault>)
        requires
            old(self).memory@.len() <= 0xFFFF_FFFF,
        ensures
            final(self).memory@.len() == old(self).memory@.len(),
            match run_spec(old(self)@) {
                RunOutcome::Halted(mv) => r matches Ok(_) && final(self)@ == mv,
                RunOutcome::Fault(e, mv) => r == Err::<(), ExecutionFault>(e) && final(self)@
                    == mv,
            },
    {
        loop
            invariant
                self.memory@.len() <= 0xFFFF_FFFF,
                self.memory@.len() == old(self).memory@.len(),
                run_spec(self@) == run_spec(old(self)@),
            decreases self.memory@.len() - self.registers.eip,
        {
            let ghost mcur = self@;
            if self.exit_status.is_some() {
                return Ok(());
            }
            let eip = self.registers.eip;
            let len = self.memory.len();
            if (eip as u64) >= len as u64 {
                return Err(ExecutionFault::MemoryFault);
            }
            let op = self.memory[eip as usize];
            if op == 0xb8 {
                // mov eax, imm32
                if (eip as u64) + 5 <= len as u64 {
                    let val = crate::bytes::read_u32_at(
                        self.memory.as_slice(),
                        (eip as usize) + 1,
                    );
                    self.registers.eax = val;
                    self.registers.eip = eip + 5;
                } else {
                    return Err(ExecutionFault::MemoryFault);
                }
            } else if op == 0x6a {
                // push imm8, zero-extended
                if (eip as u64) + 2 <= len as u64 {
                    let val = self.memory[(eip as usize) + 1] as u32;
                    match self.push(val) {
                        Ok(_) => {},
                        Err(e) => {
                            return Err(e);
                        },
                    }
                    self.registers.eip = eip + 2;
                } else {
                    return Err(ExecutionFault::MemoryFault);
                }
            } else if op == 0x50 {
                // push eax
                let val = self.registers.eax;
                match self.push(val) {
                    Ok(_) => {},
                    Err(e) => {
                        return Err(e);
                    },
                }
                self.registers.eip = eip + 1;
            } else if op == 0xcd {
                // int imm8
                if (eip as u64) + 2 <= len as u64 {
                    let vector = self.memory[(eip as usize) + 1];
                    match self.handle_interrupt(vector) {
                        Ok(_) => {},
                        Err(e) => {
                            return Err(e);
                        },
                    }
                    if self.exit_status.is_some() {
                        return Ok(());
                    }
                    self.registers.eip = eip + 2;
                } else {
                    return Err(ExecutionFault::MemoryFault);
                }
            } else {
                return Err(ExecutionFault::IllegalInstruction);
            }
            proof {
                assert(run_spec(mcur) == run_spec(self@));
            }
        }
    }

    /// A whole load-and-run attempt: the load phase, then the run loop.
    pub fn run(&mut self, bin: &Bin) -> (r: Result<(), VmError>)
        requires
            1 <= old(self).memory@.len() <= 0xFFFF_FFFF,
        ensures
            match spec_load(old(self)@, bin@) {
                Ok(m1) => match run_spec(m1) {
                    RunOutcome::Halted(mv) => r matches Ok(_) && final(self)@ == mv,
                    RunOutcome::Fault(e, mv) => r == Err::<(), VmError>(VmError::Exec(e))
                        && final(self)@ == mv,
                },
                Err(e) => r == Err::<(), VmError>(VmError::Load(e)),
            },
    {
        match self.load(bin) {
            Ok(_) => {},
            Err(e) => {
                return Err(VmError::Load(e));
            },
        }
        match self.exec() {
            Ok(_) => Ok(()),
            Err(e) => Err(VmError::Exec(e)),
        }
    }
}

impl Default for X86Registers {
    /// The all-zero register file.
    fn default() -> (r: X86Registers)
        ensures
            r == X86Registers::zeroed(),
    {
        X86Registers {
            eax: 0,
            ebx: 0,
            ecx: 0,
            edx: 0,
            edi: 0,
            esi: 0,
            ebp: 0,
            esp: 0,
            ss: 0,
            eflags: 0,
            eip: 0,
            cs: 0,
            ds: 0,
            es: 0,
            fs: 0,
            gs: 0,
        }
    }
}

} // verus!

