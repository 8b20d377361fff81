//! Instructions as the processors and the debugger read them.
//!
//! The bytes are taken apart by the `iced_x86` decoder, which hands over a
//! row of plain numbers. Everything that follows from those numbers is done
//! and proved here.

use iced_x86::{Decoder, DecoderOptions};
use vstd::prelude::*;

verus! {

/// The registers the machine has, and `Other` for the rest of the decoder's.
#[derive(Clone, Copy, Debug, PartialEq, Eq, Structural)]
pub enum Register {
    Absent,
    AL,
    CL,
    DL,
    BL,
    AH,
    CH,
    DH,
    BH,
    AX,
    CX,
    DX,
    BX,
    SP,
    BP,
    SI,
    DI,
    EAX,
    ECX,
    EDX,
    EBX,
    ESP,
    EBP,
    ESI,
    EDI,
    ES,
    CS,
    SS,
    DS,
    FS,
    GS,
    Other,
}

/// What an operand is.
#[derive(Clone, Copy, Debug, PartialEq, Eq, Structural)]
pub enum OpKind {
    Register,
    NearBranch16,
    NearBranch32,
    NearBranch64,
    FarBranch16,
    Immediate8,
    Immediate16,
    Immediate8to16,
    Memory,
    Other,
}

/// The sizes of memory operands that matter here.
#[derive(Clone, Copy, Debug, PartialEq, Eq, Structural)]
pub enum MemorySize {
    UInt8,
    Int16,
    Int32,
    Int64,
    Float80,
    Other,
}

/// The instructions the 16-bit processor runs, and those that tracing and
/// stepping tell apart.
#[derive(Clone, Copy, Debug, PartialEq, Eq, Structural)]
pub enum Mnemonic {
    Aaa,
    Adc,
    Add,
    And,
    Call,
    Clc,
    Cld,
    Cli,
    Compare,
    Das,
    Dec,
    Fstp,
    Imul,
    In,
    Inc,
    Int,
    Jae,
    Jb,
    Jbe,
    Jcxz,
    Je,
    Jl,
    Jle,
    Jmp,
    Jne,
    Jo,
    Lds,
    Lea,
    Les,
    Lodsb,
    Lodsw,
    Loop,
    Loope,
    Loopne,
    Mov,
    Movsb,
    Movsw,
    Mul,
    Not,
    Or,
    Out,
    Pop,
    Popa,
    Popf,
    Push,
    Pushf,
    Ret,
    Retf,
    Sahf,
    Sal,
    Sar,
    Sbb,
    Scasb,
    Shl,
    Shr,
    Stc,
    Std,
    Sti,
    Stosb,
    Stosw,
    Sub,
    Test,
    Wait,
    Xchg,
    Xor,
    Other,
}

/// Where an instruction passes control.
#[derive(Clone, Copy, Debug, PartialEq, Eq, Structural)]
pub enum Flow {
    Next,
    Call,
    IndirectCall,
    Interrupt,
    Other,
}

/// A decoded instruction.
#[derive(Clone, Copy, Debug, PartialEq, Eq, Structural)]
pub struct Instruction {
    pub mnemonic: Mnemonic,
    pub op_count: u32,
    pub op0_kind: OpKind,
    pub op1_kind: OpKind,
    pub op0_register: Register,
    pub op1_register: Register,
    pub memory_base: Register,
    pub memory_index: Register,
    pub memory_index_scale: u8,
    pub memory_displacement: u32,
    pub memory_segment: Register,
    pub segment_prefix: Register,
    pub memory_size: MemorySize,
    /// The immediate operand's low word.
    pub immediate: u16,
    pub rep_prefix: bool,
    pub repne_prefix: bool,
    pub flow: Flow,
    pub invalid: bool,
    pub string: bool,
    pub len: u8,
}

/// How many numbers the decoder's row holds.
pub const DECODED_FIELDS: usize = 20;

/// What `iced_x86::Decoder` makes of the first instruction of `bytes`, in
/// code of `bitness` bits at address `ip`, as a row of numbers: mnemonic,
/// number of operands, kinds of the first two operands, their registers,
/// memory base, index, scale, displacement, segment and segment prefix,
/// memory size, 16-bit immediate, REP and REPNE prefix, flow control,
/// whether the bytes are no instruction, whether it is a string instruction,
/// and its length.
pub uninterp spec fn decoded(bitness: u32, bytes: Seq<u8>, ip: u64) -> Seq<u64>;

/// `iced_x86::Decoder::with_ip` and `decode`: the numbers of the first
/// instruction of `bytes`, one for each field of the row. It panics for other
/// bitnesses than 16, 32 and 64, and what it returns depends on the arguments
/// alone. Which numbers come for which bytes is left to the name.
#[verifier::external_body]
fn decode_fields(bitness: u32, bytes: &[u8], ip: u64) -> (row: Vec<u64>)
    requires
        bitness == 16 || bitness == 32,
    ensures
        row@ == decoded(bitness, bytes@, ip),
        row@.len() == DECODED_FIELDS,
{
    let i = Decoder::with_ip(bitness, bytes, ip, DecoderOptions::NONE).decode();
    vec![
        i.mnemonic() as u64, i.op_count() as u64, i.op0_kind() as u64, i.op1_kind() as u64,
        i.op0_register() as u64, i.op1_register() as u64, i.memory_base() as u64,
        i.memory_index() as u64, i.memory_index_scale() as u64, i.memory_displacement32() as u64,
        i.memory_segment() as u64, i.segment_prefix() as u64, i.memory_size() as u64,
        i.immediate16() as u64, i.has_rep_prefix() as u64, i.has_repne_prefix() as u64,
        i.flow_control() as u64, i.is_invalid() as u64, i.is_string_instruction() as u64,
        i.len() as u64,
    ]
}

/// The register that the decoder numbers so.
pub open spec fn register_of(number: u64) -> Register {
    match number {
        0 => Register::Absent,
        1 => Register::AL,
        2 => Register::CL,
        3 => Register::DL,
        4 => Register::BL,
        5 => Register::AH,
        6 => Register::CH,
        7 => Register::DH,
        8 => Register::BH,
        21 => Register::AX,
        22 => Register::CX,
        23 => Register::DX,
        24 => Register::BX,
        25 => Register::SP,
        26 => Register::BP,
        27 => Register::SI,
        28 => Register::DI,
        37 => Register::EAX,
        38 => Register::ECX,
        39 => Register::EDX,
        40 => Register::EBX,
        41 => Register::ESP,
        42 => Register::EBP,
        43 => Register::ESI,
        44 => Register::EDI,
        71 => Register::ES,
        72 => Register::CS,
        73 => Register::SS,
        74 => Register::DS,
        75 => Register::FS,
        76 => Register::GS,
        _ => Register::Other,
    }
}

fn to_register_of(number: u64) -> (r: Register)
    ensures
        r == register_of(number),
{
    match number {
        0 => Register::Absent,
        1 => Register::AL,
        2 => Register::CL,
        3 => Register::DL,
        4 => Register::BL,
        5 => Register::AH,
        6 => Register::CH,
        7 => Register::DH,
        8 => Register::BH,
        21 => Register::AX,
        22 => Register::CX,
        23 => Register::DX,
        24 => Register::BX,
        25 => Register::SP,
        26 => Register::BP,
        27 => Register::SI,
        28 => Register::DI,
        37 => Register::EAX,
        38 => Register::ECX,
        39 => Register::EDX,
        40 => Register::EBX,
        41 => Register::ESP,
        42 => Register::EBP,
        43 => Register::ESI,
        44 => Register::EDI,
        71 => Register::ES,
        72 => Register::CS,
        73 => Register::SS,
        74 => Register::DS,
        75 => Register::FS,
        76 => Register::GS,
        _ => Register::Other,
    }
}

/// The operand kind that the decoder numbers so.
pub open spec fn op_kind_of(number: u64) -> OpKind {
    match number {
        0 => OpKind::Register,
        1 => OpKind::NearBranch16,
        2 => OpKind::NearBranch32,
        3 => OpKind::NearBranch64,
        4 => OpKind::FarBranch16,
        6 => OpKind::Immediate8,
        8 => OpKind::Immediate16,
        11 => OpKind::Immediate8to16,
        24 => OpKind::Memory,
        _ => OpKind::Other,
    }
}

fn to_op_kind_of(number: u64) -> (r: OpKind)
    ensures
        r == op_kind_of(number),
{
    match number {
        0 => OpKind::Register,
        1 => OpKind::NearBranch16,
        2 => OpKind::NearBranch32,
        3 => OpKind::NearBranch64,
        4 => OpKind::FarBranch16,
        6 => OpKind::Immediate8,
        8 => OpKind::Immediate16,
        11 => OpKind::Immediate8to16,
        24 => OpKind::Memory,
        _ => OpKind::Other,
    }
}

/// The memory size that the decoder numbers so.
pub open spec fn memory_size_of(number: u64) -> MemorySize {
    match number {
        1 => MemorySize::UInt8,
        10 => MemorySize::Int16,
        11 => MemorySize::Int32,
        12 => MemorySize::Int64,
        31 => MemorySize::Float80,
        _ => MemorySize::Other,
    }
}

fn to_memory_size_of(number: u64) -> (r: MemorySize)
    ensures
        r == memory_size_of(number),
{
    match number {
        1 => MemorySize::UInt8,
        10 => MemorySize::Int16,
        11 => MemorySize::Int32,
        12 => MemorySize::Int64,
        31 => MemorySize::Float80,
        _ => MemorySize::Other,
    }
}

/// The flow control that the decoder numbers so.
pub open spec fn flow_of(number: u64) -> Flow {
    match number {
        0 => Flow::Next,
        5 => Flow::Call,
        6 => Flow::IndirectCall,
        7 => Flow::Interrupt,
        _ => Flow::Other,
    }
}

fn to_flow_of(number: u64) -> (r: Flow)
    ensures
        r == flow_of(number),
{
    match number {
        0 => Flow::Next,
        5 => Flow::Call,
        6 => Flow::IndirectCall,
        7 => Flow::Interrupt,
        _ => Flow::Other,
    }
}

/// The instruction that the decoder numbers so.
pub open spec fn mnemonic_of(number: u64) -> Mnemonic {
    match number {
        1 => Mnemonic::Aaa,
        5 => Mnemonic::Adc,
        7 => Mnemonic::Add,
        21 => Mnemonic::And,
        59 => Mnemonic::Call,
        65 => Mnemonic::Clc,
        66 => Mnemonic::Cld,
        71 => Mnemonic::Cli,
        93 => Mnemonic::Compare,
        134 => Mnemonic::Das,
        137 => Mnemonic::Dec,
        243 => Mnemonic::Fstp,
        277 => Mnemonic::Imul,
        278 => Mnemonic::In,
        279 => Mnemonic::Inc,
        287 => Mnemonic::Int,
        298 => Mnemonic::Jae,
        299 => Mnemonic::Jb,
        300 => Mnemonic::Jbe,
        301 => Mnemonic::Jcxz,
        302 => Mnemonic::Je,
        306 => Mnemonic::Jl,
        307 => Mnemonic::Jle,
        308 => Mnemonic::Jmp,
        310 => Mnemonic::Jne,
        314 => Mnemonic::Jo,
        373 => Mnemonic::Lds,
        374 => Mnemonic::Lea,
        376 => Mnemonic::Les,
        386 => Mnemonic::Lodsb,
        389 => Mnemonic::Lodsw,
        390 => Mnemonic::Loop,
        391 => Mnemonic::Loope,
        392 => Mnemonic::Loopne,
        414 => Mnemonic::Mov,
        443 => Mnemonic::Movsb,
        449 => Mnemonic::Movsw,
        456 => Mnemonic::Mul,
        466 => Mnemonic::Not,
        467 => Mnemonic::Or,
        470 => Mnemonic::Out,
        590 => Mnemonic::Pop,
        591 => Mnemonic::Popa,
        593 => Mnemonic::Popf,
        640 => Mnemonic::Push,
        642 => Mnemonic::Pushf,
        662 => Mnemonic::Ret,
        663 => Mnemonic::Retf,
        675 => Mnemonic::Sahf,
        676 => Mnemonic::Sal,
        678 => Mnemonic::Sar,
        681 => Mnemonic::Sbb,
        682 => Mnemonic::Scasb,
        712 => Mnemonic::Shl,
        715 => Mnemonic::Shr,
        730 => Mnemonic::Stc,
        731 => Mnemonic::Std,
        733 => Mnemonic::Sti,
        735 => Mnemonic::Stosb,
        738 => Mnemonic::Stosw,
        740 => Mnemonic::Sub,
        751 => Mnemonic::Test,
        1494 => Mnemonic::Wait,
        1509 => Mnemonic::Xchg,
        1518 => Mnemonic::Xor,
        _ => Mnemonic::Other,
    }
}

fn to_mnemonic_of(number: u64) -> (r: Mnemonic)
    ensures
        r == mnemonic_of(number),
{
    match number {
        1 => Mnemonic::Aaa,
        5 => Mnemonic::Adc,
        7 => Mnemonic::Add,
        21 => Mnemonic::And,
        59 => Mnemonic::Call,
        65 => Mnemonic::Clc,
        66 => Mnemonic::Cld,
        71 => Mnemonic::Cli,
        93 => Mnemonic::Compare,
        134 => Mnemonic::Das,
        137 => Mnemonic::Dec,
        243 => Mnemonic::Fstp,
        277 => Mnemonic::Imul,
        278 => Mnemonic::In,
        279 => Mnemonic::Inc,
        287 => Mnemonic::Int,
        298 => Mnemonic::Jae,
        299 => Mnemonic::Jb,
        300 => Mnemonic::Jbe,
        301 => Mnemonic::Jcxz,
        302 => Mnemonic::Je,
        306 => Mnemonic::Jl,
        307 => Mnemonic::Jle,
        308 => Mnemonic::Jmp,
        310 => Mnemonic::Jne,
        314 => Mnemonic::Jo,
        373 => Mnemonic::Lds,
        374 => Mnemonic::Lea,
        376 => Mnemonic::Les,
        386 => Mnemonic::Lodsb,
        389 => Mnemonic::Lodsw,
        390 => Mnemonic::Loop,
        391 => Mnemonic::Loope,
        392 => Mnemonic::Loopne,
        414 => Mnemonic::Mov,
        443 => Mnemonic::Movsb,
        449 => Mnemonic::Movsw,
        456 => Mnemonic::Mul,
        466 => Mnemonic::Not,
        467 => Mnemonic::Or,
        470 => Mnemonic::Out,
        590 => Mnemonic::Pop,
        591 => Mnemonic::Popa,
        593 => Mnemonic::Popf,
        640 => Mnemonic::Push,
        642 => Mnemonic::Pushf,
        662 => Mnemonic::Ret,
        663 => Mnemonic::Retf,
        675 => Mnemonic::Sahf,
        676 => Mnemonic::Sal,
        678 => Mnemonic::Sar,
        681 => Mnemonic::Sbb,
        682 => Mnemonic::Scasb,
        712 => Mnemonic::Shl,
        715 => Mnemonic::Shr,
        730 => Mnemonic::Stc,
        731 => Mnemonic::Std,
        733 => Mnemonic::Sti,
        735 => Mnemonic::Stosb,
        738 => Mnemonic::Stosw,
        740 => Mnemonic::Sub,
        751 => Mnemonic::Test,
        1494 => Mnemonic::Wait,
        1509 => Mnemonic::Xchg,
        1518 => Mnemonic::Xor,
        _ => Mnemonic::Other,
    }
}

/// The instruction that a row of the decoder's numbers describes.
pub open spec fn instruction_of(row: Seq<u64>) -> Instruction {
    Instruction {
        mnemonic: mnemonic_of(row[0]),
        op_count: row[1] as u32,
        op0_kind: op_kind_of(row[2]),
        op1_kind: op_kind_of(row[3]),
        op0_register: register_of(row[4]),
        op1_register: register_of(row[5]),
        memory_base: register_of(row[6]),
        memory_index: register_of(row[7]),
        memory_index_scale: row[8] as u8,
        memory_displacement: row[9] as u32,
        memory_segment: register_of(row[10]),
        segment_prefix: register_of(row[11]),
        memory_size: memory_size_of(row[12]),
        immediate: row[13] as u16,
        rep_prefix: row[14] != 0,
        repne_prefix: row[15] != 0,
        flow: flow_of(row[16]),
        invalid: row[17] != 0,
        string: row[18] != 0,
        len: row[19] as u8,
    }
}

/// Read a row of the decoder's numbers.
pub fn instruction_from(row: &[u64]) -> (instruction: Instruction)
    requires
        row@.len() == DECODED_FIELDS,
    ensures
        instruction == instruction_of(row@),
{
    Instruction {
        mnemonic: to_mnemonic_of(row[0]),
        op_count: row[1] as u32,
        op0_kind: to_op_kind_of(row[2]),
        op1_kind: to_op_kind_of(row[3]),
        op0_register: to_register_of(row[4]),
        op1_register: to_register_of(row[5]),
        memory_base: to_register_of(row[6]),
        memory_index: to_register_of(row[7]),
        memory_index_scale: row[8] as u8,
        memory_displacement: row[9] as u32,
        memory_segment: to_register_of(row[10]),
        segment_prefix: to_register_of(row[11]),
        memory_size: to_memory_size_of(row[12]),
        immediate: row[13] as u16,
        rep_prefix: row[14] != 0,
        repne_prefix: row[15] != 0,
        flow: to_flow_of(row[16]),
        invalid: row[17] != 0,
        string: row[18] != 0,
        len: row[19] as u8,
    }
}

/// The first instruction of `bytes` in 16-bit code at `ip`.
pub fn decode_16(bytes: &[u8], ip: u16) -> (instruction: Instruction)
    ensures
        instruction == instruction_of(decoded(16, bytes@, ip as u64)),
{
    let row = decode_fields(16, bytes, ip as u64);
    instruction_from(row.as_slice())
}

/// The first instruction of `bytes` in 16-bit or 32-bit code, where the
/// address does not matter.
pub fn decode_at_zero(bytes: &[u8], code32: bool) -> (instruction: Instruction)
    ensures
        instruction == instruction_of(decoded(if code32 { 32 } else { 16 }, bytes@, 0)),
{
    let bitness: u32 = if code32 {
        32
    } else {
        16
    };
    let row = decode_fields(bitness, bytes, 0);
    instruction_from(row.as_slice())
}

/// The first instruction of `bytes` in 16-bit or 32-bit code at `ip`.
pub fn decode_at(bytes: &[u8], ip: u32, code32: bool) -> (instruction: Instruction)
    ensures
        instruction == instruction_of(decoded(if code32 { 32 } else { 16 }, bytes@, ip as u64)),
{
    let bitness: u32 = if code32 {
        32
    } else {
        16
    };
    let row = decode_fields(bitness, bytes, ip as u64);
    instruction_from(row.as_slice())
}

/// How `iced_x86` writes the first instruction of `bytes`, in code of
/// `bitness` bits at address `ip`.
pub uninterp spec fn written(bitness: u32, bytes: Seq<u8>, ip: u64) -> Seq<char>;

/// `Display` of `iced_x86::Instruction`, after `iced_x86::Decoder::with_ip`
/// and `decode`: the text of the first instruction of `bytes`, in the syntax
/// of MASM. It depends on the arguments alone; which text it is, is left to
/// the name.
#[verifier::external_body]
fn write_instruction(bitness: u32, bytes: &[u8], ip: u64) -> (text: String)
    requires
        bitness == 16 || bitness == 32,
    ensures
        text@ == written(bitness, bytes@, ip),
{
    format!("{}", Decoder::with_ip(bitness, bytes, ip, DecoderOptions::NONE).decode())
}

/// The text of the first instruction of `bytes` in 16-bit or 32-bit code at
/// `ip`.
pub fn text_at(bytes: &[u8], ip: u32, code32: bool) -> (text: String)
    ensures
        text@ == written(if code32 { 32 } else { 16 }, bytes@, ip as u64),
{
    let bitness: u32 = if code32 {
        32
    } else {
        16
    };
    write_instruction(bitness, bytes, ip as u64)
}

} // verus!
