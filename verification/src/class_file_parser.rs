//! The class artifact parser and the bytecode decoder.
//!
//! The decoder turns a method's raw code bytes into a vector of decoded
//! instructions of the same length: the instruction whose first byte sits at
//! offset `k` lands in slot `k`, and the slots its operand bytes occupied are
//! padded with `Nop`. Byte-relative branch offsets therefore apply to decoded
//! indices unchanged. `decode_from` is the decoder's specification;
//! `bytes_to_bytecode` succeeds exactly when it does.
use vstd::prelude::*;

use crate::bytecode::{from_type_id_spec, Comparison, Instruction, Primitive, PrimitiveType};
use crate::error::{kind_of, ErrorKind, JvmError};
use crate::java_class::{ConstantPoolEntry, CpEntryModel};
use crate::jvm::{Class, Method};
use crate::reader::Reader;
use crate::text;

verus! {

/// The signed 16-bit big-endian value of two bytes, widened to `i32`.
pub open spec fn s16_val(b0: u8, b1: u8) -> i32 {
    ((b0 as int * 256 + b1 as int) as i16) as i32
}

/// Reads a signed 16-bit big-endian value; see `s16_val`.
#[verifier::when_used_as_spec(s16_val)]
pub fn s16(b0: u8, b1: u8) -> (r: i32)
    ensures
        r == s16_val(b0, b1),
{
    (((b0 as u16) * 256 + (b1 as u16)) as i16) as i32
}

/// The signed 32-bit big-endian value of four bytes.
pub open spec fn s32_val(b0: u8, b1: u8, b2: u8, b3: u8) -> i32 {
    ((b0 as int * 0x100_0000 + b1 as int * 0x1_0000 + b2 as int * 0x100 + b3 as int) as i32)
}

/// Reads a signed 32-bit big-endian value; see `s32_val`.
#[verifier::when_used_as_spec(s32_val)]
pub fn s32(b0: u8, b1: u8, b2: u8, b3: u8) -> (r: i32)
    ensures
        r == s32_val(b0, b1, b2, b3),
{
    let v: u32 = (b0 as u32) * 0x100_0000 + (b1 as u32) * 0x1_0000 + (b2 as u32) * 0x100 + (
    b3 as u32);
    #[verifier::truncate] (v as i32)
}

/// The unsigned 16-bit big-endian value of two bytes, as an index.
pub open spec fn u2_val(b0: u8, b1: u8) -> usize {
    (b0 as int * 256 + b1 as int) as usize
}

/// Reads an unsigned 16-bit big-endian index; see `u2_val`.
#[verifier::when_used_as_spec(u2_val)]
pub fn u2v(b0: u8, b1: u8) -> (r: usize)
    ensures
        r == u2_val(b0, b1),
{
    (b0 as usize) * 256 + (b1 as usize)
}

/// How many bytes the instruction starting with this opcode occupies, or
/// `None` for an opcode the decoder does not support.
pub open spec fn op_len(op: u8) -> Option<int> {
    match op {
        0u8 => Some(1int),
        1u8 => Some(1int),
        2u8 => Some(1int),
        3u8 => Some(1int),
        4u8 => Some(1int),
        5u8 => Some(1int),
        6u8 => Some(1int),
        7u8 => Some(1int),
        8u8 => Some(1int),
        9u8 => Some(1int),
        10u8 => Some(1int),
        11u8 => Some(1int),
        12u8 => Some(1int),
        13u8 => Some(1int),
        14u8 => Some(1int),
        15u8 => Some(1int),
        16u8 => Some(2int),
        17u8 => Some(3int),
        18u8 => Some(2int),
        19u8 => Some(3int),
        20u8 => Some(3int),
        21u8 => Some(2int),
        22u8 => Some(2int),
        23u8 => Some(2int),
        24u8 => Some(2int),
        25u8 => Some(2int),
        26u8 => Some(1int),
        27u8 => Some(1int),
        28u8 => Some(1int),
        29u8 => Some(1int),
        30u8 => Some(1int),
        31u8 => Some(1int),
        32u8 => Some(1int),
        33u8 => Some(1int),
        34u8 => Some(1int),
        35u8 => Some(1int),
        36u8 => Some(1int),
        37u8 => Some(1int),
        38u8 => Some(1int),
        39u8 => Some(1int),
        40u8 => Some(1int),
        41u8 => Some(1int),
        42u8 => Some(1int),
        43u8 => Some(1int),
        44u8 => Some(1int),
        45u8 => Some(1int),
        46u8 => Some(1int),
        47u8 => Some(1int),
        48u8 => Some(1int),
        49u8 => Some(1int),
        50u8 => Some(1int),
        51u8 => Some(1int),
        52u8 => Some(1int),
        53u8 => Some(1int),
        54u8 => Some(2int),
        55u8 => Some(2int),
        56u8 => Some(2int),
        57u8 => Some(2int),
        58u8 => Some(2int),
        59u8 => Some(1int),
        60u8 => Some(1int),
        61u8 => Some(1int),
        62u8 => Some(1int),
        63u8 => Some(1int),
        64u8 => Some(1int),
        65u8 => Some(1int),
        66u8 => Some(1int),
        67u8 => Some(1int),
        68u8 => Some(1int),
        69u8 => Some(1int),
        70u8 => Some(1int),
        71u8 => Some(1int),
        72u8 => Some(1int),
        73u8 => Some(1int),
        74u8 => Some(1int),
        75u8 => Some(1int),
        76u8 => Some(1int),
        77u8 => Some(1int),
        78u8 => Some(1int),
        79u8 => Some(1int),
        80u8 => Some(1int),
        81u8 => Some(1int),
        82u8 => Some(1int),
        83u8 => Some(1int),
        84u8 => Some(1int),
        85u8 => Some(1int),
        86u8 => Some(1int),
        87u8 => Some(1int),
        88u8 => Some(1int),
        89u8 => Some(1int),
        90u8 => Some(1int),
        91u8 => Some(1int),
        92u8 => Some(1int),
        93u8 => Some(1int),
        94u8 => Some(1int),
        95u8 => Some(1int),
        96u8 => Some(1int),
        97u8 => Some(1int),
        98u8 => Some(1int),
        99u8 => Some(1int),
        100u8 => Some(1int),
        101u8 => Some(1int),
        102u8 => Some(1int),
        103u8 => Some(1int),
        104u8 => Some(1int),
        105u8 => Some(1int),
        106u8 => Some(1int),
        107u8 => Some(1int),
        108u8 => Some(1int),
        109u8 => Some(1int),
        110u8 => Some(1int),
        111u8 => Some(1int),
        112u8 => Some(1int),
        113u8 => Some(1int),
        114u8 => Some(1int),
        115u8 => Some(1int),
        116u8 => Some(1int),
        117u8 => Some(1int),
        118u8 => Some(1int),
        119u8 => Some(1int),
        120u8 => Some(1int),
        121u8 => Some(1int),
        122u8 => Some(1int),
        123u8 => Some(1int),
        124u8 => Some(1int),
        125u8 => Some(1int),
        126u8 => Some(1int),
        127u8 => Some(1int),
        128u8 => Some(1int),
        129u8 => Some(1int),
        130u8 => Some(1int),
        131u8 => Some(1int),
        132u8 => Some(3int),
        133u8 => Some(1int),
        134u8 => Some(1int),
        135u8 => Some(1int),
        136u8 => Some(1int),
        137u8 => Some(1int),
        138u8 => Some(1int),
        139u8 => Some(1int),
        140u8 => Some(1int),
        141u8 => Some(1int),
        142u8 => Some(1int),
        143u8 => Some(1int),
        144u8 => Some(1int),
        145u8 => Some(1int),
        146u8 => Some(1int),
        147u8 => Some(1int),
        148u8 => Some(1int),
        149u8 => Some(1int),
        150u8 => Some(1int),
        151u8 => Some(1int),
        152u8 => Some(1int),
        153u8 => Some(3int),
        154u8 => Some(3int),
        155u8 => Some(3int),
        156u8 => Some(3int),
        157u8 => Some(3int),
        158u8 => Some(3int),
        159u8 => Some(3int),
        160u8 => Some(3int),
        161u8 => Some(3int),
        162u8 => Some(3int),
        163u8 => Some(3int),
        164u8 => Some(3int),
        165u8 => Some(3int),
        166u8 => Some(3int),
        167u8 => Some(3int),
        168u8 => Some(3int),
        169u8 => Some(2int),
        172u8 => Some(1int),
        173u8 => Some(1int),
        174u8 => Some(1int),
        175u8 => Some(1int),
        176u8 => Some(1int),
        177u8 => Some(1int),
        178u8 => Some(3int),
        179u8 => Some(3int),
        180u8 => Some(3int),
        181u8 => Some(3int),
        182u8 => Some(3int),
        183u8 => Some(3int),
        184u8 => Some(3int),
        185u8 => Some(3int),
        186u8 => Some(3int),
        187u8 => Some(3int),
        188u8 => Some(2int),
        189u8 => Some(3int),
        190u8 => Some(1int),
        191u8 => Some(1int),
        192u8 => Some(3int),
        193u8 => Some(3int),
        194u8 => Some(1int),
        195u8 => Some(1int),
        197u8 => Some(4int),
        198u8 => Some(3int),
        199u8 => Some(3int),
        200u8 => Some(5int),
        201u8 => Some(5int),
        202u8 => Some(1int),
        _ => None,
    }
}

/// The executable twin of `op_len`.
fn op_len_of(op: u8) -> (r: Option<usize>)
    ensures
        match op_len(op) {
            Some(l) => r is Some && r->Some_0 == l,
            None => r is None,
        },
{
    match op {
        0u8 => Some(1usize),
        1u8 => Some(1usize),
        2u8 => Some(1usize),
        3u8 => Some(1usize),
        4u8 => Some(1usize),
        5u8 => Some(1usize),
        6u8 => Some(1usize),
        7u8 => Some(1usize),
        8u8 => Some(1usize),
        9u8 => Some(1usize),
        10u8 => Some(1usize),
        11u8 => Some(1usize),
        12u8 => Some(1usize),
        13u8 => Some(1usize),
        14u8 => Some(1usize),
        15u8 => Some(1usize),
        16u8 => Some(2usize),
        17u8 => Some(3usize),
        18u8 => Some(2usize),
        19u8 => Some(3usize),
        20u8 => Some(3usize),
        21u8 => Some(2usize),
        22u8 => Some(2usize),
        23u8 => Some(2usize),
        24u8 => Some(2usize),
        25u8 => Some(2usize),
        26u8 => Some(1usize),
        27u8 => Some(1usize),
        28u8 => Some(1usize),
        29u8 => Some(1usize),
        30u8 => Some(1usize),
        31u8 => Some(1usize),
        32u8 => Some(1usize),
        33u8 => Some(1usize),
        34u8 => Some(1usize),
        35u8 => Some(1usize),
        36u8 => Some(1usize),
        37u8 => Some(1usize),
        38u8 => Some(1usize),
        39u8 => Some(1usize),
        40u8 => Some(1usize),
        41u8 => Some(1usize),
        42u8 => Some(1usize),
        43u8 => Some(1usize),
        44u8 => Some(1usize),
        45u8 => Some(1usize),
        46u8 => Some(1usize),
        47u8 => Some(1usize),
        48u8 => Some(1usize),
        49u8 => Some(1usize),
        50u8 => Some(1usize),
        51u8 => Some(1usize),
        52u8 => Some(1usize),
        53u8 => Some(1usize),
        54u8 => Some(2usize),
        55u8 => Some(2usize),
        56u8 => Some(2usize),
        57u8 => Some(2usize),
        58u8 => Some(2usize),
        59u8 => Some(1usize),
        60u8 => Some(1usize),
        61u8 => Some(1usize),
        62u8 => Some(1usize),
        63u8 => Some(1usize),
        64u8 => Some(1usize),
        65u8 => Some(1usize),
        66u8 => Some(1usize),
        67u8 => Some(1usize),
        68u8 => Some(1usize),
        69u8 => Some(1usize),
        70u8 => Some(1usize),
        71u8 => Some(1usize),
        72u8 => Some(1usize),
        73u8 => Some(1usize),
        74u8 => Some(1usize),
        75u8 => Some(1usize),
        76u8 => Some(1usize),
        77u8 => Some(1usize),
        78u8 => Some(1usize),
        79u8 => Some(1usize),
        80u8 => Some(1usize),
        81u8 => Some(1usize),
        82u8 => Some(1usize),
        83u8 => Some(1usize),
        84u8 => Some(1usize),
        85u8 => Some(1usize),
        86u8 => Some(1usize),
        87u8 => Some(1usize),
        88u8 => Some(1usize),
        89u8 => Some(1usize),
        90u8 => Some(1usize),
        91u8 => Some(1usize),
        92u8 => Some(1usize),
        93u8 => Some(1usize),
        94u8 => Some(1usize),
        95u8 => Some(1usize),
        96u8 => Some(1usize),
        97u8 => Some(1usize),
        98u8 => Some(1usize),
        99u8 => Some(1usize),
        100u8 => Some(1usize),
        101u8 => Some(1usize),
        102u8 => Some(1usize),
        103u8 => Some(1usize),
        104u8 => Some(1usize),
        105u8 => Some(1usize),
        106u8 => Some(1usize),
        107u8 => Some(1usize),
        108u8 => Some(1usize),
        109u8 => Some(1usize),
        110u8 => Some(1usize),
        111u8 => Some(1usize),
        112u8 => Some(1usize),
        113u8 => Some(1usize),
        114u8 => Some(1usize),
        115u8 => Some(1usize),
        116u8 => Some(1usize),
        117u8 => Some(1usize),
        118u8 => Some(1usize),
        119u8 => Some(1usize),
        120u8 => Some(1usize),
        121u8 => Some(1usize),
        122u8 => Some(1usize),
        123u8 => Some(1usize),
        124u8 => Some(1usize),
        125u8 => Some(1usize),
        126u8 => Some(1usize),
        127u8 => Some(1usize),
        128u8 => Some(1usize),
        129u8 => Some(1usize),
        130u8 => Some(1usize),
        131u8 => Some(1usize),
        132u8 => Some(3usize),
        133u8 => Some(1usize),
        134u8 => Some(1usize),
        135u8 => Some(1usize),
        136u8 => Some(1usize),
        137u8 => Some(1usize),
        138u8 => Some(1usize),
        139u8 => Some(1usize),
        140u8 => Some(1usize),
        141u8 => Some(1usize),
        142u8 => Some(1usize),
        143u8 => Some(1usize),
        144u8 => Some(1usize),
        145u8 => Some(1usize),
        146u8 => Some(1usize),
        147u8 => Some(1usize),
        148u8 => Some(1usize),
        149u8 => Some(1usize),
        150u8 => Some(1usize),
        151u8 => Some(1usize),
        152u8 => Some(1usize),
        153u8 => Some(3usize),
        154u8 => Some(3usize),
        155u8 => Some(3usize),
        156u8 => Some(3usize),
        157u8 => Some(3usize),
        158u8 => Some(3usize),
        159u8 => Some(3usize),
        160u8 => Some(3usize),
        161u8 => Some(3usize),
        162u8 => Some(3usize),
        163u8 => Some(3usize),
        164u8 => Some(3usize),
        165u8 => Some(3usize),
        166u8 => Some(3usize),
        167u8 => Some(3usize),
        168u8 => Some(3usize),
        169u8 => Some(2usize),
        172u8 => Some(1usize),
        173u8 => Some(1usize),
        174u8 => Some(1usize),
        175u8 => Some(1usize),
        176u8 => Some(1usize),
        177u8 => Some(1usize),
        178u8 => Some(3usize),
        179u8 => Some(3usize),
        180u8 => Some(3usize),
        181u8 => Some(3usize),
        182u8 => Some(3usize),
        183u8 => Some(3usize),
        184u8 => Some(3usize),
        185u8 => Some(3usize),
        186u8 => Some(3usize),
        187u8 => Some(3usize),
        188u8 => Some(2usize),
        189u8 => Some(3usize),
        190u8 => Some(1usize),
        191u8 => Some(1usize),
        192u8 => Some(3usize),
        193u8 => Some(3usize),
        194u8 => Some(1usize),
        195u8 => Some(1usize),
        197u8 => Some(4usize),
        198u8 => Some(3usize),
        199u8 => Some(3usize),
        200u8 => Some(5usize),
        201u8 => Some(5usize),
        202u8 => Some(1usize),
        _ => None,
    }
}

/// The instruction the bytes at `pc` decode to, assuming the opcode is
/// supported and its operands are in bounds.
pub open spec fn decode_payload(code: Seq<u8>, pc: int) -> Instruction {
    let op = code[pc];
    let b1 = code[pc + 1];
    let b2 = code[pc + 2];
    let b3 = code[pc + 3];
    let b4 = code[pc + 4];
    match op {
        0u8 => Instruction::Nop,
        1u8 => Instruction::AConstNull,
        2u8 => Instruction::Const(Primitive::Int(-1i32)),
        3u8 => Instruction::Const(Primitive::Int(0)),
        4u8 => Instruction::Const(Primitive::Int(1)),
        5u8 => Instruction::Const(Primitive::Int(2)),
        6u8 => Instruction::Const(Primitive::Int(3)),
        7u8 => Instruction::Const(Primitive::Int(4)),
        8u8 => Instruction::Const(Primitive::Int(5)),
        9u8 => Instruction::Const(Primitive::Long(0)),
        10u8 => Instruction::Const(Primitive::Long(1)),
        11u8 => Instruction::Const(Primitive::Float(0)),
        12u8 => Instruction::Const(Primitive::Float(0x3F80_0000)),
        13u8 => Instruction::Const(Primitive::Float(0x4000_0000)),
        14u8 => Instruction::Const(Primitive::Double(0)),
        15u8 => Instruction::Const(Primitive::Double(0x3FF0_0000_0000_0000)),
        16u8 => Instruction::Const(Primitive::Int((b1 as i8) as i32)),
        17u8 => Instruction::Const(Primitive::Int(s16(b1, b2))),
        18u8 => Instruction::LoadConst(b1 as usize),
        19u8 => Instruction::LoadConst(u2v(b1, b2)),
        20u8 => Instruction::LoadConst(u2v(b1, b2)),
        21u8 => Instruction::Load(b1 as usize, PrimitiveType::Int),
        22u8 => Instruction::Load(b1 as usize, PrimitiveType::Long),
        23u8 => Instruction::Load(b1 as usize, PrimitiveType::Float),
        24u8 => Instruction::Load(b1 as usize, PrimitiveType::Double),
        25u8 => Instruction::Load(b1 as usize, PrimitiveType::Reference),
        26u8 => Instruction::Load(0, PrimitiveType::Int),
        27u8 => Instruction::Load(1, PrimitiveType::Int),
        28u8 => Instruction::Load(2, PrimitiveType::Int),
        29u8 => Instruction::Load(3, PrimitiveType::Int),
        30u8 => Instruction::Load(0, PrimitiveType::Long),
        31u8 => Instruction::Load(1, PrimitiveType::Long),
        32u8 => Instruction::Load(2, PrimitiveType::Long),
        33u8 => Instruction::Load(3, PrimitiveType::Long),
        34u8 => Instruction::Load(0, PrimitiveType::Float),
        35u8 => Instruction::Load(1, PrimitiveType::Float),
        36u8 => Instruction::Load(2, PrimitiveType::Float),
        37u8 => Instruction::Load(3, PrimitiveType::Float),
        38u8 => Instruction::Load(0, PrimitiveType::Double),
        39u8 => Instruction::Load(1, PrimitiveType::Double),
        40u8 => Instruction::Load(2, PrimitiveType::Double),
        41u8 => Instruction::Load(3, PrimitiveType::Double),
        42u8 => Instruction::Load(0, PrimitiveType::Reference),
        43u8 => Instruction::Load(1, PrimitiveType::Reference),
        44u8 => Instruction::Load(2, PrimitiveType::Reference),
        45u8 => Instruction::Load(3, PrimitiveType::Reference),
        46u8 => Instruction::ALoad(PrimitiveType::Int),
        47u8 => Instruction::ALoad(PrimitiveType::Long),
        48u8 => Instruction::ALoad(PrimitiveType::Float),
        49u8 => Instruction::ALoad(PrimitiveType::Double),
        50u8 => Instruction::ALoad(PrimitiveType::Reference),
        51u8 => Instruction::ALoad(PrimitiveType::Byte),
        52u8 => Instruction::ALoad(PrimitiveType::Char),
        53u8 => Instruction::ALoad(PrimitiveType::Short),
        54u8 => Instruction::Store(b1 as usize, PrimitiveType::Int),
        55u8 => Instruction::Store(b1 as usize, PrimitiveType::Long),
        56u8 => Instruction::Store(b1 as usize, PrimitiveType::Float),
        57u8 => Instruction::Store(b1 as usize, PrimitiveType::Double),
        58u8 => Instruction::Store(b1 as usize, PrimitiveType::Reference),
        59u8 => Instruction::Store(0, PrimitiveType::Int),
        60u8 => Instruction::Store(1, PrimitiveType::Int),
        61u8 => Instruction::Store(2, PrimitiveType::Int),
        62u8 => Instruction::Store(3, PrimitiveType::Int),
        63u8 => Instruction::Store(0, PrimitiveType::Long),
        64u8 => Instruction::Store(1, PrimitiveType::Long),
        65u8 => Instruction::Store(2, PrimitiveType::Long),
        66u8 => Instruction::Store(3, PrimitiveType::Long),
        67u8 => Instruction::Store(0, PrimitiveType::Float),
        68u8 => Instruction::Store(1, PrimitiveType::Float),
        69u8 => Instruction::Store(2, PrimitiveType::Float),
        70u8 => Instruction::Store(3, PrimitiveType::Float),
        71u8 => Instruction::Store(0, PrimitiveType::Double),
        72u8 => Instruction::Store(1, PrimitiveType::Double),
        73u8 => Instruction::Store(2, PrimitiveType::Double),
        74u8 => Instruction::Store(3, PrimitiveType::Double),
        75u8 => Instruction::Store(0, PrimitiveType::Reference),
        76u8 => Instruction::Store(1, PrimitiveType::Reference),
        77u8 => Instruction::Store(2, PrimitiveType::Reference),
        78u8 => Instruction::Store(3, PrimitiveType::Reference),
        79u8 => Instruction::AStore(PrimitiveType::Int),
        80u8 => Instruction::AStore(PrimitiveType::Long),
        81u8 => Instruction::AStore(PrimitiveType::Float),
        82u8 => Instruction::AStore(PrimitiveType::Double),
        83u8 => Instruction::AStore(PrimitiveType::Reference),
        84u8 => Instruction::AStore(PrimitiveType::Byte),
        85u8 => Instruction::AStore(PrimitiveType::Char),
        86u8 => Instruction::AStore(PrimitiveType::Short),
        87u8 => Instruction::Pop,
        88u8 => Instruction::Pop2,
        89u8 => Instruction::Dup,
        90u8 => Instruction::DupX1,
        91u8 => Instruction::DupX2,
        92u8 => Instruction::Dup2,
        93u8 => Instruction::Dup2X1,
        94u8 => Instruction::Dup2X2,
        95u8 => Instruction::Swap,
        96u8 => Instruction::Add(PrimitiveType::Int),
        97u8 => Instruction::Add(PrimitiveType::Long),
        98u8 => Instruction::Add(PrimitiveType::Float),
        99u8 => Instruction::Add(PrimitiveType::Double),
        100u8 => Instruction::Sub(PrimitiveType::Int),
        101u8 => Instruction::Sub(PrimitiveType::Long),
        102u8 => Instruction::Sub(PrimitiveType::Float),
        103u8 => Instruction::Sub(PrimitiveType::Double),
        104u8 => Instruction::Mul(PrimitiveType::Int),
        105u8 => Instruction::Mul(PrimitiveType::Long),
        106u8 => Instruction::Mul(PrimitiveType::Float),
        107u8 => Instruction::Mul(PrimitiveType::Double),
        108u8 => Instruction::Div(PrimitiveType::Int),
        109u8 => Instruction::Div(PrimitiveType::Long),
        110u8 => Instruction::Div(PrimitiveType::Float),
        111u8 => Instruction::Div(PrimitiveType::Double),
        112u8 => Instruction::Rem(PrimitiveType::Int),
        113u8 => Instruction::Rem(PrimitiveType::Long),
        114u8 => Instruction::Rem(PrimitiveType::Float),
        115u8 => Instruction::Rem(PrimitiveType::Double),
        116u8 => Instruction::Neg(PrimitiveType::Int),
        117u8 => Instruction::Neg(PrimitiveType::Long),
        118u8 => Instruction::Neg(PrimitiveType::Float),
        119u8 => Instruction::Neg(PrimitiveType::Double),
        120u8 => Instruction::Shl(PrimitiveType::Int),
        121u8 => Instruction::Shl(PrimitiveType::Long),
        122u8 => Instruction::Shr(PrimitiveType::Int),
        123u8 => Instruction::Shr(PrimitiveType::Long),
        124u8 => Instruction::UShr(PrimitiveType::Int),
        125u8 => Instruction::UShr(PrimitiveType::Long),
        126u8 => Instruction::And(PrimitiveType::Int),
        127u8 => Instruction::And(PrimitiveType::Long),
        128u8 => Instruction::Or(PrimitiveType::Int),
        129u8 => Instruction::Or(PrimitiveType::Long),
        130u8 => Instruction::Xor(PrimitiveType::Int),
        131u8 => Instruction::Xor(PrimitiveType::Long),
        132u8 => Instruction::IInc(b1 as usize, b2 as i8),
        133u8 => Instruction::Convert(PrimitiveType::Int, PrimitiveType::Long),
        134u8 => Instruction::Convert(PrimitiveType::Int, PrimitiveType::Float),
        135u8 => Instruction::Convert(PrimitiveType::Int, PrimitiveType::Double),
        136u8 => Instruction::Convert(PrimitiveType::Long, PrimitiveType::Int),
        137u8 => Instruction::Convert(PrimitiveType::Long, PrimitiveType::Float),
        138u8 => Instruction::Convert(PrimitiveType::Long, PrimitiveType::Double),
        139u8 => Instruction::Convert(PrimitiveType::Float, PrimitiveType::Int),
        140u8 => Instruction::Convert(PrimitiveType::Float, PrimitiveType::Long),
        141u8 => Instruction::Convert(PrimitiveType::Float, PrimitiveType::Double),
        142u8 => Instruction::Convert(PrimitiveType::Double, PrimitiveType::Int),
        143u8 => Instruction::Convert(PrimitiveType::Double, PrimitiveType::Long),
        144u8 => Instruction::Convert(PrimitiveType::Double, PrimitiveType::Float),
        145u8 => Instruction::Convert(PrimitiveType::Int, PrimitiveType::Byte),
        146u8 => Instruction::Convert(PrimitiveType::Int, PrimitiveType::Char),
        147u8 => Instruction::Convert(PrimitiveType::Int, PrimitiveType::Short),
        148u8 => Instruction::LCmp,
        149u8 => Instruction::FCmpL,
        150u8 => Instruction::FCmpG,
        151u8 => Instruction::DCmpL,
        152u8 => Instruction::DCmpG,
        153u8 => Instruction::If(s16(b1, b2), Comparison::Equal),
        154u8 => Instruction::If(s16(b1, b2), Comparison::NotEqual),
        155u8 => Instruction::If(s16(b1, b2), Comparison::LessThan),
        156u8 => Instruction::If(s16(b1, b2), Comparison::GreaterThanOrEqual),
        157u8 => Instruction::If(s16(b1, b2), Comparison::GreaterThan),
        158u8 => Instruction::If(s16(b1, b2), Comparison::LessThanOrEqual),
        159u8 => Instruction::IfICmp(s16(b1, b2), Comparison::Equal),
        160u8 => Instruction::IfICmp(s16(b1, b2), Comparison::NotEqual),
        161u8 => Instruction::IfICmp(s16(b1, b2), Comparison::LessThan),
        162u8 => Instruction::IfICmp(s16(b1, b2), Comparison::GreaterThanOrEqual),
        163u8 => Instruction::IfICmp(s16(b1, b2), Comparison::GreaterThan),
        164u8 => Instruction::IfICmp(s16(b1, b2), Comparison::LessThanOrEqual),
        165u8 => Instruction::IfICmp(s16(b1, b2), Comparison::Equal),
        166u8 => Instruction::IfICmp(s16(b1, b2), Comparison::NotEqual),
        167u8 => Instruction::Goto(s16(b1, b2)),
        168u8 => Instruction::Jsr(s16(b1, b2)),
        169u8 => Instruction::Ret(b1 as usize),
        172u8 => Instruction::Return(PrimitiveType::Int),
        173u8 => Instruction::Return(PrimitiveType::Long),
        174u8 => Instruction::Return(PrimitiveType::Float),
        175u8 => Instruction::Return(PrimitiveType::Double),
        176u8 => Instruction::Return(PrimitiveType::Reference),
        177u8 => Instruction::Return(PrimitiveType::Null),
        178u8 => Instruction::GetStatic(u2v(b1, b2)),
        179u8 => Instruction::PutStatic(u2v(b1, b2)),
        180u8 => Instruction::GetField(u2v(b1, b2)),
        181u8 => Instruction::PutField(u2v(b1, b2)),
        182u8 => Instruction::InvokeVirtual(u2v(b1, b2)),
        183u8 => Instruction::InvokeSpecial(u2v(b1, b2)),
        184u8 => Instruction::InvokeStatic(u2v(b1, b2)),
        185u8 => Instruction::InvokeInterface(u2v(b1, b2)),
        186u8 => Instruction::InvokeDynamic(u2v(b1, b2)),
        187u8 => Instruction::New(u2v(b1, b2)),
        189u8 => Instruction::ANewArray(u2v(b1, b2)),
        190u8 => Instruction::ArrayLength,
        191u8 => Instruction::AThrow,
        192u8 => Instruction::CheckCast(u2v(b1, b2)),
        193u8 => Instruction::InstanceOf(u2v(b1, b2)),
        194u8 => Instruction::MonitorEnter,
        195u8 => Instruction::MonitorExit,
        197u8 => Instruction::MultiANewArray(u2v(b1, b2), b3 as usize),
        198u8 => Instruction::IfNull(s16(b1, b2)),
        199u8 => Instruction::IfNonNull(s16(b1, b2)),
        200u8 => Instruction::Goto(s32(b1, b2, b3, b4)),
        201u8 => Instruction::Jsr(s32(b1, b2, b3, b4)),
        202u8 => Instruction::Breakpoint,
        188u8 => Instruction::NewArray(from_type_id_spec(b1 as usize)->Some_0),
        _ => Instruction::Nop,
    }
}

/// Decodes the instruction at `pc`: its decoded form and its byte length.
/// `None` when the opcode is unsupported, its operands run past the end of
/// the code, or a `newarray` type code is invalid.
pub open spec fn decode_op(code: Seq<u8>, pc: int) -> Option<(Instruction, int)> {
    if pc < 0 || pc >= code.len() {
        None
    } else {
        let op = code[pc];
        match op_len(op) {
            None => None,
            Some(l) => {
                if pc + l > code.len() {
                    None
                } else if op == 188 && from_type_id_spec(code[pc + 1] as usize) is None {
                    None
                } else {
                    Some((decode_payload(code, pc), l))
                }
            },
        }
    }
}

/// The executable twin of `decode_op`.
#[verifier::rlimit(100)]
fn decode_op_exec(code: &Vec<u8>, pc: usize) -> (r: Option<(Instruction, usize)>)
    requires
        pc < code@.len(),
    ensures
        match decode_op(code@, pc as int) {
            Some(il) => r is Some && r->Some_0.0 == il.0 && r->Some_0.1 == il.1,
            None => r is None,
        },
{
    let op = code[pc];
    let l = match op_len_of(op) {
        Some(l) => l,
        None => {
            return None;
        },
    };
    if code.len() - pc < l {
        return None;
    }
    let b1 = if code.len() - pc > 1 {
        code[pc + 1]
    } else {
        0u8
    };
    let b2 = if code.len() - pc > 2 {
        code[pc + 2]
    } else {
        0u8
    };
    let b3 = if code.len() - pc > 3 {
        code[pc + 3]
    } else {
        0u8
    };
    let b4 = if code.len() - pc > 4 {
        code[pc + 4]
    } else {
        0u8
    };
    let inst = match op {
        0u8 => Instruction::Nop,
        1u8 => Instruction::AConstNull,
        2u8 => Instruction::Const(Primitive::Int(-1i32)),
        3u8 => Instruction::Const(Primitive::Int(0)),
        4u8 => Instruction::Const(Primitive::Int(1)),
        5u8 => Instruction::Const(Primitive::Int(2)),
        6u8 => Instruction::Const(Primitive::Int(3)),
        7u8 => Instruction::Const(Primitive::Int(4)),
        8u8 => Instruction::Const(Primitive::Int(5)),
        9u8 => Instruction::Const(Primitive::Long(0)),
        10u8 => Instruction::Const(Primitive::Long(1)),
        11u8 => Instruction::Const(Primitive::Float(0)),
        12u8 => Instruction::Const(Primitive::Float(0x3F80_0000)),
        13u8 => Instruction::Const(Primitive::Float(0x4000_0000)),
        14u8 => Instruction::Const(Primitive::Double(0)),
        15u8 => Instruction::Const(Primitive::Double(0x3FF0_0000_0000_0000)),
        16u8 => Instruction::Const(Primitive::Int((b1 as i8) as i32)),
        17u8 => Instruction::Const(Primitive::Int(s16(b1, b2))),
        18u8 => Instruction::LoadConst(b1 as usize),
        19u8 => Instruction::LoadConst(u2v(b1, b2)),
        20u8 => Instruction::LoadConst(u2v(b1, b2)),
        21u8 => Instruction::Load(b1 as usize, PrimitiveType::Int),
        22u8 => Instruction::Load(b1 as usize, PrimitiveType::Long),
        23u8 => Instruction::Load(b1 as usize, PrimitiveType::Float),
        24u8 => Instruction::Load(b1 as usize, PrimitiveType::Double),
        25u8 => Instruction::Load(b1 as usize, PrimitiveType::Reference),
        26u8 => Instruction::Load(0, PrimitiveType::Int),
        27u8 => Instruction::Load(1, PrimitiveType::Int),
        28u8 => Instruction::Load(2, PrimitiveType::Int),
        29u8 => Instruction::Load(3, PrimitiveType::Int),
        30u8 => Instruction::Load(0, PrimitiveType::Long),
        31u8 => Instruction::Load(1, PrimitiveType::Long),
        32u8 => Instruction::Load(2, PrimitiveType::Long),
        33u8 => Instruction::Load(3, PrimitiveType::Long),
        34u8 => Instruction::Load(0, PrimitiveType::Float),
        35u8 => Instruction::Load(1, PrimitiveType::Float),
        36u8 => Instruction::Load(2, PrimitiveType::Float),
        37u8 => Instruction::Load(3, PrimitiveType::Float),
        38u8 => Instruction::Load(0, PrimitiveType::Double),
        39u8 => Instruction::Load(1, PrimitiveType::Double),
        40u8 => Instruction::Load(2, PrimitiveType::Double),
        41u8 => Instruction::Load(3, PrimitiveType::Double),
        42u8 => Instruction::Load(0, PrimitiveType::Reference),
        43u8 => Instruction::Load(1, PrimitiveType::Reference),
        44u8 => Instruction::Load(2, PrimitiveType::Reference),
        45u8 => Instruction::Load(3, PrimitiveType::Reference),
        46u8 => Instruction::ALoad(PrimitiveType::Int),
        47u8 => Instruction::ALoad(PrimitiveType::Long),
        48u8 => Instruction::ALoad(PrimitiveType::Float),
        49u8 => Instruction::ALoad(PrimitiveType::Double),
        50u8 => Instruction::ALoad(PrimitiveType::Reference),
        51u8 => Instruction::ALoad(PrimitiveType::Byte),
        52u8 => Instruction::ALoad(PrimitiveType::Char),
        53u8 => Instruction::ALoad(PrimitiveType::Short),
        54u8 => Instruction::Store(b1 as usize, PrimitiveType::Int),
        55u8 => Instruction::Store(b1 as usize, PrimitiveType::Long),
        56u8 => Instruction::Store(b1 as usize, PrimitiveType::Float),
        57u8 => Instruction::Store(b1 as usize, PrimitiveType::Double),
        58u8 => Instruction::Store(b1 as usize, PrimitiveType::Reference),
        59u8 => Instruction::Store(0, PrimitiveType::Int),
        60u8 => Instruction::Store(1, PrimitiveType::Int),
        61u8 => Instruction::Store(2, PrimitiveType::Int),
        62u8 => Instruction::Store(3, PrimitiveType::Int),
        63u8 => Instruction::Store(0, PrimitiveType::Long),
        64u8 => Instruction::Store(1, PrimitiveType::Long),
        65u8 => Instruction::Store(2, PrimitiveType::Long),
        66u8 => Instruction::Store(3, PrimitiveType::Long),
        67u8 => Instruction::Store(0, PrimitiveType::Float),
        68u8 => Instruction::Store(1, PrimitiveType::Float),
        69u8 => Instruction::Store(2, PrimitiveType::Float),
        70u8 => Instruction::Store(3, PrimitiveType::Float),
        71u8 => Instruction::Store(0, PrimitiveType::Double),
        72u8 => Instruction::Store(1, PrimitiveType::Double),
        73u8 => Instruction::Store(2, PrimitiveType::Double),
        74u8 => Instruction::Store(3, PrimitiveType::Double),
        75u8 => Instruction::Store(0, PrimitiveType::Reference),
        76u8 => Instruction::Store(1, PrimitiveType::Reference),
        77u8 => Instruction::Store(2, PrimitiveType::Reference),
        78u8 => Instruction::Store(3, PrimitiveType::Reference),
        79u8 => Instruction::AStore(PrimitiveType::Int),
        80u8 => Instruction::AStore(PrimitiveType::Long),
        81u8 => Instruction::AStore(PrimitiveType::Float),
        82u8 => Instruction::AStore(PrimitiveType::Double),
        83u8 => Instruction::AStore(PrimitiveType::Reference),
        84u8 => Instruction::AStore(PrimitiveType::Byte),
        85u8 => Instruction::AStore(PrimitiveType::Char),
        86u8 => Instruction::AStore(PrimitiveType::Short),
        87u8 => Instruction::Pop,
        88u8 => Instruction::Pop2,
        89u8 => Instruction::Dup,
        90u8 => Instruction::DupX1,
        91u8 => Instruction::DupX2,
        92u8 => Instruction::Dup2,
        93u8 => Instruction::Dup2X1,
        94u8 => Instruction::Dup2X2,
        95u8 => Instruction::Swap,
        96u8 => Instruction::Add(PrimitiveType::Int),
        97u8 => Instruction::Add(PrimitiveType::Long),
        98u8 => Instruction::Add(PrimitiveType::Float),
        99u8 => Instruction::Add(PrimitiveType::Double),
        100u8 => Instruction::Sub(PrimitiveType::Int),
        101u8 => Instruction::Sub(PrimitiveType::Long),
        102u8 => Instruction::Sub(PrimitiveType::Float),
        103u8 => Instruction::Sub(PrimitiveType::Double),
        104u8 => Instruction::Mul(PrimitiveType::Int),
        105u8 => Instruction::Mul(PrimitiveType::Long),
        106u8 => Instruction::Mul(PrimitiveType::Float),
        107u8 => Instruction::Mul(PrimitiveType::Double),
        108u8 => Instruction::Div(PrimitiveType::Int),
        109u8 => Instruction::Div(PrimitiveType::Long),
        110u8 => Instruction::Div(PrimitiveType::Float),
        111u8 => Instruction::Div(PrimitiveType::Double),
        112u8 => Instruction::Rem(PrimitiveType::Int),
        113u8 => Instruction::Rem(PrimitiveType::Long),
        114u8 => Instruction::Rem(PrimitiveType::Float),
        115u8 => Instruction::Rem(PrimitiveType::Double),
        116u8 => Instruction::Neg(PrimitiveType::Int),
        117u8 => Instruction::Neg(PrimitiveType::Long),
        118u8 => Instruction::Neg(PrimitiveType::Float),
        119u8 => Instruction::Neg(PrimitiveType::Double),
        120u8 => Instruction::Shl(PrimitiveType::Int),
        121u8 => Instruction::Shl(PrimitiveType::Long),
        122u8 => Instruction::Shr(PrimitiveType::Int),
        123u8 => Instruction::Shr(PrimitiveType::Long),
        124u8 => Instruction::UShr(PrimitiveType::Int),
        125u8 => Instruction::UShr(PrimitiveType::Long),
        126u8 => Instruction::And(PrimitiveType::Int),
        127u8 => Instruction::And(PrimitiveType::Long),
        128u8 => Instruction::Or(PrimitiveType::Int),
        129u8 => Instruction::Or(PrimitiveType::Long),
        130u8 => Instruction::Xor(PrimitiveType::Int),
        131u8 => Instruction::Xor(PrimitiveType::Long),
        132u8 => Instruction::IInc(b1 as usize, b2 as i8),
        133u8 => Instruction::Convert(PrimitiveType::Int, PrimitiveType::Long),
        134u8 => Instruction::Convert(PrimitiveType::Int, PrimitiveType::Float),
        135u8 => Instruction::Convert(PrimitiveType::Int, PrimitiveType::Double),
        136u8 => Instruction::Convert(PrimitiveType::Long, PrimitiveType::Int),
        137u8 => Instruction::Convert(PrimitiveType::Long, PrimitiveType::Float),
        138u8 => Instruction::Convert(PrimitiveType::Long, PrimitiveType::Double),
        139u8 => Instruction::Convert(PrimitiveType::Float, PrimitiveType::Int),
        140u8 => Instruction::Convert(PrimitiveType::Float, PrimitiveType::Long),
        141u8 => Instruction::Convert(PrimitiveType::Float, PrimitiveType::Double),
        142u8 => Instruction::Convert(PrimitiveType::Double, PrimitiveType::Int),
        143u8 => Instruction::Convert(PrimitiveType::Double, PrimitiveType::Long),
        144u8 => Instruction::Convert(PrimitiveType::Double, PrimitiveType::Float),
        145u8 => Instruction::Convert(PrimitiveType::Int, PrimitiveType::Byte),
        146u8 => Instruction::Convert(PrimitiveType::Int, PrimitiveType::Char),
        147u8 => Instruction::Convert(PrimitiveType::Int, PrimitiveType::Short),
        148u8 => Instruction::LCmp,
        149u8 => Instruction::FCmpL,
        150u8 => Instruction::FCmpG,
        151u8 => Instruction::DCmpL,
        152u8 => Instruction::DCmpG,
        153u8 => Instruction::If(s16(b1, b2), Comparison::Equal),
        154u8 => Instruction::If(s16(b1, b2), Comparison::NotEqual),
        155u8 => Instruction::If(s16(b1, b2), Comparison::LessThan),
        156u8 => Instruction::If(s16(b1, b2), Comparison::GreaterThanOrEqual),
        157u8 => Instruction::If(s16(b1, b2), Comparison::GreaterThan),
        158u8 => Instruction::If(s16(b1, b2), Comparison::LessThanOrEqual),
        159u8 => Instruction::IfICmp(s16(b1, b2), Comparison::Equal),
        160u8 => Instruction::IfICmp(s16(b1, b2), Comparison::NotEqual),
        161u8 => Instruction::IfICmp(s16(b1, b2), Comparison::LessThan),
        162u8 => Instruction::IfICmp(s16(b1, b2), Comparison::GreaterThanOrEqual),
        163u8 => Instruction::IfICmp(s16(b1, b2), Comparison::GreaterThan),
        164u8 => Instruction::IfICmp(s16(b1, b2), Comparison::LessThanOrEqual),
        165u8 => Instruction::IfICmp(s16(b1, b2), Comparison::Equal),
        166u8 => Instruction::IfICmp(s16(b1, b2), Comparison::NotEqual),
        167u8 => Instruction::Goto(s16(b1, b2)),
        168u8 => Instruction::Jsr(s16(b1, b2)),
        169u8 => Instruction::Ret(b1 as usize),
        172u8 => Instruction::Return(PrimitiveType::Int),
        173u8 => Instruction::Return(PrimitiveType::Long),
        174u8 => Instruction::Return(PrimitiveType::Float),
        175u8 => Instruction::Return(PrimitiveType::Double),
        176u8 => Instruction::Return(PrimitiveType::Reference),
        177u8 => Instruction::Return(PrimitiveType::Null),
        178u8 => Instruction::GetStatic(u2v(b1, b2)),
        179u8 => Instruction::PutStatic(u2v(b1, b2)),
        180u8 => Instruction::GetField(u2v(b1, b2)),
        181u8 => Instruction::PutField(u2v(b1, b2)),
        182u8 => Instruction::InvokeVirtual(u2v(b1, b2)),
        183u8 => Instruction::InvokeSpecial(u2v(b1, b2)),
        184u8 => Instruction::InvokeStatic(u2v(b1, b2)),
        185u8 => Instruction::InvokeInterface(u2v(b1, b2)),
        186u8 => Instruction::InvokeDynamic(u2v(b1, b2)),
        187u8 => Instruction::New(u2v(b1, b2)),
        189u8 => Instruction::ANewArray(u2v(b1, b2)),
        190u8 => Instruction::ArrayLength,
        191u8 => Instruction::AThrow,
        192u8 => Instruction::CheckCast(u2v(b1, b2)),
        193u8 => Instruction::InstanceOf(u2v(b1, b2)),
        194u8 => Instruction::MonitorEnter,
        195u8 => Instruction::MonitorExit,
        197u8 => Instruction::MultiANewArray(u2v(b1, b2), b3 as usize),
        198u8 => Instruction::IfNull(s16(b1, b2)),
        199u8 => Instruction::IfNonNull(s16(b1, b2)),
        200u8 => Instruction::Goto(s32(b1, b2, b3, b4)),
        201u8 => Instruction::Jsr(s32(b1, b2, b3, b4)),
        202u8 => Instruction::Breakpoint,
        188u8 => {
            match PrimitiveType::from_type_id(b1 as usize) {
                Some(t) => Instruction::NewArray(t),
                None => {
                    return None;
                },
            }
        },
        _ => {
            return None;
        },
    };
    Some((inst, l))
}

/// The decoded instruction vector for the code bytes from `pc` on: each
/// instruction followed by `Nop` padding for its operand bytes. `None` when
/// anything from `pc` on does not decode.
pub open spec fn decode_from(code: Seq<u8>, pc: int) -> Option<Seq<Instruction>>
    decreases code.len() - pc,
{
    if pc < 0 || pc >= code.len() {
        Some(Seq::empty())
    } else {
        match decode_op(code, pc) {
            None => None,
            Some(il) => {
                if il.1 < 1 {
                    None
                } else {
                    match decode_from(code, pc + il.1) {
                        None => None,
                        Some(rest) => Some(
                            seq![il.0] + Seq::new((il.1 - 1) as nat, |j: int| Instruction::Nop)
                                + rest,
                        ),
                    }
                }
            },
        }
    }
}

/// A prefix of decoded instructions joined with what the rest of the code
/// decodes to.
pub open spec fn opt_prepend(p: Seq<Instruction>, o: Option<Seq<Instruction>>) -> Option<
    Seq<Instruction>,
> {
    match o {
        Some(r) => Some(p + r),
        None => None,
    }
}

/// Translates raw code bytes into the padded decoded instruction vector;
/// succeeds exactly when `decode_from` does, and fails with `ParseError`.
pub fn bytes_to_bytecode(code: Vec<u8>) -> (r: Result<Vec<Instruction>, JvmError>)
    ensures
        r is Ok <==> decode_from(code@, 0) is Some,
        r is Ok ==> r->Ok_0@ == decode_from(code@, 0)->Some_0,
        r is Err ==> kind_of(r->Err_0) == ErrorKind::ParseError,
{
    let n = code.len();
    let mut instructions: Vec<Instruction> = Vec::new();
    let mut pc: usize = 0;
    while pc < n
        invariant
            0 <= pc <= n,
            n == code@.len(),
            opt_prepend(instructions@, decode_from(code@, pc as int)) == decode_from(code@, 0),
        decreases n - pc,
    {
        match decode_op_exec(&code, pc) {
            None => {
                return Err(crate::error::err_parse("unsupported or truncated instruction"));
            },
            Some(il) => {
                let (inst, l) = il;
                let ghost pre = instructions@;
                instructions.push(inst);
                let mut k: usize = 1;
                while k < l
                    invariant
                        1 <= k <= l,
                        instructions@ == pre + seq![inst] + Seq::new(
                            (k - 1) as nat,
                            |j: int| Instruction::Nop,
                        ),
                    decreases l - k,
                {
                    instructions.push(Instruction::Nop);
                    proof {
                        assert(instructions@ =~= pre + seq![inst] + Seq::new(
                            k as nat,
                            |j: int| Instruction::Nop,
                        ));
                    }
                    k = k + 1;
                }
                proof {
                    let c = code@;
                    let p = pc as int;
                    let li = l as int;
                    assert(decode_from(c, p) == (match decode_from(c, p + li) {
                        None => None::<Seq<Instruction>>,
                        Some(rest) => Some(
                            seq![inst] + Seq::new((li - 1) as nat, |j: int| Instruction::Nop)
                                + rest,
                        ),
                    }));
                    match decode_from(c, p + li) {
                        None => {
                            assert(opt_prepend(instructions@, decode_from(c, p + li))
                                == decode_from(c, 0));
                        },
                        Some(rest) => {
                            assert(instructions@ + rest =~= pre + (seq![inst] + Seq::new(
                                (li - 1) as nat,
                                |j: int| Instruction::Nop,
                            ) + rest));
                            assert(opt_prepend(instructions@, decode_from(c, p + li))
                                == decode_from(c, 0));
                        },
                    }
                }
                pc = pc + l;
            },
        }
    }
    proof {
        assert(decode_from(code@, pc as int) == Some(Seq::<Instruction>::empty()));
        assert(instructions@ + Seq::<Instruction>::empty() =~= instructions@);
    }
    Ok(instructions)
}


/// The unsigned value of eight big-endian bytes, composed the way the
/// parser reads it: two four-byte reads.
pub open spec fn be8_val(bytes: Seq<u8>, pos: int) -> nat {
    crate::reader::be_value(bytes, pos, 4) * 0x1_0000_0000 + crate::reader::be_value(
        bytes,
        pos + 4,
        4,
    )
}

/// The model of a parsed constant pool entry at `pos`: the entry and the
/// position after it. `None` for an unknown tag, a truncated entry, or a
/// `Utf8` payload that is not valid UTF-8.
pub open spec fn parse_cp_entry_spec(bytes: Seq<u8>, pos: int) -> Option<(CpEntryModel, int)> {
    if pos < 0 || pos >= bytes.len() {
        None
    } else {
        let tag = bytes[pos];
        let p = pos + 1;
        if tag == 1 {
            if p + 2 > bytes.len() {
                None
            } else {
                let l = crate::reader::be_value(bytes, p, 2);
                if p + 2 + l > bytes.len() {
                    None
                } else {
                    let payload = bytes.subrange(p + 2, p + 2 + l);
                    if vstd::utf8::valid_utf8(payload) {
                        Some((CpEntryModel::Utf8(vstd::utf8::decode_utf8(payload)), p + 2 + l))
                    } else {
                        None
                    }
                }
            }
        } else if tag == 3 {
            if p + 4 > bytes.len() {
                None
            } else {
                Some(
                    (
                        CpEntryModel::Integer(
                            ((crate::reader::be_value(bytes, p, 4) as u32) as i32),
                        ),
                        p + 4,
                    ),
                )
            }
        } else if tag == 4 {
            if p + 4 > bytes.len() {
                None
            } else {
                Some((CpEntryModel::Float(crate::reader::be_value(bytes, p, 4) as u32), p + 4))
            }
        } else if tag == 5 {
            if p + 8 > bytes.len() {
                None
            } else {
                Some((CpEntryModel::Long(((be8_val(bytes, p) as u64) as i64)), p + 8))
            }
        } else if tag == 6 {
            if p + 8 > bytes.len() {
                None
            } else {
                Some((CpEntryModel::Double(be8_val(bytes, p) as u64), p + 8))
            }
        } else if tag == 7 {
            if p + 2 > bytes.len() {
                None
            } else {
                Some((CpEntryModel::Class(crate::reader::be_value(bytes, p, 2) as usize), p + 2))
            }
        } else if tag == 8 {
            if p + 2 > bytes.len() {
                None
            } else {
                Some((CpEntryModel::String(crate::reader::be_value(bytes, p, 2) as usize), p + 2))
            }
        } else if tag == 9 {
            if p + 4 > bytes.len() {
                None
            } else {
                Some(
                    (
                        CpEntryModel::FieldRef(
                            crate::reader::be_value(bytes, p, 2) as usize,
                            crate::reader::be_value(bytes, p + 2, 2) as usize,
                        ),
                        p + 4,
                    ),
                )
            }
        } else if tag == 10 {
            if p + 4 > bytes.len() {
                None
            } else {
                Some(
                    (
                        CpEntryModel::MethodRef(
                            crate::reader::be_value(bytes, p, 2) as usize,
                            crate::reader::be_value(bytes, p + 2, 2) as usize,
                        ),
                        p + 4,
                    ),
                )
            }
        } else if tag == 11 {
            if p + 4 > bytes.len() {
                None
            } else {
                Some(
                    (
                        CpEntryModel::InterfaceMethodRef(
                            crate::reader::be_value(bytes, p, 2) as usize,
                            crate::reader::be_value(bytes, p + 2, 2) as usize,
                        ),
                        p + 4,
                    ),
                )
            }
        } else if tag == 12 {
            if p + 4 > bytes.len() {
                None
            } else {
                Some(
                    (
                        CpEntryModel::NameAndType(
                            crate::reader::be_value(bytes, p, 2) as usize,
                            crate::reader::be_value(bytes, p + 2, 2) as usize,
                        ),
                        p + 4,
                    ),
                )
            }
        } else if tag == 15 {
            if p + 3 > bytes.len() {
                None
            } else {
                Some(
                    (
                        CpEntryModel::MethodHandle(
                            bytes[p],
                            crate::reader::be_value(bytes, p + 1, 2) as usize,
                        ),
                        p + 3,
                    ),
                )
            }
        } else if tag == 16 {
            if p + 2 > bytes.len() {
                None
            } else {
                Some(
                    (CpEntryModel::MethodType(crate::reader::be_value(bytes, p, 2) as usize), p + 2),
                )
            }
        } else if tag == 18 {
            if p + 4 > bytes.len() {
                None
            } else {
                Some(
                    (
                        CpEntryModel::InvokeDynamic(
                            crate::reader::be_value(bytes, p, 2) as usize,
                            crate::reader::be_value(bytes, p + 2, 2) as usize,
                        ),
                        p + 4,
                    ),
                )
            }
        } else {
            None
        }
    }
}

/// The model of `n` parsed constant pool entries starting at `pos`.
pub open spec fn parse_cp_items_spec(bytes: Seq<u8>, pos: int, n: int) -> Option<
    (Seq<CpEntryModel>, int),
> 
    decreases n,
{
    if n <= 0 {
        Some((Seq::empty(), pos))
    } else {
        match parse_cp_entry_spec(bytes, pos) {
            None => None,
            Some(ep) => match parse_cp_items_spec(bytes, ep.1, n - 1) {
                None => None,
                Some(rest) => Some((seq![ep.0] + rest.0, rest.1)),
            },
        }
    }
}

/// Parses one constant pool entry.
fn parse_cp_entry(r: &mut Reader) -> (res: Result<ConstantPoolEntry, JvmError>)
    ensures
        final(r).bytes@ == old(r).bytes@,
        match parse_cp_entry_spec(old(r).bytes@, old(r).index as int) {
            Some(ep) => res is Ok && res->Ok_0@ == ep.0 && final(r).index == ep.1,
            None => res is Err && kind_of(res->Err_0) == ErrorKind::ParseError,
        },
{
    if r.remaining() < 1 {
        return Err(crate::error::err_parse("truncated constant pool entry"));
    }
    let tag = r.g1();
    if tag == 1 {
        if r.remaining() < 2 {
            return Err(crate::error::err_parse("truncated constant pool entry"));
        }
        let l = r.g2() as usize;
        if r.remaining() < l {
            return Err(crate::error::err_parse("truncated constant pool entry"));
        }
        let payload = r.g(l);
        match text::utf8_to_string(payload) {
            Some(s) => Ok(ConstantPoolEntry::Utf8(s)),
            None => Err(crate::error::err_parse("constant pool text is not valid utf-8")),
        }
    } else if tag == 3 {
        if r.remaining() < 4 {
            return Err(crate::error::err_parse("truncated constant pool entry"));
        }
        Ok(ConstantPoolEntry::Integer(#[verifier::truncate] (r.g4() as i32)))
    } else if tag == 4 {
        if r.remaining() < 4 {
            return Err(crate::error::err_parse("truncated constant pool entry"));
        }
        Ok(ConstantPoolEntry::Float(r.g4()))
    } else if tag == 5 {
        if r.remaining() < 8 {
            return Err(crate::error::err_parse("truncated constant pool entry"));
        }
        let hi = r.g4();
        let lo = r.g4();
        let v: u64 = (hi as u64) * 0x1_0000_0000 + (lo as u64);
        Ok(ConstantPoolEntry::Long(#[verifier::truncate] (v as i64)))
    } else if tag == 6 {
        if r.remaining() < 8 {
            return Err(crate::error::err_parse("truncated constant pool entry"));
        }
        let hi = r.g4();
        let lo = r.g4();
        let v: u64 = (hi as u64) * 0x1_0000_0000 + (lo as u64);
        Ok(ConstantPoolEntry::Double(v))
    } else if tag == 7 {
        if r.remaining() < 2 {
            return Err(crate::error::err_parse("truncated constant pool entry"));
        }
        Ok(ConstantPoolEntry::Class(r.g2() as usize))
    } else if tag == 8 {
        if r.remaining() < 2 {
            return Err(crate::error::err_parse("truncated constant pool entry"));
        }
        Ok(ConstantPoolEntry::String(r.g2() as usize))
    } else if tag == 9 {
        if r.remaining() < 4 {
            return Err(crate::error::err_parse("truncated constant pool entry"));
        }
        let a = r.g2() as usize;
        let b = r.g2() as usize;
        Ok(ConstantPoolEntry::FieldRef(a, b))
    } else if tag == 10 {
        if r.remaining() < 4 {
            return Err(crate::error::err_parse("truncated constant pool entry"));
        }
        let a = r.g2() as usize;
        let b = r.g2() as usize;
        Ok(ConstantPoolEntry::MethodRef(a, b))
    } else if tag == 11 {
        if r.remaining() < 4 {
            return Err(crate::error::err_parse("truncated constant pool entry"));
        }
        let a = r.g2() as usize;
        let b = r.g2() as usize;
        Ok(ConstantPoolEntry::InterfaceMethodRef(a, b))
    } else if tag == 12 {
        if r.remaining() < 4 {
            return Err(crate::error::err_parse("truncated constant pool entry"));
        }
        let a = r.g2() as usize;
        let b = r.g2() as usize;
        Ok(ConstantPoolEntry::NameAndType(a, b))
    } else if tag == 15 {
        if r.remaining() < 3 {
            return Err(crate::error::err_parse("truncated constant pool entry"));
        }
        let k = r.g1();
        let b = r.g2() as usize;
        Ok(ConstantPoolEntry::MethodHandle(k, b))
    } else if tag == 16 {
        if r.remaining() < 2 {
            return Err(crate::error::err_parse("truncated constant pool entry"));
        }
        Ok(ConstantPoolEntry::MethodType(r.g2() as usize))
    } else if tag == 18 {
        if r.remaining() < 4 {
            return Err(crate::error::err_parse("truncated constant pool entry"));
        }
        let a = r.g2() as usize;
        let b = r.g2() as usize;
        Ok(ConstantPoolEntry::InvokeDynamic(a, b))
    } else {
        Err(crate::error::err_parse("unsupported constant pool entry"))
    }
}

/// Parses `n` constant pool entries.
fn parse_cp_items(r: &mut Reader, n: u16) -> (res: Result<Vec<ConstantPoolEntry>, JvmError>)
    ensures
        final(r).bytes@ == old(r).bytes@,
        match parse_cp_items_spec(old(r).bytes@, old(r).index as int, n as int) {
            Some(ep) => res is Ok && crate::java_class::cp_view(res->Ok_0@) == ep.0 && final(r).index == ep.1,
            None => res is Err && kind_of(res->Err_0) == ErrorKind::ParseError,
        },
    decreases n,
{
    if n == 0 {
        let v: Vec<ConstantPoolEntry> = Vec::new();
        proof {
            assert(crate::java_class::cp_view(v@) =~= Seq::<CpEntryModel>::empty());
        }
        return Ok(v);
    }
    let first = parse_cp_entry(r)?;
    let mut rest = parse_cp_items(r, n - 1)?;
    let mut v: Vec<ConstantPoolEntry> = Vec::new();
    v.push(first);
    v.append(&mut rest);
    proof {
        assert(crate::java_class::cp_view(v@) =~= parse_cp_items_spec(
            old(r).bytes@,
            old(r).index as int,
            n as int,
        )->Some_0.0);
    }
    Ok(v)
}

/// Parses `constant_pool_count - 1` constant pool entries, as the artifact
/// format counts them. `Long` and `Double` occupy one storage slot here;
/// the resolvers are aware of that policy.
pub fn parse_constant_pool(r: &mut Reader, constant_pool_count: u16) -> (res: Result<
    Vec<ConstantPoolEntry>,
    JvmError,
>)
    ensures
        final(r).bytes@ == old(r).bytes@,
        match parse_cp_items_spec(
            old(r).bytes@,
            old(r).index as int,
            if constant_pool_count >= 1 {
                constant_pool_count - 1
            } else {
                0int
            },
        ) {
            Some(ep) => res is Ok && crate::java_class::cp_view(res->Ok_0@) == ep.0 && final(r).index == ep.1,
            None => res is Err && kind_of(res->Err_0) == ErrorKind::ParseError,
        },
{
    if constant_pool_count == 0 {
        parse_cp_items(r, 0)
    } else {
        parse_cp_items(r, constant_pool_count - 1)
    }
}

/// The model of `count` interface entries at `pos`.
pub open spec fn parse_interfaces_spec(bytes: Seq<u8>, pos: int, count: int) -> Option<
    (Seq<crate::java_class::Interface>, int),
> {
    if pos < 0 || pos + 2 * count > bytes.len() {
        None
    } else {
        Some(
            (
                Seq::new(
                    count as nat,
                    |i: int|
                        crate::java_class::Interface {
                            name: crate::reader::be_value(bytes, pos + 2 * i, 2) as u16,
                        },
                ),
                pos + 2 * count,
            ),
        )
    }
}

/// Parses the interface table.
pub fn parse_interfaces(r: &mut Reader, interfaces_count: u16) -> (res: Result<
    Vec<crate::java_class::Interface>,
    JvmError,
>)
    ensures
        final(r).bytes@ == old(r).bytes@,
        match parse_interfaces_spec(old(r).bytes@, old(r).index as int, interfaces_count as int) {
            Some(ep) => res is Ok && res->Ok_0@ == ep.0 && final(r).index == ep.1,
            None => res is Err && kind_of(res->Err_0) == ErrorKind::ParseError,
        },
{
    let need = (interfaces_count as usize) * 2;
    if r.pos() > r.bytes.len() || r.remaining() < need {
        return Err(crate::error::err_parse("truncated interface table"));
    }
    let mut interfaces: Vec<crate::java_class::Interface> = Vec::new();
    let mut i: usize = 0;
    let count = interfaces_count as usize;
    while i < count
        invariant
            0 <= i <= count,
            r.bytes@ == old(r).bytes@,
            r.index == old(r).index + 2 * i,
            old(r).index + 2 * count <= r.bytes@.len(),
            interfaces@ == Seq::new(
                i as nat,
                |j: int|
                    crate::java_class::Interface {
                        name: crate::reader::be_value(old(r).bytes@, old(r).index + 2 * j, 2) as u16,
                    },
            ),
        decreases count - i,
    {
        let v = r.g2();
        interfaces.push(crate::java_class::Interface { name: v });
        proof {
            assert(interfaces@ =~= Seq::new(
                (i + 1) as nat,
                |j: int|
                    crate::java_class::Interface {
                        name: crate::reader::be_value(old(r).bytes@, old(r).index + 2 * j, 2) as u16,
                    },
            ));
        }
        i = i + 1;
    }
    Ok(interfaces)
}


/// The model of a `Code` attribute. The nested attributes of a code block
/// are parsed and bounds-checked but carry only debug information, so the
/// model keeps their count and not their contents.
pub ghost struct CodeAttributeModel {
    pub attribute_name_index: u16,
    pub attribute_length: u32,
    pub max_stack: u16,
    pub max_locals: u16,
    pub code_length: u32,
    pub code: Seq<u8>,
    pub exception_table_length: u16,
    pub exception_table: Seq<u8>,
    pub attributes_count: u16,
}

/// The model of a `StackMapTable` attribute.
pub ghost struct StackMapTableModel {
    pub attribute_name_index: u16,
    pub attribute_length: u32,
    pub number_of_entries: u16,
    pub entries: Seq<u8>,
}

/// The model of an `Exceptions` attribute.
pub ghost struct ExceptionsModel {
    pub attribute_name_index: u16,
    pub attribute_length: u32,
    pub number_of_exceptions: u16,
    pub exception_index_table: Seq<u8>,
}

/// The model of an `InnerClasses` attribute.
pub ghost struct InnerClassesModel {
    pub attribute_name_index: u16,
    pub attribute_length: u32,
    pub number_of_classes: u16,
    pub classes: Seq<crate::java_class::InnerClassElement>,
}

/// The model of a `LineNumberTable` attribute.
pub ghost struct LineNumberTableModel {
    pub attribute_name_index: u16,
    pub attribute_length: u32,
    pub line_number_table_length: u16,
    pub line_number_table: Seq<crate::java_class::LineNumberTableElement>,
}

/// The model of a `LocalVariableTable` attribute.
pub ghost struct LocalVariableTableModel {
    pub attribute_name_index: u16,
    pub attribute_length: u32,
    pub local_variable_table_length: u16,
    pub local_variable_table: Seq<crate::java_class::LocalVariableTableElement>,
}

/// The model of a `LocalVariableTypeTable` attribute.
pub ghost struct LocalVariableTypeTableModel {
    pub attribute_name_index: u16,
    pub attribute_length: u32,
    pub local_variable_type_table_length: u16,
    pub local_variable_type_table: Seq<crate::java_class::LocalVariableTypeTableElement>,
}

/// The model of an attribute.
pub ghost enum AttributeModel {
    ConstantValue(crate::java_class::ConstantValueAttribute),
    Code(CodeAttributeModel),
    StackMapTable(StackMapTableModel),
    Exceptions(ExceptionsModel),
    InnerClasses(InnerClassesModel),
    EnclosingMethod(crate::java_class::EnclosingMethodAttribute),
    Synthetic(crate::java_class::SyntheticAttribute),
    Signature(crate::java_class::SignatureAttribute),
    SourceFile(crate::java_class::SourceFileAttribute),
    LineNumberTable(LineNumberTableModel),
    LocalVariableTable(LocalVariableTableModel),
    LocalVariableTypeTable(LocalVariableTypeTableModel),
    Deprecated(crate::java_class::DeprecatedAttribute),
}

impl View for crate::java_class::Attribute {
    type V = AttributeModel;

    open spec fn view(&self) -> AttributeModel {
        match self {
            crate::java_class::Attribute::ConstantValue(a) => AttributeModel::ConstantValue(*a),
            crate::java_class::Attribute::Code(a) => AttributeModel::Code(
                CodeAttributeModel {
                    attribute_name_index: a.attribute_name_index,
                    attribute_length: a.attribute_length,
                    max_stack: a.max_stack,
                    max_locals: a.max_locals,
                    code_length: a.code_length,
                    code: a.code@,
                    exception_table_length: a.exception_table_length,
                    exception_table: a.exception_table@,
                    attributes_count: a.attributes_count,
                },
            ),
            crate::java_class::Attribute::StackMapTable(a) => AttributeModel::StackMapTable(
                StackMapTableModel {
                    attribute_name_index: a.attribute_name_index,
                    attribute_length: a.attribute_length,
                    number_of_entries: a.number_of_entries,
                    entries: a.entries@,
                },
            ),
            crate::java_class::Attribute::Exceptions(a) => AttributeModel::Exceptions(
                ExceptionsModel {
                    attribute_name_index: a.attribute_name_index,
                    attribute_length: a.attribute_length,
                    number_of_exceptions: a.number_of_exceptions,
                    exception_index_table: a.exception_index_table@,
                },
            ),
            crate::java_class::Attribute::InnerClasses(a) => AttributeModel::InnerClasses(
                InnerClassesModel {
                    attribute_name_index: a.attribute_name_index,
                    attribute_length: a.attribute_length,
                    number_of_classes: a.number_of_classes,
                    classes: a.classes@,
                },
            ),
            crate::java_class::Attribute::EnclosingMethod(a) => AttributeModel::EnclosingMethod(*a),
            crate::java_class::Attribute::Synthetic(a) => AttributeModel::Synthetic(*a),
            crate::java_class::Attribute::Signature(a) => AttributeModel::Signature(*a),
            crate::java_class::Attribute::SourceFile(a) => AttributeModel::SourceFile(*a),
            crate::java_class::Attribute::LineNumberTable(a) => AttributeModel::LineNumberTable(
                LineNumberTableModel {
                    attribute_name_index: a.attribute_name_index,
                    attribute_length: a.attribute_length,
                    line_number_table_length: a.line_number_table_length,
                    line_number_table: a.line_number_table@,
                },
            ),
            crate::java_class::Attribute::LocalVariableTable(
                a,
            ) => AttributeModel::LocalVariableTable(
                LocalVariableTableModel {
                    attribute_name_index: a.attribute_name_index,
                    attribute_length: a.attribute_length,
                    local_variable_table_length: a.local_variable_table_length,
                    local_variable_table: a.local_variable_table@,
                },
            ),
            crate::java_class::Attribute::LocalVariableTypeTable(
                a,
            ) => AttributeModel::LocalVariableTypeTable(
                LocalVariableTypeTableModel {
                    attribute_name_index: a.attribute_name_index,
                    attribute_length: a.attribute_length,
                    local_variable_type_table_length: a.local_variable_type_table_length,
                    local_variable_type_table: a.local_variable_type_table@,
                },
            ),
            crate::java_class::Attribute::Deprecated(a) => AttributeModel::Deprecated(*a),
        }
    }
}

/// The model of an attribute list.
pub open spec fn attrs_view(s: Seq<crate::java_class::Attribute>) -> Seq<AttributeModel> {
    s.map_values(|a: crate::java_class::Attribute| a@)
}

/// The model of one parsed attribute at `pos`: its value and the cursor
/// after it, which is always `pos + 6 + attribute_length` (the resync rule).
/// `None` for an unknown attribute name, a broken name reference, or any
/// read past the end of the buffer.
pub open spec fn parse_attribute_spec(bytes: Seq<u8>, cp: Seq<CpEntryModel>, pos: int) -> Option<
    (AttributeModel, int),
>
    decreases bytes.len() - pos, 0int, 0int,
{
    if pos < 0 || pos + 6 > bytes.len() {
        None
    } else {
        let ni = crate::reader::be_value(bytes, pos, 2);
        let alen = crate::reader::be_value(bytes, pos + 2, 4);
        let start = pos + 6;
        let end = start + alen;
        if ni < 1 || end > bytes.len() {
            None
        } else {
            match crate::java_class::cp_utf8(cp, ni as int) {
                None => None,
                Some(name) => {
                    let nix = (ni - 1) as u16;
                    let al = alen as u32;
                    if name == "ConstantValue"@ {
                        if start + 2 > bytes.len() {
                            None
                        } else {
                            Some(
                                (
                                    AttributeModel::ConstantValue(
                                        crate::java_class::ConstantValueAttribute {
                                            attribute_name_index: nix,
                                            attribute_length: al,
                                            constant_value_index: crate::reader::be_value(
                                                bytes,
                                                start,
                                                2,
                                            ) as u16,
                                        },
                                    ),
                                    end,
                                ),
                            )
                        }
                    } else if name == "Code"@ {
                        if start + 8 > bytes.len() {
                            None
                        } else {
                            let clen = crate::reader::be_value(bytes, start + 4, 4);
                            let q0 = start + 8;
                            if q0 + clen + 2 > bytes.len() {
                                None
                            } else {
                                let etl = crate::reader::be_value(bytes, q0 + clen, 2);
                                let q1 = q0 + clen + 2;
                                if q1 + etl + 2 > bytes.len() {
                                    None
                                } else {
                                    let ac = crate::reader::be_value(bytes, q1 + etl, 2);
                                    let q2 = q1 + etl + 2;
                                    match parse_attrs_spec(bytes, cp, q2, ac as int) {
                                        None => None,
                                        Some(_nested) => Some(
                                            (
                                                AttributeModel::Code(
                                                    CodeAttributeModel {
                                                        attribute_name_index: nix,
                                                        attribute_length: al,
                                                        max_stack: crate::reader::be_value(
                                                            bytes,
                                                            start,
                                                            2,
                                                        ) as u16,
                                                        max_locals: crate::reader::be_value(
                                                            bytes,
                                                            start + 2,
                                                            2,
                                                        ) as u16,
                                                        code_length: clen as u32,
                                                        code: bytes.subrange(q0, q0 + clen),
                                                        exception_table_length: etl as u16,
                                                        exception_table: bytes.subrange(
                                                            q1,
                                                            q1 + etl,
                                                        ),
                                                        attributes_count: ac as u16,
                                                    },
                                                ),
                                                end,
                                            ),
                                        ),
                                    }
                                }
                            }
                        }
                    } else if name == "StackMapTable"@ {
                        if start + 2 + alen > bytes.len() {
                            None
                        } else {
                            Some(
                                (
                                    AttributeModel::StackMapTable(
                                        StackMapTableModel {
                                            attribute_name_index: nix,
                                            attribute_length: al,
                                            number_of_entries: crate::reader::be_value(
                                                bytes,
                                                start,
                                                2,
                                            ) as u16,
                                            entries: bytes.subrange(
                                                start + 2,
                                                start + 2 + alen,
                                            ),
                                        },
                                    ),
                                    end,
                                ),
                            )
                        }
                    } else if name == "Exceptions"@ {
                        if start + 2 + alen > bytes.len() {
                            None
                        } else {
                            Some(
                                (
                                    AttributeModel::Exceptions(
                                        ExceptionsModel {
                                            attribute_name_index: nix,
                                            attribute_length: al,
                                            number_of_exceptions: crate::reader::be_value(
                                                bytes,
                                                start,
                                                2,
                                            ) as u16,
                                            exception_index_table: bytes.subrange(
                                                start + 2,
                                                start + 2 + alen,
                                            ),
                                        },
                                    ),
                                    end,
                                ),
                            )
                        }
                    } else if name == "InnerClasses"@ {
                        if start + 2 > bytes.len() {
                            None
                        } else {
                            let cnt = crate::reader::be_value(bytes, start, 2);
                            if start + 2 + 8 * cnt > bytes.len() {
                                None
                            } else {
                                Some(
                                    (
                                        AttributeModel::InnerClasses(
                                            InnerClassesModel {
                                                attribute_name_index: nix,
                                                attribute_length: al,
                                                number_of_classes: cnt as u16,
                                                classes: Seq::new(
                                                    cnt as nat,
                                                    |i: int|
                                                        crate::java_class::InnerClassElement {
                                                            inner_class_info_index:
                                                                crate::reader::be_value(
                                                                bytes,
                                                                start + 2 + 8 * i,
                                                                2,
                                                            ) as u16,
                                                            outer_class_info_index:
                                                                crate::reader::be_value(
                                                                bytes,
                                                                start + 2 + 8 * i + 2,
                                                                2,
                                                            ) as u16,
                                                            inner_name_index:
                                                                crate::reader::be_value(
                                                                bytes,
                                                                start + 2 + 8 * i + 4,
                                                                2,
                                                            ) as u16,
                                                            inner_class_access_flags:
                                                                crate::reader::be_value(
                                                                bytes,
                                                                start + 2 + 8 * i + 6,
                                                                2,
                                                            ) as u16,
                                                        },
                                                ),
                                            },
                                        ),
                                        end,
                                    ),
                                )
                            }
                        }
                    } else if name == "EnclosingMethod"@ {
                        if start + 4 > bytes.len() {
                            None
                        } else {
                            Some(
                                (
                                    AttributeModel::EnclosingMethod(
                                        crate::java_class::EnclosingMethodAttribute {
                                            attribute_name_index: nix,
                                            attribute_length: al,
                                            class_index: crate::reader::be_value(
                                                bytes,
                                                start,
                                                2,
                                            ) as u16,
                                            method_index: crate::reader::be_value(
                                                bytes,
                                                start + 2,
                                                2,
                                            ) as u16,
                                        },
                                    ),
                                    end,
                                ),
                            )
                        }
                    } else if name == "Synthetic"@ {
                        Some(
                            (
                                AttributeModel::Synthetic(
                                    crate::java_class::SyntheticAttribute {
                                        attribute_name_index: nix,
                                        attribute_length: al,
                                    },
                                ),
                                end,
                            ),
                        )
                    } else if name == "Signature"@ {
                        if start + 2 > bytes.len() {
                            None
                        } else {
                            Some(
                                (
                                    AttributeModel::Signature(
                                        crate::java_class::SignatureAttribute {
                                            attribute_name_index: nix,
                                            attribute_length: al,
                                            signature_index: crate::reader::be_value(
                                                bytes,
                                                start,
                                                2,
                                            ) as u16,
                                        },
                                    ),
                                    end,
                                ),
                            )
                        }
                    } else if name == "SourceFile"@ {
                        if start + 2 > bytes.len() {
                            None
                        } else {
                            Some(
                                (
                                    AttributeModel::SourceFile(
                                        crate::java_class::SourceFileAttribute {
                                            attribute_name_index: nix,
                                            attribute_length: al,
                                            sourcefile_index: crate::reader::be_value(
                                                bytes,
                                                start,
                                                2,
                                            ) as u16,
                                        },
                                    ),
                                    end,
                                ),
                            )
                        }
                    } else if name == "LineNumberTable"@ {
                        if start + 2 > bytes.len() {
                            None
                        } else {
                            let cnt = crate::reader::be_value(bytes, start, 2);
                            if start + 2 + 4 * cnt > bytes.len() {
                                None
                            } else {
                                Some(
                                    (
                                        AttributeModel::LineNumberTable(
                                            LineNumberTableModel {
                                                attribute_name_index: nix,
                                                attribute_length: al,
                                                line_number_table_length: cnt as u16,
                                                line_number_table: Seq::new(
                                                    cnt as nat,
                                                    |i: int|
                                                        crate::java_class::LineNumberTableElement {
                                                            start_pc: crate::reader::be_value(
                                                                bytes,
                                                                start + 2 + 4 * i,
                                                                2,
                                                            ) as u16,
                                                            line_number: crate::reader::be_value(
                                                                bytes,
                                                                start + 2 + 4 * i + 2,
                                                                2,
                                                            ) as u16,
                                                        },
                                                ),
                                            },
                                        ),
                                        end,
                                    ),
                                )
                            }
                        }
                    } else if name == "LocalVariableTable"@ {
                        if start + 2 > bytes.len() {
                            None
                        } else {
                            let cnt = crate::reader::be_value(bytes, start, 2);
                            if start + 2 + 10 * cnt > bytes.len() {
                                None
                            } else {
                                Some(
                                    (
                                        AttributeModel::LocalVariableTable(
                                            LocalVariableTableModel {
                                                attribute_name_index: nix,
                                                attribute_length: al,
                                                local_variable_table_length: cnt as u16,
                                                local_variable_table: Seq::new(
                                                    cnt as nat,
                                                    |i: int|
                                                        crate::java_class::LocalVariableTableElement {
                                                            start_pc: crate::reader::be_value(
                                                                bytes,
                                                                start + 2 + 10 * i,
                                                                2,
                                                            ) as u16,
                                                            length: crate::reader::be_value(
                                                                bytes,
                                                                start + 2 + 10 * i + 2,
                                                                2,
                                                            ) as u16,
                                                            name_index: crate::reader::be_value(
                                                                bytes,
                                                                start + 2 + 10 * i + 4,
                                                                2,
                                                            ) as u16,
                                                            descriptor_index:
                                                                crate::reader::be_value(
                                                                bytes,
                                                                start + 2 + 10 * i + 6,
                                                                2,
                                                            ) as u16,
                                                            index: crate::reader::be_value(
                                                                bytes,
                                                                start + 2 + 10 * i + 8,
                                                                2,
                                                            ) as u16,
                                                        },
                                                ),
                                            },
                                        ),
                                        end,
                                    ),
                                )
                            }
                        }
                    } else if name == "LocalVariableTypeTable"@ {
                        if start + 2 > bytes.len() {
                            None
                        } else {
                            let cnt = crate::reader::be_value(bytes, start, 2);
                            if start + 2 + 10 * cnt > bytes.len() {
                                None
                            } else {
                                Some(
                                    (
                                        AttributeModel::LocalVariableTypeTable(
                                            LocalVariableTypeTableModel {
                                                attribute_name_index: nix,
                                                attribute_length: al,
                                                local_variable_type_table_length: cnt as u16,
                                                local_variable_type_table: Seq::new(
                                                    cnt as nat,
                                                    |i: int|
                                                        crate::java_class::LocalVariableTypeTableElement {
                                                            start_pc: crate::reader::be_value(
                                                                bytes,
                                                                start + 2 + 10 * i,
                                                                2,
                                                            ) as u16,
                                                            length: crate::reader::be_value(
                                                                bytes,
                                                                start + 2 + 10 * i + 2,
                                                                2,
                                                            ) as u16,
                                                            name_index: crate::reader::be_value(
                                                                bytes,
                                                                start + 2 + 10 * i + 4,
                                                                2,
                                                            ) as u16,
                                                            signature_index:
                                                                crate::reader::be_value(
                                                                bytes,
                                                                start + 2 + 10 * i + 6,
                                                                2,
                                                            ) as u16,
                                                            index: crate::reader::be_value(
                                                                bytes,
                                                                start + 2 + 10 * i + 8,
                                                                2,
                                                            ) as u16,
                                                        },
                                                ),
                                            },
                                        ),
                                        end,
                                    ),
                                )
                            }
                        }
                    } else if name == "Deprecated"@ {
                        Some(
                            (
                                AttributeModel::Deprecated(
                                    crate::java_class::DeprecatedAttribute {
                                        attribute_name_index: nix,
                                        attribute_length: al,
                                    },
                                ),
                                end,
                            ),
                        )
                    } else {
                        None
                    }
                },
            }
        }
    }
}

/// The model of `count` attributes parsed at `pos`.
pub open spec fn parse_attrs_spec(
    bytes: Seq<u8>,
    cp: Seq<CpEntryModel>,
    pos: int,
    count: int,
) -> Option<(Seq<AttributeModel>, int)>
    decreases bytes.len() - pos, 2int, count,
{
    if count <= 0 {
        Some((Seq::empty(), pos))
    } else if pos < 0 || pos > bytes.len() {
        None
    } else {
        match parse_attribute_spec(bytes, cp, pos) {
            None => None,
            Some(ap) => {
                if ap.1 <= pos || ap.1 > bytes.len() {
                    None
                } else {
                    match parse_attrs_spec(bytes, cp, ap.1, count - 1) {
                        None => None,
                        Some(rest) => Some((seq![ap.0] + rest.0, rest.1)),
                    }
                }
            },
        }
    }
}


/// Parses one attribute, leaving the cursor at `start + attribute_length`.
fn parse_attribute(r: &mut Reader, ct: &[ConstantPoolEntry]) -> (res: Result<
    crate::java_class::Attribute,
    JvmError,
>)
    ensures
        final(r).bytes@ == old(r).bytes@,
        match parse_attribute_spec(
            old(r).bytes@,
            crate::java_class::cp_view(ct@),
            old(r).index as int,
        ) {
            Some(ap) => res is Ok && res->Ok_0@ == ap.0 && final(r).index == ap.1,
            None => res is Err && kind_of(res->Err_0) == ErrorKind::ParseError,
        },
        res is Ok ==> old(r).index + 6 <= final(r).index <= final(r).bytes@.len(),
    decreases r.bytes@.len() - r.index, 0int, 0int,
{
    if r.pos() > r.bytes.len() || r.remaining() < 6 {
        return Err(crate::error::err_parse("truncated attribute header"));
    }
    let ni_raw = r.g2();
    let alen = r.g4();
    let start = r.pos();
    let end128: u128 = start as u128 + alen as u128;
    if ni_raw < 1 || end128 > r.bytes.len() as u128 {
        return Err(crate::error::err_parse("attribute runs past the end of the artifact"));
    }
    let end = end128 as usize;
    let ni = ni_raw as usize;
    if ni > ct.len() {
        return Err(crate::error::err_parse("attribute name index out of range"));
    }
    let nm = match &ct[ni - 1] {
        ConstantPoolEntry::Utf8(s) => s.clone(),
        _ => {
            return Err(crate::error::err_parse("attribute name is not a utf8 string"));
        },
    };
    let nix = (ni_raw - 1) as u16;
    if text::str_eq(nm.as_str(), "ConstantValue") {
        if r.remaining() < 2 {
            return Err(crate::error::err_parse("truncated attribute"));
        }
        let constant_value_index = r.g2();
        let a = crate::java_class::Attribute::ConstantValue(
            crate::java_class::ConstantValueAttribute {
                attribute_name_index: nix,
                attribute_length: alen,
                constant_value_index,
            },
        );
        r.set_pos(end);
        Ok(a)
    } else if text::str_eq(nm.as_str(), "Code") {
        if r.remaining() < 8 {
            return Err(crate::error::err_parse("truncated attribute"));
        }
        let max_stack = r.g2();
        let max_locals = r.g2();
        let code_length = r.g4();
        let clen = code_length as usize;
        if r.remaining() < clen {
            return Err(crate::error::err_parse("truncated attribute"));
        }
        let code = r.g(clen);
        if r.remaining() < 2 {
            return Err(crate::error::err_parse("truncated attribute"));
        }
        let exception_table_length = r.g2();
        let etl = exception_table_length as usize;
        if r.remaining() < etl {
            return Err(crate::error::err_parse("truncated attribute"));
        }
        let exception_table = r.g(etl);
        if r.remaining() < 2 {
            return Err(crate::error::err_parse("truncated attribute"));
        }
        let attributes_count = r.g2();
        let attributes = parse_attributes(r, ct, attributes_count)?;
        let a = crate::java_class::Attribute::Code(
            crate::java_class::CodeAttribute {
                attribute_name_index: nix,
                attribute_length: alen,
                max_stack,
                max_locals,
                code_length,
                code,
                exception_table_length,
                exception_table,
                attributes_count,
                attributes,
            },
        );
        r.set_pos(end);
        Ok(a)
    } else if text::str_eq(nm.as_str(), "StackMapTable") {
        if r.remaining() < 2 {
            return Err(crate::error::err_parse("truncated attribute"));
        }
        let number_of_entries = r.g2();
        let al = alen as usize;
        if r.remaining() < al {
            return Err(crate::error::err_parse("truncated attribute"));
        }
        let entries = r.g(al);
        let a = crate::java_class::Attribute::StackMapTable(
            crate::java_class::StackMapTableAttribute {
                attribute_name_index: nix,
                attribute_length: alen,
                number_of_entries,
                entries,
            },
        );
        r.set_pos(end);
        Ok(a)
    } else if text::str_eq(nm.as_str(), "Exceptions") {
        if r.remaining() < 2 {
            return Err(crate::error::err_parse("truncated attribute"));
        }
        let number_of_exceptions = r.g2();
        let al = alen as usize;
        if r.remaining() < al {
            return Err(crate::error::err_parse("truncated attribute"));
        }
        let exception_index_table = r.g(al);
        let a = crate::java_class::Attribute::Exceptions(
            crate::java_class::ExceptionsAttribute {
                attribute_name_index: nix,
                attribute_length: alen,
                number_of_exceptions,
                exception_index_table,
            },
        );
        r.set_pos(end);
        Ok(a)
    } else if text::str_eq(nm.as_str(), "InnerClasses") {
        if r.remaining() < 2 {
            return Err(crate::error::err_parse("truncated attribute"));
        }
        let number_of_classes = r.g2();
        let cnt = number_of_classes as usize;
        let need = cnt * 8;
        if r.remaining() < need {
            return Err(crate::error::err_parse("truncated attribute"));
        }
        let ghost b0 = r.bytes@;
        let ghost q = r.index as int;
        let mut classes: Vec<crate::java_class::InnerClassElement> = Vec::new();
        let mut i: usize = 0;
        while i < cnt
            invariant
                0 <= i <= cnt,
                r.bytes@ == b0,
                r.index == q + 8 * i,
                q + 8 * cnt <= b0.len(),
                classes@ == Seq::new(
                    i as nat,
                    |j: int|
                        crate::java_class::InnerClassElement {
                            inner_class_info_index: crate::reader::be_value(b0, q + 8 * j, 2) as u16,
                            outer_class_info_index: crate::reader::be_value(
                                b0,
                                q + 8 * j + 2,
                                2,
                            ) as u16,
                            inner_name_index: crate::reader::be_value(b0, q + 8 * j + 4, 2) as u16,
                            inner_class_access_flags: crate::reader::be_value(
                                b0,
                                q + 8 * j + 6,
                                2,
                            ) as u16,
                        },
                ),
            decreases cnt - i,
        {
            let w = crate::java_class::InnerClassElement {
                inner_class_info_index: r.g2(),
                outer_class_info_index: r.g2(),
                inner_name_index: r.g2(),
                inner_class_access_flags: r.g2(),
            };
            classes.push(w);
            proof {
                assert(classes@ =~= Seq::new(
                    (i + 1) as nat,
                    |j: int|
                        crate::java_class::InnerClassElement {
                            inner_class_info_index: crate::reader::be_value(b0, q + 8 * j, 2) as u16,
                            outer_class_info_index: crate::reader::be_value(
                                b0,
                                q + 8 * j + 2,
                                2,
                            ) as u16,
                            inner_name_index: crate::reader::be_value(b0, q + 8 * j + 4, 2) as u16,
                            inner_class_access_flags: crate::reader::be_value(
                                b0,
                                q + 8 * j + 6,
                                2,
                            ) as u16,
                        },
                ));
            }
            i = i + 1;
        }
        let a = crate::java_class::Attribute::InnerClasses(
            crate::java_class::InnerClassesAttribute {
                attribute_name_index: nix,
                attribute_length: alen,
                number_of_classes,
                classes,
            },
        );
        r.set_pos(end);
        Ok(a)
    } else if text::str_eq(nm.as_str(), "EnclosingMethod") {
        if r.remaining() < 4 {
            return Err(crate::error::err_parse("truncated attribute"));
        }
        let class_index = r.g2();
        let method_index = r.g2();
        let a = crate::java_class::Attribute::EnclosingMethod(
            crate::java_class::EnclosingMethodAttribute {
                attribute_name_index: nix,
                attribute_length: alen,
                class_index,
                method_index,
            },
        );
        r.set_pos(end);
        Ok(a)
    } else if text::str_eq(nm.as_str(), "Synthetic") {
        let a = crate::java_class::Attribute::Synthetic(
            crate::java_class::SyntheticAttribute {
                attribute_name_index: nix,
                attribute_length: alen,
            },
        );
        r.set_pos(end);
        Ok(a)
    } else if text::str_eq(nm.as_str(), "Signature") {
        if r.remaining() < 2 {
            return Err(crate::error::err_parse("truncated attribute"));
        }
        let signature_index = r.g2();
        let a = crate::java_class::Attribute::Signature(
            crate::java_class::SignatureAttribute {
                attribute_name_index: nix,
                attribute_length: alen,
                signature_index,
            },
        );
        r.set_pos(end);
        Ok(a)
    } else if text::str_eq(nm.as_str(), "SourceFile") {
        if r.remaining() < 2 {
            return Err(crate::error::err_parse("truncated attribute"));
        }
        let sourcefile_index = r.g2();
        let a = crate::java_class::Attribute::SourceFile(
            crate::java_class::SourceFileAttribute {
                attribute_name_index: nix,
                attribute_length: alen,
                sourcefile_index,
            },
        );
        r.set_pos(end);
        Ok(a)
    } else if text::str_eq(nm.as_str(), "LineNumberTable") {
        if r.remaining() < 2 {
            return Err(crate::error::err_parse("truncated attribute"));
        }
        let line_number_table_length = r.g2();
        let cnt = line_number_table_length as usize;
        let need = cnt * 4;
        if r.remaining() < need {
            return Err(crate::error::err_parse("truncated attribute"));
        }
        let ghost b0 = r.bytes@;
        let ghost q = r.index as int;
        let mut line_number_table: Vec<crate::java_class::LineNumberTableElement> = Vec::new();
        let mut i: usize = 0;
        while i < cnt
            invariant
                0 <= i <= cnt,
                r.bytes@ == b0,
                r.index == q + 4 * i,
                q + 4 * cnt <= b0.len(),
                line_number_table@ == Seq::new(
                    i as nat,
                    |j: int|
                        crate::java_class::LineNumberTableElement {
                            start_pc: crate::reader::be_value(b0, q + 4 * j, 2) as u16,
                            line_number: crate::reader::be_value(b0, q + 4 * j + 2, 2) as u16,
                        },
                ),
            decreases cnt - i,
        {
            let w = crate::java_class::LineNumberTableElement {
                start_pc: r.g2(),
                line_number: r.g2(),
            };
            line_number_table.push(w);
            proof {
                assert(line_number_table@ =~= Seq::new(
                    (i + 1) as nat,
                    |j: int|
                        crate::java_class::LineNumberTableElement {
                            start_pc: crate::reader::be_value(b0, q + 4 * j, 2) as u16,
                            line_number: crate::reader::be_value(b0, q + 4 * j + 2, 2) as u16,
                        },
                ));
            }
            i = i + 1;
        }
        let a = crate::java_class::Attribute::LineNumberTable(
            crate::java_class::LineNumberTableAttribute {
                attribute_name_index: nix,
                attribute_length: alen,
                line_number_table_length,
                line_number_table,
            },
        );
        r.set_pos(end);
        Ok(a)
    } else if text::str_eq(nm.as_str(), "LocalVariableTable") {
        if r.remaining() < 2 {
            return Err(crate::error::err_parse("truncated attribute"));
        }
        let local_variable_table_length = r.g2();
        let cnt = local_variable_table_length as usize;
        let need = cnt * 10;
        if r.remaining() < need {
            return Err(crate::error::err_parse("truncated attribute"));
        }
        let ghost b0 = r.bytes@;
        let ghost q = r.index as int;
        let mut local_variable_table: Vec<crate::java_class::LocalVariableTableElement> =
            Vec::new();
        let mut i: usize = 0;
        while i < cnt
            invariant
                0 <= i <= cnt,
                r.bytes@ == b0,
                r.index == q + 10 * i,
                q + 10 * cnt <= b0.len(),
                local_variable_table@ == Seq::new(
                    i as nat,
                    |j: int|
                        crate::java_class::LocalVariableTableElement {
                            start_pc: crate::reader::be_value(b0, q + 10 * j, 2) as u16,
                            length: crate::reader::be_value(b0, q + 10 * j + 2, 2) as u16,
                            name_index: crate::reader::be_value(b0, q + 10 * j + 4, 2) as u16,
                            descriptor_index: crate::reader::be_value(b0, q + 10 * j + 6, 2) as u16,
                            index: crate::reader::be_value(b0, q + 10 * j + 8, 2) as u16,
                        },
                ),
            decreases cnt - i,
        {
            let w = crate::java_class::LocalVariableTableElement {
                start_pc: r.g2(),
                length: r.g2(),
                name_index: r.g2(),
                descriptor_index: r.g2(),
                index: r.g2(),
            };
            local_variable_table.push(w);
            proof {
                assert(local_variable_table@ =~= Seq::new(
                    (i + 1) as nat,
                    |j: int|
                        crate::java_class::LocalVariableTableElement {
                            start_pc: crate::reader::be_value(b0, q + 10 * j, 2) as u16,
                            length: crate::reader::be_value(b0, q + 10 * j + 2, 2) as u16,
                            name_index: crate::reader::be_value(b0, q + 10 * j + 4, 2) as u16,
                            descriptor_index: crate::reader::be_value(b0, q + 10 * j + 6, 2) as u16,
                            index: crate::reader::be_value(b0, q + 10 * j + 8, 2) as u16,
                        },
                ));
            }
            i = i + 1;
        }
        let a = crate::java_class::Attribute::LocalVariableTable(
            crate::java_class::LocalVariableTableAttribute {
                attribute_name_index: nix,
                attribute_length: alen,
                local_variable_table_length,
                local_variable_table,
            },
        );
        r.set_pos(end);
        Ok(a)
    } else if text::str_eq(nm.as_str(), "LocalVariableTypeTable") {
        if r.remaining() < 2 {
            return Err(crate::error::err_parse("truncated attribute"));
        }
        let local_variable_type_table_length = r.g2();
        let cnt = local_variable_type_table_length as usize;
        let need = cnt * 10;
        if r.remaining() < need {
            return Err(crate::error::err_parse("truncated attribute"));
        }
        let ghost b0 = r.bytes@;
        let ghost q = r.index as int;
        let mut local_variable_type_table: Vec<crate::java_class::LocalVariableTypeTableElement> =
            Vec::new();
        let mut i: usize = 0;
        while i < cnt
            invariant
                0 <= i <= cnt,
                r.bytes@ == b0,
                r.index == q + 10 * i,
                q + 10 * cnt <= b0.len(),
                local_variable_type_table@ == Seq::new(
                    i as nat,
                    |j: int|
                        crate::java_class::LocalVariableTypeTableElement {
                            start_pc: crate::reader::be_value(b0, q + 10 * j, 2) as u16,
                            length: crate::reader::be_value(b0, q + 10 * j + 2, 2) as u16,
                            name_index: crate::reader::be_value(b0, q + 10 * j + 4, 2) as u16,
                            signature_index: crate::reader::be_value(b0, q + 10 * j + 6, 2) as u16,
                            index: crate::reader::be_value(b0, q + 10 * j + 8, 2) as u16,
                        },
                ),
            decreases cnt - i,
        {
            let w = crate::java_class::LocalVariableTypeTableElement {
                start_pc: r.g2(),
                length: r.g2(),
                name_index: r.g2(),
                signature_index: r.g2(),
                index: r.g2(),
            };
            local_variable_type_table.push(w);
            proof {
                assert(local_variable_type_table@ =~= Seq::new(
                    (i + 1) as nat,
                    |j: int|
                        crate::java_class::LocalVariableTypeTableElement {
                            start_pc: crate::reader::be_value(b0, q + 10 * j, 2) as u16,
                            length: crate::reader::be_value(b0, q + 10 * j + 2, 2) as u16,
                            name_index: crate::reader::be_value(b0, q + 10 * j + 4, 2) as u16,
                            signature_index: crate::reader::be_value(b0, q + 10 * j + 6, 2) as u16,
                            index: crate::reader::be_value(b0, q + 10 * j + 8, 2) as u16,
                        },
                ));
            }
            i = i + 1;
        }
        let a = crate::java_class::Attribute::LocalVariableTypeTable(
            crate::java_class::LocalVariableTypeTableAttribute {
                attribute_name_index: nix,
                attribute_length: alen,
                local_variable_type_table_length,
                local_variable_type_table,
            },
        );
        r.set_pos(end);
        Ok(a)
    } else if text::str_eq(nm.as_str(), "Deprecated") {
        let a = crate::java_class::Attribute::Deprecated(
            crate::java_class::DeprecatedAttribute {
                attribute_name_index: nix,
                attribute_length: alen,
            },
        );
        r.set_pos(end);
        Ok(a)
    } else {
        Err(crate::error::err_parse("unsupported attribute type"))
    }
}

/// Parses `attributes_count` attributes.
fn parse_attributes(r: &mut Reader, ct: &[ConstantPoolEntry], attributes_count: u16) -> (res:
    Result<Vec<crate::java_class::Attribute>, JvmError>)
    ensures
        final(r).bytes@ == old(r).bytes@,
        match parse_attrs_spec(
            old(r).bytes@,
            crate::java_class::cp_view(ct@),
            old(r).index as int,
            attributes_count as int,
        ) {
            Some(ap) => res is Ok && attrs_view(res->Ok_0@) == ap.0 && final(r).index == ap.1,
            None => res is Err && kind_of(res->Err_0) == ErrorKind::ParseError,
        },
        res is Ok ==> old(r).index <= final(r).index,
        res is Ok && attributes_count > 0 ==> final(r).index <= final(r).bytes@.len(),
    decreases r.bytes@.len() - r.index, 2int, attributes_count,
{
    if attributes_count == 0 {
        let v: Vec<crate::java_class::Attribute> = Vec::new();
        proof {
            assert(attrs_view(v@) =~= Seq::<AttributeModel>::empty());
        }
        return Ok(v);
    }
    if r.pos() > r.bytes.len() {
        return Err(crate::error::err_parse("attribute table runs past the end of the artifact"));
    }
    let first = parse_attribute(r, ct)?;
    let mut rest = parse_attributes(r, ct, attributes_count - 1)?;
    let mut v: Vec<crate::java_class::Attribute> = Vec::new();
    v.push(first);
    v.append(&mut rest);
    proof {
        assert(attrs_view(v@) =~= parse_attrs_spec(
            old(r).bytes@,
            crate::java_class::cp_view(ct@),
            old(r).index as int,
            attributes_count as int,
        )->Some_0.0);
    }
    Ok(v)
}


/// The model of a raw field entry.
pub ghost struct FieldModel {
    pub access_flags: u16,
    pub name: u16,
    pub descriptor: u16,
    pub attributes_count: u16,
    pub attributes: Seq<AttributeModel>,
}

impl View for crate::java_class::Field {
    type V = FieldModel;

    open spec fn view(&self) -> FieldModel {
        FieldModel {
            access_flags: self.access_flags,
            name: self.name,
            descriptor: self.descriptor,
            attributes_count: self.attributes_count,
            attributes: attrs_view(self.attributes@),
        }
    }
}

/// The model of a raw method entry.
pub ghost struct UnparsedMethodModel {
    pub access_flags: u16,
    pub name_index: u16,
    pub descriptor_index: u16,
    pub attributes_count: u16,
    pub attributes: Seq<AttributeModel>,
}

impl View for crate::java_class::UnparsedMethod {
    type V = UnparsedMethodModel;

    open spec fn view(&self) -> UnparsedMethodModel {
        UnparsedMethodModel {
            access_flags: self.access_flags,
            name_index: self.name_index,
            descriptor_index: self.descriptor_index,
            attributes_count: self.attributes_count,
            attributes: attrs_view(self.attributes@),
        }
    }
}

/// The model of `count` field entries parsed at `pos`.
pub open spec fn parse_fields_spec(
    bytes: Seq<u8>,
    cp: Seq<CpEntryModel>,
    pos: int,
    count: int,
) -> Option<(Seq<FieldModel>, int)>
    decreases bytes.len() - pos, 3int, count,
{
    if count <= 0 {
        Some((Seq::empty(), pos))
    } else if pos < 0 || pos + 8 > bytes.len() {
        None
    } else {
        let ac = crate::reader::be_value(bytes, pos + 6, 2);
        match parse_attrs_spec(bytes, cp, pos + 8, ac as int) {
            None => None,
            Some(ap) => {
                if ap.1 < pos + 8 || ap.1 > bytes.len() {
                    None
                } else {
                    match parse_fields_spec(bytes, cp, ap.1, count - 1) {
                        None => None,
                        Some(rest) => Some(
                            (
                                seq![
                                    FieldModel {
                                        access_flags: crate::reader::be_value(bytes, pos, 2) as u16,
                                        name: crate::reader::be_value(bytes, pos + 2, 2) as u16,
                                        descriptor: crate::reader::be_value(
                                            bytes,
                                            pos + 4,
                                            2,
                                        ) as u16,
                                        attributes_count: ac as u16,
                                        attributes: ap.0,
                                    },
                                ] + rest.0,
                                rest.1,
                            ),
                        ),
                    }
                }
            },
        }
    }
}

/// The model of `count` raw method entries parsed at `pos`.
pub open spec fn parse_methods_spec(
    bytes: Seq<u8>,
    cp: Seq<CpEntryModel>,
    pos: int,
    count: int,
) -> Option<(Seq<UnparsedMethodModel>, int)>
    decreases bytes.len() - pos, 3int, count,
{
    if count <= 0 {
        Some((Seq::empty(), pos))
    } else if pos < 0 || pos + 8 > bytes.len() {
        None
    } else {
        let ac = crate::reader::be_value(bytes, pos + 6, 2);
        match parse_attrs_spec(bytes, cp, pos + 8, ac as int) {
            None => None,
            Some(ap) => {
                if ap.1 < pos + 8 || ap.1 > bytes.len() {
                    None
                } else {
                    match parse_methods_spec(bytes, cp, ap.1, count - 1) {
                        None => None,
                        Some(rest) => Some(
                            (
                                seq![
                                    UnparsedMethodModel {
                                        access_flags: crate::reader::be_value(bytes, pos, 2) as u16,
                                        name_index: crate::reader::be_value(
                                            bytes,
                                            pos + 2,
                                            2,
                                        ) as u16,
                                        descriptor_index: crate::reader::be_value(
                                            bytes,
                                            pos + 4,
                                            2,
                                        ) as u16,
                                        attributes_count: ac as u16,
                                        attributes: ap.0,
                                    },
                                ] + rest.0,
                                rest.1,
                            ),
                        ),
                    }
                }
            },
        }
    }
}

/// The model of a field list.
pub open spec fn fields_view_of(s: Seq<crate::java_class::Field>) -> Seq<FieldModel> {
    s.map_values(|f: crate::java_class::Field| f@)
}

/// The model of a raw method list.
pub open spec fn ums_view(s: Seq<crate::java_class::UnparsedMethod>) -> Seq<UnparsedMethodModel> {
    s.map_values(|u: crate::java_class::UnparsedMethod| u@)
}

/// Parses `fields_count` field entries.
fn parse_fields(r: &mut Reader, ct: &[ConstantPoolEntry], fields_count: u16) -> (res: Result<
    Vec<crate::java_class::Field>,
    JvmError,
>)
    ensures
        final(r).bytes@ == old(r).bytes@,
        match parse_fields_spec(
            old(r).bytes@,
            crate::java_class::cp_view(ct@),
            old(r).index as int,
            fields_count as int,
        ) {
            Some(fp) => res is Ok && fields_view_of(res->Ok_0@) == fp.0 && final(r).index == fp.1,
            None => res is Err && kind_of(res->Err_0) == ErrorKind::ParseError,
        },
        res is Ok ==> old(r).index <= final(r).index,
    decreases r.bytes@.len() - r.index, 3int, fields_count,
{
    if fields_count == 0 {
        let v: Vec<crate::java_class::Field> = Vec::new();
        proof {
            assert(fields_view_of(v@) =~= Seq::<FieldModel>::empty());
        }
        return Ok(v);
    }
    if r.pos() > r.bytes.len() || r.remaining() < 8 {
        return Err(crate::error::err_parse("truncated field entry"));
    }
    let access_flags = r.g2();
    let name = r.g2();
    let descriptor = r.g2();
    let attributes_count = r.g2();
    let attributes = parse_attributes(r, ct, attributes_count)?;
    if r.pos() > r.bytes.len() {
        return Err(crate::error::err_parse("field attributes ran past the end of the artifact"));
    }
    let first = crate::java_class::Field {
        access_flags,
        name,
        descriptor,
        attributes_count,
        attributes,
    };
    let mut rest = parse_fields(r, ct, fields_count - 1)?;
    let mut v: Vec<crate::java_class::Field> = Vec::new();
    v.push(first);
    v.append(&mut rest);
    proof {
        assert(fields_view_of(v@) =~= parse_fields_spec(
            old(r).bytes@,
            crate::java_class::cp_view(ct@),
            old(r).index as int,
            fields_count as int,
        )->Some_0.0);
    }
    Ok(v)
}

/// Parses `methods_count` raw method entries.
fn parse_methods(r: &mut Reader, ct: &[ConstantPoolEntry], methods_count: u16) -> (res: Result<
    Vec<crate::java_class::UnparsedMethod>,
    JvmError,
>)
    ensures
        final(r).bytes@ == old(r).bytes@,
        match parse_methods_spec(
            old(r).bytes@,
            crate::java_class::cp_view(ct@),
            old(r).index as int,
            methods_count as int,
        ) {
            Some(mp) => res is Ok && ums_view(res->Ok_0@) == mp.0 && final(r).index == mp.1,
            None => res is Err && kind_of(res->Err_0) == ErrorKind::ParseError,
        },
        res is Ok ==> old(r).index <= final(r).index,
    decreases r.bytes@.len() - r.index, 3int, methods_count,
{
    if methods_count == 0 {
        let v: Vec<crate::java_class::UnparsedMethod> = Vec::new();
        proof {
            assert(ums_view(v@) =~= Seq::<UnparsedMethodModel>::empty());
        }
        return Ok(v);
    }
    if r.pos() > r.bytes.len() || r.remaining() < 8 {
        return Err(crate::error::err_parse("truncated method entry"));
    }
    let access_flags = r.g2();
    let name_index = r.g2();
    let descriptor_index = r.g2();
    let attributes_count = r.g2();
    let attributes = parse_attributes(r, ct, attributes_count)?;
    if r.pos() > r.bytes.len() {
        return Err(crate::error::err_parse("method attributes ran past the end of the artifact"));
    }
    let first = crate::java_class::UnparsedMethod {
        access_flags,
        name_index,
        descriptor_index,
        attributes_count,
        attributes,
    };
    let mut rest = parse_methods(r, ct, methods_count - 1)?;
    let mut v: Vec<crate::java_class::UnparsedMethod> = Vec::new();
    v.push(first);
    v.append(&mut rest);
    proof {
        assert(ums_view(v@) =~= parse_methods_spec(
            old(r).bytes@,
            crate::java_class::cp_view(ct@),
            old(r).index as int,
            methods_count as int,
        )->Some_0.0);
    }
    Ok(v)
}

/// The method table a class's raw method entries denote: each entry keyed by
/// `name + descriptor`, its mandatory `Code` attribute decoded. `None` when a
/// name reference is broken, a method lacks a leading `Code` attribute, or
/// its code does not decode.
pub open spec fn build_methods_spec(cp: Seq<CpEntryModel>, ums: Seq<UnparsedMethodModel>) -> Option<
    Seq<(Seq<char>, crate::jvm::MethodModel)>,
>
    decreases ums.len(),
{
    if ums.len() == 0 {
        Some(Seq::empty())
    } else {
        let um = ums[0];
        match (
            crate::java_class::cp_utf8(cp, um.name_index as int),
            crate::java_class::cp_utf8(cp, um.descriptor_index as int),
        ) {
            (Some(name), Some(sig)) => {
                if um.attributes.len() < 1 {
                    None
                } else {
                    match um.attributes[0] {
                        AttributeModel::Code(c) => match decode_from(c.code, 0) {
                            None => None,
                            Some(instrs) => match build_methods_spec(cp, ums.drop_first()) {
                                None => None,
                                Some(rest) => Some(
                                    seq![
                                        (
                                            name + sig,
                                            crate::jvm::MethodModel {
                                                instructions: instrs,
                                                max_stack: c.max_stack as nat,
                                                max_locals: c.max_locals as nat,
                                            },
                                        ),
                                    ] + rest,
                                ),
                            },
                        },
                        _ => None,
                    }
                }
            },
            _ => None,
        }
    }
}

/// A fresh copy of a byte vector.
fn copy_bytes(v: &Vec<u8>) -> (r: Vec<u8>)
    ensures
        r@ == v@,
{
    let n = v.len();
    let mut r: Vec<u8> = Vec::new();
    let mut i: usize = 0;
    while i < n
        invariant
            0 <= i <= n,
            n == v@.len(),
            r@ == v@.subrange(0, i as int),
        decreases n - i,
    {
        r.push(v[i]);
        proof {
            assert(r@ =~= v@.subrange(0, i + 1));
        }
        i = i + 1;
    }
    proof {
        assert(r@ =~= v@);
    }
    r
}

/// Builds the method table from the raw entries starting at `i`.
fn build_methods(
    ct: &[ConstantPoolEntry],
    ums: &Vec<crate::java_class::UnparsedMethod>,
    i: usize,
) -> (res: Result<Vec<(String, Method)>, JvmError>)
    requires
        i <= ums@.len(),
    ensures
        match build_methods_spec(
            crate::java_class::cp_view(ct@),
            ums_view(ums@).skip(i as int),
        ) {
            Some(ms) => res is Ok && crate::jvm::methods_view(res->Ok_0@) == ms,
            None => res is Err && kind_of(res->Err_0) == ErrorKind::ParseError,
        },
    decreases ums@.len() - i,
{
    if i == ums.len() {
        let v: Vec<(String, Method)> = Vec::new();
        proof {
            assert(ums_view(ums@).skip(i as int) =~= Seq::<UnparsedMethodModel>::empty());
            assert(crate::jvm::methods_view(v@) =~= Seq::<(Seq<char>, crate::jvm::MethodModel)>::empty());
        }
        return Ok(v);
    }
    proof {
        assert(ums_view(ums@).skip(i as int)[0] == ums@[i as int]@);
        assert(ums_view(ums@).skip(i as int).drop_first() =~= ums_view(ums@).skip(i + 1));
    }
    let um = &ums[i];
    let ni = um.name_index as usize;
    if ni < 1 || ni > ct.len() {
        return Err(crate::error::err_parse("method name index out of range"));
    }
    let name = match &ct[ni - 1] {
        ConstantPoolEntry::Utf8(s) => s.clone(),
        _ => {
            return Err(crate::error::err_parse("method name is not a utf8 string"));
        },
    };
    let di = um.descriptor_index as usize;
    if di < 1 || di > ct.len() {
        return Err(crate::error::err_parse("method descriptor index out of range"));
    }
    let sig = match &ct[di - 1] {
        ConstantPoolEntry::Utf8(s) => s.clone(),
        _ => {
            return Err(crate::error::err_parse("method signature is not a utf8 string"));
        },
    };
    if um.attributes.len() == 0 {
        return Err(crate::error::err_parse("method has no attributes"));
    }
    let (key, method) = match &um.attributes[0] {
        crate::java_class::Attribute::Code(c) => {
            let code_copy = copy_bytes(&c.code);
            let instructions = bytes_to_bytecode(code_copy)?;
            let key = name.concat(sig.as_str());
            (
                key,
                Method { instructions, max_stack: c.max_stack, max_locals: c.max_locals },
            )
        },
        _ => {
            return Err(crate::error::err_parse("method attribute is not a code attribute"));
        },
    };
    let mut rest = build_methods(ct, ums, i + 1)?;
    let mut v: Vec<(String, Method)> = Vec::new();
    v.push((key, method));
    v.append(&mut rest);
    proof {
        assert(crate::jvm::methods_view(v@) =~= build_methods_spec(
            crate::java_class::cp_view(ct@),
            ums_view(ums@).skip(i as int),
        )->Some_0);
    }
    Ok(v)
}

/// The loaded class a class artifact denotes: its magic word checked, its
/// constant pool parsed, and each method's code decoded, keyed by name plus
/// descriptor. Static fields start empty.
pub open spec fn parse_class_spec(bytes: Seq<u8>) -> Option<crate::jvm::ClassModel> {
    if bytes.len() < 10 {
        None
    } else if crate::reader::be_value(bytes, 0, 4) != 0xCAFEBABE {
        None
    } else {
        let cpc = crate::reader::be_value(bytes, 8, 2);
        let n = if cpc >= 1 {
            (cpc - 1) as int
        } else {
            0int
        };
        match parse_cp_items_spec(bytes, 10, n) {
            None => None,
            Some(cpp) => {
                let cp = cpp.0;
                let p1 = cpp.1;
                if p1 + 8 > bytes.len() {
                    None
                } else {
                    let this_class = crate::reader::be_value(bytes, p1 + 2, 2);
                    let ic = crate::reader::be_value(bytes, p1 + 6, 2);
                    match parse_interfaces_spec(bytes, p1 + 8, ic as int) {
                        None => None,
                        Some(ip) => {
                            if ip.1 + 2 > bytes.len() {
                                None
                            } else {
                                let fc = crate::reader::be_value(bytes, ip.1, 2);
                                match parse_fields_spec(bytes, cp, ip.1 + 2, fc as int) {
                                    None => None,
                                    Some(fp) => {
                                        if fp.1 + 2 > bytes.len() {
                                            None
                                        } else {
                                            let mc = crate::reader::be_value(bytes, fp.1, 2);
                                            match parse_methods_spec(
                                                bytes,
                                                cp,
                                                fp.1 + 2,
                                                mc as int,
                                            ) {
                                                None => None,
                                                Some(mp) => {
                                                    if mp.1 + 2 > bytes.len() {
                                                        None
                                                    } else {
                                                        let ac = crate::reader::be_value(
                                                            bytes,
                                                            mp.1,
                                                            2,
                                                        );
                                                        match parse_attrs_spec(
                                                            bytes,
                                                            cp,
                                                            mp.1 + 2,
                                                            ac as int,
                                                        ) {
                                                            None => None,
                                                            Some(_tp) => {
                                                                match (
                                                                    crate::java_class::cp_class_name(
                                                                        cp,
                                                                        this_class as int,
                                                                    ),
                                                                    build_methods_spec(cp, mp.0),
                                                                ) {
                                                                    (
                                                                        Some(name),
                                                                        Some(methods),
                                                                    ) => Some(
                                                                        crate::jvm::ClassModel {
                                                                            name,
                                                                            constant_pool: cp,
                                                                            static_fields: Seq::empty(),
                                                                            methods,
                                                                        },
                                                                    ),
                                                                    _ => None,
                                                                }
                                                            },
                                                        }
                                                    }
                                                },
                                            }
                                        }
                                    },
                                }
                            }
                        },
                    }
                }
            },
        }
    }
}

/// Parses a class artifact, given its raw bytes; see `parse_class_spec`.
/// Fails with `ParseError` exactly when the artifact does not parse.
pub fn parse_file_to_class(bytes: Vec<u8>) -> (res: Result<Class, JvmError>)
    ensures
        res is Ok <==> parse_class_spec(bytes@) is Some,
        res is Ok ==> res->Ok_0@ == parse_class_spec(bytes@)->Some_0,
        res is Err ==> kind_of(res->Err_0) == ErrorKind::ParseError,
{
    let mut r = Reader::new(bytes);
    if r.remaining() < 10 {
        return Err(crate::error::err_parse("truncated class artifact"));
    }
    let magic = r.g4();
    if magic != 0xCAFE_BABE {
        return Err(crate::error::err_parse("invalid magic number"));
    }
    let _minor_version = r.g2();
    let _major_version = r.g2();
    let constant_pool_count = r.g2();
    let constant_pool = parse_constant_pool(&mut r, constant_pool_count)?;
    if r.pos() > r.bytes.len() || r.remaining() < 8 {
        return Err(crate::error::err_parse("truncated class artifact"));
    }
    let _access_flags = crate::java_class::ClassFlags::parse(r.g2());
    let this_class = r.g2();
    let _super_class = r.g2();
    let interfaces_count = r.g2();
    let _interfaces = parse_interfaces(&mut r, interfaces_count)?;
    if r.pos() > r.bytes.len() || r.remaining() < 2 {
        return Err(crate::error::err_parse("truncated class artifact"));
    }
    let fields_count = r.g2();
    let _fields = parse_fields(&mut r, constant_pool.as_slice(), fields_count)?;
    if r.pos() > r.bytes.len() || r.remaining() < 2 {
        return Err(crate::error::err_parse("truncated class artifact"));
    }
    let methods_count = r.g2();
    let unparsed_methods = parse_methods(&mut r, constant_pool.as_slice(), methods_count)?;
    if r.pos() > r.bytes.len() || r.remaining() < 2 {
        return Err(crate::error::err_parse("truncated class artifact"));
    }
    let attributes_count = r.g2();
    let _attributes = parse_attributes(&mut r, constant_pool.as_slice(), attributes_count)?;
    let name = match ConstantPoolEntry::class_parser(
        this_class as usize,
        constant_pool.as_slice(),
    ) {
        Ok(n) => n,
        Err(_) => {
            return Err(crate::error::err_parse("this_class does not name a class"));
        },
    };
    let methods = match build_methods(constant_pool.as_slice(), &unparsed_methods, 0) {
        Ok(m) => m,
        Err(e) => {
            proof {
                assert(ums_view(unparsed_methods@).skip(0) =~= ums_view(unparsed_methods@));
            }
            return Err(e);
        },
    };
    let c = Class { name, constant_pool, static_fields: Vec::new(), methods };
    proof {
        assert(ums_view(unparsed_methods@).skip(0) =~= ums_view(unparsed_methods@));
        assert(crate::jvm::pairs_view(Seq::<(String, crate::bytecode::Primitive)>::empty())
            =~= Seq::<(Seq<char>, crate::bytecode::Primitive)>::empty());
        assert(c@ =~~= parse_class_spec(r.bytes@)->Some_0);
    }
    Ok(c)
}

} // verus!
