//! Values, value tags and decoded instructions, together with the arithmetic
//! and conversion semantics of the machine.
//!
//! Integer arithmetic follows Java's two's-complement rules: add, subtract,
//! multiply and negate wrap; division truncates toward zero and wraps only on
//! `MIN / -1`; shift counts are masked to the width of the shifted type; the
//! unsigned right shift zero-extends. `Float` and `Double` values are carried
//! as their raw IEEE-754 bit patterns and are never computed with here:
//! operations on them fail with `Unimplemented`.
use vstd::prelude::*;

use crate::error::{ErrorKind, JvmError};
use crate::text;

verus! {

/// A value tag. `Null` doubles as the `void` return type; `Reference` covers
/// both object and array references; `Boolean` is stored as `Byte` or `Int`
/// at runtime.
#[derive(Debug, Clone, Copy, PartialEq, Eq, Structural)]
pub enum PrimitiveType {
    Null,
    Byte,
    Short,
    Char,
    Int,
    Long,
    Float,
    Double,
    Reference,
    Boolean,
}

/// A runtime value: a tag together with its payload. `Float` and `Double`
/// hold raw IEEE-754 bit patterns. `Reference` indexes the heap or a frame's
/// array table; `ReturnAddress` is the distinct value pushed by `Jsr` and
/// consumed by `Ret`, so that return addresses are never confused with
/// object references.
#[derive(Debug, Clone, Copy, PartialEq, Eq, Structural)]
pub enum Primitive {
    Null,
    Byte(i8),
    Short(i16),
    Char(u16),
    Int(i32),
    Long(i64),
    Float(u32),
    Double(u64),
    Reference(usize),
    ReturnAddress(usize),
}

/// The condition of a conditional branch.
#[derive(Debug, Clone, Copy, PartialEq, Eq, Structural)]
pub enum Comparison {
    Equal,
    NotEqual,
    LessThan,
    GreaterThan,
    LessThanOrEqual,
    GreaterThanOrEqual,
}

/// An arithmetic, bitwise or conversion operator, shared by the typed
/// instruction families.
#[derive(Debug, Clone, Copy, PartialEq, Eq, Structural)]
pub enum Operator {
    Add,
    Sub,
    Mul,
    Div,
    Rem,
    Neg,
    Shl,
    Shr,
    UShr,
    And,
    Or,
    Xor,
    Convert(PrimitiveType, PrimitiveType),
}

/// A decoded instruction. Families are collapsed into typed variants: every
/// integer, long, float and double add is `Add(t)`, every typed load is
/// `Load(index, t)`, and so on. Branch offsets are byte-relative signed
/// displacements from the branch instruction's own offset.
#[derive(Debug, Clone, Copy, PartialEq, Eq, Structural)]
pub enum Instruction {
    Nop,
    AConstNull,
    Const(Primitive),
    LoadConst(usize),
    Load(usize, PrimitiveType),
    ALoad(PrimitiveType),
    Store(usize, PrimitiveType),
    AStore(PrimitiveType),
    Pop,
    Pop2,
    Dup,
    DupX1,
    DupX2,
    Dup2,
    Dup2X1,
    Dup2X2,
    Swap,
    Add(PrimitiveType),
    Sub(PrimitiveType),
    Mul(PrimitiveType),
    Div(PrimitiveType),
    Rem(PrimitiveType),
    Neg(PrimitiveType),
    Shl(PrimitiveType),
    Shr(PrimitiveType),
    UShr(PrimitiveType),
    And(PrimitiveType),
    Or(PrimitiveType),
    Xor(PrimitiveType),
    IInc(usize, i8),
    Convert(PrimitiveType, PrimitiveType),
    LCmp,
    FCmpL,
    FCmpG,
    DCmpL,
    DCmpG,
    If(i32, Comparison),
    IfICmp(i32, Comparison),
    Goto(i32),
    Jsr(i32),
    Ret(usize),
    Return(PrimitiveType),
    GetStatic(usize),
    PutStatic(usize),
    GetField(usize),
    PutField(usize),
    InvokeVirtual(usize),
    InvokeSpecial(usize),
    InvokeStatic(usize),
    InvokeInterface(usize),
    InvokeDynamic(usize),
    New(usize),
    NewArray(PrimitiveType),
    ANewArray(usize),
    ArrayLength,
    AThrow,
    CheckCast(usize),
    InstanceOf(usize),
    MonitorEnter,
    MonitorExit,
    MultiANewArray(usize, usize),
    IfNull(i32),
    IfNonNull(i32),
    Breakpoint,
}

impl Comparison {
    /// The comparison that accepts exactly the values this one rejects.
    pub fn negate(&self) -> (r: Comparison)
        ensures
            r == negate_spec(*self),
    {
        match self {
            Comparison::Equal => Comparison::NotEqual,
            Comparison::NotEqual => Comparison::Equal,
            Comparison::LessThan => Comparison::GreaterThanOrEqual,
            Comparison::GreaterThan => Comparison::LessThanOrEqual,
            Comparison::LessThanOrEqual => Comparison::GreaterThan,
            Comparison::GreaterThanOrEqual => Comparison::LessThan,
        }
    }
}

/// The negated comparison.
pub open spec fn negate_spec(c: Comparison) -> Comparison {
    match c {
        Comparison::Equal => Comparison::NotEqual,
        Comparison::NotEqual => Comparison::Equal,
        Comparison::LessThan => Comparison::GreaterThanOrEqual,
        Comparison::GreaterThan => Comparison::LessThanOrEqual,
        Comparison::LessThanOrEqual => Comparison::GreaterThan,
        Comparison::GreaterThanOrEqual => Comparison::LessThan,
    }
}

/// True when the value carries the given tag. `Boolean` never matches a
/// value: booleans are stored as `Byte` or `Int`.
pub open spec fn is_type_spec(p: Primitive, t: PrimitiveType) -> bool {
    match (p, t) {
        (Primitive::Null, PrimitiveType::Null) => true,
        (Primitive::Byte(_), PrimitiveType::Byte) => true,
        (Primitive::Short(_), PrimitiveType::Short) => true,
        (Primitive::Char(_), PrimitiveType::Char) => true,
        (Primitive::Int(_), PrimitiveType::Int) => true,
        (Primitive::Long(_), PrimitiveType::Long) => true,
        (Primitive::Float(_), PrimitiveType::Float) => true,
        (Primitive::Double(_), PrimitiveType::Double) => true,
        (Primitive::Reference(_), PrimitiveType::Reference) => true,
        _ => false,
    }
}

/// The default value an array of the given element type is filled with.
pub open spec fn default_value_spec(t: PrimitiveType) -> Primitive {
    match t {
        PrimitiveType::Null => Primitive::Null,
        PrimitiveType::Byte => Primitive::Byte(0),
        PrimitiveType::Short => Primitive::Short(0),
        PrimitiveType::Char => Primitive::Char(0),
        PrimitiveType::Int => Primitive::Int(0),
        PrimitiveType::Long => Primitive::Long(0),
        PrimitiveType::Float => Primitive::Float(0),
        PrimitiveType::Double => Primitive::Double(0),
        PrimitiveType::Reference => Primitive::Null,
        PrimitiveType::Boolean => Primitive::Byte(0),
    }
}

/// The single-letter descriptor character of a type.
pub open spec fn as_letter_spec(t: PrimitiveType) -> char {
    match t {
        PrimitiveType::Null => 'V',
        PrimitiveType::Byte => 'B',
        PrimitiveType::Short => 'S',
        PrimitiveType::Char => 'C',
        PrimitiveType::Int => 'I',
        PrimitiveType::Long => 'J',
        PrimitiveType::Float => 'F',
        PrimitiveType::Double => 'D',
        PrimitiveType::Reference => 'R',
        PrimitiveType::Boolean => 'Z',
    }
}

impl PrimitiveType {
    /// The single-letter descriptor character of this type (`R` is an
    /// internal placeholder for references, not a real descriptor letter).
    pub fn as_letter(&self) -> (c: char)
        ensures
            c == as_letter_spec(*self),
    {
        match self {
            PrimitiveType::Null => 'V',
            PrimitiveType::Byte => 'B',
            PrimitiveType::Short => 'S',
            PrimitiveType::Char => 'C',
            PrimitiveType::Int => 'I',
            PrimitiveType::Long => 'J',
            PrimitiveType::Float => 'F',
            PrimitiveType::Double => 'D',
            PrimitiveType::Reference => 'R',
            PrimitiveType::Boolean => 'Z',
        }
    }

    /// True when the two tags are the same.
    pub fn matches(&self, other: &PrimitiveType) -> (r: bool)
        ensures
            r == (*self == *other),
    {
        match (self, other) {
            (PrimitiveType::Null, PrimitiveType::Null) => true,
            (PrimitiveType::Byte, PrimitiveType::Byte) => true,
            (PrimitiveType::Short, PrimitiveType::Short) => true,
            (PrimitiveType::Char, PrimitiveType::Char) => true,
            (PrimitiveType::Int, PrimitiveType::Int) => true,
            (PrimitiveType::Long, PrimitiveType::Long) => true,
            (PrimitiveType::Float, PrimitiveType::Float) => true,
            (PrimitiveType::Double, PrimitiveType::Double) => true,
            (PrimitiveType::Reference, PrimitiveType::Reference) => true,
            (PrimitiveType::Boolean, PrimitiveType::Boolean) => true,
            _ => false,
        }
    }

    /// The element type named by a `newarray` type code, if the code is one
    /// the class-file format defines.
    pub fn from_type_id(id: usize) -> (r: Option<PrimitiveType>)
        ensures
            r == from_type_id_spec(id),
    {
        match id {
            4 => Some(PrimitiveType::Boolean),
            5 => Some(PrimitiveType::Char),
            6 => Some(PrimitiveType::Float),
            7 => Some(PrimitiveType::Double),
            8 => Some(PrimitiveType::Byte),
            9 => Some(PrimitiveType::Short),
            10 => Some(PrimitiveType::Int),
            11 => Some(PrimitiveType::Long),
            _ => None,
        }
    }
}

/// The element type of each `newarray` type code.
pub open spec fn from_type_id_spec(id: usize) -> Option<PrimitiveType> {
    match id {
        4 => Some(PrimitiveType::Boolean),
        5 => Some(PrimitiveType::Char),
        6 => Some(PrimitiveType::Float),
        7 => Some(PrimitiveType::Double),
        8 => Some(PrimitiveType::Byte),
        9 => Some(PrimitiveType::Short),
        10 => Some(PrimitiveType::Int),
        11 => Some(PrimitiveType::Long),
        _ => None,
    }
}

/// The absolute value of an `i32`, as the unsigned type of the same width.
pub open spec fn abs_u32(a: i32) -> u32 {
    if a < 0 {
        (-(a as int)) as u32
    } else {
        a as u32
    }
}

/// The absolute value of an `i64`, as the unsigned type of the same width.
pub open spec fn abs_u64(a: i64) -> u64 {
    if a < 0 {
        (-(a as int)) as u64
    } else {
        a as u64
    }
}

/// Java's `int` division: truncation toward zero, with `MIN / -1` wrapping
/// to `MIN`.
pub open spec fn java_div_i32(a: i32, b: i32) -> i32
    recommends
        b != 0,
{
    if a == i32::MIN && b == -1 {
        i32::MIN
    } else {
        let q = (abs_u32(a) as int) / (abs_u32(b) as int);
        if (a < 0) != (b < 0) {
            (-q) as i32
        } else {
            q as i32
        }
    }
}

/// Java's `int` remainder: it takes the sign of the dividend.
pub open spec fn java_rem_i32(a: i32, b: i32) -> i32
    recommends
        b != 0,
{
    let m = (abs_u32(a) as int) % (abs_u32(b) as int);
    if a < 0 {
        (-m) as i32
    } else {
        m as i32
    }
}

/// Java's `long` division: truncation toward zero, with `MIN / -1` wrapping
/// to `MIN`.
pub open spec fn java_div_i64(a: i64, b: i64) -> i64
    recommends
        b != 0,
{
    if a == i64::MIN && b == -1 {
        i64::MIN
    } else {
        let q = (abs_u64(a) as int) / (abs_u64(b) as int);
        if (a < 0) != (b < 0) {
            (-q) as i64
        } else {
            q as i64
        }
    }
}

/// Java's `long` remainder: it takes the sign of the dividend.
pub open spec fn java_rem_i64(a: i64, b: i64) -> i64
    recommends
        b != 0,
{
    let m = (abs_u64(a) as int) % (abs_u64(b) as int);
    if a < 0 {
        (-m) as i64
    } else {
        m as i64
    }
}

/// Truncating division toward zero on `i32`, wrapping on `MIN / -1`.
fn div_i32(a: i32, b: i32) -> (r: i32)
    requires
        b != 0,
    ensures
        r == java_div_i32(a, b),
{
    if a == i32::MIN && b == -1 {
        i32::MIN
    } else {
        let ua: u32 = abs_exec_u32(a);
        let ub: u32 = abs_exec_u32(b);
        let q: u32 = ua / ub;
        proof {
            assert((ua as int) / (ub as int) <= ua as int) by (nonlinear_arith)
                requires
                    ub >= 1,
                    ua >= 0,
            ;
        }
        if (a < 0) != (b < 0) {
            if q == 0x8000_0000u32 {
                i32::MIN
            } else {
                -(q as i32)
            }
        } else {
            proof {
                if q == 0x8000_0000u32 {
                    assert((ua as int) / (ub as int) >= 2 ==> ub as int <= ua as int / 2)
                        by (nonlinear_arith);
                }
            }
            q as i32
        }
    }
}

/// Remainder with the dividend's sign on `i32`.
fn rem_i32(a: i32, b: i32) -> (r: i32)
    requires
        b != 0,
    ensures
        r == java_rem_i32(a, b),
{
    let ua: u32 = abs_exec_u32(a);
    let ub: u32 = abs_exec_u32(b);
    let m: u32 = ua % ub;
    if a < 0 {
        -(m as i32)
    } else {
        m as i32
    }
}

/// Truncating division toward zero on `i64`, wrapping on `MIN / -1`.
fn div_i64(a: i64, b: i64) -> (r: i64)
    requires
        b != 0,
    ensures
        r == java_div_i64(a, b),
{
    if a == i64::MIN && b == -1 {
        i64::MIN
    } else {
        let ua: u64 = abs_exec_u64(a);
        let ub: u64 = abs_exec_u64(b);
        let q: u64 = ua / ub;
        proof {
            assert((ua as int) / (ub as int) <= ua as int) by (nonlinear_arith)
                requires
                    ub >= 1,
                    ua >= 0,
            ;
        }
        if (a < 0) != (b < 0) {
            if q == 0x8000_0000_0000_0000u64 {
                i64::MIN
            } else {
                -(q as i64)
            }
        } else {
            proof {
                if q == 0x8000_0000_0000_0000u64 {
                    assert((ua as int) / (ub as int) >= 2 ==> ub as int <= ua as int / 2)
                        by (nonlinear_arith);
                }
            }
            q as i64
        }
    }
}

/// Remainder with the dividend's sign on `i64`.
fn rem_i64(a: i64, b: i64) -> (r: i64)
    requires
        b != 0,
    ensures
        r == java_rem_i64(a, b),
{
    let ua: u64 = abs_exec_u64(a);
    let ub: u64 = abs_exec_u64(b);
    let m: u64 = ua % ub;
    if a < 0 {
        -(m as i64)
    } else {
        m as i64
    }
}

/// The absolute value of an `i32` as a `u32`.
fn abs_exec_u32(a: i32) -> (r: u32)
    ensures
        r == abs_u32(a),
{
    if a == i32::MIN {
        0x8000_0000u32
    } else if a < 0 {
        (-a) as u32
    } else {
        a as u32
    }
}

/// The absolute value of an `i64` as a `u64`.
fn abs_exec_u64(a: i64) -> (r: u64)
    ensures
        r == abs_u64(a),
{
    if a == i64::MIN {
        0x8000_0000_0000_0000u64
    } else if a < 0 {
        (-a) as u64
    } else {
        a as u64
    }
}

/// What a unary operator yields on a value: negation wraps; a conversion
/// checks the source tag and truncates or extends; a conversion between a
/// type and itself is the identity. Anything that would compute with float
/// payloads is `Unimplemented`.
pub open spec fn eval_spec(p: Primitive, o: Operator) -> Result<Primitive, ErrorKind> {
    match o {
        Operator::Neg => match p {
            Primitive::Int(i) => Ok(Primitive::Int(vstd::wrapping::i32_specs::wrapping_sub(0i32, i))),
            Primitive::Long(l) => Ok(Primitive::Long(vstd::wrapping::i64_specs::wrapping_sub(0i64, l))),
            Primitive::Float(_) => Err(ErrorKind::Unimplemented),
            Primitive::Double(_) => Err(ErrorKind::Unimplemented),
            _ => Err(ErrorKind::TypeError),
        },
        Operator::Convert(source, destination) => {
            if !is_type_spec(p, source) {
                Err(ErrorKind::TypeError)
            } else if source == destination {
                Ok(p)
            } else {
                match p {
                    Primitive::Int(i) => match destination {
                        PrimitiveType::Byte => Ok(Primitive::Byte(i as i8)),
                        PrimitiveType::Short => Ok(Primitive::Short(i as i16)),
                        PrimitiveType::Char => Ok(Primitive::Char(i as u16)),
                        PrimitiveType::Long => Ok(Primitive::Long(i as i64)),
                        PrimitiveType::Float => Err(ErrorKind::Unimplemented),
                        PrimitiveType::Double => Err(ErrorKind::Unimplemented),
                        _ => Err(ErrorKind::TypeError),
                    },
                    Primitive::Long(l) => match destination {
                        PrimitiveType::Int => Ok(Primitive::Int(l as i32)),
                        PrimitiveType::Float => Err(ErrorKind::Unimplemented),
                        PrimitiveType::Double => Err(ErrorKind::Unimplemented),
                        _ => Err(ErrorKind::TypeError),
                    },
                    Primitive::Float(_) => match destination {
                        PrimitiveType::Int => Err(ErrorKind::Unimplemented),
                        PrimitiveType::Long => Err(ErrorKind::Unimplemented),
                        PrimitiveType::Double => Err(ErrorKind::Unimplemented),
                        _ => Err(ErrorKind::TypeError),
                    },
                    Primitive::Double(_) => match destination {
                        PrimitiveType::Int => Err(ErrorKind::Unimplemented),
                        PrimitiveType::Long => Err(ErrorKind::Unimplemented),
                        PrimitiveType::Float => Err(ErrorKind::Unimplemented),
                        _ => Err(ErrorKind::TypeError),
                    },
                    _ => Err(ErrorKind::TypeError),
                }
            }
        },
        _ => Err(ErrorKind::TypeError),
    }
}

/// What a binary operator yields on two values. Integer add, subtract and
/// multiply wrap; division and remainder by zero fail with
/// `ArithmeticError`; shift counts are `Int` and are masked to the shifted
/// width; `UShr` zero-extends. Float and double arithmetic is
/// `Unimplemented`; any other tag combination is a `TypeError`.
pub open spec fn eval2_spec(a: Primitive, b: Primitive, o: Operator) -> Result<
    Primitive,
    ErrorKind,
> {
    match o {
        Operator::Add => match (a, b) {
            (Primitive::Int(i), Primitive::Int(j)) => Ok(
                Primitive::Int(vstd::wrapping::i32_specs::wrapping_add(i, j)),
            ),
            (Primitive::Long(i), Primitive::Long(j)) => Ok(
                Primitive::Long(vstd::wrapping::i64_specs::wrapping_add(i, j)),
            ),
            (Primitive::Float(_), Primitive::Float(_)) => Err(ErrorKind::Unimplemented),
            (Primitive::Double(_), Primitive::Double(_)) => Err(ErrorKind::Unimplemented),
            _ => Err(ErrorKind::TypeError),
        },
        Operator::Sub => match (a, b) {
            (Primitive::Int(i), Primitive::Int(j)) => Ok(
                Primitive::Int(vstd::wrapping::i32_specs::wrapping_sub(i, j)),
            ),
            (Primitive::Long(i), Primitive::Long(j)) => Ok(
                Primitive::Long(vstd::wrapping::i64_specs::wrapping_sub(i, j)),
            ),
            (Primitive::Float(_), Primitive::Float(_)) => Err(ErrorKind::Unimplemented),
            (Primitive::Double(_), Primitive::Double(_)) => Err(ErrorKind::Unimplemented),
            _ => Err(ErrorKind::TypeError),
        },
        Operator::Mul => match (a, b) {
            (Primitive::Int(i), Primitive::Int(j)) => Ok(
                Primitive::Int(vstd::wrapping::i32_specs::wrapping_mul(i, j)),
            ),
            (Primitive::Long(i), Primitive::Long(j)) => Ok(
                Primitive::Long(vstd::wrapping::i64_specs::wrapping_mul(i, j)),
            ),
            (Primitive::Float(_), Primitive::Float(_)) => Err(ErrorKind::Unimplemented),
            (Primitive::Double(_), Primitive::Double(_)) => Err(ErrorKind::Unimplemented),
            _ => Err(ErrorKind::TypeError),
        },
        Operator::Div => match (a, b) {
            (Primitive::Int(i), Primitive::Int(j)) => if j == 0 {
                Err(ErrorKind::ArithmeticError)
            } else {
                Ok(Primitive::Int(java_div_i32(i, j)))
            },
            (Primitive::Long(i), Primitive::Long(j)) => if j == 0 {
                Err(ErrorKind::ArithmeticError)
            } else {
                Ok(Primitive::Long(java_div_i64(i, j)))
            },
            (Primitive::Float(_), Primitive::Float(_)) => Err(ErrorKind::Unimplemented),
            (Primitive::Double(_), Primitive::Double(_)) => Err(ErrorKind::Unimplemented),
            _ => Err(ErrorKind::TypeError),
        },
        Operator::Rem => match (a, b) {
            (Primitive::Int(i), Primitive::Int(j)) => if j == 0 {
                Err(ErrorKind::ArithmeticError)
            } else {
                Ok(Primitive::Int(java_rem_i32(i, j)))
            },
            (Primitive::Long(i), Primitive::Long(j)) => if j == 0 {
                Err(ErrorKind::ArithmeticError)
            } else {
                Ok(Primitive::Long(java_rem_i64(i, j)))
            },
            (Primitive::Float(_), Primitive::Float(_)) => Err(ErrorKind::Unimplemented),
            (Primitive::Double(_), Primitive::Double(_)) => Err(ErrorKind::Unimplemented),
            _ => Err(ErrorKind::TypeError),
        },
        Operator::And => match (a, b) {
            (Primitive::Int(i), Primitive::Int(j)) => Ok(Primitive::Int(i & j)),
            (Primitive::Long(i), Primitive::Long(j)) => Ok(Primitive::Long(i & j)),
            _ => Err(ErrorKind::TypeError),
        },
        Operator::Or => match (a, b) {
            (Primitive::Int(i), Primitive::Int(j)) => Ok(Primitive::Int(i | j)),
            (Primitive::Long(i), Primitive::Long(j)) => Ok(Primitive::Long(i | j)),
            _ => Err(ErrorKind::TypeError),
        },
        Operator::Xor => match (a, b) {
            (Primitive::Int(i), Primitive::Int(j)) => Ok(Primitive::Int(i ^ j)),
            (Primitive::Long(i), Primitive::Long(j)) => Ok(Primitive::Long(i ^ j)),
            _ => Err(ErrorKind::TypeError),
        },
        Operator::Shl => match (a, b) {
            (Primitive::Int(i), Primitive::Int(j)) => Ok(
                Primitive::Int(vstd::wrapping::i32_specs::wrapping_shl(i, j as u32)),
            ),
            (Primitive::Long(i), Primitive::Int(j)) => Ok(
                Primitive::Long(vstd::wrapping::i64_specs::wrapping_shl(i, j as u32)),
            ),
            _ => Err(ErrorKind::TypeError),
        },
        Operator::Shr => match (a, b) {
            (Primitive::Int(i), Primitive::Int(j)) => Ok(
                Primitive::Int(vstd::wrapping::i32_specs::wrapping_shr(i, j as u32)),
            ),
            (Primitive::Long(i), Primitive::Int(j)) => Ok(
                Primitive::Long(vstd::wrapping::i64_specs::wrapping_shr(i, j as u32)),
            ),
            _ => Err(ErrorKind::TypeError),
        },
        Operator::UShr => match (a, b) {
            (Primitive::Int(i), Primitive::Int(j)) => Ok(
                Primitive::Int(
                    vstd::wrapping::u32_specs::wrapping_shr(i as u32, j as u32) as i32,
                ),
            ),
            (Primitive::Long(i), Primitive::Int(j)) => Ok(
                Primitive::Long(
                    vstd::wrapping::u64_specs::wrapping_shr(i as u64, j as u32) as i64,
                ),
            ),
            _ => Err(ErrorKind::TypeError),
        },
        _ => Err(ErrorKind::TypeError),
    }
}

/// How a value compares against zero: only `Int` and `Long` values compare;
/// floats are `Unimplemented`, everything else is a `TypeError`.
pub open spec fn compare_to_zero_spec(p: Primitive, c: Comparison) -> Result<bool, ErrorKind> {
    match p {
        Primitive::Int(x) => Ok(compare_ints(x as int, 0, c)),
        Primitive::Long(x) => Ok(compare_ints(x as int, 0, c)),
        Primitive::Float(_) => Err(ErrorKind::Unimplemented),
        Primitive::Double(_) => Err(ErrorKind::Unimplemented),
        _ => Err(ErrorKind::TypeError),
    }
}

/// Whether two mathematical integers satisfy a comparison.
pub open spec fn compare_ints(x: int, y: int, c: Comparison) -> bool {
    match c {
        Comparison::Equal => x == y,
        Comparison::NotEqual => x != y,
        Comparison::LessThan => x < y,
        Comparison::GreaterThan => x > y,
        Comparison::LessThanOrEqual => x <= y,
        Comparison::GreaterThanOrEqual => x >= y,
    }
}

/// How two values compare as `Int`s; any other tags are a `TypeError`.
pub open spec fn integer_compare_spec(a: Primitive, b: Primitive, c: Comparison) -> Result<
    bool,
    ErrorKind,
> {
    match (a, b) {
        (Primitive::Int(x), Primitive::Int(y)) => Ok(compare_ints(x as int, y as int, c)),
        _ => Err(ErrorKind::TypeError),
    }
}

/// The decimal text of a value: integral payloads print decimally, `null`
/// prints as `null`, references and return addresses print their index, and
/// float and double values print their raw bit pattern decimally, since the
/// machine carries them as bits.
pub open spec fn pretty_print_spec(p: Primitive) -> Seq<char> {
    match p {
        Primitive::Null => seq!['n', 'u', 'l', 'l'],
        Primitive::Byte(x) => text::int_str(x as int),
        Primitive::Short(x) => text::int_str(x as int),
        Primitive::Char(x) => text::int_str(x as int),
        Primitive::Int(x) => text::int_str(x as int),
        Primitive::Long(x) => text::int_str(x as int),
        Primitive::Float(bits) => text::int_str(bits as int),
        Primitive::Double(bits) => text::int_str(bits as int),
        Primitive::Reference(x) => text::int_str(x as int),
        Primitive::ReturnAddress(x) => text::int_str(x as int),
    }
}

impl Primitive {
    /// Applies a unary operator; see `eval_spec` for the semantics.
    pub fn eval(self, o: Operator) -> (r: Result<Primitive, JvmError>)
        ensures
            crate::error::matches_spec(r, eval_spec(self, o)),
    {
        match o {
            Operator::Neg => match self {
                Primitive::Int(i) => Ok(Primitive::Int(0i32.wrapping_sub(i))),
                Primitive::Long(l) => Ok(Primitive::Long(0i64.wrapping_sub(l))),
                Primitive::Float(_) | Primitive::Double(_) => Err(
                    JvmError::Unimplemented(text::msg("float negation")),
                ),
                _ => Err(JvmError::TypeError(text::msg("could not negate passed value"))),
            },
            Operator::Convert(source, destination) => {
                if !self.is_type(source) {
                    Err(JvmError::TypeError(text::msg("conversion source tag mismatch")))
                } else if source.matches(&destination) {
                    Ok(self)
                } else {
                    match self {
                        Primitive::Int(i) => match destination {
                            PrimitiveType::Byte => Ok(
                                Primitive::Byte(#[verifier::truncate] (i as i8)),
                            ),
                            PrimitiveType::Short => Ok(
                                Primitive::Short(#[verifier::truncate] (i as i16)),
                            ),
                            PrimitiveType::Char => Ok(
                                Primitive::Char(#[verifier::truncate] (i as u16)),
                            ),
                            PrimitiveType::Long => Ok(Primitive::Long(i as i64)),
                            PrimitiveType::Float | PrimitiveType::Double => Err(
                                JvmError::Unimplemented(text::msg("conversion to float")),
                            ),
                            _ => Err(
                                JvmError::TypeError(text::msg("could not convert int to passed type")),
                            ),
                        },
                        Primitive::Long(l) => match destination {
                            PrimitiveType::Int => Ok(
                                Primitive::Int(#[verifier::truncate] (l as i32)),
                            ),
                            PrimitiveType::Float | PrimitiveType::Double => Err(
                                JvmError::Unimplemented(text::msg("conversion to float")),
                            ),
                            _ => Err(
                                JvmError::TypeError(
                                    text::msg("could not convert long to passed type"),
                                ),
                            ),
                        },
                        Primitive::Float(_) => match destination {
                            PrimitiveType::Int | PrimitiveType::Long | PrimitiveType::Double => Err(
                                JvmError::Unimplemented(text::msg("conversion from float")),
                            ),
                            _ => Err(
                                JvmError::TypeError(
                                    text::msg("could not convert float to passed type"),
                                ),
                            ),
                        },
                        Primitive::Double(_) => match destination {
                            PrimitiveType::Int | PrimitiveType::Long | PrimitiveType::Float => Err(
                                JvmError::Unimplemented(text::msg("conversion from double")),
                            ),
                            _ => Err(
                                JvmError::TypeError(
                                    text::msg("could not convert double to passed type"),
                                ),
                            ),
                        },
                        _ => Err(
                            JvmError::TypeError(
                                text::msg("unsupported conversion or incorrect type passed"),
                            ),
                        ),
                    }
                }
            },
            _ => Err(JvmError::TypeError(text::msg("unsupported operation for evaluation"))),
        }
    }

    /// Applies a binary operator; see `eval2_spec` for the semantics.
    pub fn eval2(a: Primitive, b: Primitive, o: Operator) -> (r: Result<Primitive, JvmError>)
        ensures
            crate::error::matches_spec(r, eval2_spec(a, b, o)),
    {
        match o {
            Operator::Add => match (a, b) {
                (Primitive::Int(i), Primitive::Int(j)) => Ok(Primitive::Int(i.wrapping_add(j))),
                (Primitive::Long(i), Primitive::Long(j)) => Ok(Primitive::Long(i.wrapping_add(j))),
                (Primitive::Float(_), Primitive::Float(_))
                | (Primitive::Double(_), Primitive::Double(_)) => Err(
                    JvmError::Unimplemented(text::msg("float arithmetic")),
                ),
                _ => Err(JvmError::TypeError(text::msg("could not add passed values"))),
            },
            Operator::Sub => match (a, b) {
                (Primitive::Int(i), Primitive::Int(j)) => Ok(Primitive::Int(i.wrapping_sub(j))),
                (Primitive::Long(i), Primitive::Long(j)) => Ok(Primitive::Long(i.wrapping_sub(j))),
                (Primitive::Float(_), Primitive::Float(_))
                | (Primitive::Double(_), Primitive::Double(_)) => Err(
                    JvmError::Unimplemented(text::msg("float arithmetic")),
                ),
                _ => Err(JvmError::TypeError(text::msg("could not subtract passed values"))),
            },
            Operator::Mul => match (a, b) {
                (Primitive::Int(i), Primitive::Int(j)) => Ok(Primitive::Int(i.wrapping_mul(j))),
                (Primitive::Long(i), Primitive::Long(j)) => Ok(Primitive::Long(i.wrapping_mul(j))),
                (Primitive::Float(_), Primitive::Float(_))
                | (Primitive::Double(_), Primitive::Double(_)) => Err(
                    JvmError::Unimplemented(text::msg("float arithmetic")),
                ),
                _ => Err(JvmError::TypeError(text::msg("could not multiply passed values"))),
            },
            Operator::Div => match (a, b) {
                (Primitive::Int(i), Primitive::Int(j)) => if j == 0 {
                    Err(JvmError::ArithmeticError(text::msg("integer division by zero")))
                } else {
                    Ok(Primitive::Int(div_i32(i, j)))
                },
                (Primitive::Long(i), Primitive::Long(j)) => if j == 0 {
                    Err(JvmError::ArithmeticError(text::msg("long division by zero")))
                } else {
                    Ok(Primitive::Long(div_i64(i, j)))
                },
                (Primitive::Float(_), Primitive::Float(_))
                | (Primitive::Double(_), Primitive::Double(_)) => Err(
                    JvmError::Unimplemented(text::msg("float arithmetic")),
                ),
                _ => Err(JvmError::TypeError(text::msg("could not divide passed values"))),
            },
            Operator::Rem => match (a, b) {
                (Primitive::Int(i), Primitive::Int(j)) => if j == 0 {
                    Err(JvmError::ArithmeticError(text::msg("integer remainder by zero")))
                } else {
                    Ok(Primitive::Int(rem_i32(i, j)))
                },
                (Primitive::Long(i), Primitive::Long(j)) => if j == 0 {
                    Err(JvmError::ArithmeticError(text::msg("long remainder by zero")))
                } else {
                    Ok(Primitive::Long(rem_i64(i, j)))
                },
                (Primitive::Float(_), Primitive::Float(_))
                | (Primitive::Double(_), Primitive::Double(_)) => Err(
                    JvmError::Unimplemented(text::msg("float arithmetic")),
                ),
                _ => Err(JvmError::TypeError(text::msg("could not modulo passed values"))),
            },
            Operator::And => match (a, b) {
                (Primitive::Int(i), Primitive::Int(j)) => Ok(Primitive::Int(i & j)),
                (Primitive::Long(i), Primitive::Long(j)) => Ok(Primitive::Long(i & j)),
                _ => Err(JvmError::TypeError(text::msg("could not bitwise and passed values"))),
            },
            Operator::Or => match (a, b) {
                (Primitive::Int(i), Primitive::Int(j)) => Ok(Primitive::Int(i | j)),
                (Primitive::Long(i), Primitive::Long(j)) => Ok(Primitive::Long(i | j)),
                _ => Err(JvmError::TypeError(text::msg("could not bitwise or passed values"))),
            },
            Operator::Xor => match (a, b) {
                (Primitive::Int(i), Primitive::Int(j)) => Ok(Primitive::Int(i ^ j)),
                (Primitive::Long(i), Primitive::Long(j)) => Ok(Primitive::Long(i ^ j)),
                _ => Err(JvmError::TypeError(text::msg("could not bitwise xor passed values"))),
            },
            Operator::Shl => match (a, b) {
                (Primitive::Int(i), Primitive::Int(j)) => Ok(
                    Primitive::Int(i.wrapping_shl(#[verifier::truncate] (j as u32))),
                ),
                (Primitive::Long(i), Primitive::Int(j)) => Ok(
                    Primitive::Long(i.wrapping_shl(#[verifier::truncate] (j as u32))),
                ),
                _ => Err(JvmError::TypeError(text::msg("could not shift left passed values"))),
            },
            Operator::Shr => match (a, b) {
                (Primitive::Int(i), Primitive::Int(j)) => Ok(
                    Primitive::Int(i.wrapping_shr(#[verifier::truncate] (j as u32))),
                ),
                (Primitive::Long(i), Primitive::Int(j)) => Ok(
                    Primitive::Long(i.wrapping_shr(#[verifier::truncate] (j as u32))),
                ),
                _ => Err(JvmError::TypeError(text::msg("could not shift right passed values"))),
            },
            Operator::UShr => match (a, b) {
                (Primitive::Int(i), Primitive::Int(j)) => Ok(
                    Primitive::Int(
                        #[verifier::truncate] ((#[verifier::truncate] (i as u32)).wrapping_shr(
                            #[verifier::truncate] (j as u32),
                        ) as i32),
                    ),
                ),
                (Primitive::Long(i), Primitive::Int(j)) => Ok(
                    Primitive::Long(
                        #[verifier::truncate] ((#[verifier::truncate] (i as u64)).wrapping_shr(
                            #[verifier::truncate] (j as u32),
                        ) as i64),
                    ),
                ),
                _ => Err(
                    JvmError::TypeError(text::msg("could not logically shift right passed values")),
                ),
            },
            _ => Err(JvmError::TypeError(text::msg("unsupported operation for evaluation"))),
        }
    }

    /// Compares this value against zero; see `compare_to_zero_spec`.
    pub fn compare_to_zero(self, comparator: Comparison) -> (r: Result<bool, JvmError>)
        ensures
            crate::error::matches_spec(r, compare_to_zero_spec(self, comparator)),
    {
        match self {
            Primitive::Int(x) => Ok(
                match comparator {
                    Comparison::Equal => x == 0,
                    Comparison::NotEqual => x != 0,
                    Comparison::LessThan => x < 0,
                    Comparison::GreaterThan => x > 0,
                    Comparison::LessThanOrEqual => x <= 0,
                    Comparison::GreaterThanOrEqual => x >= 0,
                },
            ),
            Primitive::Long(x) => Ok(
                match comparator {
                    Comparison::Equal => x == 0,
                    Comparison::NotEqual => x != 0,
                    Comparison::LessThan => x < 0,
                    Comparison::GreaterThan => x > 0,
                    Comparison::LessThanOrEqual => x <= 0,
                    Comparison::GreaterThanOrEqual => x >= 0,
                },
            ),
            Primitive::Float(_) | Primitive::Double(_) => Err(
                JvmError::Unimplemented(text::msg("float comparison")),
            ),
            _ => Err(JvmError::TypeError(text::msg("could not compare passed value to zero"))),
        }
    }

    /// Compares two `Int` values; see `integer_compare_spec`.
    pub fn integer_compare(value1: Primitive, value2: Primitive, comparator: Comparison) -> (r:
        Result<bool, JvmError>)
        ensures
            crate::error::matches_spec(r, integer_compare_spec(value1, value2, comparator)),
    {
        match (value1, value2) {
            (Primitive::Int(x), Primitive::Int(y)) => Ok(
                match comparator {
                    Comparison::Equal => x == y,
                    Comparison::NotEqual => x != y,
                    Comparison::LessThan => x < y,
                    Comparison::GreaterThan => x > y,
                    Comparison::LessThanOrEqual => x <= y,
                    Comparison::GreaterThanOrEqual => x >= y,
                },
            ),
            _ => Err(
                JvmError::TypeError(text::msg("could not perform integer compare on passed values")),
            ),
        }
    }

    /// True when this value is a wide (category-2) value: a `Long` or a
    /// `Double`. Wide values occupy one slot here but count as two in the
    /// stack-shuffle rules.
    pub fn is_wide(&self) -> (r: bool)
        ensures
            r == (*self is Long || *self is Double),
    {
        match self {
            Primitive::Long(_) => true,
            Primitive::Double(_) => true,
            _ => false,
        }
    }

    /// True when this value carries the given tag; see `is_type_spec`.
    pub fn is_type(&self, t: PrimitiveType) -> (r: bool)
        ensures
            r == is_type_spec(*self, t),
    {
        match (self, t) {
            (Primitive::Null, PrimitiveType::Null) => true,
            (Primitive::Byte(_), PrimitiveType::Byte) => true,
            (Primitive::Short(_), PrimitiveType::Short) => true,
            (Primitive::Char(_), PrimitiveType::Char) => true,
            (Primitive::Int(_), PrimitiveType::Int) => true,
            (Primitive::Long(_), PrimitiveType::Long) => true,
            (Primitive::Float(_), PrimitiveType::Float) => true,
            (Primitive::Double(_), PrimitiveType::Double) => true,
            (Primitive::Reference(_), PrimitiveType::Reference) => true,
            _ => false,
        }
    }

    /// The default value an array of the given element type is filled with.
    pub fn default_of(t: PrimitiveType) -> (r: Primitive)
        ensures
            r == default_value_spec(t),
    {
        match t {
            PrimitiveType::Null => Primitive::Null,
            PrimitiveType::Byte => Primitive::Byte(0),
            PrimitiveType::Short => Primitive::Short(0),
            PrimitiveType::Char => Primitive::Char(0),
            PrimitiveType::Int => Primitive::Int(0),
            PrimitiveType::Long => Primitive::Long(0),
            PrimitiveType::Float => Primitive::Float(0),
            PrimitiveType::Double => Primitive::Double(0),
            PrimitiveType::Reference => Primitive::Null,
            PrimitiveType::Boolean => Primitive::Byte(0),
        }
    }

    /// The decimal text of this value; see `pretty_print_spec`.
    pub fn pretty_print(&self) -> (s: String)
        ensures
            s@ == pretty_print_spec(*self),
    {
        match self {
            Primitive::Null => {
                let s = String::from_str("null");
                proof {
                    reveal_strlit("null");
                    assert(s@ =~= seq!['n', 'u', 'l', 'l']);
                }
                s
            },
            Primitive::Byte(x) => text::int_to_string(*x as i64),
            Primitive::Short(x) => text::int_to_string(*x as i64),
            Primitive::Char(x) => text::int_to_string(*x as i64),
            Primitive::Int(x) => text::int_to_string(*x as i64),
            Primitive::Long(x) => text::int_to_string(*x),
            Primitive::Float(bits) => text::nat_to_string(*bits as u64),
            Primitive::Double(bits) => text::nat_to_string(*bits),
            Primitive::Reference(x) => text::usize_to_string(*x),
            Primitive::ReturnAddress(x) => text::usize_to_string(*x),
        }
    }
}

} // verus!
