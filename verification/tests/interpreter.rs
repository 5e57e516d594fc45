use minijvm::bytecode::{Comparison, Instruction, Operator, Primitive, PrimitiveType};
use minijvm::class_file_parser::{bytes_to_bytecode, parse_file_to_class};
use minijvm::error::ErrorKind;
use minijvm::java_class::ConstantPoolExt;
use minijvm::java_class::ConstantPoolEntry;
use minijvm::jvm::{Jvm, Method, StackFrame};

/// A constant pool under construction, each entry as its raw bytes.
struct Pool {
    entries: Vec<Vec<u8>>,
}

fn be2(v: usize) -> [u8; 2] {
    [(v >> 8) as u8, v as u8]
}

impl Pool {
    fn new() -> Pool {
        Pool { entries: Vec::new() }
    }

    fn add(&mut self, bytes: Vec<u8>) -> usize {
        self.entries.push(bytes);
        self.entries.len()
    }

    fn utf8(&mut self, s: &str) -> usize {
        let mut b = vec![1u8];
        b.extend(be2(s.len()));
        b.extend(s.as_bytes());
        self.add(b)
    }

    fn class(&mut self, name: &str) -> usize {
        let ni = self.utf8(name);
        let mut b = vec![7u8];
        b.extend(be2(ni));
        self.add(b)
    }

    fn name_and_type(&mut self, name: &str, desc: &str) -> usize {
        let ni = self.utf8(name);
        let di = self.utf8(desc);
        let mut b = vec![12u8];
        b.extend(be2(ni));
        b.extend(be2(di));
        self.add(b)
    }

    fn field_ref(&mut self, class: usize, nat: usize) -> usize {
        let mut b = vec![9u8];
        b.extend(be2(class));
        b.extend(be2(nat));
        self.add(b)
    }

    fn method_ref(&mut self, class: usize, nat: usize) -> usize {
        let mut b = vec![10u8];
        b.extend(be2(class));
        b.extend(be2(nat));
        self.add(b)
    }
}

/// One method for the class builder: name and descriptor pool indices plus
/// raw code bytes.
struct RawMethod {
    name: usize,
    desc: usize,
    code: Vec<u8>,
}

/// Assembles a class artifact with the given pool and methods.
fn build_class(pool: &Pool, code_name: usize, this_class: usize, methods: &[RawMethod]) -> Vec<u8> {
    let mut b: Vec<u8> = vec![0xCA, 0xFE, 0xBA, 0xBE, 0, 0, 0, 52];
    b.extend(be2(pool.entries.len() + 1));
    for e in &pool.entries {
        b.extend(e.iter().copied());
    }
    b.extend(be2(0x0021)); // access flags
    b.extend(be2(this_class));
    b.extend(be2(0)); // super class (unresolved)
    b.extend(be2(0)); // interfaces
    b.extend(be2(0)); // fields
    b.extend(be2(methods.len()));
    for m in methods {
        b.extend(be2(0x0009)); // access flags
        b.extend(be2(m.name));
        b.extend(be2(m.desc));
        b.extend(be2(1)); // one attribute: Code
        b.extend(be2(code_name));
        let alen = 2 + 2 + 4 + m.code.len() + 2 + 2;
        b.extend((alen as u32).to_be_bytes());
        b.extend(be2(8)); // max_stack
        b.extend(be2(8)); // max_locals
        b.extend((m.code.len() as u32).to_be_bytes());
        b.extend(m.code.iter().copied());
        b.extend(be2(0)); // exception table length
        b.extend(be2(0)); // code attributes
    }
    b.extend(be2(0)); // class attributes
    b
}

/// A pool preloaded with what a `main` that calls `println(I)V` needs:
/// returns (pool, code utf8, this class, System.out field ref, println
/// method ref, main name utf8, main descriptor utf8).
fn println_pool(class_name: &str) -> (Pool, usize, usize, usize, usize, usize, usize) {
    let mut p = Pool::new();
    let code = p.utf8("Code");
    let this = p.class(class_name);
    let system = p.class("java/lang/System");
    let out_nat = p.name_and_type("out", "Ljava/io/PrintStream;");
    let out_ref = p.field_ref(system, out_nat);
    let stream = p.class("java/io/PrintStream");
    let println_nat = p.name_and_type("println", "(I)V");
    let println_ref = p.method_ref(stream, println_nat);
    let main_name = p.utf8("main");
    let main_desc = p.utf8("([Ljava/lang/String;)V");
    (p, code, this, out_ref, println_ref, main_name, main_desc)
}

fn run_classes(class_bytes: Vec<Vec<u8>>) -> Jvm {
    let mut classes = Vec::new();
    for b in class_bytes {
        classes.push(parse_file_to_class(b).expect("class artifact should parse"));
    }
    let mut jvm = Jvm::new(classes);
    jvm.run().expect("execution should succeed");
    jvm
}

fn test_class(bytes: Vec<u8>, expected: &str) {
    let jvm = run_classes(vec![bytes]);
    assert!(jvm.stdout == expected);
}

/// `main` computes `15 + 22` and prints the result.
fn add_class() -> Vec<u8> {
    let (p, code, this, out_ref, println_ref, mn, md) = println_pool("Add");
    let mut c: Vec<u8> = Vec::new();
    c.extend([0x10, 15]); // bipush 15
    c.extend([0x10, 22]); // bipush 22
    c.push(0x60); // iadd
    c.push(0x3C); // istore_1
    c.push(0xB2);
    c.extend(be2(out_ref)); // getstatic System.out
    c.push(0x1B); // iload_1
    c.push(0xB6);
    c.extend(be2(println_ref)); // invokevirtual println
    c.push(0xB1); // return
    build_class(&p, code, this, &[RawMethod { name: mn, desc: md, code: c }])
}

#[test]
fn add_class_file_test() {
    test_class(add_class(), "37");
}

/// `main` sets `x = 10`, adds 7 when `x >= 10`, and prints the result.
fn if_class(name: &str) -> Vec<u8> {
    let (p, code, this, out_ref, println_ref, mn, md) = println_pool(name);
    let mut c: Vec<u8> = Vec::new();
    c.extend([0x10, 10]); // 0: bipush 10
    c.push(0x3C); // 2: istore_1
    c.push(0x1B); // 3: iload_1
    c.extend([0x10, 10]); // 4: bipush 10
    c.extend([0xA1, 0, 6]); // 6: if_icmplt +6 -> 12
    c.extend([0x84, 1, 7]); // 9: iinc 1, 7
    c.push(0xB2); // 12: getstatic
    c.extend(be2(out_ref));
    c.push(0x1B); // 15: iload_1
    c.push(0xB6); // 16: invokevirtual
    c.extend(be2(println_ref));
    c.push(0xB1); // 19: return
    build_class(&p, code, this, &[RawMethod { name: mn, desc: md, code: c }])
}

#[test]
fn if_class_file_test() {
    test_class(if_class("If"), "17");
}

#[test]
fn main_class_file_test() {
    test_class(if_class("Main"), "17");
}

/// `main` tests a conjunction of two comparisons and still prints 17.
fn advanced_if_class() -> Vec<u8> {
    let (p, code, this, out_ref, println_ref, mn, md) = println_pool("AdvancedIf");
    let mut c: Vec<u8> = Vec::new();
    c.extend([0x10, 10]); // 0: bipush 10
    c.push(0x3C); // 2: istore_1
    c.push(0x1B); // 3: iload_1
    c.extend([0x10, 10]); // 4: bipush 10
    c.extend([0xA1, 0, 20]); // 6: if_icmplt -> 26 (else)
    c.push(0x1B); // 9: iload_1
    c.extend([0x10, 20]); // 10: bipush 20
    c.extend([0xA2, 0, 14]); // 12: if_icmpge -> 26 (else)
    c.push(0xB2); // 15: getstatic
    c.extend(be2(out_ref));
    c.extend([0x10, 17]); // 18: bipush 17
    c.push(0xB6); // 20: invokevirtual
    c.extend(be2(println_ref));
    c.extend([0xA7, 0, 10]); // 23: goto -> 33 (end)
    c.push(0xB2); // 26: getstatic
    c.extend(be2(out_ref));
    c.push(0x03); // 29: iconst_0
    c.push(0xB6); // 30: invokevirtual
    c.extend(be2(println_ref));
    c.push(0xB1); // 33: return
    build_class(&p, code, this, &[RawMethod { name: mn, desc: md, code: c }])
}

#[test]
fn advanced_if_class_file_test() {
    test_class(advanced_if_class(), "17");
}

/// `main` prints the constant 1.
fn hello_world_class() -> Vec<u8> {
    let (p, code, this, out_ref, println_ref, mn, md) = println_pool("HelloWorld");
    let mut c: Vec<u8> = Vec::new();
    c.push(0xB2);
    c.extend(be2(out_ref)); // getstatic
    c.push(0x04); // iconst_1
    c.push(0xB6);
    c.extend(be2(println_ref)); // invokevirtual
    c.push(0xB1); // return
    build_class(&p, code, this, &[RawMethod { name: mn, desc: md, code: c }])
}

#[test]
fn hello_world_class_file_test() {
    test_class(hello_world_class(), "1");
}

/// `main` allocates `int[10]`, stores `0..9`, and prints the element count.
fn array_class() -> Vec<u8> {
    let (p, code, this, out_ref, println_ref, mn, md) = println_pool("Array");
    let mut c: Vec<u8> = Vec::new();
    c.extend([0x10, 10]); // 0: bipush 10
    c.extend([0xBC, 10]); // 2: newarray int
    c.push(0x4C); // 4: astore_1
    c.push(0x03); // 5: iconst_0
    c.push(0x3D); // 6: istore_2
    c.push(0x1C); // 7: iload_2 (loop head)
    c.extend([0x10, 10]); // 8: bipush 10
    c.extend([0xA2, 0, 13]); // 10: if_icmpge -> 23
    c.push(0x2B); // 13: aload_1
    c.push(0x1C); // 14: iload_2
    c.push(0x1C); // 15: iload_2
    c.push(0x4F); // 16: iastore
    c.extend([0x84, 2, 1]); // 17: iinc 2, 1
    c.extend([0xA7, 0xFF, 0xF3]); // 20: goto -13 -> 7
    c.push(0xB2); // 23: getstatic
    c.extend(be2(out_ref));
    c.push(0x2B); // 26: aload_1
    c.push(0xBE); // 27: arraylength
    c.push(0xB6); // 28: invokevirtual
    c.extend(be2(println_ref));
    c.push(0xB1); // 31: return
    build_class(&p, code, this, &[RawMethod { name: mn, desc: md, code: c }])
}

#[test]
fn array_class_file_test() {
    test_class(array_class(), "10");
}

/// Two classes: `ClassTest.main` news a `Point(30, 60)`, asks it for the sum
/// of its fields, and prints 90.
fn class_test_classes() -> (Vec<u8>, Vec<u8>) {
    // The Point class: <init>(II)V stores both fields, getSum()I adds them.
    let mut pp = Pool::new();
    let p_code = pp.utf8("Code");
    let p_this = pp.class("Point");
    let p_obj = pp.class("java/lang/Object");
    let obj_init_nat = pp.name_and_type("<init>", "()V");
    let obj_init = pp.method_ref(p_obj, obj_init_nat);
    let x_nat = pp.name_and_type("x", "I");
    let fx = pp.field_ref(p_this, x_nat);
    let y_nat = pp.name_and_type("y", "I");
    let fy = pp.field_ref(p_this, y_nat);
    let init_name = pp.utf8("<init>");
    let init_desc = pp.utf8("(II)V");
    let sum_name = pp.utf8("getSum");
    let sum_desc = pp.utf8("()I");
    let mut init_code: Vec<u8> = Vec::new();
    init_code.push(0x2A); // 0: aload_0
    init_code.push(0xB7); // 1: invokespecial Object.<init> (tolerated)
    init_code.extend(be2(obj_init));
    init_code.push(0x2A); // 4: aload_0
    init_code.push(0x1B); // 5: iload_1
    init_code.push(0xB5); // 6: putfield x
    init_code.extend(be2(fx));
    init_code.push(0x2A); // 9: aload_0
    init_code.push(0x1C); // 10: iload_2
    init_code.push(0xB5); // 11: putfield y
    init_code.extend(be2(fy));
    init_code.push(0xB1); // 14: return
    let mut sum_code: Vec<u8> = Vec::new();
    sum_code.push(0x2A); // aload_0
    sum_code.push(0xB4); // getfield x
    sum_code.extend(be2(fx));
    sum_code.push(0x2A); // aload_0
    sum_code.push(0xB4); // getfield y
    sum_code.extend(be2(fy));
    sum_code.push(0x60); // iadd
    sum_code.push(0xAC); // ireturn
    let point = build_class(
        &pp,
        p_code,
        p_this,
        &[
            RawMethod { name: init_name, desc: init_desc, code: init_code },
            RawMethod { name: sum_name, desc: sum_desc, code: sum_code },
        ],
    );

    let (mut cp, c_code, c_this, out_ref, println_ref, mn, md) = println_pool("ClassTest");
    let point_class = cp.class("Point");
    let p_init_nat = cp.name_and_type("<init>", "(II)V");
    let p_init = cp.method_ref(point_class, p_init_nat);
    let p_sum_nat = cp.name_and_type("getSum", "()I");
    let p_sum = cp.method_ref(point_class, p_sum_nat);
    let mut c: Vec<u8> = Vec::new();
    c.push(0xBB); // 0: new Point
    c.extend(be2(point_class));
    c.push(0x59); // 3: dup
    c.extend([0x10, 30]); // 4: bipush 30
    c.extend([0x10, 60]); // 6: bipush 60
    c.push(0xB7); // 8: invokespecial Point.<init>(II)V
    c.extend(be2(p_init));
    c.push(0x4C); // 11: astore_1
    c.push(0xB2); // 12: getstatic System.out
    c.extend(be2(out_ref));
    c.push(0x2B); // 15: aload_1
    c.push(0xB6); // 16: invokevirtual Point.getSum()I
    c.extend(be2(p_sum));
    c.push(0xB6); // 19: invokevirtual println
    c.extend(be2(println_ref));
    c.push(0xB1); // 22: return
    let class_test = build_class(
        &cp,
        c_code,
        c_this,
        &[RawMethod { name: mn, desc: md, code: c }],
    );
    (class_test, point)
}

#[test]
fn class_class_file_test() {
    let (class_test, point) = class_test_classes();
    let jvm = run_classes(vec![class_test, point]);
    assert!(jvm.stdout == "90");
}

/// A machine with a single frame running the given code bytes.
fn frame_jvm(code: Vec<u8>) -> Jvm {
    let instructions = bytes_to_bytecode(code).expect("code should decode");
    let frame = StackFrame {
        pc: 0,
        locals: Vec::new(),
        arrays: Vec::new(),
        stack: Vec::new(),
        method: Method { instructions, max_stack: 8, max_locals: 8 },
        class_name: String::from("Scratch"),
    };
    Jvm { class_area: Vec::new(), heap: Vec::new(), stack_frames: vec![frame], stdout: String::new() }
}

#[test]
fn iconst_bounds_push_exact_values() {
    // iconst_m1 pushes exactly Int(-1) and iconst_5 pushes Int(5).
    let mut jvm = frame_jvm(vec![0x02, 0x08, 0x00]);
    jvm.step().unwrap();
    assert_eq!(jvm.stack_frames[0].stack, vec![Primitive::Int(-1)]);
    jvm.step().unwrap();
    assert_eq!(
        jvm.stack_frames[0].stack,
        vec![Primitive::Int(-1), Primitive::Int(5)]
    );
}

#[test]
fn decoder_pads_operands_with_nop() {
    // A two-byte bipush decodes to the constant followed by one Nop slot.
    let v = bytes_to_bytecode(vec![0x10, 5]).unwrap();
    assert_eq!(v, vec![Instruction::Const(Primitive::Int(5)), Instruction::Nop]);
    // The decoded vector length always equals the code byte length.
    let v2 = bytes_to_bytecode(vec![0x10, 15, 0x10, 22, 0x60, 0xB1]).unwrap();
    assert_eq!(v2.len(), 6);
    assert_eq!(v2[1], Instruction::Nop);
    assert_eq!(v2[3], Instruction::Nop);
}

#[test]
fn decoder_rejects_unknown_opcode() {
    let r = bytes_to_bytecode(vec![0xCB]);
    assert!(r.is_err());
    assert_eq!(r.unwrap_err().kind(), ErrorKind::ParseError);
}

#[test]
fn decoder_rejects_truncated_operands() {
    let r = bytes_to_bytecode(vec![0x10]);
    assert!(r.is_err());
    assert_eq!(r.unwrap_err().kind(), ErrorKind::ParseError);
}

#[test]
fn nop_leaves_state_unchanged() {
    let mut jvm = frame_jvm(vec![0x04, 0x00, 0x00, 0xB1]);
    jvm.step().unwrap();
    let stack_before = jvm.stack_frames[0].stack.clone();
    jvm.step().unwrap();
    assert_eq!(jvm.stack_frames[0].stack, stack_before);
    assert_eq!(jvm.stack_frames[0].pc, 2);
    assert!(jvm.heap.is_empty());
}

#[test]
fn goto_to_itself_makes_no_progress() {
    // A self-pointing backward branch: every step succeeds, the machine
    // never changes, and only a step-counting driver can notice.
    let mut jvm = frame_jvm(vec![0xA7, 0x00, 0x00]);
    for _ in 0..5 {
        jvm.step().unwrap();
        assert_eq!(jvm.stack_frames.len(), 1);
        assert_eq!(jvm.stack_frames[0].pc, 0);
    }
}

#[test]
fn new_array_of_zero_length_has_length_zero() {
    // newarray(Int) with count 0, then ArrayLength pushes Int(0).
    let mut jvm = frame_jvm(vec![0x03, 0xBC, 10, 0xBE, 0xB1]);
    jvm.step().unwrap();
    jvm.step().unwrap();
    assert_eq!(jvm.stack_frames[0].arrays.len(), 1);
    assert!(jvm.stack_frames[0].arrays[0].is_empty());
    jvm.step().unwrap(); // the padding Nop slot of newarray
    jvm.step().unwrap(); // arraylength
    assert_eq!(jvm.stack_frames[0].stack, vec![Primitive::Int(0)]);
}

#[test]
fn return_from_main_empties_the_frame_stack() {
    let mut jvm = frame_jvm(vec![0xB1]);
    jvm.step().unwrap();
    assert!(jvm.stack_frames.is_empty());
}

#[test]
fn dup_then_pop_leaves_stack_unchanged() {
    let mut jvm = frame_jvm(vec![0x04, 0x59, 0x57, 0xB1]);
    jvm.step().unwrap();
    let before = jvm.stack_frames[0].stack.clone();
    jvm.step().unwrap();
    jvm.step().unwrap();
    assert_eq!(jvm.stack_frames[0].stack, before);
}

#[test]
fn swap_twice_is_identity() {
    let mut jvm = frame_jvm(vec![0x04, 0x05, 0x5F, 0x5F, 0xB1]);
    jvm.step().unwrap();
    jvm.step().unwrap();
    let before = jvm.stack_frames[0].stack.clone();
    jvm.step().unwrap();
    assert_eq!(
        jvm.stack_frames[0].stack,
        vec![Primitive::Int(2), Primitive::Int(1)]
    );
    jvm.step().unwrap();
    assert_eq!(jvm.stack_frames[0].stack, before);
}

#[test]
fn convert_to_same_type_is_identity() {
    let v = Primitive::Int(123);
    let r = v.eval(Operator::Convert(PrimitiveType::Int, PrimitiveType::Int)).unwrap();
    assert_eq!(r, Primitive::Int(123));
    let l = Primitive::Long(-7);
    let r2 = l.eval(Operator::Convert(PrimitiveType::Long, PrimitiveType::Long)).unwrap();
    assert_eq!(r2, Primitive::Long(-7));
}

#[test]
fn integer_arithmetic_wraps_and_checks_zero() {
    let r = Primitive::eval2(Primitive::Int(i32::MAX), Primitive::Int(1), Operator::Add).unwrap();
    assert_eq!(r, Primitive::Int(i32::MIN));
    let d = Primitive::eval2(Primitive::Int(5), Primitive::Int(0), Operator::Div);
    assert_eq!(d.unwrap_err().kind(), ErrorKind::ArithmeticError);
    let m = Primitive::eval2(Primitive::Int(i32::MIN), Primitive::Int(-1), Operator::Div).unwrap();
    assert_eq!(m, Primitive::Int(i32::MIN));
    let neg = Primitive::eval2(Primitive::Int(-7), Primitive::Int(2), Operator::Div).unwrap();
    assert_eq!(neg, Primitive::Int(-3));
    let rem = Primitive::eval2(Primitive::Int(-7), Primitive::Int(2), Operator::Rem).unwrap();
    assert_eq!(rem, Primitive::Int(-1));
}

#[test]
fn unsigned_shift_right_zero_extends() {
    let r = Primitive::eval2(Primitive::Int(-1), Primitive::Int(1), Operator::UShr).unwrap();
    assert_eq!(r, Primitive::Int(0x7FFF_FFFF));
    let l = Primitive::eval2(Primitive::Long(-1), Primitive::Int(1), Operator::UShr).unwrap();
    assert_eq!(l, Primitive::Long(0x7FFF_FFFF_FFFF_FFFF));
}

#[test]
fn type_mismatch_is_a_type_error() {
    let r = Primitive::eval2(Primitive::Int(1), Primitive::Long(1), Operator::Add);
    assert_eq!(r.unwrap_err().kind(), ErrorKind::TypeError);
}

#[test]
fn comparisons_against_zero() {
    let t = Primitive::Int(-3).compare_to_zero(Comparison::LessThan).unwrap();
    assert!(t);
    let f = Primitive::Int(0).compare_to_zero(Comparison::GreaterThan).unwrap();
    assert!(!f);
    let e = Primitive::Null.compare_to_zero(Comparison::Equal);
    assert_eq!(e.unwrap_err().kind(), ErrorKind::TypeError);
}

#[test]
fn parser_rejects_bad_magic() {
    let r = parse_file_to_class(vec![0xDE, 0xAD, 0xBE, 0xEF, 0, 0, 0, 0, 0, 0]);
    assert_eq!(r.unwrap_err().kind(), ErrorKind::ParseError);
}

#[test]
fn parser_rejects_truncated_artifact() {
    let r = parse_file_to_class(vec![0xCA, 0xFE, 0xBA, 0xBE]);
    assert_eq!(r.unwrap_err().kind(), ErrorKind::ParseError);
}

#[test]
fn pretty_print_is_decimal() {
    assert_eq!(Primitive::Int(-42).pretty_print(), "-42");
    assert_eq!(Primitive::Int(0).pretty_print(), "0");
    assert_eq!(Primitive::Long(1234567890123).pretty_print(), "1234567890123");
    assert_eq!(Primitive::Null.pretty_print(), "null");
}

#[test]
fn constant_pool_find_or_add_reuses_entries() {
    let mut cp: Vec<ConstantPoolEntry> = Vec::new();
    let a = cp.find_or_add_utf8("hello");
    let b = cp.find_or_add_utf8("hello");
    assert_eq!(a, b);
    assert_eq!(cp.len(), 1);
    let c = cp.find_or_add_class("World");
    assert_eq!(cp.len(), 3);
    let d = cp.find_or_add_class("World");
    assert_eq!(c, d);
    assert_eq!(cp.len(), 3);
    let m = cp.find_or_add_method_ref("World", "go", "()V");
    assert_eq!(cp.len(), 7);
    let m2 = cp.find_or_add_method_ref("World", "go", "()V");
    assert_eq!(m, m2);
    assert!(cp.find_method_ref("World", "go", "()V") == Some(m));
    assert!(cp.find_method_ref("World", "stop", "()V").is_none());
}

#[test]
fn division_by_zero_at_runtime() {
    // iconst_1; iconst_0; idiv -> ArithmeticError, machine unchanged.
    let mut jvm = frame_jvm(vec![0x04, 0x03, 0x6C, 0xB1]);
    jvm.step().unwrap();
    jvm.step().unwrap();
    let e = jvm.step().unwrap_err();
    assert_eq!(e.kind(), ErrorKind::ArithmeticError);
    assert_eq!(jvm.stack_frames[0].pc, 2);
}

#[test]
fn stack_underflow_is_reported() {
    let mut jvm = frame_jvm(vec![0x60, 0xB1]);
    let e = jvm.step().unwrap_err();
    assert_eq!(e.kind(), ErrorKind::StackUnderflow);
}

#[test]
fn stack_trace_names_class_and_pc() {
    let jvm = frame_jvm(vec![0xB1]);
    let e = minijvm::error::err_type("boom");
    let t = jvm.stack_trace(&e);
    assert_eq!(t, "Exception TypeError: boom\n   at Scratch / pc 0\n");
}

#[test]
fn duplicate_class_names_keep_the_last_loaded() {
    // Two classes named alike: the later one wins, as a name-keyed map
    // would resolve it.
    let first = hello_world_class(); // prints "1"
    let (p, code, this, out_ref, println_ref, mn, md) = println_pool("HelloWorld");
    let mut c: Vec<u8> = Vec::new();
    c.push(0xB2);
    c.extend(be2(out_ref));
    c.push(0x05); // iconst_2
    c.push(0xB6);
    c.extend(be2(println_ref));
    c.push(0xB1);
    let second = build_class(&p, code, this, &[RawMethod { name: mn, desc: md, code: c }]);
    let jvm = run_classes(vec![first, second]);
    assert_eq!(jvm.class_area.len(), 1);
    assert!(jvm.stdout == "2");
}

#[test]
fn entry_method_without_code_is_refused() {
    let (p, code, this, _out_ref, _println_ref, mn, md) = println_pool("Empty");
    let bytes = build_class(&p, code, this, &[RawMethod { name: mn, desc: md, code: Vec::new() }]);
    let class = parse_file_to_class(bytes).expect("class artifact should parse");
    let mut jvm = Jvm::new(vec![class]);
    let e = jvm.run().unwrap_err();
    assert_eq!(e.kind(), ErrorKind::ResolutionError);
}
