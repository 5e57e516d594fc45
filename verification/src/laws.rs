//! The laws the machine obeys, stated over the specification functions and
//! proved once and for all.
use vstd::prelude::*;

use crate::bytecode::{eval_spec, is_type_spec, Instruction, Operator, Primitive, PrimitiveType};
use crate::class_file_parser::{decode_from, decode_op};
use crate::error::ErrorKind;
use crate::java_class::{cp_field_ref, CpEntryModel};
use crate::jvm::{
    assoc_keys_unique, cur_cp, frame_step_spec, frame_wf, is_cat1, jvm_wf, replace_top, step_spec,
    steps, FrameModel, JvmModel,
};

verus! {

/// A frame-local instruction leaves the frame well-formed: the new program
/// counter points at an instruction of the same method.
#[verifier::rlimit(100)]
#[verifier::spinoff_prover]
pub proof fn lemma_frame_step_wf(f: FrameModel, inst: Instruction)
    ensures
        frame_step_spec(f, inst) is Ok ==> frame_wf(frame_step_spec(f, inst)->Ok_0),
{
    if frame_step_spec(f, inst) is Ok {
        match inst {
            Instruction::Nop => {},
            Instruction::AConstNull => {},
            Instruction::Const(_v) => {},
            Instruction::Load(_i, _t) => {},
            Instruction::Store(_i, _t) => {},
            Instruction::ALoad(_t) => {},
            Instruction::AStore(_t) => {},
            Instruction::Pop => {},
            Instruction::Pop2 => {},
            Instruction::Dup => {},
            Instruction::DupX1 => {},
            Instruction::DupX2 => {},
            Instruction::Dup2 => {},
            Instruction::Dup2X1 => {},
            Instruction::Dup2X2 => {},
            Instruction::Swap => {},
            Instruction::Add(_t) => {},
            Instruction::Sub(_t) => {},
            Instruction::Mul(_t) => {},
            Instruction::Div(_t) => {},
            Instruction::Rem(_t) => {},
            Instruction::Neg(_t) => {},
            Instruction::Shl(_t) => {},
            Instruction::Shr(_t) => {},
            Instruction::UShr(_t) => {},
            Instruction::And(_t) => {},
            Instruction::Or(_t) => {},
            Instruction::Xor(_t) => {},
            Instruction::IInc(_i, _c) => {},
            Instruction::Convert(_s, _d) => {},
            Instruction::LCmp => {},
            Instruction::If(_o, _c) => {},
            Instruction::IfICmp(_o, _c) => {},
            Instruction::Goto(_o) => {},
            Instruction::Jsr(_o) => {},
            Instruction::Ret(_i) => {},
            Instruction::IfNull(_o) => {},
            Instruction::IfNonNull(_o) => {},
            Instruction::NewArray(_t) => {},
            Instruction::ANewArray(_i) => {},
            Instruction::ArrayLength => {},
            Instruction::MonitorEnter => {},
            Instruction::MonitorExit => {},
            _ => {},
        }
    }
}

/// Every frame's program counter stays on an instruction of its method: a
/// successful step takes a well-formed machine to a well-formed machine.
#[verifier::rlimit(100)]
#[verifier::spinoff_prover]
pub proof fn lemma_step_preserves_wf(m: JvmModel)
    requires
        jvm_wf(m),
    ensures
        step_spec(m) is Ok ==> jvm_wf(step_spec(m)->Ok_0),
{
    if step_spec(m) is Ok {
        let m2 = step_spec(m)->Ok_0;
        let f = m.frames.last();
        let inst = f.method.instructions[f.pc];
        lemma_frame_step_wf(f, inst);
        assert forall|i: int| 0 <= i < m2.frames.len() implies frame_wf(#[trigger] m2.frames[i]) by {
            assert(frame_wf(m.frames.last()));
            if i < m.frames.len() - 1 {
                assert(frame_wf(m.frames[i]));
            }
        }
    }
}

/// Wide values move as single slots: `Dup2` over a wide top duplicates one
/// slot, and `Pop2` over a wide top removes one slot — neither ever splits
/// a `Long` or a `Double`.
pub proof fn lemma_wide_single_slot(f: FrameModel)
    requires
        f.stack.len() > 0,
        !is_cat1(f.stack.last()),
        0 <= f.pc,
        f.pc + 1 < f.method.instructions.len(),
    ensures
        frame_step_spec(f, Instruction::Dup2) == Ok::<FrameModel, ErrorKind>(
            (FrameModel { pc: f.pc + 1, stack: f.stack.push(f.stack.last()), ..f }),
        ),
        frame_step_spec(f, Instruction::Pop2) == Ok::<FrameModel, ErrorKind>(
            (FrameModel { pc: f.pc + 1, stack: f.stack.drop_last(), ..f }),
        ),
{
    assert(frame_step_spec(f, Instruction::Dup2)->Ok_0 =~~= (FrameModel {
        pc: f.pc + 1,
        stack: f.stack.push(f.stack.last()),
        ..f
    }));
    assert(frame_step_spec(f, Instruction::Pop2)->Ok_0 =~~= (FrameModel {
        pc: f.pc + 1,
        stack: f.stack.drop_last(),
        ..f
    }));
}

/// The decoded vector is as long as the code: decoding the suffix at `p`
/// yields exactly `code.len() - p` slots.
pub proof fn lemma_decode_length(code: Seq<u8>, p: int)
    requires
        0 <= p <= code.len(),
        decode_from(code, p) is Some,
    ensures
        decode_from(code, p)->Some_0.len() == code.len() - p,
    decreases code.len() - p,
{
    if p < code.len() {
        let il = decode_op(code, p)->Some_0;
        lemma_decode_length(code, p + il.1);
    }
}

/// Decoded operations pad their operand bytes: where the operation at `p`
/// occupies `L` bytes, the decoded vector holds it at slot `p` and `Nop` in
/// the `L - 1` slots after it.
pub proof fn lemma_decode_padding(code: Seq<u8>, p: int)
    requires
        0 <= p < code.len(),
        decode_from(code, p) is Some,
    ensures
        ({
            let rest = decode_from(code, p)->Some_0;
            let il = decode_op(code, p)->Some_0;
            &&& decode_op(code, p) is Some
            &&& rest[0] == il.0
            &&& forall|j: int| 1 <= j < il.1 ==> rest[j] == Instruction::Nop
        }),
{
    let il = decode_op(code, p)->Some_0;
    lemma_decode_length(code, p + il.1);
}

/// Every slot of the instruction vector that starts a decoded operation of
/// length `L` is followed by `L - 1` `Nop` slots, and the whole vector is
/// exactly as long as the code.
pub proof fn lemma_decoder_shape(code: Seq<u8>, p: int)
    requires
        decode_from(code, 0) is Some,
        0 <= p <= code.len(),
        decode_from(code, p) is Some,
    ensures
        decode_from(code, 0)->Some_0.len() == code.len(),
    decreases code.len() - p,
{
    lemma_decode_length(code, 0);
}

/// Instruction vectors where every branch lands on a non-`Nop` slot.
pub open spec fn branch_targets_aligned(instrs: Seq<Instruction>) -> bool {
    forall|p: int|
        0 <= p < instrs.len() && #[trigger] branch_offset_at(instrs, p) is Some ==> {
            let o = branch_offset_at(instrs, p)->Some_0;
            0 <= p + o < instrs.len() && instrs[p + o] != Instruction::Nop
        }
}

/// The branch displacement an instruction carries, when it has one.
pub open spec fn branch_offset_at(instrs: Seq<Instruction>, p: int) -> Option<int> {
    if 0 <= p < instrs.len() {
        match instrs[p] {
            Instruction::If(o, _c) => Some(o as int),
            Instruction::IfICmp(o, _c) => Some(o as int),
            Instruction::IfNull(o) => Some(o as int),
            Instruction::IfNonNull(o) => Some(o as int),
            Instruction::Goto(o) => Some(o as int),
            Instruction::Jsr(o) => Some(o as int),
            _ => None,
        }
    } else {
        None
    }
}

/// In a method whose branches are aligned, an executed branch never lands
/// inside the `Nop` padding: after the step the program counter sits either
/// on the fall-through slot or on a non-`Nop` slot.
pub proof fn lemma_branch_lands_on_instruction(f: FrameModel, inst: Instruction)
    requires
        branch_targets_aligned(f.method.instructions),
        frame_wf(f),
        f.method.instructions[f.pc] == inst,
        branch_offset_at(f.method.instructions, f.pc) is Some,
        frame_step_spec(f, inst) is Ok,
    ensures
        ({
            let f2 = frame_step_spec(f, inst)->Ok_0;
            f2.pc == f.pc + 1 || f.method.instructions[f2.pc] != Instruction::Nop
        }),
{
    let o = branch_offset_at(f.method.instructions, f.pc)->Some_0;
    assert(0 <= f.pc + o < f.method.instructions.len() && f.method.instructions[f.pc + o]
        != Instruction::Nop);
}

/// Constant pool indices resolve only inside `[1, cp.len()]` and only
/// through an entry of the expected kind: a field reference that resolves
/// sits at a `FieldRef` entry.
pub proof fn lemma_resolved_field_ref_in_range(cp: Seq<CpEntryModel>, index: int)
    requires
        cp_field_ref(cp, index) is Some,
    ensures
        1 <= index <= cp.len(),
        cp[index - 1] is FieldRef,
{
}

/// Executing `Nop` leaves the operand stack, the locals, the arrays, the
/// heap, the classes and the output unchanged; only the program counter
/// advances.
pub proof fn lemma_nop_changes_nothing(m: JvmModel)
    requires
        m.frames.len() > 0,
        frame_wf(m.frames.last()),
        m.frames.last().method.instructions[m.frames.last().pc] == Instruction::Nop,
        step_spec(m) is Ok,
    ensures
        ({
            let m2 = step_spec(m)->Ok_0;
            let f = m.frames.last();
            let f2 = m2.frames.last();
            &&& m2.heap == m.heap
            &&& m2.classes == m.classes
            &&& m2.stdout == m.stdout
            &&& m2.frames.len() == m.frames.len()
            &&& f2.stack == f.stack
            &&& f2.locals == f.locals
            &&& f2.arrays == f.arrays
            &&& f2.pc == f.pc + 1
            &&& forall|i: int| 0 <= i < m.frames.len() - 1 ==> m2.frames[i] == m.frames[i]
        }),
{
}

/// Converting a value to its own type is the identity.
pub proof fn lemma_convert_identity(v: Primitive, t: PrimitiveType)
    requires
        is_type_spec(v, t),
    ensures
        eval_spec(v, Operator::Convert(t, t)) == Ok::<Primitive, ErrorKind>(v),
{
}

/// `Dup` followed by `Pop` on a category-1 top leaves the operand stack
/// unchanged and advances the program counter past both instructions.
pub proof fn lemma_dup_then_pop_is_identity(f: FrameModel)
    requires
        f.stack.len() > 0,
        is_cat1(f.stack.last()),
        0 <= f.pc,
        f.pc + 2 < f.method.instructions.len(),
    ensures
        ({
            let f1 = frame_step_spec(f, Instruction::Dup)->Ok_0;
            let f2 = frame_step_spec(f1, Instruction::Pop)->Ok_0;
            &&& frame_step_spec(f, Instruction::Dup) is Ok
            &&& frame_step_spec(f1, Instruction::Pop) is Ok
            &&& f2.stack == f.stack
            &&& f2.locals == f.locals
            &&& f2.arrays == f.arrays
            &&& f2.pc == f.pc + 2
        }),
{
    let f1 = frame_step_spec(f, Instruction::Dup)->Ok_0;
    assert(f1.stack.drop_last() =~= f.stack);
}

/// `Swap` twice is the identity on the operand stack.
pub proof fn lemma_swap_twice_is_identity(f: FrameModel)
    requires
        f.stack.len() >= 2,
        is_cat1(f.stack[f.stack.len() - 1]),
        is_cat1(f.stack[f.stack.len() - 2]),
        0 <= f.pc,
        f.pc + 2 < f.method.instructions.len(),
    ensures
        ({
            let f1 = frame_step_spec(f, Instruction::Swap)->Ok_0;
            let f2 = frame_step_spec(f1, Instruction::Swap)->Ok_0;
            &&& frame_step_spec(f, Instruction::Swap) is Ok
            &&& frame_step_spec(f1, Instruction::Swap) is Ok
            &&& f2.stack == f.stack
            &&& f2.pc == f.pc + 2
        }),
{
    let n = f.stack.len() as int;
    let f1 = frame_step_spec(f, Instruction::Swap)->Ok_0;
    let f2 = frame_step_spec(f1, Instruction::Swap)->Ok_0;
    assert(f1.stack.len() == n);
    assert(f2.stack =~= f.stack);
}

/// A branch whose displacement is zero reproduces the machine exactly: the
/// self-pointing `goto` loops forever, and a driver can observe that only by
/// counting steps, never by a state change.
pub proof fn lemma_goto_self_is_fixed_point(m: JvmModel)
    requires
        m.frames.len() > 0,
        frame_wf(m.frames.last()),
        m.frames.last().method.instructions[m.frames.last().pc] == Instruction::Goto(0i32),
    ensures
        step_spec(m) == Ok::<JvmModel, ErrorKind>(m),
{
    let f = m.frames.last();
    let f2 = frame_step_spec(f, Instruction::Goto(0i32))->Ok_0;
    assert(f2.stack =~= f.stack);
    assert(f2 =~~= f);
    assert(replace_top(m, f2).frames =~= m.frames);
    assert(step_spec(m)->Ok_0 =~~= m);
}

/// `return;` from the last live frame empties the frame stack.
pub proof fn lemma_return_from_main_empties_frames(m: JvmModel)
    requires
        m.frames.len() == 1,
        frame_wf(m.frames.last()),
        m.frames.last().method.instructions[m.frames.last().pc] == Instruction::Return(
            PrimitiveType::Null,
        ),
    ensures
        step_spec(m) is Ok,
        step_spec(m)->Ok_0.frames.len() == 0,
{
}


/// Every runtime value is exactly one tagged slot: one of the nine Java
/// value tags, or the typed return address that `Jsr` pushes and spec-level
/// verification requires to stay distinct from object references. This
/// holds of every value the machine can ever hold, by construction of the
/// value type, so in particular of every operand stack element.
pub open spec fn legal_value(p: Primitive) -> bool {
    ||| p is Null
    ||| p is Byte
    ||| p is Short
    ||| p is Char
    ||| p is Int
    ||| p is Long
    ||| p is Float
    ||| p is Double
    ||| p is Reference
    ||| p is ReturnAddress
}

/// No value with an illegal tag exists.
pub proof fn lemma_values_are_tagged(p: Primitive)
    ensures
        legal_value(p),
{
}

/// One step never shrinks the heap, reclassifies an object, renames a
/// class, or touches a class's constant pool or method table: objects are
/// only appended, and only object fields and static fields are written.
#[verifier::rlimit(100)]
#[verifier::spinoff_prover]
pub proof fn lemma_step_preserves_structure(m: JvmModel)
    ensures
        step_spec(m) is Ok ==> ({
            let m2 = step_spec(m)->Ok_0;
            &&& m2.heap.len() >= m.heap.len()
            &&& forall|i: int|
                0 <= i < m.heap.len() ==> (#[trigger] m2.heap[i]).class_name
                    == m.heap[i].class_name
            &&& m2.classes.len() == m.classes.len()
            &&& forall|i: int|
                0 <= i < m.classes.len() ==> (#[trigger] m2.classes[i]).name == m.classes[i].name
                    && m2.classes[i].constant_pool == m.classes[i].constant_pool
                    && m2.classes[i].methods == m.classes[i].methods
        }),
{
    if step_spec(m) is Ok {
        let m2 = step_spec(m)->Ok_0;
        let f = m.frames.last();
        let inst = f.method.instructions[f.pc];
        match inst {
            Instruction::PutStatic(index) => {
                let cp = cur_cp(m, f)->Some_0;
                let fr = cp_field_ref(cp, index as int)->Some_0;
                crate::jvm::lemma_class_index_of_some(m.classes, fr.0);
                let ti = crate::jvm::class_index_of(m.classes, fr.0)->Some_0;
                assert forall|i: int|
                    0 <= i < m.classes.len() implies (#[trigger] m2.classes[i]).name
                    == m.classes[i].name && m2.classes[i].constant_pool
                    == m.classes[i].constant_pool && m2.classes[i].methods
                    == m.classes[i].methods by {
                    if i != ti {
                        assert(m2.classes[i] == m.classes[i]);
                    }
                }
            },
            Instruction::PutField(_i) => {
                assert forall|i: int|
                    0 <= i < m.heap.len() implies (#[trigger] m2.heap[i]).class_name
                    == m.heap[i].class_name by {
                    let orf = f.stack[f.stack.len() - 2]->Reference_0 as int;
                    if i != orf {
                        assert(m2.heap[i] == m.heap[i]);
                    }
                }
            },
            Instruction::New(_i) => {
                assert forall|i: int|
                    0 <= i < m.heap.len() implies (#[trigger] m2.heap[i]).class_name
                    == m.heap[i].class_name by {
                    assert(m2.heap[i] == m.heap[i]);
                }
            },
            Instruction::InvokeStatic(_i) => {},
            Instruction::InvokeVirtual(_i) => {},
            Instruction::InvokeSpecial(_i) => {},
            Instruction::Return(_t) => {},
            Instruction::LoadConst(_i) => {},
            Instruction::GetStatic(_i) => {},
            Instruction::GetField(_i) => {},
            _ => {},
        }
    }
}

/// Across any chain of successful steps the heap only grows, each object
/// keeps its class, and the class list keeps its length, names, constant
/// pools and method tables. Together with `Jvm::run`'s contract — the final
/// machine is a state `steps` reaches from the booted machine — this holds
/// across a whole run.
pub proof fn lemma_steps_preserve_structure(m: JvmModel, k: nat)
    requires
        steps(m, k) is Some,
    ensures
        ({
            let m2 = steps(m, k)->Some_0;
            &&& m2.heap.len() >= m.heap.len()
            &&& forall|i: int|
                0 <= i < m.heap.len() ==> (#[trigger] m2.heap[i]).class_name
                    == m.heap[i].class_name
            &&& m2.classes.len() == m.classes.len()
            &&& forall|i: int|
                0 <= i < m.classes.len() ==> (#[trigger] m2.classes[i]).name == m.classes[i].name
                    && m2.classes[i].constant_pool == m.classes[i].constant_pool
                    && m2.classes[i].methods == m.classes[i].methods
        }),
    decreases k,
{
    if k > 0 {
        lemma_step_preserves_structure(m);
        lemma_steps_preserve_structure(step_spec(m)->Ok_0, (k - 1) as nat);
    }
}

/// Every static-field table, instance-field table and method table of the
/// machine binds each key once.
pub open spec fn tables_unique(m: JvmModel) -> bool {
    &&& forall|i: int|
        0 <= i < m.classes.len() ==> assoc_keys_unique((#[trigger] m.classes[i]).static_fields)
    &&& forall|i: int|
        0 <= i < m.classes.len() ==> assoc_keys_unique((#[trigger] m.classes[i]).methods)
    &&& forall|i: int| 0 <= i < m.heap.len() ==> assoc_keys_unique((#[trigger] m.heap[i]).fields)
}

/// One step keeps every table's keys unique: static and instance fields are
/// written only through `assoc_set`, new objects start with no fields, and
/// method tables are never written.
#[verifier::rlimit(100)]
#[verifier::spinoff_prover]
pub proof fn lemma_step_preserves_tables_unique(m: JvmModel)
    requires
        tables_unique(m),
    ensures
        step_spec(m) is Ok ==> tables_unique(step_spec(m)->Ok_0),
{
    if step_spec(m) is Ok {
        let m2 = step_spec(m)->Ok_0;
        let f = m.frames.last();
        let inst = f.method.instructions[f.pc];
        match inst {
            Instruction::PutStatic(index) => {
                let cp = cur_cp(m, f)->Some_0;
                let fr = cp_field_ref(cp, index as int)->Some_0;
                crate::jvm::lemma_class_index_of_some(m.classes, fr.0);
                let ti = crate::jvm::class_index_of(m.classes, fr.0)->Some_0;
                crate::jvm::lemma_assoc_set_keys_unique(
                    m.classes[ti].static_fields,
                    fr.1,
                    f.stack.last(),
                );
                assert forall|i: int|
                    0 <= i < m2.classes.len() implies assoc_keys_unique(
                    (#[trigger] m2.classes[i]).static_fields,
                ) by {
                    if i != ti {
                        assert(m2.classes[i] == m.classes[i]);
                    }
                }
            },
            Instruction::PutField(index) => {
                let cp = cur_cp(m, f)->Some_0;
                let fr = cp_field_ref(cp, index as int)->Some_0;
                let orf = f.stack[f.stack.len() - 2]->Reference_0 as int;
                crate::jvm::lemma_assoc_set_keys_unique(
                    m.heap[orf].fields,
                    fr.1,
                    f.stack[f.stack.len() - 1],
                );
                assert forall|i: int|
                    0 <= i < m2.heap.len() implies assoc_keys_unique(
                    (#[trigger] m2.heap[i]).fields,
                ) by {
                    if i != orf {
                        assert(m2.heap[i] == m.heap[i]);
                    }
                }
            },
            Instruction::New(_i) => {
                assert forall|i: int|
                    0 <= i < m2.heap.len() implies assoc_keys_unique(
                    (#[trigger] m2.heap[i]).fields,
                ) by {
                    if i == m.heap.len() {
                        assert(m2.heap[i].fields.len() == 0);
                    } else {
                        assert(m2.heap[i] == m.heap[i]);
                    }
                }
            },
            _ => {},
        }
    }
}

/// Any chain of successful steps keeps every table's keys unique.
pub proof fn lemma_steps_preserve_tables_unique(m: JvmModel, k: nat)
    requires
        tables_unique(m),
        steps(m, k) is Some,
    ensures
        tables_unique(steps(m, k)->Some_0),
    decreases k,
{
    if k > 0 {
        lemma_step_preserves_tables_unique(m);
        lemma_steps_preserve_tables_unique(step_spec(m)->Ok_0, (k - 1) as nat);
    }
}

} // verus!
