//! The execution engine: frames, loaded classes, the heap, and the
//! interpreter that single-steps decoded instructions.
//!
//! Every piece of machine state has a mathematical model: `Jvm` is modelled
//! by `JvmModel`, a frame by `FrameModel`, and one interpreter step by the
//! specification function `step_spec`. `Jvm::step` is proved to compute
//! exactly `step_spec` of its model, and to leave the machine unchanged when
//! it reports an error.
use vstd::prelude::*;

use crate::bytecode::{
    compare_to_zero_spec, default_value_spec, eval2_spec, eval_spec, integer_compare_spec,
    is_type_spec, pretty_print_spec, Comparison, Instruction, Operator, Primitive, PrimitiveType,
};
use crate::error::{detail_of, kind_of, ErrorKind, JvmError};
use crate::java_class::{
    cp_class_name, cp_field_ref, cp_method_ref, cp_view, lemma_first_hit, lemma_no_hit,
    loadable_of, ConstantPoolEntry, CpEntryModel,
};
use crate::text;

verus! {

use vstd::string::StrSliceExecFns;
use vstd::pervasive::VecAdditionalExecFns;

/// A loaded method body: decoded instructions aligned with byte offsets, and
/// the declared stack and locals bounds.
#[derive(Debug)]
pub struct Method {
    pub instructions: Vec<Instruction>,
    pub max_stack: u16,
    pub max_locals: u16,
}

/// The model of a method.
#[verifier::ext_equal]
pub ghost struct MethodModel {
    pub instructions: Seq<Instruction>,
    pub max_stack: nat,
    pub max_locals: nat,
}

impl View for Method {
    type V = MethodModel;

    open spec fn view(&self) -> MethodModel {
        MethodModel {
            instructions: self.instructions@,
            max_stack: self.max_stack as nat,
            max_locals: self.max_locals as nat,
        }
    }
}

impl Clone for Method {
    /// A clone carries the same instructions and bounds.
    fn clone(&self) -> (r: Method)
        ensures
            r@ == self@,
    {
        let n = self.instructions.len();
        let mut instructions: Vec<Instruction> = Vec::new();
        let mut i: usize = 0;
        while i < n
            invariant
                0 <= i <= n,
                n == self.instructions@.len(),
                instructions@ == self.instructions@.subrange(0, i as int),
            decreases n - i,
        {
            instructions.push(self.instructions[i]);
            proof {
                assert(instructions@ =~= self.instructions@.subrange(0, i + 1));
            }
            i = i + 1;
        }
        proof {
            assert(instructions@ =~= self.instructions@);
        }
        Method { instructions, max_stack: self.max_stack, max_locals: self.max_locals }
    }
}

/// One invocation record: program counter, operand stack, local variables,
/// the frame-local array table, the running method and its owning class.
#[derive(Debug)]
pub struct StackFrame {
    pub pc: usize,
    pub locals: Vec<Primitive>,
    pub arrays: Vec<Vec<Primitive>>,
    pub stack: Vec<Primitive>,
    pub method: Method,
    pub class_name: String,
}

/// The model of a frame.
#[verifier::ext_equal]
pub ghost struct FrameModel {
    pub pc: int,
    pub locals: Seq<Primitive>,
    pub arrays: Seq<Seq<Primitive>>,
    pub stack: Seq<Primitive>,
    pub method: MethodModel,
    pub class_name: Seq<char>,
}

impl View for StackFrame {
    type V = FrameModel;

    open spec fn view(&self) -> FrameModel {
        FrameModel {
            pc: self.pc as int,
            locals: self.locals@,
            arrays: self.arrays@.map_values(|a: Vec<Primitive>| a@),
            stack: self.stack@,
            method: self.method@,
            class_name: self.class_name@,
        }
    }
}

/// A loaded class: its name, constant pool, mutable static fields, and
/// methods keyed by name plus descriptor.
#[derive(Debug)]
pub struct Class {
    pub name: String,
    pub constant_pool: Vec<ConstantPoolEntry>,
    pub static_fields: Vec<(String, Primitive)>,
    pub methods: Vec<(String, Method)>,
}

/// The model of a class.
#[verifier::ext_equal]
pub ghost struct ClassModel {
    pub name: Seq<char>,
    pub constant_pool: Seq<CpEntryModel>,
    pub static_fields: Seq<(Seq<char>, Primitive)>,
    pub methods: Seq<(Seq<char>, MethodModel)>,
}

impl View for Class {
    type V = ClassModel;

    open spec fn view(&self) -> ClassModel {
        ClassModel {
            name: self.name@,
            constant_pool: cp_view(self.constant_pool@),
            static_fields: pairs_view(self.static_fields@),
            methods: methods_view(self.methods@),
        }
    }
}

/// A heap object: its class name and instance fields.
#[derive(Debug)]
pub struct Object {
    pub class_name: String,
    pub fields: Vec<(String, Primitive)>,
}

/// The model of an object.
#[verifier::ext_equal]
pub ghost struct ObjectModel {
    pub class_name: Seq<char>,
    pub fields: Seq<(Seq<char>, Primitive)>,
}

impl View for Object {
    type V = ObjectModel;

    open spec fn view(&self) -> ObjectModel {
        ObjectModel { class_name: self.class_name@, fields: pairs_view(self.fields@) }
    }
}

/// The whole machine: the class area, the append-only heap, the frame
/// stack, and the output buffer the `println` intrinsic appends to.
#[derive(Debug)]
pub struct Jvm {
    pub class_area: Vec<Class>,
    pub heap: Vec<Object>,
    pub stack_frames: Vec<StackFrame>,
    pub stdout: String,
}

/// The model of the machine.
#[verifier::ext_equal]
pub ghost struct JvmModel {
    pub classes: Seq<ClassModel>,
    pub heap: Seq<ObjectModel>,
    pub frames: Seq<FrameModel>,
    pub stdout: Seq<char>,
}

impl View for Jvm {
    type V = JvmModel;

    open spec fn view(&self) -> JvmModel {
        JvmModel {
            classes: classes_view(self.class_area@),
            heap: self.heap@.map_values(|o: Object| o@),
            frames: self.stack_frames@.map_values(|f: StackFrame| f@),
            stdout: self.stdout@,
        }
    }
}

/// The model of a name-to-value table kept as a vector of pairs.
pub open spec fn pairs_view(s: Seq<(String, Primitive)>) -> Seq<(Seq<char>, Primitive)> {
    s.map_values(|p: (String, Primitive)| (p.0@, p.1))
}

/// The model of a method table.
pub open spec fn methods_view(s: Seq<(String, Method)>) -> Seq<(Seq<char>, MethodModel)> {
    s.map_values(|p: (String, Method)| (p.0@, p.1@))
}

/// The model of the class area.
pub open spec fn classes_view(s: Seq<Class>) -> Seq<ClassModel> {
    s.map_values(|c: Class| c@)
}

/// The value under the first occurrence of a key in an association list.
pub open spec fn assoc_find<V>(s: Seq<(Seq<char>, V)>, k: Seq<char>) -> Option<V>
    decreases s.len(),
{
    if s.len() == 0 {
        None
    } else if s[0].0 == k {
        Some(s[0].1)
    } else {
        assoc_find(s.drop_first(), k)
    }
}

/// The association list after binding a key: the first occurrence is
/// replaced in place, or the pair is appended when the key is absent.
pub open spec fn assoc_set<V>(s: Seq<(Seq<char>, V)>, k: Seq<char>, v: V) -> Seq<(Seq<char>, V)>
    decreases s.len(),
{
    if s.len() == 0 {
        seq![(k, v)]
    } else if s[0].0 == k {
        seq![(k, v)] + s.drop_first()
    } else {
        seq![s[0]] + assoc_set(s.drop_first(), k, v)
    }
}

/// A first match at `i` determines `assoc_find`.
proof fn lemma_assoc_find_at<V>(s: Seq<(Seq<char>, V)>, k: Seq<char>, i: int)
    requires
        0 <= i < s.len(),
        s[i].0 == k,
        forall|j: int| 0 <= j < i ==> s[j].0 != k,
    ensures
        assoc_find(s, k) == Some(s[i].1),
    decreases i,
{
    if i == 0 {
    } else {
        assert forall|j: int| 0 <= j < i - 1 implies s.drop_first()[j].0 != k by {
            assert(s.drop_first()[j] == s[j + 1]);
        }
        lemma_assoc_find_at(s.drop_first(), k, i - 1);
    }
}

/// No match anywhere determines `assoc_find`.
proof fn lemma_assoc_find_none<V>(s: Seq<(Seq<char>, V)>, k: Seq<char>)
    requires
        forall|j: int| 0 <= j < s.len() ==> s[j].0 != k,
    ensures
        assoc_find(s, k) is None,
    decreases s.len(),
{
    if s.len() == 0 {
    } else {
        assert forall|j: int| 0 <= j < s.drop_first().len() implies s.drop_first()[j].0 != k by {
            assert(s.drop_first()[j] == s[j + 1]);
        }
        lemma_assoc_find_none(s.drop_first(), k);
    }
}

/// A first match at `i` makes `assoc_set` an in-place update.
proof fn lemma_assoc_set_at<V>(s: Seq<(Seq<char>, V)>, k: Seq<char>, v: V, i: int)
    requires
        0 <= i < s.len(),
        s[i].0 == k,
        forall|j: int| 0 <= j < i ==> s[j].0 != k,
    ensures
        assoc_set(s, k, v) == s.update(i, (k, v)),
    decreases i,
{
    if i == 0 {
        assert(assoc_set(s, k, v) =~= s.update(0, (k, v)));
    } else {
        assert forall|j: int| 0 <= j < i - 1 implies s.drop_first()[j].0 != k by {
            assert(s.drop_first()[j] == s[j + 1]);
        }
        lemma_assoc_set_at(s.drop_first(), k, v, i - 1);
        assert(assoc_set(s, k, v) =~= s.update(i, (k, v)));
    }
}

/// No match anywhere makes `assoc_set` an append.
proof fn lemma_assoc_set_none<V>(s: Seq<(Seq<char>, V)>, k: Seq<char>, v: V)
    requires
        forall|j: int| 0 <= j < s.len() ==> s[j].0 != k,
    ensures
        assoc_set(s, k, v) == s.push((k, v)),
    decreases s.len(),
{
    if s.len() == 0 {
        assert(assoc_set(s, k, v) =~= s.push((k, v)));
    } else {
        assert forall|j: int| 0 <= j < s.drop_first().len() implies s.drop_first()[j].0 != k by {
            assert(s.drop_first()[j] == s[j + 1]);
        }
        lemma_assoc_set_none(s.drop_first(), k, v);
        assert(assoc_set(s, k, v) =~= s.push((k, v)));
    }
}

/// The index of the first class with a given name.
pub open spec fn class_index_of(classes: Seq<ClassModel>, name: Seq<char>) -> Option<int>
    decreases classes.len(),
{
    if classes.len() == 0 {
        None
    } else if classes[0].name == name {
        Some(0int)
    } else {
        match class_index_of(classes.drop_first(), name) {
            Some(i) => Some(i + 1),
            None => None,
        }
    }
}

/// A first name match at `i` determines `class_index_of`.
proof fn lemma_class_index_at(classes: Seq<ClassModel>, name: Seq<char>, i: int)
    requires
        0 <= i < classes.len(),
        classes[i].name == name,
        forall|j: int| 0 <= j < i ==> classes[j].name != name,
    ensures
        class_index_of(classes, name) == Some(i),
    decreases i,
{
    if i == 0 {
    } else {
        assert forall|j: int| 0 <= j < i - 1 implies classes.drop_first()[j].name != name by {
            assert(classes.drop_first()[j] == classes[j + 1]);
        }
        lemma_class_index_at(classes.drop_first(), name, i - 1);
    }
}

/// No name match anywhere determines `class_index_of`.
proof fn lemma_class_index_none(classes: Seq<ClassModel>, name: Seq<char>)
    requires
        forall|j: int| 0 <= j < classes.len() ==> classes[j].name != name,
    ensures
        class_index_of(classes, name) is None,
    decreases classes.len(),
{
    if classes.len() == 0 {
    } else {
        assert forall|j: int|
            0 <= j < classes.drop_first().len() implies classes.drop_first()[j].name != name by {
            assert(classes.drop_first()[j] == classes[j + 1]);
        }
        lemma_class_index_none(classes.drop_first(), name);
    }
}

/// Looks a key up in a static-field or instance-field table.
pub fn assoc_get(v: &Vec<(String, Primitive)>, name: &String) -> (r: Option<Primitive>)
    ensures
        r == assoc_find(pairs_view(v@), name@),
{
    let n = v.len();
    let mut i: usize = 0;
    while i < n
        invariant
            0 <= i <= n,
            n == v@.len(),
            forall|j: int| 0 <= j < i ==> pairs_view(v@)[j].0 != name@,
        decreases n - i,
    {
        let entry = &v[i];
        if text::str_eq(entry.0.as_str(), name.as_str()) {
            proof {
                lemma_assoc_find_at(pairs_view(v@), name@, i as int);
            }
            return Some(entry.1);
        }
        i = i + 1;
    }
    proof {
        lemma_assoc_find_none(pairs_view(v@), name@);
    }
    None
}

/// Binds a key in a static-field or instance-field table: replaces the
/// first occurrence in place, or appends.
pub fn assoc_put(v: &mut Vec<(String, Primitive)>, name: String, value: Primitive)
    ensures
        pairs_view(final(v)@) == assoc_set(pairs_view(old(v)@), name@, value),
{
    let n = v.len();
    let mut i: usize = 0;
    while i < n
        invariant
            0 <= i <= n,
            n == v@.len(),
            v@ == old(v)@,
            forall|j: int| 0 <= j < i ==> pairs_view(v@)[j].0 != name@,
        decreases n - i,
    {
        let hit = text::str_eq(v[i].0.as_str(), name.as_str());
        if hit {
            proof {
                lemma_assoc_set_at(pairs_view(old(v)@), name@, value, i as int);
            }
            v.remove(i);
            v.insert(i, (name, value));
            proof {
                assert(pairs_view(v@) =~= assoc_set(pairs_view(old(v)@), name@, value));
            }
            return ;
        }
        i = i + 1;
    }
    proof {
        lemma_assoc_set_none(pairs_view(old(v)@), name@, value);
    }
    v.push((name, value));
    proof {
        assert(pairs_view(v@) =~= assoc_set(pairs_view(old(v)@), name@, value));
    }
}

/// Looks a `name + descriptor` key up in a method table and clones the
/// method found.
pub fn methods_get(v: &Vec<(String, Method)>, key: &String) -> (r: Option<Method>)
    ensures
        match assoc_find(methods_view(v@), key@) {
            Some(m) => r is Some && r->Some_0@ == m,
            None => r is None,
        },
{
    let n = v.len();
    let mut i: usize = 0;
    while i < n
        invariant
            0 <= i <= n,
            n == v@.len(),
            forall|j: int| 0 <= j < i ==> methods_view(v@)[j].0 != key@,
        decreases n - i,
    {
        let entry = &v[i];
        if text::str_eq(entry.0.as_str(), key.as_str()) {
            proof {
                lemma_assoc_find_at(methods_view(v@), key@, i as int);
            }
            return Some(entry.1.clone());
        }
        i = i + 1;
    }
    proof {
        lemma_assoc_find_none(methods_view(v@), key@);
    }
    None
}

/// The index of the first class of the area with the given name.
pub fn find_class_index(v: &Vec<Class>, name: &str) -> (r: Option<usize>)
    ensures
        match class_index_of(classes_view(v@), name@) {
            Some(i) => r is Some && r->Some_0 == i,
            None => r is None,
        },
        r is Some ==> (r->Some_0 as int) < v@.len(),
{
    let n = v.len();
    let mut i: usize = 0;
    while i < n
        invariant
            0 <= i <= n,
            n == v@.len(),
            forall|j: int| 0 <= j < i ==> classes_view(v@)[j].name != name@,
        decreases n - i,
    {
        if text::str_eq(v[i].name.as_str(), name) {
            proof {
                lemma_class_index_at(classes_view(v@), name@, i as int);
            }
            return Some(i);
        }
        i = i + 1;
    }
    proof {
        lemma_class_index_none(classes_view(v@), name@);
    }
    None
}

/// The number of parameter slots a method descriptor declares, counted the
/// way argument passing counts them: one slot per character between the
/// opening parenthesis and the first closing parenthesis.
pub open spec fn desc_param_count(d: Seq<char>) -> Option<int> {
    match d.index_of_first(')') {
        Some(p) => if p >= 1 {
            Some(p - 1)
        } else {
            None
        },
        None => None,
    }
}

/// True when a method descriptor declares a `void` return.
pub open spec fn desc_is_void(d: Seq<char>) -> bool {
    d.len() > 0 && d.last() == 'V'
}

/// Counts a descriptor's parameter slots; see `desc_param_count`.
pub fn descriptor_param_count(desc: &str) -> (r: Option<usize>)
    ensures
        crate::java_class::r_opt_as_int(r) == desc_param_count(desc@),
{
    let n = desc.unicode_len();
    let mut i: usize = 0;
    while i < n
        invariant
            0 <= i <= n,
            n == desc@.len(),
            forall|j: int| 0 <= j < i ==> desc@[j] != ')',
        decreases n - i,
    {
        if desc.get_char(i) == ')' {
            proof {
                lemma_first_hit(desc@, ')', i as int);
            }
            if i >= 1 {
                return Some(i - 1);
            } else {
                return None;
            }
        }
        i = i + 1;
    }
    proof {
        lemma_no_hit(desc@, ')');
    }
    None
}

/// Whether a descriptor returns `void`; see `desc_is_void`.
pub fn descriptor_is_void(desc: &str) -> (r: bool)
    ensures
        r == desc_is_void(desc@),
{
    let n = desc.unicode_len();
    if n == 0 {
        return false;
    }
    desc.get_char(n - 1) == 'V'
}

/// A vector holding `count` copies of one value.
pub fn filled_vec(def: Primitive, count: usize) -> (r: Vec<Primitive>)
    ensures
        r@ == Seq::new(count as nat, |j: int| def),
{
    let mut r: Vec<Primitive> = Vec::new();
    let mut i: usize = 0;
    while i < count
        invariant
            0 <= i <= count,
            r@ == Seq::new(i as nat, |j: int| def),
        decreases count - i,
    {
        r.push(def);
        proof {
            assert(r@ =~= Seq::new((i + 1) as nat, |j: int| def));
        }
        i = i + 1;
    }
    r
}

/// True when a value is a category-1 value: anything but `Long` and
/// `Double`.
pub open spec fn is_cat1(p: Primitive) -> bool {
    !(p is Long || p is Double)
}

/// The next program counter when execution falls through, or an error when
/// the method would run off its end.
pub open spec fn pc_after(f: FrameModel) -> Result<int, ErrorKind> {
    if 0 <= f.pc + 1 < f.method.instructions.len() {
        Ok(f.pc + 1)
    } else {
        Err(ErrorKind::IndexOutOfBounds)
    }
}

/// The program counter after a relative branch, or an error when the target
/// leaves the method.
pub open spec fn pc_jump(f: FrameModel, delta: int) -> Result<int, ErrorKind> {
    if 0 <= f.pc + delta < f.method.instructions.len() {
        Ok(f.pc + delta)
    } else {
        Err(ErrorKind::IndexOutOfBounds)
    }
}

/// The locals table after a store: an in-place update, or growth with
/// `Null` padding when the index is past the end.
pub open spec fn store_local(locals: Seq<Primitive>, index: int, v: Primitive) -> Seq<Primitive> {
    if index < locals.len() {
        locals.update(index, v)
    } else {
        (locals + Seq::new((index - locals.len()) as nat, |j: int| Primitive::Null)).push(v)
    }
}

/// What an arithmetic or bitwise instruction does to an operand stack: pop
/// two values, check the first against the instruction's operand type, and
/// push the operator's result.
pub open spec fn math_spec(stack: Seq<Primitive>, t: PrimitiveType, o: Operator) -> Result<
    Seq<Primitive>,
    ErrorKind,
> {
    if stack.len() < 2 {
        Err(ErrorKind::StackUnderflow)
    } else {
        let v1 = stack[stack.len() - 2];
        let v2 = stack[stack.len() - 1];
        if !is_type_spec(v1, t) {
            Err(ErrorKind::TypeError)
        } else {
            match eval2_spec(v1, v2, o) {
                Ok(res) => Ok(stack.subrange(0, stack.len() - 2).push(res)),
                Err(k) => Err(k),
            }
        }
    }
}


/// What fall-through plus a push does to a frame.
pub open spec fn push_value(f: FrameModel, v: Primitive) -> Result<FrameModel, ErrorKind> {
    match pc_after(f) {
        Ok(p) => Ok((FrameModel { pc: p, stack: f.stack.push(v), ..f })),
        Err(k) => Err(k),
    }
}

/// What an arithmetic instruction does to a frame.
pub open spec fn math_step(f: FrameModel, t: PrimitiveType, o: Operator) -> Result<
    FrameModel,
    ErrorKind,
> {
    match math_spec(f.stack, t, o) {
        Ok(s) => match pc_after(f) {
            Ok(p) => Ok((FrameModel { pc: p, stack: s, ..f })),
            Err(k) => Err(k),
        },
        Err(k) => Err(k),
    }
}

/// What a branch does to a frame: drop `popped` operands, then jump by
/// `off` when taken or fall through when not.
pub open spec fn branch_step(f: FrameModel, popped: int, taken: bool, off: int) -> Result<
    FrameModel,
    ErrorKind,
> {
    let s = f.stack.subrange(0, f.stack.len() - popped);
    if taken {
        match pc_jump(f, off) {
            Ok(p) => Ok((FrameModel { pc: p, stack: s, ..f })),
            Err(k) => Err(k),
        }
    } else {
        match pc_after(f) {
            Ok(p) => Ok((FrameModel { pc: p, stack: s, ..f })),
            Err(k) => Err(k),
        }
    }
}

/// What one frame-local instruction does to its frame. Instructions that
/// need the class area, the heap, or the frame stack (`LoadConst`, field
/// access, invocation, `New`, `Return`) are not frame-local and are handled
/// by `step_spec` directly; this function reports them, and every decoded
/// but non-executable instruction, as `Unimplemented`.
pub open spec fn frame_step_spec(f: FrameModel, inst: Instruction) -> Result<
    FrameModel,
    ErrorKind,
> {
    let n = f.stack.len() as int;
    match inst {
        Instruction::Nop => match pc_after(f) {
            Ok(p) => Ok((FrameModel { pc: p, ..f })),
            Err(k) => Err(k),
        },
        Instruction::AConstNull => push_value(f, Primitive::Null),
        Instruction::Const(v) => push_value(f, v),
        Instruction::Load(idx, _t) => {
            if idx >= f.locals.len() {
                Err(ErrorKind::IndexOutOfBounds)
            } else {
                push_value(f, f.locals[idx as int])
            }
        },
        Instruction::Store(idx, _t) => {
            if n < 1 {
                Err(ErrorKind::StackUnderflow)
            } else {
                match pc_after(f) {
                    Ok(p) => Ok(
                        (FrameModel {
                            pc: p,
                            stack: f.stack.drop_last(),
                            locals: store_local(f.locals, idx as int, f.stack.last()),
                            ..f
                        }),
                    ),
                    Err(k) => Err(k),
                }
            }
        },
        Instruction::ALoad(_t) => {
            if n < 2 {
                Err(ErrorKind::StackUnderflow)
            } else {
                let idxv = f.stack[n - 1];
                let arrv = f.stack[n - 2];
                if !(idxv is Int) || !(arrv is Reference) {
                    Err(ErrorKind::TypeError)
                } else {
                    let i = idxv->Int_0 as int;
                    let a = arrv->Reference_0 as int;
                    if a >= f.arrays.len() {
                        Err(ErrorKind::IndexOutOfBounds)
                    } else if i < 0 || i >= f.arrays[a].len() {
                        Err(ErrorKind::IndexOutOfBounds)
                    } else {
                        match pc_after(f) {
                            Ok(p) => Ok(
                                (FrameModel {
                                    pc: p,
                                    stack: f.stack.subrange(0, n - 2).push(f.arrays[a][i]),
                                    ..f
                                }),
                            ),
                            Err(k) => Err(k),
                        }
                    }
                }
            }
        },
        Instruction::AStore(_t) => {
            if n < 3 {
                Err(ErrorKind::StackUnderflow)
            } else {
                let v = f.stack[n - 1];
                let idxv = f.stack[n - 2];
                let arrv = f.stack[n - 3];
                if !(idxv is Int) || !(arrv is Reference) {
                    Err(ErrorKind::TypeError)
                } else {
                    let i = idxv->Int_0 as int;
                    let a = arrv->Reference_0 as int;
                    if a >= f.arrays.len() {
                        Err(ErrorKind::IndexOutOfBounds)
                    } else if i < 0 || i >= f.arrays[a].len() {
                        Err(ErrorKind::IndexOutOfBounds)
                    } else {
                        match pc_after(f) {
                            Ok(p) => Ok(
                                (FrameModel {
                                    pc: p,
                                    stack: f.stack.subrange(0, n - 3),
                                    arrays: f.arrays.update(a, f.arrays[a].update(i, v)),
                                    ..f
                                }),
                            ),
                            Err(k) => Err(k),
                        }
                    }
                }
            }
        },
        Instruction::Pop => {
            if n < 1 {
                Err(ErrorKind::StackUnderflow)
            } else if !is_cat1(f.stack[n - 1]) {
                Err(ErrorKind::TypeError)
            } else {
                match pc_after(f) {
                    Ok(p) => Ok((FrameModel { pc: p, stack: f.stack.drop_last(), ..f })),
                    Err(k) => Err(k),
                }
            }
        },
        Instruction::Pop2 => {
            if n < 1 {
                Err(ErrorKind::StackUnderflow)
            } else if !is_cat1(f.stack[n - 1]) {
                match pc_after(f) {
                    Ok(p) => Ok((FrameModel { pc: p, stack: f.stack.drop_last(), ..f })),
                    Err(k) => Err(k),
                }
            } else if n < 2 {
                Err(ErrorKind::StackUnderflow)
            } else if !is_cat1(f.stack[n - 2]) {
                Err(ErrorKind::TypeError)
            } else {
                match pc_after(f) {
                    Ok(p) => Ok((FrameModel { pc: p, stack: f.stack.subrange(0, n - 2), ..f })),
                    Err(k) => Err(k),
                }
            }
        },
        Instruction::Dup => {
            if n < 1 {
                Err(ErrorKind::StackUnderflow)
            } else if !is_cat1(f.stack[n - 1]) {
                Err(ErrorKind::TypeError)
            } else {
                push_value(f, f.stack[n - 1])
            }
        },
        Instruction::DupX1 => {
            if n < 2 {
                Err(ErrorKind::StackUnderflow)
            } else {
                let v1 = f.stack[n - 1];
                let v2 = f.stack[n - 2];
                if !is_cat1(v1) || !is_cat1(v2) {
                    Err(ErrorKind::TypeError)
                } else {
                    match pc_after(f) {
                        Ok(p) => Ok(
                            (FrameModel {
                                pc: p,
                                stack: f.stack.subrange(0, n - 2).push(v1).push(v2).push(v1),
                                ..f
                            }),
                        ),
                        Err(k) => Err(k),
                    }
                }
            }
        },
        Instruction::DupX2 => {
            if n < 2 {
                Err(ErrorKind::StackUnderflow)
            } else {
                let v1 = f.stack[n - 1];
                let v2 = f.stack[n - 2];
                if !is_cat1(v1) {
                    Err(ErrorKind::TypeError)
                } else if !is_cat1(v2) {
                    match pc_after(f) {
                        Ok(p) => Ok(
                            (FrameModel {
                                pc: p,
                                stack: f.stack.subrange(0, n - 2).push(v1).push(v2).push(v1),
                                ..f
                            }),
                        ),
                        Err(k) => Err(k),
                    }
                } else if n < 3 {
                    Err(ErrorKind::StackUnderflow)
                } else {
                    let v3 = f.stack[n - 3];
                    if !is_cat1(v3) {
                        Err(ErrorKind::TypeError)
                    } else {
                        match pc_after(f) {
                            Ok(p) => Ok(
                                (FrameModel {
                                    pc: p,
                                    stack: f.stack.subrange(0, n - 3).push(v1).push(v3).push(
                                        v2,
                                    ).push(v1),
                                    ..f
                                }),
                            ),
                            Err(k) => Err(k),
                        }
                    }
                }
            }
        },
        Instruction::Dup2 => {
            if n < 1 {
                Err(ErrorKind::StackUnderflow)
            } else {
                let v1 = f.stack[n - 1];
                if !is_cat1(v1) {
                    push_value(f, v1)
                } else if n < 2 {
                    Err(ErrorKind::StackUnderflow)
                } else {
                    let v2 = f.stack[n - 2];
                    if !is_cat1(v2) {
                        Err(ErrorKind::TypeError)
                    } else {
                        match pc_after(f) {
                            Ok(p) => Ok(
                                (FrameModel { pc: p, stack: f.stack.push(v2).push(v1), ..f }),
                            ),
                            Err(k) => Err(k),
                        }
                    }
                }
            }
        },
        Instruction::Dup2X1 => {
            if n < 2 {
                Err(ErrorKind::StackUnderflow)
            } else {
                let v1 = f.stack[n - 1];
                let v2 = f.stack[n - 2];
                if !is_cat1(v1) {
                    if !is_cat1(v2) {
                        Err(ErrorKind::TypeError)
                    } else {
                        match pc_after(f) {
                            Ok(p) => Ok(
                                (FrameModel {
                                    pc: p,
                                    stack: f.stack.subrange(0, n - 2).push(v1).push(v2).push(v1),
                                    ..f
                                }),
                            ),
                            Err(k) => Err(k),
                        }
                    }
                } else if !is_cat1(v2) {
                    Err(ErrorKind::TypeError)
                } else if n < 3 {
                    Err(ErrorKind::StackUnderflow)
                } else {
                    let v3 = f.stack[n - 3];
                    if !is_cat1(v3) {
                        Err(ErrorKind::TypeError)
                    } else {
                        match pc_after(f) {
                            Ok(p) => Ok(
                                (FrameModel {
                                    pc: p,
                                    stack: f.stack.subrange(0, n - 3).push(v2).push(v1).push(
                                        v3,
                                    ).push(v2).push(v1),
                                    ..f
                                }),
                            ),
                            Err(k) => Err(k),
                        }
                    }
                }
            }
        },
        Instruction::Dup2X2 => {
            if n < 2 {
                Err(ErrorKind::StackUnderflow)
            } else {
                let v1 = f.stack[n - 1];
                let v2 = f.stack[n - 2];
                if !is_cat1(v1) && !is_cat1(v2) {
                    match pc_after(f) {
                        Ok(p) => Ok(
                            (FrameModel {
                                pc: p,
                                stack: f.stack.subrange(0, n - 2).push(v1).push(v2).push(v1),
                                ..f
                            }),
                        ),
                        Err(k) => Err(k),
                    }
                } else if !is_cat1(v1) {
                    if n < 3 {
                        Err(ErrorKind::StackUnderflow)
                    } else {
                        let v3 = f.stack[n - 3];
                        if !is_cat1(v3) {
                            Err(ErrorKind::TypeError)
                        } else {
                            match pc_after(f) {
                                Ok(p) => Ok(
                                    (FrameModel {
                                        pc: p,
                                        stack: f.stack.subrange(0, n - 3).push(v1).push(v3).push(
                                            v2,
                                        ).push(v1),
                                        ..f
                                    }),
                                ),
                                Err(k) => Err(k),
                            }
                        }
                    }
                } else if !is_cat1(v2) {
                    Err(ErrorKind::TypeError)
                } else if n < 3 {
                    Err(ErrorKind::StackUnderflow)
                } else {
                    let v3 = f.stack[n - 3];
                    if !is_cat1(v3) {
                        match pc_after(f) {
                            Ok(p) => Ok(
                                (FrameModel {
                                    pc: p,
                                    stack: f.stack.subrange(0, n - 3).push(v2).push(v1).push(
                                        v3,
                                    ).push(v2).push(v1),
                                    ..f
                                }),
                            ),
                            Err(k) => Err(k),
                        }
                    } else if n < 4 {
                        Err(ErrorKind::StackUnderflow)
                    } else {
                        let v4 = f.stack[n - 4];
                        if !is_cat1(v4) {
                            Err(ErrorKind::TypeError)
                        } else {
                            match pc_after(f) {
                                Ok(p) => Ok(
                                    (FrameModel {
                                        pc: p,
                                        stack: f.stack.subrange(0, n - 4).push(v2).push(v1).push(
                                            v4,
                                        ).push(v3).push(v2).push(v1),
                                        ..f
                                    }),
                                ),
                                Err(k) => Err(k),
                            }
                        }
                    }
                }
            }
        },
        Instruction::Swap => {
            if n < 2 {
                Err(ErrorKind::StackUnderflow)
            } else {
                let v1 = f.stack[n - 1];
                let v2 = f.stack[n - 2];
                if !is_cat1(v1) || !is_cat1(v2) {
                    Err(ErrorKind::TypeError)
                } else {
                    match pc_after(f) {
                        Ok(p) => Ok(
                            (FrameModel {
                                pc: p,
                                stack: f.stack.subrange(0, n - 2).push(v1).push(v2),
                                ..f
                            }),
                        ),
                        Err(k) => Err(k),
                    }
                }
            }
        },
        Instruction::Add(t) => math_step(f, t, Operator::Add),
        Instruction::Sub(t) => math_step(f, t, Operator::Sub),
        Instruction::Mul(t) => math_step(f, t, Operator::Mul),
        Instruction::Div(t) => math_step(f, t, Operator::Div),
        Instruction::Rem(t) => math_step(f, t, Operator::Rem),
        Instruction::Shl(t) => math_step(f, t, Operator::Shl),
        Instruction::Shr(t) => math_step(f, t, Operator::Shr),
        Instruction::UShr(t) => math_step(f, t, Operator::UShr),
        Instruction::And(t) => math_step(f, t, Operator::And),
        Instruction::Or(t) => math_step(f, t, Operator::Or),
        Instruction::Xor(t) => math_step(f, t, Operator::Xor),
        Instruction::Neg(t) => {
            if n < 1 {
                Err(ErrorKind::StackUnderflow)
            } else {
                let v = f.stack[n - 1];
                if !is_type_spec(v, t) {
                    Err(ErrorKind::TypeError)
                } else {
                    match eval_spec(v, Operator::Neg) {
                        Ok(res) => match pc_after(f) {
                            Ok(p) => Ok(
                                (FrameModel { pc: p, stack: f.stack.drop_last().push(res), ..f }),
                            ),
                            Err(k) => Err(k),
                        },
                        Err(k) => Err(k),
                    }
                }
            }
        },
        Instruction::IInc(idx, c) => {
            if idx >= f.locals.len() {
                Err(ErrorKind::IndexOutOfBounds)
            } else if !(f.locals[idx as int] is Int) {
                Err(ErrorKind::TypeError)
            } else {
                let x = f.locals[idx as int]->Int_0;
                let nv = Primitive::Int(vstd::wrapping::i32_specs::wrapping_add(x, c as i32));
                match pc_after(f) {
                    Ok(p) => Ok(
                        (FrameModel { pc: p, locals: f.locals.update(idx as int, nv), ..f }),
                    ),
                    Err(k) => Err(k),
                }
            }
        },
        Instruction::Convert(s, d) => {
            if n < 1 {
                Err(ErrorKind::StackUnderflow)
            } else {
                match eval_spec(f.stack[n - 1], Operator::Convert(s, d)) {
                    Ok(res) => match pc_after(f) {
                        Ok(p) => Ok(
                            (FrameModel { pc: p, stack: f.stack.drop_last().push(res), ..f }),
                        ),
                        Err(k) => Err(k),
                    },
                    Err(k) => Err(k),
                }
            }
        },
        Instruction::LCmp => {
            if n < 2 {
                Err(ErrorKind::StackUnderflow)
            } else {
                let v2 = f.stack[n - 1];
                let v1 = f.stack[n - 2];
                if !(v1 is Long) || !(v2 is Long) {
                    Err(ErrorKind::TypeError)
                } else {
                    let x = v1->Long_0;
                    let y = v2->Long_0;
                    let c: i32 = if x > y {
                        1i32
                    } else if x == y {
                        0i32
                    } else {
                        (-1) as i32
                    };
                    match pc_after(f) {
                        Ok(p) => Ok(
                            (FrameModel {
                                pc: p,
                                stack: f.stack.subrange(0, n - 2).push(Primitive::Int(c)),
                                ..f
                            }),
                        ),
                        Err(k) => Err(k),
                    }
                }
            }
        },
        Instruction::If(off, cmp) => {
            if n < 1 {
                Err(ErrorKind::StackUnderflow)
            } else {
                match compare_to_zero_spec(f.stack[n - 1], cmp) {
                    Ok(b) => branch_step(f, 1, b, off as int),
                    Err(k) => Err(k),
                }
            }
        },
        Instruction::IfICmp(off, cmp) => {
            if n < 2 {
                Err(ErrorKind::StackUnderflow)
            } else {
                match integer_compare_spec(f.stack[n - 2], f.stack[n - 1], cmp) {
                    Ok(b) => branch_step(f, 2, b, off as int),
                    Err(k) => Err(k),
                }
            }
        },
        Instruction::Goto(off) => branch_step(f, 0, true, off as int),
        Instruction::Jsr(off) => {
            if f.pc + 3 > usize::MAX as int {
                Err(ErrorKind::IndexOutOfBounds)
            } else {
                match pc_jump(f, off as int) {
                    Ok(p) => Ok(
                        (FrameModel {
                            pc: p,
                            stack: f.stack.push(Primitive::ReturnAddress((f.pc + 3) as usize)),
                            ..f
                        }),
                    ),
                    Err(k) => Err(k),
                }
            }
        },
        Instruction::Ret(idx) => {
            if idx >= f.locals.len() {
                Err(ErrorKind::IndexOutOfBounds)
            } else if !(f.locals[idx as int] is ReturnAddress) {
                Err(ErrorKind::TypeError)
            } else {
                let x = f.locals[idx as int]->ReturnAddress_0;
                if x as int >= f.method.instructions.len() {
                    Err(ErrorKind::IndexOutOfBounds)
                } else {
                    Ok((FrameModel { pc: x as int, ..f }))
                }
            }
        },
        Instruction::IfNull(off) => {
            if n < 1 {
                Err(ErrorKind::StackUnderflow)
            } else {
                branch_step(f, 1, f.stack[n - 1] is Null, off as int)
            }
        },
        Instruction::IfNonNull(off) => {
            if n < 1 {
                Err(ErrorKind::StackUnderflow)
            } else {
                branch_step(f, 1, !(f.stack[n - 1] is Null), off as int)
            }
        },
        Instruction::NewArray(t) => {
            if n < 1 {
                Err(ErrorKind::StackUnderflow)
            } else if !(f.stack[n - 1] is Int) {
                Err(ErrorKind::TypeError)
            } else {
                let c = f.stack[n - 1]->Int_0;
                if c < 0 {
                    Err(ErrorKind::IndexOutOfBounds)
                } else {
                    match pc_after(f) {
                        Ok(p) => Ok(
                            (FrameModel {
                                pc: p,
                                stack: f.stack.drop_last().push(
                                    Primitive::Reference(f.arrays.len() as usize),
                                ),
                                arrays: f.arrays.push(
                                    Seq::new(c as nat, |j: int| default_value_spec(t)),
                                ),
                                ..f
                            }),
                        ),
                        Err(k) => Err(k),
                    }
                }
            }
        },
        Instruction::ANewArray(_cp) => {
            if n < 1 {
                Err(ErrorKind::StackUnderflow)
            } else if !(f.stack[n - 1] is Int) {
                Err(ErrorKind::TypeError)
            } else {
                let c = f.stack[n - 1]->Int_0;
                if c < 0 {
                    Err(ErrorKind::IndexOutOfBounds)
                } else {
                    match pc_after(f) {
                        Ok(p) => Ok(
                            (FrameModel {
                                pc: p,
                                stack: f.stack.drop_last().push(
                                    Primitive::Reference(f.arrays.len() as usize),
                                ),
                                arrays: f.arrays.push(
                                    Seq::new(c as nat, |j: int| Primitive::Null),
                                ),
                                ..f
                            }),
                        ),
                        Err(k) => Err(k),
                    }
                }
            }
        },
        Instruction::ArrayLength => {
            if n < 1 {
                Err(ErrorKind::StackUnderflow)
            } else if !(f.stack[n - 1] is Reference) {
                Err(ErrorKind::TypeError)
            } else {
                let a = f.stack[n - 1]->Reference_0 as int;
                if a >= f.arrays.len() {
                    Err(ErrorKind::IndexOutOfBounds)
                } else {
                    match pc_after(f) {
                        Ok(p) => Ok(
                            (FrameModel {
                                pc: p,
                                stack: f.stack.drop_last().push(
                                    Primitive::Int(f.arrays[a].len() as i32),
                                ),
                                ..f
                            }),
                        ),
                        Err(k) => Err(k),
                    }
                }
            }
        },
        Instruction::MonitorEnter => match pc_after(f) {
            Ok(p) => Ok((FrameModel { pc: p, ..f })),
            Err(k) => Err(k),
        },
        Instruction::MonitorExit => match pc_after(f) {
            Ok(p) => Ok((FrameModel { pc: p, ..f })),
            Err(k) => Err(k),
        },
        _ => Err(ErrorKind::Unimplemented),
    }
}


/// Advances the program counter to the next instruction, or reports that
/// the method would run off its end.
fn bump_pc(frame: &mut StackFrame) -> (r: Result<(), JvmError>)
    ensures
        match pc_after(old(frame)@) {
            Ok(p) => r is Ok && final(frame)@ == (FrameModel { pc: p, ..old(frame)@ }),
            Err(k) => r is Err && kind_of(r->Err_0) == k && final(frame)@ == old(frame)@,
        },
{
    let len = frame.method.instructions.len();
    if frame.pc >= len || frame.pc + 1 >= len {
        return Err(crate::error::err_index("program counter ran off the end of the method"));
    }
    frame.pc = frame.pc + 1;
    Ok(())
}

/// Drops `popped` operands and branches: by `off` when taken, to the next
/// instruction otherwise.
fn take_branch(frame: &mut StackFrame, popped: usize, taken: bool, off: i32) -> (r: Result<
    (),
    JvmError,
>)
    requires
        popped <= old(frame).stack@.len(),
    ensures
        match branch_step(old(frame)@, popped as int, taken, off as int) {
            Ok(f2) => r is Ok && final(frame)@ == f2,
            Err(k) => r is Err && kind_of(r->Err_0) == k && final(frame)@ == old(frame)@,
        },
{
    let len = frame.method.instructions.len();
    let n = frame.stack.len();
    if taken {
        let t: i128 = frame.pc as i128 + off as i128;
        if t < 0 || t >= len as i128 {
            return Err(crate::error::err_index("branch target out of range"));
        }
        frame.stack.truncate(n - popped);
        frame.pc = t as usize;
        proof {
            assert(final(frame)@ =~~= branch_step(
                old(frame)@,
                popped as int,
                taken,
                off as int,
            )->Ok_0);
        }
    } else {
        if frame.pc >= len || frame.pc + 1 >= len {
            return Err(crate::error::err_index("program counter ran off the end of the method"));
        }
        frame.stack.truncate(n - popped);
        frame.pc = frame.pc + 1;
        proof {
            assert(final(frame)@ =~~= branch_step(
                old(frame)@,
                popped as int,
                taken,
                off as int,
            )->Ok_0);
        }
    }
    Ok(())
}

/// Writes a value into a local slot, growing the table with `Null` padding
/// when the slot is past the end.
fn store_to_local(frame: &mut StackFrame, index: usize, v: Primitive)
    ensures
        final(frame)@ == (FrameModel {
            locals: store_local(old(frame)@.locals, index as int, v),
            ..old(frame)@
        }),
{
    if index < frame.locals.len() {
        frame.locals.set(index, v);
    } else {
        while frame.locals.len() < index
            invariant
                old(frame).locals@.len() <= index,
                old(frame).locals@.len() <= frame.locals@.len() <= index,
                frame.locals@ == old(frame).locals@ + Seq::new(
                    (frame.locals@.len() - old(frame).locals@.len()) as nat,
                    |j: int| Primitive::Null,
                ),
                frame.pc == old(frame).pc,
                frame.stack@ == old(frame).stack@,
                frame.arrays@ == old(frame).arrays@,
                frame.method == old(frame).method,
                frame.class_name == old(frame).class_name,
            decreases index - frame.locals@.len(),
        {
            frame.locals.push(Primitive::Null);
            proof {
                assert(frame.locals@ =~= old(frame).locals@ + Seq::new(
                    (frame.locals@.len() - old(frame).locals@.len()) as nat,
                    |j: int| Primitive::Null,
                ));
            }
        }
        frame.locals.push(v);
        proof {
            assert(frame.locals@ =~= store_local(old(frame)@.locals, index as int, v));
        }
    }
    proof {
        assert(final(frame)@ =~~= (FrameModel {
            locals: store_local(old(frame)@.locals, index as int, v),
            ..old(frame)@
        }));
    }
}

/// Executes one arithmetic or bitwise instruction on a frame.
fn exec_math(frame: &mut StackFrame, t: PrimitiveType, o: Operator) -> (r: Result<(), JvmError>)
    ensures
        match math_step(old(frame)@, t, o) {
            Ok(f2) => r is Ok && final(frame)@ == f2,
            Err(k) => r is Err && kind_of(r->Err_0) == k && final(frame)@ == old(frame)@,
        },
{
    let n = frame.stack.len();
    if n < 2 {
        return Err(crate::error::err_underflow("arithmetic on a short operand stack"));
    }
    let v1 = frame.stack[n - 2];
    let v2 = frame.stack[n - 1];
    if !v1.is_type(t) {
        return Err(
            crate::error::err_type("mismatched operand type for stack frame math function"),
        );
    }
    let res = match Primitive::eval2(v1, v2, o) {
        Ok(res) => res,
        Err(e) => {
            return Err(e);
        },
    };
    bump_pc(frame)?;
    frame.stack.truncate(n - 2);
    frame.stack.push(res);
    proof {
        assert(final(frame)@ =~~= math_step(old(frame)@, t, o)->Ok_0);
    }
    Ok(())
}

/// Executes one frame-local instruction; see `frame_step_spec`.
#[verifier::rlimit(100)]
#[verifier::spinoff_prover]
fn exec_frame(frame: &mut StackFrame, inst: Instruction) -> (r: Result<(), JvmError>)
    ensures
        match frame_step_spec(old(frame)@, inst) {
            Ok(f2) => r is Ok && final(frame)@ == f2,
            Err(k) => r is Err && kind_of(r->Err_0) == k && final(frame)@ == old(frame)@,
        },
{
    let n = frame.stack.len();
    match inst {
        Instruction::Nop => bump_pc(frame),
        Instruction::AConstNull => {
            bump_pc(frame)?;
            frame.stack.push(Primitive::Null);
            Ok(())
        },
        Instruction::Const(v) => {
            bump_pc(frame)?;
            frame.stack.push(v);
            Ok(())
        },
        Instruction::Load(index, _t) => {
            if index >= frame.locals.len() {
                return Err(crate::error::err_index("local variable index out of range"));
            }
            let v = frame.locals[index];
            bump_pc(frame)?;
            frame.stack.push(v);
            Ok(())
        },
        Instruction::Store(index, _t) => {
            if n < 1 {
                return Err(crate::error::err_underflow("store from an empty operand stack"));
            }
            let v = frame.stack[n - 1];
            bump_pc(frame)?;
            frame.stack.truncate(n - 1);
            store_to_local(frame, index, v);
            proof {
                assert(final(frame)@ =~~= frame_step_spec(old(frame)@, inst)->Ok_0);
            }
            Ok(())
        },
        Instruction::ALoad(_t) => {
            if n < 2 {
                return Err(crate::error::err_underflow("array load on a short operand stack"));
            }
            let idxv = frame.stack[n - 1];
            let arrv = frame.stack[n - 2];
            let i = match idxv {
                Primitive::Int(i) => i,
                _ => {
                    return Err(crate::error::err_type("array index is not an int"));
                },
            };
            let a = match arrv {
                Primitive::Reference(a) => a,
                _ => {
                    return Err(crate::error::err_type("array load target is not a reference"));
                },
            };
            if a >= frame.arrays.len() {
                return Err(crate::error::err_index("array reference out of range"));
            }
            if i < 0 {
                return Err(crate::error::err_index("negative array index"));
            }
            let iu = i as usize;
            if iu >= frame.arrays[a].len() {
                return Err(crate::error::err_index("array index out of range"));
            }
            let elem = frame.arrays[a][iu];
            bump_pc(frame)?;
            frame.stack.truncate(n - 2);
            frame.stack.push(elem);
            proof {
                assert(final(frame)@ =~~= frame_step_spec(old(frame)@, inst)->Ok_0);
            }
            Ok(())
        },
        Instruction::AStore(_t) => {
            if n < 3 {
                return Err(crate::error::err_underflow("array store on a short operand stack"));
            }
            let v = frame.stack[n - 1];
            let idxv = frame.stack[n - 2];
            let arrv = frame.stack[n - 3];
            let i = match idxv {
                Primitive::Int(i) => i,
                _ => {
                    return Err(crate::error::err_type("array index is not an int"));
                },
            };
            let a = match arrv {
                Primitive::Reference(a) => a,
                _ => {
                    return Err(crate::error::err_type("array store target is not a reference"));
                },
            };
            if a >= frame.arrays.len() {
                return Err(crate::error::err_index("array reference out of range"));
            }
            if i < 0 {
                return Err(crate::error::err_index("negative array index"));
            }
            let iu = i as usize;
            if iu >= frame.arrays[a].len() {
                return Err(crate::error::err_index("array index out of range"));
            }
            bump_pc(frame)?;
            let mut arr = frame.arrays.remove(a);
            arr.set(iu, v);
            frame.arrays.insert(a, arr);
            frame.stack.truncate(n - 3);
            proof {
                assert(frame.arrays@.map_values(|x: Vec<Primitive>| x@) =~= old(frame)@.arrays.update(a as int, old(frame)@.arrays[a as int].update(i as int, v)));
                assert(final(frame)@ =~~= frame_step_spec(old(frame)@, inst)->Ok_0);
            }
            Ok(())
        },
        Instruction::Pop => {
            if n < 1 {
                return Err(crate::error::err_underflow("pop from an empty operand stack"));
            }
            if frame.stack[n - 1].is_wide() {
                return Err(crate::error::err_type("pop of a wide value"));
            }
            bump_pc(frame)?;
            frame.stack.truncate(n - 1);
            proof {
                assert(final(frame)@ =~~= frame_step_spec(old(frame)@, inst)->Ok_0);
            }
            Ok(())
        },
        Instruction::Pop2 => {
            if n < 1 {
                return Err(crate::error::err_underflow("pop2 from an empty operand stack"));
            }
            if frame.stack[n - 1].is_wide() {
                bump_pc(frame)?;
                frame.stack.truncate(n - 1);
                proof {
                    assert(final(frame)@ =~~= frame_step_spec(old(frame)@, inst)->Ok_0);
                }
                return Ok(());
            }
            if n < 2 {
                return Err(crate::error::err_underflow("pop2 on a short operand stack"));
            }
            if frame.stack[n - 2].is_wide() {
                return Err(crate::error::err_type("pop2 would split a wide value"));
            }
            bump_pc(frame)?;
            frame.stack.truncate(n - 2);
            proof {
                assert(final(frame)@ =~~= frame_step_spec(old(frame)@, inst)->Ok_0);
            }
            Ok(())
        },
        Instruction::Dup => {
            if n < 1 {
                return Err(crate::error::err_underflow("dup on an empty operand stack"));
            }
            let v = frame.stack[n - 1];
            if v.is_wide() {
                return Err(crate::error::err_type("dup of a wide value"));
            }
            bump_pc(frame)?;
            frame.stack.push(v);
            Ok(())
        },
        Instruction::DupX1 => {
            if n < 2 {
                return Err(crate::error::err_underflow("dup_x1 on a short operand stack"));
            }
            let v1 = frame.stack[n - 1];
            let v2 = frame.stack[n - 2];
            if v1.is_wide() || v2.is_wide() {
                return Err(crate::error::err_type("dup_x1 on a wide value"));
            }
            bump_pc(frame)?;
            frame.stack.truncate(n - 2);
            frame.stack.push(v1);
            frame.stack.push(v2);
            frame.stack.push(v1);
            proof {
                assert(final(frame)@ =~~= frame_step_spec(old(frame)@, inst)->Ok_0);
            }
            Ok(())
        },
        Instruction::DupX2 => {
            if n < 2 {
                return Err(crate::error::err_underflow("dup_x2 on a short operand stack"));
            }
            let v1 = frame.stack[n - 1];
            let v2 = frame.stack[n - 2];
            if v1.is_wide() {
                return Err(crate::error::err_type("dup_x2 of a wide value"));
            }
            if v2.is_wide() {
                bump_pc(frame)?;
                frame.stack.truncate(n - 2);
                frame.stack.push(v1);
                frame.stack.push(v2);
                frame.stack.push(v1);
                proof {
                    assert(final(frame)@ =~~= frame_step_spec(old(frame)@, inst)->Ok_0);
                }
                return Ok(());
            }
            if n < 3 {
                return Err(crate::error::err_underflow("dup_x2 on a short operand stack"));
            }
            let v3 = frame.stack[n - 3];
            if v3.is_wide() {
                return Err(crate::error::err_type("dup_x2 would split a wide value"));
            }
            bump_pc(frame)?;
            frame.stack.truncate(n - 3);
            frame.stack.push(v1);
            frame.stack.push(v3);
            frame.stack.push(v2);
            frame.stack.push(v1);
            proof {
                assert(final(frame)@ =~~= frame_step_spec(old(frame)@, inst)->Ok_0);
            }
            Ok(())
        },
        Instruction::Dup2 => {
            if n < 1 {
                return Err(crate::error::err_underflow("dup2 on an empty operand stack"));
            }
            let v1 = frame.stack[n - 1];
            if v1.is_wide() {
                bump_pc(frame)?;
                frame.stack.push(v1);
                return Ok(());
            }
            if n < 2 {
                return Err(crate::error::err_underflow("dup2 on a short operand stack"));
            }
            let v2 = frame.stack[n - 2];
            if v2.is_wide() {
                return Err(crate::error::err_type("dup2 would split a wide value"));
            }
            bump_pc(frame)?;
            frame.stack.push(v2);
            frame.stack.push(v1);
            proof {
                assert(final(frame)@ =~~= frame_step_spec(old(frame)@, inst)->Ok_0);
            }
            Ok(())
        },
        Instruction::Dup2X1 => {
            if n < 2 {
                return Err(crate::error::err_underflow("dup2_x1 on a short operand stack"));
            }
            let v1 = frame.stack[n - 1];
            let v2 = frame.stack[n - 2];
            if v1.is_wide() {
                if v2.is_wide() {
                    return Err(crate::error::err_type("dup2_x1 would split a wide value"));
                }
                bump_pc(frame)?;
                frame.stack.truncate(n - 2);
                frame.stack.push(v1);
                frame.stack.push(v2);
                frame.stack.push(v1);
                proof {
                    assert(final(frame)@ =~~= frame_step_spec(old(frame)@, inst)->Ok_0);
                }
                return Ok(());
            }
            if v2.is_wide() {
                return Err(crate::error::err_type("dup2_x1 would split a wide value"));
            }
            if n < 3 {
                return Err(crate::error::err_underflow("dup2_x1 on a short operand stack"));
            }
            let v3 = frame.stack[n - 3];
            if v3.is_wide() {
                return Err(crate::error::err_type("dup2_x1 would split a wide value"));
            }
            bump_pc(frame)?;
            frame.stack.truncate(n - 3);
            frame.stack.push(v2);
            frame.stack.push(v1);
            frame.stack.push(v3);
            frame.stack.push(v2);
            frame.stack.push(v1);
            proof {
                assert(final(frame)@ =~~= frame_step_spec(old(frame)@, inst)->Ok_0);
            }
            Ok(())
        },
        Instruction::Dup2X2 => {
            if n < 2 {
                return Err(crate::error::err_underflow("dup2_x2 on a short operand stack"));
            }
            let v1 = frame.stack[n - 1];
            let v2 = frame.stack[n - 2];
            if v1.is_wide() && v2.is_wide() {
                bump_pc(frame)?;
                frame.stack.truncate(n - 2);
                frame.stack.push(v1);
                frame.stack.push(v2);
                frame.stack.push(v1);
                proof {
                    assert(final(frame)@ =~~= frame_step_spec(old(frame)@, inst)->Ok_0);
                }
                return Ok(());
            }
            if v1.is_wide() {
                if n < 3 {
                    return Err(crate::error::err_underflow("dup2_x2 on a short operand stack"));
                }
                let v3 = frame.stack[n - 3];
                if v3.is_wide() {
                    return Err(crate::error::err_type("dup2_x2 would split a wide value"));
                }
                bump_pc(frame)?;
                frame.stack.truncate(n - 3);
                frame.stack.push(v1);
                frame.stack.push(v3);
                frame.stack.push(v2);
                frame.stack.push(v1);
                proof {
                    assert(final(frame)@ =~~= frame_step_spec(old(frame)@, inst)->Ok_0);
                }
                return Ok(());
            }
            if v2.is_wide() {
                return Err(crate::error::err_type("dup2_x2 would split a wide value"));
            }
            if n < 3 {
                return Err(crate::error::err_underflow("dup2_x2 on a short operand stack"));
            }
            let v3 = frame.stack[n - 3];
            if v3.is_wide() {
                bump_pc(frame)?;
                frame.stack.truncate(n - 3);
                frame.stack.push(v2);
                frame.stack.push(v1);
                frame.stack.push(v3);
                frame.stack.push(v2);
                frame.stack.push(v1);
                proof {
                    assert(final(frame)@ =~~= frame_step_spec(old(frame)@, inst)->Ok_0);
                }
                return Ok(());
            }
            if n < 4 {
                return Err(crate::error::err_underflow("dup2_x2 on a short operand stack"));
            }
            let v4 = frame.stack[n - 4];
            if v4.is_wide() {
                return Err(crate::error::err_type("dup2_x2 would split a wide value"));
            }
            bump_pc(frame)?;
            frame.stack.truncate(n - 4);
            frame.stack.push(v2);
            frame.stack.push(v1);
            frame.stack.push(v4);
            frame.stack.push(v3);
            frame.stack.push(v2);
            frame.stack.push(v1);
            proof {
                assert(final(frame)@ =~~= frame_step_spec(old(frame)@, inst)->Ok_0);
            }
            Ok(())
        },
        Instruction::Swap => {
            if n < 2 {
                return Err(crate::error::err_underflow("swap on a short operand stack"));
            }
            let v1 = frame.stack[n - 1];
            let v2 = frame.stack[n - 2];
            if v1.is_wide() || v2.is_wide() {
                return Err(crate::error::err_type("swap of a wide value"));
            }
            bump_pc(frame)?;
            frame.stack.truncate(n - 2);
            frame.stack.push(v1);
            frame.stack.push(v2);
            proof {
                assert(final(frame)@ =~~= frame_step_spec(old(frame)@, inst)->Ok_0);
            }
            Ok(())
        },
        Instruction::Add(t) => exec_math(frame, t, Operator::Add),
        Instruction::Sub(t) => exec_math(frame, t, Operator::Sub),
        Instruction::Mul(t) => exec_math(frame, t, Operator::Mul),
        Instruction::Div(t) => exec_math(frame, t, Operator::Div),
        Instruction::Rem(t) => exec_math(frame, t, Operator::Rem),
        Instruction::Shl(t) => exec_math(frame, t, Operator::Shl),
        Instruction::Shr(t) => exec_math(frame, t, Operator::Shr),
        Instruction::UShr(t) => exec_math(frame, t, Operator::UShr),
        Instruction::And(t) => exec_math(frame, t, Operator::And),
        Instruction::Or(t) => exec_math(frame, t, Operator::Or),
        Instruction::Xor(t) => exec_math(frame, t, Operator::Xor),
        Instruction::Neg(t) => {
            if n < 1 {
                return Err(crate::error::err_underflow("negation on an empty operand stack"));
            }
            let v = frame.stack[n - 1];
            if !v.is_type(t) {
                return Err(crate::error::err_type("mismatched operand type for negation"));
            }
            let res = match v.eval(Operator::Neg) {
                Ok(res) => res,
                Err(e) => {
                    return Err(e);
                },
            };
            bump_pc(frame)?;
            frame.stack.truncate(n - 1);
            frame.stack.push(res);
            proof {
                assert(final(frame)@ =~~= frame_step_spec(old(frame)@, inst)->Ok_0);
            }
            Ok(())
        },
        Instruction::IInc(index, c) => {
            if index >= frame.locals.len() {
                return Err(crate::error::err_index("local variable index out of range"));
            }
            let x = match frame.locals[index] {
                Primitive::Int(x) => x,
                _ => {
                    return Err(crate::error::err_type("iinc on a local that is not an int"));
                },
            };
            bump_pc(frame)?;
            frame.locals.set(index, Primitive::Int(x.wrapping_add(c as i32)));
            proof {
                assert(final(frame)@ =~~= frame_step_spec(old(frame)@, inst)->Ok_0);
            }
            Ok(())
        },
        Instruction::Convert(s, d) => {
            if n < 1 {
                return Err(crate::error::err_underflow("conversion on an empty operand stack"));
            }
            let res = match frame.stack[n - 1].eval(Operator::Convert(s, d)) {
                Ok(res) => res,
                Err(e) => {
                    return Err(e);
                },
            };
            bump_pc(frame)?;
            frame.stack.truncate(n - 1);
            frame.stack.push(res);
            proof {
                assert(final(frame)@ =~~= frame_step_spec(old(frame)@, inst)->Ok_0);
            }
            Ok(())
        },
        Instruction::LCmp => {
            if n < 2 {
                return Err(crate::error::err_underflow("lcmp on a short operand stack"));
            }
            let v2 = frame.stack[n - 1];
            let v1 = frame.stack[n - 2];
            let (x, y) = match (v1, v2) {
                (Primitive::Long(x), Primitive::Long(y)) => (x, y),
                _ => {
                    return Err(crate::error::err_type("lcmp on values that are not longs"));
                },
            };
            let c: i32 = if x > y {
                1
            } else if x == y {
                0
            } else {
                -1
            };
            bump_pc(frame)?;
            frame.stack.truncate(n - 2);
            frame.stack.push(Primitive::Int(c));
            proof {
                assert(final(frame)@ =~~= frame_step_spec(old(frame)@, inst)->Ok_0);
            }
            Ok(())
        },
        Instruction::If(off, cmp) => {
            if n < 1 {
                return Err(crate::error::err_underflow("branch on an empty operand stack"));
            }
            let b = match frame.stack[n - 1].compare_to_zero(cmp) {
                Ok(b) => b,
                Err(e) => {
                    return Err(e);
                },
            };
            take_branch(frame, 1, b, off)
        },
        Instruction::IfICmp(off, cmp) => {
            if n < 2 {
                return Err(crate::error::err_underflow("branch on a short operand stack"));
            }
            let b = match Primitive::integer_compare(frame.stack[n - 2], frame.stack[n - 1], cmp) {
                Ok(b) => b,
                Err(e) => {
                    return Err(e);
                },
            };
            take_branch(frame, 2, b, off)
        },
        Instruction::Goto(off) => take_branch(frame, 0, true, off),
        Instruction::Jsr(off) => {
            if frame.pc > usize::MAX - 3 {
                return Err(crate::error::err_index("return address out of range"));
            }
            let ra = frame.pc + 3;
            take_branch(frame, 0, true, off)?;
            frame.stack.push(Primitive::ReturnAddress(ra));
            proof {
                assert(final(frame)@ =~~= frame_step_spec(old(frame)@, inst)->Ok_0);
            }
            Ok(())
        },
        Instruction::Ret(index) => {
            if index >= frame.locals.len() {
                return Err(crate::error::err_index("local variable index out of range"));
            }
            let x = match frame.locals[index] {
                Primitive::ReturnAddress(x) => x,
                _ => {
                    return Err(crate::error::err_type("ret on a local that is not a return address"));
                },
            };
            if x >= frame.method.instructions.len() {
                return Err(crate::error::err_index("return address out of range"));
            }
            frame.pc = x;
            Ok(())
        },
        Instruction::IfNull(off) => {
            if n < 1 {
                return Err(crate::error::err_underflow("branch on an empty operand stack"));
            }
            let b = match frame.stack[n - 1] {
                Primitive::Null => true,
                _ => false,
            };
            take_branch(frame, 1, b, off)
        },
        Instruction::IfNonNull(off) => {
            if n < 1 {
                return Err(crate::error::err_underflow("branch on an empty operand stack"));
            }
            let b = match frame.stack[n - 1] {
                Primitive::Null => false,
                _ => true,
            };
            take_branch(frame, 1, b, off)
        },
        Instruction::NewArray(t) => {
            if n < 1 {
                return Err(crate::error::err_underflow("newarray on an empty operand stack"));
            }
            let c = match frame.stack[n - 1] {
                Primitive::Int(c) => c,
                _ => {
                    return Err(crate::error::err_type("array count is not an int"));
                },
            };
            if c < 0 {
                return Err(crate::error::err_index("negative array count"));
            }
            bump_pc(frame)?;
            let arr = filled_vec(Primitive::default_of(t), c as usize);
            let aref = frame.arrays.len();
            frame.arrays.push(arr);
            frame.stack.truncate(n - 1);
            frame.stack.push(Primitive::Reference(aref));
            proof {
                assert(frame.arrays@.map_values(|x: Vec<Primitive>| x@) =~= old(frame)@.arrays.push(Seq::new(c as nat, |j: int| default_value_spec(t))));
                assert(final(frame)@ =~~= frame_step_spec(old(frame)@, inst)->Ok_0);
            }
            Ok(())
        },
        Instruction::ANewArray(_cp) => {
            if n < 1 {
                return Err(crate::error::err_underflow("anewarray on an empty operand stack"));
            }
            let c = match frame.stack[n - 1] {
                Primitive::Int(c) => c,
                _ => {
                    return Err(crate::error::err_type("array count is not an int"));
                },
            };
            if c < 0 {
                return Err(crate::error::err_index("negative array count"));
            }
            bump_pc(frame)?;
            let arr = filled_vec(Primitive::Null, c as usize);
            let aref = frame.arrays.len();
            frame.arrays.push(arr);
            frame.stack.truncate(n - 1);
            frame.stack.push(Primitive::Reference(aref));
            proof {
                assert(frame.arrays@.map_values(|x: Vec<Primitive>| x@) =~= old(frame)@.arrays.push(Seq::new(c as nat, |j: int| Primitive::Null)));
                assert(final(frame)@ =~~= frame_step_spec(old(frame)@, inst)->Ok_0);
            }
            Ok(())
        },
        Instruction::ArrayLength => {
            if n < 1 {
                return Err(crate::error::err_underflow("arraylength on an empty operand stack"));
            }
            let a = match frame.stack[n - 1] {
                Primitive::Reference(a) => a,
                _ => {
                    return Err(crate::error::err_type("arraylength target is not a reference"));
                },
            };
            if a >= frame.arrays.len() {
                return Err(crate::error::err_index("array reference out of range"));
            }
            let l = frame.arrays[a].len();
            bump_pc(frame)?;
            frame.stack.truncate(n - 1);
            frame.stack.push(Primitive::Int(#[verifier::truncate] (l as i32)));
            proof {
                assert(final(frame)@ =~~= frame_step_spec(old(frame)@, inst)->Ok_0);
            }
            Ok(())
        },
        Instruction::MonitorEnter => bump_pc(frame),
        Instruction::MonitorExit => bump_pc(frame),
        Instruction::AThrow => Err(crate::error::err_unimpl("exception handling")),
        _ => Err(crate::error::err_unimpl("instruction decodes but does not execute")),
    }
}


impl StackFrame {
    /// Pops the top of the operand stack, or fails with `StackUnderflow`.
    pub fn pop_primitive(&mut self) -> (r: Result<Primitive, JvmError>)
        ensures
            old(self).stack@.len() > 0 ==> r is Ok && r->Ok_0 == old(self).stack@.last() && final(self)@ == (FrameModel { stack: old(self).stack@.drop_last(), ..old(self)@ }),
            old(self).stack@.len() == 0 ==> r is Err && kind_of(r->Err_0)
                == ErrorKind::StackUnderflow && final(self)@ == old(self)@,
    {
        match self.stack.pop() {
            Some(p) => {
                proof {
                    assert(final(self)@ =~~= (FrameModel {
                        stack: old(self).stack@.drop_last(),
                        ..old(self)@
                    }));
                }
                Ok(p)
            },
            None => Err(crate::error::err_underflow("stack is empty")),
        }
    }

    /// Pops an `Int`; fails with `TypeError` on any other tag, leaving the
    /// stack as it was, and with `StackUnderflow` on an empty stack.
    pub fn pop_int(&mut self) -> (r: Result<i32, JvmError>)
        ensures
            old(self).stack@.len() > 0 && old(self).stack@.last() is Int ==> r is Ok && r->Ok_0
                == old(self).stack@.last()->Int_0 && final(self)@ == (FrameModel {
                stack: old(self).stack@.drop_last(),
                ..old(self)@
            }),
            old(self).stack@.len() > 0 && !(old(self).stack@.last() is Int) ==> r is Err && kind_of(
                r->Err_0,
            ) == ErrorKind::TypeError && final(self)@ == old(self)@,
            old(self).stack@.len() == 0 ==> r is Err && kind_of(r->Err_0)
                == ErrorKind::StackUnderflow && final(self)@ == old(self)@,
    {
        let n = self.stack.len();
        if n == 0 {
            return Err(crate::error::err_underflow("stack is empty"));
        }
        match self.stack[n - 1] {
            Primitive::Int(i) => {
                self.stack.truncate(n - 1);
                proof {
                    assert(final(self)@ =~~= (FrameModel {
                        stack: old(self).stack@.drop_last(),
                        ..old(self)@
                    }));
                }
                Ok(i)
            },
            _ => Err(crate::error::err_type("expected int when popping from stack")),
        }
    }

    /// Pops a `Long`; the failure cases mirror `pop_int`.
    pub fn pop_long(&mut self) -> (r: Result<i64, JvmError>)
        ensures
            old(self).stack@.len() > 0 && old(self).stack@.last() is Long ==> r is Ok && r->Ok_0
                == old(self).stack@.last()->Long_0 && final(self)@ == (FrameModel {
                stack: old(self).stack@.drop_last(),
                ..old(self)@
            }),
            old(self).stack@.len() > 0 && !(old(self).stack@.last() is Long) ==> r is Err
                && kind_of(r->Err_0) == ErrorKind::TypeError && final(self)@ == old(self)@,
            old(self).stack@.len() == 0 ==> r is Err && kind_of(r->Err_0)
                == ErrorKind::StackUnderflow && final(self)@ == old(self)@,
    {
        let n = self.stack.len();
        if n == 0 {
            return Err(crate::error::err_underflow("stack is empty"));
        }
        match self.stack[n - 1] {
            Primitive::Long(l) => {
                self.stack.truncate(n - 1);
                proof {
                    assert(final(self)@ =~~= (FrameModel {
                        stack: old(self).stack@.drop_last(),
                        ..old(self)@
                    }));
                }
                Ok(l)
            },
            _ => Err(crate::error::err_type("expected long when popping from stack")),
        }
    }

    /// Pops a `Reference`; the failure cases mirror `pop_int`.
    pub fn pop_ref(&mut self) -> (r: Result<usize, JvmError>)
        ensures
            old(self).stack@.len() > 0 && old(self).stack@.last() is Reference ==> r is Ok
                && r->Ok_0 == old(self).stack@.last()->Reference_0 && final(self)@ == (FrameModel {
                stack: old(self).stack@.drop_last(),
                ..old(self)@
            }),
            old(self).stack@.len() > 0 && !(old(self).stack@.last() is Reference) ==> r is Err
                && kind_of(r->Err_0) == ErrorKind::TypeError && final(self)@ == old(self)@,
            old(self).stack@.len() == 0 ==> r is Err && kind_of(r->Err_0)
                == ErrorKind::StackUnderflow && final(self)@ == old(self)@,
    {
        let n = self.stack.len();
        if n == 0 {
            return Err(crate::error::err_underflow("stack is empty"));
        }
        match self.stack[n - 1] {
            Primitive::Reference(x) => {
                self.stack.truncate(n - 1);
                proof {
                    assert(final(self)@ =~~= (FrameModel {
                        stack: old(self).stack@.drop_last(),
                        ..old(self)@
                    }));
                }
                Ok(x)
            },
            _ => Err(crate::error::err_type("expected reference when popping from stack")),
        }
    }

    /// Pops two operands, checks the first against the operand type, and
    /// pushes the operator's result; see `math_spec`.
    pub fn math(&mut self, operand_type: PrimitiveType, o: Operator) -> (r: Result<(), JvmError>)
        ensures
            match math_spec(old(self).stack@, operand_type, o) {
                Ok(s) => r is Ok && final(self)@ == (FrameModel { stack: s, ..old(self)@ }),
                Err(k) => r is Err && kind_of(r->Err_0) == k && final(self)@ == old(self)@,
            },
    {
        let n = self.stack.len();
        if n < 2 {
            return Err(crate::error::err_underflow("arithmetic on a short operand stack"));
        }
        let v1 = self.stack[n - 2];
        let v2 = self.stack[n - 1];
        if !v1.is_type(operand_type) {
            return Err(
                crate::error::err_type("mismatched operand type for stack frame math function"),
            );
        }
        let res = match Primitive::eval2(v1, v2, o) {
            Ok(res) => res,
            Err(e) => {
                return Err(e);
            },
        };
        self.stack.truncate(n - 2);
        self.stack.push(res);
        proof {
            assert(final(self)@ =~~= (FrameModel {
                stack: math_spec(old(self).stack@, operand_type, o)->Ok_0,
                ..old(self)@
            }));
        }
        Ok(())
    }
}

/// The model with the top frame replaced.
pub open spec fn replace_top(m: JvmModel, f2: FrameModel) -> JvmModel {
    JvmModel { frames: m.frames.update(m.frames.len() - 1, f2), ..m }
}

/// The constant pool of the class the top frame runs in.
pub open spec fn cur_cp(m: JvmModel, f: FrameModel) -> Option<Seq<CpEntryModel>> {
    match class_index_of(m.classes, f.class_name) {
        Some(ci) => Some(m.classes[ci].constant_pool),
        None => None,
    }
}

/// What one interpreter step does to the machine. With no frame the step
/// fails; otherwise the instruction under the top frame's program counter
/// executes: frame-local instructions follow `frame_step_spec`, and the
/// instructions that touch the class area, the heap, the frame stack or the
/// output are given here. On `Ok` the machine is the new model; on `Err` the
/// machine is unchanged.
pub open spec fn step_spec(m: JvmModel) -> Result<JvmModel, ErrorKind> {
    if m.frames.len() == 0 {
        Err(ErrorKind::StackUnderflow)
    } else {
        let f = m.frames.last();
        if f.pc < 0 || f.pc >= f.method.instructions.len() {
            Err(ErrorKind::IndexOutOfBounds)
        } else {
            let inst = f.method.instructions[f.pc];
            let n = f.stack.len() as int;
            match inst {
                Instruction::LoadConst(index) => match cur_cp(m, f) {
                    None => Err(ErrorKind::ResolutionError),
                    Some(cp) => {
                        if index < 1 || index > cp.len() {
                            Err(ErrorKind::ResolutionError)
                        } else {
                            match loadable_of(cp[index - 1]) {
                                None => Err(ErrorKind::ResolutionError),
                                Some(p) => match push_value(f, p) {
                                    Ok(f2) => Ok(replace_top(m, f2)),
                                    Err(k) => Err(k),
                                },
                            }
                        }
                    },
                },
                Instruction::GetStatic(index) => match cur_cp(m, f) {
                    None => Err(ErrorKind::ResolutionError),
                    Some(cp) => match cp_field_ref(cp, index as int) {
                        None => Err(ErrorKind::ResolutionError),
                        Some(fr) => match class_index_of(m.classes, fr.0) {
                            Some(ti) => match assoc_find(m.classes[ti].static_fields, fr.1) {
                                None => Err(ErrorKind::ResolutionError),
                                Some(v) => match push_value(f, v) {
                                    Ok(f2) => Ok(replace_top(m, f2)),
                                    Err(k) => Err(k),
                                },
                            },
                            None => {
                                if fr.0 == "java/lang/System"@ {
                                    match push_value(f, Primitive::Null) {
                                        Ok(f2) => Ok(replace_top(m, f2)),
                                        Err(k) => Err(k),
                                    }
                                } else {
                                    Err(ErrorKind::ResolutionError)
                                }
                            },
                        },
                    },
                },
                Instruction::PutStatic(index) => {
                    if n < 1 {
                        Err(ErrorKind::StackUnderflow)
                    } else {
                        match cur_cp(m, f) {
                            None => Err(ErrorKind::ResolutionError),
                            Some(cp) => match cp_field_ref(cp, index as int) {
                                None => Err(ErrorKind::ResolutionError),
                                Some(fr) => match class_index_of(m.classes, fr.0) {
                                    None => Err(ErrorKind::ResolutionError),
                                    Some(ti) => match pc_after(f) {
                                        Err(k) => Err(k),
                                        Ok(p) => Ok(
                                            (JvmModel {
                                                classes: m.classes.update(
                                                    ti,
                                                    (ClassModel {
                                                        static_fields: assoc_set(
                                                            m.classes[ti].static_fields,
                                                            fr.1,
                                                            f.stack.last(),
                                                        ),
                                                        ..m.classes[ti]
                                                    }),
                                                ),
                                                frames: m.frames.update(
                                                    m.frames.len() - 1,
                                                    (FrameModel {
                                                        pc: p,
                                                        stack: f.stack.drop_last(),
                                                        ..f
                                                    }),
                                                ),
                                                ..m
                                            }),
                                        ),
                                    },
                                },
                            },
                        }
                    }
                },
                Instruction::GetField(index) => {
                    if n < 1 {
                        Err(ErrorKind::StackUnderflow)
                    } else if !(f.stack.last() is Reference) {
                        Err(ErrorKind::TypeError)
                    } else {
                        let orf = f.stack.last()->Reference_0 as int;
                        match cur_cp(m, f) {
                            None => Err(ErrorKind::ResolutionError),
                            Some(cp) => match cp_field_ref(cp, index as int) {
                                None => Err(ErrorKind::ResolutionError),
                                Some(fr) => {
                                    if orf >= m.heap.len() {
                                        Err(ErrorKind::IndexOutOfBounds)
                                    } else {
                                        match assoc_find(m.heap[orf].fields, fr.1) {
                                            None => Err(ErrorKind::ResolutionError),
                                            Some(v) => match pc_after(f) {
                                                Err(k) => Err(k),
                                                Ok(p) => Ok(
                                                    replace_top(
                                                        m,
                                                        (FrameModel {
                                                            pc: p,
                                                            stack: f.stack.drop_last().push(v),
                                                            ..f
                                                        }),
                                                    ),
                                                ),
                                            },
                                        }
                                    }
                                },
                            },
                        }
                    }
                },
                Instruction::PutField(index) => {
                    if n < 2 {
                        Err(ErrorKind::StackUnderflow)
                    } else {
                        let v = f.stack[n - 1];
                        let refv = f.stack[n - 2];
                        if !(refv is Reference) {
                            Err(ErrorKind::TypeError)
                        } else {
                            let orf = refv->Reference_0 as int;
                            match cur_cp(m, f) {
                                None => Err(ErrorKind::ResolutionError),
                                Some(cp) => match cp_field_ref(cp, index as int) {
                                    None => Err(ErrorKind::ResolutionError),
                                    Some(fr) => {
                                        if orf >= m.heap.len() {
                                            Err(ErrorKind::IndexOutOfBounds)
                                        } else {
                                            match pc_after(f) {
                                                Err(k) => Err(k),
                                                Ok(p) => Ok(
                                                    (JvmModel {
                                                        heap: m.heap.update(
                                                            orf,
                                                            (ObjectModel {
                                                                fields: assoc_set(
                                                                    m.heap[orf].fields,
                                                                    fr.1,
                                                                    v,
                                                                ),
                                                                ..m.heap[orf]
                                                            }),
                                                        ),
                                                        frames: m.frames.update(
                                                            m.frames.len() - 1,
                                                            (FrameModel {
                                                                pc: p,
                                                                stack: f.stack.subrange(0, n - 2),
                                                                ..f
                                                            }),
                                                        ),
                                                        ..m
                                                    }),
                                                ),
                                            }
                                        }
                                    },
                                },
                            }
                        }
                    }
                },
                Instruction::New(index) => match cur_cp(m, f) {
                    None => Err(ErrorKind::ResolutionError),
                    Some(cp) => match cp_class_name(cp, index as int) {
                        None => Err(ErrorKind::ResolutionError),
                        Some(cls) => match pc_after(f) {
                            Err(k) => Err(k),
                            Ok(p) => Ok(
                                (JvmModel {
                                    heap: m.heap.push(
                                        (ObjectModel { class_name: cls, fields: Seq::empty() }),
                                    ),
                                    frames: m.frames.update(
                                        m.frames.len() - 1,
                                        (FrameModel {
                                            pc: p,
                                            stack: f.stack.push(
                                                Primitive::Reference(m.heap.len() as usize),
                                            ),
                                            ..f
                                        }),
                                    ),
                                    ..m
                                }),
                            ),
                        },
                    },
                },
                Instruction::InvokeStatic(index) => match cur_cp(m, f) {
                    None => Err(ErrorKind::ResolutionError),
                    Some(cp) => match cp_method_ref(cp, index as int) {
                        None => Err(ErrorKind::ResolutionError),
                        Some(mr) => match class_index_of(m.classes, mr.0) {
                            None => Err(ErrorKind::ResolutionError),
                            Some(ti) => match desc_param_count(mr.2) {
                                None => Err(ErrorKind::ResolutionError),
                                Some(np) => match assoc_find(m.classes[ti].methods, mr.1 + mr.2) {
                                    None => Err(ErrorKind::ResolutionError),
                                    Some(meth) => {
                                        if meth.instructions.len() == 0 {
                                            Err(ErrorKind::ResolutionError)
                                        } else if n < np {
                                            Err(ErrorKind::StackUnderflow)
                                        } else {
                                            match pc_after(f) {
                                                Err(k) => Err(k),
                                                Ok(p) => Ok(
                                                    (JvmModel {
                                                        frames: m.frames.update(
                                                            m.frames.len() - 1,
                                                            (FrameModel {
                                                                pc: p,
                                                                stack: f.stack.subrange(0, n - np),
                                                                ..f
                                                            }),
                                                        ).push(
                                                            (FrameModel {
                                                                pc: 0,
                                                                locals: f.stack.subrange(
                                                                    n - np,
                                                                    n,
                                                                ),
                                                                arrays: Seq::empty(),
                                                                stack: Seq::empty(),
                                                                method: meth,
                                                                class_name: mr.0,
                                                            }),
                                                        ),
                                                        ..m
                                                    }),
                                                ),
                                            }
                                        }
                                    },
                                },
                            },
                        },
                    },
                },
                Instruction::InvokeVirtual(index) | Instruction::InvokeSpecial(index) => match cur_cp(
                    m,
                    f,
                ) {
                    None => Err(ErrorKind::ResolutionError),
                    Some(cp) => match cp_method_ref(cp, index as int) {
                        None => Err(ErrorKind::ResolutionError),
                        Some(mr) => match class_index_of(m.classes, mr.0) {
                            None => {
                                if mr.0 == "java/io/PrintStream"@ && mr.1 == "println"@ && mr.2
                                    == "(I)V"@ {
                                    if n < 2 {
                                        Err(ErrorKind::StackUnderflow)
                                    } else if !(f.stack[n - 1] is Int) {
                                        Err(ErrorKind::TypeError)
                                    } else {
                                        match pc_after(f) {
                                            Err(k) => Err(k),
                                            Ok(p) => Ok(
                                                (JvmModel {
                                                    stdout: m.stdout + text::int_str(
                                                        f.stack[n - 1]->Int_0 as int,
                                                    ),
                                                    frames: m.frames.update(
                                                        m.frames.len() - 1,
                                                        (FrameModel {
                                                            pc: p,
                                                            stack: f.stack.subrange(0, n - 2),
                                                            ..f
                                                        }),
                                                    ),
                                                    ..m
                                                }),
                                            ),
                                        }
                                    }
                                } else if desc_is_void(mr.2) {
                                    match desc_param_count(mr.2) {
                                        None => Err(ErrorKind::ResolutionError),
                                        Some(np) => {
                                            if n < np + 1 {
                                                Err(ErrorKind::StackUnderflow)
                                            } else {
                                                match pc_after(f) {
                                                    Err(k) => Err(k),
                                                    Ok(p) => Ok(
                                                        replace_top(
                                                            m,
                                                            (FrameModel {
                                                                pc: p,
                                                                stack: f.stack.subrange(
                                                                    0,
                                                                    n - np - 1,
                                                                ),
                                                                ..f
                                                            }),
                                                        ),
                                                    ),
                                                }
                                            }
                                        },
                                    }
                                } else {
                                    Err(ErrorKind::ResolutionError)
                                }
                            },
                            Some(ti) => match desc_param_count(mr.2) {
                                None => Err(ErrorKind::ResolutionError),
                                Some(np) => match assoc_find(m.classes[ti].methods, mr.1 + mr.2) {
                                    None => Err(ErrorKind::ResolutionError),
                                    Some(meth) => {
                                        if meth.instructions.len() == 0 {
                                            Err(ErrorKind::ResolutionError)
                                        } else if n < np + 1 {
                                            Err(ErrorKind::StackUnderflow)
                                        } else {
                                            match pc_after(f) {
                                                Err(k) => Err(k),
                                                Ok(p) => Ok(
                                                    (JvmModel {
                                                        frames: m.frames.update(
                                                            m.frames.len() - 1,
                                                            (FrameModel {
                                                                pc: p,
                                                                stack: f.stack.subrange(
                                                                    0,
                                                                    n - np - 1,
                                                                ),
                                                                ..f
                                                            }),
                                                        ).push(
                                                            (FrameModel {
                                                                pc: 0,
                                                                locals: f.stack.subrange(
                                                                    n - np - 1,
                                                                    n,
                                                                ),
                                                                arrays: Seq::empty(),
                                                                stack: Seq::empty(),
                                                                method: meth,
                                                                class_name: mr.0,
                                                            }),
                                                        ),
                                                        ..m
                                                    }),
                                                ),
                                            }
                                        }
                                    },
                                },
                            },
                        },
                    },
                },
                Instruction::Return(t) => {
                    if t is Null {
                        Ok((JvmModel { frames: m.frames.drop_last(), ..m }))
                    } else if n < 1 {
                        Err(ErrorKind::StackUnderflow)
                    } else if !is_type_spec(f.stack.last(), t) {
                        Err(ErrorKind::TypeError)
                    } else {
                        let rest = m.frames.drop_last();
                        if rest.len() == 0 {
                            Ok((JvmModel { frames: rest, ..m }))
                        } else {
                            let caller = rest.last();
                            Ok(
                                (JvmModel {
                                    frames: rest.update(
                                        rest.len() - 1,
                                        (FrameModel {
                                            stack: caller.stack.push(f.stack.last()),
                                            ..caller
                                        }),
                                    ),
                                    ..m
                                }),
                            )
                        }
                    }
                },
                _ => match frame_step_spec(f, inst) {
                    Ok(f2) => Ok(replace_top(m, f2)),
                    Err(k) => Err(k),
                },
            }
        }
    }
}


/// A frame's program counter sits on an instruction of its method.
pub open spec fn frame_wf(f: FrameModel) -> bool {
    0 <= f.pc < f.method.instructions.len()
}

/// Every frame of the machine is well-formed.
pub open spec fn jvm_wf(m: JvmModel) -> bool {
    forall|i: int| 0 <= i < m.frames.len() ==> frame_wf(#[trigger] m.frames[i])
}

/// The name of an error category, as the stack trace prints it.
pub open spec fn kind_name(k: ErrorKind) -> Seq<char> {
    match k {
        ErrorKind::ParseError => "ParseError"@,
        ErrorKind::ResolutionError => "ResolutionError"@,
        ErrorKind::TypeError => "TypeError"@,
        ErrorKind::StackUnderflow => "StackUnderflow"@,
        ErrorKind::IndexOutOfBounds => "IndexOutOfBounds"@,
        ErrorKind::ArithmeticError => "ArithmeticError"@,
        ErrorKind::Unimplemented => "Unimplemented"@,
    }
}

/// One line of a stack trace: the owning class and the decoded program
/// counter of a frame.
pub open spec fn trace_line(f: FrameModel) -> Seq<char> {
    "   at "@ + f.class_name + " / pc "@ + text::dec_str(f.pc as nat) + "\n"@
}

/// The lines of a stack trace, top frame first.
pub open spec fn trace_lines(frames: Seq<FrameModel>) -> Seq<char>
    decreases frames.len(),
{
    if frames.len() == 0 {
        Seq::empty()
    } else {
        trace_line(frames.last()) + trace_lines(frames.drop_last())
    }
}

/// The whole trace: the error's category and detail, then one line per
/// frame from the top of the frame stack down.
pub open spec fn trace_spec(m: JvmModel, e: JvmError) -> Seq<char> {
    "Exception "@ + kind_name(kind_of(e)) + ": "@ + detail_of(e)@ + "\n"@ + trace_lines(m.frames)
}

/// The trace lines of a non-empty suffix split off their oldest line.
proof fn lemma_trace_lines_unfold(s: Seq<FrameModel>)
    requires
        s.len() > 0,
    ensures
        trace_lines(s) == trace_lines(s.drop_first()) + trace_line(s[0]),
    decreases s.len(),
{
    if s.len() == 1 {
        assert(trace_lines(s) == trace_line(s.last()) + trace_lines(s.drop_last()));
        assert(s.drop_last().len() == 0);
        assert(trace_lines(s.drop_last()) == Seq::<char>::empty());
        assert(s.drop_first().len() == 0);
        assert(trace_lines(s.drop_first()) == Seq::<char>::empty());
        assert(s.last() == s[0]);
        assert(trace_lines(s) =~= trace_lines(s.drop_first()) + trace_line(s[0]));
    } else {
        let dl = s.drop_last();
        let df = s.drop_first();
        assert(trace_lines(s) == trace_line(s.last()) + trace_lines(dl));
        assert(trace_lines(df) == trace_line(df.last()) + trace_lines(df.drop_last()));
        assert(df.last() == s.last());
        assert(df.drop_last() =~= dl.drop_first());
        assert(dl[0] == s[0]);
        lemma_trace_lines_unfold(dl);
        assert(trace_lines(dl) == trace_lines(dl.drop_first()) + trace_line(s[0]));
        assert(trace_lines(s) =~= trace_lines(df) + trace_line(s[0]));
    }
}

/// The name of an error category.
fn kind_name_str(k: ErrorKind) -> (r: &'static str)
    ensures
        r@ == kind_name(k),
{
    match k {
        ErrorKind::ParseError => "ParseError",
        ErrorKind::ResolutionError => "ResolutionError",
        ErrorKind::TypeError => "TypeError",
        ErrorKind::StackUnderflow => "StackUnderflow",
        ErrorKind::IndexOutOfBounds => "IndexOutOfBounds",
        ErrorKind::ArithmeticError => "ArithmeticError",
        ErrorKind::Unimplemented => "Unimplemented",
    }
}

/// A successful step never shortens the output buffer: whatever it appends,
/// the old output stays a prefix of the new one.
pub proof fn lemma_step_stdout_grows(m: JvmModel)
    ensures
        step_spec(m) is Ok ==> m.stdout.is_prefix_of(step_spec(m)->Ok_0.stdout),
{
    if step_spec(m) is Ok {
        assert(m.stdout.is_prefix_of(m.stdout)) by {
            assert(m.stdout =~= m.stdout.subrange(0, m.stdout.len() as int));
        }
        assert forall|b: Seq<char>| m.stdout.is_prefix_of(#[trigger] (m.stdout + b)) by {
            assert(m.stdout =~= (m.stdout + b).subrange(0, m.stdout.len() as int));
        }
        assert(m.stdout.is_prefix_of(step_spec(m)->Ok_0.stdout));
    }
}


/// The method key of the program entry point.
pub open spec fn main_key() -> Seq<char> {
    "main([Ljava/lang/String;)V"@
}

/// The method key of a static initializer.
pub open spec fn clinit_key() -> Seq<char> {
    "<clinit>()V"@
}

/// A frame at the start of a method: program counter zero, empty operand
/// stack, no locals, no arrays.
pub open spec fn fresh_frame(meth: MethodModel, class_name: Seq<char>) -> FrameModel {
    FrameModel {
        pc: 0,
        locals: Seq::empty(),
        arrays: Seq::empty(),
        stack: Seq::empty(),
        method: meth,
        class_name,
    }
}

/// One fresh frame per class among the first `n` that defines the given
/// method key, in class order.
pub open spec fn boot_frames(classes: Seq<ClassModel>, key: Seq<char>, n: int) -> Seq<FrameModel>
    decreases n,
{
    if n <= 0 {
        Seq::empty()
    } else {
        boot_frames(classes, key, n - 1) + (match assoc_find(classes[n - 1].methods, key) {
            Some(meth) => seq![fresh_frame(meth, classes[n - 1].name)],
            None => Seq::empty(),
        })
    }
}

/// Every class that defines the key gives it a non-empty body, so its entry
/// frame starts on an instruction.
pub open spec fn boot_ok(classes: Seq<ClassModel>, key: Seq<char>) -> bool {
    forall|i: int|
        0 <= i < classes.len() ==> (match #[trigger] assoc_find(classes[i].methods, key) {
            Some(meth) => meth.instructions.len() > 0,
            None => true,
        })
}

/// Both entry keys are bootable.
pub open spec fn boot_wf(classes: Seq<ClassModel>) -> bool {
    boot_ok(classes, main_key()) && boot_ok(classes, clinit_key())
}

/// The machine after loading the entry frames: one frame per `main`, then
/// one per static initializer on top of them, so the initializers run
/// first.
pub open spec fn boot(m: JvmModel) -> JvmModel {
    JvmModel {
        frames: m.frames + boot_frames(m.classes, main_key(), m.classes.len() as int)
            + boot_frames(m.classes, clinit_key(), m.classes.len() as int),
        ..m
    }
}

/// How many instructions `run` executes before giving up on a program that
/// never finishes.
pub const STEP_BUDGET: u64 = 0x1_0000_0000;

/// The machine after `k` successful steps; `None` when any of them fails.
pub open spec fn steps(m: JvmModel, k: nat) -> Option<JvmModel>
    decreases k,
{
    if k == 0 {
        Some(m)
    } else {
        match step_spec(m) {
            Ok(m2) => steps(m2, (k - 1) as nat),
            Err(_e) => None,
        }
    }
}

/// A step chain extended by one more successful step.
pub proof fn lemma_steps_snoc(m: JvmModel, k: nat)
    requires
        steps(m, k) is Some,
        step_spec(steps(m, k)->Some_0) is Ok,
    ensures
        steps(m, k + 1) == Some(step_spec(steps(m, k)->Some_0)->Ok_0),
    decreases k,
{
    if k == 0 {
        assert(steps(m, 0) == Some(m));
        assert(steps(m, 1) == steps(step_spec(m)->Ok_0, 0));
    } else {
        lemma_steps_snoc(step_spec(m)->Ok_0, (k - 1) as nat);
        assert(steps(m, k + 1) == steps(step_spec(m)->Ok_0, k));
        assert(steps(m, k) == steps(step_spec(m)->Ok_0, (k - 1) as nat));
    }
}

/// Step chains compose: after `j + k` steps the machine is `k` steps past
/// where it was after `j`.
pub proof fn lemma_steps_compose(m: JvmModel, j: nat, k: nat)
    requires
        steps(m, j) is Some,
    ensures
        steps(m, j + k) == steps(steps(m, j)->Some_0, k),
    decreases j,
{
    if j > 0 {
        lemma_steps_compose(step_spec(m)->Ok_0, (j - 1) as nat, k);
    }
}

/// A non-empty-frames prefix of a step chain, extended by one more state
/// whose frames are live.
pub proof fn lemma_live_prefix_extend(b: JvmModel, j: nat)
    requires
        forall|k2: nat|
            k2 < j ==> #[trigger] steps(b, k2) is Some && steps(b, k2)->Some_0.frames.len() > 0,
        steps(b, j) is Some,
        steps(b, j)->Some_0.frames.len() > 0,
    ensures
        forall|k2: nat|
            k2 < j + 1 ==> #[trigger] steps(b, k2) is Some && steps(b, k2)->Some_0.frames.len()
                > 0,
{
    assert forall|k2: nat|
        k2 < j + 1 implies #[trigger] steps(b, k2) is Some && steps(b, k2)->Some_0.frames.len()
        > 0 by {
        if k2 < j {
        }
    }
}

/// When every state reached so far kept live frames and the chain now fails
/// or stops with live frames, no reachable state has an empty frame stack.
pub proof fn lemma_no_empty_state_reachable(b: JvmModel, j: nat, failed: bool)
    requires
        steps(b, j) is Some,
        forall|k2: nat|
            k2 < j ==> #[trigger] steps(b, k2) is Some && steps(b, k2)->Some_0.frames.len() > 0,
        steps(b, j)->Some_0.frames.len() > 0,
        failed ==> step_spec(steps(b, j)->Some_0) is Err,
    ensures
        forall|k: nat|
            (failed || k <= j) && #[trigger] steps(b, k) is Some ==> steps(
                b,
                k,
            )->Some_0.frames.len() > 0,
{
    assert forall|k: nat|
        (failed || k <= j) && #[trigger] steps(b, k) is Some implies steps(
        b,
        k,
    )->Some_0.frames.len() > 0 by {
        if k < j {
        } else if k == j {
        } else {
            lemma_steps_compose(b, j, (k - j) as nat);
            assert(steps(steps(b, j)->Some_0, (k - j) as nat) is None);
        }
    }
}

/// The class list with duplicate names resolved the way a name-keyed map
/// resolves them: of classes sharing a name, the last loaded survives.
pub open spec fn dedup_classes(s: Seq<ClassModel>) -> Seq<ClassModel>
    decreases s.len(),
{
    if s.len() == 0 {
        Seq::empty()
    } else if class_index_of(s.drop_first(), s[0].name) is Some {
        dedup_classes(s.drop_first())
    } else {
        seq![s[0]] + dedup_classes(s.drop_first())
    }
}

/// No two classes of the list share a name.
pub open spec fn class_names_unique(s: Seq<ClassModel>) -> bool {
    forall|i: int, j: int|
        0 <= i < j < s.len() ==> (#[trigger] s[i]).name != (#[trigger] s[j]).name
}

/// A found class index is in range and names the class searched for.
pub proof fn lemma_class_index_of_some(classes: Seq<ClassModel>, name: Seq<char>)
    requires
        class_index_of(classes, name) is Some,
    ensures
        0 <= class_index_of(classes, name)->Some_0 < classes.len(),
        classes[class_index_of(classes, name)->Some_0].name == name,
    decreases classes.len(),
{
    if classes.len() > 0 && classes[0].name != name {
        lemma_class_index_of_some(classes.drop_first(), name);
        assert(classes.drop_first()[class_index_of(classes.drop_first(), name)->Some_0]
            == classes[class_index_of(classes, name)->Some_0]);
    }
}

/// A name the index search misses is absent altogether.
proof fn lemma_class_index_of_absent(classes: Seq<ClassModel>, name: Seq<char>)
    requires
        class_index_of(classes, name) is None,
    ensures
        forall|j: int| 0 <= j < classes.len() ==> (#[trigger] classes[j]).name != name,
    decreases classes.len(),
{
    if classes.len() > 0 {
        lemma_class_index_of_absent(classes.drop_first(), name);
        assert forall|j: int| 0 <= j < classes.len() implies (#[trigger] classes[j]).name
            != name by {
            if j > 0 {
                assert(classes.drop_first()[j - 1] == classes[j]);
            }
        }
    }
}

/// Every class the deduplication keeps has the name of some input class.
proof fn lemma_dedup_classes_from(s: Seq<ClassModel>)
    ensures
        forall|i: int|
            0 <= i < dedup_classes(s).len() ==> (exists|j: int|
                0 <= j < s.len() && (#[trigger] dedup_classes(s)[i]).name == s[j].name),
    decreases s.len(),
{
    if s.len() > 0 {
        let d = s.drop_first();
        lemma_dedup_classes_from(d);
        assert forall|i: int| 0 <= i < dedup_classes(s).len() implies (exists|j: int|
            0 <= j < s.len() && (#[trigger] dedup_classes(s)[i]).name == s[j].name) by {
            if class_index_of(d, s[0].name) is Some {
                assert(dedup_classes(s)[i] == dedup_classes(d)[i]);
                let j0 = choose|j: int|
                    0 <= j < d.len() && (dedup_classes(d)[i]).name == d[j].name;
                assert(s[j0 + 1] == d[j0]);
            } else {
                if i == 0 {
                    assert(dedup_classes(s)[0] == s[0]);
                } else {
                    assert(dedup_classes(s)[i] == dedup_classes(d)[i - 1]);
                    let j0 = choose|j: int|
                        0 <= j < d.len() && (dedup_classes(d)[i - 1]).name == d[j].name;
                    assert(s[j0 + 1] == d[j0]);
                }
            }
        }
    }
}

/// Deduplication leaves each class name at most once.
proof fn lemma_dedup_classes_unique(s: Seq<ClassModel>)
    ensures
        class_names_unique(dedup_classes(s)),
    decreases s.len(),
{
    if s.len() > 0 {
        let d = s.drop_first();
        lemma_dedup_classes_unique(d);
        if class_index_of(d, s[0].name) is Some {
        } else {
            lemma_class_index_of_absent(d, s[0].name);
            lemma_dedup_classes_from(d);
            assert forall|i: int, j: int|
                0 <= i < j < dedup_classes(s).len() implies (#[trigger] dedup_classes(s)[i]).name
                != (#[trigger] dedup_classes(s)[j]).name by {
                if i == 0 {
                    assert(dedup_classes(s)[j] == dedup_classes(d)[j - 1]);
                    let j0 = choose|x: int|
                        0 <= x < d.len() && (dedup_classes(d)[j - 1]).name == d[x].name;
                    assert(d[j0].name != s[0].name);
                } else {
                    assert(dedup_classes(s)[i] == dedup_classes(d)[i - 1]);
                    assert(dedup_classes(s)[j] == dedup_classes(d)[j - 1]);
                }
            }
        }
    }
}

/// No two bindings of an association table share a key.
pub open spec fn assoc_keys_unique<V>(s: Seq<(Seq<char>, V)>) -> bool {
    forall|i: int, j: int| 0 <= i < j < s.len() ==> (#[trigger] s[i]).0 != (#[trigger] s[j]).0
}

/// Binding a key keeps the keys unique, and introduces no key but the bound
/// one: the uniqueness the original name-keyed maps gave static fields and
/// instance fields is an invariant of `assoc_set`.
pub proof fn lemma_assoc_set_keys_unique<V>(s: Seq<(Seq<char>, V)>, k: Seq<char>, v: V)
    requires
        assoc_keys_unique(s),
    ensures
        assoc_keys_unique(assoc_set(s, k, v)),
        forall|i: int|
            0 <= i < assoc_set(s, k, v).len() ==> ((#[trigger] assoc_set(s, k, v)[i]).0 == k || (
            exists|j: int| 0 <= j < s.len() && assoc_set(s, k, v)[i].0 == s[j].0)),
    decreases s.len(),
{
    let r = assoc_set(s, k, v);
    if s.len() == 0 {
        assert(r =~= seq![(k, v)]);
    } else {
        let d = s.drop_first();
        assert forall|i: int, j: int| 0 <= i < j < d.len() implies (#[trigger] d[i]).0
            != (#[trigger] d[j]).0 by {
            assert(d[i] == s[i + 1]);
            assert(d[j] == s[j + 1]);
        }
        if s[0].0 == k {
            assert(r =~= seq![(k, v)] + d);
            assert forall|i: int, j: int| 0 <= i < j < r.len() implies (#[trigger] r[i]).0
                != (#[trigger] r[j]).0 by {
                if i == 0 {
                    assert(r[j] == s[j]);
                } else {
                    assert(r[i] == s[i]);
                    assert(r[j] == s[j]);
                }
            }
            assert forall|i: int| 0 <= i < r.len() implies ((#[trigger] r[i]).0 == k || (exists|
                j: int,
            | 0 <= j < s.len() && r[i].0 == s[j].0)) by {
                if i > 0 {
                    assert(r[i] == s[i]);
                }
            }
        } else {
            lemma_assoc_set_keys_unique(d, k, v);
            let rd = assoc_set(d, k, v);
            assert(r =~= seq![s[0]] + rd);
            assert forall|i: int, j: int| 0 <= i < j < r.len() implies (#[trigger] r[i]).0
                != (#[trigger] r[j]).0 by {
                if i == 0 {
                    assert(r[j] == rd[j - 1]);
                    if rd[j - 1].0 == k {
                    } else {
                        let j0 = choose|x: int| 0 <= x < d.len() && rd[j - 1].0 == d[x].0;
                        assert(d[j0] == s[j0 + 1]);
                    }
                } else {
                    assert(r[i] == rd[i - 1]);
                    assert(r[j] == rd[j - 1]);
                }
            }
            assert forall|i: int| 0 <= i < r.len() implies ((#[trigger] r[i]).0 == k || (exists|
                j: int,
            | 0 <= j < s.len() && r[i].0 == s[j].0)) by {
                if i == 0 {
                    assert(r[0] == s[0]);
                } else {
                    assert(r[i] == rd[i - 1]);
                    if rd[i - 1].0 == k {
                    } else {
                        let j0 = choose|x: int| 0 <= x < d.len() && rd[i - 1].0 == d[x].0;
                        assert(d[j0] == s[j0 + 1]);
                    }
                }
            }
        }
    }
}

impl Jvm {
    /// A machine loaded with the given classes: empty heap, no frames, and
    /// an empty output buffer. The class area is keyed by name: of several
    /// classes sharing one, the last loaded wins, and the loaded list holds
    /// each name once.
    pub fn new(classes: Vec<Class>) -> (jvm: Jvm)
        ensures
            jvm@.classes == dedup_classes(classes_view(classes@)),
            class_names_unique(jvm@.classes),
            jvm@.heap == Seq::<ObjectModel>::empty(),
            jvm@.frames == Seq::<FrameModel>::empty(),
            jvm@.stdout == Seq::<char>::empty(),
    {
        let ghost all: Seq<Class> = classes@;
        let mut rest = classes;
        let mut kept: Vec<Class> = Vec::new();
        while rest.len() > 0
            invariant
                classes_view(kept@) + dedup_classes(classes_view(rest@)) == dedup_classes(
                    classes_view(all),
                ),
            decreases rest@.len(),
        {
            let ghost before = classes_view(rest@);
            let ghost kept_before = classes_view(kept@);
            let c = rest.remove(0);
            proof {
                assert(classes_view(rest@) =~= before.drop_first());
                assert(before[0] == c@);
            }
            let dup = match find_class_index(&rest, c.name.as_str()) {
                Some(_i) => true,
                None => false,
            };
            if !dup {
                kept.push(c);
                proof {
                    assert(classes_view(kept@) =~= kept_before.push(before[0]));
                }
            }
            proof {
                assert(classes_view(kept@) + dedup_classes(classes_view(rest@)) =~= dedup_classes(
                    classes_view(all),
                ));
            }
        }
        proof {
            assert(classes_view(rest@).len() == 0);
            assert(dedup_classes(classes_view(rest@)) == Seq::<ClassModel>::empty());
            assert(classes_view(kept@) =~= dedup_classes(classes_view(all)));
            lemma_dedup_classes_unique(classes_view(all));
        }
        let jvm = Jvm {
            class_area: kept,
            heap: Vec::new(),
            stack_frames: Vec::new(),
            stdout: String::new(),
        };
        proof {
            assert(jvm@.heap =~= Seq::<ObjectModel>::empty());
            assert(jvm@.frames =~= Seq::<FrameModel>::empty());
        }
        jvm
    }

    /// The report for an error: its category and detail, then one line per
    /// frame, top of the stack first, naming the owning class and the
    /// decoded program counter.
    pub fn stack_trace(&self, exception: &JvmError) -> (s: String)
        ensures
            s@ == trace_spec(self@, *exception),
    {
        let mut s = String::from_str("Exception ");
        s.append(kind_name_str(exception.kind()));
        s.append(": ");
        s.append(exception.detail().as_str());
        s.append("\n");
        let ghost header: Seq<char> = s@;
        let nf = self.stack_frames.len();
        let mut i: usize = nf;
        while i > 0
            invariant
                0 <= i <= nf,
                nf == self.stack_frames@.len(),
                header == "Exception "@ + kind_name(kind_of(*exception)) + ": "@ + detail_of(
                    *exception,
                )@ + "\n"@,
                s@ == header + trace_lines(self@.frames.subrange(i as int, nf as int)),
            decreases i,
        {
            i = i - 1;
            let fr = &self.stack_frames[i];
            s.append("   at ");
            s.append(fr.class_name.as_str());
            s.append(" / pc ");
            let pcs = text::usize_to_string(fr.pc);
            s.append(pcs.as_str());
            s.append("\n");
            proof {
                let frames = self@.frames;
                lemma_trace_lines_unfold(frames.subrange(i as int, nf as int));
                assert(frames.subrange(i as int, nf as int).drop_first() =~= frames.subrange(
                    i + 1,
                    nf as int,
                ));
                assert(frames.subrange(i as int, nf as int)[0] == frames[i as int]);
                assert(s@ =~= header + trace_lines(frames.subrange(i as int, nf as int)));
            }
        }
        proof {
            assert(self@.frames.subrange(0, nf as int) =~= self@.frames);
            assert(s@ =~= trace_spec(self@, *exception));
        }
        s
    }

    /// Executes one instruction: exactly `step_spec` of the machine's
    /// model. On an error of any kind the machine is left unchanged.
    #[verifier::rlimit(100)]
    #[verifier::spinoff_prover]
    pub fn step(&mut self) -> (r: Result<(), JvmError>)
        ensures
            step_spec(old(self)@) is Ok ==> r is Ok && final(self)@ == step_spec(old(self)@)->Ok_0,
            step_spec(old(self)@) is Err ==> r is Err && kind_of(r->Err_0) == step_spec(
                old(self)@,
            )->Err_0 && final(self)@ == old(self)@,
    {
        if self.stack_frames.len() == 0 {
            return Err(crate::error::err_underflow("no stack frames"));
        }
        let mut frame = self.stack_frames.pop().unwrap();
        if frame.pc >= frame.method.instructions.len() {
            let e = crate::error::err_index("no instruction at current pc");
            self.stack_frames.push(frame);
            proof {
                assert(self@ =~~= old(self)@);
            }
            return Err(e);
        }
        let inst = frame.method.instructions[frame.pc];
        match inst {
            Instruction::LoadConst(index) => {
                let ci = match find_class_index(&self.class_area, frame.class_name.as_str()) {
                    Some(ci) => ci,
                    None => {
                        let e = crate::error::err_resolution("class of current frame not loaded");
                        self.stack_frames.push(frame);
                        proof {
                            assert(self@ =~~= old(self)@);
                        }
                        return Err(e);
                    },
                };
                if index < 1 || index > self.class_area[ci].constant_pool.len() {
                    let e = crate::error::err_resolution("constant pool index out of range");
                    self.stack_frames.push(frame);
                    proof {
                        assert(self@ =~~= old(self)@);
                    }
                    return Err(e);
                }
                let p = match self.class_area[ci].constant_pool[index - 1].get_primitive() {
                    Ok(p) => p,
                    Err(e) => {
                        self.stack_frames.push(frame);
                        proof {
                            assert(self@ =~~= old(self)@);
                        }
                        return Err(e);
                    },
                };
                match bump_pc(&mut frame) {
                    Ok(()) => {},
                    Err(e) => {
                        self.stack_frames.push(frame);
                        proof {
                            assert(self@ =~~= old(self)@);
                        }
                        return Err(e);
                    },
                }
                frame.stack.push(p);
                self.stack_frames.push(frame);
                proof {
                    assert(self@ =~~= step_spec(old(self)@)->Ok_0);
                }
                Ok(())
            },
            Instruction::GetStatic(index) => {
                let ci = match find_class_index(&self.class_area, frame.class_name.as_str()) {
                    Some(ci) => ci,
                    None => {
                        let e = crate::error::err_resolution("class of current frame not loaded");
                        self.stack_frames.push(frame);
                        proof {
                            assert(self@ =~~= old(self)@);
                        }
                        return Err(e);
                    },
                };
                let fr = match ConstantPoolEntry::field_ref_parser(
                    index,
                    self.class_area[ci].constant_pool.as_slice(),
                ) {
                    Ok(t) => t,
                    Err(e) => {
                        self.stack_frames.push(frame);
                        proof {
                            assert(self@ =~~= old(self)@);
                        }
                        return Err(e);
                    },
                };
                let (cls, fld, _ft) = fr;
                match find_class_index(&self.class_area, cls.as_str()) {
                    Some(ti) => {
                        let v = match assoc_get(&self.class_area[ti].static_fields, &fld) {
                            Some(v) => v,
                            None => {
                                let e = crate::error::err_resolution("static field not found");
                                self.stack_frames.push(frame);
                                proof {
                                    assert(self@ =~~= old(self)@);
                                }
                                return Err(e);
                            },
                        };
                        match bump_pc(&mut frame) {
                            Ok(()) => {},
                            Err(e) => {
                                self.stack_frames.push(frame);
                                proof {
                                    assert(self@ =~~= old(self)@);
                                }
                                return Err(e);
                            },
                        }
                        frame.stack.push(v);
                        self.stack_frames.push(frame);
                        proof {
                            assert(self@ =~~= step_spec(old(self)@)->Ok_0);
                        }
                        Ok(())
                    },
                    None => {
                        if text::string_eq_str(&cls, "java/lang/System") {
                            match bump_pc(&mut frame) {
                                Ok(()) => {},
                                Err(e) => {
                                    self.stack_frames.push(frame);
                                    proof {
                                        assert(self@ =~~= old(self)@);
                                    }
                                    return Err(e);
                                },
                            }
                            frame.stack.push(Primitive::Null);
                            self.stack_frames.push(frame);
                            proof {
                                assert(self@ =~~= step_spec(old(self)@)->Ok_0);
                            }
                            Ok(())
                        } else {
                            let e = crate::error::err_resolution("static field owner not loaded");
                            self.stack_frames.push(frame);
                            proof {
                                assert(self@ =~~= old(self)@);
                            }
                            Err(e)
                        }
                    },
                }
            },
            Instruction::PutStatic(index) => {
                let n = frame.stack.len();
                if n < 1 {
                    let e = crate::error::err_underflow("putstatic on an empty operand stack");
                    self.stack_frames.push(frame);
                    proof {
                        assert(self@ =~~= old(self)@);
                    }
                    return Err(e);
                }
                let ci = match find_class_index(&self.class_area, frame.class_name.as_str()) {
                    Some(ci) => ci,
                    None => {
                        let e = crate::error::err_resolution("class of current frame not loaded");
                        self.stack_frames.push(frame);
                        proof {
                            assert(self@ =~~= old(self)@);
                        }
                        return Err(e);
                    },
                };
                let fr = match ConstantPoolEntry::field_ref_parser(
                    index,
                    self.class_area[ci].constant_pool.as_slice(),
                ) {
                    Ok(t) => t,
                    Err(e) => {
                        self.stack_frames.push(frame);
                        proof {
                            assert(self@ =~~= old(self)@);
                        }
                        return Err(e);
                    },
                };
                let (cls, fld, _ft) = fr;
                let ti = match find_class_index(&self.class_area, cls.as_str()) {
                    Some(ti) => ti,
                    None => {
                        let e = crate::error::err_resolution("unable to find class");
                        self.stack_frames.push(frame);
                        proof {
                            assert(self@ =~~= old(self)@);
                        }
                        return Err(e);
                    },
                };
                match bump_pc(&mut frame) {
                    Ok(()) => {},
                    Err(e) => {
                        self.stack_frames.push(frame);
                        proof {
                            assert(self@ =~~= old(self)@);
                        }
                        return Err(e);
                    },
                }
                let v = frame.stack[n - 1];
                frame.stack.truncate(n - 1);
                let mut c = self.class_area.remove(ti);
                assoc_put(&mut c.static_fields, fld, v);
                self.class_area.insert(ti, c);
                self.stack_frames.push(frame);
                proof {
                    assert(classes_view(self.class_area@) =~~= step_spec(
                        old(self)@,
                    )->Ok_0.classes);
                    assert(self@ =~~= step_spec(old(self)@)->Ok_0);
                }
                Ok(())
            },
            Instruction::GetField(index) => {
                let n = frame.stack.len();
                if n < 1 {
                    let e = crate::error::err_underflow("getfield on an empty operand stack");
                    self.stack_frames.push(frame);
                    proof {
                        assert(self@ =~~= old(self)@);
                    }
                    return Err(e);
                }
                let orf = match frame.stack[n - 1] {
                    Primitive::Reference(x) => x,
                    _ => {
                        let e = crate::error::err_type("getfield target is not a reference");
                        self.stack_frames.push(frame);
                        proof {
                            assert(self@ =~~= old(self)@);
                        }
                        return Err(e);
                    },
                };
                let ci = match find_class_index(&self.class_area, frame.class_name.as_str()) {
                    Some(ci) => ci,
                    None => {
                        let e = crate::error::err_resolution("class of current frame not loaded");
                        self.stack_frames.push(frame);
                        proof {
                            assert(self@ =~~= old(self)@);
                        }
                        return Err(e);
                    },
                };
                let fr = match ConstantPoolEntry::field_ref_parser(
                    index,
                    self.class_area[ci].constant_pool.as_slice(),
                ) {
                    Ok(t) => t,
                    Err(e) => {
                        self.stack_frames.push(frame);
                        proof {
                            assert(self@ =~~= old(self)@);
                        }
                        return Err(e);
                    },
                };
                let (_cls, fld, _ft) = fr;
                if orf >= self.heap.len() {
                    let e = crate::error::err_index("object reference out of range");
                    self.stack_frames.push(frame);
                    proof {
                        assert(self@ =~~= old(self)@);
                    }
                    return Err(e);
                }
                let v = match assoc_get(&self.heap[orf].fields, &fld) {
                    Some(v) => v,
                    None => {
                        let e = crate::error::err_resolution("instance field not found");
                        self.stack_frames.push(frame);
                        proof {
                            assert(self@ =~~= old(self)@);
                        }
                        return Err(e);
                    },
                };
                match bump_pc(&mut frame) {
                    Ok(()) => {},
                    Err(e) => {
                        self.stack_frames.push(frame);
                        proof {
                            assert(self@ =~~= old(self)@);
                        }
                        return Err(e);
                    },
                }
                frame.stack.truncate(n - 1);
                frame.stack.push(v);
                self.stack_frames.push(frame);
                proof {
                    assert(self@ =~~= step_spec(old(self)@)->Ok_0);
                }
                Ok(())
            },
            Instruction::PutField(index) => {
                let n = frame.stack.len();
                if n < 2 {
                    let e = crate::error::err_underflow("putfield on a short operand stack");
                    self.stack_frames.push(frame);
                    proof {
                        assert(self@ =~~= old(self)@);
                    }
                    return Err(e);
                }
                let v = frame.stack[n - 1];
                let orf = match frame.stack[n - 2] {
                    Primitive::Reference(x) => x,
                    _ => {
                        let e = crate::error::err_type("putfield target is not a reference");
                        self.stack_frames.push(frame);
                        proof {
                            assert(self@ =~~= old(self)@);
                        }
                        return Err(e);
                    },
                };
                let ci = match find_class_index(&self.class_area, frame.class_name.as_str()) {
                    Some(ci) => ci,
                    None => {
                        let e = crate::error::err_resolution("class of current frame not loaded");
                        self.stack_frames.push(frame);
                        proof {
                            assert(self@ =~~= old(self)@);
                        }
                        return Err(e);
                    },
                };
                let fr = match ConstantPoolEntry::field_ref_parser(
                    index,
                    self.class_area[ci].constant_pool.as_slice(),
                ) {
                    Ok(t) => t,
                    Err(e) => {
                        self.stack_frames.push(frame);
                        proof {
                            assert(self@ =~~= old(self)@);
                        }
                        return Err(e);
                    },
                };
                let (_cls, fld, _ft) = fr;
                if orf >= self.heap.len() {
                    let e = crate::error::err_index("object reference out of range");
                    self.stack_frames.push(frame);
                    proof {
                        assert(self@ =~~= old(self)@);
                    }
                    return Err(e);
                }
                match bump_pc(&mut frame) {
                    Ok(()) => {},
                    Err(e) => {
                        self.stack_frames.push(frame);
                        proof {
                            assert(self@ =~~= old(self)@);
                        }
                        return Err(e);
                    },
                }
                frame.stack.truncate(n - 2);
                let mut o = self.heap.remove(orf);
                assoc_put(&mut o.fields, fld, v);
                self.heap.insert(orf, o);
                self.stack_frames.push(frame);
                proof {
                    assert(self@.heap =~~= step_spec(old(self)@)->Ok_0.heap);
                    assert(self@ =~~= step_spec(old(self)@)->Ok_0);
                }
                Ok(())
            },
            Instruction::New(index) => {
                let ci = match find_class_index(&self.class_area, frame.class_name.as_str()) {
                    Some(ci) => ci,
                    None => {
                        let e = crate::error::err_resolution("class of current frame not loaded");
                        self.stack_frames.push(frame);
                        proof {
                            assert(self@ =~~= old(self)@);
                        }
                        return Err(e);
                    },
                };
                let cls = match ConstantPoolEntry::class_parser(
                    index,
                    self.class_area[ci].constant_pool.as_slice(),
                ) {
                    Ok(c) => c,
                    Err(e) => {
                        self.stack_frames.push(frame);
                        proof {
                            assert(self@ =~~= old(self)@);
                        }
                        return Err(e);
                    },
                };
                match bump_pc(&mut frame) {
                    Ok(()) => {},
                    Err(e) => {
                        self.stack_frames.push(frame);
                        proof {
                            assert(self@ =~~= old(self)@);
                        }
                        return Err(e);
                    },
                }
                let href = self.heap.len();
                self.heap.push(Object { class_name: cls, fields: Vec::new() });
                frame.stack.push(Primitive::Reference(href));
                self.stack_frames.push(frame);
                proof {
                    assert(self@.heap =~~= step_spec(old(self)@)->Ok_0.heap);
                    assert(self@ =~~= step_spec(old(self)@)->Ok_0);
                }
                Ok(())
            },
            Instruction::InvokeStatic(index) => {
                let ci = match find_class_index(&self.class_area, frame.class_name.as_str()) {
                    Some(ci) => ci,
                    None => {
                        let e = crate::error::err_resolution("class of current frame not loaded");
                        self.stack_frames.push(frame);
                        proof {
                            assert(self@ =~~= old(self)@);
                        }
                        return Err(e);
                    },
                };
                let mr = match ConstantPoolEntry::method_ref_parser(
                    index,
                    self.class_area[ci].constant_pool.as_slice(),
                ) {
                    Ok(t) => t,
                    Err(e) => {
                        self.stack_frames.push(frame);
                        proof {
                            assert(self@ =~~= old(self)@);
                        }
                        return Err(e);
                    },
                };
                let (cls, mname, mdesc) = mr;
                let ti = match find_class_index(&self.class_area, cls.as_str()) {
                    Some(ti) => ti,
                    None => {
                        let e = crate::error::err_resolution("method owner not loaded");
                        self.stack_frames.push(frame);
                        proof {
                            assert(self@ =~~= old(self)@);
                        }
                        return Err(e);
                    },
                };
                let np = match descriptor_param_count(mdesc.as_str()) {
                    Some(np) => np,
                    None => {
                        let e = crate::error::err_resolution("malformed method descriptor");
                        self.stack_frames.push(frame);
                        proof {
                            assert(self@ =~~= old(self)@);
                        }
                        return Err(e);
                    },
                };
                let key = mname.concat(mdesc.as_str());
                let meth = match methods_get(&self.class_area[ti].methods, &key) {
                    Some(meth) => meth,
                    None => {
                        let e = crate::error::err_resolution("method not found");
                        self.stack_frames.push(frame);
                        proof {
                            assert(self@ =~~= old(self)@);
                        }
                        return Err(e);
                    },
                };
                if meth.instructions.len() == 0 {
                    let e = crate::error::err_resolution("method has no code");
                    self.stack_frames.push(frame);
                    proof {
                        assert(self@ =~~= old(self)@);
                    }
                    return Err(e);
                }
                let n = frame.stack.len();
                if n < np {
                    let e = crate::error::err_underflow("missing method arguments");
                    self.stack_frames.push(frame);
                    proof {
                        assert(self@ =~~= old(self)@);
                    }
                    return Err(e);
                }
                match bump_pc(&mut frame) {
                    Ok(()) => {},
                    Err(e) => {
                        self.stack_frames.push(frame);
                        proof {
                            assert(self@ =~~= old(self)@);
                        }
                        return Err(e);
                    },
                }
                let locals = frame.stack.split_off(n - np);
                self.stack_frames.push(frame);
                self.stack_frames.push(
                    StackFrame {
                        pc: 0,
                        locals,
                        arrays: Vec::new(),
                        stack: Vec::new(),
                        method: meth,
                        class_name: cls,
                    },
                );
                proof {
                    assert(self@.frames =~~= step_spec(old(self)@)->Ok_0.frames);
                    assert(self@ =~~= step_spec(old(self)@)->Ok_0);
                }
                Ok(())
            },
            Instruction::InvokeVirtual(index) | Instruction::InvokeSpecial(index) => {
                let ci = match find_class_index(&self.class_area, frame.class_name.as_str()) {
                    Some(ci) => ci,
                    None => {
                        let e = crate::error::err_resolution("class of current frame not loaded");
                        self.stack_frames.push(frame);
                        proof {
                            assert(self@ =~~= old(self)@);
                        }
                        return Err(e);
                    },
                };
                let mr = match ConstantPoolEntry::method_ref_parser(
                    index,
                    self.class_area[ci].constant_pool.as_slice(),
                ) {
                    Ok(t) => t,
                    Err(e) => {
                        self.stack_frames.push(frame);
                        proof {
                            assert(self@ =~~= old(self)@);
                        }
                        return Err(e);
                    },
                };
                let (cls, mname, mdesc) = mr;
                match find_class_index(&self.class_area, cls.as_str()) {
                    None => {
                        let intrinsic = text::string_eq_str(&cls, "java/io/PrintStream")
                            && text::string_eq_str(&mname, "println") && text::string_eq_str(
                            &mdesc,
                            "(I)V",
                        );
                        if intrinsic {
                            let n = frame.stack.len();
                            if n < 2 {
                                let e = crate::error::err_underflow(
                                    "println needs a receiver and an argument",
                                );
                                self.stack_frames.push(frame);
                                proof {
                                    assert(self@ =~~= old(self)@);
                                }
                                return Err(e);
                            }
                            let v = match frame.stack[n - 1] {
                                Primitive::Int(v) => v,
                                _ => {
                                    let e = crate::error::err_type(
                                        "println argument is not an int",
                                    );
                                    self.stack_frames.push(frame);
                                    proof {
                                        assert(self@ =~~= old(self)@);
                                    }
                                    return Err(e);
                                },
                            };
                            match bump_pc(&mut frame) {
                                Ok(()) => {},
                                Err(e) => {
                                    self.stack_frames.push(frame);
                                    proof {
                                        assert(self@ =~~= old(self)@);
                                    }
                                    return Err(e);
                                },
                            }
                            let printed = text::int_to_string(v as i64);
                            self.stdout.append(printed.as_str());
                            frame.stack.truncate(n - 2);
                            self.stack_frames.push(frame);
                            proof {
                                assert(self@ =~~= step_spec(old(self)@)->Ok_0);
                            }
                            Ok(())
                        } else {
                            let void = descriptor_is_void(mdesc.as_str());
                            if void {
                                let np = match descriptor_param_count(mdesc.as_str()) {
                                    Some(np) => np,
                                    None => {
                                        let e = crate::error::err_resolution(
                                            "malformed method descriptor",
                                        );
                                        self.stack_frames.push(frame);
                                        proof {
                                            assert(self@ =~~= old(self)@);
                                        }
                                        return Err(e);
                                    },
                                };
                                let n = frame.stack.len();
                                if n == 0 || n - 1 < np {
                                    let e = crate::error::err_underflow(
                                        "missing receiver or arguments",
                                    );
                                    self.stack_frames.push(frame);
                                    proof {
                                        assert(self@ =~~= old(self)@);
                                    }
                                    return Err(e);
                                }
                                match bump_pc(&mut frame) {
                                    Ok(()) => {},
                                    Err(e) => {
                                        self.stack_frames.push(frame);
                                        proof {
                                            assert(self@ =~~= old(self)@);
                                        }
                                        return Err(e);
                                    },
                                }
                                frame.stack.truncate(n - 1 - np);
                                self.stack_frames.push(frame);
                                proof {
                                    assert(self@ =~~= step_spec(old(self)@)->Ok_0);
                                }
                                Ok(())
                            } else {
                                let e = crate::error::err_resolution("method owner not loaded");
                                self.stack_frames.push(frame);
                                proof {
                                    assert(self@ =~~= old(self)@);
                                }
                                Err(e)
                            }
                        }
                    },
                    Some(ti) => {
                        let np = match descriptor_param_count(mdesc.as_str()) {
                            Some(np) => np,
                            None => {
                                let e = crate::error::err_resolution(
                                    "malformed method descriptor",
                                );
                                self.stack_frames.push(frame);
                                proof {
                                    assert(self@ =~~= old(self)@);
                                }
                                return Err(e);
                            },
                        };
                        let key = mname.concat(mdesc.as_str());
                        let meth = match methods_get(&self.class_area[ti].methods, &key) {
                            Some(meth) => meth,
                            None => {
                                let e = crate::error::err_resolution("method not found");
                                self.stack_frames.push(frame);
                                proof {
                                    assert(self@ =~~= old(self)@);
                                }
                                return Err(e);
                            },
                        };
                        if meth.instructions.len() == 0 {
                            let e = crate::error::err_resolution("method has no code");
                            self.stack_frames.push(frame);
                            proof {
                                assert(self@ =~~= old(self)@);
                            }
                            return Err(e);
                        }
                        let n = frame.stack.len();
                        if n == 0 || n - 1 < np {
                            let e = crate::error::err_underflow(
                                "missing receiver or arguments",
                            );
                            self.stack_frames.push(frame);
                            proof {
                                assert(self@ =~~= old(self)@);
                            }
                            return Err(e);
                        }
                        match bump_pc(&mut frame) {
                            Ok(()) => {},
                            Err(e) => {
                                self.stack_frames.push(frame);
                                proof {
                                    assert(self@ =~~= old(self)@);
                                }
                                return Err(e);
                            },
                        }
                        let locals = frame.stack.split_off(n - 1 - np);
                        self.stack_frames.push(frame);
                        self.stack_frames.push(
                            StackFrame {
                                pc: 0,
                                locals,
                                arrays: Vec::new(),
                                stack: Vec::new(),
                                method: meth,
                                class_name: cls,
                            },
                        );
                        proof {
                            assert(self@.frames =~~= step_spec(old(self)@)->Ok_0.frames);
                            assert(self@ =~~= step_spec(old(self)@)->Ok_0);
                        }
                        Ok(())
                    },
                }
            },
            Instruction::Return(expected) => {
                if expected.matches(&PrimitiveType::Null) {
                    proof {
                        assert(self@ =~~= step_spec(old(self)@)->Ok_0);
                    }
                    Ok(())
                } else {
                    let n = frame.stack.len();
                    if n < 1 {
                        let e = crate::error::err_underflow("return from an empty operand stack");
                        self.stack_frames.push(frame);
                        proof {
                            assert(self@ =~~= old(self)@);
                        }
                        return Err(e);
                    }
                    let rv = frame.stack[n - 1];
                    if !rv.is_type(expected) {
                        let e = crate::error::err_type("attempted to return an invalid type");
                        self.stack_frames.push(frame);
                        proof {
                            assert(self@ =~~= old(self)@);
                        }
                        return Err(e);
                    }
                    if self.stack_frames.len() > 0 {
                        let mut caller = self.stack_frames.pop().unwrap();
                        caller.stack.push(rv);
                        self.stack_frames.push(caller);
                    }
                    proof {
                        assert(self@.frames =~~= step_spec(old(self)@)->Ok_0.frames);
                        assert(self@ =~~= step_spec(old(self)@)->Ok_0);
                    }
                    Ok(())
                }
            },
            _ => {
                match exec_frame(&mut frame, inst) {
                    Ok(()) => {
                        self.stack_frames.push(frame);
                        proof {
                            assert(self@.frames =~~= step_spec(old(self)@)->Ok_0.frames);
                            assert(self@ =~~= step_spec(old(self)@)->Ok_0);
                        }
                        Ok(())
                    },
                    Err(e) => {
                        self.stack_frames.push(frame);
                        proof {
                            assert(self@ =~~= old(self)@);
                        }
                        Err(e)
                    },
                }
            },
        }
    }

    /// Loads the entry frames and interprets until the frame stack empties:
    /// one frame for each `main([Ljava/lang/String;)V`, then one for each
    /// `<clinit>()V` static initializer on top, so the initializers run
    /// first (the machine `boot` describes). Execution is exactly the
    /// iterated step relation: on `Ok` the final machine is a state `steps`
    /// reaches from the booted machine and its frame stack is empty; on an
    /// error the final machine is a reached state whose next step fails with
    /// the reported category, unless the step budget ran out
    /// (`Unimplemented`, with the frame stack still live) or an entry method
    /// had no code (`ResolutionError`, machine untouched). The output buffer
    /// only ever grows.
    #[verifier::rlimit(100)]
    #[verifier::spinoff_prover]
    pub fn run(&mut self) -> (r: Result<(), JvmError>)
        ensures
            !boot_wf(old(self)@.classes) ==> r is Err && kind_of(r->Err_0)
                == ErrorKind::ResolutionError && final(self)@ == old(self)@,
            r is Ok ==> boot_wf(old(self)@.classes) && final(self)@.frames.len() == 0 && (exists|
                k: nat,
            |
                k <= STEP_BUDGET && #[trigger] steps(boot(old(self)@), k) == Some(final(self)@)),
            r is Err && boot_wf(old(self)@.classes) ==> (exists|k: nat|
                k <= STEP_BUDGET && #[trigger] steps(boot(old(self)@), k) == Some(final(self)@)
                    && ((step_spec(final(self)@) is Err && kind_of(r->Err_0) == step_spec(
                    final(self)@,
                )->Err_0) || (k == STEP_BUDGET && final(self)@.frames.len() > 0 && kind_of(
                    r->Err_0,
                ) == ErrorKind::Unimplemented))),
            boot_wf(old(self)@.classes) && (exists|k: nat|
                k <= STEP_BUDGET && #[trigger] steps(boot(old(self)@), k) is Some && steps(
                    boot(old(self)@),
                    k,
                )->Some_0.frames.len() == 0) ==> r is Ok,
            old(self).stdout@.is_prefix_of(final(self).stdout@),
    {
        let nclasses = self.class_area.len();
        // Refuse entry methods without code before touching anything, so
        // that a refused machine is returned unchanged.
        let mut i: usize = 0;
        while i < nclasses
            invariant
                0 <= i <= nclasses,
                nclasses == self.class_area@.len(),
                self.class_area@ == old(self).class_area@,
                self.heap@ == old(self).heap@,
                self.stack_frames@ == old(self).stack_frames@,
                self.stdout@ == old(self).stdout@,
                forall|j: int|
                    0 <= j < i ==> (match #[trigger] assoc_find(
                        old(self)@.classes[j].methods,
                        main_key(),
                    ) {
                        Some(meth) => meth.instructions.len() > 0,
                        None => true,
                    }),
            decreases nclasses - i,
        {
            let key = String::from_str("main([Ljava/lang/String;)V");
            match methods_get(&self.class_area[i].methods, &key) {
                Some(method) => {
                    if method.instructions.len() == 0 {
                        proof {
                            assert(key@ == main_key());
                            assert(old(self)@.classes[i as int].methods == methods_view(
                                self.class_area@[i as int].methods@,
                            ));
                            assert(match assoc_find(
                                old(self)@.classes[i as int].methods,
                                main_key(),
                            ) {
                                Some(meth) => meth.instructions.len() == 0,
                                None => false,
                            });
                            assert(!boot_ok(old(self)@.classes, main_key()));
                            assert(self@ =~~= old(self)@);
                            assert(old(self).stdout@.is_prefix_of(self.stdout@)) by {
                                assert(old(self).stdout@ =~= self.stdout@.subrange(
                                    0,
                                    old(self).stdout@.len() as int,
                                ));
                            }
                        }
                        return Err(crate::error::err_resolution("main method has no code"));
                    }
                },
                None => {},
            }
            i = i + 1;
        }
        let mut i: usize = 0;
        while i < nclasses
            invariant
                0 <= i <= nclasses,
                nclasses == self.class_area@.len(),
                self.class_area@ == old(self).class_area@,
                self.heap@ == old(self).heap@,
                self.stack_frames@ == old(self).stack_frames@,
                self.stdout@ == old(self).stdout@,
                boot_ok(old(self)@.classes, main_key()),
                forall|j: int|
                    0 <= j < i ==> (match #[trigger] assoc_find(
                        old(self)@.classes[j].methods,
                        clinit_key(),
                    ) {
                        Some(meth) => meth.instructions.len() > 0,
                        None => true,
                    }),
            decreases nclasses - i,
        {
            let key = String::from_str("<clinit>()V");
            match methods_get(&self.class_area[i].methods, &key) {
                Some(method) => {
                    if method.instructions.len() == 0 {
                        proof {
                            assert(key@ == clinit_key());
                            assert(old(self)@.classes[i as int].methods == methods_view(
                                self.class_area@[i as int].methods@,
                            ));
                            assert(match assoc_find(
                                old(self)@.classes[i as int].methods,
                                clinit_key(),
                            ) {
                                Some(meth) => meth.instructions.len() == 0,
                                None => false,
                            });
                            assert(!boot_ok(old(self)@.classes, clinit_key()));
                            assert(self@ =~~= old(self)@);
                            assert(old(self).stdout@.is_prefix_of(self.stdout@)) by {
                                assert(old(self).stdout@ =~= self.stdout@.subrange(
                                    0,
                                    old(self).stdout@.len() as int,
                                ));
                            }
                        }
                        return Err(
                            crate::error::err_resolution("static initializer has no code"),
                        );
                    }
                },
                None => {},
            }
            i = i + 1;
        }
        // Push the entry frames: one per main, then the initializers on top.
        let mut i: usize = 0;
        while i < nclasses
            invariant
                0 <= i <= nclasses,
                nclasses == self.class_area@.len(),
                self.class_area@ == old(self).class_area@,
                self.heap@ == old(self).heap@,
                self.stdout@ == old(self).stdout@,
                boot_wf(old(self)@.classes),
                self@.frames == old(self)@.frames + boot_frames(
                    old(self)@.classes,
                    main_key(),
                    i as int,
                ),
            decreases nclasses - i,
        {
            let key = String::from_str("main([Ljava/lang/String;)V");
            match methods_get(&self.class_area[i].methods, &key) {
                Some(method) => {
                    let class_name = self.class_area[i].name.clone();
                    let ghost prev = self@.frames;
                    let new_frame = StackFrame {
                        pc: 0,
                        locals: Vec::new(),
                        arrays: Vec::new(),
                        stack: Vec::new(),
                        method,
                        class_name,
                    };
                    let ghost nf = new_frame@;
                    self.stack_frames.push(new_frame);
                    proof {
                        assert(key@ == main_key());
                        assert(old(self)@.classes[i as int].methods == methods_view(
                            self.class_area@[i as int].methods@,
                        ));
                        let mm = assoc_find(old(self)@.classes[i as int].methods, main_key());
                        assert(mm is Some);
                        assert(nf =~~= fresh_frame(mm->Some_0, old(self)@.classes[i as int].name));
                        assert(boot_frames(old(self)@.classes, main_key(), i + 1) == boot_frames(
                            old(self)@.classes,
                            main_key(),
                            i as int,
                        ) + (match mm {
                            Some(meth) => seq![
                                fresh_frame(meth, old(self)@.classes[i as int].name),
                            ],
                            None => Seq::empty(),
                        }));
                        assert(self@.frames =~= prev.push(nf));
                        assert(self@.frames =~~= old(self)@.frames + boot_frames(
                            old(self)@.classes,
                            main_key(),
                            i + 1,
                        ));
                    }
                },
                None => {
                    proof {
                        assert(key@ == main_key());
                        assert(old(self)@.classes[i as int].methods == methods_view(
                            self.class_area@[i as int].methods@,
                        ));
                        assert(boot_frames(old(self)@.classes, main_key(), i + 1) == boot_frames(
                            old(self)@.classes,
                            main_key(),
                            i as int,
                        ) + (match assoc_find(old(self)@.classes[i as int].methods, main_key()) {
                            Some(meth) => seq![
                                fresh_frame(meth, old(self)@.classes[i as int].name),
                            ],
                            None => Seq::empty(),
                        }));
                        assert(self@.frames =~~= old(self)@.frames + boot_frames(
                            old(self)@.classes,
                            main_key(),
                            i + 1,
                        ));
                    }
                },
            }
            i = i + 1;
        }
        let mut i: usize = 0;
        while i < nclasses
            invariant
                0 <= i <= nclasses,
                nclasses == self.class_area@.len(),
                self.class_area@ == old(self).class_area@,
                self.heap@ == old(self).heap@,
                self.stdout@ == old(self).stdout@,
                boot_wf(old(self)@.classes),
                self@.frames == old(self)@.frames + boot_frames(
                    old(self)@.classes,
                    main_key(),
                    nclasses as int,
                ) + boot_frames(old(self)@.classes, clinit_key(), i as int),
            decreases nclasses - i,
        {
            let key = String::from_str("<clinit>()V");
            match methods_get(&self.class_area[i].methods, &key) {
                Some(method) => {
                    let class_name = self.class_area[i].name.clone();
                    let ghost prev = self@.frames;
                    let new_frame = StackFrame {
                        pc: 0,
                        locals: Vec::new(),
                        arrays: Vec::new(),
                        stack: Vec::new(),
                        method,
                        class_name,
                    };
                    let ghost nf = new_frame@;
                    self.stack_frames.push(new_frame);
                    proof {
                        assert(key@ == clinit_key());
                        assert(old(self)@.classes[i as int].methods == methods_view(
                            self.class_area@[i as int].methods@,
                        ));
                        let mm = assoc_find(old(self)@.classes[i as int].methods, clinit_key());
                        assert(mm is Some);
                        assert(nf =~~= fresh_frame(mm->Some_0, old(self)@.classes[i as int].name));
                        assert(boot_frames(old(self)@.classes, clinit_key(), i + 1) == boot_frames(
                            old(self)@.classes,
                            clinit_key(),
                            i as int,
                        ) + (match mm {
                            Some(meth) => seq![
                                fresh_frame(meth, old(self)@.classes[i as int].name),
                            ],
                            None => Seq::empty(),
                        }));
                        assert(self@.frames =~= prev.push(nf));
                        assert(self@.frames =~~= old(self)@.frames + boot_frames(
                            old(self)@.classes,
                            main_key(),
                            nclasses as int,
                        ) + boot_frames(old(self)@.classes, clinit_key(), i + 1));
                    }
                },
                None => {
                    proof {
                        assert(key@ == clinit_key());
                        assert(old(self)@.classes[i as int].methods == methods_view(
                            self.class_area@[i as int].methods@,
                        ));
                        assert(boot_frames(old(self)@.classes, clinit_key(), i + 1) == boot_frames(
                            old(self)@.classes,
                            clinit_key(),
                            i as int,
                        ) + (match assoc_find(old(self)@.classes[i as int].methods, clinit_key()) {
                            Some(meth) => seq![
                                fresh_frame(meth, old(self)@.classes[i as int].name),
                            ],
                            None => Seq::empty(),
                        }));
                        assert(self@.frames =~~= old(self)@.frames + boot_frames(
                            old(self)@.classes,
                            main_key(),
                            nclasses as int,
                        ) + boot_frames(old(self)@.classes, clinit_key(), i + 1));
                    }
                },
            }
            i = i + 1;
        }
        let ghost b = boot(old(self)@);
        proof {
            assert(self@ =~~= b);
            assert(old(self).stdout@.is_prefix_of(self.stdout@)) by {
                assert(old(self).stdout@ =~= self.stdout@.subrange(
                    0,
                    old(self).stdout@.len() as int,
                ));
            }
        }
        let mut budget: u64 = STEP_BUDGET;
        while self.stack_frames.len() > 0 && budget > 0
            invariant
                budget <= STEP_BUDGET,
                b == boot(old(self)@),
                boot_wf(old(self)@.classes),
                steps(b, (STEP_BUDGET - budget) as nat) == Some(self@),
                forall|k2: nat|
                    k2 < (STEP_BUDGET - budget) as nat ==> #[trigger] steps(b, k2) is Some && steps(
                        b,
                        k2,
                    )->Some_0.frames.len() > 0,
                old(self).stdout@.is_prefix_of(self.stdout@),
            decreases budget,
        {
            let ghost pre = self@;
            let ghost k: nat = (STEP_BUDGET - budget) as nat;
            proof {
                assert(pre.frames.len() > 0);
            }
            let res = self.step();
            proof {
                lemma_step_stdout_grows(pre);
                assert(old(self).stdout@.is_prefix_of(self.stdout@)) by {
                    assert(pre.stdout.is_prefix_of(self.stdout@));
                    assert(old(self).stdout@ =~= self.stdout@.subrange(
                        0,
                        old(self).stdout@.len() as int,
                    ));
                }
            }
            match res {
                Ok(()) => {
                    proof {
                        lemma_steps_snoc(b, k);
                        lemma_live_prefix_extend(b, k);
                    }
                },
                Err(e) => {
                    proof {
                        assert(steps(b, k) == Some(self@));
                        lemma_no_empty_state_reachable(b, k, true);
                    }
                    return Err(e);
                },
            }
            budget = budget - 1;
        }
        if self.stack_frames.len() > 0 {
            proof {
                assert(budget == 0);
                assert((STEP_BUDGET - budget) as nat == STEP_BUDGET as nat);
                assert(steps(b, STEP_BUDGET as nat) == Some(self@));
                assert(self@.frames.len() > 0);
                lemma_no_empty_state_reachable(b, STEP_BUDGET as nat, false);
            }
            return Err(crate::error::err_unimpl("execution exceeded the step budget"));
        }
        Ok(())
    }
}

} // verus!
