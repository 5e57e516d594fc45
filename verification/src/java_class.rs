//! The constant pool and the raw class metadata the parser produces.
//!
//! Constant pool indices are 1-based, as in the class artifact; the
//! resolvers convert to 0-based internally. A resolver succeeds exactly when
//! the index is in `[1, pool.len()]` and the chain of entries it walks has
//! the expected kinds.
use vstd::prelude::*;

use crate::bytecode::Primitive;
use crate::error::{ErrorKind, JvmError, kind_of};
use crate::text;

verus! {

/// One entry of a class's constant pool.
#[derive(Debug, Clone)]
pub enum ConstantPoolEntry {
    Utf8(String),
    Integer(i32),
    /// The raw IEEE-754 bit pattern of a `float` constant.
    Float(u32),
    Long(i64),
    /// The raw IEEE-754 bit pattern of a `double` constant.
    Double(u64),
    /// name_index
    Class(usize),
    /// string_index
    String(usize),
    /// class_index, name_and_type_index
    FieldRef(usize, usize),
    /// class_index, name_and_type_index
    MethodRef(usize, usize),
    /// class_index, name_and_type_index
    InterfaceMethodRef(usize, usize),
    /// name_index, descriptor_index
    NameAndType(usize, usize),
    /// reference_kind, reference_index
    MethodHandle(u8, usize),
    /// descriptor_index
    MethodType(usize),
    /// bootstrap_method_attr_index, name_and_type_index
    InvokeDynamic(usize, usize),
}

/// The mathematical shape of a constant pool entry: the same variants, with
/// text as a character sequence.
pub ghost enum CpEntryModel {
    Utf8(Seq<char>),
    Integer(i32),
    Float(u32),
    Long(i64),
    Double(u64),
    Class(usize),
    String(usize),
    FieldRef(usize, usize),
    MethodRef(usize, usize),
    InterfaceMethodRef(usize, usize),
    NameAndType(usize, usize),
    MethodHandle(u8, usize),
    MethodType(usize),
    InvokeDynamic(usize, usize),
}

impl View for ConstantPoolEntry {
    type V = CpEntryModel;

    open spec fn view(&self) -> CpEntryModel {
        match self {
            ConstantPoolEntry::Utf8(s) => CpEntryModel::Utf8(s@),
            ConstantPoolEntry::Integer(i) => CpEntryModel::Integer(*i),
            ConstantPoolEntry::Float(b) => CpEntryModel::Float(*b),
            ConstantPoolEntry::Long(l) => CpEntryModel::Long(*l),
            ConstantPoolEntry::Double(b) => CpEntryModel::Double(*b),
            ConstantPoolEntry::Class(n) => CpEntryModel::Class(*n),
            ConstantPoolEntry::String(n) => CpEntryModel::String(*n),
            ConstantPoolEntry::FieldRef(c, nt) => CpEntryModel::FieldRef(*c, *nt),
            ConstantPoolEntry::MethodRef(c, nt) => CpEntryModel::MethodRef(*c, *nt),
            ConstantPoolEntry::InterfaceMethodRef(c, nt) => CpEntryModel::InterfaceMethodRef(
                *c,
                *nt,
            ),
            ConstantPoolEntry::NameAndType(n, d) => CpEntryModel::NameAndType(*n, *d),
            ConstantPoolEntry::MethodHandle(k, r) => CpEntryModel::MethodHandle(*k, *r),
            ConstantPoolEntry::MethodType(d) => CpEntryModel::MethodType(*d),
            ConstantPoolEntry::InvokeDynamic(b, nt) => CpEntryModel::InvokeDynamic(*b, *nt),
        }
    }
}

/// The model of a whole constant pool.
pub open spec fn cp_view(s: Seq<ConstantPoolEntry>) -> Seq<CpEntryModel> {
    s.map_values(|e: ConstantPoolEntry| e@)
}

/// The text of the `Utf8` entry at a 1-based index.
pub open spec fn cp_utf8(cp: Seq<CpEntryModel>, index: int) -> Option<Seq<char>> {
    if 1 <= index <= cp.len() {
        match cp[index - 1] {
            CpEntryModel::Utf8(s) => Some(s),
            _ => None,
        }
    } else {
        None
    }
}

/// The class name reached from the `Class` entry at a 1-based index.
pub open spec fn cp_class_name(cp: Seq<CpEntryModel>, index: int) -> Option<Seq<char>> {
    if 1 <= index <= cp.len() {
        match cp[index - 1] {
            CpEntryModel::Class(n) => cp_utf8(cp, n as int),
            _ => None,
        }
    } else {
        None
    }
}

/// The `(name, descriptor)` pair reached from the `NameAndType` entry at a
/// 1-based index.
pub open spec fn cp_name_and_type(cp: Seq<CpEntryModel>, index: int) -> Option<
    (Seq<char>, Seq<char>),
> {
    if 1 <= index <= cp.len() {
        match cp[index - 1] {
            CpEntryModel::NameAndType(n, d) => match (cp_utf8(cp, n as int), cp_utf8(cp, d as int)) {
                (Some(name), Some(desc)) => Some((name, desc)),
                _ => None,
            },
            _ => None,
        }
    } else {
        None
    }
}

/// The `(class, name, descriptor)` triple reached from the `FieldRef` entry
/// at a 1-based index.
pub open spec fn cp_field_ref(cp: Seq<CpEntryModel>, index: int) -> Option<
    (Seq<char>, Seq<char>, Seq<char>),
> {
    if 1 <= index <= cp.len() {
        match cp[index - 1] {
            CpEntryModel::FieldRef(c, nt) => match (
                cp_class_name(cp, c as int),
                cp_name_and_type(cp, nt as int),
            ) {
                (Some(cl), Some(nd)) => Some((cl, nd.0, nd.1)),
                _ => None,
            },
            _ => None,
        }
    } else {
        None
    }
}

/// The `(class, name, descriptor)` triple reached from the `MethodRef`
/// entry at a 1-based index.
pub open spec fn cp_method_ref(cp: Seq<CpEntryModel>, index: int) -> Option<
    (Seq<char>, Seq<char>, Seq<char>),
> {
    if 1 <= index <= cp.len() {
        match cp[index - 1] {
            CpEntryModel::MethodRef(c, nt) => match (
                cp_class_name(cp, c as int),
                cp_name_and_type(cp, nt as int),
            ) {
                (Some(cl), Some(nd)) => Some((cl, nd.0, nd.1)),
                _ => None,
            },
            _ => None,
        }
    } else {
        None
    }
}

/// The loadable value of an entry, as `LoadConst` pushes it: numeric entries
/// load their payload, string and class-like entries load a reference whose
/// payload is the entry's own operand index.
pub open spec fn loadable_of(e: CpEntryModel) -> Option<Primitive> {
    match e {
        CpEntryModel::Integer(i) => Some(Primitive::Int(i)),
        CpEntryModel::Float(b) => Some(Primitive::Float(b)),
        CpEntryModel::Long(l) => Some(Primitive::Long(l)),
        CpEntryModel::Double(b) => Some(Primitive::Double(b)),
        CpEntryModel::Class(r) => Some(Primitive::Reference(r)),
        CpEntryModel::String(r) => Some(Primitive::Reference(r)),
        CpEntryModel::MethodHandle(_, r) => Some(Primitive::Reference(r)),
        CpEntryModel::MethodType(r) => Some(Primitive::Reference(r)),
        _ => None,
    }
}

impl ConstantPoolEntry {
    /// Resolves `Class -> Utf8` at a 1-based index; fails with
    /// `ResolutionError` exactly when the chain is absent or of the wrong
    /// kind.
    pub fn class_parser(index: usize, constant_pool: &[ConstantPoolEntry]) -> (r: Result<
        String,
        JvmError,
    >)
        ensures
            r is Ok <==> cp_class_name(cp_view(constant_pool@), index as int) is Some,
            r is Ok ==> r->Ok_0@ == cp_class_name(cp_view(constant_pool@), index as int)->Some_0,
            r is Err ==> kind_of(r->Err_0) == ErrorKind::ResolutionError,
    {
        if index < 1 || index > constant_pool.len() {
            return Err(JvmError::ResolutionError(text::msg("constant pool index out of range")));
        }
        match &constant_pool[index - 1] {
            ConstantPoolEntry::Class(name_index) => {
                let ni = *name_index;
                if ni < 1 || ni > constant_pool.len() {
                    return Err(
                        JvmError::ResolutionError(text::msg("class name index out of range")),
                    );
                }
                match &constant_pool[ni - 1] {
                    ConstantPoolEntry::Utf8(s) => Ok(s.clone()),
                    _ => Err(JvmError::ResolutionError(text::msg("invalid constant pool entry"))),
                }
            },
            _ => Err(JvmError::ResolutionError(text::msg("invalid constant pool entry"))),
        }
    }

    /// Resolves `NameAndType -> (Utf8, Utf8)` at a 1-based index.
    pub fn name_and_type_parser(index: usize, constant_pool: &[ConstantPoolEntry]) -> (r: Result<
        (String, String),
        JvmError,
    >)
        ensures
            r is Ok <==> cp_name_and_type(cp_view(constant_pool@), index as int) is Some,
            r is Ok ==> (r->Ok_0.0@, r->Ok_0.1@) == cp_name_and_type(
                cp_view(constant_pool@),
                index as int,
            )->Some_0,
            r is Err ==> kind_of(r->Err_0) == ErrorKind::ResolutionError,
    {
        if index < 1 || index > constant_pool.len() {
            return Err(JvmError::ResolutionError(text::msg("constant pool index out of range")));
        }
        match &constant_pool[index - 1] {
            ConstantPoolEntry::NameAndType(name_index, descriptor_index) => {
                let ni = *name_index;
                let di = *descriptor_index;
                if ni < 1 || ni > constant_pool.len() || di < 1 || di > constant_pool.len() {
                    return Err(
                        JvmError::ResolutionError(text::msg("name and type index out of range")),
                    );
                }
                let name = match &constant_pool[ni - 1] {
                    ConstantPoolEntry::Utf8(name) => name.clone(),
                    _ => {
                        return Err(
                            JvmError::ResolutionError(text::msg("invalid constant pool entry")),
                        );
                    },
                };
                let descriptor = match &constant_pool[di - 1] {
                    ConstantPoolEntry::Utf8(descriptor) => descriptor.clone(),
                    _ => {
                        return Err(
                            JvmError::ResolutionError(text::msg("invalid constant pool entry")),
                        );
                    },
                };
                Ok((name, descriptor))
            },
            _ => Err(JvmError::ResolutionError(text::msg("invalid constant pool entry"))),
        }
    }

    /// Resolves `MethodRef -> (class, name, descriptor)` at a 1-based index.
    pub fn method_ref_parser(index: usize, constant_pool: &[ConstantPoolEntry]) -> (r: Result<
        (String, String, String),
        JvmError,
    >)
        ensures
            r is Ok <==> cp_method_ref(cp_view(constant_pool@), index as int) is Some,
            r is Ok ==> (r->Ok_0.0@, r->Ok_0.1@, r->Ok_0.2@) == cp_method_ref(
                cp_view(constant_pool@),
                index as int,
            )->Some_0,
            r is Err ==> kind_of(r->Err_0) == ErrorKind::ResolutionError,
    {
        if index < 1 || index > constant_pool.len() {
            return Err(JvmError::ResolutionError(text::msg("constant pool index out of range")));
        }
        match &constant_pool[index - 1] {
            ConstantPoolEntry::MethodRef(class_index, name_and_type_index) => {
                let ci = *class_index;
                let nti = *name_and_type_index;
                let class_name = ConstantPoolEntry::class_parser(ci, constant_pool)?;
                let (method_name, method_type) = ConstantPoolEntry::name_and_type_parser(
                    nti,
                    constant_pool,
                )?;
                Ok((class_name, method_name, method_type))
            },
            _ => Err(JvmError::ResolutionError(text::msg("invalid constant pool entry"))),
        }
    }

    /// Resolves `FieldRef -> (class, name, descriptor)` at a 1-based index.
    pub fn field_ref_parser(index: usize, constant_pool: &[ConstantPoolEntry]) -> (r: Result<
        (String, String, String),
        JvmError,
    >)
        ensures
            r is Ok <==> cp_field_ref(cp_view(constant_pool@), index as int) is Some,
            r is Ok ==> (r->Ok_0.0@, r->Ok_0.1@, r->Ok_0.2@) == cp_field_ref(
                cp_view(constant_pool@),
                index as int,
            )->Some_0,
            r is Err ==> kind_of(r->Err_0) == ErrorKind::ResolutionError,
    {
        if index < 1 || index > constant_pool.len() {
            return Err(JvmError::ResolutionError(text::msg("constant pool index out of range")));
        }
        match &constant_pool[index - 1] {
            ConstantPoolEntry::FieldRef(class_index, name_and_type_index) => {
                let ci = *class_index;
                let nti = *name_and_type_index;
                let class_name = ConstantPoolEntry::class_parser(ci, constant_pool)?;
                let (field_name, field_type) = ConstantPoolEntry::name_and_type_parser(
                    nti,
                    constant_pool,
                )?;
                Ok((class_name, field_name, field_type))
            },
            _ => Err(JvmError::ResolutionError(text::msg("invalid constant pool entry"))),
        }
    }

    /// The value this entry loads; fails with `ResolutionError` exactly on
    /// the entry kinds that are not loadable.
    pub fn get_primitive(&self) -> (r: Result<Primitive, JvmError>)
        ensures
            r is Ok <==> loadable_of(self@) is Some,
            r is Ok ==> r->Ok_0 == loadable_of(self@)->Some_0,
            r is Err ==> kind_of(r->Err_0) == ErrorKind::ResolutionError,
    {
        match self {
            ConstantPoolEntry::Integer(i) => Ok(Primitive::Int(*i)),
            ConstantPoolEntry::Float(b) => Ok(Primitive::Float(*b)),
            ConstantPoolEntry::Long(l) => Ok(Primitive::Long(*l)),
            ConstantPoolEntry::Double(b) => Ok(Primitive::Double(*b)),
            ConstantPoolEntry::Class(r) => Ok(Primitive::Reference(*r)),
            ConstantPoolEntry::String(r) => Ok(Primitive::Reference(*r)),
            ConstantPoolEntry::MethodHandle(_, r) => Ok(Primitive::Reference(*r)),
            ConstantPoolEntry::MethodType(r) => Ok(Primitive::Reference(*r)),
            _ => Err(
                JvmError::ResolutionError(
                    text::msg("unable to convert constant pool entry to loadable primitive"),
                ),
            ),
        }
    }
}

/// The 1-based index of the first `Utf8` entry holding `s`.
pub open spec fn find_utf8_spec(cp: Seq<CpEntryModel>, s: Seq<char>) -> Option<int> {
    match cp.index_of_first(CpEntryModel::Utf8(s)) {
        Some(i) => Some(i + 1),
        None => None,
    }
}

/// The 1-based index of the first `Class` entry naming `s`, resolved the way
/// `find_class` searches: through the first `Utf8` entry holding `s`.
pub open spec fn find_class_spec(cp: Seq<CpEntryModel>, s: Seq<char>) -> Option<int> {
    match find_utf8_spec(cp, s) {
        Some(ui) => match cp.index_of_first(CpEntryModel::Class(ui as usize)) {
            Some(i) => Some(i + 1),
            None => None,
        },
        None => None,
    }
}

/// The 1-based index of the first `NameAndType` entry pairing the first
/// `Utf8` entries of `n` and `d`.
pub open spec fn find_name_and_type_spec(cp: Seq<CpEntryModel>, n: Seq<char>, d: Seq<char>) -> Option<
    int,
> {
    match (find_utf8_spec(cp, n), find_utf8_spec(cp, d)) {
        (Some(ni), Some(di)) => match cp.index_of_first(
            CpEntryModel::NameAndType(ni as usize, di as usize),
        ) {
            Some(i) => Some(i + 1),
            None => None,
        },
        _ => None,
    }
}

/// The 1-based index of the first `FieldRef` entry for the triple.
pub open spec fn find_field_ref_spec(
    cp: Seq<CpEntryModel>,
    c: Seq<char>,
    n: Seq<char>,
    d: Seq<char>,
) -> Option<int> {
    match (find_class_spec(cp, c), find_name_and_type_spec(cp, n, d)) {
        (Some(ci), Some(nti)) => match cp.index_of_first(
            CpEntryModel::FieldRef(ci as usize, nti as usize),
        ) {
            Some(i) => Some(i + 1),
            None => None,
        },
        _ => None,
    }
}

/// The 1-based index of the first `MethodRef` entry for the triple.
pub open spec fn find_method_ref_spec(
    cp: Seq<CpEntryModel>,
    c: Seq<char>,
    n: Seq<char>,
    d: Seq<char>,
) -> Option<int> {
    match (find_class_spec(cp, c), find_name_and_type_spec(cp, n, d)) {
        (Some(ci), Some(nti)) => match cp.index_of_first(
            CpEntryModel::MethodRef(ci as usize, nti as usize),
        ) {
            Some(i) => Some(i + 1),
            None => None,
        },
        _ => None,
    }
}

/// What `find_or_add_utf8` leaves behind: the pool, possibly extended, and
/// the 1-based index of the entry.
pub open spec fn add_utf8_spec(cp: Seq<CpEntryModel>, s: Seq<char>) -> (Seq<CpEntryModel>, int) {
    match find_utf8_spec(cp, s) {
        Some(i) => (cp, i),
        None => (cp.push(CpEntryModel::Utf8(s)), cp.len() as int + 1),
    }
}

/// What `find_or_add_class` leaves behind.
pub open spec fn add_class_spec(cp: Seq<CpEntryModel>, s: Seq<char>) -> (Seq<CpEntryModel>, int) {
    match find_class_spec(cp, s) {
        Some(i) => (cp, i),
        None => {
            let (cp1, ui) = add_utf8_spec(cp, s);
            (cp1.push(CpEntryModel::Class(ui as usize)), cp1.len() as int + 1)
        },
    }
}

/// What `find_or_add_name_and_type` leaves behind.
pub open spec fn add_name_and_type_spec(cp: Seq<CpEntryModel>, n: Seq<char>, d: Seq<char>) -> (
    Seq<CpEntryModel>,
    int,
) {
    match find_name_and_type_spec(cp, n, d) {
        Some(i) => (cp, i),
        None => {
            let (cp1, ni) = add_utf8_spec(cp, n);
            let (cp2, di) = add_utf8_spec(cp1, d);
            (cp2.push(CpEntryModel::NameAndType(ni as usize, di as usize)), cp2.len() as int + 1)
        },
    }
}

/// What `find_or_add_method_ref` leaves behind.
pub open spec fn add_method_ref_spec(
    cp: Seq<CpEntryModel>,
    c: Seq<char>,
    n: Seq<char>,
    d: Seq<char>,
) -> (Seq<CpEntryModel>, int) {
    match find_method_ref_spec(cp, c, n, d) {
        Some(i) => (cp, i),
        None => {
            let (cp1, ci) = add_class_spec(cp, c);
            let (cp2, nti) = add_name_and_type_spec(cp1, n, d);
            (cp2.push(CpEntryModel::MethodRef(ci as usize, nti as usize)), cp2.len() as int + 1)
        },
    }
}

/// What `find_or_add_field_ref` leaves behind.
pub open spec fn add_field_ref_spec(
    cp: Seq<CpEntryModel>,
    c: Seq<char>,
    n: Seq<char>,
    d: Seq<char>,
) -> (Seq<CpEntryModel>, int) {
    match find_field_ref_spec(cp, c, n, d) {
        Some(i) => (cp, i),
        None => {
            let (cp1, ci) = add_class_spec(cp, c);
            let (cp2, nti) = add_name_and_type_spec(cp1, n, d);
            (cp2.push(CpEntryModel::FieldRef(ci as usize, nti as usize)), cp2.len() as int + 1)
        },
    }
}

/// Search and extension operations on a constant pool under construction.
/// Every `find` returns the 1-based index of the first matching entry;
/// every `find_or_add` returns an existing index or appends what is
/// missing.
pub trait ConstantPoolExt {
    fn find_utf8(&self, utf8: &str) -> (r: Option<usize>)
        ensures
            r_opt_as_int(r) == find_utf8_spec(self.pool_view(), utf8@),
    ;

    fn find_class(&self, class_name: &str) -> (r: Option<usize>)
        ensures
            r_opt_as_int(r) == find_class_spec(self.pool_view(), class_name@),
    ;

    fn find_name_and_type(&self, name: &str, type_: &str) -> (r: Option<usize>)
        ensures
            r_opt_as_int(r) == find_name_and_type_spec(self.pool_view(), name@, type_@),
    ;

    fn find_field_ref(&self, class_name: &str, name: &str, type_: &str) -> (r: Option<usize>)
        ensures
            r_opt_as_int(r) == find_field_ref_spec(self.pool_view(), class_name@, name@, type_@),
    ;

    fn find_method_ref(&self, class_name: &str, name: &str, type_: &str) -> (r: Option<usize>)
        ensures
            r_opt_as_int(r) == find_method_ref_spec(self.pool_view(), class_name@, name@, type_@),
    ;

    fn find_or_add_utf8(&mut self, value: &str) -> (r: usize)
        ensures
            (final(self).pool_view(), r as int) == add_utf8_spec(old(self).pool_view(), value@),
    ;

    fn find_or_add_class(&mut self, name: &str) -> (r: usize)
        ensures
            (final(self).pool_view(), r as int) == add_class_spec(old(self).pool_view(), name@),
    ;

    fn find_or_add_name_and_type(&mut self, name: &str, descriptor: &str) -> (r: usize)
        ensures
            (final(self).pool_view(), r as int) == add_name_and_type_spec(
                old(self).pool_view(),
                name@,
                descriptor@,
            ),
    ;

    fn find_or_add_method_ref(&mut self, class_name: &str, name: &str, descriptor: &str) -> (r:
        usize)
        ensures
            (final(self).pool_view(), r as int) == add_method_ref_spec(
                old(self).pool_view(),
                class_name@,
                name@,
                descriptor@,
            ),
    ;

    fn find_or_add_field_ref(&mut self, class_name: &str, name: &str, descriptor: &str) -> (r:
        usize)
        ensures
            (final(self).pool_view(), r as int) == add_field_ref_spec(
                old(self).pool_view(),
                class_name@,
                name@,
                descriptor@,
            ),
    ;

    spec fn pool_view(&self) -> Seq<CpEntryModel>;
}

/// A `usize` option as a mathematical-integer option.
pub open spec fn r_opt_as_int(r: Option<usize>) -> Option<int> {
    match r {
        Some(i) => Some(i as int),
        None => None,
    }
}

impl ConstantPoolExt for Vec<ConstantPoolEntry> {
    open spec fn pool_view(&self) -> Seq<CpEntryModel> {
        cp_view(self@)
    }

    fn find_utf8(&self, utf8: &str) -> (r: Option<usize>) {
        let n = self.len();
        let mut i: usize = 0;
        while i < n
            invariant
                0 <= i <= n,
                n == self@.len(),
                forall|j: int|
                    0 <= j < i ==> cp_view(self@)[j] != CpEntryModel::Utf8(utf8@),
            decreases n - i,
        {
            let hit = match &self[i] {
                ConstantPoolEntry::Utf8(value) => text::str_eq(value.as_str(), utf8),
                _ => false,
            };
            if hit {
                proof {
                    lemma_first_hit(cp_view(self@), CpEntryModel::Utf8(utf8@), i as int);
                }
                return Some(i + 1);
            }
            i = i + 1;
        }
        proof {
            lemma_no_hit(cp_view(self@), CpEntryModel::Utf8(utf8@));
        }
        None
    }

    fn find_class(&self, class_name: &str) -> (r: Option<usize>) {
        let class_name_index = match self.find_utf8(class_name) {
            Some(i) => i,
            None => {
                return None;
            },
        };
        let n = self.len();
        let mut i: usize = 0;
        while i < n
            invariant
                0 <= i <= n,
                n == self@.len(),
                find_utf8_spec(cp_view(self@), class_name@) == Some(class_name_index as int),
                forall|j: int|
                    0 <= j < i ==> cp_view(self@)[j] != CpEntryModel::Class(class_name_index),
            decreases n - i,
        {
            let hit = match &self[i] {
                ConstantPoolEntry::Class(name_index) => *name_index == class_name_index,
                _ => false,
            };
            if hit {
                proof {
                    lemma_first_hit(cp_view(self@), CpEntryModel::Class(class_name_index), i as int);
                }
                return Some(i + 1);
            }
            i = i + 1;
        }
        proof {
            lemma_no_hit(cp_view(self@), CpEntryModel::Class(class_name_index));
        }
        None
    }

    fn find_name_and_type(&self, name: &str, type_: &str) -> (r: Option<usize>) {
        let name_index = match self.find_utf8(name) {
            Some(i) => i,
            None => {
                return None;
            },
        };
        let type_index = match self.find_utf8(type_) {
            Some(i) => i,
            None => {
                return None;
            },
        };
        let n = self.len();
        let mut i: usize = 0;
        while i < n
            invariant
                0 <= i <= n,
                n == self@.len(),
                find_utf8_spec(cp_view(self@), name@) == Some(name_index as int),
                find_utf8_spec(cp_view(self@), type_@) == Some(type_index as int),
                forall|j: int|
                    0 <= j < i ==> cp_view(self@)[j] != CpEntryModel::NameAndType(
                        name_index,
                        type_index,
                    ),
            decreases n - i,
        {
            let hit = match &self[i] {
                ConstantPoolEntry::NameAndType(ni, ti) => *ni == name_index && *ti == type_index,
                _ => false,
            };
            if hit {
                proof {
                    lemma_first_hit(
                        cp_view(self@),
                        CpEntryModel::NameAndType(name_index, type_index),
                        i as int,
                    );
                }
                return Some(i + 1);
            }
            i = i + 1;
        }
        proof {
            lemma_no_hit(cp_view(self@), CpEntryModel::NameAndType(name_index, type_index));
        }
        None
    }

    fn find_field_ref(&self, class_name: &str, name: &str, type_: &str) -> (r: Option<usize>) {
        let class_index = match self.find_class(class_name) {
            Some(i) => i,
            None => {
                return None;
            },
        };
        let name_and_type_index = match self.find_name_and_type(name, type_) {
            Some(i) => i,
            None => {
                return None;
            },
        };
        let n = self.len();
        let mut i: usize = 0;
        while i < n
            invariant
                0 <= i <= n,
                n == self@.len(),
                find_class_spec(cp_view(self@), class_name@) == Some(class_index as int),
                find_name_and_type_spec(cp_view(self@), name@, type_@) == Some(
                    name_and_type_index as int,
                ),
                forall|j: int|
                    0 <= j < i ==> cp_view(self@)[j] != CpEntryModel::FieldRef(
                        class_index,
                        name_and_type_index,
                    ),
            decreases n - i,
        {
            let hit = match &self[i] {
                ConstantPoolEntry::FieldRef(c, nt) => *c == class_index && *nt
                    == name_and_type_index,
                _ => false,
            };
            if hit {
                proof {
                    lemma_first_hit(
                        cp_view(self@),
                        CpEntryModel::FieldRef(class_index, name_and_type_index),
                        i as int,
                    );
                }
                return Some(i + 1);
            }
            i = i + 1;
        }
        proof {
            lemma_no_hit(cp_view(self@), CpEntryModel::FieldRef(class_index, name_and_type_index));
        }
        None
    }

    fn find_method_ref(&self, class_name: &str, name: &str, type_: &str) -> (r: Option<usize>) {
        let class_index = match self.find_class(class_name) {
            Some(i) => i,
            None => {
                return None;
            },
        };
        let name_and_type_index = match self.find_name_and_type(name, type_) {
            Some(i) => i,
            None => {
                return None;
            },
        };
        let n = self.len();
        let mut i: usize = 0;
        while i < n
            invariant
                0 <= i <= n,
                n == self@.len(),
                find_class_spec(cp_view(self@), class_name@) == Some(class_index as int),
                find_name_and_type_spec(cp_view(self@), name@, type_@) == Some(
                    name_and_type_index as int,
                ),
                forall|j: int|
                    0 <= j < i ==> cp_view(self@)[j] != CpEntryModel::MethodRef(
                        class_index,
                        name_and_type_index,
                    ),
            decreases n - i,
        {
            let hit = match &self[i] {
                ConstantPoolEntry::MethodRef(c, nt) => *c == class_index && *nt
                    == name_and_type_index,
                _ => false,
            };
            if hit {
                proof {
                    lemma_first_hit(
                        cp_view(self@),
                        CpEntryModel::MethodRef(class_index, name_and_type_index),
                        i as int,
                    );
                }
                return Some(i + 1);
            }
            i = i + 1;
        }
        proof {
            lemma_no_hit(cp_view(self@), CpEntryModel::MethodRef(class_index, name_and_type_index));
        }
        None
    }

    fn find_or_add_utf8(&mut self, value: &str) -> (r: usize) {
        match self.find_utf8(value) {
            Some(index) => index,
            None => {
                self.push(ConstantPoolEntry::Utf8(String::from_str(value)));
                proof {
                    assert(cp_view(self@) =~= cp_view(old(self)@).push(CpEntryModel::Utf8(value@)));
                }
                self.len()
            },
        }
    }

    fn find_or_add_class(&mut self, name: &str) -> (r: usize) {
        match self.find_class(name) {
            Some(index) => index,
            None => {
                let name_index = self.find_or_add_utf8(name);
                self.push(ConstantPoolEntry::Class(name_index));
                proof {
                    assert(cp_view(self@) =~= add_class_spec(cp_view(old(self)@), name@).0);
                }
                self.len()
            },
        }
    }

    fn find_or_add_name_and_type(&mut self, name: &str, descriptor: &str) -> (r: usize) {
        match self.find_name_and_type(name, descriptor) {
            Some(index) => index,
            None => {
                let name_index = self.find_or_add_utf8(name);
                let descriptor_index = self.find_or_add_utf8(descriptor);
                self.push(ConstantPoolEntry::NameAndType(name_index, descriptor_index));
                proof {
                    assert(cp_view(self@) =~= add_name_and_type_spec(
                        cp_view(old(self)@),
                        name@,
                        descriptor@,
                    ).0);
                }
                self.len()
            },
        }
    }

    fn find_or_add_method_ref(&mut self, class_name: &str, name: &str, descriptor: &str) -> (r:
        usize) {
        match self.find_method_ref(class_name, name, descriptor) {
            Some(index) => index,
            None => {
                let class_index = self.find_or_add_class(class_name);
                let name_and_type_index = self.find_or_add_name_and_type(name, descriptor);
                self.push(ConstantPoolEntry::MethodRef(class_index, name_and_type_index));
                proof {
                    assert(cp_view(self@) =~= add_method_ref_spec(
                        cp_view(old(self)@),
                        class_name@,
                        name@,
                        descriptor@,
                    ).0);
                }
                self.len()
            },
        }
    }

    fn find_or_add_field_ref(&mut self, class_name: &str, name: &str, descriptor: &str) -> (r:
        usize) {
        match self.find_field_ref(class_name, name, descriptor) {
            Some(index) => index,
            None => {
                let class_index = self.find_or_add_class(class_name);
                let name_and_type_index = self.find_or_add_name_and_type(name, descriptor);
                self.push(ConstantPoolEntry::FieldRef(class_index, name_and_type_index));
                proof {
                    assert(cp_view(self@) =~= add_field_ref_spec(
                        cp_view(old(self)@),
                        class_name@,
                        name@,
                        descriptor@,
                    ).0);
                }
                self.len()
            },
        }
    }
}

/// The access flags a class declares.
#[derive(Debug, Clone, Copy, PartialEq, Eq, Structural)]
pub enum ClassFlags {
    Public,
    Final,
    Super,
    Interface,
    Abstract,
    Synthetic,
    Annotation,
    Enum,
    Module,
}

/// The flag list that a flag word denotes, in the order the bits are
/// defined.
pub open spec fn class_flags_spec(flags: u16) -> Seq<ClassFlags> {
    let s = Seq::<ClassFlags>::empty();
    let s = if flags & 0x0001 != 0 { s.push(ClassFlags::Public) } else { s };
    let s = if flags & 0x0010 != 0 { s.push(ClassFlags::Final) } else { s };
    let s = if flags & 0x0020 != 0 { s.push(ClassFlags::Super) } else { s };
    let s = if flags & 0x0200 != 0 { s.push(ClassFlags::Interface) } else { s };
    let s = if flags & 0x0400 != 0 { s.push(ClassFlags::Abstract) } else { s };
    let s = if flags & 0x1000 != 0 { s.push(ClassFlags::Synthetic) } else { s };
    let s = if flags & 0x2000 != 0 { s.push(ClassFlags::Annotation) } else { s };
    let s = if flags & 0x4000 != 0 { s.push(ClassFlags::Enum) } else { s };
    if flags & 0x8000 != 0 { s.push(ClassFlags::Module) } else { s }
}

impl ClassFlags {
    /// The flags set in a flag word, in bit order.
    pub fn parse(flags: u16) -> (r: Vec<ClassFlags>)
        ensures
            r@ == class_flags_spec(flags),
    {
        let mut flags_vec: Vec<ClassFlags> = Vec::new();
        if flags & 0x0001 != 0 {
            flags_vec.push(ClassFlags::Public);
        }
        if flags & 0x0010 != 0 {
            flags_vec.push(ClassFlags::Final);
        }
        if flags & 0x0020 != 0 {
            flags_vec.push(ClassFlags::Super);
        }
        if flags & 0x0200 != 0 {
            flags_vec.push(ClassFlags::Interface);
        }
        if flags & 0x0400 != 0 {
            flags_vec.push(ClassFlags::Abstract);
        }
        if flags & 0x1000 != 0 {
            flags_vec.push(ClassFlags::Synthetic);
        }
        if flags & 0x2000 != 0 {
            flags_vec.push(ClassFlags::Annotation);
        }
        if flags & 0x4000 != 0 {
            flags_vec.push(ClassFlags::Enum);
        }
        if flags & 0x8000 != 0 {
            flags_vec.push(ClassFlags::Module);
        }
        proof {
            assert(flags_vec@ =~= class_flags_spec(flags));
        }
        flags_vec
    }
}

/// An interface entry of a class: the constant pool index of its name.
#[derive(Debug, Clone, Copy, PartialEq, Eq, Structural)]
pub struct Interface {
    pub name: u16,
}

/// A raw field entry of a class.
#[derive(Debug)]
pub struct Field {
    pub access_flags: u16,
    pub name: u16,
    pub descriptor: u16,
    pub attributes_count: u16,
    pub attributes: Vec<Attribute>,
}

/// A raw method entry of a class, before its `Code` attribute is decoded.
#[derive(Debug)]
pub struct UnparsedMethod {
    pub access_flags: u16,
    pub name_index: u16,
    pub descriptor_index: u16,
    pub attributes_count: u16,
    pub attributes: Vec<Attribute>,
}

/// An attribute of a class, field, method or code block.
#[derive(Debug)]
pub enum Attribute {
    ConstantValue(ConstantValueAttribute),
    Code(CodeAttribute),
    StackMapTable(StackMapTableAttribute),
    Exceptions(ExceptionsAttribute),
    InnerClasses(InnerClassesAttribute),
    EnclosingMethod(EnclosingMethodAttribute),
    Synthetic(SyntheticAttribute),
    Signature(SignatureAttribute),
    SourceFile(SourceFileAttribute),
    LineNumberTable(LineNumberTableAttribute),
    LocalVariableTable(LocalVariableTableAttribute),
    LocalVariableTypeTable(LocalVariableTypeTableAttribute),
    Deprecated(DeprecatedAttribute),
}

#[derive(Debug, Clone, Copy, PartialEq, Eq, Structural)]
pub struct ConstantValueAttribute {
    pub attribute_name_index: u16,
    pub attribute_length: u32,
    pub constant_value_index: u16,
}

/// The body of a method: its stack and locals bounds, raw code bytes, raw
/// exception table, and nested attributes.
#[derive(Debug)]
pub struct CodeAttribute {
    pub attribute_name_index: u16,
    pub attribute_length: u32,
    pub max_stack: u16,
    pub max_locals: u16,
    pub code_length: u32,
    pub code: Vec<u8>,
    pub exception_table_length: u16,
    pub exception_table: Vec<u8>,
    pub attributes_count: u16,
    pub attributes: Vec<Attribute>,
}

#[derive(Debug)]
pub struct StackMapTableAttribute {
    pub attribute_name_index: u16,
    pub attribute_length: u32,
    pub number_of_entries: u16,
    pub entries: Vec<u8>,
}

#[derive(Debug)]
pub struct ExceptionsAttribute {
    pub attribute_name_index: u16,
    pub attribute_length: u32,
    pub number_of_exceptions: u16,
    pub exception_index_table: Vec<u8>,
}

#[derive(Debug)]
pub struct InnerClassesAttribute {
    pub attribute_name_index: u16,
    pub attribute_length: u32,
    pub number_of_classes: u16,
    pub classes: Vec<InnerClassElement>,
}

#[derive(Debug, Clone, Copy, PartialEq, Eq, Structural)]
pub struct InnerClassElement {
    pub inner_class_info_index: u16,
    pub outer_class_info_index: u16,
    pub inner_name_index: u16,
    pub inner_class_access_flags: u16,
}

#[derive(Debug, Clone, Copy, PartialEq, Eq, Structural)]
pub struct EnclosingMethodAttribute {
    pub attribute_name_index: u16,
    pub attribute_length: u32,
    pub class_index: u16,
    pub method_index: u16,
}

#[derive(Debug, Clone, Copy, PartialEq, Eq, Structural)]
pub struct SyntheticAttribute {
    pub attribute_name_index: u16,
    pub attribute_length: u32,
}

#[derive(Debug, Clone, Copy, PartialEq, Eq, Structural)]
pub struct SignatureAttribute {
    pub attribute_name_index: u16,
    pub attribute_length: u32,
    pub signature_index: u16,
}

#[derive(Debug, Clone, Copy, PartialEq, Eq, Structural)]
pub struct SourceFileAttribute {
    pub attribute_name_index: u16,
    pub attribute_length: u32,
    pub sourcefile_index: u16,
}

#[derive(Debug)]
pub struct LineNumberTableAttribute {
    pub attribute_name_index: u16,
    pub attribute_length: u32,
    pub line_number_table_length: u16,
    pub line_number_table: Vec<LineNumberTableElement>,
}

#[derive(Debug, Clone, Copy, PartialEq, Eq, Structural)]
pub struct LineNumberTableElement {
    pub start_pc: u16,
    pub line_number: u16,
}

#[derive(Debug)]
pub struct LocalVariableTableAttribute {
    pub attribute_name_index: u16,
    pub attribute_length: u32,
    pub local_variable_table_length: u16,
    pub local_variable_table: Vec<LocalVariableTableElement>,
}

#[derive(Debug, Clone, Copy, PartialEq, Eq, Structural)]
pub struct LocalVariableTableElement {
    pub start_pc: u16,
    pub length: u16,
    pub name_index: u16,
    pub descriptor_index: u16,
    pub index: u16,
}

#[derive(Debug)]
pub struct LocalVariableTypeTableAttribute {
    pub attribute_name_index: u16,
    pub attribute_length: u32,
    pub local_variable_type_table_length: u16,
    pub local_variable_type_table: Vec<LocalVariableTypeTableElement>,
}

#[derive(Debug, Clone, Copy, PartialEq, Eq, Structural)]
pub struct LocalVariableTypeTableElement {
    pub start_pc: u16,
    pub length: u16,
    pub name_index: u16,
    pub signature_index: u16,
    pub index: u16,
}

#[derive(Debug, Clone, Copy, PartialEq, Eq, Structural)]
pub struct DeprecatedAttribute {
    pub attribute_name_index: u16,
    pub attribute_length: u32,
}

/// When a scan finds the needle at `i` with no earlier match, `i` is the
/// first index of the needle.
pub proof fn lemma_first_hit<A>(s: Seq<A>, needle: A, i: int)
    requires
        0 <= i < s.len(),
        s[i] == needle,
        forall|j: int| 0 <= j < i ==> s[j] != needle,
    ensures
        s.index_of_first(needle) == Some(i),
{
    s.index_of_first_ensures(needle);
}

/// When a scan finds no match at all, the needle has no first index.
pub proof fn lemma_no_hit<A>(s: Seq<A>, needle: A)
    requires
        forall|j: int| 0 <= j < s.len() ==> s[j] != needle,
    ensures
        s.index_of_first(needle) is None,
{
    s.index_of_first_ensures(needle);
}

} // verus!
