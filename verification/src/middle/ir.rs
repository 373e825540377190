//! The three-address intermediate representation and the state used while
//! generating it.
use vstd::prelude::*;

use crate::back::target::Target;
use crate::front::nodes::types::{PrimitiveType, SpecType, Type};
use crate::text::{chars_of, digits, nat_string, same_text};

verus! {

// ---------------------------------------------------------------------------
// Keyed entries
// ---------------------------------------------------------------------------

/// The value stored under key `k` in a list of entries: that of the last entry
/// with that key, as a map that overwrites on insertion would give.
pub open spec fn entry_lookup<V>(v: Seq<(Seq<char>, V)>, k: Seq<char>) -> Option<V>
    decreases v.len(),
{
    if v.len() == 0 {
        None
    } else if v.last().0 == k {
        Some(v.last().1)
    } else {
        entry_lookup(v.drop_last(), k)
    }
}

/// The keys of a list of entries, as character sequences, with the values.
pub open spec fn offsets_view(v: Seq<(String, i32)>) -> Seq<(Seq<char>, i32)> {
    v.map_values(|e: (String, i32)| (e.0@, e.1))
}

/// The index of the last entry of `v` whose key is `k`.
pub(crate) fn find_offset(v: &Vec<(String, i32)>, k: &str) -> (r: Option<usize>)
    ensures
        match r {
            None => entry_lookup(offsets_view(v@), k@) is None,
            Some(i) => i < v.len() && v@[i as int].0@ == k@
                && entry_lookup(offsets_view(v@), k@) == Some(v@[i as int].1)
                && forall|j: int| i < j < v.len() ==> (#[trigger] v@[j]).0@ != k@,
        },
{
    let mut i = v.len();
    assert(v@.take(i as int) =~= v@);
    while i > 0
        invariant
            i <= v.len(),
            entry_lookup(offsets_view(v@), k@) == entry_lookup(offsets_view(v@.take(i as int)), k@),
            forall|j: int| i <= j < v.len() ==> (#[trigger] v@[j]).0@ != k@,
        decreases i,
    {
        assert(offsets_view(v@.take(i as int)).drop_last() =~= offsets_view(v@.take(i - 1)));
        assert(offsets_view(v@.take(i as int)).last() == (v@[i - 1].0@, v@[i - 1].1));
        if same_text(v[i - 1].0.as_str(), k) {
            return Some(i - 1);
        }
        i -= 1;
    }
    assert(offsets_view(v@.take(0)) =~= Seq::<(Seq<char>, i32)>::empty());
    None
}

// ---------------------------------------------------------------------------
// IR types
// ---------------------------------------------------------------------------

#[derive(Debug)]
pub enum IRType {
    Void,
    Int(i32),
    Float(i32),
    Char(i32),
    Str(i32),
    Bool(i32),
    Compound(Vec<IRType>),
}

/// The mathematical value of an [`IRType`].
pub enum SpecIRType {
    Void,
    Int(i32),
    Float(i32),
    Char(i32),
    Str(i32),
    Bool(i32),
    Compound(Seq<SpecIRType>),
}

pub open spec fn ir_types_view(ts: Seq<IRType>) -> Seq<SpecIRType>
    decreases ts,
{
    if ts.len() == 0 {
        Seq::empty()
    } else {
        ir_types_view(ts.drop_last()).push(ts.last().view())
    }
}

impl View for IRType {
    type V = SpecIRType;

    open spec fn view(&self) -> SpecIRType
        decreases self,
    {
        match self {
            IRType::Void => SpecIRType::Void,
            IRType::Int(w) => SpecIRType::Int(*w),
            IRType::Float(w) => SpecIRType::Float(*w),
            IRType::Char(w) => SpecIRType::Char(*w),
            IRType::Str(w) => SpecIRType::Str(*w),
            IRType::Bool(w) => SpecIRType::Bool(*w),
            IRType::Compound(ts) => SpecIRType::Compound(ir_types_view(ts@)),
        }
    }
}

pub proof fn lemma_ir_types_view(ts: Seq<IRType>)
    ensures
        ir_types_view(ts).len() == ts.len(),
        forall|i: int| 0 <= i < ts.len() ==> #[trigger] ir_types_view(ts)[i] == ts[i]@,
    decreases ts.len(),
{
    if ts.len() > 0 {
        lemma_ir_types_view(ts.drop_last());
        assert(ir_types_view(ts) == ir_types_view(ts.drop_last()).push(ts.last().view()));
        assert forall|i: int| 0 <= i < ts.len() implies #[trigger] ir_types_view(ts)[i] == ts[i]@ by {
            if i < ts.len() - 1 {
                assert(ts.drop_last()[i] == ts[i]);
            }
        }
    } else {
        assert(ir_types_view(ts) == Seq::<SpecIRType>::empty());
    }
}

/// The size in bytes of a type: its width, 0 for `Void`, and the sum of the
/// members' sizes for a compound type.
pub open spec fn ir_size(t: SpecIRType) -> int
    decreases t,
{
    match t {
        SpecIRType::Void => 0,
        SpecIRType::Int(w) => w as int,
        SpecIRType::Float(w) => w as int,
        SpecIRType::Char(w) => w as int,
        SpecIRType::Str(w) => w as int,
        SpecIRType::Bool(w) => w as int,
        SpecIRType::Compound(ts) => ir_sizes_sum(ts),
    }
}

pub open spec fn ir_sizes_sum(ts: Seq<SpecIRType>) -> int
    decreases ts,
{
    if ts.len() == 0 {
        0
    } else {
        ir_sizes_sum(ts.drop_last()) + ir_size(ts.last())
    }
}

/// Whether computing the size of `t` stays within `i32`: every member's size
/// does, and so does every running total of a compound type's members.
pub open spec fn ir_size_fits(t: SpecIRType) -> bool
    decreases t,
{
    match t {
        SpecIRType::Compound(ts) => ir_sizes_fit(ts),
        _ => true,
    }
}

pub open spec fn ir_sizes_fit(ts: Seq<SpecIRType>) -> bool
    decreases ts,
{
    if ts.len() == 0 {
        true
    } else {
        &&& ir_sizes_fit(ts.drop_last())
        &&& ir_size_fits(ts.last())
        &&& i32::MIN <= ir_size(ts.last()) <= i32::MAX
        &&& i32::MIN <= ir_sizes_sum(ts) <= i32::MAX
    }
}

/// The IR type of a source-language name: `int`, `float`, `char`, `string`, `bool`.
pub open spec fn ir_type_named(name: Seq<char>) -> Option<SpecIRType> {
    if name == seq!['i', 'n', 't'] {
        Some(SpecIRType::Int(4))
    } else if name == seq!['f', 'l', 'o', 'a', 't'] {
        Some(SpecIRType::Float(4))
    } else if name == seq!['c', 'h', 'a', 'r'] {
        Some(SpecIRType::Char(1))
    } else if name == seq!['s', 't', 'r', 'i', 'n', 'g'] {
        Some(SpecIRType::Str(8))
    } else if name == seq!['b', 'o', 'o', 'l'] {
        Some(SpecIRType::Bool(1))
    } else {
        None
    }
}

/// The IR type of a source type, for the primitive types that have one.
pub open spec fn ir_type_of(t: SpecType) -> Option<SpecIRType> {
    match t {
        SpecType::Primitive(PrimitiveType::I32) => Some(SpecIRType::Int(4)),
        SpecType::Primitive(PrimitiveType::F32) => Some(SpecIRType::Float(4)),
        SpecType::Primitive(PrimitiveType::Char) => Some(SpecIRType::Char(1)),
        SpecType::Primitive(PrimitiveType::Str) => Some(SpecIRType::Str(8)),
        SpecType::Primitive(PrimitiveType::Bool) => Some(SpecIRType::Bool(1)),
        _ => None,
    }
}

impl IRType {
    /// The IR type of a type name; the name must be one of `int`, `float`,
    /// `char`, `string` and `bool`.
    pub fn from_str(name: &str) -> (t: Self)
        requires
            ir_type_named(name@) is Some,
        ensures
            ir_type_named(name@) == Some(t@),
    {
        let v = chars_of(name);
        proof {
            assert(['i', 'n', 't']@ =~= seq!['i', 'n', 't']);
            assert(['f', 'l', 'o', 'a', 't']@ =~= seq!['f', 'l', 'o', 'a', 't']);
            assert(['c', 'h', 'a', 'r']@ =~= seq!['c', 'h', 'a', 'r']);
            assert(['s', 't', 'r', 'i', 'n', 'g']@ =~= seq!['s', 't', 'r', 'i', 'n', 'g']);
        }
        if crate::front::nodes::types::chars_are(&v, &['i', 'n', 't']) {
            IRType::Int(4)
        } else if crate::front::nodes::types::chars_are(&v, &['f', 'l', 'o', 'a', 't']) {
            IRType::Float(4)
        } else if crate::front::nodes::types::chars_are(&v, &['c', 'h', 'a', 'r']) {
            IRType::Char(1)
        } else if crate::front::nodes::types::chars_are(&v, &['s', 't', 'r', 'i', 'n', 'g']) {
            IRType::Str(8)
        } else {
            assert(['b', 'o', 'o', 'l']@ =~= seq!['b', 'o', 'o', 'l']);
            IRType::Bool(1)
        }
    }

    /// The IR type of a source type; it must be `i32`, `f32`, `char`, `str` or `bool`.
    pub fn from_type(t: &Type) -> (r: Self)
        requires
            ir_type_of(t@) is Some,
        ensures
            ir_type_of(t@) == Some(r@),
    {
        match t {
            Type::Primitive(PrimitiveType::I32) => IRType::Int(4),
            Type::Primitive(PrimitiveType::F32) => IRType::Float(4),
            Type::Primitive(PrimitiveType::Char) => IRType::Char(1),
            Type::Primitive(PrimitiveType::Str) => IRType::Str(8),
            _ => IRType::Bool(1),
        }
    }

    /// The size in bytes of the type.
    #[verifier::loop_isolation(false)]
    pub fn size(&self) -> (n: i32)
        requires
            ir_size_fits(self@),
        ensures
            n == ir_size(self@),
        decreases self,
    {
        match self {
            IRType::Void => 0,
            IRType::Int(width) => *width,
            IRType::Float(width) => *width,
            IRType::Char(width) => *width,
            IRType::Str(width) => *width,
            IRType::Bool(width) => *width,
            IRType::Compound(types) => {
                proof {
                    lemma_ir_types_view(types@);
                }
                let ghost vs = ir_types_view(types@);
                let mut total: i32 = 0;
                let mut i: usize = 0;
                while i < types.len()
                    invariant
                        i <= types.len(),
                        vs.len() == types.len(),
                        vs == ir_types_view(types@),
                        forall|j: int| 0 <= j < types.len() ==> #[trigger] vs[j] == types@[j]@,
                        ir_sizes_fit(vs),
                        total == ir_sizes_sum(vs.take(i as int)),
                        self@ == SpecIRType::Compound(vs),
                    decreases types.len() - i,
                {
                    proof {
                        lemma_sizes_fit_prefix(vs, i + 1);
                        assert(vs.take(i + 1).drop_last() =~= vs.take(i as int));
                        assert(vs.take(i + 1).last() == vs[i as int]);
                    }
                    assert(decreases_to!(self => types@[i as int]));
                    let s = types[i].size();
                    total = total + s;
                    i += 1;
                }
                assert(vs.take(i as int) =~= vs);
                total
            },
        }
    }
}

/// The running totals of a type list that fits also fit for its prefixes.
proof fn lemma_sizes_fit_prefix(ts: Seq<SpecIRType>, k: int)
    requires
        ir_sizes_fit(ts),
        0 <= k <= ts.len(),
    ensures
        ir_sizes_fit(ts.take(k)),
        k > 0 ==> ir_size_fits(ts[k - 1]) && i32::MIN <= ir_size(ts[k - 1]) <= i32::MAX,
        i32::MIN <= ir_sizes_sum(ts.take(k)) <= i32::MAX,
    decreases ts.len(),
{
    if k == ts.len() {
        assert(ts.take(k) =~= ts);
        if ts.len() == 0 {
            assert(ir_sizes_sum(ts) == 0);
        }
    } else {
        assert(ts.drop_last().take(k) =~= ts.take(k));
        lemma_sizes_fit_prefix(ts.drop_last(), k);
    }
}

impl Clone for IRType {
    #[verifier::loop_isolation(false)]
    fn clone(&self) -> (r: Self)
        ensures
            r@ == self@,
        decreases self,
    {
        match self {
            IRType::Void => IRType::Void,
            IRType::Int(w) => IRType::Int(*w),
            IRType::Float(w) => IRType::Float(*w),
            IRType::Char(w) => IRType::Char(*w),
            IRType::Str(w) => IRType::Str(*w),
            IRType::Bool(w) => IRType::Bool(*w),
            IRType::Compound(ts) => {
                proof {
                    lemma_ir_types_view(ts@);
                }
                let mut out: Vec<IRType> = Vec::new();
                let mut i: usize = 0;
                while i < ts.len()
                    invariant
                        i <= ts.len(),
                        out.len() == i,
                        forall|j: int| 0 <= j < i ==> #[trigger] out@[j]@ == ts@[j]@,
                    decreases ts.len() - i,
                {
                    assert(decreases_to!(self => ts@[i as int]));
                    let c = ts[i].clone();
                    out.push(c);
                    i += 1;
                }
                proof {
                    lemma_ir_types_view(out@);
                    assert(ir_types_view(out@) =~= ir_types_view(ts@));
                }
                IRType::Compound(out)
            },
        }
    }
}

// ---------------------------------------------------------------------------
// Instructions
// ---------------------------------------------------------------------------

#[derive(Debug)]
pub enum IRInstruction {
    Add { dest: String, op1: String, op2: String },
    Sub { dest: String, op1: String, op2: String },
    Mul { dest: String, op1: String, op2: String },
    Div { dest: String, op1: String, op2: String },
    Mod { dest: String, op1: String, op2: String },
    And { dest: String, op1: String, op2: String },
    Or { dest: String, op1: String, op2: String },
    Xor { dest: String, op1: String, op2: String },
    ShiftLeft { dest: String, op1: String, op2: String },
    ShiftRight { dest: String, op1: String, op2: String },
    Not { dest: String, src: String },
    Load { dest: String, src: String },
    Store { dest: String, src: String },
    Call { dest: String, fn_id: String, args: Vec<String> },
    Branch { condition: String, true_label: String, false_label: String },
    Return { value: String },
    AllocStack { name: String, var_type: IRType, initial_value: Option<String> },
    Assign { dest: String, src: String },
    Label(String),
    LoadConstant { dest: String, value: i64 },
}

/// The mathematical value of an [`IRInstruction`].
pub enum SpecInstr {
    Add { dest: Seq<char>, op1: Seq<char>, op2: Seq<char> },
    Sub { dest: Seq<char>, op1: Seq<char>, op2: Seq<char> },
    Mul { dest: Seq<char>, op1: Seq<char>, op2: Seq<char> },
    Div { dest: Seq<char>, op1: Seq<char>, op2: Seq<char> },
    Mod { dest: Seq<char>, op1: Seq<char>, op2: Seq<char> },
    And { dest: Seq<char>, op1: Seq<char>, op2: Seq<char> },
    Or { dest: Seq<char>, op1: Seq<char>, op2: Seq<char> },
    Xor { dest: Seq<char>, op1: Seq<char>, op2: Seq<char> },
    ShiftLeft { dest: Seq<char>, op1: Seq<char>, op2: Seq<char> },
    ShiftRight { dest: Seq<char>, op1: Seq<char>, op2: Seq<char> },
    Not { dest: Seq<char>, src: Seq<char> },
    Load { dest: Seq<char>, src: Seq<char> },
    Store { dest: Seq<char>, src: Seq<char> },
    Call { dest: Seq<char>, fn_id: Seq<char>, args: Seq<Seq<char>> },
    Branch { condition: Seq<char>, true_label: Seq<char>, false_label: Seq<char> },
    Return { value: Seq<char> },
    AllocStack { name: Seq<char>, var_type: SpecIRType, initial_value: Option<Seq<char>> },
    Assign { dest: Seq<char>, src: Seq<char> },
    Label(Seq<char>),
    LoadConstant { dest: Seq<char>, value: i64 },
}

pub open spec fn strings_view(v: Seq<String>) -> Seq<Seq<char>> {
    v.map_values(|s: String| s@)
}

impl View for IRInstruction {
    type V = SpecInstr;

    open spec fn view(&self) -> SpecInstr {
        match self {
            IRInstruction::Add { dest, op1, op2 } => SpecInstr::Add { dest: dest@, op1: op1@, op2: op2@ },
            IRInstruction::Sub { dest, op1, op2 } => SpecInstr::Sub { dest: dest@, op1: op1@, op2: op2@ },
            IRInstruction::Mul { dest, op1, op2 } => SpecInstr::Mul { dest: dest@, op1: op1@, op2: op2@ },
            IRInstruction::Div { dest, op1, op2 } => SpecInstr::Div { dest: dest@, op1: op1@, op2: op2@ },
            IRInstruction::Mod { dest, op1, op2 } => SpecInstr::Mod { dest: dest@, op1: op1@, op2: op2@ },
            IRInstruction::And { dest, op1, op2 } => SpecInstr::And { dest: dest@, op1: op1@, op2: op2@ },
            IRInstruction::Or { dest, op1, op2 } => SpecInstr::Or { dest: dest@, op1: op1@, op2: op2@ },
            IRInstruction::Xor { dest, op1, op2 } => SpecInstr::Xor { dest: dest@, op1: op1@, op2: op2@ },
            IRInstruction::ShiftLeft { dest, op1, op2 } => SpecInstr::ShiftLeft { dest: dest@, op1: op1@, op2: op2@ },
            IRInstruction::ShiftRight { dest, op1, op2 } => SpecInstr::ShiftRight { dest: dest@, op1: op1@, op2: op2@ },
            IRInstruction::Not { dest, src } => SpecInstr::Not { dest: dest@, src: src@ },
            IRInstruction::Load { dest, src } => SpecInstr::Load { dest: dest@, src: src@ },
            IRInstruction::Store { dest, src } => SpecInstr::Store { dest: dest@, src: src@ },
            IRInstruction::Call { dest, fn_id, args } => SpecInstr::Call { dest: dest@, fn_id: fn_id@, args: strings_view(args@) },
            IRInstruction::Branch { condition, true_label, false_label } => SpecInstr::Branch {
                condition: condition@,
                true_label: true_label@,
                false_label: false_label@,
            },
            IRInstruction::Return { value } => SpecInstr::Return { value: value@ },
            IRInstruction::AllocStack { name, var_type, initial_value } => SpecInstr::AllocStack {
                name: name@,
                var_type: var_type@,
                initial_value: match initial_value {
                    Some(v) => Some(v@),
                    None => None,
                },
            },
            IRInstruction::Assign { dest, src } => SpecInstr::Assign { dest: dest@, src: src@ },
            IRInstruction::Label(l) => SpecInstr::Label(l@),
            IRInstruction::LoadConstant { dest, value } => SpecInstr::LoadConstant { dest: dest@, value: *value },
        }
    }
}

pub open spec fn instrs_view(v: Seq<IRInstruction>) -> Seq<SpecInstr> {
    v.map_values(|i: IRInstruction| i@)
}

pub(crate) fn clone_strings(v: &Vec<String>) -> (r: Vec<String>)
    ensures
        strings_view(r@) == strings_view(v@),
{
    let mut r: Vec<String> = Vec::new();
    let mut i: usize = 0;
    while i < v.len()
        invariant
            i <= v.len(),
            r.len() == i,
            forall|j: int| 0 <= j < i ==> (#[trigger] r@[j])@ == v@[j]@,
        decreases v.len() - i,
    {
        r.push(v[i].clone());
        i += 1;
    }
    assert(strings_view(r@) =~= strings_view(v@));
    r
}

impl Clone for IRInstruction {
    fn clone(&self) -> (r: Self)
        ensures
            r@ == self@,
    {
        match self {
            IRInstruction::Add { dest, op1, op2 } => IRInstruction::Add { dest: dest.clone(), op1: op1.clone(), op2: op2.clone() },
            IRInstruction::Sub { dest, op1, op2 } => IRInstruction::Sub { dest: dest.clone(), op1: op1.clone(), op2: op2.clone() },
            IRInstruction::Mul { dest, op1, op2 } => IRInstruction::Mul { dest: dest.clone(), op1: op1.clone(), op2: op2.clone() },
            IRInstruction::Div { dest, op1, op2 } => IRInstruction::Div { dest: dest.clone(), op1: op1.clone(), op2: op2.clone() },
            IRInstruction::Mod { dest, op1, op2 } => IRInstruction::Mod { dest: dest.clone(), op1: op1.clone(), op2: op2.clone() },
            IRInstruction::And { dest, op1, op2 } => IRInstruction::And { dest: dest.clone(), op1: op1.clone(), op2: op2.clone() },
            IRInstruction::Or { dest, op1, op2 } => IRInstruction::Or { dest: dest.clone(), op1: op1.clone(), op2: op2.clone() },
            IRInstruction::Xor { dest, op1, op2 } => IRInstruction::Xor { dest: dest.clone(), op1: op1.clone(), op2: op2.clone() },
            IRInstruction::ShiftLeft { dest, op1, op2 } => IRInstruction::ShiftLeft { dest: dest.clone(), op1: op1.clone(), op2: op2.clone() },
            IRInstruction::ShiftRight { dest, op1, op2 } => IRInstruction::ShiftRight { dest: dest.clone(), op1: op1.clone(), op2: op2.clone() },
            IRInstruction::Not { dest, src } => IRInstruction::Not { dest: dest.clone(), src: src.clone() },
            IRInstruction::Load { dest, src } => IRInstruction::Load { dest: dest.clone(), src: src.clone() },
            IRInstruction::Store { dest, src } => IRInstruction::Store { dest: dest.clone(), src: src.clone() },
            IRInstruction::Call { dest, fn_id, args } => IRInstruction::Call {
                dest: dest.clone(),
                fn_id: fn_id.clone(),
                args: clone_strings(args),
            },
            IRInstruction::Branch { condition, true_label, false_label } => IRInstruction::Branch {
                condition: condition.clone(),
                true_label: true_label.clone(),
                false_label: false_label.clone(),
            },
            IRInstruction::Return { value } => IRInstruction::Return { value: value.clone() },
            IRInstruction::AllocStack { name, var_type, initial_value } => IRInstruction::AllocStack {
                name: name.clone(),
                var_type: var_type.clone(),
                initial_value: match initial_value {
                    Some(v) => Some(v.clone()),
                    None => None,
                },
            },
            IRInstruction::Assign { dest, src } => IRInstruction::Assign { dest: dest.clone(), src: src.clone() },
            IRInstruction::Label(l) => IRInstruction::Label(l.clone()),
            IRInstruction::LoadConstant { dest, value } => IRInstruction::LoadConstant { dest: dest.clone(), value: *value },
        }
    }
}

// ---------------------------------------------------------------------------
// Functions, units and modules
// ---------------------------------------------------------------------------

#[derive(Debug)]
pub struct IRFunction {
    pub id: String,
    pub instructions: Vec<IRInstruction>,
}

/// The mathematical value of an [`IRFunction`].
pub struct SpecIRFunction {
    pub id: Seq<char>,
    pub instructions: Seq<SpecInstr>,
}

impl View for IRFunction {
    type V = SpecIRFunction;

    open spec fn view(&self) -> SpecIRFunction {
        SpecIRFunction { id: self.id@, instructions: instrs_view(self.instructions@) }
    }
}

#[derive(Debug)]
pub enum IRUnit {
    Global(Vec<IRInstruction>),
    Function(IRFunction),
}

/// The mathematical value of an [`IRUnit`].
pub enum SpecUnit {
    Global(Seq<SpecInstr>),
    Function(SpecIRFunction),
}

impl View for IRUnit {
    type V = SpecUnit;

    open spec fn view(&self) -> SpecUnit {
        match self {
            IRUnit::Global(v) => SpecUnit::Global(instrs_view(v@)),
            IRUnit::Function(f) => SpecUnit::Function(f@),
        }
    }
}

pub open spec fn units_view(v: Seq<IRUnit>) -> Seq<SpecUnit> {
    v.map_values(|u: IRUnit| u@)
}

#[derive(Debug)]
pub struct IRModule {
    pub globals: Vec<IRInstruction>,
    pub functions: Vec<IRFunction>,
}

pub open spec fn functions_view(v: Seq<IRFunction>) -> Seq<SpecIRFunction> {
    v.map_values(|f: IRFunction| f@)
}

impl IRModule {
    pub fn new() -> (m: Self)
        ensures
            m.globals@.len() == 0,
            m.functions@.len() == 0,
    {
        IRModule { globals: Vec::new(), functions: Vec::new() }
    }
}

/// The global instructions of units, in order.
pub open spec fn module_globals(units: Seq<SpecUnit>) -> Seq<SpecInstr>
    decreases units.len(),
{
    if units.len() == 0 {
        Seq::empty()
    } else {
        module_globals(units.drop_last()) + match units.last() {
            SpecUnit::Global(v) => v,
            SpecUnit::Function(_) => Seq::empty(),
        }
    }
}

/// The functions of units, in order.
pub open spec fn module_functions(units: Seq<SpecUnit>) -> Seq<SpecIRFunction>
    decreases units.len(),
{
    if units.len() == 0 {
        Seq::empty()
    } else {
        module_functions(units.drop_last()) + match units.last() {
            SpecUnit::Global(_) => Seq::empty(),
            SpecUnit::Function(f) => seq![f],
        }
    }
}

pub proof fn lemma_module_concat(a: Seq<SpecUnit>, b: Seq<SpecUnit>)
    ensures
        module_globals(a + b) == module_globals(a) + module_globals(b),
        module_functions(a + b) == module_functions(a) + module_functions(b),
    decreases b.len(),
{
    if b.len() == 0 {
        assert(a + b =~= a);
        assert(module_globals(a) + module_globals(b) =~= module_globals(a));
        assert(module_functions(a) + module_functions(b) =~= module_functions(a));
    } else {
        lemma_module_concat(a, b.drop_last());
        assert((a + b).drop_last() =~= a + b.drop_last());
        assert((a + b).last() == b.last());
        assert(module_globals(a + b) =~= module_globals(a) + module_globals(b));
        assert(module_functions(a + b) =~= module_functions(a) + module_functions(b));
    }
}

impl IRModule {
    /// Moves the units into the module: global instructions to the end of its
    /// globals, functions to the end of its functions.
    pub fn add_units(&mut self, units: Vec<IRUnit>)
        ensures
            instrs_view(final(self).globals@) == instrs_view(old(self).globals@) + module_globals(units_view(units@)),
            functions_view(final(self).functions@) == functions_view(old(self).functions@) + module_functions(units_view(units@)),
    {
        let ghost all = units_view(units@);
        let ghost g0 = instrs_view(self.globals@);
        let ghost f0 = functions_view(self.functions@);
        let mut rest = units;
        let ghost done: int = 0;
        while rest.len() > 0
            invariant
                0 <= done <= all.len(),
                units_view(rest@) == all.skip(done),
                instrs_view(self.globals@) == g0 + module_globals(all.take(done)),
                functions_view(self.functions@) == f0 + module_functions(all.take(done)),
            decreases rest.len(),
        {
            let ghost old_rest = rest@;
            let unit = rest.remove(0);
            proof {
                assert(units_view(old_rest).len() == old_rest.len());
                assert(all.skip(done)[0] == unit@);
                assert(rest@ =~= old_rest.subrange(1, old_rest.len() as int));
                assert forall|j: int| 0 <= j < rest@.len() implies #[trigger] units_view(rest@)[j] == all.skip(done + 1)[j] by {
                    assert(rest@[j] == old_rest[j + 1]);
                    assert(units_view(old_rest)[j + 1] == all.skip(done)[j + 1]);
                }
                assert(units_view(rest@) =~= all.skip(done + 1));
                assert(all.take(done + 1).drop_last() =~= all.take(done));
                assert(all.take(done + 1).last() == unit@);
            }
            let ghost gb = self.globals@;
            let ghost fb = self.functions@;
            let ghost next = all.take(done + 1);
            match unit {
                IRUnit::Global(mut instrs) => {
                    let ghost iv = instrs@;
                    self.globals.append(&mut instrs);
                    proof {
                        assert(instrs_view(self.globals@) =~= instrs_view(gb) + instrs_view(iv));
                        assert(module_globals(next) == module_globals(next.drop_last()) + instrs_view(iv));
                        assert(module_functions(next) =~= module_functions(next.drop_last()));
                        assert(self.functions@ == fb);
                    }
                },
                IRUnit::Function(func) => {
                    let ghost fv = func@;
                    self.functions.push(func);
                    proof {
                        assert(functions_view(self.functions@) =~= functions_view(fb).push(fv));
                        assert(module_functions(next) == module_functions(next.drop_last()) + seq![fv]);
                        assert(module_globals(next) =~= module_globals(next.drop_last()));
                        assert(self.globals@ == gb);
                    }
                },
            }
            proof {
                done = done + 1;
                assert(instrs_view(self.globals@) =~= g0 + module_globals(all.take(done)));
                assert(functions_view(self.functions@) =~= f0 + module_functions(all.take(done)));
            }
        }
        assert(all.take(done) =~= all);
    }
}

/// The instructions of a unit: a global unit's, or a function's body.
pub open spec fn unit_instrs(u: SpecUnit) -> Seq<SpecInstr> {
    match u {
        SpecUnit::Global(v) => v,
        SpecUnit::Function(f) => f.instructions,
    }
}

/// The instructions of all units, in order.
pub open spec fn flatten_spec(units: Seq<SpecUnit>) -> Seq<SpecInstr>
    decreases units.len(),
{
    if units.len() == 0 {
        Seq::empty()
    } else {
        flatten_spec(units.drop_last()) + unit_instrs(units.last())
    }
}

/// The instructions of all units, in order: those of a global unit, and the
/// body of a function.
pub fn flatten_units(units: Vec<IRUnit>) -> (r: Vec<IRInstruction>)
    ensures
        instrs_view(r@) == flatten_spec(units_view(units@)),
{
    let ghost all = units_view(units@);
    let mut rest = units;
    let mut result: Vec<IRInstruction> = Vec::new();
    let ghost done: int = 0;
    while rest.len() > 0
        invariant
            0 <= done <= all.len(),
            units_view(rest@) == all.skip(done),
            instrs_view(result@) == flatten_spec(all.take(done)),
        decreases rest.len(),
    {
        let ghost old_rest = rest@;
        let unit = rest.remove(0);
        proof {
            assert(units_view(old_rest).len() == old_rest.len());
            assert(all.skip(done)[0] == unit@);
            assert(rest@ =~= old_rest.subrange(1, old_rest.len() as int));
            assert forall|j: int| 0 <= j < rest@.len() implies #[trigger] units_view(rest@)[j] == all.skip(done + 1)[j] by {
                assert(rest@[j] == old_rest[j + 1]);
                assert(units_view(old_rest)[j + 1] == all.skip(done)[j + 1]);
            }
            assert(units_view(rest@) =~= all.skip(done + 1));
            assert(all.take(done + 1).drop_last() =~= all.take(done));
        }
        let ghost before = result@;
        match unit {
            IRUnit::Global(mut instrs) => {
                result.append(&mut instrs);
            },
            IRUnit::Function(mut func) => {
                result.append(&mut func.instructions);
            },
        }
        proof {
            done = done + 1;
            assert(instrs_view(result@) =~= flatten_spec(all.take(done)));
        }
    }
    assert(all.take(done) =~= all);
    result
}

// ---------------------------------------------------------------------------
// The generation context
// ---------------------------------------------------------------------------

pub struct IRContext {
    pub temp_count: usize,
    pub label_count: usize,
    /// Variable names with their IR types.
    pub symbol_table: Vec<(String, IRType)>,
    /// Variable names with their stack offsets, relative to `%rbp`.
    pub stack_allocations: Vec<(String, i32)>,
    /// The offset of the last allocated variable: it starts at 0 and goes down
    /// by the size of each variable allocated.
    pub current_stack_offset: i32,
    pub target: Target,
}

/// The name of temporary number `n`: `t` and the number.
pub open spec fn temp_name(n: nat) -> Seq<char> {
    seq!['t'] + digits(n)
}

/// The name of label number `n`: `L` and the number.
pub open spec fn label_name(n: nat) -> Seq<char> {
    seq!['L'] + digits(n)
}

pub(crate) fn numbered(c: char, n: usize) -> (s: String)
    ensures
        s@ == seq![c] + digits(n as nat),
{
    let mut v: Vec<char> = Vec::new();
    v.push(c);
    let d = nat_string(n as u64);
    let dv = chars_of(d.as_str());
    let mut i: usize = 0;
    while i < dv.len()
        invariant
            i <= dv.len(),
            v@ == seq![c] + dv@.take(i as int),
        decreases dv.len() - i,
    {
        v.push(dv[i]);
        i += 1;
        assert(v@ =~= seq![c] + dv@.take(i as int));
    }
    assert(dv@.take(i as int) =~= dv@);
    crate::text::string_from_chars(&v)
}

impl IRContext {
    pub fn new(target: Target) -> (c: Self)
        ensures
            c.temp_count == 0,
            c.label_count == 0,
            c.symbol_table@.len() == 0,
            c.stack_allocations@.len() == 0,
            c.current_stack_offset == 0,
            c.target == target,
    {
        IRContext {
            temp_count: 0,
            label_count: 0,
            symbol_table: Vec::new(),
            stack_allocations: Vec::new(),
            current_stack_offset: 0,
            target,
        }
    }

    /// The stack offset recorded for a variable.
    pub open spec fn offset_of(&self, name: Seq<char>) -> Option<i32> {
        entry_lookup(offsets_view(self.stack_allocations@), name)
    }

    /// Allocates a new temporary: the counter goes up by one and the name is
    /// `t` followed by its new value.
    pub fn allocate_temp(&mut self) -> (t: String)
        requires
            old(self).temp_count < usize::MAX,
        ensures
            final(self).temp_count == old(self).temp_count + 1,
            t@ == temp_name(final(self).temp_count as nat),
            final(self).label_count == old(self).label_count,
            final(self).stack_allocations == old(self).stack_allocations,
            final(self).symbol_table == old(self).symbol_table,
            final(self).current_stack_offset == old(self).current_stack_offset,
            final(self).target == old(self).target,
    {
        self.temp_count += 1;
        numbered('t', self.temp_count)
    }

    /// Allocates a new label: the counter goes up by one and the name is `L`
    /// followed by its new value.
    pub fn allocate_label(&mut self) -> (l: String)
        requires
            old(self).label_count < usize::MAX,
        ensures
            final(self).label_count == old(self).label_count + 1,
            l@ == label_name(final(self).label_count as nat),
            final(self).temp_count == old(self).temp_count,
            final(self).stack_allocations == old(self).stack_allocations,
            final(self).symbol_table == old(self).symbol_table,
            final(self).current_stack_offset == old(self).current_stack_offset,
            final(self).target == old(self).target,
    {
        self.label_count += 1;
        numbered('L', self.label_count)
    }

    /// Allocates a variable on the stack: the running offset goes down by the
    /// type's size, and the variable is recorded at the new offset, which is returned.
    pub fn allocate_variable(&mut self, name: &str, var_type: &IRType) -> (offset: i32)
        requires
            ir_size_fits(var_type@),
            i32::MIN <= old(self).current_stack_offset - ir_size(var_type@) <= i32::MAX,
        ensures
            offset == old(self).current_stack_offset - ir_size(var_type@),
            final(self).current_stack_offset == offset,
            offsets_view(final(self).stack_allocations@) == offsets_view(old(self).stack_allocations@).push((name@, offset)),
            final(self).offset_of(name@) == Some(offset),
            forall|o: Seq<char>| o != name@ ==> final(self).offset_of(o) == old(self).offset_of(o),
            final(self).temp_count == old(self).temp_count,
            final(self).label_count == old(self).label_count,
            final(self).symbol_table == old(self).symbol_table,
            final(self).target == old(self).target,
    {
        let size = var_type.size();
        self.current_stack_offset = self.current_stack_offset - size;
        let offset = self.current_stack_offset;
        let ghost before = self.stack_allocations@;
        self.stack_allocations.push((String::from_str(name), offset));
        proof {
            assert(offsets_view(self.stack_allocations@) =~= offsets_view(before).push((name@, offset)));
            assert(offsets_view(self.stack_allocations@).drop_last() =~= offsets_view(before));
        }
        offset
    }
}

} // verus!

verus! {

// ---------------------------------------------------------------------------
// Laws
// ---------------------------------------------------------------------------

/// Temporaries allocated at different counts have different names, and so
/// have labels: each allocation gives a fresh name.
pub proof fn law_fresh_names(n: nat, m: nat)
    requires
        n != m,
    ensures
        temp_name(n) != temp_name(m),
        label_name(n) != label_name(m),
{
    if temp_name(n) == temp_name(m) {
        assert(temp_name(n).drop_first() =~= digits(n));
        assert(temp_name(m).drop_first() =~= digits(m));
        crate::text::law_digits_injective(n, m);
    }
    if label_name(n) == label_name(m) {
        assert(label_name(n).drop_first() =~= digits(n));
        assert(label_name(m).drop_first() =~= digits(m));
        crate::text::law_digits_injective(n, m);
    }
}

/// Flattening units one after the other gives their instructions one after
/// the other.
pub proof fn law_flatten_concat(a: Seq<SpecUnit>, b: Seq<SpecUnit>)
    ensures
        flatten_spec(a + b) == flatten_spec(a) + flatten_spec(b),
    decreases b.len(),
{
    if b.len() == 0 {
        assert(a + b =~= a);
        assert(flatten_spec(a) + flatten_spec(b) =~= flatten_spec(a));
    } else {
        law_flatten_concat(a, b.drop_last());
        assert((a + b).drop_last() =~= a + b.drop_last());
        assert((a + b).last() == b.last());
        assert(flatten_spec(a + b) =~= flatten_spec(a) + flatten_spec(b));
    }
}

/// Every type that a variable can be given a stack slot for takes room: the
/// slots of successive variables do not overlap.
pub proof fn law_slots_take_room(t: SpecType)
    requires
        ir_type_of(t) is Some,
    ensures
        ir_size(ir_type_of(t).unwrap()) > 0,
{
}

/// The IR type of a source type is the one its IR name gives, and has the
/// size of the machine value: `i32` is `int` (4 bytes), `f32` is `float` (4
/// bytes), `char` is `char` (1 byte), `str` is `string` (an 8-byte pointer) and
/// `bool` is `bool` (1 byte); other source types have no IR type.
pub proof fn law_ir_types_agree(t: SpecType)
    ensures
        t == SpecType::Primitive(PrimitiveType::I32) ==> ir_type_of(t) == ir_type_named(seq!['i', 'n', 't'])
            && ir_size(ir_type_of(t).unwrap()) == 4,
        t == SpecType::Primitive(PrimitiveType::F32) ==> ir_type_of(t) == ir_type_named(seq!['f', 'l', 'o', 'a', 't'])
            && ir_size(ir_type_of(t).unwrap()) == 4,
        t == SpecType::Primitive(PrimitiveType::Char) ==> ir_type_of(t) == ir_type_named(seq!['c', 'h', 'a', 'r'])
            && ir_size(ir_type_of(t).unwrap()) == 1,
        t == SpecType::Primitive(PrimitiveType::Str) ==> ir_type_of(t) == ir_type_named(seq!['s', 't', 'r', 'i', 'n', 'g'])
            && ir_size(ir_type_of(t).unwrap()) == 8,
        t == SpecType::Primitive(PrimitiveType::Bool) ==> ir_type_of(t) == ir_type_named(seq!['b', 'o', 'o', 'l'])
            && ir_size(ir_type_of(t).unwrap()) == 1,
        !(t == SpecType::Primitive(PrimitiveType::I32) || t == SpecType::Primitive(PrimitiveType::F32)
            || t == SpecType::Primitive(PrimitiveType::Char) || t == SpecType::Primitive(PrimitiveType::Str)
            || t == SpecType::Primitive(PrimitiveType::Bool)) ==> ir_type_of(t) is None,
{
}

} // verus!
