//! Types of the source language.
use vstd::prelude::*;

use crate::text::{chars_of, str_debug, str_debug_text};

verus! {

/// The built-in scalar types.
#[derive(Debug, Clone, Copy, PartialEq, Eq, Hash, Structural)]
pub enum PrimitiveType {
    Void,
    Char,
    Bool,
    I32,
    I64,
    U32,
    U64,
    Usize,
    F32,
    F64,
    Str,
}

/// A function type: its parameter types and its return type.
#[derive(Debug, PartialEq, Eq, Hash)]
pub struct FunctionType {
    pub parameters: Vec<Type>,
    pub return_type: Box<Type>,
}

/// A struct type: its name and its fields with their types.
#[derive(Debug, PartialEq, Eq, Hash)]
pub struct StructType {
    pub name: String,
    pub fields: Vec<(String, Type)>,
}

/// The main type enum. It distinguishes primitive types, function types,
/// struct types and named types that are not resolved (for example a type alias).
#[derive(Debug, PartialEq, Eq, Hash)]
pub enum Type {
    Primitive(PrimitiveType),
    Function(FunctionType),
    Struct(StructType),
    Custom(String),
}

/// The mathematical value of a [`Type`].
pub enum SpecType {
    Primitive(PrimitiveType),
    Function(Seq<SpecType>, Box<SpecType>),
    Struct(Seq<char>, Seq<(Seq<char>, SpecType)>),
    Custom(Seq<char>),
}

pub open spec fn types_view(ts: Seq<Type>) -> Seq<SpecType>
    decreases ts,
{
    if ts.len() == 0 {
        Seq::empty()
    } else {
        types_view(ts.drop_last()).push(ts.last().view())
    }
}

pub open spec fn fields_view(fs: Seq<(String, Type)>) -> Seq<(Seq<char>, SpecType)>
    decreases fs,
{
    if fs.len() == 0 {
        Seq::empty()
    } else {
        fields_view(fs.drop_last()).push((fs.last().0@, fs.last().1.view()))
    }
}

impl View for Type {
    type V = SpecType;

    open spec fn view(&self) -> SpecType
        decreases self,
    {
        match self {
            Type::Primitive(p) => SpecType::Primitive(*p),
            Type::Function(f) => SpecType::Function(
                types_view(f.parameters@),
                Box::new((*f.return_type).view()),
            ),
            Type::Struct(s) => SpecType::Struct(s.name@, fields_view(s.fields@)),
            Type::Custom(n) => SpecType::Custom(n@),
        }
    }
}

impl View for FunctionType {
    type V = SpecType;

    open spec fn view(&self) -> SpecType {
        SpecType::Function(types_view(self.parameters@), Box::new((*self.return_type)@))
    }
}

impl View for StructType {
    type V = SpecType;

    open spec fn view(&self) -> SpecType {
        SpecType::Struct(self.name@, fields_view(self.fields@))
    }
}

pub proof fn lemma_types_view(ts: Seq<Type>)
    ensures
        types_view(ts).len() == ts.len(),
        forall|i: int| 0 <= i < ts.len() ==> #[trigger] types_view(ts)[i] == ts[i]@,
    decreases ts.len(),
{
    if ts.len() > 0 {
        lemma_types_view(ts.drop_last());
        assert(types_view(ts) == types_view(ts.drop_last()).push(ts.last().view()));
        assert forall|i: int| 0 <= i < ts.len() implies #[trigger] types_view(ts)[i] == ts[i]@ by {
            if i < ts.len() - 1 {
                assert(ts.drop_last()[i] == ts[i]);
            }
        }
    } else {
        assert(types_view(ts) == Seq::<SpecType>::empty());
    }
}

pub proof fn lemma_fields_view(fs: Seq<(String, Type)>)
    ensures
        fields_view(fs).len() == fs.len(),
        forall|i: int| 0 <= i < fs.len() ==> #[trigger] fields_view(fs)[i] == (fs[i].0@, fs[i].1@),
    decreases fs.len(),
{
    if fs.len() > 0 {
        lemma_fields_view(fs.drop_last());
        assert(fields_view(fs) == fields_view(fs.drop_last()).push((fs.last().0@, fs.last().1.view())));
        assert forall|i: int| 0 <= i < fs.len() implies #[trigger] fields_view(fs)[i] == (fs[i].0@, fs[i].1@) by {
            if i < fs.len() - 1 {
                assert(fs.drop_last()[i] == fs[i]);
            }
        }
    } else {
        assert(fields_view(fs) == Seq::<(Seq<char>, SpecType)>::empty());
    }
}

/// The type that `basic` gives for a name.
pub open spec fn basic_type(name: Seq<char>) -> SpecType {
    if name == seq!['c', 'h', 'a', 'r'] {
        SpecType::Primitive(PrimitiveType::Char)
    } else if name == seq!['i', '3', '2'] {
        SpecType::Primitive(PrimitiveType::I32)
    } else if name == seq!['i', '6', '4'] {
        SpecType::Primitive(PrimitiveType::I64)
    } else if name == seq!['u', '3', '2'] {
        SpecType::Primitive(PrimitiveType::U32)
    } else if name == seq!['u', '6', '4'] {
        SpecType::Primitive(PrimitiveType::U64)
    } else if name == seq!['v', 'o', 'i', 'd'] {
        SpecType::Primitive(PrimitiveType::Void)
    } else if name == seq!['s', 't', 'r'] {
        SpecType::Primitive(PrimitiveType::Str)
    } else {
        SpecType::Custom(name)
    }
}

pub(crate) fn chars_are(v: &Vec<char>, w: &[char]) -> (r: bool)
    ensures
        r == (v@ == w@),
{
    if v.len() != w.len() {
        return false;
    }
    let mut i: usize = 0;
    while i < v.len()
        invariant
            i <= v.len(),
            v.len() == w.len(),
            forall|j: int| 0 <= j < i ==> v@[j] == w@[j],
        decreases v.len() - i,
    {
        if v[i] != w[i] {
            return false;
        }
        i += 1;
    }
    assert(v@ =~= w@);
    true
}

impl Type {
    /// A helper to quickly generate a basic (primitive) type: the primitive type
    /// that `name` spells, or a custom type of that name.
    pub fn basic(name: &str) -> (t: Self)
        ensures
            t@ == basic_type(name@),
    {
        let v = chars_of(name);
        proof {
            assert(['c', 'h', 'a', 'r']@ =~= seq!['c', 'h', 'a', 'r']);
            assert(['i', '3', '2']@ =~= seq!['i', '3', '2']);
            assert(['i', '6', '4']@ =~= seq!['i', '6', '4']);
            assert(['u', '3', '2']@ =~= seq!['u', '3', '2']);
            assert(['u', '6', '4']@ =~= seq!['u', '6', '4']);
            assert(['v', 'o', 'i', 'd']@ =~= seq!['v', 'o', 'i', 'd']);
            assert(['s', 't', 'r']@ =~= seq!['s', 't', 'r']);
        }
        if chars_are(&v, &['c', 'h', 'a', 'r']) {
            Type::Primitive(PrimitiveType::Char)
        } else if chars_are(&v, &['i', '3', '2']) {
            Type::Primitive(PrimitiveType::I32)
        } else if chars_are(&v, &['i', '6', '4']) {
            Type::Primitive(PrimitiveType::I64)
        } else if chars_are(&v, &['u', '3', '2']) {
            Type::Primitive(PrimitiveType::U32)
        } else if chars_are(&v, &['u', '6', '4']) {
            Type::Primitive(PrimitiveType::U64)
        } else if chars_are(&v, &['v', 'o', 'i', 'd']) {
            Type::Primitive(PrimitiveType::Void)
        } else if chars_are(&v, &['s', 't', 'r']) {
            Type::Primitive(PrimitiveType::Str)
        } else {
            Type::Custom(String::from_str(name))
        }
    }

    /// Whether two types are the same.
    #[verifier::loop_isolation(false)]
    pub fn same_as(&self, other: &Type) -> (r: bool)
        ensures
            r == (self@ == other@),
        decreases self,
    {
        match (self, other) {
            (Type::Primitive(a), Type::Primitive(b)) => *a == *b,
            (Type::Custom(a), Type::Custom(b)) => {
                let rr = *a == *b;
                assert(rr == (self@ == other@));
                rr
            },
            (Type::Function(f), Type::Function(g)) => {
                proof {
                    lemma_types_view(f.parameters@);
                    lemma_types_view(g.parameters@);
                }
                if f.parameters.len() != g.parameters.len() {
                    assert(types_view(f.parameters@).len() != types_view(g.parameters@).len());
                    return false;
                }
                let mut i: usize = 0;
                while i < f.parameters.len()
                    invariant
                        i <= f.parameters.len(),
                        f.parameters.len() == g.parameters.len(),
                        types_view(f.parameters@).len() == f.parameters.len(),
                        types_view(g.parameters@).len() == g.parameters.len(),
                        forall|j: int| 0 <= j < f.parameters.len() ==> #[trigger] types_view(f.parameters@)[j] == f.parameters@[j]@,
                        forall|j: int| 0 <= j < g.parameters.len() ==> #[trigger] types_view(g.parameters@)[j] == g.parameters@[j]@,
                        forall|j: int| 0 <= j < i ==> types_view(f.parameters@)[j] == types_view(g.parameters@)[j],
                    decreases f.parameters.len() - i,
                {
                    assert(decreases_to!(self => f.parameters@[i as int]));
                    if !f.parameters[i].same_as(&g.parameters[i]) {
                        assert(types_view(f.parameters@)[i as int] != types_view(g.parameters@)[i as int]);
                        return false;
                    }
                    i += 1;
                }
                assert(types_view(f.parameters@) =~= types_view(g.parameters@));
                let rr = f.return_type.same_as(&g.return_type);
                assert(rr == (self@ == other@));
                rr
            },
            (Type::Struct(a), Type::Struct(b)) => {
                proof {
                    lemma_fields_view(a.fields@);
                    lemma_fields_view(b.fields@);
                }
                if a.name != b.name || a.fields.len() != b.fields.len() {
                    assert(a.name@ != b.name@ || fields_view(a.fields@).len() != fields_view(b.fields@).len());
                    return false;
                }
                let mut i: usize = 0;
                while i < a.fields.len()
                    invariant
                        i <= a.fields.len(),
                        a.fields.len() == b.fields.len(),
                        fields_view(a.fields@).len() == a.fields.len(),
                        fields_view(b.fields@).len() == b.fields.len(),
                        forall|j: int| 0 <= j < a.fields.len() ==> #[trigger] fields_view(a.fields@)[j] == (a.fields@[j].0@, a.fields@[j].1@),
                        forall|j: int| 0 <= j < b.fields.len() ==> #[trigger] fields_view(b.fields@)[j] == (b.fields@[j].0@, b.fields@[j].1@),
                        forall|j: int| 0 <= j < i ==> fields_view(a.fields@)[j] == fields_view(b.fields@)[j],
                    decreases a.fields.len() - i,
                {
                    assert(decreases_to!(self => a.fields@[i as int].1));
                    if a.fields[i].0 != b.fields[i].0 || !a.fields[i].1.same_as(&b.fields[i].1) {
                        assert(fields_view(a.fields@)[i as int] != fields_view(b.fields@)[i as int]);
                        return false;
                    }
                    i += 1;
                }
                assert(fields_view(a.fields@) =~= fields_view(b.fields@));
                assert(self@ == other@);
                true
            },
            _ => false,
        }
    }
}

/// How `Debug` prints a primitive type: its variant's name.
pub open spec fn primitive_debug(p: PrimitiveType) -> Seq<char> {
    match p {
        PrimitiveType::Void => "Void"@,
        PrimitiveType::Char => "Char"@,
        PrimitiveType::Bool => "Bool"@,
        PrimitiveType::I32 => "I32"@,
        PrimitiveType::I64 => "I64"@,
        PrimitiveType::U32 => "U32"@,
        PrimitiveType::U64 => "U64"@,
        PrimitiveType::Usize => "Usize"@,
        PrimitiveType::F32 => "F32"@,
        PrimitiveType::F64 => "F64"@,
        PrimitiveType::Str => "Str"@,
    }
}

/// How `Debug` prints a type (`format!("{:?}", t)`): variants and structs by
/// name, lists in brackets, names as quoted strings.
pub open spec fn type_debug(t: SpecType) -> Seq<char>
    decreases t,
{
    match t {
        SpecType::Primitive(p) => "Primitive("@ + primitive_debug(p) + ")"@,
        SpecType::Function(ps, r) => "Function(FunctionType { parameters: ["@ + types_debug(ps)
            + "], return_type: "@ + type_debug(*r) + " })"@,
        SpecType::Struct(n, fs) => "Struct(StructType { name: "@ + str_debug(n) + ", fields: ["@
            + fields_debug(fs) + "] })"@,
        SpecType::Custom(n) => "Custom("@ + str_debug(n) + ")"@,
    }
}

/// The types of a list as `Debug` prints them, separated by `, `.
pub open spec fn types_debug(ts: Seq<SpecType>) -> Seq<char>
    decreases ts,
{
    if ts.len() == 0 {
        Seq::empty()
    } else if ts.len() == 1 {
        type_debug(ts[0])
    } else {
        types_debug(ts.drop_last()) + ", "@ + type_debug(ts.last())
    }
}

/// A field as `Debug` prints a pair: `("name", type)`.
pub open spec fn field_debug(f: (Seq<char>, SpecType)) -> Seq<char>
    decreases f,
{
    "("@ + str_debug(f.0) + ", "@ + type_debug(f.1) + ")"@
}

/// The fields of a struct type as `Debug` prints them, separated by `, `.
pub open spec fn fields_debug(fs: Seq<(Seq<char>, SpecType)>) -> Seq<char>
    decreases fs,
{
    if fs.len() == 0 {
        Seq::empty()
    } else if fs.len() == 1 {
        field_debug(fs[0])
    } else {
        fields_debug(fs.drop_last()) + ", "@ + field_debug(fs.last())
    }
}

fn primitive_debug_text(p: PrimitiveType) -> (s: &'static str)
    ensures
        s@ == primitive_debug(p),
{
    match p {
        PrimitiveType::Void => "Void",
        PrimitiveType::Char => "Char",
        PrimitiveType::Bool => "Bool",
        PrimitiveType::I32 => "I32",
        PrimitiveType::I64 => "I64",
        PrimitiveType::U32 => "U32",
        PrimitiveType::U64 => "U64",
        PrimitiveType::Usize => "Usize",
        PrimitiveType::F32 => "F32",
        PrimitiveType::F64 => "F64",
        PrimitiveType::Str => "Str",
    }
}

/// Renders a type as `Debug` does.
#[verifier::loop_isolation(false)]
pub fn debug_text(t: &Type) -> (s: String)
    ensures
        s@ == type_debug(t@),
    decreases t,
{
    match t {
        Type::Primitive(p) => {
            let mut s = String::from_str("Primitive(");
            s.append(primitive_debug_text(*p));
            s.append(")");
            s
        },
        Type::Custom(n) => {
            let mut s = String::from_str("Custom(");
            let q = str_debug_text(n.as_str());
            s.append(q.as_str());
            s.append(")");
            s
        },
        Type::Function(f) => {
            proof {
                lemma_types_view(f.parameters@);
            }
            let ghost vs = types_view(f.parameters@);
            let mut s = String::from_str("Function(FunctionType { parameters: [");
            let mut i: usize = 0;
            while i < f.parameters.len()
                invariant
                    i <= f.parameters.len(),
                    vs == types_view(f.parameters@),
                    vs.len() == f.parameters.len(),
                    forall|j: int| 0 <= j < f.parameters.len() ==> #[trigger] vs[j] == f.parameters@[j]@,
                    s@ == "Function(FunctionType { parameters: ["@ + types_debug(vs.take(i as int)),
                    *t == Type::Function(*f),
                decreases f.parameters.len() - i,
            {
                assert(decreases_to!(t => f.parameters@[i as int]));
                let item = debug_text(&f.parameters[i]);
                assert(vs.take(i + 1).drop_last() =~= vs.take(i as int));
                assert(vs.take(i + 1).last() == vs[i as int]);
                if i > 0 {
                    s.append(", ");
                } else {
                    assert(vs.take(0) =~= Seq::<SpecType>::empty());
                    assert(vs.take(1) =~= seq![vs[0]]);
                    assert(s@ + Seq::<char>::empty() =~= s@);
                }
                s.append(item.as_str());
                assert(s@ =~= "Function(FunctionType { parameters: ["@ + types_debug(vs.take(i + 1)));
                i += 1;
            }
            assert(vs.take(i as int) =~= vs);
            s.append("], return_type: ");
            let r = debug_text(&f.return_type);
            s.append(r.as_str());
            s.append(" })");
            s
        },
        Type::Struct(st) => {
            proof {
                lemma_fields_view(st.fields@);
            }
            let ghost vs = fields_view(st.fields@);
            let mut s = String::from_str("Struct(StructType { name: ");
            let q = str_debug_text(st.name.as_str());
            s.append(q.as_str());
            s.append(", fields: [");
            let ghost head = s@;
            let mut i: usize = 0;
            while i < st.fields.len()
                invariant
                    i <= st.fields.len(),
                    vs == fields_view(st.fields@),
                    vs.len() == st.fields.len(),
                    forall|j: int| 0 <= j < st.fields.len() ==> #[trigger] vs[j] == (st.fields@[j].0@, st.fields@[j].1@),
                    s@ == head + fields_debug(vs.take(i as int)),
                    *t == Type::Struct(*st),
                decreases st.fields.len() - i,
            {
                assert(decreases_to!(t => st.fields@[i as int].1));
                let mut item = String::from_str("(");
                let q = str_debug_text(st.fields[i].0.as_str());
                item.append(q.as_str());
                item.append(", ");
                let ty = debug_text(&st.fields[i].1);
                item.append(ty.as_str());
                item.append(")");
                assert(item@ == field_debug(vs[i as int]));
                assert(vs.take(i + 1).drop_last() =~= vs.take(i as int));
                assert(vs.take(i + 1).last() == vs[i as int]);
                if i > 0 {
                    s.append(", ");
                } else {
                    assert(vs.take(0) =~= Seq::<(Seq<char>, SpecType)>::empty());
                    assert(vs.take(1) =~= seq![vs[0]]);
                    assert(s@ + Seq::<char>::empty() =~= s@);
                }
                s.append(item.as_str());
                assert(s@ =~= head + fields_debug(vs.take(i + 1)));
                i += 1;
            }
            assert(vs.take(i as int) =~= vs);
            s.append("] })");
            s
        },
    }
}

impl Clone for Type {
    #[verifier::loop_isolation(false)]
    fn clone(&self) -> (r: Self)
        ensures
            r@ == self@,
        decreases self,
    {
        match self {
            Type::Primitive(p) => Type::Primitive(*p),
            Type::Custom(n) => Type::Custom(n.clone()),
            Type::Function(f) => {
                proof {
                    lemma_types_view(f.parameters@);
                }
                let mut ps: Vec<Type> = Vec::new();
                let mut i: usize = 0;
                while i < f.parameters.len()
                    invariant
                        i <= f.parameters.len(),
                        ps.len() == i,
                        types_view(f.parameters@).len() == f.parameters.len(),
                        forall|j: int| 0 <= j < f.parameters.len() ==> #[trigger] types_view(f.parameters@)[j] == f.parameters@[j]@,
                        forall|j: int| 0 <= j < i ==> #[trigger] ps@[j]@ == f.parameters@[j]@,
                    decreases f.parameters.len() - i,
                {
                    assert(decreases_to!(self => f.parameters@[i as int]));
                    let t = f.parameters[i].clone();
                    ps.push(t);
                    i += 1;
                }
                proof {
                    lemma_types_view(ps@);
                    assert(types_view(ps@) =~= types_view(f.parameters@));
                }
                let r = (*f.return_type).clone();
                Type::Function(FunctionType { parameters: ps, return_type: Box::new(r) })
            },
            Type::Struct(s) => {
                proof {
                    lemma_fields_view(s.fields@);
                }
                let mut fs: Vec<(String, Type)> = Vec::new();
                let mut i: usize = 0;
                while i < s.fields.len()
                    invariant
                        i <= s.fields.len(),
                        fs.len() == i,
                        fields_view(s.fields@).len() == s.fields.len(),
                        forall|j: int| 0 <= j < s.fields.len() ==> #[trigger] fields_view(s.fields@)[j] == (s.fields@[j].0@, s.fields@[j].1@),
                        forall|j: int| 0 <= j < i ==> (#[trigger] fs@[j]).0@ == s.fields@[j].0@ && fs@[j].1@ == s.fields@[j].1@,
                    decreases s.fields.len() - i,
                {
                    assert(decreases_to!(self => s.fields@[i as int].1));
                    let t = s.fields[i].1.clone();
                    fs.push((s.fields[i].0.clone(), t));
                    i += 1;
                }
                proof {
                    lemma_fields_view(fs@);
                    assert(fields_view(fs@) =~= fields_view(s.fields@));
                }
                Type::Struct(StructType { name: s.name.clone(), fields: fs })
            },
        }
    }
}

impl Clone for FunctionType {
    fn clone(&self) -> (r: Self)
        ensures
            r@ == self@,
    {
        proof {
            lemma_types_view(self.parameters@);
        }
        let mut ps: Vec<Type> = Vec::new();
        let mut i: usize = 0;
        while i < self.parameters.len()
            invariant
                i <= self.parameters.len(),
                ps.len() == i,
                types_view(self.parameters@).len() == self.parameters.len(),
                forall|j: int| 0 <= j < self.parameters.len() ==> #[trigger] types_view(self.parameters@)[j] == self.parameters@[j]@,
                forall|j: int| 0 <= j < i ==> #[trigger] ps@[j]@ == self.parameters@[j]@,
            decreases self.parameters.len() - i,
        {
            let c = self.parameters[i].clone();
            ps.push(c);
            i += 1;
        }
        proof {
            lemma_types_view(ps@);
            assert(types_view(ps@) =~= types_view(self.parameters@));
        }
        let r = (*self.return_type).clone();
        FunctionType { parameters: ps, return_type: Box::new(r) }
    }
}

impl Clone for StructType {
    fn clone(&self) -> (r: Self)
        ensures
            r@ == self@,
    {
        proof {
            lemma_fields_view(self.fields@);
        }
        let mut fs: Vec<(String, Type)> = Vec::new();
        let mut i: usize = 0;
        while i < self.fields.len()
            invariant
                i <= self.fields.len(),
                fs.len() == i,
                fields_view(self.fields@).len() == self.fields.len(),
                forall|j: int| 0 <= j < self.fields.len() ==> #[trigger] fields_view(self.fields@)[j] == (self.fields@[j].0@, self.fields@[j].1@),
                forall|j: int| 0 <= j < i ==> (#[trigger] fs@[j]).0@ == self.fields@[j].0@ && fs@[j].1@ == self.fields@[j].1@,
            decreases self.fields.len() - i,
        {
            let t = self.fields[i].1.clone();
            fs.push((self.fields[i].0.clone(), t));
            i += 1;
        }
        proof {
            lemma_fields_view(fs@);
            assert(fields_view(fs@) =~= fields_view(self.fields@));
        }
        StructType { name: self.name.clone(), fields: fs }
    }
}

} // verus!
