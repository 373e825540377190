//! A naive register assignment: every virtual register (a temporary whose
//! name starts with `t`) gets a physical register while there are some left,
//! and a stack slot after that.
use vstd::prelude::*;

use crate::middle::ir::{
    entry_lookup, functions_view, instrs_view, strings_view, IRFunction, IRInstruction, IRModule, SpecIRFunction, SpecInstr,
};
use crate::text::{chars_of, int_string, int_text};

verus! {

/// Where a virtual register lives: a physical register, or a stack slot at an
/// offset from `%rbp`.
#[derive(Debug)]
pub enum Alloc {
    Reg(String),
    Spill(i32),
}

/// The mathematical value of an [`Alloc`].
pub enum SpecAlloc {
    Reg(Seq<char>),
    Spill(i32),
}

impl View for Alloc {
    type V = SpecAlloc;

    open spec fn view(&self) -> SpecAlloc {
        match self {
            Alloc::Reg(r) => SpecAlloc::Reg(r@),
            Alloc::Spill(o) => SpecAlloc::Spill(*o),
        }
    }
}

impl Clone for Alloc {
    fn clone(&self) -> (r: Self)
        ensures
            r@ == self@,
    {
        match self {
            Alloc::Reg(r) => Alloc::Reg(r.clone()),
            Alloc::Spill(o) => Alloc::Spill(*o),
        }
    }
}

pub open spec fn allocs_view(v: Seq<(String, Alloc)>) -> Seq<(Seq<char>, SpecAlloc)> {
    v.map_values(|e: (String, Alloc)| (e.0@, e.1@))
}

/// Whether an operand names a virtual register: it starts with `t`.
pub open spec fn is_virtual(s: Seq<char>) -> bool {
    s.len() > 0 && s[0] == 't'
}

/// The operands among `ops` that are virtual registers, in order.
pub open spec fn virtual_only(ops: Seq<Seq<char>>) -> Seq<Seq<char>> {
    ops.filter(|s: Seq<char>| is_virtual(s))
}

/// The virtual registers that an instruction mentions, in order: for
/// arithmetic, the destination and both operands; for `Not`, destination and
/// source; for `Load` and `LoadConstant`, the destination; for `Store`, the
/// source; for `Call`, the destination then the arguments; for `Return`, the
/// value. Other instructions mention none.
pub open spec fn virtual_registers(i: SpecInstr) -> Seq<Seq<char>> {
    match i {
        SpecInstr::Add { dest, op1, op2 } | SpecInstr::Sub { dest, op1, op2 } | SpecInstr::Mul { dest, op1, op2 }
        | SpecInstr::Div { dest, op1, op2 } | SpecInstr::Mod { dest, op1, op2 } | SpecInstr::And { dest, op1, op2 }
        | SpecInstr::Or { dest, op1, op2 } | SpecInstr::Xor { dest, op1, op2 }
        | SpecInstr::ShiftLeft { dest, op1, op2 } | SpecInstr::ShiftRight { dest, op1, op2 } =>
            virtual_only(seq![dest, op1, op2]),
        SpecInstr::Not { dest, src } => virtual_only(seq![dest, src]),
        SpecInstr::Load { dest, .. } => virtual_only(seq![dest]),
        SpecInstr::Store { src, .. } => virtual_only(seq![src]),
        SpecInstr::Call { dest, args, .. } => virtual_only(seq![dest] + args),
        SpecInstr::Return { value } => virtual_only(seq![value]),
        SpecInstr::LoadConstant { dest, .. } => virtual_only(seq![dest]),
        _ => Seq::empty(),
    }
}

/// The operands of an instruction that may name virtual registers, in order:
/// those that [`virtual_registers`] filters.
pub open spec fn register_operands(i: SpecInstr) -> Seq<Seq<char>> {
    match i {
        SpecInstr::Add { dest, op1, op2 } | SpecInstr::Sub { dest, op1, op2 } | SpecInstr::Mul { dest, op1, op2 }
        | SpecInstr::Div { dest, op1, op2 } | SpecInstr::Mod { dest, op1, op2 } | SpecInstr::And { dest, op1, op2 }
        | SpecInstr::Or { dest, op1, op2 } | SpecInstr::Xor { dest, op1, op2 }
        | SpecInstr::ShiftLeft { dest, op1, op2 } | SpecInstr::ShiftRight { dest, op1, op2 } => seq![dest, op1, op2],
        SpecInstr::Not { dest, src } => seq![dest, src],
        SpecInstr::Load { dest, .. } => seq![dest],
        SpecInstr::Store { src, .. } => seq![src],
        SpecInstr::Call { dest, args, .. } => seq![dest] + args,
        SpecInstr::Return { value } => seq![value],
        SpecInstr::LoadConstant { dest, .. } => seq![dest],
        _ => Seq::empty(),
    }
}

proof fn lemma_virtual_only_members(ops: Seq<Seq<char>>)
    ensures
        forall|k: int| 0 <= k < virtual_only(ops).len() ==> is_virtual(#[trigger] virtual_only(ops)[k]) && ops.contains(virtual_only(ops)[k]),
    decreases ops.len(),
{
    reveal(Seq::filter);
    if ops.len() > 0 {
        lemma_virtual_only_members(ops.drop_last());
        let rest = virtual_only(ops.drop_last());
        assert forall|k: int| 0 <= k < virtual_only(ops).len() implies is_virtual(#[trigger] virtual_only(ops)[k]) && ops.contains(virtual_only(ops)[k]) by {
            if k < rest.len() {
                assert(virtual_only(ops)[k] == rest[k]);
                let x = rest[k];
                assert(ops.drop_last().contains(x));
                let w = choose|w: int| 0 <= w < ops.drop_last().len() && ops.drop_last()[w] == x;
                assert(ops[w] == x);
            } else {
                assert(virtual_only(ops)[k] == ops.last());
                assert(ops[ops.len() - 1] == ops.last());
            }
        }
    } else {
        assert(virtual_only(ops) =~= Seq::<Seq<char>>::empty());
    }
}

/// The registers extracted from an instruction are exactly those of its
/// register operands that start with `t`, in order: each starts with `t` and
/// is one of the instruction's operands, and every such operand is among them.
pub proof fn law_extracted_registers(i: SpecInstr)
    ensures
        virtual_registers(i) == virtual_only(register_operands(i)),
        forall|k: int| 0 <= k < virtual_registers(i).len() ==> is_virtual(#[trigger] virtual_registers(i)[k])
            && register_operands(i).contains(virtual_registers(i)[k]),
        forall|k: int| 0 <= k < register_operands(i).len() && is_virtual(register_operands(i)[k])
            ==> virtual_registers(i).contains(#[trigger] register_operands(i)[k]),
{
    assert(virtual_registers(i) == virtual_only(register_operands(i)));
    lemma_virtual_only_members(register_operands(i));
    assert forall|k: int| 0 <= k < register_operands(i).len() && is_virtual(register_operands(i)[k])
        implies virtual_registers(i).contains(#[trigger] register_operands(i)[k]) by {
        register_operands(i).lemma_filter_contains(|s: Seq<char>| is_virtual(s), k);
    }
}

fn is_virtual_name(s: &String) -> (r: bool)
    ensures
        r == is_virtual(s@),
{
    let v = chars_of(s.as_str());
    v.len() > 0 && v[0] == 't'
}

fn push_if_virtual(regs: &mut Vec<String>, s: &String)
    ensures
        strings_view(final(regs)@) == strings_view(old(regs)@) + virtual_only(seq![s@]),
{
    proof {
        reveal_with_fuel(Seq::filter, 2);
    }
    if is_virtual_name(s) {
        regs.push(s.clone());
        assert(virtual_only(seq![s@]) =~= seq![s@]);
    } else {
        assert(virtual_only(seq![s@]) =~= Seq::<Seq<char>>::empty());
    }
    assert(strings_view(regs@) =~= strings_view(old(regs)@) + virtual_only(seq![s@]));
}

proof fn lemma_virtual_only_concat(a: Seq<Seq<char>>, b: Seq<Seq<char>>)
    ensures
        virtual_only(a + b) == virtual_only(a) + virtual_only(b),
{
    Seq::filter_distributes_over_add(a, b, |s: Seq<char>| is_virtual(s));
    assert(virtual_only(a + b) =~= virtual_only(a) + virtual_only(b));
}

/// Extracts the virtual registers of an instruction (operands starting with `t`).
pub fn extract_virtual_registers(inst: &IRInstruction) -> (regs: Vec<String>)
    ensures
        strings_view(regs@) == virtual_registers(inst@),
{
    let mut regs: Vec<String> = Vec::new();
    match inst {
        IRInstruction::Add { dest, op1, op2 } | IRInstruction::Sub { dest, op1, op2 }
        | IRInstruction::Mul { dest, op1, op2 } | IRInstruction::Div { dest, op1, op2 }
        | IRInstruction::Mod { dest, op1, op2 } | IRInstruction::And { dest, op1, op2 }
        | IRInstruction::Or { dest, op1, op2 } | IRInstruction::Xor { dest, op1, op2 }
        | IRInstruction::ShiftLeft { dest, op1, op2 } | IRInstruction::ShiftRight { dest, op1, op2 } => {
            push_if_virtual(&mut regs, dest);
            push_if_virtual(&mut regs, op1);
            push_if_virtual(&mut regs, op2);
            proof {
                lemma_virtual_only_concat(seq![dest@], seq![op1@]);
                lemma_virtual_only_concat(seq![dest@] + seq![op1@], seq![op2@]);
                assert(seq![dest@] + seq![op1@] + seq![op2@] =~= seq![dest@, op1@, op2@]);
                assert(Seq::<Seq<char>>::empty() + virtual_only(seq![dest@]) =~= virtual_only(seq![dest@]));
            }
        },
        IRInstruction::Not { dest, src } => {
            push_if_virtual(&mut regs, dest);
            push_if_virtual(&mut regs, src);
            proof {
                lemma_virtual_only_concat(seq![dest@], seq![src@]);
                assert(seq![dest@] + seq![src@] =~= seq![dest@, src@]);
                assert(Seq::<Seq<char>>::empty() + virtual_only(seq![dest@]) =~= virtual_only(seq![dest@]));
            }
        },
        IRInstruction::Load { dest, .. } => {
            push_if_virtual(&mut regs, dest);
            assert(Seq::<Seq<char>>::empty() + virtual_only(seq![dest@]) =~= virtual_only(seq![dest@]));
        },
        IRInstruction::Store { src, .. } => {
            push_if_virtual(&mut regs, src);
            assert(Seq::<Seq<char>>::empty() + virtual_only(seq![src@]) =~= virtual_only(seq![src@]));
        },
        IRInstruction::Call { dest, args, .. } => {
            push_if_virtual(&mut regs, dest);
            assert(Seq::<Seq<char>>::empty() + virtual_only(seq![dest@]) =~= virtual_only(seq![dest@]));
            let ghost av = strings_view(args@);
            let mut i: usize = 0;
            while i < args.len()
                invariant
                    i <= args.len(),
                    av == strings_view(args@),
                    strings_view(regs@) == virtual_only(seq![dest@] + av.take(i as int)),
                decreases args.len() - i,
            {
                push_if_virtual(&mut regs, &args[i]);
                proof {
                    lemma_virtual_only_concat(seq![dest@] + av.take(i as int), seq![args@[i as int]@]);
                    assert(seq![dest@] + av.take(i as int) + seq![args@[i as int]@] =~= seq![dest@] + av.take(i + 1));
                }
                i += 1;
            }
            assert(av.take(i as int) =~= av);
        },
        IRInstruction::Return { value } => {
            push_if_virtual(&mut regs, value);
            assert(Seq::<Seq<char>>::empty() + virtual_only(seq![value@]) =~= virtual_only(seq![value@]));
        },
        IRInstruction::LoadConstant { dest, .. } => {
            push_if_virtual(&mut regs, dest);
            assert(Seq::<Seq<char>>::empty() + virtual_only(seq![dest@]) =~= virtual_only(seq![dest@]));
        },
        _ => {
            assert(strings_view(regs@) =~= Seq::<Seq<char>>::empty());
        },
    }
    regs
}

/// What an operand becomes under an allocation: the physical register, the
/// stack slot `{offset}(%rbp)`, or the operand itself when it has no allocation.
pub open spec fn substitute_spec(v: Seq<char>, allocs: Seq<(Seq<char>, SpecAlloc)>) -> Seq<char> {
    match entry_lookup(allocs, v) {
        Some(SpecAlloc::Reg(r)) => r,
        Some(SpecAlloc::Spill(o)) => int_text(o as int) + "(%rbp)"@,
        None => v,
    }
}

/// An instruction with every virtual-register operand substituted: the
/// operands that [`virtual_registers`] reads (destination and operands of
/// arithmetic; destination and source of `Not`; the destination of `Load` and
/// `LoadConstant`; the source of `Store`; the destination and arguments of
/// `Call`; the value of `Return`). Labels, branch targets, function names and
/// the memory operands of `Load` and `Store` are kept.
pub open spec fn rewrite_spec(i: SpecInstr, allocs: Seq<(Seq<char>, SpecAlloc)>) -> SpecInstr {
    match i {
        SpecInstr::Add { dest, op1, op2 } => SpecInstr::Add {
            dest: substitute_spec(dest, allocs),
            op1: substitute_spec(op1, allocs),
            op2: substitute_spec(op2, allocs),
        },
        SpecInstr::Sub { dest, op1, op2 } => SpecInstr::Sub {
            dest: substitute_spec(dest, allocs),
            op1: substitute_spec(op1, allocs),
            op2: substitute_spec(op2, allocs),
        },
        SpecInstr::Mul { dest, op1, op2 } => SpecInstr::Mul {
            dest: substitute_spec(dest, allocs),
            op1: substitute_spec(op1, allocs),
            op2: substitute_spec(op2, allocs),
        },
        SpecInstr::Div { dest, op1, op2 } => SpecInstr::Div {
            dest: substitute_spec(dest, allocs),
            op1: substitute_spec(op1, allocs),
            op2: substitute_spec(op2, allocs),
        },
        SpecInstr::Mod { dest, op1, op2 } => SpecInstr::Mod {
            dest: substitute_spec(dest, allocs),
            op1: substitute_spec(op1, allocs),
            op2: substitute_spec(op2, allocs),
        },
        SpecInstr::And { dest, op1, op2 } => SpecInstr::And {
            dest: substitute_spec(dest, allocs),
            op1: substitute_spec(op1, allocs),
            op2: substitute_spec(op2, allocs),
        },
        SpecInstr::Or { dest, op1, op2 } => SpecInstr::Or {
            dest: substitute_spec(dest, allocs),
            op1: substitute_spec(op1, allocs),
            op2: substitute_spec(op2, allocs),
        },
        SpecInstr::Xor { dest, op1, op2 } => SpecInstr::Xor {
            dest: substitute_spec(dest, allocs),
            op1: substitute_spec(op1, allocs),
            op2: substitute_spec(op2, allocs),
        },
        SpecInstr::ShiftLeft { dest, op1, op2 } => SpecInstr::ShiftLeft {
            dest: substitute_spec(dest, allocs),
            op1: substitute_spec(op1, allocs),
            op2: substitute_spec(op2, allocs),
        },
        SpecInstr::ShiftRight { dest, op1, op2 } => SpecInstr::ShiftRight {
            dest: substitute_spec(dest, allocs),
            op1: substitute_spec(op1, allocs),
            op2: substitute_spec(op2, allocs),
        },
        SpecInstr::Not { dest, src } => SpecInstr::Not {
            dest: substitute_spec(dest, allocs),
            src: substitute_spec(src, allocs),
        },
        SpecInstr::Load { dest, src } => SpecInstr::Load { dest: substitute_spec(dest, allocs), src },
        SpecInstr::Store { dest, src } => SpecInstr::Store { dest, src: substitute_spec(src, allocs) },
        SpecInstr::Call { dest, fn_id, args } => SpecInstr::Call {
            dest: substitute_spec(dest, allocs),
            fn_id,
            args: args.map_values(|a: Seq<char>| substitute_spec(a, allocs)),
        },
        SpecInstr::Return { value } => SpecInstr::Return { value: substitute_spec(value, allocs) },
        SpecInstr::LoadConstant { dest, value } => SpecInstr::LoadConstant {
            dest: substitute_spec(dest, allocs),
            value,
        },
        _ => i,
    }
}

fn find_alloc(m: &Vec<(String, Alloc)>, k: &String) -> (r: Option<usize>)
    ensures
        match r {
            None => entry_lookup(allocs_view(m@), k@) is None,
            Some(i) => i < m.len() && entry_lookup(allocs_view(m@), k@) == Some(m@[i as int].1@),
        },
{
    let mut i = m.len();
    assert(m@.take(i as int) =~= m@);
    while i > 0
        invariant
            i <= m.len(),
            entry_lookup(allocs_view(m@), k@) == entry_lookup(allocs_view(m@.take(i as int)), k@),
        decreases i,
    {
        assert(allocs_view(m@.take(i as int)).drop_last() =~= allocs_view(m@.take(i - 1)));
        assert(allocs_view(m@.take(i as int)).last() == (m@[i - 1].0@, m@[i - 1].1@));
        if m[i - 1].0 == *k {
            return Some(i - 1);
        }
        i -= 1;
    }
    assert(allocs_view(m@.take(0)) =~= Seq::<(Seq<char>, SpecAlloc)>::empty());
    None
}

/// The operand that a virtual register becomes: its physical register, its
/// stack slot `{offset}(%rbp)`, or itself when it has no allocation.
pub fn substitute(virt: &String, alloc_map: &Vec<(String, Alloc)>) -> (r: String)
    ensures
        r@ == substitute_spec(virt@, allocs_view(alloc_map@)),
{
    match find_alloc(alloc_map, virt) {
        Some(i) => match &alloc_map[i].1 {
            Alloc::Reg(r) => r.clone(),
            Alloc::Spill(offset) => {
                let mut s = int_string(*offset as i64);
                s.append("(%rbp)");
                s
            },
        },
        None => virt.clone(),
    }
}

fn substitute_all(args: &Vec<String>, alloc_map: &Vec<(String, Alloc)>) -> (r: Vec<String>)
    ensures
        strings_view(r@) == strings_view(args@).map_values(|a: Seq<char>| substitute_spec(a, allocs_view(alloc_map@))),
{
    let ghost m = allocs_view(alloc_map@);
    let mut out: Vec<String> = Vec::new();
    let mut i: usize = 0;
    while i < args.len()
        invariant
            i <= args.len(),
            m == allocs_view(alloc_map@),
            strings_view(out@) == strings_view(args@).take(i as int).map_values(|a: Seq<char>| substitute_spec(a, m)),
        decreases args.len() - i,
    {
        let ghost before = out@;
        let x = substitute(&args[i], alloc_map);
        out.push(x);
        proof {
            assert(strings_view(args@).take(i + 1) =~= strings_view(args@).take(i as int).push(args@[i as int]@));
            assert(strings_view(out@) =~= strings_view(before).push(x@));
            assert(strings_view(args@).take(i + 1).map_values(|a: Seq<char>| substitute_spec(a, m))
                =~= strings_view(args@).take(i as int).map_values(|a: Seq<char>| substitute_spec(a, m)).push(substitute_spec(args@[i as int]@, m)));
        }
        i += 1;
    }
    assert(strings_view(args@).take(i as int) =~= strings_view(args@));
    out
}

/// Replaces every virtual-register operand of an instruction by its physical
/// register or its stack slot `{offset}(%rbp)`, keeping operands that have no
/// allocation; returns the rewritten instruction.
pub fn rewrite_instruction(inst: IRInstruction, alloc_map: &Vec<(String, Alloc)>) -> (r: Vec<IRInstruction>)
    ensures
        instrs_view(r@) == seq![rewrite_spec(inst@, allocs_view(alloc_map@))],
{
    let ghost iv = inst@;
    let out = match inst {
        IRInstruction::Add { dest, op1, op2 } => IRInstruction::Add {
            dest: substitute(&dest, alloc_map),
            op1: substitute(&op1, alloc_map),
            op2: substitute(&op2, alloc_map),
        },
        IRInstruction::Sub { dest, op1, op2 } => IRInstruction::Sub {
            dest: substitute(&dest, alloc_map),
            op1: substitute(&op1, alloc_map),
            op2: substitute(&op2, alloc_map),
        },
        IRInstruction::Mul { dest, op1, op2 } => IRInstruction::Mul {
            dest: substitute(&dest, alloc_map),
            op1: substitute(&op1, alloc_map),
            op2: substitute(&op2, alloc_map),
        },
        IRInstruction::Div { dest, op1, op2 } => IRInstruction::Div {
            dest: substitute(&dest, alloc_map),
            op1: substitute(&op1, alloc_map),
            op2: substitute(&op2, alloc_map),
        },
        IRInstruction::Mod { dest, op1, op2 } => IRInstruction::Mod {
            dest: substitute(&dest, alloc_map),
            op1: substitute(&op1, alloc_map),
            op2: substitute(&op2, alloc_map),
        },
        IRInstruction::And { dest, op1, op2 } => IRInstruction::And {
            dest: substitute(&dest, alloc_map),
            op1: substitute(&op1, alloc_map),
            op2: substitute(&op2, alloc_map),
        },
        IRInstruction::Or { dest, op1, op2 } => IRInstruction::Or {
            dest: substitute(&dest, alloc_map),
            op1: substitute(&op1, alloc_map),
            op2: substitute(&op2, alloc_map),
        },
        IRInstruction::Xor { dest, op1, op2 } => IRInstruction::Xor {
            dest: substitute(&dest, alloc_map),
            op1: substitute(&op1, alloc_map),
            op2: substitute(&op2, alloc_map),
        },
        IRInstruction::ShiftLeft { dest, op1, op2 } => IRInstruction::ShiftLeft {
            dest: substitute(&dest, alloc_map),
            op1: substitute(&op1, alloc_map),
            op2: substitute(&op2, alloc_map),
        },
        IRInstruction::ShiftRight { dest, op1, op2 } => IRInstruction::ShiftRight {
            dest: substitute(&dest, alloc_map),
            op1: substitute(&op1, alloc_map),
            op2: substitute(&op2, alloc_map),
        },
        IRInstruction::Not { dest, src } => IRInstruction::Not {
            dest: substitute(&dest, alloc_map),
            src: substitute(&src, alloc_map),
        },
        IRInstruction::Load { dest, src } => IRInstruction::Load { dest: substitute(&dest, alloc_map), src },
        IRInstruction::Store { dest, src } => IRInstruction::Store { dest, src: substitute(&src, alloc_map) },
        IRInstruction::Call { dest, fn_id, args } => {
            let new_args = substitute_all(&args, alloc_map);
            IRInstruction::Call { dest: substitute(&dest, alloc_map), fn_id, args: new_args }
        },
        IRInstruction::Return { value } => IRInstruction::Return { value: substitute(&value, alloc_map) },
        IRInstruction::LoadConstant { dest, value } => IRInstruction::LoadConstant {
            dest: substitute(&dest, alloc_map),
            value,
        },
        other => other,
    };
    assert(out@ == rewrite_spec(iv, allocs_view(alloc_map@)));
    let mut v: Vec<IRInstruction> = Vec::new();
    v.push(out);
    assert(instrs_view(v@) =~= seq![rewrite_spec(iv, allocs_view(alloc_map@))]);
    v
}

// ---------------------------------------------------------------------------
// The pass
// ---------------------------------------------------------------------------

/// The virtual registers of a list of instructions, in order, with repetitions.
pub open spec fn all_virtual_registers(is: Seq<SpecInstr>) -> Seq<Seq<char>>
    decreases is.len(),
{
    if is.len() == 0 {
        Seq::empty()
    } else {
        all_virtual_registers(is.drop_last()) + virtual_registers(is.last())
    }
}

/// One step of the assignment: a register that has no allocation yet gets the
/// last available physical register, which is taken off the list, or, when none
/// is left, the stack slot `-4 * (n + 1)` where `n` is the number of registers
/// allocated so far.
pub open spec fn assign_step(
    st: (Seq<(Seq<char>, SpecAlloc)>, Seq<Seq<char>>),
    reg: Seq<char>,
) -> (Seq<(Seq<char>, SpecAlloc)>, Seq<Seq<char>>) {
    let (m, avail) = st;
    if entry_lookup(m, reg) is Some {
        st
    } else if avail.len() > 0 {
        (m.push((reg, SpecAlloc::Reg(avail.last()))), avail.drop_last())
    } else {
        (m.push((reg, SpecAlloc::Spill((-4 * (m.len() + 1)) as i32))), avail)
    }
}

/// The allocation map and the registers left after assigning `regs` in order.
pub open spec fn assign_all(
    regs: Seq<Seq<char>>,
    m: Seq<(Seq<char>, SpecAlloc)>,
    avail: Seq<Seq<char>>,
) -> (Seq<(Seq<char>, SpecAlloc)>, Seq<Seq<char>>)
    decreases regs.len(),
{
    if regs.len() == 0 {
        (m, avail)
    } else {
        assign_step(assign_all(regs.drop_last(), m, avail), regs.last())
    }
}

pub proof fn lemma_assign_all_len(regs: Seq<Seq<char>>, m: Seq<(Seq<char>, SpecAlloc)>, avail: Seq<Seq<char>>)
    ensures
        assign_all(regs, m, avail).0.len() <= m.len() + regs.len(),
    decreases regs.len(),
{
    if regs.len() > 0 {
        lemma_assign_all_len(regs.drop_last(), m, avail);
    }
}

fn assign(alloc_map: &mut Vec<(String, Alloc)>, available_regs: &mut Vec<String>, reg: String)
    requires
        old(alloc_map).len() < 0x1fff_ffff,
    ensures
        (allocs_view(final(alloc_map)@), strings_view(final(available_regs)@))
            == assign_step((allocs_view(old(alloc_map)@), strings_view(old(available_regs)@)), reg@),
        final(alloc_map).len() <= old(alloc_map).len() + 1,
{
    if find_alloc(alloc_map, &reg).is_none() {
        let ghost m0 = allocs_view(alloc_map@);
        let ghost a0 = strings_view(available_regs@);
        match available_regs.pop() {
            Some(phys) => {
                alloc_map.push((reg, Alloc::Reg(phys)));
                assert(allocs_view(alloc_map@) =~= m0.push((reg@, SpecAlloc::Reg(a0.last()))));
                assert(strings_view(available_regs@) =~= a0.drop_last());
            },
            None => {
                let spill_offset = -4 * ((alloc_map.len() as i32) + 1);
                alloc_map.push((reg, Alloc::Spill(spill_offset)));
                assert(allocs_view(alloc_map@) =~= m0.push((reg@, SpecAlloc::Spill((-4 * (m0.len() + 1)) as i32))));
            },
        }
    }
}

/// Assigns every virtual register of `instructions` a physical register from
/// the end of `available_regs` (which loses them) or, when none is left, a
/// stack slot; then rewrites the instructions with the assignment. Returns the
/// rewritten instructions and the assignment, in the order registers were met.
pub fn perform_spill_pass(
    instructions: Vec<IRInstruction>,
    available_regs: &mut Vec<String>,
) -> (r: (Vec<IRInstruction>, Vec<(String, Alloc)>))
    requires
        all_virtual_registers(instrs_view(instructions@)).to_set().len() < 0x1fff_ffff,
    ensures
        (allocs_view(r.1@), strings_view(final(available_regs)@)) == assign_all(
            all_virtual_registers(instrs_view(instructions@)),
            Seq::empty(),
            strings_view(old(available_regs)@),
        ),
        instrs_view(r.0@) == instrs_view(instructions@).map_values(|i: SpecInstr| rewrite_spec(i, allocs_view(r.1@))),
{
    let ghost is = instrs_view(instructions@);
    let ghost all = all_virtual_registers(is);
    let ghost a0 = strings_view(available_regs@);
    let mut alloc_map: Vec<(String, Alloc)> = Vec::new();
    let mut i: usize = 0;
    while i < instructions.len()
        invariant
            i <= instructions.len(),
            is == instrs_view(instructions@),
            all == all_virtual_registers(is),
            all.to_set().len() < 0x1fff_ffff,
            a0 == strings_view(old(available_regs)@),
            (allocs_view(alloc_map@), strings_view(available_regs@))
                == assign_all(all_virtual_registers(is.take(i as int)), Seq::empty(), a0),
        decreases instructions.len() - i,
    {
        let regs = extract_virtual_registers(&instructions[i]);
        let ghost prefix = all_virtual_registers(is.take(i as int));
        let ghost rv = strings_view(regs@);
        proof {
            assert(is.take(i + 1).drop_last() =~= is.take(i as int));
            assert(all_virtual_registers(is.take(i + 1)) == prefix + rv);
            lemma_all_prefix(is, i + 1);
        }
        let mut j: usize = 0;
        while j < regs.len()
            invariant
                j <= regs.len(),
                rv == strings_view(regs@),
                prefix.len() + rv.len() <= all.len(),
                all.take((prefix.len() + rv.len()) as int) == prefix + rv,
                all.to_set().len() < 0x1fff_ffff,
                (allocs_view(alloc_map@), strings_view(available_regs@))
                    == assign_all(prefix + rv.take(j as int), Seq::empty(), a0),
            decreases regs.len() - j,
        {
            proof {
                let done = prefix + rv.take(j as int);
                assert(all.take(done.len() as int) =~= done) by {
                    assert forall|k: int| 0 <= k < done.len() implies all.take(done.len() as int)[k] == done[k] by {
                        assert(all.take((prefix.len() + rv.len()) as int)[k] == (prefix + rv)[k]);
                    }
                }
                lemma_prefix_set_len(all, done);
                lemma_assign_all_holds(done, a0);
                lemma_keys_bound(assign_all(done, Seq::empty(), a0).0, done);
            }
            assign(&mut alloc_map, available_regs, regs[j].clone());
            proof {
                assert((prefix + rv.take(j + 1)).drop_last() =~= prefix + rv.take(j as int));
                assert((prefix + rv.take(j + 1)).last() == rv[j as int]);
            }
            j += 1;
        }
        assert(rv.take(j as int) =~= rv);
        i += 1;
    }
    assert(is.take(i as int) =~= is);
    let ghost m = allocs_view(alloc_map@);
    let mut new_insts: Vec<IRInstruction> = Vec::new();
    let mut rest = instructions;
    let ghost done: int = 0;
    while rest.len() > 0
        invariant
            0 <= done <= is.len(),
            m == allocs_view(alloc_map@),
            instrs_view(rest@) == is.skip(done),
            instrs_view(new_insts@) == is.take(done).map_values(|x: SpecInstr| rewrite_spec(x, m)),
        decreases rest.len(),
    {
        let ghost old_rest = rest@;
        let inst = rest.remove(0);
        proof {
            assert(instrs_view(old_rest).len() == old_rest.len());
            assert(rest@ =~= old_rest.subrange(1, old_rest.len() as int));
            assert(instrs_view(old_rest)[0] == is.skip(done)[0]);
            assert forall|k: int| 0 <= k < rest@.len() implies #[trigger] instrs_view(rest@)[k] == is.skip(done + 1)[k] by {
                assert(rest@[k] == old_rest[k + 1]);
                assert(instrs_view(old_rest)[k + 1] == is.skip(done)[k + 1]);
            }
            assert(instrs_view(rest@) =~= is.skip(done + 1));
        }
        let ghost iv = inst@;
        let ghost before = instrs_view(new_insts@);
        let mut rewritten = rewrite_instruction(inst, &alloc_map);
        let ghost rw = rewritten@;
        let ghost nb = new_insts@;
        new_insts.append(&mut rewritten);
        proof {
            assert(new_insts@ == nb + rw);
            assert(instrs_view(rw) == seq![rewrite_spec(iv, m)]);
            assert(instrs_view(rw).len() == rw.len());
            assert(rw.len() == 1);
            assert(instrs_view(rw)[0] == rw[0]@);
            assert(iv == is[done]);
            assert(instrs_view(new_insts@) =~= before.push(rewrite_spec(iv, m)));
            assert(is.take(done + 1).map_values(|x: SpecInstr| rewrite_spec(x, m))
                =~= is.take(done).map_values(|x: SpecInstr| rewrite_spec(x, m)).push(rewrite_spec(is[done], m)));
            done = done + 1;
            assert(instrs_view(new_insts@) =~= is.take(done).map_values(|x: SpecInstr| rewrite_spec(x, m)));
        }
    }
    assert(is.take(done) =~= is);
    (new_insts, alloc_map)
}

proof fn lemma_all_prefix(is: Seq<SpecInstr>, k: int)
    requires
        0 <= k <= is.len(),
    ensures
        all_virtual_registers(is.take(k)).len() <= all_virtual_registers(is).len(),
        all_virtual_registers(is).take(all_virtual_registers(is.take(k)).len() as int)
            == all_virtual_registers(is.take(k)),
    decreases is.len(),
{
    if k == is.len() {
        assert(is.take(k) =~= is);
        assert(all_virtual_registers(is).take(all_virtual_registers(is).len() as int) =~= all_virtual_registers(is));
    } else {
        assert(is.drop_last().take(k) =~= is.take(k));
        lemma_all_prefix(is.drop_last(), k);
        let a = all_virtual_registers(is.drop_last());
        let p = all_virtual_registers(is.take(k));
        assert(all_virtual_registers(is) == a + virtual_registers(is.last()));
        assert((a + virtual_registers(is.last())).take(p.len() as int) =~= a.take(p.len() as int));
    }
}

} // verus!

verus! {

// ---------------------------------------------------------------------------
// Laws of the assignment
// ---------------------------------------------------------------------------

/// The physical registers handed out by an allocation map, in order.
pub open spec fn given_registers(m: Seq<(Seq<char>, SpecAlloc)>) -> Seq<Seq<char>>
    decreases m.len(),
{
    if m.len() == 0 {
        Seq::empty()
    } else {
        match m.last().1 {
            SpecAlloc::Reg(r) => given_registers(m.drop_last()).push(r),
            SpecAlloc::Spill(_) => given_registers(m.drop_last()),
        }
    }
}

/// What the assignment of `regs` from the registers `avail` keeps true of the
/// map `m` and the registers `left` that remain.
pub open spec fn assignment_holds(
    regs: Seq<Seq<char>>,
    avail: Seq<Seq<char>>,
    m: Seq<(Seq<char>, SpecAlloc)>,
    left: Seq<Seq<char>>,
) -> bool {
    &&& forall|i: int, j: int| 0 <= i < j < m.len() ==> m[i].0 != m[j].0
    &&& forall|i: int| 0 <= i < m.len() ==> regs.contains(#[trigger] m[i].0)
    &&& forall|r: Seq<char>| regs.contains(r) ==> entry_lookup(m, r) is Some
    &&& forall|i: int| 0 <= i < m.len() ==> (#[trigger] m[i].1 matches SpecAlloc::Spill(o) ==> o == -4 * (i + 1))
    &&& left.len() <= avail.len()
    &&& left == avail.take(left.len() as int)
    &&& given_registers(m) == avail.skip(left.len() as int).reverse()
    &&& (exists|i: int| 0 <= i < m.len() && (#[trigger] m[i].1) is Spill) ==> left.len() == 0
}

proof fn lemma_entry_lookup_none(m: Seq<(Seq<char>, SpecAlloc)>, r: Seq<char>)
    ensures
        entry_lookup(m, r) is None <==> forall|i: int| 0 <= i < m.len() ==> m[i].0 != r,
    decreases m.len(),
{
    if m.len() > 0 {
        lemma_entry_lookup_none(m.drop_last(), r);
        assert forall|i: int| 0 <= i < m.len() - 1 implies m.drop_last()[i] == m[i] by {}
        if entry_lookup(m, r) is None {
            assert forall|i: int| 0 <= i < m.len() implies m[i].0 != r by {
                if i < m.len() - 1 {
                    assert(m.drop_last()[i] == m[i]);
                }
            }
        }
    }
}

proof fn lemma_assign_step_holds(
    regs: Seq<Seq<char>>,
    avail: Seq<Seq<char>>,
    m: Seq<(Seq<char>, SpecAlloc)>,
    left: Seq<Seq<char>>,
    reg: Seq<char>,
)
    requires
        assignment_holds(regs, avail, m, left),
        m.len() < 0x1fff_ffff,
    ensures
        assignment_holds(regs.push(reg), avail, assign_step((m, left), reg).0, assign_step((m, left), reg).1),
{
    let regs2 = regs.push(reg);
    assert forall|r: Seq<char>| regs.contains(r) implies regs2.contains(r) by {
        let k = choose|k: int| 0 <= k < regs.len() && regs[k] == r;
        assert(regs2[k] == r);
    }
    assert(regs2[regs.len() as int] == reg);
    assert forall|r: Seq<char>| regs2.contains(r) implies regs.contains(r) || r == reg by {
        let k = choose|k: int| 0 <= k < regs2.len() && regs2[k] == r;
        if k < regs.len() {
            assert(regs[k] == r);
        }
    }
    lemma_entry_lookup_none(m, reg);
    if entry_lookup(m, reg) is Some {
    } else {
        let n = left.len() as int;
        let e = if left.len() > 0 {
            (reg, SpecAlloc::Reg(left.last()))
        } else {
            (reg, SpecAlloc::Spill((-4 * (m.len() + 1)) as i32))
        };
        let m2 = m.push(e);
        let left2 = if left.len() > 0 { left.drop_last() } else { left };
        assert(assign_step((m, left), reg) == (m2, left2));
        assert(m2.drop_last() =~= m);
        assert forall|r: Seq<char>| regs2.contains(r) implies entry_lookup(m2, r) is Some by {
            if r != reg {
                assert(regs.contains(r));
            }
        }
        assert forall|i: int| 0 <= i < m2.len() implies regs2.contains(#[trigger] m2[i].0) by {
            if i < m.len() {
                assert(m2[i] == m[i]);
                assert(regs.contains(m[i].0));
            }
        }
        assert forall|i: int| 0 <= i < m2.len() implies (#[trigger] m2[i].1 matches SpecAlloc::Spill(o) ==> o == -4 * (i + 1)) by {
            if i < m.len() {
                assert(m2[i] == m[i]);
            }
        }
        if left.len() > 0 {
            assert(left2 =~= avail.take(n - 1));
            assert(avail[n - 1] == left.last());
            assert(avail.skip(n - 1) =~= seq![avail[n - 1]] + avail.skip(n));
            assert(avail.skip(n - 1).reverse() =~= avail.skip(n).reverse().push(avail[n - 1]));
            assert(given_registers(m2) == given_registers(m).push(left.last()));
            if exists|i: int| 0 <= i < m2.len() && (#[trigger] m2[i].1) is Spill {
                let i = choose|i: int| 0 <= i < m2.len() && (#[trigger] m2[i].1) is Spill;
                assert(m2[i] == m[i]);
                assert(false);
            }
        } else {
            assert(given_registers(m2) == given_registers(m));
        }
    }
}

/// A prefix of a sequence holds no more distinct items than the sequence.
pub proof fn lemma_prefix_set_len(a: Seq<Seq<char>>, b: Seq<Seq<char>>)
    requires
        b.len() <= a.len(),
        a.take(b.len() as int) == b,
    ensures
        b.to_set().len() <= a.to_set().len(),
{
    assert forall|x: Seq<char>| b.to_set().contains(x) implies a.to_set().contains(x) by {
        let k = choose|k: int| 0 <= k < b.len() && b[k] == x;
        assert(a.take(b.len() as int)[k] == a[k]);
        assert(a.contains(x));
    }
    vstd::seq_lib::seq_to_set_is_finite(a);
    vstd::set_lib::lemma_len_subset(b.to_set(), a.to_set());
}

/// A map whose keys are distinct and all drawn from `regs` has at most as many
/// entries as `regs` has distinct items.
proof fn lemma_keys_bound(m: Seq<(Seq<char>, SpecAlloc)>, regs: Seq<Seq<char>>)
    requires
        forall|i: int, j: int| 0 <= i < j < m.len() ==> m[i].0 != m[j].0,
        forall|i: int| 0 <= i < m.len() ==> regs.contains(#[trigger] m[i].0),
    ensures
        m.len() <= regs.to_set().len(),
{
    let keys = m.map_values(|e: (Seq<char>, SpecAlloc)| e.0);
    assert forall|i: int, j: int| 0 <= i < keys.len() && 0 <= j < keys.len() && i != j implies keys[i] != keys[j] by {
        if i < j {
            assert(m[i].0 != m[j].0);
        } else {
            assert(m[j].0 != m[i].0);
        }
    }
    assert(keys.no_duplicates());
    keys.unique_seq_to_set();
    assert forall|x: Seq<char>| keys.to_set().contains(x) implies regs.to_set().contains(x) by {
        let k = choose|k: int| 0 <= k < keys.len() && keys[k] == x;
        assert(regs.contains(m[k].0));
    }
    vstd::seq_lib::seq_to_set_is_finite(regs);
    vstd::set_lib::lemma_len_subset(keys.to_set(), regs.to_set());
}

/// The assignment of registers in order keeps what `assignment_holds` says.
pub proof fn lemma_assign_all_holds(regs: Seq<Seq<char>>, avail: Seq<Seq<char>>)
    requires
        regs.to_set().len() < 0x1fff_ffff,
    ensures
        assignment_holds(regs, avail, assign_all(regs, Seq::empty(), avail).0, assign_all(regs, Seq::empty(), avail).1),
    decreases regs.len(),
{
    if regs.len() == 0 {
        assert(avail.take(avail.len() as int) =~= avail);
        assert(avail.skip(avail.len() as int).reverse() =~= Seq::<Seq<char>>::empty());
    } else {
        lemma_prefix_set_len(regs, regs.drop_last());
        lemma_assign_all_holds(regs.drop_last(), avail);
        let st = assign_all(regs.drop_last(), Seq::empty(), avail);
        lemma_keys_bound(st.0, regs.drop_last());
        lemma_prefix_set_len(regs, regs.drop_last());
        lemma_assign_step_holds(regs.drop_last(), avail, st.0, st.1, regs.last());
        assert(regs.drop_last().push(regs.last()) =~= regs);
    }
}

/// The spill pass gives every virtual register of the instructions exactly
/// one place: each has an entry in the map, no register has two, and the map
/// holds nothing else.
pub proof fn law_every_register_placed_once(is: Seq<SpecInstr>, avail: Seq<Seq<char>>)
    requires
        all_virtual_registers(is).to_set().len() < 0x1fff_ffff,
    ensures
        ({
            let regs = all_virtual_registers(is);
            let m = assign_all(regs, Seq::empty(), avail).0;
            &&& forall|r: Seq<char>| regs.contains(r) ==> entry_lookup(m, r) is Some
            &&& forall|i: int, j: int| 0 <= i < j < m.len() ==> m[i].0 != m[j].0
            &&& forall|i: int| 0 <= i < m.len() ==> regs.contains(#[trigger] m[i].0)
        }),
{
    lemma_assign_all_holds(all_virtual_registers(is), avail);
}

/// The spill pass hands out the available registers from the end of the list,
/// each once, and what is left is the front of the list; it spills only when
/// no register is left, and the `k`-th entry of the map, when spilled, lives at
/// offset `-4 * (k + 1)`, so that no two spilled registers share a slot.
pub proof fn law_registers_then_slots(is: Seq<SpecInstr>, avail: Seq<Seq<char>>)
    requires
        all_virtual_registers(is).to_set().len() < 0x1fff_ffff,
    ensures
        ({
            let (m, left) = assign_all(all_virtual_registers(is), Seq::empty(), avail);
            &&& left == avail.take(left.len() as int)
            &&& given_registers(m) == avail.skip(left.len() as int).reverse()
            &&& (exists|i: int| 0 <= i < m.len() && (#[trigger] m[i].1) is Spill) ==> left.len() == 0
            &&& forall|i: int| 0 <= i < m.len() ==> (#[trigger] m[i].1 matches SpecAlloc::Spill(o) ==> o == -4 * (i + 1))
        }),
{
    lemma_assign_all_holds(all_virtual_registers(is), avail);
}

} // verus!

verus! {

// ---------------------------------------------------------------------------
// The pass over a module
// ---------------------------------------------------------------------------

/// A function after the spill pass with the allocation map `m`.
pub open spec fn spilled_function(f: SpecIRFunction, m: Seq<(Seq<char>, SpecAlloc)>) -> SpecIRFunction {
    SpecIRFunction { id: f.id, instructions: f.instructions.map_values(|i: SpecInstr| rewrite_spec(i, m)) }
}

/// The spill pass over functions in order, the registers left by one being
/// those available to the next: the rewritten functions, each function's
/// name with its allocation map, and the registers left at the end.
pub open spec fn spill_functions(fs: Seq<SpecIRFunction>, avail: Seq<Seq<char>>) -> (
    Seq<SpecIRFunction>,
    Seq<(Seq<char>, Seq<(Seq<char>, SpecAlloc)>)>,
    Seq<Seq<char>>,
)
    decreases fs.len(),
{
    if fs.len() == 0 {
        (Seq::empty(), Seq::empty(), avail)
    } else {
        let (done, maps, left) = spill_functions(fs.drop_last(), avail);
        let f = fs.last();
        let (m, left2) = assign_all(all_virtual_registers(f.instructions), Seq::empty(), left);
        (done.push(spilled_function(f, m)), maps.push((f.id, m)), left2)
    }
}

pub open spec fn maps_view(v: Seq<(String, Vec<(String, Alloc)>)>) -> Seq<(Seq<char>, Seq<(Seq<char>, SpecAlloc)>)> {
    v.map_values(|e: (String, Vec<(String, Alloc)>)| (e.0@, allocs_view(e.1@)))
}

/// Runs the spill pass on each function of the module in order, the
/// registers that one leaves being those available to the next. Returns each
/// function's name with its allocation map.
pub fn run_spill_pass_on_module(ir_module: &mut IRModule, available_regs: Vec<String>) -> (log: Vec<(String, Vec<(String, Alloc)>)>)
    requires
        forall|k: int|
            0 <= k < old(ir_module).functions.len() ==> all_virtual_registers(
                (#[trigger] old(ir_module).functions@[k])@.instructions,
            ).to_set().len() < 0x1fff_ffff,
    ensures
        ({
            let (fs, maps, _) = spill_functions(functions_view(old(ir_module).functions@), strings_view(available_regs@));
            &&& functions_view(final(ir_module).functions@) == fs
            &&& maps_view(log@) == maps
        }),
        final(ir_module).globals == old(ir_module).globals,
{
    let mut regs = available_regs;
    let ghost all = functions_view(ir_module.functions@);
    let ghost a0 = strings_view(regs@);
    let mut rest: Vec<IRFunction> = Vec::new();
    std::mem::swap(&mut rest, &mut ir_module.functions);
    let mut log: Vec<(String, Vec<(String, Alloc)>)> = Vec::new();
    let ghost done: int = 0;
    assert(all.take(0) =~= Seq::<SpecIRFunction>::empty());
    assert(functions_view(ir_module.functions@) =~= Seq::<SpecIRFunction>::empty());
    assert(maps_view(log@) =~= Seq::<(Seq<char>, Seq<(Seq<char>, SpecAlloc)>)>::empty());
    while rest.len() > 0
        invariant
            0 <= done <= all.len(),
            all == functions_view(old(ir_module).functions@),
            a0 == strings_view(available_regs@),
            forall|k: int| 0 <= k < all.len() ==> all_virtual_registers((#[trigger] all[k]).instructions).to_set().len() < 0x1fff_ffff,
            functions_view(rest@) == all.skip(done),
            ir_module.globals == old(ir_module).globals,
            ({
                let (fs, maps, left) = spill_functions(all.take(done), a0);
                &&& functions_view(ir_module.functions@) == fs
                &&& maps_view(log@) == maps
                &&& strings_view(regs@) == left
            }),
        decreases rest.len(),
    {
        let ghost old_rest = rest@;
        let func = rest.remove(0);
        proof {
            assert(functions_view(old_rest).len() == old_rest.len());
            assert(all.skip(done)[0] == func@);
            assert(rest@ =~= old_rest.subrange(1, old_rest.len() as int));
            assert forall|j: int| 0 <= j < rest@.len() implies #[trigger] functions_view(rest@)[j] == all.skip(done + 1)[j] by {
                assert(rest@[j] == old_rest[j + 1]);
                assert(functions_view(old_rest)[j + 1] == all.skip(done)[j + 1]);
            }
            assert(functions_view(rest@) =~= all.skip(done + 1));
            assert(all.take(done + 1).drop_last() =~= all.take(done));
            assert(all.take(done + 1).last() == func@);
            assert(all[done] == func@);
        }
        let IRFunction { id, instructions } = func;
        let (new_insts, alloc_map) = perform_spill_pass(instructions, &mut regs);
        let ghost fb = ir_module.functions@;
        let ghost lb = log@;
        ir_module.functions.push(IRFunction { id: id.clone(), instructions: new_insts });
        log.push((id, alloc_map));
        proof {
            assert(functions_view(ir_module.functions@) =~= functions_view(fb).push(ir_module.functions@.last()@));
            assert(maps_view(log@) =~= maps_view(lb).push((log@.last().0@, allocs_view(log@.last().1@))));
            done = done + 1;
        }
    }
    assert(all.take(done) =~= all);
    log
}

/// Spilled registers live in stack slots below `%rbp`: every offset is
/// negative and a multiple of 4, and no two spilled registers share a slot.
pub proof fn law_spill_slots_apart(is: Seq<SpecInstr>, avail: Seq<Seq<char>>)
    requires
        all_virtual_registers(is).to_set().len() < 0x1fff_ffff,
    ensures
        ({
            let m = assign_all(all_virtual_registers(is), Seq::empty(), avail).0;
            &&& forall|i: int| 0 <= i < m.len() ==> (#[trigger] m[i].1 matches SpecAlloc::Spill(o) ==> o < 0 && o % 4 == 0)
            &&& forall|i: int, j: int| 0 <= i < j < m.len() ==> (#[trigger] m[i].1 matches SpecAlloc::Spill(a)
                ==> (#[trigger] m[j].1 matches SpecAlloc::Spill(b) ==> a != b))
        }),
{
    lemma_assign_all_holds(all_virtual_registers(is), avail);
}

} // verus!
