//! Assembly generation from the IR.
use vstd::prelude::*;

use crate::back::target::Target;
use crate::middle::ir::{
    functions_view, instrs_view, IRFunction, IRInstruction, IRModule, IRType, SpecIRFunction,
    SpecIRType, SpecInstr, ir_types_view, lemma_ir_types_view,
};
use crate::text::{int_string, int_text};

verus! {

/// The concatenation of 2 pieces of text.
pub fn cat2(p0: &str, p1: &str) -> (r: String)
    ensures
        r@ == p0@ + p1@,
{
    let mut s = String::from_str(p0);
    s.append(p1);
    s
}

/// The concatenation of 3 pieces of text.
pub fn cat3(p0: &str, p1: &str, p2: &str) -> (r: String)
    ensures
        r@ == p0@ + p1@ + p2@,
{
    let mut s = String::from_str(p0);
    s.append(p1);
    s.append(p2);
    s
}

/// The concatenation of 4 pieces of text.
pub fn cat4(p0: &str, p1: &str, p2: &str, p3: &str) -> (r: String)
    ensures
        r@ == p0@ + p1@ + p2@ + p3@,
{
    let mut s = String::from_str(p0);
    s.append(p1);
    s.append(p2);
    s.append(p3);
    s
}

/// The concatenation of 5 pieces of text.
pub fn cat5(p0: &str, p1: &str, p2: &str, p3: &str, p4: &str) -> (r: String)
    ensures
        r@ == p0@ + p1@ + p2@ + p3@ + p4@,
{
    let mut s = String::from_str(p0);
    s.append(p1);
    s.append(p2);
    s.append(p3);
    s.append(p4);
    s
}

/// The concatenation of 6 pieces of text.
pub fn cat6(p0: &str, p1: &str, p2: &str, p3: &str, p4: &str, p5: &str) -> (r: String)
    ensures
        r@ == p0@ + p1@ + p2@ + p3@ + p4@ + p5@,
{
    let mut s = String::from_str(p0);
    s.append(p1);
    s.append(p2);
    s.append(p3);
    s.append(p4);
    s.append(p5);
    s
}

/// The concatenation of 8 pieces of text.
pub fn cat8(p0: &str, p1: &str, p2: &str, p3: &str, p4: &str, p5: &str, p6: &str, p7: &str) -> (r: String)
    ensures
        r@ == p0@ + p1@ + p2@ + p3@ + p4@ + p5@ + p6@ + p7@,
{
    let mut s = String::from_str(p0);
    s.append(p1);
    s.append(p2);
    s.append(p3);
    s.append(p4);
    s.append(p5);
    s.append(p6);
    s.append(p7);
    s
}

/// How `Debug` prints an IR type: `Void`, `Int(4)`, ..., `Compound([Int(4), Char(1)])`.
pub open spec fn ir_type_debug(t: SpecIRType) -> Seq<char>
    decreases t,
{
    match t {
        SpecIRType::Void => "Void"@,
        SpecIRType::Int(w) => "Int("@ + int_text(w as int) + ")"@,
        SpecIRType::Float(w) => "Float("@ + int_text(w as int) + ")"@,
        SpecIRType::Char(w) => "Char("@ + int_text(w as int) + ")"@,
        SpecIRType::Str(w) => "Str("@ + int_text(w as int) + ")"@,
        SpecIRType::Bool(w) => "Bool("@ + int_text(w as int) + ")"@,
        SpecIRType::Compound(ts) => "Compound(["@ + ir_types_debug(ts) + "])"@,
    }
}

/// The members of a compound type as `Debug` prints them, separated by `, `.
pub open spec fn ir_types_debug(ts: Seq<SpecIRType>) -> Seq<char>
    decreases ts,
{
    if ts.len() == 0 {
        Seq::empty()
    } else if ts.len() == 1 {
        ir_type_debug(ts[0])
    } else {
        ir_types_debug(ts.drop_last()) + ", "@ + ir_type_debug(ts.last())
    }
}

/// Renders an IR type as `Debug` does.
pub fn ir_type_text(t: &IRType) -> (r: String)
    ensures
        r@ == ir_type_debug(t@),
    decreases t,
{
    let (name, width) = match t {
        IRType::Void => {
            return String::from_str("Void");
        },
        IRType::Int(w) => ("Int(", *w),
        IRType::Float(w) => ("Float(", *w),
        IRType::Char(w) => ("Char(", *w),
        IRType::Str(w) => ("Str(", *w),
        IRType::Bool(w) => ("Bool(", *w),
        IRType::Compound(ts) => {
            proof {
                lemma_ir_types_view(ts@);
            }
            let ghost vs = ir_types_view(ts@);
            let mut s = String::from_str("Compound([");
            let mut i: usize = 0;
            while i < ts.len()
                invariant
                    i <= ts.len(),
                    vs == ir_types_view(ts@),
                    vs.len() == ts.len(),
                    forall|j: int| 0 <= j < ts.len() ==> #[trigger] vs[j] == ts@[j]@,
                    s@ == "Compound(["@ + ir_types_debug(vs.take(i as int)),
                    t@ == SpecIRType::Compound(vs),
                    *t == IRType::Compound(*ts),
                decreases ts.len() - i,
            {
                assert(decreases_to!(t => ts@[i as int]));
                let item = ir_type_text(&ts[i]);
                assert(vs.take(i + 1).drop_last() =~= vs.take(i as int));
                assert(vs.take(i + 1).last() == vs[i as int]);
                if i > 0 {
                    s.append(", ");
                } else {
                    assert(vs.take(0) =~= Seq::<SpecIRType>::empty());
                    assert(vs.take(1) =~= seq![vs[0]]);
                    assert(s@ + Seq::<char>::empty() =~= s@);
                }
                s.append(item.as_str());
                assert(s@ =~= "Compound(["@ + ir_types_debug(vs.take(i + 1)));
                i += 1;
            }
            assert(vs.take(i as int) =~= vs);
            s.append("])");
            return s;
        },
    };
    let mut s = String::from_str(name);
    let n = int_string(width as i64);
    s.append(n.as_str());
    s.append(")");
    s
}

/// The assembly text of one instruction (x86-64, AT&T syntax), without a final newline.
pub open spec fn instr_asm(i: SpecInstr) -> Seq<char> {
    match i {
        SpecInstr::Add { dest, op1, op2 } => ("    movl "@ + op1 + ", "@ + dest + "\n    addl "@ + op2 + ", "@ + dest),
        SpecInstr::Sub { dest, op1, op2 } => ("    movl "@ + op1 + ", "@ + dest + "\n    subl "@ + op2 + ", "@ + dest),
        SpecInstr::Mul { dest, op1, op2 } => ("    movl "@ + op1 + ", "@ + dest + "\n    imull "@ + op2 + ", "@ + dest),
        SpecInstr::Div { dest, op1, op2 } => ("    movl "@ + op1 + ", %eax\n    cltd\n    idivl "@ + op2 + "\n    movl %eax, "@ + dest),
        SpecInstr::Mod { dest, op1, op2 } => ("    movl "@ + op1 + ", %eax\n    cltd\n    idivl "@ + op2 + "\n    movl %edx, "@ + dest),
        SpecInstr::And { dest, op1, op2 } => ("    movl "@ + op1 + ", "@ + dest + "\n    andl "@ + op2 + ", "@ + dest),
        SpecInstr::Or { dest, op1, op2 } => ("    movl "@ + op1 + ", "@ + dest + "\n    orl "@ + op2 + ", "@ + dest),
        SpecInstr::Xor { dest, op1, op2 } => ("    movl "@ + op1 + ", "@ + dest + "\n    xorl "@ + op2 + ", "@ + dest),
        SpecInstr::ShiftLeft { dest, op1, op2 } => ("    movl "@ + op1 + ", "@ + dest + "\n    shll "@ + op2 + ", "@ + dest),
        SpecInstr::ShiftRight { dest, op1, op2 } => ("    movl "@ + op1 + ", "@ + dest + "\n    shrl "@ + op2 + ", "@ + dest),
        SpecInstr::Not { dest, src } => ("    movl "@ + src + ", "@ + dest + "\n    notl "@ + dest),
        SpecInstr::Load { dest, src } => ("    movl "@ + src + ", "@ + dest),
        SpecInstr::Store { dest, src } => ("    movl "@ + src + ", "@ + dest),
        SpecInstr::Call { dest, fn_id, args } => pushes(args) + ("    call "@ + fn_id + "\n    movl %eax, "@ + dest),
        SpecInstr::Branch { condition, true_label, false_label } =>
            ("    cmpl $0, "@ + condition + "\n    jne "@ + true_label + "\n    jmp "@ + false_label),
        SpecInstr::Return { value } => ("    movl "@ + value + ", %eax"@),
        SpecInstr::AllocStack { name, var_type, initial_value } => match initial_value {
            Some(v) => ("    # AllocStack: "@ + name + " of type "@ + ir_type_debug(var_type) + " with initializer "@ + v),
            None => ("    # AllocStack: "@ + name + " of type "@ + ir_type_debug(var_type) + " without initializer"@),
        },
        SpecInstr::Assign { dest, src } => ("    movl "@ + src + ", "@ + dest),
        SpecInstr::Label(l) => l + ":"@,
        SpecInstr::LoadConstant { dest, value } => ("    movl $"@ + int_text(value as int) + ", "@ + dest),
    }
}

/// One `pushl` line per call argument, last argument first.
pub open spec fn pushes(args: Seq<Seq<char>>) -> Seq<char>
    decreases args.len(),
{
    if args.len() == 0 {
        Seq::empty()
    } else {
        ("    pushl "@ + args.last() + "\n"@) + pushes(args.drop_last())
    }
}

/// The assembly of a list of instructions, each followed by a newline.
pub open spec fn instrs_asm(is: Seq<SpecInstr>) -> Seq<char>
    decreases is.len(),
{
    if is.len() == 0 {
        Seq::empty()
    } else {
        instrs_asm(is.drop_last()) + instr_asm(is.last()) + "\n"@
    }
}

/// The assembly of a function: a global declaration and its label, a
/// prologue saving the frame pointer, the body, and an epilogue returning.
pub open spec fn function_asm(t: Target, f: SpecIRFunction) -> Seq<char> {
    let directive = if t == Target::X86_64 { ".globl"@ } else { ".global"@ };
    let label = if t == Target::AArch64 { "_"@ + f.id } else { f.id };
    let push = match t {
        Target::X86_64 => "pushq"@,
        Target::AArch64 => "stp"@,
        Target::Rp2040 => "PUSH"@,
    };
    let pop = match t {
        Target::X86_64 => "popq"@,
        Target::AArch64 => "ldp"@,
        Target::Rp2040 => "POP"@,
    };
    ("    "@ + directive + " "@ + f.id + "\n"@)
        + (label + ":\n"@)
        + ("    "@ + push + "   %rbp\n"@)
        + "    movq    %rsp, %rbp\n"@
        + instrs_asm(f.instructions)
        + ("    "@ + pop + "    %rbp\n"@)
        + "    ret\n\n"@
}

pub open spec fn functions_asm(t: Target, fs: Seq<SpecIRFunction>) -> Seq<char>
    decreases fs.len(),
{
    if fs.len() == 0 {
        Seq::empty()
    } else {
        functions_asm(t, fs.drop_last()) + function_asm(t, fs.last())
    }
}

/// The assembly of a module: the text section header, the global
/// instructions, then each function.
pub open spec fn module_asm(t: Target, globals: Seq<SpecInstr>, functions: Seq<SpecIRFunction>) -> Seq<char> {
    ".section .text\n\n"@ + instrs_asm(globals) + functions_asm(t, functions)
}

pub struct Generator {
    pub ir: IRModule,
    pub target: Target,
}

impl Generator {
    pub fn new(ir: IRModule, target: Target) -> (g: Generator)
        ensures
            g.ir == ir,
            g.target == target,
    {
        Generator { ir, target }
    }

    /// The assembly of the whole module.
    pub fn generate(&mut self) -> (out: String)
        ensures
            out@ == module_asm(old(self).target, instrs_view(old(self).ir.globals@), functions_view(old(self).ir.functions@)),
            final(self).ir == old(self).ir,
            final(self).target == old(self).target,
    {
        let mut out = String::from_str(".section .text\n\n");
        let g = self.emit_instructions(&self.ir.globals);
        out.append(g.as_str());
        let ghost fs = functions_view(self.ir.functions@);
        let ghost head = out@;
        let mut i: usize = 0;
        while i < self.ir.functions.len()
            invariant
                i <= self.ir.functions.len(),
                fs == functions_view(self.ir.functions@),
                out@ == head + functions_asm(self.target, fs.take(i as int)),
            decreases self.ir.functions.len() - i,
        {
            let f = self.emit_function(&self.ir.functions[i]);
            out.append(f.as_str());
            assert(fs.take(i + 1).drop_last() =~= fs.take(i as int));
            i += 1;
        }
        assert(fs.take(i as int) =~= fs);
        out
    }

    fn emit_instructions(&self, is: &Vec<IRInstruction>) -> (r: String)
        ensures
            r@ == instrs_asm(instrs_view(is@)),
    {
        let ghost vs = instrs_view(is@);
        let mut s = String::new();
        let mut i: usize = 0;
        while i < is.len()
            invariant
                i <= is.len(),
                vs == instrs_view(is@),
                s@ == instrs_asm(vs.take(i as int)),
            decreases is.len() - i,
        {
            let line = self.generate_instruction(&is[i]);
            s.append(line.as_str());
            s.append("\n");
            assert(vs.take(i + 1).drop_last() =~= vs.take(i as int));
            i += 1;
        }
        assert(vs.take(i as int) =~= vs);
        s
    }

    fn emit_function(&self, function: &IRFunction) -> (r: String)
        ensures
            r@ == function_asm(self.target, function@),
    {
        let directive = self.target.global_directive();
        let head = cat5("    ", directive, " ", function.id.as_str(), "\n");
        let label = self.target.function_label(function.id.as_str());
        let label_line = cat2(label.as_str(), ":\n");
        let push = cat3("    ", self.target.push_instruction(), "   %rbp\n");
        let body = self.emit_instructions(&function.instructions);
        let pop = cat3("    ", self.target.pop_instruction(), "    %rbp\n");
        let mut s = head;
        s.append(label_line.as_str());
        s.append(push.as_str());
        s.append("    movq    %rsp, %rbp\n");
        s.append(body.as_str());
        s.append(pop.as_str());
        s.append("    ret\n\n");
        s
    }

    /// The assembly of an IR instruction for the target (see `instr_asm`).
    pub fn generate_instruction(&self, inst: &IRInstruction) -> (r: String)
        ensures
            r@ == instr_asm(inst@),
    {
        match inst {
            IRInstruction::Add { dest, op1, op2 } => cat8("    movl ", op1.as_str(), ", ", dest.as_str(), "\n    addl ", op2.as_str(), ", ", dest.as_str()),
            IRInstruction::Sub { dest, op1, op2 } => cat8("    movl ", op1.as_str(), ", ", dest.as_str(), "\n    subl ", op2.as_str(), ", ", dest.as_str()),
            IRInstruction::Mul { dest, op1, op2 } => cat8("    movl ", op1.as_str(), ", ", dest.as_str(), "\n    imull ", op2.as_str(), ", ", dest.as_str()),
            IRInstruction::Div { dest, op1, op2 } => cat6("    movl ", op1.as_str(), ", %eax\n    cltd\n    idivl ", op2.as_str(), "\n    movl %eax, ", dest.as_str()),
            IRInstruction::Mod { dest, op1, op2 } => cat6("    movl ", op1.as_str(), ", %eax\n    cltd\n    idivl ", op2.as_str(), "\n    movl %edx, ", dest.as_str()),
            IRInstruction::And { dest, op1, op2 } => cat8("    movl ", op1.as_str(), ", ", dest.as_str(), "\n    andl ", op2.as_str(), ", ", dest.as_str()),
            IRInstruction::Or { dest, op1, op2 } => cat8("    movl ", op1.as_str(), ", ", dest.as_str(), "\n    orl ", op2.as_str(), ", ", dest.as_str()),
            IRInstruction::Xor { dest, op1, op2 } => cat8("    movl ", op1.as_str(), ", ", dest.as_str(), "\n    xorl ", op2.as_str(), ", ", dest.as_str()),
            IRInstruction::ShiftLeft { dest, op1, op2 } => cat8("    movl ", op1.as_str(), ", ", dest.as_str(), "\n    shll ", op2.as_str(), ", ", dest.as_str()),
            IRInstruction::ShiftRight { dest, op1, op2 } => cat8("    movl ", op1.as_str(), ", ", dest.as_str(), "\n    shrl ", op2.as_str(), ", ", dest.as_str()),
            IRInstruction::Not { dest, src } => cat6("    movl ", src.as_str(), ", ", dest.as_str(), "\n    notl ", dest.as_str()),
            IRInstruction::Load { dest, src } => cat4("    movl ", src.as_str(), ", ", dest.as_str()),
            IRInstruction::Store { dest, src } => cat4("    movl ", src.as_str(), ", ", dest.as_str()),
            IRInstruction::Call { dest, fn_id, args } => {
                let ghost av = crate::middle::ir::strings_view(args@);
                let mut out = String::new();
                let mut k: usize = args.len();
                assert(av.take(k as int) =~= av);
                assert(out@ + pushes(av) =~= pushes(av));
                while k > 0
                    invariant
                        k <= args.len(),
                        av == crate::middle::ir::strings_view(args@),
                        out@ + pushes(av.take(k as int)) == pushes(av),
                    decreases k,
                {
                    let line = cat3("    pushl ", args[k - 1].as_str(), "\n");
                    proof {
                        assert(av.take(k as int).drop_last() =~= av.take(k - 1));
                        assert(av.take(k as int).last() == args@[k - 1]@);
                        assert(pushes(av.take(k as int)) == line@ + pushes(av.take(k - 1)));
                        assert((out@ + line@) + pushes(av.take(k - 1)) =~= out@ + (line@ + pushes(av.take(k - 1))));
                    }
                    out.append(line.as_str());
                    k -= 1;
                }
                assert(av.take(0) =~= Seq::<Seq<char>>::empty());
                assert(out@ + Seq::<char>::empty() =~= out@);
                let tail = cat4("    call ", fn_id.as_str(), "\n    movl %eax, ", dest.as_str());
                out.append(tail.as_str());
                out
            },
            IRInstruction::Branch { condition, true_label, false_label } => cat6("    cmpl $0, ", condition.as_str(), "\n    jne ", true_label.as_str(), "\n    jmp ", false_label.as_str()),
            IRInstruction::Return { value } => cat3("    movl ", value.as_str(), ", %eax"),
            IRInstruction::AllocStack { name, var_type, initial_value } => {
                let ty = ir_type_text(var_type);
                match initial_value {
                    Some(val) => cat6("    # AllocStack: ", name.as_str(), " of type ", ty.as_str(), " with initializer ", val.as_str()),
                    None => cat5("    # AllocStack: ", name.as_str(), " of type ", ty.as_str(), " without initializer"),
                }
            },
            IRInstruction::Assign { dest, src } => cat4("    movl ", src.as_str(), ", ", dest.as_str()),
            IRInstruction::Label(label) => cat2(label.as_str(), ":"),
            IRInstruction::LoadConstant { dest, value } => {
                let v = int_string(*value);
                cat4("    movl $", v.as_str(), ", ", dest.as_str())
            },
        }
    }
}

} // verus!

verus! {

/// The assembly of instructions one after the other is their assemblies one
/// after the other: each instruction's code depends on that instruction alone.
pub proof fn law_instrs_asm_concat(a: Seq<SpecInstr>, b: Seq<SpecInstr>)
    ensures
        instrs_asm(a + b) == instrs_asm(a) + instrs_asm(b),
    decreases b.len(),
{
    if b.len() == 0 {
        assert(a + b =~= a);
        assert(instrs_asm(a) + instrs_asm(b) =~= instrs_asm(a));
    } else {
        law_instrs_asm_concat(a, b.drop_last());
        assert((a + b).drop_last() =~= a + b.drop_last());
        assert((a + b).last() == b.last());
        assert(instrs_asm(a + b) =~= instrs_asm(a) + instrs_asm(b));
    }
}

/// A line of AT&T assembly with a mnemonic and two operands: `mn src, dst`,
/// indented by four spaces.
pub open spec fn att_line(mn: Seq<char>, src: Seq<char>, dst: Seq<char>) -> Seq<char> {
    "    "@ + mn + " "@ + src + ", "@ + dst
}

/// A line of AT&T assembly with a mnemonic and one operand, indented by four spaces.
pub open spec fn att_line1(mn: Seq<char>, op: Seq<char>) -> Seq<char> {
    "    "@ + mn + " "@ + op
}

/// Each arithmetic instruction `dest = op1 op op2` becomes the x86 code of its
/// own operation: the two-operand ones copy `op1` into `dest` and then apply
/// their instruction to `op2` and `dest` (`addl` for an addition, `subl` for a
/// subtraction, which leaves `op1 - op2`, `imull` for a multiplication, `andl`,
/// `orl`, `xorl` for the bitwise operations, `shll` and `shrl` for the shifts);
/// a division and a remainder divide `op1`, loaded into `%eax` and sign-extended
/// with `cltd`, by `op2` with `idivl`, and take the quotient from `%eax` or the
/// remainder from `%edx`.
#[verifier::rlimit(40)]
pub proof fn law_arithmetic_asm(dest: Seq<char>, op1: Seq<char>, op2: Seq<char>)
    ensures
        instr_asm(SpecInstr::Add { dest, op1, op2 }) == att_line("movl"@, op1, dest) + "\n"@ + att_line("addl"@, op2, dest),
        instr_asm(SpecInstr::Sub { dest, op1, op2 }) == att_line("movl"@, op1, dest) + "\n"@ + att_line("subl"@, op2, dest),
        instr_asm(SpecInstr::Mul { dest, op1, op2 }) == att_line("movl"@, op1, dest) + "\n"@ + att_line("imull"@, op2, dest),
        instr_asm(SpecInstr::And { dest, op1, op2 }) == att_line("movl"@, op1, dest) + "\n"@ + att_line("andl"@, op2, dest),
        instr_asm(SpecInstr::Or { dest, op1, op2 }) == att_line("movl"@, op1, dest) + "\n"@ + att_line("orl"@, op2, dest),
        instr_asm(SpecInstr::Xor { dest, op1, op2 }) == att_line("movl"@, op1, dest) + "\n"@ + att_line("xorl"@, op2, dest),
        instr_asm(SpecInstr::ShiftLeft { dest, op1, op2 }) == att_line("movl"@, op1, dest) + "\n"@ + att_line("shll"@, op2, dest),
        instr_asm(SpecInstr::ShiftRight { dest, op1, op2 }) == att_line("movl"@, op1, dest) + "\n"@ + att_line("shrl"@, op2, dest),
        instr_asm(SpecInstr::Div { dest, op1, op2 }) == att_line("movl"@, op1, "%eax"@) + "\n"@ + "    cltd"@ + "\n"@
            + att_line1("idivl"@, op2) + "\n"@ + att_line("movl"@, "%eax"@, dest),
        instr_asm(SpecInstr::Mod { dest, op1, op2 }) == att_line("movl"@, op1, "%eax"@) + "\n"@ + "    cltd"@ + "\n"@
            + att_line1("idivl"@, op2) + "\n"@ + att_line("movl"@, "%edx"@, dest),
{
    reveal_strlit("\n");
    reveal_strlit("\n    addl ");
    reveal_strlit("\n    andl ");
    reveal_strlit("\n    imull ");
    reveal_strlit("\n    movl %eax, ");
    reveal_strlit("\n    movl %edx, ");
    reveal_strlit("\n    orl ");
    reveal_strlit("\n    shll ");
    reveal_strlit("\n    shrl ");
    reveal_strlit("\n    subl ");
    reveal_strlit("\n    xorl ");
    reveal_strlit(" ");
    reveal_strlit("    ");
    reveal_strlit("    movl ");
    reveal_strlit("%eax");
    reveal_strlit("%edx");
    reveal_strlit(", ");
    reveal_strlit(", %eax\n    cltd\n    idivl ");
    reveal_strlit("addl");
    reveal_strlit("andl");
    reveal_strlit("cltd");
    reveal_strlit("idivl");
    reveal_strlit("imull");
    reveal_strlit("movl");
    reveal_strlit("orl");
    reveal_strlit("shll");
    reveal_strlit("shrl");
    reveal_strlit("subl");
    reveal_strlit("xorl");
    reveal_strlit("    cltd");
    assert(instr_asm(SpecInstr::Add { dest, op1, op2 }) =~= att_line("movl"@, op1, dest) + "\n"@ + att_line("addl"@, op2, dest));
    assert(instr_asm(SpecInstr::Sub { dest, op1, op2 }) =~= att_line("movl"@, op1, dest) + "\n"@ + att_line("subl"@, op2, dest));
    assert(instr_asm(SpecInstr::Mul { dest, op1, op2 }) =~= att_line("movl"@, op1, dest) + "\n"@ + att_line("imull"@, op2, dest));
    assert(instr_asm(SpecInstr::And { dest, op1, op2 }) =~= att_line("movl"@, op1, dest) + "\n"@ + att_line("andl"@, op2, dest));
    assert(instr_asm(SpecInstr::Or { dest, op1, op2 }) =~= att_line("movl"@, op1, dest) + "\n"@ + att_line("orl"@, op2, dest));
    assert(instr_asm(SpecInstr::Xor { dest, op1, op2 }) =~= att_line("movl"@, op1, dest) + "\n"@ + att_line("xorl"@, op2, dest));
    assert(instr_asm(SpecInstr::ShiftLeft { dest, op1, op2 }) =~= att_line("movl"@, op1, dest) + "\n"@ + att_line("shll"@, op2, dest));
    assert(instr_asm(SpecInstr::ShiftRight { dest, op1, op2 }) =~= att_line("movl"@, op1, dest) + "\n"@ + att_line("shrl"@, op2, dest));
    assert(instr_asm(SpecInstr::Div { dest, op1, op2 }) =~= att_line("movl"@, op1, "%eax"@) + "\n"@ + "    cltd"@ + "\n"@
        + att_line1("idivl"@, op2) + "\n"@ + att_line("movl"@, "%eax"@, dest));
    assert(instr_asm(SpecInstr::Mod { dest, op1, op2 }) =~= att_line("movl"@, op1, "%eax"@) + "\n"@ + "    cltd"@ + "\n"@
        + att_line1("idivl"@, op2) + "\n"@ + att_line("movl"@, "%edx"@, dest));
}

/// The other instructions move data with `movl src, dst` (a load, a store and
/// an assignment copy their source into their destination; a return puts its
/// value in `%eax`; a constant is loaded as the immediate `$value`); a `Not`
/// copies its source and complements it with `notl`; a branch compares its
/// condition with 0 and jumps to the true label when it is not 0, else to the
/// false label; a call pushes its arguments, calls the function and copies
/// `%eax` into its destination; a label is its name and a colon.
#[verifier::rlimit(40)]
pub proof fn law_data_movement_asm(dest: Seq<char>, src: Seq<char>, fn_id: Seq<char>, args: Seq<Seq<char>>, t: Seq<char>, f: Seq<char>, value: i64)
    ensures
        instr_asm(SpecInstr::Load { dest, src }) == att_line("movl"@, src, dest),
        instr_asm(SpecInstr::Store { dest, src }) == att_line("movl"@, src, dest),
        instr_asm(SpecInstr::Assign { dest, src }) == att_line("movl"@, src, dest),
        instr_asm(SpecInstr::Return { value: src }) == att_line("movl"@, src, "%eax"@),
        instr_asm(SpecInstr::LoadConstant { dest, value }) == att_line("movl"@, "$"@ + int_text(value as int), dest),
        instr_asm(SpecInstr::Not { dest, src }) == att_line("movl"@, src, dest) + "\n"@ + att_line1("notl"@, dest),
        instr_asm(SpecInstr::Branch { condition: src, true_label: t, false_label: f })
            == att_line("cmpl"@, "$0"@, src) + "\n"@ + att_line1("jne"@, t) + "\n"@ + att_line1("jmp"@, f),
        instr_asm(SpecInstr::Call { dest, fn_id, args })
            == pushes(args) + att_line1("call"@, fn_id) + "\n"@ + att_line("movl"@, "%eax"@, dest),
        instr_asm(SpecInstr::Label(t)) == t + ":"@,
{
    reveal_strlit("\n");
    reveal_strlit("\n    jmp ");
    reveal_strlit("\n    jne ");
    reveal_strlit("\n    movl %eax, ");
    reveal_strlit("\n    notl ");
    reveal_strlit(" ");
    reveal_strlit("    ");
    reveal_strlit("    call ");
    reveal_strlit("    cmpl $0, ");
    reveal_strlit("    movl ");
    reveal_strlit("    movl $");
    reveal_strlit("    pushl ");
    reveal_strlit("$");
    reveal_strlit("$0");
    reveal_strlit("%eax");
    reveal_strlit(", ");
    reveal_strlit(", %eax");
    reveal_strlit(":");
    reveal_strlit("call");
    reveal_strlit("cmpl");
    reveal_strlit("jmp");
    reveal_strlit("jne");
    reveal_strlit("movl");
    reveal_strlit("notl");
    reveal_strlit("pushl");
    assert(instr_asm(SpecInstr::Load { dest, src }) =~= att_line("movl"@, src, dest));
    assert(instr_asm(SpecInstr::Store { dest, src }) =~= att_line("movl"@, src, dest));
    assert(instr_asm(SpecInstr::Assign { dest, src }) =~= att_line("movl"@, src, dest));
    assert(instr_asm(SpecInstr::Return { value: src }) =~= att_line("movl"@, src, "%eax"@));
    assert(instr_asm(SpecInstr::LoadConstant { dest, value }) =~= att_line("movl"@, "$"@ + int_text(value as int), dest));
    assert(instr_asm(SpecInstr::Not { dest, src }) =~= att_line("movl"@, src, dest) + "\n"@ + att_line1("notl"@, dest));
    assert(instr_asm(SpecInstr::Branch { condition: src, true_label: t, false_label: f })
        =~= att_line("cmpl"@, "$0"@, src) + "\n"@ + att_line1("jne"@, t) + "\n"@ + att_line1("jmp"@, f));
    assert(instr_asm(SpecInstr::Call { dest, fn_id, args })
        =~= pushes(args) + att_line1("call"@, fn_id) + "\n"@ + att_line("movl"@, "%eax"@, dest));
}

/// A call pushes its arguments from the last to the first: one more argument
/// at the end is pushed before all the others.
pub proof fn law_pushes_last_first(args: Seq<Seq<char>>, a: Seq<char>)
    ensures
        pushes(args.push(a)) == att_line1("pushl"@, a) + "\n"@ + pushes(args),
        pushes(Seq::<Seq<char>>::empty()) == Seq::<char>::empty(),
{
    reveal_strlit("    pushl ");
    reveal_strlit("    ");
    reveal_strlit("pushl");
    reveal_strlit(" ");
    reveal_strlit("\n");
    assert(args.push(a).drop_last() =~= args);
    assert(pushes(args.push(a)) =~= att_line1("pushl"@, a) + "\n"@ + pushes(args));
}

} // verus!
