use petal::back::codegen::Generator;
use petal::back::target::{recognize, Target};
use petal::middle::ir::{IRFunction, IRInstruction, IRModule, IRType};
use petal::middle::spill::{extract_virtual_registers, perform_spill_pass, rewrite_instruction, run_spill_pass_on_module, substitute, Alloc};

fn s(x: &str) -> String {
    x.to_string()
}

#[test]
fn targets_by_name() {
    assert!(matches!(Target::new("x86_64"), Target::X86_64));
    assert!(matches!(Target::new("AArch64"), Target::AArch64));
    assert!(matches!(Target::new("RP2040"), Target::Rp2040));
    assert!(Target::try_new("mips").is_none());
}

#[test]
fn target_conventions() {
    let x = Target::X86_64;
    assert_eq!(x.arg_registers(0), "rdi");
    assert_eq!(x.arg_registers(5), "r9");
    assert_eq!(x.arg_registers(6), "arg6");
    assert_eq!(Target::AArch64.arg_registers(7), "x7");
    assert_eq!(Target::Rp2040.arg_registers(4), "arg4");
    assert_eq!(x.available_registers(), vec![s("%eax"), s("%ebx"), s("%ecx"), s("%edx"), s("%esi"), s("%edi")]);
    assert_eq!(Target::Rp2040.available_registers().len(), 4);
    assert_eq!(x.default_int_size(), 4);
    assert_eq!(x.global_directive(), ".globl");
    assert_eq!(Target::AArch64.global_directive(), ".global");
    assert_eq!(Target::Rp2040.mov_instruction(), "MOV");
    assert_eq!(Target::AArch64.push_instruction(), "stp");
    assert_eq!(x.pop_instruction(), "popq");
    assert_eq!(Target::AArch64.function_label("main"), "_main");
    assert_eq!(x.function_label("main"), "main");
}

#[test]
fn assembly_of_a_module() {
    let module = IRModule {
        globals: vec![IRInstruction::LoadConstant { dest: s("g"), value: -3 }],
        functions: vec![IRFunction {
            id: s("main"),
            instructions: vec![
                IRInstruction::Add { dest: s("%eax"), op1: s("%ebx"), op2: s("%ecx") },
                IRInstruction::Return { value: s("0") },
            ],
        }],
    };
    let mut g = Generator::new(module, Target::X86_64);
    assert_eq!(
        g.generate(),
        ".section .text\n\n    movl $-3, g\n    .globl main\nmain:\n    pushq   %rbp\n    movq    %rsp, %rbp\n\
         \x20   movl %ebx, %eax\n    addl %ecx, %eax\n    movl 0, %eax\n    popq    %rbp\n    ret\n\n"
    );
}

#[test]
fn assembly_of_instructions() {
    let g = Generator::new(IRModule::new(), Target::X86_64);
    assert_eq!(
        g.generate_instruction(&IRInstruction::Div { dest: s("d"), op1: s("a"), op2: s("b") }),
        "    movl a, %eax\n    cltd\n    idivl b\n    movl %eax, d"
    );
    assert_eq!(
        g.generate_instruction(&IRInstruction::Call { dest: s("d"), fn_id: s("f"), args: vec![s("x"), s("y")] }),
        "    pushl y\n    pushl x\n    call f\n    movl %eax, d"
    );
    assert_eq!(g.generate_instruction(&IRInstruction::Label(s("L1"))), "L1:");
    assert_eq!(
        g.generate_instruction(&IRInstruction::AllocStack { name: s("x"), var_type: IRType::Int(4), initial_value: None }),
        "    # AllocStack: x of type Int(4) without initializer"
    );
    assert_eq!(
        g.generate_instruction(&IRInstruction::Branch { condition: s("c"), true_label: s("L1"), false_label: s("L2") }),
        "    cmpl $0, c\n    jne L1\n    jmp L2"
    );
}

#[test]
fn virtual_registers_of_instructions() {
    let add = IRInstruction::Add { dest: s("t3"), op1: s("t1"), op2: s("%eax") };
    assert_eq!(extract_virtual_registers(&add), vec![s("t3"), s("t1")]);
    let call = IRInstruction::Call { dest: s("t4"), fn_id: s("f"), args: vec![s("t1"), s("x"), s("t2")] };
    assert_eq!(extract_virtual_registers(&call), vec![s("t4"), s("t1"), s("t2")]);
    assert!(extract_virtual_registers(&IRInstruction::Label(s("t9"))).is_empty());
}

#[test]
fn registers_first_then_stack_slots() {
    let code = vec![
        IRInstruction::LoadConstant { dest: s("t1"), value: 1 },
        IRInstruction::LoadConstant { dest: s("t2"), value: 2 },
        IRInstruction::Add { dest: s("t3"), op1: s("t1"), op2: s("t2") },
    ];
    let mut regs = vec![s("%eax"), s("%ebx")];
    let (rewritten, map) = perform_spill_pass(code, &mut regs);
    assert!(regs.is_empty());
    assert_eq!(
        format!("{:?}", map),
        "[(\"t1\", Reg(\"%ebx\")), (\"t2\", Reg(\"%eax\")), (\"t3\", Spill(-12))]"
    );
    assert_eq!(
        format!("{:?}", rewritten),
        "[LoadConstant { dest: \"%ebx\", value: 1 }, LoadConstant { dest: \"%eax\", value: 2 }, \
         Add { dest: \"-12(%rbp)\", op1: \"%ebx\", op2: \"%eax\" }]"
    );
}

#[test]
fn substitution_and_rewriting() {
    let map = vec![(s("t1"), Alloc::Reg(s("%ecx"))), (s("t2"), Alloc::Spill(-8))];
    assert_eq!(substitute(&s("t1"), &map), "%ecx");
    assert_eq!(substitute(&s("t2"), &map), "-8(%rbp)");
    assert_eq!(substitute(&s("t7"), &map), "t7");
    let out = rewrite_instruction(IRInstruction::Sub { dest: s("t2"), op1: s("t1"), op2: s("t2") }, &map);
    assert_eq!(format!("{:?}", out), "[Sub { dest: \"-8(%rbp)\", op1: \"%ecx\", op2: \"-8(%rbp)\" }]");
    // A load's destination is substituted; its memory operand is kept.
    let out = rewrite_instruction(IRInstruction::Load { dest: s("t1"), src: s("x") }, &map);
    assert_eq!(format!("{:?}", out), "[Load { dest: \"%ecx\", src: \"x\" }]");
    let out = rewrite_instruction(IRInstruction::Store { dest: s("t1"), src: s("t2") }, &map);
    assert_eq!(format!("{:?}", out), "[Store { dest: \"t1\", src: \"-8(%rbp)\" }]");
    let out = rewrite_instruction(IRInstruction::Not { dest: s("t1"), src: s("t2") }, &map);
    assert_eq!(format!("{:?}", out), "[Not { dest: \"%ecx\", src: \"-8(%rbp)\" }]");
    let out = rewrite_instruction(
        IRInstruction::Call { dest: s("t1"), fn_id: s("t2"), args: vec![s("t2"), s("a"), s("t1")] },
        &map,
    );
    assert_eq!(
        format!("{:?}", out),
        "[Call { dest: \"%ecx\", fn_id: \"t2\", args: [\"-8(%rbp)\", \"a\", \"%ecx\"] }]"
    );
    let out = rewrite_instruction(IRInstruction::Return { value: s("t2") }, &map);
    assert_eq!(format!("{:?}", out), "[Return { value: \"-8(%rbp)\" }]");
    let out = rewrite_instruction(IRInstruction::LoadConstant { dest: s("t1"), value: 3 }, &map);
    assert_eq!(format!("{:?}", out), "[LoadConstant { dest: \"%ecx\", value: 3 }]");
    // Labels are kept as they are.
    let out = rewrite_instruction(IRInstruction::Label(s("t1")), &map);
    assert_eq!(format!("{:?}", out), "[Label(\"t1\")]");
}

#[test]
fn every_binary_operation_is_rewritten() {
    let map = vec![(s("t1"), Alloc::Reg(s("%eax"))), (s("t2"), Alloc::Spill(-12))];
    let out = rewrite_instruction(IRInstruction::Mul { dest: s("t1"), op1: s("t2"), op2: s("x") }, &map);
    assert_eq!(format!("{:?}", out), "[Mul { dest: \"%eax\", op1: \"-12(%rbp)\", op2: \"x\" }]");
    let out = rewrite_instruction(IRInstruction::ShiftRight { dest: s("t2"), op1: s("t1"), op2: s("t1") }, &map);
    assert_eq!(format!("{:?}", out), "[ShiftRight { dest: \"-12(%rbp)\", op1: \"%eax\", op2: \"%eax\" }]");
}

#[test]
fn the_pass_over_a_module_shares_the_registers() {
    let mut module = IRModule {
        globals: vec![],
        functions: vec![
            IRFunction { id: s("f"), instructions: vec![IRInstruction::Return { value: s("t1") }] },
            IRFunction { id: s("g"), instructions: vec![IRInstruction::Return { value: s("t1") }] },
        ],
    };
    let log = run_spill_pass_on_module(&mut module, vec![s("%eax")]);
    assert_eq!(format!("{:?}", log), "[(\"f\", [(\"t1\", Reg(\"%eax\"))]), (\"g\", [(\"t1\", Spill(-4))])]");
    assert_eq!(module.functions.len(), 2);
    assert_eq!(module.functions[1].id, "g");
}

#[test]
fn lower_case_names_are_recognized() {
    assert!(matches!(recognize(&s("x86_64")), Some(Target::X86_64)));
    assert!(matches!(recognize(&s("aarch64")), Some(Target::AArch64)));
    assert!(matches!(recognize(&s("rp2040")), Some(Target::Rp2040)));
    assert!(recognize(&s("RP2040")).is_none());
    assert!(recognize(&s("mips")).is_none());
}

#[test]
fn spilled_registers_get_slots_of_their_own() {
    let code = vec![
        IRInstruction::Add { dest: s("t3"), op1: s("t1"), op2: s("t2") },
        IRInstruction::Mul { dest: s("t4"), op1: s("t3"), op2: s("t1") },
    ];
    let mut regs = vec![s("%eax")];
    let (rewritten, map) = perform_spill_pass(code, &mut regs);
    assert_eq!(
        format!("{:?}", map),
        "[(\"t3\", Reg(\"%eax\")), (\"t1\", Spill(-8)), (\"t2\", Spill(-12)), (\"t4\", Spill(-16))]"
    );
    assert_eq!(
        format!("{:?}", rewritten),
        "[Add { dest: \"%eax\", op1: \"-8(%rbp)\", op2: \"-12(%rbp)\" }, \
         Mul { dest: \"-16(%rbp)\", op1: \"%eax\", op2: \"-8(%rbp)\" }]"
    );
}
