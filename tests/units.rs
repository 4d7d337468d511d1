use codegen::{
    AllocatedIrNode, Allocation, ArchBackend, AssemblyInst, CodegenError, Compilation, Constant, DeRegAlloc,
    DecompilationHelper, Dropper, FuncAsm, Function, InstSelector, IrNode, IrOpcode, IrOperand, Module, RegAlloc,
    TargetArch, TypeExtractor, TypeMetadata, Visibilty, X86Reg, Aarch64Reg, Riscv64Reg,
};

fn reg(id: usize) -> Allocation {
    Allocation::Register { id, ty: TypeMetadata::Int64 }
}

fn identity_add() -> Function {
    let mut f = Function::new("add");
    let x = f.add_arg(TypeMetadata::Int64);
    let y = f.add_arg(TypeMetadata::Int64);
    let s = f.add(&x, &y);
    f.ret(&s);
    f
}

#[test]
fn dropper_wraps_only_the_last_use() {
    let mut f = Function::new("uses");
    let a = f.add_arg(TypeMetadata::Int64);
    let b = f.copy(&a);
    let c = f.add(&b, &b);
    let d = f.add(&c, &b);
    f.ret(&d);
    let mut dropper = Dropper::new(f);
    dropper.run();
    let g = dropper.get_ir();
    let last_b = IrOperand::Drop(Box::new(IrOperand::Out(0)));
    assert_eq!(g.nodes[1].ops, vec![IrOperand::Out(0), IrOperand::Out(0)]);
    assert_eq!(g.nodes[2].ops, vec![IrOperand::Drop(Box::new(IrOperand::Out(1))), last_b]);
    assert_eq!(g.nodes[3].ops, vec![IrOperand::Drop(Box::new(IrOperand::Out(2)))]);
    assert_eq!(g.nodes[0].ops, vec![a]);
}

#[test]
fn allocator_gives_every_value_a_place() {
    let mut f = identity_add();
    let mut dropper = Dropper::new(f.clone());
    dropper.run();
    f = dropper.get_ir().clone();
    let back = TargetArch::X86.backend();
    let mut ra = RegAlloc::new(f.args.clone(), &back);
    assert_eq!(ra.run(&f), Ok(()));
    let out = ra.get_ir();
    assert_eq!(out.len(), 2);
    assert_eq!(out[0].alloc, Some(reg(0)));
    assert_eq!(out[0].ops, vec![reg(7), reg(6)]);
    assert_eq!(out[1].alloc, None);
    assert_eq!(out[1].ops, vec![reg(0)]);
    assert!(!ra.uses_stack());
}

#[test]
fn allocator_spills_when_registers_run_out() {
    let mut f = Function::new("wide");
    let a = f.add_arg(TypeMetadata::Int64);
    let mut vals = Vec::new();
    for _ in 0..15 {
        vals.push(f.copy(&a));
    }
    let mut acc = f.add(&vals[0], &vals[1]);
    for v in vals.iter().skip(2) {
        acc = f.add(&acc, v);
    }
    f.ret(&acc);
    let mut dropper = Dropper::new(f);
    dropper.run();
    let g = dropper.get_ir().clone();
    let back = TargetArch::X86.backend();
    let mut ra = RegAlloc::new(g.args.clone(), &back);
    assert_eq!(ra.run(&g), Ok(()));
    assert!(ra.uses_stack());
    assert_eq!(ra.get_ir()[14].alloc, Some(Allocation::Stack { slot: 0, ty: TypeMetadata::Int64 }));
}

#[test]
fn allocator_reports_a_value_used_before_it_exists() {
    let mut f = Function::new("early");
    let _a = f.add_arg(TypeMetadata::Int64);
    let c = f.copy(&IrOperand::Out(1));
    f.ret(&c);
    let back = TargetArch::Aarch64.backend();
    let mut ra = RegAlloc::new(f.args.clone(), &back);
    assert_eq!(ra.run(&f), Err(CodegenError::UnresolvedOperand));
    assert!(ra.get_ir().is_empty());
}

#[test]
fn constants_become_immediates() {
    let mut f = Function::new("k");
    let k = IrOperand::ConstNum { num: 255, ty: TypeMetadata::Int64 };
    f.ret(&k);
    let back = TargetArch::Aarch64.backend();
    let mut ra = RegAlloc::new(Vec::new(), &back);
    assert_eq!(ra.run(&f), Ok(()));
    let imm = Allocation::Imm { num: 255, ty: TypeMetadata::Int64 };
    assert_eq!(ra.get_ir()[0].ops, vec![imm]);
    assert_eq!(back.print_op(&imm), "#0xff");
    let mut module = Module::new();
    module.add_func(f);
    let c = module.compile(TargetArch::Aarch64, false).expect("compiles");
    assert_eq!(c.asm_text(), ".text\n.global k\nk:\n\tmov x0, #0xff\n\tret\n");
}

#[test]
fn argument_positions_round_trip_on_every_target() {
    for arch in [TargetArch::X86, TargetArch::Aarch64, TargetArch::Riscv64] {
        let back = arch.backend();
        for n in 0..20usize {
            let at = back.callconv_argpos(n, TypeMetadata::Int64);
            assert_eq!(back.num_for_arg(&at), Some(n));
        }
    }
}

#[test]
fn x86_argument_registers() {
    let back = TargetArch::X86.backend();
    let names: Vec<String> = (0..6)
        .map(|n| back.print_op(&back.callconv_argpos(n, TypeMetadata::Int64)))
        .collect();
    assert_eq!(names, vec!["rdi", "rsi", "rcx", "rdx", "r8", "r9"]);
    assert_eq!(
        back.callconv_argpos(6, TypeMetadata::Int64),
        Allocation::Stack { slot: 0, ty: TypeMetadata::Int64 }
    );
    assert_eq!(back.num_for_arg(&reg(0)), None);
    assert_eq!(back.num_for_arg(&Allocation::ConstUse { id: 1 }), None);
}

#[test]
fn stack_slots_print_per_target() {
    let slot = Allocation::Stack { slot: 2, ty: TypeMetadata::Int64 };
    assert_eq!(TargetArch::X86.backend().print_op(&slot), "[rsp + 32]");
    assert_eq!(TargetArch::Aarch64.backend().print_op(&slot), "[sp, #-32]!");
    assert_eq!(TargetArch::Riscv64.backend().print_op(&slot), "[sp, #-32]!");
    assert_eq!(TargetArch::X86.backend().print_op(&Allocation::Imm { num: 16, ty: TypeMetadata::Int64 }), "0x10");
    assert_eq!(TargetArch::X86.backend().print_op(&Allocation::ConstUse { id: 3 }), "[c3]");
}

#[test]
fn register_names() {
    assert_eq!(X86Reg { id: 4 }.name(), "rsp");
    assert_eq!(X86Reg { id: 15 }.name(), "r15");
    assert_eq!(Aarch64Reg { id: 17 }.name(), "x17");
    assert_eq!(Aarch64Reg { id: 29 }.name(), "sp");
    assert_eq!(Riscv64Reg { id: 3 }.name(), "a3");
    assert_eq!(Riscv64Reg { id: 9 }.name(), "t4");
    assert_eq!(Riscv64Reg { id: 21 }.name(), "s11");
    assert!(X86Reg { id: 3 }.is_gpr());
    assert!(!X86Reg { id: 4 }.is_gpr());
    assert!(X86Reg { id: 7 }.caller_saved());
    assert!(!X86Reg { id: 12 }.caller_saved());
}

#[test]
fn register_sets_partition() {
    for arch in [TargetArch::X86, TargetArch::Aarch64, TargetArch::Riscv64] {
        let back = arch.backend();
        let all = back.grps();
        let caller = back.caller_gpr();
        let callee = back.callee_gpr();
        assert_eq!(all.len(), caller.len() + callee.len());
        for r in &all {
            assert!(caller.contains(r) != callee.contains(r));
        }
        assert!(!all.contains(&back.get_stack_ptr()));
    }
    assert_eq!(TargetArch::X86.backend().name(), "x86");
}

#[test]
fn selector_reports_unsupported_opcode() {
    let node = AllocatedIrNode {
        opcode: IrOpcode::Sub,
        ops: vec![reg(7), reg(6)],
        has_out: true,
        ty: Some(TypeMetadata::Int64),
        alloc: Some(reg(0)),
    };
    let back = TargetArch::X86.backend();
    assert_eq!(back.lower_inst(&node), Err(CodegenError::UnsupportedOpcode));
    let mut func = FuncAsm::new("f".to_string(), &Visibilty::Public);
    let sel = InstSelector::new(vec![node], &back, false);
    assert_eq!(sel.run(&mut func), Err(CodegenError::UnsupportedOpcode));
}

#[test]
fn x86_add_patterns_pick_by_output() {
    let back = TargetArch::X86.backend();
    let node = |out: usize| AllocatedIrNode {
        opcode: IrOpcode::Add,
        ops: vec![reg(1), reg(2)],
        has_out: true,
        ty: Some(TypeMetadata::Int64),
        alloc: Some(reg(out)),
    };
    assert_eq!(back.lower_inst(&node(1)).unwrap(), vec![AssemblyInst::with2("add", &reg(1), &reg(2))]);
    assert_eq!(back.lower_inst(&node(2)).unwrap(), vec![AssemblyInst::with2("add", &reg(2), &reg(1))]);
    assert_eq!(
        back.lower_inst(&node(0)).unwrap(),
        vec![AssemblyInst::with3("lea", &reg(0), &reg(1), &reg(2))]
    );
}

#[test]
fn disassembly_prefers_longer_patterns() {
    let back = TargetArch::X86.backend();
    let insts = vec![AssemblyInst::with2("mov", &reg(0), &reg(1)), AssemblyInst::with0("ret")];
    let (used, node) = back.disasm_inst(&insts, 0).unwrap();
    assert_eq!(used, 2);
    assert_eq!(node.opcode, IrOpcode::Ret);
    assert_eq!(node.ops, vec![reg(1)]);
    let (used, node) = back.disasm_inst(&insts, 1).unwrap();
    assert_eq!(used, 1);
    assert_eq!(node.ops, vec![reg(0)]);
}

#[test]
fn disassembly_rejects_unknown_instruction() {
    let back = TargetArch::X86.backend();
    let insts = vec![AssemblyInst::with0("nop")];
    assert_eq!(back.disasm_inst(&insts, 0).err(), Some(CodegenError::UnsupportedInstruction));
    assert_eq!(back.disasm_inst(&insts, 1).err(), Some(CodegenError::EmptyFunction));
}

#[test]
fn decompiling_an_empty_function_fails() {
    let mut c = Compilation::new(TargetArch::X86);
    c.add(FuncAsm::new("empty".to_string(), &Visibilty::Public));
    assert_eq!(Module::decompile_comp(c).err(), Some(CodegenError::EmptyFunction));
}

#[test]
fn decompiling_unknown_code_fails() {
    let mut c = Compilation::new(TargetArch::Riscv64);
    let mut f = FuncAsm::new("odd".to_string(), &Visibilty::Public);
    f.add(&[AssemblyInst::with1("jal", &reg(3))]);
    c.add(f);
    let helper = DecompilationHelper::new(c);
    let mut module = Module::new();
    helper.add_symbols(&mut module);
    assert_eq!(helper.add_funcs(&mut module), Err(CodegenError::UnsupportedInstruction));
}

#[test]
fn dealloc_reads_values_literals_and_arguments() {
    let nodes = vec![
        AllocatedIrNode {
            opcode: IrOpcode::Add,
            ops: vec![reg(7), Allocation::Imm { num: 3, ty: TypeMetadata::Int64 }],
            has_out: true,
            ty: Some(TypeMetadata::Int64),
            alloc: Some(reg(0)),
        },
        AllocatedIrNode { opcode: IrOpcode::Ret, ops: vec![], has_out: false, ty: None, alloc: None },
    ];
    let mut d = DeRegAlloc::new(nodes, TargetArch::X86);
    assert_eq!(d.dealloc(), Ok(()));
    let ir = d.ir_owned();
    assert_eq!(
        ir[0].ops,
        vec![
            IrOperand::Arg { num: 0, ty: TypeMetadata::Int64 },
            IrOperand::ConstNum { num: 3, ty: TypeMetadata::Int64 }
        ]
    );
    assert_eq!(ir[1].ops, vec![IrOperand::Out(0)]);
    let mut t = TypeExtractor::new();
    assert_eq!(t.extract(&ir), Ok(()));
    assert_eq!(t.args(), &vec![TypeMetadata::Int64]);
    assert_eq!(t.ret(), Some(TypeMetadata::Int64));
}

#[test]
fn dealloc_rejects_a_register_that_carries_nothing() {
    let nodes = vec![AllocatedIrNode {
        opcode: IrOpcode::Ret,
        ops: vec![reg(3)],
        has_out: false,
        ty: None,
        alloc: None,
    }];
    let mut d = DeRegAlloc::new(nodes, TargetArch::X86);
    assert_eq!(d.dealloc(), Err(CodegenError::UnresolvedOperand));
    assert!(d.ir().is_empty());
}

#[test]
fn constants_are_printed_after_the_code() {
    let mut c = Compilation::new(TargetArch::X86);
    let mut f = FuncAsm::new("data".to_string(), &Visibilty::Internal);
    f.add(&[AssemblyInst::with0("ret")]);
    f.add_const(Constant { bytes: vec![1, 2, 255], id: 4 });
    c.add(f);
    assert_eq!(c.asm_text(), "section .text\ndata:\n\tret\nc4: .byte 1, 2, 255\n");
}

#[test]
fn node_accessors() {
    let mut f = identity_add();
    let sum = &f.nodes[0];
    assert!(sum.is_add() && !sum.is_sub() && !sum.is_ret() && !sum.is_copy() && !sum.is_instrinc());
    assert!(sum.is_2ops() && !sum.is_1op());
    assert_eq!(sum.get_lhs(), &IrOperand::Arg { num: 0, ty: TypeMetadata::Int64 });
    assert_eq!(sum.get_rhs(), &IrOperand::Arg { num: 1, ty: TypeMetadata::Int64 });
    assert_eq!(sum.get_ty(), Some(TypeMetadata::Int64));
    let ret = &f.nodes[1];
    assert!(ret.is_ret() && ret.crucial() && ret.is_1op());
    assert!(IrNode::get_stack_ptr().is_instrinc());
    let out = IrOperand::Out(0);
    assert!(out.is_out() && !out.is_arg() && !out.is_drop());
    assert_eq!(out.force_node(), 0);
    assert_eq!(out.get_ty(&f.nodes), Some(TypeMetadata::Int64));
    assert_eq!(IrOperand::Out(7).get_ty(&f.nodes), None);
    let dropped = IrOperand::Drop(Box::new(IrOperand::Arg { num: 2, ty: TypeMetadata::Int64 }));
    assert!(dropped.is_drop());
    assert_eq!(dropped.force_op().force_arg(), (2, TypeMetadata::Int64));
    f.set_ret(TypeMetadata::Int64);
    f.public();
    assert_eq!(f.ret, Some(TypeMetadata::Int64));
    assert_eq!(f.visibility, Visibilty::Public);
}

#[test]
fn allocation_kinds() {
    let r = reg(1);
    let s = Allocation::Stack { slot: 0, ty: TypeMetadata::Int64 };
    let i = Allocation::Imm { num: 1, ty: TypeMetadata::Int64 };
    assert!(r.is_gr() && !r.is_mem() && !r.is_imm());
    assert!(s.is_mem() && i.is_imm());
    assert_eq!(Allocation::ConstUse { id: 0 }.get_ty(), None);
    assert_eq!(s.get_ty(), Some(TypeMetadata::Int64));
}

#[test]
fn printing_a_whole_compilation_for_each_backend() {
    let back: ArchBackend = TargetArch::Riscv64.backend();
    let mut c = Compilation::new(TargetArch::Riscv64);
    let mut f = FuncAsm::new("g".to_string(), &Visibilty::Public);
    f.add(&[AssemblyInst::with2("mv", &reg(0), &reg(12)), AssemblyInst::with0("ret")]);
    c.add(f);
    assert_eq!(back.print_compilation(&c), ".text\n.globl g\ng:\n\tmv a0, s2\n\tret\n");
    assert_eq!(c.asm_text(), back.print_compilation(&c));
}
