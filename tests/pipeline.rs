use codegen::{
    Allocation, CodegenError, Compilation, Dce, Function, IrOpcode, IrOperand, Module, Optimization, OptPass,
    TargetArch, TypeMetadata, Visibilty,
};

fn identity_add() -> Function {
    let mut f = Function::new("add");
    let x = f.add_arg(TypeMetadata::Int64);
    let y = f.add_arg(TypeMetadata::Int64);
    let s = f.add(&x, &y);
    f.ret(&s);
    f
}

fn compile_one(f: Function, target: TargetArch) -> Compilation {
    let mut module = Module::new();
    module.add_func(f);
    module.compile(target, false).expect("compiles")
}

fn mnemonics(c: &Compilation) -> Vec<String> {
    c.funcs[0].insts.iter().map(|i| i.opcode.clone()).collect()
}

#[test]
fn identity_add_on_x86() {
    let c = compile_one(identity_add(), TargetArch::X86);
    assert_eq!(c.asm_text(), "section .text\nglobal add\nadd:\n\tlea rax, [rdi + rsi]\n\tret\n");
}

#[test]
fn identity_add_allocation() {
    let c = compile_one(identity_add(), TargetArch::X86);
    let lea = &c.funcs[0].insts[0];
    assert_eq!(lea.opcode, "lea");
    assert_eq!(
        lea.ops,
        vec![
            Allocation::Register { id: 0, ty: TypeMetadata::Int64 },
            Allocation::Register { id: 7, ty: TypeMetadata::Int64 },
            Allocation::Register { id: 6, ty: TypeMetadata::Int64 },
        ]
    );
}

#[test]
fn return_of_single_argument() {
    let mut f = Function::new("id");
    let a = f.add_arg(TypeMetadata::Int64);
    f.ret(&a);
    let c = compile_one(f, TargetArch::X86);
    assert_eq!(c.asm_text(), "section .text\nglobal id\nid:\n\tmov rax, rdi\n\tret\n");
}

#[test]
fn stack_pointer_intrinsic() {
    let mut f = Function::new("sp");
    let sp = f.get_sp();
    f.ret(&sp);
    let c = compile_one(f, TargetArch::X86);
    assert_eq!(c.asm_text(), "section .text\nglobal sp\nsp:\n\tmov rax, rsp\n\tret\n");
}

#[test]
fn dead_add_eliminated() {
    let mut f = Function::new("id");
    let a = f.add_arg(TypeMetadata::Int64);
    let b = f.add_arg(TypeMetadata::Int64);
    let _unused = f.add(&a, &b);
    f.ret(&a);
    let mut module = Module::new();
    module.add_func(f);
    let c = module.compile(TargetArch::X86, false).expect("compiles");
    assert_eq!(c.asm_text(), "section .text\nglobal id\nid:\n\tmov rax, rdi\n\tret\n");
    assert_eq!(module.funcs[0].ir.len(), 1);
    assert_eq!(module.funcs[0].nodes[module.funcs[0].ir[0]].opcode, IrOpcode::Ret);
}

#[test]
fn identity_add_round_trip() {
    let c = compile_one(identity_add(), TargetArch::X86);
    let module = Module::decompile_comp(c).expect("decompiles");
    let f = &module.funcs[0];
    assert_eq!(f.name, "add");
    assert_eq!(f.args, vec![TypeMetadata::Int64, TypeMetadata::Int64]);
    assert_eq!(f.ret, Some(TypeMetadata::Int64));
    let ops: Vec<IrOpcode> = f.ir.iter().map(|&i| f.nodes[i].opcode).collect();
    assert_eq!(ops, vec![IrOpcode::Add, IrOpcode::Ret]);
    assert_eq!(
        f.nodes[0].ops,
        vec![
            IrOperand::Arg { num: 0, ty: TypeMetadata::Int64 },
            IrOperand::Arg { num: 1, ty: TypeMetadata::Int64 }
        ]
    );
    assert_eq!(f.nodes[1].ops, vec![IrOperand::Out(0)]);
}

#[test]
fn aarch64_identity_add() {
    let c = compile_one(identity_add(), TargetArch::Aarch64);
    assert_eq!(c.asm_text(), ".text\n.global add\nadd:\n\tadd x0, x0, x1\n\tret\n");
}

#[test]
fn riscv64_identity_add() {
    let c = compile_one(identity_add(), TargetArch::Riscv64);
    assert_eq!(c.asm_text(), ".text\n.globl add\nadd:\n\tadd a0, a0, a1\n\tret\n");
}

#[test]
fn aarch64_round_trip() {
    let c = compile_one(identity_add(), TargetArch::Aarch64);
    let module = Module::decompile_comp(c).expect("decompiles");
    let f = &module.funcs[0];
    let ops: Vec<IrOpcode> = f.ir.iter().map(|&i| f.nodes[i].opcode).collect();
    assert_eq!(ops, vec![IrOpcode::Add, IrOpcode::Ret]);
    assert_eq!(f.args.len(), 2);
}

#[test]
fn internal_function_has_no_global_directive() {
    let mut f = identity_add();
    f.internal();
    let c = compile_one(f, TargetArch::X86);
    assert_eq!(c.funcs[0].scope, Visibilty::Internal);
    assert_eq!(c.asm_text(), "section .text\nadd:\n\tlea rax, [rdi + rsi]\n\tret\n");
}

fn reuse_argument_register() -> Function {
    let mut f = Function::new("mix");
    let a = f.add_arg(TypeMetadata::Int64);
    let b = f.add_arg(TypeMetadata::Int64);
    let c0 = f.copy(&a);
    let c1 = f.copy(&a);
    let c2 = f.copy(&a);
    let s = f.add(&b, &c0);
    let t = f.add(&c1, &c2);
    let u = f.add(&s, &t);
    f.ret(&u);
    f
}

#[test]
fn add_reuses_an_argument_register() {
    let c = compile_one(reuse_argument_register(), TargetArch::X86);
    assert_eq!(mnemonics(&c), vec!["mov", "mov", "mov", "add", "lea", "lea", "mov", "ret"]);
    assert_eq!(
        c.asm_text(),
        "section .text\nglobal mix\nmix:\n\tmov rax, rdi\n\tmov rcx, rdi\n\tmov rdx, rdi\n\tadd rsi, rax\n\tlea rax, [rcx + rdx]\n\tlea rdx, [rsi + rax]\n\tmov rax, rdx\n\tret\n"
    );
}

#[test]
fn round_trip_keeps_opcodes() {
    let c = compile_one(reuse_argument_register(), TargetArch::X86);
    let module = Module::decompile_comp(c).expect("decompiles");
    let f = &module.funcs[0];
    let ops: Vec<IrOpcode> = f.ir.iter().map(|&i| f.nodes[i].opcode).collect();
    assert_eq!(
        ops,
        vec![
            IrOpcode::Copy,
            IrOpcode::Copy,
            IrOpcode::Copy,
            IrOpcode::Add,
            IrOpcode::Add,
            IrOpcode::Add,
            IrOpcode::Ret
        ]
    );
    assert_eq!(f.args.len(), 2);
    assert_eq!(f.nodes[3].ops, vec![IrOperand::Arg { num: 1, ty: TypeMetadata::Int64 }, IrOperand::Out(0)]);
}

#[test]
fn chained_adds_alternate_registers() {
    let mut f = Function::new("twice");
    let a = f.add_arg(TypeMetadata::Int64);
    let c1 = f.copy(&a);
    let s = f.add(&c1, &a);
    let t = f.add(&s, &a);
    f.ret(&t);
    let c = compile_one(f, TargetArch::X86);
    assert_eq!(
        c.asm_text(),
        "section .text\nglobal twice\ntwice:\n\tmov rax, rdi\n\tlea rcx, [rax + rdi]\n\tlea rax, [rcx + rdi]\n\tret\n"
    );
}

#[test]
fn dangling_operand_is_unresolved() {
    let mut f = Function::new("bad");
    let a = f.add_arg(TypeMetadata::Int64);
    let _s = f.add(&a, &a);
    f.ret(&IrOperand::Out(99));
    let mut module = Module::new();
    module.add_func(f);
    assert_eq!(module.compile(TargetArch::X86, false), Err(CodegenError::UnresolvedOperand));
}

#[test]
fn malformed_body_is_unresolved() {
    let mut f = identity_add();
    f.ir.push(42);
    let mut module = Module::new();
    module.add_func(f);
    assert_eq!(module.compile(TargetArch::X86, false), Err(CodegenError::UnresolvedOperand));
}

#[test]
fn x86_sub_into_other_register_is_unsupported() {
    let mut f = Function::new("minus");
    let a = f.add_arg(TypeMetadata::Int64);
    let b = f.add_arg(TypeMetadata::Int64);
    let d = f.sub(&a, &b);
    f.ret(&d);
    let mut module = Module::new();
    module.add_func(f);
    assert_eq!(module.compile(TargetArch::X86, false), Err(CodegenError::UnsupportedOpcode));
}

#[test]
fn aarch64_sub() {
    let mut f = Function::new("minus");
    let a = f.add_arg(TypeMetadata::Int64);
    let b = f.add_arg(TypeMetadata::Int64);
    let d = f.sub(&a, &b);
    f.ret(&d);
    let c = compile_one(f, TargetArch::Aarch64);
    assert_eq!(c.asm_text(), ".text\n.global minus\nminus:\n\tsub x0, x0, x1\n\tret\n");
}

#[test]
fn rich_comments_dump_each_node() {
    let mut module = Module::new();
    module.add_func(identity_add());
    let c = module.compile(TargetArch::X86, true).expect("compiles");
    let meta = &c.funcs[0].meta_insts;
    assert_eq!(meta.len(), 2);
    assert_eq!(meta[0].comment, "reg(0) = add reg(7), reg(6)");
    assert_eq!(meta[1].comment, "ret reg(0)");
    assert_eq!(meta[0].insts, c.funcs[0].insts[..1].to_vec());
    assert_eq!(meta[1].insts, c.funcs[0].insts[1..].to_vec());
}

#[test]
fn no_rich_comments_by_default() {
    let c = compile_one(identity_add(), TargetArch::X86);
    assert!(c.funcs[0].meta_insts.is_empty());
}

#[test]
fn several_functions_keep_order() {
    let mut module = Module::new();
    module.add_func(identity_add());
    let mut g = Function::new("id");
    let a = g.add_arg(TypeMetadata::Int64);
    g.ret(&a);
    module.add_func(g);
    let c = module.compile(TargetArch::X86, false).expect("compiles");
    assert_eq!(c.funcs.len(), 2);
    assert_eq!(
        c.asm_text(),
        "section .text\nglobal add\nadd:\n\tlea rax, [rdi + rsi]\n\tret\nglobal id\nid:\n\tmov rax, rdi\n\tret\n"
    );
}

#[test]
fn queued_dce_runs_on_every_function() {
    let mut f = Function::new("id");
    let a = f.add_arg(TypeMetadata::Int64);
    let _dead = f.add(&a, &a);
    f.ret(&a);
    let mut module = Module::new();
    module.add_func(f);
    module.add_opt(OptPass::Dce);
    module.run_opts();
    assert_eq!(module.funcs[0].ir.len(), 1);
    module.clear_opts();
    assert!(module.opts_to_run.is_empty());
}

#[test]
fn dce_is_idempotent_on_a_chain() {
    let mut f = Function::new("chain");
    let a = f.add_arg(TypeMetadata::Int64);
    let b = f.add(&a, &a);
    let _c = f.add(&b, &b);
    f.ret(&a);
    let d = Dce {};
    d.run(&mut f);
    let once = f.ir.clone();
    d.run(&mut f);
    assert_eq!(f.ir, once);
    assert_eq!(once.len(), 1);
    assert_eq!(d.name(), "Dead Code Elimination");
}

#[test]
fn dce_keeps_transitive_producers() {
    let mut f = Function::new("keep");
    let a = f.add_arg(TypeMetadata::Int64);
    let b = f.add(&a, &a);
    let c = f.add(&b, &b);
    f.ret(&c);
    Dce {}.run(&mut f);
    assert_eq!(f.ir, vec![0, 1, 2]);
}

#[test]
fn copy_then_return_reads_back_as_one_return() {
    let mut f = Function::new("cp");
    let a = f.add_arg(TypeMetadata::Int64);
    let c = f.copy(&a);
    f.ret(&c);
    let comp = compile_one(f, TargetArch::X86);
    assert_eq!(comp.asm_text(), "section .text\nglobal cp\ncp:\n\tmov rax, rdi\n\tret\n");
    let module = Module::decompile_comp(comp).expect("decompiles");
    let g = &module.funcs[0];
    let ops: Vec<IrOpcode> = g.ir.iter().map(|&i| g.nodes[i].opcode).collect();
    assert_eq!(ops, vec![IrOpcode::Ret]);
}

#[test]
fn queued_dce_twice_equals_once() {
    let mut f = Function::new("chain");
    let a = f.add_arg(TypeMetadata::Int64);
    let b = f.add(&a, &a);
    let _c = f.add(&b, &b);
    let d = f.copy(&a);
    f.ret(&d);
    let mut once = Module::new();
    once.add_func(f.clone());
    once.add_opt(OptPass::Dce);
    once.run_opts();
    let mut twice = Module::new();
    twice.add_func(f);
    twice.add_opt(OptPass::Dce);
    twice.add_opt(OptPass::Dce);
    twice.run_opts();
    assert_eq!(once.funcs[0].ir, twice.funcs[0].ir);
    assert_eq!(once.funcs[0].ir, vec![2, 3]);
}

#[test]
fn reading_back_the_stack_pointer_is_unresolved() {
    let mut f = Function::new("sp");
    let sp = f.get_sp();
    f.ret(&sp);
    let comp = compile_one(f, TargetArch::X86);
    assert_eq!(Module::decompile_comp(comp).err(), Some(CodegenError::UnresolvedOperand));
}

#[test]
fn decompiling_stops_at_the_first_unreadable_function() {
    let mut module = Module::new();
    module.add_func(identity_add());
    let mut f = Function::new("sp");
    let sp = f.get_sp();
    f.ret(&sp);
    module.add_func(f);
    let comp = module.compile(TargetArch::X86, false).expect("compiles");
    assert_eq!(Module::decompile_comp(comp).err(), Some(CodegenError::UnresolvedOperand));
}
