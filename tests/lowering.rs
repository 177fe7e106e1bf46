use sysy_compiler::ast::{
    AddExp, AddOp, BType, Block, BlockItem, ClosedStmt, CompUnit, ConstDecl, ConstDef, ConstExp,
    ConstInitVal, Decl, EqExp, Exp, FuncDef, FuncType, InitVal, LAndExp, LAndOp, LOrExp, LOrOp, LVal,
    MulExp, MulOp, NonIfStmt, Number, OpenStmt, PrimaryExp, RelExp, RelOp, Stmt, UnaryExp, UnaryOp,
    VarDecl, VarDef,
};
use sysy_compiler::generate_ir::{CompileError, ExpResult, GenerateIRParams, load_var_to_sym_tab};
use sysy_compiler::sym_table::{SymTable, SymVal};

fn lift_unary(u: UnaryExp) -> Exp {
    lift_add(AddExp::MulExp(MulExp::UnaryExp(u)))
}

fn lift_add(a: AddExp) -> Exp {
    lift_rel(RelExp::AddExp(a))
}

fn lift_rel(r: RelExp) -> Exp {
    Exp { l_or_exp: LOrExp::LAndExp(LAndExp::EqExp(EqExp::RelExp(r))) }
}

fn paren(e: Exp) -> UnaryExp {
    UnaryExp::PrimaryExp(Box::new(PrimaryExp::Exp(Box::new(e))))
}

fn num(v: i32) -> Exp {
    lift_unary(UnaryExp::PrimaryExp(Box::new(PrimaryExp::Number(Number::IntConst(v)))))
}

fn var(name: &str) -> Exp {
    lift_unary(UnaryExp::PrimaryExp(Box::new(PrimaryExp::LVal(LVal { ident: name.to_string() }))))
}

fn neg(e: Exp) -> Exp {
    lift_unary(UnaryExp::UnaryExp(UnaryOp::Sub, Box::new(paren(e))))
}

fn not(e: Exp) -> Exp {
    lift_unary(UnaryExp::UnaryExp(UnaryOp::Rev, Box::new(paren(e))))
}

fn to_mul(e: Exp) -> MulExp {
    MulExp::UnaryExp(paren(e))
}

fn add(l: Exp, op: AddOp, r: Exp) -> Exp {
    lift_add(AddExp::AddExp(Box::new(AddExp::MulExp(to_mul(l))), op, to_mul(r)))
}

fn mul(l: Exp, op: MulOp, r: Exp) -> Exp {
    lift_add(AddExp::MulExp(MulExp::MulExp(Box::new(to_mul(l)), op, paren(r))))
}

fn rel(l: Exp, op: RelOp, r: Exp) -> Exp {
    lift_rel(RelExp::RelExp(Box::new(RelExp::AddExp(AddExp::MulExp(to_mul(l)))), op, AddExp::MulExp(to_mul(r))))
}

fn eq_lift(e: Exp) -> EqExp {
    EqExp::RelExp(RelExp::AddExp(AddExp::MulExp(to_mul(e))))
}

fn land(l: Exp, r: Exp) -> Exp {
    Exp { l_or_exp: LOrExp::LAndExp(LAndExp::LAndExp(Box::new(LAndExp::EqExp(eq_lift(l))), LAndOp::And, eq_lift(r))) }
}

fn lor(l: Exp, r: Exp) -> Exp {
    Exp {
        l_or_exp: LOrExp::LOrExp(
            Box::new(LOrExp::LAndExp(LAndExp::EqExp(eq_lift(l)))),
            LOrOp::Or,
            LAndExp::EqExp(eq_lift(r)),
        ),
    }
}

fn ret(e: Exp) -> ClosedStmt {
    ClosedStmt::NonIfStmt(NonIfStmt::Return(e))
}

fn assign(name: &str, e: Exp) -> ClosedStmt {
    ClosedStmt::NonIfStmt(NonIfStmt::Assgn(LVal { ident: name.to_string() }, e))
}

fn closed(c: ClosedStmt) -> BlockItem {
    BlockItem::Stmt(Stmt::ClosedStmt(c))
}

fn int_var(name: &str, init: Option<Exp>) -> BlockItem {
    let def = match init {
        Some(e) => VarDef::VarDefInit(name.to_string(), InitVal { exp: e }),
        None => VarDef::VarDefUninit(name.to_string()),
    };
    BlockItem::Decl(Decl::VarDecl(VarDecl { btype: BType::Int, var_defs: vec![def] }))
}

fn const_int(name: &str, e: Exp) -> BlockItem {
    BlockItem::Decl(Decl::ConstDecl(ConstDecl {
        btype: BType::Int,
        const_defs: vec![ConstDef {
            ident: name.to_string(),
            const_init_val: ConstInitVal { const_exp: ConstExp { exp: e } },
        }],
    }))
}

fn main_with(items: Vec<BlockItem>) -> CompUnit {
    CompUnit {
        func_def: FuncDef { func_type: FuncType::Int, ident: "main".to_string(), block: Block { block_items: items } },
    }
}

fn lower(c: &CompUnit) -> Result<String, CompileError> {
    let mut buf: Vec<u8> = Vec::new();
    c.generate_koopa_ir(&mut buf)?;
    Ok(String::from_utf8(buf).unwrap())
}

#[test]
fn return_zero() {
    let c = main_with(vec![closed(ret(num(0)))]);
    assert_eq!(lower(&c).unwrap(), "fun @main(): i32 {\n%entry:\n  ret 0\n}\n");
}

#[test]
fn negate_then_add() {
    let c = main_with(vec![closed(ret(add(neg(num(1)), AddOp::Add, num(2))))]);
    assert_eq!(lower(&c).unwrap(), "fun @main(): i32 {\n%entry:\n  %0 = sub 0, 1\n  %1 = add %0, 2\n  ret %1\n}\n");
}

#[test]
fn constant_is_inlined() {
    let c = main_with(vec![
        const_int("a", num(3)),
        int_var("b", Some(mul(var("a"), MulOp::Mul, num(2)))),
        closed(ret(var("b"))),
    ]);
    let ir = lower(&c).unwrap();
    assert_eq!(
        ir,
        "fun @main(): i32 {\n%entry:\n  %0 = mul 3, 2\n  @b_1 = alloc i32\n  store %0, @b_1\n  %1 = load @b_1\n  ret %1\n}\n"
    );
    assert!(!ir.contains("@a"));
}

#[test]
fn if_else_both_store() {
    let c = main_with(vec![
        int_var("a", Some(num(0))),
        closed(ClosedStmt::IfStmt(num(1), Box::new(assign("a", num(1))), Box::new(assign("a", num(2))))),
        closed(ret(var("a"))),
    ]);
    assert_eq!(
        lower(&c).unwrap(),
        "fun @main(): i32 {\n%entry:\n  @a_1 = alloc i32\n  store 0, @a_1\n  br 1, %then1, %else1\n%then1:\n  store 1, @a_1\n  jump %end1\n%else1:\n  store 2, @a_1\n  jump %end1\n%end1:\n  %0 = load @a_1\n  ret %0\n}\n"
    );
}

#[test]
fn shadowed_variable_reads_outer_in_initializer() {
    let inner = Block { block_items: vec![int_var("a", Some(add(var("a"), AddOp::Add, num(1)))), closed(ret(var("a")))] };
    let c = main_with(vec![int_var("a", Some(num(5))), closed(ClosedStmt::NonIfStmt(NonIfStmt::Block(inner)))]);
    assert_eq!(
        lower(&c).unwrap(),
        "fun @main(): i32 {\n%entry:\n  @a_1 = alloc i32\n  store 5, @a_1\n  %0 = load @a_1\n  %1 = add %0, 1\n  @a_2 = alloc i32\n  store %1, @a_2\n  %2 = load @a_2\n  ret %2\n}\n"
    );
}

#[test]
fn dangling_else_binds_inner() {
    let inner_if = ClosedStmt::IfStmt(rel(var("a"), RelOp::Gt, num(7)), Box::new(ret(num(1))), Box::new(ret(num(2))));
    let outer = OpenStmt::IfStmtNoElse(rel(var("a"), RelOp::Gt, num(5)), Box::new(Stmt::ClosedStmt(inner_if)));
    let c = main_with(vec![int_var("a", Some(num(10))), BlockItem::Stmt(Stmt::OpenStmt(outer)), closed(ret(num(3)))]);
    assert_eq!(
        lower(&c).unwrap(),
        "fun @main(): i32 {\n%entry:\n  @a_1 = alloc i32\n  store 10, @a_1\n  %0 = load @a_1\n  %1 = gt %0, 5\n  br %1, %then1, %end1\n%then1:\n  %2 = load @a_1\n  %3 = gt %2, 7\n  br %3, %then2, %else2\n%then2:\n  ret 1\n%else2:\n  ret 2\n%end2:\n  jump %end1\n%end1:\n  ret 3\n}\n"
    );
}

#[test]
fn logical_operators_are_not_short_circuit() {
    let c = main_with(vec![closed(ret(lor(num(0), land(num(2), num(3)))))]);
    assert_eq!(
        lower(&c).unwrap(),
        "fun @main(): i32 {\n%entry:\n  %0 = ne 2, 0\n  %1 = ne 3, 0\n  %2 = and %0, %1\n  %3 = ne 0, 0\n  %4 = ne %2, 0\n  %5 = or %3, %4\n  ret %5\n}\n"
    );
}

#[test]
fn right_operand_is_lowered_first() {
    let c = main_with(vec![
        int_var("x", Some(num(4))),
        closed(ret(add(var("x"), AddOp::Sub, not(var("x"))))),
    ]);
    assert_eq!(
        lower(&c).unwrap(),
        "fun @main(): i32 {\n%entry:\n  @x_1 = alloc i32\n  store 4, @x_1\n  %0 = load @x_1\n  %1 = eq %0, 0\n  %2 = load @x_1\n  %3 = sub %2, %1\n  ret %3\n}\n"
    );
}

#[test]
fn missing_return_gets_ret_undef() {
    let c = main_with(vec![int_var("a", None)]);
    assert_eq!(lower(&c).unwrap(), "fun @main(): i32 {\n%entry:\n  @a_1 = alloc i32\n  ret undef\n}\n");
}

#[test]
fn void_function_header() {
    let c = CompUnit {
        func_def: FuncDef { func_type: FuncType::Void, ident: "main".to_string(), block: Block { block_items: vec![] } },
    };
    assert_eq!(lower(&c).unwrap(), "fun @main(): void {\n%entry:\n  ret undef\n}\n");
}

#[test]
fn code_after_return_is_dropped() {
    let c = main_with(vec![closed(ret(num(1))), closed(ret(num(2)))]);
    assert_eq!(lower(&c).unwrap(), "fun @main(): i32 {\n%entry:\n  ret 1\n}\n");
}

#[test]
fn lowering_twice_gives_identical_text() {
    let c = main_with(vec![int_var("a", Some(num(5))), closed(ret(mul(var("a"), MulOp::Mod, num(3))))]);
    let first = lower(&c).unwrap();
    let mut prefilled: Vec<u8> = b"junk".to_vec();
    c.generate_koopa_ir(&mut prefilled).unwrap();
    assert_eq!(&prefilled[4..], first.as_bytes());
    assert_eq!(lower(&c).unwrap(), first);
}

#[test]
fn error_unsupported_function() {
    let c = CompUnit {
        func_def: FuncDef { func_type: FuncType::Int, ident: "foo".to_string(), block: Block { block_items: vec![] } },
    };
    assert_eq!(lower(&c), Err(CompileError::UnsupportedFunction));
}

#[test]
fn error_unbound_name() {
    let c = main_with(vec![closed(ret(var("nope")))]);
    assert_eq!(lower(&c), Err(CompileError::UnboundName));
}

#[test]
fn error_assign_to_const() {
    let c = main_with(vec![const_int("k", num(1)), closed(assign("k", num(2)))]);
    assert_eq!(lower(&c), Err(CompileError::AssignToConst));
}

#[test]
fn error_division_by_zero_in_constant() {
    let c = main_with(vec![const_int("k", mul(num(1), MulOp::Div, num(0)))]);
    assert_eq!(lower(&c), Err(CompileError::ArithDomain));
}

#[test]
fn variable_in_constant_folds_to_zero_with_note() {
    let c = main_with(vec![
        int_var("v", Some(num(7))),
        const_int("k", add(var("v"), AddOp::Add, num(1))),
        closed(ret(var("k"))),
    ]);
    let mut buf: Vec<u8> = Vec::new();
    let notes = c.generate_koopa_ir(&mut buf).unwrap();
    assert_eq!(notes, vec![CompileError::NonConstInInitializer]);
    assert!(String::from_utf8(buf).unwrap().contains("  ret 1\n"));
}

#[test]
fn error_counter_overflow() {
    let e = neg(num(1));
    let mut params = GenerateIRParams::new();
    params.var_count = i32::MAX;
    let mut buf: Vec<u8> = Vec::new();
    assert_eq!(e.generate_koopa_ir(&mut buf, &mut params), Err(CompileError::CounterOverflow));
}

#[test]
fn folding_uses_wrapping_and_truncation() {
    let mut params = GenerateIRParams::new();
    assert_eq!(add(num(i32::MAX), AddOp::Add, num(1)).calc_const(&mut params), Ok(i32::MIN));
    assert_eq!(mul(num(-7), MulOp::Div, num(2)).calc_const(&mut params), Ok(-3));
    assert_eq!(mul(num(-7), MulOp::Mod, num(2)).calc_const(&mut params), Ok(-1));
    assert_eq!(mul(num(i32::MIN), MulOp::Div, num(-1)).calc_const(&mut params), Ok(i32::MIN));
    assert_eq!(mul(num(i32::MIN), MulOp::Mod, num(-1)).calc_const(&mut params), Ok(0));
    assert_eq!(neg(num(i32::MIN)).calc_const(&mut params), Ok(i32::MIN));
    assert_eq!(not(num(5)).calc_const(&mut params), Ok(0));
    assert_eq!(rel(num(2), RelOp::Le, num(2)).calc_const(&mut params), Ok(1));
    assert_eq!(land(num(2), num(0)).calc_const(&mut params), Ok(0));
    assert_eq!(lor(num(0), num(-4)).calc_const(&mut params), Ok(1));
}

#[test]
fn fresh_params_start_at_zero() {
    let mut params = GenerateIRParams::new();
    let mut buf: Vec<u8> = Vec::new();
    let r = add(num(1), AddOp::Add, num(2)).generate_koopa_ir(&mut buf, &mut params);
    assert_eq!(r, Ok(ExpResult::RegCount(1)));
    assert_eq!(String::from_utf8(buf).unwrap(), "  %0 = add 1, 2\n");
    assert_eq!(params.var_count, 1);
}

// ---------------------------------------------------------------------------
// From IR text to assembly, through koopa's parser.

use std::collections::HashMap;
use sysy_compiler::generate_asm::{
    BodyItem, FunctionData, GenerateAsmParams, Operand, Program, ValueKind, load_and_save, register_idx_to_name,
};
use sysy_compiler::ir_text::BinaryOp;

fn to_program(ir: &str) -> Program {
    let driver = koopa::front::Driver::from(ir.to_string());
    let p = driver.generate_program().unwrap();
    let mut funcs = Vec::new();
    for &f in p.func_layout() {
        let fd = p.func(f);
        let mut pos = HashMap::new();
        let mut bb_pos = HashMap::new();
        let mut k = 0usize;
        for (&bb, node) in fd.layout().bbs() {
            bb_pos.insert(bb, k);
            k += 1;
            for &inst in node.insts().keys() {
                pos.insert(inst, k);
                k += 1;
            }
        }
        let op = |v: koopa::ir::Value| match fd.dfg().value(v).kind() {
            koopa::ir::ValueKind::Integer(i) => Operand::Integer(i.value()),
            koopa::ir::ValueKind::Undef(_) => Operand::Undef,
            _ => Operand::Value(pos[&v]),
        };
        let mut body = Vec::new();
        for (&bb, node) in fd.layout().bbs() {
            body.push(BodyItem::Block(fd.dfg().bb(bb).name().clone().unwrap()));
            for &inst in node.insts().keys() {
                let kind = match fd.dfg().value(inst).kind() {
                    koopa::ir::ValueKind::Alloc(_) => ValueKind::Alloc,
                    koopa::ir::ValueKind::Load(l) => ValueKind::Load(op(l.src())),
                    koopa::ir::ValueKind::Store(s) => ValueKind::Store(op(s.value()), op(s.dest())),
                    koopa::ir::ValueKind::Binary(b) => {
                        let o = match b.op() {
                            koopa::ir::BinaryOp::Add => BinaryOp::Add,
                            koopa::ir::BinaryOp::Sub => BinaryOp::Sub,
                            koopa::ir::BinaryOp::Mul => BinaryOp::Mul,
                            koopa::ir::BinaryOp::Div => BinaryOp::Div,
                            koopa::ir::BinaryOp::Mod => BinaryOp::Mod,
                            koopa::ir::BinaryOp::Lt => BinaryOp::Lt,
                            koopa::ir::BinaryOp::Le => BinaryOp::Le,
                            koopa::ir::BinaryOp::Gt => BinaryOp::Gt,
                            koopa::ir::BinaryOp::Ge => BinaryOp::Ge,
                            koopa::ir::BinaryOp::Eq => BinaryOp::Eq,
                            koopa::ir::BinaryOp::NotEq => BinaryOp::NotEq,
                            koopa::ir::BinaryOp::And => BinaryOp::And,
                            koopa::ir::BinaryOp::Or => BinaryOp::Or,
                            _ => panic!("operator outside the language"),
                        };
                        ValueKind::Binary(o, op(b.lhs()), op(b.rhs()))
                    }
                    koopa::ir::ValueKind::Branch(b) => ValueKind::Branch(op(b.cond()), bb_pos[&b.true_bb()], bb_pos[&b.false_bb()]),
                    koopa::ir::ValueKind::Jump(j) => ValueKind::Jump(bb_pos[&j.target()]),
                    koopa::ir::ValueKind::Return(r) => ValueKind::Return(r.value().map(op)),
                    _ => panic!("instruction outside the language"),
                };
                body.push(BodyItem::Inst(kind));
            }
        }
        funcs.push(FunctionData { name: fd.name().to_string(), body });
    }
    Program { funcs }
}

fn asm_of(p: &Program) -> String {
    for f in &p.funcs {
        assert!(f.is_well_formed());
    }
    let mut buf: Vec<u8> = Vec::new();
    let mut params = GenerateAsmParams::new();
    p.generate_asm(&mut buf, &mut params);
    String::from_utf8(buf).unwrap()
}

/// Runs a function of the graph and returns what it returns.
fn run(f: &FunctionData) -> i32 {
    let mut vals: HashMap<usize, i32> = HashMap::new();
    let mut mem: HashMap<usize, i32> = HashMap::new();
    let get = |vals: &HashMap<usize, i32>, o: &Operand| match o {
        Operand::Integer(i) => *i,
        Operand::Value(k) => vals[k],
        Operand::Undef => 0,
    };
    let mut pc = 0usize;
    loop {
        match &f.body[pc] {
            BodyItem::Block(_) => {}
            BodyItem::Inst(kind) => match kind {
                ValueKind::Integer(_) | ValueKind::Alloc => {}
                ValueKind::Store(v, Operand::Value(d)) => {
                    let x = get(&vals, v);
                    mem.insert(*d, x);
                }
                ValueKind::Load(Operand::Value(s)) => {
                    let x = mem[s];
                    vals.insert(pc, x);
                }
                ValueKind::Binary(op, l, r) => {
                    let (a, b) = (get(&vals, l), get(&vals, r));
                    let x = match op {
                        BinaryOp::Add => a.wrapping_add(b),
                        BinaryOp::Sub => a.wrapping_sub(b),
                        BinaryOp::Mul => a.wrapping_mul(b),
                        BinaryOp::Div => a.wrapping_div(b),
                        BinaryOp::Mod => a.wrapping_rem(b),
                        BinaryOp::Lt => (a < b) as i32,
                        BinaryOp::Le => (a <= b) as i32,
                        BinaryOp::Gt => (a > b) as i32,
                        BinaryOp::Ge => (a >= b) as i32,
                        BinaryOp::Eq => (a == b) as i32,
                        BinaryOp::NotEq => (a != b) as i32,
                        BinaryOp::And => a & b,
                        BinaryOp::Or => a | b,
                    };
                    vals.insert(pc, x);
                }
                ValueKind::Branch(c, t, e) => {
                    pc = if get(&vals, c) != 0 { *t } else { *e };
                    continue;
                }
                ValueKind::Jump(t) => {
                    pc = *t;
                    continue;
                }
                ValueKind::Return(v) => return v.as_ref().map(|o| get(&vals, o)).unwrap_or(0),
                _ => panic!("malformed"),
            },
        }
        pc += 1;
    }
}

fn compile_and_run(c: &CompUnit) -> (i32, String) {
    let p = to_program(&lower(c).unwrap());
    (run(&p.funcs[0]), asm_of(&p))
}

#[test]
fn asm_return_zero() {
    let (v, code) = compile_and_run(&main_with(vec![closed(ret(num(0)))]));
    assert_eq!(v, 0);
    assert_eq!(code, "  .text\n  .globl main\nmain:\nentry:\n  li a0, 0\n  ret\n");
}

#[test]
fn asm_negate_then_add() {
    let (v, code) = compile_and_run(&main_with(vec![closed(ret(add(neg(num(1)), AddOp::Add, num(2))))]));
    assert_eq!(v, 1);
    assert_eq!(
        code,
        "  .text\n  .globl main\nmain:\n  addi sp, sp, -16\nentry:\n  li t0, 0\n  li t1, 1\n  sub t1, t0, t1\n  sw t1, 0(sp)\n  lw t0, 0(sp)\n  li t1, 2\n  add t1, t0, t1\n  sw t1, 4(sp)\n  lw a0, 4(sp)\n  addi sp, sp, 16\n  ret\n"
    );
}

#[test]
fn asm_constant_program_returns_six() {
    let c = main_with(vec![
        const_int("a", num(3)),
        int_var("b", Some(mul(var("a"), MulOp::Mul, num(2)))),
        closed(ret(var("b"))),
    ]);
    let (v, code) = compile_and_run(&c);
    assert_eq!(v, 6);
    assert!(code.contains("  li t0, 3\n  li t1, 2\n  mul t1, t0, t1\n  sw t1, 0(sp)\n"));
}

#[test]
fn asm_if_else_returns_one() {
    let c = main_with(vec![
        int_var("a", Some(num(0))),
        closed(ClosedStmt::IfStmt(num(1), Box::new(assign("a", num(1))), Box::new(assign("a", num(2))))),
        closed(ret(var("a"))),
    ]);
    let (v, code) = compile_and_run(&c);
    assert_eq!(v, 1);
    assert!(code.contains("  j then1\nthen1:\n"));
}

#[test]
fn asm_shadowing_returns_six() {
    let inner = Block { block_items: vec![int_var("a", Some(add(var("a"), AddOp::Add, num(1)))), closed(ret(var("a")))] };
    let c = main_with(vec![int_var("a", Some(num(5))), closed(ClosedStmt::NonIfStmt(NonIfStmt::Block(inner)))]);
    assert_eq!(compile_and_run(&c).0, 6);
}

#[test]
fn asm_dangling_else_binds_inner() {
    let inner_if = ClosedStmt::IfStmt(rel(var("a"), RelOp::Gt, num(7)), Box::new(ret(num(1))), Box::new(ret(num(2))));
    let outer = OpenStmt::IfStmtNoElse(rel(var("a"), RelOp::Gt, num(5)), Box::new(Stmt::ClosedStmt(inner_if)));
    let c = main_with(vec![int_var("a", Some(num(10))), BlockItem::Stmt(Stmt::OpenStmt(outer)), closed(ret(num(3)))]);
    let (v, code) = compile_and_run(&c);
    // a = 10 passes both conditions, so the inner `then` branch returns.
    assert_eq!(v, 1);
    assert!(code.contains("  bnez t0, then1\n  j end1\n"));
    assert!(code.contains("  bnez t0, then2\n  j else2\n"));
    assert!(code.contains("\nend1:\n"));
}

#[test]
fn asm_frame_is_rounded_to_sixteen() {
    let c = main_with(vec![int_var("a", Some(num(1))), int_var("b", Some(num(2))), closed(ret(add(var("a"), AddOp::Add, var("b"))))]);
    let (v, code) = compile_and_run(&c);
    assert_eq!(v, 3);
    assert!(code.contains("  addi sp, sp, -32\n"));
    assert!(code.contains("  addi sp, sp, 32\n  ret\n"));
}

#[test]
fn asm_large_frame_uses_t2_for_addresses() {
    let mut body = vec![BodyItem::Block("%entry".to_string())];
    for _ in 0..600 {
        body.push(BodyItem::Inst(ValueKind::Alloc));
    }
    body.push(BodyItem::Inst(ValueKind::Store(Operand::Integer(9), Operand::Value(600))));
    body.push(BodyItem::Inst(ValueKind::Load(Operand::Value(600))));
    body.push(BodyItem::Inst(ValueKind::Return(Some(Operand::Value(602)))));
    let f = FunctionData { name: "@main".to_string(), body };
    assert!(f.is_well_formed());
    assert_eq!(run(&f), 9);
    let code = asm_of(&Program { funcs: vec![f] });
    assert!(code.contains("  li t0, 2416\n  sub sp, sp, t0\n"));
    assert!(code.contains("  li t0, 9\n  li t2, 2396\n  add t2, sp, t2\n  sw t0, 0(t2)\n"));
    assert!(code.contains("  li t2, 2400\n  add t2, sp, t2\n  sw t0, 0(t2)\n"));
    assert!(code.contains("  li t0, 2416\n  add sp, sp, t0\n  ret\n"));
}

#[test]
fn asm_every_operator() {
    let ops = [
        (BinaryOp::Add, "  add t1, t0, t1\n"),
        (BinaryOp::Sub, "  sub t1, t0, t1\n"),
        (BinaryOp::Mul, "  mul t1, t0, t1\n"),
        (BinaryOp::Div, "  div t1, t0, t1\n"),
        (BinaryOp::Mod, "  rem t1, t0, t1\n"),
        (BinaryOp::Lt, "  slt t1, t0, t1\n"),
        (BinaryOp::Gt, "  sgt t1, t0, t1\n"),
        (BinaryOp::Le, "  sgt t1, t0, t1\n  seqz t1, t1\n"),
        (BinaryOp::Ge, "  slt t1, t0, t1\n  seqz t1, t1\n"),
        (BinaryOp::Eq, "  sub t1, t0, t1\n  seqz t1, t1\n"),
        (BinaryOp::NotEq, "  sub t1, t0, t1\n  snez t1, t1\n"),
        (BinaryOp::And, "  snez t0, t0\n  snez t1, t1\n  and t1, t0, t1\n"),
        (BinaryOp::Or, "  snez t0, t0\n  snez t1, t1\n  or t1, t0, t1\n"),
    ];
    for (op, text) in ops {
        let body = vec![
            BodyItem::Block("%entry".to_string()),
            BodyItem::Inst(ValueKind::Binary(op, Operand::Integer(6), Operand::Integer(3))),
            BodyItem::Inst(ValueKind::Return(Some(Operand::Value(1)))),
        ];
        let code = asm_of(&Program { funcs: vec![FunctionData { name: "@f".to_string(), body }] });
        let expected = format!(
            "  .text\n  .globl f\nf:\n  addi sp, sp, -16\nentry:\n  li t0, 6\n  li t1, 3\n{}  sw t1, 0(sp)\n  lw a0, 0(sp)\n  addi sp, sp, 16\n  ret\n",
            text
        );
        assert_eq!(code, expected);
    }
}

#[test]
fn malformed_body_is_rejected() {
    let body = vec![BodyItem::Block("%entry".to_string()), BodyItem::Inst(ValueKind::Jump(1))];
    assert!(!FunctionData { name: "@f".to_string(), body }.is_well_formed());
    let body = vec![BodyItem::Block("%entry".to_string()), BodyItem::Inst(ValueKind::Load(Operand::Value(0)))];
    assert!(!FunctionData { name: "@f".to_string(), body }.is_well_formed());
}

#[test]
fn asm_dangling_else_returns_two_when_inner_fails() {
    // With a = 6 the outer condition holds and the inner one fails: an `else`
    // bound to the inner `if` returns 2, one bound to the outer would reach 3.
    let inner_if = ClosedStmt::IfStmt(rel(var("a"), RelOp::Gt, num(7)), Box::new(ret(num(1))), Box::new(ret(num(2))));
    let outer = OpenStmt::IfStmtNoElse(rel(var("a"), RelOp::Gt, num(5)), Box::new(Stmt::ClosedStmt(inner_if)));
    let c = main_with(vec![int_var("a", Some(num(6))), BlockItem::Stmt(Stmt::OpenStmt(outer)), closed(ret(num(3)))]);
    assert_eq!(compile_and_run(&c).0, 2);
}

#[test]
fn folding_agrees_with_running_the_ir() {
    let exprs = vec![
        add(mul(num(7), MulOp::Mod, num(-3)), AddOp::Sub, neg(num(4))),
        lor(land(rel(num(3), RelOp::Ge, num(3)), not(num(0))), num(0)),
        mul(add(num(i32::MAX), AddOp::Add, num(2)), MulOp::Div, num(-5)),
    ];
    for e in exprs {
        let mut params = GenerateIRParams::new();
        let folded = e.calc_const(&mut params).unwrap();
        let c = main_with(vec![closed(ret(e))]);
        assert_eq!(compile_and_run(&c).0, folded);
    }
}

#[test]
fn symbol_table_scopes_and_shadowing() {
    let mut t = SymTable::new();
    t.insert("x".to_string(), SymVal::ConstVal(1));
    t.insert_table();
    assert_eq!(t.query("x".to_string()), Some(SymVal::ConstVal(1)));
    t.insert("x".to_string(), SymVal::VarName(2));
    assert_eq!(t.query("x".to_string()), Some(SymVal::VarName(2)));
    assert_eq!(t.query("y".to_string()), None);
    assert!(t.delete_table());
    assert_eq!(t.query("x".to_string()), Some(SymVal::ConstVal(1)));
    assert!(t.delete_table());
    assert!(!t.delete_table());
    assert_eq!(t.query("x".to_string()), None);
}

#[test]
fn shadow_indices_count_per_name() {
    let mut params = GenerateIRParams::new();
    assert_eq!(load_var_to_sym_tab("a".to_string(), &mut params), Ok(1));
    assert_eq!(load_var_to_sym_tab("b".to_string(), &mut params), Ok(1));
    assert_eq!(load_var_to_sym_tab("a".to_string(), &mut params), Ok(2));
}

#[test]
fn register_names_and_slot_access() {
    let mut buf: Vec<u8> = Vec::new();
    register_idx_to_name(&mut buf, 3);
    register_idx_to_name(&mut buf, 7);
    load_and_save(false, 1, 12, &mut buf);
    load_and_save(true, 0, 4096, &mut buf);
    assert_eq!(
        String::from_utf8(buf).unwrap(),
        "t3a0  lw t1, 12(sp)\n  li t2, 4096\n  add t2, sp, t2\n  sw t0, 0(t2)\n"
    );
}
