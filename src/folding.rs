//! What the lowered lines of an expression compute, and the agreement of
//! constant folding with it.
use vstd::prelude::*;
use crate::ast::SExp;
use crate::generate_ir::{ExpOut, ExpResult, IrState, binary_tail, binop_value, fold, lower_exp, unary_value};
use crate::ir_text::{BinaryOp, IrLine};
use crate::sym_table::{ScopesModel, SymVal, scopes_query};

verus! {

/// The value of a binary IR instruction; `and` and `or` are bitwise.
pub open spec fn ir_binop_value(op: BinaryOp, a: i32, b: i32) -> Option<i32> {
    match op {
        BinaryOp::And => Some(a & b),
        BinaryOp::Or => Some(a | b),
        _ => binop_value(op, a, b),
    }
}

/// Temporaries and their values.
pub type Temps = spec_fn(int) -> i32;

pub open spec fn operand_value(r: ExpResult, env: Temps) -> i32 {
    match r {
        ExpResult::RegCount(n) => env(n - 1),
        ExpResult::IntResult(v) => v,
    }
}

/// Runs the binary instructions of a sequence of lines over the temporaries.
pub open spec fn run_lines(ls: Seq<IrLine>, env: Temps) -> Temps
    decreases ls.len(),
{
    if ls.len() == 0 {
        env
    } else {
        let e1 = run_lines(ls.drop_last(), env);
        match ls.last() {
            IrLine::Binary(d, op, a, b) => match ir_binop_value(op, operand_value(a, e1), operand_value(b, e1)) {
                Some(v) => |k: int| if k == d { v } else { e1(k) },
                None => e1,
            },
            _ => e1,
        }
    }
}

/// An expression whose names are all bound to constants.
pub open spec fn is_const_exp(e: SExp, scopes: ScopesModel) -> bool
    decreases e,
{
    match e {
        SExp::Num(_) => true,
        SExp::Var(n) => scopes_query(scopes, n) matches Some(SymVal::ConstVal(_)),
        SExp::Unary(_, a) => is_const_exp(*a, scopes),
        SExp::Binary(_, l, r) => is_const_exp(*l, scopes) && is_const_exp(*r, scopes),
    }
}

pub proof fn lemma_run_append(a: Seq<IrLine>, b: Seq<IrLine>, env: Temps)
    ensures
        run_lines(a + b, env) == run_lines(b, run_lines(a, env)),
    decreases b.len(),
{
    if b.len() == 0 {
        assert(a + b =~= a);
    } else {
        lemma_run_append(a, b.drop_last(), env);
        assert((a + b).drop_last() =~= a + b.drop_last());
        assert((a + b).last() == b.last());
    }
}

pub proof fn lemma_and_or_bits(a: i32, b: i32)
    requires
        a == 0 || a == 1,
        b == 0 || b == 1,
    ensures
        (a & b) == (if a != 0 && b != 0 { 1i32 } else { 0i32 }),
        (a | b) == (if a != 0 || b != 0 { 1i32 } else { 0i32 }),
{
    assert((a & b) == (if a != 0 && b != 0 { 1i32 } else { 0i32 })) by (bit_vector)
        requires
            a == 0 || a == 1,
            b == 0 || b == 1,
    ;
    assert((a | b) == (if a != 0 || b != 0 { 1i32 } else { 0i32 })) by (bit_vector)
        requires
            a == 0 || a == 1,
            b == 0 || b == 1,
    ;
}

/// The shape of a lowering: only the temporary counter moves, the lines
/// define temporaries at or above the old counter, and a temporary result
/// is one of those.
pub open spec fn lowering_shape(st: IrState, o: ExpOut, env: Temps) -> bool {
    &&& o.st == st.with_var_count(o.st.var_count)
    &&& o.st.var_count >= st.var_count
    &&& (forall|k: int| k < st.var_count ==> #[trigger] run_lines(o.lines, env)(k) == env(k))
    &&& (o.res matches ExpResult::RegCount(n) ==> st.var_count < n <= o.st.var_count)
}

/// Constant folding agrees with the IR: for an expression whose names are
/// all constants, the value that folding gives is the value that running
/// the lowered lines computes, from any temporaries, unless folding meets a
/// zero divisor or lowering runs out of temporaries.
pub proof fn lemma_fold_matches_lowering(e: SExp, st: IrState, env: Temps)
    requires
        0 <= st.var_count,
        is_const_exp(e, st.scopes),
        lower_exp(e, st) is Ok,
        fold(e, st.scopes) is Ok,
    ensures
        lowering_shape(st, lower_exp(e, st)->Ok_0, env),
        operand_value(lower_exp(e, st)->Ok_0.res, run_lines(lower_exp(e, st)->Ok_0.lines, env))
            == fold(e, st.scopes)->Ok_0.value,
    decreases e,
{
    reveal(lower_exp);
    reveal(fold);
    let o = lower_exp(e, st)->Ok_0;
    match e {
        SExp::Num(v) => {
            assert(o == ExpOut { lines: Seq::empty(), res: ExpResult::IntResult(v), st: st });
            assert(run_lines(o.lines, env) == env);
            assert(st.with_var_count(st.var_count) == st);
            assert(fold(e, st.scopes)->Ok_0.value == v);
        },
        SExp::Var(n) => {
            assert(run_lines(o.lines, env) == env);
        },
        SExp::Unary(op, a) => {
            lemma_fold_matches_lowering(*a, st, env);
            let oa = lower_exp(*a, st)->Ok_0;
            let ea = run_lines(oa.lines, env);
            if op != crate::ast::UnaryOp::Add {
                let c = oa.st.var_count;
                let line = o.lines.last();
                assert(o.lines.drop_last() =~= oa.lines);
                let v = fold(*a, st.scopes)->Ok_0.value;
                assert(operand_value(oa.res, ea) == v);
                assert(run_lines(o.lines, env)(c) == unary_value(op, v));
                assert forall|k: int| k < st.var_count implies #[trigger] run_lines(o.lines, env)(k) == env(k) by {
                    assert(run_lines(o.lines, env)(k) == ea(k));
                }
            }
            assert(lowering_shape(st, o, env));
            assert(operand_value(o.res, run_lines(o.lines, env)) == fold(e, st.scopes)->Ok_0.value);
        },
        SExp::Binary(op, l, r) => {
            let o1 = lower_exp(*r, st)->Ok_0;
            lemma_fold_matches_lowering(*r, st, env);
            let e1 = run_lines(o1.lines, env);
            assert(o1.st.scopes == st.scopes);
            lemma_fold_matches_lowering(*l, o1.st, e1);
            let o2 = lower_exp(*l, o1.st)->Ok_0;
            let e2 = run_lines(o2.lines, e1);
            let o3 = binary_tail(op, o2.res, o1.res, o2.st)->Ok_0;
            lemma_run_append(o1.lines, o2.lines, env);
            lemma_run_append(o1.lines + o2.lines, o3.lines, env);
            let e3 = run_lines(o3.lines, e2);
            assert(run_lines(o.lines, env) == e3);
            let rv = fold(*r, st.scopes)->Ok_0.value;
            let lv = fold(*l, st.scopes)->Ok_0.value;
            assert(operand_value(o1.res, e2) == rv);
            assert(operand_value(o2.res, e2) == lv);
            let c = o2.st.var_count;
            assert(run_lines(Seq::<IrLine>::empty(), e2) == e2);
            if op == BinaryOp::And || op == BinaryOp::Or {
                let l0 = o3.lines[0];
                let l1 = o3.lines[1];
                let l2 = o3.lines[2];
                assert(seq![l0].drop_last() =~= Seq::<IrLine>::empty());
                assert(seq![l0, l1].drop_last() =~= seq![l0]);
                assert(o3.lines.drop_last() =~= seq![l0, l1]);
                let ea = run_lines(seq![l0], e2);
                let eb = run_lines(seq![l0, l1], e2);
                assert(ea(c) == (if lv != 0 { 1i32 } else { 0i32 }));
                assert(operand_value(o1.res, ea) == operand_value(o1.res, e2));
                assert(eb(c) == ea(c));
                assert(eb(c + 1) == (if rv != 0 { 1i32 } else { 0i32 }));
                lemma_and_or_bits(eb(c), eb(c + 1));
                assert(o3.lines.last() == l2);
                assert(l2 == IrLine::Binary(c + 2, op, ExpResult::RegCount((c + 1) as i32), ExpResult::RegCount((c + 2) as i32)));
                assert(e3(c + 2) == (if op == BinaryOp::And { eb(c) & eb(c + 1) } else { eb(c) | eb(c + 1) }));
                assert(e3(c + 2) == fold(e, st.scopes)->Ok_0.value);
                assert forall|k: int| k < st.var_count implies #[trigger] e3(k) == env(k) by {
                    assert(e3(k) == eb(k));
                    assert(eb(k) == ea(k));
                    assert(ea(k) == e2(k));
                    assert(e2(k) == e1(k));
                }
            } else {
                assert(o3.lines.drop_last() =~= Seq::<IrLine>::empty());
                assert(e3(c) == fold(e, st.scopes)->Ok_0.value);
                assert forall|k: int| k < st.var_count implies #[trigger] e3(k) == env(k) by {
                    assert(e3(k) == e2(k));
                    assert(e2(k) == e1(k));
                }
            }
            assert(lowering_shape(st, o, env));
            assert(operand_value(o.res, run_lines(o.lines, env)) == fold(e, st.scopes)->Ok_0.value);
        },
    }
}

} // verus!

verus! {

/// The temporary a line defines, if any.
pub open spec fn line_def(l: IrLine) -> Option<int> {
    match l {
        IrLine::Binary(d, _, _, _) => Some(d),
        IrLine::Load(d, _, _) => Some(d),
        _ => None,
    }
}

/// An operand names a temporary below `next` (or is a constant).
pub open spec fn use_ok(r: ExpResult, next: int) -> bool {
    match r {
        ExpResult::RegCount(n) => 0 <= n - 1 < next,
        ExpResult::IntResult(_) => true,
    }
}

pub open spec fn line_uses_ok(l: IrLine, next: int) -> bool {
    match l {
        IrLine::Binary(_, _, a, b) => use_ok(a, next) && use_ok(b, next),
        IrLine::Store(v, _, _) => use_ok(v, next),
        IrLine::Br(c, _, _) => use_ok(c, next),
        IrLine::Ret(v) => use_ok(v, next),
        _ => true,
    }
}

/// The lines define the temporaries `from`, `from + 1`, ..., `to - 1`, each
/// once and in that order, and every operand names a temporary defined
/// before its line (or below `from`).
#[verifier::opaque]
pub open spec fn temps_in_order(ls: Seq<IrLine>, from: int, to: int) -> bool
    decreases ls.len(),
{
    if ls.len() == 0 {
        from == to
    } else {
        let l = ls.last();
        match line_def(l) {
            Some(d) => d == to - 1 && line_uses_ok(l, to - 1) && temps_in_order(ls.drop_last(), from, to - 1),
            None => line_uses_ok(l, to) && temps_in_order(ls.drop_last(), from, to),
        }
    }
}

pub proof fn lemma_temps_append(a: Seq<IrLine>, b: Seq<IrLine>, x: int, y: int, z: int)
    requires
        temps_in_order(a, x, y),
        temps_in_order(b, y, z),
    ensures
        temps_in_order(a + b, x, z),
    decreases b.len(),
{
    reveal(temps_in_order);
    if b.len() == 0 {
        assert(a + b =~= a);
    } else {
        let l = b.last();
        assert((a + b).drop_last() =~= a + b.drop_last());
        assert((a + b).last() == l);
        match line_def(l) {
            Some(d) => lemma_temps_append(a, b.drop_last(), x, y, z - 1),
            None => lemma_temps_append(a, b.drop_last(), x, y, z),
        }
    }
}

pub proof fn lemma_temps_ordered_bounds(ls: Seq<IrLine>, from: int, to: int)
    requires
        temps_in_order(ls, from, to),
    ensures
        from <= to,
    decreases ls.len(),
{
    reveal(temps_in_order);
    if ls.len() > 0 {
        match line_def(ls.last()) {
            Some(d) => lemma_temps_ordered_bounds(ls.drop_last(), from, to - 1),
            None => lemma_temps_ordered_bounds(ls.drop_last(), from, to),
        }
    }
}

/// The lines of an expression define fresh temporaries, one after the
/// other from the counter on, each before any use; a temporary result is
/// the last of them.
pub proof fn lemma_exp_temps_in_order(e: SExp, st: IrState)
    requires
        0 <= st.var_count,
        lower_exp(e, st) is Ok,
    ensures
        temps_in_order(lower_exp(e, st)->Ok_0.lines, st.var_count, lower_exp(e, st)->Ok_0.st.var_count),
        lower_exp(e, st)->Ok_0.st == st.with_var_count(lower_exp(e, st)->Ok_0.st.var_count),
        use_ok(lower_exp(e, st)->Ok_0.res, lower_exp(e, st)->Ok_0.st.var_count),
        lower_exp(e, st)->Ok_0.res matches ExpResult::RegCount(n) ==> n == lower_exp(e, st)->Ok_0.st.var_count,
    decreases e,
{
    reveal(temps_in_order);
    reveal(lower_exp);
    let o = lower_exp(e, st)->Ok_0;
    assert(temps_in_order(Seq::<IrLine>::empty(), st.var_count, st.var_count));
    match e {
        SExp::Num(_) => {},
        SExp::Var(_) => {
            if o.lines.len() == 1 {
                assert(o.lines.drop_last() =~= Seq::<IrLine>::empty());
            }
            assert(temps_in_order(o.lines, st.var_count, o.st.var_count));
        },
        SExp::Unary(op, a) => {
            lemma_exp_temps_in_order(*a, st);
            let oa = lower_exp(*a, st)->Ok_0;
            lemma_temps_ordered_bounds(oa.lines, st.var_count, oa.st.var_count);
            if op != crate::ast::UnaryOp::Add {
                assert(o.lines.drop_last() =~= oa.lines);
                assert(line_uses_ok(o.lines.last(), oa.st.var_count));
            }
            assert(temps_in_order(o.lines, st.var_count, o.st.var_count));
        },
        SExp::Binary(op, l, r) => {
            lemma_exp_temps_in_order(*r, st);
            let o1 = lower_exp(*r, st)->Ok_0;
            lemma_temps_ordered_bounds(o1.lines, st.var_count, o1.st.var_count);
            lemma_exp_temps_in_order(*l, o1.st);
            let o2 = lower_exp(*l, o1.st)->Ok_0;
            let o3 = binary_tail(op, o2.res, o1.res, o2.st)->Ok_0;
            lemma_temps_ordered_bounds(o2.lines, o1.st.var_count, o2.st.var_count);
            assert(use_ok(o1.res, o2.st.var_count));
            assert(use_ok(o2.res, o2.st.var_count));
            let c = o2.st.var_count;
            if op == BinaryOp::And || op == BinaryOp::Or {
                let l0 = o3.lines[0];
                let l1 = o3.lines[1];
                assert(seq![l0].drop_last() =~= Seq::<IrLine>::empty());
                assert(seq![l0, l1].drop_last() =~= seq![l0]);
                assert(o3.lines.drop_last() =~= seq![l0, l1]);
                assert(temps_in_order(Seq::<IrLine>::empty(), c, c));
                assert(seq![l0].last() == l0);
                assert(line_uses_ok(l0, c));
                assert(temps_in_order(seq![l0], c, c + 1));
                assert(seq![l0, l1].last() == l1);
                assert(line_uses_ok(l1, c + 1));
                assert(o3.lines.last() == o3.lines[2]);
                assert(line_uses_ok(o3.lines[2], c + 2));
                assert(temps_in_order(seq![l0, l1], c, c + 2));
                assert(temps_in_order(o3.lines, c, c + 3));
            } else {
                assert(o3.lines.drop_last() =~= Seq::<IrLine>::empty());
                assert(temps_in_order(Seq::<IrLine>::empty(), c, c));
                assert(o3.lines.last() == IrLine::Binary(c, op, o2.res, o1.res));
                assert(line_uses_ok(o3.lines.last(), c));
                assert(temps_in_order(o3.lines, c, c + 1));
            }
            lemma_temps_append(o1.lines, o2.lines, st.var_count, o1.st.var_count, c);
            lemma_temps_append(o1.lines + o2.lines, o3.lines, st.var_count, c, o3.st.var_count);
        },
    }
}

} // verus!

verus! {

/// Lowering an expression moves only the temporary counter.
pub proof fn lemma_exp_moves_only_counter(e: SExp, st: IrState)
    ensures
        lower_exp(e, st) matches Ok(o) ==> o.st == st.with_var_count(o.st.var_count),
    decreases e,
{
    reveal(lower_exp);
    match e {
        SExp::Unary(_, a) => lemma_exp_moves_only_counter(*a, st),
        SExp::Binary(_, l, r) => {
            lemma_exp_moves_only_counter(*r, st);
            if let Ok(o1) = lower_exp(*r, st) {
                lemma_exp_moves_only_counter(*l, o1.st);
            }
        },
        _ => {},
    }
}

} // verus!
