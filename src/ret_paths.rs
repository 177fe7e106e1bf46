//! A lowered function's last instruction is a `ret`.
use vstd::prelude::*;
use crate::ast::{Block, BlockItem, ClosedStmt, CompUnit, NonIfStmt, OpenStmt, SExp, Stmt, VarDef};
use crate::generate_ir::{
    CompileError, IrState, StmtOut, block_result, comp_unit_ir, const_def_step, const_defs_step, func_lines,
    initial_state, lower_block, lower_closed, lower_exp, lower_item, lower_items, lower_non_if, lower_open,
    lower_stmt, lower_var_def, lower_var_defs, prepend,
};
use crate::ir_text::IrLine;

verus! {

pub open spec fn ends_in_ret(ls: Seq<IrLine>) -> bool {
    ls.len() > 0 && ls.last() is Ret
}

/// A statement lowered from a state that had not returned ends in `ret`
/// whenever it leaves the state returned.
pub open spec fn ret_closes(t: Result<StmtOut, CompileError>) -> bool {
    t matches Ok(o) ==> (o.st.returned ==> ends_in_ret(o.lines))
}

pub proof fn lemma_exp_keeps_returned(e: SExp, st: IrState)
    ensures
        lower_exp(e, st) matches Ok(o) ==> o.st.returned == st.returned,
    decreases e,
{
    reveal(lower_exp);
    match e {
        SExp::Unary(_, a) => lemma_exp_keeps_returned(*a, st),
        SExp::Binary(_, l, r) => {
            lemma_exp_keeps_returned(*r, st);
            if let Ok(o1) = lower_exp(*r, st) {
                lemma_exp_keeps_returned(*l, o1.st);
            }
        },
        _ => {},
    }
}

pub proof fn lemma_var_defs_keep_returned(defs: Seq<VarDef>, i: int, st: IrState)
    ensures
        lower_var_defs(defs, i, st) matches Ok(o) ==> o.st.returned == st.returned,
    decreases defs.len() - i,
{
    reveal(prepend);
    reveal(lower_var_def);
    if 0 <= i < defs.len() {
        match defs[i] {
            VarDef::VarDefInit(_, init) => lemma_exp_keeps_returned(init.exp.sexp(), st),
            _ => {},
        }
        if let Ok(o) = lower_var_def(defs[i], st) {
            lemma_var_defs_keep_returned(defs, i + 1, o.st);
        }
    }
}

pub proof fn lemma_const_defs_keep_returned(defs: Seq<crate::ast::ConstDef>, i: int, st: IrState)
    ensures
        const_defs_step(defs, i, st) matches Ok(s) ==> s.returned == st.returned,
    decreases defs.len() - i,
{
    if 0 <= i < defs.len() {
        if let Ok(s1) = const_def_step(defs[i], st) {
            lemma_const_defs_keep_returned(defs, i + 1, s1);
        }
    }
}

pub proof fn lemma_ret_non_if(s: NonIfStmt, st: IrState)
    requires
        !st.returned,
    ensures
        ret_closes(lower_non_if(s, st)),
    decreases s, 0int,
{
    match s {
        NonIfStmt::Return(e) => {},
        NonIfStmt::Assgn(_, e) => lemma_exp_keeps_returned(e.sexp(), st),
        NonIfStmt::Exp(Some(e)) => lemma_exp_keeps_returned(e.sexp(), st),
        NonIfStmt::Exp(None) => {},
        NonIfStmt::Block(b) => lemma_ret_block(b, st),
    }
}

pub proof fn lemma_ret_closed(s: ClosedStmt, st: IrState)
    requires
        !st.returned,
    ensures
        ret_closes(lower_closed(s, st)),
    decreases s, 0int,
{
    match s {
        ClosedStmt::NonIfStmt(n) => lemma_ret_non_if(n, st),
        ClosedStmt::IfStmt(..) => {},
    }
}

pub proof fn lemma_ret_open(s: OpenStmt, st: IrState)
    requires
        !st.returned,
    ensures
        ret_closes(lower_open(s, st)),
    decreases s, 0int,
{
}

pub proof fn lemma_ret_stmt(s: Stmt, st: IrState)
    requires
        !st.returned,
    ensures
        ret_closes(lower_stmt(s, st)),
    decreases s, 0int,
{
    match s {
        Stmt::ClosedStmt(c) => lemma_ret_closed(c, st),
        Stmt::OpenStmt(o) => lemma_ret_open(o, st),
    }
}

pub proof fn lemma_ret_item(it: BlockItem, st: IrState)
    requires
        !st.returned,
    ensures
        ret_closes(lower_item(it, st)),
    decreases it, 0int,
{
    match it {
        BlockItem::Stmt(s) => lemma_ret_stmt(s, st),
        BlockItem::Decl(d) => match d {
            crate::ast::Decl::ConstDecl(c) => lemma_const_defs_keep_returned(c.const_defs@, 0, st),
            crate::ast::Decl::VarDecl(v) => lemma_var_defs_keep_returned(v.var_defs@, 0, st),
        },
    }
}

pub proof fn lemma_ret_items(items: Seq<BlockItem>, i: int, st: IrState)
    requires
        !st.returned,
    ensures
        ret_closes(lower_items(items, i, st)),
    decreases items, items.len() - i,
{
    reveal(prepend);
    if 0 <= i < items.len() {
        lemma_ret_item(items[i], st);
        if let Ok(o) = lower_item(items[i], st) {
            if !o.st.returned {
                lemma_ret_items(items, i + 1, o.st);
            }
        }
    }
}

pub proof fn lemma_ret_block(b: Block, st: IrState)
    requires
        !st.returned,
    ensures
        ret_closes(lower_block(b, st)),
    decreases b, 0int,
{
    lemma_ret_items(b.block_items@, 0, st.with_scopes(st.scopes.push(Seq::empty())));
}

pub proof fn lemma_ret_block_result(b: Block, st: IrState)
    requires
        !st.returned,
    ensures
        ret_closes(block_result(b, st)),
{
    reveal(block_result);
    lemma_ret_block(b, st);
}

/// The line before a lowered function's closing brace is a `ret`: the
/// body's own, or the `ret undef` added when the body's last path did not
/// return.
pub proof fn lemma_function_ends_with_ret(c: CompUnit)
    ensures
        comp_unit_ir(c) matches Ok(o) ==> o.lines.len() >= 2 && (o.lines[o.lines.len() - 2] is Ret
            || o.lines[o.lines.len() - 2] is RetUndef),
{
    reveal(func_lines);
    let st = initial_state();
    lemma_ret_block_result(c.func_def.block, st);
    if let Ok(o) = comp_unit_ir(c) {
        let ob = block_result(c.func_def.block, st)->Ok_0;
        let tail: Seq<IrLine> = if ob.st.returned { Seq::empty() } else { seq![IrLine::RetUndef] };
        let pre = seq![IrLine::FunHeader(c.func_def.ident@, c.func_def.func_type), IrLine::Label(crate::ir_text::Label::Entry)];
        assert(o.lines == pre + ob.lines + tail + seq![IrLine::Close]);
        if ob.st.returned {
            assert(o.lines[o.lines.len() - 2] == ob.lines.last());
        } else {
            assert(o.lines[o.lines.len() - 2] == IrLine::RetUndef);
        }
    }
}

} // verus!
