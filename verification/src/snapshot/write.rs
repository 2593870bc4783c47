//! Writing a syntax tree as bytes.
use std::rc::Rc;
use vstd::prelude::*;
use vstd::utf8::{encode_utf8};

use crate::ast::{ArrayElem, ArrayPatElem, Class, ClassMember, DeclKind, ExportSpec, Expr, ForInit, Function, ImportPhase, ImportSpec, MemberKind, ObjPatProp, Param, Pattern, PropDef, PropKey, Stmt, SwitchCase};
use crate::bigint::{JsBigInt};
use crate::grammar::{Form, Symbol, case_form, class_form, clean, clean_all, decl_form, emit, emit_leaf, emit_list, emit_list_step, emit_list_whole, emit_node_0, emit_node_1, emit_node_2, emit_node_3, emit_node_4, emit_node_6, emit_opt, emit_tuple_2, emit_tuple_3, emit_tuple_5, emit_tuple_6, export_form, expr_form, expr_shape, fits, fits_list, function_form, handler_form, key_form, list, low_bytes, member_form, opt, param_form, pat_prop_form, pattern_form, quasi_form, shape, size, size_all, stmt_form, stmt_shape, text_bytes, varint};
use crate::tree::{Tree, case_tree, case_trees, class_tree, decl_kind_tree, decl_tree, decl_trees, elem_tree, elem_trees, export_spec_tree, export_specs, expr_tree, expr_trees, for_init_tree, function_flags, function_tree, handler_tree, import_phase_tree, import_spec_tree, import_specs, member_kind_tree, member_tree, member_trees, opt_boxed_expr, opt_boxed_stmt, opt_decl_kind, opt_expr, opt_for_init, opt_function, opt_handler, opt_pattern, opt_stmts, opt_text, param_tree, param_trees, pat_elem_tree, pat_elem_trees, pat_prop_tree, pat_prop_trees, pattern_tree, prop_def_tree, prop_def_trees, prop_key_tree, quasi_tree, quasis, stmt_tree, stmt_trees, text};

verus! {

// ---- writer -----------------------------------------------------------------------------------

/// The bytes written so far.
pub(crate) struct Writer {
    pub(crate) buf: Vec<u8>,
}

impl Writer {
    fn u8(&mut self, v: u8)
        ensures
            final(self).buf@ == old(self).buf@.push(v),
    {
        self.buf.push(v);
    }

    /// Writes a count in seven-bit groups; small counts stay one byte.
    pub(crate) fn uv(&mut self, v: u64)
        ensures
            final(self).buf@ == old(self).buf@ + varint(v as nat),
    {
        let mut left: u64 = v;
        loop
            invariant_except_break
                self.buf@ + varint(left as nat) == old(self).buf@ + varint(v as nat),
            ensures
                self.buf@ == old(self).buf@ + varint(v as nat),
            decreases left,
        {
            let ghost before = self.buf@;
            let ghost whole = left;
            let low: u8 = (left % 128) as u8;
            left = left / 128;
            if left == 0 {
                self.buf.push(low);
                assert(self.buf@ =~= before + varint(whole as nat));
                break;
            }
            self.buf.push(low + 128);
            assert(self.buf@ + varint(left as nat) =~= before + varint(whole as nat));
        }
    }

    /// Writes the bits of a double, least significant byte first.
    fn double(&mut self, bits: u64)
        ensures
            final(self).buf@ == old(self).buf@ + emit(Form::Double, Tree::Bits(bits)),
            fits(Form::Double, Tree::Bits(bits)),
    {
        let mut left: u64 = bits;
        let mut i: u64 = 0;
        assert(self.buf@ + low_bytes(left as nat, 8) =~= self.buf@ + low_bytes(left as nat, 8));
        while i < 8
            invariant
                i <= 8,
                self.buf@ + low_bytes(left as nat, (8 - i) as nat) == old(self).buf@ + low_bytes(
                    bits as nat,
                    8,
                ),
            decreases 8 - i,
        {
            let ghost before = self.buf@;
            let ghost whole = left;
            self.buf.push((left % 256) as u8);
            left = left / 256;
            i = i + 1;
            assert(self.buf@ + low_bytes(left as nat, (8 - i) as nat) =~= before + low_bytes(
                whole as nat,
                (8 - i + 1) as nat,
            ));
        }
        assert(self.buf@ + low_bytes(left as nat, 0) =~= self.buf@);
        proof {
            emit_leaf(false, bits, seq![], 0, 0);
        }
    }

    fn bool(&mut self, v: bool)
        ensures
            final(self).buf@ == old(self).buf@ + emit(Form::Bool, Tree::Bool(v)),
            fits(Form::Bool, Tree::Bool(v)),
    {
        proof {
            emit_leaf(v, 0, seq![], 0, 0);
        }
        self.buf.push(if v {
            1
        } else {
            0
        });
        assert(self.buf@ =~= old(self).buf@ + emit(Form::Bool, Tree::Bool(v)));
    }

    fn bytes(&mut self, s: &str)
        ensures
            final(self).buf@ == old(self).buf@ + text_bytes(s@),
            encode_utf8(s@).len() <= u64::MAX,
    {
        let bytes = s.as_bytes();
        self.uv(bytes.len() as u64);
        let ghost start = self.buf@;
        let mut i: usize = 0;
        while i < bytes.len()
            invariant
                i <= bytes.len(),
                self.buf@ == start + bytes@.take(i as int),
            decreases bytes.len() - i,
        {
            self.buf.push(bytes[i]);
            i = i + 1;
            assert(self.buf@ =~= start + bytes@.take(i as int));
        }
        assert(bytes@.take(i as int) =~= bytes@);
        assert(self.buf@ =~= old(self).buf@ + text_bytes(s@));
    }

    fn str(&mut self, s: &str)
        ensures
            final(self).buf@ == old(self).buf@ + emit(Form::Text, Tree::Text(s@)),
            fits(Form::Text, Tree::Text(s@)),
    {
        proof {
            emit_leaf(false, 0, s@, 0, 0);
        }
        self.bytes(s);
    }

    fn operator(&mut self, s: &str)
        ensures
            final(self).buf@ == old(self).buf@ + emit(Form::Operator, Tree::Operator(s@)),
            clean(Tree::Operator(s@)) ==> fits(Form::Operator, Tree::Operator(s@)),
    {
        proof {
            emit_leaf(false, 0, s@, 0, 0);
        }
        self.bytes(s);
    }

    fn integer(&mut self, v: &JsBigInt)
        ensures
            final(self).buf@ == old(self).buf@ + emit(Form::Integer, Tree::Integer(v@)),
            clean(Tree::Integer(v@)) ==> fits(Form::Integer, Tree::Integer(v@)),
    {
        proof {
            emit_leaf(false, 0, seq![], v@, 0);
        }
        let digits = v.to_string_radix(16);
        self.bytes(digits.as_str());
    }
}

// ---- optional pieces and lists -----------------------------------------------------------------

/// Writes a text, if there is one.
fn enc_opt_str(w: &mut Writer, o: &Option<String>)
    ensures
        final(w).buf@ == old(w).buf@ + emit(opt(Form::Text), opt_text(*o)),
        clean(opt_text(*o)) ==> fits(opt(Form::Text), opt_text(*o)),
{
    let ghost start = w.buf@;
    match o {
        Some(x) => {
            proof {
                emit_opt(Form::Text, text(*x));
            }
            w.u8(1);
            w.str(x.as_str());
            assert(w.buf@ =~= start + emit(opt(Form::Text), opt_text(*o)));
        },
        None => {
            proof {
                emit_opt(Form::Text, Tree::Absent);
            }
            w.u8(0);
            assert(w.buf@ =~= start + emit(opt(Form::Text), opt_text(*o)));
        },
    }
}

/// Writes an expression, if there is one.
fn enc_opt_expr(w: &mut Writer, o: &Option<Expr>)
    ensures
        final(w).buf@ == old(w).buf@ + emit(opt(expr_form()), opt_expr(*o)),
        clean(opt_expr(*o)) ==> fits(opt(expr_form()), opt_expr(*o)),
    decreases size(opt_expr(*o)), 1nat,
{
    let ghost start = w.buf@;
    match o {
        Some(x) => {
            proof {
                emit_opt(expr_form(), expr_tree(*x));
            }
            w.u8(1);
            enc_expr(w, x);
            assert(w.buf@ =~= start + emit(opt(expr_form()), opt_expr(*o)));
        },
        None => {
            proof {
                emit_opt(expr_form(), Tree::Absent);
            }
            w.u8(0);
            assert(w.buf@ =~= start + emit(opt(expr_form()), opt_expr(*o)));
        },
    }
}

/// Writes an expression, if there is one.
fn enc_opt_boxed_expr(w: &mut Writer, o: &Option<Box<Expr>>)
    ensures
        final(w).buf@ == old(w).buf@ + emit(opt(expr_form()), opt_boxed_expr(*o)),
        clean(opt_boxed_expr(*o)) ==> fits(opt(expr_form()), opt_boxed_expr(*o)),
    decreases size(opt_boxed_expr(*o)), 1nat,
{
    let ghost start = w.buf@;
    match o {
        Some(x) => {
            proof {
                emit_opt(expr_form(), expr_tree(**x));
            }
            w.u8(1);
            enc_expr(w, x);
            assert(w.buf@ =~= start + emit(opt(expr_form()), opt_boxed_expr(*o)));
        },
        None => {
            proof {
                emit_opt(expr_form(), Tree::Absent);
            }
            w.u8(0);
            assert(w.buf@ =~= start + emit(opt(expr_form()), opt_boxed_expr(*o)));
        },
    }
}

/// Writes a statement, if there is one.
fn enc_opt_stmt(w: &mut Writer, o: &Option<Box<Stmt>>)
    ensures
        final(w).buf@ == old(w).buf@ + emit(opt(stmt_form()), opt_boxed_stmt(*o)),
        clean(opt_boxed_stmt(*o)) ==> fits(opt(stmt_form()), opt_boxed_stmt(*o)),
    decreases size(opt_boxed_stmt(*o)), 1nat,
{
    let ghost start = w.buf@;
    match o {
        Some(x) => {
            proof {
                emit_opt(stmt_form(), stmt_tree(**x));
            }
            w.u8(1);
            enc_stmt(w, x);
            assert(w.buf@ =~= start + emit(opt(stmt_form()), opt_boxed_stmt(*o)));
        },
        None => {
            proof {
                emit_opt(stmt_form(), Tree::Absent);
            }
            w.u8(0);
            assert(w.buf@ =~= start + emit(opt(stmt_form()), opt_boxed_stmt(*o)));
        },
    }
}

/// Writes the first part of a `for`, if there is one.
fn enc_opt_forinit(w: &mut Writer, o: &Option<Box<ForInit>>)
    ensures
        final(w).buf@ == old(w).buf@ + emit(opt(Form::Node(Symbol::ForInit)), opt_for_init(*o)),
        clean(opt_for_init(*o)) ==> fits(opt(Form::Node(Symbol::ForInit)), opt_for_init(*o)),
    decreases size(opt_for_init(*o)), 1nat,
{
    let ghost start = w.buf@;
    match o {
        Some(x) => {
            proof {
                emit_opt(Form::Node(Symbol::ForInit), for_init_tree(**x));
            }
            w.u8(1);
            enc_forinit(w, x);
            assert(w.buf@ =~= start + emit(opt(Form::Node(Symbol::ForInit)), opt_for_init(*o)));
        },
        None => {
            proof {
                emit_opt(Form::Node(Symbol::ForInit), Tree::Absent);
            }
            w.u8(0);
            assert(w.buf@ =~= start + emit(opt(Form::Node(Symbol::ForInit)), opt_for_init(*o)));
        },
    }
}

/// Writes a declaration keyword, if there is one.
fn enc_opt_declkind(w: &mut Writer, o: &Option<DeclKind>)
    ensures
        final(w).buf@ == old(w).buf@ + emit(opt(Form::Node(Symbol::DeclKind)), opt_decl_kind(*o)),
        clean(opt_decl_kind(*o)) ==> fits(opt(Form::Node(Symbol::DeclKind)), opt_decl_kind(*o)),
{
    let ghost start = w.buf@;
    match o {
        Some(x) => {
            proof {
                emit_opt(Form::Node(Symbol::DeclKind), decl_kind_tree(*x));
            }
            w.u8(1);
            enc_declkind(w, *x);
            assert(w.buf@ =~= start + emit(opt(Form::Node(Symbol::DeclKind)), opt_decl_kind(*o)));
        },
        None => {
            proof {
                emit_opt(Form::Node(Symbol::DeclKind), Tree::Absent);
            }
            w.u8(0);
            assert(w.buf@ =~= start + emit(opt(Form::Node(Symbol::DeclKind)), opt_decl_kind(*o)));
        },
    }
}

/// Writes a pattern, if there is one.
fn enc_opt_pattern(w: &mut Writer, o: &Option<Pattern>)
    ensures
        final(w).buf@ == old(w).buf@ + emit(opt(pattern_form()), opt_pattern(*o)),
        clean(opt_pattern(*o)) ==> fits(opt(pattern_form()), opt_pattern(*o)),
    decreases size(opt_pattern(*o)), 1nat,
{
    let ghost start = w.buf@;
    match o {
        Some(x) => {
            proof {
                emit_opt(pattern_form(), pattern_tree(*x));
            }
            w.u8(1);
            enc_pattern(w, x);
            assert(w.buf@ =~= start + emit(opt(pattern_form()), opt_pattern(*o)));
        },
        None => {
            proof {
                emit_opt(pattern_form(), Tree::Absent);
            }
            w.u8(0);
            assert(w.buf@ =~= start + emit(opt(pattern_form()), opt_pattern(*o)));
        },
    }
}

/// Writes a `catch`, if there is one.
fn enc_opt_handler(w: &mut Writer, o: &Option<(Option<Pattern>, Vec<Stmt>)>)
    ensures
        final(w).buf@ == old(w).buf@ + emit(opt(handler_form()), opt_handler(*o)),
        clean(opt_handler(*o)) ==> fits(opt(handler_form()), opt_handler(*o)),
    decreases size(opt_handler(*o)), 1nat,
{
    let ghost start = w.buf@;
    match o {
        Some(x) => {
            proof {
                emit_opt(handler_form(), handler_tree(*x));
            }
            w.u8(1);
            enc_handler(w, x);
            assert(w.buf@ =~= start + emit(opt(handler_form()), opt_handler(*o)));
        },
        None => {
            proof {
                emit_opt(handler_form(), Tree::Absent);
            }
            w.u8(0);
            assert(w.buf@ =~= start + emit(opt(handler_form()), opt_handler(*o)));
        },
    }
}

/// Writes a block, if there is one.
fn enc_opt_stmts(w: &mut Writer, o: &Option<Vec<Stmt>>)
    ensures
        final(w).buf@ == old(w).buf@ + emit(opt(list(stmt_form())), opt_stmts(*o)),
        clean(opt_stmts(*o)) ==> fits(opt(list(stmt_form())), opt_stmts(*o)),
    decreases size(opt_stmts(*o)), 1nat,
{
    let ghost start = w.buf@;
    match o {
        Some(x) => {
            proof {
                emit_opt(list(stmt_form()), Tree::List(stmt_trees(x@)));
            }
            w.u8(1);
            enc_stmts(w, x);
            assert(w.buf@ =~= start + emit(opt(list(stmt_form())), opt_stmts(*o)));
        },
        None => {
            proof {
                emit_opt(list(stmt_form()), Tree::Absent);
            }
            w.u8(0);
            assert(w.buf@ =~= start + emit(opt(list(stmt_form())), opt_stmts(*o)));
        },
    }
}

/// Writes a function, if there is one.
fn enc_opt_function(w: &mut Writer, o: &Option<Rc<Function>>)
    ensures
        final(w).buf@ == old(w).buf@ + emit(opt(function_form()), opt_function(*o)),
        clean(opt_function(*o)) ==> fits(opt(function_form()), opt_function(*o)),
    decreases size(opt_function(*o)), 1nat,
{
    let ghost start = w.buf@;
    match o {
        Some(x) => {
            proof {
                emit_opt(function_form(), function_tree(&**x));
            }
            w.u8(1);
            enc_function(w, x);
            assert(w.buf@ =~= start + emit(opt(function_form()), opt_function(*o)));
        },
        None => {
            proof {
                emit_opt(function_form(), Tree::Absent);
            }
            w.u8(0);
            assert(w.buf@ =~= start + emit(opt(function_form()), opt_function(*o)));
        },
    }
}

/// Writes a list of statements.
pub(crate) fn enc_stmts(w: &mut Writer, v: &Vec<Stmt>)
    ensures
        final(w).buf@ == old(w).buf@ + emit(list(stmt_form()), Tree::List(stmt_trees(v@))),
        clean(Tree::List(stmt_trees(v@))) ==> fits(list(stmt_form()), Tree::List(stmt_trees(v@))),
    decreases size(Tree::List(stmt_trees(v@))), 1nat,
{
    let ghost ts = stmt_trees(v@);
    proof {
        emit_list_whole(stmt_form(), ts);
    }
    w.uv(v.len() as u64);
    let ghost start = w.buf@;
    assert(ts.take(0) =~= Seq::<Tree>::empty());
    let mut i: usize = 0;
    while i < v.len()
        invariant
            i <= v.len(),
            ts == stmt_trees(v@),
            size(Tree::List(stmt_trees(v@))) == 1 + size_all(ts),
            w.buf@ == start + emit_list(stmt_form(), ts.take(i as int)),
            clean_all(ts) ==> fits_list(stmt_form(), ts.take(i as int)),
        decreases v.len() - i,
    {
        proof {
            emit_list_step(stmt_form(), ts, i as int);
        }
        enc_stmt(w, &v[i]);
        i = i + 1;
        assert(w.buf@ =~= start + emit_list(stmt_form(), ts.take(i as int)));
    }
    assert(ts.take(i as int) =~= ts);
    assert(w.buf@ =~= old(w).buf@ + emit(list(stmt_form()), Tree::List(stmt_trees(v@))));
}

/// Writes a list of expressions.
fn enc_exprs(w: &mut Writer, v: &Vec<Expr>)
    ensures
        final(w).buf@ == old(w).buf@ + emit(list(expr_form()), Tree::List(expr_trees(v@))),
        clean(Tree::List(expr_trees(v@))) ==> fits(list(expr_form()), Tree::List(expr_trees(v@))),
    decreases size(Tree::List(expr_trees(v@))), 1nat,
{
    let ghost ts = expr_trees(v@);
    proof {
        emit_list_whole(expr_form(), ts);
    }
    w.uv(v.len() as u64);
    let ghost start = w.buf@;
    assert(ts.take(0) =~= Seq::<Tree>::empty());
    let mut i: usize = 0;
    while i < v.len()
        invariant
            i <= v.len(),
            ts == expr_trees(v@),
            size(Tree::List(expr_trees(v@))) == 1 + size_all(ts),
            w.buf@ == start + emit_list(expr_form(), ts.take(i as int)),
            clean_all(ts) ==> fits_list(expr_form(), ts.take(i as int)),
        decreases v.len() - i,
    {
        proof {
            emit_list_step(expr_form(), ts, i as int);
        }
        enc_expr(w, &v[i]);
        i = i + 1;
        assert(w.buf@ =~= start + emit_list(expr_form(), ts.take(i as int)));
    }
    assert(ts.take(i as int) =~= ts);
    assert(w.buf@ =~= old(w).buf@ + emit(list(expr_form()), Tree::List(expr_trees(v@))));
}

/// Writes a list of declarators.
fn enc_decls(w: &mut Writer, v: &Vec<(Pattern, Option<Expr>)>)
    ensures
        final(w).buf@ == old(w).buf@ + emit(list(decl_form()), Tree::List(decl_trees(v@))),
        clean(Tree::List(decl_trees(v@))) ==> fits(list(decl_form()), Tree::List(decl_trees(v@))),
    decreases size(Tree::List(decl_trees(v@))), 1nat,
{
    let ghost ts = decl_trees(v@);
    proof {
        emit_list_whole(decl_form(), ts);
    }
    w.uv(v.len() as u64);
    let ghost start = w.buf@;
    assert(ts.take(0) =~= Seq::<Tree>::empty());
    let mut i: usize = 0;
    while i < v.len()
        invariant
            i <= v.len(),
            ts == decl_trees(v@),
            size(Tree::List(decl_trees(v@))) == 1 + size_all(ts),
            w.buf@ == start + emit_list(decl_form(), ts.take(i as int)),
            clean_all(ts) ==> fits_list(decl_form(), ts.take(i as int)),
        decreases v.len() - i,
    {
        proof {
            emit_list_step(decl_form(), ts, i as int);
        }
        enc_decl(w, &v[i]);
        i = i + 1;
        assert(w.buf@ =~= start + emit_list(decl_form(), ts.take(i as int)));
    }
    assert(ts.take(i as int) =~= ts);
    assert(w.buf@ =~= old(w).buf@ + emit(list(decl_form()), Tree::List(decl_trees(v@))));
}

/// Writes the cases of a `switch`.
fn enc_cases(w: &mut Writer, v: &Vec<SwitchCase>)
    ensures
        final(w).buf@ == old(w).buf@ + emit(list(case_form()), Tree::List(case_trees(v@))),
        clean(Tree::List(case_trees(v@))) ==> fits(list(case_form()), Tree::List(case_trees(v@))),
    decreases size(Tree::List(case_trees(v@))), 1nat,
{
    let ghost ts = case_trees(v@);
    proof {
        emit_list_whole(case_form(), ts);
    }
    w.uv(v.len() as u64);
    let ghost start = w.buf@;
    assert(ts.take(0) =~= Seq::<Tree>::empty());
    let mut i: usize = 0;
    while i < v.len()
        invariant
            i <= v.len(),
            ts == case_trees(v@),
            size(Tree::List(case_trees(v@))) == 1 + size_all(ts),
            w.buf@ == start + emit_list(case_form(), ts.take(i as int)),
            clean_all(ts) ==> fits_list(case_form(), ts.take(i as int)),
        decreases v.len() - i,
    {
        proof {
            emit_list_step(case_form(), ts, i as int);
        }
        enc_case(w, &v[i]);
        i = i + 1;
        assert(w.buf@ =~= start + emit_list(case_form(), ts.take(i as int)));
    }
    assert(ts.take(i as int) =~= ts);
    assert(w.buf@ =~= old(w).buf@ + emit(list(case_form()), Tree::List(case_trees(v@))));
}

/// Writes the names of an import.
fn enc_importspecs(w: &mut Writer, v: &Vec<ImportSpec>)
    ensures
        final(w).buf@ == old(w).buf@ + emit(list(Form::Node(Symbol::ImportSpec)), import_specs(v@)),
        clean(import_specs(v@)) ==> fits(list(Form::Node(Symbol::ImportSpec)), import_specs(v@)),
{
    let ghost ts = import_specs(v@)->List_0;
    proof {
        emit_list_whole(Form::Node(Symbol::ImportSpec), ts);
    }
    w.uv(v.len() as u64);
    let ghost start = w.buf@;
    assert(ts.take(0) =~= Seq::<Tree>::empty());
    let mut i: usize = 0;
    while i < v.len()
        invariant
            i <= v.len(),
            ts == import_specs(v@)->List_0,
            size(import_specs(v@)) == 1 + size_all(ts),
            w.buf@ == start + emit_list(Form::Node(Symbol::ImportSpec), ts.take(i as int)),
            clean_all(ts) ==> fits_list(Form::Node(Symbol::ImportSpec), ts.take(i as int)),
        decreases v.len() - i,
    {
        proof {
            emit_list_step(Form::Node(Symbol::ImportSpec), ts, i as int);
        }
        enc_importspec(w, &v[i]);
        i = i + 1;
        assert(w.buf@ =~= start + emit_list(Form::Node(Symbol::ImportSpec), ts.take(i as int)));
    }
    assert(ts.take(i as int) =~= ts);
    assert(w.buf@ =~= old(w).buf@ + emit(list(Form::Node(Symbol::ImportSpec)), import_specs(v@)));
}

/// Writes the names of an export.
fn enc_exportspecs(w: &mut Writer, v: &Vec<ExportSpec>)
    ensures
        final(w).buf@ == old(w).buf@ + emit(list(export_form()), export_specs(v@)),
        clean(export_specs(v@)) ==> fits(list(export_form()), export_specs(v@)),
{
    let ghost ts = export_specs(v@)->List_0;
    proof {
        emit_list_whole(export_form(), ts);
    }
    w.uv(v.len() as u64);
    let ghost start = w.buf@;
    assert(ts.take(0) =~= Seq::<Tree>::empty());
    let mut i: usize = 0;
    while i < v.len()
        invariant
            i <= v.len(),
            ts == export_specs(v@)->List_0,
            size(export_specs(v@)) == 1 + size_all(ts),
            w.buf@ == start + emit_list(export_form(), ts.take(i as int)),
            clean_all(ts) ==> fits_list(export_form(), ts.take(i as int)),
        decreases v.len() - i,
    {
        proof {
            emit_list_step(export_form(), ts, i as int);
        }
        enc_exportspec(w, &v[i]);
        i = i + 1;
        assert(w.buf@ =~= start + emit_list(export_form(), ts.take(i as int)));
    }
    assert(ts.take(i as int) =~= ts);
    assert(w.buf@ =~= old(w).buf@ + emit(list(export_form()), export_specs(v@)));
}

/// Writes the pieces of a template.
fn enc_quasis(w: &mut Writer, v: &Vec<(Option<String>, String)>)
    ensures
        final(w).buf@ == old(w).buf@ + emit(list(quasi_form()), quasis(v@)),
        clean(quasis(v@)) ==> fits(list(quasi_form()), quasis(v@)),
{
    let ghost ts = quasis(v@)->List_0;
    proof {
        emit_list_whole(quasi_form(), ts);
    }
    w.uv(v.len() as u64);
    let ghost start = w.buf@;
    assert(ts.take(0) =~= Seq::<Tree>::empty());
    let mut i: usize = 0;
    while i < v.len()
        invariant
            i <= v.len(),
            ts == quasis(v@)->List_0,
            size(quasis(v@)) == 1 + size_all(ts),
            w.buf@ == start + emit_list(quasi_form(), ts.take(i as int)),
            clean_all(ts) ==> fits_list(quasi_form(), ts.take(i as int)),
        decreases v.len() - i,
    {
        proof {
            emit_list_step(quasi_form(), ts, i as int);
        }
        enc_quasi(w, &v[i]);
        i = i + 1;
        assert(w.buf@ =~= start + emit_list(quasi_form(), ts.take(i as int)));
    }
    assert(ts.take(i as int) =~= ts);
    assert(w.buf@ =~= old(w).buf@ + emit(list(quasi_form()), quasis(v@)));
}

/// Writes the elements of an array or an argument list.
fn enc_array_elems(w: &mut Writer, v: &Vec<ArrayElem>)
    ensures
        final(w).buf@ == old(w).buf@ + emit(list(Form::Node(Symbol::ArrayElem)), Tree::List(elem_trees(v@))),
        clean(Tree::List(elem_trees(v@))) ==> fits(list(Form::Node(Symbol::ArrayElem)), Tree::List(elem_trees(v@))),
    decreases size(Tree::List(elem_trees(v@))), 1nat,
{
    let ghost ts = elem_trees(v@);
    proof {
        emit_list_whole(Form::Node(Symbol::ArrayElem), ts);
    }
    w.uv(v.len() as u64);
    let ghost start = w.buf@;
    assert(ts.take(0) =~= Seq::<Tree>::empty());
    let mut i: usize = 0;
    while i < v.len()
        invariant
            i <= v.len(),
            ts == elem_trees(v@),
            size(Tree::List(elem_trees(v@))) == 1 + size_all(ts),
            w.buf@ == start + emit_list(Form::Node(Symbol::ArrayElem), ts.take(i as int)),
            clean_all(ts) ==> fits_list(Form::Node(Symbol::ArrayElem), ts.take(i as int)),
        decreases v.len() - i,
    {
        proof {
            emit_list_step(Form::Node(Symbol::ArrayElem), ts, i as int);
        }
        enc_array_elem(w, &v[i]);
        i = i + 1;
        assert(w.buf@ =~= start + emit_list(Form::Node(Symbol::ArrayElem), ts.take(i as int)));
    }
    assert(ts.take(i as int) =~= ts);
    assert(w.buf@ =~= old(w).buf@ + emit(list(Form::Node(Symbol::ArrayElem)), Tree::List(elem_trees(v@))));
}

/// Writes the properties of an object literal.
fn enc_propdefs(w: &mut Writer, v: &Vec<PropDef>)
    ensures
        final(w).buf@ == old(w).buf@ + emit(list(Form::Node(Symbol::PropDef)), Tree::List(prop_def_trees(v@))),
        clean(Tree::List(prop_def_trees(v@))) ==> fits(list(Form::Node(Symbol::PropDef)), Tree::List(prop_def_trees(v@))),
    decreases size(Tree::List(prop_def_trees(v@))), 1nat,
{
    let ghost ts = prop_def_trees(v@);
    proof {
        emit_list_whole(Form::Node(Symbol::PropDef), ts);
    }
    w.uv(v.len() as u64);
    let ghost start = w.buf@;
    assert(ts.take(0) =~= Seq::<Tree>::empty());
    let mut i: usize = 0;
    while i < v.len()
        invariant
            i <= v.len(),
            ts == prop_def_trees(v@),
            size(Tree::List(prop_def_trees(v@))) == 1 + size_all(ts),
            w.buf@ == start + emit_list(Form::Node(Symbol::PropDef), ts.take(i as int)),
            clean_all(ts) ==> fits_list(Form::Node(Symbol::PropDef), ts.take(i as int)),
        decreases v.len() - i,
    {
        proof {
            emit_list_step(Form::Node(Symbol::PropDef), ts, i as int);
        }
        enc_propdef(w, &v[i]);
        i = i + 1;
        assert(w.buf@ =~= start + emit_list(Form::Node(Symbol::PropDef), ts.take(i as int)));
    }
    assert(ts.take(i as int) =~= ts);
    assert(w.buf@ =~= old(w).buf@ + emit(list(Form::Node(Symbol::PropDef)), Tree::List(prop_def_trees(v@))));
}

/// Writes the elements of an array pattern.
fn enc_patelems(w: &mut Writer, v: &Vec<ArrayPatElem>)
    ensures
        final(w).buf@ == old(w).buf@ + emit(list(Form::Node(Symbol::ArrayPatElem)), Tree::List(pat_elem_trees(v@))),
        clean(Tree::List(pat_elem_trees(v@))) ==> fits(list(Form::Node(Symbol::ArrayPatElem)), Tree::List(pat_elem_trees(v@))),
    decreases size(Tree::List(pat_elem_trees(v@))), 1nat,
{
    let ghost ts = pat_elem_trees(v@);
    proof {
        emit_list_whole(Form::Node(Symbol::ArrayPatElem), ts);
    }
    w.uv(v.len() as u64);
    let ghost start = w.buf@;
    assert(ts.take(0) =~= Seq::<Tree>::empty());
    let mut i: usize = 0;
    while i < v.len()
        invariant
            i <= v.len(),
            ts == pat_elem_trees(v@),
            size(Tree::List(pat_elem_trees(v@))) == 1 + size_all(ts),
            w.buf@ == start + emit_list(Form::Node(Symbol::ArrayPatElem), ts.take(i as int)),
            clean_all(ts) ==> fits_list(Form::Node(Symbol::ArrayPatElem), ts.take(i as int)),
        decreases v.len() - i,
    {
        proof {
            emit_list_step(Form::Node(Symbol::ArrayPatElem), ts, i as int);
        }
        enc_patelem(w, &v[i]);
        i = i + 1;
        assert(w.buf@ =~= start + emit_list(Form::Node(Symbol::ArrayPatElem), ts.take(i as int)));
    }
    assert(ts.take(i as int) =~= ts);
    assert(w.buf@ =~= old(w).buf@ + emit(list(Form::Node(Symbol::ArrayPatElem)), Tree::List(pat_elem_trees(v@))));
}

/// Writes the properties of an object pattern.
fn enc_patprops(w: &mut Writer, v: &Vec<ObjPatProp>)
    ensures
        final(w).buf@ == old(w).buf@ + emit(list(pat_prop_form()), Tree::List(pat_prop_trees(v@))),
        clean(Tree::List(pat_prop_trees(v@))) ==> fits(list(pat_prop_form()), Tree::List(pat_prop_trees(v@))),
    decreases size(Tree::List(pat_prop_trees(v@))), 1nat,
{
    let ghost ts = pat_prop_trees(v@);
    proof {
        emit_list_whole(pat_prop_form(), ts);
    }
    w.uv(v.len() as u64);
    let ghost start = w.buf@;
    assert(ts.take(0) =~= Seq::<Tree>::empty());
    let mut i: usize = 0;
    while i < v.len()
        invariant
            i <= v.len(),
            ts == pat_prop_trees(v@),
            size(Tree::List(pat_prop_trees(v@))) == 1 + size_all(ts),
            w.buf@ == start + emit_list(pat_prop_form(), ts.take(i as int)),
            clean_all(ts) ==> fits_list(pat_prop_form(), ts.take(i as int)),
        decreases v.len() - i,
    {
        proof {
            emit_list_step(pat_prop_form(), ts, i as int);
        }
        enc_patprop(w, &v[i]);
        i = i + 1;
        assert(w.buf@ =~= start + emit_list(pat_prop_form(), ts.take(i as int)));
    }
    assert(ts.take(i as int) =~= ts);
    assert(w.buf@ =~= old(w).buf@ + emit(list(pat_prop_form()), Tree::List(pat_prop_trees(v@))));
}

/// Writes the parameters of a function.
fn enc_params(w: &mut Writer, v: &Vec<Param>)
    ensures
        final(w).buf@ == old(w).buf@ + emit(list(param_form()), Tree::List(param_trees(v@))),
        clean(Tree::List(param_trees(v@))) ==> fits(list(param_form()), Tree::List(param_trees(v@))),
    decreases size(Tree::List(param_trees(v@))), 1nat,
{
    let ghost ts = param_trees(v@);
    proof {
        emit_list_whole(param_form(), ts);
    }
    w.uv(v.len() as u64);
    let ghost start = w.buf@;
    assert(ts.take(0) =~= Seq::<Tree>::empty());
    let mut i: usize = 0;
    while i < v.len()
        invariant
            i <= v.len(),
            ts == param_trees(v@),
            size(Tree::List(param_trees(v@))) == 1 + size_all(ts),
            w.buf@ == start + emit_list(param_form(), ts.take(i as int)),
            clean_all(ts) ==> fits_list(param_form(), ts.take(i as int)),
        decreases v.len() - i,
    {
        proof {
            emit_list_step(param_form(), ts, i as int);
        }
        enc_param(w, &v[i]);
        i = i + 1;
        assert(w.buf@ =~= start + emit_list(param_form(), ts.take(i as int)));
    }
    assert(ts.take(i as int) =~= ts);
    assert(w.buf@ =~= old(w).buf@ + emit(list(param_form()), Tree::List(param_trees(v@))));
}

/// Writes the members of a class.
fn enc_members(w: &mut Writer, v: &Vec<ClassMember>)
    ensures
        final(w).buf@ == old(w).buf@ + emit(list(member_form()), Tree::List(member_trees(v@))),
        clean(Tree::List(member_trees(v@))) ==> fits(list(member_form()), Tree::List(member_trees(v@))),
    decreases size(Tree::List(member_trees(v@))), 1nat,
{
    let ghost ts = member_trees(v@);
    proof {
        emit_list_whole(member_form(), ts);
    }
    w.uv(v.len() as u64);
    let ghost start = w.buf@;
    assert(ts.take(0) =~= Seq::<Tree>::empty());
    let mut i: usize = 0;
    while i < v.len()
        invariant
            i <= v.len(),
            ts == member_trees(v@),
            size(Tree::List(member_trees(v@))) == 1 + size_all(ts),
            w.buf@ == start + emit_list(member_form(), ts.take(i as int)),
            clean_all(ts) ==> fits_list(member_form(), ts.take(i as int)),
        decreases v.len() - i,
    {
        proof {
            emit_list_step(member_form(), ts, i as int);
        }
        enc_member(w, &v[i]);
        i = i + 1;
        assert(w.buf@ =~= start + emit_list(member_form(), ts.take(i as int)));
    }
    assert(ts.take(i as int) =~= ts);
    assert(w.buf@ =~= old(w).buf@ + emit(list(member_form()), Tree::List(member_trees(v@))));
}

// ---- statements -------------------------------------------------------------------------------

/// Writes a statement.
fn enc_stmt(w: &mut Writer, x: &Stmt)
    ensures
        final(w).buf@ == old(w).buf@ + emit(stmt_form(), stmt_tree(*x)),
        clean(stmt_tree(*x)) ==> fits(stmt_form(), stmt_tree(*x)),
    decreases size(stmt_tree(*x)), 1nat,
{
    match x {
        Stmt::Expr(..) | Stmt::VarDecl { .. } | Stmt::FuncDecl(..) | Stmt::Return(..) | Stmt::Break(..) | Stmt::Continue(..) | Stmt::Throw(..) | Stmt::ClassDecl(..) | Stmt::Empty | Stmt::Debugger => enc_plain_stmt(w, x),
        Stmt::If { .. } | Stmt::Block(..) | Stmt::Try { .. } | Stmt::Switch { .. } | Stmt::Labeled { .. } | Stmt::With { .. } => enc_branch_stmt(w, x),
        Stmt::While { .. } | Stmt::DoWhile { .. } | Stmt::For { .. } | Stmt::ForInOf { .. } => enc_loop_stmt(w, x),
        Stmt::Import(..) | Stmt::ExportNamed { .. } | Stmt::ExportDecl(..) | Stmt::ExportDefault(..) | Stmt::ExportAll { .. } => enc_module_stmt(w, x),
    }
}

/// Writes a statement without statements inside, or a declaration.
#[verifier::spinoff_prover]
fn enc_plain_stmt(w: &mut Writer, x: &Stmt)
    requires
        x is Expr || x is VarDecl || x is FuncDecl || x is Return || x is Break || x is Continue || x is Throw || x is ClassDecl || x is Empty || x is Debugger,
    ensures
        final(w).buf@ == old(w).buf@ + emit(stmt_form(), stmt_tree(*x)),
        clean(stmt_tree(*x)) ==> fits(stmt_form(), stmt_tree(*x)),
    decreases size(stmt_tree(*x)), 0nat,
{
    let ghost start = w.buf@;
    match x {
        Stmt::Expr(e) => {
            proof {
                assert(shape(Symbol::Stmt, 0) == Some(seq![expr_form()])) by { reveal(shape); reveal(stmt_shape); reveal(expr_shape); }
                emit_node_1(Symbol::Stmt, 0, expr_form(), expr_tree(*e));
            }
            w.u8(0);
            enc_expr(w, e);
            assert(w.buf@ =~= start + emit(stmt_form(), stmt_tree(*x)));
        },
        Stmt::VarDecl { kind, decls } => {
            proof {
                assert(shape(Symbol::Stmt, 1) == Some(seq![Form::Node(Symbol::DeclKind), list(decl_form())])) by { reveal(shape); reveal(stmt_shape); reveal(expr_shape); }
                emit_node_2(Symbol::Stmt, 1, Form::Node(Symbol::DeclKind), decl_kind_tree(*kind), list(decl_form()), Tree::List(decl_trees(decls@)));
            }
            w.u8(1);
            enc_declkind(w, *kind);
            enc_decls(w, decls);
            assert(w.buf@ =~= start + emit(stmt_form(), stmt_tree(*x)));
        },
        Stmt::FuncDecl(f) => {
            proof {
                assert(shape(Symbol::Stmt, 2) == Some(seq![function_form()])) by { reveal(shape); reveal(stmt_shape); reveal(expr_shape); }
                emit_node_1(Symbol::Stmt, 2, function_form(), function_tree(&**f));
            }
            w.u8(2);
            enc_function(w, f);
            assert(w.buf@ =~= start + emit(stmt_form(), stmt_tree(*x)));
        },
        Stmt::Return(e) => {
            proof {
                assert(shape(Symbol::Stmt, 3) == Some(seq![opt(expr_form())])) by { reveal(shape); reveal(stmt_shape); reveal(expr_shape); }
                emit_node_1(Symbol::Stmt, 3, opt(expr_form()), opt_expr(*e));
            }
            w.u8(3);
            enc_opt_expr(w, e);
            assert(w.buf@ =~= start + emit(stmt_form(), stmt_tree(*x)));
        },
        Stmt::Break(label) => {
            proof {
                assert(shape(Symbol::Stmt, 10) == Some(seq![opt(Form::Text)])) by { reveal(shape); reveal(stmt_shape); reveal(expr_shape); }
                emit_node_1(Symbol::Stmt, 10, opt(Form::Text), opt_text(*label));
            }
            w.u8(10);
            enc_opt_str(w, label);
            assert(w.buf@ =~= start + emit(stmt_form(), stmt_tree(*x)));
        },
        Stmt::Continue(label) => {
            proof {
                assert(shape(Symbol::Stmt, 11) == Some(seq![opt(Form::Text)])) by { reveal(shape); reveal(stmt_shape); reveal(expr_shape); }
                emit_node_1(Symbol::Stmt, 11, opt(Form::Text), opt_text(*label));
            }
            w.u8(11);
            enc_opt_str(w, label);
            assert(w.buf@ =~= start + emit(stmt_form(), stmt_tree(*x)));
        },
        Stmt::Throw(e) => {
            proof {
                assert(shape(Symbol::Stmt, 12) == Some(seq![expr_form()])) by { reveal(shape); reveal(stmt_shape); reveal(expr_shape); }
                emit_node_1(Symbol::Stmt, 12, expr_form(), expr_tree(*e));
            }
            w.u8(12);
            enc_expr(w, e);
            assert(w.buf@ =~= start + emit(stmt_form(), stmt_tree(*x)));
        },
        Stmt::ClassDecl(c) => {
            proof {
                assert(shape(Symbol::Stmt, 17) == Some(seq![class_form()])) by { reveal(shape); reveal(stmt_shape); reveal(expr_shape); }
                emit_node_1(Symbol::Stmt, 17, class_form(), class_tree(&**c));
            }
            w.u8(17);
            enc_class(w, c);
            assert(w.buf@ =~= start + emit(stmt_form(), stmt_tree(*x)));
        },
        Stmt::Empty => {
            proof {
                assert(shape(Symbol::Stmt, 18) == Some(Seq::<Form>::empty())) by { reveal(shape); reveal(stmt_shape); reveal(expr_shape); }
                emit_node_0(Symbol::Stmt, 18);
            }
            w.u8(18);
            assert(w.buf@ =~= start + emit(stmt_form(), stmt_tree(*x)));
        },
        Stmt::Debugger => {
            proof {
                assert(shape(Symbol::Stmt, 19) == Some(Seq::<Form>::empty())) by { reveal(shape); reveal(stmt_shape); reveal(expr_shape); }
                emit_node_0(Symbol::Stmt, 19);
            }
            w.u8(19);
            assert(w.buf@ =~= start + emit(stmt_form(), stmt_tree(*x)));
        },
        _ => {},
    }
}

/// Writes a statement that chooses among statements.
#[verifier::spinoff_prover]
fn enc_branch_stmt(w: &mut Writer, x: &Stmt)
    requires
        x is If || x is Block || x is Try || x is Switch || x is Labeled || x is With,
    ensures
        final(w).buf@ == old(w).buf@ + emit(stmt_form(), stmt_tree(*x)),
        clean(stmt_tree(*x)) ==> fits(stmt_form(), stmt_tree(*x)),
    decreases size(stmt_tree(*x)), 0nat,
{
    let ghost start = w.buf@;
    match x {
        Stmt::If { test, cons, alt } => {
            proof {
                assert(shape(Symbol::Stmt, 4) == Some(seq![expr_form(), stmt_form(), opt(stmt_form())])) by { reveal(shape); reveal(stmt_shape); reveal(expr_shape); }
                emit_node_3(Symbol::Stmt, 4, expr_form(), expr_tree(*test), stmt_form(), stmt_tree(**cons), opt(stmt_form()), opt_boxed_stmt(*alt));
            }
            w.u8(4);
            enc_expr(w, test);
            enc_stmt(w, cons);
            enc_opt_stmt(w, alt);
            assert(w.buf@ =~= start + emit(stmt_form(), stmt_tree(*x)));
        },
        Stmt::Block(b) => {
            proof {
                assert(shape(Symbol::Stmt, 5) == Some(seq![list(stmt_form())])) by { reveal(shape); reveal(stmt_shape); reveal(expr_shape); }
                emit_node_1(Symbol::Stmt, 5, list(stmt_form()), Tree::List(stmt_trees(b@)));
            }
            w.u8(5);
            enc_stmts(w, b);
            assert(w.buf@ =~= start + emit(stmt_form(), stmt_tree(*x)));
        },
        Stmt::Try { block, handler, finalizer } => {
            proof {
                assert(shape(Symbol::Stmt, 13) == Some(seq![list(stmt_form()), opt(handler_form()), opt(list(stmt_form()))])) by { reveal(shape); reveal(stmt_shape); reveal(expr_shape); }
                emit_node_3(Symbol::Stmt, 13, list(stmt_form()), Tree::List(stmt_trees(block@)), opt(handler_form()), opt_handler(*handler), opt(list(stmt_form())), opt_stmts(*finalizer));
            }
            w.u8(13);
            enc_stmts(w, block);
            enc_opt_handler(w, handler);
            enc_opt_stmts(w, finalizer);
            assert(w.buf@ =~= start + emit(stmt_form(), stmt_tree(*x)));
        },
        Stmt::Switch { disc, cases } => {
            proof {
                assert(shape(Symbol::Stmt, 14) == Some(seq![expr_form(), list(case_form())])) by { reveal(shape); reveal(stmt_shape); reveal(expr_shape); }
                emit_node_2(Symbol::Stmt, 14, expr_form(), expr_tree(*disc), list(case_form()), Tree::List(case_trees(cases@)));
            }
            w.u8(14);
            enc_expr(w, disc);
            enc_cases(w, cases);
            assert(w.buf@ =~= start + emit(stmt_form(), stmt_tree(*x)));
        },
        Stmt::Labeled { label, body } => {
            proof {
                assert(shape(Symbol::Stmt, 15) == Some(seq![Form::Text, stmt_form()])) by { reveal(shape); reveal(stmt_shape); reveal(expr_shape); }
                emit_node_2(Symbol::Stmt, 15, Form::Text, text(*label), stmt_form(), stmt_tree(**body));
            }
            w.u8(15);
            w.str(label.as_str());
            enc_stmt(w, body);
            assert(w.buf@ =~= start + emit(stmt_form(), stmt_tree(*x)));
        },
        Stmt::With { obj, body } => {
            proof {
                assert(shape(Symbol::Stmt, 16) == Some(seq![expr_form(), stmt_form()])) by { reveal(shape); reveal(stmt_shape); reveal(expr_shape); }
                emit_node_2(Symbol::Stmt, 16, expr_form(), expr_tree(*obj), stmt_form(), stmt_tree(**body));
            }
            w.u8(16);
            enc_expr(w, obj);
            enc_stmt(w, body);
            assert(w.buf@ =~= start + emit(stmt_form(), stmt_tree(*x)));
        },
        _ => {},
    }
}

/// Writes a loop.
#[verifier::spinoff_prover]
fn enc_loop_stmt(w: &mut Writer, x: &Stmt)
    requires
        x is While || x is DoWhile || x is For || x is ForInOf,
    ensures
        final(w).buf@ == old(w).buf@ + emit(stmt_form(), stmt_tree(*x)),
        clean(stmt_tree(*x)) ==> fits(stmt_form(), stmt_tree(*x)),
    decreases size(stmt_tree(*x)), 0nat,
{
    let ghost start = w.buf@;
    match x {
        Stmt::While { test, body } => {
            proof {
                assert(shape(Symbol::Stmt, 6) == Some(seq![expr_form(), stmt_form()])) by { reveal(shape); reveal(stmt_shape); reveal(expr_shape); }
                emit_node_2(Symbol::Stmt, 6, expr_form(), expr_tree(*test), stmt_form(), stmt_tree(**body));
            }
            w.u8(6);
            enc_expr(w, test);
            enc_stmt(w, body);
            assert(w.buf@ =~= start + emit(stmt_form(), stmt_tree(*x)));
        },
        Stmt::DoWhile { body, test } => {
            proof {
                assert(shape(Symbol::Stmt, 7) == Some(seq![stmt_form(), expr_form()])) by { reveal(shape); reveal(stmt_shape); reveal(expr_shape); }
                emit_node_2(Symbol::Stmt, 7, stmt_form(), stmt_tree(**body), expr_form(), expr_tree(*test));
            }
            w.u8(7);
            enc_stmt(w, body);
            enc_expr(w, test);
            assert(w.buf@ =~= start + emit(stmt_form(), stmt_tree(*x)));
        },
        Stmt::For { init, test, update, body } => {
            proof {
                assert(shape(Symbol::Stmt, 8) == Some(seq![opt(Form::Node(Symbol::ForInit)), opt(expr_form()), opt(expr_form()), stmt_form()])) by { reveal(shape); reveal(stmt_shape); reveal(expr_shape); }
                emit_node_4(Symbol::Stmt, 8, opt(Form::Node(Symbol::ForInit)), opt_for_init(*init), opt(expr_form()), opt_expr(*test), opt(expr_form()), opt_expr(*update), stmt_form(), stmt_tree(**body));
            }
            w.u8(8);
            enc_opt_forinit(w, init);
            enc_opt_expr(w, test);
            enc_opt_expr(w, update);
            enc_stmt(w, body);
            assert(w.buf@ =~= start + emit(stmt_form(), stmt_tree(*x)));
        },
        Stmt::ForInOf { decl, left, right, of, is_await, body } => {
            proof {
                assert(shape(Symbol::Stmt, 9) == Some(seq![opt(Form::Node(Symbol::DeclKind)), pattern_form(), expr_form(), Form::Bool, Form::Bool, stmt_form()])) by { reveal(shape); reveal(stmt_shape); reveal(expr_shape); }
                emit_node_6(Symbol::Stmt, 9, opt(Form::Node(Symbol::DeclKind)), opt_decl_kind(*decl), pattern_form(), pattern_tree(*left), expr_form(), expr_tree(*right), Form::Bool, Tree::Bool(*of), Form::Bool, Tree::Bool(*is_await), stmt_form(), stmt_tree(**body));
            }
            w.u8(9);
            enc_opt_declkind(w, decl);
            enc_pattern(w, left);
            enc_expr(w, right);
            w.bool(*of);
            w.bool(*is_await);
            enc_stmt(w, body);
            assert(w.buf@ =~= start + emit(stmt_form(), stmt_tree(*x)));
        },
        _ => {},
    }
}

/// Writes an import or export.
#[verifier::spinoff_prover]
fn enc_module_stmt(w: &mut Writer, x: &Stmt)
    requires
        x is Import || x is ExportNamed || x is ExportDecl || x is ExportDefault || x is ExportAll,
    ensures
        final(w).buf@ == old(w).buf@ + emit(stmt_form(), stmt_tree(*x)),
        clean(stmt_tree(*x)) ==> fits(stmt_form(), stmt_tree(*x)),
    decreases size(stmt_tree(*x)), 0nat,
{
    let ghost start = w.buf@;
    match x {
        Stmt::Import(d) => {
            proof {
                assert(shape(Symbol::Stmt, 20) == Some(seq![Form::Text, list(Form::Node(Symbol::ImportSpec)), opt(Form::Text)])) by { reveal(shape); reveal(stmt_shape); }
                emit_node_3(Symbol::Stmt, 20, Form::Text, text(d.source), list(Form::Node(Symbol::ImportSpec)), import_specs(d.specs@), opt(Form::Text), opt_text(d.attr_type));
            }
            w.u8(20);
            w.str(d.source.as_str());
            enc_importspecs(w, &d.specs);
            enc_opt_str(w, &d.attr_type);
            assert(w.buf@ =~= start + emit(stmt_form(), stmt_tree(*x)));
        },
        Stmt::ExportNamed { specs, source } => {
            proof {
                assert(shape(Symbol::Stmt, 21) == Some(seq![list(export_form()), opt(Form::Text)])) by { reveal(shape); reveal(stmt_shape); reveal(expr_shape); }
                emit_node_2(Symbol::Stmt, 21, list(export_form()), export_specs(specs@), opt(Form::Text), opt_text(*source));
            }
            w.u8(21);
            enc_exportspecs(w, specs);
            enc_opt_str(w, source);
            assert(w.buf@ =~= start + emit(stmt_form(), stmt_tree(*x)));
        },
        Stmt::ExportDecl(s) => {
            proof {
                assert(shape(Symbol::Stmt, 22) == Some(seq![stmt_form()])) by { reveal(shape); reveal(stmt_shape); reveal(expr_shape); }
                emit_node_1(Symbol::Stmt, 22, stmt_form(), stmt_tree(**s));
            }
            w.u8(22);
            enc_stmt(w, s);
            assert(w.buf@ =~= start + emit(stmt_form(), stmt_tree(*x)));
        },
        Stmt::ExportDefault(s) => {
            proof {
                assert(shape(Symbol::Stmt, 23) == Some(seq![stmt_form()])) by { reveal(shape); reveal(stmt_shape); reveal(expr_shape); }
                emit_node_1(Symbol::Stmt, 23, stmt_form(), stmt_tree(**s));
            }
            w.u8(23);
            enc_stmt(w, s);
            assert(w.buf@ =~= start + emit(stmt_form(), stmt_tree(*x)));
        },
        Stmt::ExportAll { source, exported } => {
            proof {
                assert(shape(Symbol::Stmt, 24) == Some(seq![Form::Text, opt(Form::Text)])) by { reveal(shape); reveal(stmt_shape); reveal(expr_shape); }
                emit_node_2(Symbol::Stmt, 24, Form::Text, text(*source), opt(Form::Text), opt_text(*exported));
            }
            w.u8(24);
            w.str(source.as_str());
            enc_opt_str(w, exported);
            assert(w.buf@ =~= start + emit(stmt_form(), stmt_tree(*x)));
        },
        _ => {},
    }
}

/// Writes a declarator.
fn enc_decl(w: &mut Writer, x: &(Pattern, Option<Expr>))
    ensures
        final(w).buf@ == old(w).buf@ + emit(decl_form(), decl_tree(*x)),
        clean(decl_tree(*x)) ==> fits(decl_form(), decl_tree(*x)),
    decreases size(decl_tree(*x)), 1nat,
{
    let ghost start = w.buf@;
    proof {
        reveal(decl_form);
        emit_tuple_2(pattern_form(), pattern_tree(x.0), opt(expr_form()), opt_expr(x.1));
    }
    enc_pattern(w, &x.0);
    enc_opt_expr(w, &x.1);
    assert(w.buf@ =~= start + emit(decl_form(), decl_tree(*x)));
}

/// Writes a `case`.
fn enc_case(w: &mut Writer, x: &SwitchCase)
    ensures
        final(w).buf@ == old(w).buf@ + emit(case_form(), case_tree(*x)),
        clean(case_tree(*x)) ==> fits(case_form(), case_tree(*x)),
    decreases size(case_tree(*x)), 1nat,
{
    let ghost start = w.buf@;
    proof {
        reveal(case_form);
        emit_tuple_2(opt(expr_form()), opt_expr(x.test), list(stmt_form()), Tree::List(stmt_trees(x.body@)));
    }
    enc_opt_expr(w, &x.test);
    enc_stmts(w, &x.body);
    assert(w.buf@ =~= start + emit(case_form(), case_tree(*x)));
}

/// Writes a `catch`.
fn enc_handler(w: &mut Writer, x: &(Option<Pattern>, Vec<Stmt>))
    ensures
        final(w).buf@ == old(w).buf@ + emit(handler_form(), handler_tree(*x)),
        clean(handler_tree(*x)) ==> fits(handler_form(), handler_tree(*x)),
    decreases size(handler_tree(*x)), 1nat,
{
    let ghost start = w.buf@;
    proof {
        reveal(handler_form);
        emit_tuple_2(opt(pattern_form()), opt_pattern(x.0), list(stmt_form()), Tree::List(stmt_trees(x.1@)));
    }
    enc_opt_pattern(w, &x.0);
    enc_stmts(w, &x.1);
    assert(w.buf@ =~= start + emit(handler_form(), handler_tree(*x)));
}

/// Writes the first part of a `for`.
fn enc_forinit(w: &mut Writer, x: &ForInit)
    ensures
        final(w).buf@ == old(w).buf@ + emit(Form::Node(Symbol::ForInit), for_init_tree(*x)),
        clean(for_init_tree(*x)) ==> fits(Form::Node(Symbol::ForInit), for_init_tree(*x)),
    decreases size(for_init_tree(*x)), 1nat,
{
    let ghost start = w.buf@;
    match x {
        ForInit::VarDecl { kind, decls } => {
            proof {
                assert(shape(Symbol::ForInit, 0) == Some(seq![Form::Node(Symbol::DeclKind), list(decl_form())])) by { reveal(shape); reveal(stmt_shape); reveal(expr_shape); }
                emit_node_2(Symbol::ForInit, 0, Form::Node(Symbol::DeclKind), decl_kind_tree(*kind), list(decl_form()), Tree::List(decl_trees(decls@)));
            }
            w.u8(0);
            enc_declkind(w, *kind);
            enc_decls(w, decls);
            assert(w.buf@ =~= start + emit(Form::Node(Symbol::ForInit), for_init_tree(*x)));
        },
        ForInit::Expr(e) => {
            proof {
                assert(shape(Symbol::ForInit, 1) == Some(seq![expr_form()])) by { reveal(shape); reveal(stmt_shape); reveal(expr_shape); }
                emit_node_1(Symbol::ForInit, 1, expr_form(), expr_tree(*e));
            }
            w.u8(1);
            enc_expr(w, e);
            assert(w.buf@ =~= start + emit(Form::Node(Symbol::ForInit), for_init_tree(*x)));
        },
    }
}

/// Writes an exported name.
fn enc_exportspec(w: &mut Writer, x: &ExportSpec)
    ensures
        final(w).buf@ == old(w).buf@ + emit(export_form(), export_spec_tree(*x)),
        clean(export_spec_tree(*x)) ==> fits(export_form(), export_spec_tree(*x)),
{
    let ghost start = w.buf@;
    proof {
        reveal(export_form);
        emit_tuple_2(Form::Text, text(x.local), Form::Text, text(x.exported));
    }
    w.str(x.local.as_str());
    w.str(x.exported.as_str());
    assert(w.buf@ =~= start + emit(export_form(), export_spec_tree(*x)));
}

/// Writes an imported name.
fn enc_importspec(w: &mut Writer, x: &ImportSpec)
    ensures
        final(w).buf@ == old(w).buf@ + emit(Form::Node(Symbol::ImportSpec), import_spec_tree(*x)),
        clean(import_spec_tree(*x)) ==> fits(Form::Node(Symbol::ImportSpec), import_spec_tree(*x)),
{
    let ghost start = w.buf@;
    match x {
        ImportSpec::Default(n) => {
            proof {
                assert(shape(Symbol::ImportSpec, 0) == Some(seq![Form::Text])) by { reveal(shape); reveal(stmt_shape); reveal(expr_shape); }
                emit_node_1(Symbol::ImportSpec, 0, Form::Text, text(*n));
            }
            w.u8(0);
            w.str(n.as_str());
            assert(w.buf@ =~= start + emit(Form::Node(Symbol::ImportSpec), import_spec_tree(*x)));
        },
        ImportSpec::Namespace(n) => {
            proof {
                assert(shape(Symbol::ImportSpec, 1) == Some(seq![Form::Text])) by { reveal(shape); reveal(stmt_shape); reveal(expr_shape); }
                emit_node_1(Symbol::ImportSpec, 1, Form::Text, text(*n));
            }
            w.u8(1);
            w.str(n.as_str());
            assert(w.buf@ =~= start + emit(Form::Node(Symbol::ImportSpec), import_spec_tree(*x)));
        },
        ImportSpec::DeferNamespace(n) => {
            proof {
                assert(shape(Symbol::ImportSpec, 2) == Some(seq![Form::Text])) by { reveal(shape); reveal(stmt_shape); reveal(expr_shape); }
                emit_node_1(Symbol::ImportSpec, 2, Form::Text, text(*n));
            }
            w.u8(2);
            w.str(n.as_str());
            assert(w.buf@ =~= start + emit(Form::Node(Symbol::ImportSpec), import_spec_tree(*x)));
        },
        ImportSpec::Source(n) => {
            proof {
                assert(shape(Symbol::ImportSpec, 3) == Some(seq![Form::Text])) by { reveal(shape); reveal(stmt_shape); reveal(expr_shape); }
                emit_node_1(Symbol::ImportSpec, 3, Form::Text, text(*n));
            }
            w.u8(3);
            w.str(n.as_str());
            assert(w.buf@ =~= start + emit(Form::Node(Symbol::ImportSpec), import_spec_tree(*x)));
        },
        ImportSpec::Named { imported, local } => {
            proof {
                assert(shape(Symbol::ImportSpec, 4) == Some(seq![Form::Text, Form::Text])) by { reveal(shape); reveal(stmt_shape); reveal(expr_shape); }
                emit_node_2(Symbol::ImportSpec, 4, Form::Text, text(*imported), Form::Text, text(*local));
            }
            w.u8(4);
            w.str(imported.as_str());
            w.str(local.as_str());
            assert(w.buf@ =~= start + emit(Form::Node(Symbol::ImportSpec), import_spec_tree(*x)));
        },
    }
}

/// Writes a declaration keyword.
fn enc_declkind(w: &mut Writer, x: DeclKind)
    ensures
        final(w).buf@ == old(w).buf@ + emit(Form::Node(Symbol::DeclKind), decl_kind_tree(x)),
        clean(decl_kind_tree(x)) ==> fits(Form::Node(Symbol::DeclKind), decl_kind_tree(x)),
{
    let tag: u8 = match x {
        DeclKind::Var => 0,
        DeclKind::Let => 1,
        DeclKind::Const => 2,
        DeclKind::Using => 3,
        DeclKind::AwaitUsing => 4,
    };
    proof {
        assert(shape(Symbol::DeclKind, tag as nat) == Some(Seq::<Form>::empty())) by { reveal(shape); }
        emit_node_0(Symbol::DeclKind, tag as nat);
    }
    w.u8(tag);
    assert(w.buf@ =~= old(w).buf@ + emit(Form::Node(Symbol::DeclKind), decl_kind_tree(x)));
}

// ---- expressions ------------------------------------------------------------------------------

/// Writes an expression.
fn enc_expr(w: &mut Writer, x: &Expr)
    ensures
        final(w).buf@ == old(w).buf@ + emit(expr_form(), expr_tree(*x)),
        clean(expr_tree(*x)) ==> fits(expr_form(), expr_tree(*x)),
    decreases size(expr_tree(*x)), 1nat,
{
    match x {
        Expr::Num(..) | Expr::BigInt(..) | Expr::Str(..) | Expr::Bool(..) | Expr::Null | Expr::Undefined | Expr::Ident(..) | Expr::This | Expr::Regex { .. } | Expr::Super | Expr::ImportMeta | Expr::NewTarget => enc_leaf_expr(w, x),
        Expr::Array(..) | Expr::Object(..) | Expr::Func(..) | Expr::Class(..) | Expr::TaggedTemplate { .. } | Expr::ImportCall { .. } => enc_literal_expr(w, x),
        Expr::Unary { .. } | Expr::Update { .. } | Expr::Binary { .. } | Expr::Logical { .. } | Expr::Assign { .. } | Expr::Cond { .. } | Expr::Sequence(..) => enc_operator_expr(w, x),
        Expr::Call { .. } | Expr::New { .. } | Expr::Member { .. } | Expr::Index { .. } | Expr::OptionalChain(..) | Expr::PrivateIn { .. } => enc_access_expr(w, x),
        Expr::Paren(..) | Expr::ToStr(..) | Expr::Yield { .. } | Expr::Await(..) => enc_wrapping_expr(w, x),
    }
}

/// Writes an expression without expressions inside.
#[verifier::spinoff_prover]
fn enc_leaf_expr(w: &mut Writer, x: &Expr)
    requires
        x is Num || x is BigInt || x is Str || x is Bool || x is Null || x is Undefined || x is Ident || x is This || x is Regex || x is Super || x is ImportMeta || x is NewTarget,
    ensures
        final(w).buf@ == old(w).buf@ + emit(expr_form(), expr_tree(*x)),
        clean(expr_tree(*x)) ==> fits(expr_form(), expr_tree(*x)),
    decreases size(expr_tree(*x)), 0nat,
{
    let ghost start = w.buf@;
    match x {
        Expr::Num(n) => {
            proof {
                assert(shape(Symbol::Expr, 1) == Some(seq![Form::Double])) by { reveal(shape); reveal(stmt_shape); reveal(expr_shape); }
                emit_node_1(Symbol::Expr, 1, Form::Double, Tree::Bits(*n));
            }
            w.u8(1);
            w.double(*n);
            assert(w.buf@ =~= start + emit(expr_form(), expr_tree(*x)));
        },
        Expr::BigInt(b) => {
            proof {
                assert(shape(Symbol::Expr, 2) == Some(seq![Form::Integer])) by { reveal(shape); reveal(stmt_shape); reveal(expr_shape); }
                emit_node_1(Symbol::Expr, 2, Form::Integer, Tree::Integer(b@));
            }
            w.u8(2);
            w.integer(b);
            assert(w.buf@ =~= start + emit(expr_form(), expr_tree(*x)));
        },
        Expr::Str(s) => {
            proof {
                assert(shape(Symbol::Expr, 3) == Some(seq![Form::Text])) by { reveal(shape); reveal(stmt_shape); reveal(expr_shape); }
                emit_node_1(Symbol::Expr, 3, Form::Text, text(*s));
            }
            w.u8(3);
            w.str(s.as_str());
            assert(w.buf@ =~= start + emit(expr_form(), expr_tree(*x)));
        },
        Expr::Bool(b) => {
            proof {
                assert(shape(Symbol::Expr, 5) == Some(seq![Form::Bool])) by { reveal(shape); reveal(stmt_shape); reveal(expr_shape); }
                emit_node_1(Symbol::Expr, 5, Form::Bool, Tree::Bool(*b));
            }
            w.u8(5);
            w.bool(*b);
            assert(w.buf@ =~= start + emit(expr_form(), expr_tree(*x)));
        },
        Expr::Null => {
            proof {
                assert(shape(Symbol::Expr, 6) == Some(Seq::<Form>::empty())) by { reveal(shape); reveal(stmt_shape); reveal(expr_shape); }
                emit_node_0(Symbol::Expr, 6);
            }
            w.u8(6);
            assert(w.buf@ =~= start + emit(expr_form(), expr_tree(*x)));
        },
        Expr::Undefined => {
            proof {
                assert(shape(Symbol::Expr, 7) == Some(Seq::<Form>::empty())) by { reveal(shape); reveal(stmt_shape); reveal(expr_shape); }
                emit_node_0(Symbol::Expr, 7);
            }
            w.u8(7);
            assert(w.buf@ =~= start + emit(expr_form(), expr_tree(*x)));
        },
        Expr::Ident(n) => {
            proof {
                assert(shape(Symbol::Expr, 8) == Some(seq![Form::Text])) by { reveal(shape); reveal(stmt_shape); reveal(expr_shape); }
                emit_node_1(Symbol::Expr, 8, Form::Text, text(*n));
            }
            w.u8(8);
            w.str(n.as_str());
            assert(w.buf@ =~= start + emit(expr_form(), expr_tree(*x)));
        },
        Expr::This => {
            proof {
                assert(shape(Symbol::Expr, 9) == Some(Seq::<Form>::empty())) by { reveal(shape); reveal(stmt_shape); reveal(expr_shape); }
                emit_node_0(Symbol::Expr, 9);
            }
            w.u8(9);
            assert(w.buf@ =~= start + emit(expr_form(), expr_tree(*x)));
        },
        Expr::Regex { body, flags } => {
            proof {
                assert(shape(Symbol::Expr, 10) == Some(seq![Form::Text, Form::Text])) by { reveal(shape); reveal(stmt_shape); reveal(expr_shape); }
                emit_node_2(Symbol::Expr, 10, Form::Text, text(*body), Form::Text, text(*flags));
            }
            w.u8(10);
            w.str(body.as_str());
            w.str(flags.as_str());
            assert(w.buf@ =~= start + emit(expr_form(), expr_tree(*x)));
        },
        Expr::Super => {
            proof {
                assert(shape(Symbol::Expr, 17) == Some(Seq::<Form>::empty())) by { reveal(shape); reveal(stmt_shape); reveal(expr_shape); }
                emit_node_0(Symbol::Expr, 17);
            }
            w.u8(17);
            assert(w.buf@ =~= start + emit(expr_form(), expr_tree(*x)));
        },
        Expr::ImportMeta => {
            proof {
                assert(shape(Symbol::Expr, 33) == Some(Seq::<Form>::empty())) by { reveal(shape); reveal(stmt_shape); reveal(expr_shape); }
                emit_node_0(Symbol::Expr, 33);
            }
            w.u8(33);
            assert(w.buf@ =~= start + emit(expr_form(), expr_tree(*x)));
        },
        Expr::NewTarget => {
            proof {
                assert(shape(Symbol::Expr, 34) == Some(Seq::<Form>::empty())) by { reveal(shape); reveal(stmt_shape); reveal(expr_shape); }
                emit_node_0(Symbol::Expr, 34);
            }
            w.u8(34);
            assert(w.buf@ =~= start + emit(expr_form(), expr_tree(*x)));
        },
        _ => {},
    }
}

/// Writes an expression that makes a value.
#[verifier::spinoff_prover]
fn enc_literal_expr(w: &mut Writer, x: &Expr)
    requires
        x is Array || x is Object || x is Func || x is Class || x is TaggedTemplate || x is ImportCall,
    ensures
        final(w).buf@ == old(w).buf@ + emit(expr_form(), expr_tree(*x)),
        clean(expr_tree(*x)) ==> fits(expr_form(), expr_tree(*x)),
    decreases size(expr_tree(*x)), 0nat,
{
    let ghost start = w.buf@;
    match x {
        Expr::Array(elems) => {
            proof {
                assert(shape(Symbol::Expr, 11) == Some(seq![list(Form::Node(Symbol::ArrayElem))])) by { reveal(shape); reveal(stmt_shape); reveal(expr_shape); }
                emit_node_1(Symbol::Expr, 11, list(Form::Node(Symbol::ArrayElem)), Tree::List(elem_trees(elems@)));
            }
            w.u8(11);
            enc_array_elems(w, elems);
            assert(w.buf@ =~= start + emit(expr_form(), expr_tree(*x)));
        },
        Expr::Object(props) => {
            proof {
                assert(shape(Symbol::Expr, 12) == Some(seq![list(Form::Node(Symbol::PropDef))])) by { reveal(shape); reveal(stmt_shape); reveal(expr_shape); }
                emit_node_1(Symbol::Expr, 12, list(Form::Node(Symbol::PropDef)), Tree::List(prop_def_trees(props@)));
            }
            w.u8(12);
            enc_propdefs(w, props);
            assert(w.buf@ =~= start + emit(expr_form(), expr_tree(*x)));
        },
        Expr::Func(f) => {
            proof {
                assert(shape(Symbol::Expr, 13) == Some(seq![function_form()])) by { reveal(shape); reveal(stmt_shape); reveal(expr_shape); }
                emit_node_1(Symbol::Expr, 13, function_form(), function_tree(&**f));
            }
            w.u8(13);
            enc_function(w, f);
            assert(w.buf@ =~= start + emit(expr_form(), expr_tree(*x)));
        },
        Expr::Class(c) => {
            proof {
                assert(shape(Symbol::Expr, 14) == Some(seq![class_form()])) by { reveal(shape); reveal(stmt_shape); reveal(expr_shape); }
                emit_node_1(Symbol::Expr, 14, class_form(), class_tree(&**c));
            }
            w.u8(14);
            enc_class(w, c);
            assert(w.buf@ =~= start + emit(expr_form(), expr_tree(*x)));
        },
        Expr::TaggedTemplate { tag: head, quasis: pieces, subs } => {
            proof {
                assert(shape(Symbol::Expr, 29) == Some(seq![expr_form(), list(quasi_form()), list(expr_form())])) by { reveal(shape); reveal(stmt_shape); reveal(expr_shape); }
                emit_node_3(Symbol::Expr, 29, expr_form(), expr_tree(**head), list(quasi_form()), quasis(pieces@), list(expr_form()), Tree::List(expr_trees(subs@)));
            }
            w.u8(29);
            enc_expr(w, head);
            enc_quasis(w, pieces);
            enc_exprs(w, subs);
            assert(w.buf@ =~= start + emit(expr_form(), expr_tree(*x)));
        },
        Expr::ImportCall { spec, phase, options } => {
            proof {
                assert(shape(Symbol::Expr, 32) == Some(seq![expr_form(), Form::Node(Symbol::ImportPhase), opt(expr_form())])) by { reveal(shape); reveal(stmt_shape); reveal(expr_shape); }
                emit_node_3(Symbol::Expr, 32, expr_form(), expr_tree(**spec), Form::Node(Symbol::ImportPhase), import_phase_tree(*phase), opt(expr_form()), opt_boxed_expr(*options));
            }
            w.u8(32);
            enc_expr(w, spec);
            enc_importphase(w, *phase);
            enc_opt_boxed_expr(w, options);
            assert(w.buf@ =~= start + emit(expr_form(), expr_tree(*x)));
        },
        _ => {},
    }
}

/// Writes an operator.
#[verifier::spinoff_prover]
fn enc_operator_expr(w: &mut Writer, x: &Expr)
    requires
        x is Unary || x is Update || x is Binary || x is Logical || x is Assign || x is Cond || x is Sequence,
    ensures
        final(w).buf@ == old(w).buf@ + emit(expr_form(), expr_tree(*x)),
        clean(expr_tree(*x)) ==> fits(expr_form(), expr_tree(*x)),
    decreases size(expr_tree(*x)), 0nat,
{
    let ghost start = w.buf@;
    match x {
        Expr::Unary { op, arg } => {
            proof {
                assert(shape(Symbol::Expr, 18) == Some(seq![Form::Operator, expr_form()])) by { reveal(shape); reveal(stmt_shape); reveal(expr_shape); }
                emit_node_2(Symbol::Expr, 18, Form::Operator, Tree::Operator((*op)@), expr_form(), expr_tree(**arg));
            }
            w.u8(18);
            w.operator(*op);
            enc_expr(w, arg);
            assert(w.buf@ =~= start + emit(expr_form(), expr_tree(*x)));
        },
        Expr::Update { op, prefix, arg } => {
            proof {
                assert(shape(Symbol::Expr, 19) == Some(seq![Form::Operator, Form::Bool, expr_form()])) by { reveal(shape); reveal(stmt_shape); reveal(expr_shape); }
                emit_node_3(Symbol::Expr, 19, Form::Operator, Tree::Operator((*op)@), Form::Bool, Tree::Bool(*prefix), expr_form(), expr_tree(**arg));
            }
            w.u8(19);
            w.operator(*op);
            w.bool(*prefix);
            enc_expr(w, arg);
            assert(w.buf@ =~= start + emit(expr_form(), expr_tree(*x)));
        },
        Expr::Binary { op, left, right } => {
            proof {
                assert(shape(Symbol::Expr, 20) == Some(seq![Form::Operator, expr_form(), expr_form()])) by { reveal(shape); reveal(stmt_shape); reveal(expr_shape); }
                emit_node_3(Symbol::Expr, 20, Form::Operator, Tree::Operator((*op)@), expr_form(), expr_tree(**left), expr_form(), expr_tree(**right));
            }
            w.u8(20);
            w.operator(*op);
            enc_expr(w, left);
            enc_expr(w, right);
            assert(w.buf@ =~= start + emit(expr_form(), expr_tree(*x)));
        },
        Expr::Logical { op, left, right } => {
            proof {
                assert(shape(Symbol::Expr, 21) == Some(seq![Form::Operator, expr_form(), expr_form()])) by { reveal(shape); reveal(stmt_shape); reveal(expr_shape); }
                emit_node_3(Symbol::Expr, 21, Form::Operator, Tree::Operator((*op)@), expr_form(), expr_tree(**left), expr_form(), expr_tree(**right));
            }
            w.u8(21);
            w.operator(*op);
            enc_expr(w, left);
            enc_expr(w, right);
            assert(w.buf@ =~= start + emit(expr_form(), expr_tree(*x)));
        },
        Expr::Assign { op, target, value } => {
            proof {
                assert(shape(Symbol::Expr, 22) == Some(seq![Form::Operator, expr_form(), expr_form()])) by { reveal(shape); reveal(stmt_shape); reveal(expr_shape); }
                emit_node_3(Symbol::Expr, 22, Form::Operator, Tree::Operator((*op)@), expr_form(), expr_tree(**target), expr_form(), expr_tree(**value));
            }
            w.u8(22);
            w.operator(*op);
            enc_expr(w, target);
            enc_expr(w, value);
            assert(w.buf@ =~= start + emit(expr_form(), expr_tree(*x)));
        },
        Expr::Cond { test, cons, alt } => {
            proof {
                assert(shape(Symbol::Expr, 23) == Some(seq![expr_form(), expr_form(), expr_form()])) by { reveal(shape); reveal(stmt_shape); reveal(expr_shape); }
                emit_node_3(Symbol::Expr, 23, expr_form(), expr_tree(**test), expr_form(), expr_tree(**cons), expr_form(), expr_tree(**alt));
            }
            w.u8(23);
            enc_expr(w, test);
            enc_expr(w, cons);
            enc_expr(w, alt);
            assert(w.buf@ =~= start + emit(expr_form(), expr_tree(*x)));
        },
        Expr::Sequence(exprs) => {
            proof {
                assert(shape(Symbol::Expr, 28) == Some(seq![list(expr_form())])) by { reveal(shape); reveal(stmt_shape); reveal(expr_shape); }
                emit_node_1(Symbol::Expr, 28, list(expr_form()), Tree::List(expr_trees(exprs@)));
            }
            w.u8(28);
            enc_exprs(w, exprs);
            assert(w.buf@ =~= start + emit(expr_form(), expr_tree(*x)));
        },
        _ => {},
    }
}

/// Writes a call or an access.
#[verifier::spinoff_prover]
fn enc_access_expr(w: &mut Writer, x: &Expr)
    requires
        x is Call || x is New || x is Member || x is Index || x is OptionalChain || x is PrivateIn,
    ensures
        final(w).buf@ == old(w).buf@ + emit(expr_form(), expr_tree(*x)),
        clean(expr_tree(*x)) ==> fits(expr_form(), expr_tree(*x)),
    decreases size(expr_tree(*x)), 0nat,
{
    let ghost start = w.buf@;
    match x {
        Expr::Call { callee, args, optional } => {
            proof {
                assert(shape(Symbol::Expr, 24) == Some(seq![expr_form(), list(Form::Node(Symbol::ArrayElem)), Form::Bool])) by { reveal(shape); reveal(stmt_shape); reveal(expr_shape); }
                emit_node_3(Symbol::Expr, 24, expr_form(), expr_tree(**callee), list(Form::Node(Symbol::ArrayElem)), Tree::List(elem_trees(args@)), Form::Bool, Tree::Bool(*optional));
            }
            w.u8(24);
            enc_expr(w, callee);
            enc_array_elems(w, args);
            w.bool(*optional);
            assert(w.buf@ =~= start + emit(expr_form(), expr_tree(*x)));
        },
        Expr::New { callee, args } => {
            proof {
                assert(shape(Symbol::Expr, 25) == Some(seq![expr_form(), list(Form::Node(Symbol::ArrayElem))])) by { reveal(shape); reveal(stmt_shape); reveal(expr_shape); }
                emit_node_2(Symbol::Expr, 25, expr_form(), expr_tree(**callee), list(Form::Node(Symbol::ArrayElem)), Tree::List(elem_trees(args@)));
            }
            w.u8(25);
            enc_expr(w, callee);
            enc_array_elems(w, args);
            assert(w.buf@ =~= start + emit(expr_form(), expr_tree(*x)));
        },
        Expr::Member { obj, prop, optional } => {
            proof {
                assert(shape(Symbol::Expr, 26) == Some(seq![expr_form(), Form::Text, Form::Bool])) by { reveal(shape); reveal(stmt_shape); reveal(expr_shape); }
                emit_node_3(Symbol::Expr, 26, expr_form(), expr_tree(**obj), Form::Text, text(*prop), Form::Bool, Tree::Bool(*optional));
            }
            w.u8(26);
            enc_expr(w, obj);
            w.str(prop.as_str());
            w.bool(*optional);
            assert(w.buf@ =~= start + emit(expr_form(), expr_tree(*x)));
        },
        Expr::Index { obj, index, optional } => {
            proof {
                assert(shape(Symbol::Expr, 27) == Some(seq![expr_form(), expr_form(), Form::Bool])) by { reveal(shape); reveal(stmt_shape); reveal(expr_shape); }
                emit_node_3(Symbol::Expr, 27, expr_form(), expr_tree(**obj), expr_form(), expr_tree(**index), Form::Bool, Tree::Bool(*optional));
            }
            w.u8(27);
            enc_expr(w, obj);
            enc_expr(w, index);
            w.bool(*optional);
            assert(w.buf@ =~= start + emit(expr_form(), expr_tree(*x)));
        },
        Expr::OptionalChain(e) => {
            proof {
                assert(shape(Symbol::Expr, 30) == Some(seq![expr_form()])) by { reveal(shape); reveal(stmt_shape); reveal(expr_shape); }
                emit_node_1(Symbol::Expr, 30, expr_form(), expr_tree(**e));
            }
            w.u8(30);
            enc_expr(w, e);
            assert(w.buf@ =~= start + emit(expr_form(), expr_tree(*x)));
        },
        Expr::PrivateIn { name, obj } => {
            proof {
                assert(shape(Symbol::Expr, 31) == Some(seq![Form::Text, expr_form()])) by { reveal(shape); reveal(stmt_shape); reveal(expr_shape); }
                emit_node_2(Symbol::Expr, 31, Form::Text, text(*name), expr_form(), expr_tree(**obj));
            }
            w.u8(31);
            w.str(name.as_str());
            enc_expr(w, obj);
            assert(w.buf@ =~= start + emit(expr_form(), expr_tree(*x)));
        },
        _ => {},
    }
}

/// Writes an expression round another.
#[verifier::spinoff_prover]
fn enc_wrapping_expr(w: &mut Writer, x: &Expr)
    requires
        x is Paren || x is ToStr || x is Yield || x is Await,
    ensures
        final(w).buf@ == old(w).buf@ + emit(expr_form(), expr_tree(*x)),
        clean(expr_tree(*x)) ==> fits(expr_form(), expr_tree(*x)),
    decreases size(expr_tree(*x)), 0nat,
{
    let ghost start = w.buf@;
    match x {
        Expr::Paren(e) => {
            proof {
                assert(shape(Symbol::Expr, 0) == Some(seq![expr_form()])) by { reveal(shape); reveal(stmt_shape); reveal(expr_shape); }
                emit_node_1(Symbol::Expr, 0, expr_form(), expr_tree(**e));
            }
            w.u8(0);
            enc_expr(w, e);
            assert(w.buf@ =~= start + emit(expr_form(), expr_tree(*x)));
        },
        Expr::ToStr(e) => {
            proof {
                assert(shape(Symbol::Expr, 4) == Some(seq![expr_form()])) by { reveal(shape); reveal(stmt_shape); reveal(expr_shape); }
                emit_node_1(Symbol::Expr, 4, expr_form(), expr_tree(**e));
            }
            w.u8(4);
            enc_expr(w, e);
            assert(w.buf@ =~= start + emit(expr_form(), expr_tree(*x)));
        },
        Expr::Yield { delegate, arg } => {
            proof {
                assert(shape(Symbol::Expr, 15) == Some(seq![Form::Bool, opt(expr_form())])) by { reveal(shape); reveal(stmt_shape); reveal(expr_shape); }
                emit_node_2(Symbol::Expr, 15, Form::Bool, Tree::Bool(*delegate), opt(expr_form()), opt_boxed_expr(*arg));
            }
            w.u8(15);
            w.bool(*delegate);
            enc_opt_boxed_expr(w, arg);
            assert(w.buf@ =~= start + emit(expr_form(), expr_tree(*x)));
        },
        Expr::Await(e) => {
            proof {
                assert(shape(Symbol::Expr, 16) == Some(seq![expr_form()])) by { reveal(shape); reveal(stmt_shape); reveal(expr_shape); }
                emit_node_1(Symbol::Expr, 16, expr_form(), expr_tree(**e));
            }
            w.u8(16);
            enc_expr(w, e);
            assert(w.buf@ =~= start + emit(expr_form(), expr_tree(*x)));
        },
        _ => {},
    }
}

/// Writes the phase of an `import(..)`.
fn enc_importphase(w: &mut Writer, x: ImportPhase)
    ensures
        final(w).buf@ == old(w).buf@ + emit(Form::Node(Symbol::ImportPhase), import_phase_tree(x)),
        clean(import_phase_tree(x)) ==> fits(Form::Node(Symbol::ImportPhase), import_phase_tree(x)),
{
    let tag: u8 = match x {
        ImportPhase::Evaluation => 0,
        ImportPhase::Source => 1,
        ImportPhase::Defer => 2,
    };
    proof {
        assert(shape(Symbol::ImportPhase, tag as nat) == Some(Seq::<Form>::empty())) by { reveal(shape); }
        emit_node_0(Symbol::ImportPhase, tag as nat);
    }
    w.u8(tag);
    assert(w.buf@ =~= old(w).buf@ + emit(Form::Node(Symbol::ImportPhase), import_phase_tree(x)));
}

/// Writes a piece of a template.
fn enc_quasi(w: &mut Writer, x: &(Option<String>, String))
    ensures
        final(w).buf@ == old(w).buf@ + emit(quasi_form(), quasi_tree(*x)),
        clean(quasi_tree(*x)) ==> fits(quasi_form(), quasi_tree(*x)),
{
    let ghost start = w.buf@;
    proof {
        reveal(quasi_form);
        emit_tuple_2(opt(Form::Text), opt_text(x.0), Form::Text, text(x.1));
    }
    enc_opt_str(w, &x.0);
    w.str(x.1.as_str());
    assert(w.buf@ =~= start + emit(quasi_form(), quasi_tree(*x)));
}

/// Writes an element of an array or an argument.
fn enc_array_elem(w: &mut Writer, x: &ArrayElem)
    ensures
        final(w).buf@ == old(w).buf@ + emit(Form::Node(Symbol::ArrayElem), elem_tree(*x)),
        clean(elem_tree(*x)) ==> fits(Form::Node(Symbol::ArrayElem), elem_tree(*x)),
    decreases size(elem_tree(*x)), 1nat,
{
    let ghost start = w.buf@;
    match x {
        ArrayElem::Item(e) => {
            proof {
                assert(shape(Symbol::ArrayElem, 0) == Some(seq![expr_form()])) by { reveal(shape); reveal(stmt_shape); reveal(expr_shape); }
                emit_node_1(Symbol::ArrayElem, 0, expr_form(), expr_tree(*e));
            }
            w.u8(0);
            enc_expr(w, e);
            assert(w.buf@ =~= start + emit(Form::Node(Symbol::ArrayElem), elem_tree(*x)));
        },
        ArrayElem::Spread(e) => {
            proof {
                assert(shape(Symbol::ArrayElem, 1) == Some(seq![expr_form()])) by { reveal(shape); reveal(stmt_shape); reveal(expr_shape); }
                emit_node_1(Symbol::ArrayElem, 1, expr_form(), expr_tree(*e));
            }
            w.u8(1);
            enc_expr(w, e);
            assert(w.buf@ =~= start + emit(Form::Node(Symbol::ArrayElem), elem_tree(*x)));
        },
        ArrayElem::Hole => {
            proof {
                assert(shape(Symbol::ArrayElem, 2) == Some(Seq::<Form>::empty())) by { reveal(shape); reveal(stmt_shape); reveal(expr_shape); }
                emit_node_0(Symbol::ArrayElem, 2);
            }
            w.u8(2);
            assert(w.buf@ =~= start + emit(Form::Node(Symbol::ArrayElem), elem_tree(*x)));
        },
    }
}

/// Writes a property of an object literal.
fn enc_propdef(w: &mut Writer, x: &PropDef)
    ensures
        final(w).buf@ == old(w).buf@ + emit(Form::Node(Symbol::PropDef), prop_def_tree(*x)),
        clean(prop_def_tree(*x)) ==> fits(Form::Node(Symbol::PropDef), prop_def_tree(*x)),
    decreases size(prop_def_tree(*x)), 1nat,
{
    let ghost start = w.buf@;
    match x {
        PropDef::KeyValue { key, value } => {
            proof {
                assert(shape(Symbol::PropDef, 0) == Some(seq![key_form(), expr_form()])) by { reveal(shape); reveal(stmt_shape); reveal(expr_shape); }
                emit_node_2(Symbol::PropDef, 0, key_form(), prop_key_tree(*key), expr_form(), expr_tree(*value));
            }
            w.u8(0);
            enc_propkey(w, key);
            enc_expr(w, value);
            assert(w.buf@ =~= start + emit(Form::Node(Symbol::PropDef), prop_def_tree(*x)));
        },
        PropDef::Cover { key, value } => {
            proof {
                assert(shape(Symbol::PropDef, 1) == Some(seq![key_form(), expr_form()])) by { reveal(shape); reveal(stmt_shape); reveal(expr_shape); }
                emit_node_2(Symbol::PropDef, 1, key_form(), prop_key_tree(*key), expr_form(), expr_tree(*value));
            }
            w.u8(1);
            enc_propkey(w, key);
            enc_expr(w, value);
            assert(w.buf@ =~= start + emit(Form::Node(Symbol::PropDef), prop_def_tree(*x)));
        },
        PropDef::Method { key, func } => {
            proof {
                assert(shape(Symbol::PropDef, 2) == Some(seq![key_form(), function_form()])) by { reveal(shape); reveal(stmt_shape); reveal(expr_shape); }
                emit_node_2(Symbol::PropDef, 2, key_form(), prop_key_tree(*key), function_form(), function_tree(&**func));
            }
            w.u8(2);
            enc_propkey(w, key);
            enc_function(w, func);
            assert(w.buf@ =~= start + emit(Form::Node(Symbol::PropDef), prop_def_tree(*x)));
        },
        PropDef::Getter { key, func } => {
            proof {
                assert(shape(Symbol::PropDef, 3) == Some(seq![key_form(), function_form()])) by { reveal(shape); reveal(stmt_shape); reveal(expr_shape); }
                emit_node_2(Symbol::PropDef, 3, key_form(), prop_key_tree(*key), function_form(), function_tree(&**func));
            }
            w.u8(3);
            enc_propkey(w, key);
            enc_function(w, func);
            assert(w.buf@ =~= start + emit(Form::Node(Symbol::PropDef), prop_def_tree(*x)));
        },
        PropDef::Setter { key, func } => {
            proof {
                assert(shape(Symbol::PropDef, 4) == Some(seq![key_form(), function_form()])) by { reveal(shape); reveal(stmt_shape); reveal(expr_shape); }
                emit_node_2(Symbol::PropDef, 4, key_form(), prop_key_tree(*key), function_form(), function_tree(&**func));
            }
            w.u8(4);
            enc_propkey(w, key);
            enc_function(w, func);
            assert(w.buf@ =~= start + emit(Form::Node(Symbol::PropDef), prop_def_tree(*x)));
        },
        PropDef::Spread(e) => {
            proof {
                assert(shape(Symbol::PropDef, 5) == Some(seq![expr_form()])) by { reveal(shape); reveal(stmt_shape); reveal(expr_shape); }
                emit_node_1(Symbol::PropDef, 5, expr_form(), expr_tree(*e));
            }
            w.u8(5);
            enc_expr(w, e);
            assert(w.buf@ =~= start + emit(Form::Node(Symbol::PropDef), prop_def_tree(*x)));
        },
        PropDef::Proto(e) => {
            proof {
                assert(shape(Symbol::PropDef, 6) == Some(seq![expr_form()])) by { reveal(shape); reveal(stmt_shape); reveal(expr_shape); }
                emit_node_1(Symbol::PropDef, 6, expr_form(), expr_tree(*e));
            }
            w.u8(6);
            enc_expr(w, e);
            assert(w.buf@ =~= start + emit(Form::Node(Symbol::PropDef), prop_def_tree(*x)));
        },
    }
}

/// Writes a property key.
fn enc_propkey(w: &mut Writer, x: &PropKey)
    ensures
        final(w).buf@ == old(w).buf@ + emit(key_form(), prop_key_tree(*x)),
        clean(prop_key_tree(*x)) ==> fits(key_form(), prop_key_tree(*x)),
    decreases size(prop_key_tree(*x)), 1nat,
{
    let ghost start = w.buf@;
    match x {
        PropKey::Ident(n) => {
            proof {
                assert(shape(Symbol::PropKey, 0) == Some(seq![Form::Text])) by { reveal(shape); reveal(stmt_shape); reveal(expr_shape); }
                emit_node_1(Symbol::PropKey, 0, Form::Text, text(*n));
            }
            w.u8(0);
            w.str(n.as_str());
            assert(w.buf@ =~= start + emit(key_form(), prop_key_tree(*x)));
        },
        PropKey::Str(s) => {
            proof {
                assert(shape(Symbol::PropKey, 1) == Some(seq![Form::Text])) by { reveal(shape); reveal(stmt_shape); reveal(expr_shape); }
                emit_node_1(Symbol::PropKey, 1, Form::Text, text(*s));
            }
            w.u8(1);
            w.str(s.as_str());
            assert(w.buf@ =~= start + emit(key_form(), prop_key_tree(*x)));
        },
        PropKey::Num(n) => {
            proof {
                assert(shape(Symbol::PropKey, 2) == Some(seq![Form::Double])) by { reveal(shape); reveal(stmt_shape); reveal(expr_shape); }
                emit_node_1(Symbol::PropKey, 2, Form::Double, Tree::Bits(*n));
            }
            w.u8(2);
            w.double(*n);
            assert(w.buf@ =~= start + emit(key_form(), prop_key_tree(*x)));
        },
        PropKey::Computed(e) => {
            proof {
                assert(shape(Symbol::PropKey, 3) == Some(seq![expr_form()])) by { reveal(shape); reveal(stmt_shape); reveal(expr_shape); }
                emit_node_1(Symbol::PropKey, 3, expr_form(), expr_tree(*e));
            }
            w.u8(3);
            enc_expr(w, e);
            assert(w.buf@ =~= start + emit(key_form(), prop_key_tree(*x)));
        },
    }
}

// ---- patterns, functions and classes ------------------------------------------------------------

/// Writes a pattern.
fn enc_pattern(w: &mut Writer, x: &Pattern)
    ensures
        final(w).buf@ == old(w).buf@ + emit(pattern_form(), pattern_tree(*x)),
        clean(pattern_tree(*x)) ==> fits(pattern_form(), pattern_tree(*x)),
    decreases size(pattern_tree(*x)), 1nat,
{
    let ghost start = w.buf@;
    match x {
        Pattern::Ident(n) => {
            proof {
                assert(shape(Symbol::Pattern, 0) == Some(seq![Form::Text])) by { reveal(shape); reveal(stmt_shape); reveal(expr_shape); }
                emit_node_1(Symbol::Pattern, 0, Form::Text, text(*n));
            }
            w.u8(0);
            w.str(n.as_str());
            assert(w.buf@ =~= start + emit(pattern_form(), pattern_tree(*x)));
        },
        Pattern::Array(elems) => {
            proof {
                assert(shape(Symbol::Pattern, 1) == Some(seq![list(Form::Node(Symbol::ArrayPatElem))])) by { reveal(shape); reveal(stmt_shape); reveal(expr_shape); }
                emit_node_1(Symbol::Pattern, 1, list(Form::Node(Symbol::ArrayPatElem)), Tree::List(pat_elem_trees(elems@)));
            }
            w.u8(1);
            enc_patelems(w, elems);
            assert(w.buf@ =~= start + emit(pattern_form(), pattern_tree(*x)));
        },
        Pattern::Object(p) => {
            proof {
                assert(shape(Symbol::Pattern, 2) == Some(seq![list(pat_prop_form()), opt(Form::Text)])) by { reveal(shape); }
                emit_node_2(Symbol::Pattern, 2, list(pat_prop_form()), Tree::List(pat_prop_trees(p.props@)), opt(Form::Text), opt_text(p.rest));
            }
            w.u8(2);
            enc_patprops(w, &p.props);
            enc_opt_str(w, &p.rest);
            assert(w.buf@ =~= start + emit(pattern_form(), pattern_tree(*x)));
        },
        Pattern::Member(e) => {
            proof {
                assert(shape(Symbol::Pattern, 3) == Some(seq![expr_form()])) by { reveal(shape); reveal(stmt_shape); reveal(expr_shape); }
                emit_node_1(Symbol::Pattern, 3, expr_form(), expr_tree(**e));
            }
            w.u8(3);
            enc_expr(w, e);
            assert(w.buf@ =~= start + emit(pattern_form(), pattern_tree(*x)));
        },
    }
}

/// Writes an element of an array pattern.
fn enc_patelem(w: &mut Writer, x: &ArrayPatElem)
    ensures
        final(w).buf@ == old(w).buf@ + emit(Form::Node(Symbol::ArrayPatElem), pat_elem_tree(*x)),
        clean(pat_elem_tree(*x)) ==> fits(Form::Node(Symbol::ArrayPatElem), pat_elem_tree(*x)),
    decreases size(pat_elem_tree(*x)), 1nat,
{
    let ghost start = w.buf@;
    match x {
        ArrayPatElem::Hole => {
            proof {
                assert(shape(Symbol::ArrayPatElem, 0) == Some(Seq::<Form>::empty())) by { reveal(shape); reveal(stmt_shape); reveal(expr_shape); }
                emit_node_0(Symbol::ArrayPatElem, 0);
            }
            w.u8(0);
            assert(w.buf@ =~= start + emit(Form::Node(Symbol::ArrayPatElem), pat_elem_tree(*x)));
        },
        ArrayPatElem::Elem { pattern, default } => {
            proof {
                assert(shape(Symbol::ArrayPatElem, 1) == Some(seq![pattern_form(), opt(expr_form())])) by { reveal(shape); reveal(stmt_shape); reveal(expr_shape); }
                emit_node_2(Symbol::ArrayPatElem, 1, pattern_form(), pattern_tree(*pattern), opt(expr_form()), opt_expr(*default));
            }
            w.u8(1);
            enc_pattern(w, pattern);
            enc_opt_expr(w, default);
            assert(w.buf@ =~= start + emit(Form::Node(Symbol::ArrayPatElem), pat_elem_tree(*x)));
        },
        ArrayPatElem::Rest(p) => {
            proof {
                assert(shape(Symbol::ArrayPatElem, 2) == Some(seq![pattern_form()])) by { reveal(shape); reveal(stmt_shape); reveal(expr_shape); }
                emit_node_1(Symbol::ArrayPatElem, 2, pattern_form(), pattern_tree(*p));
            }
            w.u8(2);
            enc_pattern(w, p);
            assert(w.buf@ =~= start + emit(Form::Node(Symbol::ArrayPatElem), pat_elem_tree(*x)));
        },
    }
}

/// Writes a property of an object pattern.
fn enc_patprop(w: &mut Writer, x: &ObjPatProp)
    ensures
        final(w).buf@ == old(w).buf@ + emit(pat_prop_form(), pat_prop_tree(*x)),
        clean(pat_prop_tree(*x)) ==> fits(pat_prop_form(), pat_prop_tree(*x)),
    decreases size(pat_prop_tree(*x)), 1nat,
{
    let ghost start = w.buf@;
    proof {
        reveal(pat_prop_form);
        emit_tuple_3(key_form(), prop_key_tree(x.key), pattern_form(), pattern_tree(x.value), opt(expr_form()), opt_expr(x.default));
    }
    enc_propkey(w, &x.key);
    enc_pattern(w, &x.value);
    enc_opt_expr(w, &x.default);
    assert(w.buf@ =~= start + emit(pat_prop_form(), pat_prop_tree(*x)));
}

/// Writes a parameter.
fn enc_param(w: &mut Writer, x: &Param)
    ensures
        final(w).buf@ == old(w).buf@ + emit(param_form(), param_tree(*x)),
        clean(param_tree(*x)) ==> fits(param_form(), param_tree(*x)),
    decreases size(param_tree(*x)), 1nat,
{
    let ghost start = w.buf@;
    proof {
        reveal(param_form);
        emit_tuple_3(pattern_form(), pattern_tree(x.pattern), opt(expr_form()), opt_expr(x.default), Form::Bool, Tree::Bool(x.rest));
    }
    enc_pattern(w, &x.pattern);
    enc_opt_expr(w, &x.default);
    w.bool(x.rest);
    assert(w.buf@ =~= start + emit(param_form(), param_tree(*x)));
}

/// Writes a function. Its switches go into one byte.
fn enc_function(w: &mut Writer, x: &Function)
    ensures
        final(w).buf@ == old(w).buf@ + emit(function_form(), function_tree(x)),
        clean(function_tree(x)) ==> fits(function_form(), function_tree(x)),
    decreases size(function_tree(x)), 1nat,
{
    let ghost start = w.buf@;
    proof {
        reveal(function_form);
        emit_tuple_5(opt(Form::Text), opt_text(x.name), list(param_form()), Tree::List(param_trees(x.params@)), list(stmt_form()), Tree::List(stmt_trees(x.body@)), Form::Flags, Tree::Flags(function_flags(x)), opt(Form::Text), opt_text(x.source));
        emit_leaf(false, 0, seq![], 0, function_flags(x));
    }
    enc_opt_str(w, &x.name);
    enc_params(w, &x.params);
    enc_stmts(w, &x.body);
    w.u8(flag_byte(x));
    enc_opt_str(w, &x.source);
    assert(w.buf@ =~= start + emit(function_form(), function_tree(x)));
}

/// A function's switches in one byte.
fn flag_byte(f: &Function) -> (r: u8)
    ensures
        r as nat == function_flags(f),
        r < 128,
{
    let mut flags: u8 = 0;
    if f.is_arrow {
        flags = flags + 1;
    }
    if f.is_strict {
        flags = flags + 2;
    }
    if f.expr_body {
        flags = flags + 4;
    }
    if f.is_generator {
        flags = flags + 8;
    }
    if f.is_async {
        flags = flags + 16;
    }
    if f.is_method {
        flags = flags + 32;
    }
    if f.is_fn_expr {
        flags = flags + 64;
    }
    flags
}

/// Writes a class.
fn enc_class(w: &mut Writer, x: &Class)
    ensures
        final(w).buf@ == old(w).buf@ + emit(class_form(), class_tree(x)),
        clean(class_tree(x)) ==> fits(class_form(), class_tree(x)),
    decreases size(class_tree(x)), 1nat,
{
    let ghost start = w.buf@;
    proof {
        reveal(class_form);
        emit_tuple_5(opt(Form::Text), opt_text(x.name), opt(expr_form()), opt_boxed_expr(x.superclass), list(member_form()), Tree::List(member_trees(x.members@)), list(expr_form()), Tree::List(expr_trees(x.decorators@)), opt(Form::Text), opt_text(x.source));
    }
    enc_opt_str(w, &x.name);
    enc_opt_boxed_expr(w, &x.superclass);
    enc_members(w, &x.members);
    enc_exprs(w, &x.decorators);
    enc_opt_str(w, &x.source);
    assert(w.buf@ =~= start + emit(class_form(), class_tree(x)));
}

/// Writes a class member.
fn enc_member(w: &mut Writer, x: &ClassMember)
    ensures
        final(w).buf@ == old(w).buf@ + emit(member_form(), member_tree(*x)),
        clean(member_tree(*x)) ==> fits(member_form(), member_tree(*x)),
    decreases size(member_tree(*x)), 1nat,
{
    let ghost start = w.buf@;
    proof {
        reveal(member_form);
        emit_tuple_6(key_form(), prop_key_tree(x.key), Form::Node(Symbol::MemberKind), member_kind_tree(x.kind), Form::Bool, Tree::Bool(x.is_static), opt(function_form()), opt_function(x.func), opt(expr_form()), opt_expr(x.value), list(expr_form()), Tree::List(expr_trees(x.decorators@)));
    }
    enc_propkey(w, &x.key);
    enc_memberkind(w, x.kind);
    w.bool(x.is_static);
    enc_opt_function(w, &x.func);
    enc_opt_expr(w, &x.value);
    enc_exprs(w, &x.decorators);
    assert(w.buf@ =~= start + emit(member_form(), member_tree(*x)));
}

/// Writes the kind of a class member.
fn enc_memberkind(w: &mut Writer, x: MemberKind)
    ensures
        final(w).buf@ == old(w).buf@ + emit(Form::Node(Symbol::MemberKind), member_kind_tree(x)),
        clean(member_kind_tree(x)) ==> fits(Form::Node(Symbol::MemberKind), member_kind_tree(x)),
{
    let tag: u8 = match x {
        MemberKind::Constructor => 0,
        MemberKind::Method => 1,
        MemberKind::Getter => 2,
        MemberKind::Setter => 3,
        MemberKind::Field => 4,
        MemberKind::Accessor => 5,
        MemberKind::StaticBlock => 6,
    };
    proof {
        assert(shape(Symbol::MemberKind, tag as nat) == Some(Seq::<Form>::empty())) by { reveal(shape); }
        emit_node_0(Symbol::MemberKind, tag as nat);
    }
    w.u8(tag);
    assert(w.buf@ =~= old(w).buf@ + emit(Form::Node(Symbol::MemberKind), member_kind_tree(x)));
}

} // verus!
