//! Reading a syntax tree back from bytes.
use std::rc::Rc;
use vstd::prelude::*;

use crate::ast::{ArrayElem, ArrayPatElem, Class, ClassMember, DeclKind, ExportSpec, Expr, ForInit, Function, ImportDecl, ImportPhase, ImportSpec, MemberKind, ObjPatProp, ObjectPat, Param, Pattern, PropDef, PropKey, Stmt, SwitchCase};
use crate::bigint::{JsBigInt, power};
use crate::grammar::{Fault, Form, Read, Symbol, bytes_value, case_form, class_form, decl_form, export_form, expr_form, expr_shape, function_form, handler_form, key_form, list, member_form, opt, param_form, parse, parse_leaf, parse_list, parse_list_step, parse_list_whole, parse_node, parse_node_0, parse_node_1, parse_node_2, parse_node_3, parse_node_4, parse_node_6, parse_opt, parse_tuple_2, parse_tuple_3, parse_tuple_5, parse_tuple_6, pat_prop_form, pattern_form, quasi_form, read_groups, read_text, read_varint, shape, stmt_form, stmt_shape, varint};
use crate::text::{debug_string, debug_text, decimal, decimal_string, join, string_from_utf8};
use crate::token::{is_spelling, spelling};
use crate::tree::{Tree, case_tree, case_trees, class_tree, decl_kind_tree, decl_tree, decl_trees, elem_tree, elem_trees, export_spec_tree, export_specs, expr_tree, expr_trees, for_init_tree, function_flags, function_tree, handler_tree, import_phase_tree, import_spec_tree, import_specs, member_kind_tree, member_tree, member_trees, opt_boxed_expr, opt_boxed_stmt, opt_decl_kind, opt_expr, opt_for_init, opt_function, opt_handler, opt_pattern, opt_stmts, opt_text, param_tree, param_trees, pat_elem_tree, pat_elem_trees, pat_prop_tree, pat_prop_trees, pattern_tree, prop_def_tree, prop_def_trees, prop_key_tree, quasi_tree, quasis, stmt_tree, stmt_trees, text};

verus! {

// ---- errors -----------------------------------------------------------------------------------

/// What is wrong with a snapshot.
pub(crate) enum SnapshotError {
    Truncated,
    TruncatedDouble,
    TruncatedText,
    Overflow,
    BadUtf8,
    BadInteger,
    UnknownOperator(String),
    BadTag(Symbol, u8),
    BadMagic,
    BadVersion,
}

/// How messages name a kind of node that has no such tag.
pub open spec fn tag_message(symbol: Symbol) -> Seq<char> {
    match symbol {
        Symbol::Stmt => "snapshot: bad Stmt tag "@,
        Symbol::Expr => "snapshot: bad Expr tag "@,
        Symbol::ArrayElem => "snapshot: bad ArrayElem "@,
        Symbol::PropDef => "snapshot: bad PropDef "@,
        Symbol::PropKey => "snapshot: bad PropKey "@,
        Symbol::Pattern => "snapshot: bad Pattern "@,
        Symbol::ArrayPatElem => "snapshot: bad ArrayPatElem "@,
        Symbol::ForInit => "snapshot: bad ForInit "@,
        Symbol::ImportSpec => "snapshot: bad ImportSpec "@,
        Symbol::DeclKind => "snapshot: bad DeclKind "@,
        Symbol::MemberKind => "snapshot: bad MemberKind "@,
        Symbol::ImportPhase => "snapshot: bad ImportPhase "@,
    }
}

/// The message for a fault.
pub open spec fn fault_message(f: Fault) -> Seq<char> {
    match f {
        Fault::Truncated => "snapshot: truncated"@,
        Fault::TruncatedDouble => "snapshot: truncated f64"@,
        Fault::TruncatedText => "snapshot: truncated str"@,
        Fault::Overflow => "snapshot: varint overflow"@,
        Fault::BadUtf8 => "snapshot: bad utf8"@,
        Fault::BadInteger => "snapshot: bad bigint"@,
        Fault::UnknownOperator(s) => "snapshot: unknown operator "@ + debug_text(s),
        Fault::BadTag(symbol, tag) => tag_message(symbol) + decimal(tag as nat),
        Fault::BadMagic => "snapshot: bad magic"@,
        Fault::BadVersion => "snapshot: version mismatch"@,
    }
}

impl SnapshotError {
    pub(crate) open spec fn fault(self) -> Fault {
        match self {
            SnapshotError::Truncated => Fault::Truncated,
            SnapshotError::TruncatedDouble => Fault::TruncatedDouble,
            SnapshotError::TruncatedText => Fault::TruncatedText,
            SnapshotError::Overflow => Fault::Overflow,
            SnapshotError::BadUtf8 => Fault::BadUtf8,
            SnapshotError::BadInteger => Fault::BadInteger,
            SnapshotError::UnknownOperator(s) => Fault::UnknownOperator(s@),
            SnapshotError::BadTag(symbol, tag) => Fault::BadTag(symbol, tag),
            SnapshotError::BadMagic => Fault::BadMagic,
            SnapshotError::BadVersion => Fault::BadVersion,
        }
    }

    pub(crate) fn message(self) -> (r: String)
        ensures
            r@ == fault_message(self.fault()),
    {
        match self {
            SnapshotError::Truncated => "snapshot: truncated".to_owned(),
            SnapshotError::TruncatedDouble => "snapshot: truncated f64".to_owned(),
            SnapshotError::TruncatedText => "snapshot: truncated str".to_owned(),
            SnapshotError::Overflow => "snapshot: varint overflow".to_owned(),
            SnapshotError::BadUtf8 => "snapshot: bad utf8".to_owned(),
            SnapshotError::BadInteger => "snapshot: bad bigint".to_owned(),
            SnapshotError::UnknownOperator(s) => join(
                "snapshot: unknown operator ",
                debug_string(s.as_str()).as_str(),
            ),
            SnapshotError::BadTag(symbol, tag) => {
                let number = decimal_string(tag as u64);
                let n = number.as_str();
                match symbol {
                    Symbol::Stmt => join("snapshot: bad Stmt tag ", n),
                    Symbol::Expr => join("snapshot: bad Expr tag ", n),
                    Symbol::ArrayElem => join("snapshot: bad ArrayElem ", n),
                    Symbol::PropDef => join("snapshot: bad PropDef ", n),
                    Symbol::PropKey => join("snapshot: bad PropKey ", n),
                    Symbol::Pattern => join("snapshot: bad Pattern ", n),
                    Symbol::ArrayPatElem => join("snapshot: bad ArrayPatElem ", n),
                    Symbol::ForInit => join("snapshot: bad ForInit ", n),
                    Symbol::ImportSpec => join("snapshot: bad ImportSpec ", n),
                    Symbol::DeclKind => join("snapshot: bad DeclKind ", n),
                    Symbol::MemberKind => join("snapshot: bad MemberKind ", n),
                    Symbol::ImportPhase => join("snapshot: bad ImportPhase ", n),
                }
            },
            SnapshotError::BadMagic => "snapshot: bad magic".to_owned(),
            SnapshotError::BadVersion => "snapshot: version mismatch".to_owned(),
        }
    }
}


// ---- reader -----------------------------------------------------------------------------------

/// A place in a run of bytes.
pub(crate) struct Reader<'a> {
    pub(crate) buf: &'a [u8],
    pub(crate) pos: usize,
}

impl<'a> Reader<'a> {
    pub(crate) open spec fn ok(self) -> bool {
        self.pos <= self.buf@.len()
    }

    /// The bytes that are still to be read.
    pub(crate) open spec fn rest(self) -> Seq<u8> {
        self.buf@.skip(self.pos as int)
    }

    /// Whether this reader stands in the same bytes as another, and no earlier.
    pub(crate) open spec fn follows(self, before: Self) -> bool {
        &&& self.buf@ == before.buf@
        &&& before.pos <= self.pos
        &&& self.ok()
    }

    fn u8(&mut self) -> (r: Result<u8, SnapshotError>)
        requires
            old(self).ok(),
        ensures
            final(self).follows(*old(self)),
            old(self).rest().len() == 0 ==> r == Err::<u8, SnapshotError>(SnapshotError::Truncated),
            old(self).rest().len() > 0 ==> {
                &&& r == Ok::<u8, SnapshotError>(old(self).rest()[0])
                &&& final(self).rest() == old(self).rest().drop_first()
                &&& final(self).pos > old(self).pos
            },
    {
        if self.pos >= self.buf.len() {
            return Err(SnapshotError::Truncated);
        }
        let b = self.buf[self.pos];
        self.pos = self.pos + 1;
        assert(self.rest() =~= old(self).rest().drop_first());
        Ok(b)
    }

    /// Reads a number in seven-bit groups.
    pub(crate) fn uv(&mut self) -> (r: Result<u64, SnapshotError>)
        requires
            old(self).ok(),
        ensures
            final(self).follows(*old(self)),
            match read_varint(old(self).rest()) {
                Read::Good(v, rest) => r == Ok::<u64, SnapshotError>(v) && final(self).rest()
                    == rest && final(self).pos > old(self).pos,
                Read::Bad(f) => r matches Err(e) && e.fault() == f,
            },
    {
        let ghost whole = read_groups(self.rest(), 0);
        let mut value: u64 = 0;
        let mut weight: u64 = 1;
        let mut k: u64 = 0;
        loop
            invariant
                self.follows(*old(self)),
                k > 0 ==> self.pos > old(self).pos,
                k <= 9,
                value < weight,
                weight as nat == power(128, k as nat),
                whole == read_groups(old(self).rest(), 0),
                match read_groups(self.rest(), k as nat) {
                    Read::Good(v, rest) => whole == Read::<nat>::Good(
                        (value + weight * v) as nat,
                        rest,
                    ),
                    Read::Bad(f) => whole == Read::<nat>::Bad(f),
                },
            decreases 9 - k,
        {
            let ghost here = self.rest();
            let byte = match self.u8() {
                Ok(b) => b,
                Err(e) => {
                    return Err(e);
                },
            };
            let low: u64 = (byte % 128) as u64;
            proof {
                lemma_group_weights(k as nat);
            }
            if byte < 128 {
                if k == 9 {
                    let top: u64 = if low % 2 == 1 {
                        weight
                    } else {
                        0
                    };
                    proof {
                        let v = (value + weight * low) as int;
                        assert(weight == 0x8000_0000_0000_0000);
                        assert(low == 2 * (low as int / 2) + low % 2);
                        assert(weight * low == top + 0x1_0000_0000_0000_0000 * (low as int / 2)) by {
                            assert(weight * low == 0x8000_0000_0000_0000 * low) by (nonlinear_arith)
                                requires
                                    weight == 0x8000_0000_0000_0000,
                            ;
                        }
                        assert(v == (value + top) + 0x1_0000_0000_0000_0000 * (low as int / 2));
                        vstd::arithmetic::div_mod::lemma_fundamental_div_mod_converse(
                            v,
                            0x1_0000_0000_0000_0000,
                            low as int / 2,
                            value + top,
                        );
                    }
                    return Ok(value + top);
                }
                assert(weight * low <= 0x100_0000_0000_0000 * 127) by (nonlinear_arith)
                    requires
                        0 <= weight <= 0x100_0000_0000_0000,
                        0 <= low <= 127,
                ;
                return Ok(value + weight * low);
            }
            if k == 9 {
                return Err(SnapshotError::Overflow);
            }
            assert(weight * low <= 0x100_0000_0000_0000 * 127 && value + weight * low < weight * 128)
                by (nonlinear_arith)
                requires
                    1 <= weight <= 0x100_0000_0000_0000,
                    0 <= low <= 127,
                    value < weight,
            ;
            proof {
                match read_groups(self.rest(), (k + 1) as nat) {
                    Read::Good(v, rest) => {
                        assert(value + weight * (low + 128 * v) == (value + weight * low) + (
                        weight * 128) * v) by (nonlinear_arith);
                    },
                    Read::Bad(_) => {},
                }
            }
            value = value + weight * low;
            weight = weight * 128;
            k = k + 1;
        }
    }

    /// Reads the bits of a double.
    fn double(&mut self) -> (r: Result<u64, SnapshotError>)
        requires
            old(self).ok(),
        ensures
            final(self).follows(*old(self)),
            match parse(Form::Double, old(self).rest()) {
                Read::Good(t, rest) => r matches Ok(v) && t == Tree::Bits(v) && final(self).rest()
                    == rest && final(self).pos > old(self).pos,
                Read::Bad(f) => r matches Err(e) && e.fault() == f,
            },
    {
        proof {
            parse_leaf(self.rest());
        }
        if self.buf.len() - self.pos < 8 {
            return Err(SnapshotError::TruncatedDouble);
        }
        let ghost b = self.rest();
        let mut value: u64 = 0;
        let mut i: usize = 8;
        assert(b.take(8).skip(8) =~= Seq::<u8>::empty());
        while i > 0
            invariant
                i <= 8,
                self.pos + 8 <= self.buf.len(),
                self == old(self),
                b == self.rest(),
                value == bytes_value(b.take(8).skip(i as int)),
                value < 0x1_0000_0000_0000_0000,
                i >= 1 ==> value < 0x100_0000_0000_0000,
                i >= 2 ==> value < 0x1_0000_0000_0000,
                i >= 3 ==> value < 0x100_0000_0000,
                i >= 4 ==> value < 0x1_0000_0000,
                i >= 5 ==> value < 0x100_0000,
                i >= 6 ==> value < 0x1_0000,
                i >= 7 ==> value < 0x100,
                i >= 8 ==> value < 1,
            decreases i,
        {
            i = i - 1;
            let byte = self.buf[self.pos + i];
            assert(b.take(8).skip(i as int).drop_first() =~= b.take(8).skip(i as int + 1));
            assert(b.take(8).skip(i as int)[0] == byte);
            value = byte as u64 + 256 * value;
        }
        assert(b.take(8).skip(0) =~= b.take(8));
        self.pos = self.pos + 8;
        assert(self.rest() =~= b.skip(8));
        Ok(value)
    }

    fn bool(&mut self) -> (r: Result<bool, SnapshotError>)
        requires
            old(self).ok(),
        ensures
            final(self).follows(*old(self)),
            match parse(Form::Bool, old(self).rest()) {
                Read::Good(t, rest) => r matches Ok(v) && t == Tree::Bool(v) && final(self).rest()
                    == rest && final(self).pos > old(self).pos,
                Read::Bad(f) => r matches Err(e) && e.fault() == f,
            },
    {
        proof {
            parse_leaf(self.rest());
        }
        let b = self.u8()?;
        Ok(b != 0)
    }

    fn string(&mut self) -> (r: Result<String, SnapshotError>)
        requires
            old(self).ok(),
        ensures
            final(self).follows(*old(self)),
            match read_text(old(self).rest()) {
                Read::Good(s, rest) => r matches Ok(v) && v@ == s && final(self).rest() == rest
                    && final(self).pos > old(self).pos,
                Read::Bad(f) => r matches Err(e) && e.fault() == f,
            },
    {
        let len = self.uv()?;
        if len > (self.buf.len() - self.pos) as u64 {
            return Err(SnapshotError::TruncatedText);
        }
        let n = len as usize;
        let ghost b = self.rest();
        let mut bytes: Vec<u8> = Vec::new();
        let mut i: usize = 0;
        while i < n
            invariant
                i <= n,
                self.pos + n <= self.buf.len(),
                self.follows(*old(self)),
                self.pos > old(self).pos,
                b == self.rest(),
                bytes@ == b.take(i as int),
            decreases n - i,
        {
            bytes.push(self.buf[self.pos + i]);
            i = i + 1;
            assert(bytes@ =~= b.take(i as int));
        }
        self.pos = self.pos + n;
        assert(self.rest() =~= b.skip(n as int));
        match string_from_utf8(bytes) {
            Some(s) => Ok(s),
            None => Err(SnapshotError::BadUtf8),
        }
    }

    fn str(&mut self) -> (r: Result<String, SnapshotError>)
        requires
            old(self).ok(),
        ensures
            final(self).follows(*old(self)),
            match parse(Form::Text, old(self).rest()) {
                Read::Good(t, rest) => r matches Ok(v) && t == text(v) && final(self).rest() == rest
                    && final(self).pos > old(self).pos,
                Read::Bad(f) => r matches Err(e) && e.fault() == f,
            },
    {
        proof {
            parse_leaf(self.rest());
        }
        self.string()
    }

    fn operator(&mut self) -> (r: Result<&'static str, SnapshotError>)
        requires
            old(self).ok(),
        ensures
            final(self).follows(*old(self)),
            match parse(Form::Operator, old(self).rest()) {
                Read::Good(t, rest) => r matches Ok(v) && t == Tree::Operator(v@) && final(self).rest() == rest && final(self).pos > old(self).pos,
                Read::Bad(f) => r matches Err(e) && e.fault() == f,
            },
    {
        proof {
            parse_leaf(self.rest());
        }
        let s = self.string()?;
        intern_op(s)
    }

    fn integer(&mut self) -> (r: Result<JsBigInt, SnapshotError>)
        requires
            old(self).ok(),
        ensures
            final(self).follows(*old(self)),
            match parse(Form::Integer, old(self).rest()) {
                Read::Good(t, rest) => r matches Ok(v) && t == Tree::Integer(v@) && final(self).rest() == rest && final(self).pos > old(self).pos,
                Read::Bad(f) => r matches Err(e) && e.fault() == f,
            },
    {
        proof {
            parse_leaf(self.rest());
        }
        let s = self.string()?;
        match JsBigInt::parse_radix(s.as_str(), 16) {
            Some(v) => Ok(v),
            None => Err(SnapshotError::BadInteger),
        }
    }
}

/// The weights of the ten groups of a number.
proof fn lemma_group_weights(k: nat)
    requires
        k <= 9,
    ensures
        power(128, k + 1) == 128 * power(128, k),
        k == 9 ==> power(128, k) == 0x8000_0000_0000_0000,
        k < 9 ==> 1 <= power(128, k) <= 0x100_0000_0000_0000,
{
    reveal_with_fuel(power, 11);
}

/// The shared copy of an operator that was read.
fn intern_op(s: String) -> (r: Result<&'static str, SnapshotError>)
    ensures
        is_spelling(s@) ==> (r matches Ok(t) && t@ == s@),
        !is_spelling(s@) ==> (r matches Err(e) && e.fault() == Fault::UnknownOperator(s@)),
{
    match spelling(s.as_str()) {
        Some(t) => Ok(t),
        None => Err(SnapshotError::UnknownOperator(s)),
    }
}

// ---- optional pieces and lists -----------------------------------------------------------------

/// Reads a text, if there is one.
fn dec_opt_str(r: &mut Reader) -> (res: Result<Option<String>, SnapshotError>)
    requires
        old(r).ok(),
    ensures
        final(r).follows(*old(r)),
        match parse(opt(Form::Text), old(r).rest()) {
            Read::Good(t, rest) => res matches Ok(v) && t == opt_text(v) && final(r).rest() == rest
                && final(r).pos > old(r).pos,
            Read::Bad(f) => res matches Err(e) && e.fault() == f,
        },
{
    proof {
        parse_opt(Form::Text, r.rest());
    }
    let tag = r.u8()?;
    if tag == 1 {
        let x = r.str()?;
        Ok(Some(x))
    } else {
        Ok(None)
    }
}

/// Reads an expression, if there is one.
fn dec_opt_expr(r: &mut Reader) -> (res: Result<Option<Expr>, SnapshotError>)
    requires
        old(r).ok(),
    ensures
        final(r).follows(*old(r)),
        match parse(opt(expr_form()), old(r).rest()) {
            Read::Good(t, rest) => res matches Ok(v) && t == opt_expr(v) && final(r).rest() == rest
                && final(r).pos > old(r).pos,
            Read::Bad(f) => res matches Err(e) && e.fault() == f,
        },
    decreases old(r).buf@.len() - old(r).pos, 0nat,
{
    proof {
        parse_opt(expr_form(), r.rest());
    }
    let tag = r.u8()?;
    if tag == 1 {
        let x = dec_expr(r)?;
        Ok(Some(x))
    } else {
        Ok(None)
    }
}

/// Reads an expression, if there is one.
fn dec_opt_boxed_expr(r: &mut Reader) -> (res: Result<Option<Box<Expr>>, SnapshotError>)
    requires
        old(r).ok(),
    ensures
        final(r).follows(*old(r)),
        match parse(opt(expr_form()), old(r).rest()) {
            Read::Good(t, rest) => res matches Ok(v) && t == opt_boxed_expr(v) && final(r).rest() == rest
                && final(r).pos > old(r).pos,
            Read::Bad(f) => res matches Err(e) && e.fault() == f,
        },
    decreases old(r).buf@.len() - old(r).pos, 0nat,
{
    proof {
        parse_opt(expr_form(), r.rest());
    }
    let tag = r.u8()?;
    if tag == 1 {
        let x = Box::new(dec_expr(r)?);
        Ok(Some(x))
    } else {
        Ok(None)
    }
}

/// Reads a statement, if there is one.
fn dec_opt_stmt(r: &mut Reader) -> (res: Result<Option<Box<Stmt>>, SnapshotError>)
    requires
        old(r).ok(),
    ensures
        final(r).follows(*old(r)),
        match parse(opt(stmt_form()), old(r).rest()) {
            Read::Good(t, rest) => res matches Ok(v) && t == opt_boxed_stmt(v) && final(r).rest() == rest
                && final(r).pos > old(r).pos,
            Read::Bad(f) => res matches Err(e) && e.fault() == f,
        },
    decreases old(r).buf@.len() - old(r).pos, 0nat,
{
    proof {
        parse_opt(stmt_form(), r.rest());
    }
    let tag = r.u8()?;
    if tag == 1 {
        let x = Box::new(dec_stmt(r)?);
        Ok(Some(x))
    } else {
        Ok(None)
    }
}

/// Reads the first part of a `for`, if there is one.
fn dec_opt_forinit(r: &mut Reader) -> (res: Result<Option<Box<ForInit>>, SnapshotError>)
    requires
        old(r).ok(),
    ensures
        final(r).follows(*old(r)),
        match parse(opt(Form::Node(Symbol::ForInit)), old(r).rest()) {
            Read::Good(t, rest) => res matches Ok(v) && t == opt_for_init(v) && final(r).rest() == rest
                && final(r).pos > old(r).pos,
            Read::Bad(f) => res matches Err(e) && e.fault() == f,
        },
    decreases old(r).buf@.len() - old(r).pos, 0nat,
{
    proof {
        parse_opt(Form::Node(Symbol::ForInit), r.rest());
    }
    let tag = r.u8()?;
    if tag == 1 {
        let x = Box::new(dec_forinit(r)?);
        Ok(Some(x))
    } else {
        Ok(None)
    }
}

/// Reads a declaration keyword, if there is one.
fn dec_opt_declkind(r: &mut Reader) -> (res: Result<Option<DeclKind>, SnapshotError>)
    requires
        old(r).ok(),
    ensures
        final(r).follows(*old(r)),
        match parse(opt(Form::Node(Symbol::DeclKind)), old(r).rest()) {
            Read::Good(t, rest) => res matches Ok(v) && t == opt_decl_kind(v) && final(r).rest() == rest
                && final(r).pos > old(r).pos,
            Read::Bad(f) => res matches Err(e) && e.fault() == f,
        },
{
    proof {
        parse_opt(Form::Node(Symbol::DeclKind), r.rest());
    }
    let tag = r.u8()?;
    if tag == 1 {
        let x = dec_declkind(r)?;
        Ok(Some(x))
    } else {
        Ok(None)
    }
}

/// Reads a pattern, if there is one.
fn dec_opt_pattern(r: &mut Reader) -> (res: Result<Option<Pattern>, SnapshotError>)
    requires
        old(r).ok(),
    ensures
        final(r).follows(*old(r)),
        match parse(opt(pattern_form()), old(r).rest()) {
            Read::Good(t, rest) => res matches Ok(v) && t == opt_pattern(v) && final(r).rest() == rest
                && final(r).pos > old(r).pos,
            Read::Bad(f) => res matches Err(e) && e.fault() == f,
        },
    decreases old(r).buf@.len() - old(r).pos, 0nat,
{
    proof {
        parse_opt(pattern_form(), r.rest());
    }
    let tag = r.u8()?;
    if tag == 1 {
        let x = dec_pattern(r)?;
        Ok(Some(x))
    } else {
        Ok(None)
    }
}

/// Reads a `catch`, if there is one.
fn dec_opt_handler(r: &mut Reader) -> (res: Result<Option<(Option<Pattern>, Vec<Stmt>)>, SnapshotError>)
    requires
        old(r).ok(),
    ensures
        final(r).follows(*old(r)),
        match parse(opt(handler_form()), old(r).rest()) {
            Read::Good(t, rest) => res matches Ok(v) && t == opt_handler(v) && final(r).rest() == rest
                && final(r).pos > old(r).pos,
            Read::Bad(f) => res matches Err(e) && e.fault() == f,
        },
    decreases old(r).buf@.len() - old(r).pos, 0nat,
{
    proof {
        parse_opt(handler_form(), r.rest());
    }
    let tag = r.u8()?;
    if tag == 1 {
        let x = dec_handler(r)?;
        Ok(Some(x))
    } else {
        Ok(None)
    }
}

/// Reads a block, if there is one.
fn dec_opt_stmts(r: &mut Reader) -> (res: Result<Option<Vec<Stmt>>, SnapshotError>)
    requires
        old(r).ok(),
    ensures
        final(r).follows(*old(r)),
        match parse(opt(list(stmt_form())), old(r).rest()) {
            Read::Good(t, rest) => res matches Ok(v) && t == opt_stmts(v) && final(r).rest() == rest
                && final(r).pos > old(r).pos,
            Read::Bad(f) => res matches Err(e) && e.fault() == f,
        },
    decreases old(r).buf@.len() - old(r).pos, 0nat,
{
    proof {
        parse_opt(list(stmt_form()), r.rest());
    }
    let tag = r.u8()?;
    if tag == 1 {
        let x = dec_stmts(r)?;
        Ok(Some(x))
    } else {
        Ok(None)
    }
}

/// Reads a function, if there is one.
fn dec_opt_function(r: &mut Reader) -> (res: Result<Option<Rc<Function>>, SnapshotError>)
    requires
        old(r).ok(),
    ensures
        final(r).follows(*old(r)),
        match parse(opt(function_form()), old(r).rest()) {
            Read::Good(t, rest) => res matches Ok(v) && t == opt_function(v) && final(r).rest() == rest
                && final(r).pos > old(r).pos,
            Read::Bad(f) => res matches Err(e) && e.fault() == f,
        },
    decreases old(r).buf@.len() - old(r).pos, 0nat,
{
    proof {
        parse_opt(function_form(), r.rest());
    }
    let tag = r.u8()?;
    if tag == 1 {
        let x = Rc::new(dec_function(r)?);
        Ok(Some(x))
    } else {
        Ok(None)
    }
}

/// Reads a list of statements.
pub(crate) fn dec_stmts(r: &mut Reader) -> (res: Result<Vec<Stmt>, SnapshotError>)
    requires
        old(r).ok(),
    ensures
        final(r).follows(*old(r)),
        match parse(list(stmt_form()), old(r).rest()) {
            Read::Good(t, rest) => res matches Ok(v) && t == Tree::List(stmt_trees(v@)) && final(r).rest() == rest
                && final(r).pos > old(r).pos,
            Read::Bad(f) => res matches Err(e) && e.fault() == f,
        },
    decreases old(r).buf@.len() - old(r).pos, 0nat,
{
    proof {
        parse_list_whole(stmt_form(), r.rest());
    }
    let n = r.uv()?;
    let ghost whole = parse_list(n as nat, stmt_form(), r.rest());
    let mut out: Vec<Stmt> = Vec::new();
    let mut i: u64 = 0;
    assert(stmt_trees(out@) =~= Seq::<Tree>::empty());
    proof {
        if let Read::Good(ts, _) = whole {
            assert(Seq::<Tree>::empty() + ts =~= ts);
        }
    }
    while i < n
        invariant
            i <= n,
            r.follows(*old(r)),
            r.pos > old(r).pos,
            parse(list(stmt_form()), old(r).rest()) == (match whole {
                Read::Good(ts, rest) => Read::Good(Tree::List(ts), rest),
                Read::Bad(f) => Read::Bad(f),
            }),
            match parse_list((n - i) as nat, stmt_form(), r.rest()) {
                Read::Good(ts, rest) => whole == Read::Good(stmt_trees(out@) + ts, rest),
                Read::Bad(f) => whole == Read::<Seq<Tree>>::Bad(f),
            },
        decreases n - i,
    {
        proof {
            parse_list_step((n - i) as nat, stmt_form(), r.rest());
        }
        let ghost before = out@;
        let ghost here = r.rest();
        let x = dec_stmt(r)?;
        out.push(x);
        i = i + 1;
        proof {
            let t = stmt_trees(out@).last();
            assert(stmt_trees(out@) =~= stmt_trees(before).push(t));
            if let Read::Good(ts, _) = parse_list((n - i) as nat, stmt_form(), r.rest()) {
                assert(stmt_trees(before) + (seq![t] + ts) =~= stmt_trees(out@) + ts);
            }
        }
    }
    proof {
        parse_list_step(0, stmt_form(), r.rest());
        assert(stmt_trees(out@) + Seq::<Tree>::empty() =~= stmt_trees(out@));
    }
    Ok(out)
}

/// Reads a list of expressions.
fn dec_exprs(r: &mut Reader) -> (res: Result<Vec<Expr>, SnapshotError>)
    requires
        old(r).ok(),
    ensures
        final(r).follows(*old(r)),
        match parse(list(expr_form()), old(r).rest()) {
            Read::Good(t, rest) => res matches Ok(v) && t == Tree::List(expr_trees(v@)) && final(r).rest() == rest
                && final(r).pos > old(r).pos,
            Read::Bad(f) => res matches Err(e) && e.fault() == f,
        },
    decreases old(r).buf@.len() - old(r).pos, 0nat,
{
    proof {
        parse_list_whole(expr_form(), r.rest());
    }
    let n = r.uv()?;
    let ghost whole = parse_list(n as nat, expr_form(), r.rest());
    let mut out: Vec<Expr> = Vec::new();
    let mut i: u64 = 0;
    assert(expr_trees(out@) =~= Seq::<Tree>::empty());
    proof {
        if let Read::Good(ts, _) = whole {
            assert(Seq::<Tree>::empty() + ts =~= ts);
        }
    }
    while i < n
        invariant
            i <= n,
            r.follows(*old(r)),
            r.pos > old(r).pos,
            parse(list(expr_form()), old(r).rest()) == (match whole {
                Read::Good(ts, rest) => Read::Good(Tree::List(ts), rest),
                Read::Bad(f) => Read::Bad(f),
            }),
            match parse_list((n - i) as nat, expr_form(), r.rest()) {
                Read::Good(ts, rest) => whole == Read::Good(expr_trees(out@) + ts, rest),
                Read::Bad(f) => whole == Read::<Seq<Tree>>::Bad(f),
            },
        decreases n - i,
    {
        proof {
            parse_list_step((n - i) as nat, expr_form(), r.rest());
        }
        let ghost before = out@;
        let ghost here = r.rest();
        let x = dec_expr(r)?;
        out.push(x);
        i = i + 1;
        proof {
            let t = expr_trees(out@).last();
            assert(expr_trees(out@) =~= expr_trees(before).push(t));
            if let Read::Good(ts, _) = parse_list((n - i) as nat, expr_form(), r.rest()) {
                assert(expr_trees(before) + (seq![t] + ts) =~= expr_trees(out@) + ts);
            }
        }
    }
    proof {
        parse_list_step(0, expr_form(), r.rest());
        assert(expr_trees(out@) + Seq::<Tree>::empty() =~= expr_trees(out@));
    }
    Ok(out)
}

/// Reads a list of declarators.
fn dec_decls(r: &mut Reader) -> (res: Result<Vec<(Pattern, Option<Expr>)>, SnapshotError>)
    requires
        old(r).ok(),
    ensures
        final(r).follows(*old(r)),
        match parse(list(decl_form()), old(r).rest()) {
            Read::Good(t, rest) => res matches Ok(v) && t == Tree::List(decl_trees(v@)) && final(r).rest() == rest
                && final(r).pos > old(r).pos,
            Read::Bad(f) => res matches Err(e) && e.fault() == f,
        },
    decreases old(r).buf@.len() - old(r).pos, 0nat,
{
    proof {
        parse_list_whole(decl_form(), r.rest());
    }
    let n = r.uv()?;
    let ghost whole = parse_list(n as nat, decl_form(), r.rest());
    let mut out: Vec<(Pattern, Option<Expr>)> = Vec::new();
    let mut i: u64 = 0;
    assert(decl_trees(out@) =~= Seq::<Tree>::empty());
    proof {
        if let Read::Good(ts, _) = whole {
            assert(Seq::<Tree>::empty() + ts =~= ts);
        }
    }
    while i < n
        invariant
            i <= n,
            r.follows(*old(r)),
            r.pos > old(r).pos,
            parse(list(decl_form()), old(r).rest()) == (match whole {
                Read::Good(ts, rest) => Read::Good(Tree::List(ts), rest),
                Read::Bad(f) => Read::Bad(f),
            }),
            match parse_list((n - i) as nat, decl_form(), r.rest()) {
                Read::Good(ts, rest) => whole == Read::Good(decl_trees(out@) + ts, rest),
                Read::Bad(f) => whole == Read::<Seq<Tree>>::Bad(f),
            },
        decreases n - i,
    {
        proof {
            parse_list_step((n - i) as nat, decl_form(), r.rest());
        }
        let ghost before = out@;
        let ghost here = r.rest();
        let x = dec_decl(r)?;
        out.push(x);
        i = i + 1;
        proof {
            let t = decl_trees(out@).last();
            assert(decl_trees(out@) =~= decl_trees(before).push(t));
            if let Read::Good(ts, _) = parse_list((n - i) as nat, decl_form(), r.rest()) {
                assert(decl_trees(before) + (seq![t] + ts) =~= decl_trees(out@) + ts);
            }
        }
    }
    proof {
        parse_list_step(0, decl_form(), r.rest());
        assert(decl_trees(out@) + Seq::<Tree>::empty() =~= decl_trees(out@));
    }
    Ok(out)
}

/// Reads the cases of a `switch`.
fn dec_cases(r: &mut Reader) -> (res: Result<Vec<SwitchCase>, SnapshotError>)
    requires
        old(r).ok(),
    ensures
        final(r).follows(*old(r)),
        match parse(list(case_form()), old(r).rest()) {
            Read::Good(t, rest) => res matches Ok(v) && t == Tree::List(case_trees(v@)) && final(r).rest() == rest
                && final(r).pos > old(r).pos,
            Read::Bad(f) => res matches Err(e) && e.fault() == f,
        },
    decreases old(r).buf@.len() - old(r).pos, 0nat,
{
    proof {
        parse_list_whole(case_form(), r.rest());
    }
    let n = r.uv()?;
    let ghost whole = parse_list(n as nat, case_form(), r.rest());
    let mut out: Vec<SwitchCase> = Vec::new();
    let mut i: u64 = 0;
    assert(case_trees(out@) =~= Seq::<Tree>::empty());
    proof {
        if let Read::Good(ts, _) = whole {
            assert(Seq::<Tree>::empty() + ts =~= ts);
        }
    }
    while i < n
        invariant
            i <= n,
            r.follows(*old(r)),
            r.pos > old(r).pos,
            parse(list(case_form()), old(r).rest()) == (match whole {
                Read::Good(ts, rest) => Read::Good(Tree::List(ts), rest),
                Read::Bad(f) => Read::Bad(f),
            }),
            match parse_list((n - i) as nat, case_form(), r.rest()) {
                Read::Good(ts, rest) => whole == Read::Good(case_trees(out@) + ts, rest),
                Read::Bad(f) => whole == Read::<Seq<Tree>>::Bad(f),
            },
        decreases n - i,
    {
        proof {
            parse_list_step((n - i) as nat, case_form(), r.rest());
        }
        let ghost before = out@;
        let ghost here = r.rest();
        let x = dec_case(r)?;
        out.push(x);
        i = i + 1;
        proof {
            let t = case_trees(out@).last();
            assert(case_trees(out@) =~= case_trees(before).push(t));
            if let Read::Good(ts, _) = parse_list((n - i) as nat, case_form(), r.rest()) {
                assert(case_trees(before) + (seq![t] + ts) =~= case_trees(out@) + ts);
            }
        }
    }
    proof {
        parse_list_step(0, case_form(), r.rest());
        assert(case_trees(out@) + Seq::<Tree>::empty() =~= case_trees(out@));
    }
    Ok(out)
}

/// Reads the names of an import.
fn dec_importspecs(r: &mut Reader) -> (res: Result<Vec<ImportSpec>, SnapshotError>)
    requires
        old(r).ok(),
    ensures
        final(r).follows(*old(r)),
        match parse(list(Form::Node(Symbol::ImportSpec)), old(r).rest()) {
            Read::Good(t, rest) => res matches Ok(v) && t == import_specs(v@) && final(r).rest() == rest
                && final(r).pos > old(r).pos,
            Read::Bad(f) => res matches Err(e) && e.fault() == f,
        },
{
    proof {
        parse_list_whole(Form::Node(Symbol::ImportSpec), r.rest());
    }
    let n = r.uv()?;
    let ghost whole = parse_list(n as nat, Form::Node(Symbol::ImportSpec), r.rest());
    let mut out: Vec<ImportSpec> = Vec::new();
    let mut i: u64 = 0;
    assert(import_specs(out@)->List_0 =~= Seq::<Tree>::empty());
    proof {
        if let Read::Good(ts, _) = whole {
            assert(Seq::<Tree>::empty() + ts =~= ts);
        }
    }
    while i < n
        invariant
            i <= n,
            r.follows(*old(r)),
            r.pos > old(r).pos,
            parse(list(Form::Node(Symbol::ImportSpec)), old(r).rest()) == (match whole {
                Read::Good(ts, rest) => Read::Good(Tree::List(ts), rest),
                Read::Bad(f) => Read::Bad(f),
            }),
            match parse_list((n - i) as nat, Form::Node(Symbol::ImportSpec), r.rest()) {
                Read::Good(ts, rest) => whole == Read::Good(import_specs(out@)->List_0 + ts, rest),
                Read::Bad(f) => whole == Read::<Seq<Tree>>::Bad(f),
            },
        decreases n - i,
    {
        proof {
            parse_list_step((n - i) as nat, Form::Node(Symbol::ImportSpec), r.rest());
        }
        let ghost before = out@;
        let ghost here = r.rest();
        let x = dec_importspec(r)?;
        out.push(x);
        i = i + 1;
        proof {
            let t = import_specs(out@)->List_0.last();
            assert(import_specs(out@)->List_0 =~= import_specs(before)->List_0.push(t));
            if let Read::Good(ts, _) = parse_list((n - i) as nat, Form::Node(Symbol::ImportSpec), r.rest()) {
                assert(import_specs(before)->List_0 + (seq![t] + ts) =~= import_specs(out@)->List_0 + ts);
            }
        }
    }
    proof {
        parse_list_step(0, Form::Node(Symbol::ImportSpec), r.rest());
        assert(import_specs(out@)->List_0 + Seq::<Tree>::empty() =~= import_specs(out@)->List_0);
    }
    Ok(out)
}

/// Reads the names of an export.
fn dec_exportspecs(r: &mut Reader) -> (res: Result<Vec<ExportSpec>, SnapshotError>)
    requires
        old(r).ok(),
    ensures
        final(r).follows(*old(r)),
        match parse(list(export_form()), old(r).rest()) {
            Read::Good(t, rest) => res matches Ok(v) && t == export_specs(v@) && final(r).rest() == rest
                && final(r).pos > old(r).pos,
            Read::Bad(f) => res matches Err(e) && e.fault() == f,
        },
{
    proof {
        parse_list_whole(export_form(), r.rest());
    }
    let n = r.uv()?;
    let ghost whole = parse_list(n as nat, export_form(), r.rest());
    let mut out: Vec<ExportSpec> = Vec::new();
    let mut i: u64 = 0;
    assert(export_specs(out@)->List_0 =~= Seq::<Tree>::empty());
    proof {
        if let Read::Good(ts, _) = whole {
            assert(Seq::<Tree>::empty() + ts =~= ts);
        }
    }
    while i < n
        invariant
            i <= n,
            r.follows(*old(r)),
            r.pos > old(r).pos,
            parse(list(export_form()), old(r).rest()) == (match whole {
                Read::Good(ts, rest) => Read::Good(Tree::List(ts), rest),
                Read::Bad(f) => Read::Bad(f),
            }),
            match parse_list((n - i) as nat, export_form(), r.rest()) {
                Read::Good(ts, rest) => whole == Read::Good(export_specs(out@)->List_0 + ts, rest),
                Read::Bad(f) => whole == Read::<Seq<Tree>>::Bad(f),
            },
        decreases n - i,
    {
        proof {
            parse_list_step((n - i) as nat, export_form(), r.rest());
        }
        let ghost before = out@;
        let ghost here = r.rest();
        let x = dec_exportspec(r)?;
        out.push(x);
        i = i + 1;
        proof {
            let t = export_specs(out@)->List_0.last();
            assert(export_specs(out@)->List_0 =~= export_specs(before)->List_0.push(t));
            if let Read::Good(ts, _) = parse_list((n - i) as nat, export_form(), r.rest()) {
                assert(export_specs(before)->List_0 + (seq![t] + ts) =~= export_specs(out@)->List_0 + ts);
            }
        }
    }
    proof {
        parse_list_step(0, export_form(), r.rest());
        assert(export_specs(out@)->List_0 + Seq::<Tree>::empty() =~= export_specs(out@)->List_0);
    }
    Ok(out)
}

/// Reads the pieces of a template.
fn dec_quasis(r: &mut Reader) -> (res: Result<Vec<(Option<String>, String)>, SnapshotError>)
    requires
        old(r).ok(),
    ensures
        final(r).follows(*old(r)),
        match parse(list(quasi_form()), old(r).rest()) {
            Read::Good(t, rest) => res matches Ok(v) && t == quasis(v@) && final(r).rest() == rest
                && final(r).pos > old(r).pos,
            Read::Bad(f) => res matches Err(e) && e.fault() == f,
        },
{
    proof {
        parse_list_whole(quasi_form(), r.rest());
    }
    let n = r.uv()?;
    let ghost whole = parse_list(n as nat, quasi_form(), r.rest());
    let mut out: Vec<(Option<String>, String)> = Vec::new();
    let mut i: u64 = 0;
    assert(quasis(out@)->List_0 =~= Seq::<Tree>::empty());
    proof {
        if let Read::Good(ts, _) = whole {
            assert(Seq::<Tree>::empty() + ts =~= ts);
        }
    }
    while i < n
        invariant
            i <= n,
            r.follows(*old(r)),
            r.pos > old(r).pos,
            parse(list(quasi_form()), old(r).rest()) == (match whole {
                Read::Good(ts, rest) => Read::Good(Tree::List(ts), rest),
                Read::Bad(f) => Read::Bad(f),
            }),
            match parse_list((n - i) as nat, quasi_form(), r.rest()) {
                Read::Good(ts, rest) => whole == Read::Good(quasis(out@)->List_0 + ts, rest),
                Read::Bad(f) => whole == Read::<Seq<Tree>>::Bad(f),
            },
        decreases n - i,
    {
        proof {
            parse_list_step((n - i) as nat, quasi_form(), r.rest());
        }
        let ghost before = out@;
        let ghost here = r.rest();
        let x = dec_quasi(r)?;
        out.push(x);
        i = i + 1;
        proof {
            let t = quasis(out@)->List_0.last();
            assert(quasis(out@)->List_0 =~= quasis(before)->List_0.push(t));
            if let Read::Good(ts, _) = parse_list((n - i) as nat, quasi_form(), r.rest()) {
                assert(quasis(before)->List_0 + (seq![t] + ts) =~= quasis(out@)->List_0 + ts);
            }
        }
    }
    proof {
        parse_list_step(0, quasi_form(), r.rest());
        assert(quasis(out@)->List_0 + Seq::<Tree>::empty() =~= quasis(out@)->List_0);
    }
    Ok(out)
}

/// Reads the elements of an array or an argument list.
fn dec_array_elems(r: &mut Reader) -> (res: Result<Vec<ArrayElem>, SnapshotError>)
    requires
        old(r).ok(),
    ensures
        final(r).follows(*old(r)),
        match parse(list(Form::Node(Symbol::ArrayElem)), old(r).rest()) {
            Read::Good(t, rest) => res matches Ok(v) && t == Tree::List(elem_trees(v@)) && final(r).rest() == rest
                && final(r).pos > old(r).pos,
            Read::Bad(f) => res matches Err(e) && e.fault() == f,
        },
    decreases old(r).buf@.len() - old(r).pos, 0nat,
{
    proof {
        parse_list_whole(Form::Node(Symbol::ArrayElem), r.rest());
    }
    let n = r.uv()?;
    let ghost whole = parse_list(n as nat, Form::Node(Symbol::ArrayElem), r.rest());
    let mut out: Vec<ArrayElem> = Vec::new();
    let mut i: u64 = 0;
    assert(elem_trees(out@) =~= Seq::<Tree>::empty());
    proof {
        if let Read::Good(ts, _) = whole {
            assert(Seq::<Tree>::empty() + ts =~= ts);
        }
    }
    while i < n
        invariant
            i <= n,
            r.follows(*old(r)),
            r.pos > old(r).pos,
            parse(list(Form::Node(Symbol::ArrayElem)), old(r).rest()) == (match whole {
                Read::Good(ts, rest) => Read::Good(Tree::List(ts), rest),
                Read::Bad(f) => Read::Bad(f),
            }),
            match parse_list((n - i) as nat, Form::Node(Symbol::ArrayElem), r.rest()) {
                Read::Good(ts, rest) => whole == Read::Good(elem_trees(out@) + ts, rest),
                Read::Bad(f) => whole == Read::<Seq<Tree>>::Bad(f),
            },
        decreases n - i,
    {
        proof {
            parse_list_step((n - i) as nat, Form::Node(Symbol::ArrayElem), r.rest());
        }
        let ghost before = out@;
        let ghost here = r.rest();
        let x = dec_array_elem(r)?;
        out.push(x);
        i = i + 1;
        proof {
            let t = elem_trees(out@).last();
            assert(elem_trees(out@) =~= elem_trees(before).push(t));
            if let Read::Good(ts, _) = parse_list((n - i) as nat, Form::Node(Symbol::ArrayElem), r.rest()) {
                assert(elem_trees(before) + (seq![t] + ts) =~= elem_trees(out@) + ts);
            }
        }
    }
    proof {
        parse_list_step(0, Form::Node(Symbol::ArrayElem), r.rest());
        assert(elem_trees(out@) + Seq::<Tree>::empty() =~= elem_trees(out@));
    }
    Ok(out)
}

/// Reads the properties of an object literal.
fn dec_propdefs(r: &mut Reader) -> (res: Result<Vec<PropDef>, SnapshotError>)
    requires
        old(r).ok(),
    ensures
        final(r).follows(*old(r)),
        match parse(list(Form::Node(Symbol::PropDef)), old(r).rest()) {
            Read::Good(t, rest) => res matches Ok(v) && t == Tree::List(prop_def_trees(v@)) && final(r).rest() == rest
                && final(r).pos > old(r).pos,
            Read::Bad(f) => res matches Err(e) && e.fault() == f,
        },
    decreases old(r).buf@.len() - old(r).pos, 0nat,
{
    proof {
        parse_list_whole(Form::Node(Symbol::PropDef), r.rest());
    }
    let n = r.uv()?;
    let ghost whole = parse_list(n as nat, Form::Node(Symbol::PropDef), r.rest());
    let mut out: Vec<PropDef> = Vec::new();
    let mut i: u64 = 0;
    assert(prop_def_trees(out@) =~= Seq::<Tree>::empty());
    proof {
        if let Read::Good(ts, _) = whole {
            assert(Seq::<Tree>::empty() + ts =~= ts);
        }
    }
    while i < n
        invariant
            i <= n,
            r.follows(*old(r)),
            r.pos > old(r).pos,
            parse(list(Form::Node(Symbol::PropDef)), old(r).rest()) == (match whole {
                Read::Good(ts, rest) => Read::Good(Tree::List(ts), rest),
                Read::Bad(f) => Read::Bad(f),
            }),
            match parse_list((n - i) as nat, Form::Node(Symbol::PropDef), r.rest()) {
                Read::Good(ts, rest) => whole == Read::Good(prop_def_trees(out@) + ts, rest),
                Read::Bad(f) => whole == Read::<Seq<Tree>>::Bad(f),
            },
        decreases n - i,
    {
        proof {
            parse_list_step((n - i) as nat, Form::Node(Symbol::PropDef), r.rest());
        }
        let ghost before = out@;
        let ghost here = r.rest();
        let x = dec_propdef(r)?;
        out.push(x);
        i = i + 1;
        proof {
            let t = prop_def_trees(out@).last();
            assert(prop_def_trees(out@) =~= prop_def_trees(before).push(t));
            if let Read::Good(ts, _) = parse_list((n - i) as nat, Form::Node(Symbol::PropDef), r.rest()) {
                assert(prop_def_trees(before) + (seq![t] + ts) =~= prop_def_trees(out@) + ts);
            }
        }
    }
    proof {
        parse_list_step(0, Form::Node(Symbol::PropDef), r.rest());
        assert(prop_def_trees(out@) + Seq::<Tree>::empty() =~= prop_def_trees(out@));
    }
    Ok(out)
}

/// Reads the elements of an array pattern.
fn dec_patelems(r: &mut Reader) -> (res: Result<Vec<ArrayPatElem>, SnapshotError>)
    requires
        old(r).ok(),
    ensures
        final(r).follows(*old(r)),
        match parse(list(Form::Node(Symbol::ArrayPatElem)), old(r).rest()) {
            Read::Good(t, rest) => res matches Ok(v) && t == Tree::List(pat_elem_trees(v@)) && final(r).rest() == rest
                && final(r).pos > old(r).pos,
            Read::Bad(f) => res matches Err(e) && e.fault() == f,
        },
    decreases old(r).buf@.len() - old(r).pos, 0nat,
{
    proof {
        parse_list_whole(Form::Node(Symbol::ArrayPatElem), r.rest());
    }
    let n = r.uv()?;
    let ghost whole = parse_list(n as nat, Form::Node(Symbol::ArrayPatElem), r.rest());
    let mut out: Vec<ArrayPatElem> = Vec::new();
    let mut i: u64 = 0;
    assert(pat_elem_trees(out@) =~= Seq::<Tree>::empty());
    proof {
        if let Read::Good(ts, _) = whole {
            assert(Seq::<Tree>::empty() + ts =~= ts);
        }
    }
    while i < n
        invariant
            i <= n,
            r.follows(*old(r)),
            r.pos > old(r).pos,
            parse(list(Form::Node(Symbol::ArrayPatElem)), old(r).rest()) == (match whole {
                Read::Good(ts, rest) => Read::Good(Tree::List(ts), rest),
                Read::Bad(f) => Read::Bad(f),
            }),
            match parse_list((n - i) as nat, Form::Node(Symbol::ArrayPatElem), r.rest()) {
                Read::Good(ts, rest) => whole == Read::Good(pat_elem_trees(out@) + ts, rest),
                Read::Bad(f) => whole == Read::<Seq<Tree>>::Bad(f),
            },
        decreases n - i,
    {
        proof {
            parse_list_step((n - i) as nat, Form::Node(Symbol::ArrayPatElem), r.rest());
        }
        let ghost before = out@;
        let ghost here = r.rest();
        let x = dec_patelem(r)?;
        out.push(x);
        i = i + 1;
        proof {
            let t = pat_elem_trees(out@).last();
            assert(pat_elem_trees(out@) =~= pat_elem_trees(before).push(t));
            if let Read::Good(ts, _) = parse_list((n - i) as nat, Form::Node(Symbol::ArrayPatElem), r.rest()) {
                assert(pat_elem_trees(before) + (seq![t] + ts) =~= pat_elem_trees(out@) + ts);
            }
        }
    }
    proof {
        parse_list_step(0, Form::Node(Symbol::ArrayPatElem), r.rest());
        assert(pat_elem_trees(out@) + Seq::<Tree>::empty() =~= pat_elem_trees(out@));
    }
    Ok(out)
}

/// Reads the properties of an object pattern.
fn dec_patprops(r: &mut Reader) -> (res: Result<Vec<ObjPatProp>, SnapshotError>)
    requires
        old(r).ok(),
    ensures
        final(r).follows(*old(r)),
        match parse(list(pat_prop_form()), old(r).rest()) {
            Read::Good(t, rest) => res matches Ok(v) && t == Tree::List(pat_prop_trees(v@)) && final(r).rest() == rest
                && final(r).pos > old(r).pos,
            Read::Bad(f) => res matches Err(e) && e.fault() == f,
        },
    decreases old(r).buf@.len() - old(r).pos, 0nat,
{
    proof {
        parse_list_whole(pat_prop_form(), r.rest());
    }
    let n = r.uv()?;
    let ghost whole = parse_list(n as nat, pat_prop_form(), r.rest());
    let mut out: Vec<ObjPatProp> = Vec::new();
    let mut i: u64 = 0;
    assert(pat_prop_trees(out@) =~= Seq::<Tree>::empty());
    proof {
        if let Read::Good(ts, _) = whole {
            assert(Seq::<Tree>::empty() + ts =~= ts);
        }
    }
    while i < n
        invariant
            i <= n,
            r.follows(*old(r)),
            r.pos > old(r).pos,
            parse(list(pat_prop_form()), old(r).rest()) == (match whole {
                Read::Good(ts, rest) => Read::Good(Tree::List(ts), rest),
                Read::Bad(f) => Read::Bad(f),
            }),
            match parse_list((n - i) as nat, pat_prop_form(), r.rest()) {
                Read::Good(ts, rest) => whole == Read::Good(pat_prop_trees(out@) + ts, rest),
                Read::Bad(f) => whole == Read::<Seq<Tree>>::Bad(f),
            },
        decreases n - i,
    {
        proof {
            parse_list_step((n - i) as nat, pat_prop_form(), r.rest());
        }
        let ghost before = out@;
        let ghost here = r.rest();
        let x = dec_patprop(r)?;
        out.push(x);
        i = i + 1;
        proof {
            let t = pat_prop_trees(out@).last();
            assert(pat_prop_trees(out@) =~= pat_prop_trees(before).push(t));
            if let Read::Good(ts, _) = parse_list((n - i) as nat, pat_prop_form(), r.rest()) {
                assert(pat_prop_trees(before) + (seq![t] + ts) =~= pat_prop_trees(out@) + ts);
            }
        }
    }
    proof {
        parse_list_step(0, pat_prop_form(), r.rest());
        assert(pat_prop_trees(out@) + Seq::<Tree>::empty() =~= pat_prop_trees(out@));
    }
    Ok(out)
}

/// Reads the parameters of a function.
fn dec_params(r: &mut Reader) -> (res: Result<Vec<Param>, SnapshotError>)
    requires
        old(r).ok(),
    ensures
        final(r).follows(*old(r)),
        match parse(list(param_form()), old(r).rest()) {
            Read::Good(t, rest) => res matches Ok(v) && t == Tree::List(param_trees(v@)) && final(r).rest() == rest
                && final(r).pos > old(r).pos,
            Read::Bad(f) => res matches Err(e) && e.fault() == f,
        },
    decreases old(r).buf@.len() - old(r).pos, 0nat,
{
    proof {
        parse_list_whole(param_form(), r.rest());
    }
    let n = r.uv()?;
    let ghost whole = parse_list(n as nat, param_form(), r.rest());
    let mut out: Vec<Param> = Vec::new();
    let mut i: u64 = 0;
    assert(param_trees(out@) =~= Seq::<Tree>::empty());
    proof {
        if let Read::Good(ts, _) = whole {
            assert(Seq::<Tree>::empty() + ts =~= ts);
        }
    }
    while i < n
        invariant
            i <= n,
            r.follows(*old(r)),
            r.pos > old(r).pos,
            parse(list(param_form()), old(r).rest()) == (match whole {
                Read::Good(ts, rest) => Read::Good(Tree::List(ts), rest),
                Read::Bad(f) => Read::Bad(f),
            }),
            match parse_list((n - i) as nat, param_form(), r.rest()) {
                Read::Good(ts, rest) => whole == Read::Good(param_trees(out@) + ts, rest),
                Read::Bad(f) => whole == Read::<Seq<Tree>>::Bad(f),
            },
        decreases n - i,
    {
        proof {
            parse_list_step((n - i) as nat, param_form(), r.rest());
        }
        let ghost before = out@;
        let ghost here = r.rest();
        let x = dec_param(r)?;
        out.push(x);
        i = i + 1;
        proof {
            let t = param_trees(out@).last();
            assert(param_trees(out@) =~= param_trees(before).push(t));
            if let Read::Good(ts, _) = parse_list((n - i) as nat, param_form(), r.rest()) {
                assert(param_trees(before) + (seq![t] + ts) =~= param_trees(out@) + ts);
            }
        }
    }
    proof {
        parse_list_step(0, param_form(), r.rest());
        assert(param_trees(out@) + Seq::<Tree>::empty() =~= param_trees(out@));
    }
    Ok(out)
}

/// Reads the members of a class.
fn dec_members(r: &mut Reader) -> (res: Result<Vec<ClassMember>, SnapshotError>)
    requires
        old(r).ok(),
    ensures
        final(r).follows(*old(r)),
        match parse(list(member_form()), old(r).rest()) {
            Read::Good(t, rest) => res matches Ok(v) && t == Tree::List(member_trees(v@)) && final(r).rest() == rest
                && final(r).pos > old(r).pos,
            Read::Bad(f) => res matches Err(e) && e.fault() == f,
        },
    decreases old(r).buf@.len() - old(r).pos, 0nat,
{
    proof {
        parse_list_whole(member_form(), r.rest());
    }
    let n = r.uv()?;
    let ghost whole = parse_list(n as nat, member_form(), r.rest());
    let mut out: Vec<ClassMember> = Vec::new();
    let mut i: u64 = 0;
    assert(member_trees(out@) =~= Seq::<Tree>::empty());
    proof {
        if let Read::Good(ts, _) = whole {
            assert(Seq::<Tree>::empty() + ts =~= ts);
        }
    }
    while i < n
        invariant
            i <= n,
            r.follows(*old(r)),
            r.pos > old(r).pos,
            parse(list(member_form()), old(r).rest()) == (match whole {
                Read::Good(ts, rest) => Read::Good(Tree::List(ts), rest),
                Read::Bad(f) => Read::Bad(f),
            }),
            match parse_list((n - i) as nat, member_form(), r.rest()) {
                Read::Good(ts, rest) => whole == Read::Good(member_trees(out@) + ts, rest),
                Read::Bad(f) => whole == Read::<Seq<Tree>>::Bad(f),
            },
        decreases n - i,
    {
        proof {
            parse_list_step((n - i) as nat, member_form(), r.rest());
        }
        let ghost before = out@;
        let ghost here = r.rest();
        let x = dec_member(r)?;
        out.push(x);
        i = i + 1;
        proof {
            let t = member_trees(out@).last();
            assert(member_trees(out@) =~= member_trees(before).push(t));
            if let Read::Good(ts, _) = parse_list((n - i) as nat, member_form(), r.rest()) {
                assert(member_trees(before) + (seq![t] + ts) =~= member_trees(out@) + ts);
            }
        }
    }
    proof {
        parse_list_step(0, member_form(), r.rest());
        assert(member_trees(out@) + Seq::<Tree>::empty() =~= member_trees(out@));
    }
    Ok(out)
}

// ---- statements -------------------------------------------------------------------------------

/// Reads a statement.
fn dec_stmt(r: &mut Reader) -> (res: Result<Stmt, SnapshotError>)
    requires
        old(r).ok(),
    ensures
        final(r).follows(*old(r)),
        match parse(stmt_form(), old(r).rest()) {
            Read::Good(t, rest) => res matches Ok(v) && t == stmt_tree(v) && final(r).rest() == rest
                && final(r).pos > old(r).pos,
            Read::Bad(f) => res matches Err(e) && e.fault() == f,
        },
    decreases old(r).buf@.len() - old(r).pos, 0nat,
{
    let ghost b = r.rest();
    proof {
        parse_node(Symbol::Stmt, b);
    }
    let tag = r.u8()?;
    match tag {
        0 | 1 | 2 | 3 | 10 | 11 | 12 | 17 | 18 | 19 => dec_plain_stmt(r, tag, Ghost(b)),
        4 | 5 | 13 | 14 | 15 | 16 => dec_branch_stmt(r, tag, Ghost(b)),
        6 | 7 | 8 | 9 => dec_loop_stmt(r, tag, Ghost(b)),
        20 | 21 | 22 | 23 | 24 => dec_module_stmt(r, tag, Ghost(b)),
        _ => {
            assert(shape(Symbol::Stmt, tag as nat) is None) by { reveal(shape); reveal(stmt_shape); reveal(expr_shape); }
            Err(SnapshotError::BadTag(Symbol::Stmt, tag))
        },
    }
}

/// Reads the parts of a statement without statements inside, or a declaration.
#[verifier::spinoff_prover]
fn dec_plain_stmt(r: &mut Reader, tag: u8, Ghost(b): Ghost<Seq<u8>>) -> (res: Result<Stmt, SnapshotError>)
    requires
        old(r).ok(),
        b.len() > 0,
        b[0] == tag,
        b.drop_first() == old(r).rest(),
        tag == 0 || tag == 1 || tag == 2 || tag == 3 || tag == 10 || tag == 11 || tag == 12 || tag == 17 || tag == 18 || tag == 19,
    ensures
        final(r).follows(*old(r)),
        match parse(stmt_form(), b) {
            Read::Good(t, rest) => res matches Ok(v) && t == stmt_tree(v) && final(r).rest() == rest,
            Read::Bad(f) => res matches Err(e) && e.fault() == f,
        },
    decreases old(r).buf@.len() - old(r).pos, 2nat,
{
    match tag {
        0 => {
            proof {
                assert(shape(Symbol::Stmt, 0) == Some(seq![expr_form()])) by { reveal(shape); reveal(stmt_shape); reveal(expr_shape); }
                parse_node_1(Symbol::Stmt, b, expr_form());
            }
            let e = dec_expr(r)?;
            Ok(Stmt::Expr(e))
        },
        1 => {
            proof {
                assert(shape(Symbol::Stmt, 1) == Some(seq![Form::Node(Symbol::DeclKind), list(decl_form())])) by { reveal(shape); reveal(stmt_shape); reveal(expr_shape); }
                parse_node_2(Symbol::Stmt, b, Form::Node(Symbol::DeclKind), list(decl_form()));
            }
            let kind = dec_declkind(r)?;
            let decls = dec_decls(r)?;
            Ok(Stmt::VarDecl { kind, decls })
        },
        2 => {
            proof {
                assert(shape(Symbol::Stmt, 2) == Some(seq![function_form()])) by { reveal(shape); reveal(stmt_shape); reveal(expr_shape); }
                parse_node_1(Symbol::Stmt, b, function_form());
            }
            let f = Rc::new(dec_function(r)?);
            Ok(Stmt::FuncDecl(f))
        },
        3 => {
            proof {
                assert(shape(Symbol::Stmt, 3) == Some(seq![opt(expr_form())])) by { reveal(shape); reveal(stmt_shape); reveal(expr_shape); }
                parse_node_1(Symbol::Stmt, b, opt(expr_form()));
            }
            let e = dec_opt_expr(r)?;
            Ok(Stmt::Return(e))
        },
        10 => {
            proof {
                assert(shape(Symbol::Stmt, 10) == Some(seq![opt(Form::Text)])) by { reveal(shape); reveal(stmt_shape); reveal(expr_shape); }
                parse_node_1(Symbol::Stmt, b, opt(Form::Text));
            }
            let label = dec_opt_str(r)?;
            Ok(Stmt::Break(label))
        },
        11 => {
            proof {
                assert(shape(Symbol::Stmt, 11) == Some(seq![opt(Form::Text)])) by { reveal(shape); reveal(stmt_shape); reveal(expr_shape); }
                parse_node_1(Symbol::Stmt, b, opt(Form::Text));
            }
            let label = dec_opt_str(r)?;
            Ok(Stmt::Continue(label))
        },
        12 => {
            proof {
                assert(shape(Symbol::Stmt, 12) == Some(seq![expr_form()])) by { reveal(shape); reveal(stmt_shape); reveal(expr_shape); }
                parse_node_1(Symbol::Stmt, b, expr_form());
            }
            let e = dec_expr(r)?;
            Ok(Stmt::Throw(e))
        },
        17 => {
            proof {
                assert(shape(Symbol::Stmt, 17) == Some(seq![class_form()])) by { reveal(shape); reveal(stmt_shape); reveal(expr_shape); }
                parse_node_1(Symbol::Stmt, b, class_form());
            }
            let c = Rc::new(dec_class(r)?);
            Ok(Stmt::ClassDecl(c))
        },
        18 => {
            proof {
                assert(shape(Symbol::Stmt, 18) == Some(Seq::<Form>::empty())) by { reveal(shape); reveal(stmt_shape); reveal(expr_shape); }
                parse_node_0(Symbol::Stmt, b);
            }
            Ok(Stmt::Empty)
        },
        19 => {
            proof {
                assert(shape(Symbol::Stmt, 19) == Some(Seq::<Form>::empty())) by { reveal(shape); reveal(stmt_shape); reveal(expr_shape); }
                parse_node_0(Symbol::Stmt, b);
            }
            Ok(Stmt::Debugger)
        },
        _ => Err(SnapshotError::BadTag(Symbol::Stmt, tag)),
    }
}

/// Reads the parts of a statement that chooses among statements.
#[verifier::spinoff_prover]
fn dec_branch_stmt(r: &mut Reader, tag: u8, Ghost(b): Ghost<Seq<u8>>) -> (res: Result<Stmt, SnapshotError>)
    requires
        old(r).ok(),
        b.len() > 0,
        b[0] == tag,
        b.drop_first() == old(r).rest(),
        tag == 4 || tag == 5 || tag == 13 || tag == 14 || tag == 15 || tag == 16,
    ensures
        final(r).follows(*old(r)),
        match parse(stmt_form(), b) {
            Read::Good(t, rest) => res matches Ok(v) && t == stmt_tree(v) && final(r).rest() == rest,
            Read::Bad(f) => res matches Err(e) && e.fault() == f,
        },
    decreases old(r).buf@.len() - old(r).pos, 2nat,
{
    match tag {
        4 => {
            proof {
                assert(shape(Symbol::Stmt, 4) == Some(seq![expr_form(), stmt_form(), opt(stmt_form())])) by { reveal(shape); reveal(stmt_shape); reveal(expr_shape); }
                parse_node_3(Symbol::Stmt, b, expr_form(), stmt_form(), opt(stmt_form()));
            }
            let test = dec_expr(r)?;
            let cons = Box::new(dec_stmt(r)?);
            let alt = dec_opt_stmt(r)?;
            Ok(Stmt::If { test, cons, alt })
        },
        5 => {
            proof {
                assert(shape(Symbol::Stmt, 5) == Some(seq![list(stmt_form())])) by { reveal(shape); reveal(stmt_shape); reveal(expr_shape); }
                parse_node_1(Symbol::Stmt, b, list(stmt_form()));
            }
            let b = dec_stmts(r)?;
            Ok(Stmt::Block(b))
        },
        13 => {
            proof {
                assert(shape(Symbol::Stmt, 13) == Some(seq![list(stmt_form()), opt(handler_form()), opt(list(stmt_form()))])) by { reveal(shape); reveal(stmt_shape); reveal(expr_shape); }
                parse_node_3(Symbol::Stmt, b, list(stmt_form()), opt(handler_form()), opt(list(stmt_form())));
            }
            let block = dec_stmts(r)?;
            let handler = dec_opt_handler(r)?;
            let finalizer = dec_opt_stmts(r)?;
            Ok(Stmt::Try { block, handler, finalizer })
        },
        14 => {
            proof {
                assert(shape(Symbol::Stmt, 14) == Some(seq![expr_form(), list(case_form())])) by { reveal(shape); reveal(stmt_shape); reveal(expr_shape); }
                parse_node_2(Symbol::Stmt, b, expr_form(), list(case_form()));
            }
            let disc = dec_expr(r)?;
            let cases = dec_cases(r)?;
            Ok(Stmt::Switch { disc, cases })
        },
        15 => {
            proof {
                assert(shape(Symbol::Stmt, 15) == Some(seq![Form::Text, stmt_form()])) by { reveal(shape); reveal(stmt_shape); reveal(expr_shape); }
                parse_node_2(Symbol::Stmt, b, Form::Text, stmt_form());
            }
            let label = r.str()?;
            let body = Box::new(dec_stmt(r)?);
            Ok(Stmt::Labeled { label, body })
        },
        16 => {
            proof {
                assert(shape(Symbol::Stmt, 16) == Some(seq![expr_form(), stmt_form()])) by { reveal(shape); reveal(stmt_shape); reveal(expr_shape); }
                parse_node_2(Symbol::Stmt, b, expr_form(), stmt_form());
            }
            let obj = dec_expr(r)?;
            let body = Box::new(dec_stmt(r)?);
            Ok(Stmt::With { obj, body })
        },
        _ => Err(SnapshotError::BadTag(Symbol::Stmt, tag)),
    }
}

/// Reads the parts of a loop.
#[verifier::spinoff_prover]
fn dec_loop_stmt(r: &mut Reader, tag: u8, Ghost(b): Ghost<Seq<u8>>) -> (res: Result<Stmt, SnapshotError>)
    requires
        old(r).ok(),
        b.len() > 0,
        b[0] == tag,
        b.drop_first() == old(r).rest(),
        tag == 6 || tag == 7 || tag == 8 || tag == 9,
    ensures
        final(r).follows(*old(r)),
        match parse(stmt_form(), b) {
            Read::Good(t, rest) => res matches Ok(v) && t == stmt_tree(v) && final(r).rest() == rest,
            Read::Bad(f) => res matches Err(e) && e.fault() == f,
        },
    decreases old(r).buf@.len() - old(r).pos, 2nat,
{
    match tag {
        6 => {
            proof {
                assert(shape(Symbol::Stmt, 6) == Some(seq![expr_form(), stmt_form()])) by { reveal(shape); reveal(stmt_shape); reveal(expr_shape); }
                parse_node_2(Symbol::Stmt, b, expr_form(), stmt_form());
            }
            let test = dec_expr(r)?;
            let body = Box::new(dec_stmt(r)?);
            Ok(Stmt::While { test, body })
        },
        7 => {
            proof {
                assert(shape(Symbol::Stmt, 7) == Some(seq![stmt_form(), expr_form()])) by { reveal(shape); reveal(stmt_shape); reveal(expr_shape); }
                parse_node_2(Symbol::Stmt, b, stmt_form(), expr_form());
            }
            let body = Box::new(dec_stmt(r)?);
            let test = dec_expr(r)?;
            Ok(Stmt::DoWhile { body, test })
        },
        8 => {
            proof {
                assert(shape(Symbol::Stmt, 8) == Some(seq![opt(Form::Node(Symbol::ForInit)), opt(expr_form()), opt(expr_form()), stmt_form()])) by { reveal(shape); reveal(stmt_shape); reveal(expr_shape); }
                parse_node_4(Symbol::Stmt, b, opt(Form::Node(Symbol::ForInit)), opt(expr_form()), opt(expr_form()), stmt_form());
            }
            let init = dec_opt_forinit(r)?;
            let test = dec_opt_expr(r)?;
            let update = dec_opt_expr(r)?;
            let body = Box::new(dec_stmt(r)?);
            Ok(Stmt::For { init, test, update, body })
        },
        9 => {
            proof {
                assert(shape(Symbol::Stmt, 9) == Some(seq![opt(Form::Node(Symbol::DeclKind)), pattern_form(), expr_form(), Form::Bool, Form::Bool, stmt_form()])) by { reveal(shape); reveal(stmt_shape); reveal(expr_shape); }
                parse_node_6(Symbol::Stmt, b, opt(Form::Node(Symbol::DeclKind)), pattern_form(), expr_form(), Form::Bool, Form::Bool, stmt_form());
            }
            let decl = dec_opt_declkind(r)?;
            let left = dec_pattern(r)?;
            let right = dec_expr(r)?;
            let of = r.bool()?;
            let is_await = r.bool()?;
            let body = Box::new(dec_stmt(r)?);
            Ok(Stmt::ForInOf { decl, left, right, of, is_await, body })
        },
        _ => Err(SnapshotError::BadTag(Symbol::Stmt, tag)),
    }
}

/// Reads the parts of an import or export.
#[verifier::spinoff_prover]
fn dec_module_stmt(r: &mut Reader, tag: u8, Ghost(b): Ghost<Seq<u8>>) -> (res: Result<Stmt, SnapshotError>)
    requires
        old(r).ok(),
        b.len() > 0,
        b[0] == tag,
        b.drop_first() == old(r).rest(),
        tag == 20 || tag == 21 || tag == 22 || tag == 23 || tag == 24,
    ensures
        final(r).follows(*old(r)),
        match parse(stmt_form(), b) {
            Read::Good(t, rest) => res matches Ok(v) && t == stmt_tree(v) && final(r).rest() == rest,
            Read::Bad(f) => res matches Err(e) && e.fault() == f,
        },
    decreases old(r).buf@.len() - old(r).pos, 2nat,
{
    match tag {
        20 => {
            proof {
                assert(shape(Symbol::Stmt, 20) == Some(seq![Form::Text, list(Form::Node(Symbol::ImportSpec)), opt(Form::Text)])) by { reveal(shape); reveal(stmt_shape); }
                parse_node_3(Symbol::Stmt, b, Form::Text, list(Form::Node(Symbol::ImportSpec)), opt(Form::Text));
            }
            let source = r.str()?;
            let specs = dec_importspecs(r)?;
            let attr_type = dec_opt_str(r)?;
            Ok(Stmt::Import(ImportDecl { source, specs, attr_type }))
        },
        21 => {
            proof {
                assert(shape(Symbol::Stmt, 21) == Some(seq![list(export_form()), opt(Form::Text)])) by { reveal(shape); reveal(stmt_shape); reveal(expr_shape); }
                parse_node_2(Symbol::Stmt, b, list(export_form()), opt(Form::Text));
            }
            let specs = dec_exportspecs(r)?;
            let source = dec_opt_str(r)?;
            Ok(Stmt::ExportNamed { specs, source })
        },
        22 => {
            proof {
                assert(shape(Symbol::Stmt, 22) == Some(seq![stmt_form()])) by { reveal(shape); reveal(stmt_shape); reveal(expr_shape); }
                parse_node_1(Symbol::Stmt, b, stmt_form());
            }
            let s = Box::new(dec_stmt(r)?);
            Ok(Stmt::ExportDecl(s))
        },
        23 => {
            proof {
                assert(shape(Symbol::Stmt, 23) == Some(seq![stmt_form()])) by { reveal(shape); reveal(stmt_shape); reveal(expr_shape); }
                parse_node_1(Symbol::Stmt, b, stmt_form());
            }
            let s = Box::new(dec_stmt(r)?);
            Ok(Stmt::ExportDefault(s))
        },
        24 => {
            proof {
                assert(shape(Symbol::Stmt, 24) == Some(seq![Form::Text, opt(Form::Text)])) by { reveal(shape); reveal(stmt_shape); reveal(expr_shape); }
                parse_node_2(Symbol::Stmt, b, Form::Text, opt(Form::Text));
            }
            let source = r.str()?;
            let exported = dec_opt_str(r)?;
            Ok(Stmt::ExportAll { source, exported })
        },
        _ => Err(SnapshotError::BadTag(Symbol::Stmt, tag)),
    }
}

/// Reads a declarator.
fn dec_decl(r: &mut Reader) -> (res: Result<(Pattern, Option<Expr>), SnapshotError>)
    requires
        old(r).ok(),
    ensures
        final(r).follows(*old(r)),
        match parse(decl_form(), old(r).rest()) {
            Read::Good(t, rest) => res matches Ok(v) && t == decl_tree(v) && final(r).rest() == rest
                && final(r).pos > old(r).pos,
            Read::Bad(f) => res matches Err(e) && e.fault() == f,
        },
    decreases old(r).buf@.len() - old(r).pos, 1nat,
{
    proof {
        reveal(decl_form);
        parse_tuple_2(r.rest(), pattern_form(), opt(expr_form()));
    }
    let pattern = dec_pattern(r)?;
    let init = dec_opt_expr(r)?;
    Ok((pattern, init))
}

/// Reads a `case`.
fn dec_case(r: &mut Reader) -> (res: Result<SwitchCase, SnapshotError>)
    requires
        old(r).ok(),
    ensures
        final(r).follows(*old(r)),
        match parse(case_form(), old(r).rest()) {
            Read::Good(t, rest) => res matches Ok(v) && t == case_tree(v) && final(r).rest() == rest
                && final(r).pos > old(r).pos,
            Read::Bad(f) => res matches Err(e) && e.fault() == f,
        },
    decreases old(r).buf@.len() - old(r).pos, 1nat,
{
    proof {
        reveal(case_form);
        parse_tuple_2(r.rest(), opt(expr_form()), list(stmt_form()));
    }
    let test = dec_opt_expr(r)?;
    let body = dec_stmts(r)?;
    Ok(SwitchCase { test, body })
}

/// Reads a `catch`.
fn dec_handler(r: &mut Reader) -> (res: Result<(Option<Pattern>, Vec<Stmt>), SnapshotError>)
    requires
        old(r).ok(),
    ensures
        final(r).follows(*old(r)),
        match parse(handler_form(), old(r).rest()) {
            Read::Good(t, rest) => res matches Ok(v) && t == handler_tree(v) && final(r).rest() == rest
                && final(r).pos > old(r).pos,
            Read::Bad(f) => res matches Err(e) && e.fault() == f,
        },
    decreases old(r).buf@.len() - old(r).pos, 1nat,
{
    proof {
        reveal(handler_form);
        parse_tuple_2(r.rest(), opt(pattern_form()), list(stmt_form()));
    }
    let param = dec_opt_pattern(r)?;
    let body = dec_stmts(r)?;
    Ok((param, body))
}

/// Reads the first part of a `for`.
fn dec_forinit(r: &mut Reader) -> (res: Result<ForInit, SnapshotError>)
    requires
        old(r).ok(),
    ensures
        final(r).follows(*old(r)),
        match parse(Form::Node(Symbol::ForInit), old(r).rest()) {
            Read::Good(t, rest) => res matches Ok(v) && t == for_init_tree(v) && final(r).rest() == rest
                && final(r).pos > old(r).pos,
            Read::Bad(f) => res matches Err(e) && e.fault() == f,
        },
    decreases old(r).buf@.len() - old(r).pos, 0nat,
{
    let ghost b = r.rest();
    proof {
        parse_node(Symbol::ForInit, b);
    }
    let tag = r.u8()?;
    match tag {
        0 => {
            proof {
                assert(shape(Symbol::ForInit, 0) == Some(seq![Form::Node(Symbol::DeclKind), list(decl_form())])) by { reveal(shape); reveal(stmt_shape); reveal(expr_shape); }
                parse_node_2(Symbol::ForInit, b, Form::Node(Symbol::DeclKind), list(decl_form()));
            }
            let kind = dec_declkind(r)?;
            let decls = dec_decls(r)?;
            Ok(ForInit::VarDecl { kind, decls })
        },
        1 => {
            proof {
                assert(shape(Symbol::ForInit, 1) == Some(seq![expr_form()])) by { reveal(shape); reveal(stmt_shape); reveal(expr_shape); }
                parse_node_1(Symbol::ForInit, b, expr_form());
            }
            let e = dec_expr(r)?;
            Ok(ForInit::Expr(e))
        },
        _ => {
            assert(shape(Symbol::ForInit, tag as nat) is None) by { reveal(shape); reveal(stmt_shape); reveal(expr_shape); }
            Err(SnapshotError::BadTag(Symbol::ForInit, tag))
        },
    }
}

/// Reads an exported name.
fn dec_exportspec(r: &mut Reader) -> (res: Result<ExportSpec, SnapshotError>)
    requires
        old(r).ok(),
    ensures
        final(r).follows(*old(r)),
        match parse(export_form(), old(r).rest()) {
            Read::Good(t, rest) => res matches Ok(v) && t == export_spec_tree(v) && final(r).rest() == rest
                && final(r).pos > old(r).pos,
            Read::Bad(f) => res matches Err(e) && e.fault() == f,
        },
{
    proof {
        reveal(export_form);
        parse_tuple_2(r.rest(), Form::Text, Form::Text);
    }
    let local = r.str()?;
    let exported = r.str()?;
    Ok(ExportSpec { local, exported })
}

/// Reads an imported name.
fn dec_importspec(r: &mut Reader) -> (res: Result<ImportSpec, SnapshotError>)
    requires
        old(r).ok(),
    ensures
        final(r).follows(*old(r)),
        match parse(Form::Node(Symbol::ImportSpec), old(r).rest()) {
            Read::Good(t, rest) => res matches Ok(v) && t == import_spec_tree(v) && final(r).rest() == rest
                && final(r).pos > old(r).pos,
            Read::Bad(f) => res matches Err(e) && e.fault() == f,
        },
{
    let ghost b = r.rest();
    proof {
        parse_node(Symbol::ImportSpec, b);
    }
    let tag = r.u8()?;
    match tag {
        0 => {
            proof {
                assert(shape(Symbol::ImportSpec, 0) == Some(seq![Form::Text])) by { reveal(shape); reveal(stmt_shape); reveal(expr_shape); }
                parse_node_1(Symbol::ImportSpec, b, Form::Text);
            }
            let n = r.str()?;
            Ok(ImportSpec::Default(n))
        },
        1 => {
            proof {
                assert(shape(Symbol::ImportSpec, 1) == Some(seq![Form::Text])) by { reveal(shape); reveal(stmt_shape); reveal(expr_shape); }
                parse_node_1(Symbol::ImportSpec, b, Form::Text);
            }
            let n = r.str()?;
            Ok(ImportSpec::Namespace(n))
        },
        2 => {
            proof {
                assert(shape(Symbol::ImportSpec, 2) == Some(seq![Form::Text])) by { reveal(shape); reveal(stmt_shape); reveal(expr_shape); }
                parse_node_1(Symbol::ImportSpec, b, Form::Text);
            }
            let n = r.str()?;
            Ok(ImportSpec::DeferNamespace(n))
        },
        3 => {
            proof {
                assert(shape(Symbol::ImportSpec, 3) == Some(seq![Form::Text])) by { reveal(shape); reveal(stmt_shape); reveal(expr_shape); }
                parse_node_1(Symbol::ImportSpec, b, Form::Text);
            }
            let n = r.str()?;
            Ok(ImportSpec::Source(n))
        },
        4 => {
            proof {
                assert(shape(Symbol::ImportSpec, 4) == Some(seq![Form::Text, Form::Text])) by { reveal(shape); reveal(stmt_shape); reveal(expr_shape); }
                parse_node_2(Symbol::ImportSpec, b, Form::Text, Form::Text);
            }
            let imported = r.str()?;
            let local = r.str()?;
            Ok(ImportSpec::Named { imported, local })
        },
        _ => {
            assert(shape(Symbol::ImportSpec, tag as nat) is None) by { reveal(shape); reveal(stmt_shape); reveal(expr_shape); }
            Err(SnapshotError::BadTag(Symbol::ImportSpec, tag))
        },
    }
}

/// Reads a declaration keyword.
fn dec_declkind(r: &mut Reader) -> (res: Result<DeclKind, SnapshotError>)
    requires
        old(r).ok(),
    ensures
        final(r).follows(*old(r)),
        match parse(Form::Node(Symbol::DeclKind), old(r).rest()) {
            Read::Good(t, rest) => res matches Ok(v) && t == decl_kind_tree(v) && final(r).rest() == rest
                && final(r).pos > old(r).pos,
            Read::Bad(f) => res matches Err(e) && e.fault() == f,
        },
{
    proof {
        parse_node(Symbol::DeclKind, r.rest());
        reveal(shape);
        if r.rest().len() > 0 && shape(Symbol::DeclKind, r.rest()[0] as nat) is Some {
            parse_node_0(Symbol::DeclKind, r.rest());
        }
    }
    let tag = r.u8()?;
    match tag {
        0 => Ok(DeclKind::Var),
        1 => Ok(DeclKind::Let),
        2 => Ok(DeclKind::Const),
        3 => Ok(DeclKind::Using),
        4 => Ok(DeclKind::AwaitUsing),
        _ => Err(SnapshotError::BadTag(Symbol::DeclKind, tag)),
    }
}

// ---- expressions ------------------------------------------------------------------------------

/// Reads an expression.
fn dec_expr(r: &mut Reader) -> (res: Result<Expr, SnapshotError>)
    requires
        old(r).ok(),
    ensures
        final(r).follows(*old(r)),
        match parse(expr_form(), old(r).rest()) {
            Read::Good(t, rest) => res matches Ok(v) && t == expr_tree(v) && final(r).rest() == rest
                && final(r).pos > old(r).pos,
            Read::Bad(f) => res matches Err(e) && e.fault() == f,
        },
    decreases old(r).buf@.len() - old(r).pos, 0nat,
{
    let ghost b = r.rest();
    proof {
        parse_node(Symbol::Expr, b);
    }
    let tag = r.u8()?;
    match tag {
        1 | 2 | 3 | 5 | 6 | 7 | 8 | 9 | 10 | 17 | 33 | 34 => dec_leaf_expr(r, tag, Ghost(b)),
        11 | 12 | 13 | 14 | 29 | 32 => dec_literal_expr(r, tag, Ghost(b)),
        18 | 19 | 20 | 21 | 22 | 23 | 28 => dec_operator_expr(r, tag, Ghost(b)),
        24 | 25 | 26 | 27 | 30 | 31 => dec_access_expr(r, tag, Ghost(b)),
        0 | 4 | 15 | 16 => dec_wrapping_expr(r, tag, Ghost(b)),
        _ => {
            assert(shape(Symbol::Expr, tag as nat) is None) by { reveal(shape); reveal(stmt_shape); reveal(expr_shape); }
            Err(SnapshotError::BadTag(Symbol::Expr, tag))
        },
    }
}

/// Reads the parts of an expression without expressions inside.
#[verifier::spinoff_prover]
fn dec_leaf_expr(r: &mut Reader, tag: u8, Ghost(b): Ghost<Seq<u8>>) -> (res: Result<Expr, SnapshotError>)
    requires
        old(r).ok(),
        b.len() > 0,
        b[0] == tag,
        b.drop_first() == old(r).rest(),
        tag == 1 || tag == 2 || tag == 3 || tag == 5 || tag == 6 || tag == 7 || tag == 8 || tag == 9 || tag == 10 || tag == 17 || tag == 33 || tag == 34,
    ensures
        final(r).follows(*old(r)),
        match parse(expr_form(), b) {
            Read::Good(t, rest) => res matches Ok(v) && t == expr_tree(v) && final(r).rest() == rest,
            Read::Bad(f) => res matches Err(e) && e.fault() == f,
        },
    decreases old(r).buf@.len() - old(r).pos, 2nat,
{
    match tag {
        1 => {
            proof {
                assert(shape(Symbol::Expr, 1) == Some(seq![Form::Double])) by { reveal(shape); reveal(stmt_shape); reveal(expr_shape); }
                parse_node_1(Symbol::Expr, b, Form::Double);
            }
            let n = r.double()?;
            Ok(Expr::Num(n))
        },
        2 => {
            proof {
                assert(shape(Symbol::Expr, 2) == Some(seq![Form::Integer])) by { reveal(shape); reveal(stmt_shape); reveal(expr_shape); }
                parse_node_1(Symbol::Expr, b, Form::Integer);
            }
            let b = r.integer()?;
            Ok(Expr::BigInt(b))
        },
        3 => {
            proof {
                assert(shape(Symbol::Expr, 3) == Some(seq![Form::Text])) by { reveal(shape); reveal(stmt_shape); reveal(expr_shape); }
                parse_node_1(Symbol::Expr, b, Form::Text);
            }
            let s = r.str()?;
            Ok(Expr::Str(s))
        },
        5 => {
            proof {
                assert(shape(Symbol::Expr, 5) == Some(seq![Form::Bool])) by { reveal(shape); reveal(stmt_shape); reveal(expr_shape); }
                parse_node_1(Symbol::Expr, b, Form::Bool);
            }
            let b = r.bool()?;
            Ok(Expr::Bool(b))
        },
        6 => {
            proof {
                assert(shape(Symbol::Expr, 6) == Some(Seq::<Form>::empty())) by { reveal(shape); reveal(stmt_shape); reveal(expr_shape); }
                parse_node_0(Symbol::Expr, b);
            }
            Ok(Expr::Null)
        },
        7 => {
            proof {
                assert(shape(Symbol::Expr, 7) == Some(Seq::<Form>::empty())) by { reveal(shape); reveal(stmt_shape); reveal(expr_shape); }
                parse_node_0(Symbol::Expr, b);
            }
            Ok(Expr::Undefined)
        },
        8 => {
            proof {
                assert(shape(Symbol::Expr, 8) == Some(seq![Form::Text])) by { reveal(shape); reveal(stmt_shape); reveal(expr_shape); }
                parse_node_1(Symbol::Expr, b, Form::Text);
            }
            let n = r.str()?;
            Ok(Expr::Ident(n))
        },
        9 => {
            proof {
                assert(shape(Symbol::Expr, 9) == Some(Seq::<Form>::empty())) by { reveal(shape); reveal(stmt_shape); reveal(expr_shape); }
                parse_node_0(Symbol::Expr, b);
            }
            Ok(Expr::This)
        },
        10 => {
            proof {
                assert(shape(Symbol::Expr, 10) == Some(seq![Form::Text, Form::Text])) by { reveal(shape); reveal(stmt_shape); reveal(expr_shape); }
                parse_node_2(Symbol::Expr, b, Form::Text, Form::Text);
            }
            let body = r.str()?;
            let flags = r.str()?;
            Ok(Expr::Regex { body, flags })
        },
        17 => {
            proof {
                assert(shape(Symbol::Expr, 17) == Some(Seq::<Form>::empty())) by { reveal(shape); reveal(stmt_shape); reveal(expr_shape); }
                parse_node_0(Symbol::Expr, b);
            }
            Ok(Expr::Super)
        },
        33 => {
            proof {
                assert(shape(Symbol::Expr, 33) == Some(Seq::<Form>::empty())) by { reveal(shape); reveal(stmt_shape); reveal(expr_shape); }
                parse_node_0(Symbol::Expr, b);
            }
            Ok(Expr::ImportMeta)
        },
        34 => {
            proof {
                assert(shape(Symbol::Expr, 34) == Some(Seq::<Form>::empty())) by { reveal(shape); reveal(stmt_shape); reveal(expr_shape); }
                parse_node_0(Symbol::Expr, b);
            }
            Ok(Expr::NewTarget)
        },
        _ => Err(SnapshotError::BadTag(Symbol::Expr, tag)),
    }
}

/// Reads the parts of an expression that makes a value.
#[verifier::spinoff_prover]
fn dec_literal_expr(r: &mut Reader, tag: u8, Ghost(b): Ghost<Seq<u8>>) -> (res: Result<Expr, SnapshotError>)
    requires
        old(r).ok(),
        b.len() > 0,
        b[0] == tag,
        b.drop_first() == old(r).rest(),
        tag == 11 || tag == 12 || tag == 13 || tag == 14 || tag == 29 || tag == 32,
    ensures
        final(r).follows(*old(r)),
        match parse(expr_form(), b) {
            Read::Good(t, rest) => res matches Ok(v) && t == expr_tree(v) && final(r).rest() == rest,
            Read::Bad(f) => res matches Err(e) && e.fault() == f,
        },
    decreases old(r).buf@.len() - old(r).pos, 2nat,
{
    match tag {
        11 => {
            proof {
                assert(shape(Symbol::Expr, 11) == Some(seq![list(Form::Node(Symbol::ArrayElem))])) by { reveal(shape); reveal(stmt_shape); reveal(expr_shape); }
                parse_node_1(Symbol::Expr, b, list(Form::Node(Symbol::ArrayElem)));
            }
            let elems = dec_array_elems(r)?;
            Ok(Expr::Array(elems))
        },
        12 => {
            proof {
                assert(shape(Symbol::Expr, 12) == Some(seq![list(Form::Node(Symbol::PropDef))])) by { reveal(shape); reveal(stmt_shape); reveal(expr_shape); }
                parse_node_1(Symbol::Expr, b, list(Form::Node(Symbol::PropDef)));
            }
            let props = dec_propdefs(r)?;
            Ok(Expr::Object(props))
        },
        13 => {
            proof {
                assert(shape(Symbol::Expr, 13) == Some(seq![function_form()])) by { reveal(shape); reveal(stmt_shape); reveal(expr_shape); }
                parse_node_1(Symbol::Expr, b, function_form());
            }
            let f = Rc::new(dec_function(r)?);
            Ok(Expr::Func(f))
        },
        14 => {
            proof {
                assert(shape(Symbol::Expr, 14) == Some(seq![class_form()])) by { reveal(shape); reveal(stmt_shape); reveal(expr_shape); }
                parse_node_1(Symbol::Expr, b, class_form());
            }
            let c = Rc::new(dec_class(r)?);
            Ok(Expr::Class(c))
        },
        29 => {
            proof {
                assert(shape(Symbol::Expr, 29) == Some(seq![expr_form(), list(quasi_form()), list(expr_form())])) by { reveal(shape); reveal(stmt_shape); reveal(expr_shape); }
                parse_node_3(Symbol::Expr, b, expr_form(), list(quasi_form()), list(expr_form()));
            }
            let head = Box::new(dec_expr(r)?);
            let pieces = dec_quasis(r)?;
            let subs = dec_exprs(r)?;
            Ok(Expr::TaggedTemplate { tag: head, quasis: pieces, subs })
        },
        32 => {
            proof {
                assert(shape(Symbol::Expr, 32) == Some(seq![expr_form(), Form::Node(Symbol::ImportPhase), opt(expr_form())])) by { reveal(shape); reveal(stmt_shape); reveal(expr_shape); }
                parse_node_3(Symbol::Expr, b, expr_form(), Form::Node(Symbol::ImportPhase), opt(expr_form()));
            }
            let spec = Box::new(dec_expr(r)?);
            let phase = dec_importphase(r)?;
            let options = dec_opt_boxed_expr(r)?;
            Ok(Expr::ImportCall { spec, phase, options })
        },
        _ => Err(SnapshotError::BadTag(Symbol::Expr, tag)),
    }
}

/// Reads the parts of an operator.
#[verifier::spinoff_prover]
fn dec_operator_expr(r: &mut Reader, tag: u8, Ghost(b): Ghost<Seq<u8>>) -> (res: Result<Expr, SnapshotError>)
    requires
        old(r).ok(),
        b.len() > 0,
        b[0] == tag,
        b.drop_first() == old(r).rest(),
        tag == 18 || tag == 19 || tag == 20 || tag == 21 || tag == 22 || tag == 23 || tag == 28,
    ensures
        final(r).follows(*old(r)),
        match parse(expr_form(), b) {
            Read::Good(t, rest) => res matches Ok(v) && t == expr_tree(v) && final(r).rest() == rest,
            Read::Bad(f) => res matches Err(e) && e.fault() == f,
        },
    decreases old(r).buf@.len() - old(r).pos, 2nat,
{
    match tag {
        18 => {
            proof {
                assert(shape(Symbol::Expr, 18) == Some(seq![Form::Operator, expr_form()])) by { reveal(shape); reveal(stmt_shape); reveal(expr_shape); }
                parse_node_2(Symbol::Expr, b, Form::Operator, expr_form());
            }
            let op = r.operator()?;
            let arg = Box::new(dec_expr(r)?);
            Ok(Expr::Unary { op, arg })
        },
        19 => {
            proof {
                assert(shape(Symbol::Expr, 19) == Some(seq![Form::Operator, Form::Bool, expr_form()])) by { reveal(shape); reveal(stmt_shape); reveal(expr_shape); }
                parse_node_3(Symbol::Expr, b, Form::Operator, Form::Bool, expr_form());
            }
            let op = r.operator()?;
            let prefix = r.bool()?;
            let arg = Box::new(dec_expr(r)?);
            Ok(Expr::Update { op, prefix, arg })
        },
        20 => {
            proof {
                assert(shape(Symbol::Expr, 20) == Some(seq![Form::Operator, expr_form(), expr_form()])) by { reveal(shape); reveal(stmt_shape); reveal(expr_shape); }
                parse_node_3(Symbol::Expr, b, Form::Operator, expr_form(), expr_form());
            }
            let op = r.operator()?;
            let left = Box::new(dec_expr(r)?);
            let right = Box::new(dec_expr(r)?);
            Ok(Expr::Binary { op, left, right })
        },
        21 => {
            proof {
                assert(shape(Symbol::Expr, 21) == Some(seq![Form::Operator, expr_form(), expr_form()])) by { reveal(shape); reveal(stmt_shape); reveal(expr_shape); }
                parse_node_3(Symbol::Expr, b, Form::Operator, expr_form(), expr_form());
            }
            let op = r.operator()?;
            let left = Box::new(dec_expr(r)?);
            let right = Box::new(dec_expr(r)?);
            Ok(Expr::Logical { op, left, right })
        },
        22 => {
            proof {
                assert(shape(Symbol::Expr, 22) == Some(seq![Form::Operator, expr_form(), expr_form()])) by { reveal(shape); reveal(stmt_shape); reveal(expr_shape); }
                parse_node_3(Symbol::Expr, b, Form::Operator, expr_form(), expr_form());
            }
            let op = r.operator()?;
            let target = Box::new(dec_expr(r)?);
            let value = Box::new(dec_expr(r)?);
            Ok(Expr::Assign { op, target, value })
        },
        23 => {
            proof {
                assert(shape(Symbol::Expr, 23) == Some(seq![expr_form(), expr_form(), expr_form()])) by { reveal(shape); reveal(stmt_shape); reveal(expr_shape); }
                parse_node_3(Symbol::Expr, b, expr_form(), expr_form(), expr_form());
            }
            let test = Box::new(dec_expr(r)?);
            let cons = Box::new(dec_expr(r)?);
            let alt = Box::new(dec_expr(r)?);
            Ok(Expr::Cond { test, cons, alt })
        },
        28 => {
            proof {
                assert(shape(Symbol::Expr, 28) == Some(seq![list(expr_form())])) by { reveal(shape); reveal(stmt_shape); reveal(expr_shape); }
                parse_node_1(Symbol::Expr, b, list(expr_form()));
            }
            let exprs = dec_exprs(r)?;
            Ok(Expr::Sequence(exprs))
        },
        _ => Err(SnapshotError::BadTag(Symbol::Expr, tag)),
    }
}

/// Reads the parts of a call or an access.
#[verifier::spinoff_prover]
fn dec_access_expr(r: &mut Reader, tag: u8, Ghost(b): Ghost<Seq<u8>>) -> (res: Result<Expr, SnapshotError>)
    requires
        old(r).ok(),
        b.len() > 0,
        b[0] == tag,
        b.drop_first() == old(r).rest(),
        tag == 24 || tag == 25 || tag == 26 || tag == 27 || tag == 30 || tag == 31,
    ensures
        final(r).follows(*old(r)),
        match parse(expr_form(), b) {
            Read::Good(t, rest) => res matches Ok(v) && t == expr_tree(v) && final(r).rest() == rest,
            Read::Bad(f) => res matches Err(e) && e.fault() == f,
        },
    decreases old(r).buf@.len() - old(r).pos, 2nat,
{
    match tag {
        24 => {
            proof {
                assert(shape(Symbol::Expr, 24) == Some(seq![expr_form(), list(Form::Node(Symbol::ArrayElem)), Form::Bool])) by { reveal(shape); reveal(stmt_shape); reveal(expr_shape); }
                parse_node_3(Symbol::Expr, b, expr_form(), list(Form::Node(Symbol::ArrayElem)), Form::Bool);
            }
            let callee = Box::new(dec_expr(r)?);
            let args = dec_array_elems(r)?;
            let optional = r.bool()?;
            Ok(Expr::Call { callee, args, optional })
        },
        25 => {
            proof {
                assert(shape(Symbol::Expr, 25) == Some(seq![expr_form(), list(Form::Node(Symbol::ArrayElem))])) by { reveal(shape); reveal(stmt_shape); reveal(expr_shape); }
                parse_node_2(Symbol::Expr, b, expr_form(), list(Form::Node(Symbol::ArrayElem)));
            }
            let callee = Box::new(dec_expr(r)?);
            let args = dec_array_elems(r)?;
            Ok(Expr::New { callee, args })
        },
        26 => {
            proof {
                assert(shape(Symbol::Expr, 26) == Some(seq![expr_form(), Form::Text, Form::Bool])) by { reveal(shape); reveal(stmt_shape); reveal(expr_shape); }
                parse_node_3(Symbol::Expr, b, expr_form(), Form::Text, Form::Bool);
            }
            let obj = Box::new(dec_expr(r)?);
            let prop = r.str()?;
            let optional = r.bool()?;
            Ok(Expr::Member { obj, prop, optional })
        },
        27 => {
            proof {
                assert(shape(Symbol::Expr, 27) == Some(seq![expr_form(), expr_form(), Form::Bool])) by { reveal(shape); reveal(stmt_shape); reveal(expr_shape); }
                parse_node_3(Symbol::Expr, b, expr_form(), expr_form(), Form::Bool);
            }
            let obj = Box::new(dec_expr(r)?);
            let index = Box::new(dec_expr(r)?);
            let optional = r.bool()?;
            Ok(Expr::Index { obj, index, optional })
        },
        30 => {
            proof {
                assert(shape(Symbol::Expr, 30) == Some(seq![expr_form()])) by { reveal(shape); reveal(stmt_shape); reveal(expr_shape); }
                parse_node_1(Symbol::Expr, b, expr_form());
            }
            let e = Box::new(dec_expr(r)?);
            Ok(Expr::OptionalChain(e))
        },
        31 => {
            proof {
                assert(shape(Symbol::Expr, 31) == Some(seq![Form::Text, expr_form()])) by { reveal(shape); reveal(stmt_shape); reveal(expr_shape); }
                parse_node_2(Symbol::Expr, b, Form::Text, expr_form());
            }
            let name = r.str()?;
            let obj = Box::new(dec_expr(r)?);
            Ok(Expr::PrivateIn { name, obj })
        },
        _ => Err(SnapshotError::BadTag(Symbol::Expr, tag)),
    }
}

/// Reads the parts of an expression round another.
#[verifier::spinoff_prover]
fn dec_wrapping_expr(r: &mut Reader, tag: u8, Ghost(b): Ghost<Seq<u8>>) -> (res: Result<Expr, SnapshotError>)
    requires
        old(r).ok(),
        b.len() > 0,
        b[0] == tag,
        b.drop_first() == old(r).rest(),
        tag == 0 || tag == 4 || tag == 15 || tag == 16,
    ensures
        final(r).follows(*old(r)),
        match parse(expr_form(), b) {
            Read::Good(t, rest) => res matches Ok(v) && t == expr_tree(v) && final(r).rest() == rest,
            Read::Bad(f) => res matches Err(e) && e.fault() == f,
        },
    decreases old(r).buf@.len() - old(r).pos, 2nat,
{
    match tag {
        0 => {
            proof {
                assert(shape(Symbol::Expr, 0) == Some(seq![expr_form()])) by { reveal(shape); reveal(stmt_shape); reveal(expr_shape); }
                parse_node_1(Symbol::Expr, b, expr_form());
            }
            let e = Box::new(dec_expr(r)?);
            Ok(Expr::Paren(e))
        },
        4 => {
            proof {
                assert(shape(Symbol::Expr, 4) == Some(seq![expr_form()])) by { reveal(shape); reveal(stmt_shape); reveal(expr_shape); }
                parse_node_1(Symbol::Expr, b, expr_form());
            }
            let e = Box::new(dec_expr(r)?);
            Ok(Expr::ToStr(e))
        },
        15 => {
            proof {
                assert(shape(Symbol::Expr, 15) == Some(seq![Form::Bool, opt(expr_form())])) by { reveal(shape); reveal(stmt_shape); reveal(expr_shape); }
                parse_node_2(Symbol::Expr, b, Form::Bool, opt(expr_form()));
            }
            let delegate = r.bool()?;
            let arg = dec_opt_boxed_expr(r)?;
            Ok(Expr::Yield { delegate, arg })
        },
        16 => {
            proof {
                assert(shape(Symbol::Expr, 16) == Some(seq![expr_form()])) by { reveal(shape); reveal(stmt_shape); reveal(expr_shape); }
                parse_node_1(Symbol::Expr, b, expr_form());
            }
            let e = Box::new(dec_expr(r)?);
            Ok(Expr::Await(e))
        },
        _ => Err(SnapshotError::BadTag(Symbol::Expr, tag)),
    }
}

/// Reads the phase of an `import(..)`.
fn dec_importphase(r: &mut Reader) -> (res: Result<ImportPhase, SnapshotError>)
    requires
        old(r).ok(),
    ensures
        final(r).follows(*old(r)),
        match parse(Form::Node(Symbol::ImportPhase), old(r).rest()) {
            Read::Good(t, rest) => res matches Ok(v) && t == import_phase_tree(v) && final(r).rest() == rest
                && final(r).pos > old(r).pos,
            Read::Bad(f) => res matches Err(e) && e.fault() == f,
        },
{
    proof {
        parse_node(Symbol::ImportPhase, r.rest());
        reveal(shape);
        if r.rest().len() > 0 && shape(Symbol::ImportPhase, r.rest()[0] as nat) is Some {
            parse_node_0(Symbol::ImportPhase, r.rest());
        }
    }
    let tag = r.u8()?;
    match tag {
        0 => Ok(ImportPhase::Evaluation),
        1 => Ok(ImportPhase::Source),
        2 => Ok(ImportPhase::Defer),
        _ => Err(SnapshotError::BadTag(Symbol::ImportPhase, tag)),
    }
}

/// Reads a piece of a template.
fn dec_quasi(r: &mut Reader) -> (res: Result<(Option<String>, String), SnapshotError>)
    requires
        old(r).ok(),
    ensures
        final(r).follows(*old(r)),
        match parse(quasi_form(), old(r).rest()) {
            Read::Good(t, rest) => res matches Ok(v) && t == quasi_tree(v) && final(r).rest() == rest
                && final(r).pos > old(r).pos,
            Read::Bad(f) => res matches Err(e) && e.fault() == f,
        },
{
    proof {
        reveal(quasi_form);
        parse_tuple_2(r.rest(), opt(Form::Text), Form::Text);
    }
    let cooked = dec_opt_str(r)?;
    let raw = r.str()?;
    Ok((cooked, raw))
}

/// Reads an element of an array or an argument.
fn dec_array_elem(r: &mut Reader) -> (res: Result<ArrayElem, SnapshotError>)
    requires
        old(r).ok(),
    ensures
        final(r).follows(*old(r)),
        match parse(Form::Node(Symbol::ArrayElem), old(r).rest()) {
            Read::Good(t, rest) => res matches Ok(v) && t == elem_tree(v) && final(r).rest() == rest
                && final(r).pos > old(r).pos,
            Read::Bad(f) => res matches Err(e) && e.fault() == f,
        },
    decreases old(r).buf@.len() - old(r).pos, 0nat,
{
    let ghost b = r.rest();
    proof {
        parse_node(Symbol::ArrayElem, b);
    }
    let tag = r.u8()?;
    match tag {
        0 => {
            proof {
                assert(shape(Symbol::ArrayElem, 0) == Some(seq![expr_form()])) by { reveal(shape); reveal(stmt_shape); reveal(expr_shape); }
                parse_node_1(Symbol::ArrayElem, b, expr_form());
            }
            let e = dec_expr(r)?;
            Ok(ArrayElem::Item(e))
        },
        1 => {
            proof {
                assert(shape(Symbol::ArrayElem, 1) == Some(seq![expr_form()])) by { reveal(shape); reveal(stmt_shape); reveal(expr_shape); }
                parse_node_1(Symbol::ArrayElem, b, expr_form());
            }
            let e = dec_expr(r)?;
            Ok(ArrayElem::Spread(e))
        },
        2 => {
            proof {
                assert(shape(Symbol::ArrayElem, 2) == Some(Seq::<Form>::empty())) by { reveal(shape); reveal(stmt_shape); reveal(expr_shape); }
                parse_node_0(Symbol::ArrayElem, b);
            }
            Ok(ArrayElem::Hole)
        },
        _ => {
            assert(shape(Symbol::ArrayElem, tag as nat) is None) by { reveal(shape); reveal(stmt_shape); reveal(expr_shape); }
            Err(SnapshotError::BadTag(Symbol::ArrayElem, tag))
        },
    }
}

/// Reads a property of an object literal.
fn dec_propdef(r: &mut Reader) -> (res: Result<PropDef, SnapshotError>)
    requires
        old(r).ok(),
    ensures
        final(r).follows(*old(r)),
        match parse(Form::Node(Symbol::PropDef), old(r).rest()) {
            Read::Good(t, rest) => res matches Ok(v) && t == prop_def_tree(v) && final(r).rest() == rest
                && final(r).pos > old(r).pos,
            Read::Bad(f) => res matches Err(e) && e.fault() == f,
        },
    decreases old(r).buf@.len() - old(r).pos, 0nat,
{
    let ghost b = r.rest();
    proof {
        parse_node(Symbol::PropDef, b);
    }
    let tag = r.u8()?;
    match tag {
        0 => {
            proof {
                assert(shape(Symbol::PropDef, 0) == Some(seq![key_form(), expr_form()])) by { reveal(shape); reveal(stmt_shape); reveal(expr_shape); }
                parse_node_2(Symbol::PropDef, b, key_form(), expr_form());
            }
            let key = dec_propkey(r)?;
            let value = dec_expr(r)?;
            Ok(PropDef::KeyValue { key, value })
        },
        1 => {
            proof {
                assert(shape(Symbol::PropDef, 1) == Some(seq![key_form(), expr_form()])) by { reveal(shape); reveal(stmt_shape); reveal(expr_shape); }
                parse_node_2(Symbol::PropDef, b, key_form(), expr_form());
            }
            let key = dec_propkey(r)?;
            let value = dec_expr(r)?;
            Ok(PropDef::Cover { key, value })
        },
        2 => {
            proof {
                assert(shape(Symbol::PropDef, 2) == Some(seq![key_form(), function_form()])) by { reveal(shape); reveal(stmt_shape); reveal(expr_shape); }
                parse_node_2(Symbol::PropDef, b, key_form(), function_form());
            }
            let key = dec_propkey(r)?;
            let func = Rc::new(dec_function(r)?);
            Ok(PropDef::Method { key, func })
        },
        3 => {
            proof {
                assert(shape(Symbol::PropDef, 3) == Some(seq![key_form(), function_form()])) by { reveal(shape); reveal(stmt_shape); reveal(expr_shape); }
                parse_node_2(Symbol::PropDef, b, key_form(), function_form());
            }
            let key = dec_propkey(r)?;
            let func = Rc::new(dec_function(r)?);
            Ok(PropDef::Getter { key, func })
        },
        4 => {
            proof {
                assert(shape(Symbol::PropDef, 4) == Some(seq![key_form(), function_form()])) by { reveal(shape); reveal(stmt_shape); reveal(expr_shape); }
                parse_node_2(Symbol::PropDef, b, key_form(), function_form());
            }
            let key = dec_propkey(r)?;
            let func = Rc::new(dec_function(r)?);
            Ok(PropDef::Setter { key, func })
        },
        5 => {
            proof {
                assert(shape(Symbol::PropDef, 5) == Some(seq![expr_form()])) by { reveal(shape); reveal(stmt_shape); reveal(expr_shape); }
                parse_node_1(Symbol::PropDef, b, expr_form());
            }
            let e = dec_expr(r)?;
            Ok(PropDef::Spread(e))
        },
        6 => {
            proof {
                assert(shape(Symbol::PropDef, 6) == Some(seq![expr_form()])) by { reveal(shape); reveal(stmt_shape); reveal(expr_shape); }
                parse_node_1(Symbol::PropDef, b, expr_form());
            }
            let e = dec_expr(r)?;
            Ok(PropDef::Proto(e))
        },
        _ => {
            assert(shape(Symbol::PropDef, tag as nat) is None) by { reveal(shape); reveal(stmt_shape); reveal(expr_shape); }
            Err(SnapshotError::BadTag(Symbol::PropDef, tag))
        },
    }
}

/// Reads a property key.
fn dec_propkey(r: &mut Reader) -> (res: Result<PropKey, SnapshotError>)
    requires
        old(r).ok(),
    ensures
        final(r).follows(*old(r)),
        match parse(key_form(), old(r).rest()) {
            Read::Good(t, rest) => res matches Ok(v) && t == prop_key_tree(v) && final(r).rest() == rest
                && final(r).pos > old(r).pos,
            Read::Bad(f) => res matches Err(e) && e.fault() == f,
        },
    decreases old(r).buf@.len() - old(r).pos, 0nat,
{
    let ghost b = r.rest();
    proof {
        parse_node(Symbol::PropKey, b);
    }
    let tag = r.u8()?;
    match tag {
        0 => {
            proof {
                assert(shape(Symbol::PropKey, 0) == Some(seq![Form::Text])) by { reveal(shape); reveal(stmt_shape); reveal(expr_shape); }
                parse_node_1(Symbol::PropKey, b, Form::Text);
            }
            let n = r.str()?;
            Ok(PropKey::Ident(n))
        },
        1 => {
            proof {
                assert(shape(Symbol::PropKey, 1) == Some(seq![Form::Text])) by { reveal(shape); reveal(stmt_shape); reveal(expr_shape); }
                parse_node_1(Symbol::PropKey, b, Form::Text);
            }
            let s = r.str()?;
            Ok(PropKey::Str(s))
        },
        2 => {
            proof {
                assert(shape(Symbol::PropKey, 2) == Some(seq![Form::Double])) by { reveal(shape); reveal(stmt_shape); reveal(expr_shape); }
                parse_node_1(Symbol::PropKey, b, Form::Double);
            }
            let n = r.double()?;
            Ok(PropKey::Num(n))
        },
        3 => {
            proof {
                assert(shape(Symbol::PropKey, 3) == Some(seq![expr_form()])) by { reveal(shape); reveal(stmt_shape); reveal(expr_shape); }
                parse_node_1(Symbol::PropKey, b, expr_form());
            }
            let e = dec_expr(r)?;
            Ok(PropKey::Computed(e))
        },
        _ => {
            assert(shape(Symbol::PropKey, tag as nat) is None) by { reveal(shape); reveal(stmt_shape); reveal(expr_shape); }
            Err(SnapshotError::BadTag(Symbol::PropKey, tag))
        },
    }
}

// ---- patterns, functions and classes ------------------------------------------------------------

/// Reads a pattern.
fn dec_pattern(r: &mut Reader) -> (res: Result<Pattern, SnapshotError>)
    requires
        old(r).ok(),
    ensures
        final(r).follows(*old(r)),
        match parse(pattern_form(), old(r).rest()) {
            Read::Good(t, rest) => res matches Ok(v) && t == pattern_tree(v) && final(r).rest() == rest
                && final(r).pos > old(r).pos,
            Read::Bad(f) => res matches Err(e) && e.fault() == f,
        },
    decreases old(r).buf@.len() - old(r).pos, 0nat,
{
    let ghost b = r.rest();
    proof {
        parse_node(Symbol::Pattern, b);
    }
    let tag = r.u8()?;
    match tag {
        0 => {
            proof {
                assert(shape(Symbol::Pattern, 0) == Some(seq![Form::Text])) by { reveal(shape); reveal(stmt_shape); reveal(expr_shape); }
                parse_node_1(Symbol::Pattern, b, Form::Text);
            }
            let n = r.str()?;
            Ok(Pattern::Ident(n))
        },
        1 => {
            proof {
                assert(shape(Symbol::Pattern, 1) == Some(seq![list(Form::Node(Symbol::ArrayPatElem))])) by { reveal(shape); reveal(stmt_shape); reveal(expr_shape); }
                parse_node_1(Symbol::Pattern, b, list(Form::Node(Symbol::ArrayPatElem)));
            }
            let elems = dec_patelems(r)?;
            Ok(Pattern::Array(elems))
        },
        2 => {
            proof {
                assert(shape(Symbol::Pattern, 2) == Some(seq![list(pat_prop_form()), opt(Form::Text)])) by { reveal(shape); }
                parse_node_2(Symbol::Pattern, b, list(pat_prop_form()), opt(Form::Text));
            }
            let props = dec_patprops(r)?;
            let rest = dec_opt_str(r)?;
            Ok(Pattern::Object(ObjectPat { props, rest }))
        },
        3 => {
            proof {
                assert(shape(Symbol::Pattern, 3) == Some(seq![expr_form()])) by { reveal(shape); reveal(stmt_shape); reveal(expr_shape); }
                parse_node_1(Symbol::Pattern, b, expr_form());
            }
            let e = Box::new(dec_expr(r)?);
            Ok(Pattern::Member(e))
        },
        _ => {
            assert(shape(Symbol::Pattern, tag as nat) is None) by { reveal(shape); reveal(stmt_shape); reveal(expr_shape); }
            Err(SnapshotError::BadTag(Symbol::Pattern, tag))
        },
    }
}

/// Reads an element of an array pattern.
fn dec_patelem(r: &mut Reader) -> (res: Result<ArrayPatElem, SnapshotError>)
    requires
        old(r).ok(),
    ensures
        final(r).follows(*old(r)),
        match parse(Form::Node(Symbol::ArrayPatElem), old(r).rest()) {
            Read::Good(t, rest) => res matches Ok(v) && t == pat_elem_tree(v) && final(r).rest() == rest
                && final(r).pos > old(r).pos,
            Read::Bad(f) => res matches Err(e) && e.fault() == f,
        },
    decreases old(r).buf@.len() - old(r).pos, 0nat,
{
    let ghost b = r.rest();
    proof {
        parse_node(Symbol::ArrayPatElem, b);
    }
    let tag = r.u8()?;
    match tag {
        0 => {
            proof {
                assert(shape(Symbol::ArrayPatElem, 0) == Some(Seq::<Form>::empty())) by { reveal(shape); reveal(stmt_shape); reveal(expr_shape); }
                parse_node_0(Symbol::ArrayPatElem, b);
            }
            Ok(ArrayPatElem::Hole)
        },
        1 => {
            proof {
                assert(shape(Symbol::ArrayPatElem, 1) == Some(seq![pattern_form(), opt(expr_form())])) by { reveal(shape); reveal(stmt_shape); reveal(expr_shape); }
                parse_node_2(Symbol::ArrayPatElem, b, pattern_form(), opt(expr_form()));
            }
            let pattern = dec_pattern(r)?;
            let default = dec_opt_expr(r)?;
            Ok(ArrayPatElem::Elem { pattern, default })
        },
        2 => {
            proof {
                assert(shape(Symbol::ArrayPatElem, 2) == Some(seq![pattern_form()])) by { reveal(shape); reveal(stmt_shape); reveal(expr_shape); }
                parse_node_1(Symbol::ArrayPatElem, b, pattern_form());
            }
            let p = dec_pattern(r)?;
            Ok(ArrayPatElem::Rest(p))
        },
        _ => {
            assert(shape(Symbol::ArrayPatElem, tag as nat) is None) by { reveal(shape); reveal(stmt_shape); reveal(expr_shape); }
            Err(SnapshotError::BadTag(Symbol::ArrayPatElem, tag))
        },
    }
}

/// Reads a property of an object pattern.
fn dec_patprop(r: &mut Reader) -> (res: Result<ObjPatProp, SnapshotError>)
    requires
        old(r).ok(),
    ensures
        final(r).follows(*old(r)),
        match parse(pat_prop_form(), old(r).rest()) {
            Read::Good(t, rest) => res matches Ok(v) && t == pat_prop_tree(v) && final(r).rest() == rest
                && final(r).pos > old(r).pos,
            Read::Bad(f) => res matches Err(e) && e.fault() == f,
        },
    decreases old(r).buf@.len() - old(r).pos, 1nat,
{
    proof {
        reveal(pat_prop_form);
        parse_tuple_3(r.rest(), key_form(), pattern_form(), opt(expr_form()));
    }
    let key = dec_propkey(r)?;
    let value = dec_pattern(r)?;
    let default = dec_opt_expr(r)?;
    Ok(ObjPatProp { key, value, default })
}

/// Reads a parameter.
fn dec_param(r: &mut Reader) -> (res: Result<Param, SnapshotError>)
    requires
        old(r).ok(),
    ensures
        final(r).follows(*old(r)),
        match parse(param_form(), old(r).rest()) {
            Read::Good(t, rest) => res matches Ok(v) && t == param_tree(v) && final(r).rest() == rest
                && final(r).pos > old(r).pos,
            Read::Bad(f) => res matches Err(e) && e.fault() == f,
        },
    decreases old(r).buf@.len() - old(r).pos, 1nat,
{
    proof {
        reveal(param_form);
        parse_tuple_3(r.rest(), pattern_form(), opt(expr_form()), Form::Bool);
    }
    let pattern = dec_pattern(r)?;
    let default = dec_opt_expr(r)?;
    let rest = r.bool()?;
    Ok(Param { pattern, default, rest })
}

/// Reads a function.
fn dec_function(r: &mut Reader) -> (res: Result<Function, SnapshotError>)
    requires
        old(r).ok(),
    ensures
        final(r).follows(*old(r)),
        match parse(function_form(), old(r).rest()) {
            Read::Good(t, rest) => res matches Ok(v) && t == function_tree(&v) && final(r).rest() == rest
                && final(r).pos > old(r).pos,
            Read::Bad(f) => res matches Err(e) && e.fault() == f,
        },
    decreases old(r).buf@.len() - old(r).pos, 1nat,
{
    proof {
        reveal(function_form);
        parse_tuple_5(r.rest(), opt(Form::Text), list(param_form()), list(stmt_form()), Form::Flags, opt(Form::Text));
    }
    let name = dec_opt_str(r)?;
    let params = dec_params(r)?;
    let body = dec_stmts(r)?;
    proof {
        parse_leaf(r.rest());
    }
    let flags = r.u8()?;
    let source = dec_opt_str(r)?;
    Ok(with_switches(name, params, body, flags, source))
}

/// A function with the switches that a byte holds; the top bit is ignored.
fn with_switches(
    name: Option<String>,
    params: Vec<Param>,
    body: Vec<Stmt>,
    flags: u8,
    source: Option<String>,
) -> (f: Function)
    ensures
        f.name == name,
        f.params == params,
        f.body == body,
        f.source == source,
        function_flags(&f) == (flags % 128) as nat,
{
    assert(flags % 2 + 2 * (flags / 2 % 2) + 4 * (flags / 4 % 2) + 8 * (flags / 8 % 2) + 16 * (flags
        / 16 % 2) + 32 * (flags / 32 % 2) + 64 * (flags / 64 % 2) == flags % 128) by (bit_vector);
    Function {
        name,
        params,
        body,
        is_arrow: flags % 2 != 0,
        is_strict: flags / 2 % 2 != 0,
        expr_body: flags / 4 % 2 != 0,
        is_generator: flags / 8 % 2 != 0,
        is_async: flags / 16 % 2 != 0,
        is_method: flags / 32 % 2 != 0,
        is_fn_expr: flags / 64 % 2 != 0,
        source,
    }
}

/// Reads a class.
fn dec_class(r: &mut Reader) -> (res: Result<Class, SnapshotError>)
    requires
        old(r).ok(),
    ensures
        final(r).follows(*old(r)),
        match parse(class_form(), old(r).rest()) {
            Read::Good(t, rest) => res matches Ok(v) && t == class_tree(&v) && final(r).rest() == rest
                && final(r).pos > old(r).pos,
            Read::Bad(f) => res matches Err(e) && e.fault() == f,
        },
    decreases old(r).buf@.len() - old(r).pos, 1nat,
{
    proof {
        reveal(class_form);
        parse_tuple_5(r.rest(), opt(Form::Text), opt(expr_form()), list(member_form()), list(expr_form()), opt(Form::Text));
    }
    let name = dec_opt_str(r)?;
    let superclass = dec_opt_boxed_expr(r)?;
    let members = dec_members(r)?;
    let decorators = dec_exprs(r)?;
    let source = dec_opt_str(r)?;
    Ok(Class { name, superclass, members, decorators, source })
}

/// Reads a class member.
fn dec_member(r: &mut Reader) -> (res: Result<ClassMember, SnapshotError>)
    requires
        old(r).ok(),
    ensures
        final(r).follows(*old(r)),
        match parse(member_form(), old(r).rest()) {
            Read::Good(t, rest) => res matches Ok(v) && t == member_tree(v) && final(r).rest() == rest
                && final(r).pos > old(r).pos,
            Read::Bad(f) => res matches Err(e) && e.fault() == f,
        },
    decreases old(r).buf@.len() - old(r).pos, 1nat,
{
    proof {
        reveal(member_form);
        parse_tuple_6(r.rest(), key_form(), Form::Node(Symbol::MemberKind), Form::Bool, opt(function_form()), opt(expr_form()), list(expr_form()));
    }
    let key = dec_propkey(r)?;
    let kind = dec_memberkind(r)?;
    let is_static = r.bool()?;
    let func = dec_opt_function(r)?;
    let value = dec_opt_expr(r)?;
    let decorators = dec_exprs(r)?;
    Ok(ClassMember { key, kind, is_static, func, value, decorators })
}

/// Reads the kind of a class member.
fn dec_memberkind(r: &mut Reader) -> (res: Result<MemberKind, SnapshotError>)
    requires
        old(r).ok(),
    ensures
        final(r).follows(*old(r)),
        match parse(Form::Node(Symbol::MemberKind), old(r).rest()) {
            Read::Good(t, rest) => res matches Ok(v) && t == member_kind_tree(v) && final(r).rest() == rest
                && final(r).pos > old(r).pos,
            Read::Bad(f) => res matches Err(e) && e.fault() == f,
        },
{
    proof {
        parse_node(Symbol::MemberKind, r.rest());
        reveal(shape);
        if r.rest().len() > 0 && shape(Symbol::MemberKind, r.rest()[0] as nat) is Some {
            parse_node_0(Symbol::MemberKind, r.rest());
        }
    }
    let tag = r.u8()?;
    match tag {
        0 => Ok(MemberKind::Constructor),
        1 => Ok(MemberKind::Method),
        2 => Ok(MemberKind::Getter),
        3 => Ok(MemberKind::Setter),
        4 => Ok(MemberKind::Field),
        5 => Ok(MemberKind::Accessor),
        6 => Ok(MemberKind::StaticBlock),
        _ => Err(SnapshotError::BadTag(Symbol::MemberKind, tag)),
    }
}

} // verus!
