//! The byte format of a snapshot, as a grammar.
//!
//! A snapshot is a preorder walk over the syntax tree. [`shape`] is the grammar: it gives, for each
//! kind of node and each of its tags, the forms of the parts that follow the tag. [`emit`] is what
//! the writer puts down for a tree of a given form, and [`parse`] is what the reader makes of a run
//! of bytes: the tree at its front and the bytes behind it, or the first thing that is wrong.
use vstd::prelude::*;
use vstd::utf8::{
    decode_utf8, decode_utf8_encode_utf8, encode_utf8, encode_utf8_decode_utf8,
    encode_utf8_valid_utf8, valid_utf8,
};

use crate::bigint::{radix_digits_read_back, radix_text, radix_value};
use crate::token::is_spelling;
use crate::tree::{
    node0, node1, node2, node3, node4, node5, node6, tuple2, tuple3, tuple5, tuple6, Tree,
};

verus! {

/// The kinds of node that start with a tag byte.
#[derive(Clone, Copy, PartialEq, Eq, Structural, Debug)]
pub enum Symbol {
    Stmt,
    Expr,
    ArrayElem,
    PropDef,
    PropKey,
    Pattern,
    ArrayPatElem,
    ForInit,
    ImportSpec,
    DeclKind,
    MemberKind,
    ImportPhase,
}

/// The form of a piece of a snapshot.
pub ghost enum Form {
    /// One byte; any byte but zero reads as true.
    Bool,
    /// The eight bytes of a double, least significant first.
    Double,
    /// A byte count, then that many bytes of UTF-8.
    Text,
    /// A text that is one of the language's fixed spellings.
    Operator,
    /// A text of hexadecimal digits.
    Integer,
    /// One byte, of which the top bit is ignored.
    Flags,
    /// A byte that is one where the piece follows.
    Opt(Box<Form>),
    /// A count, then that many pieces.
    List(Box<Form>),
    /// The pieces one after another.
    Tuple(Seq<Form>),
    /// A tag, then the pieces that the tag calls for.
    Node(Symbol),
}

/// What can be wrong with a snapshot.
pub ghost enum Fault {
    Truncated,
    TruncatedDouble,
    TruncatedText,
    Overflow,
    BadUtf8,
    BadInteger,
    UnknownOperator(Seq<char>),
    BadTag(Symbol, u8),
    BadMagic,
    BadVersion,
}

/// Either a value and the bytes behind it, or a fault.
pub ghost enum Read<T> {
    Good(T, Seq<u8>),
    Bad(Fault),
}

// ---- numbers ----------------------------------------------------------------------------------

/// A count in seven-bit groups, least significant first; every byte but the last has its top bit
/// set.
pub open spec fn varint(v: nat) -> Seq<u8>
    decreases v,
{
    if v < 128 {
        seq![v as u8]
    } else {
        seq![(v % 128 + 128) as u8] + varint(v / 128)
    }
}

/// The number that the seven-bit groups at the front of `b` spell, where `k` groups of the same
/// number lie before them. A number has ten groups at most.
pub open spec fn read_groups(b: Seq<u8>, k: nat) -> Read<nat>
    decreases b.len(),
{
    if b.len() == 0 {
        Read::Bad(Fault::Truncated)
    } else if b[0] < 128 {
        Read::Good(b[0] as nat, b.drop_first())
    } else if k >= 9 {
        Read::Bad(Fault::Overflow)
    } else {
        match read_groups(b.drop_first(), k + 1) {
            Read::Good(v, rest) => Read::Good((b[0] - 128 + 128 * v) as nat, rest),
            Read::Bad(f) => Read::Bad(f),
        }
    }
}

/// The 64-bit number at the front of `b`. Bits beyond the sixty-fourth are dropped.
pub open spec fn read_varint(b: Seq<u8>) -> Read<u64> {
    match read_groups(b, 0) {
        Read::Good(v, rest) => Read::Good((v % 0x1_0000_0000_0000_0000) as u64, rest),
        Read::Bad(f) => Read::Bad(f),
    }
}

/// The lowest `n` bytes of a number, least significant first.
pub open spec fn low_bytes(v: nat, n: nat) -> Seq<u8>
    decreases n,
{
    if n == 0 {
        seq![]
    } else {
        seq![(v % 256) as u8] + low_bytes(v / 256, (n - 1) as nat)
    }
}

/// The number whose bytes these are, least significant first.
pub open spec fn bytes_value(b: Seq<u8>) -> nat
    decreases b.len(),
{
    if b.len() == 0 {
        0
    } else {
        b[0] as nat + 256 * bytes_value(b.drop_first())
    }
}

/// A text: the number of its bytes, then its bytes.
pub open spec fn text_bytes(s: Seq<char>) -> Seq<u8> {
    varint(encode_utf8(s).len()) + encode_utf8(s)
}

/// The text at the front of `b`.
pub open spec fn read_text(b: Seq<u8>) -> Read<Seq<char>> {
    match read_varint(b) {
        Read::Bad(f) => Read::Bad(f),
        Read::Good(n, rest) => if n > rest.len() {
            Read::Bad(Fault::TruncatedText)
        } else if !valid_utf8(rest.take(n as int)) {
            Read::Bad(Fault::BadUtf8)
        } else {
            Read::Good(decode_utf8(rest.take(n as int)), rest.skip(n as int))
        },
    }
}

// ---- the grammar ------------------------------------------------------------------------------

pub open spec fn opt(f: Form) -> Form {
    Form::Opt(Box::new(f))
}

pub open spec fn list(f: Form) -> Form {
    Form::List(Box::new(f))
}

pub open spec fn stmt_form() -> Form {
    Form::Node(Symbol::Stmt)
}

pub open spec fn expr_form() -> Form {
    Form::Node(Symbol::Expr)
}

pub open spec fn pattern_form() -> Form {
    Form::Node(Symbol::Pattern)
}

pub open spec fn key_form() -> Form {
    Form::Node(Symbol::PropKey)
}

/// A declarator: its pattern and its initializer.
#[verifier::opaque]
pub open spec fn decl_form() -> Form {
    Form::Tuple(seq![pattern_form(), opt(expr_form())])
}

/// A `case`: its test and its statements.
#[verifier::opaque]
pub open spec fn case_form() -> Form {
    Form::Tuple(seq![opt(expr_form()), list(stmt_form())])
}

/// A `catch`: its parameter and its statements.
#[verifier::opaque]
pub open spec fn handler_form() -> Form {
    Form::Tuple(seq![opt(pattern_form()), list(stmt_form())])
}

/// An exported name: the local one and the outward one.
#[verifier::opaque]
pub open spec fn export_form() -> Form {
    Form::Tuple(seq![Form::Text, Form::Text])
}

/// A piece of a template: its cooked text and its raw text.
#[verifier::opaque]
pub open spec fn quasi_form() -> Form {
    Form::Tuple(seq![opt(Form::Text), Form::Text])
}

/// A property of an object pattern: its key, its target and its default.
#[verifier::opaque]
pub open spec fn pat_prop_form() -> Form {
    Form::Tuple(seq![key_form(), pattern_form(), opt(expr_form())])
}

/// A parameter: its pattern, its default and whether it is a rest parameter.
#[verifier::opaque]
pub open spec fn param_form() -> Form {
    Form::Tuple(seq![pattern_form(), opt(expr_form()), Form::Bool])
}

/// A function: its name, its parameters, its body, its switches and its source text.
#[verifier::opaque]
pub open spec fn function_form() -> Form {
    Form::Tuple(
        seq![opt(Form::Text), list(param_form()), list(stmt_form()), Form::Flags, opt(Form::Text)],
    )
}

/// A class member: its key, kind, placement, function, value and decorators.
#[verifier::opaque]
pub open spec fn member_form() -> Form {
    Form::Tuple(
        seq![
            key_form(),
            Form::Node(Symbol::MemberKind),
            Form::Bool,
            opt(function_form()),
            opt(expr_form()),
            list(expr_form()),
        ],
    )
}

/// A class: its name, its heritage, its members, its decorators and its source text.
#[verifier::opaque]
pub open spec fn class_form() -> Form {
    Form::Tuple(
        seq![
            opt(Form::Text),
            opt(expr_form()),
            list(member_form()),
            list(expr_form()),
            opt(Form::Text),
        ],
    )
}

#[verifier::opaque]
pub open spec fn stmt_shape(tag: nat) -> Option<Seq<Form>> {
    if tag == 0 {
        Some(seq![expr_form()])
    } else if tag == 1 {
        Some(seq![Form::Node(Symbol::DeclKind), list(decl_form())])
    } else if tag == 2 {
        Some(seq![function_form()])
    } else if tag == 3 {
        Some(seq![opt(expr_form())])
    } else if tag == 4 {
        Some(seq![expr_form(), stmt_form(), opt(stmt_form())])
    } else if tag == 5 {
        Some(seq![list(stmt_form())])
    } else if tag == 6 {
        Some(seq![expr_form(), stmt_form()])
    } else if tag == 7 {
        Some(seq![stmt_form(), expr_form()])
    } else if tag == 8 {
        Some(
            seq![
                opt(Form::Node(Symbol::ForInit)),
                opt(expr_form()),
                opt(expr_form()),
                stmt_form(),
            ],
        )
    } else if tag == 9 {
        Some(
            seq![
                opt(Form::Node(Symbol::DeclKind)),
                pattern_form(),
                expr_form(),
                Form::Bool,
                Form::Bool,
                stmt_form(),
            ],
        )
    } else if tag == 10 || tag == 11 {
        Some(seq![opt(Form::Text)])
    } else if tag == 12 {
        Some(seq![expr_form()])
    } else if tag == 13 {
        Some(seq![list(stmt_form()), opt(handler_form()), opt(list(stmt_form()))])
    } else if tag == 14 {
        Some(seq![expr_form(), list(case_form())])
    } else if tag == 15 {
        Some(seq![Form::Text, stmt_form()])
    } else if tag == 16 {
        Some(seq![expr_form(), stmt_form()])
    } else if tag == 17 {
        Some(seq![class_form()])
    } else if tag == 18 || tag == 19 {
        Some(seq![])
    } else if tag == 20 {
        Some(seq![Form::Text, list(Form::Node(Symbol::ImportSpec)), opt(Form::Text)])
    } else if tag == 21 {
        Some(seq![list(export_form()), opt(Form::Text)])
    } else if tag == 22 || tag == 23 {
        Some(seq![stmt_form()])
    } else if tag == 24 {
        Some(seq![Form::Text, opt(Form::Text)])
    } else {
        None
    }
}

#[verifier::opaque]
pub open spec fn expr_shape(tag: nat) -> Option<Seq<Form>> {
    if tag == 0 || tag == 4 || tag == 16 || tag == 30 {
        Some(seq![expr_form()])
    } else if tag == 1 {
        Some(seq![Form::Double])
    } else if tag == 2 {
        Some(seq![Form::Integer])
    } else if tag == 3 || tag == 8 {
        Some(seq![Form::Text])
    } else if tag == 5 {
        Some(seq![Form::Bool])
    } else if tag == 6 || tag == 7 || tag == 9 || tag == 17 || tag == 33 || tag == 34 {
        Some(seq![])
    } else if tag == 10 {
        Some(seq![Form::Text, Form::Text])
    } else if tag == 11 {
        Some(seq![list(Form::Node(Symbol::ArrayElem))])
    } else if tag == 12 {
        Some(seq![list(Form::Node(Symbol::PropDef))])
    } else if tag == 13 {
        Some(seq![function_form()])
    } else if tag == 14 {
        Some(seq![class_form()])
    } else if tag == 15 {
        Some(seq![Form::Bool, opt(expr_form())])
    } else if tag == 18 {
        Some(seq![Form::Operator, expr_form()])
    } else if tag == 19 {
        Some(seq![Form::Operator, Form::Bool, expr_form()])
    } else if tag == 20 || tag == 21 || tag == 22 {
        Some(seq![Form::Operator, expr_form(), expr_form()])
    } else if tag == 23 {
        Some(seq![expr_form(), expr_form(), expr_form()])
    } else if tag == 24 {
        Some(seq![expr_form(), list(Form::Node(Symbol::ArrayElem)), Form::Bool])
    } else if tag == 25 {
        Some(seq![expr_form(), list(Form::Node(Symbol::ArrayElem))])
    } else if tag == 26 {
        Some(seq![expr_form(), Form::Text, Form::Bool])
    } else if tag == 27 {
        Some(seq![expr_form(), expr_form(), Form::Bool])
    } else if tag == 28 {
        Some(seq![list(expr_form())])
    } else if tag == 29 {
        Some(seq![expr_form(), list(quasi_form()), list(expr_form())])
    } else if tag == 31 {
        Some(seq![Form::Text, expr_form()])
    } else if tag == 32 {
        Some(seq![expr_form(), Form::Node(Symbol::ImportPhase), opt(expr_form())])
    } else {
        None
    }
}

/// The grammar: the forms of the parts behind a tag; `None` where the kind of node has no such tag.
#[verifier::opaque]
pub open spec fn shape(symbol: Symbol, tag: nat) -> Option<Seq<Form>> {
    match symbol {
        Symbol::Stmt => stmt_shape(tag),
        Symbol::Expr => expr_shape(tag),
        Symbol::ArrayElem => if tag == 0 || tag == 1 {
            Some(seq![expr_form()])
        } else if tag == 2 {
            Some(seq![])
        } else {
            None
        },
        Symbol::PropDef => if tag == 0 || tag == 1 {
            Some(seq![key_form(), expr_form()])
        } else if tag == 2 || tag == 3 || tag == 4 {
            Some(seq![key_form(), function_form()])
        } else if tag == 5 || tag == 6 {
            Some(seq![expr_form()])
        } else {
            None
        },
        Symbol::PropKey => if tag == 0 || tag == 1 {
            Some(seq![Form::Text])
        } else if tag == 2 {
            Some(seq![Form::Double])
        } else if tag == 3 {
            Some(seq![expr_form()])
        } else {
            None
        },
        Symbol::Pattern => if tag == 0 {
            Some(seq![Form::Text])
        } else if tag == 1 {
            Some(seq![list(Form::Node(Symbol::ArrayPatElem))])
        } else if tag == 2 {
            Some(seq![list(pat_prop_form()), opt(Form::Text)])
        } else if tag == 3 {
            Some(seq![expr_form()])
        } else {
            None
        },
        Symbol::ArrayPatElem => if tag == 0 {
            Some(seq![])
        } else if tag == 1 {
            Some(seq![pattern_form(), opt(expr_form())])
        } else if tag == 2 {
            Some(seq![pattern_form()])
        } else {
            None
        },
        Symbol::ForInit => if tag == 0 {
            Some(seq![Form::Node(Symbol::DeclKind), list(decl_form())])
        } else if tag == 1 {
            Some(seq![expr_form()])
        } else {
            None
        },
        Symbol::ImportSpec => if tag < 4 {
            Some(seq![Form::Text])
        } else if tag == 4 {
            Some(seq![Form::Text, Form::Text])
        } else {
            None
        },
        Symbol::DeclKind => if tag < 5 {
            Some(seq![])
        } else {
            None
        },
        Symbol::MemberKind => if tag < 7 {
            Some(seq![])
        } else {
            None
        },
        Symbol::ImportPhase => if tag < 3 {
            Some(seq![])
        } else {
            None
        },
    }
}

// ---- writing ----------------------------------------------------------------------------------

/// The bytes of a tree of the given form.
#[verifier::opaque]
pub open spec fn emit(f: Form, t: Tree) -> Seq<u8>
    decreases t, 1nat,
{
    match (f, t) {
        (Form::Bool, Tree::Bool(v)) => seq![if v {
            1u8
        } else {
            0u8
        }],
        (Form::Double, Tree::Bits(v)) => low_bytes(v as nat, 8),
        (Form::Text, Tree::Text(s)) => text_bytes(s),
        (Form::Operator, Tree::Operator(s)) => text_bytes(s),
        (Form::Integer, Tree::Integer(v)) => text_bytes(radix_text(v, 16)),
        (Form::Flags, Tree::Flags(v)) => seq![v as u8],
        (Form::Opt(g), Tree::Absent) => seq![0u8],
        (Form::Opt(g), Tree::Present(x)) => seq![1u8] + emit(*g, *x),
        (Form::List(g), Tree::List(ts)) => varint(ts.len()) + emit_list(*g, ts),
        (Form::Tuple(fs), Tree::Tuple(ts)) => emit_parts(fs, ts),
        (Form::Node(symbol), Tree::Node(tag, ts)) => match shape(symbol, tag) {
            Some(fs) => seq![tag as u8] + emit_parts(fs, ts),
            None => seq![],
        },
        _ => seq![],
    }
}

/// The bytes of trees of one form, one after another.
#[verifier::opaque]
pub open spec fn emit_list(f: Form, ts: Seq<Tree>) -> Seq<u8>
    decreases ts, 0nat,
{
    if ts.len() == 0 {
        seq![]
    } else {
        emit_list(f, ts.drop_last()) + emit(f, ts.last())
    }
}

/// The bytes of trees of the forms given for each, one after another.
#[verifier::opaque]
pub open spec fn emit_parts(fs: Seq<Form>, ts: Seq<Tree>) -> Seq<u8>
    decreases ts, 0nat,
{
    if ts.len() == 0 || fs.len() == 0 {
        seq![]
    } else {
        emit(fs[0], ts[0]) + emit_parts(fs.drop_first(), ts.drop_first())
    }
}

/// Whether a tree can be written in the given form and read back: it has the form's structure, its
/// counts fit in 64 bits, its operators are fixed spellings and its integers are not negative.
#[verifier::opaque]
pub open spec fn fits(f: Form, t: Tree) -> bool
    decreases t, 1nat,
{
    match (f, t) {
        (Form::Bool, Tree::Bool(v)) => true,
        (Form::Double, Tree::Bits(v)) => true,
        (Form::Text, Tree::Text(s)) => encode_utf8(s).len() <= u64::MAX,
        (Form::Operator, Tree::Operator(s)) => encode_utf8(s).len() <= u64::MAX && is_spelling(s),
        (Form::Integer, Tree::Integer(v)) => v >= 0 && encode_utf8(radix_text(v, 16)).len()
            <= u64::MAX,
        (Form::Flags, Tree::Flags(v)) => v < 128,
        (Form::Opt(g), Tree::Absent) => true,
        (Form::Opt(g), Tree::Present(x)) => fits(*g, *x),
        (Form::List(g), Tree::List(ts)) => ts.len() <= u64::MAX && fits_list(*g, ts),
        (Form::Tuple(fs), Tree::Tuple(ts)) => fits_parts(fs, ts),
        (Form::Node(symbol), Tree::Node(tag, ts)) => match shape(symbol, tag) {
            Some(fs) => tag < 256 && fits_parts(fs, ts),
            None => false,
        },
        _ => false,
    }
}

#[verifier::opaque]
pub open spec fn fits_list(f: Form, ts: Seq<Tree>) -> bool
    decreases ts, 0nat,
{
    ts.len() == 0 || (fits_list(f, ts.drop_last()) && fits(f, ts.last()))
}

#[verifier::opaque]
pub open spec fn fits_parts(fs: Seq<Form>, ts: Seq<Tree>) -> bool
    decreases ts, 0nat,
{
    if ts.len() == 0 || fs.len() == 0 {
        ts.len() == fs.len()
    } else {
        fits(fs[0], ts[0]) && fits_parts(fs.drop_first(), ts.drop_first())
    }
}

/// Whether a tree holds nothing that a parser would not have put there: every operator is one of
/// the language's fixed spellings and no integer literal is negative.
#[verifier::opaque]
pub open spec fn clean(t: Tree) -> bool
    decreases t, 1nat,
{
    match t {
        Tree::Operator(s) => is_spelling(s),
        Tree::Integer(v) => v >= 0,
        Tree::Present(x) => clean(*x),
        Tree::List(ts) => clean_all(ts),
        Tree::Tuple(ts) => clean_all(ts),
        Tree::Node(_, ts) => clean_all(ts),
        _ => true,
    }
}

/// Whether each of the trees is [`clean`].
#[verifier::opaque]
pub open spec fn clean_all(ts: Seq<Tree>) -> bool
    decreases ts, 0nat,
{
    forall|i: int| 0 <= i < ts.len() ==> clean(#[trigger] ts[i])
}

/// The number of nodes and leaves of a tree.
#[verifier::opaque]
pub open spec fn size(t: Tree) -> nat
    decreases t, 1nat,
{
    match t {
        Tree::Present(x) => 1 + size(*x),
        Tree::List(ts) => 1 + size_all(ts),
        Tree::Tuple(ts) => 1 + size_all(ts),
        Tree::Node(_, ts) => 1 + size_all(ts),
        _ => 1,
    }
}

/// The nodes and leaves of several trees.
#[verifier::opaque]
pub open spec fn size_all(ts: Seq<Tree>) -> nat
    decreases ts, 0nat,
{
    if ts.len() == 0 {
        0
    } else {
        size(ts[0]) + size_all(ts.drop_first())
    }
}

// ---- reading ----------------------------------------------------------------------------------

/// The tree of the given form at the front of `b`.
///
/// No piece gives bytes back: the comparisons of lengths below always hold (see
/// [`reading_shrinks`]) and only show that the definition is well founded.
#[verifier::opaque]
pub open spec fn parse(f: Form, b: Seq<u8>) -> Read<Tree>
    decreases b.len(), f, 0nat,
{
    match f {
        Form::Bool => if b.len() == 0 {
            Read::Bad(Fault::Truncated)
        } else {
            Read::Good(Tree::Bool(b[0] != 0), b.drop_first())
        },
        Form::Double => if b.len() < 8 {
            Read::Bad(Fault::TruncatedDouble)
        } else {
            Read::Good(Tree::Bits(bytes_value(b.take(8)) as u64), b.skip(8))
        },
        Form::Text => match read_text(b) {
            Read::Good(s, rest) => Read::Good(Tree::Text(s), rest),
            Read::Bad(e) => Read::Bad(e),
        },
        Form::Operator => match read_text(b) {
            Read::Good(s, rest) => if is_spelling(s) {
                Read::Good(Tree::Operator(s), rest)
            } else {
                Read::Bad(Fault::UnknownOperator(s))
            },
            Read::Bad(e) => Read::Bad(e),
        },
        Form::Integer => match read_text(b) {
            Read::Good(s, rest) => match radix_value(s, 16) {
                Some(v) => Read::Good(Tree::Integer(v as int), rest),
                None => Read::Bad(Fault::BadInteger),
            },
            Read::Bad(e) => Read::Bad(e),
        },
        Form::Flags => if b.len() == 0 {
            Read::Bad(Fault::Truncated)
        } else {
            Read::Good(Tree::Flags((b[0] % 128) as nat), b.drop_first())
        },
        Form::Opt(g) => if b.len() == 0 {
            Read::Bad(Fault::Truncated)
        } else if b[0] == 1 {
            match parse(*g, b.drop_first()) {
                Read::Good(t, rest) => Read::Good(Tree::Present(Box::new(t)), rest),
                Read::Bad(e) => Read::Bad(e),
            }
        } else {
            Read::Good(Tree::Absent, b.drop_first())
        },
        Form::List(g) => match read_varint(b) {
            Read::Good(n, rest) => if rest.len() < b.len() {
                match parse_list(n as nat, *g, rest) {
                    Read::Good(ts, rest2) => Read::Good(Tree::List(ts), rest2),
                    Read::Bad(e) => Read::Bad(e),
                }
            } else {
                Read::Bad(Fault::Truncated)
            },
            Read::Bad(e) => Read::Bad(e),
        },
        Form::Tuple(fs) => match parse_parts(fs, b) {
            Read::Good(ts, rest) => Read::Good(Tree::Tuple(ts), rest),
            Read::Bad(e) => Read::Bad(e),
        },
        Form::Node(symbol) => if b.len() == 0 {
            Read::Bad(Fault::Truncated)
        } else {
            match shape(symbol, b[0] as nat) {
                None => Read::Bad(Fault::BadTag(symbol, b[0])),
                Some(fs) => match parse_parts(fs, b.drop_first()) {
                    Read::Good(ts, rest) => Read::Good(Tree::Node(b[0] as nat, ts), rest),
                    Read::Bad(e) => Read::Bad(e),
                },
            }
        },
    }
}

/// The `n` trees of one form at the front of `b`.
#[verifier::opaque]
pub open spec fn parse_list(n: nat, f: Form, b: Seq<u8>) -> Read<Seq<Tree>>
    decreases b.len(), f, n,
{
    if n == 0 {
        Read::Good(seq![], b)
    } else {
        match parse(f, b) {
            Read::Bad(e) => Read::Bad(e),
            Read::Good(t, rest) => if rest.len() <= b.len() {
                match parse_list((n - 1) as nat, f, rest) {
                    Read::Bad(e) => Read::Bad(e),
                    Read::Good(ts, rest2) => Read::Good(seq![t] + ts, rest2),
                }
            } else {
                Read::Bad(Fault::Truncated)
            },
        }
    }
}

/// The trees of the given forms at the front of `b`.
#[verifier::opaque]
pub open spec fn parse_parts(fs: Seq<Form>, b: Seq<u8>) -> Read<Seq<Tree>>
    decreases b.len(), fs, 0nat,
{
    if fs.len() == 0 {
        Read::Good(seq![], b)
    } else {
        match parse(fs[0], b) {
            Read::Bad(e) => Read::Bad(e),
            Read::Good(t, rest) => if rest.len() <= b.len() {
                match parse_parts(fs.drop_first(), rest) {
                    Read::Bad(e) => Read::Bad(e),
                    Read::Good(ts, rest2) => Read::Good(seq![t] + ts, rest2),
                }
            } else {
                Read::Bad(Fault::Truncated)
            },
        }
    }
}


// ---- reading never gives bytes back ----------------------------------------------------------

/// A varint takes at least one byte.
pub proof fn lemma_groups_shrink(b: Seq<u8>, k: nat)
    ensures
        read_groups(b, k) matches Read::Good(_, rest) ==> rest.len() < b.len(),
    decreases b.len(),
{
    if b.len() > 0 && b[0] >= 128 && k < 9 {
        lemma_groups_shrink(b.drop_first(), k + 1);
    }
}

/// Reading a piece never leaves more bytes than there were.
pub proof fn reading_shrinks(f: Form, b: Seq<u8>)
    ensures
        parse(f, b) matches Read::Good(_, rest) ==> rest.len() <= b.len(),
    decreases b.len(), f, 0nat,
{
    reveal(parse);
    reveal(parse_list);
    reveal(parse_parts);
    lemma_groups_shrink(b, 0);
    match f {
        Form::Opt(g) => {
            if b.len() > 0 {
                reading_shrinks(*g, b.drop_first());
            }
        },
        Form::List(g) => {
            match read_varint(b) {
                Read::Good(n, rest) => {
                    list_reading_shrinks(n as nat, *g, rest);
                },
                Read::Bad(_) => {},
            }
        },
        Form::Tuple(fs) => {
            parts_reading_shrinks(fs, b);
        },
        Form::Node(symbol) => {
            if b.len() > 0 {
                match shape(symbol, b[0] as nat) {
                    Some(fs) => {
                        parts_reading_shrinks(fs, b.drop_first());
                    },
                    None => {},
                }
            }
        },
        _ => {},
    }
}

proof fn list_reading_shrinks(n: nat, f: Form, b: Seq<u8>)
    ensures
        parse_list(n, f, b) matches Read::Good(_, rest) ==> rest.len() <= b.len(),
    decreases b.len(), f, n,
{
    reveal(parse);
    reveal(parse_list);
    reveal(parse_parts);
    if n > 0 {
        reading_shrinks(f, b);
        match parse(f, b) {
            Read::Good(_, rest) => {
                list_reading_shrinks((n - 1) as nat, f, rest);
            },
            Read::Bad(_) => {},
        }
    }
}

proof fn parts_reading_shrinks(fs: Seq<Form>, b: Seq<u8>)
    ensures
        parse_parts(fs, b) matches Read::Good(_, rest) ==> rest.len() <= b.len(),
    decreases b.len(), fs, 0nat,
{
    reveal(parse);
    reveal(parse_list);
    reveal(parse_parts);
    if fs.len() > 0 {
        reading_shrinks(fs[0], b);
        match parse(fs[0], b) {
            Read::Good(_, rest) => {
                parts_reading_shrinks(fs.drop_first(), rest);
            },
            Read::Bad(_) => {},
        }
    }
}

// ---- what was read does not depend on what follows ---------------------------------------------

/// A number reads the same with more bytes behind it.
proof fn lemma_groups_extend(b: Seq<u8>, k: nat, more: Seq<u8>)
    ensures
        read_groups(b, k) matches Read::Good(v, rest) ==> read_groups(b + more, k) == Read::Good(
            v,
            rest + more,
        ),
    decreases b.len(),
{
    if b.len() > 0 {
        assert((b + more).drop_first() =~= b.drop_first() + more);
        assert((b + more)[0] == b[0]);
        if b[0] >= 128 && k < 9 {
            lemma_groups_extend(b.drop_first(), k + 1, more);
        }
    }
}

/// A count reads the same with more bytes behind it.
pub proof fn varint_reading_extends(b: Seq<u8>, more: Seq<u8>)
    ensures
        read_varint(b) matches Read::Good(v, rest) ==> read_varint(b + more) == Read::Good(
            v,
            rest + more,
        ),
{
    lemma_groups_extend(b, 0, more);
}

proof fn lemma_text_extends(b: Seq<u8>, more: Seq<u8>)
    ensures
        read_text(b) matches Read::Good(s, rest) ==> read_text(b + more) == Read::Good(
            s,
            rest + more,
        ),
{
    varint_reading_extends(b, more);
    if let Read::Good(n, rest) = read_varint(b) {
        if n <= rest.len() {
            assert((rest + more).take(n as int) =~= rest.take(n as int));
            assert((rest + more).skip(n as int) =~= rest.skip(n as int) + more);
        }
    }
}

/// A piece reads the same with more bytes behind it, which are left.
pub proof fn reading_extends(f: Form, b: Seq<u8>, more: Seq<u8>)
    ensures
        parse(f, b) matches Read::Good(t, rest) ==> parse(f, b + more) == Read::Good(t, rest + more),
    decreases b.len(), f, 0nat,
{
    reveal_with_fuel(parse, 2);
    reveal_with_fuel(parse_list, 2);
    reveal_with_fuel(parse_parts, 2);
    lemma_text_extends(b, more);
    varint_reading_extends(b, more);
    lemma_groups_shrink(b, 0);
    if b.len() > 0 {
        assert((b + more)[0] == b[0]);
        assert((b + more).drop_first() =~= b.drop_first() + more);
    }
    match f {
        Form::Double => {
            if b.len() >= 8 {
                assert((b + more).take(8) =~= b.take(8));
                assert((b + more).skip(8) =~= b.skip(8) + more);
            }
        },
        Form::Opt(g) => {
            if b.len() > 0 {
                reading_extends(*g, b.drop_first(), more);
            }
        },
        Form::List(g) => {
            match read_varint(b) {
                Read::Good(n, rest) => {
                    list_reading_extends(n as nat, *g, rest, more);
                },
                Read::Bad(_) => {},
            }
        },
        Form::Tuple(fs) => {
            parts_reading_extends(fs, b, more);
        },
        Form::Node(symbol) => {
            if b.len() > 0 {
                match shape(symbol, b[0] as nat) {
                    Some(fs) => {
                        parts_reading_extends(fs, b.drop_first(), more);
                    },
                    None => {},
                }
            }
        },
        _ => {},
    }
}

proof fn list_reading_extends(n: nat, f: Form, b: Seq<u8>, more: Seq<u8>)
    ensures
        parse_list(n, f, b) matches Read::Good(ts, rest) ==> parse_list(n, f, b + more)
            == Read::Good(ts, rest + more),
    decreases b.len(), f, n,
{
    reveal_with_fuel(parse, 2);
    reveal_with_fuel(parse_list, 2);
    reveal_with_fuel(parse_parts, 2);
    if n > 0 {
        reading_shrinks(f, b);
        reading_extends(f, b, more);
        match parse(f, b) {
            Read::Good(_, rest) => {
                list_reading_extends((n - 1) as nat, f, rest, more);
            },
            Read::Bad(_) => {},
        }
    }
}

proof fn parts_reading_extends(fs: Seq<Form>, b: Seq<u8>, more: Seq<u8>)
    ensures
        parse_parts(fs, b) matches Read::Good(ts, rest) ==> parse_parts(fs, b + more)
            == Read::Good(ts, rest + more),
    decreases b.len(), fs, 0nat,
{
    reveal_with_fuel(parse, 2);
    reveal_with_fuel(parse_list, 2);
    reveal_with_fuel(parse_parts, 2);
    if fs.len() > 0 {
        reading_shrinks(fs[0], b);
        reading_extends(fs[0], b, more);
        match parse(fs[0], b) {
            Read::Good(_, rest) => {
                parts_reading_extends(fs.drop_first(), rest, more);
            },
            Read::Bad(_) => {},
        }
    }
}

// ---- what is written reads back ---------------------------------------------------------------

proof fn lemma_varint_groups(v: nat, k: nat, room: nat, rest: Seq<u8>)
    requires
        k <= 9,
        v < room,
        room == crate::bigint::power(128, (9 - k) as nat) * 2,
    ensures
        read_groups(varint(v) + rest, k) == Read::Good(v, rest),
    decreases v,
{
    let b = varint(v) + rest;
    if v < 128 {
        assert(b.drop_first() =~= rest);
    } else {
        assert(k < 9) by {
            if k == 9 {
                assert(crate::bigint::power(128, 0) == 1);
            }
        }
        let smaller = crate::bigint::power(128, (9 - (k + 1)) as nat) * 2;
        assert(room == 128 * smaller);
        lemma_varint_groups(v / 128, k + 1, smaller, rest);
        assert(b.drop_first() =~= varint(v / 128) + rest);
        assert(b[0] == (v % 128 + 128) as u8);
    }
}

/// A 64-bit count reads back as it was written.
pub proof fn varint_reads_back(v: u64, rest: Seq<u8>)
    ensures
        read_varint(varint(v as nat) + rest) == Read::Good(v, rest),
{
    assert(crate::bigint::power(128, 9) * 2 == 0x1_0000_0000_0000_0000) by {
        reveal_with_fuel(crate::bigint::power, 10);
    }
    lemma_varint_groups(v as nat, 0, 0x1_0000_0000_0000_0000, rest);
}

proof fn lemma_low_bytes(v: nat, n: nat)
    requires
        v < crate::bigint::power(256, n),
    ensures
        low_bytes(v, n).len() == n,
        bytes_value(low_bytes(v, n)) == v,
    decreases n,
{
    if n > 0 {
        assert(crate::bigint::power(256, n) == 256 * crate::bigint::power(256, (n - 1) as nat));
        lemma_low_bytes(v / 256, (n - 1) as nat);
        assert(low_bytes(v, n).drop_first() =~= low_bytes(v / 256, (n - 1) as nat));
    }
}

/// A double's bits read back as they were written.
pub proof fn double_reads_back(v: u64)
    ensures
        low_bytes(v as nat, 8).len() == 8,
        bytes_value(low_bytes(v as nat, 8)) == v,
{
    assert(crate::bigint::power(256, 8) == 0x1_0000_0000_0000_0000) by {
        reveal_with_fuel(crate::bigint::power, 9);
    }
    lemma_low_bytes(v as nat, 8);
}

/// A text reads back as it was written.
pub proof fn text_reads_back(s: Seq<char>, rest: Seq<u8>)
    requires
        encode_utf8(s).len() <= u64::MAX,
    ensures
        read_text(text_bytes(s) + rest) == Read::Good(s, rest),
{
    let e = encode_utf8(s);
    varint_reads_back(e.len() as u64, e + rest);
    assert(text_bytes(s) + rest =~= varint(e.len()) + (e + rest));
    assert((e + rest).take(e.len() as int) =~= e);
    assert((e + rest).skip(e.len() as int) =~= rest);
    encode_utf8_valid_utf8(s);
    encode_utf8_decode_utf8(s);
}

/// A list's bytes start with those of its first tree.
proof fn lemma_emit_list_front(f: Form, ts: Seq<Tree>)
    requires
        ts.len() > 0,
    ensures
        emit_list(f, ts) == emit(f, ts[0]) + emit_list(f, ts.drop_first()),
        fits_list(f, ts) ==> fits(f, ts[0]) && fits_list(f, ts.drop_first()),
    decreases ts.len(),
{
    reveal_with_fuel(emit, 2);
    reveal_with_fuel(emit_list, 2);
    reveal_with_fuel(emit_parts, 2);
    reveal_with_fuel(fits, 2);
    reveal_with_fuel(fits_list, 2);
    reveal_with_fuel(fits_parts, 2);
    if ts.len() == 1 {
        assert(ts.drop_last() =~= seq![]);
        assert(ts.drop_first() =~= seq![]);
        assert(emit_list(f, ts) =~= emit(f, ts[0]) + emit_list(f, ts.drop_first()));
    } else {
        lemma_emit_list_front(f, ts.drop_last());
        assert(ts.drop_last().drop_first() =~= ts.drop_first().drop_last());
        assert(ts.drop_first().last() == ts.last());
        assert(emit_list(f, ts) =~= emit(f, ts[0]) + emit_list(f, ts.drop_first()));
    }
}

/// Whatever fits a form reads back from its bytes, whatever bytes follow.
#[verifier::spinoff_prover]
#[verifier::rlimit(60)]
pub proof fn emitted_reads_back(f: Form, t: Tree, rest: Seq<u8>)
    requires
        fits(f, t),
    ensures
        parse(f, emit(f, t) + rest) == Read::Good(t, rest),
    decreases t, 1nat,
{
    reveal(parse);
    reveal(parse_list);
    reveal(parse_parts);
    reveal(emit);
    reveal(emit_list);
    reveal(emit_parts);
    reveal(fits);
    reveal(fits_list);
    reveal(fits_parts);
    let b = emit(f, t) + rest;
    match (f, t) {
        (Form::Bool, Tree::Bool(v)) => {
            assert(b.drop_first() =~= rest);
        },
        (Form::Double, Tree::Bits(v)) => {
            double_reads_back(v);
            assert(b.take(8) =~= low_bytes(v as nat, 8));
            assert(b.skip(8) =~= rest);
        },
        (Form::Text, Tree::Text(s)) => {
            text_reads_back(s, rest);
        },
        (Form::Operator, Tree::Operator(s)) => {
            text_reads_back(s, rest);
        },
        (Form::Integer, Tree::Integer(v)) => {
            text_reads_back(radix_text(v, 16), rest);
            radix_digits_read_back(v as nat, 16);
        },
        (Form::Flags, Tree::Flags(v)) => {
            assert(b.drop_first() =~= rest);
        },
        (Form::Opt(g), Tree::Absent) => {
            assert(b.drop_first() =~= rest);
        },
        (Form::Opt(g), Tree::Present(x)) => {
            emitted_reads_back(*g, *x, rest);
            assert(b.drop_first() =~= emit(*g, *x) + rest);
        },
        (Form::List(g), Tree::List(ts)) => {
            let body = emit_list(*g, ts) + rest;
            varint_reads_back(ts.len() as u64, body);
            lemma_groups_shrink(varint(ts.len()) + body, 0);
            assert(b =~= varint(ts.len()) + body);
            emitted_list_reads_back(*g, ts, rest);
        },
        (Form::Tuple(fs), Tree::Tuple(ts)) => {
            emitted_parts_read_back(fs, ts, rest);
        },
        (Form::Node(symbol), Tree::Node(tag, ts)) => {
            let fs = shape(symbol, tag)->0;
            emitted_parts_read_back(fs, ts, rest);
            assert(b.drop_first() =~= emit_parts(fs, ts) + rest);
            assert(b[0] == tag as u8);
        },
        _ => {},
    }
}

proof fn emitted_list_reads_back(f: Form, ts: Seq<Tree>, rest: Seq<u8>)
    requires
        fits_list(f, ts),
    ensures
        parse_list(ts.len(), f, emit_list(f, ts) + rest) == Read::Good(ts, rest),
    decreases ts, 0nat,
{
    reveal(parse);
    reveal(parse_list);
    reveal(parse_parts);
    reveal(emit);
    reveal(emit_list);
    reveal(emit_parts);
    let b = emit_list(f, ts) + rest;
    if ts.len() == 0 {
        assert(b =~= rest);
        assert(ts =~= seq![]);
    } else {
        lemma_emit_list_front(f, ts);
        let tail = ts.drop_first();
        let behind = emit_list(f, tail) + rest;
        assert(b =~= emit(f, ts[0]) + behind);
        emitted_reads_back(f, ts[0], behind);
        reading_shrinks(f, b);
        emitted_list_reads_back(f, tail, rest);
        assert(seq![ts[0]] + tail =~= ts);
    }
}

proof fn emitted_parts_read_back(fs: Seq<Form>, ts: Seq<Tree>, rest: Seq<u8>)
    requires
        fits_parts(fs, ts),
    ensures
        parse_parts(fs, emit_parts(fs, ts) + rest) == Read::Good(ts, rest),
    decreases ts, 0nat,
{
    reveal(parse);
    reveal(parse_list);
    reveal(parse_parts);
    reveal(emit);
    reveal(emit_list);
    reveal(emit_parts);
    reveal(fits);
    reveal(fits_list);
    reveal(fits_parts);
    let b = emit_parts(fs, ts) + rest;
    if ts.len() == 0 {
        assert(b =~= rest);
        assert(ts =~= seq![]);
    } else {
        let tail = ts.drop_first();
        let behind = emit_parts(fs.drop_first(), tail) + rest;
        assert(b =~= emit(fs[0], ts[0]) + behind);
        emitted_reads_back(fs[0], ts[0], behind);
        reading_shrinks(fs[0], b);
        emitted_parts_read_back(fs.drop_first(), tail, rest);
        assert(seq![ts[0]] + tail =~= ts);
    }
}


// ---- the definitions, one step at a time ------------------------------------------------------

proof fn emit_parts_cons(f: Form, t: Tree, fs: Seq<Form>, ts: Seq<Tree>)
    ensures
        emit_parts(seq![f] + fs, seq![t] + ts) == emit(f, t) + emit_parts(fs, ts),
        fits_parts(seq![f] + fs, seq![t] + ts) == (fits(f, t) && fits_parts(fs, ts)),
        clean_all(seq![t] + ts) == (clean(t) && clean_all(ts)),
        size_all(seq![t] + ts) == size(t) + size_all(ts),
{
    reveal(size);
    reveal_with_fuel(size_all, 2);
    reveal_with_fuel(emit_parts, 2);
    reveal_with_fuel(fits_parts, 2);
    reveal(emit);
    reveal(fits);
    reveal(clean);
    reveal(clean_all);
    let all = seq![t] + ts;
    assert((seq![f] + fs).drop_first() =~= fs);
    assert(all.drop_first() =~= ts);
    assert(all[0] == t);
    assert forall|i: int| 0 <= i < ts.len() implies #[trigger] ts[i] == all[i + 1] by {}
}

proof fn parse_parts_cons(f: Form, fs: Seq<Form>, b: Seq<u8>)
    ensures
        parse_parts(seq![f] + fs, b) == (match parse(f, b) {
            Read::Bad(e) => Read::Bad(e),
            Read::Good(t, rest) => match parse_parts(fs, rest) {
                Read::Bad(e) => Read::Bad(e),
                Read::Good(ts, rest2) => Read::Good(seq![t] + ts, rest2),
            },
        }),
{
    reveal_with_fuel(parse_parts, 2);
    reveal(parse);
    reading_shrinks(f, b);
    assert((seq![f] + fs).drop_first() =~= fs);
}

pub(crate) proof fn emit_parts_0()
    ensures
        emit_parts(Seq::<Form>::empty(), Seq::<Tree>::empty()) == Seq::<u8>::empty(),
        fits_parts(Seq::<Form>::empty(), Seq::<Tree>::empty()) == (true),
        clean_all(Seq::<Tree>::empty()) == (true),
        size_all(Seq::<Tree>::empty()) == 0,
{
    reveal(emit_parts);
    reveal(fits_parts);
    reveal(clean_all);
    reveal(size_all);
}

pub(crate) proof fn emit_parts_1(f1: Form, t1: Tree)
    ensures
        emit_parts(seq![f1], seq![t1]) == emit(f1, t1),
        fits_parts(seq![f1], seq![t1]) == (fits(f1, t1)),
        clean_all(seq![t1]) == (clean(t1)),
        size_all(seq![t1]) == size(t1),
{
    emit_parts_0();
    emit_parts_cons(f1, t1, Seq::<Form>::empty(), Seq::<Tree>::empty());
    assert(seq![f1] + Seq::<Form>::empty() =~= seq![f1]);
    assert(seq![t1] + Seq::<Tree>::empty() =~= seq![t1]);
    assert(emit_parts(seq![f1], seq![t1]) =~= emit(f1, t1));
}

pub(crate) proof fn emit_parts_2(f1: Form, t1: Tree, f2: Form, t2: Tree)
    ensures
        emit_parts(seq![f1, f2], seq![t1, t2]) == emit(f1, t1) + emit(f2, t2),
        fits_parts(seq![f1, f2], seq![t1, t2]) == (fits(f1, t1) && fits(f2, t2)),
        clean_all(seq![t1, t2]) == (clean(t1) && clean(t2)),
        size_all(seq![t1, t2]) == size(t1) + size(t2),
{
    emit_parts_1(f2, t2);
    emit_parts_cons(f1, t1, seq![f2], seq![t2]);
    assert(seq![f1] + seq![f2] =~= seq![f1, f2]);
    assert(seq![t1] + seq![t2] =~= seq![t1, t2]);
    assert(emit_parts(seq![f1, f2], seq![t1, t2]) =~= emit(f1, t1) + emit(f2, t2));
}

pub(crate) proof fn emit_parts_3(f1: Form, t1: Tree, f2: Form, t2: Tree, f3: Form, t3: Tree)
    ensures
        emit_parts(seq![f1, f2, f3], seq![t1, t2, t3]) == emit(f1, t1) + emit(f2, t2) + emit(f3, t3),
        fits_parts(seq![f1, f2, f3], seq![t1, t2, t3]) == (fits(f1, t1) && fits(f2, t2) && fits(f3, t3)),
        clean_all(seq![t1, t2, t3]) == (clean(t1) && clean(t2) && clean(t3)),
        size_all(seq![t1, t2, t3]) == size(t1) + size(t2) + size(t3),
{
    emit_parts_2(f2, t2, f3, t3);
    emit_parts_cons(f1, t1, seq![f2, f3], seq![t2, t3]);
    assert(seq![f1] + seq![f2, f3] =~= seq![f1, f2, f3]);
    assert(seq![t1] + seq![t2, t3] =~= seq![t1, t2, t3]);
    assert(emit_parts(seq![f1, f2, f3], seq![t1, t2, t3]) =~= emit(f1, t1) + emit(f2, t2) + emit(f3, t3));
}

pub(crate) proof fn emit_parts_4(f1: Form, t1: Tree, f2: Form, t2: Tree, f3: Form, t3: Tree, f4: Form, t4: Tree)
    ensures
        emit_parts(seq![f1, f2, f3, f4], seq![t1, t2, t3, t4]) == emit(f1, t1) + emit(f2, t2) + emit(f3, t3) + emit(f4, t4),
        fits_parts(seq![f1, f2, f3, f4], seq![t1, t2, t3, t4]) == (fits(f1, t1) && fits(f2, t2) && fits(f3, t3) && fits(f4, t4)),
        clean_all(seq![t1, t2, t3, t4]) == (clean(t1) && clean(t2) && clean(t3) && clean(t4)),
        size_all(seq![t1, t2, t3, t4]) == size(t1) + size(t2) + size(t3) + size(t4),
{
    emit_parts_3(f2, t2, f3, t3, f4, t4);
    emit_parts_cons(f1, t1, seq![f2, f3, f4], seq![t2, t3, t4]);
    assert(seq![f1] + seq![f2, f3, f4] =~= seq![f1, f2, f3, f4]);
    assert(seq![t1] + seq![t2, t3, t4] =~= seq![t1, t2, t3, t4]);
    assert(emit_parts(seq![f1, f2, f3, f4], seq![t1, t2, t3, t4]) =~= emit(f1, t1) + emit(f2, t2) + emit(f3, t3) + emit(f4, t4));
}

pub(crate) proof fn emit_parts_5(f1: Form, t1: Tree, f2: Form, t2: Tree, f3: Form, t3: Tree, f4: Form, t4: Tree, f5: Form, t5: Tree)
    ensures
        emit_parts(seq![f1, f2, f3, f4, f5], seq![t1, t2, t3, t4, t5]) == emit(f1, t1) + emit(f2, t2) + emit(f3, t3) + emit(f4, t4) + emit(f5, t5),
        fits_parts(seq![f1, f2, f3, f4, f5], seq![t1, t2, t3, t4, t5]) == (fits(f1, t1) && fits(f2, t2) && fits(f3, t3) && fits(f4, t4) && fits(f5, t5)),
        clean_all(seq![t1, t2, t3, t4, t5]) == (clean(t1) && clean(t2) && clean(t3) && clean(t4) && clean(t5)),
        size_all(seq![t1, t2, t3, t4, t5]) == size(t1) + size(t2) + size(t3) + size(t4) + size(t5),
{
    emit_parts_4(f2, t2, f3, t3, f4, t4, f5, t5);
    emit_parts_cons(f1, t1, seq![f2, f3, f4, f5], seq![t2, t3, t4, t5]);
    assert(seq![f1] + seq![f2, f3, f4, f5] =~= seq![f1, f2, f3, f4, f5]);
    assert(seq![t1] + seq![t2, t3, t4, t5] =~= seq![t1, t2, t3, t4, t5]);
    assert(emit_parts(seq![f1, f2, f3, f4, f5], seq![t1, t2, t3, t4, t5]) =~= emit(f1, t1) + emit(f2, t2) + emit(f3, t3) + emit(f4, t4) + emit(f5, t5));
}

pub(crate) proof fn emit_parts_6(f1: Form, t1: Tree, f2: Form, t2: Tree, f3: Form, t3: Tree, f4: Form, t4: Tree, f5: Form, t5: Tree, f6: Form, t6: Tree)
    ensures
        emit_parts(seq![f1, f2, f3, f4, f5, f6], seq![t1, t2, t3, t4, t5, t6]) == emit(f1, t1) + emit(f2, t2) + emit(f3, t3) + emit(f4, t4) + emit(f5, t5) + emit(f6, t6),
        fits_parts(seq![f1, f2, f3, f4, f5, f6], seq![t1, t2, t3, t4, t5, t6]) == (fits(f1, t1) && fits(f2, t2) && fits(f3, t3) && fits(f4, t4) && fits(f5, t5) && fits(f6, t6)),
        clean_all(seq![t1, t2, t3, t4, t5, t6]) == (clean(t1) && clean(t2) && clean(t3) && clean(t4) && clean(t5) && clean(t6)),
        size_all(seq![t1, t2, t3, t4, t5, t6]) == size(t1) + size(t2) + size(t3) + size(t4) + size(t5) + size(t6),
{
    emit_parts_5(f2, t2, f3, t3, f4, t4, f5, t5, f6, t6);
    emit_parts_cons(f1, t1, seq![f2, f3, f4, f5, f6], seq![t2, t3, t4, t5, t6]);
    assert(seq![f1] + seq![f2, f3, f4, f5, f6] =~= seq![f1, f2, f3, f4, f5, f6]);
    assert(seq![t1] + seq![t2, t3, t4, t5, t6] =~= seq![t1, t2, t3, t4, t5, t6]);
    assert(emit_parts(seq![f1, f2, f3, f4, f5, f6], seq![t1, t2, t3, t4, t5, t6]) =~= emit(f1, t1) + emit(f2, t2) + emit(f3, t3) + emit(f4, t4) + emit(f5, t5) + emit(f6, t6));
}

pub(crate) proof fn parse_parts_0(b: Seq<u8>)
    ensures
        parse_parts(Seq::<Form>::empty(), b) == (Read::Good(Seq::<Tree>::empty(), b)),
{
    reveal(parse_parts);
}

pub(crate) proof fn parse_parts_1(f1: Form, b: Seq<u8>)
    ensures
        parse_parts(seq![f1], b) == (match parse(f1, b) {
            Read::Bad(e) => Read::Bad(e),
            Read::Good(t1, b1) => Read::Good(seq![t1], b1),
        }),
{
    parse_parts_cons(f1, Seq::<Form>::empty(), b);
    assert(seq![f1] + Seq::<Form>::empty() =~= seq![f1]);
    if let Read::Good(t1, b1) = parse(f1, b) {
        parse_parts_0(b1);
        if let Read::Good(ts, _) = parse_parts(Seq::<Form>::empty(), b1) {
            assert(seq![t1] + ts =~= seq![t1]);
        }
    }
}

pub(crate) proof fn parse_parts_2(f1: Form, f2: Form, b: Seq<u8>)
    ensures
        parse_parts(seq![f1, f2], b) == (match parse(f1, b) {
            Read::Bad(e) => Read::Bad(e),
            Read::Good(t1, b1) => match parse(f2, b1) {
                Read::Bad(e) => Read::Bad(e),
                Read::Good(t2, b2) => Read::Good(seq![t1, t2], b2),
            },
        }),
{
    parse_parts_cons(f1, seq![f2], b);
    assert(seq![f1] + seq![f2] =~= seq![f1, f2]);
    if let Read::Good(t1, b1) = parse(f1, b) {
        parse_parts_1(f2, b1);
        if let Read::Good(ts, _) = parse_parts(seq![f2], b1) {
            assert(seq![t1] + ts =~= seq![t1, ts[0]]);
        }
    }
}

pub(crate) proof fn parse_parts_3(f1: Form, f2: Form, f3: Form, b: Seq<u8>)
    ensures
        parse_parts(seq![f1, f2, f3], b) == (match parse(f1, b) {
            Read::Bad(e) => Read::Bad(e),
            Read::Good(t1, b1) => match parse(f2, b1) {
                Read::Bad(e) => Read::Bad(e),
                Read::Good(t2, b2) => match parse(f3, b2) {
                    Read::Bad(e) => Read::Bad(e),
                    Read::Good(t3, b3) => Read::Good(seq![t1, t2, t3], b3),
                },
            },
        }),
{
    parse_parts_cons(f1, seq![f2, f3], b);
    assert(seq![f1] + seq![f2, f3] =~= seq![f1, f2, f3]);
    if let Read::Good(t1, b1) = parse(f1, b) {
        parse_parts_2(f2, f3, b1);
        if let Read::Good(ts, _) = parse_parts(seq![f2, f3], b1) {
            assert(seq![t1] + ts =~= seq![t1, ts[0], ts[1]]);
        }
    }
}

pub(crate) proof fn parse_parts_4(f1: Form, f2: Form, f3: Form, f4: Form, b: Seq<u8>)
    ensures
        parse_parts(seq![f1, f2, f3, f4], b) == (match parse(f1, b) {
            Read::Bad(e) => Read::Bad(e),
            Read::Good(t1, b1) => match parse(f2, b1) {
                Read::Bad(e) => Read::Bad(e),
                Read::Good(t2, b2) => match parse(f3, b2) {
                    Read::Bad(e) => Read::Bad(e),
                    Read::Good(t3, b3) => match parse(f4, b3) {
                        Read::Bad(e) => Read::Bad(e),
                        Read::Good(t4, b4) => Read::Good(seq![t1, t2, t3, t4], b4),
                    },
                },
            },
        }),
{
    parse_parts_cons(f1, seq![f2, f3, f4], b);
    assert(seq![f1] + seq![f2, f3, f4] =~= seq![f1, f2, f3, f4]);
    if let Read::Good(t1, b1) = parse(f1, b) {
        parse_parts_3(f2, f3, f4, b1);
        if let Read::Good(ts, _) = parse_parts(seq![f2, f3, f4], b1) {
            assert(seq![t1] + ts =~= seq![t1, ts[0], ts[1], ts[2]]);
        }
    }
}

pub(crate) proof fn parse_parts_5(f1: Form, f2: Form, f3: Form, f4: Form, f5: Form, b: Seq<u8>)
    ensures
        parse_parts(seq![f1, f2, f3, f4, f5], b) == (match parse(f1, b) {
            Read::Bad(e) => Read::Bad(e),
            Read::Good(t1, b1) => match parse(f2, b1) {
                Read::Bad(e) => Read::Bad(e),
                Read::Good(t2, b2) => match parse(f3, b2) {
                    Read::Bad(e) => Read::Bad(e),
                    Read::Good(t3, b3) => match parse(f4, b3) {
                        Read::Bad(e) => Read::Bad(e),
                        Read::Good(t4, b4) => match parse(f5, b4) {
                            Read::Bad(e) => Read::Bad(e),
                            Read::Good(t5, b5) => Read::Good(seq![t1, t2, t3, t4, t5], b5),
                        },
                    },
                },
            },
        }),
{
    parse_parts_cons(f1, seq![f2, f3, f4, f5], b);
    assert(seq![f1] + seq![f2, f3, f4, f5] =~= seq![f1, f2, f3, f4, f5]);
    if let Read::Good(t1, b1) = parse(f1, b) {
        parse_parts_4(f2, f3, f4, f5, b1);
        if let Read::Good(ts, _) = parse_parts(seq![f2, f3, f4, f5], b1) {
            assert(seq![t1] + ts =~= seq![t1, ts[0], ts[1], ts[2], ts[3]]);
        }
    }
}

pub(crate) proof fn parse_parts_6(f1: Form, f2: Form, f3: Form, f4: Form, f5: Form, f6: Form, b: Seq<u8>)
    ensures
        parse_parts(seq![f1, f2, f3, f4, f5, f6], b) == (match parse(f1, b) {
            Read::Bad(e) => Read::Bad(e),
            Read::Good(t1, b1) => match parse(f2, b1) {
                Read::Bad(e) => Read::Bad(e),
                Read::Good(t2, b2) => match parse(f3, b2) {
                    Read::Bad(e) => Read::Bad(e),
                    Read::Good(t3, b3) => match parse(f4, b3) {
                        Read::Bad(e) => Read::Bad(e),
                        Read::Good(t4, b4) => match parse(f5, b4) {
                            Read::Bad(e) => Read::Bad(e),
                            Read::Good(t5, b5) => match parse(f6, b5) {
                                Read::Bad(e) => Read::Bad(e),
                                Read::Good(t6, b6) => Read::Good(seq![t1, t2, t3, t4, t5, t6], b6),
                            },
                        },
                    },
                },
            },
        }),
{
    parse_parts_cons(f1, seq![f2, f3, f4, f5, f6], b);
    assert(seq![f1] + seq![f2, f3, f4, f5, f6] =~= seq![f1, f2, f3, f4, f5, f6]);
    if let Read::Good(t1, b1) = parse(f1, b) {
        parse_parts_5(f2, f3, f4, f5, f6, b1);
        if let Read::Good(ts, _) = parse_parts(seq![f2, f3, f4, f5, f6], b1) {
            assert(seq![t1] + ts =~= seq![t1, ts[0], ts[1], ts[2], ts[3], ts[4]]);
        }
    }
}

/// A node's bytes are its tag and the bytes of its parts.
pub(crate) proof fn emit_node(symbol: Symbol, tag: nat, fs: Seq<Form>, ts: Seq<Tree>)
    requires
        shape(symbol, tag) == Some(fs),
        tag < 256,
    ensures
        emit(Form::Node(symbol), Tree::Node(tag, ts)) == seq![tag as u8] + emit_parts(fs, ts),
        fits(Form::Node(symbol), Tree::Node(tag, ts)) == fits_parts(fs, ts),
        clean(Tree::Node(tag, ts)) == clean_all(ts),
        size(Tree::Node(tag, ts)) == 1 + size_all(ts),
{
    reveal(size);
    reveal(size_all);
    reveal(emit);
    reveal(emit_parts);
    reveal(fits);
    reveal(fits_parts);
    reveal(clean);
    reveal(clean_all);
}

/// A tuple's bytes are the bytes of its parts.
pub(crate) proof fn emit_tuple(fs: Seq<Form>, ts: Seq<Tree>)
    ensures
        emit(Form::Tuple(fs), Tree::Tuple(ts)) == emit_parts(fs, ts),
        fits(Form::Tuple(fs), Tree::Tuple(ts)) == fits_parts(fs, ts),
        clean(Tree::Tuple(ts)) == clean_all(ts),
        size(Tree::Tuple(ts)) == 1 + size_all(ts),
{
    reveal(size);
    reveal(size_all);
    reveal(emit);
    reveal(emit_parts);
    reveal(fits);
    reveal(fits_parts);
    reveal(clean);
    reveal(clean_all);
}

/// An optional piece's bytes.
pub(crate) proof fn emit_opt(f: Form, t: Tree)
    ensures
        emit(opt(f), Tree::Absent) == seq![0u8],
        fits(opt(f), Tree::Absent),
        clean(Tree::Absent),
        emit(opt(f), Tree::Present(Box::new(t))) == seq![1u8] + emit(f, t),
        fits(opt(f), Tree::Present(Box::new(t))) == fits(f, t),
        clean(Tree::Present(Box::new(t))) == clean(t),
        size(Tree::Present(Box::new(t))) == 1 + size(t),
{
    reveal_with_fuel(size, 2);
    reveal_with_fuel(emit, 2);
    reveal_with_fuel(fits, 2);
    reveal_with_fuel(clean, 2);
}

/// A list's bytes are its count and the bytes of its trees.
pub(crate) proof fn emit_list_whole(f: Form, ts: Seq<Tree>)
    ensures
        emit(list(f), Tree::List(ts)) == varint(ts.len()) + emit_list(f, ts),
        fits(list(f), Tree::List(ts)) == (ts.len() <= u64::MAX && fits_list(f, ts)),
        clean(Tree::List(ts)) == clean_all(ts),
        emit_list(f, Seq::<Tree>::empty()) == Seq::<u8>::empty(),
        fits_list(f, Seq::<Tree>::empty()),
        size(Tree::List(ts)) == 1 + size_all(ts),
{
    reveal(size);
    reveal(size_all);
    reveal(emit);
    reveal(emit_list);
    reveal(fits);
    reveal(fits_list);
    reveal(clean);
    reveal(clean_all);
}

proof fn lemma_size_of_one(ts: Seq<Tree>, i: int)
    requires
        0 <= i < ts.len(),
    ensures
        size(ts[i]) <= size_all(ts),
    decreases i,
{
    reveal(size);
    reveal_with_fuel(size_all, 2);
    if i > 0 {
        lemma_size_of_one(ts.drop_first(), i - 1);
        assert(ts.drop_first()[i - 1] == ts[i]);
    }
}

/// The bytes of the first `i + 1` trees are those of the first `i` and those of the next.
pub(crate) proof fn emit_list_step(f: Form, ts: Seq<Tree>, i: int)
    requires
        0 <= i < ts.len(),
    ensures
        emit_list(f, ts.take(i + 1)) == emit_list(f, ts.take(i)) + emit(f, ts[i]),
        fits_list(f, ts.take(i + 1)) == (fits_list(f, ts.take(i)) && fits(f, ts[i])),
        clean_all(ts) ==> clean(ts[i]),
        size(ts[i]) <= size_all(ts),
{
    lemma_size_of_one(ts, i);
    reveal(emit);
    reveal(emit_list);
    reveal(fits);
    reveal(fits_list);
    reveal(clean);
    reveal(clean_all);
    assert(ts.take(i + 1).drop_last() =~= ts.take(i));
    assert(ts.take(i + 1).last() == ts[i]);
}

/// The bytes of the pieces that have no pieces of their own.
pub(crate) proof fn emit_leaf(v: bool, bits: u64, s: Seq<char>, n: int, flags: nat)
    ensures
        emit(Form::Bool, Tree::Bool(v)) == seq![if v {
            1u8
        } else {
            0u8
        }],
        fits(Form::Bool, Tree::Bool(v)),
        emit(Form::Double, Tree::Bits(bits)) == low_bytes(bits as nat, 8),
        fits(Form::Double, Tree::Bits(bits)),
        emit(Form::Text, Tree::Text(s)) == text_bytes(s),
        fits(Form::Text, Tree::Text(s)) == (encode_utf8(s).len() <= u64::MAX),
        emit(Form::Operator, Tree::Operator(s)) == text_bytes(s),
        fits(Form::Operator, Tree::Operator(s)) == (encode_utf8(s).len() <= u64::MAX
            && is_spelling(s)),
        clean(Tree::Operator(s)) == is_spelling(s),
        emit(Form::Integer, Tree::Integer(n)) == text_bytes(radix_text(n, 16)),
        fits(Form::Integer, Tree::Integer(n)) == (n >= 0 && encode_utf8(radix_text(n, 16)).len()
            <= u64::MAX),
        clean(Tree::Integer(n)) == (n >= 0),
        emit(Form::Flags, Tree::Flags(flags)) == seq![flags as u8],
        fits(Form::Flags, Tree::Flags(flags)) == (flags < 128),
{
    reveal(emit);
    reveal(fits);
    reveal(clean);
}

/// Reading a node: its tag, then the parts that the tag calls for.
pub(crate) proof fn parse_node(symbol: Symbol, b: Seq<u8>)
    ensures
        parse(Form::Node(symbol), b) == (if b.len() == 0 {
            Read::Bad(Fault::Truncated)
        } else {
            match shape(symbol, b[0] as nat) {
                None => Read::Bad(Fault::BadTag(symbol, b[0])),
                Some(fs) => match parse_parts(fs, b.drop_first()) {
                    Read::Good(ts, rest) => Read::Good(Tree::Node(b[0] as nat, ts), rest),
                    Read::Bad(e) => Read::Bad(e),
                },
            }
        }),
{
    reveal(parse);
    reveal(parse_parts);
}

/// Reading a tuple: its parts.
pub(crate) proof fn parse_tuple(fs: Seq<Form>, b: Seq<u8>)
    ensures
        parse(Form::Tuple(fs), b) == (match parse_parts(fs, b) {
            Read::Good(ts, rest) => Read::Good(Tree::Tuple(ts), rest),
            Read::Bad(e) => Read::Bad(e),
        }),
{
    reveal(parse);
    reveal(parse_parts);
}

/// Reading an optional piece.
pub(crate) proof fn parse_opt(f: Form, b: Seq<u8>)
    ensures
        parse(opt(f), b) == (if b.len() == 0 {
            Read::Bad(Fault::Truncated)
        } else if b[0] == 1 {
            match parse(f, b.drop_first()) {
                Read::Good(t, rest) => Read::Good(Tree::Present(Box::new(t)), rest),
                Read::Bad(e) => Read::Bad(e),
            }
        } else {
            Read::Good(Tree::Absent, b.drop_first())
        }),
{
    reveal_with_fuel(parse, 2);
}

/// Reading a list: its count, then its pieces.
pub(crate) proof fn parse_list_whole(f: Form, b: Seq<u8>)
    ensures
        parse(list(f), b) == (match read_varint(b) {
            Read::Good(n, rest) => match parse_list(n as nat, f, rest) {
                Read::Good(ts, rest2) => Read::Good(Tree::List(ts), rest2),
                Read::Bad(e) => Read::Bad(e),
            },
            Read::Bad(e) => Read::Bad(e),
        }),
{
    reveal(parse);
    reveal(parse_list);
    lemma_groups_shrink(b, 0);
}

/// Reading one more piece of a list.
pub(crate) proof fn parse_list_step(n: nat, f: Form, b: Seq<u8>)
    ensures
        parse_list(n, f, b) == (if n == 0 {
            Read::Good(Seq::<Tree>::empty(), b)
        } else {
            match parse(f, b) {
                Read::Bad(e) => Read::Bad(e),
                Read::Good(t, rest) => match parse_list((n - 1) as nat, f, rest) {
                    Read::Bad(e) => Read::Bad(e),
                    Read::Good(ts, rest2) => Read::Good(seq![t] + ts, rest2),
                },
            }
        }),
{
    reveal(parse);
    reveal_with_fuel(parse_list, 2);
    reading_shrinks(f, b);
}

/// Reading the pieces that have no pieces of their own.
pub(crate) proof fn parse_leaf(b: Seq<u8>)
    ensures
        parse(Form::Bool, b) == (if b.len() == 0 {
            Read::Bad(Fault::Truncated)
        } else {
            Read::Good(Tree::Bool(b[0] != 0), b.drop_first())
        }),
        parse(Form::Double, b) == (if b.len() < 8 {
            Read::Bad(Fault::TruncatedDouble)
        } else {
            Read::Good(Tree::Bits(bytes_value(b.take(8)) as u64), b.skip(8))
        }),
        parse(Form::Text, b) == (match read_text(b) {
            Read::Good(s, rest) => Read::Good(Tree::Text(s), rest),
            Read::Bad(e) => Read::Bad(e),
        }),
        parse(Form::Operator, b) == (match read_text(b) {
            Read::Good(s, rest) => if is_spelling(s) {
                Read::Good(Tree::Operator(s), rest)
            } else {
                Read::Bad(Fault::UnknownOperator(s))
            },
            Read::Bad(e) => Read::Bad(e),
        }),
        parse(Form::Integer, b) == (match read_text(b) {
            Read::Good(s, rest) => match radix_value(s, 16) {
                Some(v) => Read::Good(Tree::Integer(v as int), rest),
                None => Read::Bad(Fault::BadInteger),
            },
            Read::Bad(e) => Read::Bad(e),
        }),
        parse(Form::Flags, b) == (if b.len() == 0 {
            Read::Bad(Fault::Truncated)
        } else {
            Read::Good(Tree::Flags((b[0] % 128) as nat), b.drop_first())
        }),
{
    reveal(parse);
}

pub(crate) proof fn emit_node_0(symbol: Symbol, tag: nat)
    requires
        shape(symbol, tag) == Some(Seq::<Form>::empty()),
        tag < 256,
    ensures
        emit(Form::Node(symbol), node0(tag)) == seq![tag as u8],
        fits(Form::Node(symbol), node0(tag)),
        clean(node0(tag)) == (true),
        size(node0(tag)) == 1,
{
    reveal(node0);
    emit_node(symbol, tag, Seq::<Form>::empty(), Seq::<Tree>::empty());
    emit_parts_0();
    assert(emit(Form::Node(symbol), node0(tag)) =~= seq![tag as u8]);
}

pub(crate) proof fn emit_node_1(symbol: Symbol, tag: nat, f1: Form, t1: Tree)
    requires
        shape(symbol, tag) == Some(seq![f1]),
        tag < 256,
    ensures
        emit(Form::Node(symbol), node1(tag, t1)) == seq![tag as u8] + emit(f1, t1),
        (clean(t1)) ==> (fits(f1, t1)) ==> fits(Form::Node(symbol), node1(tag, t1)),
        clean(node1(tag, t1)) == (clean(t1)),
        size(node1(tag, t1)) == 1 + size(t1),
{
    reveal(node1);
    emit_node(symbol, tag, seq![f1], seq![t1]);
    emit_parts_1(f1, t1);
    assert(emit(Form::Node(symbol), node1(tag, t1)) =~= seq![tag as u8] + emit(f1, t1));
}

pub(crate) proof fn emit_node_2(symbol: Symbol, tag: nat, f1: Form, t1: Tree, f2: Form, t2: Tree)
    requires
        shape(symbol, tag) == Some(seq![f1, f2]),
        tag < 256,
    ensures
        emit(Form::Node(symbol), node2(tag, t1, t2)) == seq![tag as u8] + emit(f1, t1) + emit(f2, t2),
        (clean(t1) && clean(t2)) ==> (fits(f1, t1) && fits(f2, t2)) ==> fits(Form::Node(symbol), node2(tag, t1, t2)),
        clean(node2(tag, t1, t2)) == (clean(t1) && clean(t2)),
        size(node2(tag, t1, t2)) == 1 + size(t1) + size(t2),
{
    reveal(node2);
    emit_node(symbol, tag, seq![f1, f2], seq![t1, t2]);
    emit_parts_2(f1, t1, f2, t2);
    assert(emit(Form::Node(symbol), node2(tag, t1, t2)) =~= seq![tag as u8] + emit(f1, t1) + emit(f2, t2));
}

pub(crate) proof fn emit_node_3(symbol: Symbol, tag: nat, f1: Form, t1: Tree, f2: Form, t2: Tree, f3: Form, t3: Tree)
    requires
        shape(symbol, tag) == Some(seq![f1, f2, f3]),
        tag < 256,
    ensures
        emit(Form::Node(symbol), node3(tag, t1, t2, t3)) == seq![tag as u8] + emit(f1, t1) + emit(f2, t2) + emit(f3, t3),
        (clean(t1) && clean(t2) && clean(t3)) ==> (fits(f1, t1) && fits(f2, t2) && fits(f3, t3)) ==> fits(Form::Node(symbol), node3(tag, t1, t2, t3)),
        clean(node3(tag, t1, t2, t3)) == (clean(t1) && clean(t2) && clean(t3)),
        size(node3(tag, t1, t2, t3)) == 1 + size(t1) + size(t2) + size(t3),
{
    reveal(node3);
    emit_node(symbol, tag, seq![f1, f2, f3], seq![t1, t2, t3]);
    emit_parts_3(f1, t1, f2, t2, f3, t3);
    assert(emit(Form::Node(symbol), node3(tag, t1, t2, t3)) =~= seq![tag as u8] + emit(f1, t1) + emit(f2, t2) + emit(f3, t3));
}

pub(crate) proof fn emit_node_4(symbol: Symbol, tag: nat, f1: Form, t1: Tree, f2: Form, t2: Tree, f3: Form, t3: Tree, f4: Form, t4: Tree)
    requires
        shape(symbol, tag) == Some(seq![f1, f2, f3, f4]),
        tag < 256,
    ensures
        emit(Form::Node(symbol), node4(tag, t1, t2, t3, t4)) == seq![tag as u8] + emit(f1, t1) + emit(f2, t2) + emit(f3, t3) + emit(f4, t4),
        (clean(t1) && clean(t2) && clean(t3) && clean(t4)) ==> (fits(f1, t1) && fits(f2, t2) && fits(f3, t3) && fits(f4, t4)) ==> fits(Form::Node(symbol), node4(tag, t1, t2, t3, t4)),
        clean(node4(tag, t1, t2, t3, t4)) == (clean(t1) && clean(t2) && clean(t3) && clean(t4)),
        size(node4(tag, t1, t2, t3, t4)) == 1 + size(t1) + size(t2) + size(t3) + size(t4),
{
    reveal(node4);
    emit_node(symbol, tag, seq![f1, f2, f3, f4], seq![t1, t2, t3, t4]);
    emit_parts_4(f1, t1, f2, t2, f3, t3, f4, t4);
    assert(emit(Form::Node(symbol), node4(tag, t1, t2, t3, t4)) =~= seq![tag as u8] + emit(f1, t1) + emit(f2, t2) + emit(f3, t3) + emit(f4, t4));
}

pub(crate) proof fn emit_node_6(symbol: Symbol, tag: nat, f1: Form, t1: Tree, f2: Form, t2: Tree, f3: Form, t3: Tree, f4: Form, t4: Tree, f5: Form, t5: Tree, f6: Form, t6: Tree)
    requires
        shape(symbol, tag) == Some(seq![f1, f2, f3, f4, f5, f6]),
        tag < 256,
    ensures
        emit(Form::Node(symbol), node6(tag, t1, t2, t3, t4, t5, t6)) == seq![tag as u8] + emit(f1, t1) + emit(f2, t2) + emit(f3, t3) + emit(f4, t4) + emit(f5, t5) + emit(f6, t6),
        (clean(t1) && clean(t2) && clean(t3) && clean(t4) && clean(t5) && clean(t6)) ==> (fits(f1, t1) && fits(f2, t2) && fits(f3, t3) && fits(f4, t4) && fits(f5, t5) && fits(f6, t6)) ==> fits(Form::Node(symbol), node6(tag, t1, t2, t3, t4, t5, t6)),
        clean(node6(tag, t1, t2, t3, t4, t5, t6)) == (clean(t1) && clean(t2) && clean(t3) && clean(t4) && clean(t5) && clean(t6)),
        size(node6(tag, t1, t2, t3, t4, t5, t6)) == 1 + size(t1) + size(t2) + size(t3) + size(t4) + size(t5) + size(t6),
{
    reveal(node6);
    emit_node(symbol, tag, seq![f1, f2, f3, f4, f5, f6], seq![t1, t2, t3, t4, t5, t6]);
    emit_parts_6(f1, t1, f2, t2, f3, t3, f4, t4, f5, t5, f6, t6);
    assert(emit(Form::Node(symbol), node6(tag, t1, t2, t3, t4, t5, t6)) =~= seq![tag as u8] + emit(f1, t1) + emit(f2, t2) + emit(f3, t3) + emit(f4, t4) + emit(f5, t5) + emit(f6, t6));
}

pub(crate) proof fn emit_tuple_2(f1: Form, t1: Tree, f2: Form, t2: Tree)
    ensures
        emit(Form::Tuple(seq![f1, f2]), tuple2(t1, t2)) == emit(f1, t1) + emit(f2, t2),
        fits(Form::Tuple(seq![f1, f2]), tuple2(t1, t2)) == (fits(f1, t1) && fits(f2, t2)),
        clean(tuple2(t1, t2)) == (clean(t1) && clean(t2)),
        size(tuple2(t1, t2)) == 1 + size(t1) + size(t2),
{
    reveal(tuple2);
    emit_tuple(seq![f1, f2], seq![t1, t2]);
    emit_parts_2(f1, t1, f2, t2);
}

pub(crate) proof fn emit_tuple_3(f1: Form, t1: Tree, f2: Form, t2: Tree, f3: Form, t3: Tree)
    ensures
        emit(Form::Tuple(seq![f1, f2, f3]), tuple3(t1, t2, t3)) == emit(f1, t1) + emit(f2, t2) + emit(f3, t3),
        fits(Form::Tuple(seq![f1, f2, f3]), tuple3(t1, t2, t3)) == (fits(f1, t1) && fits(f2, t2) && fits(f3, t3)),
        clean(tuple3(t1, t2, t3)) == (clean(t1) && clean(t2) && clean(t3)),
        size(tuple3(t1, t2, t3)) == 1 + size(t1) + size(t2) + size(t3),
{
    reveal(tuple3);
    emit_tuple(seq![f1, f2, f3], seq![t1, t2, t3]);
    emit_parts_3(f1, t1, f2, t2, f3, t3);
}

pub(crate) proof fn emit_tuple_5(f1: Form, t1: Tree, f2: Form, t2: Tree, f3: Form, t3: Tree, f4: Form, t4: Tree, f5: Form, t5: Tree)
    ensures
        emit(Form::Tuple(seq![f1, f2, f3, f4, f5]), tuple5(t1, t2, t3, t4, t5)) == emit(f1, t1) + emit(f2, t2) + emit(f3, t3) + emit(f4, t4) + emit(f5, t5),
        fits(Form::Tuple(seq![f1, f2, f3, f4, f5]), tuple5(t1, t2, t3, t4, t5)) == (fits(f1, t1) && fits(f2, t2) && fits(f3, t3) && fits(f4, t4) && fits(f5, t5)),
        clean(tuple5(t1, t2, t3, t4, t5)) == (clean(t1) && clean(t2) && clean(t3) && clean(t4) && clean(t5)),
        size(tuple5(t1, t2, t3, t4, t5)) == 1 + size(t1) + size(t2) + size(t3) + size(t4) + size(t5),
{
    reveal(tuple5);
    emit_tuple(seq![f1, f2, f3, f4, f5], seq![t1, t2, t3, t4, t5]);
    emit_parts_5(f1, t1, f2, t2, f3, t3, f4, t4, f5, t5);
}

pub(crate) proof fn emit_tuple_6(f1: Form, t1: Tree, f2: Form, t2: Tree, f3: Form, t3: Tree, f4: Form, t4: Tree, f5: Form, t5: Tree, f6: Form, t6: Tree)
    ensures
        emit(Form::Tuple(seq![f1, f2, f3, f4, f5, f6]), tuple6(t1, t2, t3, t4, t5, t6)) == emit(f1, t1) + emit(f2, t2) + emit(f3, t3) + emit(f4, t4) + emit(f5, t5) + emit(f6, t6),
        fits(Form::Tuple(seq![f1, f2, f3, f4, f5, f6]), tuple6(t1, t2, t3, t4, t5, t6)) == (fits(f1, t1) && fits(f2, t2) && fits(f3, t3) && fits(f4, t4) && fits(f5, t5) && fits(f6, t6)),
        clean(tuple6(t1, t2, t3, t4, t5, t6)) == (clean(t1) && clean(t2) && clean(t3) && clean(t4) && clean(t5) && clean(t6)),
        size(tuple6(t1, t2, t3, t4, t5, t6)) == 1 + size(t1) + size(t2) + size(t3) + size(t4) + size(t5) + size(t6),
{
    reveal(tuple6);
    emit_tuple(seq![f1, f2, f3, f4, f5, f6], seq![t1, t2, t3, t4, t5, t6]);
    emit_parts_6(f1, t1, f2, t2, f3, t3, f4, t4, f5, t5, f6, t6);
}

pub(crate) proof fn parse_node_0(symbol: Symbol, b: Seq<u8>)
    requires
        b.len() > 0,
        shape(symbol, b[0] as nat) == Some(Seq::<Form>::empty()),
    ensures
        parse(Form::Node(symbol), b) == (Read::Good(node0(b[0] as nat), b.drop_first())),
{
    reveal(node0);
    parse_node(symbol, b);
    parse_parts_0(b.drop_first());
}

pub(crate) proof fn parse_node_1(symbol: Symbol, b: Seq<u8>, f1: Form)
    requires
        b.len() > 0,
        shape(symbol, b[0] as nat) == Some(seq![f1]),
    ensures
        parse(Form::Node(symbol), b) == (match parse(f1, b.drop_first()) {
            Read::Bad(e) => Read::Bad(e),
            Read::Good(t1, b1) => Read::Good(node1(b[0] as nat, t1), b1),
        }),
{
    reveal(node1);
    parse_node(symbol, b);
    parse_parts_1(f1, b.drop_first());
}

pub(crate) proof fn parse_node_2(symbol: Symbol, b: Seq<u8>, f1: Form, f2: Form)
    requires
        b.len() > 0,
        shape(symbol, b[0] as nat) == Some(seq![f1, f2]),
    ensures
        parse(Form::Node(symbol), b) == (match parse(f1, b.drop_first()) {
            Read::Bad(e) => Read::Bad(e),
            Read::Good(t1, b1) => match parse(f2, b1) {
                Read::Bad(e) => Read::Bad(e),
                Read::Good(t2, b2) => Read::Good(node2(b[0] as nat, t1, t2), b2),
            },
        }),
{
    reveal(node2);
    parse_node(symbol, b);
    parse_parts_2(f1, f2, b.drop_first());
}

pub(crate) proof fn parse_node_3(symbol: Symbol, b: Seq<u8>, f1: Form, f2: Form, f3: Form)
    requires
        b.len() > 0,
        shape(symbol, b[0] as nat) == Some(seq![f1, f2, f3]),
    ensures
        parse(Form::Node(symbol), b) == (match parse(f1, b.drop_first()) {
            Read::Bad(e) => Read::Bad(e),
            Read::Good(t1, b1) => match parse(f2, b1) {
                Read::Bad(e) => Read::Bad(e),
                Read::Good(t2, b2) => match parse(f3, b2) {
                    Read::Bad(e) => Read::Bad(e),
                    Read::Good(t3, b3) => Read::Good(node3(b[0] as nat, t1, t2, t3), b3),
                },
            },
        }),
{
    reveal(node3);
    parse_node(symbol, b);
    parse_parts_3(f1, f2, f3, b.drop_first());
}

pub(crate) proof fn parse_node_4(symbol: Symbol, b: Seq<u8>, f1: Form, f2: Form, f3: Form, f4: Form)
    requires
        b.len() > 0,
        shape(symbol, b[0] as nat) == Some(seq![f1, f2, f3, f4]),
    ensures
        parse(Form::Node(symbol), b) == (match parse(f1, b.drop_first()) {
            Read::Bad(e) => Read::Bad(e),
            Read::Good(t1, b1) => match parse(f2, b1) {
                Read::Bad(e) => Read::Bad(e),
                Read::Good(t2, b2) => match parse(f3, b2) {
                    Read::Bad(e) => Read::Bad(e),
                    Read::Good(t3, b3) => match parse(f4, b3) {
                        Read::Bad(e) => Read::Bad(e),
                        Read::Good(t4, b4) => Read::Good(node4(b[0] as nat, t1, t2, t3, t4), b4),
                    },
                },
            },
        }),
{
    reveal(node4);
    parse_node(symbol, b);
    parse_parts_4(f1, f2, f3, f4, b.drop_first());
}

pub(crate) proof fn parse_node_6(symbol: Symbol, b: Seq<u8>, f1: Form, f2: Form, f3: Form, f4: Form, f5: Form, f6: Form)
    requires
        b.len() > 0,
        shape(symbol, b[0] as nat) == Some(seq![f1, f2, f3, f4, f5, f6]),
    ensures
        parse(Form::Node(symbol), b) == (match parse(f1, b.drop_first()) {
            Read::Bad(e) => Read::Bad(e),
            Read::Good(t1, b1) => match parse(f2, b1) {
                Read::Bad(e) => Read::Bad(e),
                Read::Good(t2, b2) => match parse(f3, b2) {
                    Read::Bad(e) => Read::Bad(e),
                    Read::Good(t3, b3) => match parse(f4, b3) {
                        Read::Bad(e) => Read::Bad(e),
                        Read::Good(t4, b4) => match parse(f5, b4) {
                            Read::Bad(e) => Read::Bad(e),
                            Read::Good(t5, b5) => match parse(f6, b5) {
                                Read::Bad(e) => Read::Bad(e),
                                Read::Good(t6, b6) => Read::Good(node6(b[0] as nat, t1, t2, t3, t4, t5, t6), b6),
                            },
                        },
                    },
                },
            },
        }),
{
    reveal(node6);
    parse_node(symbol, b);
    parse_parts_6(f1, f2, f3, f4, f5, f6, b.drop_first());
}

pub(crate) proof fn parse_tuple_2(b: Seq<u8>, f1: Form, f2: Form)
    ensures
        parse(Form::Tuple(seq![f1, f2]), b) == (match parse(f1, b) {
            Read::Bad(e) => Read::Bad(e),
            Read::Good(t1, b1) => match parse(f2, b1) {
                Read::Bad(e) => Read::Bad(e),
                Read::Good(t2, b2) => Read::Good(tuple2(t1, t2), b2),
            },
        }),
{
    reveal(tuple2);
    parse_tuple(seq![f1, f2], b);
    parse_parts_2(f1, f2, b);
}

pub(crate) proof fn parse_tuple_3(b: Seq<u8>, f1: Form, f2: Form, f3: Form)
    ensures
        parse(Form::Tuple(seq![f1, f2, f3]), b) == (match parse(f1, b) {
            Read::Bad(e) => Read::Bad(e),
            Read::Good(t1, b1) => match parse(f2, b1) {
                Read::Bad(e) => Read::Bad(e),
                Read::Good(t2, b2) => match parse(f3, b2) {
                    Read::Bad(e) => Read::Bad(e),
                    Read::Good(t3, b3) => Read::Good(tuple3(t1, t2, t3), b3),
                },
            },
        }),
{
    reveal(tuple3);
    parse_tuple(seq![f1, f2, f3], b);
    parse_parts_3(f1, f2, f3, b);
}

pub(crate) proof fn parse_tuple_5(b: Seq<u8>, f1: Form, f2: Form, f3: Form, f4: Form, f5: Form)
    ensures
        parse(Form::Tuple(seq![f1, f2, f3, f4, f5]), b) == (match parse(f1, b) {
            Read::Bad(e) => Read::Bad(e),
            Read::Good(t1, b1) => match parse(f2, b1) {
                Read::Bad(e) => Read::Bad(e),
                Read::Good(t2, b2) => match parse(f3, b2) {
                    Read::Bad(e) => Read::Bad(e),
                    Read::Good(t3, b3) => match parse(f4, b3) {
                        Read::Bad(e) => Read::Bad(e),
                        Read::Good(t4, b4) => match parse(f5, b4) {
                            Read::Bad(e) => Read::Bad(e),
                            Read::Good(t5, b5) => Read::Good(tuple5(t1, t2, t3, t4, t5), b5),
                        },
                    },
                },
            },
        }),
{
    reveal(tuple5);
    parse_tuple(seq![f1, f2, f3, f4, f5], b);
    parse_parts_5(f1, f2, f3, f4, f5, b);
}

pub(crate) proof fn parse_tuple_6(b: Seq<u8>, f1: Form, f2: Form, f3: Form, f4: Form, f5: Form, f6: Form)
    ensures
        parse(Form::Tuple(seq![f1, f2, f3, f4, f5, f6]), b) == (match parse(f1, b) {
            Read::Bad(e) => Read::Bad(e),
            Read::Good(t1, b1) => match parse(f2, b1) {
                Read::Bad(e) => Read::Bad(e),
                Read::Good(t2, b2) => match parse(f3, b2) {
                    Read::Bad(e) => Read::Bad(e),
                    Read::Good(t3, b3) => match parse(f4, b3) {
                        Read::Bad(e) => Read::Bad(e),
                        Read::Good(t4, b4) => match parse(f5, b4) {
                            Read::Bad(e) => Read::Bad(e),
                            Read::Good(t5, b5) => match parse(f6, b5) {
                                Read::Bad(e) => Read::Bad(e),
                                Read::Good(t6, b6) => Read::Good(tuple6(t1, t2, t3, t4, t5, t6), b6),
                            },
                        },
                    },
                },
            },
        }),
{
    reveal(tuple6);
    parse_tuple(seq![f1, f2, f3, f4, f5, f6], b);
    parse_parts_6(f1, f2, f3, f4, f5, f6, b);
}

} // verus!
