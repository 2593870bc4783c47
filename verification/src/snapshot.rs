//! A compact binary form of the syntax tree, so that a script can be parsed once, stored, and
//! decoded again far more cheaply than it is parsed.
//!
//! The format is a preorder walk with a tag byte per node, counts in seven-bit groups and doubles
//! as eight bytes, behind a header of a magic number and a version; [`crate::grammar`] states it.
//! Decoding can fail (another version, a truncated or corrupted file), and the caller then parses
//! the source text, so a snapshot is an optimization and never the source of truth.
use vstd::prelude::*;

use crate::ast::Stmt;
use crate::grammar::{
    clean, emit, emitted_reads_back, fits, list, parse, read_varint, reading_extends, stmt_form, varint,
    varint_reading_extends, varint_reads_back, Fault, Read,
};
use crate::snapshot::read::{dec_stmts, fault_message, Reader, SnapshotError};
use crate::snapshot::write::{enc_stmts, Writer};
use crate::tree::{program_tree, Tree};

pub mod read;
pub mod write;

verus! {

/// The number that every snapshot starts with.
pub const MAGIC: u64 = 0x4c_53_4e_31;

/// The version of the format. A snapshot of another version does not decode.
pub const VERSION: u64 = 1;

/// The bytes in front of the program.
pub open spec fn header() -> Seq<u8> {
    varint(MAGIC as nat) + varint(VERSION as nat)
}

/// The snapshot of a program.
pub open spec fn encoded(program: Tree) -> Seq<u8> {
    header() + emit(list(stmt_form()), program)
}

/// What a snapshot holds: the program, or the first thing that is wrong. Bytes behind the program
/// are ignored.
pub open spec fn decoded(b: Seq<u8>) -> Result<Tree, Fault> {
    match read_varint(b) {
        Read::Bad(f) => Err(f),
        Read::Good(magic, rest) => if magic != MAGIC {
            Err(Fault::BadMagic)
        } else {
            match read_varint(rest) {
                Read::Bad(f) => Err(f),
                Read::Good(version, rest2) => if version != VERSION {
                    Err(Fault::BadVersion)
                } else {
                    match parse(list(stmt_form()), rest2) {
                        Read::Bad(f) => Err(f),
                        Read::Good(t, _) => Ok(t),
                    }
                },
            }
        },
    }
}

/// A program reads back from its snapshot, if its operators are fixed spellings, its integer
/// literals are not negative and its counts fit in 64 bits.
pub proof fn snapshot_reads_back(program: Tree)
    requires
        fits(list(stmt_form()), program),
    ensures
        decoded(encoded(program)) == Ok::<Tree, Fault>(program),
{
    let body = emit(list(stmt_form()), program);
    varint_reads_back(MAGIC, varint(VERSION as nat) + body);
    varint_reads_back(VERSION, body);
    assert(encoded(program) =~= varint(MAGIC as nat) + (varint(VERSION as nat) + body));
    emitted_reads_back(list(stmt_form()), program, Seq::<u8>::empty());
    assert(body + Seq::<u8>::empty() =~= body);
}

/// No strict prefix of a snapshot holds a program.
pub proof fn truncated_snapshots_are_refused(program: Tree, k: int)
    requires
        fits(list(stmt_form()), program),
        0 <= k < encoded(program).len(),
    ensures
        decoded(encoded(program).take(k)) is Err,
{
    let whole = encoded(program);
    let part = whole.take(k);
    let more = whole.skip(k);
    let body = emit(list(stmt_form()), program);
    assert(part + more =~= whole);
    assert(more.len() > 0);
    varint_reads_back(MAGIC, varint(VERSION as nat) + body);
    varint_reads_back(VERSION, body);
    assert(whole =~= varint(MAGIC as nat) + (varint(VERSION as nat) + body));
    emitted_reads_back(list(stmt_form()), program, Seq::<u8>::empty());
    assert(body + Seq::<u8>::empty() =~= body);
    varint_reading_extends(part, more);
    if let Read::Good(_, rest) = read_varint(part) {
        varint_reading_extends(rest, more);
        if let Read::Good(_, rest2) = read_varint(rest) {
            reading_extends(list(stmt_form()), rest2, more);
            if let Read::Good(_, left) = parse(list(stmt_form()), rest2) {
                assert((left + more).len() > 0);
            }
        }
    }
}

/// Two programs with the same snapshot are the same program.
pub proof fn snapshots_tell_programs_apart(a: Tree, b: Tree)
    requires
        fits(list(stmt_form()), a),
        fits(list(stmt_form()), b),
        encoded(a) == encoded(b),
    ensures
        a == b,
{
    snapshot_reads_back(a);
    snapshot_reads_back(b);
}

// ---- whole programs ---------------------------------------------------------------------------

/// The snapshot of a program.
///
/// A program as the parser makes it reads back from its snapshot.
pub fn encode(body: &Vec<Stmt>) -> (r: Vec<u8>)
    ensures
        r@ == encoded(program_tree(body@)),
        clean(program_tree(body@)) ==> decoded(r@) == Ok::<Tree, Fault>(program_tree(body@)),
{
    let mut w = Writer { buf: Vec::new() };
    w.uv(MAGIC);
    w.uv(VERSION);
    assert(w.buf@ =~= header());
    enc_stmts(&mut w, body);
    proof {
        if clean(program_tree(body@)) {
            snapshot_reads_back(program_tree(body@));
        }
    }
    w.buf
}

/// The program that a snapshot holds, or the message of the first thing that is wrong with it, on
/// which the caller parses the source text instead.
pub fn decode(bytes: &[u8]) -> (r: Result<Vec<Stmt>, String>)
    ensures
        match decoded(bytes@) {
            Ok(t) => r matches Ok(body) && program_tree(body@) == t,
            Err(f) => r matches Err(message) && message@ == fault_message(f),
        },
{
    match read_snapshot(bytes) {
        Ok(body) => Ok(body),
        Err(e) => Err(e.message()),
    }
}

fn read_snapshot(bytes: &[u8]) -> (r: Result<Vec<Stmt>, SnapshotError>)
    ensures
        match decoded(bytes@) {
            Ok(t) => r matches Ok(body) && program_tree(body@) == t,
            Err(f) => r matches Err(e) && e.fault() == f,
        },
{
    let mut r = Reader { buf: bytes, pos: 0 };
    assert(r.rest() =~= bytes@);
    let magic = r.uv()?;
    if magic != MAGIC {
        return Err(SnapshotError::BadMagic);
    }
    let version = r.uv()?;
    if version != VERSION {
        return Err(SnapshotError::BadVersion);
    }
    dec_stmts(&mut r)
}

} // verus!
