//! The 16-bit units of texts, by which strings are measured and ordered.
use vstd::prelude::*;

use crate::number::Relation;
use crate::text::to_chars;

verus! {

/// The units of a character: one, or the two halves of a pair.
pub open spec fn char_units(c: char) -> Seq<u16> {
    let n = c as u32;
    if n < 0x1_0000 {
        seq![n as u16]
    } else {
        seq![
            (0xd800 + (n - 0x1_0000) / 0x400) as u16,
            (0xdc00 + (n - 0x1_0000) % 0x400) as u16,
        ]
    }
}

/// The units of a text.
pub open spec fn text_units(s: Seq<char>) -> Seq<u16>
    decreases s.len(),
{
    if s.len() == 0 {
        Seq::empty()
    } else {
        text_units(s.drop_last()) + char_units(s.last())
    }
}

/// How many units a text has, as far as 64 bits count.
pub open spec fn unit_count(s: Seq<char>) -> u64 {
    if text_units(s).len() > u64::MAX {
        u64::MAX
    } else {
        text_units(s).len() as u64
    }
}

/// How two rows of units compare: by the first that differs, and else the shorter comes first.
pub open spec fn units_relation(a: Seq<u16>, b: Seq<u16>) -> Relation
    decreases a.len(),
{
    if a.len() == 0 {
        if b.len() == 0 {
            Relation::Equal
        } else {
            Relation::Less
        }
    } else if b.len() == 0 {
        Relation::Greater
    } else if a[0] < b[0] {
        Relation::Less
    } else if b[0] < a[0] {
        Relation::Greater
    } else {
        units_relation(a.drop_first(), b.drop_first())
    }
}

fn push_units(out: &mut Vec<u16>, c: char)
    ensures
        final(out)@ == old(out)@ + char_units(c),
{
    let n: u32 = c as u32;
    assert(n <= 0x10_ffff);
    if n < 0x1_0000 {
        out.push(n as u16);
    } else {
        out.push((0xd800 + (n - 0x1_0000) / 0x400) as u16);
        out.push((0xdc00 + (n - 0x1_0000) % 0x400) as u16);
    }
    assert(out@ =~= old(out)@ + char_units(c));
}

fn to_units(text: &str) -> (r: Vec<u16>)
    ensures
        r@ == text_units(text@),
{
    let chars = to_chars(text);
    let mut out: Vec<u16> = Vec::new();
    let mut i: usize = 0;
    assert(text@.take(0) =~= Seq::<char>::empty());
    while i < chars.len()
        invariant
            i <= chars.len(),
            chars@ == text@,
            out@ == text_units(text@.take(i as int)),
        decreases chars.len() - i,
    {
        push_units(&mut out, chars[i]);
        assert(text@.take(i as int + 1).drop_last() =~= text@.take(i as int));
        i = i + 1;
    }
    assert(text@.take(i as int) =~= text@);
    out
}

/// How many units a text has.
pub fn unit_len(text: &str) -> (r: u64)
    ensures
        r == unit_count(text@),
{
    to_units(text).len() as u64
}

/// How two texts compare by their units.
pub fn relate_units(a: &str, b: &str) -> (r: Relation)
    ensures
        r == units_relation(text_units(a@), text_units(b@)),
{
    let x = to_units(a);
    let y = to_units(b);
    let mut i: usize = 0;
    assert(x@.skip(0) =~= x@);
    assert(y@.skip(0) =~= y@);
    while i < x.len() && i < y.len()
        invariant
            i <= x.len(),
            i <= y.len(),
            x@ == text_units(a@),
            y@ == text_units(b@),
            units_relation(x@, y@) == units_relation(x@.skip(i as int), y@.skip(i as int)),
        decreases x.len() - i,
    {
        assert(x@.skip(i as int).drop_first() =~= x@.skip(i as int + 1));
        assert(y@.skip(i as int).drop_first() =~= y@.skip(i as int + 1));
        if x[i] < y[i] {
            return Relation::Less;
        }
        if y[i] < x[i] {
            return Relation::Greater;
        }
        i = i + 1;
    }
    if i < y.len() {
        Relation::Less
    } else if i < x.len() {
        Relation::Greater
    } else {
        Relation::Equal
    }
}

/// The units of two texts, one after the other, are the units of both together.
pub proof fn units_of_joined_texts(a: Seq<char>, b: Seq<char>)
    ensures
        text_units(a + b) == text_units(a) + text_units(b),
    decreases b.len(),
{
    if b.len() == 0 {
        assert(a + b =~= a);
        assert(text_units(a) + text_units(b) =~= text_units(a));
    } else {
        units_of_joined_texts(a, b.drop_last());
        assert((a + b).drop_last() =~= a + b.drop_last());
        assert((a + b).last() == b.last());
        assert(text_units(a + b) =~= text_units(a) + text_units(b));
    }
}

} // verus!
