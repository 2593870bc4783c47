//! The lines and paths that the runner and its workers exchange.
use vstd::prelude::*;

use crate::bigint::{digits_value, is_digit, radix_value};
use crate::literal::{is_decimal_digit, parse_place, place_value, trim, trimmed, up_to};
use crate::modules::table::{copy_text, texts};
use crate::runner::judge::{Outcome, OutcomeView};
use crate::text::{decimal, decimal_string, from_chars, join, same_text, to_chars};

verus! {

/// A text with the characters that would end a field or a line as spaces.
pub open spec fn one_line(s: Seq<char>) -> Seq<char> {
    s.map_values(
        |c: char|
            if c == '\t' || c == '\n' || c == '\r' {
                ' '
            } else {
                c
            },
    )
}

fn on_one_line(s: &str) -> (r: String)
    ensures
        r@ == one_line(s@),
{
    let chars = to_chars(s);
    let mut out = String::new();
    let mut i: usize = 0;
    while i < chars.len()
        invariant
            i <= chars.len(),
            chars@ == s@,
            out@ =~= one_line(s@.take(i as int)),
        decreases chars.len() - i,
    {
        let c: char = chars[i];
        if c == '\t' || c == '\n' || c == '\r' {
            out.push(' ');
        } else {
            out.push(c);
        }
        i = i + 1;
    }
    assert(s@.take(i as int) =~= s@);
    out
}

/// What stands behind the first of a character.
pub open spec fn behind(s: Seq<char>, c: char) -> Option<Seq<char>> {
    if up_to(s, c).len() < s.len() {
        Some(s.skip(up_to(s, c).len() as int + 1))
    } else {
        None
    }
}

pub proof fn lemma_up_to(s: Seq<char>, c: char)
    ensures
        up_to(s, c).len() <= s.len(),
        up_to(s, c) == s.take(up_to(s, c).len() as int),
        up_to(s, c).len() < s.len() ==> s[up_to(s, c).len() as int] == c,
        forall|i: int| 0 <= i < up_to(s, c).len() ==> s[i] != c,
    decreases s.len(),
{
    if s.len() > 0 && s[0] != c {
        lemma_up_to(s.drop_first(), c);
        let u = up_to(s.drop_first(), c);
        assert(up_to(s, c) =~= s.take(u.len() as int + 1));
        assert forall|i: int| 0 <= i < up_to(s, c).len() implies s[i] != c by {
            if i > 0 {
                assert(s.drop_first()[i - 1] == s[i]);
            }
        }
    }
}

/// A text without the character, the character and another text: the first of it is found there.
proof fn lemma_up_to_joined(a: Seq<char>, c: char, b: Seq<char>)
    requires
        forall|i: int| 0 <= i < a.len() ==> a[i] != c,
    ensures
        up_to(a + seq![c] + b, c) == a,
        behind(a + seq![c] + b, c) == Some(b),
    decreases a.len(),
{
    let s = a + seq![c] + b;
    if a.len() == 0 {
        assert(s[0] == c);
        assert(up_to(s, c) =~= a);
    } else {
        assert(s.drop_first() =~= a.drop_first() + seq![c] + b);
        assert forall|i: int| 0 <= i < a.drop_first().len() implies a.drop_first()[i] != c by {
            assert(a.drop_first()[i] == a[i + 1]);
        }
        lemma_up_to_joined(a.drop_first(), c, b);
        assert(s[0] == a[0]);
        assert(up_to(s, c) =~= a);
    }
    assert(s.skip(a.len() as int + 1) =~= b);
}

/// Splits a text at the first of a character.
pub fn split_at(s: &str, c: char) -> (r: (String, Option<String>))
    ensures
        r.0@ == up_to(s@, c),
        match r.1 {
            Some(t) => behind(s@, c) == Some(t@),
            None => behind(s@, c) is None,
        },
{
    let chars = to_chars(s);
    let mut i: usize = 0;
    proof {
        lemma_up_to(s@, c);
    }
    while i < chars.len() && chars[i] != c
        invariant
            i <= chars.len(),
            chars@ == s@,
            forall|j: int| 0 <= j < i ==> s@[j] != c,
        decreases chars.len() - i,
    {
        i = i + 1;
    }
    proof {
        let n = up_to(s@, c).len() as int;
        if n < i {
            assert(s@[n] == c);
        }
        if i < n {
            assert(s@[i as int] != c);
        }
        assert(n == i);
    }
    let head = from_chars(&chars, 0, i);
    assert(head@ =~= s@.take(i as int));
    if i < chars.len() {
        let tail = from_chars(&chars, i + 1, chars.len());
        assert(tail@ =~= s@.skip(i as int + 1));
        (head, Some(tail))
    } else {
        (head, None)
    }
}

/// The letter of an outcome's kind.
pub open spec fn kind_letter(o: OutcomeView) -> char {
    match o {
        OutcomeView::Pass => 'P',
        OutcomeView::Fail(_) => 'F',
        OutcomeView::Skip(_) => 'S',
    }
}

/// The reason of an outcome; of a pass, none.
pub open spec fn reason_of(o: OutcomeView) -> Seq<char> {
    match o {
        OutcomeView::Pass => Seq::empty(),
        OutcomeView::Fail(s) => s,
        OutcomeView::Skip(s) => s,
    }
}

/// The line that a worker writes for a test: its number, the letter of the outcome, and the reason.
pub open spec fn line_of(place: u64, o: OutcomeView) -> Seq<char> {
    decimal(place as nat) + seq!['\t'] + (seq![kind_letter(o)] + seq!['\t'] + one_line(
        reason_of(o),
    ))
}

/// The line that a worker writes for a test.
pub fn encode_line(place: u64, o: &Outcome) -> (r: String)
    ensures
        r@ == line_of(place, o@),
{
    let mut out = decimal_string(place);
    out.push('\t');
    let reason = match o {
        Outcome::Pass => {
            out.push('P');
            String::new()
        },
        Outcome::Fail(s) => {
            out.push('F');
            on_one_line(s.as_str())
        },
        Outcome::Skip(s) => {
            out.push('S');
            on_one_line(s.as_str())
        },
    };
    out.push('\t');
    assert(reason@ =~= one_line(reason_of(o@)));
    let r = join(out.as_str(), reason.as_str());
    assert(r@ =~= line_of(place, o@));
    r
}

/// What a worker's line says: the number of a test and its outcome.
pub open spec fn line_value(s: Seq<char>) -> Option<(u64, OutcomeView)> {
    match (place_value(up_to(s, '\t')), behind(s, '\t')) {
        (Some(place), Some(rest)) => {
            let kind = up_to(rest, '\t');
            let reason = match behind(rest, '\t') {
                Some(t) => t,
                None => Seq::empty(),
            };
            Some(
                (
                    place,
                    if kind == "P"@ {
                        OutcomeView::Pass
                    } else if kind == "S"@ {
                        OutcomeView::Skip(reason)
                    } else {
                        OutcomeView::Fail(reason)
                    },
                ),
            )
        },
        _ => None,
    }
}

/// What a worker's line says.
pub fn decode_line(line: &str) -> (r: Option<(u64, Outcome)>)
    ensures
        match r {
            Some((place, o)) => line_value(line@) == Some((place, o@)),
            None => line_value(line@) is None,
        },
{
    let (head, rest) = split_at(line, '\t');
    let place: u64 = match parse_place(head.as_str()) {
        Some(n) => n,
        None => {
            return None;
        },
    };
    match rest {
        None => None,
        Some(rest) => {
            let (kind, reason) = split_at(rest.as_str(), '\t');
            let reason = match reason {
                Some(t) => t,
                None => {
                    let e = String::new();
                    assert(e@ =~= Seq::empty());
                    e
                },
            };
            Some(
                (
                    place,
                    if same_text(kind.as_str(), "P") {
                        Outcome::Pass
                    } else if same_text(kind.as_str(), "S") {
                        Outcome::Skip(reason)
                    } else {
                        Outcome::Fail(reason)
                    },
                ),
            )
        },
    }
}

/// An outcome with its reason on one line.
pub open spec fn on_line(o: OutcomeView) -> OutcomeView {
    match o {
        OutcomeView::Pass => OutcomeView::Pass,
        OutcomeView::Fail(s) => OutcomeView::Fail(one_line(s)),
        OutcomeView::Skip(s) => OutcomeView::Skip(one_line(s)),
    }
}

proof fn lemma_decimal_digits(n: nat)
    ensures
        decimal(n).len() > 0,
        forall|i: int| 0 <= i < decimal(n).len() ==> is_digit(#[trigger] decimal(n)[i], 10)
            && is_decimal_digit(decimal(n)[i]),
        digits_value(decimal(n), 10) == n,
    decreases n,
{
    let s = decimal(n);
    if n < 10 {
        assert(s.drop_last() =~= Seq::<char>::empty());
        assert(digits_value(s.drop_last(), 10) == 0);
    } else {
        lemma_decimal_digits(n / 10);
        assert(s.drop_last() =~= decimal(n / 10));
        assert forall|i: int| 0 <= i < s.len() implies is_digit(#[trigger] s[i], 10)
            && is_decimal_digit(s[i]) by {
            if i < decimal(n / 10).len() {
                assert(s[i] == decimal(n / 10)[i]);
            }
        }
    }
}

/// A line that a worker writes is read back as the test and the outcome that it was written for; only
/// the reason is brought onto one line.
pub proof fn lines_read_back(place: u64, o: OutcomeView)
    ensures
        line_value(line_of(place, o)) == Some((place, on_line(o))),
{
    let d = decimal(place as nat);
    lemma_decimal_digits(place as nat);
    let reason = one_line(reason_of(o));
    let rest = seq![kind_letter(o)] + seq!['\t'] + reason;
    assert forall|i: int| 0 <= i < d.len() implies d[i] != '\t' by {
        assert(is_decimal_digit(d[i]));
    }
    lemma_up_to_joined(d, '\t', rest);
    lemma_up_to_joined(seq![kind_letter(o)], '\t', reason);
    assert(d[0] != '+') by {
        assert(is_decimal_digit(d[0]));
    }
    assert(radix_value(d, 10) == Some(place as nat));
    reveal_strlit("P");
    reveal_strlit("S");
    assert("P"@ =~= seq!['P']);
    assert("S"@ =~= seq!['S']);
    assert(seq!['F'][0] != seq!['P'][0] && seq!['F'][0] != seq!['S'][0] && seq!['S'][0]
        != seq!['P'][0]);
}

/// A text in which every quote closes the quotation, stands escaped, and opens it again.
pub open spec fn quote_marks(s: Seq<char>) -> Seq<char>
    decreases s.len(),
{
    if s.len() == 0 {
        Seq::empty()
    } else if s.last() == '\'' {
        quote_marks(s.drop_last()) + "'\\''"@
    } else {
        quote_marks(s.drop_last()).push(s.last())
    }
}

/// A text as one argument of a shell command.
pub fn shell_quote(s: &str) -> (r: String)
    ensures
        r@ == seq!['\''] + quote_marks(s@) + seq!['\''],
{
    let chars = to_chars(s);
    let mut out = String::new();
    out.push('\'');
    let mut i: usize = 0;
    assert(chars@.take(0) =~= Seq::empty());
    assert(out@ =~= seq!['\''] + quote_marks(chars@.take(0)));
    while i < chars.len()
        invariant
            i <= chars.len(),
            chars@ == s@,
            out@ == seq!['\''] + quote_marks(s@.take(i as int)),
        decreases chars.len() - i,
    {
        let ghost before = out@;
        assert(s@.take(i as int + 1).drop_last() =~= s@.take(i as int));
        let c: char = chars[i];
        if c == '\'' {
            out = join(out.as_str(), "'\\''");
        } else {
            out.push(c);
        }
        assert(out@ =~= seq!['\''] + quote_marks(s@.take(i as int + 1)));
        i = i + 1;
    }
    assert(s@.take(i as int) =~= s@);
    out.push('\'');
    assert(out@ =~= seq!['\''] + quote_marks(s@) + seq!['\'']);
    out
}

/// The shell command that runs a worker over some tests, with a ceiling on its memory.
pub open spec fn worker_line(
    exe: Seq<char>,
    root: Seq<char>,
    paths: Seq<char>,
    out: Seq<char>,
    lo: nat,
    hi: nat,
) -> Seq<char> {
    let q = |s: Seq<char>| seq!['\''] + quote_marks(s) + seq!['\''];
    "ulimit -v 2097152 2>/dev/null; exec "@ + q(exe) + " --worker "@ + q(root) + " "@ + q(paths)
        + " "@ + q(out) + " "@ + decimal(lo) + " "@ + decimal(hi)
}

/// The shell command that runs a worker.
pub fn worker_command(exe: &str, root: &str, paths: &str, out: &str, lo: u64, hi: u64) -> (r: String)
    ensures
        r@ == worker_line(exe@, root@, paths@, out@, lo as nat, hi as nat),
{
    let a = join("ulimit -v 2097152 2>/dev/null; exec ", shell_quote(exe).as_str());
    let b = join(a.as_str(), " --worker ");
    let c = join(b.as_str(), shell_quote(root).as_str());
    let d = join(c.as_str(), " ");
    let e = join(d.as_str(), shell_quote(paths).as_str());
    let f = join(e.as_str(), " ");
    let g = join(f.as_str(), shell_quote(out).as_str());
    let h = join(g.as_str(), " ");
    let i = join(h.as_str(), decimal_string(lo).as_str());
    let j = join(i.as_str(), " ");
    join(j.as_str(), decimal_string(hi).as_str())
}

// ---- failures and categories

pub open spec fn opens_quote(c: char) -> bool {
    c == '\'' || c == '"' || c == '\u{ab}'
}

pub open spec fn closes_quote(c: char) -> bool {
    c == '\'' || c == '"' || c == '\u{bb}'
}

/// What stands behind the end of a quotation.
pub open spec fn unquoted(s: Seq<char>) -> Seq<char>
    decreases s.len(),
{
    if s.len() == 0 {
        s
    } else if closes_quote(s[0]) {
        s.drop_first()
    } else {
        unquoted(s.drop_first())
    }
}

proof fn lemma_unquoted(s: Seq<char>)
    ensures
        unquoted(s).len() <= s.len(),
    decreases s.len(),
{
    if s.len() > 0 && !closes_quote(s[0]) {
        lemma_unquoted(s.drop_first());
    }
}

/// The first seven words of a message, with its quotations as `X` and without its digits.
pub open spec fn gist(s: Seq<char>, words: nat) -> Seq<char>
    decreases s.len(),
    via gist_shrinks
{
    if s.len() == 0 {
        Seq::empty()
    } else if opens_quote(s[0]) {
        seq!['X'] + gist(unquoted(s.drop_first()), words)
    } else if s[0] == ' ' && words + 1 >= 7 {
        Seq::empty()
    } else if is_decimal_digit(s[0]) {
        gist(s.drop_first(), words)
    } else {
        seq![s[0]] + gist(
            s.drop_first(),
            if s[0] == ' ' {
                words + 1
            } else {
                words
            },
        )
    }
}

#[via_fn]
proof fn gist_shrinks(s: Seq<char>, words: nat) {
    if s.len() > 0 {
        lemma_unquoted(s.drop_first());
    }
}

/// The group of failures that a message belongs to.
pub fn bucket(why: &str) -> (r: String)
    ensures
        r@ == trimmed(gist(why@, 0), false),
{
    let chars = to_chars(why);
    let mut out = String::new();
    let mut words: u64 = 0;
    let mut i: usize = 0;
    assert(chars@.skip(0) =~= why@);
    assert(out@ + gist(why@, 0) =~= gist(why@, 0));
    while i < chars.len()
        invariant_except_break
            words < 7,
            out@ + gist(chars@.skip(i as int), words as nat) == gist(why@, 0),
        invariant
            i <= chars.len(),
        ensures
            out@ == gist(why@, 0),
        decreases chars.len() - i,
    {
        let ghost rest = chars@.skip(i as int);
        let ghost before = out@;
        assert(rest.drop_first() =~= chars@.skip(i as int + 1));
        assert(rest[0] == chars@[i as int]);
        let c: char = chars[i];
        let ghost at = i;
        i = i + 1;
        if c == '\'' || c == '"' || c == '\u{ab}' {
            out.push('X');
            let ghost inner = chars@.skip(i as int);
            let mut open = true;
            while i < chars.len() && open
                invariant
                    at < i <= chars.len(),
                    open ==> unquoted(inner) == unquoted(chars@.skip(i as int)),
                    !open ==> unquoted(inner) == chars@.skip(i as int),
                decreases chars.len() - i,
            {
                let d: char = chars[i];
                assert(chars@.skip(i as int).drop_first() =~= chars@.skip(i as int + 1));
                if d == '\'' || d == '"' || d == '\u{bb}' {
                    open = false;
                }
                i = i + 1;
            }
            assert(unquoted(inner) =~= chars@.skip(i as int));
            assert(out@ + gist(chars@.skip(i as int), words as nat) =~= before + gist(
                rest,
                words as nat,
            ));
        } else {
            if c == ' ' {
                words = words + 1;
                if words >= 7 {
                    assert(before + Seq::<char>::empty() =~= before);
                    break ;
                }
            }
            let digit = '0' <= c && c <= '9';
            if !digit {
                out.push(c);
            }
            assert(out@ + gist(chars@.skip(i as int), words as nat) =~= before + gist(
                rest,
                (if c == ' ' {
                    words - 1
                } else {
                    words as int
                }) as nat,
            ));
        }
        proof {
            if i == chars.len() {
                assert(chars@.skip(i as int) =~= Seq::empty());
                assert(out@ + Seq::<char>::empty() =~= out@);
            }
        }
    }
    trim(out.as_str(), false)
}

/// The category of a test: the first two names of its path.
pub open spec fn category_of(rel: Seq<char>) -> Seq<char> {
    match behind(rel, '/') {
        Some(rest) => up_to(rel, '/') + "/"@ + up_to(rest, '/'),
        None => rel,
    }
}

/// The category of a test.
pub fn category(rel: &str) -> (r: String)
    ensures
        r@ == category_of(rel@),
{
    let (first, rest) = split_at(rel, '/');
    proof {
        lemma_up_to(rel@, '/');
    }
    match rest {
        Some(rest) => {
            let (second, _) = split_at(rest.as_str(), '/');
            let a = join(first.as_str(), "/");
            join(a.as_str(), second.as_str())
        },
        None => {
            assert(first@ =~= rel@);
            first
        },
    }
}

/// A path with slashes between its names.
pub fn with_slashes(p: &str) -> (r: String)
    ensures
        r@ == p@.map_values(
            |c: char|
                if c == '\\' {
                    '/'
                } else {
                    c
                },
        ),
{
    let chars = to_chars(p);
    let mut out = String::new();
    let mut i: usize = 0;
    while i < chars.len()
        invariant
            i <= chars.len(),
            chars@ == p@,
            out@ =~= p@.take(i as int).map_values(
                |c: char|
                    if c == '\\' {
                        '/'
                    } else {
                        c
                    },
            ),
        decreases chars.len() - i,
    {
        let c: char = chars[i];
        if c == '\\' {
            out.push('/');
        } else {
            out.push(c);
        }
        i = i + 1;
    }
    assert(p@.take(i as int) =~= p@);
    out
}

// ---- paths

/// The names of a path, in order. Nothing between two slashes is no name.
pub open spec fn names_of(p: Seq<char>) -> Seq<Seq<char>>
    decreases p.len(),
    via names_shrink
{
    let first = up_to(p, '/');
    let front = if first.len() == 0 {
        Seq::empty()
    } else {
        seq![first]
    };
    match behind(p, '/') {
        Some(rest) => front + names_of(rest),
        None => front,
    }
}

#[via_fn]
proof fn names_shrink(p: Seq<char>) {
    lemma_up_to(p, '/');
}

/// The names of a path with its steps taken: `..` leaves the name before it, `.` stays.
pub open spec fn stepped(names: Seq<Seq<char>>) -> Seq<Seq<char>>
    decreases names.len(),
{
    if names.len() == 0 {
        Seq::empty()
    } else {
        let before = stepped(names.drop_last());
        if names.last() == ".."@ {
            if before.len() == 0 {
                before
            } else {
                before.drop_last()
            }
        } else if names.last() == "."@ {
            before
        } else {
            before.push(names.last())
        }
    }
}

/// Names with slashes between them.
pub open spec fn slashed(names: Seq<Seq<char>>) -> Seq<char>
    decreases names.len(),
{
    if names.len() == 0 {
        Seq::empty()
    } else if names.len() == 1 {
        names[0]
    } else {
        slashed(names.drop_last()) + seq!['/'] + names.last()
    }
}

/// A path with its steps taken.
pub open spec fn normalized(p: Seq<char>) -> Seq<char> {
    (if p.len() > 0 && p[0] == '/' {
        seq!['/']
    } else {
        Seq::empty()
    }) + slashed(stepped(names_of(p)))
}

fn split_names(p: &str) -> (r: Vec<String>)
    ensures
        texts(r@) == names_of(p@),
    decreases p@.len(),
{
    let (first, rest) = split_at(p, '/');
    proof {
        lemma_up_to(p@, '/');
    }
    let mut out: Vec<String> = Vec::new();
    if first.as_str().unicode_len() > 0 {
        out.push(first);
    }
    assert(texts(out@) =~= if up_to(p@, '/').len() == 0 {
        Seq::empty()
    } else {
        seq![up_to(p@, '/')]
    });
    match rest {
        Some(rest) => {
            let mut more = split_names(rest.as_str());
            let ghost a = out@;
            let ghost b = more@;
            out.append(&mut more);
            assert(texts(out@) =~= texts(a) + texts(b));
        },
        None => {},
    }
    out
}

/// A path with its steps taken, without a look at the files.
pub fn normalize_path(p: &str) -> (r: String)
    ensures
        r@ == normalized(p@),
{
    let names = split_names(p);
    let mut kept: Vec<String> = Vec::new();
    let mut i: usize = 0;
    assert(texts(names@).take(0) =~= Seq::empty());
    assert(texts(kept@) =~= Seq::empty());
    while i < names.len()
        invariant
            i <= names.len(),
            texts(kept@) == stepped(texts(names@).take(i as int)),
        decreases names.len() - i,
    {
        let ghost seen = texts(names@).take(i as int + 1);
        let ghost before = kept@;
        assert(seen.drop_last() =~= texts(names@).take(i as int));
        assert(seen.last() == names@[i as int]@);
        let name = names[i].as_str();
        if same_text(name, "..") {
            let _ = kept.pop();
            proof {
                if before.len() > 0 {
                    assert(texts(kept@) =~= texts(before).drop_last());
                } else {
                    assert(texts(kept@) =~= texts(before));
                }
            }
        } else if !same_text(name, ".") {
            kept.push(copy_text(name));
            assert(texts(kept@) =~= texts(before).push(name@));
        }
        i = i + 1;
    }
    assert(texts(names@).take(i as int) =~= texts(names@));
    let chars = to_chars(p);
    let body = join_names(&kept);
    if chars.len() > 0 && chars[0] == '/' {
        proof {
            reveal_strlit("/");
            assert("/"@ =~= seq!['/']);
        }
        join("/", body.as_str())
    } else {
        assert(body@ =~= Seq::<char>::empty() + body@);
        body
    }
}

fn join_names(names: &Vec<String>) -> (r: String)
    ensures
        r@ == slashed(texts(names@)),
{
    let mut out = String::new();
    let mut i: usize = 0;
    assert(texts(names@).take(0) =~= Seq::empty());
    assert(out@ =~= Seq::empty());
    while i < names.len()
        invariant
            i <= names.len(),
            out@ == slashed(texts(names@).take(i as int)),
        decreases names.len() - i,
    {
        let ghost seen = texts(names@).take(i as int + 1);
        assert(seen.drop_last() =~= texts(names@).take(i as int));
        assert(seen.last() == names@[i as int]@);
        if i > 0 {
            out.push('/');
        }
        let ghost before = out@;
        out = join(out.as_str(), names[i].as_str());
        if i == 0 {
            assert(out@ =~= seen[0]);
        }
        assert(out@ =~= slashed(seen));
        i = i + 1;
    }
    assert(texts(names@).take(i as int) =~= texts(names@));
    out
}

/// Whether a name can stand between slashes and is no step.
pub open spec fn is_name(n: Seq<char>) -> bool {
    n.len() > 0 && n != "."@ && n != ".."@ && forall|i: int| 0 <= i < n.len() ==> n[i] != '/'
}

pub open spec fn all_names(v: Seq<Seq<char>>) -> bool {
    forall|i: int| 0 <= i < v.len() ==> is_name(#[trigger] v[i])
}

/// The names of a path hold no slash.
proof fn lemma_names_of(p: Seq<char>)
    ensures
        forall|i: int, j: int|
            0 <= i < names_of(p).len() && 0 <= j < names_of(p)[i].len() ==> names_of(p)[i][j] != '/',
        forall|i: int| 0 <= i < names_of(p).len() ==> (#[trigger] names_of(p)[i]).len() > 0,
    decreases p.len(),
{
    lemma_up_to(p, '/');
    let first = up_to(p, '/');
    let front = if first.len() == 0 {
        Seq::empty()
    } else {
        seq![first]
    };
    let all = names_of(p);
    assert forall|j: int| 0 <= j < first.len() implies first[j] != '/' by {
        assert(first[j] == p[j]);
    }
    match behind(p, '/') {
        Some(rest) => {
            lemma_names_of(rest);
            let more = names_of(rest);
            assert(all =~= front + more);
            assert forall|i: int, j: int|
                0 <= i < all.len() && 0 <= j < all[i].len() implies all[i][j] != '/' by {
                if i < front.len() {
                    assert(all[i] == first);
                } else {
                    assert(all[i] == more[i - front.len()]);
                }
            }
            assert forall|i: int| 0 <= i < all.len() implies (#[trigger] all[i]).len() > 0 by {
                if i < front.len() {
                    assert(all[i] == first);
                } else {
                    assert(all[i] == more[i - front.len()]);
                }
            }
        },
        None => {
            assert(all =~= front);
        },
    }
}

/// Steps taken leave nothing but names.
proof fn lemma_stepped(v: Seq<Seq<char>>)
    requires
        forall|i: int, j: int| 0 <= i < v.len() && 0 <= j < v[i].len() ==> v[i][j] != '/',
        forall|i: int| 0 <= i < v.len() ==> (#[trigger] v[i]).len() > 0,
    ensures
        all_names(stepped(v)),
    decreases v.len(),
{
    if v.len() > 0 {
        let w = v.drop_last();
        assert forall|i: int, j: int| 0 <= i < w.len() && 0 <= j < w[i].len() implies w[i][j]
            != '/' by {
            assert(w[i] == v[i]);
        }
        assert forall|i: int| 0 <= i < w.len() implies (#[trigger] w[i]).len() > 0 by {
            assert(w[i] == v[i]);
        }
        lemma_stepped(w);
        let n = v.last();
        assert(n == v[v.len() - 1]);
        if n != ".."@ && n != "."@ {
            assert(is_name(n));
        }
    }
}

/// Names stay as they are.
proof fn lemma_stepped_names(v: Seq<Seq<char>>)
    requires
        all_names(v),
    ensures
        stepped(v) == v,
    decreases v.len(),
{
    if v.len() > 0 {
        assert(all_names(v.drop_last())) by {
            assert forall|i: int| 0 <= i < v.drop_last().len() implies is_name(
                #[trigger] v.drop_last()[i],
            ) by {
                assert(v.drop_last()[i] == v[i]);
            }
        }
        lemma_stepped_names(v.drop_last());
        assert(is_name(v[v.len() - 1]));
        assert(v =~= v.drop_last().push(v.last()));
    } else {
        assert(v =~= Seq::empty());
    }
}

/// A path made of names has those names.
proof fn lemma_slashed_names(v: Seq<Seq<char>>)
    requires
        all_names(v),
    ensures
        names_of(slashed(v)) == v,
        v.len() > 0 ==> slashed(v).len() > 0 && slashed(v)[0] != '/',
    decreases v.len(),
{
    if v.len() == 0 {
        assert(up_to(slashed(v), '/') =~= Seq::empty());
        assert(names_of(slashed(v)) =~= v);
    } else if v.len() == 1 {
        assert(is_name(v[0]));
        lemma_plain(v[0]);
        assert(names_of(slashed(v)) =~= v);
    } else {
        let w = v.drop_last();
        assert(all_names(w)) by {
            assert forall|i: int| 0 <= i < w.len() implies is_name(#[trigger] w[i]) by {
                assert(w[i] == v[i]);
            }
        }
        lemma_slashed_names(w);
        assert(is_name(v[v.len() - 1]));
        lemma_plain(v.last());
        lemma_names_joined(slashed(w), v.last());
        assert(v =~= w.push(v.last()));
    }
}

/// A text without slashes is its own only name.
proof fn lemma_plain(n: Seq<char>)
    requires
        n.len() > 0,
        forall|i: int| 0 <= i < n.len() ==> n[i] != '/',
    ensures
        up_to(n, '/') == n,
        names_of(n) == seq![n],
{
    lemma_up_to(n, '/');
    let k = up_to(n, '/').len() as int;
    if k < n.len() {
        assert(n[k] == '/');
    }
    assert(up_to(n, '/') =~= n);
    assert(names_of(n) =~= seq![n]);
}

/// A path and one more name.
proof fn lemma_names_joined(p: Seq<char>, n: Seq<char>)
    requires
        n.len() > 0,
        forall|i: int| 0 <= i < n.len() ==> n[i] != '/',
    ensures
        names_of(p + seq!['/'] + n) == names_of(p).push(n),
    decreases p.len(),
{
    lemma_up_to(p, '/');
    lemma_plain(n);
    let first = up_to(p, '/');
    let whole = p + seq!['/'] + n;
    match behind(p, '/') {
        Some(rest) => {
            let tail = rest + seq!['/'] + n;
            assert(p =~= first + seq!['/'] + rest);
            assert(whole =~= first + seq!['/'] + tail);
            assert forall|i: int| 0 <= i < first.len() implies first[i] != '/' by {
                assert(first[i] == p[i]);
            }
            lemma_up_to_joined(first, '/', tail);
            lemma_names_joined(rest, n);
            assert(names_of(whole) =~= names_of(p).push(n));
        },
        None => {
            assert(first =~= p);
            assert forall|i: int| 0 <= i < p.len() implies p[i] != '/' by {
                assert(first[i] == p[i]);
            }
            lemma_up_to_joined(p, '/', n);
            assert(names_of(whole) =~= names_of(p).push(n));
        },
    }
}

/// Taking the steps of a path once is enough: one module has one key.
pub proof fn normalizing_is_final(p: Seq<char>)
    ensures
        normalized(normalized(p)) == normalized(p),
{
    let v = stepped(names_of(p));
    lemma_names_of(p);
    lemma_stepped(names_of(p));
    lemma_slashed_names(v);
    lemma_stepped_names(v);
    let n = normalized(p);
    if p.len() > 0 && p[0] == '/' {
        let none = Seq::<char>::empty();
        assert(n =~= none + seq!['/'] + slashed(v));
        lemma_up_to_joined(none, '/', slashed(v));
        assert(names_of(n) =~= names_of(slashed(v)));
    } else {
        assert(n =~= slashed(v));
        if v.len() == 0 {
            assert(n.len() == 0);
        }
    }
}

} // verus!
