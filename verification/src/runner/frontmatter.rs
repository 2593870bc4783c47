//! What a test says of itself in the comment at its top.
use vstd::prelude::*;

use crate::literal::{trim, trimmed, up_to};
use crate::modules::table::{copy_text, holds_name, texts};
use crate::runner::judge::{begins, strip_prefix, Negative, Phase};
use crate::runner::lines::{behind, lemma_up_to, split_at};
use crate::text::{from_chars, same_text, to_chars};

verus! {

/// What the runner needs to know of a test.
pub struct Frontmatter {
    pub flags: Vec<String>,
    pub includes: Vec<String>,
    pub negative: Option<Negative>,
}

/// What the lines of a comment have told so far.
pub ghost struct Told {
    /// The entry that the lines belong to.
    pub section: Seq<char>,
    pub flags: Seq<Seq<char>>,
    pub includes: Seq<Seq<char>>,
    pub phase: Option<Seq<char>>,
    pub kind: Option<Seq<char>>,
}

struct Notes {
    section: String,
    flags: Vec<String>,
    includes: Vec<String>,
    phase: Option<String>,
    kind: Option<String>,
}

/// A text that may be missing.
pub open spec fn maybe(s: Option<String>) -> Option<Seq<char>> {
    match s {
        Some(t) => Some(t@),
        None => None,
    }
}

impl Notes {
    spec fn told(self) -> Told {
        Told {
            section: self.section@,
            flags: texts(self.flags@),
            includes: texts(self.includes@),
            phase: maybe(self.phase),
            kind: maybe(self.kind),
        }
    }
}

/// The first place from one on at which a text stands in another.
pub open spec fn first_at(s: Seq<char>, p: Seq<char>, i: nat) -> Option<nat>
    decreases s.len() + 1 - i,
{
    if i > s.len() {
        None
    } else if begins(s.skip(i as int), p) {
        Some(i)
    } else {
        first_at(s, p, i + 1)
    }
}

fn stands_at(s: &Vec<char>, p: &Vec<char>, i: usize) -> (r: bool)
    requires
        i <= s@.len(),
    ensures
        r == begins(s@.skip(i as int), p@),
{
    if p.len() > s.len() - i {
        return false;
    }
    let mut k: usize = 0;
    while k < p.len()
        invariant
            k <= p.len() <= s.len() - i,
            forall|j: int| 0 <= j < k ==> s@[i + j] == p@[j],
        decreases p.len() - k,
    {
        if s[i + k] != p[k] {
            assert(s@.skip(i as int).take(p@.len() as int)[k as int] != p@[k as int]);
            return false;
        }
        k = k + 1;
    }
    assert(s@.skip(i as int).take(p@.len() as int) =~= p@);
    true
}

fn find_text(s: &Vec<char>, p: &Vec<char>, from: usize) -> (r: Option<usize>)
    ensures
        match r {
            Some(i) => first_at(s@, p@, from as nat) == Some(i as nat) && from <= i && i + p@.len()
                <= s@.len(),
            None => first_at(s@, p@, from as nat) is None,
        },
{
    if from > s.len() {
        return None;
    }
    let mut i: usize = from;
    while i < s.len()
        invariant
            from <= i <= s.len(),
            first_at(s@, p@, from as nat) == first_at(s@, p@, i as nat),
        decreases s.len() - i,
    {
        if stands_at(s, p, i) {
            return Some(i);
        }
        i = i + 1;
    }
    if stands_at(s, p, i) {
        Some(i)
    } else {
        assert(first_at(s@, p@, (i + 1) as nat) is None);
        None
    }
}

/// The comment of a test: what stands between `/*---` and the next `---*/`.
pub open spec fn comment(s: Seq<char>) -> Seq<char> {
    match first_at(s, "/*---"@, 0) {
        Some(a) => match first_at(s, "---*/"@, (a + "/*---"@.len()) as nat) {
            Some(b) => s.subrange((a + "/*---"@.len()) as int, b as int),
            None => Seq::empty(),
        },
        None => Seq::empty(),
    }
}

fn find_comment(src: &str) -> (r: String)
    ensures
        r@ == comment(src@),
{
    let s = to_chars(src);
    let open = to_chars("/*---");
    let close = to_chars("---*/");
    match find_text(&s, &open, 0) {
        Some(a) => {
            assert(a + open@.len() <= s.len());
            let from: usize = a + open.len();
            match find_text(&s, &close, from) {
                Some(b) => {
                    return from_chars(&s, from, b);
                },
                None => {},
            }
        },
        None => {},
    }
    let r = String::new();
    assert(r@ =~= Seq::empty());
    r
}

/// The items of a list with commas between them, without the blanks around them; empty ones are left out.
pub open spec fn listed_items(s: Seq<char>) -> Seq<Seq<char>>
    decreases s.len(),
{
    let first = trimmed(up_to(s, ','), false);
    let here = if first.len() == 0 {
        Seq::empty()
    } else {
        seq![first]
    };
    match behind(s, ',') {
        Some(rest) => if rest.len() < s.len() {
            here + listed_items(rest)
        } else {
            here
        },
        None => here,
    }
}

fn push_items(s: &str, out: &mut Vec<String>)
    ensures
        texts(final(out)@) == texts(old(out)@) + listed_items(s@),
    decreases s@.len(),
{
    let (head, rest) = split_at(s, ',');
    proof {
        lemma_up_to(s@, ',');
    }
    let first = trim(head.as_str(), false);
    let ghost before = texts(out@);
    let ghost here = if first@.len() == 0 {
        Seq::<Seq<char>>::empty()
    } else {
        seq![first@]
    };
    if first.as_str().unicode_len() > 0 {
        out.push(first);
    }
    assert(texts(out@) =~= before + here);
    match rest {
        Some(rest) => {
            push_items(rest.as_str(), out);
            assert(before + here + listed_items(rest@) =~= before + (here + listed_items(rest@)));
        },
        None => {},
    }
}

/// The items that a line gives: those between brackets, or the one behind a dash.
pub open spec fn items_of(line: Seq<char>) -> Seq<Seq<char>> {
    match behind(line, '[') {
        Some(inner) => if behind(inner, ']') is Some {
            listed_items(up_to(inner, ']'))
        } else {
            Seq::empty()
        },
        None => if begins(line, "- "@) {
            listed_items(line.skip(2))
        } else {
            Seq::empty()
        },
    }
}

fn add_items(line: &str, out: &mut Vec<String>)
    ensures
        texts(final(out)@) == texts(old(out)@) + items_of(line@),
{
    let ghost before = texts(out@);
    let (_, inner) = split_at(line, '[');
    match inner {
        Some(inner) => {
            let (list, end) = split_at(inner.as_str(), ']');
            if end.is_some() {
                push_items(list.as_str(), out);
            }
        },
        None => {
            proof {
                reveal_strlit("- ");
            }
            match strip_prefix(line, "- ") {
                Some(one) => {
                    push_items(one.as_str(), out);
                },
                None => {},
            }
        },
    }
    assert(before + Seq::<Seq<char>>::empty() =~= before);
}

/// What is told after another line. A line that is not indented and has a colon begins an entry.
pub open spec fn told_after(t: Told, line: Seq<char>) -> Told {
    let text = trimmed(line, false);
    let section = if !(line.len() > 0 && line[0] == ' ') && behind(text, ':') is Some {
        up_to(text, ':')
    } else {
        t.section
    };
    let t = Told { section, ..t };
    if section == "flags"@ {
        Told { flags: t.flags + items_of(text), ..t }
    } else if section == "includes"@ {
        Told { includes: t.includes + items_of(text), ..t }
    } else if section == "negative"@ {
        if begins(text, "phase:"@) {
            Told { phase: Some(trimmed(text.skip("phase:"@.len() as int), false)), ..t }
        } else if begins(text, "type:"@) {
            Told { kind: Some(trimmed(text.skip("type:"@.len() as int), false)), ..t }
        } else {
            t
        }
    } else {
        t
    }
}

/// What the lines of a text tell, in order.
pub open spec fn told_by(t: Told, s: Seq<char>) -> Told
    decreases s.len(),
{
    let t = told_after(t, up_to(s, '\n'));
    match behind(s, '\n') {
        Some(rest) => if rest.len() < s.len() {
            told_by(t, rest)
        } else {
            t
        },
        None => t,
    }
}

fn note_line(n: &mut Notes, line: &str)
    ensures
        final(n).told() == told_after(old(n).told(), line@),
{
    let text = trim(line, false);
    let chars = to_chars(line);
    let (name, colon) = split_at(text.as_str(), ':');
    if !(chars.len() > 0 && chars[0] == ' ') && colon.is_some() {
        n.section = name;
    }
    if same_text(n.section.as_str(), "flags") {
        add_items(text.as_str(), &mut n.flags);
    } else if same_text(n.section.as_str(), "includes") {
        add_items(text.as_str(), &mut n.includes);
    } else if same_text(n.section.as_str(), "negative") {
        match strip_prefix(text.as_str(), "phase:") {
            Some(p) => {
                n.phase = Some(trim(p.as_str(), false));
            },
            None => match strip_prefix(text.as_str(), "type:") {
                Some(k) => {
                    n.kind = Some(trim(k.as_str(), false));
                },
                None => {},
            },
        }
    }
}

fn note_lines(n: &mut Notes, s: &str)
    ensures
        final(n).told() == told_by(old(n).told(), s@),
    decreases s@.len(),
{
    let (line, rest) = split_at(s, '\n');
    proof {
        lemma_up_to(s@, '\n');
    }
    note_line(n, line.as_str());
    match rest {
        Some(rest) => {
            note_lines(n, rest.as_str());
        },
        None => {},
    }
}

/// What a comment tells before its first line.
pub open spec fn nothing_told() -> Told {
    Told {
        section: Seq::empty(),
        flags: Seq::empty(),
        includes: Seq::empty(),
        phase: None,
        kind: None,
    }
}

/// The phase in which a test must fail.
pub open spec fn phase_named(p: Option<Seq<char>>) -> Phase {
    if p == Some("parse"@) {
        Phase::Parse
    } else if p == Some("early"@) {
        Phase::Early
    } else if p == Some("resolution"@) {
        Phase::Resolution
    } else {
        Phase::Runtime
    }
}

fn phase_of(p: &Option<String>) -> (r: Phase)
    ensures
        r == phase_named(maybe(*p)),
{
    match p {
        Some(t) => if same_text(t.as_str(), "parse") {
            Phase::Parse
        } else if same_text(t.as_str(), "early") {
            Phase::Early
        } else if same_text(t.as_str(), "resolution") {
            Phase::Resolution
        } else {
            Phase::Runtime
        },
        None => Phase::Runtime,
    }
}

impl Frontmatter {
    /// Reads the comment of a test. A test must fail if the comment names the type of its error.
    pub fn parse(src: &str) -> (r: Frontmatter)
        ensures
            texts(r.flags@) == told_by(nothing_told(), comment(src@)).flags,
            texts(r.includes@) == told_by(nothing_told(), comment(src@)).includes,
            match told_by(nothing_told(), comment(src@)).kind {
                Some(kind) => r.negative matches Some(n) && n.error_type@ == kind && n.phase
                    == phase_named(told_by(nothing_told(), comment(src@)).phase),
                None => r.negative is None,
            },
    {
        let body = find_comment(src);
        let mut n = Notes {
            section: String::new(),
            flags: Vec::new(),
            includes: Vec::new(),
            phase: None,
            kind: None,
        };
        assert(n.section@ =~= Seq::empty());
        assert(texts(n.flags@) =~= Seq::empty());
        assert(texts(n.includes@) =~= Seq::empty());
        note_lines(&mut n, body.as_str());
        let phase = phase_of(&n.phase);
        let negative = match &n.kind {
            Some(kind) => Some(Negative { phase, error_type: copy_text(kind.as_str()) }),
            None => None,
        };
        Frontmatter { flags: n.flags, includes: n.includes, negative }
    }

    /// Whether the comment has a flag.
    pub fn has_flag(&self, flag: &str) -> (r: bool)
        ensures
            r == texts(self.flags@).contains(flag@),
    {
        holds_name(&self.flags, flag)
    }
}

} // verus!
