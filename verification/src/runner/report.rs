//! Counting outcomes, and the lines of a report.
use vstd::prelude::*;

use crate::literal::trimmed;
use crate::modules::link::{in_order, sort_names};
use crate::modules::resolve::item_set;
use crate::modules::table::{add_name, copy_text, distinct, texts};
use crate::runner::judge::{Outcome, OutcomeView};
use crate::runner::lines::{bucket, category, category_of, gist};
use crate::text::{decimal, decimal_string, join, same_text, to_chars};

verus! {

/// How many tests passed, failed and were skipped.
#[derive(Clone, Copy, PartialEq, Eq, Structural, Debug)]
pub struct Tally {
    pub pass: u32,
    pub fail: u32,
    pub skip: u32,
}

/// How many groups of failures a report lists.
pub const LISTED: usize = 25;

/// A test: its path below the tests, and its outcome.
pub type TestView = (Seq<char>, OutcomeView);

pub open spec fn results_view(v: Seq<(String, Outcome)>) -> Seq<TestView> {
    v.map_values(|r: (String, Outcome)| (r.0@, r.1@))
}

/// What tests are counted by.
pub ghost enum Group {
    All,
    /// The category of a test.
    Category(Seq<char>),
    /// The reason for which a test was skipped.
    Reason(Seq<char>),
    /// The group that the message of a failure belongs to.
    Failure(Seq<char>),
}

/// Whether a test is counted in a group.
pub open spec fn belongs(t: TestView, g: Group) -> bool {
    match g {
        Group::All => true,
        Group::Category(c) => category_of(t.0) == c,
        Group::Reason(r) => t.1 == OutcomeView::Skip(r),
        Group::Failure(b) => t.1 matches OutcomeView::Fail(why) && trimmed(gist(why, 0), false) == b,
    }
}

/// How many tests of a group there are of each outcome.
pub open spec fn counted(tests: Seq<TestView>, g: Group) -> (nat, nat, nat)
    decreases tests.len(),
{
    if tests.len() == 0 {
        (0, 0, 0)
    } else {
        let (p, f, s) = counted(tests.drop_last(), g);
        if !belongs(tests.last(), g) {
            (p, f, s)
        } else {
            match tests.last().1 {
                OutcomeView::Pass => (p + 1, f, s),
                OutcomeView::Fail(_) => (p, f + 1, s),
                OutcomeView::Skip(_) => (p, f, s + 1),
            }
        }
    }
}

/// How many tests of a group there are.
pub open spec fn size_of(tests: Seq<TestView>, g: Group) -> nat {
    counted(tests, g).0 + counted(tests, g).1 + counted(tests, g).2
}

/// Every test is counted at most once, and among all of them exactly once.
pub proof fn tests_are_counted_once(tests: Seq<TestView>, g: Group)
    ensures
        size_of(tests, g) <= tests.len(),
        g is All ==> size_of(tests, g) == tests.len(),
    decreases tests.len(),
{
    if tests.len() > 0 {
        tests_are_counted_once(tests.drop_last(), g);
    }
}

/// Which texts the tests are grouped by.
#[derive(Clone, Copy, PartialEq, Eq, Structural, Debug)]
pub enum By {
    Category,
    Reason,
    Failure,
}

/// The group of a text.
pub open spec fn group(by: By, name: Seq<char>) -> Group {
    match by {
        By::Category => Group::Category(name),
        By::Reason => Group::Reason(name),
        By::Failure => Group::Failure(name),
    }
}

/// The text that a test is grouped by, if it is grouped.
pub open spec fn label_of(t: TestView, by: By) -> Option<Seq<char>> {
    match by {
        By::Category => Some(category_of(t.0)),
        By::Reason => match t.1 {
            OutcomeView::Skip(r) => Some(r),
            _ => None,
        },
        By::Failure => match t.1 {
            OutcomeView::Fail(why) => Some(trimmed(gist(why, 0), false)),
            _ => None,
        },
    }
}

fn label(r: &(String, Outcome), by: By) -> (l: Option<String>)
    ensures
        match l {
            Some(s) => label_of((r.0@, r.1@), by) == Some(s@),
            None => label_of((r.0@, r.1@), by) is None,
        },
{
    match by {
        By::Category => Some(category(r.0.as_str())),
        By::Reason => match &r.1 {
            Outcome::Skip(s) => Some(copy_text(s.as_str())),
            _ => None,
        },
        By::Failure => match &r.1 {
            Outcome::Fail(s) => Some(bucket(s.as_str())),
            _ => None,
        },
    }
}

/// Counts the tests with a label; without one, all.
fn tally(results: &Vec<(String, Outcome)>, by: By, name: Option<&str>) -> (t: Tally)
    requires
        results.len() <= u32::MAX,
    ensures
        (t.pass as nat, t.fail as nat, t.skip as nat) == counted(
            results_view(results@),
            match name {
                Some(n) => group(by, n@),
                None => Group::All,
            },
        ),
{
    let ghost g = match name {
        Some(n) => group(by, n@),
        None => Group::All,
    };
    let ghost all = results_view(results@);
    let mut t = Tally { pass: 0, fail: 0, skip: 0 };
    let mut i: usize = 0;
    assert(all.take(0) =~= Seq::empty());
    while i < results.len()
        invariant
            i <= results.len() <= u32::MAX,
            all == results_view(results@),
            g == (match name {
                Some(n) => group(by, n@),
                None => Group::All,
            }),
            (t.pass as nat, t.fail as nat, t.skip as nat) == counted(all.take(i as int), g),
            t.pass + t.fail + t.skip <= i,
        decreases results.len() - i,
    {
        proof {
            assert(all.take(i as int + 1).drop_last() =~= all.take(i as int));
            assert(all.take(i as int + 1).last() == (
                results@[i as int].0@,
                results@[i as int].1@,
            ));
        }
        let counts = match name {
            None => true,
            Some(n) => match label(&results[i], by) {
                Some(l) => same_text(l.as_str(), n),
                None => false,
            },
        };
        if counts {
            match &results[i].1 {
                Outcome::Pass => {
                    t = Tally { pass: t.pass + 1, ..t };
                },
                Outcome::Fail(_) => {
                    t = Tally { fail: t.fail + 1, ..t };
                },
                Outcome::Skip(_) => {
                    t = Tally { skip: t.skip + 1, ..t };
                },
            }
        }
        i = i + 1;
    }
    assert(all.take(i as int) =~= all);
    t
}

/// The labels of the tests, in order and each once.
fn labels(results: &Vec<(String, Outcome)>, by: By) -> (r: Vec<String>)
    ensures
        in_order(texts(r@)),
        distinct(texts(r@)),
        forall|n: Seq<char>| #[trigger]
            texts(r@).contains(n) <==> has_label(results_view(results@), by, n),
{
    let mut out: Vec<String> = Vec::new();
    let mut i: usize = 0;
    let ghost all = results_view(results@);
    assert(texts(out@) =~= Seq::empty());
    while i < results.len()
        invariant
            i <= results.len(),
            all == results_view(results@),
            distinct(texts(out@)),
            forall|n: Seq<char>| #[trigger]
                texts(out@).contains(n) <==> has_label(all.take(i as int), by, n),
        decreases results.len() - i,
    {
        let ghost before = texts(out@);
        let ghost now = all.take(i as int);
        let ghost later = all.take(i as int + 1);
        let ghost t = (results@[i as int].0@, results@[i as int].1@);
        assert(all[i as int] == t);
        assert(later =~= now.push(t));
        let l = label(&results[i], by);
        match &l {
            Some(s) => {
                add_name(&mut out, s.as_str());
            },
            None => {},
        }
        assert forall|n: Seq<char>| #[trigger] texts(out@).contains(n) <==> has_label(
            later,
            by,
            n,
        ) by {
            assert(before.contains(n) <==> has_label(now, by, n));
            if has_label(now, by, n) {
                let k = choose|k: int| 0 <= k < now.len() && label_of(#[trigger] now[k], by) == Some(n);
                assert(later[k] == now[k]);
            }
            if has_label(later, by, n) {
                let k = choose|k: int|
                    0 <= k < later.len() && label_of(#[trigger] later[k], by) == Some(n);
                if k < i {
                    assert(now[k] == later[k]);
                }
            }
            if label_of(t, by) == Some(n) {
                assert(later[i as int] == t);
            }
        }
        i = i + 1;
    }
    assert(all.take(i as int) =~= all);
    let ghost unsorted = texts(out@);
    let r = sort_names(out);
    proof {
        let s = texts(r@);
        unsorted.lemma_multiset_has_no_duplicates();
        s.lemma_multiset_has_no_duplicates_conv();
        assert forall|n: Seq<char>| #[trigger] s.contains(n) <==> unsorted.contains(n) by {
            assert(item_set(s).contains(n) <==> s.contains(n));
            assert(item_set(unsorted).contains(n) <==> unsorted.contains(n));
        }
    }
    r
}

/// Whether a test has a label.
pub open spec fn has_label(tests: Seq<TestView>, by: By, n: Seq<char>) -> bool {
    exists|k: int| 0 <= k < tests.len() && label_of(#[trigger] tests[k], by) == Some(n)
}

/// The names of the rows of a table.
pub open spec fn row_names(v: Seq<(String, Tally)>) -> Seq<Seq<char>> {
    v.map_values(|r: (String, Tally)| r.0@)
}

/// The rows of a table: every label of a test once, in order, with the tests that have it counted.
pub fn count_by(results: &Vec<(String, Outcome)>, by: By) -> (r: Vec<(String, Tally)>)
    requires
        results.len() <= u32::MAX,
    ensures
        in_order(row_names(r@)),
        distinct(row_names(r@)),
        forall|n: Seq<char>| #[trigger]
            row_names(r@).contains(n) <==> has_label(results_view(results@), by, n),
        forall|i: int|
            0 <= i < r@.len() ==> is_count((#[trigger] r@[i]).1, counted(
                results_view(results@),
                group(by, r@[i].0@),
            )),
{
    let names = labels(results, by);
    let mut out: Vec<(String, Tally)> = Vec::new();
    let mut i: usize = 0;
    while i < names.len()
        invariant
            i <= names.len(),
            results.len() <= u32::MAX,
            out@.len() == i,
            forall|j: int| 0 <= j < i ==> (#[trigger] out@[j]).0@ == names@[j]@,
            forall|j: int|
                0 <= j < i ==> is_count((#[trigger] out@[j]).1, counted(
                    results_view(results@),
                    group(by, out@[j].0@),
                )),
        decreases names.len() - i,
    {
        let t = tally(results, by, Some(names[i].as_str()));
        out.push((copy_text(names[i].as_str()), t));
        i = i + 1;
    }
    assert(row_names(out@) =~= texts(names@));
    out
}

pub open spec fn is_count(t: Tally, c: (nat, nat, nat)) -> bool {
    t.pass == c.0 && t.fail == c.1 && t.skip == c.2
}

/// The tests counted, all of them.
pub fn total(results: &Vec<(String, Outcome)>) -> (t: Tally)
    requires
        results.len() <= u32::MAX,
    ensures
        is_count(t, counted(results_view(results@), Group::All)),
{
    tally(results, By::Category, None)
}

/// Puts a row behind those that have as many failures or more.
fn insert_row(v: &mut Vec<(String, Tally)>, row: (String, Tally))
    requires
        falling(old(v)@),
    ensures
        falling(final(v)@),
        final(v)@.to_multiset() == old(v)@.to_multiset().insert(row),
{
    let mut p: usize = v.len();
    while p > 0 && v[p - 1].1.fail < row.1.fail
        invariant
            p <= v.len(),
            v@ == old(v)@,
            forall|j: int| p <= j < v.len() ==> (#[trigger] v@[j]).1.fail < row.1.fail,
        decreases p,
    {
        p = p - 1;
    }
    let ghost before = v@;
    proof {
        broadcast use vstd::seq_lib::group_to_multiset_ensures;

    }
    v.insert(p, row);
    assert(v@ == before.insert(p as int, row));
    assert forall|i: int, j: int|
        #![trigger v@[i], v@[j]]
        0 <= i < j < v@.len() implies v@[i].1.fail >= v@[j].1.fail by {
        if i < p && j < p {
            assert(v@[i] == before[i] && v@[j] == before[j]);
        } else if i < p && j == p {
            assert(v@[i] == before[i]);
            assert(before[i].1.fail >= before[p - 1].1.fail);
        } else if i < p {
            assert(v@[i] == before[i] && v@[j] == before[j - 1]);
        } else if i == p {
            assert(v@[j] == before[j - 1]);
        } else {
            assert(v@[i] == before[i - 1] && v@[j] == before[j - 1]);
        }
    }
}

/// Whether no row has more failures than one before it.
pub open spec fn falling(v: Seq<(String, Tally)>) -> bool {
    forall|i: int, j: int|
        #![trigger v[i], v[j]]
        0 <= i < j < v.len() ==> v[i].1.fail >= v[j].1.fail
}

/// The rows of a table with those first that have the most failures.
pub fn most_failures(rows: Vec<(String, Tally)>) -> (r: Vec<(String, Tally)>)
    ensures
        falling(r@),
        r@.to_multiset() == rows@.to_multiset(),
{
    let mut rest = rows;
    let mut out: Vec<(String, Tally)> = Vec::new();
    let ghost all = rest@;
    proof {
        broadcast use vstd::seq_lib::group_to_multiset_ensures;

        assert(out@.to_multiset() =~= vstd::multiset::Multiset::empty());
    }
    while rest.len() > 0
        invariant
            falling(out@),
            rest@.to_multiset().add(out@.to_multiset()) =~= all.to_multiset(),
        decreases rest.len(),
    {
        let ghost before = rest@;
        let ghost placed = out@;
        match rest.pop() {
            Some(row) => {
                insert_row(&mut out, row);
                proof {
                    broadcast use vstd::seq_lib::group_to_multiset_ensures;

                    assert(before =~= rest@.push(row));
                    assert(before.to_multiset() =~= rest@.to_multiset().insert(row));
                }
            },
            None => {},
        }
    }
    proof {
        broadcast use vstd::seq_lib::group_to_multiset_ensures;

        assert(rest@ =~= Seq::empty());
        assert(rest@.to_multiset() =~= vstd::multiset::Multiset::empty());
        assert(out@.to_multiset() =~= all.to_multiset());
    }
    out
}

// ---- lines

/// So many spaces.
pub open spec fn spaces(n: int) -> Seq<char> {
    Seq::new(
        if n < 0 {
            0
        } else {
            n as nat
        },
        |i: int| ' ',
    )
}

fn space_string(n: usize) -> (r: String)
    ensures
        r@ == spaces(n as int),
{
    let mut out = String::new();
    let mut i: usize = 0;
    while i < n
        invariant
            i <= n,
            out@ =~= spaces(i as int),
        decreases n - i,
    {
        out.push(' ');
        i = i + 1;
    }
    out
}

/// A number at the right end of a field.
pub open spec fn right(n: nat, width: int) -> Seq<char> {
    spaces(width - decimal(n).len()) + decimal(n)
}

fn right_aligned(n: u32, width: usize) -> (r: String)
    ensures
        r@ == right(n as nat, width as int),
{
    let d = decimal_string(n as u64);
    let k: usize = to_chars(d.as_str()).len();
    let s = space_string(
        if k < width {
            width - k
        } else {
            0
        },
    );
    let r = join(s.as_str(), d.as_str());
    assert(r@ =~= right(n as nat, width as int));
    r
}

/// The row of a table: a name and three numbers.
pub open spec fn row_text(name: Seq<char>, t: Tally) -> Seq<char> {
    name + spaces(48 - name.len()) + " "@ + right(t.pass as nat, 7) + " "@ + right(
        t.fail as nat,
        7,
    ) + " "@ + right(t.skip as nat, 7)
}

/// The row of a table.
pub fn row(name: &str, t: Tally) -> (r: String)
    ensures
        r@ == row_text(name@, t),
{
    let k: usize = to_chars(name).len();
    let s = space_string(
        if k < 48 {
            48 - k
        } else {
            0
        },
    );
    let a = join(name, s.as_str());
    assert(a@ =~= name@ + spaces(48 - name@.len()));
    let b = join(a.as_str(), " ");
    let c = join(b.as_str(), right_aligned(t.pass, 7).as_str());
    let d = join(c.as_str(), " ");
    let e = join(d.as_str(), right_aligned(t.fail, 7).as_str());
    let f = join(e.as_str(), " ");
    join(f.as_str(), right_aligned(t.skip, 7).as_str())
}

/// The line of a group of failures.
pub fn failure_line(name: &str, t: Tally) -> (r: String)
    ensures
        r@ == "  "@ + right(t.fail as nat, 5) + "  "@ + name@,
{
    let a = join("  ", right_aligned(t.fail, 5).as_str());
    let b = join(a.as_str(), "  ");
    join(b.as_str(), name)
}

/// The reasons for skipping and how often each came.
pub open spec fn skip_text(rows: Seq<(String, Tally)>) -> Seq<char>
    decreases rows.len(),
{
    if rows.len() == 0 {
        "skips: "@
    } else {
        skip_text(rows.drop_last()) + (if rows.len() > 1 {
            ", "@
        } else {
            ""@
        }) + rows.last().0@ + "="@ + decimal(rows.last().1.skip as nat)
    }
}

/// The line of the reasons for skipping.
pub fn skip_line(rows: &Vec<(String, Tally)>) -> (r: String)
    ensures
        r@ == skip_text(rows@),
{
    let mut out = copy_text("skips: ");
    let mut i: usize = 0;
    assert(rows@.take(0) =~= Seq::empty());
    while i < rows.len()
        invariant
            i <= rows.len(),
            out@ == skip_text(rows@.take(i as int)),
        decreases rows.len() - i,
    {
        assert(rows@.take(i as int + 1).drop_last() =~= rows@.take(i as int));
        let mark = if i > 0 {
            ", "
        } else {
            ""
        };
        let a = join(out.as_str(), mark);
        let b = join(a.as_str(), rows[i].0.as_str());
        let c = join(b.as_str(), "=");
        out = join(c.as_str(), decimal_string(rows[i].1.skip as u64).as_str());
        i = i + 1;
    }
    assert(rows@.take(i as int) =~= rows@);
    out
}

/// Whether a text holds another.
pub open spec fn holds_text(s: Seq<char>, part: Seq<char>) -> bool {
    exists|i: int| 0 <= i <= s.len() - part.len() && #[trigger] s.subrange(i, i + part.len()) == part
}

/// Whether a text holds another.
pub fn contains_text(s: &str, part: &str) -> (r: bool)
    ensures
        r == holds_text(s@, part@),
{
    let a = to_chars(s);
    let b = to_chars(part);
    if b.len() > a.len() {
        return false;
    }
    let last: usize = a.len() - b.len();
    let mut i: usize = 0;
    loop
        invariant
            a@ == s@,
            b@ == part@,
            last == a.len() - b.len(),
            i <= last,
            forall|j: int|
                0 <= j < i ==> #[trigger] s@.subrange(j, j + part@.len()) != part@,
        decreases last - i,
    {
        let mut k: usize = 0;
        while k < b.len() && a[i + k] == b[k]
            invariant
                k <= b.len(),
                a@ == s@,
                b@ == part@,
                i <= last,
                last == a.len() - b.len(),
                forall|j: int| 0 <= j < k ==> #[trigger] a@[i + j] == b@[j],
            decreases b.len() - k,
        {
            k = k + 1;
        }
        let ghost piece = s@.subrange(i as int, i + part@.len());
        if k == b.len() {
            assert(piece =~= part@) by {
                assert forall|j: int| 0 <= j < part@.len() implies piece[j] == part@[j] by {
                    assert(a@[i + j] == b@[j]);
                }
            }
            return true;
        }
        assert(piece[k as int] != part@[k as int]);
        if i == last {
            return false;
        }
        i = i + 1;
    }
}

/// Whether a failure is wanted: its message holds a text, or none is asked for.
pub open spec fn is_sample(t: TestView, wanted: Option<Seq<char>>) -> bool {
    t.1 matches OutcomeView::Fail(why) && (wanted matches Some(w) ==> holds_text(why, w))
}

/// The places of the first failures that are wanted, up to a number of them.
pub open spec fn samples(tests: Seq<TestView>, wanted: Option<Seq<char>>, cap: nat) -> Seq<usize>
    decreases tests.len(),
{
    if tests.len() == 0 {
        Seq::empty()
    } else {
        let before = samples(tests.drop_last(), wanted, cap);
        if is_sample(tests.last(), wanted) && before.len() < cap {
            before.push((tests.len() - 1) as usize)
        } else {
            before
        }
    }
}

/// The places of the first failures that are wanted.
pub fn sample_failures(results: &Vec<(String, Outcome)>, wanted: Option<&str>, cap: usize) -> (r: Vec<
    usize,
>)
    ensures
        r@ == samples(
            results_view(results@),
            match wanted {
                Some(w) => Some(w@),
                None => None,
            },
            cap as nat,
        ),
{
    let ghost w = match wanted {
        Some(w) => Some(w@),
        None => None,
    };
    let ghost all = results_view(results@);
    let mut out: Vec<usize> = Vec::new();
    let mut i: usize = 0;
    assert(all.take(0) =~= Seq::empty());
    while i < results.len()
        invariant
            i <= results.len(),
            all == results_view(results@),
            w == (match wanted {
                Some(w) => Some(w@),
                None => None,
            }),
            out@ == samples(all.take(i as int), w, cap as nat),
        decreases results.len() - i,
    {
        assert(all.take(i as int + 1).drop_last() =~= all.take(i as int));
        assert(all.take(i as int + 1).last() == (results@[i as int].0@, results@[i as int].1@));
        let fits = match &results[i].1 {
            Outcome::Fail(why) => match wanted {
                Some(g) => contains_text(why.as_str(), g),
                None => true,
            },
            _ => false,
        };
        if fits && out.len() < cap {
            out.push(i);
        }
        i = i + 1;
    }
    assert(all.take(i as int) =~= all);
    out
}

} // verus!
