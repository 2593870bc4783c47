//! Judging one test.
use vstd::prelude::*;

use crate::modules::table::{copy_text, holds_name, texts};
use crate::text::{from_chars, join, same_text, to_chars};

verus! {

/// The outcome of a test.
#[derive(Debug)]
pub enum Outcome {
    Pass,
    Fail(String),
    Skip(String),
}

/// What an [`Outcome`] says.
pub enum OutcomeView {
    Pass,
    Fail(Seq<char>),
    Skip(Seq<char>),
}

impl View for Outcome {
    type V = OutcomeView;

    open spec fn view(&self) -> OutcomeView {
        match self {
            Outcome::Pass => OutcomeView::Pass,
            Outcome::Fail(s) => OutcomeView::Fail(s@),
            Outcome::Skip(s) => OutcomeView::Skip(s@),
        }
    }
}

/// When the error of a test that must fail is to come.
#[derive(Clone, Copy, PartialEq, Eq, Structural, Debug)]
pub enum Phase {
    Parse,
    Early,
    Resolution,
    Runtime,
}

impl Phase {
    /// Whether nothing of the test runs before the error.
    pub open spec fn before_running(self) -> bool {
        self != Phase::Runtime
    }

    pub open spec fn label(self) -> &'static str {
        match self {
            Phase::Parse => "Parse",
            Phase::Early => "Early",
            Phase::Resolution => "Resolution",
            Phase::Runtime => "Runtime",
        }
    }

    /// The name of a phase.
    pub fn name(self) -> (r: &'static str)
        ensures
            r == self.label(),
    {
        match self {
            Phase::Parse => "Parse",
            Phase::Early => "Early",
            Phase::Resolution => "Resolution",
            Phase::Runtime => "Runtime",
        }
    }
}

/// How a test must fail.
#[derive(Debug)]
pub struct Negative {
    pub phase: Phase,
    pub error_type: String,
}

/// What running a program came to.
#[derive(Debug)]
pub enum Ran {
    Value,
    Throw { name: String, message: String },
    /// It did not parse: the message.
    ParseError(String),
}

/// The outcome of a test that must not fail.
pub open spec fn plain_verdict(result: Ran) -> OutcomeView {
    match result {
        Ran::Value => OutcomeView::Pass,
        Ran::Throw { name, message } => OutcomeView::Fail(
            "unexpected throw "@ + name@ + ": "@ + message@,
        ),
        Ran::ParseError(message) => OutcomeView::Fail("unexpected SyntaxError: "@ + message@),
    }
}

/// The outcome of a test that must fail. What is thrown must be of the error's kind, whatever the phase;
/// what does not parse is a `SyntaxError`, which counts only in the phases before the test runs. The
/// phase is told with an error of another kind if asked for.
pub open spec fn negative_verdict(neg: Negative, result: Ran, tell: bool) -> OutcomeView {
    let wanted = neg.error_type@;
    match result {
        Ran::ParseError(message) => if neg.phase.before_running() {
            if wanted == "SyntaxError"@ {
                OutcomeView::Pass
            } else {
                OutcomeView::Fail("parse error but expected "@ + wanted)
            }
        } else {
            OutcomeView::Fail(
                "expected runtime "@ + wanted + " but parse failed: "@ + message@,
            )
        },
        Ran::Throw { name, .. } => if name@ == wanted {
            OutcomeView::Pass
        } else if tell && neg.phase.before_running() {
            OutcomeView::Fail(
                "expected "@ + wanted + " at "@ + neg.phase.label()@ + ", threw "@ + name@,
            )
        } else {
            OutcomeView::Fail("expected "@ + wanted + ", threw "@ + name@)
        },
        Ran::Value => OutcomeView::Fail("expected "@ + wanted + " but completed normally"@),
    }
}

/// The outcome of a test.
pub open spec fn verdict(negative: Option<Negative>, result: Ran, tell: bool) -> OutcomeView {
    match negative {
        None => plain_verdict(result),
        Some(neg) => negative_verdict(neg, result, tell),
    }
}

/// Two texts around a third.
fn around(a: &str, b: &str, c: &str) -> (r: String)
    ensures
        r@ == a@ + b@ + c@,
{
    let x = join(a, b);
    join(x.as_str(), c)
}

fn unexpected(result: &Ran) -> (r: Outcome)
    ensures
        r@ == plain_verdict(*result),
{
    match result {
        Ran::Value => Outcome::Pass,
        Ran::Throw { name, message } => {
            let a = around("unexpected throw ", name.as_str(), ": ");
            Outcome::Fail(join(a.as_str(), message.as_str()))
        },
        Ran::ParseError(message) => Outcome::Fail(
            join("unexpected SyntaxError: ", message.as_str()),
        ),
    }
}

fn expected(neg: &Negative, result: &Ran, tell: bool) -> (r: Outcome)
    ensures
        r@ == negative_verdict(*neg, *result, tell),
{
    let wanted = neg.error_type.as_str();
    let early = !matches!(neg.phase, Phase::Runtime);
    match result {
        Ran::ParseError(message) => if early {
            if same_text(wanted, "SyntaxError") {
                Outcome::Pass
            } else {
                Outcome::Fail(join("parse error but expected ", wanted))
            }
        } else {
            let a = around("expected runtime ", wanted, " but parse failed: ");
            Outcome::Fail(join(a.as_str(), message.as_str()))
        },
        Ran::Throw { name, .. } => if same_text(name.as_str(), wanted) {
            Outcome::Pass
        } else if tell && early {
            let a = around("expected ", wanted, " at ");
            let b = around(a.as_str(), neg.phase.name(), ", threw ");
            Outcome::Fail(join(b.as_str(), name.as_str()))
        } else {
            let a = around("expected ", wanted, ", threw ");
            Outcome::Fail(join(a.as_str(), name.as_str()))
        },
        Ran::Value => Outcome::Fail(around("expected ", wanted, " but completed normally")),
    }
}

/// The outcome of a script.
pub fn check(negative: &Option<Negative>, result: &Ran) -> (r: Outcome)
    ensures
        r@ == verdict(*negative, *result, true),
{
    match negative {
        None => unexpected(result),
        Some(neg) => expected(neg, result, true),
    }
}

/// The outcome of a module.
pub fn judge_module(negative: &Option<Negative>, result: &Ran) -> (r: Outcome)
    ensures
        r@ == verdict(*negative, *result, false),
{
    match negative {
        None => unexpected(result),
        Some(neg) => expected(neg, result, false),
    }
}

/// What the harness failed with.
pub open spec fn harness_trouble(result: Ran) -> Option<Seq<char>> {
    match result {
        Ran::Value => None,
        Ran::Throw { name, message } => Some("harness threw "@ + name@ + ": "@ + message@),
        Ran::ParseError(message) => Some("harness SyntaxError: "@ + message@),
    }
}

/// The outcome of a test whose harness failed, before the test was run.
pub fn check_harness(result: &Ran) -> (r: Option<Outcome>)
    ensures
        match harness_trouble(*result) {
            None => r is None,
            Some(why) => r matches Some(o) && o@ == OutcomeView::Fail(why),
        },
{
    match result {
        Ran::Value => None,
        Ran::Throw { name, message } => {
            let a = around("harness threw ", name.as_str(), ": ");
            Some(Outcome::Fail(join(a.as_str(), message.as_str())))
        },
        Ran::ParseError(message) => Some(
            Outcome::Fail(join("harness SyntaxError: ", message.as_str())),
        ),
    }
}

/// Whether a text begins with another.
pub open spec fn begins(s: Seq<char>, p: Seq<char>) -> bool {
    p.len() <= s.len() && s.take(p.len() as int) == p
}

/// A text behind the one that it begins with.
pub fn strip_prefix(s: &str, p: &str) -> (r: Option<String>)
    ensures
        match r {
            Some(t) => begins(s@, p@) && t@ == s@.skip(p@.len() as int),
            None => !begins(s@, p@),
        },
{
    let a = to_chars(s);
    let b = to_chars(p);
    if b.len() > a.len() {
        return None;
    }
    let mut i: usize = 0;
    while i < b.len()
        invariant
            i <= b.len() <= a.len(),
            a@ == s@,
            b@ == p@,
            forall|j: int| 0 <= j < i ==> a@[j] == b@[j],
        decreases b.len() - i,
    {
        if a[i] != b[i] {
            assert(s@.take(p@.len() as int)[i as int] != p@[i as int]);
            return None;
        }
        i = i + 1;
    }
    assert(s@.take(p@.len() as int) =~= p@);
    let rest = from_chars(&a, b.len(), a.len());
    assert(rest@ =~= s@.skip(p@.len() as int));
    Some(rest)
}

/// What the lines that a test printed say of it: that it is complete, or the first failure.
pub open spec fn signalled(lines: Seq<Seq<char>>) -> OutcomeView {
    if lines.contains("Test262:AsyncTestComplete"@) {
        OutcomeView::Pass
    } else {
        first_failure(lines, 0)
    }
}

/// The first failure that lines tell, from one of them on.
pub open spec fn first_failure(lines: Seq<Seq<char>>, from: nat) -> OutcomeView
    decreases lines.len() - from,
{
    let mark = "Test262:AsyncTestFailure:"@;
    if from >= lines.len() {
        OutcomeView::Fail("async test did not signal completion"@)
    } else if begins(lines[from as int], mark) {
        OutcomeView::Fail("async: "@ + lines[from as int].skip(mark.len() as int))
    } else {
        first_failure(lines, from + 1)
    }
}

/// The outcome of a test that tells by itself when it is done.
pub fn check_async(result: &Ran, console: &Vec<String>) -> (r: Outcome)
    ensures
        r@ == (if *result is Value {
            signalled(texts(console@))
        } else {
            plain_verdict(*result)
        }),
{
    match result {
        Ran::Value => {},
        _ => {
            return unexpected(result);
        },
    }
    if holds_name(console, "Test262:AsyncTestComplete") {
        return Outcome::Pass;
    }
    let mut i: usize = 0;
    while i < console.len()
        invariant
            i <= console.len(),
            *result is Value,
            !texts(console@).contains("Test262:AsyncTestComplete"@),
            first_failure(texts(console@), 0) == first_failure(texts(console@), i as nat),
        decreases console.len() - i,
    {
        assert(texts(console@)[i as int] == console@[i as int]@);
        match strip_prefix(console[i].as_str(), "Test262:AsyncTestFailure:") {
            Some(rest) => {
                return Outcome::Fail(join("async: ", rest.as_str()));
            },
            None => {},
        }
        i = i + 1;
    }
    Outcome::Fail(copy_text("async test did not signal completion"))
}

/// The outcome of a module. One that tells by itself when it is done is judged by what it tells, unless it
/// must fail.
pub fn judge_module_test(
    asynchronous: bool,
    negative: &Option<Negative>,
    result: &Ran,
    console: &Vec<String>,
) -> (r: Outcome)
    ensures
        r@ == (if !asynchronous || negative is Some {
            verdict(*negative, *result, false)
        } else if *result is Value {
            signalled(texts(console@))
        } else {
            plain_verdict(*result)
        }),
{
    if !asynchronous || negative.is_some() {
        judge_module(negative, result)
    } else {
        check_async(result, console)
    }
}

/// Whether a path ends with another, at the border of a name.
pub open spec fn path_ends(path: Seq<char>, tail: Seq<char>) -> bool {
    &&& tail.len() <= path.len()
    &&& path.skip(path.len() - tail.len()) == tail
    &&& tail.len() == path.len() || path[path.len() - tail.len() - 1] == '/'
}

/// Whether a path ends with another, at the border of a name.
pub fn path_ends_with(path: &str, tail: &str) -> (r: bool)
    ensures
        r == path_ends(path@, tail@),
{
    let a = to_chars(path);
    let b = to_chars(tail);
    if b.len() > a.len() {
        return false;
    }
    let from: usize = a.len() - b.len();
    let mut i: usize = 0;
    while i < b.len()
        invariant
            i <= b.len() <= a.len(),
            from == a.len() - b.len(),
            a@ == path@,
            b@ == tail@,
            forall|j: int| 0 <= j < i ==> #[trigger] a@[from + j] == b@[j],
        decreases b.len() - i,
    {
        if a[from + i] != b[i] {
            assert(path@.skip(from as int)[i as int] != tail@[i as int]);
            return false;
        }
        i = i + 1;
    }
    assert(path@.skip(from as int) =~= tail@) by {
        assert forall|j: int| 0 <= j < b@.len() implies path@.skip(from as int)[j] == tail@[j] by {
            assert(a@[from + j] == b@[j]);
        }
    }
    from == 0 || a[from - 1] == '/'
}

/// Why a test is not run although it could be: it is wrong itself, or contradicts another.
pub open spec fn known_skip(path: Seq<char>) -> Option<&'static str> {
    if path_ends(path, "TypedArray/prototype/slice/speciesctor-return-same-buffer-with-offset.js"@) {
        Some("upstream: missing immutable exclusion")
    } else if path_ends(
        path,
        "staging/sm/lexical-environment/block-scoped-functions-annex-b-arguments.js"@,
    ) || path_ends(path, "staging/sm/regress/regress-602621.js"@) {
        Some("upstream: conflicts with annexB block-decl-func-skip-arguments")
    } else if path_ends(path, "Promise/allSettledKeyed/result-property-descriptors.js"@) {
        Some("upstream: destructive verifyProperty before entry reads")
    } else {
        None
    }
}

/// Why a test is not run although it could be.
pub fn upstream_skip(path: &str) -> (r: Option<&'static str>)
    ensures
        r == known_skip(path@),
{
    if path_ends_with(
        path,
        "TypedArray/prototype/slice/speciesctor-return-same-buffer-with-offset.js",
    ) {
        Some("upstream: missing immutable exclusion")
    } else if path_ends_with(
        path,
        "staging/sm/lexical-environment/block-scoped-functions-annex-b-arguments.js",
    ) || path_ends_with(path, "staging/sm/regress/regress-602621.js") {
        Some("upstream: conflicts with annexB block-decl-func-skip-arguments")
    } else if path_ends_with(path, "Promise/allSettledKeyed/result-property-descriptors.js") {
        Some("upstream: destructive verifyProperty before entry reads")
    } else {
        None
    }
}

/// Which variants of a test are run: as it is, and as strict code. A raw test is run as it is.
#[derive(Clone, Copy, PartialEq, Eq, Structural, Debug)]
pub struct Variants {
    pub sloppy: bool,
    pub strict: bool,
}

/// Which variants of a test are run.
pub fn variants(raw: bool, only_strict: bool, no_strict: bool) -> (r: Variants)
    ensures
        r == (if raw {
            Variants { sloppy: true, strict: false }
        } else {
            Variants { sloppy: !only_strict, strict: !no_strict }
        }),
{
    if raw {
        Variants { sloppy: true, strict: false }
    } else {
        Variants { sloppy: !only_strict, strict: !no_strict }
    }
}

/// The outcome of a test from those of its variants that were run: the first that did not pass.
pub open spec fn overall(
    sloppy: Option<OutcomeView>,
    strict: Option<OutcomeView>,
) -> OutcomeView {
    if sloppy is Some && sloppy->0 !is Pass {
        sloppy->0
    } else if strict is Some && strict->0 !is Pass {
        strict->0
    } else if sloppy is Some || strict is Some {
        OutcomeView::Pass
    } else {
        OutcomeView::Skip("no-variant"@)
    }
}

pub open spec fn shown(o: Option<Outcome>) -> Option<OutcomeView> {
    match o {
        Some(x) => Some(x@),
        None => None,
    }
}

/// The outcome of a test from those of its variants that were run.
pub fn combine(sloppy: Option<Outcome>, strict: Option<Outcome>) -> (r: Outcome)
    ensures
        r@ == overall(shown(sloppy), shown(strict)),
{
    let ran = sloppy.is_some() || strict.is_some();
    match sloppy {
        Some(Outcome::Pass) => {},
        Some(o) => {
            return o;
        },
        None => {},
    }
    match strict {
        Some(Outcome::Pass) => {},
        Some(o) => {
            return o;
        },
        None => {},
    }
    if ran {
        Outcome::Pass
    } else {
        Outcome::Skip(copy_text("no-variant"))
    }
}

/// The harness files of a test, in order: an asynchronous test gets the one that reports its end.
pub open spec fn files(asynchronous: bool, includes: Seq<Seq<char>>) -> Seq<Seq<char>> {
    if asynchronous && !includes.contains("doneprintHandle.js"@) {
        seq!["doneprintHandle.js"@] + includes
    } else {
        includes
    }
}

/// The harness files of a test.
pub fn included_files(asynchronous: bool, includes: &Vec<String>) -> (r: Vec<String>)
    ensures
        texts(r@) == files(asynchronous, texts(includes@)),
{
    let mut out: Vec<String> = Vec::new();
    if asynchronous && !holds_name(includes, "doneprintHandle.js") {
        out.push(copy_text("doneprintHandle.js"));
    }
    let ghost front = texts(out@);
    assert(texts(includes@).take(0) =~= Seq::empty());
    assert(front =~= files(asynchronous, texts(includes@)).take(front.len() as int));
    let mut i: usize = 0;
    while i < includes.len()
        invariant
            i <= includes.len(),
            texts(out@) =~= front + texts(includes@).take(i as int),
        decreases includes.len() - i,
    {
        let ghost before = out@;
        out.push(copy_text(includes[i].as_str()));
        assert(texts(out@) =~= texts(before).push(includes@[i as int]@));
        i = i + 1;
    }
    assert(texts(includes@).take(i as int) =~= texts(includes@));
    out
}

/// What runs before the harness: a timer of the host's is made global where there is none.
pub const HOST_PRELUDE: &'static str =
    "(function(g) {\nif (typeof g.setTimeout === 'undefined' && typeof g.$262 !== 'undefined' && g.$262.agent) {\ng.setTimeout = g.$262.agent.setTimeout;\n}\n})(globalThis);\n";

/// The part of the harness that every test gets.
pub fn harness_base(assert_text: &str, sta_text: &str) -> (r: String)
    ensures
        r@ == HOST_PRELUDE@ + assert_text@ + "\n"@ + sta_text@ + "\n"@,
{
    let a = join(HOST_PRELUDE, assert_text);
    let b = around(a.as_str(), "\n", sta_text);
    join(b.as_str(), "\n")
}

/// The harness of a test: the base, then a line break behind each of its files.
pub open spec fn preamble_text(base: Seq<char>, files: Seq<Seq<char>>) -> Seq<char>
    decreases files.len(),
{
    if files.len() == 0 {
        base
    } else {
        preamble_text(base, files.drop_last()) + files.last() + "\n"@
    }
}

/// The harness of a test.
pub fn preamble(base: &str, files: &Vec<String>) -> (r: String)
    ensures
        r@ == preamble_text(base@, texts(files@)),
{
    let mut out = copy_text(base);
    let mut i: usize = 0;
    assert(texts(files@).take(0) =~= Seq::empty());
    while i < files.len()
        invariant
            i <= files.len(),
            out@ == preamble_text(base@, texts(files@).take(i as int)),
        decreases files.len() - i,
    {
        out = around(out.as_str(), files[i].as_str(), "\n");
        assert(texts(files@).take(i as int + 1).drop_last() =~= texts(files@).take(i as int));
        i = i + 1;
    }
    assert(texts(files@).take(i as int) =~= texts(files@));
    out
}

/// A test's place without the directory that all tests are in, however often it is named.
pub open spec fn below_tests(a: Seq<char>) -> Seq<char>
    decreases a.len(),
{
    if "test/"@.len() > 0 && begins(a, "test/"@) {
        below_tests(a.skip("test/"@.len() as int))
    } else {
        a
    }
}

/// A test's place without the directory that all tests are in.
pub fn trim_tests(a: &str) -> (r: String)
    ensures
        r@ == below_tests(a@),
    decreases a@.len(),
{
    proof {
        reveal_strlit("test/");
    }
    match strip_prefix(a, "test/") {
        Some(rest) => trim_tests(rest.as_str()),
        None => copy_text(a),
    }
}

/// The places where tests are looked for: those given, or two of the language.
pub fn targets(args: &Vec<String>) -> (r: Vec<String>)
    ensures
        texts(r@) == (if args@.len() == 0 {
            seq!["language/expressions"@, "language/statements"@]
        } else {
            texts(args@).map_values(|a: Seq<char>| below_tests(a))
        }),
{
    let mut out: Vec<String> = Vec::new();
    if args.len() == 0 {
        out.push(copy_text("language/expressions"));
        out.push(copy_text("language/statements"));
        assert(texts(out@) =~= seq!["language/expressions"@, "language/statements"@]);
        return out;
    }
    let mut i: usize = 0;
    while i < args.len()
        invariant
            i <= args.len(),
            texts(out@) =~= texts(args@).take(i as int).map_values(|a: Seq<char>| below_tests(a)),
        decreases args.len() - i,
    {
        let ghost before = out@;
        out.push(trim_tests(args[i].as_str()));
        assert(texts(out@) =~= texts(before).push(below_tests(args@[i as int]@)));
        i = i + 1;
    }
    assert(texts(args@).take(i as int) =~= texts(args@));
    out
}

/// The source of a test's strict variant.
pub fn strict_source(src: &str) -> (r: String)
    ensures
        r@ == "\"use strict\";\n"@ + src@,
{
    join("\"use strict\";\n", src)
}

/// Whether a file name is that of a test: a script that is no fixture of others.
pub fn is_test_file(name: &str) -> (r: bool)
    ensures
        r == (text_ends(name@, ".js"@) && !text_ends(name@, "_FIXTURE.js"@)),
{
    text_ends_with(name, ".js") && !text_ends_with(name, "_FIXTURE.js")
}

/// Whether a text ends with another.
pub open spec fn text_ends(s: Seq<char>, tail: Seq<char>) -> bool {
    tail.len() <= s.len() && s.skip(s.len() - tail.len()) == tail
}

/// Whether a text ends with another.
pub fn text_ends_with(s: &str, tail: &str) -> (r: bool)
    ensures
        r == text_ends(s@, tail@),
{
    let a = to_chars(s);
    let b = to_chars(tail);
    if b.len() > a.len() {
        return false;
    }
    let from: usize = a.len() - b.len();
    let mut i: usize = 0;
    while i < b.len()
        invariant
            i <= b.len() <= a.len(),
            from == a.len() - b.len(),
            a@ == s@,
            b@ == tail@,
            forall|j: int| 0 <= j < i ==> #[trigger] a@[from + j] == b@[j],
        decreases b.len() - i,
    {
        if a[from + i] != b[i] {
            assert(s@.skip(from as int)[i as int] != tail@[i as int]);
            return false;
        }
        i = i + 1;
    }
    assert(s@.skip(from as int) =~= tail@) by {
        assert forall|j: int| 0 <= j < b@.len() implies s@.skip(from as int)[j] == tail@[j] by {
            assert(a@[from + j] == b@[j]);
        }
    }
    true
}

/// A test that must fail never passes by completing.
pub proof fn negative_tests_must_fail(neg: Negative, tell: bool)
    ensures
        verdict(Some(neg), Ran::Value, tell) is Fail,
{
}

/// Scripts and modules are judged alike: whether a test passes does not depend on it.
pub proof fn judges_agree(negative: Option<Negative>, result: Ran)
    ensures
        verdict(negative, result, true) is Pass <==> verdict(negative, result, false) is Pass,
{
}

} // verus!
