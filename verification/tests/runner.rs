//! What the conformance runner decides.
use lumen::runner::frontmatter::Frontmatter;
use lumen::runner::judge::{
    check, check_async, check_harness, combine, harness_base, included_files, is_test_file,
    judge_module, judge_module_test, preamble, strict_source, targets, upstream_skip, variants,
    Negative, Outcome, Phase, Ran, Variants,
};
use lumen::runner::lines::{
    bucket, category, decode_line, encode_line, normalize_path, shell_quote, with_slashes,
    worker_command,
};
use lumen::runner::report::{
    count_by, failure_line, most_failures, row, sample_failures, skip_line, total, By, Tally,
};
use lumen::runner::schedule::{
    after_worker, chunks, may_allocate, not_executed, retires, tells_progress, worker_count,
    Ending, MEM_CAP, MEM_SOFT_CAP,
};

fn thrown(name: &str) -> Ran {
    Ran::Throw { name: name.to_string(), message: "m".to_string() }
}

fn said(o: &Outcome) -> String {
    match o {
        Outcome::Pass => "pass".to_string(),
        Outcome::Fail(s) => format!("fail {s}"),
        Outcome::Skip(s) => format!("skip {s}"),
    }
}

fn must(phase: Phase) -> Option<Negative> {
    Some(Negative { phase, error_type: "SyntaxError".to_string() })
}

#[test]
fn verdicts() {
    let parse = Ran::ParseError("bad".to_string());
    assert_eq!(said(&check(&None, &Ran::Value)), "pass");
    assert_eq!(said(&check(&None, &thrown("E"))), "fail unexpected throw E: m");
    assert_eq!(said(&check(&None, &parse)), "fail unexpected SyntaxError: bad");
    assert_eq!(said(&check(&must(Phase::Parse), &parse)), "pass");
    assert_eq!(
        said(&check(&must(Phase::Runtime), &parse)),
        "fail expected runtime SyntaxError but parse failed: bad"
    );
    assert_eq!(
        said(&check(&must(Phase::Runtime), &Ran::Value)),
        "fail expected SyntaxError but completed normally"
    );
    assert_eq!(
        said(&check(&must(Phase::Parse), &thrown("E"))),
        "fail expected SyntaxError at Parse, threw E"
    );
    assert_eq!(
        said(&judge_module(&must(Phase::Parse), &thrown("E"))),
        "fail expected SyntaxError, threw E"
    );
    let range = Some(Negative { phase: Phase::Parse, error_type: "RangeError".to_string() });
    assert_eq!(said(&check(&range, &parse)), "fail parse error but expected RangeError");
}

#[test]
fn asynchronous_verdicts() {
    let done = vec!["x".to_string(), "Test262:AsyncTestComplete".to_string()];
    let failed = vec!["Test262:AsyncTestFailure:why".to_string()];
    assert_eq!(said(&check_async(&Ran::Value, &done)), "pass");
    assert!(said(&check_async(&Ran::Value, &failed)).starts_with("fail async: "));
    assert_eq!(
        said(&check_async(&Ran::Value, &Vec::new())),
        "fail async test did not signal completion"
    );
    assert_eq!(said(&check_async(&thrown("E"), &done)), "fail unexpected throw E: m");
    assert!(check_harness(&Ran::Value).is_none());
    assert!(check_harness(&thrown("E")).is_some());
}

#[test]
fn variants_of_a_test() {
    assert_eq!(variants(true, true, false), Variants { sloppy: true, strict: false });
    assert_eq!(variants(false, false, false), Variants { sloppy: true, strict: true });
    assert_eq!(variants(false, true, false), Variants { sloppy: false, strict: true });
    let fail = || Some(Outcome::Fail("f".to_string()));
    assert_eq!(said(&combine(Some(Outcome::Pass), fail())), "fail f");
    assert_eq!(said(&combine(Some(Outcome::Pass), Some(Outcome::Pass))), "pass");
    assert_eq!(said(&combine(None, None)), "skip no-variant");
    assert_eq!(strict_source("x"), "\"use strict\";\nx");
    let one = vec!["a.js".to_string()];
    assert_eq!(included_files(true, &one), ["doneprintHandle.js", "a.js"]);
    assert_eq!(included_files(false, &one), ["a.js"]);
    assert!(is_test_file("a.js"));
    assert!(!is_test_file("a_FIXTURE.js"));
    assert!(!is_test_file("a.json"));
    assert!(upstream_skip("test/staging/sm/regress/regress-602621.js").is_some());
    assert!(upstream_skip("test/language/x.js").is_none());
}

#[test]
fn lines_of_workers() {
    for o in [
        Outcome::Pass,
        Outcome::Fail("two\nlines\tand \\ more\r".to_string()),
        Outcome::Skip("feature".to_string()),
    ] {
        let line = encode_line(17, &o);
        assert!(!line.contains('\n'));
        let (place, back) = decode_line(&line).unwrap();
        assert_eq!(place, 17);
        if let Outcome::Skip(_) | Outcome::Pass = o {
            assert_eq!(said(&back), said(&o));
        }
    }
    assert!(decode_line("").is_none());
    assert!(decode_line("x\tP").is_none());
}

#[test]
fn commands_and_paths() {
    assert_eq!(shell_quote("a b"), "'a b'");
    assert_eq!(shell_quote("it's"), "'it'\\''s'");
    let c = worker_command("/bin/r", "/t", "/p", "/o", 3, 9);
    assert!(c.contains("'/bin/r'") && c.contains('3') && c.contains('9'));
    assert_eq!(normalize_path("/a/./b/../c"), "/a/c");
    assert_eq!(normalize_path(&normalize_path("x//y/../z")), normalize_path("x//y/../z"));
    assert_eq!(with_slashes("a\\b"), "a/b");
    assert_eq!(category("language/expressions/x.js"), "language/expressions");
}

#[test]
fn pieces_of_the_work() {
    assert_eq!(chunks(0), vec![]);
    assert_eq!(chunks(40), vec![(0, 40)]);
    assert_eq!(chunks(85), vec![(0, 40), (40, 80), (80, 85)]);
    assert_eq!(worker_count(None, 8), 4);
    assert_eq!(worker_count(Some(99), 8), 16);
    assert_eq!(worker_count(Some(0), 1), 1);
    assert!(may_allocate(MEM_CAP - 1, 1) && !may_allocate(MEM_CAP, 1));
    assert!(retires(MEM_SOFT_CAP + 1) && !retires(MEM_SOFT_CAP));
    assert!(tells_progress(1, 2, 100) && !tells_progress(2, 3, 200) && tells_progress(9, 10, 10));
    assert_eq!(said(&not_executed()), "fail not executed");
}

#[test]
fn what_follows_from_a_worker() {
    let recorded = vec![true, true, false, false, true];
    let a = after_worker(&recorded, 0, 5, &Ending::TimedOut);
    assert_eq!(a.blamed.map(|b| b.0), Some(2));
    assert_eq!(a.requeued, Some((3, 5)));
    let a = after_worker(&recorded, 0, 5, &Ending::Clean);
    assert!(a.blamed.is_none());
    assert_eq!(a.requeued, Some((2, 5)));
    let a = after_worker(&recorded, 0, 2, &Ending::Died("signal: 11".to_string()));
    assert!(a.blamed.is_none() && a.requeued.is_none());
    let a = after_worker(&recorded, 3, 4, &Ending::NotStarted("no".to_string()));
    assert_eq!(a.blamed, Some((3, "worker spawn failed: no".to_string())));
    assert!(a.requeued.is_none());
    let a = after_worker(&recorded, 2, 5, &Ending::Died("signal: 11".to_string()));
    assert!(a.blamed.unwrap().1.starts_with("worker died (signal: 11)"));
}

#[test]
fn reports() {
    let results = vec![
        ("language/a/1.js".to_string(), Outcome::Pass),
        ("language/a/2.js".to_string(), Outcome::Fail("boom: x".to_string())),
        ("built-ins/b/3.js".to_string(), Outcome::Skip("feat".to_string())),
        ("language/a/4.js".to_string(), Outcome::Fail("boom: y".to_string())),
    ];
    assert_eq!(total(&results), Tally { pass: 1, fail: 2, skip: 1 });
    let rows = count_by(&results, By::Category);
    let sum: u32 = rows.iter().map(|r| r.1.pass + r.1.fail + r.1.skip).sum();
    assert_eq!(sum, 4);
    assert_eq!(rows.len(), 2);
    let worst = most_failures(count_by(&results, By::Failure));
    assert!(worst[0].1.fail >= 1);
    assert_eq!(skip_line(&count_by(&results, By::Reason)), "skips: feat=1");
    assert_eq!(failure_line("boom", Tally { pass: 0, fail: 2, skip: 0 }), "      2  boom");
    let line = row("language/a", Tally { pass: 1, fail: 2, skip: 0 });
    assert_eq!(line.len(), 48 + 24);
    assert!(line.starts_with("language/a ") && line.ends_with("      0"));
    assert_eq!(sample_failures(&results, Some("boom"), 1), vec![1]);
    assert_eq!(sample_failures(&results, None, 9), vec![1, 3]);
    assert_eq!(bucket("short"), bucket("short"));
}

#[test]
fn modules_are_judged() {
    let done = vec!["Test262:AsyncTestComplete".to_string()];
    assert_eq!(said(&judge_module_test(true, &None, &Ran::Value, &done)), "pass");
    assert_eq!(
        said(&judge_module_test(true, &None, &Ran::Value, &Vec::new())),
        "fail async test did not signal completion"
    );
    assert_eq!(
        said(&judge_module_test(true, &must(Phase::Parse), &Ran::Value, &done)),
        "fail expected SyntaxError but completed normally"
    );
    assert_eq!(said(&judge_module_test(false, &None, &Ran::Value, &Vec::new())), "pass");
}

#[test]
fn harness_and_targets() {
    let base = harness_base("A", "S");
    assert!(base.starts_with("(function(g) {\n") && base.ends_with("(globalThis);\nA\nS\n"));
    assert_eq!(preamble("B\n", &vec!["x".to_string(), "y".to_string()]), "B\nx\ny\n");
    assert_eq!(targets(&Vec::new()), ["language/expressions", "language/statements"]);
    let args = vec!["test/test/a".to_string(), "b/test/".to_string()];
    assert_eq!(targets(&args), ["a", "b/test/"]);
}

#[test]
fn comments_of_tests() {
    let fm = Frontmatter::parse(
        "// text\n/*---\ndescription: a [b]\nincludes: [one.js, two.js]\nflags:\n  - async\n  - raw\nnegative:\n  phase: parse\n  type: SyntaxError\n---*/\nflags: [module]",
    );
    assert_eq!(fm.includes, ["one.js", "two.js"]);
    assert_eq!(fm.flags, ["async", "raw"]);
    assert!(fm.has_flag("raw") && !fm.has_flag("module"));
    let negative = fm.negative.unwrap();
    assert_eq!((negative.phase.name(), negative.error_type.as_str()), (Phase::Parse.name(), "SyntaxError"));
    let none = Frontmatter::parse("x = 1;");
    assert!(none.flags.is_empty() && none.includes.is_empty() && none.negative.is_none());
}
