//! Handing tests out to worker processes.
use vstd::prelude::*;

use crate::modules::table::copy_text;
use crate::runner::judge::{Outcome, OutcomeView};
use crate::text::join;

verus! {

/// How many tests a worker gets at a time.
pub const CHUNK: usize = 40;

/// How many workers run at a time at most.
pub const MAX_WORKERS: usize = 16;

/// What a process may allocate.
pub const MEM_CAP: usize = 2_684_354_560;

/// What a worker may hold on to after a test and go on.
pub const MEM_SOFT_CAP: usize = 268_435_456;

/// How many workers run: as many as asked for, else half as many as there are cores; at least one, and
/// not more than the most.
pub fn worker_count(asked: Option<usize>, cores: usize) -> (r: usize)
    ensures
        r == ({
            let n = if asked is Some && asked->0 >= 1 {
                asked->0 as int
            } else if cores / 2 >= 1 {
                cores as int / 2
            } else {
                1
            };
            if n > MAX_WORKERS {
                MAX_WORKERS as int
            } else {
                n
            }
        }),
        1 <= r <= MAX_WORKERS,
{
    let n: usize = match asked {
        Some(k) => if k >= 1 {
            k
        } else if cores / 2 >= 1 {
            cores / 2
        } else {
            1
        },
        None => if cores / 2 >= 1 {
            cores / 2
        } else {
            1
        },
    };
    if n > MAX_WORKERS {
        MAX_WORKERS
    } else {
        n
    }
}

/// Whether an allocation stays below the ceiling of a process.
pub fn may_allocate(used: usize, size: usize) -> (r: bool)
    ensures
        r == (used + size <= MEM_CAP),
{
    used <= MEM_CAP && size <= MEM_CAP - used
}

/// Whether a worker ends after a test because of what it holds on to.
pub fn retires(used: usize) -> (r: bool)
    ensures
        r == (used > MEM_SOFT_CAP),
{
    used > MEM_SOFT_CAP
}

/// The pieces of a list of tests: each but the last has the size of a chunk.
pub open spec fn pieces(from: nat, total: nat) -> Seq<(usize, usize)>
    decreases total - from,
{
    if from >= total {
        Seq::empty()
    } else if from + CHUNK >= total {
        seq![(from as usize, total as usize)]
    } else {
        seq![(from as usize, (from + CHUNK) as usize)] + pieces(from + CHUNK as nat, total)
    }
}

/// The pieces of a list of tests.
pub fn chunks(total: usize) -> (r: Vec<(usize, usize)>)
    ensures
        r@ == pieces(0, total as nat),
{
    let mut out: Vec<(usize, usize)> = Vec::new();
    let mut from: usize = 0;
    assert(out@ + pieces(0, total as nat) =~= pieces(0, total as nat));
    while from < total
        invariant
            from <= total,
            out@ + pieces(from as nat, total as nat) == pieces(0, total as nat),
        decreases total - from,
    {
        let ghost before = out@;
        let to: usize = if total - from <= CHUNK {
            total
        } else {
            from + CHUNK
        };
        out.push((from, to));
        proof {
            if to == total {
                assert(pieces(to as nat, total as nat) =~= Seq::empty());
            }
            assert(out@ + pieces(to as nat, total as nat) =~= before + pieces(
                from as nat,
                total as nat,
            ));
        }
        from = to;
    }
    assert(pieces(from as nat, total as nat) =~= Seq::empty());
    assert(out@ =~= out@ + pieces(from as nat, total as nat));
    out
}

/// The pieces hold every test once: they follow one another without a gap.
pub proof fn pieces_cover(from: nat, total: nat)
    requires
        from < total <= usize::MAX,
    ensures
        pieces(from, total).len() > 0,
        pieces(from, total)[0].0 == from,
        pieces(from, total).last().1 == total,
        forall|i: int| 0 <= i < pieces(from, total).len() ==> (#[trigger] pieces(from, total)[i]).0
            < pieces(from, total)[i].1 <= pieces(from, total)[i].0 + CHUNK,
        forall|i: int|
            0 <= i < pieces(from, total).len() - 1 ==> (#[trigger] pieces(from, total)[i]).1
                == pieces(from, total)[i + 1].0,
    decreases total - from,
{
    if from + CHUNK < total {
        let rest = pieces(from + CHUNK as nat, total);
        pieces_cover(from + CHUNK as nat, total);
        let all = pieces(from, total);
        assert forall|i: int| 0 <= i < all.len() implies (#[trigger] all[i]).0 < all[i].1
            <= all[i].0 + CHUNK by {
            if i > 0 {
                assert(all[i] == rest[i - 1]);
            }
        }
        assert forall|i: int| 0 <= i < all.len() - 1 implies (#[trigger] all[i]).1 == all[i
            + 1].0 by {
            assert(all[i + 1] == rest[i]);
            if i > 0 {
                assert(all[i] == rest[i - 1]);
                assert(rest[i - 1].1 == rest[i - 1 + 1].0);
            }
        }
    }
}

/// The first test of a range that has no result.
pub open spec fn first_missing(recorded: Seq<bool>, lo: nat, hi: nat) -> Option<usize>
    decreases hi - lo,
{
    if lo >= hi {
        None
    } else if lo < recorded.len() && recorded[lo as int] {
        first_missing(recorded, lo + 1, hi)
    } else {
        Some(lo as usize)
    }
}

/// How a worker ended.
#[derive(Debug)]
pub enum Ending {
    /// It was stopped because nothing came any more.
    TimedOut,
    /// It ended by itself, well.
    Clean,
    /// It ended by itself, not well: what the system says.
    Died(String),
    /// It could not be started: what the system says.
    NotStarted(String),
}

impl Ending {
    /// Why the test that a worker ended on has failed. One that ended well has failed no test.
    pub open spec fn reason(self) -> Seq<char> {
        match self {
            Ending::TimedOut =>
                "timed out (no progress \u{2014} pathologically slow / infinite test)"@,
            Ending::Clean => Seq::empty(),
            Ending::Died(s) => "worker died ("@ + s@ + ") \u{2014} likely stack overflow"@,
            Ending::NotStarted(e) => "worker spawn failed: "@ + e@,
        }
    }

    fn why(&self) -> (r: String)
        ensures
            r@ == self.reason(),
    {
        match self {
            Ending::TimedOut => copy_text(
                "timed out (no progress \u{2014} pathologically slow / infinite test)",
            ),
            Ending::Clean => {
                let e = String::new();
                assert(e@ =~= Seq::empty());
                e
            },
            Ending::Died(s) => {
                let a = join("worker died (", s.as_str());
                join(a.as_str(), ") \u{2014} likely stack overflow")
            },
            Ending::NotStarted(e) => join("worker spawn failed: ", e.as_str()),
        }
    }
}

/// What follows from the end of a worker.
#[derive(Debug)]
pub struct Aftermath {
    /// The test that it is to blame for, and why.
    pub blamed: Option<(usize, String)>,
    /// The tests that are handed out again.
    pub requeued: Option<(usize, usize)>,
}

/// What follows from the end of a worker that had the tests of a range. The first test without a result
/// is the one that it ended on; what comes behind it is handed out again. A worker that ended well is
/// blamed for nothing.
pub fn after_worker(recorded: &Vec<bool>, lo: usize, hi: usize, ending: &Ending) -> (r: Aftermath)
    ensures
        match first_missing(recorded@, lo as nat, hi as nat) {
            None => r.blamed is None && r.requeued is None,
            Some(i) => if *ending is Clean {
                r.blamed is None && r.requeued == Some((i, hi))
            } else {
                &&& r.blamed matches Some(b) && b.0 == i && b.1@ == ending.reason()
                &&& r.requeued == (if i + 1 < hi {
                    Some(((i + 1) as usize, hi))
                } else {
                    None
                })
            },
        },
{
    let mut i: usize = lo;
    while i < hi && i < recorded.len() && recorded[i]
        invariant
            lo <= i,
            i <= hi || i == lo,
            first_missing(recorded@, lo as nat, hi as nat) == first_missing(
                recorded@,
                i as nat,
                hi as nat,
            ),
        decreases hi - i,
    {
        i = i + 1;
    }
    if i >= hi {
        return Aftermath { blamed: None, requeued: None };
    }
    match ending {
        Ending::Clean => Aftermath { blamed: None, requeued: Some((i, hi)) },
        _ => Aftermath {
            blamed: Some((i, ending.why())),
            requeued: if i + 1 < hi {
                Some((i + 1, hi))
            } else {
                None
            },
        },
    }
}

/// Every test of a range has a result, is the one to blame, or is handed out again; and what is handed
/// out again has no result yet at its front.
pub proof fn no_test_is_lost(recorded: Seq<bool>, lo: nat, hi: nat, t: int)
    requires
        lo <= t < hi <= usize::MAX,
    ensures
        first_missing(recorded, lo, hi) is None ==> t < recorded.len() && recorded[t],
        first_missing(recorded, lo, hi) matches Some(i) ==> {
            &&& lo <= i < hi
            &&& t < i ==> t < recorded.len() && recorded[t]
            &&& !(i < recorded.len() && recorded[i as int])
        },
    decreases hi - lo,
{
    if lo < recorded.len() && recorded[lo as int] {
        if lo < t {
            no_test_is_lost(recorded, lo + 1, hi, t);
        } else if lo + 1 < hi {
            no_test_is_lost(recorded, lo + 1, hi, t + 1);
        }
    }
}

/// Whether progress is told: about every fiftieth of the way, and at the end.
pub fn tells_progress(before: usize, now: usize, total: usize) -> (r: bool)
    ensures
        r == ({
            let step = if total / 50 >= 1 {
                total / 50
            } else {
                1
            };
            now / step != before / step || now == total
        }),
{
    let step: usize = if total / 50 >= 1 {
        total / 50
    } else {
        1
    };
    now / step != before / step || now == total
}

/// The outcome of a test that no worker came to.
pub fn not_executed() -> (r: Outcome)
    ensures
        r@ == OutcomeView::Fail("not executed"@),
{
    Outcome::Fail(copy_text("not executed"))
}

} // verus!
