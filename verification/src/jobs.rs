//! Promises and the queue of jobs that their reactions make.
use vstd::prelude::*;

use crate::interp::session::Value;

verus! {

/// What is called when a promise is settled, and the promise that its outcome settles.
#[derive(Clone, Copy, PartialEq, Eq, Structural, Debug)]
pub struct Reaction {
    pub on_fulfilled: Value,
    pub on_rejected: Value,
    pub result: Value,
}

/// A reaction that is due.
#[derive(Clone, Copy, PartialEq, Eq, Structural, Debug)]
pub struct Job {
    pub handler: Value,
    pub result: Value,
    pub value: Value,
    pub fulfilled: bool,
}

/// How far a promise has come.
#[derive(Clone, Copy, PartialEq, Eq, Structural, Debug)]
pub enum Status {
    Pending,
    Fulfilled(Value),
    Rejected(Value),
}

/// The promises and the jobs that are due.
pub struct Jobs {
    /// Promises by their objects, and how far they have come.
    pub promises: Vec<(u64, Status)>,
    /// The reactions of promises that are pending, in the order in which they were added.
    pub reactions: Vec<(u64, Reaction)>,
    /// The jobs that are due, the next one first.
    pub queue: Vec<Job>,
    /// Promises that were rejected while nothing reacts to them, and the reasons.
    pub unhandled: Vec<(u64, Value)>,
}

/// The promises and the jobs that are due.
#[verifier::ext_equal]
pub ghost struct JobsView {
    pub promises: Seq<(u64, Status)>,
    pub reactions: Seq<(u64, Reaction)>,
    pub queue: Seq<Job>,
    pub unhandled: Seq<(u64, Value)>,
}

impl View for Jobs {
    type V = JobsView;

    open spec fn view(&self) -> JobsView {
        JobsView {
            promises: self.promises@,
            reactions: self.reactions@,
            queue: self.queue@,
            unhandled: self.unhandled@,
        }
    }
}

/// The place of a promise among the first `n`.
pub open spec fn place_of(v: Seq<(u64, Status)>, p: u64, n: nat) -> Option<nat>
    decreases n,
{
    if n == 0 || n > v.len() {
        None
    } else if v[n - 1].0 == p {
        Some((n - 1) as nat)
    } else {
        place_of(v, p, (n - 1) as nat)
    }
}

/// The reactions of a promise among the first `n`.
pub open spec fn reactions_of(v: Seq<(u64, Reaction)>, p: u64, n: nat) -> Seq<Reaction>
    decreases n,
{
    if n == 0 || n > v.len() {
        Seq::empty()
    } else if v[n - 1].0 == p {
        reactions_of(v, p, (n - 1) as nat).push(v[n - 1].1)
    } else {
        reactions_of(v, p, (n - 1) as nat)
    }
}

/// The reactions of other promises among the first `n`.
pub open spec fn reactions_but(v: Seq<(u64, Reaction)>, p: u64, n: nat) -> Seq<(u64, Reaction)>
    decreases n,
{
    if n == 0 || n > v.len() {
        Seq::empty()
    } else if v[n - 1].0 == p {
        reactions_but(v, p, (n - 1) as nat)
    } else {
        reactions_but(v, p, (n - 1) as nat).push(v[n - 1])
    }
}

/// The entries of other promises among the first `n`.
pub open spec fn reasons_but(v: Seq<(u64, Value)>, p: u64, n: nat) -> Seq<(u64, Value)>
    decreases n,
{
    if n == 0 || n > v.len() {
        Seq::empty()
    } else if v[n - 1].0 == p {
        reasons_but(v, p, (n - 1) as nat)
    } else {
        reasons_but(v, p, (n - 1) as nat).push(v[n - 1])
    }
}

/// The job of a reaction to a settled promise.
pub open spec fn job_of(r: Reaction, value: Value, fulfilled: bool) -> Job {
    Job {
        handler: if fulfilled {
            r.on_fulfilled
        } else {
            r.on_rejected
        },
        result: r.result,
        value,
        fulfilled,
    }
}

/// The jobs of the first `n` reactions, in their order.
pub open spec fn jobs_of(v: Seq<Reaction>, n: nat, value: Value, fulfilled: bool) -> Seq<Job>
    decreases n,
{
    if n == 0 || n > v.len() {
        Seq::empty()
    } else {
        jobs_of(v, (n - 1) as nat, value, fulfilled).push(job_of(v[n - 1], value, fulfilled))
    }
}

impl JobsView {
    /// The reasons of the rejections that nothing handles.
    pub open spec fn reasons(self) -> Seq<Value> {
        self.unhandled.map_values(|x: (u64, Value)| x.1)
    }

    /// How far the promise of an object has come, if it is one.
    pub open spec fn status(self, p: u64) -> Option<Status> {
        match place_of(self.promises, p, self.promises.len()) {
            Some(i) => Some(self.promises[i as int].1),
            None => None,
        }
    }

    /// A new promise.
    pub open spec fn added(self, p: u64) -> JobsView {
        JobsView { promises: self.promises.push((p, Status::Pending)), ..self }
    }

    /// Settles a promise that is pending: its reactions become jobs, in their order. One that is rejected
    /// while nothing reacts to it is noted.
    pub open spec fn settled(self, p: u64, value: Value, fulfilled: bool) -> JobsView {
        match place_of(self.promises, p, self.promises.len()) {
            Some(i) => if self.promises[i as int].1 == Status::Pending {
                let due = reactions_of(self.reactions, p, self.reactions.len());
                JobsView {
                    promises: self.promises.update(
                        i as int,
                        (
                            p,
                            if fulfilled {
                                Status::Fulfilled(value)
                            } else {
                                Status::Rejected(value)
                            },
                        ),
                    ),
                    reactions: reactions_but(self.reactions, p, self.reactions.len()),
                    queue: self.queue + jobs_of(due, due.len(), value, fulfilled),
                    unhandled: if !fulfilled && due.len() == 0 {
                        reasons_but(self.unhandled, p, self.unhandled.len()).push((p, value))
                    } else {
                        self.unhandled
                    },
                }
            } else {
                self
            },
            None => self,
        }
    }

    /// Adds a reaction to a promise: to a pending one for later, to a settled one as a job. Its rejection
    /// is handled from now on.
    pub open spec fn reacted(self, p: u64, r: Reaction) -> JobsView {
        let v = JobsView {
            unhandled: reasons_but(self.unhandled, p, self.unhandled.len()),
            ..self
        };
        match self.status(p) {
            Some(Status::Pending) => JobsView { reactions: v.reactions.push((p, r)), ..v },
            Some(Status::Fulfilled(x)) => JobsView { queue: v.queue.push(job_of(r, x, true)), ..v },
            Some(Status::Rejected(x)) => JobsView { queue: v.queue.push(job_of(r, x, false)), ..v },
            None => v,
        }
    }

    /// The next job, if one is due.
    pub open spec fn first_job(self) -> Option<Job> {
        if self.queue.len() == 0 {
            None
        } else {
            Some(self.queue[0])
        }
    }

    /// The jobs without the next one.
    pub open spec fn popped(self) -> JobsView {
        if self.queue.len() == 0 {
            self
        } else {
            JobsView { queue: self.queue.remove(0), ..self }
        }
    }
}

impl Jobs {
    /// No promises and no jobs.
    pub fn new() -> (j: Self)
        ensures
            j@ == (JobsView {
                promises: Seq::empty(),
                reactions: Seq::empty(),
                queue: Seq::empty(),
                unhandled: Seq::empty(),
            }),
    {
        let j = Jobs {
            promises: Vec::new(),
            reactions: Vec::new(),
            queue: Vec::new(),
            unhandled: Vec::new(),
        };
        assert(j@ =~= (JobsView {
            promises: Seq::empty(),
            reactions: Seq::empty(),
            queue: Seq::empty(),
            unhandled: Seq::empty(),
        }));
        j
    }

    fn find(&self, p: u64) -> (r: Option<usize>)
        ensures
            match r {
                Some(i) => i < self.promises@.len() && self.promises@[i as int].0 == p && place_of(
                    self.promises@,
                    p,
                    self.promises@.len(),
                ) == Some(i as nat),
                None => place_of(self.promises@, p, self.promises@.len()) is None,
            },
    {
        let mut n: usize = self.promises.len();
        while n > 0
            invariant
                n <= self.promises.len(),
                place_of(self.promises@, p, self.promises@.len()) == place_of(
                    self.promises@,
                    p,
                    n as nat,
                ),
            decreases n,
        {
            if self.promises[n - 1].0 == p {
                return Some(n - 1);
            }
            n = n - 1;
        }
        None
    }

    /// How far the promise of an object has come, if it is one.
    pub fn status(&self, p: u64) -> (r: Option<Status>)
        ensures
            r == self@.status(p),
    {
        match self.find(p) {
            Some(i) => Some(self.promises[i].1),
            None => None,
        }
    }

    /// Adds a new promise.
    pub fn added(&mut self, p: u64)
        ensures
            final(self)@ == old(self)@.added(p),
    {
        self.promises.push((p, Status::Pending));
    }

    /// Forgets that the rejection of a promise is not handled.
    fn handled(&mut self, p: u64)
        ensures
            final(self)@ == (JobsView {
                unhandled: reasons_but(old(self)@.unhandled, p, old(self)@.unhandled.len()),
                ..old(self)@
            }),
    {
        let mut kept: Vec<(u64, Value)> = Vec::new();
        let mut i: usize = 0;
        while i < self.unhandled.len()
            invariant
                i <= self.unhandled.len(),
                self@ == old(self)@,
                kept@ == reasons_but(self.unhandled@, p, i as nat),
            decreases self.unhandled.len() - i,
        {
            if self.unhandled[i].0 != p {
                kept.push(self.unhandled[i]);
            }
            i = i + 1;
        }
        self.unhandled = kept;
    }

    /// Settles a promise.
    #[verifier::spinoff_prover]
    pub fn settle(&mut self, p: u64, value: Value, fulfilled: bool)
        ensures
            final(self)@ == old(self)@.settled(p, value, fulfilled),
    {
        let at = match self.find(p) {
            Some(i) => i,
            None => {
                return ;
            },
        };
        if self.promises[at].1 != Status::Pending {
            return ;
        }
        let status = if fulfilled {
            Status::Fulfilled(value)
        } else {
            Status::Rejected(value)
        };
        let mut due: Vec<Reaction> = Vec::new();
        let mut kept: Vec<(u64, Reaction)> = Vec::new();
        let mut i: usize = 0;
        while i < self.reactions.len()
            invariant
                i <= self.reactions.len(),
                self@ == old(self)@,
                due@ == reactions_of(self.reactions@, p, i as nat),
                kept@ == reactions_but(self.reactions@, p, i as nat),
            decreases self.reactions.len() - i,
        {
            if self.reactions[i].0 == p {
                due.push(self.reactions[i].1);
            } else {
                kept.push(self.reactions[i]);
            }
            i = i + 1;
        }
        if !fulfilled && due.len() == 0 {
            self.handled(p);
            self.unhandled.push((p, value));
        }
        self.promises.set(at, (p, status));
        self.reactions = kept;
        let ghost before = self.queue@;
        let mut k: usize = 0;
        assert(self.queue@ =~= before + jobs_of(due@, 0, value, fulfilled));
        while k < due.len()
            invariant
                k <= due.len(),
                self.queue@ == before + jobs_of(due@, k as nat, value, fulfilled),
                self.promises@ == old(self)@.promises.update(at as int, (p, status)),
                self.reactions@ == reactions_but(
                    old(self)@.reactions,
                    p,
                    old(self)@.reactions.len(),
                ),
                self.unhandled@ == old(self)@.settled(p, value, fulfilled).unhandled,
            decreases due.len() - k,
        {
            let r = due[k];
            let job = Job {
                handler: if fulfilled {
                    r.on_fulfilled
                } else {
                    r.on_rejected
                },
                result: r.result,
                value,
                fulfilled,
            };
            self.queue.push(job);
            k = k + 1;
            assert(self.queue@ =~= before + jobs_of(due@, k as nat, value, fulfilled));
        }
        assert(self@ =~= old(self)@.settled(p, value, fulfilled));
    }

    /// Adds a reaction to a promise.
    pub fn promise_then_into(&mut self, p: u64, r: Reaction)
        ensures
            final(self)@ == old(self)@.reacted(p, r),
    {
        let status = self.status(p);
        self.handled(p);
        match status {
            Some(Status::Pending) => {
                self.reactions.push((p, r));
            },
            Some(Status::Fulfilled(x)) => {
                self.queue.push(
                    Job { handler: r.on_fulfilled, result: r.result, value: x, fulfilled: true },
                );
            },
            Some(Status::Rejected(x)) => {
                self.queue.push(
                    Job { handler: r.on_rejected, result: r.result, value: x, fulfilled: false },
                );
            },
            None => {},
        }
    }

    /// Takes the next job out of the queue.
    pub fn pop(&mut self) -> (r: Option<Job>)
        ensures
            r == old(self)@.first_job(),
            final(self)@ == old(self)@.popped(),
    {
        if self.queue.len() == 0 {
            None
        } else {
            Some(self.queue.remove(0))
        }
    }

    /// Adds a job at the end of the queue.
    pub fn push(&mut self, job: Job)
        ensures
            final(self)@ == (JobsView { queue: old(self)@.queue.push(job), ..old(self)@ }),
    {
        self.queue.push(job);
    }

    /// Whether a job is due.
    pub fn is_pending(&self) -> (r: bool)
        ensures
            r == (self@.queue.len() > 0),
    {
        self.queue.len() > 0
    }

    /// Takes the reasons of the rejections that nothing handles.
    pub fn take_unhandled(&mut self) -> (r: Vec<Value>)
        ensures
            r@ == old(self)@.reasons(),
            final(self)@ == (JobsView { unhandled: Seq::empty(), ..old(self)@ }),
    {
        let mut out: Vec<Value> = Vec::new();
        let mut i: usize = 0;
        let ghost all = self.unhandled@.map_values(|x: (u64, Value)| x.1);
        while i < self.unhandled.len()
            invariant
                i <= self.unhandled.len(),
                self@ == old(self)@,
                all == self.unhandled@.map_values(|x: (u64, Value)| x.1),
                out@ == all.take(i as int),
            decreases self.unhandled.len() - i,
        {
            out.push(self.unhandled[i].1);
            assert(all.take(i as int + 1) =~= all.take(i as int).push(self.unhandled@[i as int].1));
            i = i + 1;
        }
        assert(all.take(self.unhandled.len() as int) =~= all);
        self.unhandled = Vec::new();
        assert(self.unhandled@ =~= Seq::empty());
        out
    }
}

/// A promise is settled once: a second settlement changes nothing.
pub proof fn settling_is_final(j: JobsView, p: u64, a: Value, x: bool, b: Value, y: bool)
    requires
        j.status(p) is Some,
    ensures
        j.settled(p, a, x).settled(p, b, y) == j.settled(p, a, x),
        j.settled(p, a, x).status(p) != Some(Status::Pending),
{
    let k = j.settled(p, a, x);
    let i = place_of(j.promises, p, j.promises.len())->0;
    lemma_place(j.promises, p, j.promises.len());
    if j.promises[i as int].1 == Status::Pending {
        lemma_same_place(j.promises, k.promises, p, j.promises.len());
    }
}

/// A rejection is unhandled exactly until something reacts to the promise.
pub proof fn reacting_handles(j: JobsView, p: u64, r: Reaction)
    ensures
        forall|i: int|
            0 <= i < j.reacted(p, r).unhandled.len() ==> (#[trigger] j.reacted(
                p,
                r,
            ).unhandled[i]).0 != p,
{
    lemma_reasons_but(j.unhandled, p, j.unhandled.len());
}

proof fn lemma_reasons_but(v: Seq<(u64, Value)>, p: u64, n: nat)
    ensures
        forall|i: int|
            0 <= i < reasons_but(v, p, n).len() ==> (#[trigger] reasons_but(v, p, n)[i]).0 != p,
    decreases n,
{
    if n > 0 && n <= v.len() {
        lemma_reasons_but(v, p, (n - 1) as nat);
        let w = reasons_but(v, p, (n - 1) as nat);
        assert forall|i: int| 0 <= i < reasons_but(v, p, n).len() implies (#[trigger] reasons_but(
            v,
            p,
            n,
        )[i]).0 != p by {
            if i < w.len() {
                assert(reasons_but(v, p, n)[i] == w[i]);
            }
        }
    }
}

proof fn lemma_place(v: Seq<(u64, Status)>, p: u64, n: nat)
    requires
        n <= v.len(),
    ensures
        place_of(v, p, n) matches Some(i) ==> i < n && v[i as int].0 == p,
    decreases n,
{
    if n > 0 && v[n - 1].0 != p {
        lemma_place(v, p, (n - 1) as nat);
    }
}

proof fn lemma_same_place(v: Seq<(u64, Status)>, w: Seq<(u64, Status)>, p: u64, n: nat)
    requires
        n <= v.len(),
        v.len() == w.len(),
        forall|i: int| 0 <= i < v.len() ==> (#[trigger] v[i]).0 == w[i].0,
    ensures
        place_of(v, p, n) == place_of(w, p, n),
    decreases n,
{
    if n > 0 {
        assert(v[n - 1].0 == w[n - 1].0);
        lemma_same_place(v, w, p, (n - 1) as nat);
    }
}

} // verus!
