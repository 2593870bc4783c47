//! An engine: one realm, and what an embedder can ask of it.
//!
//! Objects live with a host, and so does the parser. An engine takes the statements of a
//! parsed program, or the error that parsing gave, and runs them against its host.
use vstd::prelude::*;

use crate::ast::Stmt;
use crate::grammar::Fault;
use crate::interp::program::{
    add_global, add_global_step, add_namespace, add_namespace_step, call_value, call_value_step,
    next_job, next_job_step, run_loaded, run_loaded_step, run_script, run_script_step, run_value,
    run_value_step, Loaded, NativeOp, Outcome,
};
use crate::interp::promise::{drain_microtasks, drain_microtasks_step};
use crate::interp::session::{
    asks, classes_view, integer_views, Abrupt, Answers, Completion as Step, Flags, Host, Memory, Reply,
    Request, Session, Value, World,
};
use crate::jobs::JobsView;
use crate::modules::progress::no_progress;
use crate::modules::register::LoadError;
use crate::modules::table::{copy_text, texts};
use crate::scope::ScopesView;
use crate::snapshot::read::fault_message;
use crate::snapshot::{decode, decoded, encode, encoded};
use crate::text::{decimal, decimal_string, join};
use crate::tree::{program_tree, Tree};

verus! {

/// What parsing failed with.
#[derive(Debug)]
pub struct ParseError {
    pub message: String,
    pub line: u32,
    /// Whether the input only ended too soon.
    pub at_eof: bool,
}

/// How functions are run.
#[derive(Clone, Copy, PartialEq, Eq, Structural, Debug)]
pub enum Tier {
    /// From their syntax alone.
    Interp,
    /// Compiled once they were called often enough.
    Bytecode,
}

/// The channels of an agent, which the host keeps.
#[derive(Clone, Copy, PartialEq, Eq, Structural, Debug)]
pub struct AgentChannels {
    /// Where it hears what is broadcast.
    pub broadcast: u64,
    /// Where it reports.
    pub report: u64,
}

/// How a program ended.
#[derive(Debug)]
pub enum Completion {
    /// It ran to its end: its value as text, empty where it has none.
    Value(String),
    /// A value was thrown: the name of an error, empty for anything else, and a message.
    Throw { name: String, message: String },
}

/// The characters of a text that may be missing.
pub open spec fn shown<'a>(v: Option<Value>, w: World<'a>) -> Seq<char> {
    match v {
        Some(x) => w.chars(x),
        None => Seq::empty(),
    }
}

impl Completion {
    /// Whether this tells how a program ended.
    pub open spec fn tells<'a>(self, o: Outcome, w: World<'a>) -> bool {
        match (self, o) {
            (Completion::Value(t), Outcome::Value(v)) => t@ == shown(v, w),
            (Completion::Throw { name, message }, Outcome::Throw { name: n, message: m }) => name@
                == shown(n, w) && message@ == shown(m, w),
            _ => false,
        }
    }
}

fn text_of<'h, 'a, H: Host<'a>>(s: &Session<'h, 'a, H>, v: Option<Value>) -> (r: String)
    ensures
        forall|answers: Answers<'a>| r@ == shown(v, #[trigger] s.world(answers)),
{
    match v {
        Some(x) => copy_text(s.chars(x)),
        None => {
            proof {
                reveal_strlit("");
                assert(""@ =~= Seq::<char>::empty());
            }
            copy_text("")
        },
    }
}

fn tell<'h, 'a, H: Host<'a>>(s: &Session<'h, 'a, H>, o: Outcome) -> (r: Completion)
    ensures
        forall|answers: Answers<'a>| r.tells(o, #[trigger] s.world(answers)),
{
    match o {
        Outcome::Value(v) => Completion::Value(text_of(s, v)),
        Outcome::Throw { name, message } => Completion::Throw {
            name: text_of(s, name),
            message: text_of(s, message),
        },
    }
}

/// The program that a snapshot holds, or a parse error without a line.
pub fn read_script(bytes: &[u8]) -> (r: Result<Vec<Stmt>, ParseError>)
    ensures
        match decoded(bytes@) {
            Ok(t) => r matches Ok(body) && program_tree(body@) == t,
            Err(f) => r matches Err(e) && e.message@ == fault_message(f) && e.line == 0 && !e.at_eof,
        },
{
    match decode(bytes) {
        Ok(body) => Ok(body),
        Err(message) => Err(ParseError { message, line: 0, at_eof: false }),
    }
}

/// The program of a snapshot runs as the program that the snapshot was made of, which reads back from it,
/// where programs with one tree are one program.
pub proof fn snapshots_run_as_their_source<'a>(
    source: &'a Vec<Stmt>,
    read: &'a Vec<Stmt>,
    strict: bool,
    w: World<'a>,
)
    requires
        decoded(encoded(program_tree(source@))) == Ok::<Tree, Fault>(program_tree(source@)),
        decoded(encoded(program_tree(source@))) == Ok::<Tree, Fault>(program_tree(read@)),
        program_tree(read@) == program_tree(source@) ==> read == source,
    ensures
        run_script_step(read, strict, w) == run_script_step(source, strict, w),
{
}

/// The state that an engine begins with: nothing of any other engine is in it.
pub open spec fn fresh<'a>(modules: nat, answers: Answers<'a>) -> World<'a> {
    World {
        answers,
        asked: Seq::empty(),
        short: false,
        strict: false,
        limit: u64::MAX as nat,
        frames: Seq::empty(),
        progress: no_progress(modules),
        jobs: JobsView {
            promises: Seq::empty(),
            reactions: Seq::empty(),
            queue: Seq::empty(),
            unhandled: Seq::empty(),
        },
        scopes: (ScopesView { scopes: Seq::empty() }).added(None, None, false, true),
        flags: Flags { super_call: false, field_code: false, tail: false, pending: None },
        classes: Seq::empty(),
        texts: Seq::empty(),
        integers: Seq::empty(),
        made: 0,
        added: Seq::empty(),
        lists: Seq::empty(),
        drafts: Seq::empty(),
        base: None,
        loader: None,
    }
}

impl ParseError {
    pub open spec fn same(self, other: ParseError) -> bool {
        self.message@ == other.message@ && self.line == other.line && self.at_eof == other.at_eof
    }

    /// The same error again.
    pub fn copy(&self) -> (r: ParseError)
        ensures
            r.same(*self),
    {
        ParseError {
            message: copy_text(self.message.as_str()),
            line: self.line,
            at_eof: self.at_eof,
        }
    }

    /// The text of a parse error: its message and its line.
    pub open spec fn text(self) -> Seq<char> {
        self.message@ + " (line "@ + decimal(self.line as nat) + ")"@
    }

    /// The text of a parse error.
    pub fn describe(&self) -> (r: String)
        ensures
            r@ == self.text(),
    {
        let a = join(self.message.as_str(), " (line ");
        let n = decimal_string(self.line as u64);
        let b = join(a.as_str(), n.as_str());
        join(b.as_str(), ")")
    }
}

/// The snapshot of a parsed program, or the text of its parse error.
pub fn compile_snapshot(parsed: &Result<Vec<Stmt>, ParseError>) -> (r: Result<Vec<u8>, String>)
    ensures
        match parsed {
            Ok(body) => (r matches Ok(bytes) && bytes@ == encoded(program_tree(body@))),
            Err(e) => (r matches Err(message) && message@ == e.text()),
        },
{
    match parsed {
        Ok(body) => Ok(encode(body)),
        Err(e) => Err(e.describe()),
    }
}

/// An engine.
pub struct Engine<'h, 'a, H: Host<'a>> {
    /// The conversation with the host.
    pub session: Session<'h, 'a, H>,
    /// Whether the agent may block.
    pub can_block: bool,
    /// The channels of an engine that runs as an agent of another.
    pub agent: Option<AgentChannels>,
    pub tier: Tier,
    pub tier_threshold: u32,
}

impl<'h, 'a, H: Host<'a>> Engine<'h, 'a, H> {
    /// Whether everything but the session is the same.
    pub open spec fn same_settings(self, other: Self) -> bool {
        &&& self.can_block == other.can_block
        &&& self.agent == other.agent
        &&& self.tier == other.tier
        &&& self.tier_threshold == other.tier_threshold
    }

    /// A new engine, with room for so many modules. It begins with a state of its own, whatever other
    /// engines have done; its objects are those of its host.
    pub fn new(host: &'h mut H, modules: usize) -> (e: Self)
        ensures
            e.session.log() == Seq::<(Request<'a>, Reply<'a>)>::empty(),
            forall|answers: Answers<'a>| #[trigger]
                e.session.world(answers) == fresh(modules as nat, answers),
            !e.can_block,
            e.agent is None,
            e.tier == Tier::Interp,
            e.tier_threshold == 0,
            e.session.console_lines() == Seq::<String>::empty(),
    {
        let memory = Memory::new(modules);
        assert(texts(memory.texts@) =~= Seq::empty());
        assert(integer_views(memory.integers@) =~= Seq::empty());
        assert(classes_view(memory.classes@) =~= Seq::empty());
        let session = Session::new(host, false, memory);
        assert forall|answers: Answers<'a>| #[trigger] session.world(answers) == fresh(
            modules as nat,
            answers,
        ) by {
            assert(session.world(answers).asked =~= Seq::empty());
        }
        Engine {
            session,
            can_block: false,
            agent: None,
            tier: Tier::Interp,
            tier_threshold: 0,
        }
    }

    /// Whether the agent may block.
    pub fn set_can_block(&mut self, b: bool)
        ensures
            *final(self) == (Engine { can_block: b, ..*old(self) }),
    {
        self.can_block = b;
    }

    /// Selects how functions are run.
    pub fn set_tier(&mut self, tier: Tier)
        ensures
            *final(self) == (Engine { tier, ..*old(self) }),
    {
        self.tier = tier;
    }

    /// How many calls a function needs to be compiled.
    pub fn set_tier_threshold(&mut self, threshold: u32)
        ensures
            *final(self) == (Engine { tier_threshold: threshold, ..*old(self) }),
    {
        self.tier_threshold = threshold;
    }

    /// Whether a function that was called so often is compiled.
    pub fn compiles(&self, calls: u32) -> (r: bool)
        ensures
            r == (self.tier == Tier::Bytecode && calls >= self.tier_threshold),
    {
        matches!(self.tier, Tier::Bytecode) && calls >= self.tier_threshold
    }

    /// Sets the loader that modules come from: an `import(..)` is answered by it.
    pub fn set_module_loader(&mut self, loader: u64)
        ensures
            final(self).session.after(old(self).session),
            final(self).session.import_loader() == Some(loader),
            final(self).same_settings(*old(self)),
            forall|answers: Answers<'a>| #[trigger]
                final(self).session.agrees(answers) ==> old(self).session.agrees(answers)
                    && final(self).session.world(answers) == (World {
                    loader: Some(loader),
                    ..old(self).session.world(answers)
                }),
    {
        self.session.set_loader(loader);
    }

    /// Sets where the specifiers of a script's imports start from: an `import(..)` of a script asks for
    /// its module from there.
    pub fn set_import_base(&mut self, base: &'a String)
        ensures
            final(self).session.after(old(self).session),
            final(self).session.import_base() == Some(base),
            final(self).same_settings(*old(self)),
            forall|answers: Answers<'a>| #[trigger]
                final(self).session.agrees(answers) ==> old(self).session.agrees(answers)
                    && final(self).session.world(answers) == (World {
                    base: Some(base),
                    ..old(self).session.world(answers)
                }),
    {
        self.session.set_base(base);
    }

    /// Takes what the program has written to the console since the last time.
    pub fn take_console(&mut self) -> (r: Vec<String>)
        ensures
            r@ == old(self).session.console_lines(),
            final(self).session.console_lines() == Seq::<String>::empty(),
            final(self).session.after(old(self).session),
            final(self).same_settings(*old(self)),
            forall|answers: Answers<'a>| #[trigger]
                final(self).session.agrees(answers) ==> old(self).session.agrees(answers)
                    && final(self).session.world(answers) == old(self).session.world(answers),
    {
        self.session.take_console()
    }

    /// The conversation with the host.
    pub fn ctx(&mut self) -> (r: &mut Session<'h, 'a, H>)
        ensures
            *r == old(self).session,
            *final(self) == (Engine { session: *final(r), ..*old(self) }),
    {
        &mut self.session
    }

    /// Runs a parsed script, and then what it has left to do. It is strict if asked to be, or if it says
    /// so itself. What did not parse is not run.
    pub fn eval(&mut self, parsed: &'a Result<Vec<Stmt>, ParseError>, strict: bool) -> (r: Result<
        Completion,
        ParseError,
    >)
        ensures
            final(self).session.after(old(self).session),
            final(self).same_settings(*old(self)),
            match parsed {
                Ok(body) => (r matches Ok(out) && forall|answers: Answers<'a>| #[trigger]
                    final(self).session.agrees(answers) ==> old(self).session.agrees(answers) && ({
                        let (o, w) = run_script_step(
                            body,
                            strict,
                            old(self).session.world(answers),
                        );
                        final(self).session.world(answers) == w && out.tells(o, w)
                    })),
                Err(e) => (r matches Err(x) && x.same(*e)) && *final(self) == *old(self),
            },
    {
        match parsed {
            Ok(body) => {
                let o = run_script(&mut self.session, body, strict);
                Ok(tell(&self.session, o))
            },
            Err(e) => Err(e.copy()),
        }
    }

    /// The same for a script that was read from a snapshot. What could not be read is not run.
    pub fn eval_snapshot(&mut self, read: &'a Result<Vec<Stmt>, ParseError>, strict: bool) -> (r:
        Result<Completion, ParseError>)
        ensures
            final(self).session.after(old(self).session),
            final(self).same_settings(*old(self)),
            match read {
                Ok(body) => (r matches Ok(out) && forall|answers: Answers<'a>| #[trigger]
                    final(self).session.agrees(answers) ==> old(self).session.agrees(answers) && ({
                        let (o, w) = run_script_step(
                            body,
                            strict,
                            old(self).session.world(answers),
                        );
                        final(self).session.world(answers) == w && out.tells(o, w)
                    })),
                Err(e) => (r matches Err(x) && x.same(*e)) && *final(self) == *old(self),
            },
    {
        self.eval(read, strict)
    }

    /// Runs a parsed script as an agent, which may block, hears what is broadcast on one channel of the
    /// host's and reports on another. How it ended is not told.
    pub fn run_as_agent(
        &mut self,
        parsed: &'a Result<Vec<Stmt>, ParseError>,
        broadcast: u64,
        report: u64,
    )
        ensures
            final(self).session.after(old(self).session),
            final(self).same_settings((Engine {
                can_block: true,
                agent: Some(AgentChannels { broadcast, report }),
                ..*old(self)
            })),
            match parsed {
                Ok(body) => forall|answers: Answers<'a>| #[trigger]
                    final(self).session.agrees(answers) ==> old(self).session.agrees(answers)
                        && final(self).session.world(answers) == run_script_step(
                        body,
                        false,
                        old(self).session.world(answers),
                    ).1,
                Err(_) => final(self).session == old(self).session,
            },
    {
        self.can_block = true;
        self.agent = Some(AgentChannels { broadcast, report });
        match parsed {
            Ok(body) => {
                let _ = run_script(&mut self.session, body, false);
            },
            Err(_) => {},
        }
    }

    /// Evaluates a module, and then what it has left to do. What could not be loaded, or not be linked,
    /// is thrown; the loader is the one that modules come from thereafter.
    pub fn eval_module(
        &mut self,
        loaded: &'a Result<Loaded, LoadError>,
        loader: u64,
    ) -> (r: Completion)
        ensures
            final(self).session.after(old(self).session),
            final(self).same_settings(*old(self)),
            final(self).session.import_loader() == Some(loader),
            forall|answers: Answers<'a>| #[trigger]
                final(self).session.agrees(answers) ==> old(self).session.agrees(answers) && ({
                    let (o, w) = run_loaded_step(
                        loaded,
                        World { loader: Some(loader), ..old(self).session.world(answers) },
                    );
                    final(self).session.world(answers) == w && r.tells(o, w)
                }),
    {
        self.session.set_loader(loader);
        let o = run_loaded(&mut self.session, loaded);
        tell(&self.session, o)
    }

    /// A value as text: that of a string, and nothing for anything else.
    pub fn text(&self, v: Value) -> (r: &str)
        ensures
            forall|answers: Answers<'a>| r@ == (#[trigger] self.session.world(answers)).chars(v),
    {
        self.session.chars(v)
    }

    /// The global object.
    pub fn global_this(&mut self) -> (r: Step<'a>)
        ensures
            final(self).session.after(old(self).session),
            final(self).same_settings(*old(self)),
            forall|answers: Answers<'a>| #[trigger]
                final(self).session.agrees(answers) ==> old(self).session.agrees(answers) && (
                    r,
                    final(self).session.world(answers),
                ) == asks(
                    Request::GlobalObject,
                    old(self).session.world(answers),
                ),
    {
        self.session.value(Request::GlobalObject)
    }

    /// Runs a parsed script and nothing after it: a value, or what was thrown. Jobs are left to the
    /// caller.
    pub fn eval_value(&mut self, parsed: &'a Result<Vec<Stmt>, ParseError>) -> (r: Result<
        Result<Value, Value>,
        ParseError,
    >)
        ensures
            final(self).session.after(old(self).session),
            final(self).same_settings(*old(self)),
            match parsed {
                Ok(body) => (r matches Ok(out) && forall|answers: Answers<'a>| #[trigger]
                    final(self).session.agrees(answers) ==> old(self).session.agrees(answers) && (
                        out,
                        final(self).session.world(answers),
                    ) == run_value_step(body, old(self).session.world(answers))),
                Err(e) => (r matches Err(x) && x.same(*e)) && *final(self) == *old(self),
            },
    {
        match parsed {
            Ok(body) => Ok(run_value(&mut self.session, body)),
            Err(e) => Err(e.copy()),
        }
    }

    /// Gives the global object a function of the embedder's.
    pub fn define_global(&mut self, name: &'a String, length: usize, func: u64) -> (r: Result<
        (),
        Abrupt<'a>,
    >)
        ensures
            final(self).session.after(old(self).session),
            final(self).same_settings(*old(self)),
            forall|answers: Answers<'a>| #[trigger]
                final(self).session.agrees(answers) ==> old(self).session.agrees(answers) && (
                    r,
                    final(self).session.world(answers),
                ) == add_global_step(
                    name,
                    length,
                    func,
                    old(self).session.world(answers),
                ),
    {
        add_global(&mut self.session, name, length, func)
    }

    /// Gives the global object an object with functions of the embedder's.
    pub fn define_namespace(&mut self, name: &'a String, ops: &'a Vec<NativeOp>) -> (r: Result<
        (),
        Abrupt<'a>,
    >)
        ensures
            final(self).session.after(old(self).session),
            final(self).same_settings(*old(self)),
            forall|answers: Answers<'a>| #[trigger]
                final(self).session.agrees(answers) ==> old(self).session.agrees(answers) && (
                    r,
                    final(self).session.world(answers),
                ) == add_namespace_step(
                    name,
                    ops,
                    old(self).session.world(answers),
                ),
    {
        add_namespace(&mut self.session, name, ops)
    }

    /// Calls a function: its value, or what was thrown.
    pub fn call_function(&mut self, func: Value, this: Value, args: &'a Vec<Value>) -> (r: Result<
        Value,
        Value,
    >)
        ensures
            final(self).session.after(old(self).session),
            final(self).same_settings(*old(self)),
            forall|answers: Answers<'a>| #[trigger]
                final(self).session.agrees(answers) ==> old(self).session.agrees(answers) && (
                    r,
                    final(self).session.world(answers),
                ) == call_value_step(
                    func,
                    this,
                    args,
                    old(self).session.world(answers),
                ),
    {
        call_value(&mut self.session, func, this, args)
    }

    /// Runs jobs until none is left.
    pub fn run_microtasks(&mut self) -> (r: Result<(), Abrupt<'a>>)
        ensures
            final(self).session.after(old(self).session),
            final(self).same_settings(*old(self)),
            forall|answers: Answers<'a>| #[trigger]
                final(self).session.agrees(answers) ==> old(self).session.agrees(answers) && (
                    r,
                    final(self).session.world(answers),
                ) == drain_microtasks_step(
                    old(self).session.world(answers),
                ),
    {
        drain_microtasks(&mut self.session)
    }

    /// Takes the reasons of the rejections that nothing handles.
    pub fn take_unhandled_rejections(&mut self) -> (r: Vec<Value>)
        ensures
            r@ == old(self).session.job_state().reasons(),
            final(self).session.after(old(self).session),
            final(self).same_settings(*old(self)),
            forall|answers: Answers<'a>| #[trigger]
                final(self).session.agrees(answers) ==> old(self).session.agrees(answers)
                    && final(self).session.world(answers) == old(self).session.world(
                    answers,
                ).take_unhandled(),
    {
        self.session.take_unhandled()
    }

    /// Whether a job is due.
    pub fn has_pending_jobs(&self) -> (r: bool)
        ensures
            r == self.session.job_state().first_job() is Some,
    {
        self.session.first_job().is_some()
    }

    /// Runs the job that is due first: whether there was one.
    pub fn run_one_job(&mut self) -> (r: bool)
        ensures
            final(self).session.after(old(self).session),
            final(self).same_settings(*old(self)),
            forall|answers: Answers<'a>| #[trigger]
                final(self).session.agrees(answers) ==> old(self).session.agrees(answers) && (
                    r,
                    final(self).session.world(answers),
                ) == next_job_step(
                    old(self).session.world(answers),
                ),
    {
        next_job(&mut self.session)
    }
}

} // verus!
