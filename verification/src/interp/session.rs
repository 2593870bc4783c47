//! The conversation between the evaluator and the object model.
//!
//! The evaluator decides what happens next and keeps texts, big integers, lists, scopes, classes, modules
//! and promises; objects live with a [`Host`], which the evaluator asks one [`Request`] at a time. A
//! [`Session`] keeps, for the proofs alone, the record of what was asked and what came back. What a part
//! of the evaluator does is stated as a function of the host's answers: a [`World`] holds the answers
//! still to come, the requests made so far and what the evaluator keeps, and a step of the evaluator takes
//! a world to an outcome and the next world. The executed code follows that function whatever the host
//! answers. A request that runs no code of the program leaves everything that the evaluator keeps as it
//! is; one that may run code (a call, a getter, a trap) hands it to the host, which runs that code in a
//! session of its own. The lists of a session and the classes that it is defining stay with it meanwhile.
//!
//! A loop of a program runs up to as many rounds as a 64-bit number counts, which no run reaches.
use vstd::prelude::*;

use crate::ast::{Expr, Function, Pattern, Stmt};
use crate::bigint::JsBigInt;
use crate::jobs::{Job, Jobs, JobsView, Reaction, Status};
use crate::modules::exports::{decls_names, pattern_names};
use crate::interp::program::Loaded;
use crate::modules::progress::{bump, bumped, no_progress, ModState, PlanModule, Progress, ProgressView};
use crate::modules::register::LoadError;
use crate::modules::resolve::Resolution;
use crate::modules::table::texts;
use crate::number::Relation;
use crate::scan::exports_value;
use crate::scope::dynamic::ParseContext;
use crate::scope::{
    block_names, default_placeholder, deletable_binding, import_binding, lexical_names, namespace_binding,
    plain_binding, BindingView, Scopes, ScopesView,
};
use crate::value::props::{
    make_private_accessor, merge_halves, private_accessor, with_new_halves, Property,
};
use crate::text::{decimal, decimal_string, same_text, to_chars};
use crate::value::typed::TaIndex;

verus! {

/// A JavaScript value. Symbols and objects are handles of the host; a string and a big integer are the
/// places of what they hold in the [`Memory`], and a number is the bits of its double.
#[derive(Clone, Copy, PartialEq, Eq, Structural, Debug)]
pub enum Value {
    Undefined,
    /// No value: the completion of a statement that makes none.
    Empty,
    Null,
    Bool(bool),
    Num(u64),
    BigInt(u64),
    Str(u64),
    Sym(u64),
    Obj(u64),
}

impl Value {
    pub open spec fn nullish(self) -> bool {
        self == Value::Undefined || self == Value::Null
    }

    pub open spec fn spec_is_nullish(&self) -> bool {
        self.nullish()
    }

    /// The object, if the value is one.
    pub fn as_obj(&self) -> (r: Option<u64>)
        ensures
            r == (match *self {
                Value::Obj(o) => Some(o),
                _ => None,
            }),
    {
        match self {
            Value::Obj(o) => Some(*o),
            _ => None,
        }
    }

    /// The bits of the number, if the value is one.
    pub fn as_num_opt(&self) -> (r: Option<u64>)
        ensures
            r == (match *self {
                Value::Num(n) => Some(n),
                _ => None,
            }),
    {
        match self {
            Value::Num(n) => Some(*n),
            _ => None,
        }
    }

    /// Whether the value is `undefined` or `null`.
    #[verifier::when_used_as_spec(spec_is_nullish)]
    pub fn is_nullish(&self) -> (r: bool)
        ensures
            r == self.nullish(),
    {
        match self {
            Value::Undefined | Value::Null => true,
            _ => false,
        }
    }
}

/// A scope.
pub type Env = usize;

/// A name: one of the program's, or one that the evaluator itself uses.
#[derive(Clone, Copy)]
pub enum Name<'a> {
    Source(&'a String),
    Fixed(&'static str),
}

impl<'a> Name<'a> {
    pub open spec fn chars(self) -> Seq<char> {
        match self {
            Name::Source(s) => s@,
            Name::Fixed(s) => s@,
        }
    }

    pub open spec fn spec_key(self) -> Key<'a> {
        match self {
            Name::Source(s) => Key::Source(s),
            Name::Fixed(s) => Key::Fixed(s),
        }
    }

    /// The name as a property key.
    #[verifier::when_used_as_spec(spec_key)]
    pub fn key(self) -> (r: Key<'a>)
        ensures
            r == self.spec_key(),
    {
        match self {
            Name::Source(s) => Key::Source(s),
            Name::Fixed(s) => Key::Fixed(s),
        }
    }

    /// The text of the name.
    pub fn text(&self) -> (r: &str)
        ensures
            r@ == self.chars(),
    {
        match self {
            Name::Source(s) => s.as_str(),
            Name::Fixed(s) => s,
        }
    }
}

/// A property key.
#[derive(Clone, Copy)]
pub enum Key<'a> {
    Source(&'a String),
    Fixed(&'static str),
    /// The place of an array's element.
    Index(u64),
    /// A text that was made while the program ran.
    Made(u64),
    /// A symbol, by its handle.
    Symbol(u64),
    /// The name of a binding, by its place among those of a scope.
    Declared { env: Env, at: u64 },
}

/// The kinds of error that the evaluator throws.
#[derive(Clone, Copy, PartialEq, Eq, Structural, Debug)]
pub enum ErrorKind {
    TypeError,
    ReferenceError,
    SyntaxError,
    RangeError,
    SuppressedError,
}

/// The well-known symbols that the evaluator looks up.
#[derive(Clone, Copy, PartialEq, Eq, Structural, Debug)]
pub enum WellKnown {
    Iterator,
    AsyncIterator,
    Dispose,
    AsyncDispose,
    HasInstance,
    ToPrimitive,
}

/// What an error message speaks of.
#[derive(Clone, Copy)]
pub enum Subject<'a> {
    Key(Key<'a>),
    Callee(&'a Expr),
}

/// A field of a class that is being defined: its key, its initial value and the list of the transforms of
/// its decorators.
#[derive(Clone, Copy)]
pub struct FieldInit<'a> {
    pub key: Key<'a>,
    pub init: Option<&'a Expr>,
    pub transforms: u64,
}

/// A static field of a class that is being defined: its place among the members, its key and the list of
/// its transforms.
#[derive(Clone, Copy)]
pub struct StaticInit<'a> {
    pub member: u64,
    pub key: Key<'a>,
    pub transforms: u64,
}

/// A private method or accessor of a class's instances.
#[derive(Clone, Copy)]
pub struct PrivateMember<'a> {
    pub key: Key<'a>,
    pub prop: Property,
}

/// A class that is being defined.
pub struct Draft<'a> {
    pub fields: Vec<FieldInit<'a>>,
    pub statics: Vec<StaticInit<'a>>,
    pub privates: Vec<PrivateMember<'a>>,
}

/// A class that is being defined.
pub ghost struct DraftView<'a> {
    pub fields: Seq<FieldInit<'a>>,
    pub statics: Seq<StaticInit<'a>>,
    pub privates: Seq<PrivateMember<'a>>,
}

impl<'a> View for Draft<'a> {
    type V = DraftView<'a>;

    open spec fn view(&self) -> DraftView<'a> {
        DraftView { fields: self.fields@, statics: self.statics@, privates: self.privates@ }
    }
}

/// The classes that are being defined.
pub open spec fn drafts_view<'a>(v: Seq<Draft<'a>>) -> Seq<DraftView<'a>> {
    v.map_values(|d: Draft<'a>| d@)
}

/// The static field at a place among the members, among the first `n` that were kept.
pub open spec fn static_at<'a>(v: Seq<StaticInit<'a>>, member: u64, n: nat) -> Option<StaticInit<'a>>
    decreases n,
{
    if n == 0 || n > v.len() {
        None
    } else if v[n - 1].member == member {
        Some(v[n - 1])
    } else {
        static_at(v, member, (n - 1) as nat)
    }
}

/// A field of a class: its key, its initial value and the transforms of its decorators.
pub struct FieldRecord<'a> {
    pub key: Key<'a>,
    pub init: Option<&'a Expr>,
    pub transforms: Vec<Value>,
}

/// A field of a class.
pub ghost struct FieldView<'a> {
    pub key: Key<'a>,
    pub init: Option<&'a Expr>,
    pub transforms: Seq<Value>,
}

impl<'a> View for FieldRecord<'a> {
    type V = FieldView<'a>;

    open spec fn view(&self) -> FieldView<'a> {
        FieldView { key: self.key, init: self.init, transforms: self.transforms@ }
    }
}

/// The fields of a class.
pub open spec fn field_views<'a>(v: Seq<FieldRecord<'a>>) -> Seq<FieldView<'a>> {
    v.map_values(|f: FieldRecord<'a>| f@)
}

/// What the instances of a class are given.
pub struct ClassInfo<'a> {
    pub ctor: Value,
    pub derived: bool,
    /// The scope of the fields' initial values.
    pub env: Env,
    /// What decorators have added.
    pub initializers: Vec<Value>,
    pub fields: Vec<FieldRecord<'a>>,
    pub privates: Vec<PrivateMember<'a>>,
}

/// What the instances of a class are given.
pub ghost struct ClassView<'a> {
    pub ctor: Value,
    pub derived: bool,
    pub env: Env,
    pub initializers: Seq<Value>,
    pub fields: Seq<FieldView<'a>>,
    pub privates: Seq<PrivateMember<'a>>,
}

impl<'a> View for ClassInfo<'a> {
    type V = ClassView<'a>;

    open spec fn view(&self) -> ClassView<'a> {
        ClassView {
            ctor: self.ctor,
            derived: self.derived,
            env: self.env,
            initializers: self.initializers@,
            fields: field_views(self.fields@),
            privates: self.privates@,
        }
    }
}

/// What the instances of classes are given.
pub open spec fn classes_view<'a>(v: Seq<ClassInfo<'a>>) -> Seq<ClassView<'a>> {
    v.map_values(|c: ClassInfo<'a>| c@)
}

/// The items of lists.
pub open spec fn lists_view(v: Seq<Vec<Value>>) -> Seq<Seq<Value>> {
    v.map_values(|x: Vec<Value>| x@)
}

/// What big integers stand for.
pub open spec fn integer_views(v: Seq<JsBigInt>) -> Seq<int> {
    v.map_values(|n: JsBigInt| n@)
}

/// A name of an object's own properties.
pub enum OwnName {
    Text(String),
    Symbol(u64),
}

/// The texts among the first `n` names.
pub open spec fn name_texts(v: Seq<OwnName>, n: nat) -> Seq<Seq<char>>
    decreases n,
{
    if n == 0 || n > v.len() {
        Seq::empty()
    } else {
        match v[n - 1] {
            OwnName::Text(x) => name_texts(v, (n - 1) as nat).push(x@),
            OwnName::Symbol(_) => name_texts(v, (n - 1) as nat),
        }
    }
}

/// The first `n` names as values, where the texts go to the places from `base` on.
pub open spec fn name_values(base: nat, v: Seq<OwnName>, n: nat) -> Seq<Value>
    decreases n,
{
    if n == 0 || n > v.len() {
        Seq::empty()
    } else {
        let before = name_values(base, v, (n - 1) as nat);
        match v[n - 1] {
            OwnName::Text(_) => before.push(
                Value::Str((base + name_texts(v, (n - 1) as nat).len()) as u64),
            ),
            OwnName::Symbol(h) => before.push(Value::Sym(h)),
        }
    }
}

/// The place of the last class with a constructor, among the first `n`.
pub open spec fn place_of_class<'a>(v: Seq<ClassView<'a>>, ctor: Value, n: nat) -> Option<usize>
    decreases n,
{
    if n == 0 || n > v.len() || !(ctor is Obj) {
        None
    } else if v[n - 1].ctor == ctor {
        Some((n - 1) as usize)
    } else {
        place_of_class(v, ctor, (n - 1) as nat)
    }
}

/// A call that is left to the caller. Its arguments are a list of the session that left it.
#[derive(Clone, Copy, PartialEq, Eq, Structural, Debug)]
pub struct TailCall {
    pub func: Value,
    pub this: Value,
    pub args: u64,
}

/// What the running code may do.
#[derive(Clone, Copy, PartialEq, Eq, Structural, Debug)]
pub struct Flags {
    /// Whether `super(..)` may be called.
    pub super_call: bool,
    /// Whether the code is that of a field.
    pub field_code: bool,
    /// Whether a call may take the place of the running function.
    pub tail: bool,
    /// The call that was left to the caller.
    pub pending: Option<TailCall>,
}

/// What the evaluator asks of the host.
#[allow(inconsistent_fields)]
pub enum Request<'a> {
    // ---- errors
    /// A new error with this message, which is a text.
    MakeError { kind: ErrorKind, message: Value },
    // ---- values
    /// Whether an object counts as true.
    Truthy(Value),
    /// Whether an object can be called.
    Callable(Value),
    IsIntrinsicEval(Value),
    /// Whether an object is an error, or stands for one.
    IsError(Value),
    /// Whether a big integer equals a number.
    SameInteger(Value, Value),
    /// How a big integer and a number compare.
    Relate(Value, Value),
    /// The shortest digits that spell a finite number, and the place of the point in them.
    Digits(u64),
    /// The number nearest to what a decimal literal spells.
    RoundDecimal(Value),
    /// The number nearest to what the digits of a text spell in a radix.
    RoundRadix { digits: Value, radix: u32 },
    IsArray(Value),
    ArrayLength(Value),
    /// Rounding arithmetic on two doubles.
    Arithmetic { op: &'static str, left: u64, right: u64 },
    /// The integer that an operator makes of two.
    IntegerOperate { op: &'static str, left: Value, right: Value },
    ShiftInteger { left: bool, arg: Value, count: u64 },
    /// A well-known symbol, by its handle.
    WellKnownKey(WellKnown),
    /// A symbol as a message shows it.
    SymbolText(Value),
    /// The description of a symbol; `undefined` if it has none.
    SymbolDescription(Value),
    // ---- objects
    GetMember { base: Value, key: Key<'a> },
    GetMemberFor { base: Value, key: Key<'a>, receiver: Value },
    SetMember { base: Value, key: Key<'a>, value: Value, strict: bool },
    SetMemberFor { base: Value, key: Key<'a>, value: Value, receiver: Value, strict: bool },
    GetPrototype(Value),
    SetPrototype { base: Value, proto: Value },
    BoundTarget(Value),
    /// The property that an object itself has under a key.
    OwnProperty { base: Value, key: Key<'a> },
    /// Gives an object itself a property, in place of any that it has under the key.
    DefineOwn { base: Value, key: Key<'a>, prop: Property },
    MakeObject,
    MakeObjectFrom { proto: Value },
    ObjectPrototype,
    FunctionPrototype,
    /// An array of the items of a list.
    ArrayOf { list: u64 },
    MakeFunction { func: &'a Function, env: Env },
    /// A regular expression; one that is not well formed is thrown as a `SyntaxError`.
    MakeRegExp { body: &'a String, flags: &'a String },
    /// The object that a template was given before; `undefined` if it was given none.
    CachedTemplate(&'a Vec<(Option<String>, String)>),
    CacheTemplate { quasis: &'a Vec<(Option<String>, String)>, object: Value },
    /// No more properties can be added to an object.
    PreventExtensions(Value),
    IsNamespace(Value),
    /// Reads an export of a module namespace, which may not be initialized.
    ReadExport { base: Value, key: Key<'a> },
    // ---- calls
    Call { func: Value, this: Value, args: u64 },
    Construct { func: Value, args: u64 },
    /// Parses a text as evaluated code, as its place allows.
    ParseEval { code: Value, env: Env, context: ParseContext },
    /// Loads a module and all that it depends on. The attribute is the type that the options of the import
    /// ask for, and the specifier is resolved from the referrer.
    LoadImport {
        specifier: Value,
        attribute: Option<Value>,
        referrer: Option<Value>,
        /// The loader of the host's that modules come from.
        loader: u64,
    },
    Await(Value),
    /// A value as a promise.
    PromiseResolve(Value),
    /// Gives a value to the generator's caller and waits; the answer is how the caller resumes.
    Suspend(Value),
    /// The same with an iterator's result object, which is handed on as it is.
    SuspendRaw(Value),
    /// Whether a suspended call is running, which can wait.
    InCoroutine,
    InGenerator,
    InAsyncGenerator,
    // ---- properties
    /// Evaluates the module behind a deferred namespace.
    TriggerDeferred { base: Value, key: Key<'a> },
    ProxyTarget(Value),
    ProxyHandler(Value),
    /// How a key relates to the elements of an object.
    IndexKind { base: Value, key: Key<'a> },
    /// The string that an object wraps; `undefined` if it wraps none.
    WrappedText(Value),
    /// The own keys of an object in their order, as a list of values.
    OwnKeys(Value),
    /// The own keys that a proxy's trap gives, as a list of values.
    ProxyOwnKeys(Value),
    /// What a proxy says of a property: a descriptor object or `undefined`.
    ProxyDescriptor { base: Value, key: Key<'a> },
    /// The enumerable string keys that a proxy shows, as a list of values.
    ProxyEnumerableKeys(Value),
    /// The keys of an integer-indexed object's elements, as a list of strings; none for others.
    ElementKeys(Value),
    /// The symbol of the names that a `with` object hides.
    UnscopablesKey,
    GlobalObject,
    DeleteOwn { base: Value, key: Key<'a> },
    // ---- classes
    /// The constructor of a class: the function given, or the one that a class has by default, as
    /// `default_constructor` makes it.
    MakeConstructor {
        func: Option<&'a Function>,
        derived: bool,
        source: &'a Option<String>,
        env: Env,
    },
    /// A function that reads or writes the private field behind an accessor.
    MakeAccessorFunction { backing: Key<'a>, getter: bool },
    /// A function that reads or writes one property of its argument.
    MakePropertyFunction { key: Key<'a>, getter: bool },
    AddInitializerFunction,
    HasOwn { base: Value, key: Key<'a> },
    IsExtensible(Value),
    CreateDataProperty { base: Value, key: Key<'a>, value: Value },
    /// Declares the names of a program; one may be refused.
    DeclareProgram { stmts: &'a Vec<Stmt>, env: Env },
    /// A function of the embedder's as a value.
    MakeNative { func: u64, name: &'a String, length: u64 },
    HoistVars { stmts: &'a Vec<Stmt>, env: Env },
    // ---- constructors
    IsProxy(Value),
    /// The constructor that runs next gets the `new.target` of the running one.
    KeepNewTarget,
    /// Constructs with the `new.target` of the running constructor.
    ConstructOnward { func: Value, args: u64 },
    IsBound(Value),
    /// The arguments of a bound function, as a list.
    BoundArguments(Value),
    IsUserFunction(Value),
    /// Whether a function of the program is no arrow, method, generator or asynchronous function.
    IsOrdinaryFunction(Value),
    /// Whether a built-in function was made as a constructor.
    IsMarkedConstructor(Value),
    IsNativeFunction(Value),
    CallBody { func: Value, this: Value, args: u64 },
    CallNative { func: Value, this: Value, args: u64 },
    /// Moves the properties and internal state of a built-in's object to another.
    Adopt { from: Value, to: Value },
    // ---- scopes
    /// Whether a block's function is copied to the variable that it declares.
    IsCopied(&'a Function),
    /// The `import.meta` of code that stands in no module.
    DefaultImportMeta,
    // ---- promises
    NewPromise,
    /// The promise that stands for another, or the promise itself.
    ForwardedPromise(Value),
    /// A function that settles a promise, unless the flag was used.
    MakeResolver { promise: Value, fulfilling: bool, flag: Value },
    /// A function that calls a `then` method with a promise's functions.
    MakeThenableJob { method: Value, value: Value, resolve: Value, reject: Value },
    /// Whether a wait of another agent, or a timer, is outstanding.
    HasWaits,
    /// Whether one of the waits is over.
    HasReadyWait,
    /// The promise of such a wait, and what it comes to.
    TakeWait,
    TakeWaitResult,
    /// The functions of the timers that are due.
    DueTimers,
    /// Lets a moment pass.
    Pause,
    // ---- modules
    /// Runs the body of a module that may wait, so that it can: whether it waits now.
    RunWaiting { module: u64, body: &'a Vec<Stmt>, env: Env },
    /// Gives the namespace object of a module its entries.
    BuildNamespace { module: u64, exports: &'a Vec<(String, Resolution)> },
    /// The module source object of a key.
    ModuleSource(&'a String),
    /// The namespace object of a module.
    Namespace { module: u64 },
    /// The namespace object of a module that is evaluated when it is first read.
    DeferredNamespace { module: u64 },
    /// The functions that settle the promise of an import once its module is evaluated: one that
    /// resolves it with the namespace, or one that rejects it.
    ImportHandler { promise: Value, namespace: Option<Value> },
    /// Collects garbage if it is time; may throw when memory is used up.
    Checkpoint,
}

impl<'a> Request<'a> {
    pub open spec fn spec_runs_code(&self) -> bool {
        match self {
            Request::MakeError { .. }
            | Request::ParseEval { .. }
            | Request::BuildNamespace { .. }
            | Request::ModuleSource(..)
            | Request::Pause
            | Request::Checkpoint
            | Request::Adopt { .. }
            | Request::ElementKeys(..)
            | Request::ArrayLength(..)
            | Request::Truthy(..)
            | Request::Callable(..)
            | Request::IsIntrinsicEval(..)
            | Request::IsError(..)
            | Request::SameInteger(..)
            | Request::Relate(..)
            | Request::Digits(..)
            | Request::RoundDecimal(..)
            | Request::RoundRadix { .. }
            | Request::IsArray(..)
            | Request::Arithmetic { .. }
            | Request::IntegerOperate { .. }
            | Request::ShiftInteger { .. }
            | Request::WellKnownKey(..)
            | Request::SymbolText(..)
            | Request::SymbolDescription(..)
            | Request::BoundTarget(..)
            | Request::MakeObject
            | Request::MakeObjectFrom { .. }
            | Request::ObjectPrototype
            | Request::FunctionPrototype
            | Request::ArrayOf { .. }
            | Request::MakeFunction { .. }
            | Request::MakeRegExp { .. }
            | Request::CachedTemplate(..)
            | Request::CacheTemplate { .. }
            | Request::PreventExtensions(..)
            | Request::IsNamespace(..)
            | Request::InCoroutine
            | Request::InGenerator
            | Request::InAsyncGenerator
            | Request::ProxyTarget(..)
            | Request::ProxyHandler(..)
            | Request::IndexKind { .. }
            | Request::WrappedText(..)
            | Request::UnscopablesKey
            | Request::GlobalObject
            | Request::MakeConstructor { .. }
            | Request::MakeAccessorFunction { .. }
            | Request::MakePropertyFunction { .. }
            | Request::AddInitializerFunction
            | Request::HasOwn { .. }
            | Request::IsProxy(..)
            | Request::KeepNewTarget
            | Request::IsBound(..)
            | Request::BoundArguments(..)
            | Request::IsUserFunction(..)
            | Request::IsOrdinaryFunction(..)
            | Request::IsMarkedConstructor(..)
            | Request::IsNativeFunction(..)
            | Request::IsCopied(..)
            | Request::DefaultImportMeta
            | Request::NewPromise
            | Request::ForwardedPromise(..)
            | Request::MakeResolver { .. }
            | Request::MakeThenableJob { .. }
            | Request::HasWaits
            | Request::HasReadyWait
            | Request::TakeWait
            | Request::TakeWaitResult
            | Request::DueTimers
            | Request::Namespace { .. }
            | Request::DeferredNamespace { .. }
            | Request::ImportHandler { .. }
            | Request::DefineOwn { .. }
            | Request::OwnProperty { .. }
            | Request::MakeNative { .. } => false,
            _ => true,
        }
    }

    /// Whether the host may run code of the program to answer: a call, a getter, a trap or an import can.
    #[verifier::when_used_as_spec(spec_runs_code)]
    pub fn runs_code(&self) -> (r: bool)
        ensures
            r == self.spec_runs_code(),
    {
        match self {
            Request::MakeError { .. }
            | Request::ParseEval { .. }
            | Request::BuildNamespace { .. }
            | Request::ModuleSource(..)
            | Request::Pause
            | Request::Checkpoint
            | Request::Adopt { .. }
            | Request::ElementKeys(..)
            | Request::ArrayLength(..)
            | Request::Truthy(..)
            | Request::Callable(..)
            | Request::IsIntrinsicEval(..)
            | Request::IsError(..)
            | Request::SameInteger(..)
            | Request::Relate(..)
            | Request::Digits(..)
            | Request::RoundDecimal(..)
            | Request::RoundRadix { .. }
            | Request::IsArray(..)
            | Request::Arithmetic { .. }
            | Request::IntegerOperate { .. }
            | Request::ShiftInteger { .. }
            | Request::WellKnownKey(..)
            | Request::SymbolText(..)
            | Request::SymbolDescription(..)
            | Request::BoundTarget(..)
            | Request::MakeObject
            | Request::MakeObjectFrom { .. }
            | Request::ObjectPrototype
            | Request::FunctionPrototype
            | Request::ArrayOf { .. }
            | Request::MakeFunction { .. }
            | Request::MakeRegExp { .. }
            | Request::CachedTemplate(..)
            | Request::CacheTemplate { .. }
            | Request::PreventExtensions(..)
            | Request::IsNamespace(..)
            | Request::InCoroutine
            | Request::InGenerator
            | Request::InAsyncGenerator
            | Request::ProxyTarget(..)
            | Request::ProxyHandler(..)
            | Request::IndexKind { .. }
            | Request::WrappedText(..)
            | Request::UnscopablesKey
            | Request::GlobalObject
            | Request::MakeConstructor { .. }
            | Request::MakeAccessorFunction { .. }
            | Request::MakePropertyFunction { .. }
            | Request::AddInitializerFunction
            | Request::HasOwn { .. }
            | Request::IsProxy(..)
            | Request::KeepNewTarget
            | Request::IsBound(..)
            | Request::BoundArguments(..)
            | Request::IsUserFunction(..)
            | Request::IsOrdinaryFunction(..)
            | Request::IsMarkedConstructor(..)
            | Request::IsNativeFunction(..)
            | Request::IsCopied(..)
            | Request::DefaultImportMeta
            | Request::NewPromise
            | Request::ForwardedPromise(..)
            | Request::MakeResolver { .. }
            | Request::MakeThenableJob { .. }
            | Request::HasWaits
            | Request::HasReadyWait
            | Request::TakeWait
            | Request::TakeWaitResult
            | Request::DueTimers
            | Request::Namespace { .. }
            | Request::DeferredNamespace { .. }
            | Request::ImportHandler { .. }
            | Request::DefineOwn { .. }
            | Request::OwnProperty { .. }
            | Request::MakeNative { .. } => false,
            _ => true,
        }
    }
}

/// How deep evaluated code may evaluate code, which no run reaches.
pub const EVAL_DEPTH: u64 = 0xffff_ffff_ffff_ffff;

/// What the host answers.
pub enum Answer<'a> {
    Value(Value),
    /// The work ended by throwing.
    Throw(Value),
    /// The work ended by returning from the running function.
    Return(Value),
    Flag(bool),
    /// A symbol, a count or a list.
    Handle(u64),
    /// A new string.
    Text(String),
    /// A new big integer.
    Integer(JsBigInt),
    /// A new list.
    List(Vec<Value>),
    /// A new list of property names.
    Names(Vec<OwnName>),
    /// The digits of a number, and the place of the point in them.
    Digits { digits: String, point: i64 },
    Relation(Relation),
    Index(TaIndex),
    /// A property that an object has.
    Own(Property),
    /// The statements of a text that was parsed.
    Code(&'a Vec<Stmt>),
    /// What loading a module came to.
    Graph(&'a Result<Loaded, LoadError>),
}

/// How a statement or expression ends early.
#[derive(Clone, Copy)]
pub enum Abrupt<'a> {
    Throw(Value),
    Return(Value),
    /// The value is what the statements before the jump completed with.
    Break(Option<&'a String>, Value),
    Continue(Option<&'a String>, Value),
    /// A loop has used up its rounds.
    Stopped,
}

/// How a statement or expression ends.
pub type Completion<'a> = Result<Value, Abrupt<'a>>;

/// The object model. What it only looks up or makes it answers on the side; where it may run code of the
/// program, scopes, modules and promises come further meanwhile. The lists are those of the session that
/// asks, to which requests refer by their places.
pub trait Host<'a> {
    /// Answers a request that runs no code of the program.
    fn answer(
        &mut self,
        request: &Request<'a>,
        memory: &Memory<'a>,
        lists: &Vec<Vec<Value>>,
    ) -> Answer<'a>;

    /// Answers a request that may run code of the program.
    fn run(
        &mut self,
        request: &Request<'a>,
        memory: &mut Memory<'a>,
        lists: &Vec<Vec<Value>>,
    ) -> Answer<'a>;
}

/// What the host answers, and how far modules and promises have come by that.
pub ghost struct Reply<'a> {
    pub answer: Answer<'a>,
    pub progress: ProgressView,
    pub jobs: JobsView,
    pub scopes: ScopesView<'a>,
    pub flags: Flags,
    pub classes: Seq<ClassView<'a>>,
    pub texts: Seq<Seq<char>>,
    pub integers: Seq<int>,
    pub made: u64,
    pub added: Seq<Value>,
}

/// The host's answers, in order.
pub type Answers<'a> = spec_fn(nat) -> Reply<'a>;

/// The state that the evaluator's steps are stated over.
pub ghost struct World<'a> {
    pub answers: Answers<'a>,
    pub asked: Seq<Request<'a>>,
    /// Whether an optional chain has met a nullish link.
    pub short: bool,
    pub strict: bool,
    /// How many rounds a loop may run.
    pub limit: nat,
    /// The resources of the open disposal frames, innermost last.
    pub frames: Seq<Seq<Disposable>>,
    /// How far the evaluation of modules has come.
    pub progress: ProgressView,
    pub jobs: JobsView,
    pub scopes: ScopesView<'a>,
    pub flags: Flags,
    pub classes: Seq<ClassView<'a>>,
    /// The texts of strings.
    pub texts: Seq<Seq<char>>,
    /// The big integers.
    pub integers: Seq<int>,
    /// How many private keys were made.
    pub made: u64,
    /// The functions that a decorator has added to run later.
    pub added: Seq<Value>,
    /// The lists of the session.
    pub lists: Seq<Seq<Value>>,
    /// The classes that are being defined.
    pub drafts: Seq<DraftView<'a>>,
    /// Where the imports of a script are resolved from.
    pub base: Option<&'a String>,
    /// The loader that modules come from.
    pub loader: Option<u64>,
}

/// A resource and how it is disposed of.
#[derive(Clone, Copy, PartialEq, Eq, Structural, Debug)]
pub struct Disposable {
    pub value: Value,
    pub method: Value,
    pub method_is_async: bool,
}

impl<'a> World<'a> {
    /// Asking the host: the next answer, and the world behind it. Where the host may run code, scopes,
    /// modules and promises are then what that left, but for a search that is under way.
    pub open spec fn ask(self, request: Request<'a>) -> (Answer<'a>, World<'a>) {
        let reply = (self.answers)(self.asked.len());
        if request.runs_code() {
            (
                reply.answer,
                World {
                    asked: self.asked.push(request),
                    progress: ProgressView { seen: self.progress.seen, ..reply.progress },
                    jobs: reply.jobs,
                    scopes: reply.scopes,
                    flags: reply.flags,
                    classes: reply.classes,
                    texts: reply.texts,
                    integers: reply.integers,
                    made: reply.made,
                    added: reply.added,
                    ..self
                },
            )
        } else {
            (reply.answer, World { asked: self.asked.push(request), ..self })
        }
    }

    pub open spec fn module(self, m: usize) -> ModState {
        self.progress.state(m)
    }

    pub open spec fn set_module(self, m: usize, st: ModState) -> World<'a> {
        World { progress: self.progress.with_state(m, st), ..self }
    }

    pub open spec fn enter_module(self, m: usize) -> World<'a> {
        World { progress: self.progress.entered(m), ..self }
    }

    pub open spec fn wait_for(self, parent: usize, child: usize) -> World<'a> {
        World { progress: self.progress.waiting(parent, child), ..self }
    }

    pub open spec fn order_module(self, m: usize) -> World<'a> {
        World { progress: self.progress.ordered(m), ..self }
    }

    pub open spec fn leave_module(self, m: usize) -> World<'a> {
        World { progress: self.progress.left(m), ..self }
    }

    pub open spec fn see(self, m: usize) -> World<'a> {
        World {
            progress: ProgressView { seen: self.progress.seen.push(m), ..self.progress },
            ..self
        }
    }

    pub open spec fn forget(self) -> World<'a> {
        World { progress: ProgressView { seen: Seq::empty(), ..self.progress }, ..self }
    }

    pub open spec fn has_seen(self, m: usize) -> bool {
        self.progress.seen.contains(m)
    }

    pub open spec fn waits_for(self, parent: usize, child: usize) -> bool {
        self.progress.waits.contains((child, parent))
    }

    pub open spec fn parents_of(self, m: usize) -> Seq<usize> {
        self.progress.parents(m)
    }

    /// The modules that become available when a module is done, and the world without their waits.
    pub open spec fn available(self, plan: Seq<PlanModule>, m: usize) -> (Seq<usize>, World<'a>) {
        let (p, v) = self.progress.available(plan, m, u64::MAX);
        (v, World { progress: p, ..self })
    }

    pub open spec fn promise_status(self, p: u64) -> Option<Status> {
        self.jobs.status(p)
    }

    pub open spec fn add_promise(self, p: u64) -> World<'a> {
        World { jobs: self.jobs.added(p), ..self }
    }

    pub open spec fn settle_promise(self, p: u64, value: Value, fulfilled: bool) -> World<'a> {
        World { jobs: self.jobs.settled(p, value, fulfilled), ..self }
    }

    pub open spec fn react(self, p: u64, r: Reaction) -> World<'a> {
        World { jobs: self.jobs.reacted(p, r), ..self }
    }

    pub open spec fn push_job(self, job: Job) -> World<'a> {
        World { jobs: JobsView { queue: self.jobs.queue.push(job), ..self.jobs }, ..self }
    }

    pub open spec fn first_job(self) -> Option<Job> {
        self.jobs.first_job()
    }

    pub open spec fn drop_job(self) -> World<'a> {
        World { jobs: self.jobs.popped(), ..self }
    }

    pub open spec fn take_unhandled(self) -> World<'a> {
        World { jobs: JobsView { unhandled: Seq::empty(), ..self.jobs }, ..self }
    }

    pub open spec fn bind_var(self, name: Name<'a>, value: Value, env: Env) -> World<'a> {
        World { scopes: self.scopes.bound(env, name.chars(), plain_binding(value)), ..self }
    }

    pub open spec fn init_lexical(
        self,
        name: Name<'a>,
        value: Value,
        constant: bool,
        env: Env,
    ) -> World<'a> {
        let b = BindingView {
            mutable: !constant,
            strict_immutable: constant,
            ..plain_binding(value)
        };
        World { scopes: self.scopes.bound(env, name.chars(), b), ..self }
    }

    pub open spec fn bind_deletable(self, name: Name<'a>, value: Value, env: Env) -> World<'a> {
        World { scopes: self.scopes.bound(env, name.chars(), deletable_binding(value)), ..self }
    }

    pub open spec fn bind_constant(self, name: Name<'a>, value: Value, env: Env) -> World<'a> {
        World { scopes: self.scopes.bound(env, name.chars(), namespace_binding(value)), ..self }
    }

    pub open spec fn store_var(self, env: Env, name: Name<'a>, value: Value) -> World<'a> {
        World { scopes: self.scopes.stored(env, name.chars(), value), ..self }
    }

    pub open spec fn set_value(self, env: Env, name: Name<'a>, value: Value) -> World<'a> {
        World { scopes: self.scopes.revalued(env, name.chars(), value), ..self }
    }

    pub open spec fn initialize(self, env: Env, name: Name<'a>) -> World<'a> {
        World { scopes: self.scopes.initialized(env, name.chars()), ..self }
    }

    pub open spec fn unbind(self, env: Env, name: Name<'a>) -> World<'a> {
        World { scopes: self.scopes.unbound(env, name.chars()), ..self }
    }

    pub open spec fn declare_class(self, name: Name<'a>, env: Env) -> World<'a> {
        World { scopes: self.scopes.bound(env, name.chars(), default_placeholder()), ..self }
    }

    pub open spec fn declare_pattern(self, pattern: &'a Pattern, env: Env) -> World<'a> {
        let names = pattern_names(pattern);
        World { scopes: self.scopes.pattern_declared(env, names, names.len()), ..self }
    }

    pub open spec fn declare_block(self, stmts: &'a Vec<Stmt>, env: Env) -> World<'a> {
        let names = block_names(stmts@, stmts@.len());
        World { scopes: self.scopes.all_declared(env, names, names.len()), ..self }
    }

    pub open spec fn declare_stmt(self, st: &'a Stmt, env: Env) -> World<'a> {
        let names = lexical_names(st);
        World { scopes: self.scopes.all_declared(env, names, names.len()), ..self }
    }

    pub open spec fn declare_default(self, body: &'a Vec<Stmt>, env: Env) -> World<'a> {
        if exports_value(body@, 0) {
            World { scopes: self.scopes.bound(env, "*default*"@, default_placeholder()), ..self }
        } else {
            self
        }
    }

    pub open spec fn copy_names(
        self,
        from: Env,
        to: Env,
        decls: &'a Vec<(Pattern, Option<Expr>)>,
    ) -> World<'a> {
        let names = decls_names(decls@, decls@.len());
        World { scopes: self.scopes.copied(from, to, names, names.len()), ..self }
    }

    pub open spec fn empty_scope(self, env: Env) -> World<'a> {
        World { scopes: self.scopes.emptied(env), ..self }
    }

    pub open spec fn bind_import(
        self,
        env: Env,
        local: &'a String,
        source: Env,
        name: Name<'a>,
    ) -> World<'a> {
        World { scopes: self.scopes.bound(env, local@, import_binding(source, name)), ..self }
    }

    pub open spec fn bind_namespace(self, env: Env, local: &'a String, value: Value) -> World<'a> {
        World { scopes: self.scopes.bound(env, local@, namespace_binding(value)), ..self }
    }

    pub open spec fn bind_declared(self, env: Env, probe: Env, at: usize, value: Value) -> World<'a> {
        World { scopes: self.scopes.declared_bound(env, probe, at, value), ..self }
    }

    /// The text at a place; empty where there is none.
    pub open spec fn text(self, at: u64) -> Seq<char> {
        if at < self.texts.len() {
            self.texts[at as int]
        } else {
            Seq::empty()
        }
    }

    /// The text of a value; empty for one that is no string.
    pub open spec fn chars(self, v: Value) -> Seq<char> {
        match v {
            Value::Str(at) => self.text(at),
            _ => Seq::empty(),
        }
    }

    /// The string that is made next.
    pub open spec fn next_text(self) -> Value {
        Value::Str(self.texts.len() as u64)
    }

    pub open spec fn add_text(self, text: Seq<char>) -> World<'a> {
        World { texts: self.texts.push(text), ..self }
    }

    /// The integer of a value; zero for one that is no big integer.
    pub open spec fn integer(self, v: Value) -> int {
        match v {
            Value::BigInt(at) => if at < self.integers.len() {
                self.integers[at as int]
            } else {
                0
            },
            _ => 0,
        }
    }

    /// The big integer that is made next.
    pub open spec fn next_integer(self) -> Value {
        Value::BigInt(self.integers.len() as u64)
    }

    pub open spec fn add_integer(self, n: int) -> World<'a> {
        World { integers: self.integers.push(n), ..self }
    }

    /// The text of a key; empty for a symbol.
    pub open spec fn key_chars(self, key: Key<'a>) -> Seq<char> {
        match key {
            Key::Source(s) => s@,
            Key::Fixed(s) => s@,
            Key::Index(n) => decimal(n as nat),
            Key::Made(at) => self.text(at),
            Key::Symbol(_) => Seq::empty(),
            Key::Declared { env, at } => if at < self.scopes.names_at(env).len() {
                self.scopes.names_at(env)[at as int]
            } else {
                Seq::empty()
            },
        }
    }

    /// Whether a key is a text, and this one.
    pub open spec fn key_is(self, key: Key<'a>, text: Seq<char>) -> bool {
        !(key is Symbol) && self.key_chars(key) == text
    }

    /// Whether two keys are one symbol or have one text.
    pub open spec fn same_key(self, a: Key<'a>, b: Key<'a>) -> bool {
        match (a, b) {
            (Key::Symbol(x), Key::Symbol(y)) => x == y,
            (Key::Symbol(_), _) | (_, Key::Symbol(_)) => false,
            _ => self.key_chars(a) == self.key_chars(b),
        }
    }

    /// Whether a key is one that a class evaluation has made for a private name.
    pub open spec fn private(self, key: Key<'a>) -> bool {
        !(key is Symbol) && made_private(self.key_chars(key))
    }

    pub open spec fn count_made(self) -> World<'a> {
        World { made: bump(self.made), ..self }
    }

    /// The items of a list; none where there is no such list.
    pub open spec fn list(self, at: u64) -> Seq<Value> {
        if at < self.lists.len() {
            self.lists[at as int]
        } else {
            Seq::empty()
        }
    }

    /// The list that is made next.
    pub open spec fn next_list(self) -> u64 {
        self.lists.len() as u64
    }

    pub open spec fn new_list(self, items: Seq<Value>) -> World<'a> {
        World { lists: self.lists.push(items), ..self }
    }

    /// Adds a list of property names.
    pub open spec fn new_names(self, names: Seq<OwnName>) -> World<'a> {
        World {
            texts: self.texts + name_texts(names, names.len()),
            lists: self.lists.push(name_values(self.texts.len(), names, names.len())),
            ..self
        }
    }

    pub open spec fn with_list(self, list: u64, items: Seq<Value>) -> World<'a> {
        if list < self.lists.len() {
            World { lists: self.lists.update(list as int, items), ..self }
        } else {
            self
        }
    }

    pub open spec fn push(self, list: u64, v: Value) -> World<'a> {
        self.with_list(list, self.list(list).push(v))
    }

    pub open spec fn append(self, list: u64, items: Seq<Value>) -> World<'a> {
        self.with_list(list, self.list(list) + items)
    }

    /// Takes the first item out of a list.
    pub open spec fn drop_item(self, list: u64) -> World<'a> {
        if self.list(list).len() > 0 {
            self.with_list(list, self.list(list).drop_first())
        } else {
            self
        }
    }

    /// Moves the functions that a decorator has added to a list.
    pub open spec fn take_added(self, list: u64) -> World<'a> {
        World { added: Seq::empty(), ..self.append(list, self.added) }
    }

    pub open spec fn add_added(self, f: Value) -> World<'a> {
        World { added: self.added.push(f), ..self }
    }

    pub open spec fn has_item(self, list: u64, at: u64) -> bool {
        at < self.list(list).len()
    }

    /// An item of a list; `undefined` where there is none.
    pub open spec fn item(self, list: u64, at: u64) -> Value {
        if at < self.list(list).len() {
            self.list(list)[at as int]
        } else {
            Value::Undefined
        }
    }

    /// Whether a value is a key: the symbol, or a string with its text.
    pub open spec fn value_is_key(self, v: Value, key: Key<'a>) -> bool {
        match (v, key) {
            (Value::Sym(x), Key::Symbol(y)) => x == y,
            (Value::Str(_), Key::Symbol(_)) => false,
            (Value::Str(at), _) => self.text(at) == self.key_chars(key),
            _ => false,
        }
    }

    /// Whether a list holds a key.
    pub open spec fn lists_key(self, list: u64, key: Key<'a>) -> bool {
        exists|i: int|
            0 <= i < self.list(list).len() && self.value_is_key(#[trigger] self.list(list)[i], key)
    }

    /// The class that is begun next.
    pub open spec fn next_record(self) -> u64 {
        self.drafts.len() as u64
    }

    pub open spec fn new_record(self) -> World<'a> {
        World {
            drafts: self.drafts.push(
                DraftView { fields: Seq::empty(), statics: Seq::empty(), privates: Seq::empty() },
            ),
            ..self
        }
    }

    /// A class that is being defined.
    pub open spec fn draft(self, record: u64) -> DraftView<'a> {
        if record < self.drafts.len() {
            self.drafts[record as int]
        } else {
            DraftView { fields: Seq::empty(), statics: Seq::empty(), privates: Seq::empty() }
        }
    }

    pub open spec fn with_draft(self, record: u64, d: DraftView<'a>) -> World<'a> {
        if record < self.drafts.len() {
            World { drafts: self.drafts.update(record as int, d), ..self }
        } else {
            self
        }
    }

    pub open spec fn add_field_init(self, record: u64, f: FieldInit<'a>) -> World<'a> {
        let d = self.draft(record);
        self.with_draft(record, DraftView { fields: d.fields.push(f), ..d })
    }

    pub open spec fn add_static(self, record: u64, f: StaticInit<'a>) -> World<'a> {
        let d = self.draft(record);
        self.with_draft(record, DraftView { statics: d.statics.push(f), ..d })
    }

    /// The static field at a place among the members.
    pub open spec fn static_of(self, record: u64, member: u64) -> Option<StaticInit<'a>> {
        let v = self.draft(record).statics;
        static_at(v, member, v.len())
    }

    pub open spec fn add_private(self, record: u64, key: Key<'a>, prop: Property) -> World<'a> {
        let d = self.draft(record);
        self.with_draft(
            record,
            DraftView { privates: d.privates.push(PrivateMember { key, prop }), ..d },
        )
    }

    /// The first private member with a key, from the one at `i` on; their number where there is none.
    pub open spec fn private_place(self, v: Seq<PrivateMember<'a>>, key: Key<'a>, i: nat) -> nat
        decreases v.len() - i,
    {
        if i >= v.len() {
            v.len()
        } else if self.same_key(v[i as int].key, key) {
            i
        } else {
            self.private_place(v, key, i + 1)
        }
    }

    /// Gives the first private member with the key the halves of an accessor that there are, or adds one
    /// that has them.
    pub open spec fn merge_private(
        self,
        record: u64,
        key: Key<'a>,
        getter: Option<Value>,
        setter: Option<Value>,
    ) -> World<'a> {
        let d = self.draft(record);
        let at = self.private_place(d.privates, key, 0);
        if at < d.privates.len() {
            let m = d.privates[at as int];
            let m = PrivateMember { prop: with_new_halves(m.prop, getter, setter), ..m };
            self.with_draft(record, DraftView { privates: d.privates.update(at as int, m), ..d })
        } else {
            self.add_private(record, key, private_accessor(getter, setter))
        }
    }

    pub open spec fn finish_class(
        self,
        record: u64,
        ctor: Value,
        derived: bool,
        env: Env,
        initializers: u64,
    ) -> World<'a> {
        let d = self.draft(record);
        let c = ClassView {
            ctor,
            derived,
            env,
            initializers: self.list(initializers),
            fields: Seq::new(
                d.fields.len(),
                |i: int|
                    FieldView {
                        key: d.fields[i].key,
                        init: d.fields[i].init,
                        transforms: self.list(d.fields[i].transforms),
                    },
            ),
            privates: d.privates,
        };
        World { classes: self.classes.push(c), ..self }
    }

    pub open spec fn set_flags(self, flags: Flags) -> World<'a> {
        World { flags, ..self }
    }

    /// The scope that is made next.
    pub open spec fn next_scope(self) -> Env {
        self.scopes.scopes.len() as usize
    }

    pub open spec fn new_scope(
        self,
        parent: Option<Env>,
        with_obj: Option<Value>,
        catch_param: bool,
        var_boundary: bool,
    ) -> World<'a> {
        World {
            scopes: self.scopes.added(parent, with_obj, catch_param, var_boundary),
            ..self
        }
    }

    pub open spec fn holds_resources(self) -> bool {
        frames_hold(self.frames)
    }

    pub open spec fn push_frame(self) -> World<'a> {
        World { frames: self.frames.push(Seq::empty()), ..self }
    }

    /// The innermost disposal frame; empty where none is open.
    pub open spec fn top_frame(self) -> Seq<Disposable> {
        if self.frames.len() == 0 {
            Seq::empty()
        } else {
            self.frames.last()
        }
    }

    pub open spec fn pop_frame(self) -> World<'a> {
        if self.frames.len() == 0 {
            self
        } else {
            World { frames: self.frames.drop_last(), ..self }
        }
    }

    /// Adds a resource to the innermost frame, which is opened if there is none.
    pub open spec fn add_resource(self, d: Disposable) -> World<'a> {
        if self.frames.len() == 0 {
            World { frames: seq![seq![d]], ..self }
        } else {
            World { frames: self.frames.drop_last().push(self.frames.last().push(d)), ..self }
        }
    }
}

/// An answer that is a value or an early end. A new string takes its place among the texts, a new big
/// integer among the integers.
pub open spec fn value_of<'a>(a: Answer<'a>, w: World<'a>) -> (Completion<'a>, World<'a>) {
    match a {
        Answer::Value(v) => (Ok(v), w),
        Answer::Throw(v) => (Err(Abrupt::Throw(v)), w),
        Answer::Return(v) => (Err(Abrupt::Return(v)), w),
        Answer::Text(x) => (Ok(w.next_text()), w.add_text(x@)),
        Answer::Integer(n) => (Ok(w.next_integer()), w.add_integer(n@)),
        _ => (Ok(Value::Undefined), w),
    }
}

/// An answer that is a yes or no.
pub open spec fn flag_of<'a>(a: Answer<'a>) -> Result<bool, Abrupt<'a>> {
    match a {
        Answer::Flag(b) => Ok(b),
        Answer::Throw(v) => Err(Abrupt::Throw(v)),
        Answer::Return(v) => Err(Abrupt::Return(v)),
        _ => Ok(false),
    }
}

/// An answer that is a handle. A new list takes its place among the lists, with the texts of its names
/// among the texts.
pub open spec fn handle_of<'a>(a: Answer<'a>, w: World<'a>) -> (Result<u64, Abrupt<'a>>, World<'a>) {
    match a {
        Answer::Handle(h) => (Ok(h), w),
        Answer::Throw(v) => (Err(Abrupt::Throw(v)), w),
        Answer::Return(v) => (Err(Abrupt::Return(v)), w),
        Answer::List(v) => (Ok(w.next_list()), w.new_list(v@)),
        Answer::Names(v) => (Ok(w.next_list()), w.new_names(v@)),
        _ => (Ok(0), w),
    }
}

/// An answer that is a comparison.
pub open spec fn relation_of<'a>(a: Answer<'a>) -> Result<Relation, Abrupt<'a>> {
    match a {
        Answer::Relation(r) => Ok(r),
        Answer::Throw(v) => Err(Abrupt::Throw(v)),
        Answer::Return(v) => Err(Abrupt::Return(v)),
        _ => Ok(Relation::Unordered),
    }
}

/// Asking for a value.
pub open spec fn asks<'a>(request: Request<'a>, w: World<'a>) -> (Completion<'a>, World<'a>) {
    value_of(w.ask(request).0, w.ask(request).1)
}

/// Asking for a yes or no.
pub open spec fn asks_flag<'a>(request: Request<'a>, w: World<'a>) -> (
    Result<bool, Abrupt<'a>>,
    World<'a>,
) {
    (flag_of(w.ask(request).0), w.ask(request).1)
}

/// Asking for a handle.
pub open spec fn asks_handle<'a>(request: Request<'a>, w: World<'a>) -> (
    Result<u64, Abrupt<'a>>,
    World<'a>,
) {
    handle_of(w.ask(request).0, w.ask(request).1)
}

/// Asking for a comparison.
pub open spec fn asks_relation<'a>(request: Request<'a>, w: World<'a>) -> (
    Result<Relation, Abrupt<'a>>,
    World<'a>,
) {
    (relation_of(w.ask(request).0), w.ask(request).1)
}

pub open spec fn index_of<'a>(a: Answer<'a>) -> Result<TaIndex, Abrupt<'a>> {
    match a {
        Answer::Index(x) => Ok(x),
        Answer::Throw(v) => Err(Abrupt::Throw(v)),
        Answer::Return(v) => Err(Abrupt::Return(v)),
        _ => Ok(TaIndex::Ordinary),
    }
}

pub open spec fn asks_index<'a>(request: Request<'a>, w: World<'a>) -> (
    Result<TaIndex, Abrupt<'a>>,
    World<'a>,
) {
    (index_of(w.ask(request).0), w.ask(request).1)
}

/// An answer that is parsed code.
pub open spec fn code_of<'a>(a: Answer<'a>) -> Result<Option<&'a Vec<Stmt>>, Abrupt<'a>> {
    match a {
        Answer::Code(body) => Ok(Some(body)),
        Answer::Throw(v) => Err(Abrupt::Throw(v)),
        Answer::Return(v) => Err(Abrupt::Return(v)),
        _ => Ok(None),
    }
}

/// Asking for parsed code.
pub open spec fn asks_code<'a>(request: Request<'a>, w: World<'a>) -> (
    Result<Option<&'a Vec<Stmt>>, Abrupt<'a>>,
    World<'a>,
) {
    (code_of(w.ask(request).0), w.ask(request).1)
}

/// An answer that is a module that was loaded.
pub open spec fn graph_of<'a>(a: Answer<'a>) -> Result<
    Option<&'a Result<Loaded, LoadError>>,
    Abrupt<'a>,
> {
    match a {
        Answer::Graph(g) => Ok(Some(g)),
        Answer::Throw(v) => Err(Abrupt::Throw(v)),
        Answer::Return(v) => Err(Abrupt::Return(v)),
        _ => Ok(None),
    }
}

/// Asking for a module.
pub open spec fn asks_graph<'a>(request: Request<'a>, w: World<'a>) -> (
    Result<Option<&'a Result<Loaded, LoadError>>, Abrupt<'a>>,
    World<'a>,
) {
    (graph_of(w.ask(request).0), w.ask(request).1)
}

/// An answer that is a property, or that there is none.
pub open spec fn prop_of<'a>(a: Answer<'a>) -> Result<Option<Property>, Abrupt<'a>> {
    match a {
        Answer::Own(p) => Ok(Some(p)),
        Answer::Throw(v) => Err(Abrupt::Throw(v)),
        Answer::Return(v) => Err(Abrupt::Return(v)),
        _ => Ok(None),
    }
}

/// Asking for a property.
pub open spec fn asks_prop<'a>(request: Request<'a>, w: World<'a>) -> (
    Result<Option<Property>, Abrupt<'a>>,
    World<'a>,
) {
    (prop_of(w.ask(request).0), w.ask(request).1)
}

/// An answer that is the digits of a number: some, with a point at a place that a number has.
pub open spec fn digits_of<'a>(a: Answer<'a>) -> (Seq<char>, int) {
    match a {
        Answer::Digits { digits, point } => if 1 <= digits@.len() <= i64::MAX && point > i64::MIN + 1 {
            (digits@, point as int)
        } else {
            ("0"@, 1)
        },
        _ => ("0"@, 1),
    }
}

/// Whether a text is the key of a private name: it begins with `#` and holds the mark that tells class
/// evaluations apart, or is that of the field behind an accessor.
pub open spec fn made_private(text: Seq<char>) -> bool {
    text.len() >= 2 && text[0] == '#' && (text[1] == '\0' || text.contains('\u{1}'))
}

/// Whether a text is the key of a private name.
pub fn is_made_private(text: &str) -> (r: bool)
    ensures
        r == made_private(text@),
{
    let chars = to_chars(text);
    if chars.len() < 2 || chars[0] != '#' {
        return false;
    }
    if chars[1] == '\0' {
        return true;
    }
    let mut i: usize = 0;
    while i < chars.len()
        invariant
            i <= chars.len(),
            chars@ == text@,
            chars.len() >= 2,
            text@[0] == '#',
            forall|j: int| 0 <= j < i ==> #[trigger] chars@[j] != '\u{1}',
        decreases chars.len() - i,
    {
        if chars[i] == '\u{1}' {
            assert(text@.contains('\u{1}')) by {
                assert(text@[i as int] == '\u{1}');
            }
            return true;
        }
        i = i + 1;
    }
    false
}

/// An outcome and the world behind it.
pub type Step<'a, T> = (Result<T, Abrupt<'a>>, World<'a>);

/// Going on with the value of a step that did not end early.
pub open spec fn next<'a, T, U>(step: Step<'a, T>, f: spec_fn(T, World<'a>) -> Step<'a, U>) -> Step<
    'a,
    U,
> {
    match step.0 {
        Ok(v) => f(v, step.1),
        Err(a) => (Err(a), step.1),
    }
}

/// A run of the evaluator against a host.
pub struct Session<'h, 'a, H: Host<'a>> {
    host: &'h mut H,
    log: Ghost<Seq<(Request<'a>, Reply<'a>)>>,
    short: bool,
    strict: bool,
    limit: u64,
    frames: Vec<Vec<Disposable>>,
    lists: Vec<Vec<Value>>,
    drafts: Vec<Draft<'a>>,
    memory: Memory<'a>,
    base: Option<&'a String>,
    loader: Option<u64>,
}

/// What outlives a session: the scopes, the console, and how far modules and promises have come.
pub struct Memory<'a> {
    pub progress: Progress,
    pub jobs: Jobs,
    pub scopes: Scopes<'a>,
    pub flags: Flags,
    pub classes: Vec<ClassInfo<'a>>,
    /// The texts of strings. Each keeps its place; new ones are added behind them.
    pub texts: Vec<String>,
    /// The big integers. Each keeps its place; new ones are added behind them.
    pub integers: Vec<JsBigInt>,
    /// How many private keys were made.
    pub made: u64,
    /// The functions that a decorator has added to run later, which the host adds to.
    pub added: Vec<Value>,
    /// What the program wrote to the console, which the host adds to.
    pub console: Vec<String>,
}

impl<'a> Memory<'a> {
    /// Room for so many modules, none of which was evaluated, no promises, and the scope of global code.
    pub fn new(modules: usize) -> (m: Memory<'a>)
        ensures
            m.progress@ == no_progress(modules as nat),
            m.jobs@ == (JobsView {
                promises: Seq::empty(),
                reactions: Seq::empty(),
                queue: Seq::empty(),
                unhandled: Seq::empty(),
            }),
            m.scopes@ == (ScopesView { scopes: Seq::empty() }).added(None, None, false, true),
            m.console@ == Seq::<String>::empty(),
            m.classes@ == Seq::<ClassInfo<'a>>::empty(),
            m.texts@ == Seq::<String>::empty(),
            m.integers@ == Seq::<JsBigInt>::empty(),
            m.made == 0,
            m.added@ == Seq::<Value>::empty(),
            m.flags == (Flags { super_call: false, field_code: false, tail: false, pending: None }),
    {
        Memory {
            progress: Progress::new(modules),
            jobs: Jobs::new(),
            scopes: Scopes::new(),
            flags: Flags { super_call: false, field_code: false, tail: false, pending: None },
            classes: Vec::new(),
            texts: Vec::new(),
            integers: Vec::new(),
            made: 0,
            added: Vec::new(),
            console: Vec::new(),
        }
    }
}

/// Whether frames hold resources.
pub open spec fn frames_hold(f: Seq<Seq<Disposable>>) -> bool {
    exists|i: int| 0 <= i < f.len() && (#[trigger] f[i]).len() > 0
}

/// The resources of the open frames.
pub open spec fn frames_view(f: Seq<Vec<Disposable>>) -> Seq<Seq<Disposable>> {
    f.map_values(|x: Vec<Disposable>| x@)
}

impl<'h, 'a, H: Host<'a>> Session<'h, 'a, H> {
    pub closed spec fn log(self) -> Seq<(Request<'a>, Reply<'a>)> {
        self.log@
    }

    pub closed spec fn is_short(self) -> bool {
        self.short
    }

    pub closed spec fn is_strict(self) -> bool {
        self.strict
    }

    pub closed spec fn rounds(self) -> nat {
        self.limit as nat
    }

    pub closed spec fn open_frames(self) -> Seq<Seq<Disposable>> {
        frames_view(self.frames@)
    }

    pub closed spec fn module_progress(self) -> ProgressView {
        self.memory.progress@
    }

    pub closed spec fn job_state(self) -> JobsView {
        self.memory.jobs@
    }

    pub closed spec fn scope_state(self) -> ScopesView<'a> {
        self.memory.scopes@
    }

    pub closed spec fn code_flags(self) -> Flags {
        self.memory.flags
    }

    pub closed spec fn class_state(self) -> Seq<ClassView<'a>> {
        classes_view(self.memory.classes@)
    }

    pub closed spec fn text_state(self) -> Seq<Seq<char>> {
        texts(self.memory.texts@)
    }

    pub closed spec fn integer_state(self) -> Seq<int> {
        integer_views(self.memory.integers@)
    }

    pub closed spec fn private_count(self) -> u64 {
        self.memory.made
    }

    pub closed spec fn added_functions(self) -> Seq<Value> {
        self.memory.added@
    }

    pub closed spec fn list_state(self) -> Seq<Seq<Value>> {
        lists_view(self.lists@)
    }

    pub closed spec fn draft_state(self) -> Seq<DraftView<'a>> {
        drafts_view(self.drafts@)
    }

    pub closed spec fn console_lines(self) -> Seq<String> {
        self.memory.console@
    }

    pub closed spec fn import_base(self) -> Option<&'a String> {
        self.base
    }

    pub closed spec fn import_loader(self) -> Option<u64> {
        self.loader
    }

    /// Whether the answers are the ones that were received.
    pub open spec fn agrees(self, answers: Answers<'a>) -> bool {
        forall|i: int|
            0 <= i < self.log().len() ==> (#[trigger] self.log()[i]).1 == answers(i as nat)
    }

    /// Whether this session goes on from an earlier one.
    pub open spec fn after(self, before: Self) -> bool {
        &&& before.log().len() <= self.log().len()
        &&& forall|i: int|
            0 <= i < before.log().len() ==> #[trigger] self.log()[i] == before.log()[i]
    }

    /// Whether this session goes on from an earlier one as strict as it was and with the same limit.
    pub open spec fn continues(self, before: Self) -> bool {
        &&& self.after(before)
        &&& self.is_strict() == before.is_strict()
        &&& self.rounds() == before.rounds()
        &&& self.import_base() == before.import_base()
        &&& self.import_loader() == before.import_loader()
    }

    /// The world at this point, for the given answers.
    pub open spec fn world(self, answers: Answers<'a>) -> World<'a> {
        World {
            answers,
            asked: Seq::new(self.log().len(), |i: int| self.log()[i].0),
            short: self.is_short(),
            strict: self.is_strict(),
            limit: self.rounds(),
            frames: self.open_frames(),
            progress: self.module_progress(),
            jobs: self.job_state(),
            scopes: self.scope_state(),
            flags: self.code_flags(),
            classes: self.class_state(),
            texts: self.text_state(),
            integers: self.integer_state(),
            made: self.private_count(),
            added: self.added_functions(),
            lists: self.list_state(),
            drafts: self.draft_state(),
            base: self.import_base(),
            loader: self.import_loader(),
        }
    }

    /// A session with a host, in strict mode or not. Scopes, modules and promises are as given.
    pub fn new(host: &'h mut H, strict: bool, memory: Memory<'a>) -> (s: Self)
        ensures
            s.module_progress() == memory.progress@,
            s.job_state() == memory.jobs@,
            s.scope_state() == memory.scopes@,
            s.console_lines() == memory.console@,
            s.code_flags() == memory.flags,
            s.class_state() == classes_view(memory.classes@),
            s.text_state() == texts(memory.texts@),
            s.integer_state() == integer_views(memory.integers@),
            s.private_count() == memory.made,
            s.added_functions() == memory.added@,
            s.list_state() == Seq::<Seq<Value>>::empty(),
            s.draft_state() == Seq::<DraftView<'a>>::empty(),
            s.import_base() is None,
            s.import_loader() is None,
            s.log() == Seq::<(Request<'a>, Reply<'a>)>::empty(),
            s.is_strict() == strict,
            s.rounds() == u64::MAX,
            !s.is_short(),
            s.open_frames() == Seq::<Seq<Disposable>>::empty(),
    {
        let s = Session {
            host,
            log: Ghost(Seq::empty()),
            short: false,
            strict,
            limit: u64::MAX,
            frames: Vec::new(),
            lists: Vec::new(),
            drafts: Vec::new(),
            memory,
            base: None,
            loader: None,
        };
        assert(s.open_frames() =~= Seq::<Seq<Disposable>>::empty());
        assert(s.list_state() =~= Seq::<Seq<Value>>::empty());
        assert(s.draft_state() =~= Seq::<DraftView<'a>>::empty());
        s
    }

    /// Asks the host.
    pub fn ask(&mut self, request: Request<'a>) -> (a: Answer<'a>)
        ensures
            final(self).continues(*old(self)),
            forall|answers: Answers<'a>| #[trigger]
                final(self).agrees(answers) ==> old(self).agrees(answers) && (
                a,
                final(self).world(answers),
            ) == old(self).world(answers).ask(request),
    {
        let a = if request.runs_code() {
            let mut seen: Vec<usize> = Vec::new();
            std::mem::swap(&mut seen, &mut self.memory.progress.seen);
            let a = self.host.run(&request, &mut self.memory, &self.lists);
            let ghost reply = Reply {
                answer: a,
                progress: self.memory.progress@,
                jobs: self.memory.jobs@,
                scopes: self.memory.scopes@,
                flags: self.memory.flags,
                classes: classes_view(self.memory.classes@),
                texts: texts(self.memory.texts@),
                integers: integer_views(self.memory.integers@),
                made: self.memory.made,
                added: self.memory.added@,
            };
            proof {
                self.log@ = self.log@.push((request, reply));
            }
            self.memory.progress.seen = seen;
            a
        } else {
            let a = self.host.answer(&request, &self.memory, &self.lists);
            let ghost reply = Reply {
                answer: a,
                progress: self.memory.progress@,
                jobs: self.memory.jobs@,
                scopes: self.memory.scopes@,
                flags: self.memory.flags,
                classes: classes_view(self.memory.classes@),
                texts: texts(self.memory.texts@),
                integers: integer_views(self.memory.integers@),
                made: self.memory.made,
                added: self.memory.added@,
            };
            proof {
                self.log@ = self.log@.push((request, reply));
            }
            a
        };
        proof {
            assert forall|answers: Answers<'a>| #[trigger] self.agrees(answers) implies old(
                self,
            ).agrees(answers) && (a, self.world(answers)) == old(self).world(answers).ask(
                request,
            ) by {
                let n = old(self).log().len();
                assert(self.log().len() == n + 1);
                assert(self.log()[n as int].1 == answers(n));
                assert forall|i: int| 0 <= i < n implies (#[trigger] old(self).log()[i]).1
                    == answers(i as nat) by {
                    assert(self.log()[i] == old(self).log()[i]);
                }
                assert(self.world(answers).asked =~= old(self).world(answers).asked.push(request));
            }
        }
        a
    }

    /// Asks for a value.
    pub fn value(&mut self, request: Request<'a>) -> (r: Completion<'a>)
        ensures
            final(self).continues(*old(self)),
            forall|answers: Answers<'a>| #[trigger]
                final(self).agrees(answers) ==> old(self).agrees(answers) && (
                r,
                final(self).world(answers),
            ) == asks(request, old(self).world(answers)),
    {
        match self.ask(request) {
            Answer::Value(v) => Ok(v),
            Answer::Throw(v) => Err(Abrupt::Throw(v)),
            Answer::Return(v) => Err(Abrupt::Return(v)),
            Answer::Text(x) => Ok(self.add_text(x)),
            Answer::Integer(n) => Ok(self.add_integer(n)),
            _ => Ok(Value::Undefined),
        }
    }

    /// Asks for a yes or no.
    pub fn flag(&mut self, request: Request<'a>) -> (r: Result<bool, Abrupt<'a>>)
        ensures
            final(self).continues(*old(self)),
            forall|answers: Answers<'a>| #[trigger]
                final(self).agrees(answers) ==> old(self).agrees(answers) && (
                r,
                final(self).world(answers),
            ) == asks_flag(request, old(self).world(answers)),
    {
        match self.ask(request) {
            Answer::Flag(b) => Ok(b),
            Answer::Throw(v) => Err(Abrupt::Throw(v)),
            Answer::Return(v) => Err(Abrupt::Return(v)),
            _ => Ok(false),
        }
    }

    /// Asks for a handle.
    pub fn handle(&mut self, request: Request<'a>) -> (r: Result<u64, Abrupt<'a>>)
        ensures
            final(self).continues(*old(self)),
            forall|answers: Answers<'a>| #[trigger]
                final(self).agrees(answers) ==> old(self).agrees(answers) && (
                r,
                final(self).world(answers),
            ) == asks_handle(request, old(self).world(answers)),
    {
        match self.ask(request) {
            Answer::Handle(h) => Ok(h),
            Answer::Throw(v) => Err(Abrupt::Throw(v)),
            Answer::Return(v) => Err(Abrupt::Return(v)),
            Answer::List(v) => Ok(self.new_list(v)),
            Answer::Names(v) => Ok(self.new_names(v)),
            _ => Ok(0),
        }
    }

    /// Asks for a property.
    pub fn prop(&mut self, request: Request<'a>) -> (r: Result<Option<Property>, Abrupt<'a>>)
        ensures
            final(self).continues(*old(self)),
            forall|answers: Answers<'a>| #[trigger]
                final(self).agrees(answers) ==> old(self).agrees(answers) && (
                r,
                final(self).world(answers),
            ) == asks_prop(request, old(self).world(answers)),
    {
        match self.ask(request) {
            Answer::Own(p) => Ok(Some(p)),
            Answer::Throw(v) => Err(Abrupt::Throw(v)),
            Answer::Return(v) => Err(Abrupt::Return(v)),
            _ => Ok(None),
        }
    }

    /// Asks for a comparison.
    pub fn relation(&mut self, request: Request<'a>) -> (r: Result<Relation, Abrupt<'a>>)
        ensures
            final(self).continues(*old(self)),
            forall|answers: Answers<'a>| #[trigger]
                final(self).agrees(answers) ==> old(self).agrees(answers) && (
                r,
                final(self).world(answers),
            ) == asks_relation(request, old(self).world(answers)),
    {
        match self.ask(request) {
            Answer::Relation(x) => Ok(x),
            Answer::Throw(v) => Err(Abrupt::Throw(v)),
            Answer::Return(v) => Err(Abrupt::Return(v)),
            _ => Ok(Relation::Unordered),
        }
    }

    /// Asks for parsed code.
    pub fn code(&mut self, request: Request<'a>) -> (r: Result<Option<&'a Vec<Stmt>>, Abrupt<'a>>)
        ensures
            final(self).continues(*old(self)),
            forall|answers: Answers<'a>| #[trigger]
                final(self).agrees(answers) ==> old(self).agrees(answers) && (
                    r,
                    final(self).world(answers),
                ) == asks_code(request, old(self).world(answers)),
    {
        match self.ask(request) {
            Answer::Code(body) => Ok(Some(body)),
            Answer::Throw(v) => Err(Abrupt::Throw(v)),
            Answer::Return(v) => Err(Abrupt::Return(v)),
            _ => Ok(None),
        }
    }

    /// Asks for a module.
    pub fn graph(&mut self, request: Request<'a>) -> (r: Result<
        Option<&'a Result<Loaded, LoadError>>,
        Abrupt<'a>,
    >)
        ensures
            final(self).continues(*old(self)),
            forall|answers: Answers<'a>| #[trigger]
                final(self).agrees(answers) ==> old(self).agrees(answers) && (
                    r,
                    final(self).world(answers),
                ) == asks_graph(request, old(self).world(answers)),
    {
        match self.ask(request) {
            Answer::Graph(g) => Ok(Some(g)),
            Answer::Throw(v) => Err(Abrupt::Throw(v)),
            Answer::Return(v) => Err(Abrupt::Return(v)),
            _ => Ok(None),
        }
    }

    /// Asks how a key relates to the elements of an object.
    pub fn index(&mut self, request: Request<'a>) -> (r: Result<TaIndex, Abrupt<'a>>)
        ensures
            final(self).continues(*old(self)),
            forall|answers: Answers<'a>| #[trigger]
                final(self).agrees(answers) ==> old(self).agrees(answers) && (
                    r,
                    final(self).world(answers),
                ) == asks_index(request, old(self).world(answers)),
    {
        match self.ask(request) {
            Answer::Index(x) => Ok(x),
            Answer::Throw(v) => Err(Abrupt::Throw(v)),
            Answer::Return(v) => Err(Abrupt::Return(v)),
            _ => Ok(TaIndex::Ordinary),
        }
    }

    /// Whether an optional chain has met a nullish link.
    pub fn short_circuited(&self) -> (r: bool)
        ensures
            r == self.is_short(),
    {
        self.short
    }

    pub fn strict_mode(&self) -> (r: bool)
        ensures
            r == self.is_strict(),
    {
        self.strict
    }

    /// How many rounds a loop may run.
    pub fn limit(&self) -> (r: u64)
        ensures
            r == self.rounds(),
    {
        self.limit
    }

    pub fn set_short(&mut self, short: bool)
        ensures
            final(self).continues(*old(self)),
            forall|answers: Answers<'a>| #[trigger]
                final(self).agrees(answers) ==> old(self).agrees(answers) && final(self).world(
                    answers,
                ) == (World { short, ..old(self).world(answers) }),
    {
        self.short = short;
        proof {
            lemma_same_log(*old(self), *self);
        }
    }

    pub fn set_strict(&mut self, strict: bool)
        ensures
            final(self).after(*old(self)),
            final(self).is_strict() == strict,
            final(self).rounds() == old(self).rounds(),
            final(self).import_base() == old(self).import_base(),
            final(self).import_loader() == old(self).import_loader(),
            forall|answers: Answers<'a>| #[trigger]
                final(self).agrees(answers) ==> old(self).agrees(answers) && final(self).world(
                    answers,
                ) == (World { strict, ..old(self).world(answers) }),
    {
        self.strict = strict;
        proof {
            lemma_same_log(*old(self), *self);
        }
    }

    /// Sets how far a module has come.
    pub fn set_module(&mut self, m: usize, st: ModState)
        ensures
            final(self).continues(*old(self)),
            forall|answers: Answers<'a>| #[trigger]
                final(self).agrees(answers) ==> old(self).agrees(answers) && final(self).world(
                    answers,
                ) == old(self).world(answers).set_module(m, st),
    {
        self.memory.progress.with_state(m, st);
        proof {
            lemma_same_log(*old(self), *self);
        }
    }

    /// A module enters the walk.
    pub fn enter_module(&mut self, m: usize)
        ensures
            final(self).continues(*old(self)),
            forall|answers: Answers<'a>| #[trigger]
                final(self).agrees(answers) ==> old(self).agrees(answers) && final(self).world(
                    answers,
                ) == old(self).world(answers).enter_module(m),
    {
        self.memory.progress.entered(m);
        proof {
            lemma_same_log(*old(self), *self);
        }
    }

    /// A module waits for another.
    pub fn wait_for(&mut self, parent: usize, child: usize)
        ensures
            final(self).continues(*old(self)),
            forall|answers: Answers<'a>| #[trigger]
                final(self).agrees(answers) ==> old(self).agrees(answers) && final(self).world(
                    answers,
                ) == old(self).world(answers).wait_for(parent, child),
    {
        self.memory.progress.waiting(parent, child);
        proof {
            lemma_same_log(*old(self), *self);
        }
    }

    /// A module takes its place among those that wait.
    pub fn order_module(&mut self, m: usize)
        ensures
            final(self).continues(*old(self)),
            forall|answers: Answers<'a>| #[trigger]
                final(self).agrees(answers) ==> old(self).agrees(answers) && final(self).world(
                    answers,
                ) == old(self).world(answers).order_module(m),
    {
        self.memory.progress.ordered(m);
        proof {
            lemma_same_log(*old(self), *self);
        }
    }

    /// The walk leaves a module.
    pub fn leave_module(&mut self, m: usize)
        ensures
            final(self).continues(*old(self)),
            forall|answers: Answers<'a>| #[trigger]
                final(self).agrees(answers) ==> old(self).agrees(answers) && final(self).world(
                    answers,
                ) == old(self).world(answers).leave_module(m),
    {
        self.memory.progress.left(m);
        proof {
            lemma_same_log(*old(self), *self);
        }
    }

    /// A search comes by a module.
    pub fn see(&mut self, m: usize)
        ensures
            final(self).continues(*old(self)),
            forall|answers: Answers<'a>| #[trigger]
                final(self).agrees(answers) ==> old(self).agrees(answers) && final(self).world(
                    answers,
                ) == old(self).world(answers).see(m),
    {
        self.memory.progress.seen.push(m);
        proof {
            lemma_same_log(*old(self), *self);
        }
    }

    /// A new search begins.
    pub fn forget(&mut self)
        ensures
            final(self).continues(*old(self)),
            forall|answers: Answers<'a>| #[trigger]
                final(self).agrees(answers) ==> old(self).agrees(answers) && final(self).world(
                    answers,
                ) == old(self).world(answers).forget(),
    {
        self.memory.progress.seen = Vec::new();
        assert(self.memory.progress@.seen =~= Seq::empty());
        proof {
            lemma_same_log(*old(self), *self);
        }
    }

    /// How far a module has come.
    pub fn module(&self, m: usize) -> (r: ModState)
        ensures
            r == self.module_progress().state(m),
    {
        self.memory.progress.state(m)
    }

    /// Whether a search has come by a module.
    pub fn has_seen(&self, m: usize) -> (r: bool)
        ensures
            r == self.module_progress().seen.contains(m),
    {
        let mut i: usize = 0;
        while i < self.memory.progress.seen.len()
            invariant
                i <= self.memory.progress.seen.len(),
                forall|j: int| 0 <= j < i ==> self.memory.progress.seen@[j] != m,
            decreases self.memory.progress.seen.len() - i,
        {
            if self.memory.progress.seen[i] == m {
                return true;
            }
            i = i + 1;
        }
        false
    }

    /// Whether a module waits for another.
    pub fn waits_for(&self, parent: usize, child: usize) -> (r: bool)
        ensures
            r == self.module_progress().waits.contains((child, parent)),
    {
        let mut i: usize = 0;
        while i < self.memory.progress.waits.len()
            invariant
                i <= self.memory.progress.waits.len(),
                forall|j: int| 0 <= j < i ==> self.memory.progress.waits@[j] != (child, parent),
            decreases self.memory.progress.waits.len() - i,
        {
            if self.memory.progress.waits[i].0 == child && self.memory.progress.waits[i].1 == parent {
                assert(self.memory.progress.waits@[i as int] == (child, parent));
                return true;
            }
            i = i + 1;
        }
        false
    }

    /// The modules that wait for a module.
    pub fn parents_of(&self, m: usize) -> (r: Vec<usize>)
        ensures
            r@ == self.module_progress().parents(m),
    {
        self.memory.progress.parents(m)
    }

    /// The modules that become available when a module is done.
    pub fn available(&mut self, plan: &Vec<PlanModule>, m: usize) -> (r: Vec<usize>)
        ensures
            final(self).continues(*old(self)),
            forall|answers: Answers<'a>| #[trigger]
                final(self).agrees(answers) ==> old(self).agrees(answers) && (
                r@,
                final(self).world(answers),
            ) == old(self).world(answers).available(plan@, m),
    {
        let r = self.memory.progress.gather_available_ancestors(plan, m, u64::MAX);
        proof {
            lemma_same_log(*old(self), *self);
        }
        r
    }

    /// How far modules and promises have come.
    pub fn into_memory(self) -> (m: Memory<'a>)
        ensures
            m.progress@ == self.module_progress(),
            m.jobs@ == self.job_state(),
            m.scopes@ == self.scope_state(),
            m.console@ == self.console_lines(),
            m.flags == self.code_flags(),
            classes_view(m.classes@) == self.class_state(),
    {
        self.memory
    }

    /// Adds a promise.
    pub fn add_promise(&mut self, p: u64)
        ensures
            final(self).continues(*old(self)),
            forall|answers: Answers<'a>| #[trigger]
                final(self).agrees(answers) ==> old(self).agrees(answers) && final(self).world(
                    answers,
                ) == old(self).world(answers).add_promise(p),
    {
        self.memory.jobs.added(p);
        proof {
            lemma_same_log(*old(self), *self);
        }
    }

    /// Settles a promise.
    pub fn settle_promise(&mut self, p: u64, value: Value, fulfilled: bool)
        ensures
            final(self).continues(*old(self)),
            forall|answers: Answers<'a>| #[trigger]
                final(self).agrees(answers) ==> old(self).agrees(answers) && final(self).world(
                    answers,
                ) == old(self).world(answers).settle_promise(p, value, fulfilled),
    {
        self.memory.jobs.settle(p, value, fulfilled);
        proof {
            lemma_same_log(*old(self), *self);
        }
    }

    /// Adds a reaction to a promise.
    pub fn react(&mut self, p: u64, r: Reaction)
        ensures
            final(self).continues(*old(self)),
            forall|answers: Answers<'a>| #[trigger]
                final(self).agrees(answers) ==> old(self).agrees(answers) && final(self).world(
                    answers,
                ) == old(self).world(answers).react(p, r),
    {
        self.memory.jobs.promise_then_into(p, r);
        proof {
            lemma_same_log(*old(self), *self);
        }
    }

    /// Adds a job.
    pub fn push_job(&mut self, job: Job)
        ensures
            final(self).continues(*old(self)),
            forall|answers: Answers<'a>| #[trigger]
                final(self).agrees(answers) ==> old(self).agrees(answers) && final(self).world(
                    answers,
                ) == old(self).world(answers).push_job(job),
    {
        self.memory.jobs.push(job);
        proof {
            lemma_same_log(*old(self), *self);
        }
    }

    /// Takes the next job out of the queue.
    pub fn drop_job(&mut self)
        ensures
            final(self).continues(*old(self)),
            forall|answers: Answers<'a>| #[trigger]
                final(self).agrees(answers) ==> old(self).agrees(answers) && final(self).world(
                    answers,
                ) == old(self).world(answers).drop_job(),
    {
        let _ = self.memory.jobs.pop();
        proof {
            lemma_same_log(*old(self), *self);
        }
    }

    /// Takes the reasons of the rejections that nothing handles.
    pub fn take_unhandled(&mut self) -> (r: Vec<Value>)
        ensures
            final(self).continues(*old(self)),
            r@ == old(self).job_state().reasons(),
            forall|answers: Answers<'a>| #[trigger]
                final(self).agrees(answers) ==> old(self).agrees(answers) && final(self).world(
                    answers,
                ) == old(self).world(answers).take_unhandled(),
    {
        let r = self.memory.jobs.take_unhandled();
        proof {
            lemma_same_log(*old(self), *self);
        }
        r
    }

    /// How far the promise of an object has come, if it is one.
    pub fn promise_status(&self, p: u64) -> (r: Option<Status>)
        ensures
            r == self.job_state().status(p),
    {
        self.memory.jobs.status(p)
    }

    /// The next job, if one is due.
    pub fn first_job(&self) -> (r: Option<Job>)
        ensures
            r == self.job_state().first_job(),
    {
        if self.memory.jobs.queue.len() == 0 {
            None
        } else {
            Some(self.memory.jobs.queue[0])
        }
    }

    /// Whether resources are to be disposed of.
    pub fn holds_resources(&self) -> (r: bool)
        ensures
            r == frames_hold(self.open_frames()),
    {
        let mut i: usize = 0;
        while i < self.frames.len()
            invariant
                i <= self.frames.len(),
                forall|j: int| 0 <= j < i ==> (#[trigger] self.open_frames()[j]).len() == 0,
            decreases self.frames.len() - i,
        {
            assert(self.open_frames()[i as int] == self.frames@[i as int]@);
            if self.frames[i].len() > 0 {
                return true;
            }
            i = i + 1;
        }
        false
    }

    /// Binds a name to a value that can be assigned to.
    pub fn bind_var(&mut self, name: Name<'a>, value: Value, env: Env)
        ensures
            final(self).continues(*old(self)),
            forall|answers: Answers<'a>| #[trigger]
                final(self).agrees(answers) ==> old(self).agrees(answers) && final(self).world(
                    answers,
                ) == old(self).world(answers).bind_var(name, value, env),
    {
        self.memory.scopes.bind(env, name.text(), value);
        proof {
            lemma_same_log(*old(self), *self);
        }
    }

    /// Initializes a lexical name.
    pub fn init_lexical(&mut self, name: Name<'a>, value: Value, constant: bool, env: Env)
        ensures
            final(self).continues(*old(self)),
            forall|answers: Answers<'a>| #[trigger]
                final(self).agrees(answers) ==> old(self).agrees(answers) && final(self).world(
                    answers,
                ) == old(self).world(answers).init_lexical(name, value, constant, env),
    {
        self.memory.scopes.init_lexical(name.text(), value, constant, env);
        proof {
            lemma_same_log(*old(self), *self);
        }
    }

    /// Binds a name to a value, so that it can be deleted.
    pub fn bind_deletable(&mut self, name: Name<'a>, value: Value, env: Env)
        ensures
            final(self).continues(*old(self)),
            forall|answers: Answers<'a>| #[trigger]
                final(self).agrees(answers) ==> old(self).agrees(answers) && final(self).world(
                    answers,
                ) == old(self).world(answers).bind_deletable(name, value, env),
    {
        self.memory.scopes.bind_deletable(env, name.text(), value);
        proof {
            lemma_same_log(*old(self), *self);
        }
    }

    /// Binds a name to a value that stays.
    pub fn bind_constant(&mut self, name: Name<'a>, value: Value, env: Env)
        ensures
            final(self).continues(*old(self)),
            forall|answers: Answers<'a>| #[trigger]
                final(self).agrees(answers) ==> old(self).agrees(answers) && final(self).world(
                    answers,
                ) == old(self).world(answers).bind_constant(name, value, env),
    {
        self.memory.scopes.bind_local(env, name.text(), value);
        proof {
            lemma_same_log(*old(self), *self);
        }
    }

    /// Gives a binding a value; it is then initialized.
    pub fn store_var(&mut self, env: Env, name: Name<'a>, value: Value)
        ensures
            final(self).continues(*old(self)),
            forall|answers: Answers<'a>| #[trigger]
                final(self).agrees(answers) ==> old(self).agrees(answers) && final(self).world(
                    answers,
                ) == old(self).world(answers).store_var(env, name, value),
    {
        self.memory.scopes.store(env, name.text(), value);
        proof {
            lemma_same_log(*old(self), *self);
        }
    }

    /// Gives a binding a value, initialized or not.
    pub fn set_value(&mut self, env: Env, name: Name<'a>, value: Value)
        ensures
            final(self).continues(*old(self)),
            forall|answers: Answers<'a>| #[trigger]
                final(self).agrees(answers) ==> old(self).agrees(answers) && final(self).world(
                    answers,
                ) == old(self).world(answers).set_value(env, name, value),
    {
        self.memory.scopes.set_value(env, name.text(), value);
        proof {
            lemma_same_log(*old(self), *self);
        }
    }

    /// Marks a binding as initialized.
    pub fn initialize(&mut self, env: Env, name: Name<'a>)
        ensures
            final(self).continues(*old(self)),
            forall|answers: Answers<'a>| #[trigger]
                final(self).agrees(answers) ==> old(self).agrees(answers) && final(self).world(
                    answers,
                ) == old(self).world(answers).initialize(env, name),
    {
        self.memory.scopes.initialize(env, name.text());
        proof {
            lemma_same_log(*old(self), *self);
        }
    }

    /// Takes a binding away.
    pub fn unbind(&mut self, env: Env, name: Name<'a>)
        ensures
            final(self).continues(*old(self)),
            forall|answers: Answers<'a>| #[trigger]
                final(self).agrees(answers) ==> old(self).agrees(answers) && final(self).world(
                    answers,
                ) == old(self).world(answers).unbind(env, name),
    {
        self.memory.scopes.unbind(env, name.text());
        proof {
            lemma_same_log(*old(self), *self);
        }
    }

    /// Binds a class's own name, not yet initialized and never assignable.
    pub fn declare_class(&mut self, name: Name<'a>, env: Env)
        ensures
            final(self).continues(*old(self)),
            forall|answers: Answers<'a>| #[trigger]
                final(self).agrees(answers) ==> old(self).agrees(answers) && final(self).world(
                    answers,
                ) == old(self).world(answers).declare_class(name, env),
    {
        self.memory.scopes.declare_class(env, name.text());
        proof {
            lemma_same_log(*old(self), *self);
        }
    }

    /// Declares the names of a pattern, not yet initialized.
    pub fn declare_pattern(&mut self, pattern: &'a Pattern, env: Env)
        ensures
            final(self).continues(*old(self)),
            forall|answers: Answers<'a>| #[trigger]
                final(self).agrees(answers) ==> old(self).agrees(answers) && final(self).world(
                    answers,
                ) == old(self).world(answers).declare_pattern(pattern, env),
    {
        self.memory.scopes.declare_pattern(pattern, env);
        proof {
            lemma_same_log(*old(self), *self);
        }
    }

    /// Declares the lexical names of a body, not yet initialized.
    pub fn declare_block(&mut self, stmts: &'a Vec<Stmt>, env: Env)
        ensures
            final(self).continues(*old(self)),
            forall|answers: Answers<'a>| #[trigger]
                final(self).agrees(answers) ==> old(self).agrees(answers) && final(self).world(
                    answers,
                ) == old(self).world(answers).declare_block(stmts, env),
    {
        self.memory.scopes.declare_block_lexicals(stmts, env);
        proof {
            lemma_same_log(*old(self), *self);
        }
    }

    /// Declares the lexical names of a statement, not yet initialized.
    pub fn declare_stmt(&mut self, st: &'a Stmt, env: Env)
        ensures
            final(self).continues(*old(self)),
            forall|answers: Answers<'a>| #[trigger]
                final(self).agrees(answers) ==> old(self).agrees(answers) && final(self).world(
                    answers,
                ) == old(self).world(answers).declare_stmt(st, env),
    {
        self.memory.scopes.declare_stmt(st, env);
        proof {
            lemma_same_log(*old(self), *self);
        }
    }

    /// Declares the internal name of a default export that has no value yet.
    pub fn declare_default(&mut self, body: &'a Vec<Stmt>, env: Env)
        ensures
            final(self).continues(*old(self)),
            forall|answers: Answers<'a>| #[trigger]
                final(self).agrees(answers) ==> old(self).agrees(answers) && final(self).world(
                    answers,
                ) == old(self).world(answers).declare_default(body, env),
    {
        self.memory.scopes.declare_default_placeholder(body, env);
        proof {
            lemma_same_log(*old(self), *self);
        }
    }

    /// Copies bindings of a loop head from one scope to another.
    pub fn copy_names(&mut self, from: Env, to: Env, decls: &'a Vec<(Pattern, Option<Expr>)>)
        ensures
            final(self).continues(*old(self)),
            forall|answers: Answers<'a>| #[trigger]
                final(self).agrees(answers) ==> old(self).agrees(answers) && final(self).world(
                    answers,
                ) == old(self).world(answers).copy_names(from, to, decls),
    {
        self.memory.scopes.copy_names(from, to, decls);
        proof {
            lemma_same_log(*old(self), *self);
        }
    }

    /// Takes all bindings of a scope away.
    pub fn empty_scope(&mut self, env: Env)
        ensures
            final(self).continues(*old(self)),
            forall|answers: Answers<'a>| #[trigger]
                final(self).agrees(answers) ==> old(self).agrees(answers) && final(self).world(
                    answers,
                ) == old(self).world(answers).empty_scope(env),
    {
        self.memory.scopes.empty_scope(env);
        proof {
            lemma_same_log(*old(self), *self);
        }
    }

    /// Binds the local name of an import to a binding of another module's scope.
    pub fn bind_import(&mut self, env: Env, local: &'a String, source: Env, name: Name<'a>)
        ensures
            final(self).continues(*old(self)),
            forall|answers: Answers<'a>| #[trigger]
                final(self).agrees(answers) ==> old(self).agrees(answers) && final(self).world(
                    answers,
                ) == old(self).world(answers).bind_import(env, local, source, name),
    {
        self.memory.scopes.bind_import(env, local.as_str(), source, name);
        proof {
            lemma_same_log(*old(self), *self);
        }
    }

    /// Binds the local name of an import to a namespace.
    pub fn bind_namespace(&mut self, env: Env, local: &'a String, value: Value)
        ensures
            final(self).continues(*old(self)),
            forall|answers: Answers<'a>| #[trigger]
                final(self).agrees(answers) ==> old(self).agrees(answers) && final(self).world(
                    answers,
                ) == old(self).world(answers).bind_namespace(env, local, value),
    {
        self.memory.scopes.bind_local(env, local.as_str(), value);
        proof {
            lemma_same_log(*old(self), *self);
        }
    }

    /// Gives a scope the name at a place of another scope, as a binding that can be deleted.
    pub fn bind_declared(&mut self, env: Env, probe: Env, at: usize, value: Value)
        ensures
            final(self).continues(*old(self)),
            forall|answers: Answers<'a>| #[trigger]
                final(self).agrees(answers) ==> old(self).agrees(answers) && final(self).world(
                    answers,
                ) == old(self).world(answers).bind_declared(env, probe, at, value),
    {
        self.memory.scopes.bind_declared(env, probe, at, value);
        proof {
            lemma_same_log(*old(self), *self);
        }
    }

    /// Makes a new scope.
    pub fn new_scope(
        &mut self,
        parent: Option<Env>,
        with_obj: Option<Value>,
        catch_param: bool,
        var_boundary: bool,
    ) -> (env: Env)
        ensures
            final(self).continues(*old(self)),
            forall|answers: Answers<'a>| #[trigger]
                final(self).agrees(answers) ==> old(self).agrees(answers) && env == old(self).world(
                    answers,
                ).next_scope() && final(self).world(answers) == old(self).world(answers).new_scope(
                    parent,
                    with_obj,
                    catch_param,
                    var_boundary,
                ),
    {
        let env = self.memory.scopes.new_scope(parent, with_obj, catch_param, var_boundary);
        proof {
            lemma_same_log(*old(self), *self);
        }
        env
    }

    /// The scopes.
    pub fn scopes(&self) -> (r: &Scopes<'a>)
        ensures
            r@ == self.scope_state(),
    {
        &self.memory.scopes
    }

    /// Adds a string.
    pub fn add_text(&mut self, text: String) -> (r: Value)
        ensures
            final(self).continues(*old(self)),
            forall|answers: Answers<'a>| #[trigger]
                final(self).agrees(answers) ==> old(self).agrees(answers) && r == old(self).world(
                    answers,
                ).next_text() && final(self).world(answers) == old(self).world(answers).add_text(text@),
    {
        let at: u64 = self.memory.texts.len() as u64;
        self.memory.texts.push(text);
        assert(self.text_state() =~= old(self).text_state().push(text@));
        proof {
            lemma_same_log(*old(self), *self);
        }
        Value::Str(at)
    }

    /// The text at a place; empty where there is none.
    pub fn text(&self, at: u64) -> (r: &str)
        ensures
            forall|answers: Answers<'a>| r@ == (#[trigger] self.world(answers)).text(at),
    {
        if at < self.memory.texts.len() as u64 {
            assert(self.text_state()[at as int] == self.memory.texts@[at as int]@);
            self.memory.texts[at as usize].as_str()
        } else {
            proof {
                reveal_strlit("");
                assert(""@ =~= Seq::<char>::empty());
            }
            ""
        }
    }

    /// The text of a value; empty for one that is no string.
    pub fn chars(&self, v: Value) -> (r: &str)
        ensures
            forall|answers: Answers<'a>| r@ == (#[trigger] self.world(answers)).chars(v),
    {
        match v {
            Value::Str(at) => self.text(at),
            _ => {
                proof {
                    reveal_strlit("");
                    assert(""@ =~= Seq::<char>::empty());
                }
                ""
            },
        }
    }

    /// Adds a big integer.
    pub fn add_integer(&mut self, n: JsBigInt) -> (r: Value)
        ensures
            final(self).continues(*old(self)),
            forall|answers: Answers<'a>| #[trigger]
                final(self).agrees(answers) ==> old(self).agrees(answers) && r == old(self).world(
                    answers,
                ).next_integer() && final(self).world(answers) == old(self).world(
                    answers,
                ).add_integer(n@),
    {
        let at: u64 = self.memory.integers.len() as u64;
        self.memory.integers.push(n);
        assert(self.integer_state() =~= old(self).integer_state().push(n@));
        proof {
            lemma_same_log(*old(self), *self);
        }
        Value::BigInt(at)
    }

    /// The integer of a value; zero for one that is no big integer.
    pub fn integer(&self, v: Value) -> (r: JsBigInt)
        ensures
            forall|answers: Answers<'a>| r@ == (#[trigger] self.world(answers)).integer(v),
    {
        match v {
            Value::BigInt(at) => if at < self.memory.integers.len() as u64 {
                assert(self.integer_state()[at as int] == self.memory.integers@[at as int]@);
                self.memory.integers[at as usize].copy()
            } else {
                JsBigInt::zero()
            },
            _ => JsBigInt::zero(),
        }
    }

    /// The text of a key; empty for a symbol.
    pub fn key_text(&self, key: Key<'a>) -> (r: String)
        ensures
            forall|answers: Answers<'a>| r@ == (#[trigger] self.world(answers)).key_chars(key),
    {
        proof {
            reveal_strlit("");
            assert(""@ =~= Seq::<char>::empty());
        }
        match key {
            Key::Source(s) => s.as_str().to_owned(),
            Key::Fixed(s) => s.to_owned(),
            Key::Index(n) => decimal_string(n),
            Key::Made(at) => self.text(at).to_owned(),
            Key::Symbol(_) => "".to_owned(),
            Key::Declared { env, at } => {
                let names = self.memory.scopes.names_in(env);
                if at < names.len() as u64 {
                    assert(texts(names@)[at as int] == names@[at as int]@);
                    names[at as usize].as_str().to_owned()
                } else {
                    "".to_owned()
                }
            },
        }
    }

    /// Whether a key is a text, and this one.
    pub fn key_is(&self, key: Key<'a>, text: &str) -> (r: bool)
        ensures
            forall|answers: Answers<'a>| r == (#[trigger] self.world(answers)).key_is(key, text@),
    {
        match key {
            Key::Symbol(_) => false,
            _ => {
                let t = self.key_text(key);
                same_text(t.as_str(), text)
            },
        }
    }

    /// Whether two keys are one symbol or have one text.
    pub fn same_key(&self, a: Key<'a>, b: Key<'a>) -> (r: bool)
        ensures
            forall|answers: Answers<'a>| r == (#[trigger] self.world(answers)).same_key(a, b),
    {
        match (a, b) {
            (Key::Symbol(x), Key::Symbol(y)) => x == y,
            (Key::Symbol(_), _) | (_, Key::Symbol(_)) => false,
            _ => {
                let x = self.key_text(a);
                let y = self.key_text(b);
                same_text(x.as_str(), y.as_str())
            },
        }
    }

    /// Whether a key is one that a class evaluation has made for a private name.
    pub fn private(&self, key: Key<'a>) -> (r: bool)
        ensures
            forall|answers: Answers<'a>| r == (#[trigger] self.world(answers)).private(key),
    {
        match key {
            Key::Symbol(_) => false,
            _ => {
                let t = self.key_text(key);
                is_made_private(t.as_str())
            },
        }
    }

    /// How many private keys were made.
    pub fn made(&self) -> (r: u64)
        ensures
            r == self.private_count(),
    {
        self.memory.made
    }

    /// Counts a private key.
    pub fn count_made(&mut self)
        ensures
            final(self).continues(*old(self)),
            forall|answers: Answers<'a>| #[trigger]
                final(self).agrees(answers) ==> old(self).agrees(answers) && final(self).world(
                    answers,
                ) == old(self).world(answers).count_made(),
    {
        self.memory.made = bumped(self.memory.made);
        proof {
            lemma_same_log(*old(self), *self);
        }
    }

    /// Adds a list.
    pub fn new_list(&mut self, items: Vec<Value>) -> (r: u64)
        ensures
            final(self).continues(*old(self)),
            forall|answers: Answers<'a>| #[trigger]
                final(self).agrees(answers) ==> old(self).agrees(answers) && r == old(self).world(
                    answers,
                ).next_list() && final(self).world(answers) == old(self).world(answers).new_list(items@),
    {
        let at: u64 = self.lists.len() as u64;
        self.lists.push(items);
        assert(self.list_state() =~= old(self).list_state().push(items@));
        proof {
            lemma_same_log(*old(self), *self);
        }
        at
    }

    /// Adds a list of property names.
    fn new_names(&mut self, names: Vec<OwnName>) -> (r: u64)
        ensures
            final(self).continues(*old(self)),
            forall|answers: Answers<'a>| #[trigger]
                final(self).agrees(answers) ==> old(self).agrees(answers) && r == old(self).world(
                    answers,
                ).next_list() && final(self).world(answers) == old(self).world(answers).new_names(names@),
    {
        let mut values: Vec<Value> = Vec::new();
        let mut kept: Vec<String> = Vec::new();
        std::mem::swap(&mut kept, &mut self.memory.texts);
        let base: usize = kept.len();
        let ghost all = names@;
        let mut names = names;
        let mut turned: Vec<OwnName> = Vec::new();
        while names.len() > 0
            invariant
                turned.len() + names.len() == all.len(),
                forall|i: int| 0 <= i < names.len() ==> #[trigger] names@[i] == all[i],
                forall|i: int|
                    0 <= i < turned.len() ==> #[trigger] turned@[i] == all[all.len() - 1 - i],
            decreases names.len(),
        {
            match names.pop() {
                Some(x) => turned.push(x),
                None => {},
            }
        }
        assert(texts(kept@) =~= old(self).text_state() + name_texts(all, 0));
        while turned.len() > 0
            invariant
                turned.len() <= all.len(),
                forall|i: int|
                    0 <= i < turned.len() ==> #[trigger] turned@[i] == all[all.len() - 1 - i],
                base == old(self).text_state().len(),
                texts(kept@) == old(self).text_state() + name_texts(
                    all,
                    (all.len() - turned.len()) as nat,
                ),
                values@ == name_values(base as nat, all, (all.len() - turned.len()) as nat),
            decreases turned.len(),
        {
            let ghost n = (all.len() - turned.len()) as nat;
            match turned.pop() {
                Some(OwnName::Text(x)) => {
                    assert(all[n as int] == OwnName::Text(x));
                    assert(texts(kept@).len() == kept@.len());
                    values.push(Value::Str(kept.len() as u64));
                    let ghost before = kept@;
                    kept.push(x);
                    assert(texts(kept@) =~= texts(before).push(x@));
                    assert(texts(kept@) =~= old(self).text_state() + name_texts(all, n + 1));
                },
                Some(OwnName::Symbol(h)) => {
                    assert(all[n as int] == OwnName::Symbol(h));
                    values.push(Value::Sym(h));
                },
                None => {},
            }
        }
        let at: u64 = self.lists.len() as u64;
        self.memory.texts = kept;
        self.lists.push(values);
        assert(self.list_state() =~= old(self).list_state().push(values@));
        proof {
            lemma_same_log(*old(self), *self);
        }
        at
    }

    /// The items of a list; none where there is no such list.
    pub fn list(&self, at: u64) -> (r: Vec<Value>)
        ensures
            forall|answers: Answers<'a>| r@ == (#[trigger] self.world(answers)).list(at),
    {
        if at < self.lists.len() as u64 {
            assert(self.list_state()[at as int] == self.lists@[at as int]@);
            copy_values(&self.lists[at as usize])
        } else {
            Vec::new()
        }
    }

    /// Adds an item to a list.
    pub fn push(&mut self, list: u64, v: Value)
        ensures
            final(self).continues(*old(self)),
            forall|answers: Answers<'a>| #[trigger]
                final(self).agrees(answers) ==> old(self).agrees(answers) && final(self).world(
                    answers,
                ) == old(self).world(answers).push(list, v),
    {
        if list < self.lists.len() as u64 {
            let i: usize = list as usize;
            assert(old(self).list_state()[i as int] == self.lists@[i as int]@);
            self.lists[i].push(v);
            assert(self.list_state() =~= old(self).list_state().update(
                i as int,
                old(self).list_state()[i as int].push(v),
            ));
        }
        proof {
            lemma_same_log(*old(self), *self);
        }
    }

    /// Adds items to a list.
    pub fn append(&mut self, list: u64, items: Vec<Value>)
        ensures
            final(self).continues(*old(self)),
            forall|answers: Answers<'a>| #[trigger]
                final(self).agrees(answers) ==> old(self).agrees(answers) && final(self).world(
                    answers,
                ) == old(self).world(answers).append(list, items@),
    {
        if list < self.lists.len() as u64 {
            let i: usize = list as usize;
            assert(old(self).list_state()[i as int] == self.lists@[i as int]@);
            let mut items = items;
            let ghost given = items@;
            self.lists[i].append(&mut items);
            assert(self.list_state() =~= old(self).list_state().update(
                i as int,
                old(self).list_state()[i as int] + given,
            ));
        }
        proof {
            lemma_same_log(*old(self), *self);
        }
    }

    /// Takes the first item out of a list.
    pub fn drop_item(&mut self, list: u64)
        ensures
            final(self).continues(*old(self)),
            forall|answers: Answers<'a>| #[trigger]
                final(self).agrees(answers) ==> old(self).agrees(answers) && final(self).world(
                    answers,
                ) == old(self).world(answers).drop_item(list),
    {
        if list < self.lists.len() as u64 {
            let i: usize = list as usize;
            assert(old(self).list_state()[i as int] == self.lists@[i as int]@);
            if self.lists[i].len() > 0 {
                let _ = self.lists[i].remove(0);
                assert(self.list_state() =~= old(self).list_state().update(
                    i as int,
                    old(self).list_state()[i as int].drop_first(),
                ));
            }
        }
        proof {
            lemma_same_log(*old(self), *self);
        }
    }

    /// Adds a function that is to run later.
    pub fn add_added(&mut self, f: Value)
        ensures
            final(self).continues(*old(self)),
            forall|answers: Answers<'a>| #[trigger]
                final(self).agrees(answers) ==> old(self).agrees(answers) && final(self).world(
                    answers,
                ) == old(self).world(answers).add_added(f),
    {
        self.memory.added.push(f);
        proof {
            lemma_same_log(*old(self), *self);
        }
    }

    /// Moves the functions that a decorator has added to a list.
    pub fn take_added(&mut self, list: u64)
        ensures
            final(self).continues(*old(self)),
            forall|answers: Answers<'a>| #[trigger]
                final(self).agrees(answers) ==> old(self).agrees(answers) && final(self).world(
                    answers,
                ) == old(self).world(answers).take_added(list),
    {
        let mut items: Vec<Value> = Vec::new();
        std::mem::swap(&mut items, &mut self.memory.added);
        assert(self.added_functions() =~= Seq::<Value>::empty());
        if list < self.lists.len() as u64 {
            let i: usize = list as usize;
            assert(old(self).list_state()[i as int] == self.lists@[i as int]@);
            self.lists[i].append(&mut items);
            assert(self.list_state() =~= old(self).list_state().update(
                i as int,
                old(self).list_state()[i as int] + old(self).added_functions(),
            ));
        }
        proof {
            lemma_same_log(*old(self), *self);
        }
    }

    /// Whether a list has an item at a place.
    pub fn has_item(&self, list: u64, at: u64) -> (r: bool)
        ensures
            forall|answers: Answers<'a>| r == (#[trigger] self.world(answers)).has_item(list, at),
    {
        if list < self.lists.len() as u64 {
            assert(self.list_state()[list as int] == self.lists@[list as int]@);
            at < self.lists[list as usize].len() as u64
        } else {
            false
        }
    }

    /// An item of a list; `undefined` where there is none.
    pub fn item(&self, list: u64, at: u64) -> (r: Value)
        ensures
            forall|answers: Answers<'a>| r == (#[trigger] self.world(answers)).item(list, at),
    {
        if list < self.lists.len() as u64 {
            assert(self.list_state()[list as int] == self.lists@[list as int]@);
            if at < self.lists[list as usize].len() as u64 {
                return self.lists[list as usize][at as usize];
            }
        }
        Value::Undefined
    }

    /// Whether a value is a key: the symbol, or a string with its text.
    pub fn value_is_key(&self, v: Value, key: Key<'a>) -> (r: bool)
        ensures
            forall|answers: Answers<'a>| r == (#[trigger] self.world(answers)).value_is_key(v, key),
    {
        match (v, key) {
            (Value::Sym(x), Key::Symbol(y)) => x == y,
            (Value::Str(_), Key::Symbol(_)) => false,
            (Value::Str(at), _) => {
                let t = self.key_text(key);
                same_text(self.text(at), t.as_str())
            },
            _ => false,
        }
    }

    /// Whether a list holds a key.
    pub fn lists_key(&self, list: u64, key: Key<'a>) -> (r: bool)
        ensures
            forall|answers: Answers<'a>| r == (#[trigger] self.world(answers)).lists_key(list, key),
    {
        let items = self.list(list);
        let mut i: usize = 0;
        while i < items.len()
            invariant
                i <= items.len(),
                forall|answers: Answers<'a>| items@ == (#[trigger] self.world(answers)).list(list),
                forall|answers: Answers<'a>, j: int|
                    0 <= j < i ==> !(#[trigger] self.world(answers)).value_is_key(
                        #[trigger] items@[j],
                        key,
                    ),
            decreases items.len() - i,
        {
            if self.value_is_key(items[i], key) {
                assert forall|answers: Answers<'a>| (#[trigger] self.world(answers)).lists_key(
                    list,
                    key,
                ) by {
                    let w = self.world(answers);
                    assert(w.value_is_key(w.list(list)[i as int], key));
                }
                return true;
            }
            i = i + 1;
        }
        false
    }

    /// Begins a class.
    pub fn new_record(&mut self) -> (r: u64)
        ensures
            final(self).continues(*old(self)),
            forall|answers: Answers<'a>| #[trigger]
                final(self).agrees(answers) ==> old(self).agrees(answers) && r == old(self).world(
                    answers,
                ).next_record() && final(self).world(answers) == old(self).world(answers).new_record(),
    {
        let r: u64 = self.drafts.len() as u64;
        let d = Draft { fields: Vec::new(), statics: Vec::new(), privates: Vec::new() };
        assert(d@ == (DraftView {
            fields: Seq::<FieldInit<'a>>::empty(),
            statics: Seq::empty(),
            privates: Seq::empty(),
        }));
        self.drafts.push(d);
        assert(self.draft_state() =~= old(self).draft_state().push(d@));
        proof {
            lemma_same_log(*old(self), *self);
        }
        r
    }

    /// Adds a field to a class.
    pub fn add_field_init(&mut self, record: u64, f: FieldInit<'a>)
        ensures
            final(self).continues(*old(self)),
            forall|answers: Answers<'a>| #[trigger]
                final(self).agrees(answers) ==> old(self).agrees(answers) && final(self).world(
                    answers,
                ) == old(self).world(answers).add_field_init(record, f),
    {
        if record < self.drafts.len() as u64 {
            let i: usize = record as usize;
            let ghost d = self.drafts@[i as int]@;
            assert(old(self).draft_state()[i as int] == d);
            self.drafts[i].fields.push(f);
            assert(self.draft_state() =~= old(self).draft_state().update(
                i as int,
                DraftView { fields: d.fields.push(f), ..d },
            ));
        }
        proof {
            lemma_same_log(*old(self), *self);
        }
    }

    /// Keeps a static field of a class until its turn.
    pub fn add_static(&mut self, record: u64, f: StaticInit<'a>)
        ensures
            final(self).continues(*old(self)),
            forall|answers: Answers<'a>| #[trigger]
                final(self).agrees(answers) ==> old(self).agrees(answers) && final(self).world(
                    answers,
                ) == old(self).world(answers).add_static(record, f),
    {
        if record < self.drafts.len() as u64 {
            let i: usize = record as usize;
            let ghost d = self.drafts@[i as int]@;
            assert(old(self).draft_state()[i as int] == d);
            self.drafts[i].statics.push(f);
            assert(self.draft_state() =~= old(self).draft_state().update(
                i as int,
                DraftView { statics: d.statics.push(f), ..d },
            ));
        }
        proof {
            lemma_same_log(*old(self), *self);
        }
    }

    /// Adds a private method or accessor to a class.
    pub fn add_private(&mut self, record: u64, key: Key<'a>, prop: Property)
        ensures
            final(self).continues(*old(self)),
            forall|answers: Answers<'a>| #[trigger]
                final(self).agrees(answers) ==> old(self).agrees(answers) && final(self).world(
                    answers,
                ) == old(self).world(answers).add_private(record, key, prop),
    {
        if record < self.drafts.len() as u64 {
            let i: usize = record as usize;
            let ghost d = self.drafts@[i as int]@;
            assert(old(self).draft_state()[i as int] == d);
            self.drafts[i].privates.push(PrivateMember { key, prop });
            assert(self.draft_state() =~= old(self).draft_state().update(
                i as int,
                DraftView { privates: d.privates.push(PrivateMember { key, prop }), ..d },
            ));
        }
        proof {
            lemma_same_log(*old(self), *self);
        }
    }

    /// The static field at a place among the members.
    pub fn static_of(&self, record: u64, member: u64) -> (r: Option<StaticInit<'a>>)
        ensures
            forall|answers: Answers<'a>| r == (#[trigger] self.world(answers)).static_of(record, member),
    {
        if record >= self.drafts.len() as u64 {
            return None;
        }
        let i: usize = record as usize;
        assert(self.draft_state()[i as int] == self.drafts@[i as int]@);
        let mut n: usize = self.drafts[i].statics.len();
        let ghost v = self.drafts@[i as int].statics@;
        while n > 0
            invariant
                i < self.drafts.len(),
                v == self.drafts@[i as int].statics@,
                i == record,
                i < self.draft_state().len(),
                self.draft_state()[i as int].statics == v,
                n <= v.len(),
                static_at(v, member, v.len()) == static_at(v, member, n as nat),
            decreases n,
        {
            if self.drafts[i].statics[n - 1].member == member {
                return Some(self.drafts[i].statics[n - 1]);
            }
            n = n - 1;
        }
        None
    }

    /// Gives the first private member with the key the halves of an accessor that there are, or adds one
    /// that has them.
    pub fn merge_private(
        &mut self,
        record: u64,
        key: Key<'a>,
        getter: Option<Value>,
        setter: Option<Value>,
    )
        ensures
            final(self).continues(*old(self)),
            forall|answers: Answers<'a>| #[trigger]
                final(self).agrees(answers) ==> old(self).agrees(answers) && final(self).world(
                    answers,
                ) == old(self).world(answers).merge_private(record, key, getter, setter),
    {
        if record < self.drafts.len() as u64 {
            let r: usize = record as usize;
            let ghost d = self.drafts@[r as int]@;
            assert(self.draft_state()[r as int] == d);
            let mut i: usize = 0;
            while i < self.drafts[r].privates.len() && !self.same_key(
                self.drafts[r].privates[i].key,
                key,
            )
                invariant
                    *self == *old(self),
                    r < self.drafts.len(),
                    d == self.drafts@[r as int]@,
                    i <= d.privates.len(),
                    forall|answers: Answers<'a>|
                        (#[trigger] self.world(answers)).private_place(d.privates, key, 0)
                            == self.world(answers).private_place(d.privates, key, i as nat),
                decreases d.privates.len() - i,
            {
                i = i + 1;
            }
            if i < self.drafts[r].privates.len() {
                let m = self.drafts[r].privates[i];
                let prop = merge_halves(m.prop, getter, setter);
                self.drafts[r].privates[i].prop = prop;
                assert(self.draft_state() =~= old(self).draft_state().update(
                    r as int,
                    DraftView {
                        privates: d.privates.update(i as int, PrivateMember { prop, ..m }),
                        ..d
                    },
                ));
                proof {
                    lemma_same_log(*old(self), *self);
                }
            } else {
                self.add_private(record, key, make_private_accessor(getter, setter));
            }
        } else {
            self.add_private(record, key, make_private_accessor(getter, setter));
        }
    }

    /// Ends the definition of a class: its instances get what it declares.
    pub fn finish_class(
        &mut self,
        record: u64,
        ctor: Value,
        derived: bool,
        env: Env,
        initializers: u64,
    )
        ensures
            final(self).continues(*old(self)),
            forall|answers: Answers<'a>| #[trigger]
                final(self).agrees(answers) ==> old(self).agrees(answers) && final(self).world(
                    answers,
                ) == old(self).world(answers).finish_class(record, ctor, derived, env, initializers),
    {
        let ghost initializers_list = initializers;
        let initializers = self.list(initializers);
        let mut fields: Vec<FieldRecord<'a>> = Vec::new();
        let mut privates: Vec<PrivateMember<'a>> = Vec::new();
        if record < self.drafts.len() as u64 {
            let r: usize = record as usize;
            assert(self.draft_state()[r as int] == self.drafts@[r as int]@);
            let mut i: usize = 0;
            while i < self.drafts[r].fields.len()
                invariant
                    r < self.drafts.len(),
                    i <= self.drafts@[r as int].fields.len(),
                    fields.len() == i,
                    forall|answers: Answers<'a>, j: int|
                        0 <= j < i ==> (#[trigger] fields@[j])@ == (FieldView {
                            key: self.drafts@[r as int].fields@[j].key,
                            init: self.drafts@[r as int].fields@[j].init,
                            transforms: (#[trigger] self.world(answers)).list(
                                self.drafts@[r as int].fields@[j].transforms,
                            ),
                        }),
                decreases self.drafts@[r as int].fields.len() - i,
            {
                let f = self.drafts[r].fields[i];
                let transforms = self.list(f.transforms);
                fields.push(FieldRecord { key: f.key, init: f.init, transforms });
                i = i + 1;
            }
            let mut j: usize = 0;
            while j < self.drafts[r].privates.len()
                invariant
                    r < self.drafts.len(),
                    j <= self.drafts@[r as int].privates.len(),
                    privates@ =~= self.drafts@[r as int].privates@.take(j as int),
                decreases self.drafts@[r as int].privates.len() - j,
            {
                privates.push(self.drafts[r].privates[j]);
                j = j + 1;
            }
            assert(privates@ =~= self.drafts@[r as int].privates@);
        }
        let c = ClassInfo { ctor, derived, env, initializers, fields, privates };
        self.memory.classes.push(c);
        assert(self.class_state() =~= old(self).class_state().push(c@));
        proof {
            lemma_same_log(*old(self), *self);
            assert forall|answers: Answers<'a>| #[trigger] self.agrees(answers) implies self.world(
                answers,
            ) == old(self).world(answers).finish_class(record, ctor, derived, env, initializers_list) by {
                let w = old(self).world(answers);
                assert(self.world(answers).classes =~= w.finish_class(
                    record,
                    ctor,
                    derived,
                    env,
                    initializers_list,
                ).classes) by {
                    assert(c@.fields =~= w.finish_class(
                        record,
                        ctor,
                        derived,
                        env,
                        initializers_list,
                    ).classes.last().fields);
                }
            }
        }
    }

    /// The place of the class with a constructor.
    pub fn class_place(&self, ctor: Value) -> (r: Option<usize>)
        ensures
            r == place_of_class(self.class_state(), ctor, self.class_state().len()),
            r matches Some(i) ==> i < self.class_state().len(),
    {
        if !matches!(ctor, Value::Obj(_)) {
            return None;
        }
        let mut n: usize = self.memory.classes.len();
        while n > 0
            invariant
                ctor is Obj,
                n <= self.memory.classes.len(),
                self.class_state().len() == self.memory.classes.len(),
                place_of_class(self.class_state(), ctor, self.class_state().len())
                    == place_of_class(self.class_state(), ctor, n as nat),
            decreases n,
        {
            assert(self.class_state()[n - 1].ctor == self.memory.classes@[n - 1].ctor);
            if self.memory.classes[n - 1].ctor == ctor {
                return Some(n - 1);
            }
            n = n - 1;
        }
        None
    }

    /// The fields of the class at a place.
    pub fn class_fields(&self, at: usize) -> (r: Vec<FieldRecord<'a>>)
        requires
            at < self.class_state().len(),
        ensures
            field_views(r@) == self.class_state()[at as int].fields,
    {
        let mut out: Vec<FieldRecord<'a>> = Vec::new();
        let mut i: usize = 0;
        while i < self.memory.classes[at].fields.len()
            invariant
                at < self.memory.classes.len(),
                i <= self.memory.classes@[at as int].fields.len(),
                field_views(out@) =~= field_views(self.memory.classes@[at as int].fields@).take(
                    i as int,
                ),
            decreases self.memory.classes@[at as int].fields.len() - i,
        {
            let f = &self.memory.classes[at].fields[i];
            let ghost before = out@;
            let x = FieldRecord { key: f.key, init: f.init, transforms: copy_values(&f.transforms) };
            assert(x@ == f@);
            out.push(x);
            assert(field_views(out@) =~= field_views(before).push(x@));
            i = i + 1;
        }
        assert(field_views(out@) =~= self.class_state()[at as int].fields);
        out
    }

    /// The private methods and accessors of the class at a place.
    pub fn class_privates(&self, at: usize) -> (r: Vec<PrivateMember<'a>>)
        requires
            at < self.class_state().len(),
        ensures
            r@ == self.class_state()[at as int].privates,
    {
        let mut out: Vec<PrivateMember<'a>> = Vec::new();
        let mut i: usize = 0;
        while i < self.memory.classes[at].privates.len()
            invariant
                at < self.memory.classes.len(),
                i <= self.memory.classes@[at as int].privates.len(),
                out@ =~= self.memory.classes@[at as int].privates@.take(i as int),
            decreases self.memory.classes@[at as int].privates.len() - i,
        {
            out.push(self.memory.classes[at].privates[i]);
            i = i + 1;
        }
        assert(out@ =~= self.class_state()[at as int].privates);
        out
    }

    /// What decorators have added to the class at a place.
    pub fn class_initializers(&self, at: usize) -> (r: Vec<Value>)
        requires
            at < self.class_state().len(),
        ensures
            r@ == self.class_state()[at as int].initializers,
    {
        copy_values(&self.memory.classes[at].initializers)
    }

    /// Whether the class at a place is derived.
    pub fn class_derived(&self, at: usize) -> (r: bool)
        requires
            at < self.class_state().len(),
        ensures
            r == self.class_state()[at as int].derived,
    {
        self.memory.classes[at].derived
    }

    /// The scope of the fields of the class at a place.
    pub fn class_env(&self, at: usize) -> (r: Env)
        requires
            at < self.class_state().len(),
        ensures
            r == self.class_state()[at as int].env,
    {
        self.memory.classes[at].env
    }

    /// What the running code may do.
    pub fn flags(&self) -> (r: Flags)
        ensures
            r == self.code_flags(),
    {
        self.memory.flags
    }

    /// Sets what the running code may do.
    pub fn set_flags(&mut self, flags: Flags)
        ensures
            final(self).continues(*old(self)),
            forall|answers: Answers<'a>| #[trigger]
                final(self).agrees(answers) ==> old(self).agrees(answers) && final(self).world(
                    answers,
                ) == old(self).world(answers).set_flags(flags),
    {
        self.memory.flags = flags;
        proof {
            lemma_same_log(*old(self), *self);
        }
    }

    /// Takes what was written to the console.
    pub fn take_console(&mut self) -> (r: Vec<String>)
        ensures
            final(self).continues(*old(self)),
            r@ == old(self).console_lines(),
            final(self).console_lines() == Seq::<String>::empty(),
            forall|answers: Answers<'a>| #[trigger]
                final(self).agrees(answers) ==> old(self).agrees(answers) && final(self).world(
                    answers,
                ) == old(self).world(answers),
    {
        let mut out: Vec<String> = Vec::new();
        out.append(&mut self.memory.console);
        assert(out@ =~= old(self).console_lines());
        proof {
            lemma_same_log(*old(self), *self);
        }
        out
    }

    /// Where the imports of a script are resolved from.
    pub fn script_base(&self) -> (r: Option<&'a String>)
        ensures
            r == self.import_base(),
    {
        self.base
    }

    /// The loader that modules come from.
    pub fn module_loader(&self) -> (r: Option<u64>)
        ensures
            r == self.import_loader(),
    {
        self.loader
    }

    /// Sets the loader that modules come from.
    pub fn set_loader(&mut self, loader: u64)
        ensures
            final(self).after(*old(self)),
            final(self).import_loader() == Some(loader),
            final(self).import_base() == old(self).import_base(),
            final(self).is_strict() == old(self).is_strict(),
            final(self).rounds() == old(self).rounds(),
            forall|answers: Answers<'a>| #[trigger]
                final(self).agrees(answers) ==> old(self).agrees(answers) && final(self).world(
                    answers,
                ) == (World { loader: Some(loader), ..old(self).world(answers) }),
    {
        self.loader = Some(loader);
        proof {
            lemma_same_log(*old(self), *self);
        }
    }

    /// Sets where the imports of a script are resolved from.
    pub fn set_base(&mut self, base: &'a String)
        ensures
            final(self).after(*old(self)),
            final(self).import_base() == Some(base),
            final(self).import_loader() == old(self).import_loader(),
            final(self).is_strict() == old(self).is_strict(),
            final(self).rounds() == old(self).rounds(),
            forall|answers: Answers<'a>| #[trigger]
                final(self).agrees(answers) ==> old(self).agrees(answers) && final(self).world(
                    answers,
                ) == (World { base: Some(base), ..old(self).world(answers) }),
    {
        self.base = Some(base);
        proof {
            lemma_same_log(*old(self), *self);
        }
    }

    /// Opens a disposal frame.
    pub fn push_frame(&mut self)
        ensures
            final(self).continues(*old(self)),
            forall|answers: Answers<'a>| #[trigger]
                final(self).agrees(answers) ==> old(self).agrees(answers) && final(self).world(
                    answers,
                ) == old(self).world(answers).push_frame(),
    {
        self.frames.push(Vec::new());
        assert(self.open_frames() =~= old(self).open_frames().push(Seq::empty()));
        proof {
            lemma_same_log(*old(self), *self);
        }
    }

    /// Closes the innermost disposal frame and returns its resources.
    pub fn pop_frame(&mut self) -> (r: Vec<Disposable>)
        ensures
            final(self).continues(*old(self)),
            forall|answers: Answers<'a>| #[trigger]
                final(self).agrees(answers) ==> old(self).agrees(answers) && r@ == old(self).world(
                    answers,
                ).top_frame() && final(self).world(answers) == old(self).world(answers).pop_frame(),
    {
        let r = match self.frames.pop() {
            Some(f) => {
                assert(old(self).open_frames().last() == f@);
                assert(self.open_frames() =~= old(self).open_frames().drop_last());
                f
            },
            None => {
                assert(self.open_frames() =~= old(self).open_frames());
                Vec::new()
            },
        };
        proof {
            lemma_same_log(*old(self), *self);
        }
        r
    }

    /// Adds a resource to the innermost disposal frame.
    pub fn add_resource(&mut self, d: Disposable)
        ensures
            final(self).continues(*old(self)),
            forall|answers: Answers<'a>| #[trigger]
                final(self).agrees(answers) ==> old(self).agrees(answers) && final(self).world(
                    answers,
                ) == old(self).world(answers).add_resource(d),
    {
        match self.frames.pop() {
            Some(top) => {
                let mut top = top;
                assert(old(self).open_frames().last() == top@);
                top.push(d);
                self.frames.push(top);
                assert(self.open_frames() =~= old(self).open_frames().drop_last().push(
                    old(self).open_frames().last().push(d),
                ));
            },
            None => {
                let mut top: Vec<Disposable> = Vec::new();
                top.push(d);
                assert(top@ =~= seq![d]);
                self.frames.push(top);
                assert(self.open_frames() =~= seq![seq![d]]);
            },
        }
        proof {
            lemma_same_log(*old(self), *self);
        }
    }
}

/// A copy of values.
pub fn copy_values(v: &Vec<Value>) -> (r: Vec<Value>)
    ensures
        r@ == v@,
{
    let mut out: Vec<Value> = Vec::new();
    let mut i: usize = 0;
    while i < v.len()
        invariant
            i <= v.len(),
            out@ =~= v@.take(i as int),
        decreases v.len() - i,
    {
        out.push(v[i]);
        i = i + 1;
    }
    assert(out@ =~= v@);
    out
}

/// Sessions with one log agree with the same answers.
proof fn lemma_same_log<'h, 'a, H: Host<'a>>(a: Session<'h, 'a, H>, b: Session<'h, 'a, H>)
    requires
        a.log() == b.log(),
    ensures
        b.after(a),
        forall|answers: Answers<'a>| #[trigger] b.agrees(answers) ==> a.agrees(answers),
{
    assert forall|answers: Answers<'a>| #[trigger] b.agrees(answers) implies a.agrees(answers) by {
        assert forall|i: int| 0 <= i < a.log().len() implies (#[trigger] a.log()[i]).1 == answers(
            i as nat,
        ) by {
            assert(b.log()[i] == a.log()[i]);
        }
    }
}

} // verus!
