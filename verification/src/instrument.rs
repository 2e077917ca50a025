//! The decisions of the source instrumenter: which functions are
//! asynchronous, which calls get wrapped and under which name, and in what
//! context each expression stands.
//!
//! The syntax tree itself belongs to the parser; what these decisions read
//! of it is held here as plain values.

use vstd::prelude::*;
use crate::text::same_text;

verus! {

/// The identifier the instrumented code calls the runtime through.
pub open spec fn checkpoint_ident() -> Seq<char> {
    "__checkpoint__"@
}

/// Where an expression stands in the expression or statement around it.
#[derive(Clone, Copy, Debug, PartialEq, Eq, Structural)]
pub enum ExprContext {
    TernaryCondition,
    TernaryConsequent,
    TernaryAlternate,
    LogicalAndLeft,
    LogicalAndRight,
    LogicalOrLeft,
    LogicalOrRight,
    NullishLeft,
    NullishRight,
    BinaryLeft,
    BinaryRight,
    UnaryOperand,
    UpdateOperand,
    AssignRight,
    IfCondition,
    WhileCondition,
    ForCondition,
    ForUpdate,
    ArrayElement(usize),
    ObjectValue,
    ObjectSpread,
    SequenceItem(usize),
    YieldValue,
    AwaitValue,
    TaggedTemplate,
    Parenthesized,
    FunctionCall,
    NewExpression,
    Root,
}

/// The operators a binary expression is told apart by.
#[derive(Clone, Copy, Debug, PartialEq, Eq, Structural)]
pub enum BinaryKind {
    LogicalAnd,
    LogicalOr,
    NullishCoalescing,
    /// Any other binary operator.
    Other,
}

/// The contexts of the left and right operand of a binary expression.
pub open spec fn operand_contexts_of(op: BinaryKind) -> (ExprContext, ExprContext) {
    match op {
        BinaryKind::LogicalAnd => (ExprContext::LogicalAndLeft, ExprContext::LogicalAndRight),
        BinaryKind::LogicalOr => (ExprContext::LogicalOrLeft, ExprContext::LogicalOrRight),
        BinaryKind::NullishCoalescing => (ExprContext::NullishLeft, ExprContext::NullishRight),
        BinaryKind::Other => (ExprContext::BinaryLeft, ExprContext::BinaryRight),
    }
}

/// The contexts of the left and right operand of a binary expression.
pub fn operand_contexts(op: BinaryKind) -> (c: (ExprContext, ExprContext))
    ensures
        c == operand_contexts_of(op),
{
    match op {
        BinaryKind::LogicalAnd => (ExprContext::LogicalAndLeft, ExprContext::LogicalAndRight),
        BinaryKind::LogicalOr => (ExprContext::LogicalOrLeft, ExprContext::LogicalOrRight),
        BinaryKind::NullishCoalescing => (ExprContext::NullishLeft, ExprContext::NullishRight),
        BinaryKind::Other => (ExprContext::BinaryLeft, ExprContext::BinaryRight),
    }
}

/// Why a source could not be instrumented.
#[derive(Debug)]
pub enum TransformError {
    ParseError(String),
    TransformError(String),
    CodegenError(String),
}

// ---------------------------------------------------------------------------
// Asynchronous functions
// ---------------------------------------------------------------------------

/// The initializer of a variable declaration, as far as it matters.
#[derive(Clone, Copy, Debug, PartialEq, Eq, Structural)]
pub enum Initializer {
    AsyncArrow,
    AsyncFunction,
    /// Anything else, or none.
    Other,
}

/// The names of the asynchronous functions declared in a program: function
/// declarations and named function expressions marked `async`, and
/// variables initialized with an `async` arrow or function. No name occurs
/// twice.
#[derive(Debug)]
pub struct AsyncCollector {
    async_functions: Vec<String>,
}

pub open spec fn distinct_texts(names: Seq<String>) -> bool {
    forall|i: int, j: int| 0 <= i < j < names.len() ==> names[i]@ != names[j]@
}

impl AsyncCollector {
    /// The set of names collected.
    pub closed spec fn names(&self) -> Set<Seq<char>> {
        Set::new(|n: Seq<char>| exists|i: int| 0 <= i < self.async_functions@.len() && #[trigger] self.async_functions@[i]@ == n)
    }

    pub closed spec fn wf(&self) -> bool {
        distinct_texts(self.async_functions@)
    }

    /// No function collected yet.
    pub fn new() -> (c: Self)
        ensures
            c.wf(),
            c.names() == Set::<Seq<char>>::empty(),
    {
        let c = AsyncCollector { async_functions: Vec::new() };
        assert(c.names() =~= Set::<Seq<char>>::empty());
        c
    }

    /// Whether `name` was collected.
    pub fn contains(&self, name: &str) -> (r: bool)
        ensures
            r == self.names().contains(name@),
    {
        let mut i: usize = 0;
        while i < self.async_functions.len()
            invariant
                i <= self.async_functions@.len(),
                forall|k: int| 0 <= k < i ==> self.async_functions@[k]@ != name@,
            decreases self.async_functions.len() - i,
        {
            if same_text(self.async_functions[i].as_str(), name) {
                assert(self.names().contains(name@));
                return true;
            }
            i += 1;
        }
        false
    }

    /// Adds `name`, unless it is there already.
    fn insert(&mut self, name: &str)
        requires
            old(self).wf(),
        ensures
            final(self).wf(),
            final(self).names() == old(self).names().insert(name@),
    {
        if !self.contains(name) {
            let ghost before = self.async_functions@;
            self.async_functions.push(String::from_str(name));
            proof {
                assert forall|i: int, j: int| 0 <= i < j < self.async_functions@.len() implies
                    self.async_functions@[i]@ != self.async_functions@[j]@ by {
                    if j == before.len() {
                        assert(self.async_functions@[i] == before[i]);
                        if before[i]@ == name@ {
                            assert(old(self).names().contains(name@));
                        }
                    }
                }
                assert forall|n: Seq<char>| self.names().contains(n) <==> old(self).names().insert(name@).contains(n) by {
                    if self.names().contains(n) {
                        let k = choose|k: int| 0 <= k < self.async_functions@.len() && #[trigger] self.async_functions@[k]@ == n;
                        if k < before.len() {
                            assert(before[k]@ == n);
                        }
                    }
                    if old(self).names().contains(n) {
                        let k = choose|k: int| 0 <= k < before.len() && #[trigger] before[k]@ == n;
                        assert(self.async_functions@[k]@ == n);
                    }
                    if n == name@ {
                        assert(self.async_functions@[before.len() as int]@ == n);
                    }
                }
                assert(self.names() =~= old(self).names().insert(name@));
            }
        } else {
            assert(old(self).names().insert(name@) =~= old(self).names());
        }
    }

    /// A function declaration or expression was met: its name, if it has
    /// one, is collected when it is `async`.
    pub fn record_function(&mut self, name: Option<&str>, is_async: bool)
        requires
            old(self).wf(),
        ensures
            final(self).wf(),
            final(self).names() == match name {
                Some(n) if is_async => old(self).names().insert(n@),
                _ => old(self).names(),
            },
    {
        if is_async {
            if let Some(n) = name {
                self.insert(n);
            }
        }
    }

    /// A variable declaration was met: a plain name initialized with an
    /// `async` arrow or function is collected.
    pub fn record_declarator(&mut self, name: Option<&str>, init: Initializer)
        requires
            old(self).wf(),
        ensures
            final(self).wf(),
            final(self).names() == match name {
                Some(n) if init != Initializer::Other => old(self).names().insert(n@),
                _ => old(self).names(),
            },
    {
        if init != Initializer::Other {
            if let Some(n) = name {
                self.insert(n);
            }
        }
    }
}

// ---------------------------------------------------------------------------
// Calls
// ---------------------------------------------------------------------------

/// The object of a member expression.
#[derive(Debug)]
pub enum MemberObject {
    Ident(String),
    Member(Box<MemberChain>),
    This,
    Call,
    /// A `new` expression, such as `new Foo()`.
    New,
    /// Any other expression.
    Other,
}

/// The property of a member expression.
#[derive(Debug)]
pub enum MemberProperty {
    Ident(String),
    Computed,
    /// A private name.
    Other,
}

/// A member expression `obj.prop`, as far as the instrumenter reads it.
#[derive(Debug)]
pub struct MemberChain {
    pub obj: MemberObject,
    pub prop: MemberProperty,
}

/// What a call calls.
#[derive(Debug)]
pub enum Callee {
    Ident(String),
    Member(MemberChain),
    /// `super`, an import, or another expression.
    Other,
}

/// The chain's objects lead to a call or a construction: `a().b`,
/// `a().b.c`, `new Foo().bar`.
pub open spec fn method_chaining(m: MemberChain) -> bool
    decreases m,
{
    match m.obj {
        MemberObject::Call => true,
        MemberObject::New => true,
        MemberObject::Member(inner) => method_chaining(*inner),
        _ => false,
    }
}

/// The chain starts at the runtime's own identifier.
pub open spec fn checkpoint_reference(m: MemberChain) -> bool
    decreases m,
{
    match m.obj {
        MemberObject::Ident(name) => name@ == checkpoint_ident(),
        MemberObject::Member(inner) => checkpoint_reference(*inner),
        _ => false,
    }
}

/// Calls through such a member expression are left alone: calls on the
/// runtime, chained method calls, and computed accesses.
pub open spec fn skipped_member(m: MemberChain) -> bool {
    checkpoint_reference(m) || method_chaining(m) || m.prop is Computed
}

/// The name a member expression is recorded under: object and property
/// joined by a dot, `this` for `this`, `computed` for a computed property,
/// `unknown` for anything else.
pub open spec fn member_name_of(m: MemberChain) -> Seq<char>
    decreases m,
{
    let obj = match m.obj {
        MemberObject::Ident(name) => name@,
        MemberObject::Member(inner) => member_name_of(*inner),
        MemberObject::This => "this"@,
        _ => "unknown"@,
    };
    let prop = match m.prop {
        MemberProperty::Ident(name) => name@,
        MemberProperty::Computed => "computed"@,
        MemberProperty::Other => "unknown"@,
    };
    obj.push('.') + prop
}

impl MemberChain {
    /// Whether the chain's objects lead to a call or a construction.
    pub fn is_method_chaining(&self) -> (r: bool)
        ensures
            r == method_chaining(*self),
        decreases *self,
    {
        match &self.obj {
            MemberObject::Call => true,
            MemberObject::New => true,
            MemberObject::Member(inner) => inner.is_method_chaining(),
            _ => false,
        }
    }

    /// Whether the chain starts at the runtime's identifier.
    pub fn is_checkpoint_reference(&self) -> (r: bool)
        ensures
            r == checkpoint_reference(*self),
        decreases *self,
    {
        match &self.obj {
            MemberObject::Ident(name) => same_text(name.as_str(), "__checkpoint__"),
            MemberObject::Member(inner) => inner.is_checkpoint_reference(),
            _ => false,
        }
    }

    /// Whether the property is computed (`a[b]`).
    pub fn is_complex_computed_access(&self) -> (r: bool)
        ensures
            r == (self.prop is Computed),
    {
        match self.prop {
            MemberProperty::Computed => true,
            _ => false,
        }
    }

    /// Whether calls through this member expression are left alone.
    pub fn should_skip_transformation(&self) -> (r: bool)
        ensures
            r == skipped_member(*self),
    {
        self.is_checkpoint_reference() || self.is_method_chaining() || self.is_complex_computed_access()
    }

    /// The name calls through this member expression are recorded under.
    pub fn member_name(&self) -> (s: String)
        ensures
            s@ == member_name_of(*self),
        decreases *self,
    {
        let mut s = match &self.obj {
            MemberObject::Ident(name) => name.clone(),
            MemberObject::Member(inner) => inner.member_name(),
            MemberObject::This => String::from_str("this"),
            _ => String::from_str("unknown"),
        };
        s.append(".");
        match &self.prop {
            MemberProperty::Ident(name) => s.append(name.as_str()),
            MemberProperty::Computed => s.append("computed"),
            MemberProperty::Other => s.append("unknown"),
        }
        proof {
            reveal_strlit(".");
        }
        s
    }
}

/// The call a call expression is turned into.
#[derive(Debug)]
pub struct CallPlan {
    /// The name the runtime is told the call has.
    pub name: String,
    /// Whether the member's object is passed along as the call's `this`.
    pub with_context: bool,
    /// Whether the callee is asynchronous: the call goes through
    /// `executeAsync` rather than `execute`.
    pub is_async: bool,
}

/// What a call is recorded under, and whether it has a `this` to pass:
/// a plain function by its name; a method by its member name, with its
/// object; calls the instrumenter leaves alone, none.
pub open spec fn call_target_of(c: Callee) -> Option<(Seq<char>, bool)> {
    match c {
        Callee::Ident(name) => Some((name@, false)),
        Callee::Member(m) => if skipped_member(m) { None } else { Some((member_name_of(m), true)) },
        Callee::Other => None,
    }
}

/// What a call is recorded under, and whether its object is passed along.
pub fn call_target(callee: &Callee) -> (t: Option<(String, bool)>)
    ensures
        match t {
            Some((n, ctx)) => call_target_of(*callee) == Some((n@, ctx)),
            None => call_target_of(*callee) is None,
        },
{
    match callee {
        Callee::Ident(name) => Some((name.clone(), false)),
        Callee::Member(m) => {
            if m.should_skip_transformation() {
                None
            } else {
                Some((m.member_name(), true))
            }
        },
        Callee::Other => None,
    }
}

/// How a call is wrapped: a call the analysis saw and that calls a
/// function by a recorded name goes through the runtime, asynchronously
/// when that name is one of the asynchronous functions.
pub fn plan_call(callee: &Callee, analysed: bool, collector: &AsyncCollector) -> (p: Option<CallPlan>)
    ensures
        !analysed ==> p is None,
        analysed ==> match call_target_of(*callee) {
            None => p is None,
            Some((name, ctx)) => p matches Some(plan) && plan.name@ == name && plan.with_context == ctx
                && plan.is_async == collector.names().contains(name),
        },
{
    if !analysed {
        return None;
    }
    match call_target(callee) {
        Some((name, ctx)) => {
            let is_async = collector.contains(name.as_str());
            Some(CallPlan { name, with_context: ctx, is_async })
        },
        None => None,
    }
}

/// The runtime method a wrapped call goes through.
pub fn wrapper_method(is_async: bool) -> (m: &'static str)
    ensures
        m@ == (if is_async { "executeAsync"@ } else { "execute"@ }),
{
    if is_async { "executeAsync" } else { "execute" }
}

// ---------------------------------------------------------------------------
// Syntax
// ---------------------------------------------------------------------------

/// Whether `s` ends with `suffix`.
pub open spec fn ends_with(s: Seq<char>, suffix: Seq<char>) -> bool {
    suffix.len() <= s.len() && s.subrange(s.len() - suffix.len(), s.len() as int) == suffix
}

/// Whether `path` ends with `suffix`, as `str::ends_with` answers.
pub fn text_ends_with(path: &str, suffix: &str) -> (r: bool)
    ensures
        r == ends_with(path@, suffix@),
{
    let n = path.unicode_len();
    let m = suffix.unicode_len();
    if m > n {
        return false;
    }
    let tail = path.substring_char(n - m, n);
    let r = same_text(tail, suffix);
    r
}

/// Whether a file is parsed as TypeScript (and its types stripped): its
/// path ends in `.ts` or `.tsx`; other files are parsed as JavaScript.
pub fn is_typescript(file_path: &str) -> (r: bool)
    ensures
        r == (ends_with(file_path@, ".ts"@) || ends_with(file_path@, ".tsx"@)),
{
    text_ends_with(file_path, ".ts") || text_ends_with(file_path, ".tsx")
}

/// Method chains (`foo().bar()`, `new Foo().bar()`), calls of what a call returns (curried
/// and factory calls such as `chalk.hex("#c")("text")`) and calls of any
/// other expression (an IIFE such as `(() => fn)()`) are never
/// instrumented; neither is a call through the runtime itself.
pub proof fn law_chains_are_not_instrumented(callee: Callee)
    ensures
        callee matches Callee::Member(m) && method_chaining(m) ==> call_target_of(callee) is None,
        callee matches Callee::Member(m) && checkpoint_reference(m) ==> call_target_of(callee) is None,
        callee is Other ==> call_target_of(callee) is None,
{
}

/// A member call is recorded under the whole path to its method: the
/// object's name, a dot, and the property's name. `console.log(..)` is
/// `console.log`, `this.db.query(..)` is `this.db.query`; the name always
/// ends with a dot and the property.
pub proof fn law_member_name_is_object_dot_property(m: MemberChain)
    ensures
        m.prop matches MemberProperty::Ident(p) ==> (m.obj matches MemberObject::Ident(x)
            ==> member_name_of(m) == x@ + seq!['.'] + p@),
        m.prop matches MemberProperty::Ident(p) ==> (m.obj is This
            ==> member_name_of(m) == seq!['t', 'h', 'i', 's', '.'] + p@),
        m.prop matches MemberProperty::Ident(p) ==> (m.obj matches MemberObject::Member(inner)
            ==> member_name_of(m) == member_name_of(*inner) + seq!['.'] + p@),
        m.prop matches MemberProperty::Ident(p) ==> {
            let n = member_name_of(m);
            &&& n.len() > p@.len()
            &&& n.subrange(n.len() - p@.len(), n.len() as int) == p@
            &&& n[n.len() - p@.len() - 1] == '.'
        },
{
    reveal_strlit("this");
    let obj = match m.obj {
        MemberObject::Ident(name) => name@,
        MemberObject::Member(inner) => member_name_of(*inner),
        MemberObject::This => "this"@,
        _ => "unknown"@,
    };
    let prop = match m.prop {
        MemberProperty::Ident(name) => name@,
        MemberProperty::Computed => "computed"@,
        MemberProperty::Other => "unknown"@,
    };
    assert(member_name_of(m) == obj.push('.') + prop);
    assert(obj.push('.') + prop =~= obj + seq!['.'] + prop);
    if let MemberProperty::Ident(p) = m.prop {
        let n = member_name_of(m);
        assert(n == obj.push('.') + p@);
        assert(n.subrange(n.len() - p@.len(), n.len() as int) =~= p@);
        assert(n[n.len() - p@.len() - 1] == obj.push('.')[obj.len() as int]);
    }
    assert(obj.push('.') =~= obj + seq!['.']);
    if m.obj is This {
        assert("this"@ + seq!['.'] =~= seq!['t', 'h', 'i', 's', '.']);
    }
}

/// An analysed call `x.p(..)` on an identifier other than the runtime's own
/// is instrumented under the name `x.p`, passing its object along.
pub proof fn law_method_call_recorded_as_object_dot_method(x: String, p: String)
    requires
        x@ != checkpoint_ident(),
    ensures
        call_target_of(Callee::Member(MemberChain { obj: MemberObject::Ident(x), prop: MemberProperty::Ident(p) }))
            == Some((x@ + seq!['.'] + p@, true)),
{
    let m = MemberChain { obj: MemberObject::Ident(x), prop: MemberProperty::Ident(p) };
    law_member_name_is_object_dot_property(m);
    assert(!skipped_member(m));
}

} // verus!
