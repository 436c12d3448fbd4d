//! Constant folding for the small expression language of the query layer.
//!
//! An expression is a constant, a named parameter, or an operator applied
//! to subexpressions.  The evaluator folds every expression to a constant,
//! resolving parameters against its environment.  `null` propagates
//! through arithmetic and comparisons; `&&` and `||` short-circuit, with
//! three-valued treatment of `null`; integer arithmetic is exact, and an
//! operation whose result does not fit — or a division by zero — is
//! reported as an error rather than wrapped.

use vstd::prelude::*;
use vstd::string::StringExecFns;

use crate::db::DbBuilder;
use crate::db::TransactionDb;
use crate::status::RocksDBStatusError;

verus! {

/// A constant of the expression language.
#[derive(Debug)]
pub enum Value {
    Null,
    Bool(bool),
    Int(i64),
    Text(String),
}

/// The mathematical value of a [`Value`].
pub enum ValueV {
    Null,
    Bool(bool),
    Int(i64),
    Text(Seq<char>),
}

impl DeepView for Value {
    type V = ValueV;

    open spec fn deep_view(&self) -> ValueV {
        match self {
            Value::Null => ValueV::Null,
            Value::Bool(b) => ValueV::Bool(*b),
            Value::Int(i) => ValueV::Int(*i),
            Value::Text(s) => ValueV::Text(s@),
        }
    }
}

impl Value {
    /// An owned copy of this constant.
    pub fn duplicate(&self) -> (r: Value)
        ensures
            r.deep_view() == self.deep_view(),
    {
        match self {
            Value::Null => Value::Null,
            Value::Bool(b) => Value::Bool(*b),
            Value::Int(i) => Value::Int(*i),
            Value::Text(s) => Value::Text(s.clone()),
        }
    }

    /// Whether two constants are the same value.
    pub fn same_value(&self, other: &Value) -> (r: bool)
        ensures
            r == (self.deep_view() == other.deep_view()),
    {
        match self {
            Value::Null => match other {
                Value::Null => true,
                _ => false,
            },
            Value::Bool(a) => match other {
                Value::Bool(b) => *a == *b,
                _ => false,
            },
            Value::Int(a) => match other {
                Value::Int(b) => *a == *b,
                _ => false,
            },
            Value::Text(a) => match other {
                Value::Text(b) => *a == *b,
                _ => false,
            },
        }
    }
}

/// The operators of the expression language.
#[derive(Clone, Copy, Debug, PartialEq, Eq, Structural)]
pub enum Op {
    Add,
    Sub,
    Mul,
    Div,
    Mod,
    Pow,
    Eq,
    Neq,
    Gt,
    Lt,
    Ge,
    Le,
    Neg,
    Minus,
    Or,
    And,
    Coalesce,
    IsNull,
    NotNull,
    Call,
}

/// Why an expression failed to evaluate.
#[derive(Clone, Copy, Debug, PartialEq, Eq, Structural)]
pub enum EvalError {
    /// A named parameter is not bound in the environment.
    UndefinedParam,
    /// An operator was applied to values of the wrong kind.
    TypeError,
    /// Integer arithmetic left the representable range, or divided by
    /// zero.
    ArithError,
}

/// An expression: a constant, a named parameter, or an operator applied
/// to subexpressions.
#[derive(Debug)]
pub enum Expr {
    Const(Value),
    Apply(Op, Vec<Expr>),
    Ident(String),
}

/// The mathematical value of an [`Expr`].
pub enum ExprV {
    Const(ValueV),
    Apply(Op, Seq<ExprV>),
    Ident(Seq<char>),
}

/// The mathematical value of an expression.
pub open spec fn view_expr(e: Expr) -> ExprV
    decreases e,
{
    match e {
        Expr::Const(v) => ExprV::Const(v.deep_view()),
        Expr::Apply(op, args) => ExprV::Apply(op, expr_views(args@)),
        Expr::Ident(s) => ExprV::Ident(s@),
    }
}

/// The mathematical values of a run of expressions.
pub open spec fn expr_views(s: Seq<Expr>) -> Seq<ExprV>
    decreases s,
{
    Seq::new(
        s.len(),
        |i: int|
            if 0 <= i < s.len() {
                view_expr(s[i])
            } else {
                ExprV::Const(ValueV::Null)
            },
    )
}

impl DeepView for Expr {
    type V = ExprV;

    open spec fn deep_view(&self) -> ExprV {
        view_expr(*self)
    }
}

/// Whether `op` takes exactly one argument.
pub open spec fn is_unary(op: Op) -> bool {
    op == Op::Neg || op == Op::Minus || op == Op::IsNull || op == Op::NotNull
}

/// Whether `op` takes exactly two arguments.
pub open spec fn is_binary(op: Op) -> bool {
    op == Op::Add || op == Op::Sub || op == Op::Mul || op == Op::Div || op == Op::Mod || op
        == Op::Pow || op == Op::Eq || op == Op::Neq || op == Op::Gt || op == Op::Lt || op == Op::Ge
        || op == Op::Le || op == Op::Coalesce
}

/// A well-formed expression: every operator has its arity's worth of
/// arguments, and the unimplemented call operator does not occur.
pub open spec fn wf_expr(e: ExprV) -> bool
    decreases e,
{
    match e {
        ExprV::Const(_) => true,
        ExprV::Ident(_) => true,
        ExprV::Apply(op, args) => {
            &&& op != Op::Call
            &&& (is_unary(op) ==> args.len() == 1)
            &&& (is_binary(op) ==> args.len() == 2)
            &&& (forall|i: int| 0 <= i < args.len() ==> wf_expr(#[trigger] args[i]))
        },
    }
}

/// One binding of a named parameter to a constant.
pub struct Binding {
    pub name: String,
    pub value: Value,
}

/// The mathematical value of a [`Binding`].
pub struct BindingV {
    pub name: Seq<char>,
    pub value: ValueV,
}

impl DeepView for Binding {
    type V = BindingV;

    open spec fn deep_view(&self) -> BindingV {
        BindingV { name: self.name@, value: self.value.deep_view() }
    }
}

/// The value bound to `name`, the most recent binding winning.
pub open spec fn lookup_env(env: Seq<BindingV>, name: Seq<char>) -> Option<ValueV>
    decreases env.len(),
{
    if env.len() == 0 {
        None
    } else if env.last().name == name {
        Some(env.last().value)
    } else {
        lookup_env(env.drop_last(), name)
    }
}

/// The evaluator's environment: named parameters and their values.
pub struct StructuredEnv {
    pub bindings: Vec<Binding>,
}

impl StructuredEnv {
    /// An empty environment.
    pub fn new() -> (r: StructuredEnv)
        ensures
            r.bindings.deep_view() == Seq::<BindingV>::empty(),
    {
        let r = StructuredEnv { bindings: Vec::new() };
        proof {
            assert(r.bindings.deep_view() =~= Seq::<BindingV>::empty());
        }
        r
    }

    /// Binds `name` to `value`, shadowing any earlier binding of the name.
    pub fn bind(&mut self, name: &str, value: Value)
        ensures
            final(self).bindings.deep_view() == old(self).bindings.deep_view().push(
                BindingV { name: name@, value: value.deep_view() },
            ),
    {
        let ghost v = value.deep_view();
        self.bindings.push(Binding { name: name.to_owned(), value });
        proof {
            assert(self.bindings.deep_view() =~= old(self).bindings.deep_view().push(
                BindingV { name: name@, value: v },
            ));
        }
    }

    /// The value bound to `name`, if any.
    pub fn resolve(&self, name: &str) -> (r: Option<Value>)
        ensures
            ({
                let s = lookup_env(self.bindings.deep_view(), name@);
                &&& (r is Some) == (s is Some)
                &&& (r matches Some(v) ==> s == Some(v.deep_view()))
            }),
    {
        let ghost env = self.bindings.deep_view();
        let sought = name.to_owned();
        let mut i: usize = self.bindings.len();
        proof {
            assert(env.subrange(0, i as int) =~= env);
        }
        while i > 0
            invariant
                i <= env.len(),
                env == self.bindings.deep_view(),
                sought@ == name@,
                lookup_env(env, name@) == lookup_env(env.subrange(0, i as int), name@),
            decreases i,
        {
            i = i - 1;
            proof {
                assert(env.subrange(0, i + 1).last() == env[i as int]);
                assert(env.subrange(0, i + 1).drop_last() =~= env.subrange(0, i as int));
            }
            if self.bindings[i].name == sought {
                return Some(self.bindings[i].value.duplicate());
            }
        }
        proof {
            assert(env.subrange(0, 0) =~= Seq::<BindingV>::empty());
        }
        None
    }
}

/// What one unary operator yields on a folded argument.  The `null`
/// tests answer on `null` itself; negation propagates it.
pub open spec fn apply_unary(op: Op, a: ValueV) -> Result<ValueV, EvalError> {
    match op {
        Op::IsNull => Ok(ValueV::Bool(a is Null)),
        Op::NotNull => Ok(ValueV::Bool(!(a is Null))),
        Op::Neg => match a {
            ValueV::Null => Ok(ValueV::Null),
            ValueV::Bool(b) => Ok(ValueV::Bool(!b)),
            _ => Err(EvalError::TypeError),
        },
        Op::Minus => match a {
            ValueV::Null => Ok(ValueV::Null),
            ValueV::Int(i) => match 0i64.checked_sub(i) {
                Some(n) => Ok(ValueV::Int(n)),
                None => Err(EvalError::ArithError),
            },
            _ => Err(EvalError::TypeError),
        },
        _ => Err(EvalError::TypeError),
    }
}

/// `base` raised to `exp`, when every intermediate product fits in an
/// `i64`.
pub open spec fn pow_checked(base: i64, exp: nat) -> Option<i64>
    decreases exp,
{
    if exp == 0 {
        Some(1i64)
    } else {
        match pow_checked(base, (exp - 1) as nat) {
            Some(p) => p.checked_mul(base),
            None => None,
        }
    }
}

/// What one binary operator yields on folded arguments.  `null` on either
/// side yields `null`, except for coalesce, which picks the first
/// non-`null` argument.
pub open spec fn apply_binary(op: Op, a: ValueV, b: ValueV) -> Result<ValueV, EvalError> {
    if op == Op::Coalesce {
        match a {
            ValueV::Null => Ok(b),
            _ => Ok(a),
        }
    } else if a is Null || b is Null {
        Ok(ValueV::Null)
    } else {
        match op {
            Op::Eq => Ok(ValueV::Bool(a == b)),
            Op::Neq => Ok(ValueV::Bool(a != b)),
            Op::Add => match (a, b) {
                (ValueV::Int(x), ValueV::Int(y)) => match x.checked_add(y) {
                    Some(n) => Ok(ValueV::Int(n)),
                    None => Err(EvalError::ArithError),
                },
                (ValueV::Text(x), ValueV::Text(y)) => Ok(ValueV::Text(x + y)),
                _ => Err(EvalError::TypeError),
            },
            Op::Sub => match (a, b) {
                (ValueV::Int(x), ValueV::Int(y)) => match x.checked_sub(y) {
                    Some(n) => Ok(ValueV::Int(n)),
                    None => Err(EvalError::ArithError),
                },
                _ => Err(EvalError::TypeError),
            },
            Op::Mul => match (a, b) {
                (ValueV::Int(x), ValueV::Int(y)) => match x.checked_mul(y) {
                    Some(n) => Ok(ValueV::Int(n)),
                    None => Err(EvalError::ArithError),
                },
                _ => Err(EvalError::TypeError),
            },
            Op::Div => match (a, b) {
                (ValueV::Int(x), ValueV::Int(y)) => match x.checked_div(y) {
                    Some(n) => Ok(ValueV::Int(n)),
                    None => Err(EvalError::ArithError),
                },
                _ => Err(EvalError::TypeError),
            },
            Op::Mod => match (a, b) {
                (ValueV::Int(x), ValueV::Int(y)) => match x.checked_rem(y) {
                    Some(n) => Ok(ValueV::Int(n)),
                    None => Err(EvalError::ArithError),
                },
                _ => Err(EvalError::TypeError),
            },
            Op::Pow => match (a, b) {
                (ValueV::Int(x), ValueV::Int(y)) => if y < 0 {
                    Err(EvalError::ArithError)
                } else {
                    match pow_checked(x, y as nat) {
                        Some(n) => Ok(ValueV::Int(n)),
                        None => Err(EvalError::ArithError),
                    }
                },
                _ => Err(EvalError::TypeError),
            },
            Op::Gt => match (a, b) {
                (ValueV::Int(x), ValueV::Int(y)) => Ok(ValueV::Bool(x > y)),
                _ => Err(EvalError::TypeError),
            },
            Op::Ge => match (a, b) {
                (ValueV::Int(x), ValueV::Int(y)) => Ok(ValueV::Bool(x >= y)),
                _ => Err(EvalError::TypeError),
            },
            Op::Lt => match (a, b) {
                (ValueV::Int(x), ValueV::Int(y)) => Ok(ValueV::Bool(x < y)),
                _ => Err(EvalError::TypeError),
            },
            Op::Le => match (a, b) {
                (ValueV::Int(x), ValueV::Int(y)) => Ok(ValueV::Bool(x <= y)),
                _ => Err(EvalError::TypeError),
            },
            _ => Err(EvalError::TypeError),
        }
    }
}

/// What an expression folds to under `env`.
pub open spec fn eval_expr(env: Seq<BindingV>, e: ExprV) -> Result<ValueV, EvalError>
    decreases e, 1int,
{
    match e {
        ExprV::Const(v) => Ok(v),
        ExprV::Ident(n) => match lookup_env(env, n) {
            Some(v) => Ok(v),
            None => Err(EvalError::UndefinedParam),
        },
        ExprV::Apply(op, args) => {
            if op == Op::Or {
                eval_or_from(env, args, 0, false)
            } else if op == Op::And {
                eval_and_from(env, args, 0, true)
            } else if is_unary(op) {
                if args.len() != 1 {
                    Err(EvalError::TypeError)
                } else {
                    match eval_expr(env, args[0]) {
                        Ok(a) => apply_unary(op, a),
                        Err(er) => Err(er),
                    }
                }
            } else {
                if args.len() != 2 {
                    Err(EvalError::TypeError)
                } else {
                    match eval_expr(env, args[0]) {
                        Ok(a) => match eval_expr(env, args[1]) {
                            Ok(b) => apply_binary(op, a, b),
                            Err(er) => Err(er),
                        },
                        Err(er) => Err(er),
                    }
                }
            }
        },
    }
}

/// What a disjunction folds to, continuing from argument `i` with
/// `has_null` recording whether a `null` has been seen: a `true` argument
/// ends it at `true`; with none, it is `null` when any argument was
/// `null`, else `false`.
pub open spec fn eval_or_from(env: Seq<BindingV>, args: Seq<ExprV>, i: int, has_null: bool) -> Result<
    ValueV,
    EvalError,
>
    decreases args, 0int, args.len() - i,
{
    if i < 0 || i >= args.len() {
        if has_null {
            Ok(ValueV::Null)
        } else {
            Ok(ValueV::Bool(false))
        }
    } else {
        match eval_expr(env, args[i]) {
            Err(er) => Err(er),
            Ok(v) => match v {
                ValueV::Bool(b) => if b {
                    Ok(ValueV::Bool(true))
                } else {
                    eval_or_from(env, args, i + 1, has_null)
                },
                ValueV::Null => eval_or_from(env, args, i + 1, true),
                _ => Err(EvalError::TypeError),
            },
        }
    }
}

/// What a conjunction folds to, continuing from argument `i` with
/// `no_null` recording whether no `null` has been seen: a `false`
/// argument ends it at `false`; with none, it is `true` when no argument
/// was `null`, else `null`.
pub open spec fn eval_and_from(env: Seq<BindingV>, args: Seq<ExprV>, i: int, no_null: bool) -> Result<
    ValueV,
    EvalError,
>
    decreases args, 0int, args.len() - i,
{
    if i < 0 || i >= args.len() {
        if no_null {
            Ok(ValueV::Bool(true))
        } else {
            Ok(ValueV::Null)
        }
    } else {
        match eval_expr(env, args[i]) {
            Err(er) => Err(er),
            Ok(v) => match v {
                ValueV::Bool(b) => if !b {
                    Ok(ValueV::Bool(false))
                } else {
                    eval_and_from(env, args, i + 1, no_null)
                },
                ValueV::Null => eval_and_from(env, args, i + 1, false),
                _ => Err(EvalError::TypeError),
            },
        }
    }
}

/// Whether the evaluator's answer `r` is the folded form of the spec
/// outcome `s`: the same error, or the constant holding the same value.
pub open spec fn folds_to(r: Result<Expr, EvalError>, s: Result<ValueV, EvalError>) -> bool {
    match s {
        Ok(v) => r matches Ok(e) && e.deep_view() == ExprV::Const(v),
        Err(er) => r matches Err(e2) && e2 == er,
    }
}

/// The storage a query evaluator runs against.
pub trait Storage {

}

/// No storage at all: for evaluating pure expressions.
pub struct DummyStorage;

impl Storage for DummyStorage {

}

/// Storage backed by an open transactional store.
pub struct RocksStorage {
    pub db: TransactionDb,
}

impl Storage for RocksStorage {

}

impl RocksStorage {
    /// Opens a fresh store at `path` for the evaluator.
    pub fn new(path: String) -> (r: Result<RocksStorage, RocksDBStatusError>)
        ensures
            r is Ok,
            r matches Ok(s) ==> ({
                &&& s.db@.wf()
                &&& s.db@.cols == 1
                &&& s.db@.log == Seq::<crate::model::EntryV>::empty()
                &&& s.db@.snaps == Seq::<crate::db::SnapV>::empty()
                &&& s.db@.txns == Seq::<crate::db::TxnV>::empty()
            }),
    {
        let builder = DbBuilder::new(path.as_str(), 0).create_if_missing(
            true,
        ).create_missing_column_families(true);
        match builder.build() {
            Ok(db) => Ok(RocksStorage { db }),
            Err(e) => Err(e),
        }
    }
}

/// A constant-folding evaluator: an environment of named parameters, a
/// storage backend, and a counter for fresh local identifiers.
pub struct Evaluator<S: Storage> {
    pub env: StructuredEnv,
    pub storage: S,
    pub last_local_id: usize,
}

/// An evaluator over an open store.
pub type EvaluatorWithStorage = Evaluator<RocksStorage>;

/// An evaluator over no storage.
pub type BareEvaluator = Evaluator<DummyStorage>;

impl EvaluatorWithStorage {
    /// An evaluator over a fresh store at `path`, with an empty
    /// environment.
    pub fn new(path: String) -> (r: Result<EvaluatorWithStorage, RocksDBStatusError>)
        ensures
            r is Ok,
            r matches Ok(ev) ==> ({
                &&& ev.env.bindings.deep_view() == Seq::<BindingV>::empty()
                &&& ev.last_local_id == 1
                &&& ev.storage.db@.wf()
                &&& ev.storage.db@.cols == 1
                &&& ev.storage.db@.log == Seq::<crate::model::EntryV>::empty()
                &&& ev.storage.db@.snaps == Seq::<crate::db::SnapV>::empty()
                &&& ev.storage.db@.txns == Seq::<crate::db::TxnV>::empty()
            }),
    {
        match RocksStorage::new(path) {
            Ok(storage) => Ok(
                Evaluator { env: StructuredEnv::new(), storage, last_local_id: 1 },
            ),
            Err(e) => Err(e),
        }
    }
}

impl Default for BareEvaluator {
    /// An evaluator over no storage, with an empty environment.
    fn default() -> (r: BareEvaluator)
        ensures
            r.env.bindings.deep_view() == Seq::<BindingV>::empty(),
            r.last_local_id == 0,
    {
        Evaluator { env: StructuredEnv::new(), storage: DummyStorage, last_local_id: 0 }
    }
}

impl<S: Storage> Evaluator<S> {
    /// A fresh local identifier: global scopes share identifier zero,
    /// local scopes count up.
    pub fn get_next_local_id(&mut self, is_global: bool) -> (r: usize)
        requires
            old(self).last_local_id < usize::MAX,
        ensures
            r == if is_global {
                0usize
            } else {
                old(self).last_local_id
            },
            final(self).last_local_id == if is_global {
                old(self).last_local_id as int
            } else {
                old(self).last_local_id + 1
            },
            final(self).env == old(self).env,
            final(self).storage == old(self).storage,
    {
        if is_global {
            0
        } else {
            let id = self.last_local_id;
            self.last_local_id = id + 1;
            id
        }
    }

    /// The environment's bindings, as the specification sees them.
    pub open spec fn env_v(&self) -> Seq<BindingV> {
        self.env.bindings.deep_view()
    }
}


/// Whether the evaluator's value answer matches the spec outcome: the
/// same error, or a constant holding the same value.
pub open spec fn value_folds_to(r: Result<Value, EvalError>, s: Result<ValueV, EvalError>) -> bool {
    match s {
        Ok(v) => r matches Ok(val) && val.deep_view() == v,
        Err(er) => r matches Err(e2) && e2 == er,
    }
}

/// Whether a constant is `null`.
fn null_value(v: &Value) -> (r: bool)
    ensures
        r == (v.deep_view() is Null),
{
    match v {
        Value::Null => true,
        _ => false,
    }
}

/// Once a power has left the representable range, every higher power has
/// too.
proof fn lemma_pow_none(base: i64, e1: nat, e2: nat)
    requires
        e1 <= e2,
        pow_checked(base, e1) is None,
    ensures
        pow_checked(base, e2) is None,
    decreases e2,
{
    if e2 > e1 {
        lemma_pow_none(base, e1, (e2 - 1) as nat);
    }
}

/// `x` raised to `y` by repeated multiplication, each step checked.
fn pow_exec(x: i64, y: i64) -> (r: Result<Value, EvalError>)
    requires
        y >= 0,
    ensures
        value_folds_to(
            r,
            match pow_checked(x, y as nat) {
                Some(n) => Ok(ValueV::Int(n)),
                None => Err(EvalError::ArithError),
            },
        ),
{
    let mut i: i64 = 0;
    let mut acc: i64 = 1;
    while i < y
        invariant
            0 <= i <= y,
            pow_checked(x, i as nat) == Some(acc),
        decreases y - i,
    {
        match acc.checked_mul(x) {
            Some(n) => {
                acc = n;
                i = i + 1;
            },
            None => {
                proof {
                    assert(pow_checked(x, (i + 1) as nat) is None);
                    lemma_pow_none(x, (i + 1) as nat, y as nat);
                }
                return Err(EvalError::ArithError);
            },
        }
    }
    Ok(Value::Int(acc))
}

/// Applies one unary operator to a folded argument.
fn apply_unary_exec(op: Op, a: Value) -> (r: Result<Value, EvalError>)
    ensures
        value_folds_to(r, apply_unary(op, a.deep_view())),
{
    match op {
        Op::IsNull => Ok(Value::Bool(null_value(&a))),
        Op::NotNull => Ok(Value::Bool(!null_value(&a))),
        Op::Neg => match &a {
            Value::Null => Ok(Value::Null),
            Value::Bool(b) => Ok(Value::Bool(!*b)),
            _ => Err(EvalError::TypeError),
        },
        Op::Minus => match &a {
            Value::Null => Ok(Value::Null),
            Value::Int(i) => match 0i64.checked_sub(*i) {
                Some(n) => Ok(Value::Int(n)),
                None => Err(EvalError::ArithError),
            },
            _ => Err(EvalError::TypeError),
        },
        _ => Err(EvalError::TypeError),
    }
}

/// Applies one binary operator to folded arguments.
fn apply_binary_exec(op: Op, a: Value, b: Value) -> (r: Result<Value, EvalError>)
    ensures
        value_folds_to(r, apply_binary(op, a.deep_view(), b.deep_view())),
{
    let coalescing = match op {
        Op::Coalesce => true,
        _ => false,
    };
    if coalescing {
        if null_value(&a) {
            return Ok(b);
        }
        return Ok(a);
    }
    if null_value(&a) || null_value(&b) {
        return Ok(Value::Null);
    }
    match op {
        Op::Eq => Ok(Value::Bool(a.same_value(&b))),
        Op::Neq => Ok(Value::Bool(!a.same_value(&b))),
        Op::Add => match (&a, &b) {
            (Value::Int(x), Value::Int(y)) => match x.checked_add(*y) {
                Some(n) => Ok(Value::Int(n)),
                None => Err(EvalError::ArithError),
            },
            (Value::Text(x), Value::Text(y)) => Ok(Value::Text(x.clone().concat(y.as_str()))),
            _ => Err(EvalError::TypeError),
        },
        Op::Sub => match (&a, &b) {
            (Value::Int(x), Value::Int(y)) => match x.checked_sub(*y) {
                Some(n) => Ok(Value::Int(n)),
                None => Err(EvalError::ArithError),
            },
            _ => Err(EvalError::TypeError),
        },
        Op::Mul => match (&a, &b) {
            (Value::Int(x), Value::Int(y)) => match x.checked_mul(*y) {
                Some(n) => Ok(Value::Int(n)),
                None => Err(EvalError::ArithError),
            },
            _ => Err(EvalError::TypeError),
        },
        Op::Div => match (&a, &b) {
            (Value::Int(x), Value::Int(y)) => match x.checked_div(*y) {
                Some(n) => Ok(Value::Int(n)),
                None => Err(EvalError::ArithError),
            },
            _ => Err(EvalError::TypeError),
        },
        Op::Mod => match (&a, &b) {
            (Value::Int(x), Value::Int(y)) => match x.checked_rem(*y) {
                Some(n) => Ok(Value::Int(n)),
                None => Err(EvalError::ArithError),
            },
            _ => Err(EvalError::TypeError),
        },
        Op::Pow => match (&a, &b) {
            (Value::Int(x), Value::Int(y)) => {
                if *y < 0 {
                    Err(EvalError::ArithError)
                } else {
                    pow_exec(*x, *y)
                }
            },
            _ => Err(EvalError::TypeError),
        },
        Op::Gt => match (&a, &b) {
            (Value::Int(x), Value::Int(y)) => Ok(Value::Bool(*x > *y)),
            _ => Err(EvalError::TypeError),
        },
        Op::Ge => match (&a, &b) {
            (Value::Int(x), Value::Int(y)) => Ok(Value::Bool(*x >= *y)),
            _ => Err(EvalError::TypeError),
        },
        Op::Lt => match (&a, &b) {
            (Value::Int(x), Value::Int(y)) => Ok(Value::Bool(*x < *y)),
            _ => Err(EvalError::TypeError),
        },
        Op::Le => match (&a, &b) {
            (Value::Int(x), Value::Int(y)) => Ok(Value::Bool(*x <= *y)),
            _ => Err(EvalError::TypeError),
        },
        _ => Err(EvalError::TypeError),
    }
}

impl<S: Storage> Evaluator<S> {
    /// Folds an expression to a constant under this evaluator's
    /// environment, or reports why it cannot be folded.
    pub fn visit_expr(&mut self, ex: &Expr) -> (r: Result<Expr, EvalError>)
        requires
            wf_expr(ex.deep_view()),
        ensures
            *final(self) == *old(self),
            folds_to(r, eval_expr(old(self).env_v(), ex.deep_view())),
        decreases *ex, 2int,
    {
        match ex {
            Expr::Const(v) => Ok(Expr::Const(v.duplicate())),
            Expr::Ident(ident) => match self.env.resolve(ident.as_str()) {
                Some(v) => Ok(Expr::Const(v)),
                None => Err(EvalError::UndefinedParam),
            },
            Expr::Apply(op, args) => {
                proof {
                    assert(ex.deep_view() == ExprV::Apply(*op, expr_views(args@)));
                }
                match op {
                    Op::Add => self.add_exprs(args.as_slice()),
                    Op::Sub => self.sub_exprs(args.as_slice()),
                    Op::Mul => self.mul_exprs(args.as_slice()),
                    Op::Div => self.div_exprs(args.as_slice()),
                    Op::Mod => self.mod_exprs(args.as_slice()),
                    Op::Pow => self.pow_exprs(args.as_slice()),
                    Op::Eq => self.eq_exprs(args.as_slice()),
                    Op::Neq => self.ne_exprs(args.as_slice()),
                    Op::Gt => self.gt_exprs(args.as_slice()),
                    Op::Lt => self.lt_exprs(args.as_slice()),
                    Op::Ge => self.ge_exprs(args.as_slice()),
                    Op::Le => self.le_exprs(args.as_slice()),
                    Op::Coalesce => self.coalesce_exprs(args.as_slice()),
                    Op::Neg => self.negate_expr(args.as_slice()),
                    Op::Minus => self.minus_expr(args.as_slice()),
                    Op::IsNull => self.test_null_expr(args.as_slice()),
                    Op::NotNull => self.not_null_expr(args.as_slice()),
                    Op::Or => self.or_expr(args.as_slice()),
                    Op::And => self.and_expr(args.as_slice()),
                    Op::Call => {
                        proof {
                            assert(false);
                        }
                        Err(EvalError::TypeError)
                    },
                }
            },
        }
    }

    /// Folds both arguments, then applies the given binary operator.
    fn binary_op(&mut self, op: Op, exprs: &[Expr]) -> (r: Result<Expr, EvalError>)
        requires
            is_binary(op),
            wf_expr(ExprV::Apply(op, expr_views(exprs@))),
        ensures
            *final(self) == *old(self),
            folds_to(r, eval_expr(old(self).env_v(), ExprV::Apply(op, expr_views(exprs@)))),
        decreases exprs@, 0int,
    {
        let ra = self.visit_expr(&exprs[0]);
        let a = match ra {
            Ok(v) => v,
            Err(e) => {
                return Err(e);
            },
        };
        let rb = self.visit_expr(&exprs[1]);
        let b = match rb {
            Ok(v) => v,
            Err(e) => {
                return Err(e);
            },
        };
        let va = match a {
            Expr::Const(v) => v,
            _ => {
                proof {
                    assert(false);
                }
                return Err(EvalError::TypeError);
            },
        };
        let vb = match b {
            Expr::Const(v) => v,
            _ => {
                proof {
                    assert(false);
                }
                return Err(EvalError::TypeError);
            },
        };
        match apply_binary_exec(op, va, vb) {
            Ok(v) => Ok(Expr::Const(v)),
            Err(e) => Err(e),
        }
    }

    /// Folds the argument, then applies the given unary operator.
    fn unary_op(&mut self, op: Op, exprs: &[Expr]) -> (r: Result<Expr, EvalError>)
        requires
            is_unary(op),
            wf_expr(ExprV::Apply(op, expr_views(exprs@))),
        ensures
            *final(self) == *old(self),
            folds_to(r, eval_expr(old(self).env_v(), ExprV::Apply(op, expr_views(exprs@)))),
        decreases exprs@, 0int,
    {
        let ra = self.visit_expr(&exprs[0]);
        let a = match ra {
            Ok(v) => v,
            Err(e) => {
                return Err(e);
            },
        };
        let va = match a {
            Expr::Const(v) => v,
            _ => {
                proof {
                    assert(false);
                }
                return Err(EvalError::TypeError);
            },
        };
        match apply_unary_exec(op, va) {
            Ok(v) => Ok(Expr::Const(v)),
            Err(e) => Err(e),
        }
    }

    /// Folds a sum, or a concatenation of two texts.
    pub fn add_exprs(&mut self, exprs: &[Expr]) -> (r: Result<Expr, EvalError>)
        requires
            wf_expr(ExprV::Apply(Op::Add, expr_views(exprs@))),
        ensures
            *final(self) == *old(self),
            folds_to(r, eval_expr(old(self).env_v(), ExprV::Apply(Op::Add, expr_views(exprs@)))),
        decreases exprs@, 1int,
    {
        self.binary_op(Op::Add, exprs)
    }

    /// Folds a difference.
    pub fn sub_exprs(&mut self, exprs: &[Expr]) -> (r: Result<Expr, EvalError>)
        requires
            wf_expr(ExprV::Apply(Op::Sub, expr_views(exprs@))),
        ensures
            *final(self) == *old(self),
            folds_to(r, eval_expr(old(self).env_v(), ExprV::Apply(Op::Sub, expr_views(exprs@)))),
        decreases exprs@, 1int,
    {
        self.binary_op(Op::Sub, exprs)
    }

    /// Folds a product.
    pub fn mul_exprs(&mut self, exprs: &[Expr]) -> (r: Result<Expr, EvalError>)
        requires
            wf_expr(ExprV::Apply(Op::Mul, expr_views(exprs@))),
        ensures
            *final(self) == *old(self),
            folds_to(r, eval_expr(old(self).env_v(), ExprV::Apply(Op::Mul, expr_views(exprs@)))),
        decreases exprs@, 1int,
    {
        self.binary_op(Op::Mul, exprs)
    }

    /// Folds a quotient; dividing by zero is an arithmetic error.
    pub fn div_exprs(&mut self, exprs: &[Expr]) -> (r: Result<Expr, EvalError>)
        requires
            wf_expr(ExprV::Apply(Op::Div, expr_views(exprs@))),
        ensures
            *final(self) == *old(self),
            folds_to(r, eval_expr(old(self).env_v(), ExprV::Apply(Op::Div, expr_views(exprs@)))),
        decreases exprs@, 1int,
    {
        self.binary_op(Op::Div, exprs)
    }

    /// Folds a remainder; a zero modulus is an arithmetic error.
    pub fn mod_exprs(&mut self, exprs: &[Expr]) -> (r: Result<Expr, EvalError>)
        requires
            wf_expr(ExprV::Apply(Op::Mod, expr_views(exprs@))),
        ensures
            *final(self) == *old(self),
            folds_to(r, eval_expr(old(self).env_v(), ExprV::Apply(Op::Mod, expr_views(exprs@)))),
        decreases exprs@, 1int,
    {
        self.binary_op(Op::Mod, exprs)
    }

    /// Folds a power; a negative exponent is an arithmetic error.
    pub fn pow_exprs(&mut self, exprs: &[Expr]) -> (r: Result<Expr, EvalError>)
        requires
            wf_expr(ExprV::Apply(Op::Pow, expr_views(exprs@))),
        ensures
            *final(self) == *old(self),
            folds_to(r, eval_expr(old(self).env_v(), ExprV::Apply(Op::Pow, expr_views(exprs@)))),
        decreases exprs@, 1int,
    {
        self.binary_op(Op::Pow, exprs)
    }

    /// Folds an equality test between any two constants.
    pub fn eq_exprs(&mut self, exprs: &[Expr]) -> (r: Result<Expr, EvalError>)
        requires
            wf_expr(ExprV::Apply(Op::Eq, expr_views(exprs@))),
        ensures
            *final(self) == *old(self),
            folds_to(r, eval_expr(old(self).env_v(), ExprV::Apply(Op::Eq, expr_views(exprs@)))),
        decreases exprs@, 1int,
    {
        self.binary_op(Op::Eq, exprs)
    }

    /// Folds an inequality test between any two constants.
    pub fn ne_exprs(&mut self, exprs: &[Expr]) -> (r: Result<Expr, EvalError>)
        requires
            wf_expr(ExprV::Apply(Op::Neq, expr_views(exprs@))),
        ensures
            *final(self) == *old(self),
            folds_to(r, eval_expr(old(self).env_v(), ExprV::Apply(Op::Neq, expr_views(exprs@)))),
        decreases exprs@, 1int,
    {
        self.binary_op(Op::Neq, exprs)
    }

    /// Folds a strictly-greater comparison of two integers.
    pub fn gt_exprs(&mut self, exprs: &[Expr]) -> (r: Result<Expr, EvalError>)
        requires
            wf_expr(ExprV::Apply(Op::Gt, expr_views(exprs@))),
        ensures
            *final(self) == *old(self),
            folds_to(r, eval_expr(old(self).env_v(), ExprV::Apply(Op::Gt, expr_views(exprs@)))),
        decreases exprs@, 1int,
    {
        self.binary_op(Op::Gt, exprs)
    }

    /// Folds a greater-or-equal comparison of two integers.
    pub fn ge_exprs(&mut self, exprs: &[Expr]) -> (r: Result<Expr, EvalError>)
        requires
            wf_expr(ExprV::Apply(Op::Ge, expr_views(exprs@))),
        ensures
            *final(self) == *old(self),
            folds_to(r, eval_expr(old(self).env_v(), ExprV::Apply(Op::Ge, expr_views(exprs@)))),
        decreases exprs@, 1int,
    {
        self.binary_op(Op::Ge, exprs)
    }

    /// Folds a strictly-less comparison of two integers.
    pub fn lt_exprs(&mut self, exprs: &[Expr]) -> (r: Result<Expr, EvalError>)
        requires
            wf_expr(ExprV::Apply(Op::Lt, expr_views(exprs@))),
        ensures
            *final(self) == *old(self),
            folds_to(r, eval_expr(old(self).env_v(), ExprV::Apply(Op::Lt, expr_views(exprs@)))),
        decreases exprs@, 1int,
    {
        self.binary_op(Op::Lt, exprs)
    }

    /// Folds a less-or-equal comparison of two integers.
    pub fn le_exprs(&mut self, exprs: &[Expr]) -> (r: Result<Expr, EvalError>)
        requires
            wf_expr(ExprV::Apply(Op::Le, expr_views(exprs@))),
        ensures
            *final(self) == *old(self),
            folds_to(r, eval_expr(old(self).env_v(), ExprV::Apply(Op::Le, expr_views(exprs@)))),
        decreases exprs@, 1int,
    {
        self.binary_op(Op::Le, exprs)
    }

    /// Folds to the first argument unless it is `null`, else the second.
    pub fn coalesce_exprs(&mut self, exprs: &[Expr]) -> (r: Result<Expr, EvalError>)
        requires
            wf_expr(ExprV::Apply(Op::Coalesce, expr_views(exprs@))),
        ensures
            *final(self) == *old(self),
            folds_to(
                r,
                eval_expr(old(self).env_v(), ExprV::Apply(Op::Coalesce, expr_views(exprs@))),
            ),
        decreases exprs@, 1int,
    {
        self.binary_op(Op::Coalesce, exprs)
    }

    /// Folds a logical negation.
    pub fn negate_expr(&mut self, exprs: &[Expr]) -> (r: Result<Expr, EvalError>)
        requires
            wf_expr(ExprV::Apply(Op::Neg, expr_views(exprs@))),
        ensures
            *final(self) == *old(self),
            folds_to(r, eval_expr(old(self).env_v(), ExprV::Apply(Op::Neg, expr_views(exprs@)))),
        decreases exprs@, 1int,
    {
        self.unary_op(Op::Neg, exprs)
    }

    /// Folds an arithmetic negation.
    pub fn minus_expr(&mut self, exprs: &[Expr]) -> (r: Result<Expr, EvalError>)
        requires
            wf_expr(ExprV::Apply(Op::Minus, expr_views(exprs@))),
        ensures
            *final(self) == *old(self),
            folds_to(
                r,
                eval_expr(old(self).env_v(), ExprV::Apply(Op::Minus, expr_views(exprs@))),
            ),
        decreases exprs@, 1int,
    {
        self.unary_op(Op::Minus, exprs)
    }

    /// Folds a test for `null`.
    pub fn test_null_expr(&mut self, exprs: &[Expr]) -> (r: Result<Expr, EvalError>)
        requires
            wf_expr(ExprV::Apply(Op::IsNull, expr_views(exprs@))),
        ensures
            *final(self) == *old(self),
            folds_to(
                r,
                eval_expr(old(self).env_v(), ExprV::Apply(Op::IsNull, expr_views(exprs@))),
            ),
        decreases exprs@, 1int,
    {
        self.unary_op(Op::IsNull, exprs)
    }

    /// Folds a test for not-`null`.
    pub fn not_null_expr(&mut self, exprs: &[Expr]) -> (r: Result<Expr, EvalError>)
        requires
            wf_expr(ExprV::Apply(Op::NotNull, expr_views(exprs@))),
        ensures
            *final(self) == *old(self),
            folds_to(
                r,
                eval_expr(old(self).env_v(), ExprV::Apply(Op::NotNull, expr_views(exprs@))),
            ),
        decreases exprs@, 1int,
    {
        self.unary_op(Op::NotNull, exprs)
    }

    /// Folds a disjunction of any number of arguments, left to right,
    /// stopping at the first `true`; `null` arguments make an otherwise
    /// `false` answer `null`.
    pub fn or_expr(&mut self, exprs: &[Expr]) -> (r: Result<Expr, EvalError>)
        requires
            wf_expr(ExprV::Apply(Op::Or, expr_views(exprs@))),
        ensures
            *final(self) == *old(self),
            folds_to(r, eval_expr(old(self).env_v(), ExprV::Apply(Op::Or, expr_views(exprs@)))),
        decreases exprs@, 1int,
    {
        let ghost self0 = *self;
        let ghost argsv = expr_views(exprs@);
        let mut has_null = false;
        let mut i: usize = 0;
        while i < exprs.len()
            invariant
                i <= exprs@.len(),
                self0 == *old(self),
                *self == self0,
                argsv == expr_views(exprs@),
                wf_expr(ExprV::Apply(Op::Or, argsv)),
                eval_or_from(self0.env_v(), argsv, 0, false) == eval_or_from(
                    self0.env_v(),
                    argsv,
                    i as int,
                    has_null,
                ),
            decreases exprs@.len() - i,
        {
            let folded = self.visit_expr(&exprs[i]);
            match folded {
                Err(e) => {
                    return Err(e);
                },
                Ok(fe) => match fe {
                    Expr::Const(val) => match val {
                        Value::Bool(bv) => {
                            if bv {
                                return Ok(Expr::Const(Value::Bool(true)));
                            }
                        },
                        Value::Null => {
                            has_null = true;
                        },
                        _ => {
                            return Err(EvalError::TypeError);
                        },
                    },
                    _ => {
                        proof {
                            assert(false);
                        }
                        return Err(EvalError::TypeError);
                    },
                },
            }
            i = i + 1;
        }
        if has_null {
            Ok(Expr::Const(Value::Null))
        } else {
            Ok(Expr::Const(Value::Bool(false)))
        }
    }

    /// Folds a conjunction of any number of arguments, left to right,
    /// stopping at the first `false`; `null` arguments make an otherwise
    /// `true` answer `null`.
    pub fn and_expr(&mut self, exprs: &[Expr]) -> (r: Result<Expr, EvalError>)
        requires
            wf_expr(ExprV::Apply(Op::And, expr_views(exprs@))),
        ensures
            *final(self) == *old(self),
            folds_to(r, eval_expr(old(self).env_v(), ExprV::Apply(Op::And, expr_views(exprs@)))),
        decreases exprs@, 1int,
    {
        let ghost self0 = *self;
        let ghost argsv = expr_views(exprs@);
        let mut no_null = true;
        let mut i: usize = 0;
        while i < exprs.len()
            invariant
                i <= exprs@.len(),
                self0 == *old(self),
                *self == self0,
                argsv == expr_views(exprs@),
                wf_expr(ExprV::Apply(Op::And, argsv)),
                eval_and_from(self0.env_v(), argsv, 0, true) == eval_and_from(
                    self0.env_v(),
                    argsv,
                    i as int,
                    no_null,
                ),
            decreases exprs@.len() - i,
        {
            let folded = self.visit_expr(&exprs[i]);
            match folded {
                Err(e) => {
                    return Err(e);
                },
                Ok(fe) => match fe {
                    Expr::Const(val) => match val {
                        Value::Bool(bv) => {
                            if !bv {
                                return Ok(Expr::Const(Value::Bool(false)));
                            }
                        },
                        Value::Null => {
                            no_null = false;
                        },
                        _ => {
                            return Err(EvalError::TypeError);
                        },
                    },
                    _ => {
                        proof {
                            assert(false);
                        }
                        return Err(EvalError::TypeError);
                    },
                },
            }
            i = i + 1;
        }
        if no_null {
            Ok(Expr::Const(Value::Bool(true)))
        } else {
            Ok(Expr::Const(Value::Null))
        }
    }
}

} // verus!
