//! The data model of an already-parsed, already-validated shading-language
//! program, reduced to exactly what expression extraction reads: top-level
//! statements, the expression arena with its parallel span table, and the
//! struct-versus-non-struct shape of each declared type.
//!
//! The external parser produces this representation together with the source
//! text it was parsed from; everything here is read-only afterwards.

use vstd::prelude::*;

verus! {

/// A half-open byte range into the original source text, recorded at parse
/// time for every expression.
#[derive(Clone, Copy, PartialEq, Eq, Structural, Debug)]
pub struct Span {
    pub start: usize,
    pub end: usize,
}

/// An opaque, copyable index into the expression arena of the `Function` that
/// owns it. Handles are never meaningful across functions.
#[derive(Clone, Copy, PartialEq, Eq, Structural, Debug)]
pub struct Handle {
    pub index: usize,
}

/// The only distinction the selectors draw among declared types: a struct
/// versus everything else (arrays, vectors, scalars, buffers).
#[derive(Clone, Copy, PartialEq, Eq, Structural, Debug)]
pub enum TypeKind {
    Struct,
    Other,
}

/// A module-level variable, reduced to the index of its declared type in the
/// program's type table.
#[derive(Clone, Copy, PartialEq, Eq, Structural, Debug)]
pub struct GlobalVariable {
    pub ty: usize,
}

/// A function-local variable, reduced to the index of its declared type in
/// the program's type table.
#[derive(Clone, Copy, PartialEq, Eq, Structural, Debug)]
pub struct LocalVariable {
    pub ty: usize,
}

/// An expression node. Only the variants that access selection inspects are
/// distinguished; every other variant is `Other`, traversed over but never
/// matched.
#[derive(Clone, Copy, PartialEq, Eq, Structural, Debug)]
#[allow(inconsistent_fields)]
pub enum Expression {
    /// Dynamic indexing: `base[index]` with a computed index expression.
    Access { base: Handle, index: Handle },
    /// Constant indexing: `base[i]` or field projection `base.field` with a
    /// fixed index known at parse time.
    AccessIndex { base: Handle, index: u32 },
    /// A reference to a global variable, by index into the program's
    /// global-variable table.
    GlobalVariable { var: usize },
    /// A reference to a local variable, by index into the owning function's
    /// local-variable table.
    LocalVariable { var: usize },
    /// Any other expression kind; opaque payload.
    Other,
}

/// A top-level statement of a function body. Only the variants that condition
/// selection inspects are distinguished; nested statement blocks are not part
/// of the body sequence, since the selectors never descend into them.
#[derive(Clone, Copy, PartialEq, Eq, Structural, Debug)]
pub enum Statement {
    /// A conditional branch; only its condition expression matters here.
    If { condition: Handle },
    /// A loop; `break_if` is its exit condition, when one is present.
    Loop { break_if: Option<Handle> },
    /// Any other statement kind; opaque payload.
    Other,
}

/// A function: its ordered top-level body, its expression arena in the order
/// expressions were recorded during parsing, the span table parallel to that
/// arena, and its local-variable table.
#[derive(Debug)]
pub struct Function {
    pub body: Vec<Statement>,
    pub expressions: Vec<Expression>,
    pub spans: Vec<Span>,
    pub local_variables: Vec<LocalVariable>,
}

/// An entry point wraps exactly one function.
#[derive(Debug)]
pub struct EntryPoint {
    pub function: Function,
}

/// A fully parsed and validated program: entry points in declared order, free
/// functions in table order, the type table, and the global-variable table.
#[derive(Debug)]
pub struct Program {
    pub entry_points: Vec<EntryPoint>,
    pub functions: Vec<Function>,
    pub types: Vec<TypeKind>,
    pub global_variables: Vec<GlobalVariable>,
}

/// Every index held by an expression node is in bounds: handles point into
/// the owning function's arena, variable references point into their tables,
/// and declared types point into the type table.
pub open spec fn expr_wf(p: Program, f: Function, e: Expression) -> bool {
    match e {
        Expression::Access { base, index } => {
            &&& base.index < f.expressions@.len()
            &&& index.index < f.expressions@.len()
        },
        Expression::AccessIndex { base, .. } => base.index < f.expressions@.len(),
        Expression::GlobalVariable { var } => {
            &&& var < p.global_variables@.len()
            &&& p.global_variables@[var as int].ty < p.types@.len()
        },
        Expression::LocalVariable { var } => {
            &&& var < f.local_variables@.len()
            &&& f.local_variables@[var as int].ty < p.types@.len()
        },
        Expression::Other => true,
    }
}

/// Every condition handle held by a top-level statement points into the
/// owning function's expression arena.
pub open spec fn stmt_wf(f: Function, s: Statement) -> bool {
    match s {
        Statement::If { condition } => condition.index < f.expressions@.len(),
        Statement::Loop { break_if } => (break_if matches Some(c) ==> c.index
            < f.expressions@.len()),
        Statement::Other => true,
    }
}

/// A function is well formed when its span table parallels its expression
/// arena one to one and all of its statements and expressions are in bounds.
pub open spec fn function_wf(p: Program, f: Function) -> bool {
    &&& f.spans@.len() == f.expressions@.len()
    &&& forall|i: int| 0 <= i < f.body@.len() ==> stmt_wf(f, #[trigger] f.body@[i])
    &&& forall|i: int|
        0 <= i < f.expressions@.len() ==> expr_wf(p, f, #[trigger] f.expressions@[i])
}

/// The sequence of functions a scan visits: every entry point's function, in
/// declared order, followed by every free function, in table order.
pub open spec fn function_seq(p: Program) -> Seq<Function> {
    p.entry_points@.map_values(|ep: EntryPoint| ep.function) + p.functions@
}

/// How many functions a scan of the program visits.
pub open spec fn num_functions(p: Program) -> nat {
    function_seq(p).len()
}

/// A program is well formed when every function a scan visits is well formed
/// and the function count fits the machine.
pub open spec fn program_wf(p: Program) -> bool {
    &&& p.entry_points@.len() + p.functions@.len() <= usize::MAX
    &&& forall|i: int|
        0 <= i < function_seq(p).len() ==> function_wf(p, #[trigger] function_seq(p)[i])
}

/// The number of functions enumeration yields.
pub fn count_functions(p: &Program) -> (n: usize)
    requires
        program_wf(*p),
    ensures
        n == num_functions(*p),
{
    p.entry_points.len() + p.functions.len()
}

/// The `i`-th function of the enumeration: entry-point functions first, in
/// declared order, then free functions in table order.
pub fn function_at<'a>(p: &'a Program, i: usize) -> (f: &'a Function)
    requires
        program_wf(*p),
        i < num_functions(*p),
    ensures
        *f == function_seq(*p)[i as int],
{
    if i < p.entry_points.len() {
        &p.entry_points[i].function
    } else {
        &p.functions[i - p.entry_points.len()]
    }
}

/// Enumerate every function of the program: entry-point functions in declared
/// order, then free functions in table order. No deduplication, no filtering;
/// the result is a pure function of the program, so repeated enumeration of
/// an unchanged program yields an identical sequence.
pub fn iter_module_functions<'a>(p: &'a Program) -> (r: Vec<&'a Function>)
    requires
        program_wf(*p),
    ensures
        r@.len() == num_functions(*p),
        forall|i: int| 0 <= i < r@.len() ==> *(#[trigger] r@[i]) == function_seq(*p)[i],
{
    let n = count_functions(p);
    let mut r: Vec<&'a Function> = Vec::new();
    let mut i: usize = 0;
    while i < n
        invariant
            program_wf(*p),
            n == num_functions(*p),
            i <= n,
            r@.len() == i,
            forall|j: int| 0 <= j < i ==> *(#[trigger] r@[j]) == function_seq(*p)[j],
        decreases n - i,
    {
        r.push(function_at(p, i));
        i = i + 1;
    }
    r
}

/// Enumeration is deterministic: two enumerations of the same unchanged
/// program yield the same sequence of functions.
pub proof fn lemma_enumeration_deterministic(p: Program, r1: Seq<Function>, r2: Seq<Function>)
    requires
        r1 == function_seq(p),
        r2 == function_seq(p),
    ensures
        r1 == r2,
{
}

/// Enumeration order: the sequence holds every entry point's function, in
/// declared order, followed by every free function, in table order.
pub proof fn lemma_enumeration_order(p: Program)
    ensures
        num_functions(p) == p.entry_points@.len() + p.functions@.len(),
        forall|i: int|
            0 <= i < p.entry_points@.len() ==> function_seq(p)[i] == #[trigger] p.entry_points@[i].function,
        forall|j: int|
            0 <= j < p.functions@.len() ==> function_seq(p)[p.entry_points@.len() + j]
                == #[trigger] p.functions@[j],
{
}

} // verus!
