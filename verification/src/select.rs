//! Selection of expression handles: conditions of top-level `If` statements,
//! break conditions of top-level `Loop` statements, and flat buffer/array
//! indexing expressions, each scanned per function in enumeration order.

use vstd::prelude::*;

use crate::model::{
    count_functions, function_at, function_seq, function_wf, num_functions, program_wf, expr_wf,
    Expression, Function, Handle, Program, Statement, TypeKind,
};

verus! {

broadcast use
    vstd::seq_lib::lemma_seq_concat_contains_all_elements,
    vstd::seq_lib::lemma_seq_empty_contains_nothing,
;

/// The condition handles of the `If` statements among the first `n` top-level
/// statements of `body`, in body order.
pub open spec fn if_conditions_upto(body: Seq<Statement>, n: int) -> Seq<Handle>
    decreases n,
{
    if n <= 0 {
        Seq::empty()
    } else {
        if_conditions_upto(body, n - 1) + (match body[n - 1] {
            Statement::If { condition } => seq![condition],
            _ => Seq::empty(),
        })
    }
}

/// The condition handles of every top-level `If` statement of a function
/// body, in body order.
pub open spec fn if_conditions_of_body(body: Seq<Statement>) -> Seq<Handle> {
    if_conditions_upto(body, body.len() as int)
}

/// The break conditions of the `Loop` statements with a present `break_if`
/// among the first `n` top-level statements of `body`, in body order.
pub open spec fn loop_conditions_upto(body: Seq<Statement>, n: int) -> Seq<Handle>
    decreases n,
{
    if n <= 0 {
        Seq::empty()
    } else {
        loop_conditions_upto(body, n - 1) + (match body[n - 1] {
            Statement::Loop { break_if: Some(condition) } => seq![condition],
            _ => Seq::empty(),
        })
    }
}

/// The break conditions of every top-level `Loop` statement of a function
/// body that has one, in body order; loops without a break condition
/// contribute nothing.
pub open spec fn loop_conditions_of_body(body: Seq<Statement>) -> Seq<Handle> {
    loop_conditions_upto(body, body.len() as int)
}

/// The aggregate criterion, isolated from the traversal so it can evolve on
/// its own: a declared type counts as an aggregate exactly when it is a
/// struct.
pub open spec fn is_struct_type(p: Program, ty: int) -> bool {
    p.types@[ty] is Struct
}

/// Executable form of the aggregate criterion.
pub fn type_is_struct(p: &Program, ty: usize) -> (r: bool)
    requires
        ty < p.types@.len(),
    ensures
        r == is_struct_type(*p, ty as int),
{
    match p.types[ty] {
        TypeKind::Struct => true,
        TypeKind::Other => false,
    }
}

/// Whether `base` is exactly a direct reference to a global or local variable
/// whose declared type is not a struct. Any other base — a chained access, a
/// call result, a struct-typed variable — does not qualify.
pub open spec fn base_is_flat_variable(p: Program, f: Function, base: Handle) -> bool {
    match f.expressions@[base.index as int] {
        Expression::GlobalVariable { var } => !is_struct_type(
            p,
            p.global_variables@[var as int].ty as int,
        ),
        Expression::LocalVariable { var } => !is_struct_type(
            p,
            f.local_variables@[var as int].ty as int,
        ),
        _ => false,
    }
}

/// The access-selection predicate: a dynamic `Access` is selected
/// unconditionally, whatever the type of its base; a constant `AccessIndex`
/// only when its base is a non-struct-typed variable reference (flat indexing
/// such as `buf[i]`, never field projection such as `args.field`); nothing
/// else is ever selected.
pub open spec fn expr_selected(p: Program, f: Function, e: Expression) -> bool {
    match e {
        Expression::Access { .. } => true,
        Expression::AccessIndex { base, .. } => base_is_flat_variable(p, f, base),
        _ => false,
    }
}

/// The handles of the selected expressions among the first `n` arena entries
/// of `f`, in arena order.
pub open spec fn access_handles_upto(p: Program, f: Function, n: int) -> Seq<Handle>
    decreases n,
{
    if n <= 0 {
        Seq::empty()
    } else {
        access_handles_upto(p, f, n - 1) + (if expr_selected(p, f, f.expressions@[n - 1]) {
            seq![Handle { index: (n - 1) as usize }]
        } else {
            Seq::empty()
        })
    }
}

/// The handles of every selected access expression of `f`, in arena order.
pub open spec fn access_handles_of(p: Program, f: Function) -> Seq<Handle> {
    access_handles_upto(p, f, f.expressions@.len() as int)
}

/// Handles paired with the enumeration index of the function that owns them.
pub open spec fn tagged(fi: usize, hs: Seq<Handle>) -> Seq<(usize, Handle)> {
    hs.map_values(|h: Handle| (fi, h))
}

/// If-condition selection over the first `n` functions of the enumeration.
pub open spec fn program_if_conditions_upto(p: Program, n: int) -> Seq<(usize, Handle)>
    decreases n,
{
    if n <= 0 {
        Seq::empty()
    } else {
        program_if_conditions_upto(p, n - 1) + tagged(
            (n - 1) as usize,
            if_conditions_of_body(function_seq(p)[n - 1].body@),
        )
    }
}

/// If-condition selection over every function of the program.
pub open spec fn program_if_conditions(p: Program) -> Seq<(usize, Handle)> {
    program_if_conditions_upto(p, num_functions(p) as int)
}

/// Loop-condition selection over the first `n` functions of the enumeration.
pub open spec fn program_loop_conditions_upto(p: Program, n: int) -> Seq<(usize, Handle)>
    decreases n,
{
    if n <= 0 {
        Seq::empty()
    } else {
        program_loop_conditions_upto(p, n - 1) + tagged(
            (n - 1) as usize,
            loop_conditions_of_body(function_seq(p)[n - 1].body@),
        )
    }
}

/// Loop-condition selection over every function of the program.
pub open spec fn program_loop_conditions(p: Program) -> Seq<(usize, Handle)> {
    program_loop_conditions_upto(p, num_functions(p) as int)
}

/// Access selection over the first `n` functions of the enumeration.
pub open spec fn program_access_upto(p: Program, n: int) -> Seq<(usize, Handle)>
    decreases n,
{
    if n <= 0 {
        Seq::empty()
    } else {
        program_access_upto(p, n - 1) + tagged(
            (n - 1) as usize,
            access_handles_of(p, function_seq(p)[n - 1]),
        )
    }
}

/// Access selection over every function of the program.
pub open spec fn program_access_expressions(p: Program) -> Seq<(usize, Handle)> {
    program_access_upto(p, num_functions(p) as int)
}

/// Every condition of the program: if-conditions over every function,
/// followed by loop-conditions over every function — a concatenation, never
/// an interleaving in source order.
pub open spec fn program_all_conditions(p: Program) -> Seq<(usize, Handle)> {
    program_if_conditions(p) + program_loop_conditions(p)
}

/// The single selection mode a caller picks per invocation.
#[derive(Clone, Copy, PartialEq, Eq, Structural, Debug)]
pub enum SelectionMode {
    IfConditions,
    LoopConditions,
    AllConditions,
    AccessExpressions,
}

/// What each mode selects, as one ordered sequence of
/// (function enumeration index, expression handle) pairs.
pub open spec fn selected_expressions(p: Program, mode: SelectionMode) -> Seq<(usize, Handle)> {
    match mode {
        SelectionMode::IfConditions => program_if_conditions(p),
        SelectionMode::LoopConditions => program_loop_conditions(p),
        SelectionMode::AllConditions => program_all_conditions(p),
        SelectionMode::AccessExpressions => program_access_expressions(p),
    }
}

/// Yield the condition of every top-level `If` statement of every function,
/// functions in enumeration order, statements in body order.
pub fn iter_if_conditions(p: &Program) -> (r: Vec<(usize, Handle)>)
    requires
        program_wf(*p),
    ensures
        r@ == program_if_conditions(*p),
{
    let n = count_functions(p);
    let mut r: Vec<(usize, Handle)> = Vec::new();
    let mut fi: usize = 0;
    while fi < n
        invariant
            program_wf(*p),
            n == num_functions(*p),
            fi <= n,
            r@ == program_if_conditions_upto(*p, fi as int),
        decreases n - fi,
    {
        let f = function_at(p, fi);
        let m = f.body.len();
        proof {
            assert(r@ =~= program_if_conditions_upto(*p, fi as int) + tagged(
                fi,
                if_conditions_upto(f.body@, 0),
            ));
        }
        let mut j: usize = 0;
        while j < m
            invariant
                program_wf(*p),
                n == num_functions(*p),
                fi < n,
                *f == function_seq(*p)[fi as int],
                m == f.body@.len(),
                j <= m,
                r@ == program_if_conditions_upto(*p, fi as int) + tagged(
                    fi,
                    if_conditions_upto(f.body@, j as int),
                ),
            decreases m - j,
        {
            match f.body[j] {
                Statement::If { condition } => r.push((fi, condition)),
                _ => (),
            }
            proof {
                assert(r@ =~= program_if_conditions_upto(*p, fi as int) + tagged(
                    fi,
                    if_conditions_upto(f.body@, j as int + 1),
                ));
            }
            j = j + 1;
        }
        proof {
            assert(r@ =~= program_if_conditions_upto(*p, fi as int + 1));
        }
        fi = fi + 1;
    }
    r
}

/// Yield the break condition of every top-level `Loop` statement that has
/// one, of every function, functions in enumeration order, statements in body
/// order.
pub fn iter_loop_conditions(p: &Program) -> (r: Vec<(usize, Handle)>)
    requires
        program_wf(*p),
    ensures
        r@ == program_loop_conditions(*p),
{
    let n = count_functions(p);
    let mut r: Vec<(usize, Handle)> = Vec::new();
    let mut fi: usize = 0;
    while fi < n
        invariant
            program_wf(*p),
            n == num_functions(*p),
            fi <= n,
            r@ == program_loop_conditions_upto(*p, fi as int),
        decreases n - fi,
    {
        let f = function_at(p, fi);
        let m = f.body.len();
        proof {
            assert(r@ =~= program_loop_conditions_upto(*p, fi as int) + tagged(
                fi,
                loop_conditions_upto(f.body@, 0),
            ));
        }
        let mut j: usize = 0;
        while j < m
            invariant
                program_wf(*p),
                n == num_functions(*p),
                fi < n,
                *f == function_seq(*p)[fi as int],
                m == f.body@.len(),
                j <= m,
                r@ == program_loop_conditions_upto(*p, fi as int) + tagged(
                    fi,
                    loop_conditions_upto(f.body@, j as int),
                ),
            decreases m - j,
        {
            match f.body[j] {
                Statement::Loop { break_if: Some(condition) } => r.push((fi, condition)),
                _ => (),
            }
            proof {
                assert(r@ =~= program_loop_conditions_upto(*p, fi as int) + tagged(
                    fi,
                    loop_conditions_upto(f.body@, j as int + 1),
                ));
            }
            j = j + 1;
        }
        proof {
            assert(r@ =~= program_loop_conditions_upto(*p, fi as int + 1));
        }
        fi = fi + 1;
    }
    r
}

/// Yield every selected access expression of every function: functions in
/// enumeration order, expressions in arena order. A dynamic `Access` is
/// selected unconditionally; a constant `AccessIndex` only when its base is a
/// direct reference to a non-struct-typed global or local variable.
pub fn iter_access_expr(p: &Program) -> (r: Vec<(usize, Handle)>)
    requires
        program_wf(*p),
    ensures
        r@ == program_access_expressions(*p),
{
    let n = count_functions(p);
    let mut r: Vec<(usize, Handle)> = Vec::new();
    let mut fi: usize = 0;
    while fi < n
        invariant
            program_wf(*p),
            n == num_functions(*p),
            fi <= n,
            r@ == program_access_upto(*p, fi as int),
        decreases n - fi,
    {
        let f = function_at(p, fi);
        let m = f.expressions.len();
        proof {
            assert(function_wf(*p, *f));
            assert(r@ =~= program_access_upto(*p, fi as int) + tagged(
                fi,
                access_handles_upto(*p, *f, 0),
            ));
        }
        let mut j: usize = 0;
        while j < m
            invariant
                program_wf(*p),
                n == num_functions(*p),
                fi < n,
                *f == function_seq(*p)[fi as int],
                function_wf(*p, *f),
                m == f.expressions@.len(),
                j <= m,
                r@ == program_access_upto(*p, fi as int) + tagged(
                    fi,
                    access_handles_upto(*p, *f, j as int),
                ),
            decreases m - j,
        {
            proof {
                assert(expr_wf(*p, *f, f.expressions@[j as int]));
            }
            let selected: bool = match f.expressions[j] {
                Expression::Access { .. } => true,
                Expression::AccessIndex { base, .. } => {
                    proof {
                        assert(expr_wf(*p, *f, f.expressions@[base.index as int]));
                    }
                    match f.expressions[base.index] {
                        Expression::GlobalVariable { var } => !type_is_struct(
                            p,
                            p.global_variables[var].ty,
                        ),
                        Expression::LocalVariable { var } => !type_is_struct(
                            p,
                            f.local_variables[var].ty,
                        ),
                        _ => false,
                    }
                },
                _ => false,
            };
            if selected {
                r.push((fi, Handle { index: j }));
            }
            proof {
                assert(r@ =~= program_access_upto(*p, fi as int) + tagged(
                    fi,
                    access_handles_upto(*p, *f, j as int + 1),
                ));
            }
            j = j + 1;
        }
        proof {
            assert(r@ =~= program_access_upto(*p, fi as int + 1));
        }
        fi = fi + 1;
    }
    r
}

/// Run the single active selection mode over the program and return the
/// selected (function enumeration index, handle) pairs in the mode's order.
pub fn select_expressions(p: &Program, mode: SelectionMode) -> (r: Vec<(usize, Handle)>)
    requires
        program_wf(*p),
    ensures
        r@ == selected_expressions(*p, mode),
{
    match mode {
        SelectionMode::IfConditions => iter_if_conditions(p),
        SelectionMode::LoopConditions => iter_loop_conditions(p),
        SelectionMode::AllConditions => {
            let mut r = iter_if_conditions(p);
            let mut rest = iter_loop_conditions(p);
            r.append(&mut rest);
            r
        },
        SelectionMode::AccessExpressions => iter_access_expr(p),
    }
}

/// The number of `If` statements among the first `n` top-level statements of
/// `body`.
pub open spec fn num_ifs_upto(body: Seq<Statement>, n: int) -> int
    decreases n,
{
    if n <= 0 {
        0
    } else {
        num_ifs_upto(body, n - 1) + (if body[n - 1] is If {
            1int
        } else {
            0int
        })
    }
}

/// The number of `Loop` statements with a present `break_if` among the first
/// `n` top-level statements of `body`.
pub open spec fn num_breaking_loops_upto(body: Seq<Statement>, n: int) -> int
    decreases n,
{
    if n <= 0 {
        0
    } else {
        num_breaking_loops_upto(body, n - 1) + (if body[n - 1] matches Statement::Loop {
            break_if: Some(_),
        } {
            1int
        } else {
            0int
        })
    }
}

proof fn lemma_if_conditions_count_upto(body: Seq<Statement>, n: int)
    ensures
        if_conditions_upto(body, n).len() == num_ifs_upto(body, n),
    decreases n,
{
    if n > 0 {
        lemma_if_conditions_count_upto(body, n - 1);
    }
}

/// Shallow scan: for a body with N top-level `If` statements, if-condition
/// extraction yields exactly N entries. Statements nested inside an `If` or
/// `Loop` are not elements of the body sequence, so however deeply
/// conditionals nest inside those N statements, they contribute nothing.
pub proof fn lemma_if_conditions_count(body: Seq<Statement>)
    ensures
        if_conditions_of_body(body).len() == num_ifs_upto(body, body.len() as int),
{
    lemma_if_conditions_count_upto(body, body.len() as int);
}

/// Body order of the shallow scan, one statement at a time: an `If` appends
/// exactly its condition to what the preceding statements yielded; any other
/// statement appends nothing.
pub proof fn lemma_if_condition_step(body: Seq<Statement>, n: int)
    requires
        0 <= n < body.len(),
    ensures
        body[n] matches Statement::If { condition } ==> if_conditions_upto(body, n + 1)
            == if_conditions_upto(body, n).push(condition),
        !(body[n] is If) ==> if_conditions_upto(body, n + 1) == if_conditions_upto(body, n),
{
    match body[n] {
        Statement::If { condition } => {
            assert(if_conditions_upto(body, n + 1) =~= if_conditions_upto(body, n).push(
                condition,
            ));
        },
        _ => {
            assert(if_conditions_upto(body, n + 1) =~= if_conditions_upto(body, n));
        },
    }
}

proof fn lemma_loop_conditions_count_upto(body: Seq<Statement>, n: int)
    ensures
        loop_conditions_upto(body, n).len() == num_breaking_loops_upto(body, n),
    decreases n,
{
    if n > 0 {
        lemma_loop_conditions_count_upto(body, n - 1);
    }
}

/// Loop conditions: extraction yields exactly one entry per top-level `Loop`
/// statement with a present `break_if`, and zero for loops lacking one.
pub proof fn lemma_loop_conditions_count(body: Seq<Statement>)
    ensures
        loop_conditions_of_body(body).len() == num_breaking_loops_upto(body, body.len() as int),
{
    lemma_loop_conditions_count_upto(body, body.len() as int);
}

/// Body order of loop-condition extraction, one statement at a time: a
/// `Loop` with a present `break_if` appends exactly that condition; a `Loop`
/// without one, or any other statement, appends nothing.
pub proof fn lemma_loop_condition_step(body: Seq<Statement>, n: int)
    requires
        0 <= n < body.len(),
    ensures
        body[n] matches Statement::Loop { break_if: Some(condition) } ==> loop_conditions_upto(
            body,
            n + 1,
        ) == loop_conditions_upto(body, n).push(condition),
        !(body[n] matches Statement::Loop { break_if: Some(_) }) ==> loop_conditions_upto(
            body,
            n + 1,
        ) == loop_conditions_upto(body, n),
{
    match body[n] {
        Statement::Loop { break_if: Some(condition) } => {
            assert(loop_conditions_upto(body, n + 1) =~= loop_conditions_upto(body, n).push(
                condition,
            ));
        },
        _ => {
            assert(loop_conditions_upto(body, n + 1) =~= loop_conditions_upto(body, n));
        },
    }
}

/// Combined mode: the `AllConditions` selection equals the `IfConditions`
/// selection over all functions followed by the `LoopConditions` selection
/// over all functions — a concatenation, never an interleaving.
pub proof fn lemma_all_conditions_concat(p: Program)
    ensures
        selected_expressions(p, SelectionMode::AllConditions) == selected_expressions(
            p,
            SelectionMode::IfConditions,
        ) + selected_expressions(p, SelectionMode::LoopConditions),
{
}

proof fn lemma_access_upto_membership(p: Program, f: Function, n: int, i: int)
    requires
        0 <= i <= usize::MAX,
        n <= usize::MAX,
    ensures
        access_handles_upto(p, f, n).contains(Handle { index: i as usize }) <==> (i < n
            && expr_selected(p, f, f.expressions@[i])),
    decreases n,
{
    if n > 0 {
        lemma_access_upto_membership(p, f, n - 1, i);
        let h = Handle { index: i as usize };
        if expr_selected(p, f, f.expressions@[n - 1]) {
            let single = seq![Handle { index: (n - 1) as usize }];
            assert(single[0] == Handle { index: (n - 1) as usize });
            assert(single.contains(h) <==> i == n - 1);
        }
    }
}

/// Access-selection membership: an arena entry's handle appears in the
/// selection exactly when the selection predicate holds of that entry — so a
/// flat indexing expression such as `B[expr]` into a non-struct-typed buffer
/// is selected, while a field projection such as `args.field` out of a
/// struct-typed variable never is.
pub proof fn lemma_access_selection(p: Program, f: Function, i: int)
    requires
        0 <= i < f.expressions@.len(),
        f.expressions@.len() <= usize::MAX,
    ensures
        access_handles_of(p, f).contains(Handle { index: i as usize }) <==> expr_selected(
            p,
            f,
            f.expressions@[i],
        ),
{
    lemma_access_upto_membership(p, f, f.expressions@.len() as int, i);
}

proof fn lemma_access_upto_sorted(p: Program, f: Function, n: int)
    requires
        n <= usize::MAX,
    ensures
        forall|k: int|
            0 <= k < access_handles_upto(p, f, n).len() ==> (#[trigger] access_handles_upto(
                p,
                f,
                n,
            )[k]).index < n,
        forall|a: int, b: int|
            0 <= a < b < access_handles_upto(p, f, n).len() ==> (#[trigger] access_handles_upto(
                p,
                f,
                n,
            )[a]).index < (#[trigger] access_handles_upto(p, f, n)[b]).index,
    decreases n,
{
    if n > 0 {
        lemma_access_upto_sorted(p, f, n - 1);
        let s = access_handles_upto(p, f, n - 1);
        let t = access_handles_upto(p, f, n);
        if expr_selected(p, f, f.expressions@[n - 1]) {
            assert(t =~= s.push(Handle { index: (n - 1) as usize }));
            assert(forall|k: int| 0 <= k < s.len() ==> t[k] == s[k]);
            assert(t[s.len() as int] == Handle { index: (n - 1) as usize });
        } else {
            assert(t =~= s);
        }
    }
}

/// Access-selection order and uniqueness: the selected handles of one
/// function are strictly increasing in arena index, so each qualifying
/// expression is selected exactly once, in arena order.
pub proof fn lemma_access_order(p: Program, f: Function)
    requires
        f.expressions@.len() <= usize::MAX,
    ensures
        forall|a: int, b: int|
            0 <= a < b < access_handles_of(p, f).len() ==> (#[trigger] access_handles_of(p, f)[a]).index
                < (#[trigger] access_handles_of(p, f)[b]).index,
{
    lemma_access_upto_sorted(p, f, f.expressions@.len() as int);
}

} // verus!
