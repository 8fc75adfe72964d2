use wgsl_dump::model;
use wgsl_dump::resolve::write_expression;
use wgsl_dump::select::{iter_access_expr, iter_if_conditions, iter_loop_conditions};

static WGSL_SHADER_1: &str = r#"
    @group(0) @binding(0) var<storage, read> A : array<f32>;
    @group(0) @binding(1) var<storage, read_write> B : array<f32>;

    struct PODArgs {
        n: i32,
        packGridDimX: u32
    }
    @group(0) @binding(2) var<uniform> podArgs : PODArgs;

    @compute @workgroup_size(32, 1, 1)
    fn main_kernel(
    @builtin(workgroup_id) blockIdx : vec3<u32>,
    @builtin(num_workgroups) gridDim : vec3<u32>,
    @builtin(local_invocation_id) threadIdx : vec3<u32>
    ) {
        if (blockIdx.z * gridDim.x + blockIdx.x > podArgs.packGridDimX) { return; }
        let v__1 : i32 = i32(blockIdx.z * gridDim.x + blockIdx.x);
        if (((v__1 * 32i) + i32(threadIdx.x)) < podArgs.n) {
            B[((v__1 * 32i) + i32(threadIdx.x))] = log(abs((A[((v__1 * 32i) + i32(threadIdx.x))] + 1.000000e+00f)));
        }
    }
    "#;

static WGSL_SHADER_2: &str = r#"
    @group(0) @binding(0) var<storage, read> A : array<f32>;
    @group(0) @binding(1) var<storage, read_write> B : array<f32>;

    struct PODArgs {
        n: i32,
        packGridDimX: u32
    }
    @group(0) @binding(2) var<uniform> podArgs : PODArgs;

    @compute @workgroup_size(32, 1, 1)
    fn main_kernel(
    @builtin(workgroup_id) blockIdx : vec3<u32>,
    @builtin(num_workgroups) gridDim : vec3<u32>,
    @builtin(local_invocation_id) threadIdx : vec3<u32>
    ) {
        let v__2: f32 = B[1+2];
        if (blockIdx.z * gridDim.x + blockIdx.x > podArgs.packGridDimX) { return; }
        let v__1 : i32 = i32(blockIdx.z * gridDim.x + blockIdx.x);
        if (((v__1 * 32i) + i32(threadIdx.x)) < podArgs.n) {
            B[((v__1 * 32i) + i32(threadIdx.x))] = log(abs((A[((v__1 * 32i) + i32(threadIdx.x))] + 1.000000e+00f)));
        }
    }
    "#;

static WGSL_SHADER_LOOP: &str = r#"
    @compute @workgroup_size(1)
    fn main_kernel() {
        var i: i32 = 0;
        loop {
            i = i + 1;
            continuing {
                break if i > 10;
            }
        }
    }
    "#;

fn parse_wgsl(shader: &str) -> naga::Module {
    let module = naga::front::wgsl::parse_str(shader).unwrap();
    let mut validator = naga::valid::Validator::new(
        naga::valid::ValidationFlags::all(),
        naga::valid::Capabilities::all(),
    );
    validator.validate(&module).unwrap();
    module
}

fn convert_handle(h: naga::Handle<naga::Expression>) -> model::Handle {
    model::Handle { index: h.index() }
}

fn convert_function(f: &naga::Function) -> model::Function {
    let body = f
        .body
        .iter()
        .map(|s| match s {
            naga::Statement::If { condition, .. } => model::Statement::If {
                condition: convert_handle(*condition),
            },
            naga::Statement::Loop { break_if, .. } => model::Statement::Loop {
                break_if: break_if.map(convert_handle),
            },
            _ => model::Statement::Other,
        })
        .collect();
    let mut expressions = Vec::new();
    let mut spans = Vec::new();
    for (h, e) in f.expressions.iter() {
        expressions.push(match e {
            naga::Expression::Access { base, index } => model::Expression::Access {
                base: convert_handle(*base),
                index: convert_handle(*index),
            },
            naga::Expression::AccessIndex { base, index } => model::Expression::AccessIndex {
                base: convert_handle(*base),
                index: *index,
            },
            naga::Expression::GlobalVariable(v) => model::Expression::GlobalVariable {
                var: v.index(),
            },
            naga::Expression::LocalVariable(v) => model::Expression::LocalVariable {
                var: v.index(),
            },
            _ => model::Expression::Other,
        });
        let range = f.expressions.get_span(h).to_range().unwrap_or(0..0);
        spans.push(model::Span {
            start: range.start,
            end: range.end,
        });
    }
    let local_variables = f
        .local_variables
        .iter()
        .map(|(_, v)| model::LocalVariable { ty: v.ty.index() })
        .collect();
    model::Function {
        body,
        expressions,
        spans,
        local_variables,
    }
}

fn convert_module(module: &naga::Module) -> model::Program {
    model::Program {
        entry_points: module
            .entry_points
            .iter()
            .map(|ep| model::EntryPoint {
                function: convert_function(&ep.function),
            })
            .collect(),
        functions: module.functions.iter().map(|(_, f)| convert_function(f)).collect(),
        types: module
            .types
            .iter()
            .map(|(_, t)| match t.inner {
                naga::TypeInner::Struct { .. } => model::TypeKind::Struct,
                _ => model::TypeKind::Other,
            })
            .collect(),
        global_variables: module
            .global_variables
            .iter()
            .map(|(_, v)| model::GlobalVariable { ty: v.ty.index() })
            .collect(),
    }
}

fn resolve_all(source: &str, p: &model::Program, pairs: &[(usize, model::Handle)]) -> Vec<String> {
    pairs
        .iter()
        .map(|(fi, h)| {
            let f = model::function_at(p, *fi);
            String::from_utf8(write_expression(source.as_bytes(), f, *h).to_vec()).unwrap()
        })
        .collect()
}

#[test]
fn if_mode_returns_the_two_conditions_in_order() {
    let module = parse_wgsl(WGSL_SHADER_1);
    let p = convert_module(&module);
    let got = resolve_all(WGSL_SHADER_1, &p, &iter_if_conditions(&p));
    assert_eq!(
        got,
        vec![
            "blockIdx.z * gridDim.x + blockIdx.x > podArgs.packGridDimX",
            "((v__1 * 32i) + i32(threadIdx.x)) < podArgs.n",
        ]
    );
}

#[test]
fn access_mode_selects_flat_buffer_indexing_only() {
    let module = parse_wgsl(WGSL_SHADER_1);
    let p = convert_module(&module);
    let got = resolve_all(WGSL_SHADER_1, &p, &iter_access_expr(&p));
    assert_eq!(
        got,
        vec![
            "B[((v__1 * 32i) + i32(threadIdx.x))]",
            "A[((v__1 * 32i) + i32(threadIdx.x))]",
        ]
    );
}

#[test]
fn access_mode_keeps_prior_relative_order_after_added_statement() {
    let module = parse_wgsl(WGSL_SHADER_2);
    let p = convert_module(&module);
    let got = resolve_all(WGSL_SHADER_2, &p, &iter_access_expr(&p));
    assert_eq!(
        got,
        vec![
            "B[1+2]",
            "B[((v__1 * 32i) + i32(threadIdx.x))]",
            "A[((v__1 * 32i) + i32(threadIdx.x))]",
        ]
    );
}

static WGSL_SHADER_NESTED_IF: &str = r#"
    @compute @workgroup_size(1)
    fn main_kernel() {
        var i: i32 = 0;
        if (i < 4) {
            if (i < 2) {
                i = 1;
            }
        }
    }
    "#;

#[test]
fn if_mode_does_not_descend_into_nested_blocks() {
    let module = parse_wgsl(WGSL_SHADER_NESTED_IF);
    let p = convert_module(&module);
    let got = resolve_all(WGSL_SHADER_NESTED_IF, &p, &iter_if_conditions(&p));
    assert_eq!(got, vec!["i < 4"]);
}

#[test]
fn loop_mode_returns_the_break_condition() {
    let module = parse_wgsl(WGSL_SHADER_LOOP);
    let p = convert_module(&module);
    let got = resolve_all(WGSL_SHADER_LOOP, &p, &iter_loop_conditions(&p));
    assert_eq!(got, vec!["i > 10"]);
}
