//! Plans for tracing.

use piper_vits::trace::{
    build_output_parts, classify_output_type, classify_type, collect_tensor_params,
    is_tensor_type, trace_shapes, transform_fn, FnArg, GenericArgument, OutputKind, Pat,
    PathArguments, PathSegment, ReturnType, Signature, TensorKind, Type,
};

fn segment(ident: &str) -> PathSegment {
    PathSegment { ident: ident.to_string(), arguments: PathArguments::Other }
}

fn plain(ident: &str) -> Type {
    Type::Path(vec![segment(ident)])
}

fn tensor() -> Type {
    Type::Path(vec![
        segment("burn"),
        PathSegment {
            ident: "Tensor".to_string(),
            arguments: PathArguments::AngleBracketed(vec![
                GenericArgument::Type(plain("B")),
                GenericArgument::Other,
            ]),
        },
    ])
}

fn option(inner: GenericArgument) -> Type {
    Type::Path(vec![PathSegment {
        ident: "Option".to_string(),
        arguments: PathArguments::AngleBracketed(vec![inner]),
    }])
}

fn typed(name: &str, ty: Type) -> FnArg {
    FnArg::Typed(Pat::Ident(name.to_string()), ty)
}

#[test]
fn tensors_are_recognised() {
    assert!(is_tensor_type(&tensor()));
    assert!(!is_tensor_type(&plain("f64")));
    assert!(!is_tensor_type(&Type::Path(vec![segment("Tensor"), segment("Shape")])));
    assert!(!is_tensor_type(&Type::Path(vec![])));
    assert!(!is_tensor_type(&Type::Other));
    assert!(!is_tensor_type(&Type::Tuple(vec![tensor()])));
}

#[test]
fn options_of_tensors_are_recognised() {
    assert_eq!(classify_type(&tensor()), TensorKind::Plain);
    assert_eq!(classify_type(&option(GenericArgument::Type(tensor()))), TensorKind::Option);
    assert_eq!(
        classify_type(&option(GenericArgument::Type(plain("usize")))),
        TensorKind::Neither
    );
    assert_eq!(classify_type(&option(GenericArgument::Other)), TensorKind::Neither);
    assert_eq!(classify_type(&plain("Option")), TensorKind::Neither);
    assert_eq!(classify_type(&Type::Other), TensorKind::Neither);
}

#[test]
fn results_are_sorted() {
    assert!(matches!(classify_output_type(&tensor()), OutputKind::PlainTensor));
    let pair = Type::Tuple(vec![tensor(), plain("f32"), tensor()]);
    match classify_output_type(&pair) {
        OutputKind::TupleWithTensors(places) => assert_eq!(places, vec![0, 2]),
        other => panic!("{:?}", other),
    }
    let none = Type::Tuple(vec![plain("f32")]);
    assert!(matches!(classify_output_type(&none), OutputKind::NoTensor));
    assert!(matches!(classify_output_type(&Type::Other), OutputKind::NoTensor));
}

#[test]
fn parts_of_results_are_written() {
    assert_eq!(build_output_parts(&ReturnType::Default).0, "");
    assert_eq!(build_output_parts(&ReturnType::Type(tensor())).0, " -> {:?}");
    let pair = Type::Tuple(vec![tensor(), tensor()]);
    assert_eq!(build_output_parts(&ReturnType::Type(pair)).0, " -> ({:?}, {:?})");
    assert_eq!(build_output_parts(&ReturnType::Type(plain("f32"))).0, "");
}

#[test]
fn parameters_are_collected_in_order() {
    let inputs = vec![
        FnArg::Receiver,
        typed("x", tensor()),
        typed("n", plain("usize")),
        FnArg::Typed(Pat::Other, tensor()),
        typed("mask", option(GenericArgument::Type(tensor()))),
    ];
    assert_eq!(
        collect_tensor_params(&inputs),
        vec![
            ("x".to_string(), TensorKind::Plain),
            ("mask".to_string(), TensorKind::Option)
        ]
    );
}

#[test]
fn a_line_is_written_per_call() {
    let func = Signature {
        ident: "forward".to_string(),
        inputs: vec![FnArg::Receiver, typed("x", tensor())],
        output: ReturnType::Type(tensor()),
    };
    let plan = trace_shapes(&func);
    assert_eq!(plan.format, "[forward] {} (x: {:?}) -> {:?}");
    assert_eq!(plan.captures.len(), 1);
    assert_eq!(plan.captures[0].source, "x");
    assert_eq!(plan.captures[0].target, "__trace_in_x");
    assert_eq!(plan.captures[0].kind, TensorKind::Plain);
    assert!(matches!(plan.output, OutputKind::PlainTensor));
    let line = plan
        .format
        .replacen("{}", "WNConv1d", 1)
        .replace("{:?}", "[1, 32, 30500]");
    assert_eq!(line, "[forward] WNConv1d (x: [1, 32, 30500]) -> [1, 32, 30500]");
}

#[test]
fn several_tensors_are_written() {
    let func = Signature {
        ident: "attention".to_string(),
        inputs: vec![
            FnArg::Receiver,
            typed("query", tensor()),
            typed("key", tensor()),
            typed("mask", option(GenericArgument::Type(tensor()))),
        ],
        output: ReturnType::Type(Type::Tuple(vec![tensor(), tensor()])),
    };
    assert_eq!(
        transform_fn(&func).format,
        "[attention] {} (query: {:?}, key: {:?}, mask: {:?}) -> ({:?}, {:?})"
    );
    let bare = Signature {
        ident: "init".to_string(),
        inputs: vec![],
        output: ReturnType::Default,
    };
    assert_eq!(transform_fn(&bare).format, "[init] {} ()");
}
