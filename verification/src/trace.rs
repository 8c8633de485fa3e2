//! Which tensors of a function are worth tracing, and how a trace is written.

use vstd::prelude::*;

verus! {

/// A type, as far as it is looked at.
#[derive(Debug)]
pub enum Type {
    /// A path of named segments.
    Path(Vec<PathSegment>),
    Tuple(Vec<Type>),
    /// Any other type.
    Other,
}

/// A segment of a path.
#[derive(Debug)]
pub struct PathSegment {
    pub ident: String,
    pub arguments: PathArguments,
}

/// What follows the name of a segment.
#[derive(Debug)]
pub enum PathArguments {
    /// Arguments in angle brackets.
    AngleBracketed(Vec<GenericArgument>),
    /// Anything else, or nothing.
    Other,
}

/// An argument in angle brackets.
#[derive(Debug)]
pub enum GenericArgument {
    Type(Type),
    /// Any other argument.
    Other,
}

/// A parameter of a function.
#[derive(Debug)]
pub enum FnArg {
    /// The value that a method is called on.
    Receiver,
    /// A pattern with a type.
    Typed(Pat, Type),
}

/// What a parameter is bound to.
#[derive(Debug)]
pub enum Pat {
    Ident(String),
    /// Any other pattern.
    Other,
}

/// What a function returns.
#[derive(Debug)]
pub enum ReturnType {
    /// Nothing is said.
    Default,
    Type(Type),
}

/// Whether a parameter is a tensor.
#[derive(Clone, Copy, PartialEq, Eq, Debug, Structural)]
pub enum TensorKind {
    Plain,
    Option,
    Neither,
}

/// Which parts of a result are tensors.
#[derive(Debug)]
pub enum OutputKind {
    PlainTensor,
    /// The places of the tensors in a tuple.
    TupleWithTensors(Vec<usize>),
    NoTensor,
}

impl Type {
    /// Whether the type is a path that ends in `Tensor`.
    pub open spec fn is_tensor(self) -> bool {
        &&& self matches Type::Path(segments)
        &&& segments.len() > 0
        &&& segments@.last().ident@ == "Tensor"@
    }

    /// Whether a parameter of the type is a tensor, or an option whose first argument is one.
    pub open spec fn kind(self) -> TensorKind {
        if self.is_tensor() {
            TensorKind::Plain
        } else if self.is_tensor_option() {
            TensorKind::Option
        } else {
            TensorKind::Neither
        }
    }

    /// Whether the type is an option whose first argument is a tensor.
    pub open spec fn is_tensor_option(self) -> bool {
        &&& self matches Type::Path(segments)
        &&& segments.len() > 0
        &&& segments@.last().ident@ == "Option"@
        &&& segments@.last().arguments matches PathArguments::AngleBracketed(args)
        &&& args.len() > 0
        &&& args@[0] matches GenericArgument::Type(inner)
        &&& inner.is_tensor()
    }
}

/// Whether the type is a path that ends in `Tensor`.
pub fn is_tensor_type(ty: &Type) -> (r: bool)
    ensures
        r == ty.is_tensor(),
{
    match ty {
        Type::Path(segments) => {
            let n: usize = segments.len();
            let tensor = "Tensor".to_owned();
            n > 0 && segments[n - 1].ident == tensor
        },
        _ => false,
    }
}

/// Whether a parameter of the type is a tensor, or an option of one.
pub fn classify_type(ty: &Type) -> (r: TensorKind)
    ensures
        r == ty.kind(),
{
    if is_tensor_type(ty) {
        return TensorKind::Plain;
    }
    match ty {
        Type::Path(segments) => {
            let n: usize = segments.len();
            if n == 0 {
                return TensorKind::Neither;
            }
            let option = "Option".to_owned();
            if segments[n - 1].ident != option {
                return TensorKind::Neither;
            }
            match &segments[n - 1].arguments {
                PathArguments::AngleBracketed(args) => {
                    if args.len() > 0 {
                        match &args[0] {
                            GenericArgument::Type(inner) => {
                                if is_tensor_type(inner) {
                                    return TensorKind::Option;
                                }
                            },
                            GenericArgument::Other => {},
                        }
                    }
                    TensorKind::Neither
                },
                PathArguments::Other => TensorKind::Neither,
            }
        },
        _ => TensorKind::Neither,
    }
}

/// The places of the tensors among the first `n` types.
pub open spec fn tensor_places(elems: Seq<Type>, n: nat) -> Seq<usize>
    decreases n,
{
    if n == 0 {
        seq![]
    } else {
        let before = tensor_places(elems, (n - 1) as nat);
        if elems[n - 1].is_tensor() {
            before.push((n - 1) as usize)
        } else {
            before
        }
    }
}

/// Whether `kind` tells which parts of a result of the type are tensors.
pub open spec fn is_output_kind(ty: Type, kind: OutputKind) -> bool {
    if ty.is_tensor() {
        kind is PlainTensor
    } else {
        match ty {
            Type::Tuple(elems) => {
                let places = tensor_places(elems@, elems.len() as nat);
                if places.len() > 0 {
                    kind matches OutputKind::TupleWithTensors(indices) && indices@ == places
                } else {
                    kind is NoTensor
                }
            },
            _ => kind is NoTensor,
        }
    }
}

/// Which parts of a result of the type are tensors.
pub fn classify_output_type(ty: &Type) -> (r: OutputKind)
    ensures
        is_output_kind(*ty, r),
{
    if is_tensor_type(ty) {
        return OutputKind::PlainTensor;
    }
    match ty {
        Type::Tuple(elems) => {
            let mut indices: Vec<usize> = Vec::new();
            let mut i: usize = 0;
            while i < elems.len()
                invariant
                    i <= elems.len(),
                    indices@ == tensor_places(elems@, i as nat),
                decreases elems.len() - i,
            {
                if is_tensor_type(&elems[i]) {
                    indices.push(i);
                }
                i += 1;
            }
            if indices.len() > 0 {
                OutputKind::TupleWithTensors(indices)
            } else {
                OutputKind::NoTensor
            }
        },
        _ => OutputKind::NoTensor,
    }
}

/// The names and kinds of the tensors among the first `n` parameters.
pub open spec fn tensor_params(inputs: Seq<FnArg>, n: nat) -> Seq<(Seq<char>, TensorKind)>
    decreases n,
{
    if n == 0 {
        seq![]
    } else {
        let before = tensor_params(inputs, (n - 1) as nat);
        match inputs[n - 1] {
            FnArg::Typed(Pat::Ident(name), ty) => if ty.kind() != TensorKind::Neither {
                before.push((name@, ty.kind()))
            } else {
                before
            },
            _ => before,
        }
    }
}

/// Whether a list holds these names and kinds.
pub open spec fn is_params(
    list: Seq<(String, TensorKind)>,
    params: Seq<(Seq<char>, TensorKind)>,
) -> bool {
    &&& list.len() == params.len()
    &&& forall|i: int|
        0 <= i < list.len() ==> (#[trigger] list[i]).0@ == params[i].0 && list[i].1 == params[i].1
}

/// The names and kinds of the parameters that are tensors, in order.
pub fn collect_tensor_params(inputs: &Vec<FnArg>) -> (r: Vec<(String, TensorKind)>)
    ensures
        is_params(r@, tensor_params(inputs@, inputs.len() as nat)),
{
    let mut result: Vec<(String, TensorKind)> = Vec::new();
    let mut i: usize = 0;
    while i < inputs.len()
        invariant
            i <= inputs.len(),
            is_params(result@, tensor_params(inputs@, i as nat)),
        decreases inputs.len() - i,
    {
        match &inputs[i] {
            FnArg::Typed(Pat::Ident(name), ty) => {
                let kind = classify_type(ty);
                match kind {
                    TensorKind::Neither => {},
                    _ => result.push((name.clone(), kind)),
                }
            },
            _ => {},
        }
        i += 1;
    }
    result
}

/// `n` places to fill in, with commas in between.
pub open spec fn places(n: nat) -> Seq<char>
    decreases n,
{
    if n == 0 {
        Seq::empty()
    } else if n == 1 {
        "{:?}"@
    } else {
        places((n - 1) as nat) + ", "@ + "{:?}"@
    }
}

fn joined_places(n: usize) -> (r: String)
    ensures
        r@ == places(n as nat),
{
    let mut joined = String::new();
    let mut i: usize = 0;
    while i < n
        invariant
            i <= n,
            joined@ == places(i as nat),
        decreases n - i,
    {
        if i > 0 {
            joined.append(", ");
        }
        proof {
            assert(Seq::<char>::empty() + "{:?}"@ =~= "{:?}"@);
        }
        joined.append("{:?}");
        i += 1;
    }
    joined
}

/// The names of the first `n` parameters, each with a place to fill in, with commas in between.
pub open spec fn named_places(params: Seq<(Seq<char>, TensorKind)>, n: nat) -> Seq<char>
    decreases n,
{
    if n == 0 {
        Seq::empty()
    } else if n == 1 {
        params[0].0 + ": {:?}"@
    } else {
        named_places(params, (n - 1) as nat) + ", "@ + params[n - 1].0 + ": {:?}"@
    }
}

/// How the shape of a result is written.
pub open spec fn output_format(output: OutputKind) -> Seq<char> {
    match output {
        OutputKind::PlainTensor => " -> {:?}"@,
        OutputKind::TupleWithTensors(indices) => " -> ("@ + places(indices.len() as nat) + ")"@,
        OutputKind::NoTensor => Seq::empty(),
    }
}

/// How the shape of a result is written, and which parts of it fill the places.
pub fn build_output_parts(ret: &ReturnType) -> (r: (String, OutputKind))
    ensures
        r.0@ == output_format(r.1),
        match *ret {
            ReturnType::Default => r.1 is NoTensor,
            ReturnType::Type(ty) => is_output_kind(ty, r.1),
        },
{
    match ret {
        ReturnType::Default => (String::new(), OutputKind::NoTensor),
        ReturnType::Type(ty) => match classify_output_type(ty) {
            OutputKind::PlainTensor => (" -> {:?}".to_owned(), OutputKind::PlainTensor),
            OutputKind::TupleWithTensors(indices) => {
                let parts = joined_places(indices.len());
                let mut fmt = " -> (".to_owned();
                fmt.append(parts.as_str());
                fmt.append(")");
                (fmt, OutputKind::TupleWithTensors(indices))
            },
            OutputKind::NoTensor => (String::new(), OutputKind::NoTensor),
        },
    }
}

/// A tensor whose shape is kept from before the call.
#[derive(Debug)]
pub struct Capture {
    /// The parameter.
    pub source: String,
    /// Where its shape is kept.
    pub target: String,
    pub kind: TensorKind,
}

/// How a function is traced.
#[derive(Debug)]
pub struct TracePlan {
    /// The line, with places for the name of the type, the shapes before and those after.
    pub format: String,
    pub captures: Vec<Capture>,
    pub output: OutputKind,
}

/// The header of a function, as far as it is looked at.
#[derive(Debug)]
pub struct Signature {
    pub ident: String,
    pub inputs: Vec<FnArg>,
    pub output: ReturnType,
}

/// Whether the captures are those of the parameters.
pub open spec fn is_captures(
    captures: Seq<Capture>,
    params: Seq<(Seq<char>, TensorKind)>,
) -> bool {
    &&& captures.len() == params.len()
    &&& forall|i: int|
        0 <= i < captures.len() ==> {
            let capture = #[trigger] captures[i];
            &&& capture.source@ == params[i].0
            &&& capture.target@ == "__trace_in_"@ + params[i].0
            &&& capture.kind == params[i].1
        }
}

impl TracePlan {
    /// Whether a function is traced so: the shapes of its tensor parameters are kept before the
    /// call, and written under their names with those of the tensors in its result, as in
    /// `[forward] WNConv1d (x: [1, 32, 30500]) -> [1, 32, 30500]`.
    pub open spec fn traces(self, func: Signature) -> bool {
        let params = tensor_params(func.inputs@, func.inputs.len() as nat);
        &&& is_captures(self.captures@, params)
        &&& self.format@ == "["@ + func.ident@ + "] {} "@ + ("("@ + named_places(
            params,
            params.len(),
        ) + ")"@) + output_format(self.output)
        &&& match func.output {
            ReturnType::Default => self.output is NoTensor,
            ReturnType::Type(ty) => is_output_kind(ty, self.output),
        }
    }
}

/// Attribute for functions whose input and output shapes are to be traced, with one line per call.
pub fn trace_shapes(item: &Signature) -> (r: TracePlan)
    ensures
        r.traces(*item),
{
    transform_fn(item)
}

/// How a function is traced.
pub fn transform_fn(func: &Signature) -> (r: TracePlan)
    ensures
        r.traces(*func),
{
    let found = collect_tensor_params(&func.inputs);
    let ghost params = tensor_params(func.inputs@, func.inputs.len() as nat);
    let mut parts = String::new();
    let mut captures: Vec<Capture> = Vec::new();
    let mut i: usize = 0;
    while i < found.len()
        invariant
            i <= found.len(),
            is_params(found@, params),
            parts@ == named_places(params, i as nat),
            is_captures(captures@, params.take(i as int)),
        decreases found.len() - i,
    {
        if i > 0 {
            parts.append(", ");
        }
        parts.append(found[i].0.as_str());
        parts.append(": {:?}");
        proof {
            assert(Seq::<char>::empty() + params[0].0 =~= params[0].0);
        }
        let mut target = "__trace_in_".to_owned();
        target.append(found[i].0.as_str());
        captures.push(Capture { source: found[i].0.clone(), target, kind: found[i].1 });
        i += 1;
    }
    proof {
        assert(params.take(params.len() as int) =~= params);
    }
    let mut inputs_fmt = "(".to_owned();
    inputs_fmt.append(parts.as_str());
    inputs_fmt.append(")");
    let (output_fmt, output) = build_output_parts(&func.output);
    let mut format = "[".to_owned();
    format.append(func.ident.as_str());
    format.append("] {} ");
    format.append(inputs_fmt.as_str());
    format.append(output_fmt.as_str());
    TracePlan { format, captures, output }
}

} // verus!
