use vstd::prelude::*;
use crate::bindings::registry::{labels_distinct, spec_register, BindingMap};
use crate::bindings::FunctionPointer;
use crate::error::{Error, ErrorType};
use crate::expressions::function::{Function, FunctionView};

verus! {

/// The built-in bindings: each label with its definition and its arity.
pub open spec fn builtin_bindings() -> Seq<FunctionView> {
    seq![
        FunctionView { label: "Pi"@, function: FunctionPointer::Pi, num_inputs: 0 },
        FunctionView { label: "Euler"@, function: FunctionPointer::Euler, num_inputs: 0 },
        FunctionView { label: "Add"@, function: FunctionPointer::Add, num_inputs: 2 },
        FunctionView { label: "Subtract"@, function: FunctionPointer::Subtract, num_inputs: 2 },
        FunctionView { label: "Multiply"@, function: FunctionPointer::Multiply, num_inputs: 2 },
        FunctionView { label: "Divide"@, function: FunctionPointer::Divide, num_inputs: 2 },
        FunctionView { label: "Exponent"@, function: FunctionPointer::Exponent, num_inputs: 2 },
        FunctionView { label: "Modulus"@, function: FunctionPointer::Modulus, num_inputs: 2 },
        FunctionView { label: "Negate"@, function: FunctionPointer::Negate, num_inputs: 1 },
        FunctionView { label: "SquareRoot"@, function: FunctionPointer::SquareRoot, num_inputs: 1 },
        FunctionView { label: "Sine"@, function: FunctionPointer::Sine, num_inputs: 1 },
        FunctionView { label: "Cosine"@, function: FunctionPointer::Cosine, num_inputs: 1 },
        FunctionView { label: "Tangent"@, function: FunctionPointer::Tangent, num_inputs: 1 },
        FunctionView { label: "Arcsine"@, function: FunctionPointer::Arcsine, num_inputs: 1 },
        FunctionView { label: "Arccosine"@, function: FunctionPointer::Arccosine, num_inputs: 1 },
        FunctionView { label: "Arctangent"@, function: FunctionPointer::Arctangent, num_inputs: 1 },
        FunctionView { label: "HypSine"@, function: FunctionPointer::HypSine, num_inputs: 1 },
        FunctionView { label: "HypCosine"@, function: FunctionPointer::HypCosine, num_inputs: 1 },
        FunctionView { label: "HypTangent"@, function: FunctionPointer::HypTangent, num_inputs: 1 },
        FunctionView { label: "InvHypSine"@, function: FunctionPointer::InvHypSine, num_inputs: 1 },
        FunctionView { label: "InvHypCosine"@, function: FunctionPointer::InvHypCosine, num_inputs: 1 },
        FunctionView { label: "InvHypTangent"@, function: FunctionPointer::InvHypTangent, num_inputs: 1 },
        FunctionView { label: "Cosecant"@, function: FunctionPointer::Cosecant, num_inputs: 1 },
        FunctionView { label: "Secant"@, function: FunctionPointer::Secant, num_inputs: 1 },
        FunctionView { label: "Cotangent"@, function: FunctionPointer::Cotangent, num_inputs: 1 },
        FunctionView { label: "LogBaseE"@, function: FunctionPointer::LogBaseE, num_inputs: 1 },
        FunctionView { label: "LogBase10"@, function: FunctionPointer::LogBase10, num_inputs: 1 },
        FunctionView { label: "Abs"@, function: FunctionPointer::Abs, num_inputs: 1 },
        FunctionView { label: "Ceiling"@, function: FunctionPointer::Ceiling, num_inputs: 1 },
        FunctionView { label: "Floor"@, function: FunctionPointer::Floor, num_inputs: 1 },
        FunctionView { label: "Round"@, function: FunctionPointer::Round, num_inputs: 1 },
        FunctionView { label: "Min"@, function: FunctionPointer::Min, num_inputs: 2 },
        FunctionView { label: "Max"@, function: FunctionPointer::Max, num_inputs: 2 },
    ]
}

/// No label occurs twice among the built-in bindings.
proof fn lemma_builtin_labels_distinct()
    ensures
        labels_distinct(builtin_bindings()),
{
    reveal_strlit("Pi");
    reveal_strlit("Euler");
    reveal_strlit("Add");
    reveal_strlit("Subtract");
    reveal_strlit("Multiply");
    reveal_strlit("Divide");
    reveal_strlit("Exponent");
    reveal_strlit("Modulus");
    reveal_strlit("Negate");
    reveal_strlit("SquareRoot");
    reveal_strlit("Sine");
    reveal_strlit("Cosine");
    reveal_strlit("Tangent");
    reveal_strlit("Arcsine");
    reveal_strlit("Arccosine");
    reveal_strlit("Arctangent");
    reveal_strlit("HypSine");
    reveal_strlit("HypCosine");
    reveal_strlit("HypTangent");
    reveal_strlit("InvHypSine");
    reveal_strlit("InvHypCosine");
    reveal_strlit("InvHypTangent");
    reveal_strlit("Cosecant");
    reveal_strlit("Secant");
    reveal_strlit("Cotangent");
    reveal_strlit("LogBaseE");
    reveal_strlit("LogBase10");
    reveal_strlit("Abs");
    reveal_strlit("Ceiling");
    reveal_strlit("Floor");
    reveal_strlit("Round");
    reveal_strlit("Min");
    reveal_strlit("Max");
    let b = builtin_bindings();
    assert forall|i: int, j: int| 0 <= i < j < b.len() implies (#[trigger] b[i]).label != (
    #[trigger] b[j]).label by {
        let x = b[i].label;
        let y = b[j].label;
        if x.len() == y.len() {
            assert(x[0] != y[0] || x[1] != y[1] || x[2] != y[2] || x[x.len() - 1] != y[y.len() - 1]
                || x[x.len() - 2] != y[y.len() - 2]);
        }
    }
}

/// A registry that holds the built-in bindings and no others.
pub fn get_bindings() -> (m: BindingMap)
    ensures
        m.wf(),
        m@ == builtin_bindings(),
{
    let mut entries: Vec<Function> = Vec::new();
    entries.push(Function::new("Pi", FunctionPointer::Pi, 0));
    entries.push(Function::new("Euler", FunctionPointer::Euler, 0));
    entries.push(Function::new("Add", FunctionPointer::Add, 2));
    entries.push(Function::new("Subtract", FunctionPointer::Subtract, 2));
    entries.push(Function::new("Multiply", FunctionPointer::Multiply, 2));
    entries.push(Function::new("Divide", FunctionPointer::Divide, 2));
    entries.push(Function::new("Exponent", FunctionPointer::Exponent, 2));
    entries.push(Function::new("Modulus", FunctionPointer::Modulus, 2));
    entries.push(Function::new("Negate", FunctionPointer::Negate, 1));
    entries.push(Function::new("SquareRoot", FunctionPointer::SquareRoot, 1));
    entries.push(Function::new("Sine", FunctionPointer::Sine, 1));
    entries.push(Function::new("Cosine", FunctionPointer::Cosine, 1));
    entries.push(Function::new("Tangent", FunctionPointer::Tangent, 1));
    entries.push(Function::new("Arcsine", FunctionPointer::Arcsine, 1));
    entries.push(Function::new("Arccosine", FunctionPointer::Arccosine, 1));
    entries.push(Function::new("Arctangent", FunctionPointer::Arctangent, 1));
    entries.push(Function::new("HypSine", FunctionPointer::HypSine, 1));
    entries.push(Function::new("HypCosine", FunctionPointer::HypCosine, 1));
    entries.push(Function::new("HypTangent", FunctionPointer::HypTangent, 1));
    entries.push(Function::new("InvHypSine", FunctionPointer::InvHypSine, 1));
    entries.push(Function::new("InvHypCosine", FunctionPointer::InvHypCosine, 1));
    entries.push(Function::new("InvHypTangent", FunctionPointer::InvHypTangent, 1));
    entries.push(Function::new("Cosecant", FunctionPointer::Cosecant, 1));
    entries.push(Function::new("Secant", FunctionPointer::Secant, 1));
    entries.push(Function::new("Cotangent", FunctionPointer::Cotangent, 1));
    entries.push(Function::new("LogBaseE", FunctionPointer::LogBaseE, 1));
    entries.push(Function::new("LogBase10", FunctionPointer::LogBase10, 1));
    entries.push(Function::new("Abs", FunctionPointer::Abs, 1));
    entries.push(Function::new("Ceiling", FunctionPointer::Ceiling, 1));
    entries.push(Function::new("Floor", FunctionPointer::Floor, 1));
    entries.push(Function::new("Round", FunctionPointer::Round, 1));
    entries.push(Function::new("Min", FunctionPointer::Min, 2));
    entries.push(Function::new("Max", FunctionPointer::Max, 2));
    let m = BindingMap { entries };
    proof {
        assert(m@ =~= builtin_bindings());
        lemma_builtin_labels_distinct();
    }
    m
}

/// Registers `requests` in `map`, in order; see `BindingMap::register_bindings`.
pub fn register_bindings(map: &mut BindingMap, requests: &[(&str, FunctionPointer, usize)]) -> (r:
    Result<(), Error>)
    requires
        old(map).wf(),
    ensures
        final(map).wf(),
        final(map)@ == spec_register(old(map)@, requests@).0,
        match r {
            Ok(()) => spec_register(old(map)@, requests@).1.is_none(),
            Err(e) => e.error_type == ErrorType::BindingError && (spec_register(old(map)@, requests@).1 matches Some(
                label,
            ) && e.message@ == "Binding already registered for label "@ + label),
        },
{
    map.register_bindings(requests)
}

} // verus!
