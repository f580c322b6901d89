use vstd::prelude::*;
use crate::call::Call;
use crate::command::{
    CommandKind, count_length_err, count_length_ok, count_length_succeeds, run_count_length,
};
use crate::error::{
    ErrorModel, LabeledError, TypeError, display_name, type_error_model,
};
use crate::registry::Registry;
use crate::signature::{Signature, first_violation, input_accepted, validate};
use crate::span::Span;
use crate::value::{Type, Value, type_matches};

verus! {

/// The first registry entry carrying the requested command name.
pub open spec fn lookup_from(reg: Registry, name: Seq<char>, i: int) -> Option<int>
    decreases reg.commands@.len() - i,
{
    if i < 0 || i >= reg.commands@.len() {
        None
    } else if reg.commands@[i].signature.name@ == name {
        Some(i)
    } else {
        lookup_from(reg, name, i + 1)
    }
}

pub open spec fn lookup(reg: Registry, name: Seq<char>) -> Option<int> {
    lookup_from(reg, name, 0)
}

/// The first declared (input, output) pair whose input type accepts the
/// given variant; declaration order is authoritative.
pub open spec fn first_accepting_from(sig: Signature, actual: Type, i: int) -> Option<int>
    decreases sig.input_output_types@.len() - i,
{
    if i < 0 || i >= sig.input_output_types@.len() {
        None
    } else if type_matches(sig.input_output_types@[i].0, actual) {
        Some(i)
    } else {
        first_accepting_from(sig, actual, i + 1)
    }
}

/// The output type declared for the given input variant: the second half of
/// the first accepting pair.
pub open spec fn declared_output(sig: Signature, actual: Type) -> Option<Type> {
    match first_accepting_from(sig, actual, 0) {
        Some(i) => Some(sig.input_output_types@[i].1),
        None => None,
    }
}

proof fn lemma_first_accepting(sig: Signature, actual: Type, i: int)
    requires
        0 <= i <= sig.input_output_types@.len(),
    ensures
        (first_accepting_from(sig, actual, i) is Some) <==> (exists|k: int|
            i <= k < sig.input_output_types@.len() && type_matches(
                #[trigger] sig.input_output_types@[k].0,
                actual,
            )),
    decreases sig.input_output_types@.len() - i,
{
    if i < sig.input_output_types@.len() {
        lemma_first_accepting(sig, actual, i + 1);
    }
}

/// An accepted input always has a declared output to hold the result to.
pub proof fn lemma_accepted_has_output(sig: Signature, actual: Type)
    requires
        input_accepted(sig, actual),
    ensures
        declared_output(sig, actual) is Some,
{
    lemma_first_accepting(sig, actual, 0);
}

/// What a successful run of the given command means.
pub open spec fn run_outcome_ok(kind: CommandKind, call: Call, input: Value, v: Value) -> bool {
    match kind {
        CommandKind::CountLength => count_length_ok(call, input, v),
    }
}

/// What a failing run of the given command reports.
pub open spec fn run_outcome_err(kind: CommandKind, call: Call, input: Value, e: ErrorModel)
    -> bool {
    match kind {
        CommandKind::CountLength => count_length_err(call, input, e),
    }
}

/// When the given command succeeds.
pub open spec fn run_succeeds(kind: CommandKind, call: Call, input: Value) -> bool {
    match kind {
        CommandKind::CountLength => count_length_succeeds(call, input),
    }
}

/// A command's successful result is a function of the call and input alone.
proof fn lemma_run_outcome_unique(
    kind: CommandKind,
    call: Call,
    input: Value,
    v1: Value,
    v2: Value,
)
    requires
        run_outcome_ok(kind, call, input, v1),
        run_outcome_ok(kind, call, input, v2),
    ensures
        v1 == v2,
{
}

/// A command's failure report is a function of the call and input alone.
proof fn lemma_run_err_unique(
    kind: CommandKind,
    call: Call,
    input: Value,
    e1: ErrorModel,
    e2: ErrorModel,
)
    requires
        run_outcome_err(kind, call, input, e1),
        run_outcome_err(kind, call, input, e2),
    ensures
        e1 == e2,
{
}

/// Runs the implementation the registry resolved, against the validated
/// call and input.
fn run_command(kind: CommandKind, call: &Call, input: &Value) -> (r: Result<Value, LabeledError>)
    ensures
        match r {
            Ok(v) => run_outcome_ok(kind, *call, *input, v),
            Err(e) => run_outcome_err(kind, *call, *input, e@),
        },
        (r is Ok) == run_succeeds(kind, *call, *input),
{
    match kind {
        CommandKind::CountLength => run_count_length(call, input),
    }
}

/// How an unknown command name is reported: fatal to the call, not to the
/// process.
pub open spec fn unknown_command_model(name: String, head: Span) -> ErrorModel {
    ErrorModel {
        msg: "no such command: "@ + name@,
        labels: seq![("unknown command name"@, head)],
        help: None,
    }
}

/// How a command returning a value of an undeclared variant is reported: a
/// plugin-authoring bug surfaced as an internal error, never coerced.
pub open spec fn output_mismatch_model(declared: Type, actual: Type, span: Span) -> ErrorModel {
    ErrorModel {
        msg: "internal error: command returned a value of an undeclared type"@,
        labels: seq![
            ("expected "@ + display_name(declared) + ", found "@ + display_name(actual), span),
        ],
        help: None,
    }
}

/// The full outcome of one dispatch, as a predicate over the result: the
/// command is resolved by name, the call is validated against its
/// signature, the implementation runs, and its successful value is held to
/// the declared output type. Each failure case pins the reported error.
pub open spec fn dispatch_post(
    reg: Registry,
    name: String,
    call: Call,
    input: Value,
    r: Result<Value, LabeledError>,
) -> bool {
    match lookup(reg, name@) {
        None => r matches Err(e) && e@ == unknown_command_model(name, call.head),
        Some(ci) => {
            let sig = reg.commands@[ci].signature;
            let kind = reg.commands@[ci].kind;
            match first_violation(sig, call, input) {
                Some(te) => r matches Err(e) && e@ == type_error_model(te),
                None => if !run_succeeds(kind, call, input) {
                    r matches Err(e) && run_outcome_err(kind, call, input, e@)
                } else {
                    match r {
                        Ok(v) => {
                            &&& run_outcome_ok(kind, call, input, v)
                            &&& declared_output(sig, input.variant_type()) matches Some(t)
                                && type_matches(t, v.variant_type())
                        },
                        Err(e) => exists|v: Value|
                            {
                                &&& #[trigger] run_outcome_ok(kind, call, input, v)
                                &&& declared_output(sig, input.variant_type()) matches Some(t)
                                    && !type_matches(t, v.variant_type()) && e@
                                    == output_mismatch_model(t, v.variant_type(), v.spec_span())
                            },
                    }
                },
            }
        },
    }
}

/// Dispatch mutates nothing and its outcome is a function of the registry,
/// the name, the call and the input alone: two dispatches with equal inputs
/// yield equal results, up to the reported error's content.
pub proof fn lemma_dispatch_idempotent(
    reg: Registry,
    name: String,
    call: Call,
    input: Value,
    r1: Result<Value, LabeledError>,
    r2: Result<Value, LabeledError>,
)
    requires
        dispatch_post(reg, name, call, input, r1),
        dispatch_post(reg, name, call, input, r2),
    ensures
        match (r1, r2) {
            (Result::Ok(a), Result::Ok(b)) => a == b,
            (Result::Err(a), Result::Err(b)) => a@ == b@,
            _ => false,
        },
{
    match lookup(reg, name@) {
        None => {},
        Some(ci) => {
            let sig = reg.commands@[ci].signature;
            let kind = reg.commands@[ci].kind;
            match first_violation(sig, call, input) {
                Some(te) => {},
                None => {
                    if run_succeeds(kind, call, input) {
                        match (r1, r2) {
                            (Result::Ok(a), Result::Ok(b)) => {
                                lemma_run_outcome_unique(kind, call, input, a, b);
                            },
                            (Result::Ok(a), Result::Err(b)) => {
                                let v2 = choose|v: Value|
                                    #[trigger] run_outcome_ok(kind, call, input, v)
                                        && (declared_output(sig, input.variant_type())
                                        matches Some(t) && !type_matches(t, v.variant_type())
                                        && b@ == output_mismatch_model(
                                        t,
                                        v.variant_type(),
                                        v.spec_span(),
                                    ));
                                lemma_run_outcome_unique(kind, call, input, a, v2);
                            },
                            (Result::Err(a), Result::Ok(b)) => {
                                let v1 = choose|v: Value|
                                    #[trigger] run_outcome_ok(kind, call, input, v)
                                        && (declared_output(sig, input.variant_type())
                                        matches Some(t) && !type_matches(t, v.variant_type())
                                        && a@ == output_mismatch_model(
                                        t,
                                        v.variant_type(),
                                        v.spec_span(),
                                    ));
                                lemma_run_outcome_unique(kind, call, input, v1, b);
                            },
                            (Result::Err(a), Result::Err(b)) => {
                                let v1 = choose|v: Value|
                                    #[trigger] run_outcome_ok(kind, call, input, v)
                                        && (declared_output(sig, input.variant_type())
                                        matches Some(t) && !type_matches(t, v.variant_type())
                                        && a@ == output_mismatch_model(
                                        t,
                                        v.variant_type(),
                                        v.spec_span(),
                                    ));
                                let v2 = choose|v: Value|
                                    #[trigger] run_outcome_ok(kind, call, input, v)
                                        && (declared_output(sig, input.variant_type())
                                        matches Some(t) && !type_matches(t, v.variant_type())
                                        && b@ == output_mismatch_model(
                                        t,
                                        v.variant_type(),
                                        v.spec_span(),
                                    ));
                                lemma_run_outcome_unique(kind, call, input, v1, v2);
                            },
                        }
                    } else {
                        match (r1, r2) {
                            (Result::Err(a), Result::Err(b)) => {
                                lemma_run_err_unique(kind, call, input, a@, b@);
                            },
                            _ => {},
                        }
                    }
                },
            }
        },
    }
}

/// Dispatch is idempotent with respect to the registry, with spans set
/// aside: dispatching the same command name twice against the same registry,
/// with calls and inputs that are structurally equal, succeeds or fails
/// together, and two successes return structurally equal values.
pub proof fn lemma_dispatch_idempotent_content(
    reg: Registry,
    name: String,
    c1: Call,
    i1: Value,
    r1: Result<Value, LabeledError>,
    c2: Call,
    i2: Value,
    r2: Result<Value, LabeledError>,
)
    requires
        dispatch_post(reg, name, c1, i1, r1),
        dispatch_post(reg, name, c2, i2, r2),
        crate::call::call_same_content(c1, c2),
        i1.content() == i2.content(),
    ensures
        (r1 is Ok) == (r2 is Ok),
        r1 matches Ok(a) ==> (r2 matches Ok(b) && a.same_content(b)),
{
    crate::value::lemma_content_determines_variant(i1, i2);
    match lookup(reg, name@) {
        None => {},
        Some(ci) => {
            let sig = reg.commands@[ci].signature;
            let kind = reg.commands@[ci].kind;
            crate::signature::lemma_validation_same(sig, c1, i1, c2, i2);
            if first_violation(sig, c1, i1) is None {
                crate::command::lemma_count_length_succeeds_same(c1, i1, c2, i2);
                if run_succeeds(kind, c1, i1) {
                    match (r1, r2) {
                        (Result::Ok(a), Result::Ok(b)) => {
                            crate::command::lemma_count_length_ok_same(c1, i1, a, c2, i2, b);
                        },
                        (Result::Ok(a), Result::Err(b)) => {
                            let v2 = choose|v: Value|
                                #[trigger] run_outcome_ok(kind, c2, i2, v) && (declared_output(
                                    sig,
                                    i2.variant_type(),
                                ) matches Some(t) && !type_matches(t, v.variant_type()) && b@
                                    == output_mismatch_model(t, v.variant_type(), v.spec_span()));
                            crate::command::lemma_count_length_ok_same(c1, i1, a, c2, i2, v2);
                            crate::value::lemma_content_determines_variant(a, v2);
                        },
                        (Result::Err(a), Result::Ok(b)) => {
                            let v1 = choose|v: Value|
                                #[trigger] run_outcome_ok(kind, c1, i1, v) && (declared_output(
                                    sig,
                                    i1.variant_type(),
                                ) matches Some(t) && !type_matches(t, v.variant_type()) && a@
                                    == output_mismatch_model(t, v.variant_type(), v.spec_span()));
                            crate::command::lemma_count_length_ok_same(c1, i1, v1, c2, i2, b);
                            crate::value::lemma_content_determines_variant(v1, b);
                        },
                        (Result::Err(a), Result::Err(b)) => {},
                    }
                }
            }
        },
    }
}

/// The index of the first registry entry carrying the requested name.
fn find_command(reg: &Registry, name: &String) -> (o: Option<usize>)
    ensures
        match o {
            Some(ci) => ci < reg.commands@.len() && lookup(*reg, name@) == Some(ci as int),
            None => lookup(*reg, name@) is None,
        },
{
    let n = reg.commands.len();
    for i in 0..n
        invariant
            n == reg.commands@.len(),
            lookup(*reg, name@) == lookup_from(*reg, name@, i as int),
    {
        if reg.commands[i].signature.name.eq(name) {
            return Some(i);
        }
    }
    None
}

/// The output type declared for the given input variant, as executable
/// code.
fn find_declared_output(sig: &Signature, actual: Type) -> (o: Option<Type>)
    ensures
        o == declared_output(*sig, actual),
{
    let n = sig.input_output_types.len();
    for i in 0..n
        invariant
            n == sig.input_output_types@.len(),
            first_accepting_from(*sig, actual, 0) == first_accepting_from(*sig, actual, i as int),
    {
        if sig.input_output_types[i].0.accepts(actual) {
            return Some(sig.input_output_types[i].1);
        }
    }
    None
}

/// Resolves the command by name, validates the call and input against its
/// signature, runs the implementation, and holds a successful result to the
/// declared output type; every failure is reported as a structured error
/// local to this one call.
#[verifier::loop_isolation(false)]
pub fn dispatch(reg: &Registry, name: &String, call: &Call, input: &Value) -> (r: Result<
    Value,
    LabeledError,
>)
    ensures
        dispatch_post(*reg, *name, *call, *input, r),
{
    let ci = match find_command(reg, name) {
        Some(ci) => ci,
        None => {
            let mut msg = "no such command: ".to_owned();
            crate::error::append(&mut msg, name.as_str());
            let e = LabeledError::new(msg.as_str()).with_label(
                "unknown command name",
                call.head_span(),
            );
            proof {
                assert(e@.labels =~= seq![("unknown command name"@, call.head)]);
            }
            return Err(e);
        },
    };
    let entry = &reg.commands[ci];
    match validate(&entry.signature, call, input) {
        Err(te) => {
            return Err(te.to_labeled());
        },
        Ok(_) => {},
    }
    let out = match run_command(entry.kind, call, input) {
        Ok(v) => v,
        Err(e) => {
            return Err(e);
        },
    };
    proof {
        lemma_accepted_has_output(entry.signature, input.variant_type());
    }
    let declared = match find_declared_output(&entry.signature, input.kind()) {
        Some(t) => t,
        None => {
            proof {
                assert(false);
            }
            Type::Any
        },
    };
    if declared.accepts(out.kind()) {
        Ok(out)
    } else {
        let label = crate::error::mismatch_text(declared, out.kind());
        let e = LabeledError::new(
            "internal error: command returned a value of an undeclared type",
        ).with_label(label.as_str(), out.span());
        proof {
            assert(e@.labels =~= seq![
                (
                    "expected "@ + display_name(declared) + ", found "@ + display_name(
                        out.variant_type(),
                    ),
                    out.spec_span(),
                ),
            ]);
        }
        Err(e)
    }
}

} // verus!
