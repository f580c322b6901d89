use vstd::prelude::*;
use crate::call::{Call, flag_outcome};
use crate::error::{ErrorModel, LabeledError, eval_error_model};
use crate::signature::Signature;
use crate::value::{Type, Value};
use vstd::string::StringSliceAdditionalSpecFns;

verus! {

/// The closed set of command implementations this plugin provides, resolved
/// through the registry; the set is fixed at build time.
#[derive(Clone, Copy, PartialEq, Eq, Structural, Debug)]
pub enum CommandKind {
    CountLength,
}

pub uninterp spec fn upper_of(s: Seq<char>) -> Seq<char>;

/// Relies on str::to_uppercase: the uppercase form of the text, a function
/// of the characters alone; empty text stays empty.
#[verifier::external_body]
fn to_upper(s: &str) -> (r: String)
    ensures
        r@ == upper_of(s@),
        s@.len() == 0 ==> r@.len() == 0,
{
    s.to_uppercase()
}

/// The number of bytes in the UTF-8 encoding of the text.
pub open spec fn byte_len(s: Seq<char>) -> nat {
    vstd::utf8::encode_utf8(s).len()
}

/// The text whose length is counted: the input itself, or its uppercase
/// form when the flag was supplied.
pub open spec fn counted_text(s: Seq<char>, uppercase: bool) -> Seq<char> {
    if uppercase {
        upper_of(s)
    } else {
        s
    }
}

/// The integer the command returns for the given text and flag.
pub open spec fn count_length_value(s: Seq<char>, uppercase: bool) -> i64 {
    (byte_len(counted_text(s, uppercase)) as usize) as i64
}

pub fn count_length_name() -> (s: String)
    ensures
        s@ == "count-length"@,
{
    "count-length".to_owned()
}

pub fn count_length_description() -> (s: String)
    ensures
        s@ == "A simple nushell plugin example"@,
{
    "A simple nushell plugin example".to_owned()
}

/// The declaration the count-length command registers under: string input,
/// integer output, and one flag named "uppercase" with alias 'u'.
pub open spec fn is_count_length_signature(s: Signature) -> bool {
    &&& s.name@ == "count-length"@
    &&& s.description@ == "A simple nushell plugin example"@
    &&& s.input_output_types@ == seq![(Type::String, Type::Int)]
    &&& s.positional@.len() == 0
    &&& s.named@.len() == 1
    &&& s.named@[0].long@ == "uppercase"@
    &&& s.named@[0].short == Some('u')
    &&& s.named@[0].typ is None
}

pub fn count_length_signature() -> (s: Signature)
    ensures
        is_count_length_signature(s),
        s.wf(),
{
    let s = Signature::build("count-length").with_description(
        "A simple nushell plugin example",
    ).input_output_type(Type::String, Type::Int).switch(
        "uppercase",
        "convert to uppercase before counting",
        Some('u'),
    );
    proof {
        assert(s.input_output_types@ =~= seq![(Type::String, Type::Int)]);
    }
    s
}

/// A successful count-length outcome: the flag was readable, the input was
/// text, and the result is the byte length of the (possibly uppercased)
/// text as an integer value anchored at the call's span.
pub open spec fn count_length_ok(call: Call, input: Value, v: Value) -> bool {
    &&& flag_outcome(call, "uppercase"@) matches Ok(up)
    &&& input matches Value::String { val, .. }
    &&& v == (Value::Int { val: count_length_value(val@, up), span: call.head })
}

/// A failing count-length outcome: either the flag entry was malformed, or
/// the input was not text and the command's own domain error reports it.
pub open spec fn count_length_err(call: Call, input: Value, e: ErrorModel) -> bool {
    match flag_outcome(call, "uppercase"@) {
        Result::Err(ev) => e == eval_error_model(ev),
        Result::Ok(_) => !(input is String) && e == (ErrorModel {
            msg: "Expected string input"@,
            labels: seq![("requires string"@, call.head)],
            help: None,
        }),
    }
}

/// When the count-length command succeeds: exactly when its flag entry is
/// well-formed and the input is text.
pub open spec fn count_length_succeeds(call: Call, input: Value) -> bool {
    flag_outcome(call, "uppercase"@) is Ok && input is String
}

/// Whether count-length succeeds depends only on the call's content and the
/// input's: structurally equal invocations succeed or fail together.
pub proof fn lemma_count_length_succeeds_same(c1: Call, i1: Value, c2: Call, i2: Value)
    requires
        crate::call::call_same_content(c1, c2),
        i1.content() == i2.content(),
    ensures
        count_length_succeeds(c1, i1) == count_length_succeeds(c2, i2),
{
    crate::call::lemma_flag_outcome_same(c1, c2, "uppercase"@);
    crate::value::lemma_content_determines_variant(i1, i2);
}

/// The count-length result depends only on the call's content and the
/// input's: two successes of structurally equal invocations return
/// structurally equal values.
pub proof fn lemma_count_length_ok_same(
    c1: Call,
    i1: Value,
    v1: Value,
    c2: Call,
    i2: Value,
    v2: Value,
)
    requires
        crate::call::call_same_content(c1, c2),
        i1.content() == i2.content(),
        count_length_ok(c1, i1, v1),
        count_length_ok(c2, i2, v2),
    ensures
        v1.same_content(v2),
{
    crate::call::lemma_flag_outcome_same(c1, c2, "uppercase"@);
}

/// Runs the count-length command: reads the "uppercase" flag, requires text
/// input, uppercases it when asked, and returns its UTF-8 byte length as an
/// integer anchored at the call's span.
pub fn run_count_length(call: &Call, input: &Value) -> (r: Result<Value, LabeledError>)
    ensures
        match r {
            Ok(v) => count_length_ok(*call, *input, v),
            Err(e) => count_length_err(*call, *input, e@),
        },
        (r is Ok) == count_length_succeeds(*call, *input),
{
    let uppercase = match call.flag("uppercase") {
        Ok(b) => b,
        Err(e) => {
            return Err(e.into_labeled());
        },
    };
    match input {
        Value::String { val, .. } => {
            let text = if uppercase {
                to_upper(val.as_str())
            } else {
                val.clone()
            };
            let n: usize = text.as_str().len();
            Ok(Value::Int { val: n as i64, span: call.head_span() })
        },
        _ => {
            let e = LabeledError::new("Expected string input").with_label(
                "requires string",
                call.head_span(),
            );
            proof {
                assert(e@.labels =~= seq![("requires string"@, call.head)]);
            }
            Err(e)
        },
    }
}

} // verus!
