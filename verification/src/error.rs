use vstd::prelude::*;
use crate::span::Span;
use crate::value::Type;

verus! {

/// A violation found while validating a call against a signature, or while
/// viewing a value at a declared type. Each variant carries the span the
/// diagnostic should point at.
#[derive(Clone, Debug)]
pub enum TypeError {
    /// The input value's variant matches none of the declared
    /// (input, output) pairs. `expected` is the first declared input type,
    /// or the wildcard when the signature declares no pair at all.
    UnsupportedInput { expected: Type, actual: Type, span: Span },
    /// A value's variant disagrees with the type declared for its position.
    TypeMismatch { expected: Type, actual: Type, span: Span },
    /// A required positional parameter has no corresponding argument; the
    /// span is the call's own.
    MissingPositional { name: String, span: Span },
    /// A named argument was supplied that no declared long name or alias
    /// matches.
    UnknownNamed { name: String, span: Span },
    /// A flag, declared without a type, was supplied with a value.
    FlagHasValue { name: String, span: Span },
    /// A named parameter declared with a type was supplied without a value;
    /// the span is the call's own.
    MissingNamedValue { name: String, span: Span },
}

/// A defect found by a call accessor rather than by validation: a request
/// that validation would have ruled out.
#[derive(Clone, Debug)]
pub enum EvalError {
    /// A positional argument was requested past the end of the argument
    /// list; the span is the call's own.
    OutOfRange { index: usize, len: usize, span: Span },
    /// A flag was queried but the matching entry carries a value.
    FlagHasValue { name: String, span: Span },
}

/// The structured error surfaced to the host: a message, zero or more
/// labeled source spans, and optional remediation text.
#[derive(Clone, Debug)]
pub struct LabeledError {
    pub msg: String,
    pub labels: Vec<(String, Span)>,
    pub help: Option<String>,
}

/// The mathematical content of a `LabeledError`.
pub struct ErrorModel {
    pub msg: Seq<char>,
    pub labels: Seq<(Seq<char>, Span)>,
    pub help: Option<Seq<char>>,
}

impl View for LabeledError {
    type V = ErrorModel;

    open spec fn view(&self) -> ErrorModel {
        ErrorModel {
            msg: self.msg@,
            labels: Seq::new(self.labels@.len(), |i: int| (self.labels@[i].0@, self.labels@[i].1)),
            help: match self.help {
                Some(h) => Some(h@),
                None => None,
            },
        }
    }
}

/// Relies on String::push_str: appends the given slice to the string.
#[verifier::external_body]
pub(crate) fn append(s: &mut String, t: &str)
    ensures
        final(s)@ == old(s)@ + t@,
{
    s.push_str(t)
}

impl LabeledError {
    /// A fresh error holding only the message; construction never fails.
    pub fn new(msg: &str) -> (r: LabeledError)
        ensures
            r@.msg == msg@,
            r@.labels == Seq::<(Seq<char>, Span)>::empty(),
            r@.help is None,
    {
        let r = LabeledError { msg: msg.to_owned(), labels: Vec::new(), help: None };
        proof {
            assert(r@.labels =~= Seq::<(Seq<char>, Span)>::empty());
        }
        r
    }

    /// Appends one (label text, span) pair, returning the updated error for
    /// fluent composition.
    pub fn with_label(self, text: &str, span: Span) -> (r: LabeledError)
        ensures
            r@.msg == self@.msg,
            r@.labels == self@.labels.push((text@, span)),
            r@.help == self@.help,
    {
        let mut labels = self.labels;
        labels.push((text.to_owned(), span));
        let r = LabeledError { msg: self.msg, labels, help: self.help };
        proof {
            assert(r@.labels =~= self@.labels.push((text@, span)));
        }
        r
    }

    /// Sets the free-text remediation shown after the main message.
    pub fn with_help(self, help: &str) -> (r: LabeledError)
        ensures
            r@.msg == self@.msg,
            r@.labels == self@.labels,
            r@.help == Some(help@),
    {
        let r = LabeledError { msg: self.msg, labels: self.labels, help: Some(help.to_owned()) };
        proof {
            assert(r@.labels =~= self@.labels);
        }
        r
    }
}

/// The display name of each declarable type.
pub open spec fn display_name(t: Type) -> Seq<char> {
    match t {
        Type::Nothing => "nothing"@,
        Type::Bool => "bool"@,
        Type::Int => "int"@,
        Type::Float => "float"@,
        Type::String => "string"@,
        Type::Binary => "binary"@,
        Type::List => "list"@,
        Type::Record => "record"@,
        Type::Any => "any"@,
    }
}

impl Type {
    pub fn name(&self) -> (s: String)
        ensures
            s@ == display_name(*self),
    {
        match self {
            Type::Nothing => "nothing".to_owned(),
            Type::Bool => "bool".to_owned(),
            Type::Int => "int".to_owned(),
            Type::Float => "float".to_owned(),
            Type::String => "string".to_owned(),
            Type::Binary => "binary".to_owned(),
            Type::List => "list".to_owned(),
            Type::Record => "record".to_owned(),
            Type::Any => "any".to_owned(),
        }
    }
}

/// The message a validation error is reported under.
pub open spec fn type_error_message(e: TypeError) -> Seq<char> {
    match e {
        TypeError::UnsupportedInput { .. } => "unsupported input type"@,
        TypeError::TypeMismatch { .. } => "argument type mismatch"@,
        TypeError::MissingPositional { name, .. } => "missing required positional argument "@
            + name@,
        TypeError::UnknownNamed { name, .. } => "unknown flag "@ + name@,
        TypeError::FlagHasValue { name, .. } => "flag "@ + name@ + " takes no value"@,
        TypeError::MissingNamedValue { name, .. } => "option "@ + name@ + " requires a value"@,
    }
}

/// The single label a validation error is reported with: its text and the
/// offending span.
pub open spec fn type_error_label(e: TypeError) -> (Seq<char>, Span) {
    match e {
        TypeError::UnsupportedInput { expected, actual, span } => (
            "expected "@ + display_name(expected) + ", found "@ + display_name(actual),
            span,
        ),
        TypeError::TypeMismatch { expected, actual, span } => (
            "expected "@ + display_name(expected) + ", found "@ + display_name(actual),
            span,
        ),
        TypeError::MissingPositional { span, .. } => ("missing required positional argument"@, span),
        TypeError::UnknownNamed { span, .. } => ("unknown flag"@, span),
        TypeError::FlagHasValue { span, .. } => ("flag takes no value"@, span),
        TypeError::MissingNamedValue { span, .. } => ("requires a value"@, span),
    }
}

/// How a validation error surfaces to the host: its message, and a single
/// label at the offending span.
pub open spec fn type_error_model(e: TypeError) -> ErrorModel {
    ErrorModel { msg: type_error_message(e), labels: seq![type_error_label(e)], help: None }
}

/// Joins "expected <l>, found <r>" for the two mismatch-shaped errors.
pub(crate) fn mismatch_text(expected: Type, actual: Type) -> (s: String)
    ensures
        s@ == "expected "@ + display_name(expected) + ", found "@ + display_name(actual),
{
    let mut s = "expected ".to_owned();
    let en = expected.name();
    append(&mut s, en.as_str());
    append(&mut s, ", found ");
    let an = actual.name();
    append(&mut s, an.as_str());
    proof {
        assert(s@ =~= "expected "@ + display_name(expected) + ", found "@ + display_name(actual));
    }
    s
}

impl TypeError {
    pub open spec fn spec_span(self) -> Span {
        match self {
            TypeError::UnsupportedInput { span, .. } => span,
            TypeError::TypeMismatch { span, .. } => span,
            TypeError::MissingPositional { span, .. } => span,
            TypeError::UnknownNamed { span, .. } => span,
            TypeError::FlagHasValue { span, .. } => span,
            TypeError::MissingNamedValue { span, .. } => span,
        }
    }

    /// Packages this violation as the structured error the host renders: the
    /// message for the variant and one label at the offending span.
    pub fn to_labeled(&self) -> (r: LabeledError)
        ensures
            r@ == type_error_model(*self),
    {
        let r = match self {
            TypeError::UnsupportedInput { expected, actual, span } => {
                let label = mismatch_text(*expected, *actual);
                LabeledError::new("unsupported input type").with_label(label.as_str(), *span)
            },
            TypeError::TypeMismatch { expected, actual, span } => {
                let label = mismatch_text(*expected, *actual);
                LabeledError::new("argument type mismatch").with_label(label.as_str(), *span)
            },
            TypeError::MissingPositional { name, span } => {
                let mut msg = "missing required positional argument ".to_owned();
                append(&mut msg, name.as_str());
                LabeledError::new(msg.as_str()).with_label(
                    "missing required positional argument",
                    *span,
                )
            },
            TypeError::UnknownNamed { name, span } => {
                let mut msg = "unknown flag ".to_owned();
                append(&mut msg, name.as_str());
                LabeledError::new(msg.as_str()).with_label("unknown flag", *span)
            },
            TypeError::FlagHasValue { name, span } => {
                let mut msg = "flag ".to_owned();
                append(&mut msg, name.as_str());
                append(&mut msg, " takes no value");
                proof {
                    assert(msg@ =~= "flag "@ + name@ + " takes no value"@);
                }
                LabeledError::new(msg.as_str()).with_label("flag takes no value", *span)
            },
            TypeError::MissingNamedValue { name, span } => {
                let mut msg = "option ".to_owned();
                append(&mut msg, name.as_str());
                append(&mut msg, " requires a value");
                proof {
                    assert(msg@ =~= "option "@ + name@ + " requires a value"@);
                }
                LabeledError::new(msg.as_str()).with_label("requires a value", *span)
            },
        };
        proof {
            assert(r@.labels =~= seq![type_error_label(*self)]);
            assert(r@ == type_error_model(*self));
        }
        r
    }
}

/// How an accessor defect surfaces to the host.
pub open spec fn eval_error_model(e: EvalError) -> ErrorModel {
    match e {
        EvalError::OutOfRange { span, .. } => ErrorModel {
            msg: "positional argument index out of range"@,
            labels: seq![("no argument at this position"@, span)],
            help: None,
        },
        EvalError::FlagHasValue { name, span } => ErrorModel {
            msg: "flag "@ + name@ + " takes no value"@,
            labels: seq![("flag takes no value"@, span)],
            help: None,
        },
    }
}

impl EvalError {
    /// Packages this defect as the structured error the host renders.
    pub fn into_labeled(self) -> (r: LabeledError)
        ensures
            r@ == eval_error_model(self),
    {
        let r = match &self {
            EvalError::OutOfRange { span, .. } => LabeledError::new(
                "positional argument index out of range",
            ).with_label("no argument at this position", *span),
            EvalError::FlagHasValue { name, span } => {
                let mut msg = "flag ".to_owned();
                append(&mut msg, name.as_str());
                append(&mut msg, " takes no value");
                proof {
                    assert(msg@ =~= "flag "@ + name@ + " takes no value"@);
                }
                LabeledError::new(msg.as_str()).with_label("flag takes no value", *span)
            },
        };
        proof {
            match self {
                EvalError::OutOfRange { span, .. } => {
                    assert(r@.labels =~= seq![("no argument at this position"@, span)]);
                },
                EvalError::FlagHasValue { name, span } => {
                    assert(r@.labels =~= seq![("flag takes no value"@, span)]);
                },
            }
        }
        r
    }
}

} // verus!
