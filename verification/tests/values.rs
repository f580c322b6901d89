use plugin_core::call::Call;
use plugin_core::error::{EvalError, LabeledError, TypeError};
use plugin_core::span::Span;
use plugin_core::value::{Type, Value};
use plugin_core::wire::{decode_labeled_error, encode_labeled_error};

fn sp(start: usize, end: usize) -> Span {
    Span::new(start, end)
}

#[test]
fn extraction_succeeds_on_the_matching_variant() {
    let v = Value::integer(42, sp(1, 2));
    assert_eq!(v.as_int().unwrap(), 42);
    let s = Value::string("hi".to_string(), sp(3, 4));
    assert_eq!(*s.as_str().unwrap(), "hi");
    let b = Value::bool(true, sp(5, 6));
    assert!(b.as_bool().unwrap());
}

#[test]
fn extraction_mismatch_carries_the_values_own_span() {
    let v = Value::string("five".to_string(), sp(10, 14));
    let err = v.as_int().expect_err("a string is not an integer");
    match err {
        TypeError::TypeMismatch { expected, actual, span } => {
            assert_eq!(expected, Type::Int);
            assert_eq!(actual, Type::String);
            assert_eq!(span, sp(10, 14));
        }
        other => panic!("expected a type-mismatch error, got {:?}", other),
    }
}

#[test]
fn every_mismatched_extractor_fails() {
    let v = Value::nothing(sp(0, 1));
    assert!(v.as_bool().is_err());
    assert!(v.as_int().is_err());
    assert!(v.as_float_bits().is_err());
    assert!(v.as_str().is_err());
    assert!(v.as_binary().is_err());
    assert!(v.as_list().is_err());
    assert!(v.as_record().is_err());
}

#[test]
fn type_wildcard_accepts_every_variant() {
    assert!(Type::Any.accepts(Type::Int));
    assert!(Type::Any.accepts(Type::Record));
    assert!(Type::Int.accepts(Type::Int));
    assert!(!Type::Int.accepts(Type::Bool));
}

#[test]
fn structural_equality_ignores_spans() {
    let a = Value::list(
        vec![
            Value::integer(1, sp(0, 1)),
            Value::string("x".to_string(), sp(2, 3)),
        ],
        sp(0, 3),
    );
    let b = Value::list(
        vec![
            Value::integer(1, sp(70, 71)),
            Value::string("x".to_string(), sp(80, 81)),
        ],
        sp(70, 81),
    );
    assert!(a.content_eq(&b));
}

#[test]
fn structural_equality_sees_content_differences() {
    let a = Value::record(
        vec![("k".to_string(), Value::integer(1, sp(0, 1)))],
        sp(0, 1),
    );
    let b = Value::record(
        vec![("k".to_string(), Value::integer(2, sp(0, 1)))],
        sp(0, 1),
    );
    let c = Value::record(
        vec![("j".to_string(), Value::integer(1, sp(0, 1)))],
        sp(0, 1),
    );
    assert!(!a.content_eq(&b));
    assert!(!a.content_eq(&c));
    assert!(!a.content_eq(&Value::nothing(sp(0, 1))));
    assert!(a.content_eq(&a));
}

#[test]
fn binary_and_float_values_compare_by_contents() {
    let a = Value::binary(vec![1, 2, 3], sp(0, 1));
    let b = Value::binary(vec![1, 2, 3], sp(5, 9));
    let c = Value::binary(vec![1, 2, 4], sp(0, 1));
    assert!(a.content_eq(&b));
    assert!(!a.content_eq(&c));
    let f = Value::float_bits(0x4000000000000000, sp(0, 1));
    let g = Value::float_bits(0x4000000000000000, sp(2, 3));
    assert!(f.content_eq(&g));
}

#[test]
fn call_accessors_answer_and_fail_predictably() {
    let call = Call::new(
        vec![Value::integer(7, sp(1, 2))],
        vec![
            ("loud".to_string(), None),
            ("limit".to_string(), Some(Value::integer(3, sp(4, 5)))),
        ],
        sp(0, 9),
    );
    assert_eq!(call.head_span(), sp(0, 9));
    assert_eq!(call.positional_arg(0).unwrap().as_int().unwrap(), 7);
    match call.positional_arg(1).expect_err("only one argument was supplied") {
        EvalError::OutOfRange { index, len, span } => {
            assert_eq!(index, 1);
            assert_eq!(len, 1);
            assert_eq!(span, sp(0, 9));
        }
        other => panic!("expected an out-of-range error, got {:?}", other),
    }
    assert!(call.flag("loud").unwrap());
    assert!(!call.flag("quiet").unwrap());
    assert!(call.named_arg("limit").unwrap().content_eq(&Value::integer(3, sp(0, 0))));
    assert!(call.named_arg("missing").is_none());
    assert!(call.named_arg("loud").is_none());
}

#[test]
fn flag_with_a_value_is_a_reported_defect() {
    let call = Call::new(
        Vec::new(),
        vec![("loud".to_string(), Some(Value::bool(true, sp(4, 8))))],
        sp(0, 2),
    );
    match call.flag("loud").expect_err("a flag entry carrying a value is malformed") {
        EvalError::FlagHasValue { name, span } => {
            assert_eq!(name, "loud");
            assert_eq!(span, sp(4, 8));
        }
        other => panic!("expected a flag-has-value error, got {:?}", other),
    }
    let labeled = call.flag("loud").unwrap_err().into_labeled();
    assert_eq!(labeled.msg, "flag loud takes no value");
}

#[test]
fn labeled_error_builder_composes_fluently() {
    let e = LabeledError::new("something went wrong")
        .with_label("here", sp(1, 2))
        .with_label("and here", sp(3, 4))
        .with_help("try again");
    assert_eq!(e.msg, "something went wrong");
    assert_eq!(e.labels.len(), 2);
    assert_eq!(e.labels[0], ("here".to_string(), sp(1, 2)));
    assert_eq!(e.labels[1], ("and here".to_string(), sp(3, 4)));
    assert_eq!(e.help.as_deref(), Some("try again"));
}

#[test]
fn type_error_surfaces_with_one_label() {
    let e = TypeError::MissingPositional { name: "path".to_string(), span: sp(2, 6) };
    let labeled = e.to_labeled();
    assert_eq!(labeled.msg, "missing required positional argument path");
    assert_eq!(labeled.labels.len(), 1);
    assert_eq!(labeled.labels[0].1, sp(2, 6));
    assert!(labeled.help.is_none());
}

#[test]
fn error_round_trip_preserves_everything() {
    let e = LabeledError::new("bad input")
        .with_label("first", sp(3, 9))
        .with_label("second", sp(12, 20))
        .with_help("supply text");
    let wire = encode_labeled_error(&e, sp(0, 0));
    let back = decode_labeled_error(&wire).expect("the encoding parses back");
    assert_eq!(back.msg, e.msg);
    assert_eq!(back.labels, e.labels);
    assert_eq!(back.help, e.help);
}

#[test]
fn error_round_trip_without_labels_or_help() {
    let e = LabeledError::new("plain");
    let wire = encode_labeled_error(&e, sp(7, 8));
    assert_eq!(wire.span(), sp(7, 8));
    let back = decode_labeled_error(&wire).expect("the encoding parses back");
    assert_eq!(back.msg, "plain");
    assert!(back.labels.is_empty());
    assert!(back.help.is_none());
}

#[test]
fn decode_rejects_values_off_the_wire_shape() {
    assert!(decode_labeled_error(&Value::integer(3, sp(0, 1))).is_none());
    let wrong_fields = Value::record(
        vec![("msg".to_string(), Value::string("m".to_string(), sp(0, 1)))],
        sp(0, 1),
    );
    assert!(decode_labeled_error(&wrong_fields).is_none());
    let bad_span = Value::record(
        vec![
            ("msg".to_string(), Value::string("m".to_string(), sp(0, 1))),
            (
                "labels".to_string(),
                Value::list(
                    vec![Value::record(
                        vec![
                            ("text".to_string(), Value::string("t".to_string(), sp(0, 1))),
                            ("start".to_string(), Value::integer(-1, sp(0, 1))),
                            ("end".to_string(), Value::integer(0, sp(0, 1))),
                        ],
                        sp(0, 1),
                    )],
                    sp(0, 1),
                ),
            ),
            ("help".to_string(), Value::nothing(sp(0, 1))),
        ],
        sp(0, 1),
    );
    assert!(decode_labeled_error(&bad_span).is_none());
}
