use plugin_core::call::Call;
use plugin_core::command::{count_length_name, count_length_signature, CommandKind};
use plugin_core::dispatch::dispatch;
use plugin_core::error::TypeError;
use plugin_core::registry::{
    build_registry, plugin_commands, plugin_version, CommandEntry, Registry, StartupError,
};
use plugin_core::signature::{validate, Signature};
use plugin_core::span::Span;
use plugin_core::value::{Type, Value};

fn sp(start: usize, end: usize) -> Span {
    Span::new(start, end)
}

fn count_length_registry() -> Registry {
    build_registry(plugin_commands()).expect("the built-in roster is well-formed")
}

fn string_input(text: &str, span: Span) -> Value {
    Value::string(text.to_string(), span)
}

#[test]
fn test_basic() {
    let reg = count_length_registry();
    let call = Call::new(Vec::new(), Vec::new(), sp(1, 13));
    let input = string_input("hello", sp(14, 21));
    let result = dispatch(&reg, &count_length_name(), &call, &input)
        .expect("a fitting call succeeds");
    assert!(result.content_eq(&Value::integer(5, sp(1, 13))));
}

#[test]
fn count_length_uppercase_flag_keeps_ascii_length() {
    let reg = count_length_registry();
    let named = vec![("uppercase".to_string(), None)];
    let call = Call::new(Vec::new(), named, sp(0, 5));
    let input = string_input("hello", sp(6, 13));
    let result = dispatch(&reg, &count_length_name(), &call, &input).unwrap();
    match result {
        Value::Int { val, span } => {
            assert_eq!(val, 5);
            assert_eq!(span, sp(0, 5));
        }
        other => panic!("expected an integer, got {:?}", other),
    }
}

#[test]
fn count_length_uppercase_flag_shrinks_a_ligature() {
    // The "\u{fb01}" ligature is three bytes; its uppercase form "FI" is two.
    let reg = count_length_registry();
    let plain_call = Call::new(Vec::new(), Vec::new(), sp(0, 1));
    let plain = dispatch(&reg, &count_length_name(), &plain_call, &string_input("\u{fb01}", sp(2, 3)))
        .unwrap();
    assert!(plain.content_eq(&Value::integer(3, sp(9, 9))));

    let named = vec![("uppercase".to_string(), None)];
    let upper_call = Call::new(Vec::new(), named, sp(0, 1));
    let upper = dispatch(&reg, &count_length_name(), &upper_call, &string_input("\u{fb01}", sp(2, 3)))
        .unwrap();
    assert!(upper.content_eq(&Value::integer(2, sp(9, 9))));
}

#[test]
fn count_length_rejects_integer_input() {
    let reg = count_length_registry();
    let call = Call::new(Vec::new(), Vec::new(), sp(3, 15));
    let input = Value::integer(5, sp(16, 17));
    let err = dispatch(&reg, &count_length_name(), &call, &input)
        .expect_err("an integer input is unsupported");
    assert_eq!(err.msg, "unsupported input type");
    assert_eq!(err.labels.len(), 1);
    assert_eq!(err.labels[0].0, "expected string, found int");
    assert_eq!(err.labels[0].1, sp(3, 15));
    assert!(err.help.is_none());
}

#[test]
fn dispatch_unknown_command_reports_the_name() {
    let reg = count_length_registry();
    let call = Call::new(Vec::new(), Vec::new(), sp(0, 4));
    let err = dispatch(&reg, &"frobnicate".to_string(), &call, &string_input("x", sp(5, 6)))
        .expect_err("an unregistered name fails");
    assert_eq!(err.msg, "no such command: frobnicate");
    assert_eq!(err.labels[0].0, "unknown command name");
    assert_eq!(err.labels[0].1, sp(0, 4));
}

#[test]
fn dispatch_is_idempotent_on_equal_inputs() {
    let reg = count_length_registry();
    let call1 = Call::new(Vec::new(), Vec::new(), sp(7, 9));
    let call2 = Call::new(Vec::new(), Vec::new(), sp(7, 9));
    let r1 = dispatch(&reg, &count_length_name(), &call1, &string_input("twice", sp(1, 2))).unwrap();
    let r2 = dispatch(&reg, &count_length_name(), &call2, &string_input("twice", sp(1, 2))).unwrap();
    assert!(r1.content_eq(&r2));
}

#[test]
fn dispatch_is_idempotent_up_to_spans() {
    let reg = count_length_registry();
    let call1 = Call::new(Vec::new(), vec![("uppercase".to_string(), None)], sp(7, 9));
    let call2 = Call::new(Vec::new(), vec![("uppercase".to_string(), None)], sp(40, 44));
    let r1 = dispatch(&reg, &count_length_name(), &call1, &string_input("twice", sp(1, 2))).unwrap();
    let r2 = dispatch(&reg, &count_length_name(), &call2, &string_input("twice", sp(30, 33))).unwrap();
    assert!(r1.content_eq(&r2));
}

#[test]
fn dispatch_rejects_unknown_flag() {
    let reg = count_length_registry();
    let named = vec![("loud".to_string(), None)];
    let call = Call::new(Vec::new(), named, sp(0, 4));
    let err = dispatch(&reg, &count_length_name(), &call, &string_input("hi", sp(5, 7)))
        .expect_err("an undeclared flag fails validation");
    assert_eq!(err.msg, "unknown flag loud");
    assert_eq!(err.labels[0].0, "unknown flag");
    assert_eq!(err.labels[0].1, sp(0, 4));
}

#[test]
fn dispatch_rejects_flag_carrying_a_value() {
    let reg = count_length_registry();
    let named = vec![("uppercase".to_string(), Some(Value::bool(true, sp(9, 10))))];
    let call = Call::new(Vec::new(), named, sp(0, 4));
    let err = dispatch(&reg, &count_length_name(), &call, &string_input("hi", sp(5, 7)))
        .expect_err("a flag with a value fails validation");
    assert_eq!(err.msg, "flag uppercase takes no value");
    assert_eq!(err.labels[0].1, sp(9, 10));
}

#[test]
fn dispatch_accepts_the_alias_entry() {
    // A named entry under the single-character alias passes validation; the
    // flag lookup itself goes by the long name, so the flag reads as absent.
    let reg = count_length_registry();
    let named = vec![("u".to_string(), None)];
    let call = Call::new(Vec::new(), named, sp(0, 4));
    let result = dispatch(&reg, &count_length_name(), &call, &string_input("hey", sp(5, 8))).unwrap();
    assert!(result.content_eq(&Value::integer(3, sp(0, 0))));
}

fn two_positional_signature() -> Signature {
    Signature::build("stub")
        .input_output_type(Type::Any, Type::Any)
        .required_positional("path", Type::String)
        .optional_positional("count", Type::Int)
}

#[test]
fn validate_accepts_a_fitting_call() {
    let sig = two_positional_signature();
    let call = Call::new(
        vec![string_input("a/b", sp(1, 4)), Value::integer(2, sp(5, 6))],
        Vec::new(),
        sp(0, 1),
    );
    let input = Value::nothing(sp(0, 0));
    assert!(validate(&sig, &call, &input).is_ok());
}

#[test]
fn validate_accepts_a_call_without_the_optional_argument() {
    let sig = two_positional_signature();
    let call = Call::new(vec![string_input("a/b", sp(1, 4))], Vec::new(), sp(0, 1));
    assert!(validate(&sig, &call, &Value::nothing(sp(0, 0))).is_ok());
}

#[test]
fn validate_reports_missing_required_positional_at_the_head() {
    let sig = two_positional_signature();
    let call = Call::new(Vec::new(), Vec::new(), sp(2, 8));
    let err = validate(&sig, &call, &Value::nothing(sp(0, 0)))
        .expect_err("the required argument is missing");
    match err {
        TypeError::MissingPositional { name, span } => {
            assert_eq!(name, "path");
            assert_eq!(span, sp(2, 8));
        }
        other => panic!("expected a missing-positional error, got {:?}", other),
    }
}

#[test]
fn validate_reports_positional_type_mismatch_at_the_argument() {
    let sig = two_positional_signature();
    let call = Call::new(vec![Value::bool(true, sp(3, 7))], Vec::new(), sp(0, 1));
    let err = validate(&sig, &call, &Value::nothing(sp(0, 0)))
        .expect_err("a boolean is not a path");
    match err {
        TypeError::TypeMismatch { expected, actual, span } => {
            assert_eq!(expected, Type::String);
            assert_eq!(actual, Type::Bool);
            assert_eq!(span, sp(3, 7));
        }
        other => panic!("expected a type-mismatch error, got {:?}", other),
    }
}

#[test]
fn validate_reports_unsupported_input() {
    let sig = Signature::build("stub").input_output_type(Type::String, Type::Int);
    let call = Call::new(Vec::new(), Vec::new(), sp(1, 2));
    let err = validate(&sig, &call, &Value::bool(false, sp(3, 4)))
        .expect_err("a boolean input is not declared");
    match err {
        TypeError::UnsupportedInput { expected, actual, span } => {
            assert_eq!(expected, Type::String);
            assert_eq!(actual, Type::Bool);
            assert_eq!(span, sp(1, 2));
        }
        other => panic!("expected an unsupported-input error, got {:?}", other),
    }
}

#[test]
fn validate_reports_missing_value_for_typed_named_parameter() {
    let sig = Signature::build("stub")
        .input_output_type(Type::Any, Type::Any)
        .named("limit", Type::Int, "at most this many", Some('l'));
    let named = vec![("limit".to_string(), None)];
    let call = Call::new(Vec::new(), named, sp(0, 2));
    let err = validate(&sig, &call, &Value::nothing(sp(0, 0)))
        .expect_err("the option needs a value");
    match err {
        TypeError::MissingNamedValue { name, span } => {
            assert_eq!(name, "limit");
            assert_eq!(span, sp(0, 2));
        }
        other => panic!("expected a missing-value error, got {:?}", other),
    }
}

#[test]
fn validate_reports_mistyped_named_value() {
    let sig = Signature::build("stub")
        .input_output_type(Type::Any, Type::Any)
        .named("limit", Type::Int, "at most this many", Some('l'));
    let named = vec![("limit".to_string(), Some(string_input("three", sp(6, 11))))];
    let call = Call::new(Vec::new(), named, sp(0, 2));
    let err = validate(&sig, &call, &Value::nothing(sp(0, 0)))
        .expect_err("the option value has the wrong type");
    match err {
        TypeError::TypeMismatch { expected, actual, span } => {
            assert_eq!(expected, Type::Int);
            assert_eq!(actual, Type::String);
            assert_eq!(span, sp(6, 11));
        }
        other => panic!("expected a type-mismatch error, got {:?}", other),
    }
}

#[test]
fn registry_rejects_a_duplicated_command_name() {
    let entries = vec![
        CommandEntry { signature: count_length_signature(), kind: CommandKind::CountLength },
        CommandEntry { signature: count_length_signature(), kind: CommandKind::CountLength },
    ];
    let err = build_registry(entries).expect_err("two commands share one name");
    match err {
        StartupError::DuplicateCommandName { name } => assert_eq!(name, "count-length"),
        other => panic!("expected a duplicate-name error, got {:?}", other),
    }
}

#[test]
fn registry_rejects_a_signature_with_a_repeated_alias() {
    let bad = Signature::build("stub")
        .input_output_type(Type::Any, Type::Any)
        .switch("alpha", "first", Some('a'))
        .switch("beta", "second", Some('a'));
    let entries = vec![CommandEntry { signature: bad, kind: CommandKind::CountLength }];
    let err = build_registry(entries).expect_err("the alias repeats");
    match err {
        StartupError::MalformedSignature { name } => assert_eq!(name, "stub"),
        other => panic!("expected a malformed-signature error, got {:?}", other),
    }
}

#[test]
fn registrar_reports_version_and_roster() {
    assert_eq!(plugin_version(), "0.1.0");
    let roster = plugin_commands();
    assert_eq!(roster.len(), 1);
    assert_eq!(roster[0].signature.name, "count-length");
    assert_eq!(roster[0].signature.input_output_types.len(), 1);
    assert_eq!(roster[0].signature.input_output_types[0], (Type::String, Type::Int));
    assert_eq!(roster[0].signature.named.len(), 1);
    assert_eq!(roster[0].signature.named[0].long, "uppercase");
    assert_eq!(roster[0].signature.named[0].short, Some('u'));
    assert!(roster[0].signature.named[0].typ.is_none());
}
