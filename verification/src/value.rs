use vstd::prelude::*;
use crate::span::Span;
use crate::error::TypeError;

verus! {

broadcast use vstd::std_specs::vec::group_vec_axioms;

/// The closed set of static types a declaration can name. `Any` is a wildcard
/// that matches every variant; it is used only in declarations, never as the
/// variant of a runtime value.
#[derive(Clone, Copy, PartialEq, Eq, Structural, Debug)]
pub enum Type {
    Nothing,
    Bool,
    Int,
    Float,
    String,
    Binary,
    List,
    Record,
    Any,
}

/// The tagged union of runtime data exchanged between host and plugin. Every
/// value carries the source span it originated from; spans serve diagnostics
/// only and are excluded from structural equality.
///
/// A float is carried as the raw bit pattern of its 64-bit encoding; the
/// boundary that speaks the host's native representation converts. A record
/// is an ordered sequence of (field name, value) pairs, preserving insertion
/// order.
#[derive(Debug)]
pub enum Value {
    Nothing { span: Span },
    Bool { val: bool, span: Span },
    Int { val: i64, span: Span },
    Float { bits: u64, span: Span },
    String { val: String, span: Span },
    Binary { val: Vec<u8>, span: Span },
    List { vals: Vec<Value>, span: Span },
    Record { fields: Vec<(String, Value)>, span: Span },
}

/// The span-free content of a `Value`: what structural equality compares and
/// what crosses the transport boundary.
#[verifier::ext_equal]
pub enum Content {
    Nothing,
    Bool(bool),
    Int(i64),
    Float(u64),
    Str(Seq<char>),
    Binary(Seq<u8>),
    List(Seq<Content>),
    Record(Seq<(Seq<char>, Content)>),
}

/// A declared type accepts an actual variant when it is the wildcard or the
/// exact same variant; no other pair matches and no coercion happens.
pub open spec fn type_matches(decl: Type, actual: Type) -> bool {
    decl == Type::Any || decl == actual
}

impl Value {
    /// The variant of this value, as a `Type`; never `Any`.
    pub open spec fn variant_type(self) -> Type {
        match self {
            Value::Nothing { .. } => Type::Nothing,
            Value::Bool { .. } => Type::Bool,
            Value::Int { .. } => Type::Int,
            Value::Float { .. } => Type::Float,
            Value::String { .. } => Type::String,
            Value::Binary { .. } => Type::Binary,
            Value::List { .. } => Type::List,
            Value::Record { .. } => Type::Record,
        }
    }

    pub open spec fn spec_span(self) -> Span {
        match self {
            Value::Nothing { span } => span,
            Value::Bool { span, .. } => span,
            Value::Int { span, .. } => span,
            Value::Float { span, .. } => span,
            Value::String { span, .. } => span,
            Value::Binary { span, .. } => span,
            Value::List { span, .. } => span,
            Value::Record { span, .. } => span,
        }
    }

    /// The span-free content of this value, recursively.
    pub open spec fn content(self) -> Content
        decreases self,
    {
        match self {
            Value::Nothing { .. } => Content::Nothing,
            Value::Bool { val, .. } => Content::Bool(val),
            Value::Int { val, .. } => Content::Int(val),
            Value::Float { bits, .. } => Content::Float(bits),
            Value::String { val, .. } => Content::Str(val@),
            Value::Binary { val, .. } => Content::Binary(val@),
            Value::List { vals, .. } => Content::List(
                Seq::new(
                    vals@.len(),
                    |i: int|
                        if 0 <= i < vals@.len() {
                            vals@[i].content()
                        } else {
                            Content::Nothing
                        },
                ),
            ),
            Value::Record { fields, .. } => Content::Record(
                Seq::new(
                    fields@.len(),
                    |i: int|
                        if 0 <= i < fields@.len() {
                            (fields@[i].0@, fields@[i].1.content())
                        } else {
                            (Seq::<char>::empty(), Content::Nothing)
                        },
                ),
            ),
        }
    }

    /// Two values are structurally equal when their variants and contained
    /// data agree recursively; the spans they carry play no part.
    pub open spec fn same_content(self, other: Value) -> bool {
        self.content() == other.content()
    }

    pub fn span(&self) -> (s: Span)
        ensures
            s == self.spec_span(),
    {
        match self {
            Value::Nothing { span } => *span,
            Value::Bool { span, .. } => *span,
            Value::Int { span, .. } => *span,
            Value::Float { span, .. } => *span,
            Value::String { span, .. } => *span,
            Value::Binary { span, .. } => *span,
            Value::List { span, .. } => *span,
            Value::Record { span, .. } => *span,
        }
    }

    pub fn kind(&self) -> (t: Type)
        ensures
            t == self.variant_type(),
    {
        match self {
            Value::Nothing { .. } => Type::Nothing,
            Value::Bool { .. } => Type::Bool,
            Value::Int { .. } => Type::Int,
            Value::Float { .. } => Type::Float,
            Value::String { .. } => Type::String,
            Value::Binary { .. } => Type::Binary,
            Value::List { .. } => Type::List,
            Value::Record { .. } => Type::Record,
        }
    }

    pub fn nothing(span: Span) -> (v: Value)
        ensures
            v == (Value::Nothing { span }),
    {
        Value::Nothing { span }
    }

    pub fn bool(val: bool, span: Span) -> (v: Value)
        ensures
            v == (Value::Bool { val, span }),
    {
        Value::Bool { val, span }
    }

    pub fn integer(val: i64, span: Span) -> (v: Value)
        ensures
            v == (Value::Int { val, span }),
    {
        Value::Int { val, span }
    }

    pub fn float_bits(bits: u64, span: Span) -> (v: Value)
        ensures
            v == (Value::Float { bits, span }),
    {
        Value::Float { bits, span }
    }

    pub fn string(val: String, span: Span) -> (v: Value)
        ensures
            v == (Value::String { val, span }),
    {
        Value::String { val, span }
    }

    pub fn binary(val: Vec<u8>, span: Span) -> (v: Value)
        ensures
            v == (Value::Binary { val, span }),
    {
        Value::Binary { val, span }
    }

    pub fn list(vals: Vec<Value>, span: Span) -> (v: Value)
        ensures
            v == (Value::List { vals, span }),
    {
        Value::List { vals, span }
    }

    pub fn record(fields: Vec<(String, Value)>, span: Span) -> (v: Value)
        ensures
            v == (Value::Record { fields, span }),
    {
        Value::Record { fields, span }
    }
}

/// Structurally equal values are of the same variant: the span-free content
/// still carries the tag.
pub proof fn lemma_content_determines_variant(a: Value, b: Value)
    requires
        a.content() == b.content(),
    ensures
        a.variant_type() == b.variant_type(),
{
}

/// Whether two byte sequences hold the same bytes.
fn bytes_eq(a: &Vec<u8>, b: &Vec<u8>) -> (r: bool)
    ensures
        r == (a@ == b@),
{
    if a.len() != b.len() {
        return false;
    }
    let n = a.len();
    let mut i: usize = 0;
    while i < n
        invariant
            i <= n,
            n == a@.len(),
            n == b@.len(),
            forall|k: int| 0 <= k < i ==> a@[k] == b@[k],
        decreases n - i,
    {
        if a[i] != b[i] {
            return false;
        }
        i += 1;
    }
    proof {
        assert(a@ =~= b@);
    }
    true
}

impl Value {
    /// Structural equality: compares variant and contained data recursively,
    /// spans excluded; the executable counterpart of `same_content`.
    #[verifier::loop_isolation(false)]
    pub fn content_eq(&self, other: &Value) -> (r: bool)
        ensures
            r == self.same_content(*other),
        decreases *self,
    {
        match (self, other) {
            (Value::Nothing { .. }, Value::Nothing { .. }) => true,
            (Value::Bool { val: a, .. }, Value::Bool { val: b, .. }) => *a == *b,
            (Value::Int { val: a, .. }, Value::Int { val: b, .. }) => *a == *b,
            (Value::Float { bits: a, .. }, Value::Float { bits: b, .. }) => *a == *b,
            (Value::String { val: a, .. }, Value::String { val: b, .. }) => a.eq(b),
            (Value::Binary { val: a, .. }, Value::Binary { val: b, .. }) => bytes_eq(a, b),
            (Value::List { vals: a, .. }, Value::List { vals: b, .. }) => {
                if a.len() != b.len() {
                    proof {
                        assert(self.content() matches Content::List(s1) && (other.content()
                            matches Content::List(s2) && s1.len() != s2.len()));
                    }
                    return false;
                }
                let n = a.len();
                let mut i: usize = 0;
                while i < n
                    invariant
                        i <= n,
                        n == a@.len(),
                        n == b@.len(),
                        forall|k: int|
                            0 <= k < i ==> (#[trigger] a@[k].content()) == b@[k].content(),
                    decreases n - i,
                {
                    if !a[i].content_eq(&b[i]) {
                        proof {
                            assert(self.content()->List_0[i as int] == a@[i as int].content());
                            assert(other.content()->List_0[i as int] == b@[i as int].content());
                        }
                        return false;
                    }
                    i += 1;
                }
                proof {
                    assert(self.content() matches Content::List(s1) && (other.content() matches
                        Content::List(s2) && s1.len() == a@.len() && s2.len() == b@.len()));
                    assert forall|k: int|
                        0 <= k < a@.len() implies self.content()->List_0[k]
                        == other.content()->List_0[k] by {
                        assert(self.content()->List_0[k] == a@[k].content());
                        assert(other.content()->List_0[k] == b@[k].content());
                        assert(a@[k].content() == b@[k].content());
                    }
                    assert(self.content()->List_0 =~= other.content()->List_0);
                }
                true
            },
            (Value::Record { fields: a, .. }, Value::Record { fields: b, .. }) => {
                if a.len() != b.len() {
                    proof {
                        assert(self.content() matches Content::Record(s1) && (other.content()
                            matches Content::Record(s2) && s1.len() != s2.len()));
                    }
                    return false;
                }
                let n = a.len();
                let mut i: usize = 0;
                while i < n
                    invariant
                        i <= n,
                        n == a@.len(),
                        n == b@.len(),
                        forall|k: int|
                            0 <= k < i ==> ((#[trigger] a@[k].0)@ == b@[k].0@ && a@[k].1.content()
                                == b@[k].1.content()),
                    decreases n - i,
                {
                    if !a[i].0.eq(&b[i].0) {
                        proof {
                            assert(self.content()->Record_0[i as int] == (
                                a@[i as int].0@,
                                a@[i as int].1.content(),
                            ));
                            assert(other.content()->Record_0[i as int] == (
                                b@[i as int].0@,
                                b@[i as int].1.content(),
                            ));
                        }
                        return false;
                    }
                    if !a[i].1.content_eq(&b[i].1) {
                        proof {
                            assert(self.content()->Record_0[i as int] == (
                                a@[i as int].0@,
                                a@[i as int].1.content(),
                            ));
                            assert(other.content()->Record_0[i as int] == (
                                b@[i as int].0@,
                                b@[i as int].1.content(),
                            ));
                        }
                        return false;
                    }
                    proof {
                        assert forall|k: int|
                            0 <= k < i as int + 1 implies ((#[trigger] a@[k].0)@ == b@[k].0@
                            && a@[k].1.content() == b@[k].1.content()) by {
                            if k == i as int {
                                assert(a@[k].0@ == b@[k].0@);
                                assert(a@[k].1.content() == b@[k].1.content());
                            }
                        }
                    }
                    i += 1;
                }
                proof {
                    assert(self.content() matches Content::Record(s1) && (other.content() matches
                        Content::Record(s2) && s1.len() == a@.len() && s2.len() == b@.len()));
                    assert forall|k: int|
                        0 <= k < a@.len() implies self.content()->Record_0[k]
                        == other.content()->Record_0[k] by {
                        assert(self.content()->Record_0[k] == (a@[k].0@, a@[k].1.content()));
                        assert(other.content()->Record_0[k] == (b@[k].0@, b@[k].1.content()));
                        assert(a@[k].0@ == b@[k].0@ && a@[k].1.content() == b@[k].1.content());
                    }
                    assert(self.content()->Record_0 =~= other.content()->Record_0);
                }
                true
            },
            _ => false,
        }
    }
}

/// The type-mismatch error raised when a value is viewed as a variant it does
/// not have: it names the expected and actual variants and carries the
/// value's own span.
pub open spec fn mismatch_error(v: Value, expected: Type) -> TypeError {
    TypeError::TypeMismatch {
        expected,
        actual: v.variant_type(),
        span: v.spec_span(),
    }
}

/// The outcome of viewing `v` at declared type `t`: success exactly when the
/// declaration matches the variant, a type-mismatch error otherwise.
pub open spec fn extract_check(v: Value, t: Type) -> Result<(), TypeError> {
    if type_matches(t, v.variant_type()) {
        Ok(())
    } else {
        Err(mismatch_error(v, t))
    }
}

/// Viewing a value at a type other than its own variant (and other than the
/// wildcard) always fails, with a type-mismatch error anchored at the value's
/// own span and naming both variants.
pub proof fn lemma_extract_wrong_type_fails(v: Value, t: Type)
    requires
        t != v.variant_type(),
        t != Type::Any,
    ensures
        extract_check(v, t) == Err::<(), TypeError>(mismatch_error(v, t)),
        mismatch_error(v, t)->TypeMismatch_span == v.spec_span(),
        mismatch_error(v, t)->TypeMismatch_expected == t,
        mismatch_error(v, t)->TypeMismatch_actual == v.variant_type(),
{
}

impl Type {
    /// Whether a value of variant `actual` is acceptable where this type is
    /// declared.
    pub fn accepts(self, actual: Type) -> (b: bool)
        ensures
            b == type_matches(self, actual),
    {
        self == Type::Any || self == actual
    }
}

impl Value {
    pub fn as_bool(&self) -> (r: Result<bool, TypeError>)
        ensures
            (r is Ok) == (self is Bool),
            r matches Ok(b) ==> self matches Value::Bool { val, .. } && b == val,
            r matches Err(e) ==> e == mismatch_error(*self, Type::Bool),
    {
        match self {
            Value::Bool { val, .. } => Ok(*val),
            _ => Err(TypeError::TypeMismatch {
                expected: Type::Bool,
                actual: self.kind(),
                span: self.span(),
            }),
        }
    }

    pub fn as_int(&self) -> (r: Result<i64, TypeError>)
        ensures
            (r is Ok) == (self is Int),
            r matches Ok(n) ==> self matches Value::Int { val, .. } && n == val,
            r matches Err(e) ==> e == mismatch_error(*self, Type::Int),
    {
        match self {
            Value::Int { val, .. } => Ok(*val),
            _ => Err(TypeError::TypeMismatch {
                expected: Type::Int,
                actual: self.kind(),
                span: self.span(),
            }),
        }
    }

    pub fn as_float_bits(&self) -> (r: Result<u64, TypeError>)
        ensures
            (r is Ok) == (self is Float),
            r matches Ok(b) ==> self matches Value::Float { bits, .. } && b == bits,
            r matches Err(e) ==> e == mismatch_error(*self, Type::Float),
    {
        match self {
            Value::Float { bits, .. } => Ok(*bits),
            _ => Err(TypeError::TypeMismatch {
                expected: Type::Float,
                actual: self.kind(),
                span: self.span(),
            }),
        }
    }

    pub fn as_str(&self) -> (r: Result<&String, TypeError>)
        ensures
            (r is Ok) == (self is String),
            r matches Ok(s) ==> self matches Value::String { val, .. } && s == val,
            r matches Err(e) ==> e == mismatch_error(*self, Type::String),
    {
        match self {
            Value::String { val, .. } => Ok(val),
            _ => Err(TypeError::TypeMismatch {
                expected: Type::String,
                actual: self.kind(),
                span: self.span(),
            }),
        }
    }

    pub fn as_binary(&self) -> (r: Result<&Vec<u8>, TypeError>)
        ensures
            (r is Ok) == (self is Binary),
            r matches Ok(b) ==> self matches Value::Binary { val, .. } && b == val,
            r matches Err(e) ==> e == mismatch_error(*self, Type::Binary),
    {
        match self {
            Value::Binary { val, .. } => Ok(val),
            _ => Err(TypeError::TypeMismatch {
                expected: Type::Binary,
                actual: self.kind(),
                span: self.span(),
            }),
        }
    }

    pub fn as_list(&self) -> (r: Result<&Vec<Value>, TypeError>)
        ensures
            (r is Ok) == (self is List),
            r matches Ok(l) ==> self matches Value::List { vals, .. } && l == vals,
            r matches Err(e) ==> e == mismatch_error(*self, Type::List),
    {
        match self {
            Value::List { vals, .. } => Ok(vals),
            _ => Err(TypeError::TypeMismatch {
                expected: Type::List,
                actual: self.kind(),
                span: self.span(),
            }),
        }
    }

    pub fn as_record(&self) -> (r: Result<&Vec<(String, Value)>, TypeError>)
        ensures
            (r is Ok) == (self is Record),
            r matches Ok(f) ==> self matches Value::Record { fields, .. } && f == fields,
            r matches Err(e) ==> e == mismatch_error(*self, Type::Record),
    {
        match self {
            Value::Record { fields, .. } => Ok(fields),
            _ => Err(TypeError::TypeMismatch {
                expected: Type::Record,
                actual: self.kind(),
                span: self.span(),
            }),
        }
    }
}

} // verus!
