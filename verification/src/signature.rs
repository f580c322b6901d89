use vstd::prelude::*;
use crate::call::Call;
use crate::error::TypeError;
use crate::span::Span;
use crate::value::{Type, Value, type_matches};
use vstd::string::StringExecFns;

verus! {

/// A positional parameter declaration: its name, the type an argument must
/// have, and whether an argument is required.
#[derive(Debug)]
pub struct PositionalArg {
    pub name: String,
    pub typ: Type,
    pub required: bool,
}

/// A named parameter declaration: a long name, an optional single-character
/// alias, and either a declared value type or none at all, in which case the
/// parameter is a flag and must carry no value.
#[derive(Debug)]
pub struct NamedParam {
    pub long: String,
    pub short: Option<char>,
    pub typ: Option<Type>,
    pub description: String,
}

/// The static declaration of one command: its unique name, a description,
/// the ordered (input, output) type pairs it accepts, its positional
/// parameters in declaration order, and its named parameters. Constructed
/// once at registration time and immutable thereafter.
#[derive(Debug)]
pub struct Signature {
    pub name: String,
    pub description: String,
    pub input_output_types: Vec<(Type, Type)>,
    pub positional: Vec<PositionalArg>,
    pub named: Vec<NamedParam>,
}

impl Signature {
    /// Long names are pairwise distinct and so are the single-character
    /// aliases; a malformed signature is a startup-time configuration error.
    pub open spec fn wf(self) -> bool {
        &&& forall|i: int, j: int|
            0 <= i < j < self.named@.len() ==> (#[trigger] self.named@[i].long)@ != (
            #[trigger] self.named@[j].long)@
        &&& forall|i: int, j: int|
            0 <= i < j < self.named@.len() && (#[trigger] self.named@[i].short) is Some ==> (
            self.named@[i].short != #[trigger] self.named@[j].short)
    }

    pub fn build(name: &str) -> (s: Signature)
        ensures
            s.name@ == name@,
            s.description@.len() == 0,
            s.input_output_types@.len() == 0,
            s.positional@.len() == 0,
            s.named@.len() == 0,
    {
        Signature {
            name: name.to_owned(),
            description: String::new(),
            input_output_types: Vec::new(),
            positional: Vec::new(),
            named: Vec::new(),
        }
    }

    pub fn with_description(self, description: &str) -> (s: Signature)
        ensures
            s == (Signature { description: s.description, ..self }),
            s.description@ == description@,
    {
        Signature { description: description.to_owned(), ..self }
    }

    /// Declares one accepted (input, output) type pair; declaration order is
    /// authoritative when more than one pair could match.
    pub fn input_output_type(self, input: Type, output: Type) -> (s: Signature)
        ensures
            s == (Signature { input_output_types: s.input_output_types, ..self }),
            s.input_output_types@ == self.input_output_types@.push((input, output)),
    {
        let mut io = self.input_output_types;
        io.push((input, output));
        Signature { input_output_types: io, ..self }
    }

    pub fn required_positional(self, name: &str, typ: Type) -> (s: Signature)
        ensures
            s == (Signature { positional: s.positional, ..self }),
            s.positional@.len() == self.positional@.len() + 1,
            s.positional@.last().name@ == name@,
            s.positional@.last().typ == typ,
            s.positional@.last().required,
            s.positional@.drop_last() == self.positional@,
    {
        let mut positional = self.positional;
        positional.push(PositionalArg { name: name.to_owned(), typ, required: true });
        proof {
            assert(positional@.drop_last() =~= self.positional@);
        }
        Signature { positional, ..self }
    }

    pub fn optional_positional(self, name: &str, typ: Type) -> (s: Signature)
        ensures
            s == (Signature { positional: s.positional, ..self }),
            s.positional@.len() == self.positional@.len() + 1,
            s.positional@.last().name@ == name@,
            s.positional@.last().typ == typ,
            !s.positional@.last().required,
            s.positional@.drop_last() == self.positional@,
    {
        let mut positional = self.positional;
        positional.push(PositionalArg { name: name.to_owned(), typ, required: false });
        proof {
            assert(positional@.drop_last() =~= self.positional@);
        }
        Signature { positional, ..self }
    }

    /// Declares a named parameter that carries a value of the given type.
    pub fn named(self, long: &str, typ: Type, description: &str, short: Option<char>) -> (s:
        Signature)
        ensures
            s == (Signature { named: s.named, ..self }),
            s.named@.len() == self.named@.len() + 1,
            s.named@.last().long@ == long@,
            s.named@.last().short == short,
            s.named@.last().typ == Some(typ),
            s.named@.last().description@ == description@,
            s.named@.drop_last() == self.named@,
    {
        let mut named = self.named;
        named.push(
            NamedParam {
                long: long.to_owned(),
                short,
                typ: Some(typ),
                description: description.to_owned(),
            },
        );
        proof {
            assert(named@.drop_last() =~= self.named@);
        }
        Signature { named, ..self }
    }

    /// Declares a flag: a named parameter without a value.
    pub fn switch(self, long: &str, description: &str, short: Option<char>) -> (s: Signature)
        ensures
            s == (Signature { named: s.named, ..self }),
            s.named@.len() == self.named@.len() + 1,
            s.named@.last().long@ == long@,
            s.named@.last().short == short,
            s.named@.last().typ is None,
            s.named@.last().description@ == description@,
            s.named@.drop_last() == self.named@,
    {
        let mut named = self.named;
        named.push(
            NamedParam {
                long: long.to_owned(),
                short,
                typ: None,
                description: description.to_owned(),
            },
        );
        proof {
            assert(named@.drop_last() =~= self.named@);
        }
        Signature { named, ..self }
    }
}

/// Whether some declared (input, output) pair accepts the given input
/// variant.
pub open spec fn input_accepted(sig: Signature, actual: Type) -> bool {
    exists|i: int|
        0 <= i < sig.input_output_types@.len() && type_matches(
            #[trigger] sig.input_output_types@[i].0,
            actual,
        )
}

/// The input type named when no pair accepts the input: the first declared
/// one, or the wildcard when the signature declares no pair at all.
pub open spec fn expected_input(sig: Signature) -> Type {
    if sig.input_output_types@.len() > 0 {
        sig.input_output_types@[0].0
    } else {
        Type::Any
    }
}

/// A named declaration matches a supplied name when the long name equals it,
/// or the name is exactly the declared single-character alias.
pub open spec fn named_matches(d: NamedParam, name: Seq<char>) -> bool {
    d.long@ == name || (d.short matches Some(c) && name.len() == 1 && name[0] == c)
}

/// The first declaration matching the supplied name, in declaration order.
pub open spec fn find_named_from(sig: Signature, name: Seq<char>, j: int) -> Option<int>
    decreases sig.named@.len() - j,
{
    if j < 0 || j >= sig.named@.len() {
        None
    } else if named_matches(sig.named@[j], name) {
        Some(j)
    } else {
        find_named_from(sig, name, j + 1)
    }
}

pub open spec fn find_named(sig: Signature, name: Seq<char>) -> Option<int> {
    find_named_from(sig, name, 0)
}

/// The first violation among the positional requirements, scanning
/// declarations from index `i`: a missing required argument is anchored at
/// the call's own span, a mistyped one at the argument's.
pub open spec fn positional_violation_from(sig: Signature, call: Call, i: int) -> Option<
    TypeError,
>
    decreases sig.positional@.len() - i,
{
    if i < 0 || i >= sig.positional@.len() {
        None
    } else {
        let decl = sig.positional@[i];
        if i >= call.positional@.len() {
            if decl.required {
                Some(TypeError::MissingPositional { name: decl.name, span: call.head })
            } else {
                positional_violation_from(sig, call, i + 1)
            }
        } else {
            let arg = call.positional@[i];
            if !type_matches(decl.typ, arg.variant_type()) {
                Some(
                    TypeError::TypeMismatch {
                        expected: decl.typ,
                        actual: arg.variant_type(),
                        span: arg.spec_span(),
                    },
                )
            } else {
                positional_violation_from(sig, call, i + 1)
            }
        }
    }
}

/// The span a named entry's diagnostic points at: its value's span when it
/// carries one, the call's own span otherwise.
pub open spec fn named_anchor(entry_value: Option<Value>, head: Span) -> Span {
    match entry_value {
        Some(v) => v.spec_span(),
        None => head,
    }
}

/// The violation in the call's named entry `j`, if any: an undeclared name,
/// a flag carrying a value, a typed parameter without a value, or a
/// mistyped value.
pub open spec fn named_violation_at(sig: Signature, call: Call, j: int) -> Option<TypeError> {
    let name = call.named@[j].0;
    let entry_value = call.named@[j].1;
    match find_named(sig, name@) {
        None => Some(
            TypeError::UnknownNamed { name, span: named_anchor(entry_value, call.head) },
        ),
        Some(k) => match sig.named@[k].typ {
            None => match entry_value {
                Some(v) => Some(TypeError::FlagHasValue { name, span: v.spec_span() }),
                None => None,
            },
            Some(t) => match entry_value {
                None => Some(TypeError::MissingNamedValue { name, span: call.head }),
                Some(v) => if !type_matches(t, v.variant_type()) {
                    Some(
                        TypeError::TypeMismatch {
                            expected: t,
                            actual: v.variant_type(),
                            span: v.spec_span(),
                        },
                    )
                } else {
                    None
                },
            },
        },
    }
}

/// The first violation among the call's named entries, scanning them in the
/// order they were supplied, from index `j`.
pub open spec fn named_violation_from(sig: Signature, call: Call, j: int) -> Option<TypeError>
    decreases call.named@.len() - j,
{
    if j < 0 || j >= call.named@.len() {
        None
    } else {
        match named_violation_at(sig, call, j) {
            Some(e) => Some(e),
            None => named_violation_from(sig, call, j + 1),
        }
    }
}

/// The first violation validation reports for this (signature, call, input)
/// triple, in the order of §4.2: input acceptance, then positional
/// parameters in declaration order, then named entries in supplied order.
pub open spec fn first_violation(sig: Signature, call: Call, input: Value) -> Option<TypeError> {
    if !input_accepted(sig, input.variant_type()) {
        Some(
            TypeError::UnsupportedInput {
                expected: expected_input(sig),
                actual: input.variant_type(),
                span: call.head,
            },
        )
    } else {
        match positional_violation_from(sig, call, 0) {
            Some(e) => Some(e),
            None => named_violation_from(sig, call, 0),
        }
    }
}

/// Positional requirement `i` is met: a declared parameter either has a
/// well-typed argument, or has none and is optional.
pub open spec fn positional_ok(sig: Signature, call: Call, i: int) -> bool {
    if i >= call.positional@.len() {
        !sig.positional@[i].required
    } else {
        type_matches(sig.positional@[i].typ, call.positional@[i].variant_type())
    }
}

/// The call's named entry `j` is well-formed against the signature: its name
/// is declared, a flag carries no value, a typed parameter carries a
/// well-typed one.
pub open spec fn named_entry_ok(sig: Signature, call: Call, j: int) -> bool {
    match find_named(sig, call.named@[j].0@) {
        None => false,
        Some(k) => match sig.named@[k].typ {
            None => call.named@[j].1 is None,
            Some(t) => call.named@[j].1 matches Some(v) && type_matches(t, v.variant_type()),
        },
    }
}

/// The positive characterization of a valid call: the input is accepted and
/// every positional and named requirement is met.
pub open spec fn call_fits(sig: Signature, call: Call, input: Value) -> bool {
    &&& input_accepted(sig, input.variant_type())
    &&& forall|i: int| 0 <= i < sig.positional@.len() ==> #[trigger] positional_ok(sig, call, i)
    &&& forall|j: int| 0 <= j < call.named@.len() ==> #[trigger] named_entry_ok(sig, call, j)
}

proof fn lemma_positional_iff(sig: Signature, call: Call, i: int)
    requires
        0 <= i <= sig.positional@.len(),
    ensures
        (positional_violation_from(sig, call, i) is None) <==> (forall|k: int|
            i <= k < sig.positional@.len() ==> #[trigger] positional_ok(sig, call, k)),
    decreases sig.positional@.len() - i,
{
    if i < sig.positional@.len() {
        lemma_positional_iff(sig, call, i + 1);
        if positional_violation_from(sig, call, i) is None {
            assert(positional_ok(sig, call, i));
            assert forall|k: int|
                i <= k < sig.positional@.len() implies #[trigger] positional_ok(
                sig,
                call,
                k,
            ) by {}
        } else {
            if positional_ok(sig, call, i) {
                assert(positional_violation_from(sig, call, i + 1) is Some);
                let k = choose|k: int|
                    i + 1 <= k < sig.positional@.len() && !(#[trigger] positional_ok(
                        sig,
                        call,
                        k,
                    ));
                assert(!positional_ok(sig, call, k));
            } else {
                assert(!positional_ok(sig, call, i));
            }
        }
    }
}

proof fn lemma_named_iff(sig: Signature, call: Call, j: int)
    requires
        0 <= j <= call.named@.len(),
    ensures
        (named_violation_from(sig, call, j) is None) <==> (forall|k: int|
            j <= k < call.named@.len() ==> #[trigger] named_entry_ok(sig, call, k)),
    decreases call.named@.len() - j,
{
    if j < call.named@.len() {
        lemma_named_iff(sig, call, j + 1);
        if named_violation_from(sig, call, j) is None {
            assert(named_entry_ok(sig, call, j));
            assert forall|k: int|
                j <= k < call.named@.len() implies #[trigger] named_entry_ok(sig, call, k) by {}
        } else {
            if named_entry_ok(sig, call, j) {
                assert(named_violation_at(sig, call, j) is None);
                assert(named_violation_from(sig, call, j + 1) is Some);
                let k = choose|k: int|
                    j + 1 <= k < call.named@.len() && !(#[trigger] named_entry_ok(sig, call, k));
                assert(!named_entry_ok(sig, call, k));
            } else {
                assert(!named_entry_ok(sig, call, j));
            }
        }
    }
}

/// Validation succeeds exactly on the calls that satisfy every positional
/// and named requirement of the signature with an accepted input; in
/// particular, every call that meets all requirements passes.
pub proof fn lemma_validation_exact(sig: Signature, call: Call, input: Value)
    ensures
        (first_violation(sig, call, input) is None) <==> call_fits(sig, call, input),
{
    lemma_positional_iff(sig, call, 0);
    lemma_named_iff(sig, call, 0);
}

proof fn lemma_positional_missing(sig: Signature, call: Call, i: int)
    requires
        0 <= i <= sig.positional@.len(),
        exists|k: int|
            i <= k < sig.positional@.len() && (#[trigger] sig.positional@[k]).required
                && call.positional@.len() <= k,
        forall|k: int|
            0 <= k < sig.positional@.len() && k < call.positional@.len() ==> type_matches(
                (#[trigger] sig.positional@[k]).typ,
                call.positional@[k].variant_type(),
            ),
    ensures
        positional_violation_from(sig, call, i) matches Some(e) && e matches
            TypeError::MissingPositional { span, .. } && span == call.head,
    decreases sig.positional@.len() - i,
{
    let k0 = choose|k: int|
        i <= k < sig.positional@.len() && (#[trigger] sig.positional@[k]).required
            && call.positional@.len() <= k;
    if i >= call.positional@.len() && sig.positional@[i].required {
    } else {
        assert(k0 != i);
        lemma_positional_missing(sig, call, i + 1);
    }
}

/// A call that leaves some required positional parameter unfilled is
/// rejected with a missing-argument violation anchored at the call's own
/// span — provided the input is accepted and the positional arguments it
/// does supply are well-typed, which would otherwise be reported first.
pub proof fn lemma_missing_required_positional(sig: Signature, call: Call, input: Value, i: int)
    requires
        input_accepted(sig, input.variant_type()),
        0 <= i < sig.positional@.len(),
        sig.positional@[i].required,
        call.positional@.len() <= i,
        forall|k: int|
            0 <= k < sig.positional@.len() && k < call.positional@.len() ==> type_matches(
                (#[trigger] sig.positional@[k]).typ,
                call.positional@[k].variant_type(),
            ),
    ensures
        first_violation(sig, call, input) matches Some(e) && e matches
            TypeError::MissingPositional { span, .. } && span == call.head,
{
    assert(i <= i < sig.positional@.len() && sig.positional@[i].required
        && call.positional@.len() <= i);
    lemma_positional_missing(sig, call, 0);
}

proof fn lemma_positional_violation_same(sig: Signature, c1: Call, c2: Call, i: int)
    requires
        crate::call::call_same_content(c1, c2),
        0 <= i,
    ensures
        (positional_violation_from(sig, c1, i) is None) == (positional_violation_from(
            sig,
            c2,
            i,
        ) is None),
    decreases sig.positional@.len() - i,
{
    if i < sig.positional@.len() {
        if i < c1.positional@.len() {
            assert(c1.positional@[i].content() == c2.positional@[i].content());
            crate::value::lemma_content_determines_variant(
                c1.positional@[i],
                c2.positional@[i],
            );
        }
        lemma_positional_violation_same(sig, c1, c2, i + 1);
    }
}

proof fn lemma_named_violation_same(sig: Signature, c1: Call, c2: Call, j: int)
    requires
        crate::call::call_same_content(c1, c2),
        0 <= j,
    ensures
        (named_violation_from(sig, c1, j) is None) == (named_violation_from(sig, c2, j) is None),
    decreases c1.named@.len() - j,
{
    if j < c1.named@.len() {
        assert(c1.named@[j].0@ == c2.named@[j].0@ && crate::call::named_value_same(
            c1.named@[j].1,
            c2.named@[j].1,
        ));
        match (c1.named@[j].1, c2.named@[j].1) {
            (Option::Some(a), Option::Some(b)) => {
                crate::value::lemma_content_determines_variant(a, b);
            },
            _ => {},
        }
        lemma_named_violation_same(sig, c1, c2, j + 1);
    }
}

/// Whether a call passes validation depends only on its content and the
/// input's: structurally equal invocations pass or fail together.
pub proof fn lemma_validation_same(sig: Signature, c1: Call, i1: Value, c2: Call, i2: Value)
    requires
        crate::call::call_same_content(c1, c2),
        i1.content() == i2.content(),
    ensures
        (first_violation(sig, c1, i1) is None) == (first_violation(sig, c2, i2) is None),
{
    crate::value::lemma_content_determines_variant(i1, i2);
    lemma_positional_violation_same(sig, c1, c2, 0);
    lemma_named_violation_same(sig, c1, c2, 0);
}

impl Signature {
    /// Whether this signature is well-formed; a malformed one is rejected at
    /// registration, never per call.
    pub fn check_wf(&self) -> (b: bool)
        ensures
            b == self.wf(),
    {
        let n = self.named.len();
        for i in 0..n
            invariant
                n == self.named@.len(),
                forall|x: int, y: int|
                    0 <= x < y < self.named@.len() && x < i ==> (#[trigger] self.named@[x].long)@
                        != (#[trigger] self.named@[y].long)@,
                forall|x: int, y: int|
                    0 <= x < y < self.named@.len() && x < i && (
                    #[trigger] self.named@[x].short) is Some ==> (self.named@[x].short
                        != #[trigger] self.named@[y].short),
        {
            let mut j = i + 1;
            while j < n
                invariant
                    i < j <= n,
                    n == self.named@.len(),
                    forall|y: int|
                        i < y < j ==> (self.named@[i as int].long)@ != (
                        #[trigger] self.named@[y].long)@,
                    forall|y: int|
                        i < y < j && self.named@[i as int].short is Some ==> (
                        self.named@[i as int].short != #[trigger] self.named@[y].short),
                decreases n - j,
            {
                if self.named[i].long.eq(&self.named[j].long) {
                    return false;
                }
                match (&self.named[i].short, &self.named[j].short) {
                    (Some(a), Some(b)) => if *a == *b {
                        return false;
                    },
                    _ => {},
                }
                j += 1;
            }
        }
        true
    }
}

/// The first declaration in `sig` matching the supplied name, as an index.
fn find_named_decl(sig: &Signature, name: &String) -> (o: Option<usize>)
    ensures
        match o {
            Some(k) => k < sig.named@.len() && find_named(*sig, name@) == Some(k as int),
            None => find_named(*sig, name@) is None,
        },
{
    let n = sig.named.len();
    for k in 0..n
        invariant
            n == sig.named@.len(),
            find_named(*sig, name@) == find_named_from(*sig, name@, k as int),
    {
        let d = &sig.named[k];
        if d.long.eq(name) {
            return Some(k);
        }
        match d.short {
            Some(c) => {
                if name.as_str().unicode_len() == 1 {
                    if name.as_str().get_char(0) == c {
                        return Some(k);
                    }
                }
            },
            None => {},
        }
    }
    None
}

/// Validates one call and its input value against a signature, in the order
/// of §4.2: input acceptance first, then positional parameters in
/// declaration order, then the supplied named entries in order. Returns the
/// first violation found, and succeeds exactly on fitting calls.
#[verifier::loop_isolation(false)]
pub fn validate(sig: &Signature, call: &Call, input: &Value) -> (r: Result<(), TypeError>)
    ensures
        match r {
            Ok(_) => first_violation(*sig, *call, *input) is None && call_fits(
                *sig,
                *call,
                *input,
            ),
            Err(e) => first_violation(*sig, *call, *input) == Some(e) && !call_fits(
                *sig,
                *call,
                *input,
            ),
        },
{
    proof {
        lemma_validation_exact(*sig, *call, *input);
    }
    let input_kind = input.kind();
    let nio = sig.input_output_types.len();
    let mut accepted = false;
    for i in 0..nio
        invariant
            nio == sig.input_output_types@.len(),
            input_kind == input.variant_type(),
            accepted ==> input_accepted(*sig, input.variant_type()),
            !accepted ==> forall|k: int|
                0 <= k < i ==> !type_matches(#[trigger] sig.input_output_types@[k].0,
                input.variant_type()),
    {
        if sig.input_output_types[i].0.accepts(input_kind) {
            accepted = true;
        }
    }
    if !accepted {
        let expected = if sig.input_output_types.len() > 0 {
            sig.input_output_types[0].0
        } else {
            Type::Any
        };
        return Err(
            TypeError::UnsupportedInput { expected, actual: input_kind, span: call.head },
        );
    }
    let np = sig.positional.len();
    for i in 0..np
        invariant
            np == sig.positional@.len(),
            input_accepted(*sig, input.variant_type()),
            positional_violation_from(*sig, *call, 0) == positional_violation_from(
                *sig,
                *call,
                i as int,
            ),
    {
        let decl = &sig.positional[i];
        if i >= call.positional.len() {
            if decl.required {
                return Err(
                    TypeError::MissingPositional { name: decl.name.clone(), span: call.head },
                );
            }
        } else {
            let arg = &call.positional[i];
            if !decl.typ.accepts(arg.kind()) {
                return Err(
                    TypeError::TypeMismatch {
                        expected: decl.typ,
                        actual: arg.kind(),
                        span: arg.span(),
                    },
                );
            }
        }
    }
    let nn = call.named.len();
    for j in 0..nn
        invariant
            nn == call.named@.len(),
            positional_violation_from(*sig, *call, 0) is None,
            input_accepted(*sig, input.variant_type()),
            named_violation_from(*sig, *call, 0) == named_violation_from(*sig, *call, j as int),
    {
        let entry_name = &call.named[j].0;
        match find_named_decl(sig, entry_name) {
            None => {
                let anchor = match &call.named[j].1 {
                    Some(v) => v.span(),
                    None => call.head,
                };
                return Err(TypeError::UnknownNamed { name: entry_name.clone(), span: anchor });
            },
            Some(k) => {
                match &sig.named[k].typ {
                    None => {
                        match &call.named[j].1 {
                            Some(v) => {
                                return Err(
                                    TypeError::FlagHasValue {
                                        name: entry_name.clone(),
                                        span: v.span(),
                                    },
                                );
                            },
                            None => {},
                        }
                    },
                    Some(t) => {
                        match &call.named[j].1 {
                            None => {
                                return Err(
                                    TypeError::MissingNamedValue {
                                        name: entry_name.clone(),
                                        span: call.head,
                                    },
                                );
                            },
                            Some(v) => {
                                if !t.accepts(v.kind()) {
                                    return Err(
                                        TypeError::TypeMismatch {
                                            expected: *t,
                                            actual: v.kind(),
                                            span: v.span(),
                                        },
                                    );
                                }
                            },
                        }
                    },
                }
            },
        }
    }
    Ok(())
}

} // verus!
