use vstd::prelude::*;
use crate::span::Span;
use crate::value::Value;
use crate::error::EvalError;

verus! {

/// One fully-resolved invocation of a command: the positional argument
/// values in declaration order, the named argument values keyed by the
/// supplied name (an entry without a value is a bare flag), and the span of
/// the call itself in the host's program text.
#[derive(Debug)]
pub struct Call {
    pub positional: Vec<Value>,
    pub named: Vec<(String, Option<Value>)>,
    pub head: Span,
}

/// The first named entry of the call whose key equals `name`, exactly and
/// case-sensitively.
pub open spec fn find_entry_from(call: Call, name: Seq<char>, j: int) -> Option<int>
    decreases call.named@.len() - j,
{
    if j < 0 || j >= call.named@.len() {
        None
    } else if call.named@[j].0@ == name {
        Some(j)
    } else {
        find_entry_from(call, name, j + 1)
    }
}

pub open spec fn find_entry(call: Call, name: Seq<char>) -> Option<int> {
    find_entry_from(call, name, 0)
}

/// What querying a flag by long name yields: false when no entry carries the
/// name, true when the entry is a bare flag, and a defect report when the
/// entry carries a value, which validation would have rejected.
pub open spec fn flag_outcome(call: Call, name: Seq<char>) -> Result<bool, EvalError> {
    match find_entry(call, name) {
        None => Ok(false),
        Some(j) => match call.named@[j].1 {
            None => Ok(true),
            Some(v) => Err(
                EvalError::FlagHasValue { name: call.named@[j].0, span: v.spec_span() },
            ),
        },
    }
}

/// What looking a named argument up by name yields: the entry's value when
/// one carries the name and a value, nothing when the name is absent or the
/// entry is a bare flag.
pub open spec fn named_outcome(call: Call, name: Seq<char>) -> Option<Value> {
    match find_entry(call, name) {
        None => None,
        Some(j) => call.named@[j].1,
    }
}

/// Whether two optional named-entry values agree: both absent, or both
/// present with structurally equal contents.
pub open spec fn named_value_same(v1: Option<Value>, v2: Option<Value>) -> bool {
    match (v1, v2) {
        (Option::None, Option::None) => true,
        (Option::Some(a), Option::Some(b)) => a.content() == b.content(),
        _ => false,
    }
}

/// Two calls are structurally equal when their positional arguments and
/// named entries agree in order, name and content; the spans they carry,
/// the head included, play no part.
pub open spec fn call_same_content(c1: Call, c2: Call) -> bool {
    &&& c1.positional@.len() == c2.positional@.len()
    &&& forall|i: int|
        0 <= i < c1.positional@.len() ==> (#[trigger] c1.positional@[i]).content()
            == c2.positional@[i].content()
    &&& c1.named@.len() == c2.named@.len()
    &&& forall|j: int|
        0 <= j < c1.named@.len() ==> ((#[trigger] c1.named@[j]).0@ == c2.named@[j].0@
            && named_value_same(c1.named@[j].1, c2.named@[j].1))
}

proof fn lemma_find_entry_same(c1: Call, c2: Call, name: Seq<char>, j: int)
    requires
        call_same_content(c1, c2),
        0 <= j,
    ensures
        find_entry_from(c1, name, j) == find_entry_from(c2, name, j),
    decreases c1.named@.len() - j,
{
    if j < c1.named@.len() {
        assert(c1.named@[j].0@ == c2.named@[j].0@);
        lemma_find_entry_same(c1, c2, name, j + 1);
    }
}

proof fn lemma_find_entry_range(c: Call, name: Seq<char>, j: int)
    requires
        0 <= j,
    ensures
        find_entry_from(c, name, j) matches Some(k) ==> j <= k < c.named@.len(),
    decreases c.named@.len() - j,
{
    if j < c.named@.len() {
        lemma_find_entry_range(c, name, j + 1);
    }
}

/// The answer to a flag query depends only on the call's content:
/// structurally equal calls answer alike, or fail together.
pub proof fn lemma_flag_outcome_same(c1: Call, c2: Call, name: Seq<char>)
    requires
        call_same_content(c1, c2),
    ensures
        (flag_outcome(c1, name) is Ok) == (flag_outcome(c2, name) is Ok),
        flag_outcome(c1, name) matches Ok(b1) ==> (flag_outcome(c2, name) matches Ok(b2) && b1
            == b2),
{
    lemma_find_entry_same(c1, c2, name, 0);
    lemma_find_entry_range(c1, name, 0);
    match find_entry(c1, name) {
        Some(j) => {
            assert(c1.named@[j].0@ == c2.named@[j].0@ && named_value_same(
                c1.named@[j].1,
                c2.named@[j].1,
            ));
        },
        None => {},
    }
}

impl Call {
    pub fn new(positional: Vec<Value>, named: Vec<(String, Option<Value>)>, head: Span) -> (c:
        Call)
        ensures
            c == (Call { positional, named, head }),
    {
        Call { positional, named, head }
    }

    /// The call's own location, the default anchor for diagnostics when no
    /// finer-grained span applies.
    pub fn head_span(&self) -> (s: Span)
        ensures
            s == self.head,
    {
        self.head
    }

    /// The positional argument at `index`. A request past the end of what
    /// validation guaranteed is a defect, reported rather than reached.
    pub fn positional_arg(&self, index: usize) -> (r: Result<&Value, EvalError>)
        ensures
            index < self.positional@.len() ==> (r matches Ok(v) && *v == self.positional@[index as int]),
            index >= self.positional@.len() ==> r == Err::<&Value, EvalError>(
                EvalError::OutOfRange {
                    index,
                    len: self.positional@.len() as usize,
                    span: self.head,
                },
            ),
    {
        if index < self.positional.len() {
            Ok(&self.positional[index])
        } else {
            Err(EvalError::OutOfRange { index, len: self.positional.len(), span: self.head })
        }
    }

    /// The index of the first named entry whose key equals `name`.
    fn find_named_entry(&self, name: &str) -> (o: Option<usize>)
        ensures
            match o {
                Some(j) => j < self.named@.len() && find_entry(*self, name@) == Some(j as int),
                None => find_entry(*self, name@) is None,
            },
    {
        let key: String = name.to_owned();
        let n = self.named.len();
        for j in 0..n
            invariant
                n == self.named@.len(),
                key@ == name@,
                find_entry(*self, name@) == find_entry_from(*self, name@, j as int),
        {
            if self.named[j].0.eq(&key) {
                return Some(j);
            }
        }
        None
    }

    /// The value supplied for the named parameter `name`, if any; absence is
    /// an answer, not an error.
    pub fn named_arg(&self, name: &str) -> (r: Option<&Value>)
        ensures
            match r {
                Some(v) => named_outcome(*self, name@) == Some(*v),
                None => named_outcome(*self, name@) is None,
            },
    {
        match self.find_named_entry(name) {
            None => None,
            Some(j) => match &self.named[j].1 {
                None => None,
                Some(v) => Some(v),
            },
        }
    }

    /// Whether the flag `name` was supplied: true exactly when an entry
    /// carries the name, which after validation means a bare flag. An entry
    /// carrying a value is malformed for a flag and is reported.
    pub fn flag(&self, name: &str) -> (r: Result<bool, EvalError>)
        ensures
            r == flag_outcome(*self, name@),
    {
        match self.find_named_entry(name) {
            None => Ok(false),
            Some(j) => match &self.named[j].1 {
                None => Ok(true),
                Some(v) => Err(
                    EvalError::FlagHasValue { name: self.named[j].0.clone(), span: v.span() },
                ),
            },
        }
    }
}

} // verus!
