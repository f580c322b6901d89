use vstd::prelude::*;
use crate::error::{ErrorModel, LabeledError};
use crate::span::Span;
use crate::value::{Content, Value};

verus! {

/// The record shape one (label text, span) pair takes on the wire: fields
/// "text", "start" and "end", the span offsets carried as integers.
pub open spec fn label_wire_model(text: Seq<char>, sp: Span) -> Content {
    Content::Record(
        Seq::empty().push(("text"@, Content::Str(text))).push(
            ("start"@, Content::Int(sp.start as i64)),
        ).push(("end"@, Content::Int(sp.end as i64))),
    )
}

/// The record shape a `LabeledError` takes on the wire: fields "msg",
/// "labels" and "help", the labels as a list of label records, a missing
/// help as the nothing value.
pub open spec fn error_wire_model(m: ErrorModel) -> Content {
    Content::Record(
        Seq::empty().push(("msg"@, Content::Str(m.msg))).push(
            (
                "labels"@,
                Content::List(
                    Seq::new(m.labels.len(), |i: int| label_wire_model(m.labels[i].0, m.labels[i].1)),
                ),
            ),
        ).push(
            (
                "help"@,
                match m.help {
                    Some(h) => Content::Str(h),
                    None => Content::Nothing,
                },
            ),
        ),
    )
}

/// An error fits the wire when each label's span offsets fit the integer
/// value that carries them.
pub open spec fn wire_fits(m: ErrorModel) -> bool {
    forall|i: int|
        0 <= i < m.labels.len() ==> ((#[trigger] m.labels[i]).1.start <= i64::MAX
            && m.labels[i].1.end <= i64::MAX)
}

/// What a label record parses back to, if anything: the shape of
/// `label_wire_model` with non-negative offsets.
pub open spec fn parse_label(c: Content) -> Option<(Seq<char>, Span)> {
    match c {
        Content::Record(fs) => {
            if fs.len() == 3 && fs[0].0 == "text"@ && fs[1].0 == "start"@ && fs[2].0 == "end"@ {
                match (fs[0].1, fs[1].1, fs[2].1) {
                    (Content::Str(t), Content::Int(a), Content::Int(b)) => if 0 <= a && 0 <= b {
                        Some((t, Span { start: a as usize, end: b as usize }))
                    } else {
                        None
                    },
                    _ => None,
                }
            } else {
                None
            }
        },
        _ => None,
    }
}

/// The parse of a label record that is known to parse; an arbitrary-free
/// total companion to `parse_label`.
pub open spec fn parsed_label(c: Content) -> (Seq<char>, Span) {
    match parse_label(c) {
        Some(p) => p,
        None => (Seq::<char>::empty(), Span { start: 0, end: 0 }),
    }
}

/// What a list of label records parses back to: all of them, or nothing if
/// any is malformed.
pub open spec fn parse_labels(s: Seq<Content>) -> Option<Seq<(Seq<char>, Span)>> {
    if forall|i: int| 0 <= i < s.len() ==> (#[trigger] parse_label(s[i])) is Some {
        Some(Seq::new(s.len(), |i: int| parsed_label(s[i])))
    } else {
        None
    }
}

/// What an error record parses back to, if anything: the shape of
/// `error_wire_model`.
pub open spec fn parse_error_content(c: Content) -> Option<ErrorModel> {
    match c {
        Content::Record(fs) => {
            if fs.len() == 3 && fs[0].0 == "msg"@ && fs[1].0 == "labels"@ && fs[2].0 == "help"@ {
                match (fs[0].1, fs[1].1) {
                    (Content::Str(msg), Content::List(ls)) => match parse_labels(ls) {
                        Some(labels) => match fs[2].1 {
                            Content::Str(h) => Some(ErrorModel { msg, labels, help: Some(h) }),
                            Content::Nothing => Some(ErrorModel { msg, labels, help: None }),
                            _ => None,
                        },
                        None => None,
                    },
                    _ => None,
                }
            } else {
                None
            }
        },
        _ => None,
    }
}

/// Round trip across the transport boundary: every error that fits the wire
/// parses back from its own encoding, structurally unchanged.
pub proof fn lemma_error_wire_round_trip(m: ErrorModel)
    requires
        wire_fits(m),
    ensures
        parse_error_content(error_wire_model(m)) == Some(m),
{
    let c = error_wire_model(m);
    let ls = Seq::new(m.labels.len(), |i: int| label_wire_model(m.labels[i].0, m.labels[i].1));
    assert forall|i: int| 0 <= i < ls.len() implies (#[trigger] parse_label(ls[i])) is Some by {
        assert(m.labels[i].1.start <= i64::MAX && m.labels[i].1.end <= i64::MAX);
    }
    assert(Seq::new(ls.len(), |i: int| parsed_label(ls[i])) =~= m.labels);
}

/// Encodes a `LabeledError` as the record value the transport carries; the
/// whole encoding is tagged with the one span supplied, since a wire value
/// originates nowhere in the host's program text.
#[verifier::loop_isolation(false)]
pub fn encode_labeled_error(e: &LabeledError, span: Span) -> (v: Value)
    requires
        wire_fits(e@),
    ensures
        v.content() == error_wire_model(e@),
        v.spec_span() == span,
        parse_error_content(v.content()) == Some(e@),
{
    proof {
        lemma_error_wire_round_trip(e@);
    }
    let n = e.labels.len();
    let mut label_vals: Vec<Value> = Vec::new();
    for i in 0..n
        invariant
            label_vals@.len() == i,
            forall|k: int|
                0 <= k < i ==> (#[trigger] label_vals@[k]).content() == label_wire_model(
                    e@.labels[k].0,
                    e@.labels[k].1,
                ),
    {
        let text = e.labels[i].0.clone();
        let sp = e.labels[i].1;
        proof {
            assert(e@.labels[i as int] == (e.labels@[i as int].0@, e.labels@[i as int].1));
            assert(sp.start <= i64::MAX && sp.end <= i64::MAX);
        }
        let mut fields: Vec<(String, Value)> = Vec::new();
        fields.push(("text".to_owned(), Value::String { val: text, span }));
        fields.push(("start".to_owned(), Value::Int { val: sp.start as i64, span }));
        fields.push(("end".to_owned(), Value::Int { val: sp.end as i64, span }));
        proof {
            assert(fields@.len() == 3);
            assert(fields@[0].0@ == "text"@ && fields@[1].0@ == "start"@ && fields@[2].0@
                == "end"@);
            assert(fields@[0].1.content() == Content::Str(e@.labels[i as int].0));
            assert(fields@[1].1.content() == Content::Int(sp.start as i64));
            assert(fields@[2].1.content() == Content::Int(sp.end as i64));
        }
        let rec = Value::Record { fields, span };
        proof {
            assert(rec.content() matches Content::Record(fs) && fs.len() == 3 && fs[0] == (
                "text"@,
                Content::Str(e@.labels[i as int].0),
            ) && fs[1] == ("start"@, Content::Int(sp.start as i64)) && fs[2] == (
                "end"@,
                Content::Int(sp.end as i64),
            ));
            assert(rec.content() matches Content::Record(fs) && (label_wire_model(
                e@.labels[i as int].0,
                e@.labels[i as int].1,
            ) matches Content::Record(gs) && fs =~= gs));
            assert(rec.content() == label_wire_model(e@.labels[i as int].0, e@.labels[i as int].1));
        }
        label_vals.push(rec);
    }
    let mut fields: Vec<(String, Value)> = Vec::new();
    fields.push(("msg".to_owned(), Value::String { val: e.msg.clone(), span }));
    fields.push(("labels".to_owned(), Value::List { vals: label_vals, span }));
    match &e.help {
        Some(h) => fields.push(("help".to_owned(), Value::String { val: h.clone(), span })),
        None => fields.push(("help".to_owned(), Value::Nothing { span })),
    }
    proof {
        assert(fields@.len() == 3);
        assert(fields@[0].0@ == "msg"@ && fields@[1].0@ == "labels"@ && fields@[2].0@ == "help"@);
        assert(fields@[0].1.content() == Content::Str(e@.msg));
        assert(fields@[1].1.content() matches Content::List(ls) && ls =~= Seq::new(
            e@.labels.len(),
            |i: int| label_wire_model(e@.labels[i].0, e@.labels[i].1),
        ));
        assert(fields@[2].1.content() == (match e@.help {
            Some(h) => Content::Str(h),
            None => Content::Nothing,
        }));
    }
    let v = Value::Record { fields, span };
    proof {
        assert(v.content() matches Content::Record(fs) && fs.len() == 3 && fs[0] == (
            "msg"@,
            Content::Str(e@.msg),
        ) && fs[2] == (
            "help"@,
            match e@.help {
                Some(h) => Content::Str(h),
                None => Content::Nothing,
            },
        ) && fs[1].0 == "labels"@ && (fs[1].1 matches Content::List(ls) && ls =~= Seq::new(
            e@.labels.len(),
            |i: int| label_wire_model(e@.labels[i].0, e@.labels[i].1),
        )));
        assert(v.content() matches Content::Record(fs) && (error_wire_model(e@) matches
            Content::Record(gs) && fs =~= gs));
        assert(v.content() == error_wire_model(e@));
    }
    v
}

/// Decodes a record value back into a `LabeledError`; answers nothing
/// exactly when the value does not have the wire shape.
#[verifier::loop_isolation(false)]
pub fn decode_labeled_error(v: &Value) -> (r: Option<LabeledError>)
    ensures
        match r {
            Some(d) => parse_error_content(v.content()) == Some(d@),
            None => parse_error_content(v.content()) is None,
        },
{
    let fields = match v {
        Value::Record { fields, .. } => fields,
        _ => {
            return None;
        },
    };
    proof {
        assert(v.content() matches Content::Record(fs) && fs.len() == fields@.len() && forall|
            k: int,
        |
            0 <= k < fs.len() ==> #[trigger] fs[k] == (fields@[k].0@, fields@[k].1.content()));
    }
    if fields.len() != 3 {
        return None;
    }
    let key_msg: String = "msg".to_owned();
    let key_labels: String = "labels".to_owned();
    let key_help: String = "help".to_owned();
    if !(fields[0].0.eq(&key_msg) && fields[1].0.eq(&key_labels) && fields[2].0.eq(&key_help)) {
        return None;
    }
    let msg = match &fields[0].1 {
        Value::String { val, .. } => val.clone(),
        _ => {
            return None;
        },
    };
    let label_vals = match &fields[1].1 {
        Value::List { vals, .. } => vals,
        _ => {
            return None;
        },
    };
    let ghost ls = Seq::new(label_vals@.len(), |k: int| label_vals@[k].content());
    proof {
        assert(fields@[1].1.content() matches Content::List(l2) && l2 =~= ls);
        assert(fields@[1].1.content() == Content::List(ls));
    }
    let mut labels: Vec<(String, Span)> = Vec::new();
    let n = label_vals.len();
    let key_text: String = "text".to_owned();
    let key_start: String = "start".to_owned();
    let key_end: String = "end".to_owned();
    for i in 0..n
        invariant
            labels@.len() == i,
            forall|k: int|
                0 <= k < i ==> parse_label(ls[k]) == Some(
                    ((#[trigger] labels@[k]).0@, labels@[k].1),
                ),
    {
        let lf = match &label_vals[i] {
            Value::Record { fields, .. } => fields,
            _ => {
                proof {
                    assert(parse_label(ls[i as int]) is None);
                }
                return None;
            },
        };
        proof {
            assert(ls[i as int] matches Content::Record(fs) && fs.len() == lf@.len() && forall|
                k: int,
            |
                0 <= k < fs.len() ==> #[trigger] fs[k] == (lf@[k].0@, lf@[k].1.content()));
        }
        if lf.len() != 3 {
            proof {
                assert(parse_label(ls[i as int]) is None);
            }
            return None;
        }
        if !(lf[0].0.eq(&key_text) && lf[1].0.eq(&key_start) && lf[2].0.eq(&key_end)) {
            proof {
                assert(parse_label(ls[i as int]) is None);
            }
            return None;
        }
        let text = match &lf[0].1 {
            Value::String { val, .. } => val.clone(),
            _ => {
                proof {
                    assert(parse_label(ls[i as int]) is None);
                }
                return None;
            },
        };
        let start = match &lf[1].1 {
            Value::Int { val, .. } => {
                if *val < 0 {
                    proof {
                        assert(parse_label(ls[i as int]) is None);
                    }
                    return None;
                }
                *val as usize
            },
            _ => {
                proof {
                    assert(parse_label(ls[i as int]) is None);
                }
                return None;
            },
        };
        let end = match &lf[2].1 {
            Value::Int { val, .. } => {
                if *val < 0 {
                    proof {
                        assert(parse_label(ls[i as int]) is None);
                    }
                    return None;
                }
                *val as usize
            },
            _ => {
                proof {
                    assert(parse_label(ls[i as int]) is None);
                }
                return None;
            },
        };
        proof {
            assert(parse_label(ls[i as int]) == Some((text@, Span { start, end })));
        }
        labels.push((text, Span { start, end }));
    }
    let help = match &fields[2].1 {
        Value::String { val, .. } => Some(val.clone()),
        Value::Nothing { .. } => None,
        _ => {
            return None;
        },
    };
    let ghost gl = labels@;
    let d = LabeledError { msg, labels, help };
    proof {
        assert forall|k: int| 0 <= k < ls.len() implies (#[trigger] parse_label(ls[k])) is Some by {
            assert(parse_label(ls[k]) == Some((gl[k].0@, gl[k].1)));
        }
        assert(parse_labels(ls) matches Some(ps) && ps =~= d@.labels) by {
            assert forall|k: int| 0 <= k < ls.len() implies parsed_label(ls[k]) == d@.labels[k] by {
                assert(parse_label(ls[k]) == Some((gl[k].0@, gl[k].1)));
            }
        }
        assert(parse_error_content(v.content()) == Some(d@));
    }
    Some(d)
}

} // verus!
