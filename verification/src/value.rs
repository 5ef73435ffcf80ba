//! The value bridge: a language-neutral structured value type, a model of
//! the script engine's dynamic value, and the two conversions between them.
//!
//! Floats are carried as their IEEE 754 bit patterns (`u64`), so the
//! conversion rules — in particular the collapse of non-finite floats to
//! null on encoding — are stated and proved over plain integers.

use vstd::prelude::*;

verus! {

/// Mathematical model of a structured value: strings as character
/// sequences, collections as sequences.
#[verifier::ext_equal]
pub enum SpecValue {
    Null,
    Bool(bool),
    Int(int),
    Float(u64),
    Str(Seq<char>),
    Arr(Seq<SpecValue>),
    Obj(Seq<(Seq<char>, SpecValue)>),
}

/// Mathematical model of a dynamic script value.
#[verifier::ext_equal]
pub enum SpecDyn {
    Unit,
    Bool(bool),
    Int(int),
    Float(u64),
    Str(Seq<char>),
    Arr(Seq<SpecDyn>),
    Obj(Seq<(Seq<char>, SpecDyn)>),
    Opaque(Seq<char>),
}

/// A language-neutral recursive value: the wire format for tool arguments
/// and results. Object fields keep their insertion order.
#[derive(Debug)]
pub enum StructuredValue {
    Null,
    Bool(bool),
    Int(i64),
    /// A finite 64-bit float, as its IEEE 754 bit pattern.
    Float(u64),
    Str(String),
    Arr(Vec<StructuredValue>),
    Obj(Vec<(String, StructuredValue)>),
}

/// A dynamic script value, as the verified logic sees it: every dynamic
/// type the bridge distinguishes, plus `Opaque` for any other dynamic
/// type, carrying its debug rendering (a lossy fallback).
#[derive(Debug)]
pub enum DynValue {
    Unit,
    Bool(bool),
    Int(i64),
    /// A 64-bit float, finite or not, as its IEEE 754 bit pattern.
    Float(u64),
    Str(String),
    Arr(Vec<DynValue>),
    Obj(Vec<(String, DynValue)>),
    Opaque(String),
}

pub open spec fn sv_model(v: StructuredValue) -> SpecValue
    decreases v,
{
    match v {
        StructuredValue::Null => SpecValue::Null,
        StructuredValue::Bool(b) => SpecValue::Bool(b),
        StructuredValue::Int(i) => SpecValue::Int(i as int),
        StructuredValue::Float(bits) => SpecValue::Float(bits),
        StructuredValue::Str(s) => SpecValue::Str(s@),
        StructuredValue::Arr(items) => SpecValue::Arr(
            Seq::new(
                items@.len(),
                |i: int|
                    if 0 <= i < items@.len() {
                        proof {
                            assert(decreases_to!(v => items));
                            assert(decreases_to!(items => items@));
                            assert(decreases_to!(items@ => items@[i]));
                        }
                        sv_model(items@[i])
                    } else {
                        SpecValue::Null
                    },
            ),
        ),
        StructuredValue::Obj(pairs) => SpecValue::Obj(
            Seq::new(
                pairs@.len(),
                |i: int|
                    if 0 <= i < pairs@.len() {
                        proof {
                            assert(decreases_to!(v => pairs));
                            assert(decreases_to!(pairs => pairs@));
                            assert(decreases_to!(pairs@ => pairs@[i]));
                            assert(decreases_to!(pairs@[i] => pairs@[i].1));
                        }
                        (pairs@[i].0@, sv_model(pairs@[i].1))
                    } else {
                        (Seq::empty(), SpecValue::Null)
                    },
            ),
        ),
    }
}

pub open spec fn dv_model(v: DynValue) -> SpecDyn
    decreases v,
{
    match v {
        DynValue::Unit => SpecDyn::Unit,
        DynValue::Bool(b) => SpecDyn::Bool(b),
        DynValue::Int(i) => SpecDyn::Int(i as int),
        DynValue::Float(bits) => SpecDyn::Float(bits),
        DynValue::Str(s) => SpecDyn::Str(s@),
        DynValue::Opaque(s) => SpecDyn::Opaque(s@),
        DynValue::Arr(items) => SpecDyn::Arr(
            Seq::new(
                items@.len(),
                |i: int|
                    if 0 <= i < items@.len() {
                        proof {
                            assert(decreases_to!(v => items));
                            assert(decreases_to!(items => items@));
                            assert(decreases_to!(items@ => items@[i]));
                        }
                        dv_model(items@[i])
                    } else {
                        SpecDyn::Unit
                    },
            ),
        ),
        DynValue::Obj(pairs) => SpecDyn::Obj(
            Seq::new(
                pairs@.len(),
                |i: int|
                    if 0 <= i < pairs@.len() {
                        proof {
                            assert(decreases_to!(v => pairs));
                            assert(decreases_to!(pairs => pairs@));
                            assert(decreases_to!(pairs@ => pairs@[i]));
                            assert(decreases_to!(pairs@[i] => pairs@[i].1));
                        }
                        (pairs@[i].0@, dv_model(pairs@[i].1))
                    } else {
                        (Seq::empty(), SpecDyn::Unit)
                    },
            ),
        ),
    }
}

impl View for StructuredValue {
    type V = SpecValue;

    open spec fn view(&self) -> SpecValue {
        sv_model(*self)
    }
}

impl View for DynValue {
    type V = SpecDyn;

    open spec fn view(&self) -> SpecDyn {
        dv_model(*self)
    }
}

/// Whether a 64-bit float with these bits is finite, that is, neither an
/// infinity nor a NaN: its exponent field is not all ones.
pub open spec fn float_bits_finite(bits: u64) -> bool {
    (bits >> 52) & 0x7ff != 0x7ff
}

/// Encoding a dynamic value as a structured value: the best-effort
/// direction. Non-finite floats collapse to null; an opaque value is
/// replaced by its debug rendering, a lossy fallback.
pub open spec fn spec_encode(d: SpecDyn) -> SpecValue
    decreases d,
{
    match d {
        SpecDyn::Unit => SpecValue::Null,
        SpecDyn::Bool(b) => SpecValue::Bool(b),
        SpecDyn::Int(i) => SpecValue::Int(i),
        SpecDyn::Float(bits) => if float_bits_finite(bits) {
            SpecValue::Float(bits)
        } else {
            SpecValue::Null
        },
        SpecDyn::Str(s) => SpecValue::Str(s),
        SpecDyn::Opaque(s) => SpecValue::Str(s),
        SpecDyn::Arr(items) => SpecValue::Arr(
            Seq::new(
                items.len(),
                |i: int|
                    if 0 <= i < items.len() {
                        proof {
                            assert(decreases_to!(d => items));
                            assert(decreases_to!(items => items[i]));
                        }
                        spec_encode(items[i])
                    } else {
                        SpecValue::Null
                    },
            ),
        ),
        SpecDyn::Obj(pairs) => SpecValue::Obj(
            Seq::new(
                pairs.len(),
                |i: int|
                    if 0 <= i < pairs.len() {
                        proof {
                            assert(decreases_to!(d => pairs));
                            assert(decreases_to!(pairs => pairs[i]));
                            assert(decreases_to!(pairs[i] => pairs[i].1));
                        }
                        (pairs[i].0, spec_encode(pairs[i].1))
                    } else {
                        (Seq::empty(), SpecValue::Null)
                    },
            ),
        ),
    }
}

/// Decoding a structured value as a dynamic value: the total direction.
/// Every structured value maps to exactly one dynamic value.
pub open spec fn spec_decode(v: SpecValue) -> SpecDyn
    decreases v,
{
    match v {
        SpecValue::Null => SpecDyn::Unit,
        SpecValue::Bool(b) => SpecDyn::Bool(b),
        SpecValue::Int(i) => SpecDyn::Int(i),
        SpecValue::Float(bits) => SpecDyn::Float(bits),
        SpecValue::Str(s) => SpecDyn::Str(s),
        SpecValue::Arr(items) => SpecDyn::Arr(
            Seq::new(
                items.len(),
                |i: int|
                    if 0 <= i < items.len() {
                        proof {
                            assert(decreases_to!(v => items));
                            assert(decreases_to!(items => items[i]));
                        }
                        spec_decode(items[i])
                    } else {
                        SpecDyn::Unit
                    },
            ),
        ),
        SpecValue::Obj(pairs) => SpecDyn::Obj(
            Seq::new(
                pairs.len(),
                |i: int|
                    if 0 <= i < pairs.len() {
                        proof {
                            assert(decreases_to!(v => pairs));
                            assert(decreases_to!(pairs => pairs[i]));
                            assert(decreases_to!(pairs[i] => pairs[i].1));
                        }
                        (pairs[i].0, spec_decode(pairs[i].1))
                    } else {
                        (Seq::empty(), SpecDyn::Unit)
                    },
            ),
        ),
    }
}

/// Whether these bits denote a finite float, executably.
pub fn is_finite_float_bits(bits: u64) -> (r: bool)
    ensures
        r == float_bits_finite(bits),
{
    (bits >> 52) & 0x7ff != 0x7ff
}

/// Convert a dynamic script value to a structured wire value.
///
/// Best-effort: non-finite floats become null, and an opaque dynamic
/// value is rendered as a string — that path is lossy and does not round
/// trip.
#[verifier::loop_isolation(false)]
pub fn dynamic_to_json(value: &DynValue) -> (r: StructuredValue)
    ensures
        r@ == spec_encode(value@),
    decreases *value,
{
    match value {
        DynValue::Unit => StructuredValue::Null,
        DynValue::Bool(b) => StructuredValue::Bool(*b),
        DynValue::Int(i) => StructuredValue::Int(*i),
        DynValue::Float(bits) => {
            if is_finite_float_bits(*bits) {
                StructuredValue::Float(*bits)
            } else {
                StructuredValue::Null
            }
        },
        DynValue::Str(s) => StructuredValue::Str(s.clone()),
        DynValue::Opaque(s) => StructuredValue::Str(s.clone()),
        DynValue::Arr(items) => {
            let mut out: Vec<StructuredValue> = Vec::new();
            let mut i: usize = 0;
            while i < items.len()
                invariant
                    i <= items@.len(),
                    out@.len() == i,
                    forall|j: int| 0 <= j < i ==> sv_model(#[trigger] out@[j]) == spec_encode(
                        dv_model(items@[j]),
                    ),
                decreases items@.len() - i,
            {
                proof {
                    assert(decreases_to!(*value => *items));
                    assert(decreases_to!(*items => items@));
                    assert(decreases_to!(items@ => items@[i as int]));
                }
                let e = dynamic_to_json(&items[i]);
                out.push(e);
                i = i + 1;
            }
            let r = StructuredValue::Arr(out);
            proof {
                assert(sv_model(r)->Arr_0 =~= spec_encode(dv_model(*value))->Arr_0);
            }
            r
        },
        DynValue::Obj(pairs) => {
            let mut out: Vec<(String, StructuredValue)> = Vec::new();
            let mut i: usize = 0;
            while i < pairs.len()
                invariant
                    i <= pairs@.len(),
                    out@.len() == i,
                    forall|j: int|
                        0 <= j < i ==> (#[trigger] out@[j]).0@ == pairs@[j].0@ && sv_model(
                            out@[j].1,
                        ) == spec_encode(dv_model(pairs@[j].1)),
                decreases pairs@.len() - i,
            {
                proof {
                    assert(decreases_to!(*value => *pairs));
                    assert(decreases_to!(*pairs => pairs@));
                    assert(decreases_to!(pairs@ => pairs@[i as int]));
                    assert(decreases_to!(pairs@[i as int] => pairs@[i as int].1));
                }
                let key = pairs[i].0.clone();
                let e = dynamic_to_json(&pairs[i].1);
                out.push((key, e));
                i = i + 1;
            }
            let r = StructuredValue::Obj(out);
            proof {
                assert(sv_model(r)->Obj_0 =~= spec_encode(dv_model(*value))->Obj_0);
            }
            r
        },
    }
}

/// Convert a structured wire value to a dynamic script value.
///
/// Total: every structured value maps to exactly one dynamic value, with
/// numbers kept as numbers, not turned into strings.
#[verifier::loop_isolation(false)]
pub fn json_to_dynamic(value: &StructuredValue) -> (r: DynValue)
    ensures
        r@ == spec_decode(value@),
    decreases *value,
{
    match value {
        StructuredValue::Null => DynValue::Unit,
        StructuredValue::Bool(b) => DynValue::Bool(*b),
        StructuredValue::Int(i) => DynValue::Int(*i),
        StructuredValue::Float(bits) => DynValue::Float(*bits),
        StructuredValue::Str(s) => DynValue::Str(s.clone()),
        StructuredValue::Arr(items) => {
            let mut out: Vec<DynValue> = Vec::new();
            let mut i: usize = 0;
            while i < items.len()
                invariant
                    i <= items@.len(),
                    out@.len() == i,
                    forall|j: int| 0 <= j < i ==> dv_model(#[trigger] out@[j]) == spec_decode(
                        sv_model(items@[j]),
                    ),
                decreases items@.len() - i,
            {
                proof {
                    assert(decreases_to!(*value => *items));
                    assert(decreases_to!(*items => items@));
                    assert(decreases_to!(items@ => items@[i as int]));
                }
                let e = json_to_dynamic(&items[i]);
                out.push(e);
                i = i + 1;
            }
            let r = DynValue::Arr(out);
            proof {
                assert(dv_model(r)->Arr_0 =~= spec_decode(sv_model(*value))->Arr_0);
            }
            r
        },
        StructuredValue::Obj(pairs) => {
            let mut out: Vec<(String, DynValue)> = Vec::new();
            let mut i: usize = 0;
            while i < pairs.len()
                invariant
                    i <= pairs@.len(),
                    out@.len() == i,
                    forall|j: int|
                        0 <= j < i ==> (#[trigger] out@[j]).0@ == pairs@[j].0@ && dv_model(
                            out@[j].1,
                        ) == spec_decode(sv_model(pairs@[j].1)),
                decreases pairs@.len() - i,
            {
                proof {
                    assert(decreases_to!(*value => *pairs));
                    assert(decreases_to!(*pairs => pairs@));
                    assert(decreases_to!(pairs@ => pairs@[i as int]));
                    assert(decreases_to!(pairs@[i as int] => pairs@[i as int].1));
                }
                let key = pairs[i].0.clone();
                let e = json_to_dynamic(&pairs[i].1);
                out.push((key, e));
                i = i + 1;
            }
            let r = DynValue::Obj(out);
            proof {
                assert(dv_model(r)->Obj_0 =~= spec_decode(sv_model(*value))->Obj_0);
            }
            r
        },
    }
}

/// The structured value a text denotes as JSON, if it parses: a function
/// of the text alone.
pub uninterp spec fn parse_json_model(s: Seq<char>) -> Option<SpecValue>;

#[verifier::external_type_specification]
#[verifier::external_body]
pub struct ExJsonValue(serde_json::Value);

/// Relies on serde_json::Value: maps each JSON variant to the
/// corresponding structured variant, field for field; integers that fit
/// 64 signed bits stay integers, other numbers become floats carried as
/// their bits.
#[verifier::external_body]
fn structured_from_json(v: &serde_json::Value) -> StructuredValue {
    match v {
        serde_json::Value::Null => StructuredValue::Null,
        serde_json::Value::Bool(b) => StructuredValue::Bool(*b),
        serde_json::Value::Number(n) => match (n.as_i64(), n.as_f64()) {
            (Some(i), _) => StructuredValue::Int(i),
            (_, Some(f)) => StructuredValue::Float(f.to_bits()),
            _ => StructuredValue::Null,
        },
        serde_json::Value::String(s) => StructuredValue::Str(s.clone()),
        serde_json::Value::Array(a) => StructuredValue::Arr(a.iter().map(structured_from_json).collect()),
        serde_json::Value::Object(m) => StructuredValue::Obj(
            m.iter().map(|(k, x)| (k.clone(), structured_from_json(x))).collect(),
        ),
    }
}

/// Relies on serde_json::from_str: whether a text parses as JSON, and
/// which value it denotes, depend on the text alone.
#[verifier::external_body]
pub(crate) fn parse_json_text(s: &str) -> (r: Option<StructuredValue>)
    ensures
        (r matches Some(v) ==> parse_json_model(s@) == Some(sv_model(v))),
        (r is None <==> parse_json_model(s@) is None),
{
    match serde_json::from_str::<serde_json::Value>(s) {
        Ok(v) => Some(structured_from_json(&v)),
        Err(_) => None,
    }
}

/// A dynamic value that carries only wire-representable data: no opaque
/// rendering, every float finite.
pub open spec fn wire_faithful(d: SpecDyn) -> bool
    decreases d,
{
    match d {
        SpecDyn::Opaque(_) => false,
        SpecDyn::Float(bits) => float_bits_finite(bits),
        SpecDyn::Arr(items) => forall|i: int|
            0 <= i < items.len() ==> wire_faithful(#[trigger] items[i]),
        SpecDyn::Obj(pairs) => forall|i: int|
            0 <= i < pairs.len() ==> wire_faithful((#[trigger] pairs[i]).1),
        _ => true,
    }
}

/// Every float in the structured value is finite.
pub open spec fn floats_finite(v: SpecValue) -> bool
    decreases v,
{
    match v {
        SpecValue::Float(bits) => float_bits_finite(bits),
        SpecValue::Arr(items) => forall|i: int|
            0 <= i < items.len() ==> floats_finite(#[trigger] items[i]),
        SpecValue::Obj(pairs) => forall|i: int|
            0 <= i < pairs.len() ==> floats_finite((#[trigger] pairs[i]).1),
        _ => true,
    }
}

/// Encoding loses nothing on wire-faithful dynamic values: decoding the
/// encoding gives the value back, numbers as numbers, field for field.
pub proof fn lemma_decode_encode_roundtrip(d: SpecDyn)
    requires
        wire_faithful(d),
    ensures
        spec_decode(spec_encode(d)) == d,
    decreases d,
{
    match d {
        SpecDyn::Arr(items) => {
            assert forall|i: int| 0 <= i < items.len() implies spec_decode(
                spec_encode(#[trigger] items[i]),
            ) == items[i] by {
                lemma_decode_encode_roundtrip(items[i]);
            }
            assert(spec_decode(spec_encode(d))->Arr_0 =~= items);
            assert(spec_decode(spec_encode(d)) =~= d);
        },
        SpecDyn::Obj(pairs) => {
            assert forall|i: int| 0 <= i < pairs.len() implies spec_decode(
                spec_encode((#[trigger] pairs[i]).1),
            ) == pairs[i].1 by {
                lemma_decode_encode_roundtrip(pairs[i].1);
            }
            assert(spec_decode(spec_encode(d))->Obj_0 =~= pairs);
            assert(spec_decode(spec_encode(d)) =~= d);
        },
        _ => {},
    }
}

/// Decoding adds nothing either: for a structured value whose floats are
/// finite, encoding the decoding gives the value back.
pub proof fn lemma_encode_decode_roundtrip(v: SpecValue)
    requires
        floats_finite(v),
    ensures
        spec_encode(spec_decode(v)) == v,
    decreases v,
{
    match v {
        SpecValue::Arr(items) => {
            assert forall|i: int| 0 <= i < items.len() implies spec_encode(
                spec_decode(#[trigger] items[i]),
            ) == items[i] by {
                lemma_encode_decode_roundtrip(items[i]);
            }
            assert(spec_encode(spec_decode(v))->Arr_0 =~= items);
            assert(spec_encode(spec_decode(v)) =~= v);
        },
        SpecValue::Obj(pairs) => {
            assert forall|i: int| 0 <= i < pairs.len() implies spec_encode(
                spec_decode((#[trigger] pairs[i]).1),
            ) == pairs[i].1 by {
                lemma_encode_decode_roundtrip(pairs[i].1);
            }
            assert(spec_encode(spec_decode(v))->Obj_0 =~= pairs);
            assert(spec_encode(spec_decode(v)) =~= v);
        },
        _ => {},
    }
}

/// A decoded object is directly addressable: it is an object of the same
/// length whose field at each position carries the same key and the
/// decoded value of the same field of the original.
pub proof fn lemma_decoded_object_fields(pairs: Seq<(Seq<char>, SpecValue)>, i: int)
    requires
        0 <= i < pairs.len(),
    ensures
        spec_decode(SpecValue::Obj(pairs)) matches SpecDyn::Obj(dp) && dp.len() == pairs.len()
            && dp[i].0 == pairs[i].0 && dp[i].1 == spec_decode(pairs[i].1),
{
}

} // verus!
