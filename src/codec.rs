use vstd::prelude::*;

use crate::json::{
    key_position, lemma_mirror_nesting, lemma_mirror_same, mirror, same, well_formed, within_nesting, Json,
};

verus! {

/// serde_json::Value, which serde_json reads and writes; its contents are
/// named by `value_tree`.
#[verifier::external_type_specification]
#[verifier::external_body]
pub struct ExValue(serde_json::Value);

/// The tree that a serde_json value holds.
pub uninterp spec fn value_tree(v: serde_json::Value) -> Json;

/// The tree that serde_json reads from a text, where the text is one JSON
/// document.
pub uninterp spec fn parsed_text(s: Seq<char>) -> Option<Json>;

/// One layer of a serde_json value: its scalar, or its children still as
/// serde_json values.
pub enum Layer {
    Null,
    Bool(bool),
    Number(serde_json::Number),
    Str(String),
    Array(Vec<serde_json::Value>),
    Object(Vec<(String, serde_json::Value)>),
}

/// `l` is the top layer of the tree `t`, children in the same order.
pub open spec fn opens_to(l: Layer, t: Json) -> bool {
    match l {
        Layer::Null => t is Null,
        Layer::Bool(b) => t is Bool && t->Bool_0 == b,
        Layer::Number(n) => t is Number && t->Number_0 == n,
        Layer::Str(s) => t is Str && t->Str_0@ == s@,
        Layer::Array(xs) => {
            &&& t is Array
            &&& xs@.len() == t->Array_0@.len()
            &&& forall|i: int|
                0 <= i < xs@.len() ==> value_tree(#[trigger] xs@[i]) == t->Array_0@[i]
        },
        Layer::Object(es) => {
            &&& t is Object
            &&& es@.len() == t->Object_0@.len()
            &&& forall|i: int|
                0 <= i < es@.len() ==> {
                    &&& (#[trigger] es@[i]).0@ == t->Object_0@[i].0@
                    &&& value_tree(es@[i].1) == t->Object_0@[i].1
                }
        },
    }
}

/// Relies on the variants of serde_json::Value; an object's members come out
/// in the map's own order, each key once.
#[verifier::external_body]
fn open_layer(v: serde_json::Value) -> (l: Layer)
    ensures
        opens_to(l, value_tree(v)),
        distinct_keys(l),
{
    match v {
        serde_json::Value::Null => Layer::Null,
        serde_json::Value::Bool(b) => Layer::Bool(b),
        serde_json::Value::Number(n) => Layer::Number(n),
        serde_json::Value::String(s) => Layer::Str(s),
        serde_json::Value::Array(a) => Layer::Array(a),
        serde_json::Value::Object(m) => Layer::Object(m.into_iter().collect()),
    }
}

/// Relies on serde_json::from_str for `Value`: it reads one JSON document,
/// and fails on anything else, and on arrays and objects nested more than
/// 127 deep (its recursion limit).
#[verifier::external_body]
fn parse_text(s: &str) -> (r: Option<serde_json::Value>)
    ensures
        match r {
            Some(v) => parsed_text(s@) == Some(value_tree(v)) && within_nesting(value_tree(v), 127),
            None => parsed_text(s@) is None,
        },
{
    serde_json::from_str(s).ok()
}

/// Converts a serde_json value into a tree of the library's own.
pub fn from_value(v: serde_json::Value) -> (j: Json)
    ensures
        mirror(j, value_tree(v)),
        well_formed(j),
    decreases value_tree(v),
{
    let ghost t = value_tree(v);
    match open_layer(v) {
        Layer::Null => Json::Null,
        Layer::Bool(b) => Json::Bool(b),
        Layer::Number(n) => Json::Number(n),
        Layer::Str(s) => Json::Str(s),
        Layer::Array(xs) => {
            let ghost orig = xs@;
            let mut rest = xs;
            let mut out: Vec<Json> = Vec::new();
            while rest.len() > 0
                invariant
                    t == value_tree(v),
                    t is Array,
                    orig.len() == t->Array_0@.len(),
                    forall|i: int| 0 <= i < orig.len() ==> value_tree(#[trigger] orig[i]) == t->Array_0@[i],
                    out@.len() + rest@.len() == orig.len(),
                    rest@ == orig.subrange(out@.len() as int, orig.len() as int),
                    forall|i: int| 0 <= i < out@.len() ==> mirror(#[trigger] out@[i], t->Array_0@[i]),
                    forall|i: int| 0 <= i < out@.len() ==> well_formed(#[trigger] out@[i]),
                decreases rest@.len(),
            {
                let ghost k = out@.len() as int;
                let x = rest.remove(0);
                proof {
                    let items = t->Array_0;
                    assert(decreases_to!(items => items[k]));
                    assert(decreases_to!(t => items));
                }
                let c = from_value(x);
                out.push(c);
            }
            let r = Json::Array(out);
            proof {
                let xs = r->Array_0@;
                assert(forall|i: int| 0 <= i < xs.len() ==> well_formed(#[trigger] xs[i]));
            }
            r
        },
        Layer::Object(es) => {
            let ghost orig = es@;
            let mut rest = es;
            let mut out: Vec<(String, Json)> = Vec::new();
            while rest.len() > 0
                invariant
                    t == value_tree(v),
                    t is Object,
                    orig.len() == t->Object_0@.len(),
                    forall|i: int|
                        0 <= i < orig.len() ==> {
                            &&& (#[trigger] orig[i]).0@ == t->Object_0@[i].0@
                            &&& value_tree(orig[i].1) == t->Object_0@[i].1
                        },
                    out@.len() + rest@.len() == orig.len(),
                    rest@ == orig.subrange(out@.len() as int, orig.len() as int),
                    forall|i: int|
                        0 <= i < out@.len() ==> {
                            &&& (#[trigger] out@[i]).0@ == t->Object_0@[i].0@
                            &&& mirror(out@[i].1, t->Object_0@[i].1)
                            &&& well_formed(out@[i].1)
                        },
                    forall|i: int, k: int|
                        0 <= i < k < orig.len() ==> (#[trigger] orig[i]).0@ != (#[trigger] orig[k]).0@,
                decreases rest@.len(),
            {
                let ghost k = out@.len() as int;
                let (key, x) = rest.remove(0);
                proof {
                    let items = t->Object_0;
                    assert(decreases_to!(items => items[k]));
                    assert(decreases_to!(items[k] => items[k].1));
                    assert(decreases_to!(t => items));
                }
                let c = from_value(x);
                out.push((key, c));
            }
            let r = Json::Object(out);
            proof {
                let es = r->Object_0@;
                assert forall|i: int, k: int| 0 <= i < k < es.len() implies (#[trigger] es[i]).0@ != (
                #[trigger] es[k]).0@ by {
                    assert(es[i].0@ == orig[i].0@ && es[k].0@ == orig[k].0@);
                }
                assert(forall|i: int| 0 <= i < es.len() ==> well_formed((#[trigger] es[i]).1));
            }
            r
        },
    }
}

/// `l` is the top layer of the tree `t`, with the members of an object in
/// any order.
pub open spec fn closes_to(l: Layer, t: Json) -> bool {
    match l {
        Layer::Object(es) => {
            &&& t is Object
            &&& es@.len() == t->Object_0@.len()
            &&& forall|i: int|
                0 <= i < es@.len() ==> {
                    let k = key_position(t->Object_0@, (#[trigger] es@[i]).0@);
                    0 <= k && value_tree(es@[i].1) == t->Object_0@[k].1
                }
            &&& forall|k: int|
                0 <= k < t->Object_0@.len() ==> exists|i: int|
                    0 <= i < es@.len() && #[trigger] t->Object_0@[k].1 == value_tree(es@[i].1)
        },
        _ => opens_to(l, t),
    }
}

/// No two members of the layer share a key.
pub open spec fn distinct_keys(l: Layer) -> bool {
    l matches Layer::Object(es) ==> forall|i: int, k: int|
        0 <= i < k < es@.len() ==> (#[trigger] es@[i]).0@ != (#[trigger] es@[k]).0@
}

/// Relies on the constructors of serde_json::Value and on collecting
/// distinct keys into a serde_json::Map, which keeps each member.
#[verifier::external_body]
fn close_layer(l: Layer) -> (v: serde_json::Value)
    requires
        distinct_keys(l),
    ensures
        closes_to(l, value_tree(v)),
{
    match l {
        Layer::Null => serde_json::Value::Null,
        Layer::Bool(b) => serde_json::Value::Bool(b),
        Layer::Number(n) => serde_json::Value::Number(n),
        Layer::Str(s) => serde_json::Value::String(s),
        Layer::Array(a) => serde_json::Value::Array(a),
        Layer::Object(es) => serde_json::Value::Object(es.into_iter().collect()),
    }
}

/// Relies on serde_json's `Display` for `Value`: compact JSON on one line
/// (floats in their shortest round-trip form), which serde_json, built with
/// `float_roundtrip`, reads back as the same value where it nests no deeper
/// than its parser's recursion limit.
#[verifier::external_body]
fn print_value(v: &serde_json::Value) -> (r: String)
    ensures
        within_nesting(value_tree(*v), 127) ==> parsed_text(r@) == Some(value_tree(*v)),
        !r@.contains('\n'),
{
    v.to_string()
}

/// Converts a tree of the library's own into a serde_json value.
pub fn to_value(j: &Json) -> (v: serde_json::Value)
    requires
        well_formed(*j),
    ensures
        same(*j, value_tree(v)),
        forall|n: nat| within_nesting(*j, n) ==> #[trigger] within_nesting(value_tree(v), n),
    decreases j,
{
    match j {
        Json::Null => close_layer(Layer::Null),
        Json::Bool(b) => close_layer(Layer::Bool(*b)),
        Json::Number(n) => close_layer(Layer::Number(n.clone())),
        Json::Str(s) => close_layer(Layer::Str(s.clone())),
        Json::Array(xs) => {
            proof {
                assert forall|m: int| 0 <= m < xs@.len() implies decreases_to!(*j => #[trigger] xs@[m]) by {
                    assert(decreases_to!(*xs => xs[m]));
                }
            }
            let mut out: Vec<serde_json::Value> = Vec::new();
            let mut i: usize = 0;
            while i < xs.len()
                invariant
                    i <= xs@.len(),
                    out@.len() == i,
                    *j == Json::Array(*xs),
                    forall|m: int| 0 <= m < xs@.len() ==> well_formed(#[trigger] xs@[m]),
                    forall|m: int| 0 <= m < xs@.len() ==> decreases_to!(*j => #[trigger] xs@[m]),
                    forall|m: int| 0 <= m < i ==> same(xs@[m], value_tree(#[trigger] out@[m])),
                    forall|m: int, n: nat|
                        0 <= m < i && within_nesting(xs@[m], n) ==> #[trigger] within_nesting(
                            value_tree(out@[m]),
                            n,
                        ),
                decreases xs@.len() - i,
            {
                let c = to_value(&xs[i]);
                out.push(c);
                i = i + 1;
            }
            let ghost arr = out@;
            let v = close_layer(Layer::Array(out));
            proof {
                let t = value_tree(v);
                assert forall|m: int| 0 <= m < xs@.len() implies same(#[trigger] xs@[m], t->Array_0@[m]) by {
                    assert(value_tree(arr[m]) == t->Array_0@[m]);
                }
                assert forall|n: nat| within_nesting(*j, n) implies #[trigger] within_nesting(t, n) by {
                    assert forall|m: int| 0 <= m < t->Array_0@.len() implies within_nesting(
                        #[trigger] t->Array_0@[m],
                        (n - 1) as nat,
                    ) by {
                        assert(value_tree(arr[m]) == t->Array_0@[m]);
                        assert(within_nesting(xs@[m], (n - 1) as nat));
                    }
                }
            }
            v
        },
        Json::Object(es) => {
            proof {
                assert forall|m: int| 0 <= m < es@.len() implies decreases_to!(*j => (#[trigger] es@[m]).1) by {
                    assert(decreases_to!(*es => es[m]));
                }
            }
            let mut out: Vec<(String, serde_json::Value)> = Vec::new();
            let mut i: usize = 0;
            while i < es.len()
                invariant
                    i <= es@.len(),
                    out@.len() == i,
                    *j == Json::Object(*es),
                    forall|m: int| 0 <= m < es@.len() ==> well_formed((#[trigger] es@[m]).1),
                    forall|m: int| 0 <= m < es@.len() ==> decreases_to!(*j => (#[trigger] es@[m]).1),
                    forall|m: int|
                        0 <= m < i ==> {
                            &&& (#[trigger] out@[m]).0@ == es@[m].0@
                            &&& same(es@[m].1, value_tree(out@[m].1))
                        },
                    forall|m: int, n: nat|
                        0 <= m < i && within_nesting(es@[m].1, n) ==> #[trigger] within_nesting(
                            value_tree(out@[m].1),
                            n,
                        ),
                decreases es@.len() - i,
            {
                let c = to_value(&es[i].1);
                let key = es[i].0.clone();
                out.push((key, c));
                i = i + 1;
            }
            let ghost ents = out@;
            let v = close_layer(Layer::Object(out));
            proof {
                let t = value_tree(v);
                assert forall|m: int| 0 <= m < es@.len() implies {
                    let k = key_position(t->Object_0@, (#[trigger] es@[m]).0@);
                    0 <= k && same(es@[m].1, t->Object_0@[k].1)
                } by {
                    assert(ents[m].0@ == es@[m].0@);
                }
                assert forall|n: nat| within_nesting(*j, n) implies #[trigger] within_nesting(t, n) by {
                    assert forall|k: int| 0 <= k < t->Object_0@.len() implies within_nesting(
                        (#[trigger] t->Object_0@[k]).1,
                        (n - 1) as nat,
                    ) by {
                        let i = choose|i: int|
                            0 <= i < ents.len() && #[trigger] t->Object_0@[k].1 == value_tree(ents[i].1);
                        assert(within_nesting(es@[i].1, (n - 1) as nat));
                    }
                }
            }
            v
        },
    }
}

/// What a line of the child's output turned out to be.
pub enum LineOutcome {
    /// Nothing but whitespace.
    Blank,
    /// Not one JSON document.
    Malformed,
    /// One JSON document.
    Frame(Json),
}

/// The line with leading and trailing whitespace taken off.
pub uninterp spec fn trimmed(s: Seq<char>) -> Seq<char>;

/// Relies on str::trim.
#[verifier::external_body]
fn trim_text(s: &str) -> (r: &str)
    ensures
        r@ == trimmed(s@),
{
    s.trim()
}

/// Decodes one line of the child's output.
pub fn decode_line(line: &str) -> (r: LineOutcome)
    ensures
        match r {
            LineOutcome::Frame(j) => decodes_to(line@, j) && well_formed(j) && within_nesting(j, 127),
            LineOutcome::Blank => parsed_text(line@) is None && trimmed(line@).len() == 0,
            LineOutcome::Malformed => parsed_text(line@) is None && trimmed(line@).len() != 0,
        },
{
    match parse_text(line) {
        Some(v) => {
            let ghost t = value_tree(v);
            let j = from_value(v);
            proof {
                lemma_mirror_nesting(j, t, 127);
            }
            LineOutcome::Frame(j)
        },
        None => {
            let t = trim_text(line);
            if t.is_empty() {
                LineOutcome::Blank
            } else {
                LineOutcome::Malformed
            }
        },
    }
}

/// Encodes a frame as one line of JSON text, without the line break.
pub fn encode_frame(frame: &Json) -> (r: String)
    requires
        well_formed(*frame),
    ensures
        within_nesting(*frame, 127) ==> encodes_to(*frame, r@),
        !r@.contains('\n'),
{
    let v = to_value(frame);
    print_value(&v)
}

/// `line` holds the tree that `decode_line` read from it as `frame`.
pub open spec fn decodes_to(line: Seq<char>, frame: Json) -> bool {
    parsed_text(line) matches Some(t) && mirror(frame, t)
}

/// `line` is text that `encode_frame` may write for `frame`.
pub open spec fn encodes_to(frame: Json, line: Seq<char>) -> bool {
    parsed_text(line) matches Some(t) && same(frame, t)
}

/// Reading a line and writing the frame back gives a line that holds the
/// same tree, the order of object members aside. The premises are what
/// `decode_line` promises of a frame it reads and what `encode_frame`
/// promises of the line it writes for it.
pub proof fn law_decode_encode_round_trip(line: Seq<char>, frame: Json, written: Seq<char>)
    requires
        decodes_to(line, frame),
        well_formed(frame),
        within_nesting(frame, 127),
        within_nesting(frame, 127) ==> encodes_to(frame, written),
    ensures
        parsed_text(line) matches Some(t1) && parsed_text(written) matches Some(t2) && same(t1, t2),
{
    lemma_mirror_same(frame, parsed_text(line)->0, parsed_text(written)->0);
}

} // verus!
