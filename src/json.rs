use vstd::prelude::*;

verus! {

/// serde_json::Number, carried through as it is: a JSON number of any kind.
#[verifier::external_type_specification]
#[verifier::external_body]
pub struct ExNumber(serde_json::Number);

/// Relies on serde_json's derived `Clone` for `Number`: the copy is the same
/// number.
pub assume_specification[ <serde_json::Number as Clone>::clone ](n: &serde_json::Number) -> (r:
    serde_json::Number)
    ensures
        r == *n,
;

/// Relies on `From<i64>` for serde_json::Number, which holds any `i64`.
pub assume_specification[ <serde_json::Number as From<i64>>::from ](i: i64) -> serde_json::Number;

/// A JSON value as the protocol engine reads and builds it.
///
/// Objects keep their entries in order; lookups take the first entry with a
/// given key.
#[derive(Debug)]
pub enum Json {
    Null,
    Bool(bool),
    Number(serde_json::Number),
    Str(String),
    Array(Vec<Json>),
    Object(Vec<(String, Json)>),
}

/// The value of the first entry whose key is `k`.
pub open spec fn entry_value(s: Seq<(String, Json)>, k: Seq<char>) -> Option<Json>
    decreases s.len(),
{
    if s.len() == 0 {
        None
    } else if s[0].0@ == k {
        Some(s[0].1)
    } else {
        entry_value(s.drop_first(), k)
    }
}

/// The member `k` of an object; `None` for a missing key or a non-object.
pub open spec fn field(j: Json, k: Seq<char>) -> Option<Json> {
    match j {
        Json::Object(entries) => entry_value(entries@, k),
        _ => None,
    }
}

/// The text of a string value, and the empty text for anything else.
pub open spec fn text_or_empty(o: Option<Json>) -> Seq<char> {
    match o {
        Some(Json::Str(s)) => s@,
        _ => Seq::empty(),
    }
}

/// The text of a string value, or `None` for anything else.
pub open spec fn text_option(o: Option<Json>) -> Option<Seq<char>> {
    match o {
        Some(Json::Str(s)) => Some(s@),
        _ => None,
    }
}

/// The value, with null standing for a missing one.
pub open spec fn or_null(o: Option<Json>) -> Json {
    match o {
        Some(v) => v,
        None => Json::Null,
    }
}

/// The text held by an optional string.
pub open spec fn opt_text(o: Option<String>) -> Option<Seq<char>> {
    match o {
        Some(s) => Some(s@),
        None => None,
    }
}

/// `j` is the string value `t`.
pub open spec fn is_text(j: Json, t: Seq<char>) -> bool {
    j is Str && j->Str_0@ == t
}

/// The keys of an object, in order; empty for anything else.
pub open spec fn keys(j: Json) -> Seq<Seq<char>> {
    match j {
        Json::Object(entries) => entries@.map_values(|e: (String, Json)| e.0@),
        _ => Seq::empty(),
    }
}

/// `j` is an object whose member `k` is the string `t`.
pub open spec fn has_text(j: Json, k: Seq<char>, t: Seq<char>) -> bool {
    field(j, k) matches Some(v) && is_text(v, t)
}

/// `a` and `b` hold the same tree: same shapes, scalars, texts, and the same
/// members in the same order.
pub open spec fn mirror(a: Json, b: Json) -> bool
    decreases a,
{
    match a {
        Json::Null => b is Null,
        Json::Bool(x) => b is Bool && b->Bool_0 == x,
        Json::Number(n) => b is Number && b->Number_0 == n,
        Json::Str(t) => b is Str && b->Str_0@ == t@,
        Json::Array(xs) => {
            &&& b is Array
            &&& xs@.len() == b->Array_0@.len()
            &&& forall|i: int| 0 <= i < xs@.len() ==> mirror(#[trigger] xs@[i], b->Array_0@[i])
        },
        Json::Object(es) => {
            &&& b is Object
            &&& es@.len() == b->Object_0@.len()
            &&& forall|i: int|
                0 <= i < es@.len() ==> {
                    &&& (#[trigger] es@[i]).0@ == b->Object_0@[i].0@
                    &&& mirror(es@[i].1, b->Object_0@[i].1)
                }
        },
    }
}

/// The index of the last entry whose key is `k`, or -1.
pub open spec fn key_position(s: Seq<(String, Json)>, k: Seq<char>) -> int
    decreases s.len(),
{
    if s.len() == 0 {
        -1
    } else if s.last().0@ == k {
        s.len() - 1
    } else {
        key_position(s.drop_last(), k)
    }
}

/// `a` and `b` hold the same tree, the order of an object's members aside.
pub open spec fn same(a: Json, b: Json) -> bool
    decreases a,
{
    match a {
        Json::Object(es) => {
            &&& b is Object
            &&& es@.len() == b->Object_0@.len()
            &&& forall|i: int|
                0 <= i < es@.len() ==> {
                    let k = key_position(b->Object_0@, (#[trigger] es@[i]).0@);
                    0 <= k && same(es@[i].1, b->Object_0@[k].1)
                }
        },
        Json::Array(xs) => {
            &&& b is Array
            &&& xs@.len() == b->Array_0@.len()
            &&& forall|i: int| 0 <= i < xs@.len() ==> same(#[trigger] xs@[i], b->Array_0@[i])
        },
        _ => mirror(a, b),
    }
}

/// A tree that mirrors `a` holds the same as anything that holds the same
/// as `a`.
pub proof fn lemma_mirror_same(a: Json, b: Json, c: Json)
    requires
        mirror(a, b),
        same(a, c),
    ensures
        same(b, c),
    decreases a,
{
    match a {
        Json::Array(xs) => {
            let bs = b->Array_0@;
            let cs = c->Array_0@;
            assert forall|i: int| 0 <= i < bs.len() implies same(#[trigger] bs[i], cs[i]) by {
                let items = a->Array_0;
                assert(decreases_to!(items => items[i]));
                assert(decreases_to!(a => items));
                lemma_mirror_same(xs@[i], bs[i], cs[i]);
            }
        },
        Json::Object(es) => {
            let bs = b->Object_0@;
            let cs = c->Object_0@;
            assert forall|i: int| 0 <= i < bs.len() implies {
                let k = key_position(cs, (#[trigger] bs[i]).0@);
                0 <= k && same(bs[i].1, cs[k].1)
            } by {
                let items = a->Object_0;
                assert(decreases_to!(items => items[i]));
                assert(decreases_to!(items[i] => items[i].1));
                assert(decreases_to!(a => items));
                assert(es@[i].0@ == bs[i].0@);
                let k = key_position(cs, es@[i].0@);
                lemma_mirror_same(es@[i].1, bs[i].1, cs[k].1);
            }
        },
        _ => {},
    }
}

/// Arrays and objects in `j` nest at most `n` deep.
pub open spec fn within_nesting(j: Json, n: nat) -> bool
    decreases j,
{
    match j {
        Json::Array(xs) => n > 0 && forall|i: int|
            0 <= i < xs@.len() ==> within_nesting(#[trigger] xs@[i], (n - 1) as nat),
        Json::Object(es) => n > 0 && forall|i: int|
            0 <= i < es@.len() ==> within_nesting((#[trigger] es@[i]).1, (n - 1) as nat),
        _ => true,
    }
}

/// A tree that mirrors another nests as deep.
pub proof fn lemma_mirror_nesting(a: Json, b: Json, n: nat)
    requires
        mirror(a, b),
        within_nesting(b, n),
    ensures
        within_nesting(a, n),
    decreases a,
{
    match a {
        Json::Array(xs) => {
            let bs = b->Array_0@;
            assert forall|i: int| 0 <= i < xs@.len() implies within_nesting(#[trigger] xs@[i], (n - 1) as nat) by {
                let items = a->Array_0;
                assert(decreases_to!(items => items[i]));
                assert(decreases_to!(a => items));
                lemma_mirror_nesting(xs@[i], bs[i], (n - 1) as nat);
            }
        },
        Json::Object(es) => {
            let bs = b->Object_0@;
            assert forall|i: int| 0 <= i < es@.len() implies within_nesting((#[trigger] es@[i]).1, (n - 1) as nat) by {
                let items = a->Object_0;
                assert(decreases_to!(items => items[i]));
                assert(decreases_to!(items[i] => items[i].1));
                assert(decreases_to!(a => items));
                lemma_mirror_nesting(es@[i].1, bs[i].1, (n - 1) as nat);
            }
        },
        _ => {},
    }
}

/// No object anywhere in `j` has two members with the same key.
pub open spec fn well_formed(j: Json) -> bool
    decreases j,
{
    match j {
        Json::Array(xs) => forall|i: int| 0 <= i < xs@.len() ==> well_formed(#[trigger] xs@[i]),
        Json::Object(es) => {
            &&& forall|i: int, k: int|
                0 <= i < k < es@.len() ==> (#[trigger] es@[i]).0@ != (#[trigger] es@[k]).0@
            &&& forall|i: int| 0 <= i < es@.len() ==> well_formed((#[trigger] es@[i]).1)
        },
        _ => true,
    }
}

/// The entries of `s` with the value at `i` replaced by null.
pub open spec fn cleared_at(s: Seq<(String, Json)>, i: int) -> Seq<(String, Json)> {
    s.update(i, (s[i].0, Json::Null))
}

proof fn lemma_entry_value_cleared(s: Seq<(String, Json)>, i: int, k: Seq<char>)
    requires
        0 <= i < s.len(),
        s[i].0@ != k,
    ensures
        entry_value(cleared_at(s, i), k) == entry_value(s, k),
    decreases s.len(),
{
    if i > 0 {
        assert(cleared_at(s, i).drop_first() =~= cleared_at(s.drop_first(), i - 1));
        lemma_entry_value_cleared(s.drop_first(), i - 1, k);
    } else {
        assert(cleared_at(s, i).drop_first() =~= s.drop_first());
    }
}

/// The entries of `s` other than those whose key is `k`.
pub open spec fn drop_key(s: Seq<(String, Json)>, k: Seq<char>) -> Seq<(String, Json)>
    decreases s.len(),
{
    if s.len() == 0 {
        s
    } else if s.last().0@ == k {
        drop_key(s.drop_last(), k)
    } else {
        drop_key(s.drop_last(), k).push(s.last())
    }
}

proof fn lemma_entry_value_push(s: Seq<(String, Json)>, e: (String, Json), k: Seq<char>)
    ensures
        entry_value(s.push(e), k) == if entry_value(s, k) is Some {
            entry_value(s, k)
        } else if e.0@ == k {
            Some(e.1)
        } else {
            None
        },
    decreases s.len(),
{
    if s.len() > 0 {
        assert(s.push(e).drop_first() =~= s.drop_first().push(e));
        lemma_entry_value_push(s.drop_first(), e, k);
    } else {
        assert(s.push(e).drop_first() =~= s);
    }
}

proof fn lemma_entry_value_drop_last(s: Seq<(String, Json)>, k: Seq<char>)
    requires
        s.len() > 0,
        s.last().0@ == k,
    ensures
        entry_value(s, k) is Some,
        entry_value(s.drop_last(), k) is Some ==> entry_value(s, k) == entry_value(s.drop_last(), k),
{
    assert(s =~= s.drop_last().push(s.last()));
    lemma_entry_value_push(s.drop_last(), s.last(), k);
}

proof fn lemma_drop_key(s: Seq<(String, Json)>, k: Seq<char>, other: Seq<char>)
    ensures
        entry_value(drop_key(s, k), k) is None,
        other != k ==> entry_value(drop_key(s, k), other) == entry_value(s, other),
    decreases s.len(),
{
    if s.len() > 0 {
        lemma_drop_key(s.drop_last(), k, other);
        assert(s =~= s.drop_last().push(s.last()));
        lemma_entry_value_push(s.drop_last(), s.last(), other);
        if s.last().0@ != k {
            lemma_entry_value_push(drop_key(s.drop_last(), k), s.last(), k);
            lemma_entry_value_push(drop_key(s.drop_last(), k), s.last(), other);
        }
    }
}

/// A key that an object does not list has no member.
pub proof fn lemma_field_absent(j: Json, k: Seq<char>)
    requires
        !keys(j).contains(k),
    ensures
        field(j, k) is None,
{
    if j is Object {
        let s = j->Object_0@;
        assert forall|i: int| 0 <= i < s.len() implies (#[trigger] s[i]).0@ != k by {
            assert(keys(j)[i] == s[i].0@);
        }
        lemma_entry_value_absent(s, k);
    }
}

proof fn lemma_entry_value_absent(s: Seq<(String, Json)>, k: Seq<char>)
    requires
        forall|i: int| 0 <= i < s.len() ==> (#[trigger] s[i]).0@ != k,
    ensures
        entry_value(s, k) is None,
    decreases s.len(),
{
    if s.len() > 0 {
        assert forall|i: int| 0 <= i < s.drop_first().len() implies (#[trigger] s.drop_first()[i]).0@ != k by {
            assert(s.drop_first()[i] == s[i + 1]);
        }
        lemma_entry_value_absent(s.drop_first(), k);
    }
}

proof fn lemma_entry_value_suffix(s: Seq<(String, Json)>, k: Seq<char>, i: int)
    requires
        0 <= i < s.len(),
        s[i].0@ != k,
    ensures
        entry_value(s.subrange(i, s.len() as int), k) == entry_value(
            s.subrange(i + 1, s.len() as int),
            k,
        ),
{
    assert(s.subrange(i, s.len() as int).drop_first() =~= s.subrange(i + 1, s.len() as int));
}

/// The index of the first entry whose key is `key`.
fn position(entries: &Vec<(String, Json)>, key: &str) -> (r: Option<usize>)
    ensures
        match r {
            Some(i) => {
                &&& i < entries@.len()
                &&& entries@[i as int].0@ == key@
                &&& entry_value(entries@, key@) == Some(entries@[i as int].1)
            },
            None => entry_value(entries@, key@) is None,
        },
{
    let wanted = String::from_str(key);
    let mut i: usize = 0;
    assert(entries@.subrange(0, entries@.len() as int) =~= entries@);
    while i < entries.len()
        invariant
            0 <= i <= entries@.len(),
            wanted@ == key@,
            entry_value(entries@, key@) == entry_value(
                entries@.subrange(i as int, entries@.len() as int),
                key@,
            ),
        decreases entries@.len() - i,
    {
        if entries[i].0 == wanted {
            assert(entries@.subrange(i as int, entries@.len() as int)[0] == entries@[i as int]);
            return Some(i);
        }
        proof {
            lemma_entry_value_suffix(entries@, key@, i as int);
        }
        i = i + 1;
    }
    None
}

impl Json {
    /// The string value `t`.
    pub fn text(t: &str) -> (r: Json)
        ensures
            is_text(r, t@),
    {
        Json::Str(String::from_str(t))
    }

    /// Whether no object anywhere in this tree repeats a key.
    pub fn is_well_formed(&self) -> (r: bool)
        ensures
            r == well_formed(*self),
        decreases self,
    {
        match self {
            Json::Array(xs) => {
                let mut i: usize = 0;
                while i < xs.len()
                    invariant
                        i <= xs@.len(),
                        *self == Json::Array(*xs),
                        forall|m: int| 0 <= m < i ==> well_formed(#[trigger] xs@[m]),
                    decreases xs@.len() - i,
                {
                    proof {
                        let items = self->Array_0;
                        assert(decreases_to!(items => items[i as int]));
                        assert(decreases_to!(*self => items));
                    }
                    if !xs[i].is_well_formed() {
                        return false;
                    }
                    i = i + 1;
                }
                true
            },
            Json::Object(es) => {
                let mut i: usize = 0;
                while i < es.len()
                    invariant
                        i <= es@.len(),
                        *self == Json::Object(*es),
                        forall|a: int, b: int|
                            0 <= a < i && a < b < es@.len() ==> (#[trigger] es@[a]).0@ != (
                            #[trigger] es@[b]).0@,
                        forall|m: int| 0 <= m < i ==> well_formed((#[trigger] es@[m]).1),
                    decreases es@.len() - i,
                {
                    let mut k: usize = i + 1;
                    while k < es.len()
                        invariant
                            i < es@.len(),
                            i < k <= es@.len(),
                            *self == Json::Object(*es),
                            forall|b: int| i < b < k ==> es@[i as int].0@ != (#[trigger] es@[b]).0@,
                        decreases es@.len() - k,
                    {
                        if es[i].0 == es[k].0 {
                            proof {
                                if well_formed(*self) {
                                    let ents = self->Object_0@;
                                    assert(ents == es@);
                                    assert(forall|a: int, b: int|
                                        0 <= a < b < ents.len() ==> (#[trigger] ents[a]).0@ != (#[trigger] ents[b]).0@);
                                    assert(ents[i as int].0@ != ents[k as int].0@);
                                }
                            }
                            return false;
                        }
                        k = k + 1;
                    }
                    proof {
                        let items = self->Object_0;
                        assert(decreases_to!(items => items[i as int]));
                        assert(decreases_to!(items[i as int] => items[i as int].1));
                        assert(decreases_to!(*self => items));
                    }
                    if !es[i].1.is_well_formed() {
                        return false;
                    }
                    i = i + 1;
                }
                true
            },
            _ => true,
        }
    }

    /// Whether arrays and objects in this tree nest at most `n` deep.
    pub fn fits_nesting(&self, n: usize) -> (r: bool)
        ensures
            r == within_nesting(*self, n as nat),
        decreases self,
    {
        match self {
            Json::Array(xs) => {
                if n == 0 {
                    return false;
                }
                let mut i: usize = 0;
                while i < xs.len()
                    invariant
                        n > 0,
                        i <= xs@.len(),
                        *self == Json::Array(*xs),
                        forall|m: int| 0 <= m < i ==> within_nesting(#[trigger] xs@[m], (n - 1) as nat),
                    decreases xs@.len() - i,
                {
                    proof {
                        let items = self->Array_0;
                        assert(decreases_to!(items => items[i as int]));
                        assert(decreases_to!(*self => items));
                    }
                    if !xs[i].fits_nesting(n - 1) {
                        return false;
                    }
                    i = i + 1;
                }
                true
            },
            Json::Object(es) => {
                if n == 0 {
                    return false;
                }
                let mut i: usize = 0;
                while i < es.len()
                    invariant
                        n > 0,
                        i <= es@.len(),
                        *self == Json::Object(*es),
                        forall|m: int| 0 <= m < i ==> within_nesting((#[trigger] es@[m]).1, (n - 1) as nat),
                    decreases es@.len() - i,
                {
                    proof {
                        let items = self->Object_0;
                        assert(decreases_to!(items => items[i as int]));
                        assert(decreases_to!(items[i as int] => items[i as int].1));
                        assert(decreases_to!(*self => items));
                    }
                    if !es[i].1.fits_nesting(n - 1) {
                        return false;
                    }
                    i = i + 1;
                }
                true
            },
            _ => true,
        }
    }

    /// A copy of this tree.
    pub fn deep_copy(&self) -> (r: Json)
        ensures
            mirror(*self, r),
        decreases self,
    {
        match self {
            Json::Null => Json::Null,
            Json::Bool(b) => Json::Bool(*b),
            Json::Number(n) => Json::Number(n.clone()),
            Json::Str(t) => Json::Str(t.clone()),
            Json::Array(xs) => {
                let mut out: Vec<Json> = Vec::new();
                let mut i: usize = 0;
                while i < xs.len()
                    invariant
                        i <= xs@.len(),
                        out@.len() == i,
                        *self == Json::Array(*xs),
                        forall|m: int| 0 <= m < i ==> mirror(xs@[m], #[trigger] out@[m]),
                    decreases xs@.len() - i,
                {
                    proof {
                        let items = self->Array_0;
                        assert(decreases_to!(items => items[i as int]));
                        assert(decreases_to!(*self => items));
                    }
                    let c = xs[i].deep_copy();
                    out.push(c);
                    i = i + 1;
                }
                Json::Array(out)
            },
            Json::Object(es) => {
                let mut out: Vec<(String, Json)> = Vec::new();
                let mut i: usize = 0;
                while i < es.len()
                    invariant
                        i <= es@.len(),
                        out@.len() == i,
                        *self == Json::Object(*es),
                        forall|m: int|
                            0 <= m < i ==> {
                                &&& es@[m].0@ == (#[trigger] out@[m]).0@
                                &&& mirror(es@[m].1, out@[m].1)
                            },
                    decreases es@.len() - i,
                {
                    proof {
                        let items = self->Object_0;
                        assert(decreases_to!(items => items[i as int]));
                        assert(decreases_to!(items[i as int] => items[i as int].1));
                        assert(decreases_to!(*self => items));
                    }
                    let c = es[i].1.deep_copy();
                    let k = es[i].0.clone();
                    out.push((k, c));
                    i = i + 1;
                }
                Json::Object(out)
            },
        }
    }

    /// The object with the one member `k1`.
    pub fn object1(k1: &str, v1: Json) -> (r: Json)
        ensures
            field(r, k1@) == Some(v1),
            keys(r) == seq![k1@],
    {
        let r = Json::Object(vec![Json::member(k1, v1)]);
        assert(keys(r) =~= seq![k1@]);
        r
    }

    /// The object with the members `k1` and `k2`, in that order.
    pub fn object2(k1: &str, v1: Json, k2: &str, v2: Json) -> (r: Json)
        requires
            k1@ != k2@,
        ensures
            field(r, k1@) == Some(v1),
            field(r, k2@) == Some(v2),
            keys(r) == seq![k1@, k2@],
    {
        let r = Json::Object(vec![Json::member(k1, v1), Json::member(k2, v2)]);
        proof {
            reveal_with_fuel(entry_value, 3);
            let es = r->Object_0@;
            assert(es.drop_first()[0] == es[1]);
        }
        assert(keys(r) =~= seq![k1@, k2@]);
        r
    }

    /// The object with the members `k1`, `k2` and `k3`, in that order.
    pub fn object3(k1: &str, v1: Json, k2: &str, v2: Json, k3: &str, v3: Json) -> (r: Json)
        requires
            k1@ != k2@,
            k1@ != k3@,
            k2@ != k3@,
        ensures
            field(r, k1@) == Some(v1),
            field(r, k2@) == Some(v2),
            field(r, k3@) == Some(v3),
            keys(r) == seq![k1@, k2@, k3@],
    {
        let r = Json::Object(vec![Json::member(k1, v1), Json::member(k2, v2), Json::member(k3, v3)]);
        proof {
            reveal_with_fuel(entry_value, 4);
            let es = r->Object_0@;
            assert(es.drop_first()[0] == es[1]);
            assert(es.drop_first().drop_first()[0] == es[2]);
        }
        assert(keys(r) =~= seq![k1@, k2@, k3@]);
        r
    }

    /// The object with the members `k1` to `k4`, in that order.
    pub fn object4(k1: &str, v1: Json, k2: &str, v2: Json, k3: &str, v3: Json, k4: &str, v4: Json) -> (r: Json)
        requires
            k1@ != k2@,
            k1@ != k3@,
            k1@ != k4@,
            k2@ != k3@,
            k2@ != k4@,
            k3@ != k4@,
        ensures
            field(r, k1@) == Some(v1),
            field(r, k2@) == Some(v2),
            field(r, k3@) == Some(v3),
            field(r, k4@) == Some(v4),
            keys(r) == seq![k1@, k2@, k3@, k4@],
    {
        let r = Json::Object(
            vec![Json::member(k1, v1), Json::member(k2, v2), Json::member(k3, v3), Json::member(k4, v4)],
        );
        proof {
            reveal_with_fuel(entry_value, 5);
            let es = r->Object_0@;
            assert(es.drop_first()[0] == es[1]);
            assert(es.drop_first().drop_first()[0] == es[2]);
            assert(es.drop_first().drop_first().drop_first()[0] == es[3]);
        }
        assert(keys(r) =~= seq![k1@, k2@, k3@, k4@]);
        r
    }

    /// The empty object.
    pub fn empty_object() -> (r: Json)
        ensures
            r is Object,
            keys(r) == Seq::<Seq<char>>::empty(),
            forall|k: Seq<char>| field(r, k) is None,
    {
        let r = Json::Object(Vec::new());
        assert(keys(r) =~= Seq::<Seq<char>>::empty());
        r
    }

    /// The object whose first member is `k` and whose other members are those
    /// of `rest` (an object, or nothing) under any other key.
    pub fn object_with_first(k: &str, v: Json, rest: Json) -> (r: Json)
        ensures
            field(r, k@) == Some(v),
            forall|other: Seq<char>| other != k@ ==> field(r, other) == field(rest, other),
    {
        let mut kept: Vec<(String, Json)> = Vec::new();
        kept.push(Json::member(k, v));
        let ghost first = kept@[0];
        let wanted = String::from_str(k);
        match rest {
            Json::Object(es) => {
                let ghost orig = es@;
                let n = es.len();
                assert(orig.len() == n);
                let mut rest_es = es;
                let mut taken: usize = 0;
                while rest_es.len() > 0
                    invariant
                        wanted@ == k@,
                        orig.len() <= usize::MAX,
                        first.0@ == k@,
                        first.1 == v,
                        taken + rest_es@.len() == orig.len(),
                        rest_es@ == orig.subrange(taken as int, orig.len() as int),
                        kept@ == seq![first] + drop_key(orig.subrange(0, taken as int), k@),
                    decreases rest_es@.len(),
                {
                    let e = rest_es.remove(0);
                    let ghost done = orig.subrange(0, taken as int);
                    assert(orig.subrange(0, taken + 1) =~= done.push(e));
                    assert(orig.subrange(0, taken + 1).drop_last() =~= done);
                    if !(e.0 == wanted) {
                        kept.push(e);
                    }
                    assert(kept@ =~= seq![first] + drop_key(orig.subrange(0, taken + 1), k@));
                    taken = taken + 1;
                }
                proof {
                    assert(orig.subrange(0, orig.len() as int) =~= orig);
                    assert forall|other: Seq<char>| other != k@ implies entry_value(kept@, other) == entry_value(orig, other) by {
                        lemma_drop_key(orig, k@, other);
                        assert(kept@.drop_first() =~= drop_key(orig, k@));
                    }
                }
                Json::Object(kept)
            },
            _ => {
                let r = Json::Object(kept);
                proof {
                    assert forall|other: Seq<char>| other != k@ implies field(r, other) == field(rest, other) by {
                        assert(kept@.drop_first().len() == 0);
                        assert(entry_value(kept@.drop_first(), other) is None);
                        assert(entry_value(kept@, other) is None);
                    }
                }
                r
            },
        }
    }

    /// An object member with key `k`.
    pub fn member(k: &str, v: Json) -> (r: (String, Json))
        ensures
            r.0@ == k@,
            r.1 == v,
    {
        (String::from_str(k), v)
    }

    /// The member `key` of this value, if it is an object that has one.
    pub fn get(&self, key: &str) -> (r: Option<&Json>)
        ensures
            match r {
                Some(v) => field(*self, key@) == Some(*v),
                None => field(*self, key@) is None,
            },
    {
        match self {
            Json::Object(entries) => match position(entries, key) {
                Some(i) => Some(&entries[i].1),
                None => None,
            },
            _ => None,
        }
    }

    /// The text of the member `key`, or the empty string where that member
    /// is missing or not a string.
    pub fn get_text(&self, key: &str) -> (r: String)
        ensures
            r@ == text_or_empty(field(*self, key@)),
    {
        match self.get(key) {
            Some(Json::Str(t)) => t.clone(),
            _ => String::new(),
        }
    }

    /// The text of the member `key`, where that member is a string.
    pub fn get_text_option(&self, key: &str) -> (r: Option<String>)
        ensures
            opt_text(r) == text_option(field(*self, key@)),
    {
        match self.get(key) {
            Some(Json::Str(t)) => Some(t.clone()),
            _ => None,
        }
    }

    /// Moves the member `key` out of this object, with null standing for a
    /// missing member.
    pub fn take_or_null(&mut self, key: &str) -> (r: Json)
        ensures
            r == or_null(field(*old(self), key@)),
            forall|k: Seq<char>| k != key@ ==> field(*final(self), k) == field(*old(self), k),
    {
        match self.take(key) {
            Some(v) => v,
            None => Json::Null,
        }
    }

    /// Moves the member `key` out of this object, leaving null in its place.
    /// The other members keep their values.
    pub fn take(&mut self, key: &str) -> (r: Option<Json>)
        ensures
            r == field(*old(self), key@),
            forall|k: Seq<char>| k != key@ ==> field(*final(self), k) == field(*old(self), k),
            keys(*final(self)) == keys(*old(self)),
            r is None ==> *final(self) == *old(self),
    {
        match self {
            Json::Object(entries) => match position(entries, key) {
                Some(i) => {
                    let ghost before = entries@;
                    let (k, v) = entries.remove(i);
                    entries.insert(i, (k, Json::Null));
                    proof {
                        assert(entries@ =~= cleared_at(before, i as int));
                        assert forall|k2: Seq<char>| k2 != key@ implies entry_value(entries@, k2)
                            == entry_value(before, k2) by {
                            lemma_entry_value_cleared(before, i as int, k2);
                        }
                        assert(entries@.map_values(|e: (String, Json)| e.0@) =~= before.map_values(
                            |e: (String, Json)| e.0@,
                        ));
                    }
                    Some(v)
                },
                None => None,
            },
            _ => None,
        }
    }
}

} // verus!
