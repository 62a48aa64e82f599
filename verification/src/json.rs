//! JSON values as `serde_json` holds them, and what is read from and written to them.

use serde_json::Value;
use vstd::prelude::*;

verus! {

/// `serde_json::Value`.
#[verifier::external_type_specification]
#[verifier::external_body]
pub struct ExValue(serde_json::Value);

/// A JSON number: a natural number, a negative integer, or the bit pattern of a binary64 number.
pub enum NumView {
    Pos(u64),
    Neg(i64),
    Real(u64),
}

/// A JSON value as a mathematical value. The members of an object are in no order of their own.
pub enum JsonView {
    Null,
    Bool(bool),
    Number(NumView),
    Text(Seq<char>),
    Array(Seq<JsonView>),
    Object(Map<Seq<char>, JsonView>),
}

/// What a `serde_json::Value` holds.
pub uninterp spec fn json_view(v: serde_json::Value) -> JsonView;

/// What a sequence of values holds.
pub open spec fn json_views(s: Seq<Value>) -> Seq<JsonView> {
    s.map_values(|v: Value| json_view(v))
}

/// The member of an object under a key; other values have no members.
pub open spec fn member(v: JsonView, key: Seq<char>) -> Option<JsonView> {
    match v {
        JsonView::Object(m) => if m.contains_key(key) { Some(m[key]) } else { None },
        _ => None,
    }
}

/// The characters of a text value.
pub open spec fn as_text(v: JsonView) -> Option<Seq<char>> {
    match v {
        JsonView::Text(s) => Some(s),
        _ => None,
    }
}

/// The text member of an object under a key.
pub open spec fn text_member(v: JsonView, key: Seq<char>) -> Option<Seq<char>> {
    match member(v, key) {
        Some(x) => as_text(x),
        None => None,
    }
}

/// A number that fits in 64 bits with a sign.
pub open spec fn as_int(v: JsonView) -> Option<i64> {
    match v {
        JsonView::Number(NumView::Pos(n)) => if n <= i64::MAX { Some(n as i64) } else { None },
        JsonView::Number(NumView::Neg(n)) => Some(n),
        _ => None,
    }
}

/// `Value::get` with a key: the member of an object, and nothing for any other value.
#[verifier::external_body]
pub(crate) fn get<'a>(v: &'a Value, key: &str) -> (r: Option<&'a Value>)
    ensures
        match r {
            Some(x) => member(json_view(*v), key@) == Some(json_view(*x)),
            None => member(json_view(*v), key@) is None,
        },
{
    v.get(key)
}

/// `Value::as_str`: the characters of a text value, and nothing for any other value.
#[verifier::external_body]
pub(crate) fn as_str<'a>(v: &'a Value) -> (r: Option<&'a str>)
    ensures
        crate::text::opt_str(r) == as_text(json_view(*v)),
{
    v.as_str()
}

/// `Value::as_i64`: a number that fits in 64 bits with a sign, and nothing for any other value.
#[verifier::external_body]
pub(crate) fn as_i64(v: &Value) -> (r: Option<i64>)
    ensures
        r == as_int(json_view(*v)),
{
    v.as_i64()
}

/// `Value::as_array`: the elements of an array, and nothing for any other value.
#[verifier::external_body]
pub(crate) fn as_array<'a>(v: &'a Value) -> (r: Option<&'a Vec<Value>>)
    ensures
        match r {
            Some(x) => json_view(*v) == JsonView::Array(json_views(x@)),
            None => json_view(*v) !is Array,
        },
{
    v.as_array()
}

/// `Value::is_object`: whether a value is an object.
#[verifier::external_body]
pub(crate) fn is_object(v: &Value) -> (r: bool)
    ensures
        r == json_view(*v) is Object,
{
    v.is_object()
}

/// `Value::String`: a text value.
#[verifier::external_body]
pub(crate) fn text(s: &str) -> (r: Value)
    ensures
        json_view(r) == JsonView::Text(s@),
{
    Value::String(s.to_owned())
}

/// `Value::Array`: an array of the given values.
#[verifier::external_body]
pub(crate) fn array(elements: Vec<Value>) -> (r: Value)
    ensures
        json_view(r) == JsonView::Array(json_views(elements@)),
{
    Value::Array(elements)
}

/// `serde_json::Map::new`: an object without members.
#[verifier::external_body]
pub(crate) fn empty_object() -> (r: Value)
    ensures
        json_view(r) == JsonView::Object(Map::empty()),
{
    Value::Object(serde_json::Map::new())
}

/// `Value::Bool`: a truth value.
#[verifier::external_body]
pub(crate) fn boolean(b: bool) -> (r: Value)
    ensures
        json_view(r) == JsonView::Bool(b),
{
    Value::Bool(b)
}

/// `Value::Null`.
#[verifier::external_body]
pub(crate) fn null() -> (r: Value)
    ensures
        json_view(r) == JsonView::Null,
{
    Value::Null
}

/// An integer as a JSON value: a natural number, or a negative integer.
pub open spec fn int_json(n: int) -> JsonView {
    JsonView::Number(
        if n >= 0 {
            NumView::Pos(n as u64)
        } else {
            NumView::Neg(n as i64)
        },
    )
}

/// `Value::from` on an `i64`: a natural number or a negative integer.
#[verifier::external_body]
pub(crate) fn integer(n: i64) -> (r: Value)
    ensures
        json_view(r) == int_json(n as int),
{
    Value::from(n)
}

/// `Value::clone`: a value that holds the same.
#[verifier::external_body]
pub(crate) fn duplicate(v: &Value) -> (r: Value)
    ensures
        json_view(r) == json_view(*v),
{
    v.clone()
}

/// `Map::insert` on an object: the member under the key becomes the given value, whether or not
/// there was one.
#[verifier::external_body]
pub(crate) fn insert(v: &mut Value, key: &str, x: Value)
    requires
        json_view(*old(v)) is Object,
    ensures
        json_view(*final(v)) == JsonView::Object(
            json_view(*old(v))->Object_0.insert(key@, json_view(x)),
        ),
{
    if let Some(m) = v.as_object_mut() {
        m.insert(key.to_owned(), x);
    }
}

/// `Map::remove` on an object: there is no member under the key any more.
#[verifier::external_body]
pub(crate) fn remove(v: &mut Value, key: &str)
    requires
        json_view(*old(v)) is Object,
    ensures
        json_view(*final(v)) == JsonView::Object(json_view(*old(v))->Object_0.remove(key@)),
{
    if let Some(m) = v.as_object_mut() {
        m.remove(key);
    }
}

/// What `serde_json::from_str` reads from a text, or nothing where the text is no JSON.
pub uninterp spec fn json_parsed(s: Seq<char>) -> Option<JsonView>;

/// `serde_json::from_str` into a value.
#[verifier::external_body]
pub(crate) fn parse(s: &str) -> (r: Option<Value>)
    ensures
        match r {
            Some(v) => json_parsed(s@) == Some(json_view(v)),
            None => json_parsed(s@) is None,
        },
{
    match serde_json::from_str(s) {
        Ok(v) => Some(v),
        Err(_) => None,
    }
}

/// What `serde_json::to_string` writes for a value, all on one line.
pub uninterp spec fn json_text(v: JsonView) -> Seq<char>;

/// `serde_json::to_string` on a value, which cannot fail: the keys of an object are texts.
#[verifier::external_body]
pub(crate) fn print(v: &Value) -> (r: String)
    ensures
        r@ == json_text(json_view(*v)),
{
    match serde_json::to_string(v) {
        Ok(s) => s,
        Err(_) => String::new(),
    }
}

/// What `serde_json::to_string_pretty` writes for a value, indented.
pub uninterp spec fn json_pretty(v: JsonView) -> Seq<char>;

/// `serde_json::to_string_pretty` on a value, which cannot fail: the keys of an object are texts.
#[verifier::external_body]
pub(crate) fn print_pretty(v: &Value) -> (r: String)
    ensures
        r@ == json_pretty(json_view(*v)),
{
    match serde_json::to_string_pretty(v) {
        Ok(s) => s,
        Err(_) => String::new(),
    }
}

/// The bit pattern of the binary64 number that `Number::as_f64` makes of a JSON number. A number
/// that is one already stays as it is; an integer is rounded.
pub uninterp spec fn real_bits(n: NumView) -> u64;

/// A number value.
pub open spec fn as_number(v: JsonView) -> Option<NumView> {
    match v {
        JsonView::Number(n) => Some(n),
        _ => None,
    }
}

/// `Value::as_f64`, taken by its bit pattern: every number has one, and no other value has.
#[verifier::external_body]
pub(crate) fn as_real_bits(v: &Value) -> (r: Option<u64>)
    ensures
        match as_number(json_view(*v)) {
            Some(n) => r == Some(real_bits(n)),
            None => r is None,
        },
        as_number(json_view(*v)) matches Some(NumView::Real(b)) ==> r == Some(b),
{
    match v.as_f64() {
        Some(x) => Some(x.to_bits()),
        None => None,
    }
}

/// What `format` writes for `Number::as_f64` of a JSON number, with a number of places behind the
/// point.
pub uninterp spec fn fixed_text(n: NumView, places: nat) -> Seq<char>;

/// `format` with a precision, on `Value::as_f64`: every number has such a text, and no other value
/// has. A precision beyond 16 bits makes it fail.
#[verifier::external_body]
pub(crate) fn fixed(v: &Value, places: usize) -> (r: Option<String>)
    requires
        places <= 65535,
    ensures
        match as_number(json_view(*v)) {
            Some(n) => crate::text::opt_text(r) == Some(fixed_text(n, places as nat)),
            None => r is None,
        },
{
    match v.as_f64() {
        Some(x) => Some(format!("{:.1$}", x, places)),
        None => None,
    }
}

/// The integer member of an object under a key.
pub open spec fn int_member(v: JsonView, key: Seq<char>) -> Option<i64> {
    match member(v, key) {
        Some(x) => as_int(x),
        None => None,
    }
}

/// The number member of an object under a key.
pub open spec fn number_member(v: JsonView, key: Seq<char>) -> Option<NumView> {
    match member(v, key) {
        Some(x) => as_number(x),
        None => None,
    }
}

/// The integer member of an object under a key.
pub(crate) fn get_i64(v: &Value, key: &str) -> (r: Option<i64>)
    ensures
        r == int_member(json_view(*v), key@),
{
    match get(v, key) {
        Some(x) => as_i64(x),
        None => None,
    }
}

/// The number member of an object under a key, by its bit pattern.
pub(crate) fn get_real(v: &Value, key: &str) -> (r: Option<u64>)
    ensures
        match number_member(json_view(*v), key@) {
            Some(n) => r == Some(real_bits(n)),
            None => r is None,
        },
{
    match get(v, key) {
        Some(x) => as_real_bits(x),
        None => None,
    }
}

/// The number member of an object under a key, written with a number of places.
pub(crate) fn get_fixed(v: &Value, key: &str, places: usize) -> (r: Option<String>)
    requires
        places <= 65535,
    ensures
        match number_member(json_view(*v), key@) {
            Some(n) => crate::text::opt_text(r) == Some(fixed_text(n, places as nat)),
            None => r is None,
        },
{
    match get(v, key) {
        Some(x) => fixed(x, places),
        None => None,
    }
}

/// The members of an object, later ones in place of earlier ones under the same key.
pub open spec fn obj_map(members: Seq<(Seq<char>, JsonView)>) -> Map<Seq<char>, JsonView>
    decreases members.len(),
{
    if members.len() == 0 {
        Map::empty()
    } else {
        obj_map(members.drop_last()).insert(members.last().0, members.last().1)
    }
}

/// The keys of an object with the given members are theirs.
pub(crate) proof fn lemma_obj_keys(members: Seq<(Seq<char>, JsonView)>, key: Seq<char>)
    ensures
        obj_map(members).contains_key(key) == exists|i: int|
            0 <= i < members.len() && (#[trigger] members[i]).0 == key,
    decreases members.len(),
{
    if members.len() > 0 {
        let rest = members.drop_last();
        lemma_obj_keys(rest, key);
        if members.last().0 == key {
            assert(members[members.len() - 1].0 == key);
        }
        if obj_map(rest).contains_key(key) {
            let i = choose|i: int| 0 <= i < rest.len() && (#[trigger] rest[i]).0 == key;
            assert(members[i].0 == key);
        }
        if members.last().0 != key && exists|i: int|
            0 <= i < members.len() && (#[trigger] members[i]).0 == key {
            let i = choose|i: int| 0 <= i < members.len() && (#[trigger] members[i]).0 == key;
            assert(rest[i].0 == key);
        }
    }
}

/// The object with the given members.
pub open spec fn obj(members: Seq<(Seq<char>, JsonView)>) -> JsonView {
    JsonView::Object(obj_map(members))
}

/// Members as mathematical values.
pub open spec fn member_views(members: Seq<(&str, Value)>) -> Seq<(Seq<char>, JsonView)> {
    members.map_values(|m: (&str, Value)| (m.0@, json_view(m.1)))
}

/// The object with the given members.
pub(crate) fn object(members: Vec<(&str, Value)>) -> (r: Value)
    ensures
        json_view(r) == obj(member_views(members@)),
{
    let mut r = empty_object();
    let ghost all = member_views(members@);
    let mut i: usize = 0;
    proof {
        assert(obj_map(all.take(0)) == Map::<Seq<char>, JsonView>::empty());
    }
    while i < members.len()
        invariant
            i <= members.len(),
            all == member_views(members@),
            json_view(r) == JsonView::Object(obj_map(all.take(i as int))),
        decreases members.len() - i,
    {
        proof {
            assert(all.take(i + 1).drop_last() =~= all.take(i as int));
            assert(all.take(i + 1).last() == all[i as int]);
        }
        let x = duplicate(&members[i].1);
        insert(&mut r, members[i].0, x);
        i += 1;
    }
    proof {
        assert(all.take(all.len() as int) =~= all);
    }
    r
}

/// An array of texts.
pub open spec fn texts_json(s: Seq<Seq<char>>) -> JsonView {
    JsonView::Array(s.map_values(|t: Seq<char>| JsonView::Text(t)))
}

/// Texts as mathematical values.
pub open spec fn str_views(s: Seq<&str>) -> Seq<Seq<char>> {
    s.map_values(|t: &str| t@)
}

/// An array of texts.
pub(crate) fn text_array(items: Vec<&str>) -> (r: Value)
    ensures
        json_view(r) == texts_json(str_views(items@)),
{
    let mut v: Vec<Value> = Vec::new();
    let mut i: usize = 0;
    while i < items.len()
        invariant
            i <= items.len(),
            v.len() == i,
            forall|k: int| 0 <= k < i ==> json_view(#[trigger] v@[k]) == JsonView::Text(items@[k]@),
        decreases items.len() - i,
    {
        v.push(text(items[i]));
        i += 1;
    }
    proof {
        let want = str_views(items@).map_values(|t: Seq<char>| JsonView::Text(t));
        assert(json_views(v@) =~= want);
    }
    array(v)
}

/// The object with one member.
pub(crate) fn object1(k1: &str, v1: Value) -> (r: Value)
    ensures
        json_view(r) == obj(seq![(k1@, json_view(v1))]),
{
    let ghost want = seq![(k1@, json_view(v1))];
    let members = vec![(k1, v1)];
    proof {
        assert(member_views(members@) =~= want);
    }
    object(members)
}

/// The object with two members.
pub(crate) fn object2(k1: &str, v1: Value, k2: &str, v2: Value) -> (r: Value)
    ensures
        json_view(r) == obj(seq![(k1@, json_view(v1)), (k2@, json_view(v2))]),
{
    let ghost want = seq![(k1@, json_view(v1)), (k2@, json_view(v2))];
    let members = vec![(k1, v1), (k2, v2)];
    proof {
        assert(member_views(members@) =~= want);
    }
    object(members)
}

/// The object with three members.
pub(crate) fn object3(k1: &str, v1: Value, k2: &str, v2: Value, k3: &str, v3: Value) -> (r: Value)
    ensures
        json_view(r) == obj(seq![(k1@, json_view(v1)), (k2@, json_view(v2)), (k3@, json_view(v3))]),
{
    let ghost want = seq![(k1@, json_view(v1)), (k2@, json_view(v2)), (k3@, json_view(v3))];
    let members = vec![(k1, v1), (k2, v2), (k3, v3)];
    proof {
        assert(member_views(members@) =~= want);
    }
    object(members)
}

/// The object with four members.
pub(crate) fn object4(
    k1: &str,
    v1: Value,
    k2: &str,
    v2: Value,
    k3: &str,
    v3: Value,
    k4: &str,
    v4: Value,
) -> (r: Value)
    ensures
        json_view(r) == obj(
            seq![
                (k1@, json_view(v1)),
                (k2@, json_view(v2)),
                (k3@, json_view(v3)),
                (k4@, json_view(v4)),
            ],
        ),
{
    let ghost want = seq![
        (k1@, json_view(v1)),
        (k2@, json_view(v2)),
        (k3@, json_view(v3)),
        (k4@, json_view(v4)),
    ];
    let members = vec![(k1, v1), (k2, v2), (k3, v3), (k4, v4)];
    proof {
        assert(member_views(members@) =~= want);
    }
    object(members)
}

/// An array of one text.
pub(crate) fn texts1(t1: &str) -> (r: Value)
    ensures
        json_view(r) == texts_json(seq![t1@]),
{
    let items = vec![t1];
    proof {
        assert(str_views(items@) =~= seq![t1@]);
    }
    text_array(items)
}

/// An array of two texts.
pub(crate) fn texts2(t1: &str, t2: &str) -> (r: Value)
    ensures
        json_view(r) == texts_json(seq![t1@, t2@]),
{
    let items = vec![t1, t2];
    proof {
        assert(str_views(items@) =~= seq![t1@, t2@]);
    }
    text_array(items)
}

/// An array of three texts.
pub(crate) fn texts3(t1: &str, t2: &str, t3: &str) -> (r: Value)
    ensures
        json_view(r) == texts_json(seq![t1@, t2@, t3@]),
{
    let items = vec![t1, t2, t3];
    proof {
        assert(str_views(items@) =~= seq![t1@, t2@, t3@]);
    }
    text_array(items)
}

/// An array of four texts.
pub(crate) fn texts4(t1: &str, t2: &str, t3: &str, t4: &str) -> (r: Value)
    ensures
        json_view(r) == texts_json(seq![t1@, t2@, t3@, t4@]),
{
    let items = vec![t1, t2, t3, t4];
    proof {
        assert(str_views(items@) =~= seq![t1@, t2@, t3@, t4@]);
    }
    text_array(items)
}

/// The text member of an object under a key.
pub(crate) fn get_str<'a>(v: &'a Value, key: &str) -> (r: Option<&'a str>)
    ensures
        crate::text::opt_str(r) == text_member(json_view(*v), key@),
{
    match get(v, key) {
        Some(x) => as_str(x),
        None => None,
    }
}

/// A member of an object is read back under its key, where the keys differ; and a text, an integer or
/// another value is read only as what it is.
pub proof fn members_are_read_back(members: Seq<(Seq<char>, JsonView)>, i: int)
    requires
        0 <= i < members.len(),
        forall|j: int| i < j < members.len() ==> (#[trigger] members[j]).0 != members[i].0,
    ensures
        member(obj(members), members[i].0) == Some(members[i].1),
        members[i].1 matches JsonView::Text(t) ==> text_member(obj(members), members[i].0) == Some(t),
        !(members[i].1 is Text) ==> text_member(obj(members), members[i].0) is None,
        members[i].1 matches JsonView::Number(n) ==> number_member(obj(members), members[i].0)
            == Some(n),
        !(members[i].1 is Number) ==> number_member(obj(members), members[i].0) is None && int_member(
            obj(members),
            members[i].0,
        ) is None,
    decreases members.len(),
{
    if i < members.len() - 1 {
        let front = members.drop_last();
        assert(front[i] == members[i]);
        assert(members.last() == members[members.len() - 1]);
        assert forall|j: int| i < j < front.len() implies (#[trigger] front[j]).0 != front[i].0 by {
            assert(front[j] == members[j]);
        }
        members_are_read_back(front, i);
    }
}

/// What is not among the members of an object is not read.
pub proof fn other_members_are_not_read(members: Seq<(Seq<char>, JsonView)>, key: Seq<char>)
    requires
        forall|i: int| 0 <= i < members.len() ==> (#[trigger] members[i]).0 != key,
    ensures
        member(obj(members), key) is None,
        text_member(obj(members), key) is None,
        int_member(obj(members), key) is None,
        number_member(obj(members), key) is None,
{
    lemma_obj_keys(members, key);
}

/// Integers in range are read as themselves, and no others.
pub proof fn integers_are_read_as_themselves(n: int)
    requires
        i64::MIN <= n <= i64::MAX,
    ensures
        as_int(int_json(n)) == Some(n as i64),
        forall|m: u64| m > i64::MAX ==> #[trigger] as_int(JsonView::Number(NumView::Pos(m))) is None,
        forall|b: u64| #[trigger] as_int(JsonView::Number(NumView::Real(b))) is None,
{
}

} // verus!
