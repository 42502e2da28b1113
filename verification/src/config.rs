//! Layered configuration: a partial override is merged over the shipped
//! default, key by key.
use crate::text;
use serde_json::Value;
use vstd::prelude::*;

verus! {

/// A JSON value. A number is kept as text.
#[derive(Debug, PartialEq)]
pub enum Json {
    Null,
    Bool(bool),
    Number(String),
    Str(String),
    Array(Vec<Json>),
    /// The members; where a key occurs twice the later one counts.
    Object(Vec<(String, Json)>),
}

/// A JSON value with an object as a map.
pub enum JsonView {
    Null,
    Bool(bool),
    Number(Seq<char>),
    Str(Seq<char>),
    Array(Seq<JsonView>),
    Object(Map<Seq<char>, JsonView>),
}

/// The override wins wherever both say something, and objects are merged key by
/// key; every other kind of value, lists among them, is replaced whole.
pub open spec fn merged(base: JsonView, over: JsonView) -> JsonView
    decreases over,
{
    match (base, over) {
        (JsonView::Object(b), JsonView::Object(o)) => JsonView::Object(
            Map::new(
                |k: Seq<char>| b.contains_key(k) || o.contains_key(k),
                |k: Seq<char>|
                    if !o.contains_key(k) {
                        b[k]
                    } else if !b.contains_key(k) {
                        o[k]
                    } else {
                        merged(b[k], o[k])
                    },
            ),
        ),
        _ => over,
    }
}

/// The members as a map.
pub open spec fn members(pairs: Seq<(String, Json)>) -> Map<Seq<char>, JsonView>
    decreases pairs,
{
    if pairs.len() == 0 {
        Map::empty()
    } else {
        members(pairs.drop_last()).insert(pairs.last().0@, model(pairs.last().1))
    }
}

/// The value with its objects as maps.
pub open spec fn model(value: Json) -> JsonView
    decreases value,
{
    match value {
        Json::Null => JsonView::Null,
        Json::Bool(b) => JsonView::Bool(b),
        Json::Number(n) => JsonView::Number(n@),
        Json::Str(s) => JsonView::Str(s@),
        Json::Array(items) => JsonView::Array(elements(items@)),
        Json::Object(pairs) => JsonView::Object(members(pairs@)),
    }
}

/// The values of a list.
pub open spec fn elements(items: Seq<Json>) -> Seq<JsonView>
    decreases items,
{
    if items.len() == 0 {
        Seq::empty()
    } else {
        elements(items.drop_last()).push(model(items.last()))
    }
}

impl View for Json {
    type V = JsonView;

    open spec fn view(&self) -> JsonView {
        model(*self)
    }
}

/// No key occurs twice.
spec fn unique_keys(pairs: Seq<(String, Json)>) -> bool {
    forall|i: int, j: int|
        0 <= i < j < pairs.len() ==> (#[trigger] pairs[i]).0@ != (#[trigger] pairs[j]).0@
}

/// Where a key occurs among the members.
spec fn has_key(pairs: Seq<(String, Json)>, key: Seq<char>) -> bool {
    exists|i: int| 0 <= i < pairs.len() && (#[trigger] pairs[i]).0@ == key
}

/// The map has exactly the keys of the members.
proof fn members_have_the_keys(pairs: Seq<(String, Json)>, key: Seq<char>)
    ensures
        members(pairs).contains_key(key) <==> has_key(pairs, key),
    decreases pairs.len(),
{
    if pairs.len() > 0 {
        let front = pairs.drop_last();
        members_have_the_keys(front, key);
        if has_key(pairs, key) {
            let i = choose|i: int| 0 <= i < pairs.len() && (#[trigger] pairs[i]).0@ == key;
            if i < front.len() {
                assert(front[i].0@ == key);
            }
        }
        if has_key(front, key) {
            let i = choose|i: int| 0 <= i < front.len() && (#[trigger] front[i]).0@ == key;
            assert(pairs[i].0@ == key);
        }
        if pairs.last().0@ == key {
            assert(pairs[pairs.len() - 1].0@ == key);
        }
    }
}

/// A member in front of the others counts only where none of them has its key.
proof fn member_in_front(first: (String, Json), rest: Seq<(String, Json)>)
    ensures
        members(seq![first] + rest) == if has_key(rest, first.0@) {
            members(rest)
        } else {
            members(rest).insert(first.0@, model(first.1))
        },
    decreases rest.len(),
{
    let all = seq![first] + rest;
    if rest.len() == 0 {
        assert(all.drop_last() =~= Seq::empty());
        assert(members(all.drop_last()) =~= Map::empty());
        assert(members(rest) =~= Map::empty());
    } else {
        let front = rest.drop_last();
        member_in_front(first, front);
        assert(all.drop_last() =~= seq![first] + front);
        assert(all.last() == rest.last());
        if rest.last().0@ == first.0@ {
            assert(rest[rest.len() - 1].0@ == first.0@);
            if !has_key(front, first.0@) {
                assert(members(front).insert(first.0@, model(first.1)).insert(
                    first.0@,
                    model(rest.last().1),
                ) =~= members(front).insert(first.0@, model(rest.last().1)));
            }
        } else {
            if has_key(rest, first.0@) {
                let i = choose|i: int|
                    0 <= i < rest.len() && (#[trigger] rest[i]).0@ == first.0@;
                assert(front[i].0@ == first.0@);
            } else {
                if has_key(front, first.0@) {
                    let i = choose|i: int|
                        0 <= i < front.len() && (#[trigger] front[i]).0@ == first.0@;
                    assert(rest[i].0@ == first.0@);
                }
                assert(members(front).insert(first.0@, model(first.1)).insert(
                    rest.last().0@,
                    model(rest.last().1),
                ) =~= members(front).insert(rest.last().0@, model(rest.last().1)).insert(
                    first.0@,
                    model(first.1),
                ));
            }
        }
    }
}

/// Each member of a list without double keys is in the map.
proof fn members_hold_each_pair(pairs: Seq<(String, Json)>, i: int)
    requires
        unique_keys(pairs),
        0 <= i < pairs.len(),
    ensures
        members(pairs).contains_key(pairs[i].0@),
        members(pairs)[pairs[i].0@] == model(pairs[i].1),
    decreases pairs.len(),
{
    let front = pairs.drop_last();
    if i < front.len() {
        members_hold_each_pair(front, i);
        assert(pairs[i].0@ != pairs[pairs.len() - 1].0@);
    }
}

/// Taking a member out and putting one with the same key behind the others
/// changes that member only.
#[verifier::rlimit(40)]
proof fn replaced_member(pairs: Seq<(String, Json)>, at: int, entry: (String, Json))
    requires
        unique_keys(pairs),
        0 <= at < pairs.len(),
        entry.0@ == pairs[at].0@,
    ensures
        unique_keys(pairs.remove(at).push(entry)),
        members(pairs.remove(at).push(entry)) == members(pairs).insert(entry.0@, model(entry.1)),
{
    let rest = pairs.remove(at);
    let after = rest.push(entry);
    let place = |i: int|
        if i < at {
            i
        } else {
            i + 1
        };
    assert(forall|i: int| 0 <= i < rest.len() ==> #[trigger] rest[i] == pairs[place(i)]);
    assert forall|i: int, j: int| 0 <= i < j < after.len() implies (#[trigger] after[i]).0@ != (
    #[trigger] after[j]).0@ by {
        assert(rest[i] == pairs[place(i)]);
        if j < rest.len() {
            assert(rest[j] == pairs[place(j)]);
        }
    }
    assert(after.drop_last() =~= rest);
    assert forall|i: int, j: int| 0 <= i < j < rest.len() implies (#[trigger] rest[i]).0@ != (
    #[trigger] rest[j]).0@ by {
        assert(after[i] == rest[i] && after[j] == rest[j]);
    }
    let wanted = members(pairs).insert(entry.0@, model(entry.1));
    assert forall|k: Seq<char>| #[trigger] members(after).contains_key(k) implies wanted.contains_key(
        k,
    ) && members(after)[k] == wanted[k] by {
        if k != entry.0@ {
            members_have_the_keys(rest, k);
            let i = choose|i: int| 0 <= i < rest.len() && (#[trigger] rest[i]).0@ == k;
            assert(rest[i] == pairs[place(i)]);
            members_hold_each_pair(rest, i);
            members_hold_each_pair(pairs, place(i));
        }
    }
    assert forall|k: Seq<char>| #[trigger] wanted.contains_key(k) implies members(
        after,
    ).contains_key(k) by {
        if k != entry.0@ {
            members_have_the_keys(rest, k);
            members_have_the_keys(pairs, k);
            let i = choose|i: int| 0 <= i < pairs.len() && (#[trigger] pairs[i]).0@ == k;
            let j = if i < at {
                i
            } else {
                i - 1
            };
            assert(rest[j] == pairs[place(j)]);
        }
    }
    assert(members(after) =~= wanted);
}

/// The place of a key among the members.
fn find(pairs: &Vec<(String, Json)>, key: &String) -> (r: Option<usize>)
    ensures
        match r {
            Some(at) => at < pairs@.len() && pairs@[at as int].0@ == key@ && has_key(
                pairs@,
                key@,
            ),
            None => !has_key(pairs@, key@),
        },
{
    let mut i: usize = 0;
    while i < pairs.len()
        invariant
            i <= pairs@.len(),
            forall|k: int| 0 <= k < i ==> (#[trigger] pairs@[k]).0@ != key@,
        decreases pairs@.len() - i,
    {
        if pairs[i].0 == *key {
            assert(pairs@[i as int].0@ == key@);
            return Some(i);
        }
        i += 1;
    }
    None
}

/// Whether the key is among the given ones.
fn seen(keys: &Vec<String>, key: &String) -> (r: bool)
    ensures
        r == text::views(keys@).contains(key@),
{
    let mut i: usize = 0;
    while i < keys.len()
        invariant
            i <= keys@.len(),
            forall|k: int| 0 <= k < i ==> #[trigger] text::views(keys@)[k] != key@,
        decreases keys@.len() - i,
    {
        if keys[i] == *key {
            assert(text::views(keys@)[i as int] == key@);
            return true;
        }
        i += 1;
    }
    false
}

/// The members without those that a later one with the same key replaces.
fn distinct(pairs: Vec<(String, Json)>) -> (r: Vec<(String, Json)>)
    ensures
        unique_keys(r@),
        members(r@) == members(pairs@),
{
    let ghost all = pairs@;
    let mut rest = pairs;
    let mut kept: Vec<(String, Json)> = Vec::new();
    proof {
        assert(all.take(all.len() as int) =~= all);
        assert(all.skip(all.len() as int) =~= Seq::empty());
    }
    while rest.len() > 0
        invariant
            rest@.len() <= all.len(),
            rest@ == all.take(rest@.len() as int),
            unique_keys(kept@),
            members(kept@) == members(all.skip(rest@.len() as int)),
        decreases rest@.len(),
    {
        let ghost n = rest@.len() - 1;
        if let Some(entry) = rest.pop() {
            let ghost before = kept@;
            proof {
                assert(entry == all[n]);
                assert(rest@ =~= all.take(n));
                assert(all.skip(n) =~= seq![entry] + all.skip(n + 1));
                member_in_front(entry, all.skip(n + 1));
                members_have_the_keys(kept@, entry.0@);
                members_have_the_keys(all.skip(n + 1), entry.0@);
            }
            if find(&kept, &entry.0).is_none() {
                kept.push(entry);
                proof {
                    assert(kept@.drop_last() =~= before);
                    assert forall|i: int, j: int| 0 <= i < j < kept@.len() implies (
                    #[trigger] kept@[i]).0@ != (#[trigger] kept@[j]).0@ by {
                        if j == kept@.len() - 1 {
                            assert(before[i].0@ != entry.0@);
                        }
                    }
                }
            }
        }
    }
    proof {
        assert(all.skip(0) =~= all);
    }
    kept
}

/// The members with those of the override from `n` on merged in.
spec fn merged_from(
    base: Map<Seq<char>, JsonView>,
    over: Seq<(String, Json)>,
    n: int,
) -> Map<Seq<char>, JsonView> {
    merged(JsonView::Object(base), JsonView::Object(members(over.skip(n))))->Object_0
}

/// Merging in one more member of the override changes that member only, unless a
/// later one with the same key replaces it.
proof fn one_more_member(base: Map<Seq<char>, JsonView>, over: Seq<(String, Json)>, n: int)
    requires
        0 <= n < over.len(),
    ensures
        ({
            let before = merged_from(base, over, n + 1);
            let key = over[n].0@;
            let value = if base.contains_key(key) {
                merged(base[key], model(over[n].1))
            } else {
                model(over[n].1)
            };
            if has_key(over.skip(n + 1), key) {
                merged_from(base, over, n) == before
            } else {
                &&& before.contains_key(key) == base.contains_key(key)
                &&& base.contains_key(key) ==> before[key] == base[key]
                &&& merged_from(base, over, n) == before.insert(key, value)
            }
        }),
{
    let rest = over.skip(n + 1);
    let key = over[n].0@;
    assert(over.skip(n) =~= seq![over[n]] + rest);
    member_in_front(over[n], rest);
    members_have_the_keys(rest, key);
    if !has_key(rest, key) {
        let before = merged_from(base, over, n + 1);
        let value = if base.contains_key(key) {
            merged(base[key], model(over[n].1))
        } else {
            model(over[n].1)
        };
        assert(merged_from(base, over, n) =~= before.insert(key, value));
    }
}

#[verifier::rlimit(40)]
fn merge_members(base: Vec<(String, Json)>, over: Vec<(String, Json)>) -> (r: Vec<(String, Json)>)
    ensures
        JsonView::Object(members(r@)) == merged(
            JsonView::Object(members(base@)),
            JsonView::Object(members(over@)),
        ),
    decreases over,
{
    let ghost b = members(base@);
    let ghost all = over@;
    let mut result = distinct(base);
    let mut rest = over;
    let mut done: Vec<String> = Vec::new();
    proof {
        assert(all.skip(all.len() as int) =~= Seq::empty());
        assert(members(all.skip(all.len() as int)) =~= Map::empty());
        assert(merged_from(b, all, all.len() as int) =~= b);
        assert(all.take(all.len() as int) =~= all);
    }
    while rest.len() > 0
        invariant
            over@ == all,
            rest@.len() <= all.len(),
            rest@ == all.take(rest@.len() as int),
            unique_keys(result@),
            members(result@) == merged_from(b, all, rest@.len() as int),
            forall|key: Seq<char>|
                #[trigger] text::views(done@).contains(key) <==> has_key(
                    all.skip(rest@.len() as int),
                    key,
                ),
        decreases rest@.len(),
    {
        let ghost n = rest@.len() - 1;
        if let Some((key, value)) = rest.pop() {
            let ghost behind = all.skip(n + 1);
            let ghost done_before = text::views(done@);
            proof {
                assert((key, value) == all[n]);
                assert(rest@ =~= all.take(n));
                assert(all.skip(n) =~= seq![all[n]] + behind);
                one_more_member(b, all, n);
            }
            if !seen(&done, &key) {
                assert(!has_key(behind, key@));
                done.push(key.clone());
                match find(&result, &key) {
                    Some(at) => {
                        let ghost before = result@;
                        proof {
                            members_hold_each_pair(before, at as int);
                        }
                        let (kept, existing) = result.remove(at);
                        assert(decreases_to!(over => value));
                        let merged_value = deep_merge(existing, value);
                        proof {
                            replaced_member(before, at as int, (kept, merged_value));
                        }
                        result.push((kept, merged_value));
                    },
                    None => {
                        let ghost before = result@;
                        proof {
                            members_have_the_keys(before, key@);
                        }
                        result.push((key, value));
                        proof {
                            assert(result@.drop_last() =~= before);
                            assert forall|i: int, j: int| 0 <= i < j < result@.len() implies (
                            #[trigger] result@[i]).0@ != (#[trigger] result@[j]).0@ by {
                                if j == result@.len() - 1 {
                                    assert(before[i].0@ != key@);
                                }
                            }
                        }
                    },
                }
                proof {
                    assert(text::views(done@) =~= done_before.push(key@));
                }
            } else {
                assert(has_key(behind, key@));
            }
            proof {
                keys_with_one_in_front(all[n], behind);
                assert forall|k: Seq<char>| #[trigger] text::views(done@).contains(
                    k,
                ) <==> has_key(all.skip(n), k) by {
                    if done_before.contains(key@) {
                    } else {
                        let pushed = text::views(done@);
                        if pushed.contains(k) {
                            let i = choose|i: int| 0 <= i < pushed.len() && pushed[i] == k;
                            if i < done_before.len() {
                                assert(done_before[i] == k);
                            }
                        }
                        if done_before.contains(k) {
                            let i = choose|i: int|
                                0 <= i < done_before.len() && done_before[i] == k;
                            assert(pushed[i] == k);
                        }
                        if k == key@ {
                            assert(pushed[pushed.len() - 1] == k);
                        }
                    }
                }
            }
        }
    }
    proof {
        assert(all.skip(0) =~= all);
    }
    result
}

/// A member in front adds its key.
proof fn keys_with_one_in_front(first: (String, Json), rest: Seq<(String, Json)>)
    ensures
        forall|key: Seq<char>|
            #[trigger] has_key(seq![first] + rest, key) <==> key == first.0@ || has_key(rest, key),
{
    let all = seq![first] + rest;
    assert forall|key: Seq<char>| #[trigger] has_key(all, key) <==> key == first.0@ || has_key(
        rest,
        key,
    ) by {
        if has_key(all, key) {
            let i = choose|i: int| 0 <= i < all.len() && (#[trigger] all[i]).0@ == key;
            if i > 0 {
                assert(rest[i - 1].0@ == key);
            }
        }
        if key == first.0@ {
            assert(all[0].0@ == key);
        }
        if has_key(rest, key) {
            let i = choose|i: int| 0 <= i < rest.len() && (#[trigger] rest[i]).0@ == key;
            assert(all[i + 1].0@ == key);
        }
    }
}

/// Merges a partial override over a default.
pub fn deep_merge(base: Json, over: Json) -> (r: Json)
    ensures
        r@ == merged(base@, over@),
    decreases over,
{
    match (base, over) {
        (Json::Object(base_members), Json::Object(over_members)) => Json::Object(
            merge_members(base_members, over_members),
        ),
        (_, other) => other,
    }
}

/// The layers as values with their objects as maps.
pub open spec fn layer_views(layers: Seq<Option<Json>>) -> Seq<Option<JsonView>> {
    layers.map_values(
        |layer: Option<Json>|
            match layer {
                Some(value) => Some(value@),
                None => None,
            },
    )
}

/// Each layer that is there merged over those before it.
pub open spec fn layered(base: JsonView, layers: Seq<Option<JsonView>>) -> JsonView
    decreases layers.len(),
{
    if layers.len() == 0 {
        base
    } else {
        let before = layered(base, layers.drop_last());
        match layers.last() {
            Some(layer) => merged(before, layer),
            None => before,
        }
    }
}

/// Merges the layers over the default in order, so that the last one wins on any
/// key that several define. A layer that is missing is skipped.
pub fn merge_layers(base: Json, layers: Vec<Option<Json>>) -> (r: Json)
    ensures
        r@ == layered(base@, layer_views(layers@)),
    decreases layers@.len(),
{
    let ghost all = layer_views(layers@);
    let mut rest = layers;
    match rest.pop() {
        None => base,
        Some(last) => {
            proof {
                assert(layer_views(rest@) =~= all.drop_last());
            }
            let before = merge_layers(base, rest);
            match last {
                Some(layer) => deep_merge(before, layer),
                None => before,
            }
        },
    }
}

/// A parsed value of the `serde_json` crate, carried as an opaque value.
#[verifier::external_type_specification]
#[verifier::external_body]
pub struct ExValue(serde_json::Value);

/// What a `serde_json::Value` holds, with a number as the text that it prints.
pub uninterp spec fn json_value(value: Value) -> JsonView;

/// What `serde_json::from_str` makes of a text: the value, or the text of the
/// error.
pub uninterp spec fn json_read(raw: Seq<char>) -> Result<JsonView, Seq<char>>;

/// `serde_json::from_str`. It is claimed that the value, or the text of the
/// error, depends on the text alone.
#[verifier::external_body]
fn read_value(raw: &str) -> (r: Result<Value, String>)
    ensures
        match r {
            Ok(value) => json_read(raw@) == Ok::<JsonView, Seq<char>>(json_value(value)),
            Err(message) => json_read(raw@) == Err::<JsonView, Seq<char>>(message@),
        },
{
    serde_json::from_str::<Value>(raw).map_err(|e| e.to_string())
}

/// The outermost level of a value, with the values inside it still closed.
enum Opened<'a> {
    Null,
    Bool(bool),
    Number(String),
    Str(&'a String),
    Array(&'a Vec<Value>),
    Object(Vec<(&'a String, &'a Value)>),
}

/// The values of a list.
spec fn values_inside(items: Seq<Value>) -> Seq<JsonView> {
    items.map_values(|value: Value| json_value(value))
}

/// The members as a map.
spec fn members_inside(pairs: Seq<(&String, &Value)>) -> Map<Seq<char>, JsonView>
    decreases pairs.len(),
{
    if pairs.len() == 0 {
        Map::empty()
    } else {
        members_inside(pairs.drop_last()).insert(pairs.last().0@, json_value(*pairs.last().1))
    }
}

/// The value whose outermost level this is.
spec fn opened_view(opened: Opened) -> JsonView {
    match opened {
        Opened::Null => JsonView::Null,
        Opened::Bool(b) => JsonView::Bool(b),
        Opened::Number(n) => JsonView::Number(n@),
        Opened::Str(s) => JsonView::Str(s@),
        Opened::Array(items) => JsonView::Array(values_inside(items@)),
        Opened::Object(pairs) => JsonView::Object(members_inside(pairs@)),
    }
}

/// No key occurs twice.
spec fn distinct_keys(pairs: Seq<(&String, &Value)>) -> bool {
    forall|i: int, j: int|
        0 <= i < j < pairs.len() ==> (#[trigger] pairs[i]).0@ != (#[trigger] pairs[j]).0@
}

/// The variants of `serde_json::Value`, with `Number::to_string` for a number and
/// `Map::iter` for the members of an object. It is claimed that these are what the
/// value holds, and that a map yields each of its keys once.
#[verifier::external_body]
fn open_value<'a>(value: &'a Value) -> (r: Opened<'a>)
    ensures
        opened_view(r) == json_value(*value),
        r matches Opened::Object(pairs) ==> distinct_keys(pairs@),
{
    match value {
        Value::Null => Opened::Null,
        Value::Bool(b) => Opened::Bool(*b),
        Value::Number(n) => Opened::Number(n.to_string()),
        Value::String(s) => Opened::Str(s),
        Value::Array(items) => Opened::Array(items),
        Value::Object(members) => Opened::Object(members.iter().collect()),
    }
}

/// Each member stands in the map.
proof fn member_is_inside(pairs: Seq<(&String, &Value)>, i: int)
    requires
        distinct_keys(pairs),
        0 <= i < pairs.len(),
    ensures
        members_inside(pairs).contains_key(pairs[i].0@),
        members_inside(pairs)[pairs[i].0@] == json_value(*pairs[i].1),
    decreases pairs.len(),
{
    let earlier = pairs.drop_last();
    if i < earlier.len() {
        assert forall|a: int, b: int| 0 <= a < b < earlier.len() implies (
        #[trigger] earlier[a]).0@ != (#[trigger] earlier[b]).0@ by {
            assert(pairs[a].0@ != pairs[b].0@);
        }
        member_is_inside(earlier, i);
        assert(pairs[i].0@ != pairs[pairs.len() - 1].0@);
    }
}

/// There are finitely many members.
proof fn members_are_finite(pairs: Seq<(&String, &Value)>)
    ensures
        members_inside(pairs).dom().finite(),
    decreases pairs.len(),
{
    if pairs.len() > 0 {
        members_are_finite(pairs.drop_last());
    }
}

/// The value as the library holds it.
fn to_json(value: &Value) -> (r: Json)
    ensures
        r@ == json_value(*value),
    decreases json_value(*value),
{
    match open_value(value) {
        Opened::Null => Json::Null,
        Opened::Bool(b) => Json::Bool(b),
        Opened::Number(n) => Json::Number(n),
        Opened::Str(s) => Json::Str(s.clone()),
        Opened::Array(items) => {
            let ghost all = values_inside(items@);
            let mut r: Vec<Json> = Vec::new();
            let mut i: usize = 0;
            while i < items.len()
                invariant
                    i <= items@.len(),
                    all == values_inside(items@),
                    json_value(*value) == JsonView::Array(all),
                    elements(r@) == all.take(i as int),
                decreases items@.len() - i,
            {
                proof {
                    assert(all[i as int] == json_value(items@[i as int]));
                    assert(decreases_to!(json_value(*value) => json_value(*value)->Array_0));
                    assert(decreases_to!(all => all[i as int]));
                }
                let item = to_json(&items[i]);
                let ghost before = r@;
                r.push(item);
                proof {
                    assert(r@.drop_last() =~= before);
                    assert(all.take(i + 1) =~= all.take(i as int).push(all[i as int]));
                }
                i += 1;
            }
            proof {
                assert(all.take(i as int) =~= all);
            }
            Json::Array(r)
        },
        Opened::Object(pairs) => {
            let ghost all = members_inside(pairs@);
            let mut r: Vec<(String, Json)> = Vec::new();
            let mut i: usize = 0;
            while i < pairs.len()
                invariant
                    i <= pairs@.len(),
                    distinct_keys(pairs@),
                    all == members_inside(pairs@),
                    json_value(*value) == JsonView::Object(all),
                    members(r@) == members_inside(pairs@.take(i as int)),
                decreases pairs@.len() - i,
            {
                proof {
                    member_is_inside(pairs@, i as int);
                    members_are_finite(pairs@);
                    assert(decreases_to!(json_value(*value) => json_value(*value)->Object_0));
                    assert(decreases_to!(all => all[pairs@[i as int].0@]));
                }
                let item = to_json(pairs[i].1);
                let key = pairs[i].0.clone();
                let ghost before = r@;
                r.push((key, item));
                proof {
                    assert(r@.drop_last() =~= before);
                    assert(pairs@.take(i + 1).drop_last() =~= pairs@.take(i as int));
                }
                i += 1;
            }
            proof {
                assert(pairs@.take(i as int) =~= pairs@);
            }
            Json::Object(r)
        },
    }
}

/// Parses the text of a configuration file. On a text that is no JSON the error
/// says what is wrong and where.
pub fn parse_json(raw: &str) -> (r: Result<Json, String>)
    ensures
        match r {
            Ok(value) => json_read(raw@) == Ok::<JsonView, Seq<char>>(value@),
            Err(message) => json_read(raw@) == Err::<JsonView, Seq<char>>(message@),
        },
{
    match read_value(raw) {
        Ok(value) => Ok(to_json(&value)),
        Err(message) => Err(message),
    }
}

/// Merges the text of an override over a value that was read before.
pub fn merge_text(base: Json, raw: &str) -> (r: Result<Json, String>)
    ensures
        match json_read(raw@) {
            Ok(over) => r matches Ok(value) && value@ == merged(base@, over),
            Err(message) => r matches Err(e) && e@ == message,
        },
{
    match parse_json(raw) {
        Ok(over) => Ok(deep_merge(base, over)),
        Err(message) => Err(message),
    }
}

/// What is not an object on both sides is replaced whole by the override.
pub proof fn override_replaces_values(base: JsonView, over: JsonView)
    requires
        !(base is Object && over is Object),
    ensures
        merged(base, over) == over,
{
}

/// Between objects the override wins on its own keys, the default keeps the
/// others, and nothing else appears.
pub proof fn override_wins_key_by_key(
    base: Map<Seq<char>, JsonView>,
    over: Map<Seq<char>, JsonView>,
    key: Seq<char>,
)
    ensures
        merged(JsonView::Object(base), JsonView::Object(over)) matches JsonView::Object(m) && {
            &&& m.contains_key(key) <==> base.contains_key(key) || over.contains_key(key)
            &&& base.contains_key(key) && !over.contains_key(key) ==> m[key] == base[key]
            &&& over.contains_key(key) && !base.contains_key(key) ==> m[key] == over[key]
            &&& over.contains_key(key) && !(over[key] is Object) ==> m[key] == over[key]
            &&& over.contains_key(key) && base.contains_key(key) ==> m[key] == merged(
                base[key],
                over[key],
            )
        },
{
}

/// An empty override changes nothing.
pub proof fn empty_override_changes_nothing(base: Map<Seq<char>, JsonView>)
    ensures
        merged(JsonView::Object(base), JsonView::Object(Map::empty())) == JsonView::Object(base),
{
    assert(merged(JsonView::Object(base), JsonView::Object(Map::empty()))->Object_0 =~= base);
}

/// A value merged over itself is itself.
pub proof fn merging_over_itself_changes_nothing(value: JsonView)
    ensures
        merged(value, value) == value,
    decreases value,
{
    if let JsonView::Object(m) = value {
        assert forall|k: Seq<char>| #[trigger] m.contains_key(k) implies merged(m[k], m[k])
            == m[k] by {
            merging_over_itself_changes_nothing(m[k]);
        }
        assert(merged(value, value)->Object_0 =~= m);
    }
}

/// Merging the same override a second time changes nothing.
pub proof fn merging_twice_changes_nothing(base: JsonView, over: JsonView)
    ensures
        merged(merged(base, over), over) == merged(base, over),
    decreases over,
{
    match (base, over) {
        (JsonView::Object(b), JsonView::Object(o)) => {
            let once = merged(base, over)->Object_0;
            assert forall|k: Seq<char>|
                #[trigger] once.contains_key(k) && o.contains_key(k) implies merged(once[k], o[k])
                == once[k] by {
                if b.contains_key(k) {
                    merging_twice_changes_nothing(b[k], o[k]);
                } else {
                    merging_over_itself_changes_nothing(o[k]);
                }
            }
            assert(merged(merged(base, over), over)->Object_0 =~= once);
        },
        _ => {
            merging_over_itself_changes_nothing(over);
        },
    }
}

/// Missing layers leave the default as it is.
pub proof fn missing_layers_are_skipped(base: JsonView, layers: Seq<Option<JsonView>>)
    requires
        forall|i: int| 0 <= i < layers.len() ==> (#[trigger] layers[i]) is None,
    ensures
        layered(base, layers) == base,
    decreases layers.len(),
{
    if layers.len() > 0 {
        missing_layers_are_skipped(base, layers.drop_last());
        assert(layers.last() == layers[layers.len() - 1]);
    }
}

/// Merging the layers one by one, each over what came of those before it, is the
/// same as merging them all; a layer that is missing changes nothing.
pub proof fn layers_merge_one_by_one(
    base: JsonView,
    layers: Seq<Option<JsonView>>,
    next: Option<JsonView>,
)
    ensures
        layered(base, Seq::empty()) == base,
        layered(base, layers.push(next)) == match next {
            Some(layer) => merged(layered(base, layers), layer),
            None => layered(base, layers),
        },
{
    assert(layers.push(next).drop_last() =~= layers);
}

/// On a key that it sets to something other than an object, the last layer has
/// the final word, whatever the layers before it say.
pub proof fn last_layer_has_the_final_word(
    base: Map<Seq<char>, JsonView>,
    layers: Seq<Option<JsonView>>,
    last: Map<Seq<char>, JsonView>,
    key: Seq<char>,
)
    requires
        last.contains_key(key),
        !(last[key] is Object),
    ensures
        layered(
            JsonView::Object(base),
            layers.push(Some(JsonView::Object(last))),
        ) matches JsonView::Object(m) && m.contains_key(key) && m[key] == last[key],
{
    let all = layers.push(Some(JsonView::Object(last)));
    assert(all.drop_last() =~= layers);
    if let JsonView::Object(before) = layered(JsonView::Object(base), layers) {
        override_wins_key_by_key(before, last, key);
    }
}

/// A value stands for itself: a list for its values in their order, and an object for
/// a map in which each key has the value of the last member with it.
pub proof fn values_stand_for_themselves(
    items: Seq<Json>,
    pairs: Seq<(String, Json)>,
    key: Seq<char>,
    i: int,
)
    ensures
        model(Json::Null) == JsonView::Null,
        forall|b: bool| #[trigger] model(Json::Bool(b)) == JsonView::Bool(b),
        forall|n: String| #[trigger] model(Json::Number(n)) == JsonView::Number(n@),
        forall|s: String| #[trigger] model(Json::Str(s)) == JsonView::Str(s@),
        forall|v: Vec<Json>| v@ == items ==> #[trigger] model(Json::Array(v)) == JsonView::Array(
            Seq::new(items.len(), |k: int| model(items[k])),
        ),
        forall|v: Vec<(String, Json)>| v@ == pairs ==> #[trigger] model(Json::Object(v))
            == JsonView::Object(members(pairs)),
        members(pairs).contains_key(key) <==> exists|k: int|
            0 <= k < pairs.len() && (#[trigger] pairs[k]).0@ == key,
        0 <= i < pairs.len() && pairs[i].0@ == key && (forall|k: int|
            i < k < pairs.len() ==> (#[trigger] pairs[k]).0@ != key) ==> members(pairs)[key]
            == model(pairs[i].1),
{
    list_values(items);
    members_have_the_keys(pairs, key);
    last_member_counts(pairs, key, i);
}

/// The values of a list keep their places.
proof fn list_values(items: Seq<Json>)
    ensures
        elements(items) == Seq::new(items.len(), |k: int| model(items[k])),
    decreases items.len(),
{
    if items.len() > 0 {
        list_values(items.drop_last());
    }
    assert(elements(items) =~= Seq::new(items.len(), |k: int| model(items[k])));
}

/// The last member with a key is the one that counts.
proof fn last_member_counts(pairs: Seq<(String, Json)>, key: Seq<char>, i: int)
    ensures
        0 <= i < pairs.len() && pairs[i].0@ == key && (forall|k: int|
            i < k < pairs.len() ==> (#[trigger] pairs[k]).0@ != key) ==> members(pairs)[key]
            == model(pairs[i].1),
    decreases pairs.len(),
{
    if pairs.len() > 0 && i < pairs.len() - 1 {
        let front = pairs.drop_last();
        last_member_counts(front, key, i);
        if 0 <= i && pairs[i].0@ == key && forall|k: int|
            i < k < pairs.len() ==> (#[trigger] pairs[k]).0@ != key {
            assert forall|k: int| i < k < front.len() implies (#[trigger] front[k]).0@ != key by {
                assert(pairs[k].0@ != key);
            }
            assert(pairs[pairs.len() - 1].0@ != key);
            members_have_the_keys(front, key);
            assert(front[i].0@ == key);
        }
    }
}

} // verus!
