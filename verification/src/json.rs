//! Reading and writing a setting of the workspace configuration by its key
//! path (such as `default_bare` or `projects.app.url`) in the configuration
//! taken as a JSON document.
use vstd::prelude::*;
use vstd::string::*;

use crate::text;

verus! {

/// A JSON document; a number is kept as its text.
pub enum JsonValue {
    Null,
    Bool(bool),
    Number(String),
    Text(String),
    Array(Vec<JsonValue>),
    Object(Vec<(String, JsonValue)>),
}

/// The mathematical value of a [`JsonValue`].
pub enum JsonView {
    Null,
    Bool(bool),
    Number(Seq<char>),
    Text(Seq<char>),
    Array(Seq<JsonView>),
    Object(Seq<(Seq<char>, JsonView)>),
}

/// The value of a document.
pub open spec fn json_view(v: JsonValue) -> JsonView
    decreases v,
{
    match v {
        JsonValue::Null => JsonView::Null,
        JsonValue::Bool(b) => JsonView::Bool(b),
        JsonValue::Number(n) => JsonView::Number(n@),
        JsonValue::Text(s) => JsonView::Text(s@),
        JsonValue::Array(a) => JsonView::Array(items_view(a@)),
        JsonValue::Object(o) => JsonView::Object(members_view(o@)),
    }
}

/// The values of the items of an array.
pub open spec fn items_view(a: Seq<JsonValue>) -> Seq<JsonView>
    decreases a,
{
    if a.len() == 0 {
        Seq::empty()
    } else {
        items_view(a.drop_last()).push(json_view(a.last()))
    }
}

/// The values of the members of an object.
pub open spec fn members_view(o: Seq<(String, JsonValue)>) -> Seq<(Seq<char>, JsonView)>
    decreases o,
{
    if o.len() == 0 {
        Seq::empty()
    } else {
        proof {
            assert(decreases_to!(o => o.last()));
        }
        members_view(o.drop_last()).push((o.last().0@, json_view(o.last().1)))
    }
}

/// The members and their values agree position by position.
pub proof fn lemma_members_view(o: Seq<(String, JsonValue)>)
    ensures
        members_view(o).len() == o.len(),
        forall|i: int|
            0 <= i < o.len() ==> #[trigger] members_view(o)[i] == (o[i].0@, json_view(o[i].1)),
    decreases o.len(),
{
    if o.len() > 0 {
        lemma_members_view(o.drop_last());
    }
}

/// The position of the first member with the given key.
pub open spec fn member_index(ms: Seq<(Seq<char>, JsonView)>, key: Seq<char>) -> Option<int>
    decreases ms.len(),
{
    if ms.len() == 0 {
        None
    } else if ms[0].0 == key {
        Some(0)
    } else {
        match member_index(ms.drop_first(), key) {
            Some(i) => Some(i + 1),
            None => None,
        }
    }
}

/// The found position is that of the first member with the key.
proof fn lemma_member_index(ms: Seq<(Seq<char>, JsonView)>, key: Seq<char>)
    ensures
        match member_index(ms, key) {
            Some(i) => 0 <= i < ms.len() && ms[i].0 == key && forall|j: int| 0 <= j < i ==> ms[j].0 != key,
            None => forall|j: int| 0 <= j < ms.len() ==> ms[j].0 != key,
        },
    decreases ms.len(),
{
    if ms.len() > 0 && ms[0].0 != key {
        let t = ms.drop_first();
        lemma_member_index(t, key);
        assert(forall|j: int| 0 <= j < t.len() ==> t[j] == ms[j + 1]);
        match member_index(t, key) {
            Some(i) => {
                assert(ms[i + 1].0 == key);
                assert forall|j: int| 0 <= j < i + 1 implies ms[j].0 != key by {
                    if j > 0 {
                        assert(t[j - 1] == ms[j]);
                    }
                }
            },
            None => {
                assert forall|j: int| 0 <= j < ms.len() implies ms[j].0 != key by {
                    if j > 0 {
                        assert(t[j - 1] == ms[j]);
                    }
                }
            },
        }
    }
}

/// The value a key path leads to: each key is looked up among the members
/// of the object reached so far; a key that is missing, or a value that is
/// no object, leads nowhere.
pub open spec fn get_in(v: JsonView, keys: Seq<Seq<char>>) -> Option<JsonView>
    decreases keys.len(),
{
    if keys.len() == 0 {
        Some(v)
    } else {
        match v {
            JsonView::Object(ms) => match member_index(ms, keys[0]) {
                Some(i) => get_in(ms[i].1, keys.drop_first()),
                None => None,
            },
            _ => None,
        }
    }
}

/// An object with `key` set to `val`: the first member with the key gets
/// the value in its place, or the member is added at the end.
pub open spec fn put_member(ms: Seq<(Seq<char>, JsonView)>, key: Seq<char>, val: JsonView) -> Seq<(Seq<char>, JsonView)> {
    match member_index(ms, key) {
        Some(i) => ms.update(i, (key, val)),
        None => ms.push((key, val)),
    }
}

/// Whether setting along the key path reaches, at its last key, a value
/// that is neither an object nor null (no key can be set in it).
pub open spec fn set_blocked(v: JsonView, keys: Seq<Seq<char>>) -> bool
    decreases keys.len(),
{
    if keys.len() == 0 {
        false
    } else if keys.len() == 1 {
        !(v is Object || v is Null)
    } else {
        match v {
            JsonView::Object(ms) => match member_index(ms, keys[0]) {
                Some(i) => set_blocked(ms[i].1, keys.drop_first()),
                None => false,
            },
            _ => false,
        }
    }
}

/// The document after setting the value at the key path (the path has at
/// least one key): every key but the last must lead to a member (`Err(k)`
/// tells that the `k`-th, from 0, does not); the last key is set in the
/// object reached, and a null there becomes an object holding just it.
pub open spec fn set_in(v: JsonView, keys: Seq<Seq<char>>, val: JsonView) -> Result<JsonView, int>
    decreases keys.len(),
{
    if keys.len() <= 1 {
        match v {
            JsonView::Object(ms) => Ok(JsonView::Object(put_member(ms, keys[0], val))),
            _ => Ok(JsonView::Object(seq![(keys[0], val)])),
        }
    } else {
        match v {
            JsonView::Object(ms) => match member_index(ms, keys[0]) {
                Some(i) => match set_in(ms[i].1, keys.drop_first(), val) {
                    Ok(c) => Ok(JsonView::Object(ms.update(i, (keys[0], c)))),
                    Err(k) => Err(k + 1),
                },
                None => Err(0),
            },
            _ => Err(0),
        }
    }
}

/// The position of the first member with the given key.
fn member_position(ms: &Vec<(String, JsonValue)>, key: &String) -> (r: Option<usize>)
    ensures
        match r {
            Some(j) => member_index(members_view(ms@), key@) == Some(j as int) && j < ms.len(),
            None => member_index(members_view(ms@), key@) is None,
        },
{
    proof {
        lemma_members_view(ms@);
        lemma_member_index(members_view(ms@), key@);
    }
    let mut j: usize = 0;
    while j < ms.len()
        invariant
            j <= ms.len(),
            members_view(ms@).len() == ms.len(),
            forall|q: int| 0 <= q < ms.len() ==> #[trigger] members_view(ms@)[q] == (ms@[q].0@, json_view(ms@[q].1)),
            forall|q: int| 0 <= q < j ==> members_view(ms@)[q].0 != key@,
        decreases ms.len() - j,
    {
        if ms[j].0 == *key {
            proof {
                lemma_member_index(members_view(ms@), key@);
                assert(members_view(ms@)[j as int].0 == key@);
                match member_index(members_view(ms@), key@) {
                    Some(i0) => {
                        if i0 < j {
                            assert(members_view(ms@)[i0].0 != key@);
                        }
                        if i0 > j {
                            assert(false);
                        }
                    },
                    None => {
                        assert(members_view(ms@)[j as int].0 != key@);
                    },
                }
            }
            return Some(j);
        }
        j += 1;
    }
    None
}

/// The value at a key path, if the path leads to one.
pub fn get_path<'a>(v: &'a JsonValue, keys: &Vec<String>) -> (r: Option<&'a JsonValue>)
    ensures
        match r {
            Some(x) => get_in(json_view(*v), text::strings_view(keys@)) == Some(json_view(*x)),
            None => get_in(json_view(*v), text::strings_view(keys@)) is None,
        },
{
    let ghost kv = text::strings_view(keys@);
    let mut cur: &JsonValue = v;
    let mut i: usize = 0;
    assert(kv.skip(0) =~= kv);
    while i < keys.len()
        invariant
            i <= keys.len(),
            kv == text::strings_view(keys@),
            get_in(json_view(*v), kv) == get_in(json_view(*cur), kv.skip(i as int)),
        decreases keys.len() - i,
    {
        assert(kv.skip(i as int)[0] == keys@[i as int]@);
        assert(kv.skip(i as int).drop_first() =~= kv.skip(i + 1));
        match cur {
            JsonValue::Object(ms) => {
                match member_position(ms, &keys[i]) {
                    Some(j) => {
                        proof {
                            lemma_members_view(ms@);
                        }
                        cur = &ms[j].1;
                    },
                    None => {
                        return None;
                    },
                }
            },
            _ => {
                return None;
            },
        }
        i += 1;
    }
    assert(kv.skip(keys.len() as int).len() == 0);
    Some(cur)
}

/// Viewing members commutes with replacing one.
proof fn lemma_members_view_update(o: Seq<(String, JsonValue)>, j: int, m: (String, JsonValue))
    requires
        0 <= j < o.len(),
    ensures
        members_view(o.update(j, m)) == members_view(o).update(j, (m.0@, json_view(m.1))),
{
    lemma_members_view(o);
    lemma_members_view(o.update(j, m));
    assert(members_view(o.update(j, m)) =~= members_view(o).update(j, (m.0@, json_view(m.1))));
}

/// Viewing members commutes with appending one.
proof fn lemma_members_view_push(o: Seq<(String, JsonValue)>, m: (String, JsonValue))
    ensures
        members_view(o.push(m)) == members_view(o).push((m.0@, json_view(m.1))),
{
    assert(o.push(m).drop_last() =~= o);
}

/// Whether no key can be set at the end of the key path (see
/// [`set_blocked`]).
pub fn set_would_block(v: &JsonValue, keys: &Vec<String>) -> (r: bool)
    ensures
        r == set_blocked(json_view(*v), text::strings_view(keys@)),
{
    let ghost kv = text::strings_view(keys@);
    if keys.len() == 0 {
        return false;
    }
    let mut cur: &JsonValue = v;
    let mut i: usize = 0;
    assert(kv.skip(0) =~= kv);
    while i + 1 < keys.len()
        invariant
            i < keys.len(),
            kv == text::strings_view(keys@),
            set_blocked(json_view(*v), kv) == set_blocked(json_view(*cur), kv.skip(i as int)),
        decreases keys.len() - i,
    {
        assert(kv.skip(i as int)[0] == keys@[i as int]@);
        assert(kv.skip(i as int).drop_first() =~= kv.skip(i + 1));
        match cur {
            JsonValue::Object(ms) => {
                match member_position(ms, &keys[i]) {
                    Some(j) => {
                        proof {
                            lemma_members_view(ms@);
                        }
                        cur = &ms[j].1;
                    },
                    None => {
                        return false;
                    },
                }
            },
            _ => {
                return false;
            },
        }
        i += 1;
    }
    assert(kv.skip(i as int).len() == 1);
    match cur {
        JsonValue::Object(_) => false,
        JsonValue::Null => false,
        _ => true,
    }
}

/// Sets the value at the key path from its `k`-th key on (see [`set_in`]).
fn set_from(v: JsonValue, keys: &Vec<String>, k: usize, val: JsonValue) -> (r: Result<JsonValue, usize>)
    requires
        k < keys.len(),
        !set_blocked(json_view(v), text::strings_view(keys@).skip(k as int)),
    ensures
        match r {
            Ok(x) => set_in(json_view(v), text::strings_view(keys@).skip(k as int), json_view(val)) == Ok::<
                JsonView,
                int,
            >(json_view(x)),
            Err(e) => set_in(json_view(v), text::strings_view(keys@).skip(k as int), json_view(val)) == Err::<
                JsonView,
                int,
            >(e as int) && e < keys.len() - k,
        },
    decreases keys.len() - k,
{
    let ghost kv = text::strings_view(keys@).skip(k as int);
    assert(kv[0] == keys@[k as int]@);
    let ghost vv = json_view(val);
    if k + 1 == keys.len() {
        match v {
            JsonValue::Object(ms) => {
                let mut ms = ms;
                let ghost before = ms@;
                proof {
                    lemma_members_view(before);
                }
                match member_position(&ms, &keys[k]) {
                    Some(j) => {
                        let m = (keys[k].clone(), val);
                        ms.set(j, m);
                        proof {
                            lemma_members_view_update(before, j as int, m);
                        }
                    },
                    None => {
                        let m = (keys[k].clone(), val);
                        ms.push(m);
                        proof {
                            lemma_members_view_push(before, m);
                        }
                    },
                }
                assert(members_view(ms@) == put_member(members_view(before), kv[0], vv));
                Ok(JsonValue::Object(ms))
            },
            _ => {
                let mut ms: Vec<(String, JsonValue)> = Vec::new();
                let m = (keys[k].clone(), val);
                let ghost empty = ms@;
                ms.push(m);
                proof {
                    lemma_members_view_push(empty, m);
                    assert(members_view(empty) =~= Seq::<(Seq<char>, JsonView)>::empty());
                    assert(members_view(ms@) =~= seq![(kv[0], vv)]);
                }
                Ok(JsonValue::Object(ms))
            },
        }
    } else {
        assert(kv.drop_first() =~= text::strings_view(keys@).skip(k + 1));
        match v {
            JsonValue::Object(ms) => {
                let mut ms = ms;
                let ghost before = ms@;
                proof {
                    lemma_members_view(before);
                }
                match member_position(&ms, &keys[k]) {
                    Some(j) => {
                        let (key, child) = ms.remove(j);
                        assert(json_view(child) == members_view(before)[j as int].1);
                        match set_from(child, keys, k + 1, val) {
                            Ok(c) => {
                                let m = (key, c);
                                ms.insert(j, m);
                                proof {
                                    assert(ms@ =~= before.update(j as int, m));
                                    lemma_members_view_update(before, j as int, m);
                                    lemma_member_index(members_view(before), keys@[k as int]@);
                                    assert(key@ == kv[0]);
                                }
                                Ok(JsonValue::Object(ms))
                            },
                            Err(e) => Err(e + 1),
                        }
                    },
                    None => Err(0),
                }
            },
            _ => Err(0),
        }
    }
}

/// The document after setting the value at the key path (see [`set_in`]):
/// `Err(k)` tells that the `k`-th key (from 0) names no member. The path
/// must not end at a value in which no key can be set (see
/// [`set_would_block`]).
pub fn set_path(v: JsonValue, keys: &Vec<String>, val: JsonValue) -> (r: Result<JsonValue, usize>)
    requires
        keys.len() > 0,
        !set_blocked(json_view(v), text::strings_view(keys@)),
    ensures
        match r {
            Ok(x) => set_in(json_view(v), text::strings_view(keys@), json_view(val)) == Ok::<JsonView, int>(
                json_view(x),
            ),
            Err(e) => set_in(json_view(v), text::strings_view(keys@), json_view(val)) == Err::<JsonView, int>(
                e as int,
            ) && e < keys.len(),
        },
{
    assert(text::strings_view(keys@).skip(0) =~= text::strings_view(keys@));
    set_from(v, keys, 0, val)
}

/// The value given for a setting: the JSON it parses as, or else the text
/// itself.
pub fn value_or_text(parsed: Option<JsonValue>, raw: &str) -> (r: JsonValue)
    ensures
        json_view(r) == match parsed {
            Some(p) => json_view(p),
            None => JsonView::Text(raw@),
        },
{
    match parsed {
        Some(p) => p,
        None => JsonValue::Text(String::from_str(raw)),
    }
}

/// The keys of a key path: the pieces between its dots.
pub fn key_path(key: &str) -> (r: Vec<String>)
    ensures
        text::strings_view(r@) == text::split_on(key@, '.'),
        r.len() > 0,
{
    let parts = text::chars_split(&text::chars_of(key), '.');
    let ghost ps = text::seqs_view(parts@);
    proof {
        text::lemma_split_nonempty(key@, '.');
    }
    let mut r: Vec<String> = Vec::new();
    let mut i: usize = 0;
    assert(text::strings_view(r@) =~= ps.take(0));
    while i < parts.len()
        invariant
            i <= parts.len(),
            ps == text::seqs_view(parts@),
            text::strings_view(r@) == ps.take(i as int),
            r.len() == i,
        decreases parts.len() - i,
    {
        let ghost before = r@;
        let piece = text::string_of(&parts[i]);
        r.push(piece);
        proof {
            text::lemma_strings_view_push(before, piece);
        }
        assert(ps.take(i + 1) =~= ps.take(i as int).push(ps[i as int]));
        i += 1;
    }
    assert(ps.take(parts.len() as int) =~= ps);
    r
}

/// The first `n` keys of a key path joined with dots (how a missing key is
/// reported).
pub open spec fn dotted(keys: Seq<Seq<char>>) -> Seq<char>
    decreases keys.len(),
{
    if keys.len() == 0 {
        Seq::empty()
    } else if keys.len() == 1 {
        keys[0]
    } else {
        dotted(keys.drop_last()) + seq!['.'] + keys.last()
    }
}

/// The keys of the path up to and including the `k`-th, joined with dots.
pub fn path_up_to(keys: &Vec<String>, k: usize) -> (r: String)
    requires
        k < keys.len(),
    ensures
        r@ == dotted(text::strings_view(keys@).take(k + 1)),
{
    let ghost kv = text::strings_view(keys@);
    let mut v: Vec<char> = Vec::new();
    let mut i: usize = 0;
    assert(kv.take(0) =~= Seq::<Seq<char>>::empty());
    while i <= k
        invariant
            i <= k + 1,
            k < keys.len(),
            kv == text::strings_view(keys@),
            v@ == dotted(kv.take(i as int)),
        decreases k + 1 - i,
    {
        let ghost t = kv.take(i + 1);
        assert(t.drop_last() =~= kv.take(i as int));
        assert(t.last() == keys@[i as int]@);
        if i > 0 {
            v.push('.');
        }
        let w = text::chars_of(keys[i].as_str());
        let ghost start = v@;
        let mut j: usize = 0;
        while j < w.len()
            invariant
                j <= w.len(),
                v@ == start + w@.take(j as int),
            decreases w.len() - j,
        {
            v.push(w[j]);
            assert(start + w@.take(j + 1) =~= (start + w@.take(j as int)).push(w@[j as int]));
            j += 1;
        }
        assert(w@.take(w.len() as int) =~= w@);
        assert(v@ =~= dotted(t));
        i += 1;
    }
    text::string_of(&v)
}

/// The first member with a key is found at its position.
proof fn lemma_member_index_at(ms: Seq<(Seq<char>, JsonView)>, key: Seq<char>, i: int)
    requires
        0 <= i < ms.len(),
        ms[i].0 == key,
        forall|j: int| 0 <= j < i ==> ms[j].0 != key,
    ensures
        member_index(ms, key) == Some(i),
{
    lemma_member_index(ms, key);
    match member_index(ms, key) {
        Some(i0) => {
            if i0 < i {
                assert(ms[i0].0 != key);
            }
            if i0 > i {
                assert(ms[i].0 != key);
            }
        },
        None => {
            assert(ms[i].0 != key);
        },
    }
}

/// Setting a key of an object and then looking it up gives the value set.
proof fn lemma_put_then_find(ms: Seq<(Seq<char>, JsonView)>, key: Seq<char>, val: JsonView)
    ensures
        member_index(put_member(ms, key, val), key) matches Some(i) && put_member(ms, key, val)[i].1 == val,
{
    lemma_member_index(ms, key);
    let p = put_member(ms, key, val);
    match member_index(ms, key) {
        Some(i) => {
            lemma_member_index_at(p, key, i);
        },
        None => {
            lemma_member_index_at(p, key, ms.len() as int);
        },
    }
}

/// What is written at a key path is read back there: once a setting is
/// written, reading the same key path gives the value written.
pub proof fn law_set_then_get(v: JsonView, keys: Seq<Seq<char>>, val: JsonView)
    requires
        keys.len() > 0,
        set_in(v, keys, val) is Ok,
    ensures
        set_in(v, keys, val) matches Ok(x) && get_in(x, keys) == Some(val),
    decreases keys.len(),
{
    if keys.len() == 1 {
        assert(keys.drop_first().len() == 0);
        match v {
            JsonView::Object(ms) => {
                lemma_put_then_find(ms, keys[0], val);
                let p = put_member(ms, keys[0], val);
                let i = member_index(p, keys[0]).unwrap();
                assert(get_in(p[i].1, keys.drop_first()) == Some(p[i].1));
                assert(set_in(v, keys, val) == Ok::<JsonView, int>(JsonView::Object(p)));
            },
            _ => {
                let p = seq![(keys[0], val)];
                lemma_member_index_at(p, keys[0], 0);
                assert(get_in(p[0].1, keys.drop_first()) == Some(p[0].1));
                assert(set_in(v, keys, val) == Ok::<JsonView, int>(JsonView::Object(p)));
            },
        }
    } else {
        match v {
            JsonView::Object(ms) => {
                lemma_member_index(ms, keys[0]);
                let i = member_index(ms, keys[0]).unwrap();
                law_set_then_get(ms[i].1, keys.drop_first(), val);
                let c = match set_in(ms[i].1, keys.drop_first(), val) {
                    Ok(c) => c,
                    Err(_) => val,
                };
                let u = ms.update(i, (keys[0], c));
                lemma_member_index_at(u, keys[0], i);
                assert(set_in(v, keys, val) == Ok::<JsonView, int>(JsonView::Object(u)));
                assert(u[i].1 == c);
            },
            _ => {},
        }
    }
}

/// Two member lists with the same keys at the same places, where the second
/// may have more members, none of them with `k`, find `k` at the same place.
proof fn lemma_member_index_same_keys(ms: Seq<(Seq<char>, JsonView)>, u: Seq<(Seq<char>, JsonView)>, k: Seq<char>)
    requires
        ms.len() <= u.len(),
        forall|j: int| 0 <= j < ms.len() ==> (#[trigger] u[j]).0 == ms[j].0,
        forall|j: int| ms.len() <= j < u.len() ==> (#[trigger] u[j]).0 != k,
    ensures
        member_index(u, k) == member_index(ms, k),
{
    lemma_member_index(ms, k);
    lemma_member_index(u, k);
    match member_index(ms, k) {
        Some(i) => {
            assert(u[i].0 == ms[i].0);
            assert forall|j: int| 0 <= j < i implies u[j].0 != k by {
                assert(u[j].0 == ms[j].0);
            }
            lemma_member_index_at(u, k, i);
        },
        None => {
            if let Some(i) = member_index(u, k) {
                if i < ms.len() {
                    assert(u[i].0 == ms[i].0);
                }
            }
        },
    }
}

/// Setting `key` in an object leaves every other key where it was, with its
/// value: looking up a different key finds the same member as before.
pub proof fn law_put_member_keeps_other_keys(ms: Seq<(Seq<char>, JsonView)>, key: Seq<char>, val: JsonView, k: Seq<char>)
    requires
        k != key,
    ensures
        put_member(ms, key, val).len() >= ms.len(),
        member_index(put_member(ms, key, val), k) == member_index(ms, k),
        member_index(ms, k) matches Some(j) ==> put_member(ms, key, val)[j] == ms[j],
{
    lemma_member_index(ms, key);
    lemma_member_index(ms, k);
    let u = put_member(ms, key, val);
    match member_index(ms, key) {
        Some(i) => {
            assert forall|j: int| 0 <= j < ms.len() implies (#[trigger] u[j]).0 == ms[j].0 by {
                if j == i {
                    assert(ms[i].0 == key);
                }
            }
            lemma_member_index_same_keys(ms, u, k);
            if let Some(j) = member_index(ms, k) {
                assert(j != i);
            }
        },
        None => {
            assert forall|j: int| 0 <= j < ms.len() implies (#[trigger] u[j]).0 == ms[j].0 by {}
            assert forall|j: int| ms.len() <= j < u.len() implies (#[trigger] u[j]).0 != k by {
                assert(u[j].0 == key);
            }
            lemma_member_index_same_keys(ms, u, k);
        },
    }
}

/// Setting a value at a key path changes nothing at any other key path that
/// leaves it: where `ks` agrees with `keys` on the first `d` keys and differs
/// at the `d`-th, reading `ks` gives after the setting what it gave before
/// (the other members of every object along the way are kept).
pub proof fn law_set_keeps_other_paths(
    v: JsonView,
    keys: Seq<Seq<char>>,
    val: JsonView,
    ks: Seq<Seq<char>>,
    d: int,
)
    requires
        0 <= d < keys.len(),
        d < ks.len(),
        ks[d] != keys[d],
        ks.take(d) == keys.take(d),
        set_in(v, keys, val) is Ok,
    ensures
        set_in(v, keys, val) matches Ok(x) && get_in(x, ks) == get_in(v, ks),
    decreases keys.len(),
{
    assert(ks.len() > 0);
    if keys.len() == 1 {
        assert(d == 0);
        match v {
            JsonView::Object(ms) => {
                law_put_member_keeps_other_keys(ms, keys[0], val, ks[0]);
                let p = put_member(ms, keys[0], val);
                assert(set_in(v, keys, val) == Ok::<JsonView, int>(JsonView::Object(p)));
            },
            _ => {
                let p = seq![(keys[0], val)];
                lemma_member_index(p, ks[0]);
                assert(p[0].0 != ks[0]);
                assert(member_index(p, ks[0]) is None);
                assert(set_in(v, keys, val) == Ok::<JsonView, int>(JsonView::Object(p)));
            },
        }
    } else {
        match v {
            JsonView::Object(ms) => {
                lemma_member_index(ms, keys[0]);
                let i = member_index(ms, keys[0]).unwrap();
                let c = match set_in(ms[i].1, keys.drop_first(), val) {
                    Ok(c) => c,
                    Err(_) => val,
                };
                let u = ms.update(i, (keys[0], c));
                assert(set_in(v, keys, val) == Ok::<JsonView, int>(JsonView::Object(u)));
                assert forall|j: int| 0 <= j < ms.len() implies (#[trigger] u[j]).0 == ms[j].0 by {}
                lemma_member_index_same_keys(ms, u, ks[0]);
                lemma_member_index(ms, ks[0]);
                if d == 0 {
                    if let Some(j) = member_index(ms, ks[0]) {
                        assert(j != i);
                        assert(u[j] == ms[j]);
                    }
                } else {
                    assert(ks[0] == keys[0]) by {
                        assert(ks.take(d)[0] == keys.take(d)[0]);
                    }
                    let ka = ks.drop_first().take(d - 1);
                    let kb = keys.drop_first().take(d - 1);
                    assert forall|m: int| 0 <= m < d - 1 implies #[trigger] ka[m] == kb[m] by {
                        assert(ks.take(d)[m + 1] == keys.take(d)[m + 1]);
                    }
                    assert(ka =~= kb);
                    law_set_keeps_other_paths(ms[i].1, keys.drop_first(), val, ks.drop_first(), d - 1);
                    assert(u[i].1 == c);
                }
            },
            _ => {},
        }
    }
}

} // verus!
