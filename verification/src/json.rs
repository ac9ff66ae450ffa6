//! JSON answers of search services, as plain values, and reading them.
//!
//! A [`JsonValue`] holds a parsed JSON document. An object keeps its members
//! in the order of the parsed map; a number keeps its text and, when it is
//! an integer that fits, its value.
use vstd::prelude::*;
use crate::items::{new_item_view, resource_item};
use crate::links::{exact_match_ok, matches_exact};
use crate::model::{item_views, views, ItemView, MediaCandidate, MediaView, ResourceItem, SearchSource};
use crate::requests::{json_quoted, json_string};
use crate::text::{clean, clean_text, concat2, concat3, i64_to_string, is_blank, is_blank_str, join, owned, same_text, signed_decimal};

verus! {

/// A JSON number: its text, and its value when it is an integer within `i64`.
#[derive(Debug, Clone)]
pub struct JsonNumber {
    pub int: Option<i64>,
    pub text: String,
}

/// A JSON value.
#[derive(Debug)]
pub enum JsonValue {
    Null,
    Bool(bool),
    Number(JsonNumber),
    Str(String),
    Array(Vec<JsonValue>),
    Object(Vec<(String, JsonValue)>),
}

/// The member `key` of an object: the first one of that name.
pub open spec fn member(entries: Seq<(String, JsonValue)>, key: Seq<char>) -> Option<JsonValue>
    decreases entries.len(),
{
    if entries.len() == 0 {
        None
    } else if entries[0].0@ == key {
        Some(entries[0].1)
    } else {
        member(entries.drop_first(), key)
    }
}

/// The member `key` of `v` when `v` is an object (`Value::get`).
pub open spec fn get(v: JsonValue, key: Seq<char>) -> Option<JsonValue> {
    match v {
        JsonValue::Object(entries) => member(entries@, key),
        _ => None,
    }
}

/// The value reached from `v` through the members `keys`, in turn.
pub open spec fn at_path(v: JsonValue, keys: Seq<Seq<char>>) -> Option<JsonValue>
    decreases keys.len(),
{
    if keys.len() == 0 {
        Some(v)
    } else {
        match get(v, keys[0]) {
            Some(c) => at_path(c, keys.drop_first()),
            None => None,
        }
    }
}

/// The text of `v` when it is a string.
pub open spec fn as_str(v: Option<JsonValue>) -> Option<Seq<char>> {
    match v {
        Some(JsonValue::Str(s)) => Some(s@),
        _ => None,
    }
}

/// The text of `v` when it is a string, else the empty text.
pub open spec fn str_or_empty(v: Option<JsonValue>) -> Seq<char> {
    match as_str(v) {
        Some(s) => s,
        None => seq![],
    }
}

/// The elements of `v` when it is an array.
pub open spec fn as_array(v: Option<JsonValue>) -> Option<Seq<JsonValue>> {
    match v {
        Some(JsonValue::Array(items)) => Some(items@),
        _ => None,
    }
}

/// The elements of `v` when it is an array, else none.
pub open spec fn array_or_empty(v: Option<JsonValue>) -> Seq<JsonValue> {
    match as_array(v) {
        Some(items) => items,
        None => seq![],
    }
}

/// The member `key` of an object.
pub fn json_member<'a>(entries: &'a Vec<(String, JsonValue)>, key: &str) -> (r: Option<&'a JsonValue>)
    ensures
        match r {
            Some(c) => member(entries@, key@) == Some(*c),
            None => member(entries@, key@) is None,
        },
{
    assert(entries@.subrange(0, entries@.len() as int) == entries@);
    let mut i: usize = 0;
    while i < entries.len()
        invariant
            i <= entries.len(),
            member(entries@, key@) == member(entries@.subrange(i as int, entries@.len() as int), key@),
        decreases entries.len() - i,
    {
        let ghost t = entries@.subrange(i as int, entries@.len() as int);
        assert(t[0] == entries@[i as int]);
        if same_text(entries[i].0.as_str(), key) {
            return Some(&entries[i].1);
        }
        assert(t.drop_first() == entries@.subrange(i + 1, entries@.len() as int));
        i += 1;
    }
    None
}

/// The member `key` of `value` when it is an object.
pub fn json_get<'a>(value: &'a JsonValue, key: &str) -> (r: Option<&'a JsonValue>)
    ensures
        match r {
            Some(c) => get(*value, key@) == Some(*c),
            None => get(*value, key@) is None,
        },
{
    match value {
        JsonValue::Object(entries) => json_member(entries, key),
        _ => None,
    }
}

/// The value reached from `value` through the members `first` then `second`.
pub fn json_at2<'a>(value: &'a JsonValue, first: &str, second: &str) -> (r: Option<&'a JsonValue>)
    ensures
        match r {
            Some(c) => at_path(*value, seq![first@, second@]) == Some(*c),
            None => at_path(*value, seq![first@, second@]) is None,
        },
{
    assert(seq![first@, second@].drop_first() =~= seq![second@]);
    assert(seq![second@].drop_first() =~= Seq::<Seq<char>>::empty());
    proof {
        reveal_with_fuel(at_path, 3);
    }
    match json_get(value, first) {
        Some(c) => json_get(c, second),
        None => None,
    }
}

/// The text of a string value.
pub fn json_as_str(value: Option<&JsonValue>) -> (r: Option<&str>)
    ensures
        match r {
            Some(s) => as_str(match value {
                Some(v) => Some(*v),
                None => None,
            }) == Some(s@),
            None => as_str(match value {
                Some(v) => Some(*v),
                None => None,
            }) is None,
        },
{
    match value {
        Some(JsonValue::Str(s)) => Some(s.as_str()),
        _ => None,
    }
}

/// The integer value of `v` when it is a number that is an integer within `i64`.
pub open spec fn int_of(v: Option<JsonValue>) -> Option<i64> {
    match v {
        Some(JsonValue::Number(n)) => n.int,
        _ => None,
    }
}

/// The first of the members `keys` of `v` that is a non-blank string (as it
/// is) or an integer (in decimal); none when there is none.
pub open spec fn first_string_of(v: JsonValue, keys: Seq<Seq<char>>) -> Option<Seq<char>>
    decreases keys.len(),
{
    if keys.len() == 0 {
        None
    } else {
        let m = get(v, keys[0]);
        if as_str(m).is_some() && !is_blank(as_str(m).unwrap()) {
            as_str(m)
        } else if int_of(m).is_some() {
            Some(signed_decimal(int_of(m).unwrap() as int))
        } else {
            first_string_of(v, keys.drop_first())
        }
    }
}

/// The first of the members `keys` of `value` that is a non-blank string or
/// an integer, as text.
pub fn first_json_string(value: &JsonValue, keys: &[&str]) -> (r: Option<String>)
    ensures
        match r {
            Some(s) => first_string_of(*value, keys@.map_values(|k: &str| k@)) == Some(s@),
            None => first_string_of(*value, keys@.map_values(|k: &str| k@)) is None,
        },
{
    let ghost ks = keys@.map_values(|k: &str| k@);
    assert(ks.subrange(0, ks.len() as int) == ks);
    let mut i: usize = 0;
    while i < keys.len()
        invariant
            i <= keys@.len(),
            ks == keys@.map_values(|k: &str| k@),
            first_string_of(*value, ks) == first_string_of(*value, ks.subrange(i as int, ks.len() as int)),
        decreases keys.len() - i,
    {
        let ghost t = ks.subrange(i as int, ks.len() as int);
        assert(t[0] == keys@[i as int]@);
        let m = json_get(value, keys[i]);
        if let Some(JsonValue::Str(text)) = m {
            if !is_blank_str(text.as_str()) {
                return Some(text.clone());
            }
        }
        if let Some(JsonValue::Number(n)) = m {
            if let Some(k) = n.int {
                return Some(i64_to_string(k));
            }
        }
        assert(t.drop_first() == ks.subrange(i + 1, ks.len() as int));
        i += 1;
    }
    None
}

/// The compact JSON text of `v`, members in their order (`Value::to_string`).
pub open spec fn json_text_of(v: JsonValue) -> Seq<char>
    decreases v,
{
    match v {
        JsonValue::Null => "null"@,
        JsonValue::Bool(b) => if b {
            "true"@
        } else {
            "false"@
        },
        JsonValue::Number(n) => n.text@,
        JsonValue::Str(s) => json_quoted(s@),
        JsonValue::Array(items) => "["@ + elements_text(items@) + "]"@,
        JsonValue::Object(entries) => "{"@ + members_text(entries@) + "}"@,
    }
}

/// The JSON texts of `items`, separated by commas.
pub open spec fn elements_text(items: Seq<JsonValue>) -> Seq<char>
    decreases items,
{
    if items.len() == 0 {
        seq![]
    } else if items.len() == 1 {
        json_text_of(items[0])
    } else {
        elements_text(items.subrange(0, items.len() - 1)) + ","@ + json_text_of(items[items.len() - 1])
    }
}

/// The JSON texts of the members `entries`, separated by commas.
pub open spec fn members_text(entries: Seq<(String, JsonValue)>) -> Seq<char>
    decreases entries,
{
    if entries.len() == 0 {
        seq![]
    } else if entries.len() == 1 {
        json_quoted(entries[0].0@) + ":"@ + json_text_of(entries[0].1)
    } else {
        members_text(entries.subrange(0, entries.len() - 1)) + ","@ + json_quoted(entries[entries.len() - 1].0@)
            + ":"@ + json_text_of(entries[entries.len() - 1].1)
    }
}

/// The compact JSON text of `value`.
pub fn json_to_text(value: &JsonValue) -> (r: String)
    ensures
        r@ == json_text_of(*value),
    decreases value,
{
    match value {
        JsonValue::Null => owned("null"),
        JsonValue::Bool(b) => if *b {
            owned("true")
        } else {
            owned("false")
        },
        JsonValue::Number(n) => n.text.clone(),
        JsonValue::Str(s) => json_string(s.as_str()),
        JsonValue::Array(items) => {
            let mut body = String::new();
            let mut i: usize = 0;
            while i < items.len()
                invariant
                    i <= items.len(),
                    *value == JsonValue::Array(*items),
                    body@ == elements_text(items@.subrange(0, i as int)),
                decreases items.len() - i,
            {
                assert(items@.subrange(0, i + 1).subrange(0, i as int) == items@.subrange(0, i as int));
                if i > 0 {
                    body.append(",");
                }
                proof {
                    assert(decreases_to!(*value => (*value)->Array_0));
                    assert(decreases_to!(*items => items@));
                    assert(decreases_to!(items@ => items@[i as int]));
                }
                let t = json_to_text(&items[i]);
                body.append(t.as_str());
                i += 1;
            }
            assert(items@.subrange(0, items@.len() as int) == items@);
            let r = concat2("[", body.as_str());
            concat2(r.as_str(), "]")
        },
        JsonValue::Object(entries) => {
            let mut body = String::new();
            let mut i: usize = 0;
            while i < entries.len()
                invariant
                    i <= entries.len(),
                    *value == JsonValue::Object(*entries),
                    body@ == members_text(entries@.subrange(0, i as int)),
                decreases entries.len() - i,
            {
                assert(entries@.subrange(0, i + 1).subrange(0, i as int) == entries@.subrange(0, i as int));
                if i > 0 {
                    body.append(",");
                }
                let k = json_string(entries[i].0.as_str());
                body.append(k.as_str());
                body.append(":");
                proof {
                    assert(decreases_to!(*value => (*value)->Object_0));
                    assert(decreases_to!(*entries => entries@));
                    assert(decreases_to!(entries@ => entries@[i as int]));
                    assert(decreases_to!(entries@[i as int] => entries@[i as int].1));
                }
                let t = json_to_text(&entries[i].1);
                body.append(t.as_str());
                i += 1;
            }
            assert(entries@.subrange(0, entries@.len() as int) == entries@);
            let r = concat2("{", body.as_str());
            concat2(r.as_str(), "}")
        },
    }
}

/// The string elements of `items`, in order.
pub open spec fn string_items(items: Seq<JsonValue>) -> Seq<Seq<char>>
    decreases items.len(),
{
    if items.len() == 0 {
        seq![]
    } else {
        match items.last() {
            JsonValue::Str(t) => string_items(items.drop_last()).push(t@),
            _ => string_items(items.drop_last()),
        }
    }
}

/// The cleaned texts `ts`.
pub open spec fn cleaned(ts: Seq<Seq<char>>) -> Seq<Seq<char>> {
    ts.map_values(|t: Seq<char>| clean(t))
}

/// A value shown as text: the cleaned strings of an array, one per line; a
/// cleaned string; the cleaned JSON text of anything else; nothing for no value.
pub open spec fn json_text_spec(v: Option<JsonValue>) -> Seq<char> {
    match v {
        Some(JsonValue::Array(items)) => join(cleaned(string_items(items@)), "\n"@),
        Some(JsonValue::Str(t)) => clean(t@),
        Some(other) => clean(json_text_of(other)),
        None => seq![],
    }
}

/// A value shown as text.
pub fn json_text(value: Option<&JsonValue>) -> (r: String)
    ensures
        r@ == json_text_spec(
            match value {
                Some(v) => Some(*v),
                None => None,
            },
        ),
{
    match value {
        Some(JsonValue::Array(items)) => {
            let mut out = String::new();
            let mut count: usize = 0;
            let mut i: usize = 0;
            while i < items.len()
                invariant
                    i <= items.len(),
                    count <= i,
                    count == string_items(items@.subrange(0, i as int)).len(),
                    out@ == join(cleaned(string_items(items@.subrange(0, i as int))), "\n"@),
                decreases items.len() - i,
            {
                assert(items@.subrange(0, i + 1).drop_last() == items@.subrange(0, i as int));
                if let JsonValue::Str(t) = &items[i] {
                    let ghost before = string_items(items@.subrange(0, i as int));
                    assert(cleaned(before.push(t@)) =~= cleaned(before).push(clean(t@)));
                    assert(cleaned(before.push(t@)).drop_last() =~= cleaned(before));
                    if count > 0 {
                        out.append("\n");
                    }
                    out.append(clean_text(t.as_str()).as_str());
                    count = count + 1;
                }
                i += 1;
            }
            assert(items@.subrange(0, items@.len() as int) == items@);
            out
        },
        Some(JsonValue::Str(t)) => clean_text(t.as_str()),
        Some(other) => clean_text(json_to_text(other).as_str()),
        None => String::new(),
    }
}

/// The non-empty texts of `ts`, in order.
pub open spec fn nonempty_texts(ts: Seq<Seq<char>>) -> Seq<Seq<char>>
    decreases ts.len(),
{
    if ts.len() == 0 {
        seq![]
    } else if ts.last().len() == 0 {
        nonempty_texts(ts.drop_last())
    } else {
        nonempty_texts(ts.drop_last()).push(ts.last())
    }
}

/// The non-empty texts of `ts`, in order.
pub fn keep_nonempty(ts: Vec<String>) -> (r: Vec<String>)
    ensures
        views(r@) == nonempty_texts(views(ts@)),
{
    let mut out: Vec<String> = Vec::new();
    let mut i: usize = 0;
    while i < ts.len()
        invariant
            i <= ts.len(),
            views(out@) == nonempty_texts(views(ts@).subrange(0, i as int)),
        decreases ts.len() - i,
    {
        assert(views(ts@).subrange(0, i + 1).drop_last() == views(ts@).subrange(0, i as int));
        if !ts[i].as_str().is_empty() {
            let ghost before = views(out@);
            out.push(ts[i].clone());
            assert(views(out@) =~= before.push(ts@[i as int]@));
        }
        i += 1;
    }
    assert(views(ts@).subrange(0, ts@.len() as int) == views(ts@));
    out
}

/// The hunhepan result `v`, the `index`-th of its list, unless it fails the
/// exact-match filter: its cleaned drive name as title, its files as info,
/// its `url` (else its `link`) as link, its `link` as final link, and its
/// cleaned drive type and sharer.
pub open spec fn hunhepan_item_of(source_id: Seq<char>, source_name: Seq<char>, v: JsonValue, index: nat, query: Seq<char>, exact: bool) -> Option<ItemView> {
    let title = clean(str_or_empty(get(v, "disk_name"@)));
    let info = json_text_spec(get(v, "files"@));
    let link = str_or_empty(get(v, "link"@));
    let url = match as_str(get(v, "url"@)) {
        Some(u) => u,
        None => link,
    };
    if !exact_match_ok(title, info, query, exact) {
        None
    } else {
        Some(
            new_item_view(
                source_id,
                source_name,
                index,
                title,
                info,
                url,
                link,
                seq![],
                clean(str_or_empty(get(v, "disk_type"@))),
                clean(str_or_empty(get(v, "share_user"@))),
                seq![],
            ),
        )
    }
}

/// The text of a string member, else the empty text.
fn member_str(value: &JsonValue, key: &str) -> (r: String)
    ensures
        r@ == str_or_empty(get(*value, key@)),
{
    match json_as_str(json_get(value, key)) {
        Some(t) => owned(t),
        None => String::new(),
    }
}

/// The hunhepan result `value`, the `index`-th of its list.
pub fn hunhepan_item(source: &SearchSource, value: &JsonValue, index: usize, query: &str, exact: bool) -> (r: Option<
    ResourceItem,
>)
    ensures
        match r {
            Some(i) => hunhepan_item_of(source@.id, source@.name, *value, index as nat, query@, exact) == Some(i@),
            None => hunhepan_item_of(source@.id, source@.name, *value, index as nat, query@, exact) is None,
        },
{
    let title = clean_text(member_str(value, "disk_name").as_str());
    let info = json_text(json_get(value, "files"));
    if !matches_exact(title.as_str(), info.as_str(), query, exact) {
        return None;
    }
    let disk_type = clean_text(member_str(value, "disk_type").as_str());
    let share_user = clean_text(member_str(value, "share_user").as_str());
    let link = member_str(value, "link");
    let url = match json_as_str(json_get(value, "url")) {
        Some(u) => owned(u),
        None => link.clone(),
    };
    proof {
        reveal_strlit("");
    }
    let no_tags: Vec<String> = Vec::new();
    assert(views(no_tags@) =~= Seq::<Seq<char>>::empty());
    Some(resource_item(source, index, title, info, url, link, String::new(), disk_type, share_user, no_tags))
}

/// The results of the hunhepan list `list`, in order, those that pass.
pub open spec fn hunhepan_all(source_id: Seq<char>, source_name: Seq<char>, list: Seq<JsonValue>, query: Seq<char>, exact: bool) -> Seq<ItemView>
    decreases list.len(),
{
    if list.len() == 0 {
        seq![]
    } else {
        let rest = hunhepan_all(source_id, source_name, list.drop_last(), query, exact);
        match hunhepan_item_of(source_id, source_name, list.last(), (list.len() - 1) as nat, query, exact) {
            Some(i) => rest.push(i),
            None => rest,
        }
    }
}

/// The results of a hunhepan answer: its `data.list`, read in order.
pub fn hunhepan_items(source: &SearchSource, data: &JsonValue, query: &str, exact: bool) -> (r: Vec<ResourceItem>)
    ensures
        item_views(r@) == hunhepan_all(source@.id, source@.name, array_or_empty(at_path(*data, seq!["data"@, "list"@])), query@, exact),
{
    let found = json_at2(data, "data", "list");
    let empty: Vec<JsonValue> = Vec::new();
    let list: &Vec<JsonValue> = match found {
        Some(JsonValue::Array(items)) => items,
        _ => &empty,
    };
    assert(list@ == array_or_empty(at_path(*data, seq!["data"@, "list"@])));
    let mut out: Vec<ResourceItem> = Vec::new();
    let mut i: usize = 0;
    while i < list.len()
        invariant
            i <= list.len(),
            item_views(out@) == hunhepan_all(source@.id, source@.name, list@.subrange(0, i as int), query@, exact),
        decreases list.len() - i,
    {
        assert(list@.subrange(0, i + 1).drop_last() == list@.subrange(0, i as int));
        if let Some(item) = hunhepan_item(source, &list[i], i, query, exact) {
            let ghost before = item_views(out@);
            out.push(item);
            assert(item_views(out@) =~= before.push(item@));
        }
        i += 1;
    }
    assert(list@.subrange(0, list@.len() as int) == list@);
    out
}

/// The forum discussion `v`, the `index`-th of its list: it needs a title
/// string and an id; its slug is the info, its page on `base` the link, and
/// its creation time, last post time and the query the tags (non-empty ones).
pub open spec fn flarum_item_of(source_id: Seq<char>, source_name: Seq<char>, base: Seq<char>, v: JsonValue, index: nat, query: Seq<char>) -> Option<ItemView> {
    let raw_title = as_str(at_path(v, seq!["attributes"@, "title"@]));
    let id = match first_string_of(v, seq!["id"@]) {
        Some(t) => t,
        None => seq![],
    };
    if raw_title is None || clean(raw_title.unwrap()).len() == 0 || id.len() == 0 {
        None
    } else {
        let detail = base + "/d/"@ + id;
        Some(
            new_item_view(
                source_id,
                source_name,
                index,
                clean(raw_title.unwrap()),
                clean(str_or_empty(at_path(v, seq!["attributes"@, "slug"@]))),
                detail,
                seq![],
                detail,
                "网盘"@,
                seq![],
                nonempty_texts(
                    seq![
                        clean(str_or_empty(at_path(v, seq!["attributes"@, "createdAt"@]))),
                        clean(str_or_empty(at_path(v, seq!["attributes"@, "lastPostedAt"@]))),
                        query,
                    ],
                ),
            ),
        )
    }
}

/// The text of a string reached through two members, else the empty text.
fn member2_str(value: &JsonValue, first: &str, second: &str) -> (r: String)
    ensures
        r@ == str_or_empty(at_path(*value, seq![first@, second@])),
{
    match json_as_str(json_at2(value, first, second)) {
        Some(t) => owned(t),
        None => String::new(),
    }
}

/// The forum discussion `value`, the `index`-th of its list.
pub fn flarum_item(source: &SearchSource, base: &str, value: &JsonValue, index: usize, query: &str) -> (r: Option<
    ResourceItem,
>)
    ensures
        match r {
            Some(i) => flarum_item_of(source@.id, source@.name, base@, *value, index as nat, query@) == Some(i@),
            None => flarum_item_of(source@.id, source@.name, base@, *value, index as nat, query@) is None,
        },
{
    let raw = match json_as_str(json_at2(value, "attributes", "title")) {
        Some(t) => t,
        None => return None,
    };
    let title = clean_text(raw);
    let keys: [&str; 1] = ["id"];
    assert(keys@.map_values(|k: &str| k@) =~= seq!["id"@]);
    let id = match first_json_string(value, &keys) {
        Some(t) => t,
        None => String::new(),
    };
    proof {
        reveal_strlit("");
    }
    if title.as_str().is_empty() || id.as_str().is_empty() {
        return None;
    }
    let slug = clean_text(member2_str(value, "attributes", "slug").as_str());
    let created = clean_text(member2_str(value, "attributes", "createdAt").as_str());
    let last = clean_text(member2_str(value, "attributes", "lastPostedAt").as_str());
    let detail = concat3(base, "/d/", id.as_str());
    let texts = vec![created, last, owned(query)];
    let ghost tv = views(texts@);
    let tags = keep_nonempty(texts);
    assert(tv =~= seq![
        clean(str_or_empty(at_path(*value, seq!["attributes"@, "createdAt"@]))),
        clean(str_or_empty(at_path(*value, seq!["attributes"@, "lastPostedAt"@]))),
        query@,
    ]);
    Some(resource_item(source, index, title, slug, detail.clone(), String::new(), detail, owned("网盘"), String::new(), tags))
}

/// The discussions of a forum answer: its `data`, read in order.
pub open spec fn flarum_all(source_id: Seq<char>, source_name: Seq<char>, base: Seq<char>, list: Seq<JsonValue>, query: Seq<char>) -> Seq<ItemView>
    decreases list.len(),
{
    if list.len() == 0 {
        seq![]
    } else {
        let rest = flarum_all(source_id, source_name, base, list.drop_last(), query);
        match flarum_item_of(source_id, source_name, base, list.last(), (list.len() - 1) as nat, query) {
            Some(i) => rest.push(i),
            None => rest,
        }
    }
}

/// The discussions of a forum answer.
pub fn flarum_items(source: &SearchSource, base: &str, data: &JsonValue, query: &str) -> (r: Vec<ResourceItem>)
    ensures
        item_views(r@) == flarum_all(source@.id, source@.name, base@, array_or_empty(get(*data, "data"@)), query@),
{
    let empty: Vec<JsonValue> = Vec::new();
    let list: &Vec<JsonValue> = match json_get(data, "data") {
        Some(JsonValue::Array(items)) => items,
        _ => &empty,
    };
    assert(list@ == array_or_empty(get(*data, "data"@)));
    let mut out: Vec<ResourceItem> = Vec::new();
    let mut i: usize = 0;
    while i < list.len()
        invariant
            i <= list.len(),
            item_views(out@) == flarum_all(source@.id, source@.name, base@, list@.subrange(0, i as int), query@),
        decreases list.len() - i,
    {
        assert(list@.subrange(0, i + 1).drop_last() == list@.subrange(0, i as int));
        if let Some(item) = flarum_item(source, base, &list[i], i, query) {
            let ghost before = item_views(out@);
            out.push(item);
            assert(item_views(out@) =~= before.push(item@));
        }
        i += 1;
    }
    assert(list@.subrange(0, list@.len() as int) == list@);
    out
}

/// The text of `o`, or the empty text.
pub open spec fn or_empty(o: Option<Seq<char>>) -> Seq<char> {
    match o {
        Some(t) => t,
        None => seq![],
    }
}

/// The CMS video `v`, the `index`-th of its list on the site `endpoint`: it
/// needs a name; its year and remarks are the info and the tags, and its
/// detail page is the link (the site itself when it has no id).
pub open spec fn cms_item_of(source_id: Seq<char>, source_name: Seq<char>, endpoint: Seq<char>, v: JsonValue, index: nat) -> Option<ItemView> {
    match first_string_of(v, seq!["vod_name"@, "title"@, "name"@]) {
        None => None,
        Some(title) => {
            let year = or_empty(first_string_of(v, seq!["vod_year"@, "year"@]));
            let remarks = or_empty(first_string_of(v, seq!["vod_remarks"@, "remarks"@]));
            let id = or_empty(first_string_of(v, seq!["vod_id"@, "id"@]));
            let detail = if id.len() == 0 {
                endpoint
            } else {
                endpoint + "?ac=detail&ids="@ + id
            };
            Some(
                new_item_view(
                    source_id,
                    source_name,
                    index,
                    clean(title),
                    join(nonempty_texts(seq![year, remarks]), " "@),
                    detail,
                    seq![],
                    detail,
                    "CMS"@,
                    seq![],
                    seq![year, remarks],
                ),
            )
        },
    }
}

/// The first of the members `keys` of `value` that is a non-blank string or
/// an integer, as text, else the empty text.
fn first_json_string_or_empty(value: &JsonValue, keys: &[&str]) -> (r: String)
    ensures
        r@ == or_empty(first_string_of(*value, keys@.map_values(|k: &str| k@))),
{
    match first_json_string(value, keys) {
        Some(t) => t,
        None => String::new(),
    }
}

/// The CMS video `value`, the `index`-th of its list.
pub fn cms_item(source: &SearchSource, endpoint: &str, value: &JsonValue, index: usize) -> (r: Option<ResourceItem>)
    ensures
        match r {
            Some(i) => cms_item_of(source@.id, source@.name, endpoint@, *value, index as nat) == Some(i@),
            None => cms_item_of(source@.id, source@.name, endpoint@, *value, index as nat) is None,
        },
{
    let names: [&str; 3] = ["vod_name", "title", "name"];
    assert(names@.map_values(|k: &str| k@) =~= seq!["vod_name"@, "title"@, "name"@]);
    let title = match first_json_string(value, &names) {
        Some(t) => t,
        None => return None,
    };
    let years: [&str; 2] = ["vod_year", "year"];
    assert(years@.map_values(|k: &str| k@) =~= seq!["vod_year"@, "year"@]);
    let remark_keys: [&str; 2] = ["vod_remarks", "remarks"];
    assert(remark_keys@.map_values(|k: &str| k@) =~= seq!["vod_remarks"@, "remarks"@]);
    let ids: [&str; 2] = ["vod_id", "id"];
    assert(ids@.map_values(|k: &str| k@) =~= seq!["vod_id"@, "id"@]);
    let year = first_json_string_or_empty(value, &years);
    let remarks = first_json_string_or_empty(value, &remark_keys);
    let id = first_json_string_or_empty(value, &ids);
    let shown = keep_nonempty(vec![year.clone(), remarks.clone()]);
    let info = crate::lists::join_strings(&shown, " ");
    let detail = if id.as_str().is_empty() {
        owned(endpoint)
    } else {
        concat3(endpoint, "?ac=detail&ids=", id.as_str())
    };
    let tags = vec![year, remarks];
    let ghost tv = views(tags@);
    proof {
        reveal_strlit("");
    }
    let r = resource_item(source, index, clean_text(title.as_str()), info, detail.clone(), String::new(), detail, owned("CMS"), String::new(), tags);
    assert(tv =~= seq![
        or_empty(first_string_of(*value, seq!["vod_year"@, "year"@])),
        or_empty(first_string_of(*value, seq!["vod_remarks"@, "remarks"@])),
    ]);
    Some(r)
}

/// The videos of a CMS list.
pub open spec fn cms_all(source_id: Seq<char>, source_name: Seq<char>, endpoint: Seq<char>, list: Seq<JsonValue>) -> Seq<ItemView>
    decreases list.len(),
{
    if list.len() == 0 {
        seq![]
    } else {
        let rest = cms_all(source_id, source_name, endpoint, list.drop_last());
        match cms_item_of(source_id, source_name, endpoint, list.last(), (list.len() - 1) as nat) {
            Some(i) => rest.push(i),
            None => rest,
        }
    }
}

/// The videos of a CMS answer: its `list`, read in order.
pub fn parse_cms_items(source: &SearchSource, endpoint: &str, data: &JsonValue) -> (r: Vec<ResourceItem>)
    ensures
        item_views(r@) == cms_all(source@.id, source@.name, endpoint@, array_or_empty(get(*data, "list"@))),
{
    let empty: Vec<JsonValue> = Vec::new();
    let list: &Vec<JsonValue> = match json_get(data, "list") {
        Some(JsonValue::Array(items)) => items,
        _ => &empty,
    };
    assert(list@ == array_or_empty(get(*data, "list"@)));
    let mut out: Vec<ResourceItem> = Vec::new();
    let mut i: usize = 0;
    while i < list.len()
        invariant
            i <= list.len(),
            item_views(out@) == cms_all(source@.id, source@.name, endpoint@, list@.subrange(0, i as int)),
        decreases list.len() - i,
    {
        assert(list@.subrange(0, i + 1).drop_last() == list@.subrange(0, i as int));
        if let Some(item) = cms_item(source, endpoint, &list[i], i) {
            let ghost before = item_views(out@);
            out.push(item);
            assert(item_views(out@) =~= before.push(item@));
        }
        i += 1;
    }
    assert(list@.subrange(0, list@.len() as int) == list@);
    out
}

/// How many elements the `list` of a CMS answer has.
pub fn cms_list_len(data: &JsonValue) -> (r: usize)
    ensures
        r == array_or_empty(get(*data, "list"@)).len(),
{
    match json_get(data, "list") {
        Some(JsonValue::Array(items)) => items.len(),
        _ => 0,
    }
}

/// How many bytes the UTF-8 form of `c` takes.
pub open spec fn utf8_len(c: char) -> nat {
    if (c as u32) < 0x80 {
        1
    } else if (c as u32) < 0x800 {
        2
    } else if (c as u32) < 0x10000 {
        3
    } else {
        4
    }
}

/// The leading characters of `s` whose UTF-8 form takes exactly `n` bytes,
/// if such a prefix exists (`str::get(0..n)`).
pub open spec fn byte_prefix(s: Seq<char>, n: int) -> Option<Seq<char>>
    decreases s.len(),
{
    if n == 0 {
        Some(seq![])
    } else if s.len() == 0 || utf8_len(s[0]) > n {
        None
    } else {
        match byte_prefix(s.drop_first(), n - utf8_len(s[0])) {
            Some(rest) => Some(seq![s[0]] + rest),
            None => None,
        }
    }
}

/// The first four bytes of `s` as text, when they end on a character
/// boundary; else the empty text.
pub fn first_four_bytes(s: &str) -> (r: String)
    ensures
        r@ == or_empty(byte_prefix(s@, 4)),
{
    let v = crate::text::chars_of(s);
    let mut i: usize = 0;
    let mut used: u32 = 0;
    proof {
        assert(v@.subrange(0, v@.len() as int) == v@);
        if let Some(rest) = byte_prefix(v@, 4) {
            assert(v@.subrange(0, 0) + rest =~= rest);
        }
    }
    while used < 4 && i < v.len()
        invariant
            i <= v.len(),
            v@ == s@,
            used <= 4,
            byte_prefix(v@, 4) == match byte_prefix(v@.subrange(i as int, v@.len() as int), 4 - used) {
                Some(rest) => Some(v@.subrange(0, i as int) + rest),
                None => None,
            },
        decreases v.len() - i,
    {
        let c = v[i];
        let w: u32 = if (c as u32) < 0x80 {
            1
        } else if (c as u32) < 0x800 {
            2
        } else if (c as u32) < 0x10000 {
            3
        } else {
            4
        };
        let ghost t = v@.subrange(i as int, v@.len() as int);
        assert(t[0] == c);
        assert(t.drop_first() == v@.subrange(i + 1, v@.len() as int));
        assert(utf8_len(c) == w as nat);
        if w > 4 - used {
            assert(t.len() > 0 && utf8_len(t[0]) > 4 - used);
            assert(byte_prefix(t, 4 - used) is None);
            return String::new();
        }
        proof {
            if let Some(rest) = byte_prefix(t.drop_first(), 4 - used - w) {
                assert(v@.subrange(0, i as int) + (seq![c] + rest) =~= v@.subrange(0, i + 1) + rest);
            }
        }
        assert(v@.subrange(0, i + 1) == v@.subrange(0, i as int) + seq![c]);
        used = used + w;
        i += 1;
    }
    if used < 4 {
        assert(v@.subrange(i as int, v@.len() as int).len() == 0);
        return String::new();
    }
    assert(v@.subrange(0, i as int) + Seq::<char>::empty() =~= v@.subrange(0, i as int));
    crate::text::string_of(&v, 0, i)
}

/// The TMDB result `v` as a media candidate: only films and series, and only
/// with a name; its id, names, year (the first four bytes of its air or
/// release date), type, original title as alias and overview.
pub open spec fn tmdb_candidate_of(v: JsonValue) -> Option<MediaView> {
    let media_type = str_or_empty(get(v, "media_type"@));
    if media_type != "movie"@ && media_type != "tv"@ {
        None
    } else {
        match first_string_of(v, seq!["name"@, "title"@]) {
            None => None,
            Some(title) => {
                let original = or_empty(first_string_of(v, seq!["original_name"@, "original_title"@]));
                let date = or_empty(first_string_of(v, seq!["first_air_date"@, "release_date"@]));
                Some(
                    MediaView {
                        id: "tmdb-"@ + media_type + "-"@ + or_empty(first_string_of(v, seq!["id"@])),
                        title: clean(title),
                        original_title: clean(original),
                        year: or_empty(byte_prefix(date, 4)),
                        media_type: if media_type == "tv"@ {
                            "电视剧"@
                        } else {
                            "电影"@
                        },
                        actors: seq![],
                        aliases: if original.len() == 0 {
                            seq![]
                        } else {
                            seq![clean(original)]
                        },
                        platforms: seq![],
                        overview: clean(or_empty(first_string_of(v, seq!["overview"@]))),
                        confidence: 68,
                        source: "TMDB"@,
                    },
                )
            },
        }
    }
}

/// The TMDB result `value` as a media candidate.
pub fn tmdb_candidate(value: &JsonValue) -> (r: Option<MediaCandidate>)
    ensures
        match r {
            Some(c) => tmdb_candidate_of(*value) == Some(c@),
            None => tmdb_candidate_of(*value) is None,
        },
{
    let media_type = member_str(value, "media_type");
    if !same_text(media_type.as_str(), "movie") && !same_text(media_type.as_str(), "tv") {
        return None;
    }
    let names: [&str; 2] = ["name", "title"];
    assert(names@.map_values(|k: &str| k@) =~= seq!["name"@, "title"@]);
    let title = match first_json_string(value, &names) {
        Some(t) => t,
        None => return None,
    };
    let originals: [&str; 2] = ["original_name", "original_title"];
    assert(originals@.map_values(|k: &str| k@) =~= seq!["original_name"@, "original_title"@]);
    let dates: [&str; 2] = ["first_air_date", "release_date"];
    assert(dates@.map_values(|k: &str| k@) =~= seq!["first_air_date"@, "release_date"@]);
    let overviews: [&str; 1] = ["overview"];
    assert(overviews@.map_values(|k: &str| k@) =~= seq!["overview"@]);
    let ids: [&str; 1] = ["id"];
    assert(ids@.map_values(|k: &str| k@) =~= seq!["id"@]);
    let original = first_json_string_or_empty(value, &originals);
    let date = first_json_string_or_empty(value, &dates);
    let overview = first_json_string_or_empty(value, &overviews);
    let tail = first_json_string_or_empty(value, &ids);
    let id = concat3(concat3("tmdb-", media_type.as_str(), "-").as_str(), tail.as_str(), "");
    let aliases: Vec<String> = if original.as_str().is_empty() {
        Vec::new()
    } else {
        vec![clean_text(original.as_str())]
    };
    proof {
        reveal_strlit("");
    }
    let r = MediaCandidate {
        id,
        title: clean_text(title.as_str()),
        original_title: clean_text(original.as_str()),
        year: first_four_bytes(date.as_str()),
        media_type: if same_text(media_type.as_str(), "tv") {
            owned("电视剧")
        } else {
            owned("电影")
        },
        actors: Vec::new(),
        aliases,
        platforms: Vec::new(),
        overview: clean_text(overview.as_str()),
        confidence: 68,
        source: owned("TMDB"),
    };
    assert(r@.actors =~= Seq::<Seq<char>>::empty());
    assert(r@.platforms =~= Seq::<Seq<char>>::empty());
    assert(r@.aliases =~= (if original@.len() == 0 {
        Seq::<Seq<char>>::empty()
    } else {
        seq![clean(original@)]
    }));
    Some(r)
}

/// The candidates of a TMDB answer: the first six of its `results`, those
/// that are films or series with a name.
pub open spec fn tmdb_all(list: Seq<JsonValue>) -> Seq<MediaView>
    decreases list.len(),
{
    if list.len() == 0 {
        seq![]
    } else {
        let rest = tmdb_all(list.drop_last());
        match tmdb_candidate_of(list.last()) {
            Some(c) => rest.push(c),
            None => rest,
        }
    }
}

/// The candidates of a TMDB answer.
pub fn tmdb_candidates(data: &JsonValue) -> (r: Vec<MediaCandidate>)
    ensures
        crate::model::media_views(r@) == tmdb_all(
            if array_or_empty(get(*data, "results"@)).len() > 6 {
                array_or_empty(get(*data, "results"@)).subrange(0, 6)
            } else {
                array_or_empty(get(*data, "results"@))
            },
        ),
{
    let empty: Vec<JsonValue> = Vec::new();
    let list: &Vec<JsonValue> = match json_get(data, "results") {
        Some(JsonValue::Array(items)) => items,
        _ => &empty,
    };
    let ghost all = array_or_empty(get(*data, "results"@));
    assert(list@ == all);
    let n = if list.len() > 6 { 6 } else { list.len() };
    let ghost head = if all.len() > 6 { all.subrange(0, 6) } else { all };
    let mut out: Vec<MediaCandidate> = Vec::new();
    let mut i: usize = 0;
    while i < n
        invariant
            i <= n <= list.len(),
            n == head.len(),
            forall|k: int| 0 <= k < n ==> head[k] == list@[k],
            crate::model::media_views(out@) == tmdb_all(head.subrange(0, i as int)),
        decreases n - i,
    {
        assert(head.subrange(0, i + 1).drop_last() == head.subrange(0, i as int));
        assert(head.subrange(0, i + 1).last() == list@[i as int]);
        if let Some(c) = tmdb_candidate(&list[i]) {
            let ghost before = crate::model::media_views(out@);
            out.push(c);
            assert(crate::model::media_views(out@) =~= before.push(c@));
        }
        i += 1;
    }
    assert(head.subrange(0, n as int) == head);
    out
}

/// The PanSou result `v` as the `index`-th item: it needs a title (its
/// first text of title, name, drive name, file name or note); its link, info
/// (else the term), drive type (else `fallback_disk_type`) and sharer come
/// from the first of their members that has a text; the term is its tag.
pub open spec fn pansou_item_of(
    source_id: Seq<char>,
    source_name: Seq<char>,
    index: nat,
    term: Seq<char>,
    v: JsonValue,
    fallback_disk_type: Seq<char>,
) -> Option<ItemView> {
    match first_string_of(v, seq!["title"@, "name"@, "disk_name"@, "file_name"@, "note"@]) {
        None => None,
        Some(title) => {
            let url = or_empty(first_string_of(v, seq!["url"@, "link"@, "share_url"@, "shareLink"@]));
            if url.len() == 0 && title.len() == 0 {
                None
            } else {
                let info = match first_string_of(
                    v,
                    seq![
                        "content"@, "description"@, "info"@, "files"@, "note"@, "remark"@, "datetime"@,
                        "source"@,
                    ],
                ) {
                    Some(t) => t,
                    None => term,
                };
                let disk_type = match first_string_of(v, seq!["type"@, "cloud_type"@, "disk_type"@]) {
                    Some(t) => t,
                    None => fallback_disk_type,
                };
                let share_user = or_empty(first_string_of(v, seq!["user"@, "share_user"@, "owner"@]));
                Some(
                    new_item_view(
                        source_id,
                        source_name,
                        index,
                        clean(title),
                        clean(info),
                        url,
                        url,
                        seq![],
                        clean(disk_type),
                        clean(share_user),
                        seq![term],
                    ),
                )
            }
        },
    }
}

/// The items gathered from the PanSou answer part `v` after `acc`: the
/// results of an array, in order, each numbered by how many items precede
/// it; the parts of an object, in order, the member name giving the drive
/// type when none is known yet; nothing from anything else.
pub open spec fn pansou_collect(
    source_id: Seq<char>,
    source_name: Seq<char>,
    term: Seq<char>,
    v: JsonValue,
    disk_type: Seq<char>,
    acc: Seq<ItemView>,
) -> Seq<ItemView>
    decreases v,
{
    match v {
        JsonValue::Array(items) => pansou_collect_items(source_id, source_name, term, items@, disk_type, acc),
        JsonValue::Object(entries) => pansou_collect_members(source_id, source_name, term, entries@, disk_type, acc),
        _ => acc,
    }
}

/// The items gathered from the array elements `items` after `acc`.
pub open spec fn pansou_collect_items(
    source_id: Seq<char>,
    source_name: Seq<char>,
    term: Seq<char>,
    items: Seq<JsonValue>,
    disk_type: Seq<char>,
    acc: Seq<ItemView>,
) -> Seq<ItemView>
    decreases items,
{
    if items.len() == 0 {
        acc
    } else {
        let before = pansou_collect_items(source_id, source_name, term, items.subrange(0, items.len() - 1), disk_type, acc);
        match pansou_item_of(source_id, source_name, before.len(), term, items[items.len() - 1], disk_type) {
            Some(i) => before.push(i),
            None => before,
        }
    }
}

/// The items gathered from the object members `entries` after `acc`.
pub open spec fn pansou_collect_members(
    source_id: Seq<char>,
    source_name: Seq<char>,
    term: Seq<char>,
    entries: Seq<(String, JsonValue)>,
    disk_type: Seq<char>,
    acc: Seq<ItemView>,
) -> Seq<ItemView>
    decreases entries,
{
    if entries.len() == 0 {
        acc
    } else {
        let before = pansou_collect_members(
            source_id,
            source_name,
            term,
            entries.subrange(0, entries.len() - 1),
            disk_type,
            acc,
        );
        let e = entries[entries.len() - 1];
        pansou_collect(
            source_id,
            source_name,
            term,
            e.1,
            if disk_type.len() == 0 {
                e.0@
            } else {
                disk_type
            },
            before,
        )
    }
}

/// The PanSou result `value` as the `index`-th item.
pub fn pansou_item(source: &SearchSource, index: usize, term: &str, value: &JsonValue, fallback_disk_type: &str) -> (r:
    Option<ResourceItem>)
    ensures
        match r {
            Some(i) => pansou_item_of(source@.id, source@.name, index as nat, term@, *value, fallback_disk_type@) == Some(i@),
            None => pansou_item_of(source@.id, source@.name, index as nat, term@, *value, fallback_disk_type@) is None,
        },
{
    let titles: [&str; 5] = ["title", "name", "disk_name", "file_name", "note"];
    assert(titles@.map_values(|k: &str| k@) =~= seq!["title"@, "name"@, "disk_name"@, "file_name"@, "note"@]);
    let title = match first_json_string(value, &titles) {
        Some(t) => t,
        None => return None,
    };
    let links: [&str; 4] = ["url", "link", "share_url", "shareLink"];
    assert(links@.map_values(|k: &str| k@) =~= seq!["url"@, "link"@, "share_url"@, "shareLink"@]);
    let url = first_json_string_or_empty(value, &links);
    if url.as_str().is_empty() && title.as_str().is_empty() {
        return None;
    }
    let infos: [&str; 8] = ["content", "description", "info", "files", "note", "remark", "datetime", "source"];
    assert(infos@.map_values(|k: &str| k@) =~= seq![
        "content"@, "description"@, "info"@, "files"@, "note"@, "remark"@, "datetime"@, "source"@,
    ]);
    let info = match first_json_string(value, &infos) {
        Some(t) => t,
        None => owned(term),
    };
    let types: [&str; 3] = ["type", "cloud_type", "disk_type"];
    assert(types@.map_values(|k: &str| k@) =~= seq!["type"@, "cloud_type"@, "disk_type"@]);
    let disk_type = match first_json_string(value, &types) {
        Some(t) => t,
        None => owned(fallback_disk_type),
    };
    let users: [&str; 3] = ["user", "share_user", "owner"];
    assert(users@.map_values(|k: &str| k@) =~= seq!["user"@, "share_user"@, "owner"@]);
    let share_user = first_json_string_or_empty(value, &users);
    let tags = vec![owned(term)];
    assert(views(tags@) =~= seq![term@]);
    proof {
        reveal_strlit("");
    }
    Some(
        resource_item(
            source,
            index,
            clean_text(title.as_str()),
            clean_text(info.as_str()),
            url.clone(),
            url,
            String::new(),
            clean_text(disk_type.as_str()),
            clean_text(share_user.as_str()),
            tags,
        ),
    )
}

/// Gathers the items of the PanSou answer part `value` into `output`.
pub fn collect_pansou_values(
    source: &SearchSource,
    term: &str,
    value: &JsonValue,
    disk_type: &str,
    output: &mut Vec<ResourceItem>,
)
    ensures
        item_views(final(output)@) == pansou_collect(
            source@.id,
            source@.name,
            term@,
            *value,
            disk_type@,
            item_views(old(output)@),
        ),
    decreases value,
{
    let ghost start = item_views(output@);
    match value {
        JsonValue::Array(items) => {
            let mut i: usize = 0;
            while i < items.len()
                invariant
                    i <= items.len(),
                    item_views(output@) == pansou_collect_items(
                        source@.id,
                        source@.name,
                        term@,
                        items@.subrange(0, i as int),
                        disk_type@,
                        start,
                    ),
                decreases items.len() - i,
            {
                assert(items@.subrange(0, i + 1).subrange(0, i as int) == items@.subrange(0, i as int));
                let n = output.len();
                assert(item_views(output@).len() == n);
                if let Some(resource) = pansou_item(source, n, term, &items[i], disk_type) {
                    let ghost before = item_views(output@);
                    output.push(resource);
                    assert(item_views(output@) =~= before.push(resource@));
                }
                i += 1;
            }
            assert(items@.subrange(0, items@.len() as int) == items@);
        },
        JsonValue::Object(entries) => {
            let mut i: usize = 0;
            while i < entries.len()
                invariant
                    i <= entries.len(),
                    *value == JsonValue::Object(*entries),
                    item_views(output@) == pansou_collect_members(
                        source@.id,
                        source@.name,
                        term@,
                        entries@.subrange(0, i as int),
                        disk_type@,
                        start,
                    ),
                decreases entries.len() - i,
            {
                assert(entries@.subrange(0, i + 1).subrange(0, i as int) == entries@.subrange(0, i as int));
                let child_disk_type: &str = if disk_type.is_empty() {
                    entries[i].0.as_str()
                } else {
                    disk_type
                };
                proof {
                    assert(decreases_to!(*value => (*value)->Object_0));
                    assert(decreases_to!(*entries => entries@));
                    assert(decreases_to!(entries@ => entries@[i as int]));
                    assert(decreases_to!(entries@[i as int] => entries@[i as int].1));
                }
                collect_pansou_values(source, term, &entries[i].1, child_disk_type, output);
                i += 1;
            }
            assert(entries@.subrange(0, entries@.len() as int) == entries@);
        },
        _ => {},
    }
}

/// Gathers the items of an optional answer part after `acc`.
pub open spec fn collect_opt(
    source_id: Seq<char>,
    source_name: Seq<char>,
    term: Seq<char>,
    v: Option<JsonValue>,
    acc: Seq<ItemView>,
) -> Seq<ItemView> {
    match v {
        Some(x) => pansou_collect(source_id, source_name, term, x, seq![], acc),
        None => acc,
    }
}

/// The items of a PanSou answer: those under `data.merged_by_type`, then
/// `data.results`, then `data.list`; when these give none, those under `data`.
pub open spec fn pansou_items_of(source_id: Seq<char>, source_name: Seq<char>, term: Seq<char>, data: JsonValue) -> Seq<ItemView> {
    let a = collect_opt(source_id, source_name, term, at_path(data, seq!["data"@, "merged_by_type"@]), seq![]);
    let b = collect_opt(source_id, source_name, term, at_path(data, seq!["data"@, "results"@]), a);
    let c = collect_opt(source_id, source_name, term, at_path(data, seq!["data"@, "list"@]), b);
    if c.len() == 0 {
        collect_opt(source_id, source_name, term, get(data, "data"@), c)
    } else {
        c
    }
}

/// The items of a PanSou answer for `term`.
pub fn parse_pansou_items(source: &SearchSource, term: &str, data: &JsonValue) -> (r: Vec<ResourceItem>)
    ensures
        item_views(r@) == pansou_items_of(source@.id, source@.name, term@, *data),
{
    let mut output: Vec<ResourceItem> = Vec::new();
    assert(item_views(output@) =~= Seq::<ItemView>::empty());
    proof {
        reveal_strlit("");
        assert(""@ =~= Seq::<char>::empty());
    }
    let ghost sid = source@.id;
    let ghost sname = source@.name;
    let ghost a = collect_opt(sid, sname, term@, at_path(*data, seq!["data"@, "merged_by_type"@]), seq![]);
    if let Some(c) = json_at2(data, "data", "merged_by_type") {
        collect_pansou_values(source, term, c, "", &mut output);
    }
    assert(item_views(output@) == a);
    let ghost b = collect_opt(sid, sname, term@, at_path(*data, seq!["data"@, "results"@]), a);
    if let Some(c) = json_at2(data, "data", "results") {
        collect_pansou_values(source, term, c, "", &mut output);
    }
    assert(item_views(output@) == b);
    let ghost c3 = collect_opt(sid, sname, term@, at_path(*data, seq!["data"@, "list"@]), b);
    if let Some(c) = json_at2(data, "data", "list") {
        collect_pansou_values(source, term, c, "", &mut output);
    }
    assert(item_views(output@) == c3);
    if output.len() == 0 {
        if let Some(c) = json_get(data, "data") {
            collect_pansou_values(source, term, c, "", &mut output);
        }
    }
    output
}

} // verus!
