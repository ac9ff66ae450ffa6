//! Lists of strings: trimmed de-duplicated lists, joins, first non-blank.
use vstd::prelude::*;
use vstd::string::*;
use crate::model::views;
use crate::text::{
    is_blank, is_blank_str, is_ws, join, same_text, trim, trim_end, trim_start, trim_str,
};

verus! {

/// `items` with the trimmed `value` appended, unless it is blank or already there.
pub open spec fn push_unique_spec(items: Seq<Seq<char>>, value: Seq<char>) -> Seq<Seq<char>> {
    let t = trim(value);
    if t.len() > 0 && !items.contains(t) {
        items.push(t)
    } else {
        items
    }
}

/// The trimmed, non-blank values in first-occurrence order, each once.
pub open spec fn unique_trimmed(values: Seq<Seq<char>>) -> Seq<Seq<char>>
    decreases values.len(),
{
    if values.len() == 0 {
        seq![]
    } else {
        push_unique_spec(unique_trimmed(values.drop_last()), values.last())
    }
}

/// The first value that is not blank, trimmed; empty when there is none.
pub open spec fn first_nonblank(values: Seq<Seq<char>>) -> Seq<char>
    decreases values.len(),
{
    if values.len() == 0 {
        seq![]
    } else if !is_blank(values[0]) {
        trim(values[0])
    } else {
        first_nonblank(values.drop_first())
    }
}

/// No element occurs twice.
pub open spec fn no_duplicates(s: Seq<Seq<char>>) -> bool {
    forall|i: int, j: int| 0 <= i < j < s.len() ==> s[i] != s[j]
}

/// Every element is trimmed and non-empty.
pub open spec fn all_trimmed_nonblank(s: Seq<Seq<char>>) -> bool {
    forall|i: int| 0 <= i < s.len() ==> (#[trigger] s[i]).len() > 0 && trim(s[i]) == s[i]
}

/// A copy of a list of strings.
pub fn copy_strings(v: &Vec<String>) -> (r: Vec<String>)
    ensures
        r@ == v@,
{
    let mut r: Vec<String> = Vec::new();
    let mut i: usize = 0;
    while i < v.len()
        invariant
            i <= v.len(),
            r@ == v@.subrange(0, i as int),
        decreases v.len() - i,
    {
        r.push(v[i].clone());
        assert(v@.subrange(0, i + 1) == v@.subrange(0, i as int).push(v@[i as int]));
        i += 1;
    }
    assert(v@.subrange(0, v@.len() as int) == v@);
    r
}

/// Whether some string of `list` has the characters of `s`.
pub fn contains_text(list: &Vec<String>, s: &str) -> (r: bool)
    ensures
        r == views(list@).contains(s@),
{
    let mut i: usize = 0;
    while i < list.len()
        invariant
            i <= list.len(),
            forall|k: int| 0 <= k < i ==> list@[k]@ != s@,
        decreases list.len() - i,
    {
        if same_text(list[i].as_str(), s) {
            assert(views(list@)[i as int] == s@);
            return true;
        }
        i += 1;
    }
    proof {
        if views(list@).contains(s@) {
            let k = choose|k: int| 0 <= k < views(list@).len() && views(list@)[k] == s@;
            assert(list@[k]@ == s@);
        }
    }
    false
}

/// Appends the trimmed `value` unless it is blank or already in `items`.
pub fn push_unique(items: &mut Vec<String>, value: String)
    ensures
        views(final(items)@) == push_unique_spec(views(old(items)@), value@),
{
    let text = trim_str(value.as_str());
    if !is_blank_str(text.as_str()) && !contains_text(items, text.as_str()) {
        proof {
            lemma_trim_idempotent(value@);
        }
        items.push(text);
        assert(views(items@) == views(old(items)@).push(trim(value@)));
    } else {
        proof {
            lemma_trim_idempotent(value@);
        }
    }
}

/// Trimming twice is trimming once.
pub proof fn lemma_trim_idempotent(s: Seq<char>)
    ensures
        trim(trim(s)) == trim(s),
        is_blank(s) == (trim(s).len() == 0),
{
    lemma_trim_shape(s);
    let t = trim(s);
    if t.len() > 0 {
        assert(trim_start(t) == t);
        assert(trim_end(t) == t);
    }
}

/// A trimmed string neither begins nor ends with whitespace.
pub proof fn lemma_trim_shape(s: Seq<char>)
    ensures
        trim(s).len() > 0 ==> !is_ws(trim(s)[0]) && !is_ws(trim(s).last()),
    decreases s.len(),
{
    lemma_trim_start_shape(s);
    lemma_trim_end_shape(trim_start(s));
}

proof fn lemma_trim_start_shape(s: Seq<char>)
    ensures
        trim_start(s).len() > 0 ==> !is_ws(trim_start(s)[0]),
        trim_start(s).len() <= s.len(),
        trim_start(s) == s.subrange(s.len() - trim_start(s).len(), s.len() as int),
    decreases s.len(),
{
    if s.len() > 0 && is_ws(s[0]) {
        lemma_trim_start_shape(s.drop_first());
        let t = trim_start(s.drop_first());
        assert(s.drop_first().subrange(s.drop_first().len() - t.len(), s.drop_first().len() as int)
            == s.subrange(s.len() - t.len(), s.len() as int));
    } else {
        assert(s.subrange(0, s.len() as int) == s);
    }
}

proof fn lemma_trim_end_shape(s: Seq<char>)
    ensures
        trim_end(s).len() > 0 ==> !is_ws(trim_end(s).last()),
        trim_end(s).len() <= s.len(),
        trim_end(s) == s.subrange(0, trim_end(s).len() as int),
        trim_end(s).len() > 0 && s.len() > 0 ==> trim_end(s)[0] == s[0],
    decreases s.len(),
{
    if s.len() > 0 && is_ws(s.last()) {
        lemma_trim_end_shape(s.drop_last());
        let t = trim_end(s.drop_last());
        assert(s.drop_last().subrange(0, t.len() as int) == s.subrange(0, t.len() as int));
    } else {
        assert(s.subrange(0, s.len() as int) == s);
    }
}

/// The trimmed, non-blank values of `values`, each once, in first-occurrence order.
pub fn normalize_string_list(values: Vec<String>) -> (r: Vec<String>)
    ensures
        views(r@) == unique_trimmed(views(values@)),
{
    normalize_string_list_ref(&values)
}

/// [`normalize_string_list`] on a borrowed list.
pub fn normalize_string_list_ref(values: &Vec<String>) -> (r: Vec<String>)
    ensures
        views(r@) == unique_trimmed(views(values@)),
{
    let mut output: Vec<String> = Vec::new();
    let mut i: usize = 0;
    while i < values.len()
        invariant
            i <= values.len(),
            views(output@) == unique_trimmed(views(values@.subrange(0, i as int))),
        decreases values.len() - i,
    {
        assert(views(values@.subrange(0, i + 1)).drop_last() == views(values@.subrange(0, i as int)));
        push_unique(&mut output, values[i].clone());
        i += 1;
    }
    assert(values@.subrange(0, values@.len() as int) == values@);
    output
}

/// The first non-blank value, trimmed, or the empty string.
pub fn first_non_empty(values: &[&str]) -> (r: String)
    ensures
        r@ == first_nonblank(values@.map_values(|s: &str| s@)),
{
    let ghost vs = values@.map_values(|s: &str| s@);
    assert(vs.subrange(0, vs.len() as int) == vs);
    let mut i: usize = 0;
    while i < values.len()
        invariant
            i <= values@.len(),
            vs == values@.map_values(|s: &str| s@),
            first_nonblank(vs) == first_nonblank(vs.subrange(i as int, vs.len() as int)),
            forall|k: int| 0 <= k < i ==> is_blank(#[trigger] vs[k]),
        decreases values.len() - i,
    {
        let ghost t = vs.subrange(i as int, vs.len() as int);
        assert(t[0] == values@[i as int]@);
        if !is_blank_str(values[i]) {
            return trim_str(values[i]);
        }
        assert(t.drop_first() == vs.subrange(i + 1, vs.len() as int));
        i += 1;
    }
    assert(vs.subrange(i as int, vs.len() as int).len() == 0);
    String::new()
}

/// The strings of `list` joined with `sep` between neighbours.
pub fn join_strings(list: &Vec<String>, sep: &str) -> (r: String)
    ensures
        r@ == join(views(list@), sep@),
{
    let mut r = String::new();
    let mut i: usize = 0;
    while i < list.len()
        invariant
            i <= list.len(),
            r@ == join(views(list@).subrange(0, i as int), sep@),
        decreases list.len() - i,
    {
        let ghost done = views(list@).subrange(0, i + 1);
        assert(done.drop_last() == views(list@).subrange(0, i as int));
        if i > 0 {
            r.append(sep);
        }
        r.append(list[i].as_str());
        i += 1;
    }
    assert(views(list@).subrange(0, list@.len() as int) == views(list@));
    r
}

} // verus!
