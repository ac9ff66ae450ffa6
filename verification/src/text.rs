//! Text primitives over the character view of strings.
//!
//! Every string is reasoned about through its `Seq<char>` view. The spec
//! functions here say what the string operations of the library mean; the
//! executable functions compute them and are proved against those specs.
use vstd::prelude::*;
use vstd::string::*;

verus! {

/// Unicode `White_Space`: the characters that `char::is_whitespace` accepts.
pub open spec fn is_ws(c: char) -> bool {
    let u = c as u32;
    ||| 0x09 <= u <= 0x0D
    ||| u == 0x20
    ||| u == 0x85
    ||| u == 0xA0
    ||| u == 0x1680
    ||| 0x2000 <= u <= 0x200A
    ||| u == 0x2028
    ||| u == 0x2029
    ||| u == 0x202F
    ||| u == 0x205F
    ||| u == 0x3000
}

/// `s` without its leading whitespace.
pub open spec fn trim_start(s: Seq<char>) -> Seq<char>
    decreases s.len(),
{
    if s.len() > 0 && is_ws(s[0]) {
        trim_start(s.drop_first())
    } else {
        s
    }
}

/// `s` without its trailing whitespace.
pub open spec fn trim_end(s: Seq<char>) -> Seq<char>
    decreases s.len(),
{
    if s.len() > 0 && is_ws(s.last()) {
        trim_end(s.drop_last())
    } else {
        s
    }
}

/// `s` without leading and trailing whitespace (what `str::trim` gives).
pub open spec fn trim(s: Seq<char>) -> Seq<char> {
    trim_end(trim_start(s))
}

/// The string holds nothing but whitespace (or nothing at all).
pub open spec fn is_blank(s: Seq<char>) -> bool {
    trim(s).len() == 0
}

/// `n` occurs in `h` as a contiguous piece.
pub open spec fn contains(h: Seq<char>, n: Seq<char>) -> bool {
    exists|i: int| 0 <= i && i + n.len() <= h.len() && #[trigger] h.subrange(i, i + n.len()) == n
}

/// `s` begins with `p`.
pub open spec fn starts_with(s: Seq<char>, p: Seq<char>) -> bool {
    p.len() <= s.len() && s.subrange(0, p.len() as int) == p
}

/// `s` ends with `p`.
pub open spec fn ends_with(s: Seq<char>, p: Seq<char>) -> bool {
    p.len() <= s.len() && s.subrange(s.len() - p.len(), s.len() as int) == p
}

/// Left-to-right replacement of every non-overlapping occurrence of `from`
/// by `to` (what `str::replace` gives for a non-empty pattern).
pub open spec fn replace_all(s: Seq<char>, from: Seq<char>, to: Seq<char>) -> Seq<char>
    recommends
        from.len() > 0,
    decreases s.len(),
{
    if s.len() == 0 || from.len() == 0 {
        s
    } else if starts_with(s, from) {
        to + replace_all(s.subrange(from.len() as int, s.len() as int), from, to)
    } else {
        seq![s[0]] + replace_all(s.drop_first(), from, to)
    }
}

/// Drops every character from a `<` up to and including the next `>`;
/// `in_tag` tells whether a `<` is still open at the start of `s`.
pub open spec fn strip_tags(s: Seq<char>, in_tag: bool) -> Seq<char>
    decreases s.len(),
{
    if s.len() == 0 {
        s
    } else if s[0] == '<' {
        strip_tags(s.drop_first(), true)
    } else if s[0] == '>' {
        strip_tags(s.drop_first(), false)
    } else if in_tag {
        strip_tags(s.drop_first(), true)
    } else {
        seq![s[0]] + strip_tags(s.drop_first(), false)
    }
}

/// Length of the run of non-whitespace characters at the start of `s`.
pub open spec fn word_len(s: Seq<char>) -> nat
    decreases s.len(),
{
    if s.len() == 0 || is_ws(s[0]) {
        0
    } else {
        1 + word_len(s.drop_first())
    }
}

/// The whitespace-separated words of `s` (what `split_whitespace` yields).
pub open spec fn words(s: Seq<char>) -> Seq<Seq<char>>
    decreases s.len(),
{
    if s.len() == 0 {
        seq![]
    } else if is_ws(s[0]) {
        words(s.drop_first())
    } else {
        let k = word_len(s);
        proof {
            lemma_word_len(s);
        }
        seq![s.subrange(0, k as int)] + words(s.subrange(k as int, s.len() as int))
    }
}

/// A word at the front of a non-empty, non-blank-led string is non-empty and
/// fits in the string.
pub proof fn lemma_word_len(s: Seq<char>)
    ensures
        word_len(s) <= s.len(),
        s.len() > 0 && !is_ws(s[0]) ==> word_len(s) > 0,
        forall|k: int| 0 <= k < word_len(s) ==> !is_ws(#[trigger] s[k]),
        word_len(s) < s.len() ==> is_ws(s[word_len(s) as int]),
    decreases s.len(),
{
    if s.len() > 0 && !is_ws(s[0]) {
        lemma_word_len(s.drop_first());
        assert forall|k: int| 0 <= k < word_len(s) implies !is_ws(#[trigger] s[k]) by {
            if k > 0 {
                assert(s[k] == s.drop_first()[k - 1]);
            }
        }
    }
}

/// The pieces of `ws` joined with `sep` between neighbours.
pub open spec fn join(ws: Seq<Seq<char>>, sep: Seq<char>) -> Seq<char>
    decreases ws.len(),
{
    if ws.len() == 0 {
        seq![]
    } else if ws.len() == 1 {
        ws[0]
    } else {
        join(ws.drop_last(), sep) + sep + ws.last()
    }
}

/// The words of `s` joined by single spaces.
pub open spec fn squash_ws(s: Seq<char>) -> Seq<char> {
    join(words(s), seq![' '])
}

/// `s` with every whitespace character removed.
pub open spec fn remove_ws(s: Seq<char>) -> Seq<char>
    decreases s.len(),
{
    if s.len() == 0 {
        s
    } else if is_ws(s.last()) {
        remove_ws(s.drop_last())
    } else {
        remove_ws(s.drop_last()).push(s.last())
    }
}

/// What `str::to_lowercase` returns for a string; Unicode case mapping.
pub uninterp spec fn lowercase(s: Seq<char>) -> Seq<char>;

/// What `str::to_uppercase` returns for a string; Unicode case mapping.
pub uninterp spec fn uppercase(s: Seq<char>) -> Seq<char>;

/// The decimal digit for `d` (`0 <= d < 10`).
pub open spec fn digit(d: nat) -> char {
    (d + 48) as char
}

/// The decimal representation of `n`, without leading zeros.
pub open spec fn decimal(n: nat) -> Seq<char>
    decreases n,
{
    if n < 10 {
        seq![digit(n)]
    } else {
        decimal(n / 10).push(digit(n % 10))
    }
}

/// The decimal representation of a signed integer.
pub open spec fn signed_decimal(n: int) -> Seq<char> {
    if n < 0 {
        seq!['-'] + decimal((-n) as nat)
    } else {
        decimal(n as nat)
    }
}

/// The FNV-1a 64-bit hash of a byte sequence.
pub open spec fn fnv1a(bytes: Seq<u8>) -> u64
    decreases bytes.len(),
{
    if bytes.len() == 0 {
        14695981039346656037u64
    } else {
        vstd::wrapping::u64_specs::wrapping_mul(
            fnv1a(bytes.drop_last()) ^ (bytes.last() as u64),
            1099511628211u64,
        )
    }
}

/// Appends one character to a string (`String::push`).
#[verifier::external_body]
pub fn push_char(s: &mut String, c: char)
    ensures
        final(s)@ == old(s)@.push(c),
{
    s.push(c);
}

/// The lower-case form of `s` (`str::to_lowercase`).
#[verifier::external_body]
pub fn to_lowercase(s: &str) -> (r: String)
    ensures
        r@ == lowercase(s@),
{
    s.to_lowercase()
}

/// The upper-case form of `s` (`str::to_uppercase`).
#[verifier::external_body]
pub fn to_uppercase(s: &str) -> (r: String)
    ensures
        r@ == uppercase(s@),
{
    s.to_uppercase()
}

/// The characters of a string, in order.
pub fn chars_of(s: &str) -> (v: Vec<char>)
    ensures
        v@ == s@,
{
    let mut v: Vec<char> = Vec::new();
    for c in it: s.chars()
        invariant
            it.seq() == s@,
            v@ == it.seq().take(it.index()),
    {
        v.push(c);
    }
    v
}

/// The string made of the characters `v[from..to]`.
pub fn string_of(v: &Vec<char>, from: usize, to: usize) -> (r: String)
    requires
        from <= to <= v.len(),
    ensures
        r@ == v@.subrange(from as int, to as int),
{
    let mut r = String::new();
    let mut i = from;
    while i < to
        invariant
            from <= i <= to <= v.len(),
            r@ == v@.subrange(from as int, i as int),
        decreases to - i,
    {
        push_char(&mut r, v[i]);
        assert(v@.subrange(from as int, i + 1) == v@.subrange(from as int, i as int).push(v@[i as int]));
        i += 1;
    }
    r
}

/// The string made of all of `v`.
pub fn string_of_all(v: &Vec<char>) -> (r: String)
    ensures
        r@ == v@,
{
    let r = string_of(v, 0, v.len());
    assert(v@.subrange(0, v@.len() as int) == v@);
    r
}

/// A copy of `s` as an owned string.
pub fn owned(s: &str) -> (r: String)
    ensures
        r@ == s@,
{
    String::from_str(s)
}

/// `a` followed by `b`.
pub fn concat2(a: &str, b: &str) -> (r: String)
    ensures
        r@ == a@ + b@,
{
    let mut r = String::from_str(a);
    r.append(b);
    r
}

/// `a`, `b` and `c` one after the other.
pub fn concat3(a: &str, b: &str, c: &str) -> (r: String)
    ensures
        r@ == a@ + b@ + c@,
{
    let mut r = String::from_str(a);
    r.append(b);
    r.append(c);
    r
}

/// Whether a character is Unicode whitespace.
pub fn is_ws_char(c: char) -> (r: bool)
    ensures
        r == is_ws(c),
{
    let u = c as u32;
    (0x09 <= u && u <= 0x0D) || u == 0x20 || u == 0x85 || u == 0xA0 || u == 0x1680 || (0x2000 <= u
        && u <= 0x200A) || u == 0x2028 || u == 0x2029 || u == 0x202F || u == 0x205F || u == 0x3000
}

proof fn lemma_trim_start_skip(s: Seq<char>, i: int)
    requires
        0 <= i <= s.len(),
        forall|k: int| 0 <= k < i ==> is_ws(#[trigger] s[k]),
    ensures
        trim_start(s) == trim_start(s.subrange(i, s.len() as int)),
    decreases i,
{
    if i > 0 {
        assert(s.drop_first() == s.subrange(1, s.len() as int));
        lemma_trim_start_skip(s.drop_first(), i - 1);
        assert(s.drop_first().subrange(i - 1, s.drop_first().len() as int) == s.subrange(
            i,
            s.len() as int,
        ));
    } else {
        assert(s.subrange(0, s.len() as int) == s);
    }
}

proof fn lemma_trim_end_cut(s: Seq<char>, j: int)
    requires
        0 <= j <= s.len(),
        forall|k: int| j <= k < s.len() ==> is_ws(#[trigger] s[k]),
    ensures
        trim_end(s) == trim_end(s.subrange(0, j)),
    decreases s.len() - j,
{
    if j < s.len() {
        lemma_trim_end_cut(s.drop_last(), j);
        assert(s.drop_last().subrange(0, j) == s.subrange(0, j));
    } else {
        assert(s.subrange(0, j) == s);
    }
}

/// `s` without leading and trailing whitespace.
pub fn trim_chars(v: &Vec<char>) -> (r: (usize, usize))
    ensures
        r.0 <= r.1 <= v.len(),
        v@.subrange(r.0 as int, r.1 as int) == trim(v@),
{
    let n = v.len();
    let mut i: usize = 0;
    while i < n && is_ws_char(v[i])
        invariant
            i <= n == v.len(),
            forall|k: int| 0 <= k < i ==> is_ws(#[trigger] v@[k]),
        decreases n - i,
    {
        i += 1;
    }
    proof {
        lemma_trim_start_skip(v@, i as int);
    }
    let ghost rest = v@.subrange(i as int, n as int);
    assert(trim_start(rest) == rest);
    let mut j: usize = n;
    while j > i && is_ws_char(v[j - 1])
        invariant
            i <= j <= n == v.len(),
            rest == v@.subrange(i as int, n as int),
            forall|k: int| j <= k < n ==> is_ws(#[trigger] v@[k]),
        decreases j - i,
    {
        j -= 1;
    }
    proof {
        assert forall|k: int| j - i <= k < rest.len() implies is_ws(#[trigger] rest[k]) by {
            assert(rest[k] == v@[k + i]);
        }
        lemma_trim_end_cut(rest, j - i);
        assert(rest.subrange(0, j - i) == v@.subrange(i as int, j as int));
        let t = v@.subrange(i as int, j as int);
        if t.len() > 0 {
            assert(t.last() == v@[j - 1]);
        }
        assert(trim_end(t) == t);
    }
    (i, j)
}

/// `s` without leading and trailing whitespace (`str::trim`).
pub fn trim_str(s: &str) -> (r: String)
    ensures
        r@ == trim(s@),
{
    let v = chars_of(s);
    let (i, j) = trim_chars(&v);
    string_of(&v, i, j)
}

/// Whether `s` holds only whitespace.
pub fn is_blank_str(s: &str) -> (r: bool)
    ensures
        r == is_blank(s@),
{
    let v = chars_of(s);
    let (i, j) = trim_chars(&v);
    i == j
}

/// Whether `n` occurs in `h` at index `i`.
fn matches_at(h: &Vec<char>, i: usize, n: &Vec<char>) -> (r: bool)
    requires
        i + n.len() <= h.len(),
    ensures
        r == (h@.subrange(i as int, i + n.len()) == n@),
{
    let mut k: usize = 0;
    while k < n.len()
        invariant
            i + n.len() <= h.len(),
            k <= n.len(),
            forall|m: int| 0 <= m < k ==> h@[i + m] == n@[m],
        decreases n.len() - k,
    {
        if h[i + k] != n[k] {
            assert(h@.subrange(i as int, i + n.len())[k as int] != n@[k as int]);
            return false;
        }
        k += 1;
    }
    assert(h@.subrange(i as int, i + n.len()) =~= n@);
    true
}

/// Whether `n` occurs in the characters `h`.
pub fn contains_chars(h: &Vec<char>, n: &Vec<char>) -> (r: bool)
    ensures
        r == contains(h@, n@),
{
    if n.len() > h.len() {
        return false;
    }
    let last = h.len() - n.len();
    let mut i: usize = 0;
    loop
        invariant
            last == h.len() - n.len(),
            n.len() <= h.len(),
            i <= last,
            forall|k: int| 0 <= k < i ==> #[trigger] h@.subrange(k, k + n.len()) != n@,
        decreases last - i,
    {
        if matches_at(h, i, n) {
            return true;
        }
        if i == last {
            return false;
        }
        i += 1;
    }
}

/// Whether `n` occurs in `h` (`str::contains`).
pub fn str_contains(h: &str, n: &str) -> (r: bool)
    ensures
        r == contains(h@, n@),
{
    let hv = chars_of(h);
    let nv = chars_of(n);
    contains_chars(&hv, &nv)
}

/// Whether `s` begins with `p` (`str::starts_with`).
pub fn str_starts_with(s: &str, p: &str) -> (r: bool)
    ensures
        r == starts_with(s@, p@),
{
    let sv = chars_of(s);
    let pv = chars_of(p);
    if pv.len() > sv.len() {
        return false;
    }
    matches_at(&sv, 0, &pv)
}

/// Whether `s` ends with `p` (`str::ends_with`).
pub fn str_ends_with(s: &str, p: &str) -> (r: bool)
    ensures
        r == ends_with(s@, p@),
{
    let sv = chars_of(s);
    let pv = chars_of(p);
    if pv.len() > sv.len() {
        return false;
    }
    matches_at(&sv, sv.len() - pv.len(), &pv)
}

/// Whether two strings hold the same characters.
pub fn same_text(a: &str, b: &str) -> (r: bool)
    ensures
        r == (a@ == b@),
{
    let av = chars_of(a);
    let bv = chars_of(b);
    if av.len() != bv.len() {
        return false;
    }
    let r = matches_at(&av, 0, &bv);
    assert(av@.subrange(0, bv@.len() as int) == av@);
    r
}


/// Appends the characters of `src` to `out`.
pub fn append_chars(out: &mut Vec<char>, src: &Vec<char>)
    ensures
        final(out)@ == old(out)@ + src@,
{
    let mut k: usize = 0;
    while k < src.len()
        invariant
            k <= src.len(),
            out@ == old(out)@ + src@.subrange(0, k as int),
        decreases src.len() - k,
    {
        out.push(src[k]);
        assert(src@.subrange(0, k + 1) == src@.subrange(0, k as int).push(src@[k as int]));
        k += 1;
    }
    assert(src@.subrange(0, src@.len() as int) == src@);
}

/// Replaces every non-overlapping occurrence of `from` by `to`, left to right.
pub fn replace_chars(s: &Vec<char>, from: &Vec<char>, to: &Vec<char>) -> (r: Vec<char>)
    requires
        from.len() > 0,
    ensures
        r@ == replace_all(s@, from@, to@),
{
    let n = s.len();
    let mut out: Vec<char> = Vec::new();
    let mut i: usize = 0;
    assert(s@.subrange(0, n as int) == s@);
    while i < n
        invariant
            i <= n == s.len(),
            from.len() > 0,
            replace_all(s@, from@, to@) == out@ + replace_all(s@.subrange(i as int, n as int), from@, to@),
        decreases n - i,
    {
        let ghost t = s@.subrange(i as int, n as int);
        if from.len() <= n - i && matches_at(s, i, from) {
            assert(t.subrange(0, from@.len() as int) == s@.subrange(i as int, i + from@.len()));
            assert(starts_with(t, from@));
            assert(t.subrange(from@.len() as int, t.len() as int) == s@.subrange(i + from@.len(), n as int));
            append_chars(&mut out, to);
            i = i + from.len();
        } else {
            proof {
                if from@.len() <= t.len() {
                    assert(t.subrange(0, from@.len() as int) == s@.subrange(i as int, i + from@.len()));
                }
            }
            assert(!starts_with(t, from@));
            assert(t.drop_first() == s@.subrange(i + 1, n as int));
            out.push(s[i]);
            i = i + 1;
        }
    }
    assert(out@ + replace_all(s@.subrange(n as int, n as int), from@, to@) == out@);
    out
}

/// Drops every `<...>` tag from the characters `s`.
pub fn strip_tag_chars(s: &Vec<char>) -> (r: Vec<char>)
    ensures
        r@ == strip_tags(s@, false),
{
    let n = s.len();
    let mut out: Vec<char> = Vec::new();
    let mut in_tag = false;
    let mut i: usize = 0;
    assert(s@.subrange(0, n as int) == s@);
    while i < n
        invariant
            i <= n == s.len(),
            strip_tags(s@, false) == out@ + strip_tags(s@.subrange(i as int, n as int), in_tag),
        decreases n - i,
    {
        let ghost t = s@.subrange(i as int, n as int);
        assert(t.drop_first() == s@.subrange(i + 1, n as int));
        let c = s[i];
        if c == '<' {
            in_tag = true;
        } else if c == '>' {
            in_tag = false;
        } else if !in_tag {
            out.push(c);
        }
        i += 1;
    }
    assert(out@ + strip_tags(s@.subrange(n as int, n as int), in_tag) == out@);
    out
}

proof fn lemma_word_len_exact(t: Seq<char>, m: int)
    requires
        0 <= m <= t.len(),
        forall|k: int| 0 <= k < m ==> !is_ws(#[trigger] t[k]),
        m == t.len() || is_ws(t[m]),
    ensures
        word_len(t) == m,
{
    lemma_word_len(t);
    let w = word_len(t) as int;
    if w < m {
        assert(is_ws(t[w]));
        assert(!is_ws(t[w]));
    } else if w > m {
        assert(!is_ws(t[m]));
    }
}

/// The words of the characters `s` joined by single spaces
/// (`split_whitespace` followed by `join(" ")`).
pub fn squash_ws_chars(s: &Vec<char>) -> (r: Vec<char>)
    ensures
        r@ == squash_ws(s@),
{
    let n = s.len();
    let mut out: Vec<char> = Vec::new();
    let ghost mut done: Seq<Seq<char>> = seq![];
    let mut i: usize = 0;
    assert(s@.subrange(0, n as int) == s@);
    while i < n
        invariant
            i <= n == s.len(),
            words(s@) == done + words(s@.subrange(i as int, n as int)),
            out@ == join(done, seq![' ']),
            (out@.len() == 0) == (done.len() == 0),
        decreases n - i,
    {
        let ghost t = s@.subrange(i as int, n as int);
        if is_ws_char(s[i]) {
            assert(t.drop_first() == s@.subrange(i + 1, n as int));
            i += 1;
        } else {
            let mut j = i;
            while j < n && !is_ws_char(s[j])
                invariant
                    i <= j <= n == s.len(),
                    forall|k: int| i <= k < j ==> !is_ws(#[trigger] s@[k]),
                decreases n - j,
            {
                j += 1;
            }
            proof {
                assert forall|k: int| 0 <= k < j - i implies !is_ws(#[trigger] t[k]) by {
                    assert(t[k] == s@[i + k]);
                }
                if j < n {
                    assert(t[j - i] == s@[j as int]);
                }
                lemma_word_len_exact(t, j - i);
                assert(t.subrange(0, j - i) == s@.subrange(i as int, j as int));
                assert(t.subrange(j - i, t.len() as int) == s@.subrange(j as int, n as int));
            }
            let ghost w = s@.subrange(i as int, j as int);
            let ghost old_done = done;
            if out.len() > 0 {
                out.push(' ');
            }
            let mut k = i;
            while k < j
                invariant
                    i <= k <= j <= n == s.len(),
                    out@ == (if old_done.len() == 0 { seq![] } else { join(old_done, seq![' ']) + seq![' '] }) + s@.subrange(i as int, k as int),
                decreases j - k,
            {
                out.push(s[k]);
                assert(s@.subrange(i as int, k + 1) == s@.subrange(i as int, k as int).push(s@[k as int]));
                k += 1;
            }
            proof {
                done = done.push(w);
                assert(done.drop_last() == old_done);
                if old_done.len() == 0 {
                    assert(done.len() == 1);
                    assert(out@ == w);
                } else {
                    assert(join(done, seq![' ']) == join(old_done, seq![' ']) + seq![' '] + w);
                }
                assert(words(s@) == done + words(s@.subrange(j as int, n as int)));
            }
            i = j;
        }
    }
    assert(words(s@.subrange(n as int, n as int)) == Seq::<Seq<char>>::empty());
    assert(done + Seq::<Seq<char>>::empty() == done);
    out
}

/// The characters `s` with every whitespace character removed.
pub fn remove_ws_chars(s: &Vec<char>) -> (r: Vec<char>)
    ensures
        r@ == remove_ws(s@),
{
    let mut out: Vec<char> = Vec::new();
    let mut i: usize = 0;
    while i < s.len()
        invariant
            i <= s.len(),
            out@ == remove_ws(s@.subrange(0, i as int)),
        decreases s.len() - i,
    {
        assert(s@.subrange(0, i + 1).drop_last() == s@.subrange(0, i as int));
        if !is_ws_char(s[i]) {
            out.push(s[i]);
        }
        i += 1;
    }
    assert(s@.subrange(0, s@.len() as int) == s@);
    out
}

/// What the library shows of a scraped piece of text: tags dropped, the four
/// common entities decoded, whitespace runs squashed to single spaces.
pub open spec fn clean(s: Seq<char>) -> Seq<char> {
    squash_ws(
        replace_all(
            replace_all(
                replace_all(replace_all(strip_tags(s, false), "&nbsp;"@, " "@), "&amp;"@, "&"@),
                "&lt;"@,
                "<"@,
            ),
            "&gt;"@,
            ">"@,
        ),
    )
}

/// Cleans scraped text: strips markup, decodes `&nbsp;`, `&amp;`, `&lt;`,
/// `&gt;` and squashes whitespace.
pub fn clean_text(text: &str) -> (r: String)
    ensures
        r@ == clean(text@),
{
    proof {
        reveal_strlit("&nbsp;");
        reveal_strlit("&amp;");
        reveal_strlit("&lt;");
        reveal_strlit("&gt;");
    }
    let v = chars_of(text);
    let a = strip_tag_chars(&v);
    let b = replace_chars(&a, &chars_of("&nbsp;"), &chars_of(" "));
    let c = replace_chars(&b, &chars_of("&amp;"), &chars_of("&"));
    let d = replace_chars(&c, &chars_of("&lt;"), &chars_of("<"));
    let e = replace_chars(&d, &chars_of("&gt;"), &chars_of(">"));
    let f = squash_ws_chars(&e);
    string_of_all(&f)
}

/// Strips markup from `text`: every `<...>` tag is dropped.
pub fn strip_markup(text: &str) -> (r: String)
    ensures
        r@ == strip_tags(text@, false),
{
    let v = chars_of(text);
    let a = strip_tag_chars(&v);
    string_of_all(&a)
}

/// The decimal digits of `n`.
pub fn decimal_chars(n: u64) -> (r: Vec<char>)
    ensures
        r@ == decimal(n as nat),
    decreases n,
{
    if n < 10 {
        let d = ((n as u32) + 48) as u8 as char;
        vec![d]
    } else {
        let mut v = decimal_chars(n / 10);
        let d = (((n % 10) as u32) + 48) as u8 as char;
        v.push(d);
        v
    }
}

/// The decimal digits of `n`.
pub fn decimal_chars_u128(n: u128) -> (r: Vec<char>)
    ensures
        r@ == decimal(n as nat),
    decreases n,
{
    if n < 10 {
        let d = ((n as u32) + 48) as u8 as char;
        vec![d]
    } else {
        let mut v = decimal_chars_u128(n / 10);
        let d = (((n % 10) as u32) + 48) as u8 as char;
        v.push(d);
        v
    }
}

/// The decimal representation of `n`.
pub fn u128_to_string(n: u128) -> (r: String)
    ensures
        r@ == decimal(n as nat),
{
    let v = decimal_chars_u128(n);
    string_of_all(&v)
}

/// The decimal representation of `n`.
pub fn u64_to_string(n: u64) -> (r: String)
    ensures
        r@ == decimal(n as nat),
{
    let v = decimal_chars(n);
    string_of_all(&v)
}

/// The decimal representation of a signed `n`.
pub fn i64_to_string(n: i64) -> (r: String)
    ensures
        r@ == signed_decimal(n as int),
{
    if n < 0 {
        let m: u64 = (-(n as i128)) as u64;
        let v = decimal_chars(m);
        let mut r = String::new();
        push_char(&mut r, '-');
        let t = string_of_all(&v);
        r.append(t.as_str());
        assert(r@ == seq!['-'] + decimal(m as nat));
        r
    } else {
        u64_to_string(n as u64)
    }
}

/// FNV-1a hash of the UTF-8 bytes of `value`.
pub fn stable_hash(value: &str) -> (r: u64)
    ensures
        r == fnv1a(value.spec_bytes()),
{
    let bytes = value.as_bytes();
    let mut hash: u64 = 14695981039346656037u64;
    let mut i: usize = 0;
    while i < bytes.len()
        invariant
            i <= bytes@.len(),
            bytes@ == value.spec_bytes(),
            hash == fnv1a(bytes@.subrange(0, i as int)),
        decreases bytes.len() - i,
    {
        assert(bytes@.subrange(0, i + 1).drop_last() == bytes@.subrange(0, i as int));
        hash = (hash ^ (bytes[i] as u64)).wrapping_mul(1099511628211u64);
        i += 1;
    }
    assert(bytes@.subrange(0, bytes@.len() as int) == bytes@);
    hash
}


/// `s` with `p` removed from its front as many times as it is there
/// (`str::trim_start_matches` with a string pattern).
pub open spec fn strip_prefix_rep(s: Seq<char>, p: Seq<char>) -> Seq<char>
    decreases s.len(),
{
    if p.len() > 0 && starts_with(s, p) {
        strip_prefix_rep(s.subrange(p.len() as int, s.len() as int), p)
    } else {
        s
    }
}

/// `s` with every trailing `c` removed (`str::trim_end_matches` with a char).
pub open spec fn strip_suffix_rep(s: Seq<char>, c: char) -> Seq<char>
    decreases s.len(),
{
    if s.len() > 0 && s.last() == c {
        strip_suffix_rep(s.drop_last(), c)
    } else {
        s
    }
}

/// The part of `s` before the first `c` (all of `s` when there is none).
pub open spec fn before_char(s: Seq<char>, c: char) -> Seq<char>
    decreases s.len(),
{
    if s.len() == 0 {
        s
    } else if s[0] == c {
        seq![]
    } else {
        seq![s[0]] + before_char(s.drop_first(), c)
    }
}

/// Drops `p` from the front of the characters `v` as often as it is there.
pub fn strip_prefix_rep_chars(v: &Vec<char>, p: &Vec<char>) -> (r: usize)
    ensures
        r <= v.len(),
        v@.subrange(r as int, v.len() as int) == strip_prefix_rep(v@, p@),
{
    let n = v.len();
    let mut i: usize = 0;
    assert(v@.subrange(0, n as int) == v@);
    if p.len() == 0 {
        return 0;
    }
    while p.len() <= n - i && matches_at(v, i, p)
        invariant
            i <= n == v.len(),
            p.len() > 0,
            strip_prefix_rep(v@, p@) == strip_prefix_rep(v@.subrange(i as int, n as int), p@),
        decreases n - i,
    {
        let ghost t = v@.subrange(i as int, n as int);
        assert(t.subrange(0, p@.len() as int) == v@.subrange(i as int, i + p@.len()));
        assert(t.subrange(p@.len() as int, t.len() as int) == v@.subrange(i + p@.len(), n as int));
        i = i + p.len();
    }
    proof {
        let t = v@.subrange(i as int, n as int);
        if p@.len() <= t.len() {
            assert(t.subrange(0, p@.len() as int) == v@.subrange(i as int, i + p@.len()));
        }
    }
    i
}

/// Drops every trailing `c` from the characters `v[..to]`.
pub fn strip_suffix_rep_chars(v: &Vec<char>, to: usize, c: char) -> (r: usize)
    requires
        to <= v.len(),
    ensures
        r <= to,
        v@.subrange(0, r as int) == strip_suffix_rep(v@.subrange(0, to as int), c),
{
    let mut j = to;
    while j > 0 && v[j - 1] == c
        invariant
            j <= to <= v.len(),
            strip_suffix_rep(v@.subrange(0, to as int), c) == strip_suffix_rep(v@.subrange(0, j as int), c),
        decreases j,
    {
        assert(v@.subrange(0, j as int).drop_last() == v@.subrange(0, j - 1));
        j -= 1;
    }
    j
}

/// The characters of `v[from..to]` before the first `c`.
pub fn before_char_chars(v: &Vec<char>, from: usize, to: usize, c: char) -> (r: usize)
    requires
        from <= to <= v.len(),
    ensures
        from <= r <= to,
        v@.subrange(from as int, r as int) == before_char(v@.subrange(from as int, to as int), c),
{
    let mut k = from;
    while k < to && v[k] != c
        invariant
            from <= k <= to <= v.len(),
            before_char(v@.subrange(from as int, to as int), c) == v@.subrange(from as int, k as int)
                + before_char(v@.subrange(k as int, to as int), c),
        decreases to - k,
    {
        let ghost t = v@.subrange(k as int, to as int);
        assert(t.drop_first() == v@.subrange(k + 1, to as int));
        assert(v@.subrange(from as int, k + 1) == v@.subrange(from as int, k as int) + seq![v@[k as int]]);
        k += 1;
    }
    k
}

/// The endpoint form that settings keep: trimmed, trailing slashes dropped.
pub open spec fn clean_endpoint(s: Seq<char>) -> Seq<char> {
    strip_suffix_rep(trim(s), '/')
}

/// The host part of a URL as shown for unnamed sources: trimmed, scheme
/// prefixes and trailing slashes dropped, everything from the first `/` cut.
pub open spec fn host_label_of(s: Seq<char>) -> Seq<char> {
    before_char(
        strip_suffix_rep(strip_prefix_rep(strip_prefix_rep(trim(s), "https://"@), "http://"@), '/'),
        '/',
    )
}

/// The hash of the UTF-8 encoding of a string.
pub open spec fn hash_text(s: Seq<char>) -> u64 {
    fnv1a(vstd::utf8::encode_utf8(s))
}

/// Trims `value` and drops its trailing slashes.
pub fn clean_endpoint_str(value: &str) -> (r: String)
    ensures
        r@ == clean_endpoint(value@),
{
    let t = trim_str(value);
    let v = chars_of(t.as_str());
    let j = strip_suffix_rep_chars(&v, v.len(), '/');
    assert(v@.subrange(0, v@.len() as int) == v@);
    string_of(&v, 0, j)
}

/// The host label of `value` (see [`host_label_of`]).
pub fn host_label(value: &str) -> (r: String)
    ensures
        r@ == host_label_of(value@),
{
    let t = trim_str(value);
    let v = chars_of(t.as_str());
    let https = chars_of("https://");
    let http = chars_of("http://");
    let a = strip_prefix_rep_chars(&v, &https);
    let rest_a = string_of(&v, a, v.len());
    let w = chars_of(rest_a.as_str());
    let b = strip_prefix_rep_chars(&w, &http);
    let rest_b = string_of(&w, b, w.len());
    let x = chars_of(rest_b.as_str());
    let j = strip_suffix_rep_chars(&x, x.len(), '/');
    assert(x@.subrange(0, x@.len() as int) == x@);
    let k = before_char_chars(&x, 0, j, '/');
    string_of(&x, 0, k)
}

/// The text hash of `value`, as a decimal string.
pub fn hash_string(value: &str) -> (r: String)
    ensures
        r@ == decimal(hash_text(value@) as nat),
{
    u64_to_string(stable_hash(value))
}

} // verus!
