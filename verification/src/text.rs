//! Character-level string operations with exact specifications.
//!
//! Strings are handled as sequences of `char`: each operation below is
//! specified over `Seq<char>` by a spec function, and its executable
//! counterpart works on a `Vec<char>` copy of the string.
use vstd::prelude::*;

verus! {

// ───────────────────────── specifications ─────────────────────────

/// `p` is a prefix of `s`.
pub open spec fn is_prefix(p: Seq<char>, s: Seq<char>) -> bool {
    p.len() <= s.len() && s.take(p.len() as int) == p
}

/// `pat` occurs in `s` starting at index `i`.
pub open spec fn occurs_at(s: Seq<char>, pat: Seq<char>, i: int) -> bool {
    0 <= i && i + pat.len() <= s.len() && s.subrange(i, i + pat.len()) == pat
}

/// `pat` occurs somewhere in `s`.
pub open spec fn contains(s: Seq<char>, pat: Seq<char>) -> bool {
    exists|i: int| occurs_at(s, pat, i)
}

/// The first index at or after `i` where `pat` occurs in `s`.
pub open spec fn find_from(s: Seq<char>, pat: Seq<char>, i: int) -> Option<int>
    decreases s.len() + 1 - i,
{
    if i < 0 || i + pat.len() > s.len() {
        None
    } else if occurs_at(s, pat, i) {
        Some(i)
    } else {
        find_from(s, pat, i + 1)
    }
}

/// The first index where `pat` occurs in `s`.
pub open spec fn find(s: Seq<char>, pat: Seq<char>) -> Option<int> {
    find_from(s, pat, 0)
}

/// `s` with every non-overlapping occurrence of the non-empty `pat`,
/// scanned from the left, replaced by `rep`.
pub open spec fn replace_all(s: Seq<char>, pat: Seq<char>, rep: Seq<char>) -> Seq<char>
    decreases s.len(),
{
    if pat.len() == 0 || s.len() == 0 {
        s
    } else if is_prefix(pat, s) {
        rep + replace_all(s.skip(pat.len() as int), pat, rep)
    } else {
        seq![s[0]] + replace_all(s.drop_first(), pat, rep)
    }
}

/// The characters with the Unicode `White_Space` property
/// (those for which `char::is_whitespace` holds).
pub open spec fn is_white_space(c: char) -> bool {
    ||| ('\u{9}' <= c && c <= '\u{d}')
    ||| c == ' '
    ||| c == '\u{85}'
    ||| c == '\u{a0}'
    ||| c == '\u{1680}'
    ||| ('\u{2000}' <= c && c <= '\u{200a}')
    ||| c == '\u{2028}'
    ||| c == '\u{2029}'
    ||| c == '\u{202f}'
    ||| c == '\u{205f}'
    ||| c == '\u{3000}'
}

/// `s` without its leading white space.
pub open spec fn trim_start(s: Seq<char>) -> Seq<char>
    decreases s.len(),
{
    if s.len() > 0 && is_white_space(s[0]) {
        trim_start(s.drop_first())
    } else {
        s
    }
}

/// `s` without its trailing white space.
pub open spec fn trim_end(s: Seq<char>) -> Seq<char>
    decreases s.len(),
{
    if s.len() > 0 && is_white_space(s.last()) {
        trim_end(s.drop_last())
    } else {
        s
    }
}

/// `s` without leading and trailing white space.
pub open spec fn trim(s: Seq<char>) -> Seq<char> {
    trim_end(trim_start(s))
}

/// Index of the first `sep` in `s`, or `s.len()` when there is none.
pub open spec fn index_of_char(s: Seq<char>, sep: char) -> int
    decreases s.len(),
{
    if s.len() == 0 {
        0
    } else if s[0] == sep {
        0
    } else {
        1 + index_of_char(s.drop_first(), sep)
    }
}

/// The maximal non-empty runs of `s` that hold no `sep`, in order
/// (what `split(sep)` yields once the empty pieces are dropped).
pub open spec fn segments(s: Seq<char>, sep: char) -> Seq<Seq<char>>
    decreases s.len(),
{
    if s.len() == 0 {
        seq![]
    } else if s[0] == sep {
        segments(s.drop_first(), sep)
    } else {
        let k = index_of_char(s, sep);
        if 0 < k <= s.len() {
            seq![s.take(k)] + segments(s.skip(k), sep)
        } else {
            seq![]
        }
    }
}

/// `s` with every leading repetition of `p` removed (`trim_start_matches`).
pub open spec fn trim_start_matches(s: Seq<char>, p: Seq<char>) -> Seq<char>
    decreases s.len(),
{
    if p.len() > 0 && is_prefix(p, s) {
        trim_start_matches(s.skip(p.len() as int), p)
    } else {
        s
    }
}

/// Index of the last `c` in `s`, if any.
pub open spec fn last_index_of(s: Seq<char>, c: char) -> Option<int>
    decreases s.len(),
{
    if s.len() == 0 {
        None
    } else if s.last() == c {
        Some(s.len() - 1)
    } else {
        last_index_of(s.drop_last(), c)
    }
}

/// The pieces of `list` joined by `sep`.
pub open spec fn join(list: Seq<Seq<char>>, sep: Seq<char>) -> Seq<char>
    decreases list.len(),
{
    if list.len() == 0 {
        seq![]
    } else if list.len() == 1 {
        list[0]
    } else {
        join(list.drop_last(), sep) + sep + list.last()
    }
}

// ───────────────────────── lemmas ─────────────────────────

/// `index_of_char` lies within the sequence, and everything before it differs
/// from `sep`.
pub proof fn lemma_index_of_char(s: Seq<char>, sep: char)
    ensures
        0 <= index_of_char(s, sep) <= s.len(),
        index_of_char(s, sep) < s.len() ==> s[index_of_char(s, sep)] == sep,
        forall|j: int| 0 <= j < index_of_char(s, sep) ==> s[j] != sep,
    decreases s.len(),
{
    if s.len() > 0 && s[0] != sep {
        lemma_index_of_char(s.drop_first(), sep);
        assert forall|j: int| 0 <= j < index_of_char(s, sep) implies s[j] != sep by {
            if j > 0 {
                assert(s[j] == s.drop_first()[j - 1]);
            }
        }
    }
}

/// A path component: non-empty, with no `/`.
pub open spec fn is_component(c: Seq<char>) -> bool {
    c.len() > 0 && forall|i: int| 0 <= i < c.len() ==> c[i] != '/'
}

/// A relative path of components joined by single `/`s: non-empty, with no
/// `/` at either end and no two `/`s in a row.
pub open spec fn is_clean_path(r: Seq<char>) -> bool {
    &&& r.len() > 0
    &&& r[0] != '/'
    &&& r.last() != '/'
    &&& forall|i: int| 0 <= i < r.len() - 1 ==> !(#[trigger] r[i] == '/' && r[i + 1] == '/')
}

/// The first `sep` is at the index where it first occurs.
pub proof fn lemma_index_of_char_at(s: Seq<char>, sep: char, k: int)
    requires
        0 <= k <= s.len(),
        k < s.len() ==> s[k] == sep,
        forall|j: int| 0 <= j < k ==> s[j] != sep,
    ensures
        index_of_char(s, sep) == k,
{
    lemma_index_of_char(s, sep);
    let f = index_of_char(s, sep);
    if f < k {
        assert(s[f] == sep);
    }
    if k < f {
        assert(s[k] != sep);
    }
}

/// A leading `/` is passed over by `segments`.
pub proof fn lemma_segments_slash(s: Seq<char>)
    ensures
        segments(seq!['/'] + s, '/') == segments(s, '/'),
{
    assert((seq!['/'] + s).drop_first() =~= s);
}

/// A component followed by nothing or by a `/` is the first segment.
pub proof fn lemma_segments_component(w: Seq<char>, s: Seq<char>)
    requires
        is_component(w),
        s.len() == 0 || s[0] == '/',
    ensures
        segments(w + s, '/') == seq![w] + segments(s, '/'),
{
    let t = w + s;
    assert(t[0] == w[0]);
    lemma_index_of_char_at(t, '/', w.len() as int);
    assert(t.take(w.len() as int) =~= w);
    assert(t.skip(w.len() as int) =~= s);
}

/// Joining `w` in front of a non-empty list puts `w` and `sep` in front.
pub proof fn lemma_join_cons(w: Seq<char>, l: Seq<Seq<char>>, sep: Seq<char>)
    requires
        l.len() > 0,
    ensures
        join(seq![w] + l, sep) == w + sep + join(l, sep),
    decreases l.len(),
{
    let wl = seq![w] + l;
    if l.len() == 1 {
        assert(wl.drop_last() =~= seq![w]);
        assert(w + sep + l[0] =~= join(seq![w], sep) + sep + wl.last());
    } else {
        lemma_join_cons(w, l.drop_last(), sep);
        assert(wl.drop_last() =~= seq![w] + l.drop_last());
        assert(w + sep + join(l, sep) =~= (w + sep + join(l.drop_last(), sep)) + sep + l.last());
    }
}

/// A clean path splits into components that join back to it.
pub proof fn lemma_clean_path_segments(r: Seq<char>)
    requires
        is_clean_path(r),
    ensures
        segments(r, '/').len() > 0,
        join(segments(r, '/'), seq!['/']) == r,
    decreases r.len(),
{
    lemma_index_of_char(r, '/');
    let k = index_of_char(r, '/');
    let w = r.take(k);
    assert(k > 0);
    assert forall|i: int| 0 <= i < w.len() implies w[i] != '/' by {
        assert(w[i] == r[i]);
    }
    if k == r.len() {
        assert(w =~= r);
        lemma_segments_component(w, seq![]);
        assert(r + seq![] =~= r);
        assert(segments(seq![], '/') =~= Seq::<Seq<char>>::empty());
        assert(seq![w] + Seq::<Seq<char>>::empty() =~= seq![w]);
    } else {
        let rest = r.skip(k + 1);
        assert(k < r.len() - 1);
        assert(rest[0] == r[k + 1]);
        assert(r[k] == '/');
        assert(rest.last() == r.last());
        assert forall|i: int| 0 <= i < rest.len() - 1 implies !(#[trigger] rest[i] == '/' && rest[i + 1] == '/') by {
            assert(rest[i] == r[k + 1 + i] && rest[i + 1] == r[k + 2 + i]);
        }
        lemma_clean_path_segments(rest);
        let tail = seq!['/'] + rest;
        assert(r =~= w + tail);
        lemma_segments_component(w, tail);
        lemma_segments_slash(rest);
        lemma_join_cons(w, segments(rest, '/'), seq!['/']);
        assert(w + seq!['/'] + rest =~= r);
    }
}

/// Splitting at a `/`: the segments of `x/y` are those of `x`, then those of
/// `y`.
pub proof fn lemma_segments_split(x: Seq<char>, y: Seq<char>)
    ensures
        segments(x + seq!['/'] + y, '/') == segments(x, '/') + segments(y, '/'),
    decreases x.len(),
{
    let t = x + seq!['/'] + y;
    if x.len() == 0 {
        assert(t =~= seq!['/'] + y);
        lemma_segments_slash(y);
        assert(segments(x, '/') =~= Seq::<Seq<char>>::empty());
        assert(Seq::<Seq<char>>::empty() + segments(y, '/') =~= segments(y, '/'));
    } else if x[0] == '/' {
        lemma_segments_split(x.drop_first(), y);
        assert(t.drop_first() =~= x.drop_first() + seq!['/'] + y);
    } else {
        lemma_index_of_char(x, '/');
        let k = index_of_char(x, '/');
        assert(k > 0);
        assert(t[0] == x[0]);
        if k == x.len() {
            lemma_index_of_char_at(t, '/', k);
            assert(t.take(k) =~= x);
            assert(t.skip(k) =~= seq!['/'] + y);
            lemma_segments_slash(y);
            assert(x.take(k) =~= x);
            assert(x.skip(k) =~= Seq::<char>::empty());
            assert(segments(x.skip(k), '/') =~= Seq::<Seq<char>>::empty());
            assert(segments(x, '/') =~= seq![x]);
        } else {
            lemma_index_of_char_at(t, '/', k);
            assert(t.take(k) =~= x.take(k));
            assert(t.skip(k) =~= x.skip(k) + seq!['/'] + y);
            lemma_segments_split(x.skip(k), y);
        }
    }
}

/// The last `.` of `s.e` is the one after `s` when `e` holds none.
pub proof fn lemma_last_dot(s: Seq<char>, e: Seq<char>)
    requires
        forall|i: int| 0 <= i < e.len() ==> e[i] != '.',
    ensures
        last_index_of(s + seq!['.'] + e, '.') == Some(s.len() as int),
    decreases e.len(),
{
    let t = s + seq!['.'] + e;
    if e.len() == 0 {
        assert(t.last() == '.');
    } else {
        assert(t.last() == e.last());
        lemma_last_dot(s, e.drop_last());
        assert(t.drop_last() =~= s + seq!['.'] + e.drop_last());
    }
}

/// `find_from` returns an occurrence, and there is none between `i` and it.
pub proof fn lemma_find_from(s: Seq<char>, pat: Seq<char>, i: int)
    requires
        0 <= i,
    ensures
        find_from(s, pat, i) matches Some(k) ==> i <= k && occurs_at(s, pat, k),
        forall|j: int|
            i <= j && (find_from(s, pat, i) matches Some(k) ==> j < k) ==> !occurs_at(s, pat, j),
    decreases s.len() + 1 - i,
{
    if i + pat.len() <= s.len() && !occurs_at(s, pat, i) {
        lemma_find_from(s, pat, i + 1);
    }
}

/// `find` succeeds exactly when `pat` occurs in `s`.
pub proof fn lemma_find_contains(s: Seq<char>, pat: Seq<char>)
    ensures
        find(s, pat) is Some <==> contains(s, pat),
        find(s, pat) matches Some(k) ==> occurs_at(s, pat, k),
{
    lemma_find_from(s, pat, 0);
    if find(s, pat) is Some {
        let k = find(s, pat)->0;
        assert(occurs_at(s, pat, k));
    }
}

/// `last_index_of` finds `c` within the sequence.
pub proof fn lemma_last_index_of(s: Seq<char>, c: char)
    ensures
        last_index_of(s, c) matches Some(k) ==> 0 <= k < s.len() && s[k] == c,
    decreases s.len(),
{
    if s.len() > 0 && s.last() != c {
        lemma_last_index_of(s.drop_last(), c);
    }
}

/// `trim_start` drops only white space from the front, and what it keeps
/// does not start with white space.
pub proof fn lemma_trim_start(s: Seq<char>)
    ensures
        trim_start(s).len() <= s.len(),
        trim_start(s) == s.skip(s.len() - trim_start(s).len()),
        trim_start(s).len() > 0 ==> !is_white_space(trim_start(s)[0]),
        forall|i: int| 0 <= i < s.len() - trim_start(s).len() ==> is_white_space(#[trigger] s[i]),
    decreases s.len(),
{
    if s.len() > 0 && is_white_space(s[0]) {
        lemma_trim_start(s.drop_first());
        assert(s.drop_first().skip(s.drop_first().len() - trim_start(s).len()) =~= s.skip(
            s.len() - trim_start(s).len(),
        ));
        assert forall|i: int| 0 <= i < s.len() - trim_start(s).len() implies is_white_space(
            #[trigger] s[i],
        ) by {
            if i > 0 {
                assert(s[i] == s.drop_first()[i - 1]);
            }
        }
    } else {
        assert(s.skip(0) =~= s);
    }
}

/// `trim_end` drops only white space from the back, and what it keeps does
/// not end with white space.
pub proof fn lemma_trim_end(s: Seq<char>)
    ensures
        trim_end(s).len() <= s.len(),
        trim_end(s) == s.take(trim_end(s).len() as int),
        trim_end(s).len() > 0 ==> !is_white_space(trim_end(s).last()),
        forall|i: int| trim_end(s).len() <= i < s.len() ==> is_white_space(#[trigger] s[i]),
    decreases s.len(),
{
    if s.len() > 0 && is_white_space(s.last()) {
        lemma_trim_end(s.drop_last());
        assert(s.drop_last().take(trim_end(s).len() as int) =~= s.take(trim_end(s).len() as int));
        assert forall|i: int| trim_end(s).len() <= i < s.len() implies is_white_space(#[trigger] s[i]) by {
            if i < s.len() - 1 {
                assert(s[i] == s.drop_last()[i]);
            }
        }
    } else {
        assert(s.take(s.len() as int) =~= s);
    }
}

/// A trimmed text neither starts nor ends with white space, and is a piece
/// of the text between white space only.
pub proof fn lemma_trim(s: Seq<char>)
    ensures
        trim(s).len() > 0 ==> !is_white_space(trim(s)[0]) && !is_white_space(trim(s).last()),
        exists|a: int, b: int|
            0 <= a <= b <= s.len() && trim(s) == s.subrange(a, b) && (forall|i: int|
                0 <= i < a ==> is_white_space(#[trigger] s[i])) && (forall|i: int|
                b <= i < s.len() ==> is_white_space(#[trigger] s[i])),
{
    let t = trim_start(s);
    lemma_trim_start(s);
    lemma_trim_end(t);
    let a = s.len() - t.len();
    let b = a + trim_end(t).len();
    assert(trim(s) =~= s.subrange(a, b));
    if trim(s).len() > 0 {
        assert(trim(s)[0] == t[0]);
    }
    assert forall|i: int| b <= i < s.len() implies is_white_space(#[trigger] s[i]) by {
        assert(s[i] == t[i - a]);
    }
}

/// Replacing a pattern that does not occur keeps the text.
pub proof fn lemma_replace_absent(s: Seq<char>, pat: Seq<char>, rep: Seq<char>)
    requires
        !contains(s, pat),
    ensures
        replace_all(s, pat, rep) == s,
    decreases s.len(),
{
    if pat.len() > 0 && s.len() > 0 {
        if is_prefix(pat, s) {
            assert(occurs_at(s, pat, 0));
        } else {
            assert(!contains(s.drop_first(), pat)) by {
                if contains(s.drop_first(), pat) {
                    let i = choose|i: int| occurs_at(s.drop_first(), pat, i);
                    assert(s.subrange(i + 1, i + 1 + pat.len()) =~= s.drop_first().subrange(i, i + pat.len()));
                    assert(occurs_at(s, pat, i + 1));
                }
            }
            lemma_replace_absent(s.drop_first(), pat, rep);
            assert(seq![s[0]] + s.drop_first() =~= s);
        }
    }
}

// ───────────────────────── executable code ─────────────────────────

/// Appends one character to a `String` (`String::push`).
#[verifier::external_body]
pub(crate) fn push_char(s: &mut String, c: char)
    ensures
        final(s)@ == old(s)@.push(c),
{
    s.push(c);
}

/// The characters of `s`, in order.
pub fn chars_of(s: &str) -> (v: Vec<char>)
    ensures
        v@ == s@,
{
    let mut v: Vec<char> = Vec::new();
    for c in it: s.chars()
        invariant
            v@ == it.seq().take(it.index() as int),
            it.seq() == s@,
    {
        v.push(c);
    }
    v
}

/// Appends `v[from..to]` to `out`.
pub fn push_range(out: &mut String, v: &Vec<char>, from: usize, to: usize)
    requires
        from <= to <= v.len(),
    ensures
        final(out)@ == old(out)@ + v@.subrange(from as int, to as int),
{
    let mut i = from;
    while i < to
        invariant
            from <= i <= to <= v.len(),
            out@ == old(out)@ + v@.subrange(from as int, i as int),
        decreases to - i,
    {
        push_char(out, v[i]);
        assert(v@.subrange(from as int, i + 1) == v@.subrange(from as int, i as int).push(v@[i as int]));
        i = i + 1;
    }
}

/// A new `String` holding `v[from..to]`.
pub fn string_of_range(v: &Vec<char>, from: usize, to: usize) -> (s: String)
    requires
        from <= to <= v.len(),
    ensures
        s@ == v@.subrange(from as int, to as int),
{
    let mut s = String::new();
    push_range(&mut s, v, from, to);
    s
}

/// A copy of `v[from..to]`.
pub fn sub_chars(v: &Vec<char>, from: usize, to: usize) -> (r: Vec<char>)
    requires
        from <= to <= v.len(),
    ensures
        r@ == v@.subrange(from as int, to as int),
{
    let mut r: Vec<char> = Vec::new();
    let mut i = from;
    while i < to
        invariant
            from <= i <= to <= v.len(),
            r@ == v@.subrange(from as int, i as int),
        decreases to - i,
    {
        r.push(v[i]);
        assert(v@.subrange(from as int, i + 1) =~= v@.subrange(from as int, i as int).push(v@[i as int]));
        i = i + 1;
    }
    r
}

/// Appends all of `t` to `out`.
pub fn push_str(out: &mut String, t: &str)
    ensures
        final(out)@ == old(out)@ + t@,
{
    let v = chars_of(t);
    push_range(out, &v, 0, v.len());
    assert(v@.subrange(0, v@.len() as int) == v@);
}

/// Does `pat` occur in `s` at index `i`?
pub fn occurs_at_exec(s: &Vec<char>, pat: &Vec<char>, i: usize) -> (b: bool)
    ensures
        b == occurs_at(s@, pat@, i as int),
{
    if pat.len() > s.len() || i > s.len() - pat.len() {
        return false;
    }
    let mut j: usize = 0;
    while j < pat.len()
        invariant
            i + pat.len() <= s.len(),
            j <= pat.len(),
            forall|k: int| 0 <= k < j ==> s@[i + k] == pat@[k],
        decreases pat.len() - j,
    {
        if s[i + j] != pat[j] {
            assert(s@.subrange(i as int, i + pat.len())[j as int] != pat@[j as int]);
            return false;
        }
        j = j + 1;
    }
    assert(s@.subrange(i as int, i + pat.len()) =~= pat@);
    true
}

/// Are `a` and `b` the same characters?
pub fn chars_eq(a: &Vec<char>, b: &Vec<char>) -> (r: bool)
    ensures
        r == (a@ == b@),
{
    if a.len() != b.len() {
        return false;
    }
    let mut i: usize = 0;
    while i < a.len()
        invariant
            a.len() == b.len(),
            i <= a.len(),
            forall|k: int| 0 <= k < i ==> a@[k] == b@[k],
        decreases a.len() - i,
    {
        if a[i] != b[i] {
            return false;
        }
        i = i + 1;
    }
    assert(a@ =~= b@);
    true
}

/// Is `a` the text `b`?
pub fn str_eq(a: &str, b: &str) -> (r: bool)
    ensures
        r == (a@ == b@),
{
    let x = chars_of(a);
    let y = chars_of(b);
    chars_eq(&x, &y)
}

/// Does `pat` occur in `s`?
pub fn str_contains(s: &str, pat: &str) -> (r: bool)
    ensures
        r == contains(s@, pat@),
{
    let x = chars_of(s);
    let y = chars_of(pat);
    contains_exec(&x, &y)
}

/// Does `s` start with `p`?
pub fn str_starts_with(s: &str, p: &str) -> (r: bool)
    ensures
        r == is_prefix(p@, s@),
{
    let x = chars_of(s);
    let y = chars_of(p);
    is_prefix_exec(&y, &x)
}

/// A new `String` holding the text of `s`.
pub fn string_of(s: &str) -> (r: String)
    ensures
        r@ == s@,
{
    let mut r = String::new();
    push_str(&mut r, s);
    r
}

/// Is `p` a prefix of `s`?
pub fn is_prefix_exec(p: &Vec<char>, s: &Vec<char>) -> (b: bool)
    ensures
        b == is_prefix(p@, s@),
{
    let b = occurs_at_exec(s, p, 0);
    assert(s@.subrange(0, p@.len() as int) =~= s@.take(p@.len() as int));
    b
}

/// The first index where `pat` occurs in `s`.
pub fn find_exec(s: &Vec<char>, pat: &Vec<char>) -> (r: Option<usize>)
    ensures
        r matches Some(k) ==> find(s@, pat@) == Some(k as int),
        r is None ==> find(s@, pat@) is None,
{
    if pat.len() > s.len() {
        return None;
    }
    let last = s.len() - pat.len();
    let mut i: usize = 0;
    while i <= last
        invariant
            last + pat.len() == s.len(),
            find(s@, pat@) == find_from(s@, pat@, i as int),
        decreases last + 1 - i,
    {
        if occurs_at_exec(s, pat, i) {
            return Some(i);
        }
        if i == last {
            assert(find_from(s@, pat@, i + 1) is None);
            return None;
        }
        i = i + 1;
    }
    None
}

/// Does `pat` occur in `s`?
pub fn contains_exec(s: &Vec<char>, pat: &Vec<char>) -> (b: bool)
    ensures
        b == contains(s@, pat@),
{
    proof {
        lemma_find_contains(s@, pat@);
    }
    find_exec(s, pat).is_some()
}

/// `s` with every occurrence of the non-empty `pat` replaced by `rep`.
pub fn replace_all_exec(s: &Vec<char>, pat: &Vec<char>, rep: &Vec<char>) -> (r: String)
    requires
        pat.len() > 0,
    ensures
        r@ == replace_all(s@, pat@, rep@),
{
    let mut out = String::new();
    let mut i: usize = 0;
    assert(s@.skip(0) =~= s@);
    while i < s.len()
        invariant
            pat.len() > 0,
            i <= s.len(),
            replace_all(s@, pat@, rep@) == out@ + replace_all(s@.skip(i as int), pat@, rep@),
        decreases s.len() - i,
    {
        let ghost rest = s@.skip(i as int);
        if occurs_at_exec(s, pat, i) {
            assert(rest.take(pat@.len() as int) =~= s@.subrange(i as int, i + pat@.len()));
            assert(rest.skip(pat@.len() as int) =~= s@.skip(i + pat@.len()));
            push_range(&mut out, rep, 0, rep.len());
            assert(rep@.subrange(0, rep@.len() as int) =~= rep@);
            i = i + pat.len();
        } else {
            assert(!is_prefix(pat@, rest)) by {
                if is_prefix(pat@, rest) {
                    assert(rest.take(pat@.len() as int) =~= s@.subrange(i as int, i + pat@.len()));
                }
            }
            assert(rest.drop_first() =~= s@.skip(i + 1));
            assert(rest[0] == s@[i as int]);
            push_char(&mut out, s[i]);
            i = i + 1;
        }
    }
    assert(s@.skip(i as int) =~= Seq::<char>::empty());
    out
}

/// Does `c` have the Unicode `White_Space` property?
pub fn is_white_space_exec(c: char) -> (b: bool)
    ensures
        b == is_white_space(c),
{
    ('\u{9}' <= c && c <= '\u{d}') || c == ' ' || c == '\u{85}' || c == '\u{a0}' || c
        == '\u{1680}' || ('\u{2000}' <= c && c <= '\u{200a}') || c == '\u{2028}' || c
        == '\u{2029}' || c == '\u{202f}' || c == '\u{205f}' || c == '\u{3000}'
}

/// `trim_start(s.subrange(i, j))` where every character in `s[i..k]` is white space.
proof fn lemma_trim_start_skip(s: Seq<char>, i: int, k: int)
    requires
        0 <= i <= k <= s.len(),
        forall|m: int| i <= m < k ==> is_white_space(#[trigger] s[m]),
    ensures
        trim_start(s.subrange(i, s.len() as int)) == trim_start(s.subrange(k, s.len() as int)),
    decreases k - i,
{
    if i < k {
        let t = s.subrange(i, s.len() as int);
        assert(t[0] == s[i]);
        assert(t.drop_first() =~= s.subrange(i + 1, s.len() as int));
        lemma_trim_start_skip(s, i + 1, k);
    }
}

/// `trim_end(s.subrange(0, j))` where every character in `s[k..j]` is white space.
proof fn lemma_trim_end_drop(s: Seq<char>, k: int, j: int)
    requires
        0 <= k <= j <= s.len(),
        forall|m: int| k <= m < j ==> is_white_space(#[trigger] s[m]),
    ensures
        trim_end(s.subrange(0, j)) == trim_end(s.subrange(0, k)),
    decreases j - k,
{
    if k < j {
        let t = s.subrange(0, j);
        assert(t.last() == s[j - 1]);
        assert(t.drop_last() =~= s.subrange(0, j - 1));
        lemma_trim_end_drop(s, k, j - 1);
    }
}

/// Once the leading white space `s[..a]` is skipped, `trim_start` is the rest.
proof fn lemma_trim_start_at(s: Seq<char>, a: int)
    requires
        0 <= a <= s.len(),
        forall|m: int| 0 <= m < a ==> is_white_space(#[trigger] s[m]),
        a == s.len() || !is_white_space(s[a]),
    ensures
        trim_start(s) == s.subrange(a, s.len() as int),
{
    lemma_trim_start_skip(s, 0, a);
    assert(s.subrange(0, s.len() as int) =~= s);
    let t = s.subrange(a, s.len() as int);
    if t.len() > 0 {
        assert(t[0] == s[a]);
    }
}

/// Once the trailing white space `s[b..]` is dropped, `trim_end` of `s[a..]` is `s[a..b]`.
proof fn lemma_trim_end_at(s: Seq<char>, a: int, b: int)
    requires
        0 <= a <= b <= s.len(),
        forall|m: int| b <= m < s.len() ==> is_white_space(#[trigger] s[m]),
        b == a || !is_white_space(s[b - 1]),
    ensures
        trim_end(s.subrange(a, s.len() as int)) == s.subrange(a, b),
{
    let t = s.subrange(a, s.len() as int);
    let n = t.len() as int;
    assert forall|m: int| b - a <= m < n implies is_white_space(#[trigger] t[m]) by {
        assert(t[m] == s[a + m]);
    }
    lemma_trim_end_drop(t, b - a, n);
    assert(t.subrange(0, n) =~= t);
    let u = t.subrange(0, b - a);
    assert(u =~= s.subrange(a, b));
    if u.len() > 0 {
        assert(u.last() == s[b - 1]);
    }
}

/// `s` without leading and trailing white space.
pub fn trim_exec(s: &Vec<char>) -> (r: String)
    ensures
        r@ == trim(s@),
{
    let mut a: usize = 0;
    while a < s.len() && is_white_space_exec(s[a])
        invariant
            a <= s.len(),
            forall|m: int| 0 <= m < a ==> is_white_space(#[trigger] s@[m]),
        decreases s.len() - a,
    {
        a = a + 1;
    }
    proof {
        lemma_trim_start_at(s@, a as int);
    }
    let mut b: usize = s.len();
    while b > a && is_white_space_exec(s[b - 1])
        invariant
            a <= b <= s.len(),
            forall|m: int| b <= m < s.len() ==> is_white_space(#[trigger] s@[m]),
        decreases b,
    {
        b = b - 1;
    }
    proof {
        lemma_trim_end_at(s@, a as int, b as int);
    }
    string_of_range(s, a, b)
}

/// Index of the first `sep` in `s` at or after `from`, or `s.len()`.
pub fn index_of_char_from(s: &Vec<char>, sep: char, from: usize) -> (k: usize)
    requires
        from <= s.len(),
    ensures
        k as int == from + index_of_char(s@.skip(from as int), sep),
{
    let mut k = from;
    while k < s.len() && s[k] != sep
        invariant
            from <= k <= s.len(),
            index_of_char(s@.skip(from as int), sep) == (k - from) + index_of_char(
                s@.skip(k as int),
                sep,
            ),
        decreases s.len() - k,
    {
        assert(s@.skip(k as int).drop_first() =~= s@.skip(k + 1));
        k = k + 1;
    }
    if k == s.len() {
        assert(s@.skip(k as int).len() == 0);
    }
    k
}

/// The non-empty `sep`-free runs of `s`, as strings.
pub fn segments_exec(s: &Vec<char>, sep: char) -> (r: Vec<String>)
    ensures
        r@.map_values(|x: String| x@) == segments(s@, sep),
{
    let mut r: Vec<String> = Vec::new();
    let mut i: usize = 0;
    assert(s@.skip(0) =~= s@);
    while i < s.len()
        invariant
            i <= s.len(),
            segments(s@, sep) == r@.map_values(|x: String| x@) + segments(s@.skip(i as int), sep),
        decreases s.len() - i,
    {
        let ghost rest = s@.skip(i as int);
        let ghost before = r@.map_values(|x: String| x@);
        if s[i] == sep {
            assert(rest[0] == sep);
            assert(rest.drop_first() =~= s@.skip(i + 1));
            i = i + 1;
        } else {
            let k = index_of_char_from(s, sep, i);
            proof {
                lemma_index_of_char(rest, sep);
                assert(rest[0] != sep);
                assert(index_of_char(rest, sep) > 0) by {
                    reveal_with_fuel(index_of_char, 2);
                }
            }
            let piece = string_of_range(s, i, k);
            r.push(piece);
            proof {
                let kk = (k - i) as int;
                assert(rest.take(kk) =~= s@.subrange(i as int, k as int));
                assert(rest.skip(kk) =~= s@.skip(k as int));
                assert(r@.map_values(|x: String| x@) =~= before.push(piece@));
                assert(before.push(piece@) + segments(s@.skip(k as int), sep) =~= before + (seq![
                    piece@,
                ] + segments(s@.skip(k as int), sep)));
            }
            i = k;
        }
    }
    assert(s@.skip(i as int) =~= Seq::<char>::empty());
    assert(r@.map_values(|x: String| x@) + Seq::<Seq<char>>::empty() =~= r@.map_values(
        |x: String| x@,
    ));
    r
}

/// The strings `list[from..to]` joined by `sep`.
pub fn join_exec(list: &Vec<String>, from: usize, to: usize, sep: &str) -> (r: String)
    requires
        from <= to <= list.len(),
    ensures
        r@ == join(list@.map_values(|x: String| x@).subrange(from as int, to as int), sep@),
{
    let ghost views = list@.map_values(|x: String| x@);
    let mut out = String::new();
    let mut i = from;
    while i < to
        invariant
            from <= i <= to <= list.len(),
            views == list@.map_values(|x: String| x@),
            out@ == join(views.subrange(from as int, i as int), sep@),
        decreases to - i,
    {
        let ghost prev = views.subrange(from as int, i as int);
        if i > from {
            push_str(&mut out, sep);
        }
        push_str(&mut out, list[i].as_str());
        proof {
            let next = views.subrange(from as int, i + 1);
            assert(next.drop_last() =~= prev);
            assert(next.last() == list@[i as int]@);
            if i == from {
                assert(prev.len() == 0);
                assert(out@ =~= next[0]);
            }
        }
        i = i + 1;
    }
    out
}

/// `s` with every leading repetition of `p` removed.
pub fn trim_start_matches_exec(s: &str, p: &str) -> (r: String)
    ensures
        r@ == trim_start_matches(s@, p@),
{
    let v = chars_of(s);
    let pv = chars_of(p);
    let mut i: usize = 0;
    assert(v@.skip(0) =~= v@);
    if pv.len() > 0 {
        while occurs_at_exec(&v, &pv, i)
            invariant
                pv@.len() > 0,
                i <= v.len(),
                trim_start_matches(v@, pv@) == trim_start_matches(v@.skip(i as int), pv@),
            decreases v.len() - i,
        {
            let ghost rest = v@.skip(i as int);
            assert(rest.take(pv@.len() as int) =~= v@.subrange(i as int, i + pv@.len()));
            assert(rest.skip(pv@.len() as int) =~= v@.skip(i + pv@.len()));
            i = i + pv.len();
        }
        proof {
            let rest = v@.skip(i as int);
            if is_prefix(pv@, rest) {
                assert(rest.take(pv@.len() as int) =~= v@.subrange(i as int, i + pv@.len()));
                assert(occurs_at(v@, pv@, i as int));
            }
        }
    }
    assert(v@.subrange(i as int, v@.len() as int) =~= v@.skip(i as int));
    string_of_range(&v, i, v.len())
}

/// Index of the last `c` in `v`, if any.
pub fn last_index_of_exec(v: &Vec<char>, c: char) -> (r: Option<usize>)
    ensures
        r matches Some(k) ==> last_index_of(v@, c) == Some(k as int),
        r is None ==> last_index_of(v@, c) is None,
{
    let mut n = v.len();
    assert(v@.take(n as int) =~= v@);
    while n > 0
        invariant
            n <= v.len(),
            last_index_of(v@, c) == last_index_of(v@.take(n as int), c),
        decreases n,
    {
        assert(v@.take(n as int).last() == v@[n - 1]);
        if v[n - 1] == c {
            return Some(n - 1);
        }
        assert(v@.take(n as int).drop_last() =~= v@.take(n - 1));
        n = n - 1;
    }
    None
}

/// The ASCII lower-case form of `c` (other characters are kept).
pub open spec fn ascii_lower(c: char) -> char {
    if 'A' <= c && c <= 'Z' {
        ((c as u32) + 32) as char
    } else {
        c
    }
}

/// The ASCII lower-case form of `c`.
pub fn ascii_lower_exec(c: char) -> (r: char)
    ensures
        r == ascii_lower(c),
{
    if 'A' <= c && c <= 'Z' {
        let b = c as u8;
        (b + 32) as char
    } else {
        c
    }
}

/// `s` with every ASCII capital letter made lower-case.
pub fn ascii_lowercase_exec(s: &Vec<char>) -> (r: Vec<char>)
    ensures
        r@ == s@.map_values(|c: char| ascii_lower(c)),
{
    let mut r: Vec<char> = Vec::new();
    let mut i: usize = 0;
    while i < s.len()
        invariant
            i <= s.len(),
            r@ == s@.take(i as int).map_values(|c: char| ascii_lower(c)),
        decreases s.len() - i,
    {
        r.push(ascii_lower_exec(s[i]));
        assert(s@.take(i + 1).map_values(|c: char| ascii_lower(c)) =~= s@.take(i as int).map_values(
            |c: char| ascii_lower(c),
        ).push(ascii_lower(s@[i as int])));
        i = i + 1;
    }
    assert(s@.take(i as int) =~= s@);
    r
}

} // verus!
