//! Text as sequences of characters: the string operations the shell is built on.
//!
//! Every executable function here is stated over the characters of its
//! arguments, so the modules above can describe what they parse and print
//! without speaking of bytes.

use vstd::prelude::*;

verus! {

/// `String::push` appends one character at the end.
pub assume_specification[ String::push ](s: &mut String, c: char)
    ensures
        final(s)@ == old(s)@.push(c),
;

/// What the `Debug` form of a string is: the string in double quotes, with its
/// special characters escaped.
pub uninterp spec fn debug_text(s: Seq<char>) -> Seq<char>;

/// The `Debug` form of a string, as `{:?}` writes it.
#[verifier::external_body]
pub(crate) fn quoted(s: &str) -> (q: String)
    ensures
        q@ == debug_text(s@),
{
    format!("{s:?}")
}

/// What `String::from_utf8_lossy` makes of bytes that are not valid UTF-8.
pub uninterp spec fn lossy_text(bytes: Seq<u8>) -> Seq<char>;

/// `String::from_utf8_lossy`: the text that bytes encode, what is not UTF-8
/// among them replaced.
#[verifier::external_body]
pub(crate) fn from_utf8_lossy(bytes: &Vec<u8>) -> (s: String)
    ensures
        s@ == lossy_text(bytes@),
        vstd::utf8::valid_utf8(bytes@) ==> s@ == vstd::utf8::decode_utf8(bytes@),
{
    String::from_utf8_lossy(bytes).into_owned()
}

/// The characters with the Unicode property `White_Space`.
pub open spec fn is_white(c: char) -> bool {
    ||| '\u{9}' <= c <= '\u{d}'
    ||| c == '\u{20}'
    ||| c == '\u{85}'
    ||| c == '\u{a0}'
    ||| c == '\u{1680}'
    ||| '\u{2000}' <= c <= '\u{200a}'
    ||| c == '\u{2028}'
    ||| c == '\u{2029}'
    ||| c == '\u{202f}'
    ||| c == '\u{205f}'
    ||| c == '\u{3000}'
}

/// Whether `c` is white space.
pub fn white(c: char) -> (yes: bool)
    ensures
        yes == is_white(c),
{
    ('\u{9}' <= c && c <= '\u{d}') || c == '\u{20}' || c == '\u{85}' || c == '\u{a0}' || c
        == '\u{1680}' || ('\u{2000}' <= c && c <= '\u{200a}') || c == '\u{2028}' || c == '\u{2029}'
        || c == '\u{202f}' || c == '\u{205f}' || c == '\u{3000}'
}

/// The contents of a list of strings.
pub open spec fn views(v: Seq<String>) -> Seq<Seq<char>> {
    Seq::new(v.len(), |i: int| v[i]@)
}

/// The contents of an optional string.
pub open spec fn held(s: Option<String>) -> Option<Seq<char>> {
    match s {
        Some(s) => Some(s@),
        None => None,
    }
}

/// The characters of `s`, as a vector.
pub fn chars_of(s: &str) -> (v: Vec<char>)
    ensures
        v@ == s@,
{
    let mut v: Vec<char> = Vec::new();
    for c in it: s.chars()
        invariant
            v@ == s@.take(it.index() as int),
            it.seq() == s@,
    {
        v.push(c);
        assert(s@.take(it.index() + 1) == s@.take(it.index() as int).push(c));
    }
    assert(s@.take(s@.len() as int) == s@);
    v
}

/// The characters of `v` from `lo` up to `hi`, as a string.
pub fn slice(v: &Vec<char>, lo: usize, hi: usize) -> (s: String)
    requires
        lo <= hi <= v@.len(),
    ensures
        s@ == v@.subrange(lo as int, hi as int),
{
    let mut s = String::new();
    let mut i: usize = lo;
    while i < hi
        invariant
            lo <= i <= hi <= v@.len(),
            s@ == v@.subrange(lo as int, i as int),
        decreases hi - i,
    {
        s.push(v[i]);
        assert(v@.subrange(lo as int, i + 1) == v@.subrange(lo as int, i as int).push(v@[i as int]));
        i += 1;
    }
    s
}

/// Whether two strings hold the same characters.
pub fn same(a: &str, b: &str) -> (yes: bool)
    ensures
        yes == (a@ == b@),
{
    a.to_owned() == b.to_owned()
}

pub open spec fn trim_start(s: Seq<char>) -> Seq<char>
    decreases s.len(),
{
    if s.len() > 0 && is_white(s[0]) {
        trim_start(s.skip(1))
    } else {
        s
    }
}

pub open spec fn trim_end(s: Seq<char>) -> Seq<char>
    decreases s.len(),
{
    if s.len() > 0 && is_white(s.last()) {
        trim_end(s.drop_last())
    } else {
        s
    }
}

/// `s` without the white space at its two ends.
pub open spec fn trimmed(s: Seq<char>) -> Seq<char> {
    trim_end(trim_start(s))
}

/// `s` without the white space at its two ends.
pub fn trim(s: &str) -> (t: String)
    ensures
        t@ == trimmed(s@),
{
    let v = chars_of(s);
    let mut lo: usize = 0;
    assert(v@.skip(0) == v@);
    while lo < v.len() && white(v[lo])
        invariant
            lo <= v@.len(),
            trim_start(v@) == trim_start(v@.skip(lo as int)),
        decreases v@.len() - lo,
    {
        assert(v@.skip(lo as int).skip(1) == v@.skip(lo + 1));
        lo += 1;
    }
    assert(trim_start(v@) == v@.skip(lo as int));
    let mut hi: usize = v.len();
    assert(v@.subrange(lo as int, hi as int) == v@.skip(lo as int));
    while hi > lo && white(v[hi - 1])
        invariant
            lo <= hi <= v@.len(),
            trim_end(v@.skip(lo as int)) == trim_end(v@.subrange(lo as int, hi as int)),
        decreases hi,
    {
        assert(v@.subrange(lo as int, hi as int).drop_last() == v@.subrange(lo as int, hi - 1));
        hi -= 1;
    }
    slice(&v, lo, hi)
}

/// A string with the characters of a literal or a borrowed string.
pub fn own(s: &str) -> (t: String)
    ensures
        t@ == s@,
{
    s.to_owned()
}

/// `a` followed by `b`.
pub fn plus(a: String, b: &str) -> (t: String)
    ensures
        t@ == a@ + b@,
{
    let mut t = a;
    t.append(b);
    t
}

/// Whether two lists hold the same strings.
pub fn same_list(a: &Vec<String>, b: &Vec<String>) -> (yes: bool)
    ensures
        yes == (views(a@) == views(b@)),
{
    if a.len() != b.len() {
        assert(views(a@).len() != views(b@).len());
        return false;
    }
    let mut i: usize = 0;
    while i < a.len()
        invariant
            i <= a@.len(),
            a@.len() == b@.len(),
            forall|k: int| 0 <= k < i ==> views(a@)[k] == views(b@)[k],
        decreases a@.len() - i,
    {
        if a[i] != b[i] {
            assert(views(a@)[i as int] != views(b@)[i as int]);
            return false;
        }
        i += 1;
    }
    assert(views(a@) =~= views(b@));
    true
}

/// A copy of a list of strings.
pub fn copy_list(v: &Vec<String>) -> (w: Vec<String>)
    ensures
        views(w@) == views(v@),
{
    let mut w: Vec<String> = Vec::new();
    let mut i: usize = 0;
    while i < v.len()
        invariant
            i <= v@.len(),
            w@.len() == i,
            forall|k: int| 0 <= k < i ==> views(w@)[k] == views(v@)[k],
        decreases v@.len() - i,
    {
        let ghost before = w@;
        w.push(v[i].clone());
        assert forall|k: int| 0 <= k < i + 1 implies views(w@)[k] == views(v@)[k] by {
            if k < i {
                assert(views(w@)[k] == views(before)[k]);
            }
        }
        i += 1;
    }
    assert(views(w@) =~= views(v@));
    w
}

// ---------------------------------------------------------------- splitting

/// The pieces of `s` between the occurrences of `c`; at least one.
pub open spec fn split_on(s: Seq<char>, c: char) -> Seq<Seq<char>>
    decreases s.len(),
{
    if s.len() == 0 {
        seq![Seq::<char>::empty()]
    } else {
        let before = split_on(s.drop_last(), c);
        if s.last() == c {
            before.push(Seq::<char>::empty())
        } else {
            before.update(before.len() - 1, before.last().push(s.last()))
        }
    }
}

/// `parts` with `sep` between each two of them.
pub open spec fn joined(parts: Seq<Seq<char>>, sep: Seq<char>) -> Seq<char>
    decreases parts.len(),
{
    if parts.len() == 0 {
        Seq::<char>::empty()
    } else if parts.len() == 1 {
        parts[0]
    } else {
        joined(parts.drop_last(), sep) + sep + parts.last()
    }
}

pub proof fn lemma_split_nonempty(s: Seq<char>, c: char)
    ensures
        split_on(s, c).len() >= 1,
    decreases s.len(),
{
    if s.len() > 0 {
        lemma_split_nonempty(s.drop_last(), c);
    }
}

/// The pieces of `s` between the occurrences of `c`.
pub fn split(s: &str, c: char) -> (parts: Vec<String>)
    ensures
        views(parts@) == split_on(s@, c),
        parts@.len() >= 1,
{
    let v = chars_of(s);
    let mut parts: Vec<String> = Vec::new();
    let mut piece = String::new();
    let mut i: usize = 0;
    assert(views(parts@).push(piece@) =~= split_on(v@.take(0), c));
    while i < v.len()
        invariant
            i <= v@.len(),
            views(parts@).push(piece@) == split_on(v@.take(i as int), c),
        decreases v@.len() - i,
    {
        let ghost done = v@.take(i as int);
        let ghost next = v@.take(i + 1);
        assert(next.drop_last() == done);
        let ghost before = split_on(done, c);
        let ghost old_parts = parts@;
        if v[i] == c {
            parts.push(piece);
            piece = String::new();
            assert(views(parts@).push(piece@) =~= before.push(Seq::<char>::empty()));
        } else {
            piece.push(v[i]);
            assert(views(parts@).push(piece@) =~= before.update(before.len() - 1, before.last().push(v@[i as int])));
        }
        i += 1;
    }
    assert(v@.take(i as int) == v@);
    let ghost done = views(parts@).push(piece@);
    parts.push(piece);
    assert(views(parts@) =~= done);
    parts
}

/// `parts` with `sep` between each two of them.
pub fn join(parts: &Vec<String>, sep: &str) -> (s: String)
    ensures
        s@ == joined(views(parts@), sep@),
{
    let mut s = String::new();
    let mut i: usize = 0;
    while i < parts.len()
        invariant
            i <= parts@.len(),
            s@ == joined(views(parts@).take(i as int), sep@),
        decreases parts@.len() - i,
    {
        let ghost next = views(parts@).take(i + 1);
        assert(next.drop_last() =~= views(parts@).take(i as int));
        if i > 0 {
            s.append(sep);
        }
        s.append(parts[i].as_str());
        assert(s@ =~= joined(next, sep@));
        i += 1;
    }
    assert(views(parts@).take(i as int) == views(parts@));
    s
}

/// Splitting at `c` and joining with `c` gives the text back.
pub proof fn split_then_join(s: Seq<char>, c: char)
    ensures
        joined(split_on(s, c), seq![c]) == s,
    decreases s.len(),
{
    if s.len() > 0 {
        let before = split_on(s.drop_last(), c);
        split_then_join(s.drop_last(), c);
        lemma_split_nonempty(s.drop_last(), c);
        let parts = split_on(s, c);
        if s.last() == c {
            assert(parts.drop_last() == before);
            assert(joined(parts, seq![c]) =~= s);
        } else {
            assert(parts.drop_last() == before.drop_last());
            assert(joined(parts, seq![c]) =~= joined(before, seq![c]).push(s.last()));
            assert(s.drop_last().push(s.last()) == s);
        }
    }
}

/// What follows the last `c` of a text is its last piece.
pub proof fn lemma_split_append(a: Seq<char>, b: Seq<char>, c: char)
    requires
        !b.contains(c),
    ensures
        split_on(a + b, c) == split_on(a, c).update(
            split_on(a, c).len() - 1,
            split_on(a, c).last() + b,
        ),
        split_on(a.push(c) + b, c) == split_on(a, c).push(b),
    decreases b.len(),
{
    lemma_split_nonempty(a, c);
    let parts = split_on(a, c);
    if b.len() == 0 {
        assert(a + b == a);
        assert(parts.last() + b == parts.last());
        assert(parts.update(parts.len() - 1, parts.last()) =~= parts);
        assert(a.push(c) + b == a.push(c));
        assert(a.push(c).drop_last() == a);
        assert(b == Seq::<char>::empty());
    } else {
        let short = b.drop_last();
        assert(b == short.push(b.last()));
        assert(b.contains(b.last()));
        assert forall|x: char| short.contains(x) implies b.contains(x) by {
            let k = choose|k: int| 0 <= k < short.len() && short[k] == x;
            assert(b[k] == x);
        }
        lemma_split_append(a, short, c);
        assert((a + b).drop_last() == a + short);
        assert((a.push(c) + b).drop_last() == a.push(c) + short);
        assert(parts.last() + b == (parts.last() + short).push(b.last()));
        let mid = parts.update(parts.len() - 1, parts.last() + short);
        assert(split_on(a + b, c) =~= mid.update(mid.len() - 1, mid.last().push(b.last())));
        assert(mid.update(mid.len() - 1, mid.last().push(b.last())) =~= parts.update(
            parts.len() - 1,
            parts.last() + b,
        ));
        let far = parts.push(short);
        assert(split_on(a.push(c) + b, c) =~= far.update(far.len() - 1, far.last().push(b.last())));
        assert(far.update(far.len() - 1, far.last().push(b.last())) =~= parts.push(b));
    }
}

/// Joining with `c` and splitting at `c` gives the parts back, where none of
/// them holds a `c` and there is at least one.
pub proof fn join_then_split(parts: Seq<Seq<char>>, c: char)
    requires
        parts.len() >= 1,
        forall|i: int| 0 <= i < parts.len() ==> !(#[trigger] parts[i]).contains(c),
    ensures
        split_on(joined(parts, seq![c]), c) == parts,
    decreases parts.len(),
{
    if parts.len() == 1 {
        let empty = Seq::<char>::empty();
        lemma_split_append(empty, parts[0], c);
        assert(empty + parts[0] == parts[0]);
        assert(split_on(empty, c) == seq![empty]);
        assert(split_on(parts[0], c) =~= parts);
    } else {
        let short = parts.drop_last();
        join_then_split(short, c);
        let a = joined(short, seq![c]);
        assert(a + seq![c] == a.push(c));
        lemma_split_append(a, parts.last(), c);
        assert(short.push(parts.last()) =~= parts);
    }
}

/// A character of a concatenation is a character of one side.
pub proof fn lemma_contains_concat(a: Seq<char>, b: Seq<char>, c: char)
    ensures
        (a + b).contains(c) == (a.contains(c) || b.contains(c)),
{
    let s = a + b;
    if s.contains(c) {
        let i = choose|i: int| 0 <= i < s.len() && s[i] == c;
        if i < a.len() {
            assert(a[i] == c);
        } else {
            assert(b[i - a.len()] == c);
        }
    }
    if a.contains(c) {
        let i = choose|i: int| 0 <= i < a.len() && a[i] == c;
        assert(s[i] == c);
    }
    if b.contains(c) {
        let i = choose|i: int| 0 <= i < b.len() && b[i] == c;
        assert(s[i + a.len()] == c);
    }
}

/// A character that stands in no part and not in the separator does not stand
/// in the joined text.
pub proof fn lemma_joined_lacks(parts: Seq<Seq<char>>, sep: Seq<char>, c: char)
    requires
        !sep.contains(c),
        forall|i: int| 0 <= i < parts.len() ==> !(#[trigger] parts[i]).contains(c),
    ensures
        !joined(parts, sep).contains(c),
    decreases parts.len(),
{
    if parts.len() > 1 {
        let short = parts.drop_last();
        lemma_joined_lacks(short, sep, c);
        lemma_contains_concat(joined(short, sep), sep, c);
        lemma_contains_concat(joined(short, sep) + sep, parts.last(), c);
    }
}

/// No piece of a split text holds the character it was split at, and every
/// character of a piece is a character of the text.
pub proof fn lemma_split_lacks(s: Seq<char>, c: char)
    ensures
        forall|i: int| 0 <= i < split_on(s, c).len() ==> !(#[trigger] split_on(s, c)[i]).contains(c),
        forall|i: int, x: char|
            0 <= i < split_on(s, c).len() && (#[trigger] split_on(s, c)[i].contains(x))
                ==> s.contains(x),
    decreases s.len(),
{
    if s.len() > 0 {
        let short = s.drop_last();
        lemma_split_lacks(short, c);
        lemma_split_nonempty(short, c);
        let before = split_on(short, c);
        let parts = split_on(s, c);
        assert(s == short.push(s.last()));
        assert forall|x: char| short.contains(x) implies s.contains(x) by {
            let k = choose|k: int| 0 <= k < short.len() && short[k] == x;
            assert(s[k] == x);
        }
        assert(s.contains(s.last())) by {
            assert(s[s.len() - 1] == s.last());
        }
        assert forall|i: int| 0 <= i < parts.len() implies !(#[trigger] parts[i]).contains(c) by {
            if s.last() != c && i == parts.len() - 1 {
                lemma_contains_concat(before.last(), seq![s.last()], c);
                assert(parts[i] =~= before.last() + seq![s.last()]);
                assert(!before[before.len() - 1].contains(c));
            } else if i < before.len() {
                assert(parts[i] == before[i]);
            }
        }
        assert forall|i: int, x: char|
            0 <= i < parts.len() && (#[trigger] parts[i].contains(x)) implies s.contains(x) by {
            if s.last() != c && i == parts.len() - 1 {
                lemma_contains_concat(before.last(), seq![s.last()], x);
                assert(parts[i] =~= before.last() + seq![s.last()]);
                if before.last().contains(x) {
                    assert(before[before.len() - 1].contains(x));
                }
            } else if i < before.len() {
                assert(parts[i] == before[i]);
            }
        }
    }
}

/// A joined text begins with its first part.
pub proof fn lemma_joined_first(parts: Seq<Seq<char>>, sep: Seq<char>)
    requires
        parts.len() > 0,
    ensures
        begins_with(joined(parts, sep), parts[0]),
    decreases parts.len(),
{
    let whole = joined(parts, sep);
    if parts.len() == 1 {
        assert(whole.subrange(0, parts[0].len() as int) =~= parts[0]);
    } else {
        let short = joined(parts.drop_last(), sep);
        lemma_joined_first(parts.drop_last(), sep);
        let n = parts[0].len() as int;
        assert(whole.subrange(0, n) =~= short.subrange(0, n));
    }
}

// ---------------------------------------------------------------- searching

/// Whether `pat` stands in `s` at position `i`.
pub open spec fn occurs_at(s: Seq<char>, pat: Seq<char>, i: int) -> bool {
    0 <= i && i + pat.len() <= s.len() && s.subrange(i, i + pat.len()) == pat
}

/// The first position at or after `i` where `pat` stands in `s`.
pub open spec fn find_from(s: Seq<char>, pat: Seq<char>, i: int) -> Option<int>
    decreases s.len() - i + 1,
{
    if i + pat.len() > s.len() {
        None
    } else if occurs_at(s, pat, i) {
        Some(i)
    } else {
        find_from(s, pat, i + 1)
    }
}

/// The first position where `pat` stands in `s`.
pub open spec fn position(s: Seq<char>, pat: Seq<char>) -> Option<int> {
    find_from(s, pat, 0)
}

/// A position found is the first occurrence; none found means there is none.
pub proof fn lemma_find(s: Seq<char>, pat: Seq<char>, i: int)
    requires
        0 <= i,
    ensures
        match find_from(s, pat, i) {
            Some(k) => i <= k && occurs_at(s, pat, k) && forall|j: int|
                i <= j < k ==> !occurs_at(s, pat, j),
            None => forall|j: int| i <= j ==> !occurs_at(s, pat, j),
        },
    decreases s.len() - i + 1,
{
    if i + pat.len() <= s.len() && !occurs_at(s, pat, i) {
        lemma_find(s, pat, i + 1);
    }
}

/// A first occurrence is the position found.
pub proof fn lemma_found(s: Seq<char>, pat: Seq<char>, i: int, k: int)
    requires
        0 <= i <= k,
        occurs_at(s, pat, k),
        forall|j: int| i <= j < k ==> !occurs_at(s, pat, j),
    ensures
        find_from(s, pat, i) == Some(k),
    decreases k - i,
{
    if i < k {
        lemma_found(s, pat, i + 1, k);
    }
}

/// A text without the character `c` has no position for it.
pub proof fn lemma_char_absent(s: Seq<char>, c: char, i: int)
    requires
        0 <= i,
        !s.contains(c),
    ensures
        find_from(s, seq![c], i) is None,
    decreases s.len() - i,
{
    if i + 1 <= s.len() {
        if occurs_at(s, seq![c], i) {
            assert(s.subrange(i, i + 1)[0] == s[i]);
            assert(s.contains(c));
        }
        lemma_char_absent(s, c, i + 1);
    }
}

/// In `a + [c] + b` the first `c` comes right after an `a` that has none.
pub proof fn lemma_char_after(a: Seq<char>, c: char, b: Seq<char>)
    requires
        !a.contains(c),
    ensures
        position(a.push(c) + b, seq![c]) == Some(a.len() as int),
{
    let s = a.push(c) + b;
    assert(s.subrange(a.len() as int, a.len() as int + 1) =~= seq![c]);
    assert forall|j: int| 0 <= j < a.len() implies !occurs_at(s, seq![c], j) by {
        if occurs_at(s, seq![c], j) {
            assert(s.subrange(j, j + 1)[0] == s[j]);
            assert(a[j] == c);
            assert(a.contains(c));
        }
    }
    lemma_found(s, seq![c], 0, a.len() as int);
}

/// Whether `pat` stands in `v` at position `i`.
pub fn matches_at(v: &Vec<char>, pat: &Vec<char>, i: usize) -> (yes: bool)
    requires
        i <= v@.len(),
    ensures
        yes == occurs_at(v@, pat@, i as int),
{
    let len: usize = v.len();
    if pat.len() > len - i {
        return false;
    }
    let mut k: usize = 0;
    while k < pat.len()
        invariant
            k <= pat@.len(),
            i + pat@.len() <= len,
            len == v@.len(),
            forall|j: int| 0 <= j < k ==> v@[i + j] == pat@[j],
        decreases pat@.len() - k,
    {
        if v[i + k] != pat[k] {
            assert(v@.subrange(i as int, i + pat@.len())[k as int] == v@[i + k]);
            return false;
        }
        k += 1;
    }
    assert(v@.subrange(i as int, i + pat@.len()) =~= pat@);
    true
}

/// The first position at or after `from` where `pat` stands in `v`.
pub fn find_in(v: &Vec<char>, pat: &Vec<char>, from: usize) -> (at: Option<usize>)
    requires
        from <= v@.len(),
    ensures
        match at {
            Some(k) => find_from(v@, pat@, from as int) == Some(k as int) && k + pat@.len()
                <= v@.len(),
            None => find_from(v@, pat@, from as int) is None,
        },
{
    let mut i: usize = from;
    while pat.len() <= v.len() - i
        invariant
            from <= i <= v@.len(),
            find_from(v@, pat@, from as int) == find_from(v@, pat@, i as int),
        decreases v@.len() - i,
    {
        if matches_at(v, pat, i) {
            return Some(i);
        }
        if i == v.len() {
            assert(find_from(v@, pat@, i + 1) is None);
            return None;
        }
        i += 1;
    }
    None
}

/// Whether `s` begins with `pat`.
pub open spec fn begins_with(s: Seq<char>, pat: Seq<char>) -> bool {
    occurs_at(s, pat, 0)
}

/// Whether `s` begins with `pat`.
pub fn starts_with(s: &str, pat: &str) -> (yes: bool)
    ensures
        yes == begins_with(s@, pat@),
{
    matches_at(&chars_of(s), &chars_of(pat), 0)
}

/// Whether `pat` stands anywhere in `s`.
pub fn contains(s: &str, pat: &str) -> (yes: bool)
    ensures
        yes == position(s@, pat@) is Some,
{
    find_in(&chars_of(s), &chars_of(pat), 0).is_some()
}

/// `s` cut at its first `c`: what stands before it and what stands after it.
pub open spec fn cut(s: Seq<char>, c: char) -> Option<(Seq<char>, Seq<char>)> {
    match position(s, seq![c]) {
        Some(i) => Some((s.take(i), s.skip(i + 1))),
        None => None,
    }
}

/// `s` cut at its first `c`.
pub fn split_once(s: &str, c: char) -> (halves: Option<(String, String)>)
    ensures
        match halves {
            Some((a, b)) => cut(s@, c) == Some((a@, b@)),
            None => cut(s@, c) is None,
        },
{
    let v = chars_of(s);
    let pat: Vec<char> = vec![c];
    assert(pat@ =~= seq![c]);
    let len: usize = v.len();
    match find_in(&v, &pat, 0) {
        Some(i) => {
            assert(i + 1 <= len);
            assert(v@.subrange(0, i as int) == v@.take(i as int));
            assert(v@.subrange(i + 1, v@.len() as int) == v@.skip(i + 1));
            Some((slice(&v, 0, i), slice(&v, i + 1, len)))
        },
        None => None,
    }
}

/// `s` with each occurrence of `pat`, taken from the left, replaced by `with`.
pub open spec fn replaced(s: Seq<char>, pat: Seq<char>, with: Seq<char>) -> Seq<char>
    decreases s.len(),
{
    if pat.len() == 0 {
        s
    } else {
        match position(s, pat) {
            Some(i) => if 0 <= i && i + pat.len() <= s.len() {
                s.take(i) + with + replaced(s.skip(i + pat.len()), pat, with)
            } else {
                s
            },
            None => s,
        }
    }
}

/// Searching a suffix is searching from where it starts.
proof fn lemma_find_skip(s: Seq<char>, pat: Seq<char>, d: int, i: int)
    requires
        0 <= d <= s.len(),
        0 <= i,
    ensures
        find_from(s, pat, d + i) == (match find_from(s.skip(d), pat, i) {
            Some(k) => Some(d + k),
            None => None::<int>,
        }),
    decreases s.len() - d - i + 1,
{
    let t = s.skip(d);
    if i + pat.len() <= t.len() {
        assert(t.subrange(i, i + pat.len()) =~= s.subrange(d + i, d + i + pat.len()));
        if !occurs_at(t, pat, i) {
            lemma_find_skip(s, pat, d, i + 1);
        }
    }
}

/// `s` with each occurrence of `pat`, taken from the left, replaced by `with`.
pub fn replace(s: &str, pat: &str, with: &str) -> (r: String)
    requires
        pat@.len() > 0,
    ensures
        r@ == replaced(s@, pat@, with@),
{
    let v = chars_of(s);
    let p = chars_of(pat);
    let len: usize = v.len();
    let mut r = String::new();
    let mut from: usize = 0;
    assert(v@.skip(0) == v@);
    loop
        invariant
            from <= len,
            len == v@.len(),
            p@ == pat@,
            p@.len() > 0,
            v@ == s@,
            r@ + replaced(v@.skip(from as int), p@, with@) == replaced(v@, p@, with@),
        decreases v@.len() - from,
    {
        let ghost rest = v@.skip(from as int);
        proof {
            lemma_find_skip(v@, p@, from as int, 0);
            lemma_find(v@, p@, from as int);
        }
        match find_in(&v, &p, from) {
            Some(i) => {
                let piece = slice(&v, from, i);
                let ghost before = r@;
                r.append(piece.as_str());
                r.append(with);
                from = i + p.len();
                proof {
                    let k = position(rest, p@).unwrap();
                    assert(rest.take(k) =~= piece@);
                    assert(rest.skip(k + p@.len()) =~= v@.skip(from as int));
                    assert(r@ + replaced(v@.skip(from as int), p@, with@) =~= before + (rest.take(k)
                        + with@ + replaced(rest.skip(k + p@.len()), p@, with@)));
                }
            },
            None => {
                let tail = slice(&v, from, v.len());
                assert(tail@ =~= rest);
                r.append(tail.as_str());
                return r;
            },
        }
    }
}

// ------------------------------------------------------------------ letters

pub open spec fn is_upper(c: char) -> bool {
    'A' <= c <= 'Z'
}

pub open spec fn is_letter(c: char) -> bool {
    is_upper(c) || 'a' <= c <= 'z'
}

/// The ASCII lower case of a character.
pub open spec fn lower_char(c: char) -> char {
    if is_upper(c) {
        (c as u32 + 32) as char
    } else {
        c
    }
}

/// The ASCII upper case of a character.
pub open spec fn upper_char(c: char) -> char {
    if 'a' <= c <= 'z' {
        (c as u32 - 32) as char
    } else {
        c
    }
}

/// `s` with its ASCII letters in lower case.
pub open spec fn lowered(s: Seq<char>) -> Seq<char> {
    Seq::new(s.len(), |i: int| lower_char(s[i]))
}

pub fn to_lower(c: char) -> (l: char)
    ensures
        l == lower_char(c),
{
    if 'A' <= c && c <= 'Z' {
        ((c as u8) + 32) as char
    } else {
        c
    }
}

pub fn to_upper(c: char) -> (u: char)
    ensures
        u == upper_char(c),
{
    if 'a' <= c && c <= 'z' {
        ((c as u8) - 32) as char
    } else {
        c
    }
}

/// `s` with its ASCII letters in lower case.
pub fn lower(s: &str) -> (l: String)
    ensures
        l@ == lowered(s@),
{
    let v = chars_of(s);
    let mut l = String::new();
    let mut i: usize = 0;
    while i < v.len()
        invariant
            i <= v@.len(),
            l@ == lowered(v@).take(i as int),
        decreases v@.len() - i,
    {
        l.push(to_lower(v[i]));
        assert(lowered(v@).take(i + 1) =~= lowered(v@).take(i as int).push(lower_char(v@[i as int])));
        i += 1;
    }
    assert(lowered(v@).take(i as int) == lowered(v@));
    l
}

// ------------------------------------------------- trimming, case and pieces

/// White space at the end of a text does not show once the text is trimmed.
proof fn lemma_trim_start_push(s: Seq<char>, w: char)
    requires
        is_white(w),
    ensures
        trim_start(s).len() == 0 ==> trim_start(s.push(w)).len() == 0,
        trim_start(s).len() > 0 ==> trim_start(s.push(w)) == trim_start(s).push(w),
    decreases s.len(),
{
    if s.len() == 0 {
        let rest = s.push(w).skip(1);
        assert(trim_start(rest) == rest);
    } else if is_white(s[0]) {
        assert(s.push(w).skip(1) == s.skip(1).push(w));
        lemma_trim_start_push(s.skip(1), w);
    }
}

/// White space in front of a text or behind it does not show once it is trimmed.
pub proof fn lemma_trimmed_ends(s: Seq<char>, w: char)
    requires
        is_white(w),
    ensures
        trimmed(s.push(w)) == trimmed(s),
        trimmed(seq![w] + s) == trimmed(s),
{
    lemma_trim_start_push(s, w);
    if trim_start(s).len() == 0 {
        assert(trim_start(s.push(w)) =~= trim_start(s));
    } else {
        assert(trim_start(s).push(w).drop_last() == trim_start(s));
    }
    assert((seq![w] + s).skip(1) == s);
}

/// Every piece of a text without the white space around it.
pub open spec fn pieces(s: Seq<char>, c: char) -> Seq<Seq<char>> {
    Seq::new(split_on(s, c).len(), |i: int| trimmed(split_on(s, c)[i]))
}

/// A character in front of a text belongs to its first piece.
proof fn lemma_split_front(w: char, s: Seq<char>, c: char)
    requires
        w != c,
    ensures
        split_on(seq![w] + s, c) == split_on(s, c).update(0, seq![w] + split_on(s, c)[0]),
    decreases s.len(),
{
    lemma_split_nonempty(s, c);
    if s.len() == 0 {
        assert(seq![w] + s == seq![w]);
        let empty = Seq::<char>::empty();
        assert(seq![w].drop_last() =~= empty);
        assert(split_on(empty, c) == seq![empty]);
        assert(empty.push(w) =~= seq![w]);
        assert(split_on(seq![w], c) =~= seq![seq![w]]);
        assert(seq![w] + Seq::<char>::empty() =~= seq![w]);
    } else {
        let short = s.drop_last();
        lemma_split_nonempty(short, c);
        lemma_split_front(w, short, c);
        assert((seq![w] + s).drop_last() == seq![w] + short);
        let parts = split_on(short, c);
        if parts.len() == 1 && s.last() != c {
            assert(seq![w] + parts[0].push(s.last()) == (seq![w] + parts[0]).push(s.last()));
        }
        assert(split_on(seq![w] + s, c) =~= split_on(s, c).update(
            0,
            seq![w] + split_on(s, c)[0],
        ));
    }
}

proof fn lemma_pieces_front(s: Seq<char>, c: char)
    requires
        !is_white(c),
    ensures
        pieces(trim_start(s), c) == pieces(s, c),
    decreases s.len(),
{
    if s.len() > 0 && is_white(s[0]) {
        let rest = s.skip(1);
        lemma_pieces_front(rest, c);
        assert(seq![s[0]] + rest == s);
        lemma_split_nonempty(rest, c);
        lemma_split_front(s[0], rest, c);
        lemma_trimmed_ends(split_on(rest, c)[0], s[0]);
        assert(pieces(rest, c) =~= pieces(s, c));
    }
}

proof fn lemma_pieces_back(s: Seq<char>, c: char)
    requires
        !is_white(c),
    ensures
        pieces(trim_end(s), c) == pieces(s, c),
    decreases s.len(),
{
    if s.len() > 0 && is_white(s.last()) {
        let rest = s.drop_last();
        lemma_pieces_back(rest, c);
        lemma_split_nonempty(rest, c);
        lemma_trimmed_ends(split_on(rest, c).last(), s.last());
        assert(pieces(rest, c) =~= pieces(s, c));
    }
}

/// White space around a text is white space around its first and its last piece.
pub proof fn lemma_pieces_of_trimmed(s: Seq<char>, c: char)
    requires
        !is_white(c),
    ensures
        pieces(trimmed(s), c) == pieces(s, c),
{
    lemma_pieces_front(s, c);
    lemma_pieces_back(trim_start(s), c);
}

proof fn lemma_lowered_ends(s: Seq<char>)
    ensures
        trim_start(lowered(s)) == lowered(trim_start(s)),
        trim_end(lowered(s)) == lowered(trim_end(s)),
    decreases s.len(),
{
    if s.len() > 0 {
        assert(lowered(s).skip(1) =~= lowered(s.skip(1)));
        assert(lowered(s).drop_last() =~= lowered(s.drop_last()));
        lemma_lowered_ends(s.skip(1));
        lemma_lowered_ends(s.drop_last());
    }
}

/// Lower case leaves white space where it is.
pub proof fn lemma_lowered_trimmed(s: Seq<char>)
    ensures
        trimmed(lowered(s)) == lowered(trimmed(s)),
{
    lemma_lowered_ends(s);
    lemma_lowered_ends(trim_start(s));
}

/// Lower case leaves the pieces of a text where they are.
pub proof fn lemma_lowered_pieces(s: Seq<char>, c: char)
    requires
        !is_letter(c),
    ensures
        split_on(lowered(s), c).len() == split_on(s, c).len(),
        forall|i: int|
            0 <= i < split_on(s, c).len() ==> #[trigger] split_on(lowered(s), c)[i] == lowered(
                split_on(s, c)[i],
            ),
    decreases s.len(),
{
    if s.len() == 0 {
        assert(lowered(s) =~= s);
        assert(lowered(Seq::<char>::empty()) =~= Seq::<char>::empty());
    } else {
        let short = s.drop_last();
        lemma_lowered_pieces(short, c);
        lemma_split_nonempty(short, c);
        assert(lowered(s).drop_last() =~= lowered(short));
        let last = split_on(short, c).last();
        assert(lowered(last.push(s.last())) =~= lowered(last).push(lower_char(s.last())));
        assert(lowered(Seq::<char>::empty()) =~= Seq::<char>::empty());
    }
}

// ------------------------------------------------------------------ numbers

pub open spec fn is_digit(c: char) -> bool {
    '0' <= c <= '9'
}

/// The number a digit stands for.
pub open spec fn digit_value(c: char) -> int {
    c as int - '0' as int
}

/// Whether `s` is one or more decimal digits.
pub open spec fn all_digits(s: Seq<char>) -> bool {
    s.len() > 0 && forall|i: int| 0 <= i < s.len() ==> is_digit(#[trigger] s[i])
}

/// The number that decimal digits write.
pub open spec fn digits_value(s: Seq<char>) -> int
    decreases s.len(),
{
    if s.len() == 0 {
        0
    } else {
        10 * digits_value(s.drop_last()) + digit_value(s.last())
    }
}

/// The number a text writes in decimal, one leading `+` allowed, where it is
/// below two to the sixty-fourth.
pub open spec fn number(s: Seq<char>) -> Option<u64> {
    let digits = if s.len() > 0 && s[0] == '+' {
        s.skip(1)
    } else {
        s
    };
    if all_digits(digits) && digits_value(digits) <= u64::MAX {
        Some(digits_value(digits) as u64)
    } else {
        None
    }
}

/// The number a text writes in decimal, one leading `+` allowed, however large.
pub open spec fn natural(s: Seq<char>) -> Option<int> {
    let digits = if s.len() > 0 && s[0] == '+' {
        s.skip(1)
    } else {
        s
    };
    if all_digits(digits) {
        Some(digits_value(digits))
    } else {
        None
    }
}

/// The digit for a number below ten.
pub open spec fn digit(n: int) -> char {
    ('0' as int + n) as char
}

/// A number written in decimal.
pub open spec fn decimal_digits(n: nat) -> Seq<char>
    decreases n,
{
    if n < 10 {
        seq![digit(n as int)]
    } else {
        decimal_digits(n / 10).push(digit((n % 10) as int))
    }
}

/// Longer runs of digits are never worth less.
proof fn lemma_digits_grow(s: Seq<char>, i: int)
    requires
        0 <= i <= s.len(),
        forall|k: int| 0 <= k < s.len() ==> is_digit(#[trigger] s[k]),
    ensures
        0 <= digits_value(s.take(i)) <= digits_value(s),
    decreases s.len(), s.len() - i,
{
    if i == s.len() {
        assert(s.take(i) == s);
        if s.len() > 0 {
            let t = s.drop_last();
            assert forall|k: int| 0 <= k < t.len() implies is_digit(#[trigger] t[k]) by {
                assert(is_digit(s[k]));
            }
            lemma_digits_grow(t, 0);
            assert(t.take(0) =~= Seq::<char>::empty());
            assert(is_digit(s[s.len() - 1]));
        }
    } else {
        let t = s.drop_last();
        assert forall|k: int| 0 <= k < t.len() implies is_digit(#[trigger] t[k]) by {
            assert(is_digit(s[k]));
        }
        lemma_digits_grow(t, i);
        assert(t.take(i) =~= s.take(i));
        assert(is_digit(s[s.len() - 1]));
    }
}

/// The number `s` writes in decimal.
pub fn parse_number(s: &str) -> (n: Option<u64>)
    ensures
        n == number(s@),
{
    let v = chars_of(s);
    let start: usize = if v.len() > 0 && v[0] == '+' {
        1
    } else {
        0
    };
    let ghost digits = if v@.len() > 0 && v@[0] == '+' {
        v@.skip(1)
    } else {
        v@
    };
    assert(digits =~= v@.skip(start as int));
    if start == v.len() {
        return None;
    }
    let mut n: u64 = 0;
    let mut i: usize = start;
    while i < v.len()
        invariant
            start <= i <= v@.len(),
            start < v@.len(),
            digits == v@.skip(start as int),
            forall|k: int| 0 <= k < i - start ==> is_digit(#[trigger] digits[k]),
            n == digits_value(digits.take(i - start)),
            number(s@) == (if all_digits(digits) && digits_value(digits) <= u64::MAX {
                Some(digits_value(digits) as u64)
            } else {
                None
            }),
        decreases v@.len() - i,
    {
        let c = v[i];
        assert(digits[i - start] == c);
        if !('0' <= c && c <= '9') {
            return None;
        }
        let d: u64 = (c as u64) - ('0' as u64);
        let ghost next = digits.take(i - start + 1);
        assert(next.drop_last() =~= digits.take(i - start));
        assert(next.last() == c);
        assert(digits_value(next) == 10 * n + d);
        if n > 1844674407370955161u64 || (n == 1844674407370955161u64 && d > 5) {
            proof {
                if all_digits(digits) {
                    lemma_digits_grow(digits, i - start + 1);
                }
            }
            return None;
        }
        n = 10 * n + d;
        i += 1;
    }
    assert(digits.take(i - start) == digits);
    Some(n)
}

/// Of two runs of digits without a zero in front, the longer is worth more.
pub proof fn lemma_longer_is_more(a: Seq<char>, b: Seq<char>)
    requires
        forall|i: int| 0 <= i < a.len() ==> is_digit(#[trigger] a[i]),
        forall|i: int| 0 <= i < b.len() ==> is_digit(#[trigger] b[i]),
        a.len() < b.len(),
        b[0] != '0',
    ensures
        0 <= digits_value(a) < digits_value(b),
    decreases b.len(),
{
    let c = b.drop_last();
    assert forall|i: int| 0 <= i < c.len() implies is_digit(#[trigger] c[i]) by {
        assert(is_digit(b[i]));
    }
    assert(is_digit(b[b.len() - 1]));
    if a.len() > 0 {
        let z = a.drop_last();
        assert forall|i: int| 0 <= i < z.len() implies is_digit(#[trigger] z[i]) by {
            assert(is_digit(a[i]));
        }
        assert(is_digit(a[a.len() - 1]));
        lemma_longer_is_more(z, c);
    } else if c.len() > 0 {
        lemma_longer_is_more(a, c);
    }
}

/// Of two runs of digits of one length, the first difference decides.
pub proof fn lemma_first_difference_decides(a: Seq<char>, b: Seq<char>, i: int)
    requires
        forall|k: int| 0 <= k < a.len() ==> is_digit(#[trigger] a[k]),
        forall|k: int| 0 <= k < b.len() ==> is_digit(#[trigger] b[k]),
        a.len() == b.len(),
        0 <= i < a.len(),
        a.take(i) == b.take(i),
        a[i] < b[i],
    ensures
        digits_value(a) < digits_value(b),
    decreases a.len(),
{
    let y = a.drop_last();
    let z = b.drop_last();
    assert(is_digit(a[a.len() - 1]) && is_digit(b[b.len() - 1]));
    if i == a.len() - 1 {
        assert(y =~= a.take(i) && z =~= b.take(i));
    } else {
        assert forall|k: int| 0 <= k < y.len() implies is_digit(#[trigger] y[k]) && is_digit(
            z[k],
        ) by {
            assert(is_digit(a[k]) && is_digit(b[k]));
        }
        assert forall|k: int| 0 <= k < z.len() implies is_digit(#[trigger] z[k]) by {
            assert(is_digit(b[k]));
        }
        assert(y.take(i) =~= a.take(i) && z.take(i) =~= b.take(i));
        lemma_first_difference_decides(y, z, i);
    }
}

/// The digits of the number `s` writes, without the zeros in front.
pub fn significant_digits(s: &str) -> (digits: Option<Vec<char>>)
    ensures
        match digits {
            Some(d) => natural(s@) == Some(digits_value(d@)) && (forall|i: int|
                0 <= i < d@.len() ==> is_digit(#[trigger] d@[i])) && (d@.len() > 0 ==> d@[0]
                != '0'),
            None => natural(s@) is None,
        },
{
    let v = chars_of(s);
    let start: usize = if v.len() > 0 && v[0] == '+' {
        1
    } else {
        0
    };
    let ghost digits = v@.skip(start as int);
    assert(start == 0 ==> digits =~= v@);
    if start == v.len() {
        return None;
    }
    let mut rest: Vec<char> = Vec::new();
    let mut i: usize = start;
    assert(digits.take(0) =~= Seq::<char>::empty());
    while i < v.len()
        invariant
            start <= i <= v@.len(),
            start < v@.len(),
            digits == v@.skip(start as int),
            natural(s@) == (if all_digits(digits) {
                Some(digits_value(digits))
            } else {
                None
            }),
            forall|k: int| 0 <= k < i - start ==> is_digit(#[trigger] digits[k]),
            forall|k: int| 0 <= k < rest@.len() ==> is_digit(#[trigger] rest@[k]),
            digits_value(rest@) == digits_value(digits.take(i - start)),
            rest@.len() > 0 ==> rest@[0] != '0',
        decreases v@.len() - i,
    {
        let c = v[i];
        assert(digits[i - start] == c);
        if !('0' <= c && c <= '9') {
            return None;
        }
        let ghost next = digits.take(i - start + 1);
        assert(next.drop_last() =~= digits.take(i - start));
        assert(next.last() == c);
        if rest.len() > 0 || c != '0' {
            let ghost before = rest@;
            rest.push(c);
            assert(rest@.drop_last() =~= before);
        }
        i += 1;
    }
    assert(digits.take(i - start) == digits);
    Some(rest)
}

/// `n` written in decimal.
pub fn decimal(n: u64) -> (s: String)
    ensures
        s@ == decimal_digits(n as nat),
    decreases n,
{
    if n < 10 {
        let mut s = String::new();
        s.push((48u8 + n as u8) as char);
        assert(s@ =~= seq![digit(n as int)]);
        s
    } else {
        let mut s = decimal(n / 10);
        s.push((48u8 + (n % 10) as u8) as char);
        s
    }
}

/// A written number consists of digits and reads back as itself.
pub proof fn lemma_decimal(n: nat)
    ensures
        all_digits(decimal_digits(n)),
        digits_value(decimal_digits(n)) == n,
    decreases n,
{
    let s = decimal_digits(n);
    if n < 10 {
        assert(s.drop_last() =~= Seq::<char>::empty());
        assert(digits_value(s.drop_last()) == 0);
    } else {
        lemma_decimal(n / 10);
        assert(s.drop_last() =~= decimal_digits(n / 10));
        assert forall|i: int| 0 <= i < s.len() implies is_digit(#[trigger] s[i]) by {
            if i < s.len() - 1 {
                assert(s[i] == decimal_digits(n / 10)[i]);
            }
        }
    }
}

/// Reading a written number gives the number back.
pub proof fn decimal_then_number(n: u64)
    ensures
        number(decimal_digits(n as nat)) == Some(n),
{
    lemma_decimal(n as nat);
    let s = decimal_digits(n as nat);
    assert(is_digit(s[0]));
}

// --------------------------------------------------------------------- laws

/// Trimming keeps the inside of a text: what is left is a run of its characters that
/// neither begins nor ends with white space, and what is taken off is white space.
pub proof fn trimmed_is_the_inside(s: Seq<char>)
    ensures
        trimmed(s).len() > 0 ==> !is_white(trimmed(s)[0]) && !is_white(trimmed(s).last()),
        exists|lo: int, hi: int|
            {
                &&& 0 <= lo <= hi <= s.len()
                &&& trimmed(s) == #[trigger] s.subrange(lo, hi)
                &&& forall|i: int| 0 <= i < lo ==> is_white(#[trigger] s[i])
                &&& forall|i: int| hi <= i < s.len() ==> is_white(#[trigger] s[i])
            },
{
    let lo = lemma_front_trimmed(s);
    let front = trim_start(s);
    let n = lemma_back_trimmed(front);
    let hi = lo + n;
    assert(front.take(n) =~= s.subrange(lo, hi));
    assert forall|i: int| hi <= i < s.len() implies is_white(#[trigger] s[i]) by {
        assert(is_white(front[i - lo]));
    }
    if trimmed(s).len() > 0 {
        assert(trimmed(s)[0] == front[0]);
    }
}

proof fn lemma_front_trimmed(s: Seq<char>) -> (lo: int)
    ensures
        0 <= lo <= s.len(),
        trim_start(s) == s.skip(lo),
        forall|i: int| 0 <= i < lo ==> is_white(#[trigger] s[i]),
        trim_start(s).len() > 0 ==> !is_white(trim_start(s)[0]),
    decreases s.len(),
{
    if s.len() > 0 && is_white(s[0]) {
        let k = lemma_front_trimmed(s.skip(1));
        assert(s.skip(1).skip(k) =~= s.skip(k + 1));
        assert forall|i: int| 0 <= i < k + 1 implies is_white(#[trigger] s[i]) by {
            if i > 0 {
                assert(s.skip(1)[i - 1] == s[i]);
            }
        }
        k + 1
    } else {
        assert(s.skip(0) =~= s);
        0
    }
}

proof fn lemma_back_trimmed(s: Seq<char>) -> (n: int)
    ensures
        0 <= n <= s.len(),
        trim_end(s) == s.take(n),
        forall|i: int| n <= i < s.len() ==> is_white(#[trigger] s[i]),
        trim_end(s).len() > 0 ==> !is_white(trim_end(s).last()),
    decreases s.len(),
{
    if s.len() > 0 && is_white(s.last()) {
        let n = lemma_back_trimmed(s.drop_last());
        assert(s.drop_last().take(n) =~= s.take(n));
        assert forall|i: int| n <= i < s.len() implies is_white(#[trigger] s[i]) by {
            if i < s.len() - 1 {
                assert(s.drop_last()[i] == s[i]);
            }
        }
        n
    } else {
        assert(s.take(s.len() as int) =~= s);
        s.len() as int
    }
}

/// Nothing is left of a text exactly where it is white space all over.
pub proof fn blank_is_trimmed_away(s: Seq<char>)
    ensures
        trimmed(s).len() == 0 <==> forall|i: int| 0 <= i < s.len() ==> is_white(#[trigger] s[i]),
{
    let lo = lemma_front_trimmed(s);
    let front = trim_start(s);
    let n = lemma_back_trimmed(front);
    if trimmed(s).len() == 0 {
        assert(n == 0);
        assert forall|i: int| 0 <= i < s.len() implies is_white(#[trigger] s[i]) by {
            if i >= lo {
                assert(is_white(front[i - lo]));
            }
        }
    } else if forall|i: int| 0 <= i < s.len() ==> is_white(#[trigger] s[i]) {
        assert(trimmed(s)[0] == s[lo]);
        trimmed_is_the_inside(s);
    }
}

/// A number written in decimal is read as itself, however large.
pub proof fn decimal_is_natural(n: nat)
    ensures
        natural(decimal_digits(n)) == Some(n as int),
{
    lemma_decimal(n);
    assert(is_digit(decimal_digits(n)[0]));
}

/// Numbers that differ are written differently.
pub proof fn decimals_differ(m: nat, n: nat)
    ensures
        decimal_digits(m) == decimal_digits(n) <==> m == n,
{
    lemma_decimal(m);
    lemma_decimal(n);
}

/// A text is read as a number exactly where it is digits after at most one `+`, and the
/// number fits sixty-four bits; each digit then weighs ten times the next.
pub proof fn numbers_are_digits(s: Seq<char>, front: Seq<char>, c: char)
    ensures
        number(s) is Some ==> s.len() > 0 && is_digit(s.last()),
        (exists|i: int| 0 < i < s.len() && !is_digit(#[trigger] s[i])) ==> number(s) is None,
        s.len() > 0 && !is_digit(s[0]) && s[0] != '+' ==> number(s) is None,
        all_digits(front) && is_digit(c) ==> digits_value(front.push(c)) == 10 * digits_value(front)
            + (c as int - 48),
        is_digit(c) ==> digits_value(seq![c]) == c as int - 48,
        natural(s) is None ==> number(s) is None,
        natural(s) matches Some(n) ==> (n <= 0xffff_ffff_ffff_ffff ==> number(s) == Some(n as u64))
            && (n > 0xffff_ffff_ffff_ffff ==> number(s) is None),
{
    let digits = if s.len() > 0 && s[0] == '+' {
        s.skip(1)
    } else {
        s
    };
    if all_digits(digits) {
        assert(is_digit(digits[digits.len() - 1]));
        assert forall|i: int| 0 < i < s.len() implies is_digit(#[trigger] s[i]) by {
            if s[0] == '+' {
                assert(digits[i - 1] == s[i]);
            } else {
                assert(digits[i] == s[i]);
            }
        }
        assert(is_digit(digits[0]));
        lemma_digits_grow(digits, 0);
        assert(digits.take(0) =~= Seq::<char>::empty());
    }
    assert(front.push(c).drop_last() =~= front);
    assert(seq![c].drop_last() =~= Seq::<char>::empty());
    assert(digits_value(Seq::<char>::empty()) == 0);
}

/// What stands before the first separator is the first piece.
pub proof fn first_piece(s: Seq<char>, rest: Seq<char>, c: char)
    requires
        !s.contains(c),
    ensures
        split_on(s.push(c) + rest, c)[0] == s,
{
    let parts = seq![s] + split_on(rest, c);
    lemma_split_lacks(rest, c);
    lemma_split_nonempty(rest, c);
    split_then_join(rest, c);
    lemma_joined_front(s, split_on(rest, c), seq![c]);
    assert(joined(parts, seq![c]) =~= s.push(c) + rest);
    assert forall|i: int| 0 <= i < parts.len() implies !(#[trigger] parts[i]).contains(c) by {
        if i > 0 {
            assert(parts[i] == split_on(rest, c)[i - 1]);
        }
    }
    join_then_split(parts, c);
}

proof fn lemma_joined_front(s: Seq<char>, parts: Seq<Seq<char>>, sep: Seq<char>)
    requires
        parts.len() > 0,
    ensures
        joined(seq![s] + parts, sep) == s + sep + joined(parts, sep),
    decreases parts.len(),
{
    let all = seq![s] + parts;
    if parts.len() == 1 {
        assert(all.drop_last() =~= seq![s]);
        assert(joined(seq![s], sep) == s);
        assert(joined(parts, sep) == parts[0]);
        assert(joined(all, sep) =~= s + sep + joined(parts, sep));
    } else {
        lemma_joined_front(s, parts.drop_last(), sep);
        assert(all.drop_last() =~= seq![s] + parts.drop_last());
        assert(joined(all, sep) =~= s + sep + joined(parts, sep));
    }
}

/// A text without the separator is one piece.
pub proof fn only_piece(s: Seq<char>, c: char)
    requires
        !s.contains(c),
    ensures
        split_on(s, c) == seq![s],
{
    let parts = seq![s];
    assert(joined(parts, seq![c]) == s);
    assert forall|i: int| 0 <= i < parts.len() implies !(#[trigger] parts[i]).contains(c) by {}
    join_then_split(parts, c);
}

/// Cutting a text parts it at the first such character: the halves with the character
/// between them are the text, and the front half is without it.
pub proof fn cut_halves(s: Seq<char>, c: char)
    ensures
        cut(s, c) is Some <==> s.contains(c),
        cut(s, c) matches Some((front, back)) ==> s == front + seq![c] + back && !front.contains(c),
{
    lemma_find(s, seq![c], 0);
    match position(s, seq![c]) {
        Some(i) => {
            assert(s.subrange(i, i + 1)[0] == c);
            let front = s.take(i);
            if front.contains(c) {
                let k = choose|k: int| 0 <= k < front.len() && front[k] == c;
                assert(s.subrange(k, k + 1) =~= seq![c]);
                assert(occurs_at(s, seq![c], k));
            }
            assert(s =~= s.take(i) + seq![c] + s.skip(i + 1));
            assert(s.contains(c));
        },
        None => {
            if s.contains(c) {
                let k = choose|k: int| 0 <= k < s.len() && s[k] == c;
                assert(s.subrange(k, k + 1) =~= seq![c]);
                assert(occurs_at(s, seq![c], k));
            }
        },
    }
}

/// Lowering touches the capital letters of ASCII alone, each of which becomes the small
/// letter of its place in the alphabet.
pub proof fn lowering_is_letter_by_letter(s: Seq<char>, i: int)
    requires
        0 <= i < s.len(),
    ensures
        lowered(s).len() == s.len(),
        'A' <= s[i] <= 'Z' ==> lowered(s)[i] as int == s[i] as int + 32,
        !('A' <= s[i] <= 'Z') ==> lowered(s)[i] == s[i],
{
}

/// What is lowered once stays as it is.
pub proof fn lowering_twice_is_lowering_once(s: Seq<char>)
    ensures
        lowered(lowered(s)) == lowered(s),
{
    assert(lowered(lowered(s)) =~= lowered(s));
}

/// Which characters are white space, as far as ASCII goes: the space and the five
/// controls that move the print position.
pub proof fn white_space_of_ascii(c: char)
    requires
        c <= '\u{7f}',
    ensures
        is_white(c) <==> c == ' ' || c == '\t' || c == '\n' || c == '\u{b}' || c == '\u{c}' || c
            == '\r',
{
}

/// Beyond ASCII the white space is that of Unicode: no letter is among it, and the spaces
/// of other scripts are.
pub proof fn white_space_beyond_ascii(c: char)
    requires
        c > '\u{7f}',
    ensures
        is_white(c) <==> c == '\u{85}' || c == '\u{a0}' || c == '\u{1680}' || '\u{2000}' <= c
            <= '\u{200a}' || c == '\u{2028}' || c == '\u{2029}' || c == '\u{202f}' || c == '\u{205f}'
            || c == '\u{3000}',
{
}

/// A text in which the pattern does not stand is left as it is, and each place where it
/// stands, from the front on, holds the replacement instead.
pub proof fn every_place_is_replaced(s: Seq<char>, pat: Seq<char>, with: Seq<char>, i: int)
    requires
        pat.len() > 0,
    ensures
        position(s, pat) is None ==> replaced(s, pat, with) == s,
        position(s, pat) == Some(i) ==> replaced(s, pat, with) == s.take(i) + with + replaced(
            s.skip(i + pat.len()),
            pat,
            with,
        ),
{
    lemma_find(s, pat, 0);
}

/// Where a pattern is found is where it first stands, and it is not found exactly where
/// it stands nowhere.
pub proof fn positions_are_first_places(s: Seq<char>, pat: Seq<char>)
    ensures
        position(s, pat) matches Some(i) ==> {
            &&& 0 <= i && i + pat.len() <= s.len()
            &&& s.subrange(i, i + pat.len()) == pat
            &&& forall|k: int|
                0 <= k < i && k + pat.len() <= s.len() ==> #[trigger] s.subrange(k, k + pat.len())
                    != pat
        },
        position(s, pat) is None ==> forall|k: int|
            0 <= k && k + pat.len() <= s.len() ==> #[trigger] s.subrange(k, k + pat.len()) != pat,
{
    lemma_find(s, pat, 0);
    match position(s, pat) {
        Some(i) => {
            assert forall|k: int| 0 <= k < i && k + pat.len() <= s.len() implies #[trigger] s.subrange(
                k,
                k + pat.len(),
            ) != pat by {
                assert(!occurs_at(s, pat, k));
            }
        },
        None => {
            assert forall|k: int| 0 <= k && k + pat.len() <= s.len() implies #[trigger] s.subrange(
                k,
                k + pat.len(),
            ) != pat by {
                assert(!occurs_at(s, pat, k));
            }
        },
    }
}

/// What is trimmed once stays as it is.
pub proof fn trimming_twice_is_trimming_once(s: Seq<char>)
    ensures
        trimmed(trimmed(s)) == trimmed(s),
{
    trimmed_is_the_inside(s);
    let t = trimmed(s);
    if t.len() > 0 {
        assert(trim_start(t) == t);
        assert(trim_end(t) == t);
    }
}

/// A digit is one of the ten of ASCII, and its value is its distance from zero.
pub proof fn digits_are_those_of_ascii(c: char)
    ensures
        is_digit(c) <==> '0' <= c <= '9',
        digit_value(c) == c as int - 48,
{
}

/// A text of digits writes the number of its digits, with or without a plus sign before
/// it; nothing else writes a number.
pub proof fn a_plus_sign_may_lead(s: Seq<char>)
    ensures
        all_digits(s) ==> natural(s) == Some(digits_value(s)),
        all_digits(s) ==> natural(seq!['+'] + s) == Some(digits_value(s)),
        natural(s) is Some ==> all_digits(s) || (s[0] == '+' && all_digits(s.skip(1))),
{
    assert((seq!['+'] + s).skip(1) =~= s);
    if all_digits(s) {
        assert(is_digit(s[0]));
    }
}

/// A number is written without zeros in front; zero alone is written as one.
pub proof fn decimals_have_no_leading_zero(n: nat)
    ensures
        n == 0 ==> decimal_digits(n) == seq!['0'],
        n > 0 ==> decimal_digits(n)[0] != '0',
        n < 10 ==> decimal_digits(n).len() == 1,
        n >= 10 ==> decimal_digits(n).len() == decimal_digits(n / 10).len() + 1,
    decreases n,
{
    if n < 10 {
        assert(digit(0) == '0');
        assert(n > 0 ==> digit(n as int) != '0');
    } else {
        decimals_have_no_leading_zero(n / 10);
        assert(decimal_digits(n)[0] == decimal_digits(n / 10)[0]);
    }
}

/// Joining puts the separator between each two parts, and nowhere else.
pub proof fn joining_separates_the_parts(parts: Seq<Seq<char>>, part: Seq<char>, sep: Seq<char>)
    ensures
        joined(Seq::<Seq<char>>::empty(), sep).len() == 0,
        joined(seq![part], sep) == part,
        parts.len() > 0 ==> joined(parts.push(part), sep) == joined(parts, sep) + sep + part,
{
    assert(parts.push(part).drop_last() =~= parts);
}

/// A text begins with another exactly where that is followed by something, or nothing.
pub proof fn beginnings_are_in_front(s: Seq<char>, pat: Seq<char>, rest: Seq<char>)
    ensures
        begins_with(pat + rest, pat),
        begins_with(s, pat) ==> s.len() >= pat.len() && s.take(pat.len() as int) == pat,
        s.len() < pat.len() ==> !begins_with(s, pat),
{
    assert((pat + rest).subrange(0, pat.len() as int) =~= pat);
    if begins_with(s, pat) {
        assert(s.take(pat.len() as int) =~= s.subrange(0, pat.len() as int));
    }
}

/// One text holds another exactly where it stands somewhere in it.
pub proof fn containing_is_standing_somewhere(
    s: &str,
    pat: &str,
    yes: bool,
    front: Seq<char>,
    back: Seq<char>,
)
    requires
        call_ensures(contains, (s, pat), yes),
    ensures
        s@ == front + pat@ + back ==> yes,
        yes ==> exists|i: int|
            0 <= i && i + pat@.len() <= s@.len() && #[trigger] s@.subrange(i, i + pat@.len()) == pat@,
{
    positions_are_first_places(s@, pat@);
    if s@ == front + pat@ + back {
        let i = front.len() as int;
        assert(s@.subrange(i, i + pat@.len()) =~= pat@);
    }
}

/// What an optional text and a list of texts hold are their characters.
pub proof fn contents_are_characters(s: String, list: Seq<String>, i: int)
    ensures
        held(Some(s)) == Some(s@),
        held(None::<String>) is None,
        views(list).len() == list.len(),
        0 <= i < list.len() ==> views(list)[i] == list[i]@,
{
}

} // verus!
