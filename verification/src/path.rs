//! Paths as text, with `/` between their components.

use crate::text;
use vstd::prelude::*;

verus! {

/// A path without trailing separators and trailing `.` components.
pub open spec fn settled(s: Seq<char>) -> Seq<char>
    decreases s.len(),
{
    if s.len() > 1 && s.last() == '/' {
        settled(s.drop_last())
    } else if s.len() > 1 && s.last() == '.' && s[s.len() - 2] == '/' {
        settled(s.drop_last())
    } else {
        s
    }
}

/// Where the last component of a path begins: right after its last separator.
pub open spec fn base_start(s: Seq<char>) -> int
    decreases s.len(),
{
    if s.len() == 0 {
        0
    } else if s.last() == '/' {
        s.len() as int
    } else {
        base_start(s.drop_last())
    }
}

/// Whether a settled path has no component but perhaps a root.
pub open spec fn bare(s: Seq<char>) -> bool {
    s.len() == 0 || s == seq!['/']
}

/// The path without its last component; none for a root and for nothing.
pub open spec fn parent_of(s: Seq<char>) -> Option<Seq<char>> {
    let t = settled(s);
    if bare(t) {
        None
    } else {
        Some(settled(t.take(base_start(t))))
    }
}

/// The last component of a path, where it is a name.
pub open spec fn name_of(s: Seq<char>) -> Option<Seq<char>> {
    let t = settled(s);
    let base = t.skip(base_start(t));
    if bare(t) || base == seq!['.'] || base == seq!['.', '.'] {
        None
    } else {
        Some(base)
    }
}

/// `tail` inside `base`; a `tail` that begins at the root stands alone.
pub open spec fn joined(base: Seq<char>, tail: Seq<char>) -> Seq<char> {
    if tail.len() > 0 && tail[0] == '/' {
        tail
    } else if base.len() > 0 && base.last() != '/' {
        base.push('/') + tail
    } else {
        base + tail
    }
}

/// The path with its last component replaced, or added where it has none.
pub open spec fn renamed(s: Seq<char>, name: Seq<char>) -> Seq<char> {
    match (name_of(s), parent_of(s)) {
        (Some(_), Some(dir)) => joined(dir, name),
        _ => joined(s, name),
    }
}

proof fn lemma_base_start_is(s: Seq<char>, k: int)
    requires
        0 <= k <= s.len(),
        k > 0 ==> s[k - 1] == '/',
        forall|i: int| k <= i < s.len() ==> s[i] != '/',
    ensures
        base_start(s) == k,
    decreases s.len(),
{
    if s.len() > k {
        lemma_base_start_is(s.drop_last(), k);
    }
}

/// How many characters of `v` are left when the end of its first `len` is settled.
fn settle(v: &Vec<char>, len: usize) -> (kept: usize)
    requires
        len <= v@.len(),
    ensures
        kept <= len,
        v@.take(kept as int) == settled(v@.take(len as int)),
{
    let mut kept: usize = len;
    while kept > 1 && (v[kept - 1] == '/' || (v[kept - 1] == '.' && v[kept - 2] == '/'))
        invariant
            kept <= len <= v@.len(),
            settled(v@.take(kept as int)) == settled(v@.take(len as int)),
        decreases kept,
    {
        assert(v@.take(kept as int).drop_last() == v@.take(kept - 1));
        kept -= 1;
    }
    kept
}

/// Where the last component of the first `len` characters begins.
fn base(v: &Vec<char>, len: usize) -> (start: usize)
    requires
        len <= v@.len(),
    ensures
        start <= len,
        start == base_start(v@.take(len as int)),
{
    let mut i: usize = len;
    while i > 0 && v[i - 1] != '/'
        invariant
            i <= len <= v@.len(),
            forall|k: int| i <= k < len ==> v@[k] != '/',
        decreases i,
    {
        i -= 1;
    }
    proof {
        lemma_base_start_is(v@.take(len as int), i as int);
    }
    i
}

fn is_bare(v: &Vec<char>, len: usize) -> (yes: bool)
    requires
        len <= v@.len(),
    ensures
        yes == bare(v@.take(len as int)),
{
    let ghost t = v@.take(len as int);
    if len == 1 && v[0] == '/' {
        assert(t =~= seq!['/']);
        true
    } else {
        assert(seq!['/'].len() == 1 && seq!['/'][0] == '/');
        assert(len == 1 ==> t[0] == v@[0]);
        len == 0
    }
}

/// The path without its last component.
pub fn parent(path: &str) -> (dir: Option<String>)
    ensures
        match dir {
            Some(d) => parent_of(path@) == Some(d@),
            None => parent_of(path@) is None,
        },
{
    let v = text::chars_of(path);
    assert(v@.take(v@.len() as int) == v@);
    let kept = settle(&v, v.len());
    if is_bare(&v, kept) {
        return None;
    }
    let start = base(&v, kept);
    let end = settle(&v, start);
    assert(v@.take(kept as int).take(start as int) == v@.take(start as int));
    assert(v@.subrange(0, end as int) == v@.take(end as int));
    Some(text::slice(&v, 0, end))
}

/// The last component of a path, where it is a name.
pub fn file_name(path: &str) -> (name: Option<String>)
    ensures
        match name {
            Some(n) => name_of(path@) == Some(n@),
            None => name_of(path@) is None,
        },
{
    let v = text::chars_of(path);
    assert(v@.take(v@.len() as int) == v@);
    let kept = settle(&v, v.len());
    if is_bare(&v, kept) {
        return None;
    }
    let start = base(&v, kept);
    let name = text::slice(&v, start, kept);
    assert(v@.take(kept as int).skip(start as int) =~= name@);
    proof {
        reveal_strlit(".");
        reveal_strlit("..");
        assert("."@ =~= seq!['.']);
        assert(".."@ =~= seq!['.', '.']);
    }
    if text::same(name.as_str(), ".") || text::same(name.as_str(), "..") {
        return None;
    }
    Some(name)
}

/// `tail` inside `base`.
pub fn join(base: &str, tail: &str) -> (path: String)
    ensures
        path@ == joined(base@, tail@),
{
    let t = text::chars_of(tail);
    if t.len() > 0 && t[0] == '/' {
        return text::own(tail);
    }
    let b = text::chars_of(base);
    let mut path = text::own(base);
    if b.len() > 0 && b[b.len() - 1] != '/' {
        path.push('/');
    }
    path.append(tail);
    path
}

/// The path with its last component replaced, or added where it has none.
pub fn with_file_name(path: &str, name: &str) -> (renamed_path: String)
    ensures
        renamed_path@ == renamed(path@, name@),
{
    match (file_name(path), parent(path)) {
        (Some(_), Some(dir)) => join(dir.as_str(), name),
        _ => join(path, name),
    }
}

/// Where the extension of a name begins: at its last dot, unless the name begins
/// with that dot.
pub open spec fn extension_start(name: Seq<char>) -> int
    decreases name.len(),
{
    if name.len() <= 1 {
        name.len() as int
    } else if name.last() == '.' {
        name.len() - 1
    } else {
        let i = extension_start(name.drop_last());
        if i == name.len() - 1 {
            name.len() as int
        } else {
            i
        }
    }
}

/// The path with the extension of its last component replaced, or added where it
/// has none; a path without a name stays as it is.
pub open spec fn extended(s: Seq<char>, extension: Seq<char>) -> Seq<char> {
    match name_of(s) {
        Some(name) => {
            let t = settled(s);
            t.take(base_start(t) + extension_start(name)).push('.') + extension
        },
        None => s,
    }
}

proof fn lemma_extension_start(name: Seq<char>, k: int)
    requires
        0 <= k <= name.len(),
        name.len() > 0 ==> k > 0,
        k < name.len() ==> name[k] == '.',
        forall|i: int| k < i < name.len() ==> name[i] != '.',
        k == name.len() ==> forall|i: int| 0 < i < name.len() ==> name[i] != '.',
    ensures
        extension_start(name) == k,
    decreases name.len(),
{
    if name.len() > 1 {
        let front = name.drop_last();
        if name.last() == '.' {
            assert(name[name.len() - 1] == '.');
        } else if k == name.len() {
            lemma_extension_start(front, front.len() as int);
        } else {
            lemma_extension_start(front, k);
        }
    }
}

/// A settled path is a prefix of the path.
pub proof fn lemma_settled_prefix(s: Seq<char>)
    ensures
        settled(s).len() <= s.len(),
        s.take(settled(s).len() as int) == settled(s),
    decreases s.len(),
{
    if s.len() > 1 && (s.last() == '/' || (s.last() == '.' && s[s.len() - 2] == '/')) {
        let front = s.drop_last();
        lemma_settled_prefix(front);
        assert(s.take(settled(front).len() as int) =~= front.take(settled(front).len() as int));
    }
}

/// A settled path stays as it is.
pub proof fn lemma_settled_twice(s: Seq<char>)
    ensures
        settled(settled(s)) == settled(s),
    decreases s.len(),
{
    if s.len() > 1 && (s.last() == '/' || (s.last() == '.' && s[s.len() - 2] == '/')) {
        lemma_settled_twice(s.drop_last());
    }
}

/// What settling takes off a path is separators and dots.
pub proof fn lemma_settled_off(s: Seq<char>)
    ensures
        s.len() > 0 ==> settled(s).len() > 0,
        forall|i: int|
            settled(s).len() <= i < s.len() ==> (#[trigger] s[i] == '/' || s[i] == '.'),
    decreases s.len(),
{
    if s.len() > 1 && (s.last() == '/' || (s.last() == '.' && s[s.len() - 2] == '/')) {
        let front = s.drop_last();
        lemma_settled_off(front);
        assert forall|i: int| settled(s).len() <= i < s.len() implies (#[trigger] s[i] == '/' || s[i]
            == '.') by {
            if i < front.len() {
                assert(front[i] == s[i]);
            }
        }
    }
}

/// The last component begins within the path, at its start or after a separator.
pub proof fn lemma_base_bounds(s: Seq<char>)
    ensures
        0 <= base_start(s) <= s.len(),
        base_start(s) > 0 ==> s[base_start(s) - 1] == '/',
    decreases s.len(),
{
    if s.len() > 0 && s.last() != '/' {
        lemma_base_bounds(s.drop_last());
    }
}

/// The extension begins within the name, and no dot follows its first.
pub proof fn lemma_extension_bounds(name: Seq<char>)
    ensures
        0 <= extension_start(name) <= name.len(),
        forall|i: int| extension_start(name) < i < name.len() ==> name[i] != '.',
    decreases name.len(),
{
    if name.len() > 1 && name.last() != '.' {
        lemma_extension_bounds(name.drop_last());
        assert forall|i: int| extension_start(name) < i < name.len() implies name[i] != '.' by {
            if i < name.len() - 1 {
                assert(name.drop_last()[i] == name[i]);
            }
        }
    }
}

/// The path with the extension of its last component replaced, or added where it
/// has none.
pub fn with_extension(path: &str, extension: &str) -> (changed: String)
    ensures
        changed@ == extended(path@, extension@),
{
    let name = match file_name(path) {
        Some(name) => name,
        None => return text::own(path),
    };
    let v = text::chars_of(path);
    assert(v@.take(v@.len() as int) == v@);
    let kept = settle(&v, v.len());
    let start = base(&v, kept);
    let ghost t = v@.take(kept as int);
    assert(name@ == t.skip(start as int));
    let mut i: usize = kept;
    while i > start && i - start > 1 && v[i - 1] != '.'
        invariant
            start <= i <= kept <= v@.len(),
            forall|k: int| i <= k < kept ==> v@[k] != '.',
        decreases i,
    {
        i -= 1;
    }
    let end: usize = if i > start && i - start > 1 {
        i - 1
    } else {
        kept
    };
    proof {
        assert forall|k: int| 0 <= k < name@.len() implies name@[k] == v@[start + k] by {}
        lemma_extension_start(name@, end - start);
        assert(v@.subrange(0, end as int) =~= t.take(end as int));
    }
    let mut changed = text::slice(&v, 0, end);
    changed.push('.');
    changed.append(extension);
    changed
}

/// Whether `name` can stand as one component: not empty, not a dot, without a
/// separator.
pub open spec fn one_name(name: Seq<char>) -> bool {
    name.len() > 0 && !name.contains('/') && name != seq!['.']
}

/// The parent of a name placed in a directory is that directory.
pub proof fn parent_of_joined(dir: Seq<char>, name: Seq<char>)
    requires
        one_name(name),
    ensures
        parent_of(joined(dir, name)) == Some(settled(dir)),
        settled(joined(dir, name)) == joined(dir, name),
{
    let s = joined(dir, name);
    assert(name[0] != '/') by {
        assert(name.contains(name[0]));
    }
    assert(s.last() == name.last());
    assert(name.contains(name.last())) by {
        assert(name[name.len() - 1] == name.last());
    }
    if s.len() > 1 && s.last() == '.' && s[s.len() - 2] == '/' {
        if name.len() == 1 {
            assert(name =~= seq!['.']);
        } else {
            assert(s[s.len() - 2] == name[name.len() - 2]);
            assert(name.contains('/'));
        }
    }
    assert(settled(s) == s);
    let k = (s.len() - name.len()) as int;
    assert forall|i: int| k <= i < s.len() implies s[i] != '/' by {
        assert(s[i] == name[i - k]);
        if s[i] == '/' {
            assert(name.contains('/'));
        }
    }
    lemma_base_start_is(s, k);
    assert(s != seq!['/']) by {
        if s == seq!['/'] {
            assert(s.last() == '/');
        }
    }
    let front = s.take(k);
    if dir.len() > 0 && dir.last() != '/' {
        assert(front =~= dir.push('/'));
        assert(front.drop_last() =~= dir);
    } else {
        assert(front =~= dir);
    }
}

/// The last component of a name placed in a directory is that name.
pub proof fn name_of_joined(dir: Seq<char>, name: Seq<char>)
    requires
        one_name(name),
        name != seq!['.', '.'],
    ensures
        name_of(joined(dir, name)) == Some(name),
{
    parent_of_joined(dir, name);
    let s = joined(dir, name);
    let k = (s.len() - name.len()) as int;
    assert(name[0] != '/') by {
        assert(name.contains(name[0]));
    }
    assert forall|i: int| k <= i < s.len() implies s[i] != '/' by {
        assert(s[i] == name[i - k]);
        assert(name.contains(name[i - k]));
    }
    lemma_base_start_is(s, k);
    assert(s.skip(k) =~= name);
}

/// Whether `p` lies below the directory `dir`.
pub open spec fn inside(p: Seq<char>, dir: Seq<char>) -> bool {
    &&& p.len() > dir.len()
    &&& p.take(dir.len() as int) == dir
    &&& dir.len() == 0 || dir.last() == '/' || p[dir.len() as int] == '/'
}

/// What is placed in a directory lies below it.
pub proof fn joined_is_inside(dir: Seq<char>, tail: Seq<char>)
    requires
        tail.len() > 0,
        tail[0] != '/',
    ensures
        inside(joined(dir, tail), dir),
{
    let p = joined(dir, tail);
    assert(p.take(dir.len() as int) =~= dir);
}

/// What lies below a directory lies below everything that the directory does.
pub proof fn inside_is_transitive(p: Seq<char>, mid: Seq<char>, dir: Seq<char>)
    requires
        inside(p, mid),
        inside(mid, dir),
    ensures
        inside(p, dir),
{
    assert(p.take(dir.len() as int) =~= p.take(mid.len() as int).take(dir.len() as int));
    assert(p[dir.len() as int] == p.take(mid.len() as int)[dir.len() as int]);
}

// --------------------------------------------------------------------- laws

/// What is joined is the directory, one separator and the name, whether or not the
/// directory already ends in the separator; nothing goes before a name in no directory,
/// and a name that begins at the root stands alone.
pub proof fn joining_puts_one_separator(dir: Seq<char>, name: Seq<char>)
    requires
        name.len() > 0,
    ensures
        name[0] == '/' ==> joined(dir, name) == name,
        name[0] != '/' && dir.len() == 0 ==> joined(dir, name) == name,
        name[0] != '/' && dir.len() > 0 && dir.last() != '/' ==> joined(dir, name) == dir + seq!['/']
            + name,
        name[0] != '/' && dir.len() > 0 && dir.last() == '/' ==> joined(dir, name) == dir + name,
{
    assert(dir.push('/') + name =~= dir + seq!['/'] + name);
    assert(dir.len() == 0 ==> dir + name =~= name);
}

/// Renaming a path keeps its directory and changes its last component alone.
pub proof fn renaming_stays_in_the_directory(dir: Seq<char>, old_name: Seq<char>, name: Seq<char>)
    requires
        one_name(old_name),
        old_name != seq!['.', '.'],
        one_name(name),
        name != seq!['.', '.'],
    ensures
        name_of(renamed(joined(dir, old_name), name)) == Some(name),
        parent_of(renamed(joined(dir, old_name), name)) == parent_of(joined(dir, old_name)),
        renamed(joined(dir, old_name), name) == joined(settled(dir), name),
{
    parent_of_joined(dir, old_name);
    name_of_joined(dir, old_name);
    parent_of_joined(settled(dir), name);
    name_of_joined(settled(dir), name);
    lemma_settled_twice(dir);
}

/// The parent and the name of a path make up the path, as far as separators and dots at
/// its end go, and the name holds no separator.
pub proof fn parent_and_name_make_the_path(s: Seq<char>)
    ensures
        parent_of(s) is None <==> (settled(s).len() == 0 || settled(s) == seq!['/']),
        name_of(s) matches Some(name) ==> {
            &&& name.len() > 0
            &&& name != seq!['.'] && name != seq!['.', '.']
            &&& !name.contains('/')
            &&& parent_of(s) is Some
            &&& settled(s).skip(settled(s).len() - name.len()) == name
            &&& settled(s).len() > name.len() ==> settled(s)[settled(s).len() - name.len() - 1]
                == '/'
        },
{
    let t = settled(s);
    lemma_base_bounds(t);
    lemma_no_separator_in_base(t);
    if let Some(name) = name_of(s) {
        assert(t.skip(t.len() - name.len()) =~= name);
        if name.contains('/') {
            let k = choose|k: int| 0 <= k < name.len() && name[k] == '/';
            assert(t[base_start(t) + k] == '/');
        }
        if name.len() == 0 {
            lemma_settled_twice(s);
            assert(t.last() == '/');
            lemma_settled_prefix(t.drop_last());
            assert(t.len() == 1);
            assert(t =~= seq!['/']);
        }
    }
}

proof fn lemma_no_separator_in_base(s: Seq<char>)
    ensures
        forall|i: int| base_start(s) <= i < s.len() ==> s[i] != '/',
    decreases s.len(),
{
    if s.len() > 0 && s.last() != '/' {
        lemma_no_separator_in_base(s.drop_last());
        lemma_base_bounds(s.drop_last());
        assert forall|i: int| base_start(s) <= i < s.len() implies s[i] != '/' by {
            if i < s.len() - 1 {
                assert(s.drop_last()[i] == s[i]);
            }
        }
    }
}

/// A new extension takes the place of the old one, and stands behind a name that has
/// none; what comes before it stays.
pub proof fn extensions_are_replaced(
    dir: Seq<char>,
    stem: Seq<char>,
    old_extension: Seq<char>,
    extension: Seq<char>,
)
    requires
        stem.len() > 0,
        !stem.contains('/'),
        !stem.contains('.'),
        !old_extension.contains('/'),
        !old_extension.contains('.'),
    ensures
        extended(joined(dir, stem + seq!['.'] + old_extension), extension) == joined(dir, stem)
            + seq!['.'] + extension,
        extended(joined(dir, stem), extension) == joined(dir, stem) + seq!['.'] + extension,
{
    let full = stem + seq!['.'] + old_extension;
    assert(full[0] == stem[0] && stem.contains(stem[0]));
    assert forall|i: int| 0 <= i < full.len() implies full[i] != '/' by {
        if i < stem.len() {
            assert(full[i] == stem[i] && stem.contains(stem[i]));
        } else if i > stem.len() {
            assert(full[i] == old_extension[i - stem.len() - 1]);
            assert(old_extension.contains(old_extension[i - stem.len() - 1]));
        }
    }
    assert(full.len() >= 2 && full != seq!['.'] && full != seq!['.', '.']) by {
        assert(seq!['.', '.'][0] == '.');
    }
    assert(stem != seq!['.'] && stem != seq!['.', '.']) by {
        assert(seq!['.'][0] == '.' && seq!['.', '.'][0] == '.');
    }
    parent_of_joined(dir, full);
    name_of_joined(dir, full);
    parent_of_joined(dir, stem);
    name_of_joined(dir, stem);
    assert forall|i: int| 0 <= i < stem.len() implies stem[i] != '.' by {
        assert(stem.contains(stem[i]));
    }
    assert forall|i: int| stem.len() < i < full.len() implies full[i] != '.' by {
        assert(full[i] == old_extension[i - stem.len() - 1]);
        assert(old_extension.contains(old_extension[i - stem.len() - 1]));
    }
    lemma_extension_start(full, stem.len() as int);
    lemma_extension_start(stem, stem.len() as int);
    let a = joined(dir, full);
    let b = joined(dir, stem);
    let ka = a.len() - full.len();
    let kb = b.len() - stem.len();
    assert forall|i: int| ka <= i < a.len() implies a[i] != '/' by {
        assert(a[i] == full[i - ka]);
    }
    assert forall|i: int| kb <= i < b.len() implies b[i] != '/' by {
        assert(b[i] == stem[i - kb] && stem.contains(stem[i - kb]));
    }
    lemma_base_start_is(a, ka);
    lemma_base_start_is(b, kb);
    assert(a.take(ka + stem.len()) =~= b);
    assert(extended(a, extension) =~= b + seq!['.'] + extension);
    assert(b.take(kb + stem.len()) =~= b);
    assert(extended(b, extension) =~= b + seq!['.'] + extension);
}

/// Separators and single dots at the end of a path do not count; nothing else is taken off.
pub proof fn trailing_separators_do_not_count(s: Seq<char>)
    ensures
        s.len() > 0 ==> settled(s.push('/')) == settled(s),
        s.len() > 0 ==> settled(s.push('/').push('.')) == settled(s),
        s.len() > 0 && s.last() != '/' && !(s.len() > 1 && s.last() == '.' && s[s.len() - 2] == '/')
            ==> settled(s) == s,
        s.len() <= 1 ==> settled(s) == s,
{
    assert(s.push('/').drop_last() =~= s);
    let dotted = s.push('/').push('.');
    assert(dotted.drop_last() =~= s.push('/'));
    assert(dotted[dotted.len() - 2] == '/' && dotted.last() == '.');
    assert(settled(dotted) == settled(s.push('/')));
}

/// The parent and the name of a path do not depend on separators and single dots at its
/// end.
pub proof fn parents_do_not_depend_on_the_end(s: Seq<char>)
    requires
        s.len() > 0,
    ensures
        parent_of(s.push('/')) == parent_of(s),
        parent_of(s.push('/').push('.')) == parent_of(s),
        name_of(s.push('/')) == name_of(s),
        name_of(s.push('/').push('.')) == name_of(s),
{
    trailing_separators_do_not_count(s);
}

/// Of a name with several dots the last begins the extension; a dot that begins the name
/// does not.
pub proof fn the_last_dot_begins_the_extension(
    stem: Seq<char>,
    extension: Seq<char>,
)
    requires
        stem.len() > 0,
        !extension.contains('.'),
    ensures
        extension_start(stem + seq!['.'] + extension) == stem.len(),
        extension_start(seq!['.'] + extension) == 1 + extension.len(),
        extension_start(extension) == extension.len(),
{
    let full = stem + seq!['.'] + extension;
    assert forall|i: int| stem.len() < i < full.len() implies full[i] != '.' by {
        assert(full[i] == extension[i - stem.len() - 1]);
        assert(extension.contains(extension[i - stem.len() - 1]));
    }
    lemma_extension_start(full, stem.len() as int);
    let hidden = seq!['.'] + extension;
    assert forall|i: int| 0 < i < hidden.len() implies hidden[i] != '.' by {
        assert(hidden[i] == extension[i - 1]);
        assert(extension.contains(extension[i - 1]));
    }
    lemma_extension_start(hidden, hidden.len() as int);
    assert forall|i: int| 0 <= i < extension.len() implies extension[i] != '.' by {
        assert(extension.contains(extension[i]));
    }
    lemma_extension_start(extension, extension.len() as int);
}

/// A path without a name keeps what it has when an extension is asked for.
pub proof fn nameless_paths_get_no_extension(s: Seq<char>, extension: Seq<char>)
    requires
        name_of(s) is None,
    ensures
        extended(s, extension) == s,
{
}

} // verus!
