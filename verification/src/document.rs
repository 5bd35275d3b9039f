//! Reading JSON and YAML documents.
//!
//! The parsers are outside crates. A parsed value is opaque here; what it holds
//! is described by [`Tree`], and every accessor is stated over that description.

use vstd::prelude::*;

verus! {

/// What a parsed document holds.
pub ghost enum Tree {
    /// A string.
    Text(Seq<char>),
    /// A mapping, by its string keys.
    Members(Map<Seq<char>, Tree>),
    /// Anything else: null, a boolean, a number, a list.
    Other,
}

/// The member of a mapping under `key`.
pub open spec fn member(tree: Tree, key: Seq<char>) -> Option<Tree> {
    match tree {
        Tree::Members(members) => if members.dom().contains(key) {
            Some(members[key])
        } else {
            None
        },
        _ => None,
    }
}

/// A JSON value of `serde_json`.
#[verifier::external_type_specification]
#[verifier::external_body]
pub struct ExJsonValue(serde_json::Value);

/// What a JSON value holds.
pub uninterp spec fn json_tree(value: serde_json::Value) -> Tree;

/// What `serde_json::from_str` makes of a document: the value's contents, or the
/// text of the error.
pub uninterp spec fn json_parsed(document: Seq<char>) -> Result<Tree, Seq<char>>;

/// `serde_json::from_str`, reading any JSON value.
#[verifier::external_body]
pub(crate) fn parse_json(document: &str) -> (parsed: Result<serde_json::Value, String>)
    ensures
        match parsed {
            Ok(value) => json_parsed(document@) == Ok::<Tree, Seq<char>>(json_tree(value)),
            Err(err) => json_parsed(document@) == Err::<Tree, Seq<char>>(err@),
        },
{
    serde_json::from_str::<serde_json::Value>(document).map_err(|err| err.to_string())
}

/// `serde_json::Value::get` with a string key: the member of an object.
#[verifier::external_body]
pub(crate) fn json_get<'a>(value: &'a serde_json::Value, key: &str) -> (found: Option<&'a serde_json::Value>)
    ensures
        match found {
            Some(inner) => member(json_tree(*value), key@) == Some(json_tree(*inner)),
            None => member(json_tree(*value), key@) is None,
        },
{
    value.get(key)
}

/// `serde_json::Value::as_str`: the characters of a string value.
#[verifier::external_body]
pub(crate) fn json_text(value: &serde_json::Value) -> (text: Option<String>)
    ensures
        match text {
            Some(chars) => json_tree(*value) == Tree::Text(chars@),
            None => json_tree(*value) !is Text,
        },
{
    value.as_str().map(str::to_owned)
}

/// `serde_json::Value::is_object`: whether a value is an object.
#[verifier::external_body]
pub(crate) fn json_is_object(value: &serde_json::Value) -> (yes: bool)
    ensures
        yes == (json_tree(*value) is Members),
{
    value.is_object()
}

/// A YAML value of `serde_norway`.
#[verifier::external_type_specification]
#[verifier::external_body]
pub struct ExYamlValue(serde_norway::Value);

/// What a YAML value holds, its tags set aside.
pub uninterp spec fn yaml_tree(value: serde_norway::Value) -> Tree;

/// What `serde_norway::from_str` makes of a document: the value's contents, or
/// nothing where the document is refused.
pub uninterp spec fn yaml_parsed(document: Seq<char>) -> Option<Tree>;

/// `serde_norway::from_str`, reading any YAML value. What is wrong with a
/// refused document is not kept.
#[verifier::external_body]
pub(crate) fn parse_yaml(document: &str) -> (parsed: Option<serde_norway::Value>)
    ensures
        match parsed {
            Some(value) => yaml_parsed(document@) == Some(yaml_tree(value)),
            None => yaml_parsed(document@) is None,
        },
{
    serde_norway::from_str::<serde_norway::Value>(document).ok()
}

/// `serde_norway::Value::get` with a string key: the entry of a mapping under
/// that string.
#[verifier::external_body]
pub(crate) fn yaml_get<'a>(value: &'a serde_norway::Value, key: &str) -> (found: Option<
    &'a serde_norway::Value,
>)
    ensures
        match found {
            Some(inner) => member(yaml_tree(*value), key@) == Some(yaml_tree(*inner)),
            None => member(yaml_tree(*value), key@) is None,
        },
{
    value.get(key)
}

/// `serde_norway::Value::as_str`: the characters of a string value.
#[verifier::external_body]
pub(crate) fn yaml_text(value: &serde_norway::Value) -> (text: Option<String>)
    ensures
        match text {
            Some(chars) => yaml_tree(*value) == Tree::Text(chars@),
            None => yaml_tree(*value) !is Text,
        },
{
    value.as_str().map(str::to_owned)
}

// ------------------------------------------------------------------ literals

/// The lower-case hexadecimal digit for a number below sixteen.
pub open spec fn hex_digit(n: int) -> char {
    if n < 10 {
        ('0' as int + n) as char
    } else {
        ('a' as int + n - 10) as char
    }
}

/// How a character stands inside a JSON string literal.
pub open spec fn json_escaped(c: char) -> Seq<char> {
    if c == '"' {
        seq!['\\', '"']
    } else if c == '\\' {
        seq!['\\', '\\']
    } else if c == '\u{8}' {
        seq!['\\', 'b']
    } else if c == '\t' {
        seq!['\\', 't']
    } else if c == '\n' {
        seq!['\\', 'n']
    } else if c == '\u{c}' {
        seq!['\\', 'f']
    } else if c == '\r' {
        seq!['\\', 'r']
    } else if ' ' > c {
        seq!['\\', 'u', '0', '0', hex_digit(c as int / 16), hex_digit(c as int % 16)]
    } else {
        seq![c]
    }
}

/// The inside of the JSON literal for `s`.
pub open spec fn json_body(s: Seq<char>) -> Seq<char>
    decreases s.len(),
{
    if s.len() == 0 {
        Seq::<char>::empty()
    } else {
        json_body(s.drop_last()) + json_escaped(s.last())
    }
}

/// The JSON string literal for `s`.
pub open spec fn json_quoted(s: Seq<char>) -> Seq<char> {
    seq!['"'] + json_body(s) + seq!['"']
}

/// `serde_json::to_string` on a string: its JSON literal, so that it is safe to
/// embed in JavaScript. Writing a string to memory does not fail.
#[verifier::external_body]
pub(crate) fn json_string(s: &str) -> (literal: String)
    ensures
        literal@ == json_quoted(s@),
{
    serde_json::to_string(s).unwrap_or_default()
}

/// A JSON literal stays on one line: no control character stands in it.
pub proof fn literal_is_one_line(s: Seq<char>)
    ensures
        forall|i: int| 0 <= i < json_quoted(s).len() ==> #[trigger] json_quoted(s)[i] >= ' ',
    decreases s.len(),
{
    let q = json_quoted(s);
    assert(q =~= (seq!['"'] + json_body(s)).push('"'));
    lemma_body_is_one_line(s);
    assert forall|i: int| 0 <= i < q.len() implies #[trigger] q[i] >= ' ' by {
        if 0 < i < q.len() - 1 {
            assert(q[i] == json_body(s)[i - 1]);
        }
    }
}

proof fn lemma_escape_is_visible(c: char, k: int)
    requires
        0 <= k < json_escaped(c).len(),
    ensures
        json_escaped(c)[k] >= ' ',
{
    if ' ' > c {
        assert(0 <= c as int / 16 < 16 && 0 <= c as int % 16 < 16);
        assert(hex_digit(c as int / 16) >= ' ' && hex_digit(c as int % 16) >= ' ');
    }
}

proof fn lemma_body_is_one_line(s: Seq<char>)
    ensures
        forall|i: int| 0 <= i < json_body(s).len() ==> #[trigger] json_body(s)[i] >= ' ',
    decreases s.len(),
{
    if s.len() > 0 {
        lemma_body_is_one_line(s.drop_last());
        let before = json_body(s.drop_last());
        let last = json_escaped(s.last());
        assert forall|i: int| 0 <= i < json_body(s).len() implies #[trigger] json_body(s)[i]
            >= ' ' by {
            if i < before.len() {
                assert(json_body(s)[i] == before[i]);
            } else {
                assert(json_body(s)[i] == last[i - before.len()]);
                lemma_escape_is_visible(s.last(), i - before.len());
            }
        }
    }
}

/// Where a JSON string literal ends that goes on at position `i` of a text: at the
/// next quote that no backslash escapes, or with the text.
pub open spec fn closes_at(s: Seq<char>, i: int) -> int
    decreases s.len() - i + 1,
{
    if i < 0 || i >= s.len() {
        s.len() as int
    } else if s[i] == '"' {
        i
    } else if s[i] == '\\' {
        closes_at(s, i + 2)
    } else {
        closes_at(s, i + 1)
    }
}

/// The literal of a text begins as the literals of its beginnings do.
proof fn lemma_body_begins(s: Seq<char>, k: int)
    requires
        0 <= k <= s.len(),
    ensures
        json_body(s.take(k)).len() <= json_body(s).len(),
        json_body(s).take(json_body(s.take(k)).len() as int) == json_body(s.take(k)),
    decreases s.len(),
{
    if k == s.len() {
        assert(s.take(k) == s);
        assert(json_body(s).take(json_body(s).len() as int) == json_body(s));
    } else {
        let short = s.drop_last();
        lemma_body_begins(short, k);
        assert(short.take(k) == s.take(k));
        let len = json_body(s.take(k)).len() as int;
        assert(json_body(s).take(len) =~= json_body(short).take(len));
    }
}

/// The digits of a control character are neither quotes nor backslashes.
proof fn lemma_hex_is_plain(c: char)
    requires
        ' ' > c,
    ensures
        hex_digit(c as int / 16) != '"' && hex_digit(c as int / 16) != '\\',
        hex_digit(c as int % 16) != '"' && hex_digit(c as int % 16) != '\\',
{
    assert(0 <= c as int / 16 < 16 && 0 <= c as int % 16 < 16);
}

/// No character of a text ends its literal.
proof fn lemma_escape_does_not_close(s: Seq<char>, k: int)
    requires
        0 <= k < s.len(),
    ensures
        closes_at(json_quoted(s), 1int + json_body(s.take(k)).len()) == closes_at(
            json_quoted(s),
            1int + json_body(s.take(k + 1)).len(),
        ),
{
    let q = json_quoted(s);
    let body = json_body(s);
    let from = json_body(s.take(k)).len() as int;
    let escaped = json_escaped(s[k]);
    assert(s.take(k + 1).drop_last() == s.take(k));
    lemma_body_begins(s, k + 1);
    let grown = json_body(s.take(k + 1));
    assert forall|j: int| 0 <= j < escaped.len() implies q[1 + from + j] == #[trigger] escaped[j] by {
        assert(q[1 + from + j] == body[from + j]);
        assert(body.take(grown.len() as int)[from + j] == body[from + j]);
        assert(grown[from + j] == escaped[j]);
    }
    let at = 1 + from;
    assert(q[at] == escaped[0]);
    if escaped.len() == 6 {
        lemma_hex_is_plain(s[k]);
        assert(q[at + 2] == escaped[2] && q[at + 3] == escaped[3] && q[at + 4] == escaped[4]
            && q[at + 5] == escaped[5]);
        assert(closes_at(q, at) == closes_at(q, at + 2));
        assert(closes_at(q, at + 2) == closes_at(q, at + 3));
        assert(closes_at(q, at + 3) == closes_at(q, at + 4));
        assert(closes_at(q, at + 4) == closes_at(q, at + 5));
        assert(closes_at(q, at + 5) == closes_at(q, at + 6));
    }
}

/// Nothing in a text ends its literal early: the quote that closes it is its last
/// character.
pub proof fn literal_ends_at_its_last_quote(s: Seq<char>)
    ensures
        json_quoted(s)[0] == '"',
        closes_at(json_quoted(s), 1) == json_quoted(s).len() - 1,
{
    let q = json_quoted(s);
    lemma_closes_after(s, s.len() as int);
    assert(s.take(s.len() as int) == s);
    assert(q[q.len() - 1] == '"');
}

proof fn lemma_closes_after(s: Seq<char>, k: int)
    requires
        0 <= k <= s.len(),
    ensures
        closes_at(json_quoted(s), 1) == closes_at(json_quoted(s), 1int + json_body(s.take(k)).len()),
    decreases k,
{
    if k > 0 {
        lemma_closes_after(s, k - 1);
        lemma_escape_does_not_close(s, k - 1);
    }
}

} // verus!
