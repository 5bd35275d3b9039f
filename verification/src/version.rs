//! Versions and their order.
//!
//! The only question asked of two versions is which is newer, and prerelease
//! ordering is the one way to answer it wrongly.

use crate::text;
use std::cmp::Ordering;
use vstd::prelude::*;

verus! {

/// A parsed semantic version, enough of one to order DSH releases.
#[derive(Debug)]
pub struct Version {
    pub major: u64,
    pub minor: u64,
    pub patch: u64,
    /// Dot-separated prerelease identifiers; empty for a release version.
    pub prerelease: Vec<String>,
}

/// What a version is: three numbers and its prerelease identifiers.
pub ghost struct Release {
    pub major: u64,
    pub minor: u64,
    pub patch: u64,
    pub prerelease: Seq<Seq<char>>,
}

impl View for Version {
    type V = Release;

    open spec fn view(&self) -> Release {
        Release {
            major: self.major,
            minor: self.minor,
            patch: self.patch,
            prerelease: text::views(self.prerelease@),
        }
    }
}

/// Whether no part is empty.
pub open spec fn all_filled(parts: Seq<Seq<char>>) -> bool {
    forall|i: int| 0 <= i < parts.len() ==> (#[trigger] parts[i]).len() > 0
}

/// The version a text writes: `1.2.3`, `1.2.3-rc.1`, `1.2.3-alpha.2`, white space
/// around it and build metadata (`+x`) set aside.
pub open spec fn written_version(s: Seq<char>) -> Option<Release> {
    let plain = text::split_on(text::trimmed(s), '+')[0];
    let (core, prerelease) = match text::cut(plain, '-') {
        Some((core, pre)) => (core, text::split_on(pre, '.')),
        None => (plain, Seq::<Seq<char>>::empty()),
    };
    let numbers = text::split_on(core, '.');
    if numbers.len() == 3 && all_filled(prerelease) {
        match (text::number(numbers[0]), text::number(numbers[1]), text::number(numbers[2])) {
            (Some(major), Some(minor), Some(patch)) => Some(
                Release { major, minor, patch, prerelease },
            ),
            _ => None,
        }
    } else {
        None
    }
}

/// A version written out.
pub open spec fn version_text(v: Release) -> Seq<char> {
    let core = text::decimal_digits(v.major as nat) + "."@ + text::decimal_digits(v.minor as nat)
        + "."@ + text::decimal_digits(v.patch as nat);
    if v.prerelease.len() == 0 {
        core
    } else {
        core + "-"@ + text::joined(v.prerelease, "."@)
    }
}

/// How one thing ranks against another.
#[derive(Clone, Copy, Debug, PartialEq, Eq, Structural)]
pub enum Rank {
    Lower,
    Same,
    Higher,
}

/// The order of two numbers.
pub open spec fn number_order(a: int, b: int) -> Rank {
    if a < b {
        Rank::Lower
    } else if a > b {
        Rank::Higher
    } else {
        Rank::Same
    }
}

/// The lexicographic order of two texts by their characters.
pub open spec fn text_order(a: Seq<char>, b: Seq<char>) -> Rank
    decreases a.len(),
{
    if a.len() == 0 && b.len() == 0 {
        Rank::Same
    } else if a.len() == 0 {
        Rank::Lower
    } else if b.len() == 0 {
        Rank::Higher
    } else if a[0] < b[0] {
        Rank::Lower
    } else if a[0] > b[0] {
        Rank::Higher
    } else {
        text_order(a.skip(1), b.skip(1))
    }
}

/// The order of two prerelease identifiers: numbers by value, however large, and
/// below anything that is not a number, the rest by their characters.
pub open spec fn identifier_order(a: Seq<char>, b: Seq<char>) -> Rank {
    match (text::natural(a), text::natural(b)) {
        (Some(x), Some(y)) => number_order(x, y),
        (Some(_), None) => Rank::Lower,
        (None, Some(_)) => Rank::Higher,
        (None, None) => text_order(a, b),
    }
}

/// The order of two identifier lists: the first difference decides, and of two
/// lists that agree the longer is greater.
pub open spec fn prerelease_order(a: Seq<Seq<char>>, b: Seq<Seq<char>>) -> Rank
    decreases a.len(),
{
    if a.len() == 0 && b.len() == 0 {
        Rank::Same
    } else if a.len() == 0 {
        Rank::Lower
    } else if b.len() == 0 {
        Rank::Higher
    } else {
        match identifier_order(a[0], b[0]) {
            Rank::Same => prerelease_order(a.skip(1), b.skip(1)),
            first => first,
        }
    }
}

/// The order of two versions. A prerelease sorts below its release.
pub open spec fn version_order(a: Release, b: Release) -> Rank {
    if a.major != b.major {
        number_order(a.major as int, b.major as int)
    } else if a.minor != b.minor {
        number_order(a.minor as int, b.minor as int)
    } else if a.patch != b.patch {
        number_order(a.patch as int, b.patch as int)
    } else if a.prerelease.len() == 0 && b.prerelease.len() == 0 {
        Rank::Same
    } else if a.prerelease.len() == 0 {
        Rank::Higher
    } else if b.prerelease.len() == 0 {
        Rank::Lower
    } else {
        prerelease_order(a.prerelease, b.prerelease)
    }
}

fn compare_numbers(a: u64, b: u64) -> (rank: Rank)
    ensures
        rank == number_order(a as int, b as int),
{
    if a < b {
        Rank::Lower
    } else if a > b {
        Rank::Higher
    } else {
        Rank::Same
    }
}

fn compare_texts(a: &str, b: &str) -> (rank: Rank)
    ensures
        rank == text_order(a@, b@),
{
    let x = text::chars_of(a);
    let y = text::chars_of(b);
    let mut i: usize = 0;
    assert(x@.skip(0) == x@ && y@.skip(0) == y@);
    while i < x.len() && i < y.len()
        invariant
            i <= x@.len(),
            i <= y@.len(),
            text_order(a@, b@) == text_order(x@.skip(i as int), y@.skip(i as int)),
        decreases x@.len() - i,
    {
        if x[i] < y[i] {
            return Rank::Lower;
        }
        if x[i] > y[i] {
            return Rank::Higher;
        }
        assert(x@.skip(i as int).skip(1) == x@.skip(i + 1));
        assert(y@.skip(i as int).skip(1) == y@.skip(i + 1));
        i += 1;
    }
    if i < x.len() {
        Rank::Higher
    } else if i < y.len() {
        Rank::Lower
    } else {
        Rank::Same
    }
}

/// Whether `s` is digits with no zero in front.
spec fn is_plain_number(s: Seq<char>) -> bool {
    &&& forall|i: int| 0 <= i < s.len() ==> text::is_digit(#[trigger] s[i])
    &&& s.len() > 0 ==> s[0] != '0'
}

fn compare_digits(x: &Vec<char>, y: &Vec<char>) -> (rank: Rank)
    requires
        is_plain_number(x@),
        is_plain_number(y@),
    ensures
        rank == number_order(text::digits_value(x@), text::digits_value(y@)),
{
    if x.len() < y.len() {
        proof {
            text::lemma_longer_is_more(x@, y@);
        }
        return Rank::Lower;
    }
    if x.len() > y.len() {
        proof {
            text::lemma_longer_is_more(y@, x@);
        }
        return Rank::Higher;
    }
    let mut i: usize = 0;
    while i < x.len()
        invariant
            i <= x@.len(),
            x@.len() == y@.len(),
            is_plain_number(x@),
            is_plain_number(y@),
            x@.take(i as int) == y@.take(i as int),
        decreases x@.len() - i,
    {
        if x[i] < y[i] {
            proof {
                text::lemma_first_difference_decides(x@, y@, i as int);
            }
            return Rank::Lower;
        }
        if x[i] > y[i] {
            proof {
                text::lemma_first_difference_decides(y@, x@, i as int);
            }
            return Rank::Higher;
        }
        assert(x@.take(i + 1) =~= x@.take(i as int).push(x@[i as int]));
        assert(y@.take(i + 1) =~= y@.take(i as int).push(y@[i as int]));
        i += 1;
    }
    assert(x@ =~= x@.take(i as int) && y@ =~= y@.take(i as int));
    Rank::Same
}

fn compare_identifiers(a: &str, b: &str) -> (rank: Rank)
    ensures
        rank == identifier_order(a@, b@),
{
    match (text::significant_digits(a), text::significant_digits(b)) {
        (Some(x), Some(y)) => compare_digits(&x, &y),
        (Some(_), None) => Rank::Lower,
        (None, Some(_)) => Rank::Higher,
        (None, None) => compare_texts(a, b),
    }
}

/// Compare prerelease identifier lists.
fn compare_prerelease(left: &Vec<String>, right: &Vec<String>) -> (rank: Rank)
    ensures
        rank == prerelease_order(text::views(left@), text::views(right@)),
{
    let ghost a = text::views(left@);
    let ghost b = text::views(right@);
    let mut i: usize = 0;
    assert(a.skip(0) == a && b.skip(0) == b);
    while i < left.len() && i < right.len()
        invariant
            i <= left@.len(),
            i <= right@.len(),
            a == text::views(left@),
            b == text::views(right@),
            prerelease_order(a, b) == prerelease_order(a.skip(i as int), b.skip(i as int)),
        decreases left@.len() - i,
    {
        match compare_identifiers(left[i].as_str(), right[i].as_str()) {
            Rank::Same => {},
            first => {
                return first;
            },
        }
        assert(a.skip(i as int).skip(1) == a.skip(i + 1));
        assert(b.skip(i as int).skip(1) == b.skip(i + 1));
        i += 1;
    }
    if i < left.len() {
        Rank::Higher
    } else if i < right.len() {
        Rank::Lower
    } else {
        Rank::Same
    }
}

impl Version {
    /// Parse `1.2.3`, `1.2.3-rc.1`, `1.2.3-alpha.2`. Build metadata (`+x`) is
    /// ignored, as it must not affect precedence.
    pub fn parse(text: &str) -> (version: Option<Version>)
        ensures
            match version {
                Some(v) => written_version(text@) == Some(v@),
                None => written_version(text@) is None,
            },
    {
        let trimmed = text::trim(text);
        let pieces = text::split(trimmed.as_str(), '+');
        let plain = &pieces[0];
        assert(plain@ == text::split_on(text::trimmed(text@), '+')[0]);
        let (core, prerelease) = match text::split_once(plain.as_str(), '-') {
            Some((core, pre)) => (core, text::split(pre.as_str(), '.')),
            None => (text::own(plain.as_str()), Vec::new()),
        };
        let ghost identifiers = text::views(prerelease@);
        let ghost model = match text::cut(plain@, '-') {
            Some((_, pre)) => text::split_on(pre, '.'),
            None => Seq::<Seq<char>>::empty(),
        };
        assert(identifiers =~= model);

        let numbers = text::split(core.as_str(), '.');
        if numbers.len() != 3 {
            assert(text::split_on(core@, '.').len() != 3);
            return None;
        }
        let mut i: usize = 0;
        while i < prerelease.len()
            invariant
                i <= prerelease@.len(),
                identifiers == text::views(prerelease@),
                forall|k: int| 0 <= k < i ==> (#[trigger] identifiers[k]).len() > 0,
                written_version(text@) is Some ==> all_filled(identifiers),
            decreases prerelease@.len() - i,
        {
            if prerelease[i].as_str().is_empty() {
                assert(identifiers[i as int].len() == 0);
                return None;
            }
            assert(identifiers[i as int] == prerelease@[i as int]@);
            i += 1;
        }
        assert(text::split_on(core@, '.')[0] == numbers@[0]@);
        assert(text::split_on(core@, '.')[1] == numbers@[1]@);
        assert(text::split_on(core@, '.')[2] == numbers@[2]@);
        match (
            text::parse_number(numbers[0].as_str()),
            text::parse_number(numbers[1].as_str()),
            text::parse_number(numbers[2].as_str()),
        ) {
            (Some(major), Some(minor), Some(patch)) => Some(
                Version { major, minor, patch, prerelease },
            ),
            _ => None,
        }
    }

    /// The version written out.
    pub fn to_string(&self) -> (s: String)
        ensures
            s@ == version_text(self@),
    {
        let core = text::plus(text::decimal(self.major), ".");
        let core = text::plus(core, text::decimal(self.minor).as_str());
        let core = text::plus(core, ".");
        let core = text::plus(core, text::decimal(self.patch).as_str());
        if self.prerelease.len() == 0 {
            core
        } else {
            text::plus(text::plus(core, "-"), text::join(&self.prerelease, ".").as_str())
        }
    }

    /// How this version ranks against `other`.
    pub fn rank(&self, other: &Version) -> (rank: Rank)
        ensures
            rank == version_order(self@, other@),
    {
        if self.major != other.major {
            compare_numbers(self.major, other.major)
        } else if self.minor != other.minor {
            compare_numbers(self.minor, other.minor)
        } else if self.patch != other.patch {
            compare_numbers(self.patch, other.patch)
        } else if self.prerelease.len() == 0 && other.prerelease.len() == 0 {
            Rank::Same
        } else if self.prerelease.len() == 0 {
            // A version with no prerelease outranks one with any.
            Rank::Higher
        } else if other.prerelease.len() == 0 {
            Rank::Lower
        } else {
            compare_prerelease(&self.prerelease, &other.prerelease)
        }
    }
}

impl Clone for Version {
    fn clone(&self) -> (copy: Self)
        ensures
            copy@ == self@,
    {
        Version {
            major: self.major,
            minor: self.minor,
            patch: self.patch,
            prerelease: text::copy_list(&self.prerelease),
        }
    }
}

impl PartialEq for Version {
    fn eq(&self, other: &Version) -> (yes: bool) {
        self.major == other.major && self.minor == other.minor && self.patch == other.patch
            && text::same_list(&self.prerelease, &other.prerelease)
    }
}

impl vstd::std_specs::cmp::PartialEqSpecImpl for Version {
    open spec fn obeys_eq_spec() -> bool {
        true
    }

    open spec fn eq_spec(&self, other: &Version) -> bool {
        self@ == other@
    }
}

impl Eq for Version {

}

/// The order that a rank stands for.
pub open spec fn rank_order(rank: Rank) -> Ordering {
    match rank {
        Rank::Lower => Ordering::Less,
        Rank::Same => Ordering::Equal,
        Rank::Higher => Ordering::Greater,
    }
}

impl PartialOrd for Version {
    /// Semantic-version precedence, including the rule that a prerelease sorts
    /// *below* its release (`1.0.0-rc.1 < 1.0.0`).
    fn partial_cmp(&self, other: &Version) -> (order: Option<Ordering>) {
        match self.rank(other) {
            Rank::Lower => Some(Ordering::Less),
            Rank::Same => Some(Ordering::Equal),
            Rank::Higher => Some(Ordering::Greater),
        }
    }
}

impl vstd::std_specs::cmp::PartialOrdSpecImpl for Version {
    open spec fn obeys_partial_cmp_spec() -> bool {
        true
    }

    open spec fn partial_cmp_spec(&self, other: &Version) -> Option<Ordering> {
        Some(rank_order(version_order(self@, other@)))
    }
}

// --------------------------------------------------------------------- laws

/// The rank seen from the other side.
pub open spec fn reversed(rank: Rank) -> Rank {
    match rank {
        Rank::Lower => Rank::Higher,
        Rank::Same => Rank::Same,
        Rank::Higher => Rank::Lower,
    }
}

proof fn lemma_text_reversed(a: Seq<char>, b: Seq<char>)
    ensures
        text_order(b, a) == reversed(text_order(a, b)),
    decreases a.len(),
{
    if a.len() > 0 && b.len() > 0 {
        lemma_text_reversed(a.skip(1), b.skip(1));
    }
}

proof fn lemma_prerelease_reversed(a: Seq<Seq<char>>, b: Seq<Seq<char>>)
    ensures
        prerelease_order(b, a) == reversed(prerelease_order(a, b)),
    decreases a.len(),
{
    if a.len() > 0 && b.len() > 0 {
        lemma_text_reversed(a[0], b[0]);
        lemma_prerelease_reversed(a.skip(1), b.skip(1));
    }
}

/// What follows from two ranks that are not downwards: the rank of the ends.
spec fn chained(ab: Rank, bc: Rank, ac: Rank) -> bool {
    ab != Rank::Higher && bc != Rank::Higher ==> ac == (if ab == Rank::Same {
        bc
    } else {
        Rank::Lower
    })
}

proof fn lemma_text_chained(a: Seq<char>, b: Seq<char>, c: Seq<char>)
    ensures
        chained(text_order(a, b), text_order(b, c), text_order(a, c)),
    decreases a.len(),
{
    if a.len() > 0 && b.len() > 0 && c.len() > 0 {
        lemma_text_chained(a.skip(1), b.skip(1), c.skip(1));
    }
}

proof fn lemma_identifier_chained(a: Seq<char>, b: Seq<char>, c: Seq<char>)
    ensures
        chained(identifier_order(a, b), identifier_order(b, c), identifier_order(a, c)),
{
    lemma_text_chained(a, b, c);
}

proof fn lemma_prerelease_chained(a: Seq<Seq<char>>, b: Seq<Seq<char>>, c: Seq<Seq<char>>)
    ensures
        chained(prerelease_order(a, b), prerelease_order(b, c), prerelease_order(a, c)),
    decreases a.len(),
{
    if a.len() > 0 && b.len() > 0 && c.len() > 0 {
        lemma_identifier_chained(a[0], b[0], c[0]);
        lemma_prerelease_chained(a.skip(1), b.skip(1), c.skip(1));
    }
}

/// Comparing two versions the other way round gives the opposite answer; in
/// particular a version is never newer than itself.
pub proof fn order_is_antisymmetric(a: Release, b: Release)
    ensures
        version_order(b, a) == reversed(version_order(a, b)),
{
    lemma_prerelease_reversed(a.prerelease, b.prerelease);
}

/// A version ranks the same as itself.
pub proof fn order_is_reflexive(a: Release)
    ensures
        version_order(a, a) == Rank::Same,
{
    order_is_antisymmetric(a, a);
}

/// Where the second version is at least the first and the third at least the
/// second, the third is at least the first, and the same as the first only
/// where all three are the same.
pub proof fn order_is_transitive(a: Release, b: Release, c: Release)
    requires
        version_order(a, b) != Rank::Higher,
        version_order(b, c) != Rank::Higher,
    ensures
        version_order(a, c) != Rank::Higher,
        version_order(a, c) == Rank::Same <==> version_order(a, b) == Rank::Same && version_order(
            b,
            c,
        ) == Rank::Same,
{
    lemma_prerelease_chained(a.prerelease, b.prerelease, c.prerelease);
}

/// A prerelease sorts below its release.
pub proof fn prerelease_is_below_release(major: u64, minor: u64, patch: u64, pre: Seq<Seq<char>>)
    requires
        pre.len() > 0,
    ensures
        version_order(
            (Release { major, minor, patch, prerelease: pre }),
            (Release { major, minor, patch, prerelease: Seq::<Seq<char>>::empty() }),
        ) == Rank::Lower,
{
}

/// Any version with greater numbers is newer, whatever the prereleases are.
pub proof fn numbers_decide_first(a: Release, b: Release)
    requires
        a.major < b.major || (a.major == b.major && (a.minor < b.minor || (a.minor == b.minor
            && a.patch < b.patch))),
    ensures
        version_order(a, b) == Rank::Lower,
{
}

/// Whether each identifier is free of the two characters that end it.
pub open spec fn plain_identifiers(parts: Seq<Seq<char>>) -> bool {
    forall|i: int|
        0 <= i < parts.len() ==> !(#[trigger] parts[i]).contains('.') && !parts[i].contains('+')
}

/// The identifiers of a version that was read are not empty, and hold neither a
/// dot nor a plus.
pub proof fn read_versions_are_plain(s: Seq<char>)
    ensures
        written_version(s) matches Some(v) ==> all_filled(v.prerelease) && plain_identifiers(
            v.prerelease,
        ),
{
    if let Some(v) = written_version(s) {
        let t = text::trimmed(s);
        let plain = text::split_on(t, '+')[0];
        text::lemma_split_nonempty(t, '+');
        text::lemma_split_lacks(t, '+');
        match text::cut(plain, '-') {
            Some((core, pre)) => {
                text::lemma_find(plain, seq!['-'], 0);
                text::lemma_split_lacks(pre, '.');
                assert forall|i: int| 0 <= i < v.prerelease.len() implies !(
                #[trigger] v.prerelease[i]).contains('.') && !v.prerelease[i].contains('+') by {
                    if v.prerelease[i].contains('+') {
                        assert(pre.contains('+'));
                        let k = choose|k: int| 0 <= k < pre.len() && pre[k] == '+';
                        let at = text::position(plain, seq!['-']).unwrap();
                        assert(plain[at + 1 + k] == '+');
                        assert(plain.contains('+'));
                    }
                }
            },
            None => {},
        }
    }
}

/// Whether white space ends the text of a version.
pub open spec fn ends_white(v: Release) -> bool {
    v.prerelease.len() > 0 && v.prerelease.last().len() > 0 && text::is_white(
        v.prerelease.last().last(),
    )
}

/// Whether writing a version out and reading it gives it back: its identifiers
/// could have been read, and the last does not end in white space.
pub open spec fn writable(v: Release) -> bool {
    &&& all_filled(v.prerelease)
    &&& plain_identifiers(v.prerelease)
    &&& !ends_white(v)
}

proof fn lemma_digits_lack(s: Seq<char>, c: char)
    requires
        text::all_digits(s),
        !text::is_digit(c),
    ensures
        !s.contains(c),
{
    if s.contains(c) {
        let i = choose|i: int| 0 <= i < s.len() && s[i] == c;
        assert(text::is_digit(s[i]));
    }
}

/// A writable version written out reads back as itself.
pub proof fn written_then_read(v: Release)
    requires
        writable(v),
    ensures
        written_version(version_text(v)) == Some(v),
{
    reveal_strlit(".");
    reveal_strlit("-");
    assert("."@ =~= seq!['.']);
    assert("-"@ =~= seq!['-']);
    let major = text::decimal_digits(v.major as nat);
    let minor = text::decimal_digits(v.minor as nat);
    let patch = text::decimal_digits(v.patch as nat);
    text::lemma_decimal(v.major as nat);
    text::lemma_decimal(v.minor as nat);
    text::lemma_decimal(v.patch as nat);
    text::decimal_then_number(v.major);
    text::decimal_then_number(v.minor);
    text::decimal_then_number(v.patch);
    let dot = seq!['.'];
    let core = major + dot + minor + dot + patch;
    let numbers = seq![major, minor, patch];
    lemma_digits_lack(major, '.');
    lemma_digits_lack(minor, '.');
    lemma_digits_lack(patch, '.');
    assert(text::joined(numbers, dot) =~= core) by {
        assert(numbers.drop_last() =~= seq![major, minor]);
        assert(seq![major, minor].drop_last() =~= seq![major]);
        assert(text::joined(seq![major], dot) == major);
        assert(text::joined(seq![major, minor], dot) =~= major + dot + minor);
    }
    text::join_then_split(numbers, '.');
    assert forall|c: char| (c == '-' || c == '+') implies !core.contains(c) by {
        lemma_digits_lack(major, c);
        lemma_digits_lack(minor, c);
        lemma_digits_lack(patch, c);
        text::lemma_joined_lacks(numbers, dot, c);
    }
    let s = version_text(v);
    assert(text::is_digit(major[0]));
    assert(s[0] == major[0]);
    if v.prerelease.len() == 0 {
        assert(s == core);
        assert(text::is_digit(patch[patch.len() - 1]));
        assert(s.last() == patch[patch.len() - 1]);
        text::lemma_char_absent(core, '-', 0);
        assert(v.prerelease =~= Seq::<Seq<char>>::empty());
    } else {
        let pre = text::joined(v.prerelease, dot);
        assert(s =~= core.push('-') + pre);
        assert(pre.len() > 0 && pre.last() == v.prerelease.last().last()) by {
            assert(v.prerelease[v.prerelease.len() - 1].len() > 0);
        }
        assert(s.last() == pre.last());
        text::lemma_joined_lacks(v.prerelease, dot, '+');
        text::lemma_contains_concat(core, seq!['-'], '+');
        text::lemma_contains_concat(core + seq!['-'], pre, '+');
        assert(core.push('-') =~= core + seq!['-']);
        text::lemma_char_after(core, '-', pre);
        assert(s.take(core.len() as int) =~= core);
        assert(s.skip(core.len() as int + 1) =~= pre);
        text::join_then_split(v.prerelease, '.');
    }
    assert(text::trimmed(s) == s);
    text::lemma_split_append(Seq::<char>::empty(), s, '+');
    assert(Seq::<char>::empty() + s == s);
    assert(text::split_on(Seq::<char>::empty(), '+') =~= seq![Seq::<char>::empty()]);
    assert(text::split_on(s, '+')[0] == s);
}

/// Reading a version, writing it and reading it again changes nothing, where
/// the version read does not end in white space.
pub proof fn read_written_read(s: Seq<char>)
    requires
        written_version(s) matches Some(v) ==> !ends_white(v),
    ensures
        written_version(s) matches Some(v) ==> written_version(version_text(v)) == Some(v),
{
    read_versions_are_plain(s);
    if let Some(v) = written_version(s) {
        written_then_read(v);
    }
}

/// Two identifiers that are numbers rank as the numbers do: the smaller value is
/// lower, and they rank the same only where the values are equal.
pub proof fn numeric_identifiers_rank_by_value(a: Seq<char>, b: Seq<char>, x: int, y: int)
    requires
        text::natural(a) == Some(x),
        text::natural(b) == Some(y),
    ensures
        identifier_order(a, b) == Rank::Lower <==> x < y,
        identifier_order(a, b) == Rank::Same <==> x == y,
        identifier_order(a, b) == Rank::Higher <==> x > y,
{
}

/// An identifier that is a number ranks below one that is none.
pub proof fn numbers_rank_below_words(a: Seq<char>, b: Seq<char>)
    requires
        text::natural(a) is Some,
        text::natural(b) is None,
    ensures
        identifier_order(a, b) == Rank::Lower,
        identifier_order(b, a) == Rank::Higher,
{
}

/// Identifiers that are no numbers rank as in a dictionary: the first character that
/// differs decides, an identifier ranks below its extensions, and only equal ones rank
/// the same.
pub proof fn words_rank_by_their_characters(
    a: Seq<char>,
    b: Seq<char>,
    shared: Seq<char>,
    c: char,
    d: char,
    rest: Seq<char>,
    other: Seq<char>,
)
    requires
        text::natural(a) is None,
        text::natural(b) is None,
        a == shared || a == shared.push(c) + rest,
        b == shared.push(d) + other,
        a == shared.push(c) + rest ==> c < d,
    ensures
        identifier_order(a, b) == Rank::Lower,
{
    if a == shared.push(c) + rest {
        lemma_first_difference(shared, seq![c] + rest, seq![d] + other);
        assert(a =~= shared + (seq![c] + rest));
        assert(b =~= shared + (seq![d] + other));
        assert((seq![c] + rest)[0] == c && (seq![d] + other)[0] == d);
    } else {
        lemma_first_difference(shared, Seq::<char>::empty(), seq![d] + other);
        assert(a =~= shared + Seq::<char>::empty());
        assert(b =~= shared + (seq![d] + other));
    }
}

proof fn lemma_first_difference(shared: Seq<char>, a: Seq<char>, b: Seq<char>)
    ensures
        text_order(shared + a, shared + b) == text_order(a, b),
    decreases shared.len(),
{
    if shared.len() == 0 {
        assert(shared + a =~= a && shared + b =~= b);
    } else {
        let x = shared + a;
        let y = shared + b;
        assert(x[0] == y[0]);
        assert(x.skip(1) =~= shared.skip(1) + a);
        assert(y.skip(1) =~= shared.skip(1) + b);
        lemma_first_difference(shared.skip(1), a, b);
    }
}

proof fn lemma_same_texts(a: Seq<char>, b: Seq<char>)
    ensures
        text_order(a, b) == Rank::Same <==> a == b,
    decreases a.len(),
{
    if a.len() > 0 && b.len() > 0 {
        lemma_same_texts(a.skip(1), b.skip(1));
        if a[0] == b[0] && a.skip(1) == b.skip(1) {
            assert(a =~= seq![a[0]] + a.skip(1));
            assert(b =~= seq![b[0]] + b.skip(1));
        }
    } else if a.len() == 0 && b.len() == 0 {
        assert(a =~= b);
    }
}

/// Identifiers that rank the same are equal, or write one and the same number.
pub proof fn identifiers_rank_same_only_where_alike(a: Seq<char>, b: Seq<char>)
    ensures
        identifier_order(a, b) == Rank::Same <==> a == b || (text::natural(a) is Some
            && text::natural(a) == text::natural(b)),
{
    lemma_same_texts(a, b);
}

/// A version with the identifiers `pre` after the numbers `of` has.
pub open spec fn with_identifiers(of: Release, pre: Seq<Seq<char>>) -> Release {
    Release { prerelease: pre, ..of }
}

proof fn lemma_shared_identifiers(shared: Seq<Seq<char>>, a: Seq<Seq<char>>, b: Seq<Seq<char>>)
    ensures
        prerelease_order(shared + a, shared + b) == prerelease_order(a, b),
    decreases shared.len(),
{
    if shared.len() == 0 {
        assert(shared + a =~= a && shared + b =~= b);
    } else {
        let x = shared + a;
        let y = shared + b;
        assert(x[0] == shared[0] && y[0] == shared[0]);
        lemma_same_texts(shared[0], shared[0]);
        assert(x.skip(1) =~= shared.skip(1) + a);
        assert(y.skip(1) =~= shared.skip(1) + b);
        lemma_shared_identifiers(shared.skip(1), a, b);
    }
}

/// Of two prereleases of one release whose first identifiers are equal, the first
/// identifiers that do not rank the same decide, whatever follows them.
pub proof fn first_different_identifier_decides(
    of: Release,
    shared: Seq<Seq<char>>,
    one: Seq<char>,
    other: Seq<char>,
    rest: Seq<Seq<char>>,
    tail: Seq<Seq<char>>,
)
    requires
        identifier_order(one, other) != Rank::Same,
    ensures
        version_order(
            with_identifiers(of, shared.push(one) + rest),
            with_identifiers(of, shared.push(other) + tail),
        ) == identifier_order(one, other),
{
    let a = seq![one] + rest;
    let b = seq![other] + tail;
    assert(shared.push(one) + rest =~= shared + a);
    assert(shared.push(other) + tail =~= shared + b);
    assert(a[0] == one && b[0] == other);
    lemma_shared_identifiers(shared, a, b);
}

/// Versions that differ in one numeric identifier alone rank as those numbers do:
/// `rc.12` is newer than `rc.11`.
pub proof fn later_candidates_are_newer(
    of: Release,
    shared: Seq<Seq<char>>,
    m: nat,
    n: nat,
    rest: Seq<Seq<char>>,
)
    requires
        m < n,
    ensures
        version_order(
            with_identifiers(of, shared.push(text::decimal_digits(m)) + rest),
            with_identifiers(of, shared.push(text::decimal_digits(n)) + rest),
        ) == Rank::Lower,
        version_order(
            with_identifiers(of, shared.push(text::decimal_digits(n)) + rest),
            with_identifiers(of, shared.push(text::decimal_digits(m)) + rest),
        ) == Rank::Higher,
{
    let a = text::decimal_digits(m);
    let b = text::decimal_digits(n);
    text::decimal_is_natural(m);
    text::decimal_is_natural(n);
    numeric_identifiers_rank_by_value(a, b, m as int, n as int);
    numeric_identifiers_rank_by_value(b, a, n as int, m as int);
    first_different_identifier_decides(of, shared, a, b, rest, rest);
    first_different_identifier_decides(of, shared, b, a, rest, rest);
}

/// Of two prereleases that agree as far as the shorter goes, the one with more
/// identifiers is newer.
pub proof fn more_identifiers_are_newer(of: Release, pre: Seq<Seq<char>>, more: Seq<Seq<char>>)
    requires
        pre.len() > 0,
        more.len() > 0,
    ensures
        version_order(with_identifiers(of, pre), with_identifiers(of, pre + more)) == Rank::Lower,
{
    let none = Seq::<Seq<char>>::empty();
    assert(pre + none =~= pre);
    lemma_shared_identifiers(pre, none, more);
}

proof fn lemma_same_lists(a: Seq<Seq<char>>, b: Seq<Seq<char>>)
    ensures
        prerelease_order(a, b) == Rank::Same <==> a.len() == b.len() && forall|i: int|
            0 <= i < a.len() ==> identifier_order(#[trigger] a[i], b[i]) == Rank::Same,
    decreases a.len(),
{
    if a.len() > 0 && b.len() > 0 {
        lemma_same_lists(a.skip(1), b.skip(1));
        let p = a.skip(1);
        let q = b.skip(1);
        if prerelease_order(a, b) == Rank::Same {
            assert forall|i: int| 0 <= i < a.len() implies identifier_order(#[trigger] a[i], b[i])
                == Rank::Same by {
                if i > 0 {
                    assert(identifier_order(p[i - 1], q[i - 1]) == Rank::Same);
                }
            }
        } else if a.len() == b.len() && identifier_order(a[0], b[0]) == Rank::Same {
            let i = choose|i: int| 0 <= i < p.len() && identifier_order(#[trigger] p[i], q[i])
                != Rank::Same;
            assert(identifier_order(a[i + 1], b[i + 1]) != Rank::Same);
        }
    }
}

/// Two versions rank the same exactly where their numbers are equal, they have equally
/// many identifiers, and those rank the same one by one.
pub proof fn versions_rank_same_only_where_alike(a: Release, b: Release)
    ensures
        version_order(a, b) == Rank::Same <==> {
            &&& a.major == b.major && a.minor == b.minor && a.patch == b.patch
            &&& a.prerelease.len() == b.prerelease.len()
            &&& forall|i: int|
                0 <= i < a.prerelease.len() ==> identifier_order(
                    #[trigger] a.prerelease[i],
                    b.prerelease[i],
                ) == Rank::Same
        },
{
    lemma_same_lists(a.prerelease, b.prerelease);
}

/// What `<` and its kin go by is the rank, and equal versions hold the same numbers
/// and identifiers.
pub proof fn comparison_is_the_rank(a: &Version, b: &Version, rank: Rank)
    requires
        call_ensures(Version::rank, (a, b), rank),
    ensures
        vstd::std_specs::cmp::PartialOrdSpec::partial_cmp_spec(a, b) == Some(
            (match rank {
                Rank::Lower => Ordering::Less,
                Rank::Same => Ordering::Equal,
                Rank::Higher => Ordering::Greater,
            }),
        ),
        vstd::std_specs::cmp::PartialEqSpec::eq_spec(a, b) <==> a.major == b.major && a.minor
            == b.minor && a.patch == b.patch && text::views(a.prerelease@) == text::views(
            b.prerelease@,
        ),
{
}

/// White space around a written version does not matter.
pub proof fn surrounding_white_space_is_ignored(s: Seq<char>, w: char)
    requires
        text::is_white(w),
    ensures
        written_version(seq![w] + s) == written_version(s),
        written_version(s.push(w)) == written_version(s),
{
    text::lemma_trimmed_ends(s, w);
}

/// Build metadata does not matter: a version that is written without any means the
/// same with some behind it.
pub proof fn build_metadata_is_ignored(s: Seq<char>, build: Seq<char>)
    requires
        s.len() > 0,
        !text::is_white(s[0]),
        !text::is_white(s.last()),
        !s.contains('+'),
        build.len() > 0 ==> !text::is_white(build.last()),
    ensures
        written_version(s.push('+') + build) == written_version(s),
{
    let t = s.push('+') + build;
    assert(t[0] == s[0]);
    assert(t.last() == (if build.len() > 0 {
        build.last()
    } else {
        '+'
    }));
    assert(text::trimmed(s) == s);
    assert(text::trimmed(t) == t);
    text::first_piece(s, build, '+');
    text::only_piece(s, '+');
}

/// How a text that is read as a version is written: three numbers with dots between
/// them, and then nothing, or a dash and identifiers with dots between them, none of
/// them empty. The numbers read are the version's, in that order.
pub proof fn read_versions_are_written_out(s: Seq<char>)
    ensures
        written_version(s) matches Some(v) ==> {
            let plain = text::split_on(text::trimmed(s), '+')[0];
            exists|a: Seq<char>, b: Seq<char>, c: Seq<char>|
                {
                    &&& #[trigger] text::number(a) == Some(v.major)
                    &&& #[trigger] text::number(b) == Some(v.minor)
                    &&& #[trigger] text::number(c) == Some(v.patch)
                    &&& all_filled(v.prerelease)
                    &&& plain == a + seq!['.'] + b + seq!['.'] + c + (if v.prerelease.len() == 0 {
                        Seq::<char>::empty()
                    } else {
                        seq!['-'] + text::joined(v.prerelease, seq!['.'])
                    })
                }
        },
{
    if let Some(v) = written_version(s) {
        let plain = text::split_on(text::trimmed(s), '+')[0];
        let core = match text::cut(plain, '-') {
            Some((core, pre)) => core,
            None => plain,
        };
        let numbers = text::split_on(core, '.');
        let (a, b, c) = (numbers[0], numbers[1], numbers[2]);
        let dot = seq!['.'];
        text::split_then_join(core, '.');
        assert(text::joined(numbers, dot) =~= a + dot + b + dot + c) by {
            assert(numbers.drop_last() =~= seq![a, b]);
            assert(seq![a, b].drop_last() =~= seq![a]);
            assert(text::joined(seq![a], dot) == a);
            assert(text::joined(seq![a, b], dot) =~= a + dot + b);
        }
        match text::cut(plain, '-') {
            Some((core, pre)) => {
                text::split_then_join(pre, '.');
                text::lemma_split_nonempty(pre, '.');
                text::cut_halves(plain, '-');
                assert(plain =~= a + dot + b + dot + c + (seq!['-'] + pre));
            },
            None => {
                assert(plain =~= a + dot + b + dot + c + Seq::<char>::empty());
            },
        }
        assert(text::number(a) == Some(v.major) && text::number(b) == Some(v.minor)
            && text::number(c) == Some(v.patch));
    }
}

/// A text reads as the same version with the white space around it taken off.
pub proof fn reading_ignores_trimming(s: Seq<char>)
    ensures
        written_version(text::trimmed(s)) == written_version(s),
{
    text::trimming_twice_is_trimming_once(s);
}

/// How a version is written: its three numbers in decimal with dots between them, and for a
/// prerelease a dash and its identifiers with dots between them. Nothing stands before,
/// between or behind them.
pub proof fn versions_are_written_plainly(version: &Version, s: String)
    requires
        call_ensures(Version::to_string, (version,), s),
    ensures
        ({
            let dot = seq!['.'];
            let core = text::decimal_digits(version.major as nat) + dot + text::decimal_digits(
                version.minor as nat,
            ) + dot + text::decimal_digits(version.patch as nat);
            let pre = text::views(version.prerelease@);
            &&& pre.len() == 0 ==> s@ == core && text::split_on(s@, '.') == seq![
                text::decimal_digits(version.major as nat),
                text::decimal_digits(version.minor as nat),
                text::decimal_digits(version.patch as nat),
            ]
            &&& pre.len() > 0 ==> s@ == core + seq!['-'] + text::joined(pre, dot)
        }),
{
    reveal_strlit(".");
    reveal_strlit("-");
    assert("."@ =~= seq!['.']);
    assert("-"@ =~= seq!['-']);
    let a = text::decimal_digits(version.major as nat);
    let b = text::decimal_digits(version.minor as nat);
    let c = text::decimal_digits(version.patch as nat);
    text::lemma_decimal(version.major as nat);
    text::lemma_decimal(version.minor as nat);
    text::lemma_decimal(version.patch as nat);
    lemma_digits_lack(a, '.');
    lemma_digits_lack(b, '.');
    lemma_digits_lack(c, '.');
    lemma_three_pieces(a, b, c);
}

proof fn lemma_three_pieces(a: Seq<char>, b: Seq<char>, c: Seq<char>)
    requires
        !a.contains('.'),
        !b.contains('.'),
        !c.contains('.'),
    ensures
        text::split_on(a + seq!['.'] + b + seq!['.'] + c, '.') == seq![a, b, c],
{
    let dot = seq!['.'];
    let numbers = seq![a, b, c];
    assert(text::joined(numbers, dot) =~= a + dot + b + dot + c) by {
        assert(numbers.drop_last() =~= seq![a, b]);
        assert(seq![a, b].drop_last() =~= seq![a]);
        assert(text::joined(seq![a], dot) == a);
        assert(text::joined(seq![a, b], dot) =~= a + dot + b);
    }
    text::join_then_split(numbers, '.');
}

/// Every text of the shape is read: three numbers that fit, with dots between them, and
/// perhaps a dash and identifiers, none of them empty, with dots between them.
pub proof fn every_plain_version_is_read(
    a: Seq<char>,
    b: Seq<char>,
    c: Seq<char>,
    pre: Seq<Seq<char>>,
    major: u64,
    minor: u64,
    patch: u64,
)
    requires
        text::all_digits(a) && text::number(a) == Some(major),
        text::all_digits(b) && text::number(b) == Some(minor),
        text::all_digits(c) && text::number(c) == Some(patch),
        all_filled(pre),
        plain_identifiers(pre),
        pre.len() > 0 ==> !text::is_white(pre.last().last()),
    ensures
        ({
            let dot = seq!['.'];
            let core = a + dot + b + dot + c;
            &&& pre.len() == 0 ==> written_version(core) == Some(
                Release { major, minor, patch, prerelease: pre },
            )
            &&& pre.len() > 0 ==> written_version(core + seq!['-'] + text::joined(pre, dot)) == Some(
                Release { major, minor, patch, prerelease: pre },
            )
        }),
{
    let dot = seq!['.'];
    let core = a + dot + b + dot + c;
    lemma_digits_lack(a, '.');
    lemma_digits_lack(b, '.');
    lemma_digits_lack(c, '.');
    lemma_three_pieces(a, b, c);
    assert forall|x: char| (x == '-' || x == '+') implies !core.contains(x) by {
        lemma_digits_lack(a, x);
        lemma_digits_lack(b, x);
        lemma_digits_lack(c, x);
        text::lemma_contains_concat(a, dot, x);
        text::lemma_contains_concat(a + dot, b, x);
        text::lemma_contains_concat(a + dot + b, dot, x);
        text::lemma_contains_concat(a + dot + b + dot, c, x);
    }
    assert(text::is_digit(a[0]) && text::is_digit(c[c.len() - 1]));
    if pre.len() == 0 {
        assert(core[0] == a[0] && core.last() == c[c.len() - 1]);
        assert(text::trimmed(core) == core);
        text::only_piece(core, '+');
        text::lemma_char_absent(core, '-', 0);
        assert(pre =~= Seq::<Seq<char>>::empty());
    } else {
        let tail = text::joined(pre, dot);
        let s = core + seq!['-'] + tail;
        assert(pre[pre.len() - 1].len() > 0);
        assert(tail.len() > 0 && tail.last() == pre.last().last());
        assert(s[0] == a[0] && s.last() == tail.last());
        assert(text::trimmed(s) == s);
        text::lemma_joined_lacks(pre, dot, '+');
        text::lemma_contains_concat(core, seq!['-'], '+');
        text::lemma_contains_concat(core + seq!['-'], tail, '+');
        text::only_piece(s, '+');
        assert(s =~= core.push('-') + tail);
        text::lemma_char_after(core, '-', tail);
        assert(s.take(core.len() as int) =~= core);
        assert(s.skip(core.len() as int + 1) =~= tail);
        text::join_then_split(pre, '.');
    }
}

/// What is written is read back as the version it was written for.
pub proof fn written_versions_are_parsed(
    version: &Version,
    shown: String,
    text: &str,
    parsed: Option<Version>,
)
    requires
        call_ensures(Version::to_string, (version,), shown),
        call_ensures(Version::parse, (text,), parsed),
        text@ == shown@,
        writable(version@),
    ensures
        parsed matches Some(v) && v@ == version@,
{
    written_then_read(version@);
}

/// How a version ranks against another: by the first of the three numbers that differs, or
/// else a release above its prereleases, or else by the first identifier that does not rank
/// the same, or else by which has more of them.
pub proof fn ranks_go_by_the_first_difference(a: &Version, b: &Version, rank: Rank, i: int)
    requires
        call_ensures(Version::rank, (a, b), rank),
    ensures
        a.major < b.major ==> rank is Lower,
        a.major > b.major ==> rank is Higher,
        a.major == b.major && a.minor < b.minor ==> rank is Lower,
        a.major == b.major && a.minor > b.minor ==> rank is Higher,
        a.major == b.major && a.minor == b.minor && a.patch < b.patch ==> rank is Lower,
        a.major == b.major && a.minor == b.minor && a.patch > b.patch ==> rank is Higher,
        a.major == b.major && a.minor == b.minor && a.patch == b.patch ==> {
            let p = text::views(a.prerelease@);
            let q = text::views(b.prerelease@);
            &&& p.len() == 0 && q.len() == 0 ==> rank is Same
            &&& p.len() == 0 && q.len() > 0 ==> rank is Higher
            &&& p.len() > 0 && q.len() == 0 ==> rank is Lower
            &&& 0 <= i < p.len() && i < q.len() && identifier_order(p[i], q[i]) != Rank::Same && (
            forall|k: int|
                0 <= k < i ==> identifier_order(#[trigger] p[k], q[k]) == Rank::Same) ==> rank
                == identifier_order(p[i], q[i])
            &&& p.len() > 0 && q.len() > 0 && (forall|k: int|
                0 <= k < p.len() && k < q.len() ==> identifier_order(#[trigger] p[k], q[k])
                    == Rank::Same) ==> rank == (if p.len() < q.len() {
                Rank::Lower
            } else if p.len() > q.len() {
                Rank::Higher
            } else {
                Rank::Same
            })
        },
{
    let p = text::views(a.prerelease@);
    let q = text::views(b.prerelease@);
    if 0 <= i < p.len() && i < q.len() && identifier_order(p[i], q[i]) != Rank::Same && (forall|
        k: int,
    |
        0 <= k < i ==> identifier_order(#[trigger] p[k], q[k]) == Rank::Same) {
        lemma_decided_at(p, q, i);
    }
    if forall|k: int|
        0 <= k < p.len() && k < q.len() ==> identifier_order(#[trigger] p[k], q[k]) == Rank::Same {
        lemma_decided_by_length(p, q);
    }
}

proof fn lemma_decided_at(p: Seq<Seq<char>>, q: Seq<Seq<char>>, i: int)
    requires
        0 <= i < p.len(),
        i < q.len(),
        identifier_order(p[i], q[i]) != Rank::Same,
        forall|k: int| 0 <= k < i ==> identifier_order(#[trigger] p[k], q[k]) == Rank::Same,
    ensures
        prerelease_order(p, q) == identifier_order(p[i], q[i]),
    decreases i,
{
    if i > 0 {
        assert(identifier_order(p[0], q[0]) == Rank::Same);
        let x = p.skip(1);
        let y = q.skip(1);
        assert forall|k: int| 0 <= k < i - 1 implies identifier_order(#[trigger] x[k], y[k])
            == Rank::Same by {
            assert(identifier_order(p[k + 1], q[k + 1]) == Rank::Same);
        }
        lemma_decided_at(x, y, i - 1);
    }
}

proof fn lemma_decided_by_length(p: Seq<Seq<char>>, q: Seq<Seq<char>>)
    requires
        forall|k: int|
            0 <= k < p.len() && k < q.len() ==> identifier_order(#[trigger] p[k], q[k])
                == Rank::Same,
    ensures
        prerelease_order(p, q) == (if p.len() < q.len() {
            Rank::Lower
        } else if p.len() > q.len() {
            Rank::Higher
        } else {
            Rank::Same
        }),
    decreases p.len(),
{
    if p.len() > 0 && q.len() > 0 {
        assert(identifier_order(p[0], q[0]) == Rank::Same);
        let x = p.skip(1);
        let y = q.skip(1);
        assert forall|k: int| 0 <= k < x.len() && k < y.len() implies identifier_order(
            #[trigger] x[k],
            y[k],
        ) == Rank::Same by {
            assert(identifier_order(p[k + 1], q[k + 1]) == Rank::Same);
        }
        lemma_decided_by_length(x, y);
    }
}

} // verus!
