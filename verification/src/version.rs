//! Semantic versions: parsing (through the `semver` crate), the precedence
//! order, and rendering back to text.
//!
//! A [`Version`] holds the five components of a semantic version as plain
//! values; the pre-release and build components are kept as the raw text
//! between the separators. Precedence is defined here as a spec function,
//! following the semantic-versioning rules: compare major, minor, patch
//! numerically; a version with a pre-release sorts below the same triple
//! without one; pre-release identifiers (dot-separated) compare pairwise,
//! numeric identifiers before alphanumeric ones; build metadata is ignored.

use vstd::prelude::*;

verus! {

/// Spec-level value of a semantic version.
pub struct VersionView {
    pub major: u64,
    pub minor: u64,
    pub patch: u64,
    /// Pre-release text (what follows `-`, before any `+`), empty if none.
    pub pre: Seq<char>,
    /// Build metadata text (what follows `+`), empty if none.
    pub build: Seq<char>,
}

/// A parsed semantic version.
#[derive(Clone, Debug)]
pub struct Version {
    pub major: u64,
    pub minor: u64,
    pub patch: u64,
    pub pre: String,
    pub build: String,
}

impl View for Version {
    type V = VersionView;

    open spec fn view(&self) -> VersionView {
        VersionView {
            major: self.major,
            minor: self.minor,
            patch: self.patch,
            pre: self.pre@,
            build: self.build@,
        }
    }
}

/// What `semver::Version::parse` returns on a given text: `None` where the
/// text is not a valid semantic version, otherwise the parsed components.
/// The result depends on the text alone.
pub uninterp spec fn semver_parse(s: Seq<char>) -> Option<VersionView>;

/// A version whose rendered text parses back to the same components. This
/// holds of every version that came out of a parse: rendering and parsing
/// are inverse on valid versions.
pub open spec fn round_trips(v: VersionView) -> bool {
    semver_parse(spec_version_text(v)) == Some(v)
}

/// Relies on `semver::Version::parse`: accepts exactly the texts of the
/// semantic-versioning grammar and splits them into major, minor, patch,
/// pre-release and build components. The last clause relies on the parser
/// and the display form being inverse: the parser reads the exact shape the
/// display form writes (`major.minor.patch`, the pre-release after `-`, the
/// build metadata after `+`), and the components of a parsed version are
/// valid identifier text and numbers without leading zeros, so rendering a
/// parsed version and parsing that text gives the same components back.
#[verifier::external_body]
fn parse_semver(s: &str) -> (r: Option<Version>)
    ensures
        r is Some <==> semver_parse(s@) is Some,
        r is Some ==> r.unwrap()@ == semver_parse(s@).unwrap(),
        r is Some ==> round_trips(r.unwrap()@),
{
    match semver::Version::parse(s) {
        Ok(v) => Some(Version {
            major: v.major,
            minor: v.minor,
            patch: v.patch,
            pre: v.pre.as_str().to_string(),
            build: v.build.as_str().to_string(),
        }),
        Err(_) => None,
    }
}

impl Version {
    /// Parse a text as a semantic version; `None` where the text is not one.
    /// A parsed version's rendered text parses back to the same version.
    pub fn parse(s: &str) -> (r: Option<Version>)
        ensures
            r is Some <==> semver_parse(s@) is Some,
            r is Some ==> r.unwrap()@ == semver_parse(s@).unwrap(),
            r is Some ==> round_trips(r.unwrap()@),
    {
        parse_semver(s)
    }

    /// The distinguished `0.0.0` value standing for "no version recorded".
    pub fn zero() -> (r: Version)
        ensures
            r@ == spec_zero(),
    {
        let r = Version {
            major: 0,
            minor: 0,
            patch: 0,
            pre: String::new(),
            build: String::new(),
        };
        assert(r@.pre =~= spec_zero().pre);
        assert(r@.build =~= spec_zero().build);
        assert(r@ =~= spec_zero());
        r
    }
}

/// The `0.0.0` version.
pub open spec fn spec_zero() -> VersionView {
    VersionView { major: 0, minor: 0, patch: 0, pre: Seq::empty(), build: Seq::empty() }
}

/// A decimal digit.
pub open spec fn is_digit(c: char) -> bool {
    '0' <= c && c <= '9'
}

/// A numeric pre-release identifier: non-empty, digits only.
pub open spec fn is_numeric_ident(s: Seq<char>) -> bool {
    s.len() > 0 && forall|i: int| 0 <= i < s.len() ==> is_digit(#[trigger] s[i])
}

/// Lexicographic order on character sequences.
pub open spec fn lex_lt(a: Seq<char>, b: Seq<char>) -> bool
    decreases a.len(),
{
    if b.len() == 0 {
        false
    } else if a.len() == 0 {
        true
    } else if a[0] == b[0] {
        lex_lt(a.skip(1), b.skip(1))
    } else {
        a[0] < b[0]
    }
}

/// Order on single pre-release identifiers. Numeric identifiers sort before
/// alphanumeric ones; two numeric identifiers compare as numbers. Valid
/// numeric identifiers carry no leading zeros, so comparing their lengths
/// first and then lexicographically is exactly numeric order.
pub open spec fn ident_lt(a: Seq<char>, b: Seq<char>) -> bool {
    if is_numeric_ident(a) && is_numeric_ident(b) {
        a.len() < b.len() || (a.len() == b.len() && lex_lt(a, b))
    } else if is_numeric_ident(a) {
        true
    } else if is_numeric_ident(b) {
        false
    } else {
        lex_lt(a, b)
    }
}

/// Index of the first `.` in `s`, or `-1` if there is none.
pub open spec fn find_dot(s: Seq<char>) -> int
    decreases s.len(),
{
    if s.len() == 0 {
        -1
    } else if s[0] == '.' {
        0
    } else if find_dot(s.skip(1)) < 0 {
        -1
    } else {
        find_dot(s.skip(1)) + 1
    }
}

proof fn lemma_find_dot_bounds(s: Seq<char>)
    ensures
        -1 <= find_dot(s) < s.len(),
        find_dot(s) >= 0 ==> s[find_dot(s)] == '.',
    decreases s.len(),
{
    if s.len() != 0 && s[0] != '.' {
        lemma_find_dot_bounds(s.skip(1));
    }
}

/// The dot-separated identifiers of a pre-release or build text.
pub open spec fn split_idents(s: Seq<char>) -> Seq<Seq<char>>
    decreases s.len(),
{
    let i = find_dot(s);
    if i < 0 {
        seq![s]
    } else if i >= s.len() {
        seq![s]  // unreachable: find_dot stays below the length
    } else {
        seq![s.take(i)] + split_idents(s.skip(i + 1))
    }
}

/// Order on lists of pre-release identifiers: pairwise, a strict prefix
/// sorts below the longer list.
pub open spec fn idents_lt(a: Seq<Seq<char>>, b: Seq<Seq<char>>) -> bool
    decreases a.len(),
{
    if b.len() == 0 {
        false
    } else if a.len() == 0 {
        true
    } else if a[0] == b[0] {
        idents_lt(a.skip(1), b.skip(1))
    } else {
        ident_lt(a[0], b[0])
    }
}

/// Semantic-version precedence: `a` sorts strictly below `b`.
pub open spec fn spec_lt(a: VersionView, b: VersionView) -> bool {
    if a.major != b.major {
        a.major < b.major
    } else if a.minor != b.minor {
        a.minor < b.minor
    } else if a.patch != b.patch {
        a.patch < b.patch
    } else if a.pre.len() == 0 {
        false
    } else if b.pre.len() == 0 {
        true
    } else {
        idents_lt(split_idents(a.pre), split_idents(b.pre))
    }
}

/// Equal precedence: the same version up to build metadata.
pub open spec fn spec_eq(a: VersionView, b: VersionView) -> bool {
    a.major == b.major && a.minor == b.minor && a.patch == b.patch && a.pre == b.pre
}

/// The characters of a text, as a vector.
fn chars_of(s: &str) -> (v: Vec<char>)
    ensures
        v@ == s@,
{
    let n = s.unicode_len();
    let mut v: Vec<char> = Vec::new();
    let mut i: usize = 0;
    while i < n
        invariant
            i <= n,
            n == s@.len(),
            v@ == s@.take(i as int),
        decreases n - i,
    {
        v.push(s.get_char(i));
        i = i + 1;
        assert(v@ =~= s@.take(i as int));
    }
    assert(v@ =~= s@);
    v
}

/// Whether two character vectors hold the same characters.
fn eq_chars(a: &Vec<char>, b: &Vec<char>) -> (r: bool)
    ensures
        r == (a@ == b@),
{
    if a.len() != b.len() {
        return false;
    }
    let mut i: usize = 0;
    while i < a.len()
        invariant
            i <= a@.len(),
            a@.len() == b@.len(),
            forall|k: int| 0 <= k < i ==> a@[k] == b@[k],
        decreases a@.len() - i,
    {
        if a[i] != b[i] {
            return false;
        }
        i = i + 1;
    }
    assert(a@ =~= b@);
    true
}

fn lex_lt_from(a: &Vec<char>, b: &Vec<char>, i: usize, j: usize) -> (r: bool)
    requires
        i <= a@.len(),
        j <= b@.len(),
    ensures
        r == lex_lt(a@.skip(i as int), b@.skip(j as int)),
    decreases a@.len() - i,
{
    if j == b.len() {
        false
    } else if i == a.len() {
        true
    } else if a[i] == b[j] {
        let r = lex_lt_from(a, b, i + 1, j + 1);
        assert(a@.skip(i as int).skip(1) =~= a@.skip(i + 1));
        assert(b@.skip(j as int).skip(1) =~= b@.skip(j + 1));
        r
    } else {
        a[i] < b[j]
    }
}

fn is_numeric_vec(a: &Vec<char>) -> (r: bool)
    ensures
        r == is_numeric_ident(a@),
{
    if a.len() == 0 {
        return false;
    }
    let mut i: usize = 0;
    while i < a.len()
        invariant
            i <= a@.len(),
            forall|k: int| 0 <= k < i ==> is_digit(#[trigger] a@[k]),
        decreases a@.len() - i,
    {
        let c = a[i];
        if !('0' <= c && c <= '9') {
            return false;
        }
        i = i + 1;
    }
    true
}

fn ident_lt_exec(a: &Vec<char>, b: &Vec<char>) -> (r: bool)
    ensures
        r == ident_lt(a@, b@),
{
    assert(a@.skip(0) =~= a@);
    assert(b@.skip(0) =~= b@);
    let na = is_numeric_vec(a);
    let nb = is_numeric_vec(b);
    if na && nb {
        if a.len() != b.len() {
            a.len() < b.len()
        } else {
            lex_lt_from(a, b, 0, 0)
        }
    } else if na {
        true
    } else if nb {
        false
    } else {
        lex_lt_from(a, b, 0, 0)
    }
}

proof fn lemma_find_dot_char(s: Seq<char>)
    ensures
        find_dot(s) == -1 ==> forall|k: int| 0 <= k < s.len() ==> s[k] != '.',
        find_dot(s) >= 0 ==> s[find_dot(s)] == '.' && forall|k: int|
            0 <= k < find_dot(s) ==> s[k] != '.',
    decreases s.len(),
{
    lemma_find_dot_bounds(s);
    if s.len() != 0 && s[0] != '.' {
        lemma_find_dot_char(s.skip(1));
        lemma_find_dot_bounds(s.skip(1));
        assert(forall|k: int| 1 <= k < s.len() ==> s[k] == s.skip(1)[k - 1]);
    }
}

/// The characters of `v` between `from` and `to`.
fn sub_chars(v: &Vec<char>, from: usize, to: usize) -> (r: Vec<char>)
    requires
        from <= to <= v@.len(),
    ensures
        r@ == v@.subrange(from as int, to as int),
{
    let mut r: Vec<char> = Vec::new();
    let mut i: usize = from;
    while i < to
        invariant
            from <= i <= to <= v@.len(),
            r@ == v@.subrange(from as int, i as int),
        decreases to - i,
    {
        r.push(v[i]);
        i = i + 1;
        assert(r@ =~= v@.subrange(from as int, i as int));
    }
    r
}

fn split_idents_exec(v: &Vec<char>) -> (r: Vec<Vec<char>>)
    ensures
        r@.len() == split_idents(v@).len(),
        forall|k: int| 0 <= k < r@.len() ==> #[trigger] r@[k]@ == split_idents(v@)[k],
    decreases v@.len(),
{
    proof {
        lemma_find_dot_char(v@);
        lemma_find_dot_bounds(v@);
    }
    let mut i: usize = 0;
    while i < v.len() && v[i as usize] != '.'
        invariant
            i <= v@.len(),
            forall|k: int| 0 <= k < i ==> v@[k] != '.',
        decreases v@.len() - i,
    {
        i = i + 1;
    }
    if i == v.len() {
        // no dot: the whole text is one identifier
        assert(find_dot(v@) == -1) by {
            if find_dot(v@) >= 0 {
                assert(v@[find_dot(v@)] == '.');
            }
        }
        let mut r: Vec<Vec<char>> = Vec::new();
        r.push(sub_chars(v, 0, v.len()));
        assert(r@[0]@ =~= v@);
        r
    } else {
        assert(v@[i as int] == '.');
        assert(find_dot(v@) == i) by {
            if find_dot(v@) < i {
                assert(v@[find_dot(v@)] == '.');
            }
        }
        let head = sub_chars(v, 0, i);
        let tail = sub_chars(v, i + 1, v.len());
        assert(tail@ =~= v@.skip(i + 1));
        let rest = split_idents_exec(&tail);
        let mut r: Vec<Vec<char>> = Vec::new();
        r.push(head);
        let mut k: usize = 0;
        while k < rest.len()
            invariant
                k <= rest@.len(),
                r@.len() == 1 + k,
                r@[0]@ == v@.take(i as int),
                forall|m: int| 0 <= m < k ==> #[trigger] r@[m + 1]@ == rest@[m]@,
                rest@.len() == split_idents(v@.skip(i + 1)).len(),
                forall|m: int|
                    0 <= m < rest@.len() ==> #[trigger] rest@[m]@ == split_idents(v@.skip(i + 1))[m],
            decreases rest@.len() - k,
        {
            let id = sub_chars(&rest[k], 0, rest[k].len());
            assert(id@ =~= rest@[k as int]@);
            r.push(id);
            k = k + 1;
        }
        assert(head@ =~= v@.take(i as int));
        assert(split_idents(v@) =~= seq![v@.take(i as int)] + split_idents(v@.skip(i + 1)));
        assert forall|m: int| 0 <= m < r@.len() implies #[trigger] r@[m]@ == split_idents(v@)[m] by {
            if m > 0 {
                assert(r@[(m - 1) + 1]@ == rest@[m - 1]@);
            }
        }
        r
    }
}

/// The views of a vector of character vectors.
pub open spec fn views_of(s: Seq<Vec<char>>) -> Seq<Seq<char>> {
    s.map_values(|x: Vec<char>| x@)
}

fn idents_lt_from(a: &Vec<Vec<char>>, b: &Vec<Vec<char>>, i: usize, j: usize) -> (r: bool)
    requires
        i <= a@.len(),
        j <= b@.len(),
    ensures
        r == idents_lt(views_of(a@).skip(i as int), views_of(b@).skip(j as int)),
    decreases a@.len() - i,
{
    if j == b.len() {
        false
    } else if i == a.len() {
        true
    } else if eq_chars(&a[i], &b[j]) {
        let r = idents_lt_from(a, b, i + 1, j + 1);
        assert(views_of(a@).skip(i as int).skip(1) =~= views_of(a@).skip(i + 1));
        assert(views_of(b@).skip(j as int).skip(1) =~= views_of(b@).skip(j + 1));
        r
    } else {
        ident_lt_exec(&a[i], &b[j])
    }
}

/// Compare the pre-release texts of two versions by identifier lists.
fn pre_lt_exec(a: &String, b: &String) -> (r: bool)
    ensures
        r == idents_lt(split_idents(a@), split_idents(b@)),
{
    let va = chars_of(a.as_str());
    let vb = chars_of(b.as_str());
    let sa = split_idents_exec(&va);
    let sb = split_idents_exec(&vb);
    assert(views_of(sa@) =~= split_idents(a@));
    assert(views_of(sb@) =~= split_idents(b@));
    assert(views_of(sa@).skip(0) =~= views_of(sa@));
    assert(views_of(sb@).skip(0) =~= views_of(sb@));
    idents_lt_from(&sa, &sb, 0, 0)
}

impl Version {
    /// Whether `self` sorts strictly below `other` in semantic-version
    /// precedence.
    pub fn lt(&self, other: &Version) -> (r: bool)
        ensures
            r == spec_lt(self@, other@),
    {
        if self.major != other.major {
            self.major < other.major
        } else if self.minor != other.minor {
            self.minor < other.minor
        } else if self.patch != other.patch {
            self.patch < other.patch
        } else if self.pre.as_str().is_empty() {
            false
        } else if other.pre.as_str().is_empty() {
            true
        } else {
            pre_lt_exec(&self.pre, &other.pre)
        }
    }

    /// A copy of the version, field by field.
    pub fn duplicate(&self) -> (r: Version)
        ensures
            r@ == self@,
    {
        let r = Version {
            major: self.major,
            minor: self.minor,
            patch: self.patch,
            pre: self.pre.clone(),
            build: self.build.clone(),
        };
        assert(r@ =~= self@);
        r
    }

    /// Render the version back to its text: `major.minor.patch`, the
    /// pre-release after `-`, the build metadata after `+`.
    pub fn to_text(&self) -> (r: String)
        ensures
            r@ == spec_version_text(self@),
    {
        proof {
            reveal_strlit(".");
            reveal_strlit("-");
            reveal_strlit("+");
        }
        let mut s = dec_string(self.major);
        s.append(".");
        let m = dec_string(self.minor);
        s.append(m.as_str());
        s.append(".");
        let p = dec_string(self.patch);
        s.append(p.as_str());
        if !self.pre.as_str().is_empty() {
            s.append("-");
            s.append(self.pre.as_str());
        }
        if !self.build.as_str().is_empty() {
            s.append("+");
            s.append(self.build.as_str());
        }
        assert(s@ =~= spec_version_text(self@));
        s
    }

    /// Whether `self` and `other` have equal precedence (build metadata
    /// ignored).
    pub fn eq_prec(&self, other: &Version) -> (r: bool)
        ensures
            r == spec_eq(self@, other@),
    {
        if self.major != other.major || self.minor != other.minor || self.patch != other.patch {
            return false;
        }
        let pa = chars_of(self.pre.as_str());
        let pb = chars_of(other.pre.as_str());
        eq_chars(&pa, &pb)
    }
}

/// The decimal digit characters.
pub open spec fn spec_digit(d: int) -> char {
    if d == 0 { '0' }
    else if d == 1 { '1' }
    else if d == 2 { '2' }
    else if d == 3 { '3' }
    else if d == 4 { '4' }
    else if d == 5 { '5' }
    else if d == 6 { '6' }
    else if d == 7 { '7' }
    else if d == 8 { '8' }
    else { '9' }
}

/// The decimal rendering of a number.
pub open spec fn spec_dec(n: int) -> Seq<char>
    decreases n,
{
    if n < 10 {
        seq![spec_digit(n)]
    } else {
        spec_dec(n / 10) + seq![spec_digit(n % 10)]
    }
}

/// The text of a version: the dotted triple, then the pre-release after `-`
/// and the build metadata after `+`, each only if present.
pub open spec fn spec_version_text(v: VersionView) -> Seq<char> {
    spec_dec(v.major as int) + seq!['.'] + spec_dec(v.minor as int) + seq!['.'] + spec_dec(
        v.patch as int,
    ) + (if v.pre.len() > 0 { seq!['-'] + v.pre } else { Seq::<char>::empty() }) + (if v.build.len()
        > 0 { seq!['+'] + v.build } else { Seq::<char>::empty() })
}

fn digit_str(d: u64) -> (r: &'static str)
    requires
        d < 10,
    ensures
        r@ == seq![spec_digit(d as int)],
{
    proof {
        reveal_strlit("0");
        reveal_strlit("1");
        reveal_strlit("2");
        reveal_strlit("3");
        reveal_strlit("4");
        reveal_strlit("5");
        reveal_strlit("6");
        reveal_strlit("7");
        reveal_strlit("8");
        reveal_strlit("9");
    }
    let r: &'static str = if d == 0 { "0" }
    else if d == 1 { "1" }
    else if d == 2 { "2" }
    else if d == 3 { "3" }
    else if d == 4 { "4" }
    else if d == 5 { "5" }
    else if d == 6 { "6" }
    else if d == 7 { "7" }
    else if d == 8 { "8" }
    else { "9" };
    assert(r@ =~= seq![spec_digit(d as int)]);
    r
}

/// The decimal rendering of a number, as a string.
fn dec_string(n: u64) -> (r: String)
    ensures
        r@ == spec_dec(n as int),
    decreases n,
{
    if n < 10 {
        String::from_str(digit_str(n))
    } else {
        let mut s = dec_string(n / 10);
        s.append(digit_str(n % 10));
        s
    }
}

proof fn lemma_lex_lt_connected(a: Seq<char>, b: Seq<char>)
    requires
        !lex_lt(a, b),
        !lex_lt(b, a),
    ensures
        a == b,
    decreases a.len(),
{
    if b.len() == 0 {
        assert(a.len() == 0);
        assert(a =~= b);
    } else {
        assert(a.len() > 0);
        assert(a[0] == b[0]);
        lemma_lex_lt_connected(a.skip(1), b.skip(1));
        assert(a.skip(1).len() == b.skip(1).len());
        assert(a.len() == b.len());
        assert forall|i: int| 0 <= i < a.len() implies a[i] == b[i] by {
            if i > 0 {
                assert(a[i] == a.skip(1)[i - 1]);
                assert(b[i] == b.skip(1)[i - 1]);
            }
        }
        assert(a =~= b);
    }
}

proof fn lemma_lex_lt_trans(a: Seq<char>, b: Seq<char>, c: Seq<char>)
    requires
        lex_lt(a, b),
        lex_lt(b, c),
    ensures
        lex_lt(a, c),
    decreases a.len(),
{
    assert(c.len() > 0);
    assert(b.len() > 0);
    if a.len() > 0 {
        if a[0] == b[0] && b[0] == c[0] {
            lemma_lex_lt_trans(a.skip(1), b.skip(1), c.skip(1));
        }
    }
}

proof fn lemma_lex_lt_irrefl(a: Seq<char>)
    ensures
        !lex_lt(a, a),
    decreases a.len(),
{
    if a.len() > 0 {
        lemma_lex_lt_irrefl(a.skip(1));
    }
}

proof fn lemma_ident_lt_connected(a: Seq<char>, b: Seq<char>)
    requires
        !ident_lt(a, b),
        !ident_lt(b, a),
    ensures
        a == b,
{
    if is_numeric_ident(a) && is_numeric_ident(b) {
        assert(a.len() == b.len());
        lemma_lex_lt_connected(a, b);
    } else if !is_numeric_ident(a) && !is_numeric_ident(b) {
        lemma_lex_lt_connected(a, b);
    }
}

proof fn lemma_ident_lt_trans(a: Seq<char>, b: Seq<char>, c: Seq<char>)
    requires
        ident_lt(a, b),
        ident_lt(b, c),
    ensures
        ident_lt(a, c),
{
    let na = is_numeric_ident(a);
    let nb = is_numeric_ident(b);
    let nc = is_numeric_ident(c);
    if na && nb && nc {
        if a.len() == b.len() && b.len() == c.len() {
            lemma_lex_lt_trans(a, b, c);
        }
    } else if !na && !nb && !nc {
        lemma_lex_lt_trans(a, b, c);
    }
}

proof fn lemma_ident_lt_irrefl(a: Seq<char>)
    ensures
        !ident_lt(a, a),
{
    lemma_lex_lt_irrefl(a);
}

proof fn lemma_idents_lt_connected(a: Seq<Seq<char>>, b: Seq<Seq<char>>)
    requires
        !idents_lt(a, b),
        !idents_lt(b, a),
    ensures
        a == b,
    decreases a.len(),
{
    if b.len() == 0 {
        assert(a.len() == 0);
        assert(a =~= b);
    } else {
        assert(a.len() > 0);
        if a[0] == b[0] {
            lemma_idents_lt_connected(a.skip(1), b.skip(1));
            assert(a.skip(1).len() == b.skip(1).len());
            assert(a.len() == b.len());
            assert forall|i: int| 0 <= i < a.len() implies a[i] == b[i] by {
                if i > 0 {
                    assert(a[i] == a.skip(1)[i - 1]);
                    assert(b[i] == b.skip(1)[i - 1]);
                }
            }
            assert(a =~= b);
        } else {
            lemma_ident_lt_connected(a[0], b[0]);
        }
    }
}

proof fn lemma_idents_lt_trans(a: Seq<Seq<char>>, b: Seq<Seq<char>>, c: Seq<Seq<char>>)
    requires
        idents_lt(a, b),
        idents_lt(b, c),
    ensures
        idents_lt(a, c),
    decreases a.len(),
{
    assert(c.len() > 0);
    assert(b.len() > 0);
    if a.len() > 0 {
        if a[0] == b[0] && b[0] == c[0] {
            lemma_idents_lt_trans(a.skip(1), b.skip(1), c.skip(1));
        } else if a[0] == b[0] {
            assert(ident_lt(a[0], c[0]));
        } else if b[0] == c[0] {
            assert(ident_lt(a[0], c[0]));
        } else {
            lemma_ident_lt_trans(a[0], b[0], c[0]);
            if a[0] == c[0] {
                lemma_ident_lt_irrefl(a[0]);
                lemma_ident_lt_trans(a[0], b[0], a[0]);
            }
        }
    }
}

/// The identifiers of a list, joined back with dots.
pub open spec fn join_idents(xs: Seq<Seq<char>>) -> Seq<char>
    decreases xs.len(),
{
    if xs.len() == 0 {
        Seq::empty()
    } else if xs.len() == 1 {
        xs[0]
    } else {
        xs[0] + seq!['.'] + join_idents(xs.skip(1))
    }
}

proof fn lemma_join_split(s: Seq<char>)
    ensures
        split_idents(s).len() >= 1,
        join_idents(split_idents(s)) == s,
    decreases s.len(),
{
    lemma_find_dot_bounds(s);
    lemma_find_dot_char(s);
    let i = find_dot(s);
    if i < 0 {
        assert(split_idents(s) =~= seq![s]);
        assert(join_idents(seq![s]) == s);
    } else {
        lemma_join_split(s.skip(i + 1));
        let rest = split_idents(s.skip(i + 1));
        let whole = seq![s.take(i)] + rest;
        assert(split_idents(s) =~= whole);
        assert(whole.skip(1) =~= rest);
        assert(join_idents(whole) == s.take(i) + seq!['.'] + s.skip(i + 1));
        assert(s.take(i) + seq!['.'] + s.skip(i + 1) =~= s);
    }
}

/// Precedence is connected: two versions that neither sorts below the other
/// have equal precedence.
pub proof fn lemma_order_connected(a: VersionView, b: VersionView)
    requires
        !spec_lt(a, b),
        !spec_lt(b, a),
    ensures
        spec_eq(a, b),
{
    assert(a.major == b.major);
    assert(a.minor == b.minor);
    assert(a.patch == b.patch);
    if a.pre.len() == 0 && b.pre.len() == 0 {
        assert(a.pre =~= b.pre);
    } else {
        assert(a.pre.len() > 0 && b.pre.len() > 0);
        lemma_idents_lt_connected(split_idents(a.pre), split_idents(b.pre));
        lemma_join_split(a.pre);
        lemma_join_split(b.pre);
    }
}

/// Precedence is transitive.
pub proof fn lemma_order_trans(a: VersionView, b: VersionView, c: VersionView)
    requires
        spec_lt(a, b),
        spec_lt(b, c),
    ensures
        spec_lt(a, c),
{
    if a.major == b.major && b.major == c.major && a.minor == b.minor && b.minor == c.minor
        && a.patch == b.patch && b.patch == c.patch {
        assert(a.pre.len() > 0);
        assert(b.pre.len() > 0);
        if c.pre.len() > 0 {
            lemma_idents_lt_trans(split_idents(a.pre), split_idents(b.pre), split_idents(c.pre));
        }
    }
}

proof fn lemma_idents_lt_irrefl(a: Seq<Seq<char>>)
    ensures
        !idents_lt(a, a),
    decreases a.len(),
{
    if a.len() > 0 {
        lemma_idents_lt_irrefl(a.skip(1));
    }
}

/// Precedence is irreflexive: no version sorts below one of equal precedence.
pub proof fn lemma_order_irrefl(a: VersionView, b: VersionView)
    requires
        spec_eq(a, b),
    ensures
        !spec_lt(a, b),
{
    if a.pre.len() > 0 {
        lemma_idents_lt_irrefl(split_idents(a.pre));
    }
}

} // verus!
