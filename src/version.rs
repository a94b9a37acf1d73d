//! Semantic versions: parsing release tags, precedence, and the marker file.
use std::cmp::Ordering;
use vstd::prelude::*;

verus! {

/// The fields of a version: major, minor, patch, pre-release and build text.
pub type VersionModel = (u64, u64, u64, Seq<char>, Seq<char>);

/// What `semver::Version::parse` yields on a text: its fields, or `None`
/// where the text is not valid semantic-version syntax.
pub uninterp spec fn semver_fields(s: Seq<char>) -> Option<(u64, u64, u64, Seq<char>, Seq<char>)>;

/// A semantic version.
#[derive(Debug, Clone, PartialEq, Eq)]
pub struct Version {
    pub major: u64,
    pub minor: u64,
    pub patch: u64,
    /// Pre-release identifiers, separated by '.', without the leading '-'.
    pub pre: String,
    /// Build metadata, without the leading '+'; it takes no part in precedence.
    pub build: String,
}

impl Version {
    pub open spec fn model(&self) -> VersionModel {
        (self.major, self.minor, self.patch, self.pre@, self.build@)
    }

    /// A release version with empty pre-release and build fields.
    pub fn new(major: u64, minor: u64, patch: u64) -> (r: Version)
        ensures
            r.model() == (major, minor, patch, Seq::<char>::empty(), Seq::<char>::empty()),
    {
        Version { major, minor, patch, pre: String::new(), build: String::new() }
    }
}

/// Relies on `semver::Version::parse`: the text is accepted exactly when it is
/// semantic-version syntax, and the fields are those of the parsed version.
#[verifier::external_body]
fn semver_parse(text: &str) -> (r: Option<(u64, u64, u64, String, String)>)
    ensures
        match r {
            Some(t) => semver_fields(text@) == Some((t.0, t.1, t.2, t.3@, t.4@)),
            None => semver_fields(text@) is None,
        },
{
    match semver::Version::parse(text) {
        Ok(v) => Some((v.major, v.minor, v.patch, v.pre.as_str().to_string(), v.build.as_str().to_string())),
        Err(_) => None,
    }
}

/// Parses semantic-version text (no tag marker).
pub fn parse_version(text: &str) -> (r: Option<Version>)
    ensures
        match r {
            Some(v) => semver_fields(text@) == Some(v.model()),
            None => semver_fields(text@) is None,
        },
{
    match semver_parse(text) {
        Some(t) => Some(Version { major: t.0, minor: t.1, patch: t.2, pre: t.3, build: t.4 }),
        None => None,
    }
}

/// The tag text with one leading marker `v` removed, if it has one.
pub open spec fn strip_marker(s: Seq<char>) -> Seq<char> {
    if s.len() > 0 && s[0] == 'v' {
        s.drop_first()
    } else {
        s
    }
}

/// Why a release tag was not accepted.
#[derive(Debug, Clone, Copy, PartialEq, Eq)]
pub enum TagError {
    /// What follows the marker is not semantic-version syntax.
    Malformed,
}

/// Removes one leading marker `v` from a release tag.
pub fn strip_tag_marker(tag: &str) -> (r: &str)
    ensures
        r@ == strip_marker(tag@),
{
    let n = tag.unicode_len();
    if n > 0 && tag.get_char(0) == 'v' {
        let r = tag.substring_char(1, n);
        assert(r@ =~= tag@.drop_first());
        r
    } else {
        tag
    }
}

/// Reads the version of a release tag such as `v1.2.3`: the marker is
/// dropped, and the rest must be semantic-version syntax.
pub fn parse_tag(tag: &str) -> (r: Result<Version, TagError>)
    ensures
        match r {
            Ok(v) => semver_fields(strip_marker(tag@)) == Some(v.model()),
            Err(e) => e == TagError::Malformed && semver_fields(strip_marker(tag@)) is None,
        },
{
    match parse_version(strip_tag_marker(tag)) {
        Some(v) => Ok(v),
        None => Err(TagError::Malformed),
    }
}

/// Lexical (code point) order of two character sequences.
pub open spec fn lex_cmp(x: Seq<char>, y: Seq<char>) -> Ordering
    decreases x.len(),
{
    if x.len() == 0 {
        if y.len() == 0 {
            Ordering::Equal
        } else {
            Ordering::Less
        }
    } else if y.len() == 0 {
        Ordering::Greater
    } else if (x[0] as u32) < (y[0] as u32) {
        Ordering::Less
    } else if (x[0] as u32) > (y[0] as u32) {
        Ordering::Greater
    } else {
        lex_cmp(x.drop_first(), y.drop_first())
    }
}

pub open spec fn is_digit(c: char) -> bool {
    48 <= (c as u32) <= 57
}

/// An identifier made of ASCII digits only.
pub open spec fn is_numeric(x: Seq<char>) -> bool {
    forall|m: int| 0 <= m < x.len() ==> is_digit(#[trigger] x[m])
}

/// Precedence of two pre-release identifiers: numeric ones by value (they
/// carry no leading zeros, so a shorter one is smaller), below all others,
/// which compare lexically.
pub open spec fn id_cmp(x: Seq<char>, y: Seq<char>) -> Ordering {
    if is_numeric(x) && is_numeric(y) {
        if x.len() < y.len() {
            Ordering::Less
        } else if x.len() > y.len() {
            Ordering::Greater
        } else {
            lex_cmp(x, y)
        }
    } else if is_numeric(x) {
        Ordering::Less
    } else if is_numeric(y) {
        Ordering::Greater
    } else {
        lex_cmp(x, y)
    }
}

/// Length of the identifier of `s` that starts at `i` (up to the next '.').
pub open spec fn id_len(s: Seq<char>, i: int) -> nat
    decreases s.len() - i,
{
    if i < 0 || i >= s.len() || s[i] == '.' {
        0
    } else {
        1 + id_len(s, i + 1)
    }
}

/// Precedence of the identifier lists of `a` from `i` and `b` from `k`:
/// identifier by identifier, and a list that runs out first is the smaller.
pub open spec fn ids_cmp(a: Seq<char>, b: Seq<char>, i: int, k: int) -> Ordering
    decreases a.len() - i,
{
    if i < 0 || k < 0 || i > a.len() || k > b.len() {
        Ordering::Equal
    } else {
        let j = i + id_len(a, i);
        let l = k + id_len(b, k);
        let c = id_cmp(a.subrange(i, j), b.subrange(k, l));
        if c != Ordering::Equal {
            c
        } else if j >= a.len() {
            if l >= b.len() {
                Ordering::Equal
            } else {
                Ordering::Less
            }
        } else if l >= b.len() {
            Ordering::Greater
        } else {
            ids_cmp(a, b, j + 1, l + 1)
        }
    }
}

/// Precedence of two pre-release fields: an empty one (a release) ranks
/// above every non-empty one.
pub open spec fn pre_cmp(a: Seq<char>, b: Seq<char>) -> Ordering {
    if a.len() == 0 {
        if b.len() == 0 {
            Ordering::Equal
        } else {
            Ordering::Greater
        }
    } else if b.len() == 0 {
        Ordering::Less
    } else {
        ids_cmp(a, b, 0, 0)
    }
}

pub open spec fn int_cmp(x: int, y: int) -> Ordering {
    if x < y {
        Ordering::Less
    } else if x > y {
        Ordering::Greater
    } else {
        Ordering::Equal
    }
}

/// Semantic-version precedence: major, minor, patch, then pre-release.
/// Build metadata takes no part.
pub open spec fn version_cmp(a: VersionModel, b: VersionModel) -> Ordering {
    if a.0 != b.0 {
        int_cmp(a.0 as int, b.0 as int)
    } else if a.1 != b.1 {
        int_cmp(a.1 as int, b.1 as int)
    } else if a.2 != b.2 {
        int_cmp(a.2 as int, b.2 as int)
    } else {
        pre_cmp(a.3, b.3)
    }
}

fn chars_of(s: &str) -> (r: Vec<char>)
    ensures
        r@ == s@,
{
    let n = s.unicode_len();
    let mut r: Vec<char> = Vec::new();
    let mut i: usize = 0;
    while i < n
        invariant
            n == s@.len(),
            i <= n,
            r@ == s@.subrange(0, i as int),
        decreases n - i,
    {
        r.push(s.get_char(i));
        i = i + 1;
        assert(r@ =~= s@.subrange(0, i as int));
    }
    assert(r@ =~= s@);
    r
}

fn lex_range(a: &Vec<char>, i: usize, j: usize, b: &Vec<char>, k: usize, l: usize) -> (r: Ordering)
    requires
        i <= j <= a@.len(),
        k <= l <= b@.len(),
    ensures
        r == lex_cmp(a@.subrange(i as int, j as int), b@.subrange(k as int, l as int)),
    decreases j - i,
{
    if i == j {
        if k == l {
            Ordering::Equal
        } else {
            Ordering::Less
        }
    } else if k == l {
        Ordering::Greater
    } else if (a[i] as u32) < (b[k] as u32) {
        Ordering::Less
    } else if (a[i] as u32) > (b[k] as u32) {
        Ordering::Greater
    } else {
        assert(a@.subrange(i as int, j as int).drop_first() =~= a@.subrange(i + 1, j as int));
        assert(b@.subrange(k as int, l as int).drop_first() =~= b@.subrange(k + 1, l as int));
        lex_range(a, i + 1, j, b, k + 1, l)
    }
}

fn numeric_range(a: &Vec<char>, i: usize, j: usize) -> (r: bool)
    requires
        i <= j <= a@.len(),
    ensures
        r == is_numeric(a@.subrange(i as int, j as int)),
{
    let mut m: usize = i;
    while m < j
        invariant
            i <= m <= j <= a@.len(),
            forall|t: int| i <= t < m ==> is_digit(#[trigger] a@[t]),
        decreases j - m,
    {
        let c = a[m] as u32;
        if c < 48 || c > 57 {
            assert(!is_digit(a@.subrange(i as int, j as int)[m - i]));
            return false;
        }
        m = m + 1;
    }
    assert forall|t: int| 0 <= t < j - i implies is_digit(#[trigger] a@.subrange(i as int, j as int)[t]) by {
        assert(a@.subrange(i as int, j as int)[t] == a@[i + t]);
    }
    true
}

fn id_range_cmp(a: &Vec<char>, i: usize, j: usize, b: &Vec<char>, k: usize, l: usize) -> (r: Ordering)
    requires
        i <= j <= a@.len(),
        k <= l <= b@.len(),
    ensures
        r == id_cmp(a@.subrange(i as int, j as int), b@.subrange(k as int, l as int)),
{
    let x_num = numeric_range(a, i, j);
    let y_num = numeric_range(b, k, l);
    if x_num && y_num {
        if j - i < l - k {
            Ordering::Less
        } else if j - i > l - k {
            Ordering::Greater
        } else {
            lex_range(a, i, j, b, k, l)
        }
    } else if x_num {
        Ordering::Less
    } else if y_num {
        Ordering::Greater
    } else {
        lex_range(a, i, j, b, k, l)
    }
}

fn id_end(s: &Vec<char>, i: usize) -> (j: usize)
    requires
        i <= s@.len(),
    ensures
        j == i + id_len(s@, i as int),
        j <= s@.len(),
{
    let mut j: usize = i;
    while j < s.len() && s[j] != '.'
        invariant
            i <= j <= s@.len(),
            id_len(s@, i as int) == (j - i) + id_len(s@, j as int),
        decreases s@.len() - j,
    {
        j = j + 1;
    }
    j
}

fn ids_range_cmp(a: &Vec<char>, b: &Vec<char>, i: usize, k: usize) -> (r: Ordering)
    requires
        i <= a@.len(),
        k <= b@.len(),
    ensures
        r == ids_cmp(a@, b@, i as int, k as int),
    decreases a@.len() - i,
{
    let j = id_end(a, i);
    let l = id_end(b, k);
    let c = id_range_cmp(a, i, j, b, k, l);
    match c {
        Ordering::Equal => {
            if j >= a.len() {
                if l >= b.len() {
                    Ordering::Equal
                } else {
                    Ordering::Less
                }
            } else if l >= b.len() {
                Ordering::Greater
            } else {
                ids_range_cmp(a, b, j + 1, l + 1)
            }
        },
        _ => c,
    }
}

fn u64_cmp(x: u64, y: u64) -> (r: Ordering)
    ensures
        r == int_cmp(x as int, y as int),
{
    if x < y {
        Ordering::Less
    } else if x > y {
        Ordering::Greater
    } else {
        Ordering::Equal
    }
}

/// Orders two versions by semantic-version precedence.
pub fn compare(a: &Version, b: &Version) -> (r: Ordering)
    ensures
        r == version_cmp(a.model(), b.model()),
{
    if a.major != b.major {
        u64_cmp(a.major, b.major)
    } else if a.minor != b.minor {
        u64_cmp(a.minor, b.minor)
    } else if a.patch != b.patch {
        u64_cmp(a.patch, b.patch)
    } else {
        let x = chars_of(a.pre.as_str());
        let y = chars_of(b.pre.as_str());
        if x.len() == 0 {
            if y.len() == 0 {
                Ordering::Equal
            } else {
                Ordering::Greater
            }
        } else if y.len() == 0 {
            Ordering::Less
        } else {
            ids_range_cmp(&x, &y, 0, 0)
        }
    }
}

/// What `serde_json::from_str::<semver::Version>` yields on a text: the
/// fields of the version that the JSON string holds, or `None`.
pub uninterp spec fn json_version_fields(s: Seq<char>) -> Option<(u64, u64, u64, Seq<char>, Seq<char>)>;

/// What `serde_json::to_string` yields for a string: a JSON string literal.
pub uninterp spec fn json_quoted(s: Seq<char>) -> Seq<char>;

/// A character that a JSON string holds as it is, with no escape.
pub open spec fn json_plain(c: char) -> bool {
    c != '"' && c != '\\' && (c as u32) >= 32
}

/// Relies on `serde_json::from_str` for `semver::Version` (with semver's
/// serde support): a JSON string holding semantic-version text.
#[verifier::external_body]
fn json_decode_version(text: &str) -> (r: Option<(u64, u64, u64, String, String)>)
    ensures
        match r {
            Some(t) => json_version_fields(text@) == Some((t.0, t.1, t.2, t.3@, t.4@)),
            None => json_version_fields(text@) is None,
        },
{
    match serde_json::from_str::<semver::Version>(text) {
        Ok(v) => Some((v.major, v.minor, v.patch, v.pre.as_str().to_string(), v.build.as_str().to_string())),
        Err(_) => None,
    }
}

/// Relies on `serde_json::to_string` for `str`, which cannot fail for a
/// string: the text in double quotes, where only '"', '\\' and control
/// characters are escaped.
#[verifier::external_body]
fn json_encode_str(text: &str) -> (r: String)
    ensures
        r@ == json_quoted(text@),
        (forall|m: int| 0 <= m < text@.len() ==> json_plain(#[trigger] text@[m])) ==> r@ == seq!['"'] + text@
            + seq!['"'],
{
    match serde_json::to_string(text) {
        Ok(s) => s,
        Err(_) => String::new(),
    }
}

/// The version that marks "nothing installed": 0.0.0.
pub open spec fn zero_model() -> VersionModel {
    (0, 0, 0, Seq::<char>::empty(), Seq::<char>::empty())
}

/// The installed version that a marker file's contents give: `None` for an
/// absent file; absent or unreadable contents give 0.0.0.
pub open spec fn marker_version(contents: Option<Seq<char>>) -> VersionModel {
    match contents {
        Some(c) => match json_version_fields(c) {
            Some(m) => m,
            None => zero_model(),
        },
        None => zero_model(),
    }
}

/// Resolves the locally installed version from the marker file's contents
/// (`None` where the file is absent or could not be read).
pub fn local_version(contents: Option<&str>) -> (r: Version)
    ensures
        r.model() == marker_version(
            match contents {
                Some(c) => Some(c@),
                None => None,
            },
        ),
{
    match contents {
        Some(c) => match json_decode_version(c) {
            Some(t) => Version { major: t.0, minor: t.1, patch: t.2, pre: t.3, build: t.4 },
            None => Version::new(0, 0, 0),
        },
        None => Version::new(0, 0, 0),
    }
}

pub open spec fn digit_char(d: nat) -> char {
    ((d % 10) + 48) as char
}

/// Decimal digits of `n`, without leading zeros.
pub open spec fn decimal(n: nat) -> Seq<char>
    decreases n,
{
    if n < 10 {
        seq![digit_char(n)]
    } else {
        decimal(n / 10) + seq![digit_char(n % 10)]
    }
}

/// The canonical text of a version: `major.minor.patch`, then `-pre` and
/// `+build` where those are not empty.
pub open spec fn version_text_of(v: VersionModel) -> Seq<char> {
    decimal(v.0 as nat) + seq!['.'] + decimal(v.1 as nat) + seq!['.'] + decimal(v.2 as nat) + (if v.3.len()
        == 0 {
        Seq::<char>::empty()
    } else {
        seq!['-'] + v.3
    }) + (if v.4.len() == 0 {
        Seq::<char>::empty()
    } else {
        seq!['+'] + v.4
    })
}

fn digit_str(d: u64) -> (r: &'static str)
    requires
        d < 10,
    ensures
        r@ == seq![digit_char(d as nat)],
{
    if d == 0 {
        proof { reveal_strlit("0"); }
        "0"
    } else if d == 1 {
        proof { reveal_strlit("1"); }
        "1"
    } else if d == 2 {
        proof { reveal_strlit("2"); }
        "2"
    } else if d == 3 {
        proof { reveal_strlit("3"); }
        "3"
    } else if d == 4 {
        proof { reveal_strlit("4"); }
        "4"
    } else if d == 5 {
        proof { reveal_strlit("5"); }
        "5"
    } else if d == 6 {
        proof { reveal_strlit("6"); }
        "6"
    } else if d == 7 {
        proof { reveal_strlit("7"); }
        "7"
    } else if d == 8 {
        proof { reveal_strlit("8"); }
        "8"
    } else {
        proof { reveal_strlit("9"); }
        "9"
    }
}

fn append_decimal(out: &mut String, n: u64)
    ensures
        final(out)@ == old(out)@ + decimal(n as nat),
    decreases n,
{
    if n >= 10 {
        append_decimal(out, n / 10);
    }
    out.append(digit_str(n % 10));
    assert(final(out)@ =~= old(out)@ + decimal(n as nat));
}

/// The canonical text of a version, as semver displays it.
pub fn version_text(v: &Version) -> (r: String)
    ensures
        r@ == version_text_of(v.model()),
{
    let mut out = String::new();
    append_decimal(&mut out, v.major);
    proof { reveal_strlit("."); reveal_strlit("-"); reveal_strlit("+"); }
    out.append(".");
    append_decimal(&mut out, v.minor);
    out.append(".");
    append_decimal(&mut out, v.patch);
    if v.pre.unicode_len() > 0 {
        out.append("-");
        out.append(v.pre.as_str());
    }
    if v.build.unicode_len() > 0 {
        out.append("+");
        out.append(v.build.as_str());
    }
    assert(out@ =~= version_text_of(v.model()));
    out
}

/// The contents written to the marker file for a version: its canonical
/// text as a JSON string.
pub fn marker_text(v: &Version) -> (r: String)
    ensures
        r@ == json_quoted(version_text_of(v.model())),
{
    let text = version_text(v);
    json_encode_str(text.as_str())
}

/// The reverse of an ordering.
pub open spec fn flip(o: Ordering) -> Ordering {
    match o {
        Ordering::Less => Ordering::Greater,
        Ordering::Equal => Ordering::Equal,
        Ordering::Greater => Ordering::Less,
    }
}

/// On release versions (empty pre-release), precedence is a strict total
/// order: versions are equal exactly when major, minor and patch are, one is
/// less exactly when its (major, minor, patch) is lexicographically smaller,
/// swapping the arguments reverses the result, and "less" is transitive.
pub proof fn lemma_release_precedence_order(a: VersionModel, b: VersionModel, c: VersionModel)
    requires
        a.3.len() == 0,
        b.3.len() == 0,
        c.3.len() == 0,
    ensures
        version_cmp(a, b) == Ordering::Equal <==> (a.0 == b.0 && a.1 == b.1 && a.2 == b.2),
        version_cmp(a, b) == Ordering::Less <==> (a.0 < b.0 || (a.0 == b.0 && (a.1 < b.1 || (a.1
            == b.1 && a.2 < b.2)))),
        version_cmp(a, b) == flip(version_cmp(b, a)),
        version_cmp(a, b) == Ordering::Less && version_cmp(b, c) == Ordering::Less ==> version_cmp(
            a,
            c,
        ) == Ordering::Less,
{
}

proof fn lemma_lex_flip(x: Seq<char>, y: Seq<char>)
    ensures
        lex_cmp(x, y) == flip(lex_cmp(y, x)),
    decreases x.len(),
{
    if x.len() > 0 && y.len() > 0 {
        lemma_lex_flip(x.drop_first(), y.drop_first());
    }
}

proof fn lemma_lex_equal(x: Seq<char>, y: Seq<char>)
    ensures
        lex_cmp(x, y) == Ordering::Equal <==> x == y,
    decreases x.len(),
{
    if x.len() == 0 && y.len() == 0 {
        assert(x =~= y);
    }
    if x.len() > 0 && y.len() > 0 {
        lemma_lex_equal(x.drop_first(), y.drop_first());
        if lex_cmp(x, y) == Ordering::Equal {
            vstd::utf8::char_u32_cast(x[0], x[0] as u32);
            vstd::utf8::char_u32_cast(y[0], y[0] as u32);
            assert(x[0] == y[0]);
            assert forall|t: int| 0 <= t < x.len() implies x[t] == y[t] by {
                if t > 0 {
                    assert(x[t] == x.drop_first()[t - 1]);
                    assert(y[t] == y.drop_first()[t - 1]);
                }
            }
            assert(x =~= y);
        }
    }
}

proof fn lemma_lex_trans(x: Seq<char>, y: Seq<char>, z: Seq<char>)
    requires
        lex_cmp(x, y) == Ordering::Less,
        lex_cmp(y, z) == Ordering::Less,
    ensures
        lex_cmp(x, z) == Ordering::Less,
    decreases x.len(),
{
    if x.len() > 0 && y.len() > 0 && z.len() > 0 {
        if (x[0] as u32) == (y[0] as u32) && (y[0] as u32) == (z[0] as u32) {
            lemma_lex_trans(x.drop_first(), y.drop_first(), z.drop_first());
        }
    }
}

proof fn lemma_id_order(x: Seq<char>, y: Seq<char>, z: Seq<char>)
    ensures
        id_cmp(x, y) == flip(id_cmp(y, x)),
        id_cmp(x, y) == Ordering::Equal <==> x == y,
        id_cmp(x, y) == Ordering::Less && id_cmp(y, z) == Ordering::Less ==> id_cmp(x, z)
            == Ordering::Less,
{
    lemma_lex_flip(x, y);
    lemma_lex_equal(x, y);
    if id_cmp(x, y) == Ordering::Less && id_cmp(y, z) == Ordering::Less {
        if lex_cmp(x, y) == Ordering::Less && lex_cmp(y, z) == Ordering::Less {
            lemma_lex_trans(x, y, z);
        }
        if lex_cmp(x, y) == Ordering::Equal {
            lemma_lex_equal(x, y);
        }
        if lex_cmp(y, z) == Ordering::Equal {
            lemma_lex_equal(y, z);
        }
    }
}

proof fn lemma_id_len(s: Seq<char>, i: int)
    requires
        0 <= i <= s.len(),
    ensures
        i + id_len(s, i) <= s.len(),
        i + id_len(s, i) < s.len() ==> s[i + id_len(s, i)] == '.',
        forall|t: int| i <= t < i + id_len(s, i) ==> s[t] != '.',
    decreases s.len() - i,
{
    if i < s.len() && s[i] != '.' {
        lemma_id_len(s, i + 1);
    }
}

proof fn lemma_ids_flip(a: Seq<char>, b: Seq<char>, i: int, k: int)
    ensures
        ids_cmp(a, b, i, k) == flip(ids_cmp(b, a, k, i)),
    decreases a.len() - i,
{
    if 0 <= i <= a.len() && 0 <= k <= b.len() {
        let j = i + id_len(a, i);
        let l = k + id_len(b, k);
        lemma_id_order(a.subrange(i, j), b.subrange(k, l), b.subrange(k, l));
        lemma_id_len(a, i);
        if j < a.len() && l < b.len() {
            lemma_ids_flip(a, b, j + 1, l + 1);
        }
    }
}

proof fn lemma_ids_equal(a: Seq<char>, b: Seq<char>, i: int, k: int)
    requires
        0 <= i <= a.len(),
        0 <= k <= b.len(),
    ensures
        ids_cmp(a, b, i, k) == Ordering::Equal <==> a.subrange(i, a.len() as int) == b.subrange(
            k,
            b.len() as int,
        ),
    decreases a.len() - i,
{
    let j = i + id_len(a, i);
    let l = k + id_len(b, k);
    let x = a.subrange(i, j);
    let y = b.subrange(k, l);
    lemma_id_len(a, i);
    lemma_id_len(b, k);
    lemma_id_order(x, y, y);
    let ra = a.subrange(i, a.len() as int);
    let rb = b.subrange(k, b.len() as int);
    if j < a.len() && l < b.len() {
        lemma_ids_equal(a, b, j + 1, l + 1);
        assert(ra =~= x + seq!['.'] + a.subrange(j + 1, a.len() as int));
        assert(rb =~= y + seq!['.'] + b.subrange(l + 1, b.len() as int));
    } else if j < a.len() {
        assert(ra =~= x + seq!['.'] + a.subrange(j + 1, a.len() as int));
        assert(rb =~= y);
    } else if l < b.len() {
        assert(ra =~= x);
        assert(rb =~= y + seq!['.'] + b.subrange(l + 1, b.len() as int));
    } else {
        assert(ra =~= x);
        assert(rb =~= y);
    }
    if ra == rb {
        if id_len(a, i) < id_len(b, k) {
            assert(ra[id_len(a, i) as int] == rb[id_len(a, i) as int]);
        } else if id_len(a, i) > id_len(b, k) {
            assert(ra[id_len(b, k) as int] == rb[id_len(b, k) as int]);
        }
        assert(x =~= y) by {
            assert forall|t: int| 0 <= t < x.len() implies x[t] == y[t] by {
                assert(ra[t] == rb[t]);
            }
        }
        if j < a.len() && l < b.len() {
            assert(a.subrange(j + 1, a.len() as int) =~= ra.subrange(id_len(a, i) as int + 1, ra.len() as int));
            assert(b.subrange(l + 1, b.len() as int) =~= rb.subrange(id_len(b, k) as int + 1, rb.len() as int));
        }
    }
}

proof fn lemma_ids_trans(a: Seq<char>, b: Seq<char>, c: Seq<char>, i: int, k: int, m: int)
    requires
        0 <= i <= a.len(),
        0 <= k <= b.len(),
        0 <= m <= c.len(),
        ids_cmp(a, b, i, k) == Ordering::Less,
        ids_cmp(b, c, k, m) == Ordering::Less,
    ensures
        ids_cmp(a, c, i, m) == Ordering::Less,
    decreases a.len() - i,
{
    let j = i + id_len(a, i);
    let l = k + id_len(b, k);
    let n = m + id_len(c, m);
    let x = a.subrange(i, j);
    let y = b.subrange(k, l);
    let z = c.subrange(m, n);
    lemma_id_len(a, i);
    lemma_id_len(b, k);
    lemma_id_len(c, m);
    lemma_id_order(x, y, z);
    lemma_id_order(y, z, x);
    lemma_id_order(x, z, y);
    if id_cmp(x, y) == Ordering::Equal && id_cmp(y, z) == Ordering::Equal {
        assert(x.len() == y.len() && y.len() == z.len());
        if j < a.len() && l < b.len() && n < c.len() {
            lemma_ids_trans(a, b, c, j + 1, l + 1, n + 1);
        }
    }
}

proof fn lemma_pre_order(a: Seq<char>, b: Seq<char>, c: Seq<char>)
    ensures
        pre_cmp(a, b) == flip(pre_cmp(b, a)),
        pre_cmp(a, b) == Ordering::Equal <==> a == b,
        pre_cmp(a, b) == Ordering::Less && pre_cmp(b, c) == Ordering::Less ==> pre_cmp(a, c)
            == Ordering::Less,
{
    lemma_ids_flip(a, b, 0, 0);
    lemma_ids_equal(a, b, 0, 0);
    assert(a.subrange(0, a.len() as int) =~= a);
    assert(b.subrange(0, b.len() as int) =~= b);
    if a.len() == 0 && b.len() == 0 {
        assert(a =~= b);
    }
    if pre_cmp(a, b) == Ordering::Less && pre_cmp(b, c) == Ordering::Less && c.len() > 0 {
        lemma_ids_trans(a, b, c, 0, 0, 0);
    }
}

/// Precedence is a strict total order on versions up to build metadata:
/// every version is equal to itself, swapping the arguments reverses the
/// result, "equal" holds only between versions with the same major, minor,
/// patch and pre-release, and "less" is transitive.
pub proof fn lemma_precedence_order(a: VersionModel, b: VersionModel, c: VersionModel)
    ensures
        version_cmp(a, a) == Ordering::Equal,
        version_cmp(a, b) == flip(version_cmp(b, a)),
        version_cmp(a, b) == Ordering::Equal <==> (a.0 == b.0 && a.1 == b.1 && a.2 == b.2 && a.3
            == b.3),
        version_cmp(a, b) == Ordering::Less && version_cmp(b, c) == Ordering::Less ==> version_cmp(
            a,
            c,
        ) == Ordering::Less,
{
    lemma_pre_order(a.3, a.3, a.3);
    lemma_pre_order(a.3, b.3, c.3);
}

/// An absent marker file, or one whose contents are not a JSON version,
/// resolves to version 0.0.0.
pub proof fn lemma_unreadable_marker_is_zero(contents: Option<Seq<char>>)
    requires
        contents is None || json_version_fields(contents->0) is None,
    ensures
        marker_version(contents) == zero_model(),
{
}

} // verus!
