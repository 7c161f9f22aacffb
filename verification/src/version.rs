//! Semantic versions: a plain-value model (major, minor, patch, pre-release
//! identifiers), parsing through the `semver` crate, and a verified
//! implementation of semantic-version precedence, which drives the
//! reinstall decision.

use vstd::prelude::*;
use vstd::string::*;
use crate::errors::CliError;
use crate::strutil::str_eq;

verus! {

// ---------------------------------------------------------------------------
// Digits and numeric identifiers
// ---------------------------------------------------------------------------
/// An ASCII decimal digit.
pub open spec fn is_digit(c: char) -> bool {
    '0' <= c && c <= '9'
}

/// The value of one digit.
pub open spec fn digit_val(c: char) -> nat {
    ((c as u32) - 48) as nat
}

/// Powers of ten.
pub open spec fn pow10(n: nat) -> nat
    decreases n,
{
    if n == 0 {
        1
    } else {
        10 * pow10((n - 1) as nat)
    }
}

/// A numeric identifier: non-empty and all digits.
pub open spec fn is_num_ident(s: Seq<char>) -> bool {
    s.len() > 0 && (forall|j: int| 0 <= j < s.len() ==> is_digit(s[j]))
}

/// The numeric value of a digit string.
pub open spec fn num_val(s: Seq<char>) -> nat
    decreases s.len(),
{
    if s.len() == 0 {
        0
    } else {
        digit_val(s[0]) * pow10((s.len() - 1) as nat) + num_val(s.skip(1))
    }
}

// ---------------------------------------------------------------------------
// Identifier and pre-release ordering (semantic-version precedence)
// ---------------------------------------------------------------------------
/// Lexicographic order on character sequences by code point, a proper
/// prefix ordering before anything longer.
pub open spec fn lex_lt(a: Seq<char>, b: Seq<char>) -> bool
    decreases a.len() + b.len(),
{
    if b.len() == 0 {
        false
    } else if a.len() == 0 {
        true
    } else if a[0] != b[0] {
        a[0] < b[0]
    } else {
        lex_lt(a.skip(1), b.skip(1))
    }
}

/// Order on single pre-release identifiers: numeric ones numerically,
/// numeric before alphanumeric, alphanumeric ones lexically.
pub open spec fn ident_lt(a: Seq<char>, b: Seq<char>) -> bool {
    if is_num_ident(a) && is_num_ident(b) {
        num_val(a) < num_val(b)
    } else if is_num_ident(a) {
        true
    } else if is_num_ident(b) {
        false
    } else {
        lex_lt(a, b)
    }
}

/// Equality of single pre-release identifiers under the same order.
pub open spec fn ident_eq(a: Seq<char>, b: Seq<char>) -> bool {
    if is_num_ident(a) && is_num_ident(b) {
        num_val(a) == num_val(b)
    } else if !is_num_ident(a) && !is_num_ident(b) {
        a == b
    } else {
        false
    }
}

/// Order on identifier lists: identifier by identifier, a shorter list
/// before any list it is a proper prefix of.
pub open spec fn idents_lt(a: Seq<Seq<char>>, b: Seq<Seq<char>>) -> bool
    decreases a.len(),
{
    if a.len() == 0 {
        b.len() > 0
    } else if b.len() == 0 {
        false
    } else if ident_eq(a[0], b[0]) {
        idents_lt(a.skip(1), b.skip(1))
    } else {
        ident_lt(a[0], b[0])
    }
}

/// Order on pre-release lists: a version with a pre-release precedes the
/// same version without one; two pre-releases compare identifier-wise.
pub open spec fn pre_lt(a: Seq<Seq<char>>, b: Seq<Seq<char>>) -> bool {
    if a.len() == 0 {
        false
    } else if b.len() == 0 {
        true
    } else {
        idents_lt(a, b)
    }
}

// ---------------------------------------------------------------------------
// The version type
// ---------------------------------------------------------------------------
/// Mathematical model of a version: the three numeric parts and the
/// pre-release identifiers. Build metadata does not enter precedence and
/// is not modeled.
#[verifier::ext_equal]
pub struct VersionView {
    pub major: u64,
    pub minor: u64,
    pub patch: u64,
    pub pre: Seq<Seq<char>>,
}

/// A semantic version as plain values.
#[derive(Debug)]
pub struct Version {
    pub major: u64,
    pub minor: u64,
    pub patch: u64,
    /// Pre-release identifiers, in order; empty means a release version.
    pub pre: Vec<String>,
}

impl View for Version {
    type V = VersionView;

    open spec fn view(&self) -> VersionView {
        VersionView {
            major: self.major,
            minor: self.minor,
            patch: self.patch,
            pre: self.pre.deep_view(),
        }
    }
}

/// Semantic-version precedence: major, minor, patch numerically, then the
/// pre-release rule.
pub open spec fn version_lt(a: VersionView, b: VersionView) -> bool {
    if a.major != b.major {
        a.major < b.major
    } else if a.minor != b.minor {
        a.minor < b.minor
    } else if a.patch != b.patch {
        a.patch < b.patch
    } else {
        pre_lt(a.pre, b.pre)
    }
}

// ---------------------------------------------------------------------------
// Parsing through the semver crate
// ---------------------------------------------------------------------------
/// What `semver::Version::parse` makes of a string: `None` when the string
/// is not a valid semantic version, otherwise the major, minor and patch
/// numbers and the raw pre-release text. The result depends on the
/// characters alone.
pub uninterp spec fn semver_parsed(s: Seq<char>) -> Option<(u64, u64, u64, Seq<char>)>;

/// The parts of a parsed version before the pre-release text is split
/// into identifiers.
pub struct RawVersion {
    pub major: u64,
    pub minor: u64,
    pub patch: u64,
    pub pre: String,
}

#[verifier::external_type_specification]
#[verifier::external_body]
pub struct ExSemverError(semver::Error);

/// Relies on `semver::Version::parse`: a pure function of the input text,
/// returning the numeric parts and the pre-release identifiers (joined by
/// dots) on success.
#[verifier::external_body]
fn parse_semver(s: &str) -> (r: Result<RawVersion, semver::Error>)
    ensures
        r matches Ok(v) ==> semver_parsed(s@) == Some((v.major, v.minor, v.patch, v.pre@)),
        r is Err ==> semver_parsed(s@) is None,
{
    match semver::Version::parse(s) {
        Ok(v) => Ok(
            RawVersion {
                major: v.major,
                minor: v.minor,
                patch: v.patch,
                pre: v.pre.as_str().to_string(),
            },
        ),
        Err(e) => Err(e),
    }
}

/// Index of the first dot, or the length when there is none.
pub open spec fn first_dot(s: Seq<char>) -> nat
    decreases s.len(),
{
    if s.len() == 0 {
        0
    } else if s[0] == '.' {
        0
    } else {
        1 + first_dot(s.skip(1))
    }
}

proof fn lemma_first_dot_at(s: Seq<char>, i: int)
    requires
        0 <= i <= s.len(),
        forall|j: int| 0 <= j < i ==> s[j] != '.',
        i < s.len() ==> s[i] == '.',
        i == s.len() ==> forall|j: int| 0 <= j < s.len() ==> s[j] != '.',
    ensures
        first_dot(s) == i,
    decreases s.len(),
{
    if s.len() > 0 && i > 0 {
        lemma_first_dot_at(s.skip(1), i - 1);
    }
}

/// The dot-separated identifiers of a pre-release text; the empty text
/// holds none.
pub open spec fn split_dots(s: Seq<char>) -> Seq<Seq<char>>
    decreases s.len(),
{
    if s.len() == 0 {
        seq![]
    } else {
        let i = first_dot(s) as int;
        if i >= s.len() {
            seq![s]
        } else {
            seq![s.take(i)] + split_dots(s.skip(i + 1))
        }
    }
}

fn find_dot(s: &str) -> (r: usize)
    ensures
        r == first_dot(s@),
        r <= s@.len(),
{
    let len = s.unicode_len();
    let mut i: usize = 0;
    while i < len
        invariant
            0 <= i <= len,
            len == s@.len(),
            forall|j: int| 0 <= j < i ==> s@[j] != '.',
        decreases len - i,
    {
        if s.get_char(i) == '.' {
            proof {
                lemma_first_dot_at(s@, i as int);
            }
            return i;
        }
        i = i + 1;
    }
    proof {
        lemma_first_dot_at(s@, len as int);
    }
    len
}

/// Splits a pre-release text into its dot-separated identifiers.
pub fn split_pre(s: &str) -> (r: Vec<String>)
    ensures
        r.deep_view() == split_dots(s@),
    decreases s@.len(),
{
    let len = s.unicode_len();
    if len == 0 {
        let r: Vec<String> = Vec::new();
        proof {
            assert(r.deep_view() =~~= split_dots(s@));
        }
        return r;
    }
    let i = find_dot(s);
    if i == len {
        let mut r: Vec<String> = Vec::new();
        r.push(String::from_str(s));
        proof {
            assert(r.deep_view() =~~= split_dots(s@));
        }
        r
    } else {
        let head = s.substring_char(0, i);
        let tail = s.substring_char(i + 1, len);
        proof {
            assert(tail@ =~= s@.skip(i + 1));
        }
        let mut r = split_pre(tail);
        r.insert(0, String::from_str(head));
        proof {
            assert(r.deep_view() =~~= seq![head@] + split_dots(tail@));
            assert(head@ == s@.take(i as int));
            assert(r.deep_view() =~~= split_dots(s@));
        }
        r
    }
}

/// Parses version text through the `semver` crate into the plain-value
/// model. Returns `VersionParse` exactly when the text is not a valid
/// semantic version.
pub fn parse_version(s: &str) -> (r: Result<Version, CliError>)
    ensures
        match semver_parsed(s@) {
            Some(parts) => r matches Ok(v) && v@.major == parts.0 && v@.minor == parts.1
                && v@.patch == parts.2 && v@.pre == split_dots(parts.3),
            None => r == Err::<Version, CliError>(CliError::VersionParse),
        },
{
    match parse_semver(s) {
        Ok(raw) => {
            let pre = split_pre(raw.pre.as_str());
            Ok(Version { major: raw.major, minor: raw.minor, patch: raw.patch, pre })
        },
        Err(_) => Err(CliError::VersionParse),
    }
}

// ---------------------------------------------------------------------------
// Numeric-identifier arithmetic
// ---------------------------------------------------------------------------
/// The digit string with its leading zeros removed.
pub open spec fn strip0(s: Seq<char>) -> Seq<char>
    decreases s.len(),
{
    if s.len() > 0 && s[0] == '0' {
        strip0(s.skip(1))
    } else {
        s
    }
}

proof fn lemma_strip0(s: Seq<char>)
    ensures
        num_val(strip0(s)) == num_val(s),
        strip0(s).len() <= s.len(),
        strip0(s).len() > 0 ==> strip0(s)[0] != '0',
        (forall|j: int| 0 <= j < s.len() ==> is_digit(s[j])) ==> (forall|j: int|
            0 <= j < strip0(s).len() ==> is_digit(strip0(s)[j])),
    decreases s.len(),
{
    if s.len() > 0 && s[0] == '0' {
        lemma_strip0(s.skip(1));
        assert(digit_val('0') == 0);
    }
}

proof fn lemma_pow10_pos(n: nat)
    ensures
        pow10(n) >= 1,
    decreases n,
{
    if n > 0 {
        lemma_pow10_pos((n - 1) as nat);
    }
}

proof fn lemma_pow10_mono(m: nat, n: nat)
    requires
        m <= n,
    ensures
        pow10(m) <= pow10(n),
    decreases n,
{
    if m < n {
        lemma_pow10_mono(m, (n - 1) as nat);
        lemma_pow10_pos((n - 1) as nat);
    }
}

proof fn lemma_num_val_upper(s: Seq<char>)
    requires
        forall|j: int| 0 <= j < s.len() ==> is_digit(s[j]),
    ensures
        num_val(s) < pow10(s.len()),
    decreases s.len(),
{
    if s.len() > 0 {
        let d = digit_val(s[0]);
        let p = pow10((s.len() - 1) as nat);
        assert(forall|j: int| 0 <= j < s.skip(1).len() ==> is_digit(s.skip(1)[j]));
        lemma_num_val_upper(s.skip(1));
        assert(d <= 9);
        assert(d * p <= 9 * p) by (nonlinear_arith)
            requires
                d <= 9,
                p >= 0,
        ;
        assert(10 * p == 9 * p + p) by (nonlinear_arith);
    }
}

proof fn lemma_num_val_lower(s: Seq<char>)
    requires
        forall|j: int| 0 <= j < s.len() ==> is_digit(s[j]),
        s.len() > 0,
        s[0] != '0',
    ensures
        num_val(s) >= pow10((s.len() - 1) as nat),
{
    let d = digit_val(s[0]);
    let p = pow10((s.len() - 1) as nat);
    assert(is_digit(s[0]));
    assert(d >= 1);
    assert(d * p >= 1 * p) by (nonlinear_arith)
        requires
            d >= 1,
            p >= 0,
    ;
}

proof fn lemma_samelen_lex(a: Seq<char>, b: Seq<char>)
    requires
        forall|j: int| 0 <= j < a.len() ==> is_digit(a[j]),
        forall|j: int| 0 <= j < b.len() ==> is_digit(b[j]),
        a.len() == b.len(),
    ensures
        lex_lt(a, b) == (num_val(a) < num_val(b)),
    decreases a.len(),
{
    if a.len() == 0 {
    } else {
        let p = pow10((a.len() - 1) as nat);
        let da = digit_val(a[0]);
        let db = digit_val(b[0]);
        assert(forall|j: int| 0 <= j < a.skip(1).len() ==> is_digit(a.skip(1)[j]));
        assert(forall|j: int| 0 <= j < b.skip(1).len() ==> is_digit(b.skip(1)[j]));
        if a[0] == b[0] {
            lemma_samelen_lex(a.skip(1), b.skip(1));
        } else {
            assert(is_digit(a[0]));
            assert(is_digit(b[0]));
            lemma_num_val_upper(a.skip(1));
            lemma_num_val_upper(b.skip(1));
            if da < db {
                assert((da + 1) * p <= db * p) by (nonlinear_arith)
                    requires
                        da + 1 <= db,
                        p >= 0,
                ;
                assert((da + 1) * p == da * p + p) by (nonlinear_arith);
            } else {
                assert(db < da);
                assert((db + 1) * p <= da * p) by (nonlinear_arith)
                    requires
                        db + 1 <= da,
                        p >= 0,
                ;
                assert((db + 1) * p == db * p + p) by (nonlinear_arith);
            }
        }
    }
}

// ---------------------------------------------------------------------------
// Executable comparison
// ---------------------------------------------------------------------------
fn is_num_exec(s: &str) -> (r: bool)
    ensures
        r == is_num_ident(s@),
{
    let len = s.unicode_len();
    if len == 0 {
        return false;
    }
    let mut i: usize = 0;
    while i < len
        invariant
            0 <= i <= len,
            len == s@.len(),
            forall|j: int| 0 <= j < i ==> is_digit(s@[j]),
        decreases len - i,
    {
        let c = s.get_char(i) as u32;
        if c < 48 || c > 57 {
            return false;
        }
        i = i + 1;
    }
    true
}

fn strip0_exec(s: &str) -> (r: &str)
    ensures
        r@ == strip0(s@),
    decreases s@.len(),
{
    let len = s.unicode_len();
    if len > 0 && s.get_char(0) == '0' {
        let rest = s.substring_char(1, len);
        proof {
            assert(rest@ =~= s@.skip(1));
        }
        strip0_exec(rest)
    } else {
        s
    }
}

fn lex_lt_exec(a: &str, b: &str) -> (r: bool)
    ensures
        r == lex_lt(a@, b@),
    decreases a@.len() + b@.len(),
{
    let alen = a.unicode_len();
    let blen = b.unicode_len();
    if blen == 0 {
        false
    } else if alen == 0 {
        true
    } else {
        let ca = a.get_char(0);
        let cb = b.get_char(0);
        if ca != cb {
            (ca as u32) < (cb as u32)
        } else {
            let ta = a.substring_char(1, alen);
            let tb = b.substring_char(1, blen);
            proof {
                assert(ta@ =~= a@.skip(1));
                assert(tb@ =~= b@.skip(1));
            }
            lex_lt_exec(ta, tb)
        }
    }
}

fn num_lt_exec(a: &str, b: &str) -> (r: bool)
    requires
        is_num_ident(a@),
        is_num_ident(b@),
    ensures
        r == (num_val(a@) < num_val(b@)),
{
    proof {
        lemma_strip0(a@);
        lemma_strip0(b@);
    }
    let sa = strip0_exec(a);
    let sb = strip0_exec(b);
    let la = sa.unicode_len();
    let lb = sb.unicode_len();
    if la < lb {
        proof {
            lemma_num_val_upper(sa@);
            lemma_num_val_lower(sb@);
            lemma_pow10_mono(la as nat, (lb - 1) as nat);
        }
        true
    } else if lb < la {
        proof {
            lemma_num_val_upper(sb@);
            lemma_num_val_lower(sa@);
            lemma_pow10_mono(lb as nat, (la - 1) as nat);
        }
        false
    } else {
        proof {
            lemma_samelen_lex(sa@, sb@);
        }
        lex_lt_exec(sa, sb)
    }
}

fn ident_lt_exec(a: &str, b: &str) -> (r: bool)
    ensures
        r == ident_lt(a@, b@),
{
    let na = is_num_exec(a);
    let nb = is_num_exec(b);
    if na && nb {
        num_lt_exec(a, b)
    } else if na {
        true
    } else if nb {
        false
    } else {
        lex_lt_exec(a, b)
    }
}

fn ident_eq_exec(a: &str, b: &str) -> (r: bool)
    ensures
        r == ident_eq(a@, b@),
{
    let na = is_num_exec(a);
    let nb = is_num_exec(b);
    if na && nb {
        let lt = num_lt_exec(a, b);
        let gt = num_lt_exec(b, a);
        !lt && !gt
    } else if !na && !nb {
        str_eq(a, b)
    } else {
        false
    }
}

fn idents_lt_exec(a: &Vec<String>, b: &Vec<String>) -> (r: bool)
    ensures
        r == idents_lt(a.deep_view(), b.deep_view()),
{
    let ghost av = a.deep_view();
    let ghost bv = b.deep_view();
    proof {
        assert(av.skip(0) =~~= av);
        assert(bv.skip(0) =~~= bv);
    }
    let mut i: usize = 0;
    loop
        invariant
            0 <= i <= a@.len(),
            i <= b@.len(),
            av == a.deep_view(),
            bv == b.deep_view(),
            av.len() == a@.len(),
            bv.len() == b@.len(),
            idents_lt(av, bv) == idents_lt(av.skip(i as int), bv.skip(i as int)),
        decreases a@.len() - i,
    {
        if i == a.len() {
            return b.len() > i;
        }
        if i == b.len() {
            return false;
        }
        proof {
            assert(av.skip(i as int)[0] == av[i as int]);
            assert(bv.skip(i as int)[0] == bv[i as int]);
        }
        if ident_eq_exec(a[i].as_str(), b[i].as_str()) {
            proof {
                assert(av.skip(i as int).skip(1) =~~= av.skip(i + 1));
                assert(bv.skip(i as int).skip(1) =~~= bv.skip(i + 1));
            }
            i = i + 1;
        } else {
            return ident_lt_exec(a[i].as_str(), b[i].as_str());
        }
    }
}

// ---------------------------------------------------------------------------
// The ordering is total
// ---------------------------------------------------------------------------
/// Versions of equal precedence: the same numbers, and pairwise equal
/// pre-release identifiers (numeric ones by value).
pub open spec fn version_equiv(a: VersionView, b: VersionView) -> bool {
    a.major == b.major && a.minor == b.minor && a.patch == b.patch && a.pre.len() == b.pre.len()
        && (forall|j: int| 0 <= j < a.pre.len() ==> ident_eq(a.pre[j], b.pre[j]))
}

proof fn lemma_lex_connected(a: Seq<char>, b: Seq<char>)
    ensures
        lex_lt(a, b) || lex_lt(b, a) || a == b,
    decreases a.len() + b.len(),
{
    if a.len() == 0 && b.len() == 0 {
        assert(a =~= b);
    } else if a.len() > 0 && b.len() > 0 && a[0] == b[0] {
        lemma_lex_connected(a.skip(1), b.skip(1));
        if !lex_lt(a, b) && !lex_lt(b, a) {
            assert(a =~= seq![a[0]] + a.skip(1));
            assert(b =~= seq![b[0]] + b.skip(1));
        }
    }
}

proof fn lemma_lex_asym(a: Seq<char>, b: Seq<char>)
    ensures
        !(lex_lt(a, b) && lex_lt(b, a)),
    decreases a.len() + b.len(),
{
    if a.len() > 0 && b.len() > 0 && a[0] == b[0] {
        lemma_lex_asym(a.skip(1), b.skip(1));
    }
}

proof fn lemma_lex_irrefl(a: Seq<char>)
    ensures
        !lex_lt(a, a),
    decreases a.len(),
{
    if a.len() > 0 {
        lemma_lex_irrefl(a.skip(1));
    }
}

proof fn lemma_ident_connected(a: Seq<char>, b: Seq<char>)
    ensures
        ident_lt(a, b) || ident_lt(b, a) || ident_eq(a, b),
{
    if !is_num_ident(a) && !is_num_ident(b) {
        lemma_lex_connected(a, b);
    }
}

proof fn lemma_ident_asym(a: Seq<char>, b: Seq<char>)
    ensures
        !(ident_lt(a, b) && ident_lt(b, a)),
        ident_eq(a, b) ==> !ident_lt(a, b),
{
    lemma_lex_asym(a, b);
    if ident_eq(a, b) && !is_num_ident(a) && !is_num_ident(b) {
        lemma_lex_irrefl(a);
    }
}

/// Identifier lists of equal precedence.
pub open spec fn idents_equiv(a: Seq<Seq<char>>, b: Seq<Seq<char>>) -> bool {
    a.len() == b.len() && (forall|j: int| 0 <= j < a.len() ==> ident_eq(a[j], b[j]))
}

proof fn lemma_idents_connected(a: Seq<Seq<char>>, b: Seq<Seq<char>>)
    ensures
        idents_lt(a, b) || idents_lt(b, a) || idents_equiv(a, b),
    decreases a.len(),
{
    if a.len() > 0 && b.len() > 0 {
        if ident_eq(a[0], b[0]) {
            lemma_idents_connected(a.skip(1), b.skip(1));
            if idents_equiv(a.skip(1), b.skip(1)) {
                assert(forall|j: int| 1 <= j < a.len() ==> a[j] == a.skip(1)[j - 1]);
                assert(forall|j: int| 1 <= j < b.len() ==> b[j] == b.skip(1)[j - 1]);
                assert(idents_equiv(a, b));
            }
        } else {
            lemma_ident_connected(a[0], b[0]);
        }
    }
}

proof fn lemma_idents_asym(a: Seq<Seq<char>>, b: Seq<Seq<char>>)
    ensures
        !(idents_lt(a, b) && idents_lt(b, a)),
    decreases a.len(),
{
    if a.len() > 0 && b.len() > 0 {
        if ident_eq(a[0], b[0]) {
            lemma_idents_asym(a.skip(1), b.skip(1));
        } else {
            lemma_ident_asym(a[0], b[0]);
            lemma_ident_asym(b[0], a[0]);
            assert(!(ident_eq(b[0], a[0])));
        }
    }
}

/// Precedence is connected: any two versions are ordered one way or the
/// other, or are of equal precedence. With `lemma_version_order_asym` and
/// `lemma_version_order_trans` the comparison totally orders versions up to
/// equal precedence, as the reinstall decision needs.
pub proof fn lemma_version_order_total(a: VersionView, b: VersionView)
    ensures
        version_lt(a, b) || version_lt(b, a) || version_equiv(a, b),
{
    if a.major == b.major && a.minor == b.minor && a.patch == b.patch {
        lemma_idents_connected(a.pre, b.pre);
    }
}

/// Precedence is asymmetric: no two versions are each older than the other,
/// and versions of equal precedence are ordered neither way (equal counts
/// as up to date).
pub proof fn lemma_version_order_asym(a: VersionView, b: VersionView)
    ensures
        !(version_lt(a, b) && version_lt(b, a)),
        version_equiv(a, b) ==> !version_lt(a, b),
{
    lemma_idents_asym(a.pre, b.pre);
    if version_equiv(a, b) && a.pre.len() > 0 {
        lemma_idents_equiv_not_lt(a.pre, b.pre);
    }
}

proof fn lemma_idents_equiv_not_lt(a: Seq<Seq<char>>, b: Seq<Seq<char>>)
    requires
        idents_equiv(a, b),
    ensures
        !idents_lt(a, b),
    decreases a.len(),
{
    if a.len() > 0 {
        assert(ident_eq(a[0], b[0]));
        assert(forall|j: int| 0 <= j < a.skip(1).len() ==> a.skip(1)[j] == a[j + 1]);
        assert(forall|j: int| 0 <= j < b.skip(1).len() ==> b.skip(1)[j] == b[j + 1]);
        lemma_idents_equiv_not_lt(a.skip(1), b.skip(1));
    }
}

proof fn lemma_lex_trans(a: Seq<char>, b: Seq<char>, c: Seq<char>)
    requires
        lex_lt(a, b),
        lex_lt(b, c),
    ensures
        lex_lt(a, c),
    decreases a.len() + b.len() + c.len(),
{
    if a.len() > 0 && b.len() > 0 && c.len() > 0 && a[0] == b[0] && b[0] == c[0] {
        lemma_lex_trans(a.skip(1), b.skip(1), c.skip(1));
    }
}

proof fn lemma_ident_trans(a: Seq<char>, b: Seq<char>, c: Seq<char>)
    requires
        ident_lt(a, b),
        ident_lt(b, c),
    ensures
        ident_lt(a, c),
{
    if !is_num_ident(a) && !is_num_ident(b) && !is_num_ident(c) {
        lemma_lex_trans(a, b, c);
    }
}

proof fn lemma_ident_eq_lt(a: Seq<char>, b: Seq<char>, c: Seq<char>)
    requires
        ident_eq(a, b),
        ident_lt(b, c),
    ensures
        ident_lt(a, c),
{
}

proof fn lemma_ident_lt_eq(a: Seq<char>, b: Seq<char>, c: Seq<char>)
    requires
        ident_lt(a, b),
        ident_eq(b, c),
    ensures
        ident_lt(a, c),
{
}

proof fn lemma_ident_eq_trans(a: Seq<char>, b: Seq<char>, c: Seq<char>)
    requires
        ident_eq(a, b),
        ident_eq(b, c),
    ensures
        ident_eq(a, c),
{
}

proof fn lemma_idents_trans(a: Seq<Seq<char>>, b: Seq<Seq<char>>, c: Seq<Seq<char>>)
    requires
        idents_lt(a, b),
        idents_lt(b, c),
    ensures
        idents_lt(a, c),
    decreases a.len() + b.len() + c.len(),
{
    if a.len() == 0 {
    } else if b.len() == 0 || c.len() == 0 {
    } else {
        let a0 = a[0];
        let b0 = b[0];
        let c0 = c[0];
        if ident_eq(a0, b0) && ident_eq(b0, c0) {
            lemma_ident_eq_trans(a0, b0, c0);
            lemma_idents_trans(a.skip(1), b.skip(1), c.skip(1));
        } else if ident_eq(a0, b0) {
            lemma_ident_eq_lt(a0, b0, c0);
            lemma_ident_asym(a0, c0);
        } else if ident_eq(b0, c0) {
            lemma_ident_lt_eq(a0, b0, c0);
            lemma_ident_asym(a0, c0);
        } else {
            lemma_ident_trans(a0, b0, c0);
            lemma_ident_asym(a0, c0);
        }
    }
}

/// Precedence is transitive. With `lemma_version_order_total` and
/// `lemma_version_order_asym` the comparison is a strict total ordering of
/// versions up to equal precedence.
pub proof fn lemma_version_order_trans(a: VersionView, b: VersionView, c: VersionView)
    requires
        version_lt(a, b),
        version_lt(b, c),
    ensures
        version_lt(a, c),
{
    if a.major == b.major && b.major == c.major && a.minor == b.minor && b.minor == c.minor
        && a.patch == b.patch && b.patch == c.patch {
        if a.pre.len() > 0 && b.pre.len() > 0 && c.pre.len() > 0 {
            lemma_idents_trans(a.pre, b.pre, c.pre);
        }
    }
}

impl Version {
    /// Semantic-version precedence: true exactly when `self` is strictly
    /// older than `other`. Equal versions count as up to date either way.
    pub fn precedes(&self, other: &Version) -> (r: bool)
        ensures
            r == version_lt(self@, other@),
    {
        if self.major != other.major {
            return self.major < other.major;
        }
        if self.minor != other.minor {
            return self.minor < other.minor;
        }
        if self.patch != other.patch {
            return self.patch < other.patch;
        }
        if self.pre.len() == 0 {
            return false;
        }
        if other.pre.len() == 0 {
            return true;
        }
        idents_lt_exec(&self.pre, &other.pre)
    }
}

} // verus!
