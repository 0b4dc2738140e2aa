//! Semantic versions, as the `semver` crate reads and orders them, and the
//! version strings of apps that may or may not be semantic.
use crate::text::{spec_text_compare, text_compare, TextOrder};
use vstd::prelude::*;

verus! {

/// What `semver::Version::parse` makes of a text: nothing, or the three
/// numbers, the pre-release and the build metadata.
pub uninterp spec fn semver_parse(text: Seq<char>) -> Option<(u64, u64, u64, Seq<char>, Seq<char>)>;

/// How `semver::Version` orders the versions that two texts parse to: -1 where
/// the first is the lower, 0 where they are equal, 1 where it is the higher;
/// nothing where one of them is no version.
pub uninterp spec fn semver_order(a: Seq<char>, b: Seq<char>) -> Option<i8>;

/// Whether the requirement that the first text parses to
/// (`semver::VersionReq`) matches the version that the second parses to;
/// nothing where either fails to parse.
pub uninterp spec fn semver_accepts(requirement: Seq<char>, version: Seq<char>) -> Option<bool>;

/// The three numbers of a version text; zeros where it is no version.
pub open spec fn spec_core(text: Seq<char>) -> (u64, u64, u64) {
    match semver_parse(text) {
        Some(f) => (f.0, f.1, f.2),
        None => (0, 0, 0),
    }
}

/// The pre-release of a version text; empty where it has none.
pub open spec fn spec_pre(text: Seq<char>) -> Seq<char> {
    match semver_parse(text) {
        Some(f) => f.3,
        None => Seq::empty(),
    }
}

/// The order of triples of numbers: by the first, then the second, then the
/// third.
pub open spec fn spec_core_less(x: (u64, u64, u64), y: (u64, u64, u64)) -> bool {
    x.0 < y.0 || (x.0 == y.0 && (x.1 < y.1 || (x.1 == y.1 && x.2 < y.2)))
}

/// What the `semver` crate documents of its order and a few lines can say:
/// the three numbers decide where they differ; where they agree, a
/// pre-release is lower than the release.
pub open spec fn spec_order_fits(a: Seq<char>, b: Seq<char>, o: i8) -> bool {
    &&& spec_core_less(spec_core(a), spec_core(b)) ==> o == -1
    &&& spec_core_less(spec_core(b), spec_core(a)) ==> o == 1
    &&& spec_core(a) == spec_core(b) && spec_pre(a).len() > 0 && spec_pre(b).len() == 0 ==> o
        == -1
    &&& spec_core(a) == spec_core(b) && spec_pre(a).len() == 0 && spec_pre(b).len() > 0 ==> o
        == 1
}

/// Every entry is a semantic version.
pub open spec fn all_valid(list: Seq<Seq<char>>) -> bool {
    forall|i: int| 0 <= i < list.len() ==> semver_parse(#[trigger] list[i]) is Some
}

/// The numbers of the entries descend: no entry has lower numbers than one
/// that stands after it.
pub open spec fn core_descending(list: Seq<Seq<char>>) -> bool {
    forall|i: int, j: int|
        0 <= i < j < list.len() ==> !spec_core_less(
            spec_core(#[trigger] list[i]),
            spec_core(#[trigger] list[j]),
        )
}

/// Calls `semver::Version::parse` and hands out the fields of the version.
/// Trusted: the call succeeds exactly where `semver_parse` names a version,
/// and the fields are those it names.
#[verifier::external_body]
fn parse_fields(text: &str) -> (r: Result<(u64, u64, u64, String, String), semver::Error>)
    ensures
        r is Ok <==> semver_parse(text@) is Some,
        r matches Ok(f) ==> semver_parse(text@) == Some((f.0, f.1, f.2, f.3@, f.4@)),
{
    semver::Version::parse(text).map(
        |v| (v.major, v.minor, v.patch, v.pre.as_str().to_string(), v.build.as_str().to_string()),
    )
}

/// Parses both texts with `semver::Version::parse` and compares the versions
/// with `Ord::cmp`. Trusted: the answer is the one `semver_order` names; there
/// is one exactly where both texts parse; it is -1, 0 or 1; and it is what
/// the crate documents of its order: the numbers decide first, and with equal
/// numbers a pre-release is lower than the release.
#[verifier::external_body]
fn version_order(a: &str, b: &str) -> (r: Option<i8>)
    ensures
        r == semver_order(a@, b@),
        r is Some <==> (semver_parse(a@) is Some && semver_parse(b@) is Some),
        r matches Some(o) ==> -1 <= o <= 1,
        r matches Some(o) ==> spec_order_fits(a@, b@, o),
{
    match (semver::Version::parse(a), semver::Version::parse(b)) {
        (Ok(x), Ok(y)) => Some(
            match x.cmp(&y) {
                std::cmp::Ordering::Less => -1,
                std::cmp::Ordering::Equal => 0,
                std::cmp::Ordering::Greater => 1,
            },
        ),
        _ => None,
    }
}

/// A semantic version: the text it was read from, and its parts.
pub struct SemVer {
    text: String,
    major: u64,
    minor: u64,
    patch: u64,
    pre: String,
    build: String,
}

/// A semantic version as contracts see it.
pub struct SemVerView {
    pub text: Seq<char>,
    pub major: u64,
    pub minor: u64,
    pub patch: u64,
    pub pre: Seq<char>,
    pub build: Seq<char>,
}

impl SemVerView {
    /// The parts are those that the text parses to.
    pub open spec fn wf(self) -> bool {
        semver_parse(self.text) == Some((self.major, self.minor, self.patch, self.pre, self.build))
    }
}

impl View for SemVer {
    type V = SemVerView;

    closed spec fn view(&self) -> SemVerView {
        SemVerView {
            text: self.text@,
            major: self.major,
            minor: self.minor,
            patch: self.patch,
            pre: self.pre@,
            build: self.build@,
        }
    }
}

/// Whether an upgrade from `old` to `new` stays within one release line: on
/// the 0.x lines the minor number has to agree as well as the major one.
pub open spec fn spec_major_compatible(old: SemVerView, new: SemVerView) -> bool {
    if old.major == 0 {
        old.major == new.major && old.minor == new.minor
    } else {
        old.major == new.major
    }
}

impl SemVer {
    /// Reads a semantic version.
    pub fn parse(text: &str) -> (r: Result<SemVer, semver::Error>)
        ensures
            r is Ok <==> semver_parse(text@) is Some,
            r matches Ok(v) ==> v@.wf() && v@.text == text@,
    {
        match parse_fields(text) {
            Ok((major, minor, patch, pre, build)) => Ok(
                SemVer { text: text.to_owned(), major, minor, patch, pre, build },
            ),
            Err(e) => Err(e),
        }
    }

    /// Whether a text is a semantic version.
    pub fn is_valid(text: &str) -> (r: bool)
        ensures
            r == semver_parse(text@) is Some,
    {
        parse_fields(text).is_ok()
    }

    pub fn text(&self) -> (r: &String)
        ensures
            r@ == self@.text,
    {
        &self.text
    }

    pub fn major(&self) -> (r: u64)
        ensures
            r == self@.major,
    {
        self.major
    }

    pub fn minor(&self) -> (r: u64)
        ensures
            r == self@.minor,
    {
        self.minor
    }

    pub fn patch(&self) -> (r: u64)
        ensures
            r == self@.patch,
    {
        self.patch
    }

    pub fn pre(&self) -> (r: &String)
        ensures
            r@ == self@.pre,
    {
        &self.pre
    }

    pub fn build(&self) -> (r: &String)
        ensures
            r@ == self@.build,
    {
        &self.build
    }

    /// Whether `new` is on the release line of `self`.
    pub fn major_compatible(&self, new: &SemVer) -> (r: bool)
        ensures
            r == spec_major_compatible(self@, new@),
    {
        if self.major == 0 {
            self.major == new.major && self.minor == new.minor
        } else {
            self.major == new.major
        }
    }
}

/// The order of two version texts: that of the versions where both are
/// semantic, else that of the texts.
pub open spec fn spec_version_order(a: Seq<char>, b: Seq<char>) -> TextOrder {
    match semver_order(a, b) {
        Some(o) => if o < 0 {
            TextOrder::Less
        } else if o == 0 {
            TextOrder::Equal
        } else {
            TextOrder::Greater
        },
        None => spec_text_compare(a, b),
    }
}

/// Orders two version texts: as versions where both are semantic, else as
/// texts.
pub fn order_versions(a: &str, b: &str) -> (r: TextOrder)
    ensures
        r == spec_version_order(a@, b@),
{
    match version_order(a, b) {
        Some(o) => if o < 0 {
            TextOrder::Less
        } else if o == 0 {
            TextOrder::Equal
        } else {
            TextOrder::Greater
        },
        None => text_compare(a, b),
    }
}

/// Both texts are semantic versions, and the first is the higher.
pub open spec fn spec_is_higher(a: Seq<char>, b: Seq<char>) -> bool {
    semver_order(a, b) matches Some(o) && o > 0
}

/// Whether both texts are semantic versions and the first is the higher.
/// The three numbers of the higher one are not the lower ones.
pub fn is_higher(a: &str, b: &str) -> (r: bool)
    ensures
        r == spec_is_higher(a@, b@),
        r ==> !spec_core_less(spec_core(a@), spec_core(b@)),
        !r && semver_parse(a@) is Some && semver_parse(b@) is Some ==> !spec_core_less(
            spec_core(b@),
            spec_core(a@),
        ),
{
    match version_order(a, b) {
        Some(o) => o > 0,
        None => false,
    }
}

/// The version string of an app: a semantic version, or some other token.
pub enum CyreneVersion {
    Semver(SemVer),
    NonSemver(String),
}

impl CyreneVersion {
    /// The text of the version.
    pub open spec fn spec_text(&self) -> Seq<char> {
        match self {
            CyreneVersion::Semver(v) => v@.text,
            CyreneVersion::NonSemver(s) => s@,
        }
    }

    /// A semantic version holds the parts that its text parses to; any other
    /// token is no semantic version.
    pub open spec fn wf(&self) -> bool {
        match self {
            CyreneVersion::Semver(v) => v@.wf(),
            CyreneVersion::NonSemver(s) => semver_parse(s@) is None,
        }
    }

    /// Reads a version string: as a semantic version where it is one.
    pub fn parse(str: &str) -> (r: Self)
        ensures
            r.wf(),
            r.spec_text() == str@,
            r is Semver <==> semver_parse(str@) is Some,
    {
        match SemVer::parse(str) {
            Ok(ver) => CyreneVersion::Semver(ver),
            Err(_) => CyreneVersion::NonSemver(str.to_owned()),
        }
    }

    /// The text of the version.
    pub fn text(&self) -> (r: &String)
        ensures
            r@ == self.spec_text(),
    {
        match self {
            CyreneVersion::Semver(v) => v.text(),
            CyreneVersion::NonSemver(s) => s,
        }
    }

    /// Orders two versions: by precedence where both are semantic, else by
    /// their texts.
    pub fn cmp(&self, other: &Self) -> (r: std::cmp::Ordering)
        ensures
            (r == std::cmp::Ordering::Less) == (spec_version_order(
                self.spec_text(),
                other.spec_text(),
            ) == TextOrder::Less),
            (r == std::cmp::Ordering::Equal) == (spec_version_order(
                self.spec_text(),
                other.spec_text(),
            ) == TextOrder::Equal),
            (r == std::cmp::Ordering::Greater) == (spec_version_order(
                self.spec_text(),
                other.spec_text(),
            ) == TextOrder::Greater),
    {
        match order_versions(self.text().as_str(), other.text().as_str()) {
            TextOrder::Less => std::cmp::Ordering::Less,
            TextOrder::Equal => std::cmp::Ordering::Equal,
            TextOrder::Greater => std::cmp::Ordering::Greater,
        }
    }
}

} // verus!
