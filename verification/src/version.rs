//! Release versions and their order.
use vstd::prelude::*;

use crate::formatting;
use crate::text;

verus! {

/// A semantic version.
#[derive(Debug, PartialEq, Eq)]
pub struct Version {
    pub major: u64,
    pub minor: u64,
    pub patch: u64,
    /// The pre-release identifiers; empty for a release.
    pub pre: String,
    /// The build metadata; empty where there is none.
    pub build: String,
}

/// The value of a [`Version`].
pub struct VersionView {
    pub major: u64,
    pub minor: u64,
    pub patch: u64,
    pub pre: Seq<char>,
    pub build: Seq<char>,
}

impl View for Version {
    type V = VersionView;

    open spec fn view(&self) -> VersionView {
        VersionView {
            major: self.major,
            minor: self.minor,
            patch: self.patch,
            pre: self.pre@,
            build: self.build@,
        }
    }
}

/// How one value stands to another.
#[derive(Clone, Copy, Debug, PartialEq, Eq, Structural)]
pub enum Order {
    Less,
    Equal,
    Greater,
}

/// The version that a text is, or what is wrong with it.
pub uninterp spec fn parsed_version(text: Seq<char>) -> Result<VersionView, Seq<char>>;

/// How one text of pre-release identifiers stands to another.
pub uninterp spec fn prerelease_order(a: Seq<char>, b: Seq<char>) -> Order;

/// How one text of build metadata stands to another.
pub uninterp spec fn build_order(a: Seq<char>, b: Seq<char>) -> Order;

/// `semver::Version::parse`: the version, field by field, or the message of its
/// error. Nothing is claimed of which texts are versions.
#[verifier::external_body]
pub(crate) fn parse_version(text: &str) -> (r: Result<Version, String>)
    ensures
        match r {
            Ok(version) => parsed_version(text@) == Ok::<VersionView, Seq<char>>(version@),
            Err(reason) => parsed_version(text@) == Err::<VersionView, Seq<char>>(reason@),
        },
{
    match semver::Version::parse(text) {
        Ok(version) => Ok(
            Version {
                major: version.major,
                minor: version.minor,
                patch: version.patch,
                pre: version.pre.as_str().to_owned(),
                build: version.build.as_str().to_owned(),
            },
        ),
        Err(error) => Err(error.to_string()),
    }
}

/// `Ord::cmp` of `semver::Prerelease`, on the identifiers that the two texts
/// are; a text that is none counts as empty. Equal texts are equal.
#[verifier::external_body]
fn compare_prerelease(a: &str, b: &str) -> (r: Order)
    ensures
        r == prerelease_order(a@, b@),
        a@ == b@ ==> r == Order::Equal,
{
    let left = semver::Prerelease::new(a).unwrap_or_default();
    let right = semver::Prerelease::new(b).unwrap_or_default();
    match left.cmp(&right) {
        std::cmp::Ordering::Less => Order::Less,
        std::cmp::Ordering::Equal => Order::Equal,
        std::cmp::Ordering::Greater => Order::Greater,
    }
}

/// `Ord::cmp` of `semver::BuildMetadata`, on the metadata that the two texts
/// are; a text that is none counts as empty. Equal texts are equal.
#[verifier::external_body]
fn compare_build(a: &str, b: &str) -> (r: Order)
    ensures
        r == build_order(a@, b@),
        a@ == b@ ==> r == Order::Equal,
{
    let left = semver::BuildMetadata::new(a).unwrap_or_default();
    let right = semver::BuildMetadata::new(b).unwrap_or_default();
    match left.cmp(&right) {
        std::cmp::Ordering::Less => Order::Less,
        std::cmp::Ordering::Equal => Order::Equal,
        std::cmp::Ordering::Greater => Order::Greater,
    }
}

/// The order of two numbers.
pub open spec fn number_order(a: u64, b: u64) -> Order {
    if a < b {
        Order::Less
    } else if a == b {
        Order::Equal
    } else {
        Order::Greater
    }
}

/// The first order that decides.
pub open spec fn first_unequal(a: Order, b: Order) -> Order {
    if a == Order::Equal {
        b
    } else {
        a
    }
}

/// The order of the three numbers of two versions.
pub open spec fn numbers_order(a: VersionView, b: VersionView) -> Order {
    first_unequal(
        number_order(a.major, b.major),
        first_unequal(number_order(a.minor, b.minor), number_order(a.patch, b.patch)),
    )
}

/// The order of two versions: by their numbers, then by their pre-release
/// identifiers, then by their build metadata.
pub open spec fn version_order(a: VersionView, b: VersionView) -> Order {
    first_unequal(
        numbers_order(a, b),
        first_unequal(prerelease_order(a.pre, b.pre), build_order(a.build, b.build)),
    )
}

/// A version as a text.
pub open spec fn version_text(v: VersionView) -> Seq<char> {
    formatting::decimal(v.major as int) + "."@ + formatting::decimal(v.minor as int) + "."@
        + formatting::decimal(v.patch as int) + (if v.pre.len() > 0 {
        "-"@ + v.pre
    } else {
        Seq::empty()
    }) + (if v.build.len() > 0 {
        "+"@ + v.build
    } else {
        Seq::empty()
    })
}

/// What a release tag says after its leading `v`.
pub open spec fn tag_version(tag: Seq<char>) -> Seq<char> {
    if tag.len() > 0 && tag[0] == 'v' {
        tag.drop_first()
    } else {
        tag
    }
}

/// The order of two numbers.
fn compare_numbers(a: u64, b: u64) -> (r: Order)
    ensures
        r == number_order(a, b),
{
    if a < b {
        Order::Less
    } else if a == b {
        Order::Equal
    } else {
        Order::Greater
    }
}

impl Version {
    /// How this version stands to another.
    pub fn order(&self, other: &Version) -> (r: Order)
        ensures
            r == version_order(self@, other@),
            self@.pre == other@.pre && self@.build == other@.build ==> r == numbers_order(
                self@,
                other@,
            ),
    {
        let major: Order = compare_numbers(self.major, other.major);
        if major != Order::Equal {
            return major;
        }
        let minor: Order = compare_numbers(self.minor, other.minor);
        if minor != Order::Equal {
            return minor;
        }
        let patch: Order = compare_numbers(self.patch, other.patch);
        if patch != Order::Equal {
            return patch;
        }
        let pre: Order = compare_prerelease(self.pre.as_str(), other.pre.as_str());
        if pre != Order::Equal {
            return pre;
        }
        compare_build(self.build.as_str(), other.build.as_str())
    }

    /// The version as a text.
    pub fn to_text(&self) -> (r: String)
        ensures
            r@ == version_text(self@),
    {
        let mut out: String = String::new();
        formatting::push_decimal(&mut out, self.major);
        out.append(".");
        formatting::push_decimal(&mut out, self.minor);
        out.append(".");
        formatting::push_decimal(&mut out, self.patch);
        let ghost numbers = out@;
        if !self.pre.as_str().is_empty() {
            out.append("-");
            out.append(self.pre.as_str());
        }
        let ghost with_pre = out@;
        if !self.build.as_str().is_empty() {
            out.append("+");
            out.append(self.build.as_str());
        }
        assert(out@ =~= version_text(self@));
        out
    }
}

/// What a release tag says after its leading `v`.
fn without_v(tag: &str) -> (r: &str)
    ensures
        r@ == tag_version(tag@),
{
    let limit: usize = tag.as_bytes().len();
    let mut first: bool = true;
    let mut marked: bool = false;
    for c in it: tag.chars()
        invariant
            it.seq() == tag@,
            first <==> it.index() == 0,
            marked <==> it.index() > 0 && tag@[0] == 'v',
    {
        if first {
            marked = c == 'v';
            first = false;
        }
    }
    if marked {
        proof {
            text::lemma_byte_pos_mono(tag@, 0, 0);
            text::lemma_byte_pos_step(tag@, 0);
            text::lemma_char_bytes('v');
            text::lemma_char_pos(tag@, 1);
            text::lemma_ends_on_boundary(tag@);
            text::lemma_byte_pos_mono(tag@, 1, tag@.len() as int);
            assert(tag@.subrange(1, tag@.len() as int) =~= tag@.drop_first());
        }
        text::slice(tag, 1, limit)
    } else {
        tag
    }
}

/// The version that a release tag names, with or without a leading `v`, or what
/// is wrong with it.
pub fn parse_release_version(tag: &str) -> (r: Result<Version, String>)
    ensures
        match r {
            Ok(version) => parsed_version(tag_version(tag@)) == Ok::<VersionView, Seq<char>>(
                version@,
            ),
            Err(reason) => parsed_version(tag_version(tag@)) == Err::<VersionView, Seq<char>>(
                reason@,
            ),
        },
{
    parse_version(without_v(tag))
}

} // verus!
