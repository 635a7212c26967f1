//! What an update does: whether there is one, where it is found, and what can
//! go wrong on the way.
use vstd::prelude::*;

use crate::formatting;
use crate::text;
use crate::version;
use crate::version::{Order, Version};

verus! {

/// A file of a release.
#[derive(Debug)]
pub struct Asset {
    pub name: String,
    pub browser_download_url: String,
}

/// A published release.
#[derive(Debug)]
pub struct Release {
    pub tag_name: String,
    pub assets: Vec<Asset>,
}

/// Where the newest release stands to the running build.
#[derive(Clone, Copy, Debug, PartialEq, Eq, Structural)]
pub enum UpdateStatus {
    /// The release is the running build.
    UpToDate,
    /// The running build is newer than the release.
    BuildIsNewer,
    /// The release is newer.
    Available,
}

/// The files that an update downloads.
#[derive(Debug)]
pub struct UpdateFiles {
    pub archive_name: String,
    pub archive_url: String,
    pub checksum_url: String,
}

/// What can stop an update.
#[derive(Debug)]
pub enum UpdateError {
    /// A version could not be read.
    Version { reason: String },
    /// The release lacks a file.
    MissingAsset { tag: String, name: String },
    /// The checksum file is not UTF-8: it stops being so at byte `at`, with
    /// `len` wrong bytes, or with an unfinished character.
    ChecksumNotText { at: usize, len: Option<usize> },
    /// The checksum file does not start with a checksum.
    InvalidChecksum,
    /// The archive has another checksum than the one that was published.
    Mismatch { expected: String, actual: String },
    /// The archive could not be read.
    Archive { reason: String },
    /// The archive holds more than one binary.
    DuplicateBinary,
    /// The archive holds no binary.
    NoBinary,
    /// There are no updates for this system.
    UnsupportedSystem,
}

/// The value of an [`UpdateError`].
pub enum UpdateErrorView {
    Version { reason: Seq<char> },
    MissingAsset { tag: Seq<char>, name: Seq<char> },
    ChecksumNotText { at: int, len: Option<int> },
    InvalidChecksum,
    Mismatch { expected: Seq<char>, actual: Seq<char> },
    Archive { reason: Seq<char> },
    DuplicateBinary,
    NoBinary,
    UnsupportedSystem,
}

impl View for UpdateError {
    type V = UpdateErrorView;

    open spec fn view(&self) -> UpdateErrorView {
        match self {
            UpdateError::Version { reason } => UpdateErrorView::Version { reason: reason@ },
            UpdateError::MissingAsset { tag, name } => UpdateErrorView::MissingAsset {
                tag: tag@,
                name: name@,
            },
            UpdateError::ChecksumNotText { at, len } => UpdateErrorView::ChecksumNotText {
                at: *at as int,
                len: match len {
                    Some(n) => Some(*n as int),
                    None => None,
                },
            },
            UpdateError::InvalidChecksum => UpdateErrorView::InvalidChecksum,
            UpdateError::Mismatch { expected, actual } => UpdateErrorView::Mismatch {
                expected: expected@,
                actual: actual@,
            },
            UpdateError::Archive { reason } => UpdateErrorView::Archive { reason: reason@ },
            UpdateError::DuplicateBinary => UpdateErrorView::DuplicateBinary,
            UpdateError::NoBinary => UpdateErrorView::NoBinary,
            UpdateError::UnsupportedSystem => UpdateErrorView::UnsupportedSystem,
        }
    }
}

/// What is said of an error.
pub open spec fn error_message(error: UpdateErrorView) -> Seq<char> {
    match error {
        UpdateErrorView::Version { reason } => reason,
        UpdateErrorView::MissingAsset { tag, name } => "release "@ + tag
            + " has no asset named "@ + name + "; this platform may not be supported"@,
        UpdateErrorView::ChecksumNotText { at, len: Some(n) } => "invalid utf-8 sequence of "@
            + formatting::decimal(n) + " bytes from index "@ + formatting::decimal(at),
        UpdateErrorView::ChecksumNotText { at, len: None } =>
            "incomplete utf-8 byte sequence from index "@ + formatting::decimal(at),
        UpdateErrorView::InvalidChecksum =>
            "release checksum file is not a valid SHA-256 checksum"@,
        UpdateErrorView::Mismatch { expected, actual } => "SHA-256 mismatch: expected "@ + expected
            + ", downloaded archive is "@ + actual,
        UpdateErrorView::Archive { reason } => reason,
        UpdateErrorView::DuplicateBinary =>
            "release archive contains more than one turmy binary"@,
        UpdateErrorView::NoBinary => "release archive does not contain a turmy binary"@,
        UpdateErrorView::UnsupportedSystem =>
            "self-update is currently supported only on Linux"@,
    }
}

impl UpdateError {
    /// What is said of the error.
    pub fn message(&self) -> (r: String)
        ensures
            r@ == error_message(self@),
    {
        match self {
            UpdateError::Version { reason } => reason.clone(),
            UpdateError::MissingAsset { tag, name } => {
                let mut out: String = "release ".to_owned();
                out.append(tag.as_str());
                out.append(" has no asset named ");
                out.append(name.as_str());
                out.append("; this platform may not be supported");
                out
            },
            UpdateError::ChecksumNotText { at, len } => match len {
                Some(n) => {
                    let mut out: String = "invalid utf-8 sequence of ".to_owned();
                    formatting::push_decimal(&mut out, *n as u64);
                    out.append(" bytes from index ");
                    formatting::push_decimal(&mut out, *at as u64);
                    out
                },
                None => {
                    let mut out: String = "incomplete utf-8 byte sequence from index ".to_owned();
                    formatting::push_decimal(&mut out, *at as u64);
                    out
                },
            },
            UpdateError::InvalidChecksum =>
                "release checksum file is not a valid SHA-256 checksum".to_owned(),
            UpdateError::Mismatch { expected, actual } => {
                let mut out: String = "SHA-256 mismatch: expected ".to_owned();
                out.append(expected.as_str());
                out.append(", downloaded archive is ");
                out.append(actual.as_str());
                out
            },
            UpdateError::Archive { reason } => reason.clone(),
            UpdateError::DuplicateBinary =>
                "release archive contains more than one turmy binary".to_owned(),
            UpdateError::NoBinary => "release archive does not contain a turmy binary".to_owned(),
            UpdateError::UnsupportedSystem =>
                "self-update is currently supported only on Linux".to_owned(),
        }
    }
}

/// The status that follows from how the newest release stands to the running
/// build.
pub open spec fn status_of(latest_to_current: Order) -> UpdateStatus {
    match latest_to_current {
        Order::Less => UpdateStatus::BuildIsNewer,
        Order::Equal => UpdateStatus::UpToDate,
        Order::Greater => UpdateStatus::Available,
    }
}

/// What is said of a status.
pub open spec fn status_message(
    status: UpdateStatus,
    current: Seq<char>,
    latest: Seq<char>,
) -> Seq<char> {
    match status {
        UpdateStatus::UpToDate => "turmy "@ + current + " is already up to date."@,
        UpdateStatus::BuildIsNewer => "This turmy build ("@ + current
            + ") is newer than the latest GitHub release ("@ + latest + ")."@,
        UpdateStatus::Available => "A new version is available: "@ + current + " -> "@ + latest,
    }
}

/// The status that follows from how the newest release stands to the running
/// build.
pub fn update_status(latest_to_current: Order) -> (r: UpdateStatus)
    ensures
        r == status_of(latest_to_current),
{
    match latest_to_current {
        Order::Less => UpdateStatus::BuildIsNewer,
        Order::Equal => UpdateStatus::UpToDate,
        Order::Greater => UpdateStatus::Available,
    }
}

/// What is said of a status.
pub fn describe_status(status: UpdateStatus, current: &Version, latest: &Version) -> (r: String)
    ensures
        r@ == status_message(
            status,
            version::version_text(current@),
            version::version_text(latest@),
        ),
{
    let running: String = current.to_text();
    let newest: String = latest.to_text();
    match status {
        UpdateStatus::UpToDate => {
            let mut out: String = "turmy ".to_owned();
            out.append(running.as_str());
            out.append(" is already up to date.");
            out
        },
        UpdateStatus::BuildIsNewer => {
            let mut out: String = "This turmy build (".to_owned();
            out.append(running.as_str());
            out.append(") is newer than the latest GitHub release (");
            out.append(newest.as_str());
            out.append(").");
            out
        },
        UpdateStatus::Available => {
            let mut out: String = "A new version is available: ".to_owned();
            out.append(running.as_str());
            out.append(" -> ");
            out.append(newest.as_str());
            out
        },
    }
}

/// The version of a release, and where it stands to the running build.
pub fn check_release(current: &Version, release: &Release) -> (r: Result<
    (Version, UpdateStatus),
    UpdateError,
>)
    ensures
        match r {
            Ok((latest, status)) => {
                &&& version::parsed_version(version::tag_version(release.tag_name@)) == Ok::<
                    version::VersionView,
                    Seq<char>,
                >(latest@)
                &&& status == status_of(version::version_order(latest@, current@))
                &&& latest@.pre == current@.pre && latest@.build == current@.build ==> status
                    == status_of(version::numbers_order(latest@, current@))
            },
            Err(error) => error@ is Version && version::parsed_version(
                version::tag_version(release.tag_name@),
            ) == Err::<version::VersionView, Seq<char>>(error@->Version_reason),
        },
{
    match version::parse_release_version(release.tag_name.as_str()) {
        Ok(latest) => {
            let status: UpdateStatus = update_status(latest.order(current));
            Ok((latest, status))
        },
        Err(reason) => Err(UpdateError::Version { reason }),
    }
}

/// The position of the first file with that name; the number of files where
/// there is none.
pub open spec fn asset_index(assets: Seq<Asset>, name: Seq<char>) -> int
    decreases assets.len(),
{
    if assets.len() == 0 || assets[0].name@ == name {
        0
    } else {
        1 + asset_index(assets.drop_first(), name)
    }
}

proof fn lemma_asset_index(assets: Seq<Asset>, name: Seq<char>, n: int)
    requires
        0 <= n <= assets.len(),
        n < assets.len() ==> assets[n].name@ == name,
        forall|k: int| 0 <= k < n ==> (#[trigger] assets[k]).name@ != name,
    ensures
        asset_index(assets, name) == n,
    decreases n,
{
    if n > 0 {
        assert(assets[0].name@ != name);
        lemma_asset_index(assets.drop_first(), name, n - 1);
    }
}

/// Where a file of a release is found: the address of the first one with that
/// name.
pub fn asset_url<'a>(release: &'a Release, name: &str) -> (r: Result<&'a str, UpdateError>)
    ensures
        ({
            let at = asset_index(release.assets@, name@);
            match r {
                Ok(url) => at < release.assets@.len() && url@
                    == release.assets@[at].browser_download_url@,
                Err(error) => at >= release.assets@.len() && error@
                    == (UpdateErrorView::MissingAsset { tag: release.tag_name@, name: name@ }),
            }
        }),
{
    let mut i: usize = 0;
    while i < release.assets.len()
        invariant
            i <= release.assets@.len(),
            forall|k: int| 0 <= k < i ==> (#[trigger] release.assets@[k]).name@ != name@,
        decreases release.assets@.len() - i,
    {
        if text::same_text(release.assets[i].name.as_str(), name) {
            proof {
                lemma_asset_index(release.assets@, name@, i as int);
            }
            return Ok(release.assets[i].browser_download_url.as_str());
        }
        i += 1;
    }
    proof {
        lemma_asset_index(release.assets@, name@, i as int);
    }
    Err(UpdateError::MissingAsset { tag: release.tag_name.clone(), name: name.to_owned() })
}

/// The name of the archive for a platform.
pub open spec fn archive_name(target: Seq<char>) -> Seq<char> {
    "turmy-"@ + target + ".tar.gz"@
}

/// The name of the checksum file for a platform.
pub open spec fn checksum_name(target: Seq<char>) -> Seq<char> {
    archive_name(target) + ".sha256"@
}

/// The files that an update of a platform downloads: the archive and its
/// checksum. Where both are missing, the archive is reported.
pub fn update_files(release: &Release, target: &str) -> (r: Result<UpdateFiles, UpdateError>)
    ensures
        ({
            let assets = release.assets@;
            let archive = asset_index(assets, archive_name(target@));
            let checksum = asset_index(assets, checksum_name(target@));
            match r {
                Ok(files) => {
                    &&& archive < assets.len()
                    &&& checksum < assets.len()
                    &&& files.archive_name@ == archive_name(target@)
                    &&& files.archive_url@ == assets[archive].browser_download_url@
                    &&& files.checksum_url@ == assets[checksum].browser_download_url@
                },
                Err(error) => {
                    &&& archive >= assets.len() || checksum >= assets.len()
                    &&& error@ == (UpdateErrorView::MissingAsset {
                        tag: release.tag_name@,
                        name: if archive >= assets.len() {
                            archive_name(target@)
                        } else {
                            checksum_name(target@)
                        },
                    })
                },
            }
        }),
{
    let mut archive: String = "turmy-".to_owned();
    archive.append(target);
    archive.append(".tar.gz");
    let mut checksum: String = archive.clone();
    checksum.append(".sha256");
    let archive_url: &str = match asset_url(release, archive.as_str()) {
        Ok(url) => url,
        Err(error) => return Err(error),
    };
    let checksum_url: &str = match asset_url(release, checksum.as_str()) {
        Ok(url) => url,
        Err(error) => return Err(error),
    };
    Ok(
        UpdateFiles {
            archive_name: archive,
            archive_url: archive_url.to_owned(),
            checksum_url: checksum_url.to_owned(),
        },
    )
}

/// Whether an answer line is a yes: `y` or `yes`, in any case, with white space
/// around it.
pub open spec fn confirmed(answer: Seq<char>) -> bool {
    let word = formatting::lowered(formatting::trimmed(answer));
    word == "y"@ || word == "yes"@
}

/// Whether an answer line is a yes.
pub fn read_confirmation(answer: &str) -> (r: bool)
    ensures
        r == confirmed(answer@),
{
    let word: String = formatting::lower_text(formatting::trim(answer));
    text::same_text(word.as_str(), "y") || text::same_text(word.as_str(), "yes")
}

/// Whether updates can be installed on a system of that name.
pub open spec fn supported(name: Seq<char>) -> bool {
    name == "linux"@
}

/// Whether an update can be installed on a system.
pub fn check_system(name: &str) -> (r: Result<(), UpdateError>)
    ensures
        r is Ok <==> name@ == "linux"@,
        r is Ok <==> supported(name@),
        r is Err ==> r->Err_0@ == UpdateErrorView::UnsupportedSystem,
{
    if text::same_text(name, "linux") {
        Ok(())
    } else {
        Err(UpdateError::UnsupportedSystem)
    }
}

} // verus!
