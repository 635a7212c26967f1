//! The course of an update: what is asked, downloaded, checked and installed,
//! and in which order.
use vstd::prelude::*;

use crate::checksum;
use crate::updater;
use crate::updater::{Release, UpdateError, UpdateErrorView, UpdateFiles, UpdateStatus};
use crate::version;
use crate::version::{Version, VersionView};

verus! {

/// How far an update has come.
#[derive(Debug)]
pub enum UpdateState {
    /// The newest release is being looked up.
    Checking { current: Version, target: String },
    /// The user is being asked.
    Asking { latest: Version, files: UpdateFiles },
    /// The archive is being downloaded.
    LoadingArchive { latest: Version, checksum_url: String },
    /// The checksum of the archive is being downloaded.
    LoadingChecksum { latest: Version, archive: Vec<u8> },
    /// The archive is being installed.
    Installing { latest: Version },
    /// The update has ended.
    Over,
}

/// What happened to an update.
#[derive(Debug)]
pub enum UpdateEvent {
    /// The newest release was found.
    Found(Release),
    /// The user answered.
    Answered(String),
    /// A file was downloaded.
    Downloaded(Vec<u8>),
    /// The archive was installed.
    Installed,
}

/// What is to be done next. Messages are printed first.
#[derive(Debug)]
pub enum UpdateAction {
    /// Ask the user whether to go on.
    Ask { message: String },
    /// Download a file.
    Download { message: Option<String>, url: String },
    /// Install an archive.
    Install { message: String, archive: Vec<u8> },
    /// End the update.
    Finish { message: String },
    /// End the update with an error.
    Fail { message: Option<String>, error: UpdateError },
    /// Wait for the event that is due.
    Wait,
}

/// Whether an update of a build of that version for that platform starts that
/// way.
pub open spec fn starts_with(
    version: Seq<char>,
    target: Seq<char>,
    r: Result<UpdateState, UpdateError>,
) -> bool {
    match version::parsed_version(version) {
        Ok(current) => r matches Ok(UpdateState::Checking { current: running, target: platform })
            && running@ == current && platform@ == target,
        Err(reason) => r matches Err(error) && error@ == (UpdateErrorView::Version { reason }),
    }
}

/// An update of a build of that version for that platform, or why there can be
/// none. The version is read as it stands: it is no tag.
pub fn start(version: &str, target: &str) -> (r: Result<UpdateState, UpdateError>)
    ensures
        match r {
            Ok(state) => {
                &&& state is Checking
                &&& version::parsed_version(version@) == Ok::<VersionView, Seq<char>>(
                    state->current@,
                )
                &&& state->target@ == target@
            },
            Err(error) => error@ is Version && version::parsed_version(version@) == Err::<
                VersionView,
                Seq<char>,
            >(error@->Version_reason),
        },
        starts_with(version@, target@, r),
{
    match version::parse_version(version) {
        Ok(current) => Ok(UpdateState::Checking { current, target: target.to_owned() }),
        Err(reason) => Err(UpdateError::Version { reason }),
    }
}

/// What follows from a release being found. Only a newer one is offered, and
/// only where it has the files for the platform.
pub open spec fn after_release(
    current: VersionView,
    target: Seq<char>,
    release: Release,
    r: (UpdateState, UpdateAction),
) -> bool {
    let assets = release.assets@;
    let archive = updater::asset_index(assets, updater::archive_name(target));
    let checksum = updater::asset_index(assets, updater::checksum_name(target));
    match version::parsed_version(version::tag_version(release.tag_name@)) {
        Err(reason) => {
            &&& r.0 is Over
            &&& r.1 matches UpdateAction::Fail { message: None, error }
            &&& error@ == (UpdateErrorView::Version { reason })
        },
        Ok(latest) => {
            let status = updater::status_of(version::version_order(latest, current));
            let said = updater::status_message(
                status,
                version::version_text(current),
                version::version_text(latest),
            );
            if status != UpdateStatus::Available {
                &&& r.0 is Over
                &&& r.1 matches UpdateAction::Finish { message }
                &&& message@ == said
            } else if archive >= assets.len() || checksum >= assets.len() {
                &&& r.0 is Over
                &&& r.1 matches UpdateAction::Fail { message: Some(message), error }
                &&& message@ == said
                &&& error@ == (UpdateErrorView::MissingAsset {
                    tag: release.tag_name@,
                    name: if archive >= assets.len() {
                        updater::archive_name(target)
                    } else {
                        updater::checksum_name(target)
                    },
                })
            } else {
                &&& r.0 matches UpdateState::Asking { latest: offered, files }
                &&& offered@ == latest
                &&& files.archive_name@ == updater::archive_name(target)
                &&& files.archive_url@ == assets[archive].browser_download_url@
                &&& files.checksum_url@ == assets[checksum].browser_download_url@
                &&& r.1 matches UpdateAction::Ask { message }
                &&& message@ == said
            }
        },
    }
}

/// What follows from the user's answer: a yes starts the download of the
/// archive, and anything else ends the update.
pub open spec fn after_answer(
    latest: VersionView,
    files: UpdateFiles,
    answer: Seq<char>,
    r: (UpdateState, UpdateAction),
) -> bool {
    if updater::confirmed(answer) {
        &&& r.0 matches UpdateState::LoadingArchive { latest: offered, checksum_url }
        &&& offered@ == latest
        &&& checksum_url@ == files.checksum_url@
        &&& r.1 matches UpdateAction::Download { message: Some(message), url }
        &&& message@ == "Downloading "@ + files.archive_name@ + "..."@
        &&& url@ == files.archive_url@
    } else {
        &&& r.0 is Over
        &&& r.1 matches UpdateAction::Finish { message }
        &&& message@ == "Upgrade cancelled."@
    }
}

/// What follows from the archive's checksum: an archive that has it is
/// installed, and any other is refused.
pub open spec fn after_checksum(
    latest: VersionView,
    archive: Seq<u8>,
    file: Seq<u8>,
    r: (UpdateState, UpdateAction),
) -> bool {
    match checksum::checksum_outcome(checksum::hex(checksum::sha256(archive)), file) {
        Ok(()) => {
            &&& r.0 matches UpdateState::Installing { latest: offered }
            &&& offered@ == latest
            &&& r.1 matches UpdateAction::Install { message, archive: checked }
            &&& message@ == "SHA-256 checksum verified."@
            &&& checked@ == archive
        },
        Err(reason) => {
            &&& r.0 is Over
            &&& r.1 matches UpdateAction::Fail { message: None, error }
            &&& error@ == reason
        },
    }
}

/// What follows from an event. One that is not due changes nothing.
pub open spec fn step_follows(
    state: UpdateState,
    event: UpdateEvent,
    r: (UpdateState, UpdateAction),
) -> bool {
    match (state, event) {
        (UpdateState::Checking { current, target }, UpdateEvent::Found(release)) => after_release(
            current@,
            target@,
            release,
            r,
        ),
        (UpdateState::Asking { latest, files }, UpdateEvent::Answered(answer)) => after_answer(
            latest@,
            files,
            answer@,
            r,
        ),
        (
            UpdateState::LoadingArchive { latest, checksum_url },
            UpdateEvent::Downloaded(bytes),
        ) => {
            &&& r.0 matches UpdateState::LoadingChecksum { latest: offered, archive }
            &&& offered@ == latest@
            &&& archive@ == bytes@
            &&& r.1 matches UpdateAction::Download { message: None, url }
            &&& url@ == checksum_url@
        },
        (UpdateState::LoadingChecksum { latest, archive }, UpdateEvent::Downloaded(bytes)) =>
        after_checksum(latest@, archive@, bytes@, r),
        (UpdateState::Installing { latest }, UpdateEvent::Installed) => {
            &&& r.0 is Over
            &&& r.1 matches UpdateAction::Finish { message }
            &&& message@ == "Successfully upgraded turmy to "@ + version::version_text(latest@)
                + "."@
        },
        _ => r.0 == state && r.1 is Wait,
    }
}

/// What follows from a release being found.
fn release_found(current: Version, target: String, release: Release) -> (r: (
    UpdateState,
    UpdateAction,
))
    ensures
        after_release(current@, target@, release, r),
{
    let (latest, status) = match updater::check_release(&current, &release) {
        Ok(checked) => checked,
        Err(error) => {
            return (UpdateState::Over, UpdateAction::Fail { message: None, error });
        },
    };
    let message: String = updater::describe_status(status, &current, &latest);
    match status {
        UpdateStatus::Available => {},
        _ => {
            return (UpdateState::Over, UpdateAction::Finish { message });
        },
    }
    match updater::update_files(&release, target.as_str()) {
        Ok(files) => (UpdateState::Asking { latest, files }, UpdateAction::Ask { message }),
        Err(error) => (
            UpdateState::Over,
            UpdateAction::Fail { message: Some(message), error },
        ),
    }
}

/// What follows from the user's answer.
fn answered(latest: Version, files: UpdateFiles, answer: String) -> (r: (
    UpdateState,
    UpdateAction,
))
    ensures
        after_answer(latest@, files, answer@, r),
{
    if !updater::read_confirmation(answer.as_str()) {
        return (
            UpdateState::Over,
            UpdateAction::Finish { message: "Upgrade cancelled.".to_owned() },
        );
    }
    let mut message: String = "Downloading ".to_owned();
    message.append(files.archive_name.as_str());
    message.append("...");
    (
        UpdateState::LoadingArchive { latest, checksum_url: files.checksum_url },
        UpdateAction::Download { message: Some(message), url: files.archive_url },
    )
}

/// What follows from the archive's checksum.
fn checksum_loaded(latest: Version, archive: Vec<u8>, file: Vec<u8>) -> (r: (
    UpdateState,
    UpdateAction,
))
    ensures
        after_checksum(latest@, archive@, file@, r),
{
    match checksum::verify_sha256(archive.as_slice(), file.as_slice()) {
        Ok(()) => (
            UpdateState::Installing { latest },
            UpdateAction::Install { message: "SHA-256 checksum verified.".to_owned(), archive },
        ),
        Err(error) => (UpdateState::Over, UpdateAction::Fail { message: None, error }),
    }
}

/// Takes an update on by an event.
pub fn step(state: UpdateState, event: UpdateEvent) -> (r: (UpdateState, UpdateAction))
    ensures
        step_follows(state, event, r),
{
    match (state, event) {
        (UpdateState::Checking { current, target }, UpdateEvent::Found(release)) => release_found(
            current,
            target,
            release,
        ),
        (UpdateState::Asking { latest, files }, UpdateEvent::Answered(answer)) => answered(
            latest,
            files,
            answer,
        ),
        (UpdateState::LoadingArchive { latest, checksum_url }, UpdateEvent::Downloaded(bytes)) => (
            UpdateState::LoadingChecksum { latest, archive: bytes },
            UpdateAction::Download { message: None, url: checksum_url },
        ),
        (UpdateState::LoadingChecksum { latest, archive }, UpdateEvent::Downloaded(bytes)) =>
        checksum_loaded(latest, archive, bytes),
        (UpdateState::Installing { latest }, UpdateEvent::Installed) => {
            let mut message: String = "Successfully upgraded turmy to ".to_owned();
            let newest: String = latest.to_text();
            message.append(newest.as_str());
            message.append(".");
            (UpdateState::Over, UpdateAction::Finish { message })
        },
        (state, _) => (state, UpdateAction::Wait),
    }
}

/// An archive is installed only where its published checksum was downloaded and
/// is its own, and then it is the archive that was downloaded.
pub proof fn law_only_verified_archives_are_installed(
    state: UpdateState,
    event: UpdateEvent,
    r: (UpdateState, UpdateAction),
)
    requires
        step_follows(state, event, r),
        r.1 is Install,
    ensures
        state is LoadingChecksum,
        event is Downloaded,
        r.1->Install_archive@ == state->archive@,
        checksum::checksum_outcome(
            checksum::hex(checksum::sha256(state->archive@)),
            event->Downloaded_0@,
        ) is Ok,
{
}

/// Nothing is downloaded before the user has said yes: the download of the
/// archive follows from a yes alone, and that of the checksum from the archive.
pub proof fn law_nothing_is_downloaded_unasked(
    state: UpdateState,
    event: UpdateEvent,
    r: (UpdateState, UpdateAction),
)
    requires
        step_follows(state, event, r),
        r.1 is Download,
    ensures
        match state {
            UpdateState::Asking { latest, files } => event is Answered && updater::confirmed(
                event->Answered_0@,
            ),
            UpdateState::LoadingArchive { latest, checksum_url } => event is Downloaded,
            _ => false,
        },
{
}

/// The user is asked only about a release that is newer than the running build.
pub proof fn law_only_newer_releases_are_offered(
    state: UpdateState,
    event: UpdateEvent,
    r: (UpdateState, UpdateAction),
)
    requires
        step_follows(state, event, r),
        r.1 is Ask,
    ensures
        state is Checking,
        event is Found,
        r.0 is Asking,
        version::version_order(r.0->Asking_latest@, state->current@) == version::Order::Greater,
{
}

/// An update that has ended stays ended, whatever comes.
pub proof fn law_over_is_over(event: UpdateEvent, r: (UpdateState, UpdateAction))
    requires
        step_follows(UpdateState::Over, event, r),
    ensures
        r.0 is Over,
        r.1 is Wait,
{
}

} // verus!
