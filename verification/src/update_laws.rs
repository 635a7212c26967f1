//! What an update does step by step, what counts as a yes, as a newer release
//! and as the right checksum, and what is said of each outcome.
use vstd::prelude::*;
use vstd::utf8::*;

use crate::checksum;
use crate::decode;
use crate::formatting;
use crate::text_laws;
use crate::update_flow;
use crate::update_flow::{UpdateAction, UpdateEvent, UpdateState};
use crate::updater;
use crate::updater::{Asset, Release, UpdateError, UpdateErrorView, UpdateStatus};
use crate::version;
use crate::version::{Order, Version, VersionView};

verus! {

/// A version with a larger first number is newer; where those are equal the
/// second number decides, and then the third.
pub proof fn law_numbers_of_versions(a: VersionView, b: VersionView)
    ensures
        a.major > b.major ==> version::version_order(a, b) == Order::Greater,
        a.major < b.major ==> version::version_order(a, b) == Order::Less,
        a.major == b.major && a.minor > b.minor ==> version::version_order(a, b)
            == Order::Greater,
        a.major == b.major && a.minor < b.minor ==> version::version_order(a, b) == Order::Less,
        a.major == b.major && a.minor == b.minor && a.patch > b.patch ==> version::version_order(
            a,
            b,
        ) == Order::Greater,
        a.major == b.major && a.minor == b.minor && a.patch < b.patch ==> version::version_order(
            a,
            b,
        ) == Order::Less,
        a.major == b.major && a.minor == b.minor && a.patch == b.patch ==> {
            let pre = version::prerelease_order(a.pre, b.pre);
            &&& pre != Order::Equal ==> version::version_order(a, b) == pre
            &&& pre == Order::Equal ==> version::version_order(a, b) == version::build_order(
                a.build,
                b.build,
            )
        },
{
}

/// A version is written as its three numbers with dots between them, then its
/// pre-release identifiers behind a hyphen, and its build metadata behind a plus
/// sign, where it has them.
pub proof fn law_versions_as_text(v: VersionView)
    ensures
        ({
            let numbers = formatting::decimal(v.major as int) + seq!['.'] + formatting::decimal(
                v.minor as int,
            ) + seq!['.'] + formatting::decimal(v.patch as int);
            &&& v.pre.len() == 0 && v.build.len() == 0 ==> version::version_text(v) == numbers
            &&& v.pre.len() > 0 && v.build.len() == 0 ==> version::version_text(v) == numbers
                + seq!['-'] + v.pre
            &&& v.pre.len() == 0 && v.build.len() > 0 ==> version::version_text(v) == numbers
                + seq!['+'] + v.build
            &&& v.pre.len() > 0 && v.build.len() > 0 ==> version::version_text(v) == numbers
                + seq!['-'] + v.pre + seq!['+'] + v.build
        }),
{
    reveal_strlit(".");
    reveal_strlit("-");
    reveal_strlit("+");
    let numbers = formatting::decimal(v.major as int) + seq!['.'] + formatting::decimal(
        v.minor as int,
    ) + seq!['.'] + formatting::decimal(v.patch as int);
    assert("."@ =~= seq!['.']);
    assert("-"@ =~= seq!['-']);
    assert("+"@ =~= seq!['+']);
    if v.pre.len() == 0 && v.build.len() == 0 {
        assert(version::version_text(v) =~= numbers);
    } else if v.build.len() == 0 {
        assert(version::version_text(v) =~= numbers + seq!['-'] + v.pre);
    } else if v.pre.len() == 0 {
        assert(version::version_text(v) =~= numbers + seq!['+'] + v.build);
    } else {
        assert(version::version_text(v) =~= numbers + seq!['-'] + v.pre + seq!['+'] + v.build);
    }
}

/// A release tag names a version with or without one `v` in front.
pub proof fn law_tags(rest: Seq<char>)
    ensures
        version::tag_version(seq!['v'] + rest) == rest,
        rest.len() == 0 || rest[0] != 'v' ==> version::tag_version(rest) == rest,
{
    assert((seq!['v'] + rest).drop_first() =~= rest);
}

/// A yes is `y` or `yes`, in small letters or capitals, with white space around
/// it or none; nothing else is.
pub proof fn law_what_counts_as_a_yes(answer: Seq<char>)
    ensures
        updater::confirmed(answer) <==> exists|i: int, j: int|
            #[trigger] yes_between(answer, i, j),
{
    reveal_strlit("y");
    reveal_strlit("yes");
    let word = formatting::trimmed(answer);
    text_laws::law_lower_case(word);
    if updater::confirmed(answer) {
        text_laws::law_trimming(answer);
        let (i, j) = choose|i: int, j: int| {
            &&& #[trigger] text_laws::stands_at(answer, formatting::trimmed(answer), i, j)
            &&& text_laws::all_white(answer, 0, i)
            &&& text_laws::all_white(answer, j, answer.len() as int)
            &&& i < j ==> !formatting::white(answer[i]) && !formatting::white(answer[j - 1])
        };
        let low = formatting::lowered(word);
        assert(low.len() == j - i);
        assert(low[0] == 'y');
        assert(word[0] == answer[i + 0]);
        if low == "yes"@ {
            assert(low[1] == 'e' && low[2] == 's');
            assert(word[1] == answer[i + 1] && word[2] == answer[i + 2]);
        }
        assert(yes_between(answer, i, j));
    }
    if exists|i: int, j: int| #[trigger] yes_between(answer, i, j) {
        let (i, j) = choose|i: int, j: int| #[trigger] yes_between(answer, i, j);
        text_laws::law_trimmed_part(answer, i, j);
        let low = formatting::lowered(word);
        assert(word[0] == answer[i]);
        if j - i == 1 {
            assert(low =~= "y"@);
        } else {
            assert(word[1] == answer[i + 1] && word[2] == answer[i + 2]);
            assert(low =~= "yes"@);
        }
    }
}

/// Whether what stands from `i` to `j` is a yes, and only white space stands
/// around it.
pub open spec fn yes_between(s: Seq<char>, i: int, j: int) -> bool {
    &&& 0 <= i < j <= s.len()
    &&& text_laws::all_white(s, 0, i)
    &&& text_laws::all_white(s, j, s.len() as int)
    &&& s[i] == 'y' || s[i] == 'Y'
    &&& j == i + 1 || j == i + 3 && (s[i + 1] == 'e' || s[i + 1] == 'E') && (s[i + 2] == 's'
        || s[i + 2] == 'S')
}

/// A file of a release is found under its name: the first one that has it.
pub proof fn law_files_are_found_by_name(assets: Seq<Asset>, name: Seq<char>)
    ensures
        ({
            let at = updater::asset_index(assets, name);
            &&& 0 <= at <= assets.len()
            &&& at < assets.len() ==> assets[at].name@ == name
            &&& forall|k: int| 0 <= k < at ==> (#[trigger] assets[k]).name@ != name
        }),
    decreases assets.len(),
{
    if assets.len() > 0 && assets[0].name@ != name {
        let rest = assets.drop_first();
        law_files_are_found_by_name(rest, name);
        let at = updater::asset_index(assets, name);
        assert forall|k: int| 0 <= k < at implies (#[trigger] assets[k]).name@ != name by {
            if k > 0 {
                assert(rest[k - 1] == assets[k]);
            }
        }
    }
}

/// The archive of a platform is `turmy-`, the platform and `.tar.gz`; its
/// checksum has the same name with `.sha256` behind it.
pub proof fn law_names_of_files(target: Seq<char>)
    ensures
        updater::archive_name(target) == "turmy-"@ + target + ".tar.gz"@,
        updater::checksum_name(target) == "turmy-"@ + target + ".tar.gz"@ + ".sha256"@,
{
}

/// A release that is newer than the running build is offered, where it has the
/// archive for the platform and its checksum: with both versions, and with the
/// addresses of these two files.
pub proof fn law_newer_releases_are_offered(
    current: Version,
    target: String,
    release: Release,
    latest: VersionView,
    r: (UpdateState, UpdateAction),
)
    requires
        update_flow::step_follows(
            UpdateState::Checking { current, target },
            UpdateEvent::Found(release),
            r,
        ),
        version::parsed_version(version::tag_version(release.tag_name@)) == Ok::<
            VersionView,
            Seq<char>,
        >(latest),
        version::version_order(latest, current@) == Order::Greater,
        exists|k: int|
            0 <= k < release.assets@.len() && (#[trigger] release.assets@[k]).name@ == "turmy-"@
                + target@ + ".tar.gz"@,
        exists|k: int|
            0 <= k < release.assets@.len() && (#[trigger] release.assets@[k]).name@ == "turmy-"@
                + target@ + ".tar.gz"@ + ".sha256"@,
    ensures
        r.0 is Asking,
        r.0->Asking_latest@ == latest,
        r.1 matches UpdateAction::Ask { message } && message@ == "A new version is available: "@
            + version::version_text(current@) + " -> "@ + version::version_text(latest),
        ({
            let files = r.0->files;
            &&& files.archive_name@ == "turmy-"@ + target@ + ".tar.gz"@
            &&& exists|k: int|
                0 <= k < release.assets@.len() && (#[trigger] release.assets@[k]).name@
                    == files.archive_name@ && files.archive_url@
                    == release.assets@[k].browser_download_url@
            &&& exists|k: int|
                0 <= k < release.assets@.len() && (#[trigger] release.assets@[k]).name@
                    == files.archive_name@ + ".sha256"@ && files.checksum_url@
                    == release.assets@[k].browser_download_url@
        }),
{
    let assets = release.assets@;
    law_files_are_found_by_name(assets, updater::archive_name(target@));
    law_files_are_found_by_name(assets, updater::checksum_name(target@));
    let archive = updater::asset_index(assets, updater::archive_name(target@));
    let sum = updater::asset_index(assets, updater::checksum_name(target@));
    assert(archive < assets.len());
    assert(sum < assets.len());
    assert(assets[archive].name@ == r.0->files.archive_name@);
    assert(assets[sum].name@ == r.0->files.archive_name@ + ".sha256"@);
}

/// A release that is not newer ends the update: with a message that the build is
/// up to date, or that it is newer. So does one whose version cannot be read,
/// with what is wrong with it.
pub proof fn law_other_releases_end_the_update(
    current: Version,
    target: String,
    release: Release,
    r: (UpdateState, UpdateAction),
)
    requires
        update_flow::step_follows(
            UpdateState::Checking { current, target },
            UpdateEvent::Found(release),
            r,
        ),
    ensures
        match version::parsed_version(version::tag_version(release.tag_name@)) {
            Ok(latest) => {
                let running = version::version_text(current@);
                let newest = version::version_text(latest);
                &&& version::version_order(latest, current@) == Order::Equal ==> r.0 is Over && (
                r.1 matches UpdateAction::Finish { message } && message@ == "turmy "@ + running
                    + " is already up to date."@)
                &&& version::version_order(latest, current@) == Order::Less ==> r.0 is Over && (
                r.1 matches UpdateAction::Finish { message } && message@ == "This turmy build ("@
                    + running + ") is newer than the latest GitHub release ("@ + newest + ")."@)
            },
            Err(reason) => r.0 is Over && (r.1 matches UpdateAction::Fail { message: None, error }
                && error@ == (UpdateErrorView::Version { reason })),
        },
{
}

/// A newer release without the archive for the platform, or without its checksum,
/// ends the update with the name of what is missing.
pub proof fn law_missing_files_end_the_update(
    current: Version,
    target: String,
    release: Release,
    latest: VersionView,
    r: (UpdateState, UpdateAction),
)
    requires
        update_flow::step_follows(
            UpdateState::Checking { current, target },
            UpdateEvent::Found(release),
            r,
        ),
        version::parsed_version(version::tag_version(release.tag_name@)) == Ok::<
            VersionView,
            Seq<char>,
        >(latest),
        version::version_order(latest, current@) == Order::Greater,
    ensures
        ({
            let name = "turmy-"@ + target@ + ".tar.gz"@;
            let present = |file: Seq<char>|
                exists|k: int|
                    0 <= k < release.assets@.len() && (#[trigger] release.assets@[k]).name@ == file;
            &&& !present(name) ==> r.0 is Over && (r.1 matches UpdateAction::Fail { error, .. }
                && error@ == (UpdateErrorView::MissingAsset { tag: release.tag_name@, name }))
            &&& present(name) && !present(name + ".sha256"@) ==> r.0 is Over && (
            r.1 matches UpdateAction::Fail { error, .. } && error@ == (
            UpdateErrorView::MissingAsset { tag: release.tag_name@, name: name + ".sha256"@ }))
        }),
{
    let assets = release.assets@;
    law_files_are_found_by_name(assets, updater::archive_name(target@));
    law_files_are_found_by_name(assets, updater::checksum_name(target@));
    let archive = updater::asset_index(assets, updater::archive_name(target@));
    let sum = updater::asset_index(assets, updater::checksum_name(target@));
    if archive < assets.len() {
        assert(assets[archive].name@ == updater::archive_name(target@));
    }
    if sum < assets.len() {
        assert(assets[sum].name@ == updater::checksum_name(target@));
    }
}

/// After a yes the archive is downloaded, then its checksum, and then the archive
/// is installed, where the checksum is its own. Anything but a yes cancels the
/// update, and the wrong checksum fails it. The installed version is named at the
/// end.
pub proof fn law_course_of_an_update(
    state: UpdateState,
    event: UpdateEvent,
    r: (UpdateState, UpdateAction),
)
    requires
        update_flow::step_follows(state, event, r),
    ensures
        match (state, event) {
            (UpdateState::Asking { latest, files }, UpdateEvent::Answered(answer)) => {
                &&& updater::confirmed(answer@) ==> {
                    &&& r.0 matches UpdateState::LoadingArchive { latest: kept, checksum_url }
                    &&& kept@ == latest@ && checksum_url@ == files.checksum_url@
                    &&& r.1 matches UpdateAction::Download { message: Some(message), url }
                    &&& url@ == files.archive_url@
                    &&& message@ == "Downloading "@ + files.archive_name@ + "..."@
                }
                &&& !updater::confirmed(answer@) ==> r.0 is Over && (
                r.1 matches UpdateAction::Finish { message } && message@ == "Upgrade cancelled."@)
            },
            (
                UpdateState::LoadingArchive { latest, checksum_url },
                UpdateEvent::Downloaded(bytes),
            ) => {
                &&& r.0 matches UpdateState::LoadingChecksum { latest: kept, archive }
                &&& kept@ == latest@ && archive@ == bytes@
                &&& r.1 matches UpdateAction::Download { url, .. }
                &&& url@ == checksum_url@
            },
            (UpdateState::LoadingChecksum { latest, archive }, UpdateEvent::Downloaded(bytes)) => {
                match checksum::checksum_outcome(
                    checksum::hex(checksum::sha256(archive@)),
                    bytes@,
                ) {
                    Ok(()) => {
                        &&& r.0 matches UpdateState::Installing { latest: kept }
                        &&& kept@ == latest@
                        &&& r.1 matches UpdateAction::Install { message, archive: installed }
                        &&& installed@ == archive@
                        &&& message@ == "SHA-256 checksum verified."@
                    },
                    Err(reason) => r.0 is Over && (r.1 matches UpdateAction::Fail { error, .. }
                        && error@ == reason),
                }
            },
            (UpdateState::Installing { latest }, UpdateEvent::Installed) => r.0 is Over && (
            r.1 matches UpdateAction::Finish { message } && message@
                == "Successfully upgraded turmy to "@ + version::version_text(latest@) + "."@),
            (UpdateState::Checking { .. }, UpdateEvent::Found(_)) => true,
            _ => r.0 == state && r.1 is Wait,
        },
{
}

/// The number that a hexadecimal digit stands for.
pub open spec fn hex_value(c: char) -> int {
    if '0' <= c && c <= '9' {
        c as int - '0' as int
    } else if 'a' <= c && c <= 'f' {
        c as int - 'a' as int + 10
    } else {
        c as int - 'A' as int + 10
    }
}

/// Bytes in hexadecimal are two digits for each, in small letters, that stand for
/// it.
pub proof fn law_hexadecimal(bytes: Seq<u8>, k: int)
    requires
        0 <= k < bytes.len(),
    ensures
        checksum::hex(bytes).len() == 2 * bytes.len(),
        16 * hex_value(checksum::hex(bytes)[2 * k]) + hex_value(checksum::hex(bytes)[2 * k + 1])
            == bytes[k],
        checksum::hex(bytes)[2 * k] <= '9' || 'a' <= checksum::hex(bytes)[2 * k],
        checksum::hex(bytes)[2 * k + 1] <= '9' || 'a' <= checksum::hex(bytes)[2 * k + 1],
{
    assert((2 * k) / 2 == k && (2 * k) % 2 == 0);
    assert((2 * k + 1) / 2 == k && (2 * k + 1) % 2 == 1);
    let d = bytes[k] as int;
    assert(checksum::hex(bytes)[2 * k] == checksum::hex_digit(d / 16));
    assert(checksum::hex(bytes)[2 * k + 1] == checksum::hex_digit(d % 16));
}

/// Whether two words of hexadecimal digits are the same but for small letters and
/// capitals.
pub open spec fn same_digits(a: Seq<char>, b: Seq<char>) -> bool {
    &&& a.len() == b.len()
    &&& forall|i: int| 0 <= i < a.len() ==> #[trigger] hex_value(a[i]) == hex_value(b[i])
}

/// An archive is accepted exactly where the checksum file is text whose first
/// word is 64 hexadecimal digits, in small letters or capitals, that are those of
/// the digest. Each other file has its error.
pub proof fn law_which_checksums_are_accepted(digest: Seq<u8>, content: Seq<char>)
    requires
        digest.len() == 32,
    ensures
        ({
            let actual = checksum::hex(digest);
            let word = formatting::first_word(content);
            let digits = word.len() == 64 && forall|i: int|
                0 <= i < 64 ==> hexadecimal(#[trigger] word[i]);
            let outcome = checksum::checksum_outcome(actual, encode_utf8(content));
            &&& !digits ==> outcome == Err::<(), UpdateErrorView>(UpdateErrorView::InvalidChecksum)
            &&& digits && !same_digits(actual, word) ==> outcome == Err::<(), UpdateErrorView>(
                UpdateErrorView::Mismatch { expected: word, actual },
            )
            &&& digits && same_digits(actual, word) ==> outcome is Ok
        }),
{
    let actual = checksum::hex(digest);
    let word = formatting::first_word(content);
    let file = encode_utf8(content);
    encode_utf8_valid_utf8(content);
    encode_utf8_decode_utf8(content);
    checksum::lemma_fault(file, 0);
    checksum::lemma_hex(digest);
    text_laws::law_lower_case(actual);
    text_laws::law_lower_case(word);
    if word.len() == 64 && forall|i: int| 0 <= i < 64 ==> hexadecimal(#[trigger] word[i]) {
        assert(checksum::is_checksum(word)) by {
            assert forall|i: int| 0 <= i < word.len() implies checksum::is_hex_digit(
                #[trigger] word[i],
            ) by {
                assert(hexadecimal(word[i]));
            }
        }
        if formatting::lowered(actual) == formatting::lowered(word) {
            assert forall|i: int| 0 <= i < actual.len() implies #[trigger] hex_value(actual[i])
                == hex_value(word[i]) by {
                assert(hexadecimal(word[i]));
                assert(checksum::is_hex_digit(actual[i]));
                assert(formatting::lowered(actual)[i] == formatting::lowered(word)[i]);
            }
        }
        if same_digits(actual, word) {
            assert forall|i: int| 0 <= i < actual.len() implies formatting::lowered(actual)[i]
                == #[trigger] formatting::lowered(word)[i] by {
                assert(hexadecimal(word[i]));
                assert(checksum::is_hex_digit(actual[i]));
                assert(hex_value(actual[i]) == hex_value(word[i]));
                lemma_lower_by_value(actual[i], word[i]);
            }
            assert(formatting::lowered(actual) =~= formatting::lowered(word));
        }
    } else {
        if checksum::is_checksum(word) {
            assert forall|i: int| 0 <= i < 64 implies hexadecimal(#[trigger] word[i]) by {
                assert(checksum::is_hex_digit(word[i]));
            }
        }
    }
}

proof fn lemma_lower_by_value(a: char, b: char)
    requires
        hexadecimal(a),
        hexadecimal(b),
        hex_value(a) == hex_value(b),
    ensures
        formatting::lower(a) == formatting::lower(b),
{
}

/// Whether a character is a hexadecimal digit.
pub open spec fn hexadecimal(c: char) -> bool {
    '0' <= c && c <= '9' || 'a' <= c && c <= 'f' || 'A' <= c && c <= 'F'
}

proof fn lemma_fault_place(bytes: Seq<u8>, at: int)
    requires
        0 <= at,
    ensures
        checksum::fault(bytes, at) matches Some((place, len)) ==> {
            let n = place - at;
            &&& 0 <= n < bytes.len()
            &&& valid_utf8(bytes.take(n))
            &&& !valid_utf8(bytes)
            &&& len is None <==> decode::first_step(bytes.skip(n)) is Incomplete
            &&& len matches Some(count) ==> decode::first_step(bytes.skip(n)) == (
            decode::Step::Invalid { len: count as usize }) && 1 <= count <= 3
        },
    decreases bytes.len(),
{
    checksum::lemma_fault(bytes, at);
    if bytes.len() > 0 {
        decode::lemma_step_len(bytes);
        assert(bytes.skip(0) =~= bytes);
        assert(bytes.take(0) =~= Seq::<u8>::empty());
        if let decode::Step::Char { value, len } = decode::first_step(bytes) {
            let rest = bytes.skip(len as int);
            lemma_fault_place(rest, at + len);
            if let Some((place, wrong)) = checksum::fault(rest, at + len) {
                let n = place - at - len;
                let taken = bytes.take(n + len);
                assert(bytes.skip(n + len) =~= rest.skip(n));
                decode::lemma_char_step(bytes);
                assert(taken.skip(len as int) =~= rest.take(n));
                let head = bytes.take(len as int);
                assert(head + rest.take(n) =~= taken);
                assert(head =~= encode_scalar(value as u32));
                decode::lemma_step_prefix(bytes, n + len);
                decode::lemma_all_valid(taken);
                decode::lemma_all_valid(rest.take(n));
            }
        }
    }
}

/// A checksum file that is no text is refused with where it stops being text:
/// what stands in front of that place is.
pub proof fn law_where_a_file_is_no_text(actual: Seq<char>, file: Seq<u8>)
    ensures
        valid_utf8(file) <==> checksum::fault(file, 0) is None,
        !valid_utf8(file) ==> {
            let outcome = checksum::checksum_outcome(actual, file);
            &&& outcome matches Err(UpdateErrorView::ChecksumNotText { at, len })
            &&& 0 <= at < file.len()
            &&& valid_utf8(file.take(at))
            &&& len is None <==> decode::first_step(file.skip(at)) is Incomplete
        },
{
    checksum::lemma_fault(file, 0);
    lemma_fault_place(file, 0);
}

/// What is said of each error.
pub proof fn law_what_is_said_of_errors(
    reason: Seq<char>,
    tag: Seq<char>,
    name: Seq<char>,
    at: int,
    n: int,
)
    ensures
        updater::error_message(UpdateErrorView::Version { reason }) == reason,
        updater::error_message(UpdateErrorView::Archive { reason }) == reason,
        updater::error_message(UpdateErrorView::MissingAsset { tag, name }) == "release "@ + tag
            + " has no asset named "@ + name + "; this platform may not be supported"@,
        updater::error_message(UpdateErrorView::Mismatch { expected: tag, actual: name })
            == "SHA-256 mismatch: expected "@ + tag + ", downloaded archive is "@ + name,
        updater::error_message(UpdateErrorView::ChecksumNotText { at, len: Some(n) })
            == "invalid utf-8 sequence of "@ + formatting::decimal(n) + " bytes from index "@
            + formatting::decimal(at),
        updater::error_message(UpdateErrorView::ChecksumNotText { at, len: None })
            == "incomplete utf-8 byte sequence from index "@ + formatting::decimal(at),
        updater::error_message(UpdateErrorView::InvalidChecksum)
            == "release checksum file is not a valid SHA-256 checksum"@,
        updater::error_message(UpdateErrorView::DuplicateBinary)
            == "release archive contains more than one turmy binary"@,
        updater::error_message(UpdateErrorView::NoBinary)
            == "release archive does not contain a turmy binary"@,
        updater::error_message(UpdateErrorView::UnsupportedSystem)
            == "self-update is currently supported only on Linux"@,
{
}

/// How a release stands to the running build, and what is said of it.
pub proof fn law_what_is_said_of_a_release(current: Seq<char>, latest: Seq<char>)
    ensures
        updater::status_of(Order::Greater) == UpdateStatus::Available,
        updater::status_of(Order::Equal) == UpdateStatus::UpToDate,
        updater::status_of(Order::Less) == UpdateStatus::BuildIsNewer,
        updater::status_message(UpdateStatus::UpToDate, current, latest) == "turmy "@ + current
            + " is already up to date."@,
        updater::status_message(UpdateStatus::BuildIsNewer, current, latest)
            == "This turmy build ("@ + current + ") is newer than the latest GitHub release ("@
            + latest + ")."@,
        updater::status_message(UpdateStatus::Available, current, latest)
            == "A new version is available: "@ + current + " -> "@ + latest,
{
}

/// An update starts by looking for the newest release, with the version of the
/// build and its platform, where that version can be read; and not at all where
/// it cannot. It can be installed on Linux only.
pub proof fn law_how_an_update_starts(
    running: Seq<char>,
    target: Seq<char>,
    r: Result<UpdateState, UpdateError>,
    name: Seq<char>,
)
    requires
        update_flow::starts_with(running, target, r),
    ensures
        r is Ok <==> version::parsed_version(running) is Ok,
        r matches Ok(state) ==> {
            &&& state is Checking
            &&& state->target@ == target
            &&& version::parsed_version(running) == Ok::<VersionView, Seq<char>>(state->current@)
        },
        r matches Err(error) ==> error@ is Version,
        updater::supported(name) <==> name == "linux"@,
{
}

} // verus!
