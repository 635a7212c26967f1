//! The binary in a release archive.
use vstd::prelude::*;

use crate::text;
use crate::updater::{UpdateError, UpdateErrorView};

verus! {

/// An entry of an archive: its path, whether it is a regular file, and what it
/// holds.
#[derive(Debug)]
pub struct ArchiveEntry {
    pub path: Vec<u8>,
    pub is_file: bool,
    pub contents: Vec<u8>,
}

/// The value of an [`ArchiveEntry`].
pub struct EntryView {
    pub path: Seq<u8>,
    pub is_file: bool,
    pub contents: Seq<u8>,
}

impl View for ArchiveEntry {
    type V = EntryView;

    open spec fn view(&self) -> EntryView {
        EntryView { path: self.path@, is_file: self.is_file, contents: self.contents@ }
    }
}

/// The values of some entries.
pub open spec fn entry_views(entries: Seq<ArchiveEntry>) -> Seq<EntryView> {
    entries.map_values(|entry: ArchiveEntry| entry@)
}

/// The entries that can be read from a gzip-compressed tar archive, and the
/// error that ended the reading, where there was one.
pub uninterp spec fn archive_listing(archive: Seq<u8>) -> (Seq<EntryView>, Option<Seq<char>>);

/// `tar::Archive::entries` on `flate2::read::GzDecoder`: the entries in their
/// order, each with its path, its type and its contents, up to the first error,
/// and the message of that error. Where an entry's contents break off, the
/// entry is listed with what was read of them. Nothing is claimed of how the
/// entries follow from the bytes.
#[verifier::external_body]
fn read_archive(archive: &[u8]) -> (r: (Vec<ArchiveEntry>, Option<String>))
    ensures
        archive_listing(archive@) == (entry_views(r.0@), text::option_view(r.1)),
{
    let mut found = Vec::new();
    let mut tar = tar::Archive::new(flate2::read::GzDecoder::new(archive));
    let listed = tar.entries().and_then(|entries| {
        for entry in entries {
            let mut entry = entry?;
            let path = entry.path_bytes().into_owned();
            let is_file = entry.header().entry_type().is_file();
            let mut contents = Vec::new();
            let read = std::io::Read::read_to_end(&mut entry, &mut contents);
            found.push(ArchiveEntry { path, is_file, contents });
            read?;
        }
        Ok(())
    });
    (found, listed.err().map(|error| error.to_string()))
}

/// Whether nothing but separators and `.` components is left of a path.
pub open spec fn vacant(rest: Seq<u8>) -> bool
    decreases rest.len(),
{
    rest.len() == 0 || (rest[0] == 0x2f && (vacant(rest.skip(1)) || (rest.len() > 1 && rest[1]
        == 0x2e && vacant(rest.skip(2)))))
}

/// The name of the binary.
pub open spec fn binary_name() -> Seq<u8> {
    seq![0x74u8, 0x75u8, 0x72u8, 0x6du8, 0x79u8]
}

/// Whether a path, component by component, is the relative path `turmy`.
/// Repeated and trailing separators and `.` components that are not the first
/// do not count.
pub open spec fn names_binary(path: Seq<u8>) -> bool {
    binary_name().is_prefix_of(path) && vacant(path.skip(5))
}

/// What the binaries among some entries hold: the regular files named `turmy`.
pub open spec fn binaries(entries: Seq<EntryView>) -> Seq<Seq<u8>>
    decreases entries.len(),
{
    if entries.len() == 0 {
        Seq::empty()
    } else {
        let before = binaries(entries.drop_last());
        let entry = entries.last();
        if entry.is_file && names_binary(entry.path) {
            before.push(entry.contents)
        } else {
            before
        }
    }
}

/// What is taken from an archive: its one binary. A second one is an error,
/// whatever follows it; so is an archive that cannot be read to its end, and
/// one without a binary.
pub open spec fn selected_binary(entries: Seq<EntryView>, error: Option<Seq<char>>) -> Result<
    Seq<u8>,
    UpdateErrorView,
> {
    let found = binaries(entries);
    if found.len() > 1 {
        Err(UpdateErrorView::DuplicateBinary)
    } else if error is Some {
        Err(UpdateErrorView::Archive { reason: error->0 })
    } else if found.len() == 0 {
        Err(UpdateErrorView::NoBinary)
    } else {
        Ok(found[0])
    }
}

/// The value of a selection.
pub open spec fn selection_view(r: Result<Vec<u8>, UpdateError>) -> Result<
    Seq<u8>,
    UpdateErrorView,
> {
    match r {
        Ok(contents) => Ok(contents@),
        Err(error) => Err(error@),
    }
}

/// Whether nothing but separators and `.` components is left of a path, from
/// byte `start` on.
fn vacant_from(path: &[u8], start: usize) -> (r: bool)
    requires
        start <= path@.len(),
    ensures
        r == vacant(path@.skip(start as int)),
{
    let mut at: usize = start;
    while at < path.len()
        invariant
            at <= path@.len(),
            vacant(path@.skip(start as int)) == vacant(path@.skip(at as int)),
        decreases path@.len() - at,
    {
        let ghost rest = path@.skip(at as int);
        if path[at] != 0x2f {
            return false;
        }
        assert(rest.skip(1) =~= path@.skip(at + 1));
        if path.len() - at > 1 && path[at + 1] == 0x2e {
            assert(!vacant(rest.skip(1)));
            assert(rest.skip(2) =~= path@.skip(at + 2));
            at += 2;
        } else {
            at += 1;
        }
    }
    assert(vacant(path@.skip(at as int)));
    true
}

/// Whether a path is the relative path `turmy`.
pub fn is_binary_path(path: &[u8]) -> (r: bool)
    ensures
        r == names_binary(path@),
{
    if path.len() < 5 {
        return false;
    }
    if !(path[0] == 0x74 && path[1] == 0x75 && path[2] == 0x72 && path[3] == 0x6d && path[4]
        == 0x79) {
        proof {
            if binary_name().is_prefix_of(path@) {
                let start = path@.subrange(0, 5);
                assert(start[0] == 0x74 && start[1] == 0x75 && start[2] == 0x72 && start[3] == 0x6d
                    && start[4] == 0x79);
            }
        }
        return false;
    }
    assert(path@.subrange(0, 5) =~= binary_name());
    vacant_from(path, 5)
}

/// What is taken from an archive with these entries, where `error` ended the
/// reading.
pub fn select_binary(entries: Vec<ArchiveEntry>, error: Option<String>) -> (r: Result<
    Vec<u8>,
    UpdateError,
>)
    ensures
        selection_view(r) == selected_binary(entry_views(entries@), text::option_view(error)),
{
    let ghost views = entry_views(entries@);
    let mut found: Option<Vec<u8>> = None;
    let ghost all = entries@;
    assert(views.take(0) =~= Seq::<EntryView>::empty());
    for entry in it: entries
        invariant
            it.seq() == all,
            views == entry_views(all),
            match found {
                None => binaries(views.take(it.index() as int)).len() == 0,
                Some(contents) => binaries(views.take(it.index() as int)) =~= seq![contents@],
            },
    {
        proof {
            assert(views.take(it.index() + 1).drop_last() =~= views.take(it.index() as int));
            assert(views.take(it.index() + 1).last() == entry@);
        }
        if entry.is_file && is_binary_path(entry.path.as_slice()) {
            if found.is_some() {
                proof {
                    lemma_binaries_grow(views, it.index() + 1);
                }
                return Err(UpdateError::DuplicateBinary);
            }
            found = Some(entry.contents);
        }
    }
    assert(views.take(all.len() as int) =~= views);
    match error {
        Some(reason) => Err(UpdateError::Archive { reason }),
        None => match found {
            Some(contents) => Ok(contents),
            None => Err(UpdateError::NoBinary),
        },
    }
}

/// More entries hold no fewer binaries.
proof fn lemma_binaries_grow(entries: Seq<EntryView>, n: int)
    requires
        0 <= n <= entries.len(),
    ensures
        binaries(entries.take(n)).len() <= binaries(entries).len(),
    decreases entries.len() - n,
{
    if n < entries.len() {
        lemma_binaries_grow(entries, n + 1);
        assert(entries.take(n + 1).drop_last() =~= entries.take(n));
    } else {
        assert(entries.take(n) =~= entries);
    }
}

/// What an update installs: the one binary of a release archive.
pub fn extract_binary(archive: &[u8]) -> (r: Result<Vec<u8>, UpdateError>)
    ensures
        selection_view(r) == selected_binary(archive_listing(archive@).0, archive_listing(
            archive@,
        ).1),
{
    let (entries, error) = read_archive(archive);
    select_binary(entries, error)
}

/// The name of the binary is its path; a path that is stays so with one more
/// separator behind it, and one that starts with another byte never is.
pub proof fn law_binary_paths(path: Seq<u8>)
    ensures
        names_binary(binary_name()),
        names_binary(path) ==> names_binary(path.push(0x2f)),
        path.len() > 0 && path[0] != 0x74 ==> !names_binary(path),
{
    assert(binary_name().skip(5) =~= Seq::<u8>::empty());
    assert(binary_name().subrange(0, 5) =~= binary_name());
    if names_binary(path) {
        assert(path.push(0x2f).subrange(0, 5) =~= path.subrange(0, 5));
        lemma_vacant_push(path.skip(5));
        assert(path.push(0x2f).skip(5) =~= path.skip(5).push(0x2f));
        assert(path[0] == path.subrange(0, 5)[0]);
    }
}

proof fn lemma_vacant_push(rest: Seq<u8>)
    requires
        vacant(rest),
    ensures
        vacant(rest.push(0x2f)),
    decreases rest.len(),
{
    let longer = rest.push(0x2f);
    if rest.len() == 0 {
        assert(longer.skip(1) =~= Seq::<u8>::empty());
        assert(vacant(longer.skip(1)));
    } else if vacant(rest.skip(1)) {
        lemma_vacant_push(rest.skip(1));
        assert(longer.skip(1) =~= rest.skip(1).push(0x2f));
    } else {
        lemma_vacant_push(rest.skip(2));
        assert(longer.skip(2) =~= rest.skip(2).push(0x2f));
    }
}

/// Only one regular file that is named like the binary makes an archive that
/// an update installs, and what it installs is what that file holds.
pub proof fn law_one_binary_is_installed(entries: Seq<EntryView>, error: Option<Seq<char>>, i: int)
    requires
        selected_binary(entries, error) is Ok,
        0 <= i < entries.len(),
        entries[i].is_file,
        names_binary(entries[i].path),
    ensures
        selected_binary(entries, error) == Ok::<Seq<u8>, UpdateErrorView>(entries[i].contents),
        forall|j: int|
            0 <= j < entries.len() && j != i ==> !((#[trigger] entries[j]).is_file && names_binary(
                entries[j].path,
            )),
{
    lemma_one(entries, i);
    assert forall|j: int| 0 <= j < entries.len() && j != i implies !((
    #[trigger] entries[j]).is_file && names_binary(entries[j].path)) by {
        if entries[j].is_file && names_binary(entries[j].path) {
            let (a, b) = if i < j {
                (i, j)
            } else {
                (j, i)
            };
            lemma_two(entries, a, b);
        }
    }
}

proof fn lemma_one(entries: Seq<EntryView>, i: int)
    requires
        0 <= i < entries.len(),
        entries[i].is_file,
        names_binary(entries[i].path),
    ensures
        binaries(entries).len() >= 1,
        binaries(entries).contains(entries[i].contents),
    decreases entries.len(),
{
    let found = binaries(entries);
    if i + 1 == entries.len() {
        assert(found.last() == entries[i].contents);
        assert(found[found.len() - 1] == entries[i].contents);
    } else {
        lemma_one(entries.drop_last(), i);
        let before = binaries(entries.drop_last());
        let k = choose|k: int| 0 <= k < before.len() && before[k] == entries[i].contents;
        assert(found[k] == entries[i].contents);
    }
}

proof fn lemma_two(entries: Seq<EntryView>, i: int, j: int)
    requires
        0 <= i < j < entries.len(),
        entries[i].is_file,
        names_binary(entries[i].path),
        entries[j].is_file,
        names_binary(entries[j].path),
    ensures
        binaries(entries).len() >= 2,
    decreases entries.len(),
{
    if j + 1 == entries.len() {
        lemma_one(entries.drop_last(), i);
    } else {
        lemma_two(entries.drop_last(), i, j);
    }
}

/// Behind the name, a path of the binary holds separators, and dots that each
/// stand behind a separator, and nothing else.
pub proof fn law_what_may_follow_the_name(rest: Seq<u8>)
    ensures
        vacant(rest) <==> forall|i: int|
            0 <= i < rest.len() ==> #[trigger] rest[i] == 0x2f || (rest[i] == 0x2e && i > 0 && rest[i
                - 1] == 0x2f),
    decreases rest.len(),
{
    let fits = |r: Seq<u8>|
        forall|i: int|
            0 <= i < r.len() ==> #[trigger] r[i] == 0x2f || (r[i] == 0x2e && i > 0 && r[i - 1]
                == 0x2f);
    if rest.len() > 0 {
        let one = rest.skip(1);
        law_what_may_follow_the_name(one);
        if rest.len() > 1 {
            law_what_may_follow_the_name(rest.skip(2));
        }
        if vacant(rest) {
            assert forall|i: int| 0 <= i < rest.len() implies #[trigger] rest[i] == 0x2f || (rest[i]
                == 0x2e && i > 0 && rest[i - 1] == 0x2f) by {
                if i > 0 && vacant(one) {
                    assert(one[i - 1] == rest[i]);
                    if i > 1 {
                        assert(one[i - 2] == rest[i - 1]);
                    }
                } else if i > 1 {
                    let two = rest.skip(2);
                    assert(two[i - 2] == rest[i]);
                    if i > 2 {
                        assert(two[i - 3] == rest[i - 1]);
                    }
                }
            }
        }
        if fits(rest) {
            assert(rest[0] == 0x2f);
            if rest.len() > 1 && rest[1] == 0x2e {
                let two = rest.skip(2);
                assert forall|i: int| 0 <= i < two.len() implies #[trigger] two[i] == 0x2f || (
                two[i] == 0x2e && i > 0 && two[i - 1] == 0x2f) by {
                    assert(two[i] == rest[i + 2]);
                    if i > 0 {
                        assert(two[i - 1] == rest[i + 1]);
                    }
                }
                assert(vacant(two));
            } else {
                assert forall|i: int| 0 <= i < one.len() implies #[trigger] one[i] == 0x2f || (
                one[i] == 0x2e && i > 0 && one[i - 1] == 0x2f) by {
                    assert(one[i] == rest[i + 1]);
                    if i > 0 {
                        assert(one[i - 1] == rest[i]);
                    }
                }
                assert(vacant(one));
            }
        }
    }
}

/// A path names the binary exactly where it starts with the letters of `turmy`,
/// and only separators, and dots behind separators, follow.
pub proof fn law_which_paths_name_the_binary(path: Seq<u8>)
    ensures
        names_binary(path) <==> {
            &&& path.len() >= 5
            &&& path[0] == 0x74 && path[1] == 0x75 && path[2] == 0x72 && path[3] == 0x6d && path[4]
                == 0x79
            &&& forall|i: int|
                5 <= i < path.len() ==> #[trigger] path[i] == 0x2f || (path[i] == 0x2e && i > 5
                    && path[i - 1] == 0x2f)
        },
{
    let name = binary_name();
    if path.len() >= 5 {
        let rest = path.skip(5);
        law_what_may_follow_the_name(rest);
        if name.is_prefix_of(path) {
            let start = path.subrange(0, 5);
            assert(name == start);
            assert(start[0] == path[0] && start[1] == path[1] && start[2] == path[2] && start[3]
                == path[3] && start[4] == path[4]);
        } else if path[0] == 0x74 && path[1] == 0x75 && path[2] == 0x72 && path[3] == 0x6d
            && path[4] == 0x79 {
            assert(path.subrange(0, 5) =~= name);
        }
        if vacant(rest) {
            assert forall|i: int| 5 <= i < path.len() implies #[trigger] path[i] == 0x2f || (path[i]
                == 0x2e && i > 5 && path[i - 1] == 0x2f) by {
                assert(rest[i - 5] == path[i]);
                if i > 5 {
                    assert(rest[i - 6] == path[i - 1]);
                }
            }
        }
        if forall|i: int|
            5 <= i < path.len() ==> #[trigger] path[i] == 0x2f || (path[i] == 0x2e && i > 5
                && path[i - 1] == 0x2f) {
            assert forall|i: int| 0 <= i < rest.len() implies #[trigger] rest[i] == 0x2f || (rest[i]
                == 0x2e && i > 0 && rest[i - 1] == 0x2f) by {
                assert(rest[i] == path[i + 5]);
                if i > 0 {
                    assert(rest[i - 1] == path[i + 4]);
                }
            }
        }
    }
}

/// Whether an entry is a binary: a regular file under that name.
pub open spec fn is_binary(entry: EntryView) -> bool {
    entry.is_file && names_binary(entry.path)
}

proof fn lemma_none(entries: Seq<EntryView>)
    requires
        forall|j: int| 0 <= j < entries.len() ==> !is_binary(#[trigger] entries[j]),
    ensures
        binaries(entries).len() == 0,
    decreases entries.len(),
{
    if entries.len() > 0 {
        assert(!is_binary(entries[entries.len() - 1]));
        assert forall|j: int| 0 <= j < entries.drop_last().len() implies !is_binary(
            #[trigger] entries.drop_last()[j],
        ) by {
            assert(entries.drop_last()[j] == entries[j]);
        }
        lemma_none(entries.drop_last());
    }
}

proof fn lemma_only(entries: Seq<EntryView>, i: int)
    requires
        0 <= i < entries.len(),
        is_binary(entries[i]),
        forall|j: int| 0 <= j < entries.len() && j != i ==> !is_binary(#[trigger] entries[j]),
    ensures
        binaries(entries) == seq![entries[i].contents],
    decreases entries.len(),
{
    let front = entries.drop_last();
    assert forall|j: int| 0 <= j < front.len() && j != i implies !is_binary(#[trigger] front[j]) by {
        assert(front[j] == entries[j]);
    }
    if i == front.len() {
        lemma_none(front);
        assert(binaries(entries) =~= seq![entries[i].contents]);
    } else {
        assert(!is_binary(entries[entries.len() - 1]));
        assert(front[i] == entries[i]);
        lemma_only(front, i);
    }
}

/// What is taken from an archive that was read to its end: what its one binary
/// holds, wherever it stands; an error where there is none, and where there are
/// two. Where the archive could not be read on, that is the error, unless there
/// were two before.
pub proof fn law_what_is_taken_from_an_archive(
    entries: Seq<EntryView>,
    reason: Seq<char>,
    i: int,
    j: int,
)
    ensures
        (forall|k: int| 0 <= k < entries.len() ==> !is_binary(#[trigger] entries[k])) ==> {
            &&& selected_binary(entries, None) == Err::<Seq<u8>, UpdateErrorView>(
                UpdateErrorView::NoBinary,
            )
            &&& selected_binary(entries, Some(reason)) == Err::<Seq<u8>, UpdateErrorView>(
                UpdateErrorView::Archive { reason },
            )
        },
        (0 <= i < entries.len() && is_binary(entries[i]) && forall|k: int|
            0 <= k < entries.len() && k != i ==> !is_binary(#[trigger] entries[k])) ==> {
            &&& selected_binary(entries, None) == Ok::<Seq<u8>, UpdateErrorView>(
                entries[i].contents,
            )
            &&& selected_binary(entries, Some(reason)) == Err::<Seq<u8>, UpdateErrorView>(
                UpdateErrorView::Archive { reason },
            )
        },
        0 <= i < j < entries.len() && is_binary(entries[i]) && is_binary(entries[j]) ==> {
            &&& selected_binary(entries, None) == Err::<Seq<u8>, UpdateErrorView>(
                UpdateErrorView::DuplicateBinary,
            )
            &&& selected_binary(entries, Some(reason)) == Err::<Seq<u8>, UpdateErrorView>(
                UpdateErrorView::DuplicateBinary,
            )
        },
{
    if forall|k: int| 0 <= k < entries.len() ==> !is_binary(#[trigger] entries[k]) {
        lemma_none(entries);
    }
    if 0 <= i < entries.len() && is_binary(entries[i]) && (forall|k: int|
        0 <= k < entries.len() && k != i ==> !is_binary(#[trigger] entries[k])) {
        lemma_only(entries, i);
    }
    if 0 <= i < j < entries.len() && is_binary(entries[i]) && is_binary(entries[j]) {
        lemma_two(entries, i, j);
    }
}

} // verus!
