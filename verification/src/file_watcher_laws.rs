//! What is read of a file over time, and what a follower passes on, whatever is
//! chosen and read meanwhile.
use vstd::prelude::*;

use crate::file_watcher;
use crate::file_watcher::{
    FileWatcherError, FileWatcherUpdate, Following, FollowerEvent, ReadOutcome,
};
use crate::path;

verus! {

/// What a run of events makes of a new follower.
pub open spec fn state_after(events: Seq<FollowerEvent>) -> Following
    decreases events.len(),
{
    if events.len() == 0 {
        Following::initial()
    } else {
        state_after(events.drop_last()).after(events.last())
    }
}

/// What a new follower passes on in a run of events.
pub open spec fn passed_on(events: Seq<FollowerEvent>) -> Seq<FileWatcherUpdate>
    decreases events.len(),
{
    if events.len() == 0 {
        Seq::empty()
    } else {
        let before = events.drop_last();
        if state_after(before).passes(events.last()) {
            passed_on(before).push(events.last().update())
        } else {
            passed_on(before)
        }
    }
}

/// The positions of the events at which it passes something on.
pub open spec fn passed_at(events: Seq<FollowerEvent>) -> Seq<int>
    decreases events.len(),
{
    if events.len() == 0 {
        Seq::empty()
    } else {
        let before = events.drop_last();
        if state_after(before).passes(events.last()) {
            passed_at(before).push(before.len() as int)
        } else {
            passed_at(before)
        }
    }
}

/// Whether the reports among the events are such as a reader makes: bytes, or
/// an error.
pub open spec fn from_readers(events: Seq<FollowerEvent>) -> bool {
    forall|i: int|
        0 <= i < events.len() && #[trigger] events[i] is Reported ==> !(events[i].update() is Reset)
}

/// How often a file was chosen in the first `n` events. This is the number of
/// the reader of the file that was chosen last among them.
pub open spec fn chosen_in(events: Seq<FollowerEvent>, n: int) -> int
    decreases n,
{
    if n <= 0 {
        0
    } else if events[n - 1] is Chosen {
        chosen_in(events, n - 1) + 1
    } else {
        chosen_in(events, n - 1)
    }
}

/// Whether the event is a report of the reader of that number.
pub open spec fn reported_by(event: FollowerEvent, number: int) -> bool {
    event matches FollowerEvent::Reported { reader, .. } && reader == number
}

/// Whether the reader of the file that was chosen last before the event at `n`
/// has reported since then, an error at last.
pub open spec fn failing_at(events: Seq<FollowerEvent>, n: int) -> bool {
    exists|j: int|
        {
            &&& 0 <= j < n
            &&& reported_by(#[trigger] events[j], chosen_in(events, n))
            &&& events[j].update() is Error
            &&& forall|k: int|
                j < k < n ==> !(#[trigger] events[k] is Chosen) && !reported_by(
                    events[k],
                    chosen_in(events, n),
                )
        }
}

/// Whether the event at `i` is one to pass something on at: a choice; or a
/// report on the file that was chosen last, of an error, of bytes, or that an
/// error is over.
pub open spec fn worth_passing_on(events: Seq<FollowerEvent>, i: int) -> bool {
    match events[i] {
        FollowerEvent::Chosen => true,
        FollowerEvent::Reported { reader, update } => reader == chosen_in(events, i)
            && match update {
            FileWatcherUpdate::Append(bytes) => bytes@.len() > 0 || failing_at(events, i),
            _ => true,
        },
    }
}

/// The first events say how many files were chosen among them.
proof fn lemma_chosen_in_prefix(events: Seq<FollowerEvent>, m: int, n: int)
    requires
        0 <= n <= m <= events.len(),
    ensures
        chosen_in(events.take(m), n) == chosen_in(events, n),
    decreases n,
{
    if n > 0 {
        lemma_chosen_in_prefix(events, m, n - 1);
    }
}

/// Choices add up.
proof fn lemma_chosen_in_grows(events: Seq<FollowerEvent>, m: int, n: int)
    requires
        0 <= m <= n <= events.len(),
    ensures
        chosen_in(events, m) <= chosen_in(events, n),
    decreases n,
{
    if m < n {
        lemma_chosen_in_grows(events, m, n - 1);
    }
}

/// The state of a follower says which file was chosen last, and whether its
/// last report was an error.
proof fn lemma_state_after(events: Seq<FollowerEvent>, n: int)
    requires
        0 <= n <= events.len(),
        from_readers(events),
    ensures
        state_after(events.take(n)).reader == chosen_in(events, n),
        state_after(events.take(n)).failing <==> failing_at(events, n),
    decreases n,
{
    if n > 0 {
        let before = n - 1;
        lemma_state_after(events, before);
        assert(events.take(n).drop_last() =~= events.take(before));
        let event = events[before];
        if reported_by(event, chosen_in(events, n)) {
            assert(!(events[before].update() is Reset));
        } else if event is Reported {
            assert(failing_at(events, before) <==> failing_at(events, n));
        }
    }
}

/// What comes before the last event is from readers too.
proof fn lemma_from_readers_before(events: Seq<FollowerEvent>)
    requires
        from_readers(events),
        events.len() > 0,
    ensures
        from_readers(events.drop_last()),
{
    let before = events.drop_last();
    assert forall|i: int| 0 <= i < before.len() && #[trigger] before[i] is Reported implies !(
    before[i].update() is Reset) by {
        assert(before[i] == events[i]);
    }
}

/// A follower passes something on at an event exactly where it is worth it.
proof fn lemma_passes(events: Seq<FollowerEvent>, i: int)
    requires
        0 <= i < events.len(),
        from_readers(events),
    ensures
        state_after(events.take(i)).passes(events[i]) <==> worth_passing_on(events, i),
{
    lemma_state_after(events, i);
}

/// The positions in a run at which something is passed on.
proof fn lemma_passed_at(events: Seq<FollowerEvent>, n: int)
    requires
        0 <= n <= events.len(),
        from_readers(events),
    ensures
        forall|i: int|
            #![trigger passed_at(events.take(n)).contains(i)]
            passed_at(events.take(n)).contains(i) <==> 0 <= i < n && worth_passing_on(events, i),
        forall|a: int, b: int|
            #![trigger passed_at(events.take(n))[a], passed_at(events.take(n))[b]]
            0 <= a < b < passed_at(events.take(n)).len() ==> passed_at(events.take(n))[a]
                < passed_at(events.take(n))[b],
        passed_on(events.take(n)).len() == passed_at(events.take(n)).len(),
        forall|a: int|
            #![trigger passed_on(events.take(n))[a]]
            0 <= a < passed_on(events.take(n)).len() ==> passed_on(events.take(n))[a]
                == events[passed_at(events.take(n))[a]].update(),
    decreases n,
{
    if n > 0 {
        let before = n - 1;
        lemma_passed_at(events, before);
        lemma_passes(events, before);
        assert(events.take(n).drop_last() =~= events.take(before));
        let earlier = passed_at(events.take(before));
        let now = passed_at(events.take(n));
        assert forall|a: int| 0 <= a < earlier.len() implies 0 <= #[trigger] earlier[a]
            < before by {
            assert(earlier.contains(earlier[a]));
        }
        assert forall|i: int| #[trigger] now.contains(i) implies 0 <= i < n && worth_passing_on(
            events,
            i,
        ) by {
            if i != before {
                assert(earlier.contains(i));
            }
        }
        assert forall|i: int| 0 <= i < n && worth_passing_on(
            events,
            i,
        ) implies #[trigger] now.contains(i) by {
            if i == before {
                assert(now[now.len() - 1] == i);
            } else {
                assert(earlier.contains(i));
                let a = choose|a: int| 0 <= a < earlier.len() && earlier[a] == i;
                assert(now[a] == i);
            }
        }
    }
}

/// What a follower passes on, whatever is chosen and read in whatever order: a
/// reset for each choice of a file; each error in reading the file that was
/// chosen last; and what was read of that file, where it is not empty or the
/// report before it on that file was an error. Nothing else is passed on, and
/// nothing changes its place.
pub proof fn law_what_is_passed_on(events: Seq<FollowerEvent>)
    requires
        from_readers(events),
    ensures
        forall|i: int|
            #![trigger passed_at(events).contains(i)]
            passed_at(events).contains(i) <==> 0 <= i < events.len() && worth_passing_on(events, i),
        forall|a: int, b: int|
            #![trigger passed_at(events)[a], passed_at(events)[b]]
            0 <= a < b < passed_at(events).len() ==> passed_at(events)[a] < passed_at(events)[b],
        passed_on(events).len() == passed_at(events).len(),
        forall|a: int|
            #![trigger passed_on(events)[a]]
            0 <= a < passed_on(events).len() ==> passed_on(events)[a]
                == events[passed_at(events)[a]].update(),
{
    lemma_passed_at(events, events.len() as int);
    assert(events.take(events.len() as int) =~= events);
}

/// Once a file was chosen, nothing of a file that was chosen before is passed
/// on any more.
pub proof fn law_an_earlier_file_is_not_passed_on(events: Seq<FollowerEvent>, i: int, j: int)
    requires
        from_readers(events),
        0 <= i < j < events.len(),
        events[i] is Chosen,
        events[j] matches FollowerEvent::Reported { reader, .. } && reader <= chosen_in(events, i),
    ensures
        !passed_at(events).contains(j),
{
    law_what_is_passed_on(events);
    lemma_chosen_in_grows(events, i + 1, j);
}

/// A follower passes on as many resets as files were chosen.
pub proof fn law_one_reset_for_each_choice(events: Seq<FollowerEvent>)
    requires
        from_readers(events),
    ensures
        passed_on(events).filter(|update: FileWatcherUpdate| update is Reset).len() == chosen_in(
            events,
            events.len() as int,
        ),
    decreases events.len(),
{
    reveal(Seq::filter);
    let reset = |update: FileWatcherUpdate| update is Reset;
    if events.len() > 0 {
        let before = events.drop_last();
        let last = events.last();
        let n = events.len() - 1;
        lemma_from_readers_before(events);
        law_one_reset_for_each_choice(before);
        assert(before =~= events.take(n));
        lemma_chosen_in_prefix(events, n, n);
        assert(events[n] == last);
        if state_after(before).passes(last) {
            assert(passed_on(events).drop_last() =~= passed_on(before));
            assert(passed_on(events).last() == last.update());
        }
    }
}

/// The bytes that are left of a run of reports: a reset voids those before it.
pub open spec fn bytes_of(updates: Seq<FileWatcherUpdate>) -> Seq<u8>
    decreases updates.len(),
{
    if updates.len() == 0 {
        Seq::empty()
    } else {
        let before = bytes_of(updates.drop_last());
        match updates.last() {
            FileWatcherUpdate::Reset => Seq::empty(),
            FileWatcherUpdate::Append(bytes) => before + bytes@,
            FileWatcherUpdate::Error(_) => before,
        }
    }
}

/// The bytes that the reader of the file that was chosen last has reported.
pub open spec fn reported_bytes(events: Seq<FollowerEvent>) -> Seq<u8>
    decreases events.len(),
{
    if events.len() == 0 {
        Seq::empty()
    } else {
        let before = reported_bytes(events.drop_last());
        match events.last() {
            FollowerEvent::Chosen => Seq::empty(),
            FollowerEvent::Reported { reader, update: FileWatcherUpdate::Append(bytes) } => if reader
                == chosen_in(events, events.len() - 1) {
                before + bytes@
            } else {
                before
            },
            _ => before,
        }
    }
}

/// All bytes that were read of the file that was chosen last are passed on, and
/// no others: reports that are held back are empty.
pub proof fn law_no_bytes_are_lost(events: Seq<FollowerEvent>)
    requires
        from_readers(events),
    ensures
        bytes_of(passed_on(events)) == reported_bytes(events),
    decreases events.len(),
{
    if events.len() > 0 {
        let before = events.drop_last();
        let last = events.last();
        let n = events.len() - 1;
        lemma_from_readers_before(events);
        law_no_bytes_are_lost(before);
        assert(before =~= events.take(n));
        lemma_state_after(events, n);
        assert(!(events[n] is Reported && events[n].update() is Reset));
        if state_after(before).passes(last) {
            assert(passed_on(events).drop_last() =~= passed_on(before));
        } else if let FollowerEvent::Reported {
            reader,
            update: FileWatcherUpdate::Append(bytes),
        } = last {
            if reader == chosen_in(events, n) {
                assert(reported_bytes(before) + bytes@ =~= reported_bytes(before));
            }
        }
    }
}

/// How far a file was read in a run of attempts, from its start on.
pub open spec fn position_after(outcomes: Seq<ReadOutcome>) -> int
    decreases outcomes.len(),
{
    if outcomes.len() == 0 {
        0
    } else {
        outcomes.last().moved(position_after(outcomes.drop_last()))
    }
}

/// The bytes that are reported of a run of attempts, joined.
pub open spec fn appended(outcomes: Seq<ReadOutcome>) -> Seq<u8>
    decreases outcomes.len(),
{
    if outcomes.len() == 0 {
        Seq::empty()
    } else {
        match outcomes.last().report() {
            FileWatcherUpdate::Append(bytes) => appended(outcomes.drop_last()) + bytes@,
            _ => appended(outcomes.drop_last()),
        }
    }
}

/// Whether an attempt to read on from `pos` can end this way where the file
/// holds `content`: it may fail, or finds what stands there from `pos` on.
pub open spec fn reads_on(outcome: ReadOutcome, pos: int, content: Seq<u8>) -> bool {
    match outcome {
        ReadOutcome::NotOpened { .. } => true,
        ReadOutcome::NotRead { position, .. } => position == pos,
        ReadOutcome::Read { position, bytes } => position == pos && bytes@ == content.skip(pos),
    }
}

/// Whether `outcomes` are attempts to read a file on, each from where the one
/// before it left off, while the file only grew: at attempt `i` it held
/// `contents[i]`.
pub open spec fn reads_of_growing(outcomes: Seq<ReadOutcome>, contents: Seq<Seq<u8>>) -> bool {
    &&& outcomes.len() == contents.len()
    &&& forall|i: int, j: int|
        #![trigger contents[i], contents[j]]
        0 <= i <= j < contents.len() ==> contents[i].is_prefix_of(contents[j])
    &&& forall|i: int|
        0 <= i < outcomes.len() ==> reads_on(
            #[trigger] outcomes[i],
            position_after(outcomes.take(i)),
            contents[i],
        )
}

/// However often a file that only grows is read on, and whichever attempts
/// fail, each byte of it is reported once and in its place. After each attempt
/// the reported bytes, joined, are a start of the file, up to the position; and
/// they are all of it where the attempt did not fail. So an attempt that does
/// not fail reports just what was added behind what had been reported.
pub proof fn law_reads_join_to_the_file(
    outcomes: Seq<ReadOutcome>,
    contents: Seq<Seq<u8>>,
    n: int,
)
    requires
        reads_of_growing(outcomes, contents),
        0 < n <= outcomes.len(),
    ensures
        position_after(outcomes.take(n)) == appended(outcomes.take(n)).len(),
        appended(outcomes.take(n)).is_prefix_of(contents[n - 1]),
        outcomes[n - 1] is Read ==> appended(outcomes.take(n)) == contents[n - 1],
        outcomes[n - 1] matches ReadOutcome::Read { bytes, .. } ==> bytes@ == contents[n - 1].skip(
            appended(outcomes.take(n - 1)).len() as int,
        ),
        !(outcomes[n - 1] is Read) ==> appended(outcomes.take(n)) == appended(outcomes.take(n - 1)),
    decreases n,
{
    let before = outcomes.take(n - 1);
    assert(outcomes.take(n).drop_last() =~= before);
    assert(reads_on(outcomes[n - 1], position_after(before), contents[n - 1]));
    let content = contents[n - 1];
    if n > 1 {
        law_reads_join_to_the_file(outcomes, contents, n - 1);
        assert(contents[n - 2].is_prefix_of(content));
        assert(appended(before) =~= content.take(appended(before).len() as int));
    }
    if let ReadOutcome::Read { bytes, .. } = outcomes[n - 1] {
        assert(appended(before) + bytes@ =~= content);
    }
}

/// Notifications are asked for once more exactly where there are none, and the
/// file that is followed was readable just now; and they are given up, when
/// another file is chosen, exactly where there are some.
pub proof fn law_notifications(watching: bool, update: FileWatcherUpdate, file_path: Seq<char>)
    ensures
        file_watcher::to_unwatch(true, Some(file_path)) == Some(file_path),
        file_watcher::to_unwatch(false, Some(file_path)) is None,
        file_watcher::to_unwatch(watching, None) is None,
        file_watcher::to_watch_again(true, false, update, Some(file_path)) == (if update is Append {
            Some(file_path)
        } else {
            None
        }),
        file_watcher::to_watch_again(true, true, update, Some(file_path)) is None,
        file_watcher::to_watch_again(false, watching, update, Some(file_path)) is None,
        file_watcher::to_watch_again(true, watching, update, None) is None,
{
}

/// A follower is told of a file where it follows none yet, and of another one
/// than it follows; of the one that it follows, and of none where it follows
/// none, it is not. Once told it follows that file; where the message was lost it
/// stays where it was.
pub proof fn law_when_a_follower_is_told(
    before: Option<Seq<char>>,
    a: Seq<Seq<char>>,
    b: Seq<Seq<char>>,
)
    requires
        a.len() > 0,
        b.len() > 0,
        forall|k: int| 0 <= k < a.len() ==> path::is_name(#[trigger] a[k]),
        forall|k: int| 0 <= k < b.len() ==> path::is_name(#[trigger] b[k]),
    ensures
        ({
            let left = seq!['/'] + path::joined(a);
            let right = seq!['/'] + path::joined(b);
            &&& file_watcher::needs_telling(None, Some(right))
            &&& file_watcher::needs_telling(Some(left), None)
            &&& !file_watcher::needs_telling(None, None)
            &&& file_watcher::needs_telling(Some(left), Some(right)) <==> a != b
            &&& a != b ==> file_watcher::told(Some(left), Some(right), true) == Some(right)
            &&& file_watcher::told(None, Some(right), true) == Some(right)
            &&& file_watcher::told(Some(left), None, true) is None
            &&& file_watcher::told(before, Some(right), false) == before
        }),
{
    path::law_which_paths_are_equal(a, b);
}

/// What an attempt to read on reports, and how far the file was read then: bytes
/// that were read are appended, and the position moves behind them; an attempt
/// that failed is an error with its reason.
pub proof fn law_what_an_attempt_reports(outcome: ReadOutcome, pos: int)
    ensures
        match outcome {
            ReadOutcome::Read { position, bytes } => {
                &&& outcome.report() == FileWatcherUpdate::Append(bytes)
                &&& outcome.moved(pos) == position + bytes@.len()
            },
            ReadOutcome::NotRead { position, reason } => {
                &&& outcome.report() == FileWatcherUpdate::Error(FileWatcherError::File(reason))
                &&& outcome.moved(pos) == position
            },
            ReadOutcome::NotOpened { reason } => {
                &&& outcome.report() == FileWatcherUpdate::Error(FileWatcherError::File(reason))
                &&& outcome.moved(pos) == pos
            },
        },
{
}

} // verus!
