//! Jobs, and the memory of those that have left the queue.
use vstd::prelude::*;

use crate::text;

verus! {

/// A job as the queue reports it.
#[derive(Debug)]
pub struct Job {
    pub job_id: String,
    pub array_id: String,
    pub array_step: Option<String>,
    pub name: String,
    pub state: String,
    pub state_compact: String,
    pub reason: Option<String>,
    pub user: String,
    pub time: String,
    pub time_limit: String,
    pub start_time: String,
    pub tres: String,
    pub partition: String,
    pub nodelist: String,
    pub stdout: Option<String>,
    pub stderr: Option<String>,
    pub command: String,
    pub finished: bool,
}

/// The value of a [`Job`].
pub struct JobView {
    pub job_id: Seq<char>,
    pub array_id: Seq<char>,
    pub array_step: Option<Seq<char>>,
    pub name: Seq<char>,
    pub state: Seq<char>,
    pub state_compact: Seq<char>,
    pub reason: Option<Seq<char>>,
    pub user: Seq<char>,
    pub time: Seq<char>,
    pub time_limit: Seq<char>,
    pub start_time: Seq<char>,
    pub tres: Seq<char>,
    pub partition: Seq<char>,
    pub nodelist: Seq<char>,
    pub stdout: Option<Seq<char>>,
    pub stderr: Option<Seq<char>>,
    pub command: Seq<char>,
    pub finished: bool,
}

impl View for Job {
    type V = JobView;

    open spec fn view(&self) -> JobView {
        JobView {
            job_id: self.job_id@,
            array_id: self.array_id@,
            array_step: text::option_view(self.array_step),
            name: self.name@,
            state: self.state@,
            state_compact: self.state_compact@,
            reason: text::option_view(self.reason),
            user: self.user@,
            time: self.time@,
            time_limit: self.time_limit@,
            start_time: self.start_time@,
            tres: self.tres@,
            partition: self.partition@,
            nodelist: self.nodelist@,
            stdout: text::option_view(self.stdout),
            stderr: text::option_view(self.stderr),
            command: self.command@,
            finished: self.finished,
        }
    }
}

/// The values of a sequence of jobs.
pub open spec fn job_views(jobs: Seq<Job>) -> Seq<JobView> {
    jobs.map_values(|j: Job| j@)
}

impl JobView {
    /// What the job is called in the queue: its number, or, for an element of
    /// an array, the array's number and the element's.
    pub open spec fn id(self) -> Seq<char> {
        match self.array_step {
            Some(step) => self.array_id.push('_') + step,
            None => self.job_id,
        }
    }
}

impl Clone for Job {
    fn clone(&self) -> (r: Self)
        ensures
            r == *self,
    {
        Job {
            job_id: self.job_id.clone(),
            array_id: self.array_id.clone(),
            array_step: text::clone_option(&self.array_step),
            name: self.name.clone(),
            state: self.state.clone(),
            state_compact: self.state_compact.clone(),
            reason: text::clone_option(&self.reason),
            user: self.user.clone(),
            time: self.time.clone(),
            time_limit: self.time_limit.clone(),
            start_time: self.start_time.clone(),
            tres: self.tres.clone(),
            partition: self.partition.clone(),
            nodelist: self.nodelist.clone(),
            stdout: text::clone_option(&self.stdout),
            stderr: text::clone_option(&self.stderr),
            command: self.command.clone(),
            finished: self.finished,
        }
    }
}

impl Job {
    /// What the job is called in the queue.
    pub fn id(&self) -> (r: String)
        ensures
            r@ == self@.id(),
    {
        match &self.array_step {
            Some(step) => {
                let mut r: String = self.array_id.clone();
                r.push('_');
                r.append(step.as_str());
                r
            },
            None => self.job_id.clone(),
        }
    }
}

/// A job that is in the queue.
pub open spec fn active(job: JobView) -> JobView {
    JobView { finished: false, ..job }
}

/// A job that has left the queue. How it ended is not known.
pub open spec fn retired(job: JobView) -> JobView {
    if job.finished {
        job
    } else {
        JobView {
            finished: true,
            state: "FINISHED"@,
            state_compact: "F"@,
            reason: None,
            ..job
        }
    }
}

/// Whether one of `jobs` is called `id`.
pub open spec fn lists(jobs: Seq<JobView>, id: Seq<char>) -> bool {
    exists|i: int| 0 <= i < jobs.len() && (#[trigger] jobs[i]).id() == id
}

/// The jobs of `previous` that `current` does not list, retired.
pub open spec fn gone(previous: Seq<JobView>, current: Seq<JobView>) -> Seq<JobView>
    decreases previous.len(),
{
    if previous.len() == 0 {
        Seq::empty()
    } else {
        let before = gone(previous.drop_last(), current);
        if lists(current, previous.last().id()) {
            before
        } else {
            before.push(retired(previous.last()))
        }
    }
}

/// What is remembered after a refresh: the jobs of the queue, then those that
/// have left it.
pub open spec fn refreshed(previous: Seq<JobView>, current: Seq<JobView>) -> Seq<JobView> {
    current.map_values(|j: JobView| active(j)) + gone(previous, current)
}

fn list_holds(jobs: &Vec<Job>, count: usize, id: &String) -> (r: bool)
    requires
        count <= jobs@.len(),
    ensures
        r == lists(job_views(jobs@).take(count as int), id@),
{
    let mut i: usize = 0;
    while i < count
        invariant
            i <= count <= jobs@.len(),
            forall|k: int| 0 <= k < i ==> (#[trigger] job_views(jobs@)[k]).id() != id@,
        decreases count - i,
    {
        let other: String = jobs[i].id();
        if other == *id {
            proof {
                assert(job_views(jobs@).take(count as int)[i as int].id() == id@);
            }
            return true;
        }
        assert(job_views(jobs@)[i as int] == jobs@[i as int]@);
        i += 1;
    }
    assert forall|k: int| 0 <= k < count implies (#[trigger] job_views(jobs@).take(
        count as int,
    )[k]).id() != id@ by {
        assert(job_views(jobs@).take(count as int)[k] == job_views(jobs@)[k]);
    }
    false
}

/// What is remembered after a refresh that brought `current`.
pub fn remember_finished_jobs(previous: Vec<Job>, current: Vec<Job>) -> (r: Vec<Job>)
    ensures
        job_views(r@) == refreshed(job_views(previous@), job_views(current@)),
{
    let ghost old_jobs = job_views(previous@);
    let ghost new_jobs = job_views(current@);
    let mut result: Vec<Job> = current;
    let count: usize = result.len();
    let ghost listed = new_jobs.map_values(|j: JobView| active(j));
    let mut i: usize = 0;
    while i < count
        invariant
            i <= count == result@.len(),
            count == new_jobs.len(),
            listed == new_jobs.map_values(|j: JobView| active(j)),
            forall|k: int| 0 <= k < i ==> (#[trigger] result@[k])@ == active(new_jobs[k]),
            forall|k: int| i <= k < count ==> (#[trigger] result@[k])@ == new_jobs[k],
        decreases count - i,
    {
        result[i].finished = false;
        i += 1;
    }
    proof {
        assert(job_views(result@) =~= listed);
        assert(listed + gone(old_jobs.take(0), new_jobs) =~= listed);
    }
    for job in it: previous
        invariant
            old_jobs == job_views(it.seq()),
            count == new_jobs.len(),
            count <= result@.len(),
            listed == new_jobs.map_values(|j: JobView| active(j)),
            job_views(result@) == listed + gone(old_jobs.take(it.index() as int), new_jobs),
    {
        let ghost k = it.index() as int;
        let ghost before = job_views(result@);
        proof {
            assert(old_jobs[k] == job@);
            assert(old_jobs.take(k + 1).drop_last() =~= old_jobs.take(k));
            assert(before.take(count as int) =~= listed);
            lemma_lists_active(new_jobs, job@.id());
        }
        let id: String = job.id();
        if !list_holds(&result, count, &id) {
            let mut left: Job = job;
            if !left.finished {
                left.finished = true;
                left.state = "FINISHED".to_owned();
                left.state_compact = "F".to_owned();
                left.reason = None;
            }
            let ghost view = left@;
            result.push(left);
            proof {
                assert(view == retired(old_jobs[k]));
                assert(job_views(result@) =~= before.push(view));
                assert(job_views(result@) =~= listed + gone(old_jobs.take(k + 1), new_jobs));
            }
        }
    }
    proof {
        assert(old_jobs.take(old_jobs.len() as int) =~= old_jobs);
    }
    result
}

/// Jobs are listed under the same names whether or not they count as active.
proof fn lemma_lists_active(jobs: Seq<JobView>, id: Seq<char>)
    ensures
        lists(jobs.map_values(|j: JobView| active(j)), id) == lists(jobs, id),
{
    let other = jobs.map_values(|j: JobView| active(j));
    if lists(jobs, id) {
        let i = choose|i: int| 0 <= i < jobs.len() && (#[trigger] jobs[i]).id() == id;
        assert(other[i].id() == id);
    }
    if lists(other, id) {
        let i = choose|i: int| 0 <= i < other.len() && (#[trigger] other[i]).id() == id;
        assert(jobs[i].id() == id);
    }
}

/// The jobs that are shown: all of them, or those that have not finished.
pub open spec fn shown(jobs: Seq<JobView>, show_finished: bool) -> Seq<JobView> {
    jobs.filter(|j: JobView| show_finished || !j.finished)
}

/// The jobs to show of those that are remembered.
pub fn visible_jobs(remembered: &[Job], show_finished: bool) -> (r: Vec<Job>)
    ensures
        job_views(r@) == shown(job_views(remembered@), show_finished),
{
    let ghost keep = |j: JobView| show_finished || !j.finished;
    let ghost all = job_views(remembered@);
    let mut jobs: Vec<Job> = Vec::new();
    let mut i: usize = 0;
    assert(job_views(jobs@) =~= all.take(0).filter(keep)) by {
        reveal(Seq::filter);
    }
    while i < remembered.len()
        invariant
            i <= remembered@.len(),
            keep == (|j: JobView| show_finished || !j.finished),
            all == job_views(remembered@),
            job_views(jobs@) == all.take(i as int).filter(keep),
        decreases remembered@.len() - i,
    {
        let ghost before = job_views(jobs@);
        proof {
            reveal(Seq::filter);
            assert(all.take(i + 1).drop_last() =~= all.take(i as int));
            assert(all.take(i + 1).last() == remembered@[i as int]@);
        }
        if show_finished || !remembered[i].finished {
            jobs.push(remembered[i].clone());
            assert(job_views(jobs@) =~= before.push(all[i as int]));
        }
        i += 1;
    }
    assert(all.take(i as int) =~= all);
    jobs
}

/// Everything that [`gone`] holds has finished and is not in the queue.
proof fn lemma_gone(previous: Seq<JobView>, current: Seq<JobView>)
    ensures
        forall|k: int|
            0 <= k < gone(previous, current).len() ==> (#[trigger] gone(previous, current)[k]).finished
                && !lists(current, gone(previous, current)[k].id()),
    decreases previous.len(),
{
    if previous.len() > 0 {
        lemma_gone(previous.drop_last(), current);
    }
}

/// After a refresh a remembered job counts as finished exactly where the queue
/// does not list it; those that it lists come first, as it reported them.
pub proof fn law_finished_means_left_the_queue(previous: Seq<JobView>, current: Seq<JobView>, k: int)
    requires
        0 <= k < refreshed(previous, current).len(),
    ensures
        refreshed(previous, current)[k].finished == !lists(
            current,
            refreshed(previous, current)[k].id(),
        ),
        k < current.len() ==> refreshed(previous, current)[k] == active(current[k]),
{
    lemma_gone(previous, current);
    if k < current.len() {
        assert(current[k].id() == active(current[k]).id());
    } else {
        assert(refreshed(previous, current)[k] == gone(previous, current)[k - current.len()]);
    }
}

proof fn lemma_gone_keeps(previous: Seq<JobView>, current: Seq<JobView>, i: int)
    requires
        0 <= i < previous.len(),
        !lists(current, previous[i].id()),
    ensures
        gone(previous, current).contains(retired(previous[i])),
    decreases previous.len(),
{
    let before = gone(previous.drop_last(), current);
    let all = gone(previous, current);
    if i == previous.len() - 1 {
        assert(all[all.len() - 1] == retired(previous[i]));
    } else {
        lemma_gone_keeps(previous.drop_last(), current, i);
        let k = choose|k: int| 0 <= k < before.len() && before[k] == retired(previous[i]);
        assert(all[k] == before[k]);
    }
}

/// No job is forgotten: whatever was remembered before a refresh is remembered
/// after it, under the same name. One that left the queue keeps all that was
/// known of it but its state.
pub proof fn law_no_job_is_forgotten(previous: Seq<JobView>, current: Seq<JobView>, i: int)
    requires
        0 <= i < previous.len(),
    ensures
        lists(refreshed(previous, current), previous[i].id()),
        !lists(current, previous[i].id()) ==> refreshed(previous, current).contains(
            retired(previous[i]),
        ),
{
    let all = refreshed(previous, current);
    let id = previous[i].id();
    if lists(current, id) {
        let k = choose|k: int| 0 <= k < current.len() && (#[trigger] current[k]).id() == id;
        assert(all[k] == active(current[k]));
        assert(all[k].id() == id);
    } else {
        lemma_gone_keeps(previous, current, i);
        let rest = gone(previous, current);
        let k = choose|k: int| 0 <= k < rest.len() && rest[k] == retired(previous[i]);
        assert(all[current.len() + k] == rest[k]);
        assert(all[current.len() + k].id() == id);
    }
}

/// Whether two jobs are the same but for how they are doing: in every field
/// other than `finished`, `state`, `state_compact` and `reason`.
pub open spec fn same_job(a: JobView, b: JobView) -> bool {
    &&& a.job_id == b.job_id
    &&& a.array_id == b.array_id
    &&& a.array_step == b.array_step
    &&& a.name == b.name
    &&& a.user == b.user
    &&& a.time == b.time
    &&& a.time_limit == b.time_limit
    &&& a.start_time == b.start_time
    &&& a.tres == b.tres
    &&& a.partition == b.partition
    &&& a.nodelist == b.nodelist
    &&& a.stdout == b.stdout
    &&& a.stderr == b.stderr
    &&& a.command == b.command
}

/// A job that the queue no longer lists is remembered as it was known, as
/// finished. One that was not known to have finished is marked so: its state is
/// `FINISHED`, or `F` in short, and it has no reason. One that was keeps its
/// marks.
pub proof fn law_what_is_known_of_a_job_stays(
    previous: Seq<JobView>,
    current: Seq<JobView>,
    i: int,
)
    requires
        0 <= i < previous.len(),
        !lists(current, previous[i].id()),
    ensures
        exists|k: int|
            current.len() <= k < refreshed(previous, current).len() && {
                let kept = #[trigger] refreshed(previous, current)[k];
                let known = previous[i];
                &&& same_job(kept, known)
                &&& kept.finished
                &&& !known.finished ==> kept.state == "FINISHED"@ && kept.state_compact == "F"@
                    && kept.reason is None
                &&& known.finished ==> kept.state == known.state && kept.state_compact
                    == known.state_compact && kept.reason == known.reason
            },
{
    lemma_gone_keeps(previous, current, i);
    let rest = gone(previous, current);
    let k = choose|k: int| 0 <= k < rest.len() && rest[k] == retired(previous[i]);
    assert(refreshed(previous, current)[current.len() + k] == rest[k]);
}

/// The jobs of the queue come first after a refresh, in its order and with all
/// that it reported of them, as not finished.
pub proof fn law_the_queue_comes_first(previous: Seq<JobView>, current: Seq<JobView>, k: int)
    requires
        0 <= k < current.len(),
    ensures
        refreshed(previous, current).len() >= current.len(),
        ({
            let kept = refreshed(previous, current)[k];
            let told = current[k];
            &&& same_job(kept, told)
            &&& kept.state == told.state
            &&& kept.state_compact == told.state_compact
            &&& kept.reason == told.reason
            &&& !kept.finished
        }),
{
}

/// How many of the first `n` jobs are not listed by `current`.
pub open spec fn missing(previous: Seq<JobView>, current: Seq<JobView>, n: int) -> int
    decreases n,
{
    if n <= 0 {
        0
    } else if lists(current, previous[n - 1].id()) {
        missing(previous, current, n - 1)
    } else {
        missing(previous, current, n - 1) + 1
    }
}

/// Behind the jobs of the queue come those that it no longer lists, each one
/// once, in the order in which they were remembered, and nothing else.
pub proof fn law_jobs_that_left_keep_their_order(
    previous: Seq<JobView>,
    current: Seq<JobView>,
    i: int,
)
    requires
        0 <= i <= previous.len(),
    ensures
        refreshed(previous, current).len() == current.len() + missing(
            previous,
            current,
            previous.len() as int,
        ),
        i < previous.len() && !lists(current, previous[i].id()) ==> same_job(
            refreshed(previous, current)[current.len() + missing(previous, current, i)],
            previous[i],
        ),
{
    lemma_gone_order(previous, current, previous.len() as int, i);
    assert(previous.take(previous.len() as int) =~= previous);
}

proof fn lemma_gone_order(previous: Seq<JobView>, current: Seq<JobView>, n: int, i: int)
    requires
        0 <= n <= previous.len(),
        0 <= i,
    ensures
        gone(previous.take(n), current).len() == missing(previous, current, n),
        i < n && !lists(current, previous[i].id()) ==> {
            &&& 0 <= missing(previous, current, i) < missing(previous, current, n)
            &&& gone(previous.take(n), current)[missing(previous, current, i)] == retired(
                previous[i],
            )
        },
    decreases n,
{
    if n > 0 {
        lemma_gone_order(previous, current, n - 1, i);
        lemma_gone_order(previous, current, n - 1, n - 1);
        assert(previous.take(n).drop_last() =~= previous.take(n - 1));
        assert(previous.take(n).last() == previous[n - 1]);
    }
}

/// A job is called by its number; an element of an array by the number of the
/// array, an underscore and its own.
pub proof fn law_what_a_job_is_called(job: JobView)
    ensures
        job.array_step is None ==> job.id() == job.job_id,
        job.array_step matches Some(step) ==> job.id() == job.array_id + "_"@ + step,
{
    reveal_strlit("_");
    if let Some(step) = job.array_step {
        assert(job.id() =~= job.array_id + "_"@ + step);
    }
}

/// With finished jobs shown, all that are remembered are listed, in their order.
/// Without them, the ones that have not finished are: each of them is listed,
/// and each that is listed is one of them.
pub proof fn law_which_jobs_are_listed(jobs: Seq<JobView>, job: JobView)
    ensures
        shown(jobs, true) == jobs,
        shown(jobs, false).contains(job) <==> jobs.contains(job) && !job.finished,
        (forall|k: int| 0 <= k < jobs.len() ==> !(#[trigger] jobs[k]).finished) ==> shown(
            jobs,
            false,
        ) == jobs,
    decreases jobs.len(),
{
    reveal(Seq::filter);
    if jobs.len() > 0 {
        let front = jobs.drop_last();
        law_which_jobs_are_listed(front, job);
        assert(front.push(jobs.last()) =~= jobs);
        if jobs.contains(job) {
            let k = choose|k: int| 0 <= k < jobs.len() && jobs[k] == job;
            if k < front.len() {
                assert(front[k] == job);
            }
        }
        if front.contains(job) {
            let k = choose|k: int| 0 <= k < front.len() && front[k] == job;
            assert(jobs[k] == job);
        }
        assert(jobs[jobs.len() - 1] == jobs.last());
        let before = shown(front, false);
        if !jobs.last().finished {
            assert(shown(jobs, false) == before.push(jobs.last()));
            if before.contains(job) {
                let k = choose|k: int| 0 <= k < before.len() && before[k] == job;
                assert(before.push(jobs.last())[k] == job);
            }
            assert(before.push(jobs.last())[before.len() as int] == jobs.last());
            if shown(jobs, false).contains(job) && job != jobs.last() {
                let k = choose|k: int|
                    0 <= k < shown(jobs, false).len() && shown(jobs, false)[k] == job;
                assert(before[k] == job);
            }
        } else {
            assert(shown(jobs, false) == before);
        }
        assert forall|k: int| 0 <= k < front.len() implies #[trigger] front[k] == jobs[k] by {}
    } else {
        assert(shown(jobs, true) =~= jobs);
        assert(shown(jobs, false) =~= jobs);
    }
}

/// Jobs that are listed without the finished ones keep their order: what is
/// listed of two runs of jobs is what is listed of the first, and then of the
/// second.
pub proof fn law_listed_jobs_keep_their_order(a: Seq<JobView>, b: Seq<JobView>)
    ensures
        shown(a + b, false) == shown(a, false) + shown(b, false),
    decreases b.len(),
{
    reveal(Seq::filter);
    if b.len() == 0 {
        assert(a + b =~= a);
        assert(shown(a, false) + shown(b, false) =~= shown(a, false));
    } else {
        law_listed_jobs_keep_their_order(a, b.drop_last());
        assert((a + b).drop_last() =~= a + b.drop_last());
        assert(shown(a + b, false) =~= shown(a, false) + shown(b, false));
    }
}

proof fn lemma_gone_listed(jobs: Seq<JobView>, current: Seq<JobView>)
    requires
        forall|k: int| 0 <= k < jobs.len() ==> lists(current, (#[trigger] jobs[k]).id()),
    ensures
        gone(jobs, current) == Seq::<JobView>::empty(),
    decreases jobs.len(),
{
    if jobs.len() > 0 {
        assert(lists(current, jobs[jobs.len() - 1].id()));
        assert forall|k: int| 0 <= k < jobs.drop_last().len() implies lists(
            current,
            (#[trigger] jobs.drop_last()[k]).id(),
        ) by {
            assert(jobs.drop_last()[k] == jobs[k]);
        }
        lemma_gone_listed(jobs.drop_last(), current);
    }
}

proof fn lemma_gone_concat(a: Seq<JobView>, b: Seq<JobView>, current: Seq<JobView>)
    ensures
        gone(a + b, current) == gone(a, current) + gone(b, current),
    decreases b.len(),
{
    if b.len() == 0 {
        assert(a + b =~= a);
        assert(gone(a, current) + gone(b, current) =~= gone(a, current));
    } else {
        lemma_gone_concat(a, b.drop_last(), current);
        assert((a + b).drop_last() =~= a + b.drop_last());
        assert(gone(a + b, current) =~= gone(a, current) + gone(b, current));
    }
}

proof fn lemma_gone_again(previous: Seq<JobView>, current: Seq<JobView>)
    ensures
        gone(gone(previous, current), current) == gone(previous, current),
    decreases previous.len(),
{
    if previous.len() > 0 {
        let before = gone(previous.drop_last(), current);
        lemma_gone_again(previous.drop_last(), current);
        if !lists(current, previous.last().id()) {
            let last = retired(previous.last());
            assert(last.id() == previous.last().id());
            assert(before.push(last).drop_last() =~= before);
        }
    }
}

/// A second refresh with the same queue changes nothing.
pub proof fn law_refresh_is_idempotent(previous: Seq<JobView>, current: Seq<JobView>)
    ensures
        refreshed(refreshed(previous, current), current) == refreshed(previous, current),
{
    let listed = current.map_values(|j: JobView| active(j));
    let rest = gone(previous, current);
    assert forall|k: int| 0 <= k < listed.len() implies lists(
        current,
        (#[trigger] listed[k]).id(),
    ) by {
        assert(current[k].id() == listed[k].id());
    }
    lemma_gone_listed(listed, current);
    lemma_gone_concat(listed, rest, current);
    lemma_gone_again(previous, current);
    assert(gone(listed + rest, current) =~= rest);
}

} // verus!
