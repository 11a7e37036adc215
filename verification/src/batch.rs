//! A batch of download tasks that draw on one pool.
//!
//! The tasks run side by side and meet only at the pool, where taking a
//! candidate is one step that no other task can cut into. Whatever the
//! timing, the batch therefore moves as if one task at a time made one move.
//! `Batch` is that picture of it, and the lemmas here say what holds of
//! every run.

use vstd::prelude::*;
use vstd::set_lib::{lemma_int_range, lemma_len_subset, set_int_range};
use crate::error::DownloadError;
use crate::reserve::{stem, stems_of};
use crate::task::{file_name, PhaseView, Task, TaskView};
use crate::text::{decimal, is_digit, lemma_decimal_digits, lemma_decimal_injective, texts};

verus! {

/// What a task is told.
pub enum Event {
    /// To take a candidate from the pool.
    Acquire,
    /// The verdict on the bytes it fetched.
    Settle(Result<Seq<char>, DownloadError>),
    /// That its fetch failed.
    FetchFailed,
    /// That its file was written.
    Written,
    /// That its file could not be written.
    WriteFailed,
}

/// One move of a batch: the task at index `task` is told `event`.
pub struct Move {
    pub task: int,
    pub event: Event,
}

/// A pool and the tasks that draw on it.
pub struct Batch {
    /// The candidates not yet taken.
    pub pool: Seq<Seq<char>>,
    /// The tasks, one for each file name stem.
    pub tasks: Seq<TaskView>,
    /// For each candidate taken so far, in the order of taking, the index of
    /// the task that took it.
    pub served: Seq<int>,
}

impl Batch {
    /// A batch at its start: every candidate in the pool and every task
    /// waiting.
    pub open spec fn start(pool: Seq<Seq<char>>, stems: Seq<Seq<char>>) -> Batch {
        Batch {
            pool,
            tasks: Seq::new(stems.len(), |i: int| TaskView::fresh(stems[i])),
            served: Seq::empty(),
        }
    }

    /// The batch with the task at `index` replaced.
    pub open spec fn with_task(self, index: int, task: TaskView) -> Batch {
        Batch { tasks: self.tasks.update(index, task), ..self }
    }

    /// The batch after one move. A move for a task that is not there, or
    /// that does not answer the task's phase, changes nothing.
    pub open spec fn moved(self, step: Move) -> Batch {
        if 0 <= step.task < self.tasks.len() {
            let task = self.tasks[step.task];
            match step.event {
                Event::Acquire => if !(task.phase is Waiting) {
                    self
                } else if self.pool.len() > 0 {
                    Batch {
                        pool: self.pool.skip(1),
                        tasks: self.tasks.update(step.task, task.offered(Some(self.pool[0]))),
                        served: self.served.push(step.task),
                    }
                } else {
                    self.with_task(step.task, task.offered(None))
                },
                Event::Settle(verdict) => self.with_task(step.task, task.settled(verdict)),
                Event::FetchFailed => self.with_task(step.task, task.unfetched()),
                Event::Written => self.with_task(step.task, task.stored()),
                Event::WriteFailed => self.with_task(step.task, task.unstored()),
            }
        } else {
            self
        }
    }

    /// The batch after a run of moves.
    pub open spec fn after(self, steps: Seq<Move>) -> Batch
        decreases steps.len(),
    {
        if steps.len() == 0 {
            self
        } else {
            self.after(steps.drop_last()).moved(steps.last())
        }
    }

    /// Every task is over.
    pub open spec fn is_over(self) -> bool {
        forall|i: int| 0 <= i < self.tasks.len() ==> (#[trigger] self.tasks[i]).is_over()
    }
}

/// The names of the files that `tasks` have written, in the order of the
/// tasks. A task that is not done adds nothing.
pub open spec fn written(tasks: Seq<TaskView>) -> Seq<Seq<char>>
    decreases tasks.len(),
{
    if tasks.len() == 0 {
        Seq::empty()
    } else {
        let before = written(tasks.drop_last());
        match tasks.last().phase {
            PhaseView::Done(name) => before.push(name),
            _ => before,
        }
    }
}

/// The tasks of a list as plain values.
pub open spec fn task_views(tasks: Seq<Task>) -> Seq<TaskView> {
    tasks.map_values(|task: Task| task@)
}

/// Gathers the names of the files that `tasks` have written. A task that
/// ended without a file, or has not ended, is passed over in silence.
pub fn gather(tasks: &Vec<Task>) -> (names: Vec<String>)
    ensures
        texts(names@) == written(task_views(tasks@)),
{
    let mut names: Vec<String> = Vec::new();
    let mut at: usize = 0;
    proof {
        assert(texts(names@) =~= written(task_views(tasks@).take(0)));
    }
    while at < tasks.len()
        invariant
            at <= tasks.len(),
            texts(names@) == written(task_views(tasks@).take(at as int)),
        decreases tasks.len() - at,
    {
        let ghost before = names@;
        proof {
            let views = task_views(tasks@);
            assert(views.take(at + 1).drop_last() =~= views.take(at as int));
            assert(views.take(at + 1).last() == tasks@[at as int]@);
        }
        match tasks[at].result() {
            Some(Ok(name)) => {
                names.push(name);
                proof {
                    assert(texts(names@) =~= texts(before).push(name@));
                }
            },
            _ => {},
        }
        at += 1;
    }
    proof {
        assert(task_views(tasks@).take(tasks.len() as int) =~= task_views(tasks@));
    }
    names
}

/// Every candidate is taken at most once. Whatever the moves, the pool is
/// what is left of it behind the candidates taken, so it never grows and no
/// candidate comes back; the candidate at index `k` of the pool at the start
/// went to the task `served[k]` and to no other; and the tasks keep their
/// number and their stems.
pub proof fn lemma_candidates_are_taken_once(
    pool: Seq<Seq<char>>,
    stems: Seq<Seq<char>>,
    steps: Seq<Move>,
)
    ensures
        ({
            let end = Batch::start(pool, stems).after(steps);
            &&& end.served.len() <= pool.len()
            &&& end.pool == pool.skip(end.served.len() as int)
            &&& end.pool.len() <= pool.len()
            &&& end.tasks.len() == stems.len()
            &&& forall|i: int| 0 <= i < stems.len() ==> (#[trigger] end.tasks[i]).stem == stems[i]
            &&& forall|k: int|
                0 <= k < end.served.len() ==> 0 <= #[trigger] end.served[k] < stems.len()
        }),
    decreases steps.len(),
{
    let begin = Batch::start(pool, stems);
    if steps.len() == 0 {
        assert(begin.pool =~= pool.skip(0));
    } else {
        lemma_candidates_are_taken_once(pool, stems, steps.drop_last());
        let before = begin.after(steps.drop_last());
        let end = before.moved(steps.last());
        assert(end.pool =~= pool.skip(end.served.len() as int));
    }
}

/// No move adds a candidate to the pool: a move takes the one at the front
/// or leaves the pool as it is.
pub proof fn lemma_pool_never_grows(batch: Batch, step: Move)
    ensures
        batch.moved(step).pool == batch.pool || (batch.pool.len() > 0 && batch.moved(step).pool
            == batch.pool.skip(1)),
        batch.moved(step).pool.len() <= batch.pool.len(),
{
}

/// A task that is over stays as it is, whatever it is told: a stem gives one
/// file at most.
pub proof fn lemma_over_is_for_good(batch: Batch, step: Move, index: int)
    requires
        0 <= index < batch.tasks.len(),
        batch.tasks[index].is_over(),
    ensures
        batch.moved(step).tasks.len() == batch.tasks.len(),
        batch.moved(step).tasks[index] == batch.tasks[index],
{
}

/// How many of the candidates in `pool` are in `valid`.
pub open spec fn count_valid(pool: Seq<Seq<char>>, valid: Set<Seq<char>>) -> nat
    decreases pool.len(),
{
    if pool.len() == 0 {
        0
    } else {
        count_valid(pool.skip(1), valid) + if valid.contains(pool[0]) {
            1nat
        } else {
            0nat
        }
    }
}

/// A move is honest about `valid` where it passes no verdict of success on
/// the bytes of a candidate that is not in `valid`.
pub open spec fn honest(batch: Batch, step: Move, valid: Set<Seq<char>>) -> bool {
    if 0 <= step.task < batch.tasks.len() {
        match (step.event, batch.tasks[step.task].phase) {
            (Event::Settle(Ok(_)), PhaseView::Fetching(url)) => valid.contains(url),
            _ => true,
        }
    } else {
        true
    }
}

/// Every move of the run from `begin` is honest about `valid`.
pub open spec fn truthful(begin: Batch, steps: Seq<Move>, valid: Set<Seq<char>>) -> bool
    decreases steps.len(),
{
    steps.len() == 0 || (truthful(begin, steps.drop_last(), valid) && honest(
        begin.after(steps.drop_last()),
        steps.last(),
        valid,
    ))
}

/// What a task can still add to the files: 1 where it has a file, is writing
/// one, or is fetching a candidate in `valid`.
pub open spec fn promise(task: TaskView, valid: Set<Seq<char>>) -> nat {
    match task.phase {
        PhaseView::Done(_) => 1,
        PhaseView::Writing(_) => 1,
        PhaseView::Fetching(url) => if valid.contains(url) {
            1
        } else {
            0
        },
        _ => 0,
    }
}

/// The promises of `tasks` together.
pub open spec fn promises(tasks: Seq<TaskView>, valid: Set<Seq<char>>) -> nat
    decreases tasks.len(),
{
    if tasks.len() == 0 {
        0
    } else {
        promises(tasks.drop_last(), valid) + promise(tasks.last(), valid)
    }
}

proof fn lemma_promises_update(
    tasks: Seq<TaskView>,
    index: int,
    task: TaskView,
    valid: Set<Seq<char>>,
)
    requires
        0 <= index < tasks.len(),
    ensures
        promises(tasks.update(index, task), valid) + promise(tasks[index], valid) == promises(
            tasks,
            valid,
        ) + promise(task, valid),
    decreases tasks.len(),
{
    let front = tasks.drop_last();
    if index == tasks.len() - 1 {
        assert(tasks.update(index, task).drop_last() =~= front);
    } else {
        lemma_promises_update(front, index, task, valid);
        assert(tasks.update(index, task).drop_last() =~= front.update(index, task));
    }
}

proof fn lemma_written_within_promises(tasks: Seq<TaskView>, valid: Set<Seq<char>>)
    ensures
        written(tasks).len() <= promises(tasks, valid),
    decreases tasks.len(),
{
    if tasks.len() > 0 {
        lemma_written_within_promises(tasks.drop_last(), valid);
    }
}

proof fn lemma_no_promise_at_start(stems: Seq<Seq<char>>, valid: Set<Seq<char>>)
    ensures
        promises(Batch::start(Seq::empty(), stems).tasks, valid) == 0,
    decreases stems.len(),
{
    let tasks = Batch::start(Seq::empty(), stems).tasks;
    if stems.len() > 0 {
        lemma_no_promise_at_start(stems.drop_last(), valid);
        assert(tasks.drop_last() =~= Batch::start(Seq::empty(), stems.drop_last()).tasks);
    }
}

proof fn lemma_honest_move_keeps_promise(batch: Batch, step: Move, valid: Set<Seq<char>>)
    requires
        honest(batch, step, valid),
    ensures
        promises(batch.moved(step).tasks, valid) + count_valid(batch.moved(step).pool, valid)
            <= promises(batch.tasks, valid) + count_valid(batch.pool, valid),
{
    if 0 <= step.task < batch.tasks.len() {
        let after = batch.moved(step);
        if after.tasks != batch.tasks {
            let task = after.tasks[step.task];
            assert(after.tasks =~= batch.tasks.update(step.task, task));
            lemma_promises_update(batch.tasks, step.task, task, valid);
        }
    }
}

/// There are no more files than valid candidates. Where no task is told that
/// the bytes of a candidate outside `valid` are those of an image, the files
/// written are at most as many as the candidates of the pool that are in
/// `valid`; with fewer of those than tasks, the other tasks end without a
/// file.
pub proof fn lemma_files_within_valid_candidates(
    pool: Seq<Seq<char>>,
    stems: Seq<Seq<char>>,
    steps: Seq<Move>,
    valid: Set<Seq<char>>,
)
    requires
        truthful(Batch::start(pool, stems), steps, valid),
    ensures
        written(Batch::start(pool, stems).after(steps).tasks).len() <= count_valid(pool, valid),
        written(Batch::start(pool, stems).after(steps).tasks).len() <= stems.len(),
{
    let end = Batch::start(pool, stems).after(steps);
    lemma_promise_never_grows(pool, stems, steps, valid);
    lemma_written_within_promises(end.tasks, valid);
    lemma_candidates_are_taken_once(pool, stems, steps);
    lemma_written_bounded(end.tasks);
}

proof fn lemma_promise_never_grows(
    pool: Seq<Seq<char>>,
    stems: Seq<Seq<char>>,
    steps: Seq<Move>,
    valid: Set<Seq<char>>,
)
    requires
        truthful(Batch::start(pool, stems), steps, valid),
    ensures
        promises(Batch::start(pool, stems).after(steps).tasks, valid) + count_valid(
            Batch::start(pool, stems).after(steps).pool,
            valid,
        ) <= count_valid(pool, valid),
    decreases steps.len(),
{
    let begin = Batch::start(pool, stems);
    if steps.len() == 0 {
        lemma_no_promise_at_start(stems, valid);
        assert(begin.tasks =~= Batch::start(Seq::empty(), stems).tasks);
    } else {
        lemma_promise_never_grows(pool, stems, steps.drop_last(), valid);
        lemma_honest_move_keeps_promise(begin.after(steps.drop_last()), steps.last(), valid);
    }
}

/// There are never more files than tasks.
pub proof fn lemma_written_bounded(tasks: Seq<TaskView>)
    ensures
        written(tasks).len() <= tasks.len(),
    decreases tasks.len(),
{
    if tasks.len() > 0 {
        lemma_written_bounded(tasks.drop_last());
    }
}

/// A move is fair to `valid` where it tells no task that the bytes of a
/// candidate in `valid` could not be fetched or are no image, and tells no
/// task at all that its file could not be written.
pub open spec fn fair(batch: Batch, step: Move, valid: Set<Seq<char>>) -> bool {
    if 0 <= step.task < batch.tasks.len() {
        match (step.event, batch.tasks[step.task].phase) {
            (Event::Settle(Err(_)), PhaseView::Fetching(url)) => !valid.contains(url),
            (Event::FetchFailed, PhaseView::Fetching(url)) => !valid.contains(url),
            (Event::WriteFailed, PhaseView::Writing(_)) => false,
            _ => true,
        }
    } else {
        true
    }
}

/// Every move of the run from `begin` is fair to `valid`.
pub open spec fn favourable(begin: Batch, steps: Seq<Move>, valid: Set<Seq<char>>) -> bool
    decreases steps.len(),
{
    steps.len() == 0 || (favourable(begin, steps.drop_last(), valid) && fair(
        begin.after(steps.drop_last()),
        steps.last(),
        valid,
    ))
}

/// `name` is a file name on `stem`.
pub open spec fn named_on(stem: Seq<char>, name: Seq<char>) -> bool {
    exists|extension: Seq<char>| name == file_name(stem, extension)
}

/// File names on the stems of different numbers differ, whatever their
/// extensions: behind the base name one has a digit where the other has the
/// dot, or they read two different numbers.
pub proof fn lemma_file_names_differ(
    base: Seq<char>,
    a: nat,
    b: nat,
    first: Seq<char>,
    second: Seq<char>,
)
    requires
        a != b,
        named_on(stem(base, a), first),
        named_on(stem(base, b), second),
    ensures
        first != second,
{
    if first == second {
        let ext_a = choose|extension: Seq<char>| first == file_name(stem(base, a), extension);
        let ext_b = choose|extension: Seq<char>| second == file_name(stem(base, b), extension);
        let digits_a = decimal(a);
        let digits_b = decimal(b);
        lemma_decimal_digits(a);
        lemma_decimal_digits(b);
        let rest_a = first.skip(base.len() as int);
        let rest_b = second.skip(base.len() as int);
        assert(rest_a =~= digits_a + seq!['.'] + ext_a);
        assert(rest_b =~= digits_b + seq!['.'] + ext_b);
        assert(!is_digit('.')) by {
            assert forall|d: int| 0 <= d < 10 implies '.' != crate::text::digit(d) by {}
        }
        if digits_a.len() < digits_b.len() {
            assert(rest_a[digits_a.len() as int] == '.');
            assert(rest_b[digits_a.len() as int] == digits_b[digits_a.len() as int]);
        } else if digits_b.len() < digits_a.len() {
            assert(rest_b[digits_b.len() as int] == '.');
            assert(rest_a[digits_b.len() as int] == digits_a[digits_b.len() as int]);
        } else {
            assert(rest_a.take(digits_a.len() as int) =~= digits_a);
            assert(rest_b.take(digits_a.len() as int) =~= digits_b);
            lemma_decimal_injective(a, b);
        }
    }
}

/// Where every task is done, each has given its file: there are as many
/// files as tasks, and the file at an index is that of the task there.
pub proof fn lemma_all_done(tasks: Seq<TaskView>)
    requires
        forall|i: int| 0 <= i < tasks.len() ==> (#[trigger] tasks[i]).phase is Done,
    ensures
        written(tasks).len() == tasks.len(),
        forall|i: int|
            0 <= i < tasks.len() ==> (#[trigger] tasks[i]).phase == PhaseView::Done(
                written(tasks)[i],
            ),
    decreases tasks.len(),
{
    if tasks.len() > 0 {
        let front = tasks.drop_last();
        assert forall|i: int| 0 <= i < front.len() implies (#[trigger] front[i]).phase is Done by {
            assert(front[i] == tasks[i]);
        }
        lemma_all_done(front);
        assert forall|i: int| 0 <= i < tasks.len() implies (#[trigger] tasks[i]).phase
            == PhaseView::Done(written(tasks)[i]) by {
            if i < front.len() {
                assert(front[i] == tasks[i]);
            }
        }
    }
}

/// A list of different numbers below `bound` is no longer than `bound`.
proof fn lemma_distinct_below(list: Seq<int>, bound: int)
    requires
        0 <= bound,
        list.no_duplicates(),
        forall|k: int| 0 <= k < list.len() ==> 0 <= #[trigger] list[k] < bound,
    ensures
        list.len() <= bound,
{
    list.unique_seq_to_set();
    lemma_int_range(0, bound);
    assert(list.to_set().subset_of(set_int_range(0, bound)));
    lemma_len_subset(list.to_set(), set_int_range(0, bound));
}

/// A list that holds every number below `bound` is at least as long as
/// `bound`.
proof fn lemma_covering(list: Seq<int>, bound: int)
    requires
        0 <= bound,
        forall|i: int| 0 <= i < bound ==> list.contains(i),
    ensures
        list.len() >= bound,
{
    list.lemma_cardinality_of_set();
    lemma_int_range(0, bound);
    assert(set_int_range(0, bound).subset_of(list.to_set()));
    lemma_len_subset(set_int_range(0, bound), list.to_set());
}

/// What holds all along a favourable run from a pool of valid candidates
/// that has one for every task: no task is exhausted, the tasks that hold or
/// held a candidate are those in `served`, each once, and what is written
/// is written on the task's own stem.
spec fn filling(
    batch: Batch,
    pool: Seq<Seq<char>>,
    stems: Seq<Seq<char>>,
    valid: Set<Seq<char>>,
) -> bool {
    &&& batch.tasks.len() == stems.len()
    &&& batch.served.len() <= pool.len()
    &&& batch.pool == pool.skip(batch.served.len() as int)
    &&& batch.served.no_duplicates()
    &&& forall|k: int|
        0 <= k < batch.served.len() ==> {
            &&& 0 <= #[trigger] batch.served[k] < stems.len()
            &&& !(batch.tasks[batch.served[k]].phase is Waiting)
        }
    &&& forall|i: int|
        0 <= i < stems.len() ==> {
            &&& (#[trigger] batch.tasks[i]).stem == stems[i]
            &&& !(batch.tasks[i].phase is Exhausted)
            &&& !(batch.tasks[i].phase is Waiting) ==> batch.served.contains(i)
            &&& match batch.tasks[i].phase {
                PhaseView::Fetching(url) => valid.contains(url),
                PhaseView::Writing(name) => named_on(stems[i], name),
                PhaseView::Done(name) => named_on(stems[i], name),
                _ => true,
            }
        }
}

proof fn lemma_filling_move(
    batch: Batch,
    step: Move,
    pool: Seq<Seq<char>>,
    stems: Seq<Seq<char>>,
    valid: Set<Seq<char>>,
)
    requires
        filling(batch, pool, stems, valid),
        pool.len() >= stems.len(),
        forall|k: int| 0 <= k < pool.len() ==> valid.contains(#[trigger] pool[k]),
        fair(batch, step, valid),
    ensures
        filling(batch.moved(step), pool, stems, valid),
{
    let after = batch.moved(step);
    if 0 <= step.task < batch.tasks.len() {
        let task = batch.tasks[step.task];
        match step.event {
            Event::Acquire => {
                if task.phase is Waiting {
                    let longer = batch.served.push(step.task);
                    assert(!batch.served.contains(step.task));
                    assert(longer.no_duplicates());
                    lemma_distinct_below(longer, stems.len() as int);
                    assert(batch.pool.len() > 0);
                    assert(batch.pool[0] == pool[batch.served.len() as int]);
                    assert(after.pool =~= pool.skip(after.served.len() as int));
                    assert forall|i: int|
                        0 <= i < stems.len() && !((#[trigger] after.tasks[i]).phase is Waiting)
                        implies after.served.contains(i) by {
                        if i == step.task {
                            assert(longer[longer.len() - 1] == i);
                        } else {
                            assert(batch.tasks[i] == after.tasks[i]);
                            let k = choose|k: int|
                                0 <= k < batch.served.len() && batch.served[k] == i;
                            assert(longer[k] == i);
                        }
                    }
                }
            },
            Event::Settle(verdict) => {
                match (task.phase, verdict) {
                    (PhaseView::Fetching(_), Ok(extension)) => {
                        assert(after.tasks[step.task].phase == PhaseView::Writing(
                            file_name(task.stem, extension),
                        ));
                    },
                    _ => {},
                }
            },
            _ => {},
        }
    }
}

proof fn lemma_filling_run(
    pool: Seq<Seq<char>>,
    stems: Seq<Seq<char>>,
    steps: Seq<Move>,
    valid: Set<Seq<char>>,
)
    requires
        pool.len() >= stems.len(),
        forall|k: int| 0 <= k < pool.len() ==> valid.contains(#[trigger] pool[k]),
        favourable(Batch::start(pool, stems), steps, valid),
    ensures
        filling(Batch::start(pool, stems).after(steps), pool, stems, valid),
    decreases steps.len(),
{
    let begin = Batch::start(pool, stems);
    if steps.len() == 0 {
        assert(begin.pool =~= pool.skip(0));
    } else {
        let front = steps.drop_last();
        lemma_filling_run(pool, stems, front, valid);
        lemma_filling_move(begin.after(front), steps.last(), pool, stems, valid);
    }
}

/// With a valid candidate for every task, every task gets its file.
///
/// Let the stems be those of `numbers`, all different, on one base name; let
/// the pool hold at least as many candidates as there are stems, all of them
/// in `valid`; let the run be fair to `valid`, so that no attempt fails; and
/// let it end with every task over. Then there is one file for every stem,
/// no two files have the same name, and exactly as many candidates were
/// taken as there are stems: those at the front of the pool, each by a task
/// of its own.
pub proof fn lemma_every_slot_is_filled(
    pool: Seq<Seq<char>>,
    base: Seq<char>,
    numbers: Seq<nat>,
    steps: Seq<Move>,
    valid: Set<Seq<char>>,
)
    requires
        numbers.no_duplicates(),
        pool.len() >= numbers.len(),
        forall|k: int| 0 <= k < pool.len() ==> valid.contains(#[trigger] pool[k]),
        favourable(Batch::start(pool, stems_of(base, numbers)), steps, valid),
        Batch::start(pool, stems_of(base, numbers)).after(steps).is_over(),
    ensures
        ({
            let end = Batch::start(pool, stems_of(base, numbers)).after(steps);
            &&& written(end.tasks).len() == numbers.len()
            &&& written(end.tasks).no_duplicates()
            &&& end.served.len() == numbers.len()
            &&& end.served.no_duplicates()
            &&& end.pool == pool.skip(numbers.len() as int)
        }),
{
    let stems = stems_of(base, numbers);
    let end = Batch::start(pool, stems).after(steps);
    lemma_filling_run(pool, stems, steps, valid);
    assert forall|i: int| 0 <= i < end.tasks.len() implies (#[trigger] end.tasks[i]).phase
        is Done by {
        assert(end.tasks[i].is_over());
    }
    lemma_all_done(end.tasks);
    lemma_distinct_below(end.served, stems.len() as int);
    assert forall|i: int| 0 <= i < stems.len() implies end.served.contains(i) by {
        assert(end.tasks[i].phase is Done);
    }
    lemma_covering(end.served, stems.len() as int);
    let files = written(end.tasks);
    assert forall|i: int, j: int|
        0 <= i < files.len() && 0 <= j < files.len() && i != j implies files[i] != files[j] by {
        assert(end.tasks[i].phase == PhaseView::Done(files[i]));
        assert(end.tasks[j].phase == PhaseView::Done(files[j]));
        assert(stems[i] == stem(base, numbers[i]));
        assert(stems[j] == stem(base, numbers[j]));
        lemma_file_names_differ(base, numbers[i], numbers[j], files[i], files[j]);
    }
}

} // verus!
