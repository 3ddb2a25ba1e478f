//! Splitting a numbered list of fetch tasks among workers.
use vstd::prelude::*;

verus! {

/// The inclusive range of task numbers that worker `i` of `workers`
/// handles when `task_count` tasks are shared: equal blocks of
/// `task_count / workers` tasks, the last worker taking the remainder too.
pub open spec fn task_range(task_count: int, workers: int, i: int) -> (int, int) {
    let per = task_count / workers;
    (i * per, if i == workers - 1 { task_count - 1 } else { (i + 1) * per - 1 })
}

/// The range of each worker, in worker order. The blocks are computed as
/// the feed loaders compute them; where there are fewer tasks than
/// workers, or no task at all, that computation underflows, so those
/// inputs are excluded.
pub fn partition_tasks(task_count: usize, workers: usize) -> (r: Vec<(usize, usize)>)
    requires
        1 <= workers <= task_count,
    ensures
        r.len() == workers,
        forall|i: int|
            0 <= i < workers ==> (#[trigger] r@[i]).0 == task_range(task_count as int, workers as int, i).0
                && r@[i].1 == task_range(task_count as int, workers as int, i).1,
{
    let per = task_count / workers;
    assert(per >= 1 && per * workers <= task_count) by (nonlinear_arith)
        requires
            1 <= workers <= task_count,
            per == task_count / workers,
    ;
    let mut r: Vec<(usize, usize)> = Vec::new();
    let mut i: usize = 0;
    while i < workers
        invariant
            i <= workers,
            1 <= workers <= task_count,
            per == task_count / workers,
            per >= 1,
            per * workers <= task_count,
            r.len() == i,
            forall|j: int|
                0 <= j < i ==> (#[trigger] r@[j]).0 == task_range(task_count as int, workers as int, j).0
                    && r@[j].1 == task_range(task_count as int, workers as int, j).1,
        decreases workers - i,
    {
        assert((i + 1) * per <= task_count) by (nonlinear_arith)
            requires
                i < workers,
                per * workers <= task_count,
                per >= 1,
        ;
        assert((i + 1) * per == i * per + per && (i + 1) * per >= 1) by (nonlinear_arith)
            requires
                per >= 1,
        ;
        let start = i * per;
        let end = if i == workers - 1 { task_count - 1 } else { (i + 1) * per - 1 };
        r.push((start, end));
        i = i + 1;
    }
    r
}

/// The worker ranges tile the tasks: the first starts at task 0, each
/// next one starts right after the previous one ends, every range is
/// non-empty, and the last ends at the last task. So every task is
/// handled by exactly one worker.
pub proof fn lemma_ranges_tile(task_count: int, workers: int)
    requires
        1 <= workers <= task_count,
    ensures
        task_range(task_count, workers, 0).0 == 0,
        task_range(task_count, workers, workers - 1).1 == task_count - 1,
        forall|i: int|
            0 <= i < workers ==> #[trigger] task_range(task_count, workers, i).0 <= task_range(
                task_count,
                workers,
                i,
            ).1,
        forall|i: int|
            0 <= i < workers - 1 ==> #[trigger] task_range(task_count, workers, i + 1).0 == task_range(
                task_count,
                workers,
                i,
            ).1 + 1,
{
    let per = task_count / workers;
    assert(per >= 1 && per * workers <= task_count) by (nonlinear_arith)
        requires
            1 <= workers <= task_count,
            per == task_count / workers,
    ;
    assert forall|i: int| 0 <= i < workers implies #[trigger] task_range(task_count, workers, i).0
        <= task_range(task_count, workers, i).1 by {
        assert(i * per + per <= task_count) by (nonlinear_arith)
            requires
                0 <= i < workers,
                per * workers <= task_count,
                per >= 1,
        ;
        assert((i + 1) * per == i * per + per) by (nonlinear_arith);
    }
    assert forall|i: int| 0 <= i < workers - 1 implies #[trigger] task_range(task_count, workers, i + 1).0
        == task_range(task_count, workers, i).1 + 1 by {
        assert((i + 1) * per == i * per + per) by (nonlinear_arith);
    }
}

/// Every task number below `task_count` lies in the range of exactly one worker.
pub proof fn lemma_each_task_one_worker(task_count: int, workers: int, t: int)
    requires
        1 <= workers <= task_count,
        0 <= t < task_count,
    ensures
        exists|i: int|
            0 <= i < workers && #[trigger] task_range(task_count, workers, i).0 <= t <= task_range(
                task_count,
                workers,
                i,
            ).1,
        forall|i: int, j: int|
            0 <= i < workers && 0 <= j < workers && #[trigger] task_range(task_count, workers, i).0 <= t
                <= task_range(task_count, workers, i).1 && #[trigger] task_range(task_count, workers, j).0 <= t
                <= task_range(task_count, workers, j).1 ==> i == j,
{
    lemma_ranges_tile(task_count, workers);
    let per = task_count / workers;
    assert(per >= 1 && per * workers <= task_count) by (nonlinear_arith)
        requires
            1 <= workers <= task_count,
            per == task_count / workers,
    ;
    // the worker whose block holds t, the last worker taking everything past the blocks
    let q = if t / per < workers { t / per } else { workers - 1 };
    assert(0 <= t / per) by (nonlinear_arith)
        requires
            t >= 0,
            per >= 1,
    ;
    assert(q * per <= t) by (nonlinear_arith)
        requires
            per >= 1,
            t >= 0,
            q == (if t / per < workers { t / per } else { workers - 1 }),
            workers >= 1,
    ;
    assert(q == workers - 1 || t <= (q + 1) * per - 1) by (nonlinear_arith)
        requires
            per >= 1,
            t >= 0,
            q == (if t / per < workers { t / per } else { workers - 1 }),
    ;
    assert(task_range(task_count, workers, q).0 <= t <= task_range(task_count, workers, q).1);
    assert forall|i: int, j: int|
        0 <= i < workers && 0 <= j < workers && #[trigger] task_range(task_count, workers, i).0 <= t
            <= task_range(task_count, workers, i).1 && #[trigger] task_range(task_count, workers, j).0 <= t
            <= task_range(task_count, workers, j).1 implies i == j by {
        if i < j {
            assert(task_range(task_count, workers, i).1 < task_range(task_count, workers, j).0) by {
                assert((i + 1) * per <= j * per) by (nonlinear_arith)
                    requires
                        i < j,
                        per >= 1,
                ;
            }
        } else if j < i {
            assert(task_range(task_count, workers, j).1 < task_range(task_count, workers, i).0) by {
                assert((j + 1) * per <= i * per) by (nonlinear_arith)
                    requires
                        j < i,
                        per >= 1,
                ;
            }
        }
    }
}

} // verus!
