//! Discovery of the most recent completed execution.
//!
//! The scheduling service hands back execution history newest-first, one
//! bounded page per query. The finder walks the pages in order and stops at
//! the first execution whose status is terminal, or reports that history was
//! exhausted without one.

use vstd::prelude::*;

verus! {

/// One run of a workflow, as the scheduling service reports it: a lifecycle
/// status name and start/end timestamps in milliseconds since the epoch.
pub struct Execution {
    pub status: String,
    pub start_time: u64,
    pub end_time: u64,
}

/// One page of execution history, newest-first, of bounded size.
pub struct ExecutionPage {
    pub executions: Vec<Execution>,
}

/// Why no execution could be returned: the transport layer failed with the
/// given message, or history held no completed execution.
pub enum FindError {
    Transport(String),
    NotFound,
}

/// The statuses of runs that are still pending or in progress. Every other
/// status name counts as terminal.
pub open spec fn spec_is_non_terminal(status: Seq<char>) -> bool {
    ||| status == "READY"@
    ||| status == "PREPARING"@
    ||| status == "RUNNING"@
    ||| status == "PAUSED"@
}

/// A status that marks a finished run, successful or not.
pub open spec fn spec_is_terminal(status: Seq<char>) -> bool {
    !spec_is_non_terminal(status)
}

pub(crate) fn str_eq(a: &str, b: &str) -> (r: bool)
    ensures
        r == (a@ == b@),
{
    let a_len = a.unicode_len();
    let b_len = b.unicode_len();
    if a_len != b_len {
        return false;
    }
    let mut i: usize = 0;
    while i < a_len
        invariant
            i <= a_len,
            a_len == a@.len(),
            a_len == b@.len(),
            forall|j: int| 0 <= j < i ==> a@[j] == b@[j],
        decreases a_len - i,
    {
        if a.get_char(i) != b.get_char(i) {
            return false;
        }
        i += 1;
    }
    proof {
        assert(a@ =~= b@);
    }
    true
}

/// Decides whether `status` names a run that is still pending or in progress.
pub fn is_non_terminal(status: &str) -> (r: bool)
    ensures
        r == spec_is_non_terminal(status@),
{
    str_eq(status, "READY") || str_eq(status, "PREPARING") || str_eq(status, "RUNNING") || str_eq(
        status,
        "PAUSED",
    )
}

/// What one fetched page tells the finder to do next.
pub enum PageDecision {
    /// The newest execution on the page is terminal: the search is over.
    Found(Execution),
    /// The page was empty: history is exhausted.
    Exhausted,
    /// The newest execution on the page is still in progress: look one
    /// offset further back.
    KeepLooking,
}

/// The decision the finder takes on one page.
pub open spec fn spec_step(page: ExecutionPage) -> PageDecision {
    if page.executions@.len() == 0 {
        PageDecision::Exhausted
    } else if spec_is_terminal(page.executions@[0].status@) {
        PageDecision::Found(page.executions@[0])
    } else {
        PageDecision::KeepLooking
    }
}

/// Inspects one page of history and decides whether the search is over.
///
/// The caller walks offsets upward from zero, fetching one page per offset,
/// and stops as soon as this returns anything but `KeepLooking`.
pub fn step(page: ExecutionPage) -> (d: PageDecision)
    ensures
        d == spec_step(page),
{
    let mut executions = page.executions;
    if executions.len() == 0 {
        PageDecision::Exhausted
    } else {
        let execution = executions.remove(0);
        if is_non_terminal(execution.status.as_str()) {
            PageDecision::KeepLooking
        } else {
            PageDecision::Found(execution)
        }
    }
}

/// The result of scanning a history, newest page first: the first terminal
/// execution, or `NotFound` once an empty page (or the end of the history)
/// is reached.
pub open spec fn spec_find(pages: Seq<ExecutionPage>) -> Result<Execution, FindError>
    decreases pages.len(),
{
    if pages.len() == 0 {
        Err(FindError::NotFound)
    } else if pages[0].executions@.len() == 0 {
        Err(FindError::NotFound)
    } else if spec_is_terminal(pages[0].executions@[0].status@) {
        Ok(pages[0].executions@[0])
    } else {
        spec_find(pages.drop_first())
    }
}

/// Every page before index `i` holds a newest run that is still in
/// progress: the scan had to move past all of them.
pub open spec fn scanned_past(pages: Seq<ExecutionPage>, i: int) -> bool {
    forall|j: int|
        0 <= j < i ==> (#[trigger] pages[j].executions@).len() > 0 && !spec_is_terminal(
            pages[j].executions@[0].status@,
        )
}

/// Page `i` is where the scan ends with `e`: its newest run is `e`, which is
/// terminal, and every earlier page held only a run still in progress.
pub open spec fn found_at(pages: Seq<ExecutionPage>, i: int, e: Execution) -> bool {
    &&& pages[i].executions@.len() > 0
    &&& spec_is_terminal(pages[i].executions@[0].status@)
    &&& e == pages[i].executions@[0]
    &&& scanned_past(pages, i)
}

/// The run the finder returns is the first terminal one in scan order:
/// it sits on some page all of whose predecessors held runs still in
/// progress.
pub proof fn lemma_find_first_terminal(pages: Seq<ExecutionPage>, e: Execution)
    requires
        spec_find(pages) == Ok::<Execution, FindError>(e),
    ensures
        exists|i: int| 0 <= i < pages.len() && #[trigger] found_at(pages, i, e),
    decreases pages.len(),
{
    if spec_is_terminal(pages[0].executions@[0].status@) {
        assert(found_at(pages, 0, e));
    } else {
        let tail = pages.drop_first();
        lemma_find_first_terminal(tail, e);
        let i = choose|i: int| 0 <= i < tail.len() && #[trigger] found_at(tail, i, e);
        assert forall|j: int| 0 <= j < i + 1 implies (#[trigger] pages[j].executions@).len() > 0
            && !spec_is_terminal(pages[j].executions@[0].status@) by {
            if j >= 1 {
                assert(tail[j - 1] == pages[j]);
                assert((tail[j - 1].executions@).len() > 0 && !spec_is_terminal(
                    tail[j - 1].executions@[0].status@,
                ));
            }
        }
        assert(scanned_past(pages, i + 1));
        assert(tail[i] == pages[i + 1]);
        assert(found_at(pages, i + 1, e));
    }
}

/// When the finder reports `NotFound`, the scan moved past nothing but runs
/// still in progress until it hit an empty page or the end of the history.
pub proof fn lemma_find_not_found(pages: Seq<ExecutionPage>)
    ensures
        spec_find(pages) == Err::<Execution, FindError>(FindError::NotFound) ==> exists|i: int|
            0 <= i <= pages.len() && #[trigger] scanned_past(pages, i) && (i == pages.len()
                || pages[i].executions@.len() == 0),
    decreases pages.len(),
{
    if pages.len() == 0 {
        assert(scanned_past(pages, 0));
    } else if pages[0].executions@.len() == 0 {
        assert(scanned_past(pages, 0));
    } else if !spec_is_terminal(pages[0].executions@[0].status@) {
        let tail = pages.drop_first();
        lemma_find_not_found(tail);
        if spec_find(pages) == Err::<Execution, FindError>(FindError::NotFound) {
            let i = choose|i: int|
                0 <= i <= tail.len() && #[trigger] scanned_past(tail, i) && (i == tail.len()
                    || tail[i].executions@.len() == 0);
            assert forall|j: int| 0 <= j < i + 1 implies (#[trigger] pages[j].executions@).len() > 0
                && !spec_is_terminal(pages[j].executions@[0].status@) by {
                if j >= 1 {
                    assert(tail[j - 1] == pages[j]);
                    assert((tail[j - 1].executions@).len() > 0 && !spec_is_terminal(
                        tail[j - 1].executions@[0].status@,
                    ));
                }
            }
            assert(scanned_past(pages, i + 1));
            if i < tail.len() {
                assert(tail[i] == pages[i + 1]);
            }
        }
    }
}

/// The finder never hands back a run that is still in progress.
pub proof fn lemma_find_returns_terminal(pages: Seq<ExecutionPage>)
    ensures
        spec_find(pages) matches Ok(e) ==> spec_is_terminal(e.status@),
    decreases pages.len(),
{
    if pages.len() > 0 && pages[0].executions@.len() > 0 && !spec_is_terminal(
        pages[0].executions@[0].status@,
    ) {
        lemma_find_returns_terminal(pages.drop_first());
    }
}

/// Scans a prefetched history, newest page first, for the latest completed
/// execution.
///
/// Pages beyond the first empty one are never inspected; running out of
/// pages counts as exhausting history.
pub fn find_latest_completed(history: Vec<ExecutionPage>) -> (r: Result<Execution, FindError>)
    ensures
        r == spec_find(history@),
        r matches Ok(e) ==> spec_is_terminal(e.status@),
{
    let mut pages = history;
    loop
        invariant
            spec_find(history@) == spec_find(pages@),
        decreases pages@.len(),
    {
        if pages.len() == 0 {
            return Err(FindError::NotFound);
        }
        let ghost pre = pages@;
        let page = pages.remove(0);
        proof {
            assert(pages@ =~= pre.drop_first());
        }
        match step(page) {
            PageDecision::Exhausted => {
                return Err(FindError::NotFound);
            },
            PageDecision::Found(execution) => {
                return Ok(execution);
            },
            PageDecision::KeepLooking => {},
        }
    }
}

} // verus!
