use vstd::prelude::*;
use crate::error::MinerError;
use crate::header::{HeaderTemplate, hash_with_nonce};
use crate::target::{Target256, be_value, hash_below_target};

verus! {

/// A half-open interval of nonces, the share of one worker.
#[derive(Clone, Copy, Debug, PartialEq, Eq, Structural)]
pub struct SearchRange {
    pub start: u32,
    pub end: u32,
}

impl SearchRange {
    /// Whether `nonce` lies in the interval.
    pub open spec fn contains(&self, nonce: u32) -> bool {
        self.start <= nonce < self.end
    }
}

/// A nonce together with the header hash that it gave.
#[derive(Clone, Copy, Debug)]
pub struct WonBlock {
    pub nonce: u32,
    pub hash: [u8; 32],
}

/// What one worker reports when it stops.
#[derive(Clone, Copy, Debug)]
pub enum WorkerReport {
    /// A nonce whose hash the worker found below the target.
    Found(WonBlock),
    /// The worker's range held no such nonce.
    Exhausted,
    /// The worker ended abnormally.
    Fault,
}

/// The nonces per worker: the bound divided by the number of workers,
/// rounded down.
pub open spec fn chunk_size(nonce_bound: u32, worker_count: u32) -> int {
    nonce_bound as int / worker_count as int
}

/// The range of worker `i`: `chunk` nonces from `i * chunk` on, and for the
/// last worker everything up to the bound.
pub open spec fn range_of(nonce_bound: u32, worker_count: u32, i: int) -> SearchRange {
    let chunk = chunk_size(nonce_bound, worker_count);
    SearchRange {
        start: (i * chunk) as u32,
        end: if i == worker_count - 1 {
            nonce_bound
        } else {
            ((i + 1) * chunk) as u32
        },
    }
}

/// The worker whose range holds `nonce`.
pub open spec fn owner_of(nonce_bound: u32, worker_count: u32, nonce: u32) -> int {
    let chunk = chunk_size(nonce_bound, worker_count);
    if chunk == 0 || nonce as int / chunk >= worker_count {
        worker_count - 1
    } else {
        nonce as int / chunk
    }
}

proof fn lemma_range_bounds(nonce_bound: u32, worker_count: u32, i: int)
    requires
        worker_count > 0,
        0 <= i < worker_count,
    ensures
        0 <= i * chunk_size(nonce_bound, worker_count),
        (i + 1) * chunk_size(nonce_bound, worker_count) <= nonce_bound,
        i * chunk_size(nonce_bound, worker_count) <= (i + 1) * chunk_size(
            nonce_bound,
            worker_count,
        ),
{
    let chunk = chunk_size(nonce_bound, worker_count);
    let w = worker_count as int;
    let b = nonce_bound as int;
    assert(chunk >= 0 && chunk * w <= b) by (nonlinear_arith)
        requires
            chunk == b / w,
            w > 0,
            b >= 0,
    ;
    assert(0 <= i * chunk && (i + 1) * chunk <= chunk * w && i * chunk <= (i + 1) * chunk)
        by (nonlinear_arith)
        requires
            0 <= i < w,
            chunk >= 0,
    ;
}

/// The ranges of a partition are exactly a division of `[0, nonce_bound)`:
/// each lies below the bound, every nonce below the bound is in the range of
/// its owner, and no nonce is in two ranges.
pub proof fn lemma_partition_exact(nonce_bound: u32, worker_count: u32)
    requires
        worker_count > 0,
    ensures
        forall|i: int, n: u32|
            0 <= i < worker_count && #[trigger] range_of(nonce_bound, worker_count, i).contains(n)
                ==> n < nonce_bound,
        forall|n: u32|
            n < nonce_bound ==> 0 <= #[trigger] owner_of(nonce_bound, worker_count, n)
                < worker_count && range_of(
                nonce_bound,
                worker_count,
                owner_of(nonce_bound, worker_count, n),
            ).contains(n),
        forall|i: int, j: int, n: u32|
            0 <= i < worker_count && 0 <= j < worker_count && #[trigger] range_of(
                nonce_bound,
                worker_count,
                i,
            ).contains(n) && #[trigger] range_of(nonce_bound, worker_count, j).contains(n) ==> i
                == j,
{
    let chunk = chunk_size(nonce_bound, worker_count);
    let w = worker_count as int;
    assert forall|i: int, n: u32|
        0 <= i < worker_count && #[trigger] range_of(nonce_bound, worker_count, i).contains(
            n,
        ) implies n < nonce_bound by {
        lemma_range_bounds(nonce_bound, worker_count, i);
    }
    assert forall|n: u32| n < nonce_bound implies 0 <= #[trigger] owner_of(
        nonce_bound,
        worker_count,
        n,
    ) < worker_count && range_of(
        nonce_bound,
        worker_count,
        owner_of(nonce_bound, worker_count, n),
    ).contains(n) by {
        let o = owner_of(nonce_bound, worker_count, n);
        lemma_range_bounds(nonce_bound, worker_count, w - 1);
        if chunk > 0 {
            let q = n as int / chunk;
            assert(0 <= q && q * chunk <= n < (q + 1) * chunk) by (nonlinear_arith)
                requires
                    q == n as int / chunk,
                    chunk > 0,
                    n >= 0,
            ;
            if q >= w {
                assert((w - 1) * chunk <= q * chunk) by (nonlinear_arith)
                    requires
                        w - 1 <= q,
                        chunk > 0,
                ;
            } else {
                lemma_range_bounds(nonce_bound, worker_count, q);
            }
        } else {
            assert((w - 1) * chunk == 0) by (nonlinear_arith)
                requires
                    chunk == 0,
            ;
        }
    }
    assert forall|i: int, j: int, n: u32|
        0 <= i < worker_count && 0 <= j < worker_count && #[trigger] range_of(
            nonce_bound,
            worker_count,
            i,
        ).contains(n) && #[trigger] range_of(nonce_bound, worker_count, j).contains(
            n,
        ) implies i == j by {
        lemma_range_bounds(nonce_bound, worker_count, i);
        lemma_range_bounds(nonce_bound, worker_count, j);
        if i < j {
            assert((i + 1) * chunk <= j * chunk) by (nonlinear_arith)
                requires
                    i + 1 <= j,
                    chunk >= 0,
            ;
        } else if j < i {
            assert((j + 1) * chunk <= i * chunk) by (nonlinear_arith)
                requires
                    j + 1 <= i,
                    chunk >= 0,
            ;
        }
    }
}

/// Calls `num_cpus::get`, the number of logical processors that the machine
/// offers this process. Nothing is claimed of the number.
#[verifier::external_body]
fn detected_parallelism() -> (count: usize) {
    num_cpus::get()
}

/// The number of workers for a detected number of processors: the number
/// itself, but at least one and at most what 32 bits hold.
pub open spec fn workers_for(detected: usize) -> u32 {
    if detected == 0 {
        1
    } else if detected > u32::MAX {
        u32::MAX
    } else {
        detected as u32
    }
}

/// Turns a detected number of processors into a number of workers.
pub fn worker_count_for(detected: usize) -> (count: u32)
    ensures
        count == workers_for(detected),
        count > 0,
{
    if detected == 0 {
        1
    } else if detected > 0xFFFF_FFFF {
        0xFFFF_FFFF
    } else {
        detected as u32
    }
}

/// The number of workers where the caller names none: one per processor that
/// the machine reports, whatever it reports.
pub fn default_worker_count() -> (count: u32)
    ensures
        count > 0,
{
    worker_count_for(detected_parallelism())
}

/// Divides `[0, nonce_bound)` among `worker_count` workers: equal chunks in
/// increasing order, the remainder going to the last worker.
pub fn partition(nonce_bound: u32, worker_count: u32) -> (ranges: Vec<SearchRange>)
    requires
        worker_count > 0,
    ensures
        ranges@.len() == worker_count,
        forall|i: int|
            0 <= i < worker_count ==> #[trigger] ranges@[i] == range_of(
                nonce_bound,
                worker_count,
                i,
            ),
{
    let chunk: u32 = nonce_bound / worker_count;
    let mut ranges: Vec<SearchRange> = Vec::new();
    let mut i: u32 = 0;
    while i < worker_count
        invariant
            worker_count > 0,
            i <= worker_count,
            chunk == chunk_size(nonce_bound, worker_count),
            ranges@.len() == i,
            forall|k: int|
                0 <= k < i ==> #[trigger] ranges@[k] == range_of(nonce_bound, worker_count, k),
        decreases worker_count - i,
    {
        proof {
            lemma_range_bounds(nonce_bound, worker_count, i as int);
        }
        let start: u32 = i * chunk;
        assert(start + chunk == (i + 1) * chunk) by (nonlinear_arith)
            requires
                start == i * chunk,
        ;
        let end: u32 = if i == worker_count - 1 {
            nonce_bound
        } else {
            start + chunk
        };
        ranges.push(SearchRange { start, end });
        i = i + 1;
    }
    ranges
}

/// Cuts the first `step` nonces off a range: the piece to scan now and what
/// is left of the range after it. A range with fewer nonces is its own first
/// piece, and nothing is left.
pub fn split_off(range: SearchRange, step: u32) -> (pieces: (SearchRange, SearchRange))
    ensures
        pieces.0.start == range.start,
        pieces.0.end == pieces.1.start,
        pieces.1.end == range.end,
        range.end - range.start > step ==> pieces.0.end == range.start + step,
        range.end - range.start <= step ==> pieces.0.end == range.end,
{
    if range.start <= range.end && range.end - range.start > step {
        let cut: u32 = range.start + step;
        (SearchRange { start: range.start, end: cut }, SearchRange { start: cut, end: range.end })
    } else {
        (range, SearchRange { start: range.end, end: range.end })
    }
}

/// Whether `nonce` solves the header: its hash is below the target.
pub open spec fn wins(header: HeaderTemplate, target: Target256, nonce: u32) -> bool {
    be_value(header.digest(nonce)) < target@
}

/// Whether `found` is the first solving nonce from `start` on, with its hash.
pub open spec fn first_win_from(
    header: HeaderTemplate,
    target: Target256,
    start: u32,
    found: WonBlock,
) -> bool {
    &&& start <= found.nonce
    &&& found.hash@ == header.digest(found.nonce)
    &&& wins(header, target, found.nonce)
    &&& forall|n: u32| start <= n < found.nonce ==> !wins(header, target, n)
}

/// One worker: tries the nonces of `range` in increasing order and stops at
/// the first whose header hash is below the target.
pub fn scan_range(header: &HeaderTemplate, target: &Target256, range: SearchRange) -> (found:
    Option<WonBlock>)
    ensures
        match found {
            Some(won) => won.nonce < range.end && first_win_from(*header, *target, range.start, won),
            None => forall|n: u32| range.contains(n) ==> !wins(*header, *target, n),
        },
{
    let mut nonce: u32 = range.start;
    while nonce < range.end
        invariant
            range.start <= nonce,
            forall|n: u32| range.start <= n < nonce ==> !wins(*header, *target, n),
        decreases range.end - nonce,
    {
        let hash = hash_with_nonce(header, nonce);
        if hash_below_target(&hash, target) {
            return Some(WonBlock { nonce, hash });
        }
        nonce = nonce + 1;
    }
    None
}

/// Where the ranges before worker `i` end: the start of range `i`, and the
/// bound once every range is counted.
pub open spec fn frontier(nonce_bound: u32, worker_count: u32, i: int) -> int {
    if i >= worker_count {
        nonce_bound as int
    } else {
        i * chunk_size(nonce_bound, worker_count)
    }
}

/// The whole search on one thread: the ranges of the partition are scanned
/// in order, so the answer is the least solving nonce below the bound, and
/// `NoSolutionInRange` exactly when there is none.
pub fn search(
    header: &HeaderTemplate,
    target: &Target256,
    nonce_bound: u32,
    worker_count: u32,
) -> (outcome: Result<WonBlock, MinerError>)
    requires
        worker_count > 0,
    ensures
        match outcome {
            Ok(won) => won.nonce < nonce_bound && first_win_from(*header, *target, 0, won),
            Err(e) => e == MinerError::NoSolutionInRange && forall|n: u32|
                n < nonce_bound ==> !wins(*header, *target, n),
        },
{
    let ranges = partition(nonce_bound, worker_count);
    let mut i: usize = 0;
    while i < ranges.len()
        invariant
            worker_count > 0,
            i <= ranges@.len(),
            ranges@.len() == worker_count,
            forall|k: int|
                0 <= k < worker_count ==> #[trigger] ranges@[k] == range_of(
                    nonce_bound,
                    worker_count,
                    k,
                ),
            forall|n: u32|
                n < frontier(nonce_bound, worker_count, i as int) ==> !wins(*header, *target, n),
        decreases ranges@.len() - i,
    {
        let range = ranges[i];
        proof {
            lemma_range_bounds(nonce_bound, worker_count, i as int);
            assert(range == range_of(nonce_bound, worker_count, i as int));
            assert(range.start == frontier(nonce_bound, worker_count, i as int));
            assert(range.end == frontier(nonce_bound, worker_count, i + 1));
        }
        match scan_range(header, target, range) {
            Some(won) => {
                return Ok(won);
            },
            None => {
                assert forall|n: u32|
                    n < frontier(nonce_bound, worker_count, i + 1) implies !wins(
                    *header,
                    *target,
                    n,
                ) by {
                    if n >= range.start {
                        assert(range.contains(n));
                    }
                }
            },
        }
        i = i + 1;
    }
    Err(MinerError::NoSolutionInRange)
}

/// Whether a reported win can be trusted: the nonce lies below the bound, the
/// hash is the header's hash for that nonce, and it is below the target.
pub open spec fn valid_win(
    header: HeaderTemplate,
    target: Target256,
    nonce_bound: u32,
    won: WonBlock,
) -> bool {
    &&& won.nonce < nonce_bound
    &&& won.hash@ == header.digest(won.nonce)
    &&& wins(header, target, won.nonce)
}

fn same_bytes(a: &[u8; 32], b: &[u8; 32]) -> (same: bool)
    ensures
        same == (a@ == b@),
{
    let mut i: usize = 0;
    while i < 32
        invariant
            i <= 32,
            forall|k: int| 0 <= k < i ==> a@[k] == b@[k],
        decreases 32 - i,
    {
        if a[i] != b[i] {
            return false;
        }
        i = i + 1;
    }
    assert(a@ =~= b@);
    true
}

/// Tests a reported win again: hashes the header with the reported nonce
/// and holds the result against the report and the target.
pub fn revalidate(
    header: &HeaderTemplate,
    target: &Target256,
    nonce_bound: u32,
    won: &WonBlock,
) -> (trusted: bool)
    ensures
        trusted == valid_win(*header, *target, nonce_bound, *won),
{
    if won.nonce >= nonce_bound {
        return false;
    }
    let hash = hash_with_nonce(header, won.nonce);
    same_bytes(&hash, &won.hash) && hash_below_target(&hash, target)
}

/// Where a search stands.
#[derive(Clone, Copy, Debug)]
pub enum SearchState {
    /// Nothing handed out yet.
    Idle,
    /// Workers are scanning; `pending` of them have not reported.
    Searching { pending: u32 },
    /// A worker's win was checked and accepted.
    Found(WonBlock),
    /// Every worker reported that its range holds no solution, or the search
    /// was called off.
    Exhausted,
    /// A worker ended abnormally, or reported a win that does not hold.
    Faulted,
}

/// What the caller has to do after handing over a report.
#[derive(Clone, Copy, Debug, PartialEq, Eq, Structural)]
pub enum Action {
    /// Keep waiting for reports.
    Wait,
    /// The search is decided: tell the workers that still run to stop.
    StopWorkers,
}

/// The state after `report` arrives in `state`. Only a running search
/// listens: the first accepted win or the first fault decides it, and the
/// last of the workers to come back empty-handed exhausts it.
pub open spec fn after_report(
    header: HeaderTemplate,
    target: Target256,
    nonce_bound: u32,
    state: SearchState,
    report: WorkerReport,
) -> SearchState {
    match state {
        SearchState::Searching { pending } => match report {
            WorkerReport::Fault => SearchState::Faulted,
            WorkerReport::Found(won) => if valid_win(header, target, nonce_bound, won) {
                SearchState::Found(won)
            } else {
                SearchState::Faulted
            },
            WorkerReport::Exhausted => if pending <= 1 {
                SearchState::Exhausted
            } else {
                SearchState::Searching { pending: (pending - 1) as u32 }
            },
        },
        _ => state,
    }
}

/// The state after a list of reports, taken in order.
pub open spec fn after_reports(
    header: HeaderTemplate,
    target: Target256,
    nonce_bound: u32,
    state: SearchState,
    reports: Seq<WorkerReport>,
) -> SearchState
    decreases reports.len(),
{
    if reports.len() == 0 {
        state
    } else {
        after_report(
            header,
            target,
            nonce_bound,
            after_reports(header, target, nonce_bound, state, reports.drop_last()),
            reports.last(),
        )
    }
}

/// A search that is not running hears no report: a decided search stays
/// decided as it is, so at most one win is ever accepted.
pub proof fn lemma_decided_is_final(
    header: HeaderTemplate,
    target: Target256,
    nonce_bound: u32,
    state: SearchState,
    reports: Seq<WorkerReport>,
)
    requires
        !(state is Searching),
    ensures
        after_reports(header, target, nonce_bound, state, reports) == state,
    decreases reports.len(),
{
    if reports.len() > 0 {
        lemma_decided_is_final(header, target, nonce_bound, state, reports.drop_last());
    }
}

/// Whatever the workers report, a win that the search ends with holds: its
/// nonce is below the bound and its hash is the header's and below the
/// target.
pub proof fn lemma_accepted_win_holds(
    header: HeaderTemplate,
    target: Target256,
    nonce_bound: u32,
    pending: u32,
    reports: Seq<WorkerReport>,
)
    ensures
        match after_reports(
            header,
            target,
            nonce_bound,
            SearchState::Searching { pending },
            reports,
        ) {
            SearchState::Found(won) => valid_win(header, target, nonce_bound, won),
            SearchState::Searching { pending: left } => left <= pending,
            SearchState::Idle => false,
            _ => true,
        },
    decreases reports.len(),
{
    if reports.len() > 0 {
        lemma_accepted_win_holds(header, target, nonce_bound, pending, reports.drop_last());
    }
}

/// When each of `pending` workers reports an empty range and nothing else
/// arrives, the search ends exhausted, and not before the last report.
pub proof fn lemma_all_exhausted(
    header: HeaderTemplate,
    target: Target256,
    nonce_bound: u32,
    pending: u32,
    reports: Seq<WorkerReport>,
)
    requires
        pending > 0,
        reports.len() <= pending,
        forall|i: int| 0 <= i < reports.len() ==> reports[i] is Exhausted,
    ensures
        after_reports(header, target, nonce_bound, SearchState::Searching { pending }, reports)
            == if reports.len() == pending {
            SearchState::Exhausted
        } else {
            SearchState::Searching { pending: (pending - reports.len()) as u32 }
        },
    decreases reports.len(),
{
    if reports.len() > 0 {
        lemma_all_exhausted(header, target, nonce_bound, pending, reports.drop_last());
    }
}

/// Where no range of the partition holds a solving nonce, there is none
/// below the bound: workers that all come back empty-handed have together
/// tried every nonce.
pub proof fn lemma_empty_ranges_mean_no_solution(
    header: HeaderTemplate,
    target: Target256,
    nonce_bound: u32,
    worker_count: u32,
)
    requires
        worker_count > 0,
        forall|i: int, n: u32|
            0 <= i < worker_count && #[trigger] range_of(nonce_bound, worker_count, i).contains(n)
                ==> !wins(header, target, n),
    ensures
        forall|n: u32| n < nonce_bound ==> !wins(header, target, n),
{
    lemma_partition_exact(nonce_bound, worker_count);
    assert forall|n: u32| n < nonce_bound implies !wins(header, target, n) by {
        let i = owner_of(nonce_bound, worker_count, n);
        assert(range_of(nonce_bound, worker_count, i).contains(n));
    }
}

/// Decides a search from the reports of its workers. The caller runs the
/// workers, each on one range of `start`, and hands every report to
/// `on_report` in the order of arrival.
#[derive(Clone, Copy, Debug)]
pub struct SearchCoordinator {
    pub header: HeaderTemplate,
    pub target: Target256,
    pub nonce_bound: u32,
    pub worker_count: u32,
    pub state: SearchState,
}

impl SearchCoordinator {
    /// Whether the coordinator's fields fit together: at least one worker,
    /// no more pending than there are workers, and an accepted win holds.
    pub open spec fn wf(&self) -> bool {
        &&& self.worker_count > 0
        &&& match self.state {
            SearchState::Searching { pending } => 0 < pending <= self.worker_count,
            SearchState::Found(won) => valid_win(self.header, self.target, self.nonce_bound, won),
            _ => true,
        }
    }

    /// Whether the search is over.
    pub open spec fn decided(&self) -> bool {
        self.state is Found || self.state is Exhausted || self.state is Faulted
    }

    /// An idle coordinator for a header, a target, a nonce bound and a
    /// number of workers.
    pub fn new(header: HeaderTemplate, target: Target256, nonce_bound: u32, worker_count: u32) -> (c:
        Self)
        requires
            worker_count > 0,
        ensures
            c.wf(),
            c.state is Idle,
            c.header == header,
            c.target == target,
            c.nonce_bound == nonce_bound,
            c.worker_count == worker_count,
    {
        SearchCoordinator { header, target, nonce_bound, worker_count, state: SearchState::Idle }
    }

    /// Divides the nonces among the workers and starts the search. A
    /// coordinator that is not idle stays as it is and hands out nothing.
    pub fn start(&mut self) -> (ranges: Vec<SearchRange>)
        requires
            old(self).wf(),
        ensures
            final(self).wf(),
            final(self).header == old(self).header,
            final(self).target == old(self).target,
            final(self).nonce_bound == old(self).nonce_bound,
            final(self).worker_count == old(self).worker_count,
            old(self).state is Idle ==> final(self).state == (SearchState::Searching {
                pending: old(self).worker_count,
            }) && ranges@.len() == old(self).worker_count && forall|i: int|
                0 <= i < old(self).worker_count ==> #[trigger] ranges@[i] == range_of(
                    old(self).nonce_bound,
                    old(self).worker_count,
                    i,
                ),
            !(old(self).state is Idle) ==> final(self).state == old(self).state && ranges@.len()
                == 0,
    {
        match self.state {
            SearchState::Idle => {
                self.state = SearchState::Searching { pending: self.worker_count };
                partition(self.nonce_bound, self.worker_count)
            },
            _ => Vec::new(),
        }
    }

    /// Takes one worker's report. The state moves as `after_report` says;
    /// the answer is `StopWorkers` exactly when this report decided the
    /// search by a win or a fault.
    pub fn on_report(&mut self, report: WorkerReport) -> (action: Action)
        requires
            old(self).wf(),
        ensures
            final(self).wf(),
            final(self).header == old(self).header,
            final(self).target == old(self).target,
            final(self).nonce_bound == old(self).nonce_bound,
            final(self).worker_count == old(self).worker_count,
            final(self).state == after_report(
                old(self).header,
                old(self).target,
                old(self).nonce_bound,
                old(self).state,
                report,
            ),
            action == Action::StopWorkers <==> old(self).state is Searching && (final(self).state
                is Found || final(self).state is Faulted),
    {
        match self.state {
            SearchState::Searching { pending } => match report {
                WorkerReport::Fault => {
                    self.state = SearchState::Faulted;
                    Action::StopWorkers
                },
                WorkerReport::Found(won) => {
                    if revalidate(&self.header, &self.target, self.nonce_bound, &won) {
                        self.state = SearchState::Found(won);
                    } else {
                        self.state = SearchState::Faulted;
                    }
                    Action::StopWorkers
                },
                WorkerReport::Exhausted => {
                    if pending <= 1 {
                        self.state = SearchState::Exhausted;
                    } else {
                        self.state = SearchState::Searching { pending: pending - 1 };
                    }
                    Action::Wait
                },
            },
            _ => Action::Wait,
        }
    }

    /// Calls a running search off: it ends exhausted. Any other state stays.
    pub fn abort(&mut self)
        requires
            old(self).wf(),
        ensures
            final(self).wf(),
            final(self).header == old(self).header,
            final(self).target == old(self).target,
            final(self).nonce_bound == old(self).nonce_bound,
            final(self).worker_count == old(self).worker_count,
            old(self).state is Searching ==> final(self).state is Exhausted,
            !(old(self).state is Searching) ==> final(self).state == old(self).state,
    {
        match self.state {
            SearchState::Searching { pending } => {
                self.state = SearchState::Exhausted;
            },
            _ => {},
        }
    }

    /// The result of the search once it is decided: the accepted win,
    /// `NoSolutionInRange` after exhaustion, `WorkerFault` after a fault;
    /// nothing while it is idle or running.
    pub fn outcome(&self) -> (result: Option<Result<WonBlock, MinerError>>)
        requires
            self.wf(),
        ensures
            match self.state {
                SearchState::Found(won) => result == Some(Ok::<WonBlock, MinerError>(won))
                    && valid_win(self.header, self.target, self.nonce_bound, won),
                SearchState::Exhausted => result == Some(
                    Err::<WonBlock, MinerError>(MinerError::NoSolutionInRange),
                ),
                SearchState::Faulted => result == Some(
                    Err::<WonBlock, MinerError>(MinerError::WorkerFault),
                ),
                _ => result is None,
            },
    {
        match self.state {
            SearchState::Found(won) => Some(Ok(won)),
            SearchState::Exhausted => Some(Err(MinerError::NoSolutionInRange)),
            SearchState::Faulted => Some(Err(MinerError::WorkerFault)),
            _ => None,
        }
    }
}

} // verus!
