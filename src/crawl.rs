//! The crawl as a state machine.
//!
//! The crawler walks the window of periods one at a time. For each period it
//! asks the caller to open the period's directory and collect the session
//! cookies; if that fails it records one line and moves on, otherwise it asks
//! for every target file to be fetched, records one line per failed file, and
//! moves on once all of them have finished.
use vstd::prelude::*;
use crate::period::{Period, succ, dir_name_of, window, lemma_window_gapless};
use chrono::Datelike;

verus! {

/// One file to fetch: where it is, and where its body is to be written.
pub struct FetchJob {
    pub url: String,
    pub path: String,
}

/// How the fetch of one file ended.
pub enum Outcome {
    /// The body was written to the path.
    Saved(String),
    /// The file at the URL could not be fetched or written, for the cause given.
    Failed(String, String),
}

/// What the caller reports back after performing an action.
pub enum Event {
    BootstrapFailed,
    BootstrapSucceeded,
    /// The outcomes of the fetches of the current period.
    FetchesFinished(Vec<Outcome>),
}

/// What the crawler asks the caller to do next.
pub enum Action {
    /// Open the directory at this URL and collect its session cookies.
    Bootstrap(String),
    /// Fetch all these files concurrently, with the session's cookies.
    Fetch(Vec<FetchJob>),
    /// The window is exhausted.
    Finished,
}

/// Where the crawler stands within the current period.
#[derive(Clone, Copy, Debug, PartialEq, Eq, Structural)]
pub enum Phase {
    Bootstrapping,
    Fetching,
    Done,
}

/// The crawler's position: the current period, the last period of the
/// window, and the phase within the current period.
#[derive(Clone, Copy, Debug, PartialEq, Eq, Structural)]
pub struct CrawlState {
    pub current: Period,
    pub last: Period,
    pub phase: Phase,
}

/// A crawl of the directories under `base_url`, fetching `files` from each and
/// writing them under `root`.
pub struct Crawler {
    pub base_url: String,
    pub root: String,
    pub files: Vec<String>,
    pub state: CrawlState,
}

/// The URL of a period's directory: the base, the directory name, a slash.
pub open spec fn dir_url_of(base: Seq<char>, p: Period) -> Seq<char> {
    base + dir_name_of(p) + seq!['/']
}

/// The URL of a file within a period's directory.
pub open spec fn file_url_of(base: Seq<char>, p: Period, file: Seq<char>) -> Seq<char> {
    dir_url_of(base, p) + file
}

/// The output path of a file of a period: `<root>/<dir name>/<file>`.
pub open spec fn file_path_of(root: Seq<char>, p: Period, file: Seq<char>) -> Seq<char> {
    root + seq!['/'] + dir_name_of(p) + seq!['/'] + file
}

/// The failure line for a directory that could not be opened.
pub open spec fn load_failure_line(url: Seq<char>) -> Seq<char> {
    "Failed to load "@ + url
}

/// The URLs of the failed outcomes, in order.
pub open spec fn failed_urls(outs: Seq<Outcome>) -> Seq<Seq<char>>
    decreases outs.len(),
{
    if outs.len() == 0 {
        Seq::empty()
    } else {
        let rest = failed_urls(outs.drop_last());
        match outs.last() {
            Outcome::Failed(u, _) => rest.push(u@),
            Outcome::Saved(_) => rest,
        }
    }
}

/// The jobs of period `p`: one per file, in the order of `files`.
pub open spec fn jobs_for(
    jobs: Seq<FetchJob>,
    base: Seq<char>,
    root: Seq<char>,
    p: Period,
    files: Seq<String>,
) -> bool {
    &&& jobs.len() == files.len()
    &&& forall|i: int|
        0 <= i < jobs.len() ==> (#[trigger] jobs[i]).url@ == file_url_of(base, p, files[i]@)
            && jobs[i].path@ == file_path_of(root, p, files[i]@)
}

/// The state at the start of a crawl from `start` through `last`.
pub open spec fn initial_state(start: Period, last: Period) -> CrawlState {
    CrawlState {
        current: start,
        last,
        phase: if start.ord() <= last.ord() { Phase::Bootstrapping } else { Phase::Done },
    }
}

/// The state after the current period is over: the next period, or the end.
pub open spec fn advanced(s: CrawlState) -> CrawlState {
    if s.current == s.last {
        CrawlState { phase: Phase::Done, ..s }
    } else {
        CrawlState { current: succ(s.current), phase: Phase::Bootstrapping, ..s }
    }
}

/// The state after event `e`. An event that does not answer the pending
/// action leaves the state as it is.
pub open spec fn step(s: CrawlState, e: Event) -> CrawlState {
    match (s.phase, e) {
        (Phase::Bootstrapping, Event::BootstrapFailed) => advanced(s),
        (Phase::Bootstrapping, Event::BootstrapSucceeded) => CrawlState { phase: Phase::Fetching, ..s },
        (Phase::Fetching, Event::FetchesFinished(_)) => advanced(s),
        _ => s,
    }
}

/// The failure lines that event `e` records.
pub open spec fn records_of(base: Seq<char>, s: CrawlState, e: Event) -> Seq<Seq<char>> {
    match (s.phase, e) {
        (Phase::Bootstrapping, Event::BootstrapFailed) => seq![
            load_failure_line(dir_url_of(base, s.current)),
        ],
        (Phase::Fetching, Event::FetchesFinished(outs)) => failed_urls(outs@),
        _ => Seq::empty(),
    }
}

/// The views of a sequence of strings.
pub open spec fn views(v: Seq<String>) -> Seq<Seq<char>> {
    v.map_values(|s: String| s@)
}

impl CrawlState {
    /// Both periods are valid, and a period still to be crawled lies in the window.
    pub open spec fn wf(self) -> bool {
        &&& self.current.wf()
        &&& self.last.wf()
        &&& self.phase != Phase::Done ==> self.current.ord() <= self.last.ord()
    }
}

impl Crawler {
    pub open spec fn wf(&self) -> bool {
        self.state.wf()
    }

    /// A crawl of the periods from `start` through `last`.
    pub fn new(base_url: String, root: String, files: Vec<String>, start: Period, last: Period) -> (r: Crawler)
        requires
            start.wf(),
            last.wf(),
        ensures
            r.wf(),
            r.base_url == base_url,
            r.root == root,
            r.files == files,
            r.state == initial_state(start, last),
    {
        let phase = if start.is_not_after(&last) { Phase::Bootstrapping } else { Phase::Done };
        Crawler { base_url, root, files, state: CrawlState { current: start, last, phase } }
    }

    /// A crawl of the periods from `start` through the month that the clock
    /// reads now.
    pub fn starting_now(base_url: String, root: String, files: Vec<String>, start: Period) -> (r:
        Crawler)
        requires
            start.wf(),
        ensures
            r.wf(),
            r.base_url == base_url,
            r.root == root,
            r.files == files,
            r.state.last.wf(),
            r.state == initial_state(start, r.state.last),
    {
        let last = current_month();
        Crawler::new(base_url, root, files, start, last)
    }

    /// Whether the window is exhausted.
    pub fn is_finished(&self) -> (r: bool)
        ensures
            r == (self.state.phase == Phase::Done),
    {
        match self.state.phase {
            Phase::Done => true,
            _ => false,
        }
    }

    /// The URL of the current period's directory.
    pub fn directory_url(&self) -> (r: String)
        ensures
            r@ == dir_url_of(self.base_url@, self.state.current),
    {
        let mut u = self.base_url.clone();
        let name = self.state.current.dir_name();
        u.append(name.as_str());
        proof {
            reveal_strlit("/");
        }
        u.append("/");
        assert(u@ =~= dir_url_of(self.base_url@, self.state.current));
        u
    }

    /// The jobs for the current period: one per target file.
    pub fn jobs(&self) -> (r: Vec<FetchJob>)
        ensures
            jobs_for(r@, self.base_url@, self.root@, self.state.current, self.files@),
    {
        let dir_url = self.directory_url();
        let name = self.state.current.dir_name();
        let mut dir_path = self.root.clone();
        proof {
            reveal_strlit("/");
        }
        dir_path.append("/");
        dir_path.append(name.as_str());
        dir_path.append("/");
        let mut out: Vec<FetchJob> = Vec::new();
        let mut i: usize = 0;
        while i < self.files.len()
            invariant
                i <= self.files.len(),
                dir_url@ == dir_url_of(self.base_url@, self.state.current),
                dir_path@ == self.root@ + seq!['/'] + dir_name_of(self.state.current) + seq!['/'],
                jobs_for(out@, self.base_url@, self.root@, self.state.current, self.files@.take(i as int)),
            decreases self.files.len() - i,
        {
            let file = &self.files[i];
            let mut url = dir_url.clone();
            url.append(file.as_str());
            let mut path = dir_path.clone();
            path.append(file.as_str());
            out.push(FetchJob { url, path });
            i = i + 1;
            assert(self.files@.take(i as int).drop_last() =~= self.files@.take(i - 1));
        }
        assert(self.files@.take(i as int) =~= self.files@);
        out
    }

    /// The action that the caller is to perform next.
    pub fn pending(&self) -> (r: Action)
        ensures
            self.state.phase == Phase::Bootstrapping ==> (r matches Action::Bootstrap(u) && u@
                == dir_url_of(self.base_url@, self.state.current)),
            self.state.phase == Phase::Fetching ==> (r matches Action::Fetch(jobs) && jobs_for(
                jobs@,
                self.base_url@,
                self.root@,
                self.state.current,
                self.files@,
            )),
            self.state.phase == Phase::Done ==> r is Finished,
    {
        match self.state.phase {
            Phase::Bootstrapping => Action::Bootstrap(self.directory_url()),
            Phase::Fetching => Action::Fetch(self.jobs()),
            Phase::Done => Action::Finished,
        }
    }

    /// Moves past the current period.
    fn advance(&mut self)
        requires
            old(self).wf(),
            old(self).state.phase != Phase::Done,
        ensures
            final(self).wf(),
            final(self).state == advanced(old(self).state),
            final(self).base_url == old(self).base_url,
            final(self).root == old(self).root,
            final(self).files == old(self).files,
    {
        if self.state.current == self.state.last {
            self.state.phase = Phase::Done;
        } else {
            self.state.current = self.state.current.next();
            self.state.phase = Phase::Bootstrapping;
        }
    }

    /// Takes in the result of the pending action and returns the failure lines
    /// to record for it.
    pub fn handle(&mut self, event: Event) -> (records: Vec<String>)
        requires
            old(self).wf(),
        ensures
            final(self).wf(),
            final(self).state == step(old(self).state, event),
            views(records@) == records_of(old(self).base_url@, old(self).state, event),
            final(self).base_url == old(self).base_url,
            final(self).root == old(self).root,
            final(self).files == old(self).files,
    {
        let ghost e = event;
        match (self.state.phase, event) {
            (Phase::Bootstrapping, Event::BootstrapFailed) => {
                let mut line = String::from_str("Failed to load ");
                let url = self.directory_url();
                line.append(url.as_str());
                self.advance();
                let records = vec![line];
                assert(views(records@) =~= records_of(old(self).base_url@, old(self).state, e));
                records
            },
            (Phase::Bootstrapping, Event::BootstrapSucceeded) => {
                self.state.phase = Phase::Fetching;
                let records: Vec<String> = Vec::new();
                assert(views(records@) =~= records_of(old(self).base_url@, old(self).state, e));
                records
            },
            (Phase::Fetching, Event::FetchesFinished(outs)) => {
                let records = failure_urls(&outs);
                self.advance();
                records
            },
            (_, _) => {
                let records: Vec<String> = Vec::new();
                assert(views(records@) =~= records_of(old(self).base_url@, old(self).state, e));
                records
            },
        }
    }
}

/// Relies on chrono's `Utc::now` with `Datelike::year` and `Datelike::month`:
/// the current month in UTC, whose number chrono gives in 1..=12.
#[verifier::external_body]
fn current_month() -> (r: Period)
    ensures
        r.wf(),
{
    let now = chrono::Utc::now();
    Period { year: now.year(), month: now.month() }
}

/// The URLs of the failed outcomes, in order.
pub fn failure_urls(outs: &Vec<Outcome>) -> (r: Vec<String>)
    ensures
        views(r@) == failed_urls(outs@),
{
    let mut r: Vec<String> = Vec::new();
    let mut i: usize = 0;
    while i < outs.len()
        invariant
            i <= outs.len(),
            views(r@) == failed_urls(outs@.take(i as int)),
        decreases outs.len() - i,
    {
        assert(outs@.take(i + 1).drop_last() =~= outs@.take(i as int));
        match &outs[i] {
            Outcome::Failed(u, _) => {
                r.push(u.clone());
            },
            Outcome::Saved(_) => {},
        }
        i = i + 1;
        assert(views(r@) =~= failed_urls(outs@.take(i as int)));
    }
    assert(outs@.take(i as int) =~= outs@);
    r
}

/// Where every outcome is a success, no URL is listed.
pub proof fn lemma_failed_urls_none(outs: Seq<Outcome>)
    requires
        forall|j: int| 0 <= j < outs.len() ==> (#[trigger] outs[j]) is Saved,
    ensures
        failed_urls(outs) == Seq::<Seq<char>>::empty(),
    decreases outs.len(),
{
    if outs.len() > 0 {
        lemma_failed_urls_none(outs.drop_last());
    }
}

/// Where exactly one outcome is a failure, its URL is the only one listed.
pub proof fn lemma_failed_urls_single(outs: Seq<Outcome>, k: int)
    requires
        0 <= k < outs.len(),
        outs[k] is Failed,
        forall|j: int| 0 <= j < outs.len() && j != k ==> (#[trigger] outs[j]) is Saved,
    ensures
        failed_urls(outs) == seq![outs[k]->Failed_0@],
    decreases outs.len(),
{
    if k == outs.len() - 1 {
        lemma_failed_urls_none(outs.drop_last());
        assert(failed_urls(outs) =~= seq![outs[k]->Failed_0@]);
    } else {
        lemma_failed_urls_single(outs.drop_last(), k);
    }
}

/// When the directory of a period cannot be opened, exactly one line,
/// `Failed to load <url>`, is recorded, no file of that period is ever asked
/// for, and the crawl moves on to the next month or ends.
pub proof fn lemma_bootstrap_failure_skips_period(base: Seq<char>, s: CrawlState)
    requires
        s.wf(),
        s.phase == Phase::Bootstrapping,
    ensures
        records_of(base, s, Event::BootstrapFailed) == seq![
            load_failure_line(dir_url_of(base, s.current)),
        ],
        step(s, Event::BootstrapFailed).phase != Phase::Fetching,
        step(s, Event::BootstrapFailed).phase == Phase::Done || step(
            s,
            Event::BootstrapFailed,
        ).current.ord() == s.current.ord() + 1,
{
}

/// When one of the files of a period fails and the others are saved, exactly
/// one line is recorded for the period: the URL of the failed file.
pub proof fn lemma_one_failed_file(base: Seq<char>, s: CrawlState, outs: Vec<Outcome>, k: int)
    requires
        s.phase == Phase::Fetching,
        0 <= k < outs@.len(),
        outs@[k] is Failed,
        forall|j: int| 0 <= j < outs@.len() && j != k ==> (#[trigger] outs@[j]) is Saved,
    ensures
        records_of(base, s, Event::FetchesFinished(outs)) == seq![outs@[k]->Failed_0@],
{
    lemma_failed_urls_single(outs@, k);
}

/// The state after `n` periods are over, starting from `s`.
pub open spec fn advanced_n(s: CrawlState, n: nat) -> CrawlState
    decreases n,
{
    if n == 0 {
        s
    } else {
        advanced(advanced_n(s, (n - 1) as nat))
    }
}

/// Period after period, a crawl from `start` through `last` opens the
/// directories of exactly the window from `start` through `last`, in order,
/// each once, and ends once the last one is over.
pub proof fn lemma_crawl_walks_window(start: Period, last: Period, n: nat)
    requires
        start.wf(),
        last.wf(),
        start.ord() <= last.ord(),
        n <= window(start, last).len(),
    ensures
        n < window(start, last).len() ==> advanced_n(initial_state(start, last), n) == (CrawlState {
            current: window(start, last)[n as int],
            last,
            phase: Phase::Bootstrapping,
        }),
        n == window(start, last).len() ==> advanced_n(initial_state(start, last), n).phase
            == Phase::Done,
    decreases n,
{
    lemma_window_gapless(start, last);
    let w = window(start, last);
    if n > 0 {
        lemma_crawl_walks_window(start, last, (n - 1) as nat);
        let k = n - 1;
        if n < w.len() {
            assert(w[k].ord() < last.ord());
            assert(w[k + 1] == succ(w[k]));
        } else {
            assert(w[k] == last);
        }
    }
}

} // verus!
