//! The decisions of the crawl: the list of domains, the order and the
//! number of the crawls that run, and the reports of progress. The caller
//! fetches the pages and runs the tasks.

use vstd::prelude::*;

use crate::text::{chars_of, push_char, texts};

verus! {

/// How many domains are crawled at the same time, once the crawl has
/// waited for a free place.
pub const MAX_CONCURRENT_DOMAINS: usize = 16;

/// How many pages of one domain are handled at the same time, once the
/// handler has waited for a free place.
pub const MAX_CONCURRENT_PAGES: usize = 16;

/// How many fetched pages of one domain may wait to be handled.
pub const PAGE_STREAM_BUFFER: usize = 16;

/// What the reader of a list of domains has seen after a prefix of the
/// text: the lines that are closed, and the line being read.
pub struct LineState {
    pub lines: Seq<Seq<char>>,
    pub current: Seq<char>,
}

/// A line without the carriage return that may end it.
pub open spec fn without_return(line: Seq<char>) -> Seq<char> {
    if line.len() > 0 && line.last() == '\r' {
        line.drop_last()
    } else {
        line
    }
}

/// Reads one character of a list of domains: a line feed closes the line
/// being read, which loses a carriage return at its end; any other
/// character is added to the line.
pub open spec fn line_step(st: LineState, c: char) -> LineState {
    if c == '\n' {
        LineState { lines: st.lines.push(without_return(st.current)), current: Seq::empty() }
    } else {
        LineState { lines: st.lines, current: st.current.push(c) }
    }
}

/// The reader's state after all of `text`.
pub open spec fn line_scan(text: Seq<char>) -> LineState
    decreases text.len(),
{
    if text.len() == 0 {
        LineState { lines: Seq::empty(), current: Seq::empty() }
    } else {
        line_step(line_scan(text.drop_last()), text.last())
    }
}

/// The domains of a list, one per line. A line ends with a line feed or
/// with a carriage return and a line feed; the last line need not end.
/// Empty lines are kept.
pub open spec fn domain_lines(text: Seq<char>) -> Seq<Seq<char>> {
    let st = line_scan(text);
    if st.current.len() > 0 {
        st.lines.push(st.current)
    } else {
        st.lines
    }
}

/// A string without its last character.
fn without_last(line: &str) -> (out: String)
    requires
        line@.len() > 0,
    ensures
        out@ == line@.drop_last(),
{
    let chars = chars_of(line);
    let mut out = String::new();
    let mut i: usize = 0;
    while i + 1 < chars.len()
        invariant
            chars@ == line@,
            i < chars.len(),
            out@ == chars@.take(i as int),
        decreases chars.len() - i,
    {
        push_char(&mut out, chars[i]);
        assert(chars@.take(i + 1) =~= chars@.take(i as int).push(chars@[i as int]));
        i += 1;
    }
    assert(chars@.take(i as int) =~= chars@.drop_last());
    out
}

/// The domains to crawl, from the text of a list with one domain per line.
pub fn domains_of(text: &str) -> (domains: Vec<String>)
    ensures
        texts(domains@) == domain_lines(text@),
{
    let mut domains: Vec<String> = Vec::new();
    let mut current = String::new();
    let mut ends_with_return = false;
    assert(texts(domains@) =~= Seq::<Seq<char>>::empty());
    assert(text@.take(0).len() == 0);

    for c in it: text.chars()
        invariant
            it.seq() == text@,
            line_scan(text@.take(it.index() as int)) == (LineState {
                lines: texts(domains@),
                current: current@,
            }),
            ends_with_return == (current@.len() > 0 && current@.last() == '\r'),
    {
        proof {
            let n = it.index() as int;
            assert(text@.take(n + 1).drop_last() == text@.take(n));
            assert(text@.take(n + 1).last() == c);
        }
        let ghost before = texts(domains@);
        if c == '\n' {
            let ghost closed = without_return(current@);
            if ends_with_return {
                domains.push(without_last(current.as_str()));
            } else {
                domains.push(current);
            }
            current = String::new();
            ends_with_return = false;
            assert(texts(domains@) =~= before.push(closed));
        } else {
            push_char(&mut current, c);
            ends_with_return = c == '\r';
        }
    }
    assert(text@.take(text@.len() as int) == text@);
    if !current.as_str().is_empty() {
        let ghost before = texts(domains@);
        let ghost closed = current@;
        domains.push(current);
        assert(texts(domains@) =~= before.push(closed));
    }
    domains
}

/// Whether progress is reported after the given number of pages of a
/// domain: at every multiple of the interval. With an interval of zero
/// nothing is reported.
pub open spec fn is_progress_due(page_count: u32, log_interval: u32) -> bool {
    log_interval > 0 && page_count % log_interval == 0
}

/// Whether progress is reported after the given number of pages of a
/// domain.
pub fn progress_due(page_count: u32, log_interval: u32) -> (due: bool)
    ensures
        due == is_progress_due(page_count, log_interval),
{
    log_interval > 0 && page_count % log_interval == 0
}

/// The tasks of one kind that run at the same time. A task may be started
/// whenever no wait is due; after a start that fills the pool beyond its
/// limit, the owner waits for tasks to end until the limit is met again.
pub struct TaskPool {
    limit: usize,
    running: usize,
}

impl TaskPool {
    /// The most tasks that run once every due wait is over.
    pub closed spec fn limit(&self) -> nat {
        self.limit as nat
    }

    /// The tasks that run.
    pub closed spec fn running(&self) -> nat {
        self.running as nat
    }

    /// Never more than one task beyond the limit runs.
    #[verifier::type_invariant]
    pub closed spec fn wf(&self) -> bool {
        self.running <= self.limit + 1 && self.limit < usize::MAX
    }

    /// An empty pool. A limit at the top of the range of `usize` is taken
    /// as one below it.
    pub fn new(limit: usize) -> (pool: TaskPool)
        ensures
            pool.running() == 0,
            pool.limit() == if limit == usize::MAX {
                (limit - 1) as nat
            } else {
                limit as nat
            },
    {
        let limit = if limit == usize::MAX {
            limit - 1
        } else {
            limit
        };
        TaskPool { limit, running: 0 }
    }

    /// How many tasks run.
    pub fn in_flight(&self) -> (running: usize)
        ensures
            running == self.running(),
            running <= self.limit() + 1,
    {
        proof {
            use_type_invariant(self);
        }
        self.running
    }

    /// Whether the owner has to wait for a task to end before it goes on:
    /// whether more tasks run than the limit allows.
    pub fn must_wait(&self) -> (wait: bool)
        ensures
            wait == (self.running() > self.limit()),
    {
        self.running > self.limit
    }

    /// Counts a task that was started. Where a wait is due nothing is
    /// counted and `false` is returned.
    pub fn started(&mut self) -> (counted: bool)
        ensures
            final(self).limit() == old(self).limit(),
            counted == (old(self).running() <= old(self).limit()),
            counted ==> final(self).running() == old(self).running() + 1,
            !counted ==> final(self).running() == old(self).running(),
        no_unwind
    {
        proof {
            use_type_invariant(&*self);
        }
        if self.running > self.limit {
            return false;
        }
        self.running += 1;
        true
    }

    /// Counts a task that ended, however it ended. Where none runs nothing
    /// is counted and `false` is returned.
    pub fn ended(&mut self) -> (counted: bool)
        ensures
            final(self).limit() == old(self).limit(),
            counted == (old(self).running() > 0),
            counted ==> final(self).running() == old(self).running() - 1,
            !counted ==> final(self).running() == 0,
        no_unwind
    {
        proof {
            use_type_invariant(&*self);
        }
        if self.running == 0 {
            return false;
        }
        self.running -= 1;
        true
    }
}

/// What the crawl of a list of domains does next.
#[derive(Debug, PartialEq, Eq, Structural, Clone, Copy)]
pub enum CrawlAction {
    /// Start the crawl of the domain at this place of the list.
    Start(usize),
    /// Wait for one running crawl to end.
    AwaitOne,
    /// Every domain was crawled, or was given up.
    Finished,
}

/// The crawl of a list of domains, a bounded number of them at a time.
pub struct CrawlPlan {
    total: usize,
    next: usize,
    failed: usize,
    pool: TaskPool,
}

impl CrawlPlan {
    /// How many domains the list holds.
    pub closed spec fn total(&self) -> nat {
        self.total as nat
    }

    /// How many domains were started.
    pub closed spec fn started(&self) -> nat {
        self.next as nat
    }

    /// How many crawls run.
    pub closed spec fn running(&self) -> nat {
        self.pool.running()
    }

    /// How many crawls have failed.
    pub closed spec fn failures(&self) -> nat {
        self.failed as nat
    }

    /// The most crawls that run once every due wait is over.
    pub closed spec fn limit(&self) -> nat {
        self.pool.limit()
    }

    /// Domains are started in the order of the list, none twice, and only
    /// started crawls run.
    #[verifier::type_invariant]
    pub closed spec fn wf(&self) -> bool {
        self.next <= self.total && self.pool.running() + self.failed <= self.next
    }

    /// The plan for a list of `total` domains, at most `limit` of which
    /// run once every due wait is over.
    pub fn new(total: usize, limit: usize) -> (plan: CrawlPlan)
        ensures
            plan.total() == total,
            plan.started() == 0,
            plan.running() == 0,
            plan.failures() == 0,
            plan.limit() == if limit == usize::MAX {
                (limit - 1) as nat
            } else {
                limit as nat
            },
    {
        CrawlPlan { total, next: 0, failed: 0, pool: TaskPool::new(limit) }
    }

    /// What to do next. While more crawls run than the limit allows, one
    /// is waited for. Else the next domain of the list is started. When
    /// the list is used up, the running crawls are waited for one by one,
    /// and then the crawl is finished.
    pub fn next_action(&mut self) -> (action: CrawlAction)
        ensures
            final(self).total() == old(self).total(),
            final(self).limit() == old(self).limit(),
            old(self).running() <= old(self).limit() + 1,
            old(self).started() <= old(self).total(),
            action == if old(self).running() > old(self).limit() {
                CrawlAction::AwaitOne
            } else if old(self).started() < old(self).total() {
                CrawlAction::Start(old(self).started() as usize)
            } else if old(self).running() > 0 {
                CrawlAction::AwaitOne
            } else {
                CrawlAction::Finished
            },
            final(self).failures() == old(self).failures(),
            action is Start ==> final(self).started() == old(self).started() + 1,
            action is Start ==> final(self).running() == old(self).running() + 1,
            !(action is Start) ==> final(self).started() == old(self).started(),
            !(action is Start) ==> final(self).running() == old(self).running(),
    {
        proof {
            use_type_invariant(&*self);
        }
        let running = self.pool.in_flight();
        if self.pool.must_wait() {
            CrawlAction::AwaitOne
        } else if self.next < self.total {
            let place = self.next;
            self.next = place + 1;
            let counted = self.pool.started();
            assert(counted);
            CrawlAction::Start(place)
        } else if running > 0 {
            CrawlAction::AwaitOne
        } else {
            CrawlAction::Finished
        }
    }

    /// Takes note that one crawl ended. A failure is counted; apart from
    /// that, whether the crawl ended well or failed makes no difference
    /// to what is done next for the other domains. Where no crawl runs,
    /// nothing is changed.
    pub fn crawl_ended(&mut self, failed: bool)
        ensures
            final(self).total() == old(self).total(),
            final(self).limit() == old(self).limit(),
            final(self).started() == old(self).started(),
            old(self).running() > 0 ==> final(self).running() == old(self).running() - 1,
            old(self).running() > 0 && failed ==> final(self).failures() == old(self).failures()
                + 1,
            old(self).running() == 0 || !failed ==> final(self).failures() == old(self).failures(),
            old(self).running() == 0 ==> final(self).running() == 0,
    {
        proof {
            use_type_invariant(&*self);
        }
        if self.pool.ended() && failed {
            self.failed += 1;
        }
    }

    /// How many crawls have failed.
    pub fn failed(&self) -> (failed: usize)
        ensures
            failed == self.failures(),
    {
        self.failed
    }
}

} // verus!
