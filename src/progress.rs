use vstd::prelude::*;

verus! {

/// How many lines the progress log keeps.
pub const MAX_LOG_LINES: usize = 50;

/// Which part of the system a progress line comes from.
#[derive(PartialEq, Eq, Structural, Clone, Copy, Debug)]
pub enum Kind {
    Info,
    Http,
    Debate,
    Refiner,
    Writer,
    DocumentCritic,
    Combiner,
    Worker,
}

/// One line of the progress log.
#[derive(Debug)]
pub struct Entry {
    pub text: String,
    pub kind: Kind,
}

/// A bounded log of recent progress lines: when full, the oldest line makes
/// room for the newest.
pub struct ProgressLog {
    entries: Vec<Entry>,
}

/// The contents of a log after `e` is added to `s`.
pub open spec fn logged(s: Seq<Entry>, e: Entry) -> Seq<Entry> {
    if s.len() >= MAX_LOG_LINES {
        s.drop_first().push(e)
    } else {
        s.push(e)
    }
}

impl View for ProgressLog {
    type V = Seq<Entry>;

    closed spec fn view(&self) -> Seq<Entry> {
        self.entries@
    }
}

impl ProgressLog {
    pub closed spec fn wf(&self) -> bool {
        self.entries@.len() <= MAX_LOG_LINES
    }

    /// An empty log.
    pub fn new() -> (r: ProgressLog)
        ensures
            r.wf(),
            r@.len() == 0,
    {
        ProgressLog { entries: Vec::new() }
    }

    /// Adds an informational line.
    pub fn log(&mut self, line: &str)
        requires
            old(self).wf(),
        ensures
            final(self).wf(),
            final(self)@.len() > 0,
            final(self)@ == logged(old(self)@, final(self)@.last()),
            final(self)@.last().text@ == line@,
            final(self)@.last().kind == Kind::Info,
    {
        self.log_with(Kind::Info, line);
    }

    /// Adds a line of the given kind, dropping the oldest line when full.
    pub fn log_with(&mut self, kind: Kind, line: &str)
        requires
            old(self).wf(),
        ensures
            final(self).wf(),
            final(self)@.len() > 0,
            final(self)@ == logged(old(self)@, final(self)@.last()),
            final(self)@.last().text@ == line@,
            final(self)@.last().kind == kind,
    {
        if self.entries.len() >= MAX_LOG_LINES {
            self.entries.remove(0);
        }
        self.entries.push(Entry { text: line.to_owned(), kind });
        proof {
            let e = self.entries@.last();
            if old(self).entries@.len() >= MAX_LOG_LINES {
                assert(self.entries@ =~= old(self).entries@.drop_first().push(e));
            } else {
                assert(self.entries@ =~= old(self).entries@.push(e));
            }
        }
    }

    /// The `n` most recent lines, oldest first (all of them if there are fewer).
    pub fn recent(&self, n: usize) -> (r: Vec<Entry>)
        ensures
            r@.len() == (if n < self@.len() {
                n as int
            } else {
                self@.len() as int
            }),
            forall|i: int|
                0 <= i < r@.len() ==> (#[trigger] r@[i]).text@ == self@[self@.len() - r@.len()
                    + i].text@ && r@[i].kind == self@[self@.len() - r@.len() + i].kind,
    {
        let len = self.entries.len();
        let take = if n < len {
            n
        } else {
            len
        };
        let start = len - take;
        let mut r: Vec<Entry> = Vec::new();
        let mut k: usize = start;
        while k < len
            invariant
                len == self.entries@.len(),
                start == len - take,
                start <= k <= len,
                r@.len() == k - start,
                forall|i: int|
                    0 <= i < r@.len() ==> (#[trigger] r@[i]).text@ == self.entries@[start + i].text@
                        && r@[i].kind == self.entries@[start + i].kind,
            decreases len - k,
        {
            let e = Entry { text: self.entries[k].text.clone(), kind: self.entries[k].kind };
            r.push(e);
            k = k + 1;
        }
        r
    }

    /// Removes every line.
    pub fn clear(&mut self)
        ensures
            final(self).wf(),
            final(self)@.len() == 0,
    {
        self.entries.clear();
    }
}

} // verus!
