use vstd::prelude::*;

verus! {

/// Length of the rate-limiting window, in milliseconds.
pub const RATE_LIMIT_WINDOW_MS: u64 = 60000;

/// The delay, in milliseconds, before the `count`-th call of a tool within one window.
pub open spec fn delay_for_count(count: int) -> u64 {
    if count <= 1 {
        0
    } else if count == 2 {
        100
    } else if count == 3 {
        250
    } else if count == 4 {
        500
    } else if count == 5 {
        1000
    } else {
        1500
    }
}

/// Executable form of `delay_for_count`.
pub fn rate_limit_delay(count: usize) -> (r: u64)
    ensures
        r == delay_for_count(count as int),
{
    if count <= 1 {
        0
    } else if count == 2 {
        100
    } else if count == 3 {
        250
    } else if count == 4 {
        500
    } else if count == 5 {
        1000
    } else {
        1500
    }
}

/// The delay never decreases as calls accumulate within a window.
pub proof fn lemma_delay_monotone(j: int, k: int)
    requires
        j <= k,
    ensures
        delay_for_count(j) <= delay_for_count(k),
{
}

/// Recent use of one tool: when it was last called, and how often within the
/// current window.
#[derive(PartialEq, Eq, Structural, Clone, Copy, Debug)]
pub struct ToolUsage {
    pub last_call_ms: u64,
    pub call_count: usize,
}

/// What a call at `now_ms` makes of a tool's usage record.
pub open spec fn next_usage_spec(prev: Option<ToolUsage>, now_ms: u64) -> ToolUsage {
    match prev {
        None => ToolUsage { last_call_ms: now_ms, call_count: 1 },
        Some(u) => if now_ms >= u.last_call_ms && now_ms - u.last_call_ms > RATE_LIMIT_WINDOW_MS {
            ToolUsage { last_call_ms: now_ms, call_count: 1 }
        } else {
            ToolUsage {
                last_call_ms: now_ms,
                call_count: if u.call_count < usize::MAX {
                    (u.call_count + 1) as usize
                } else {
                    usize::MAX
                },
            }
        },
    }
}

/// Updates a tool's usage record for a call at `now_ms`. A record more than a
/// window old starts a new window.
pub fn next_usage(prev: Option<ToolUsage>, now_ms: u64) -> (r: ToolUsage)
    ensures
        r == next_usage_spec(prev, now_ms),
{
    match prev {
        None => ToolUsage { last_call_ms: now_ms, call_count: 1 },
        Some(u) => {
            if now_ms >= u.last_call_ms && now_ms - u.last_call_ms > RATE_LIMIT_WINDOW_MS {
                ToolUsage { last_call_ms: now_ms, call_count: 1 }
            } else {
                let c = if u.call_count < usize::MAX {
                    u.call_count + 1
                } else {
                    usize::MAX
                };
                ToolUsage { last_call_ms: now_ms, call_count: c }
            }
        },
    }
}

/// One tool's entry in the limiter.
#[derive(Debug)]
pub struct UsageEntry {
    pub tool: String,
    pub usage: ToolUsage,
}

/// Per-tool usage, for the adaptive delay before each tool call.
pub struct RateLimiter {
    pub entries: Vec<UsageEntry>,
}

/// The usage recorded for `tool` among `entries`, if any.
pub open spec fn usage_of(entries: Seq<UsageEntry>, tool: Seq<char>) -> Option<ToolUsage>
    decreases entries.len(),
{
    if entries.len() == 0 {
        None
    } else if entries.last().tool@ == tool {
        Some(entries.last().usage)
    } else {
        usage_of(entries.drop_last(), tool)
    }
}

proof fn lemma_usage_update(s: Seq<UsageEntry>, k: int, e: UsageEntry, t: Seq<char>)
    requires
        0 <= k < s.len(),
        e.tool@ == s[k].tool@,
        forall|j: int| k < j < s.len() ==> (#[trigger] s[j]).tool@ != e.tool@,
    ensures
        usage_of(s.update(k, e), t) == (if t == e.tool@ {
            Some(e.usage)
        } else {
            usage_of(s, t)
        }),
    decreases s.len(),
{
    let u = s.update(k, e);
    if k == s.len() - 1 {
        assert(u.drop_last() =~= s.drop_last());
    } else {
        assert(u.drop_last() =~= s.drop_last().update(k, e));
        assert(u.last() == s.last());
        assert(s.last().tool@ != e.tool@);
        lemma_usage_update(s.drop_last(), k, e, t);
    }
}

impl RateLimiter {
    pub open spec fn lookup(&self, tool: Seq<char>) -> Option<ToolUsage> {
        usage_of(self.entries@, tool)
    }

    /// A limiter that has seen no calls.
    pub fn new() -> (r: RateLimiter)
        ensures
            forall|t: Seq<char>| r.lookup(t) is None,
    {
        RateLimiter { entries: Vec::new() }
    }

    /// Records a call of `tool_name` at `now_ms` and returns the delay, in
    /// milliseconds, to wait before making it.
    pub fn calculate_delay(&mut self, tool_name: &str, now_ms: u64) -> (r: u64)
        ensures
            final(self).lookup(tool_name@) == Some(
                next_usage_spec(old(self).lookup(tool_name@), now_ms),
            ),
            forall|t: Seq<char>| t != tool_name@ ==> final(self).lookup(t) == old(self).lookup(t),
            r == delay_for_count(final(self).lookup(tool_name@)->Some_0.call_count as int),
    {
        let key: String = tool_name.to_owned();
        let n = self.entries.len();
        let mut i: usize = n;
        let mut found: Option<usize> = None;
        proof {
            assert(self.entries@.take(n as int) =~= self.entries@);
        }
        while i > 0 && found.is_none()
            invariant
                i <= n == self.entries@.len(),
                key@ == tool_name@,
                self.entries@ == old(self).entries@,
                found is None ==> usage_of(self.entries@, tool_name@) == usage_of(
                    self.entries@.take(i as int),
                    tool_name@,
                ),
                found is None ==> forall|j: int|
                    i <= j < n ==> (#[trigger] self.entries@[j]).tool@ != tool_name@,
                found matches Some(k) ==> {
                    &&& k < n
                    &&& self.entries@[k as int].tool@ == tool_name@
                    &&& forall|j: int| k < j < n ==> (#[trigger] self.entries@[j]).tool@ != tool_name@
                    &&& usage_of(self.entries@, tool_name@) == Some(self.entries@[k as int].usage)
                },
            decreases i,
        {
            proof {
                let t = self.entries@.take(i as int);
                assert(t.drop_last() =~= self.entries@.take(i - 1));
            }
            if self.entries[i - 1].tool == key {
                found = Some(i - 1);
            }
            i = i - 1;
        }
        match found {
            Some(k) => {
                let prev = self.entries[k].usage;
                let next = next_usage(Some(prev), now_ms);
                let entry = UsageEntry { tool: key, usage: next };
                proof {
                    assert forall|t: Seq<char>| true implies #[trigger] usage_of(
                        self.entries@.update(k as int, entry),
                        t,
                    ) == (if t == tool_name@ {
                        Some(next)
                    } else {
                        usage_of(self.entries@, t)
                    }) by {
                        lemma_usage_update(self.entries@, k as int, entry, t);
                    }
                }
                self.entries.set(k, entry);
                rate_limit_delay(next.call_count)
            },
            None => {
                let next = next_usage(None, now_ms);
                let entry = UsageEntry { tool: key, usage: next };
                self.entries.push(entry);
                proof {
                    assert(self.entries@.drop_last() =~= old(self).entries@);
                    assert(old(self).entries@.take(0) =~= Seq::<UsageEntry>::empty());
                }
                rate_limit_delay(next.call_count)
            },
        }
    }
}

/// Within one window, the delay before a tool's next call is never less
/// than the delay before its previous one.
pub proof fn lemma_successive_delays(prev: Option<ToolUsage>, t1: u64, t2: u64)
    requires
        t1 <= t2,
        t2 - t1 <= RATE_LIMIT_WINDOW_MS,
    ensures
        ({
            let u1 = next_usage_spec(prev, t1);
            let u2 = next_usage_spec(Some(u1), t2);
            &&& u2.call_count >= u1.call_count
            &&& delay_for_count(u1.call_count as int) <= delay_for_count(u2.call_count as int)
        }),
{
    let u1 = next_usage_spec(prev, t1);
    let u2 = next_usage_spec(Some(u1), t2);
    lemma_delay_monotone(u1.call_count as int, u2.call_count as int);
}

} // verus!
