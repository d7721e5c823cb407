use vstd::prelude::*;
use crate::text::{chars_eq, chars_of, is_lower_ascii_word, lower_of, lowercase};

verus! {

/// The kinds of memory the shared store holds.
#[derive(PartialEq, Eq, Structural, Clone, Copy, Debug)]
pub enum MemoryType {
    Discovery,
    Insight,
    Deadend,
    QueryResult,
    Plan,
    Feedback,
    Context,
}

/// The name a memory type is stored under.
pub open spec fn stored_name(t: MemoryType) -> Seq<char> {
    match t {
        MemoryType::Discovery => "discovery"@,
        MemoryType::Insight => "insight"@,
        MemoryType::Deadend => "deadend"@,
        MemoryType::QueryResult => "query_result"@,
        MemoryType::Plan => "plan"@,
        MemoryType::Feedback => "feedback"@,
        MemoryType::Context => "context"@,
    }
}

/// The memory type stored under a (lowercase) name, if any.
pub open spec fn type_of_stored_name(s: Seq<char>) -> Option<MemoryType> {
    if s == "discovery"@ {
        Some(MemoryType::Discovery)
    } else if s == "insight"@ {
        Some(MemoryType::Insight)
    } else if s == "deadend"@ {
        Some(MemoryType::Deadend)
    } else if s == "query_result"@ {
        Some(MemoryType::QueryResult)
    } else if s == "plan"@ {
        Some(MemoryType::Plan)
    } else if s == "feedback"@ {
        Some(MemoryType::Feedback)
    } else if s == "context"@ {
        Some(MemoryType::Context)
    } else {
        None
    }
}

impl MemoryType {
    /// The name this type is stored under.
    pub fn as_str(&self) -> (r: &'static str)
        ensures
            r@ == stored_name(*self),
    {
        match self {
            MemoryType::Discovery => "discovery",
            MemoryType::Insight => "insight",
            MemoryType::Deadend => "deadend",
            MemoryType::QueryResult => "query_result",
            MemoryType::Plan => "plan",
            MemoryType::Feedback => "feedback",
            MemoryType::Context => "context",
        }
    }

    /// The type whose name is `s`, in any case.
    pub fn from_str(s: &str) -> (r: Option<MemoryType>)
        ensures
            r == type_of_stored_name(lower_of(s@)),
            is_lower_ascii_word(s@) ==> r == type_of_stored_name(s@),
    {
        let l = lowercase(s);
        let c = chars_of(l.as_str());
        if chars_eq(&c, &chars_of("discovery")) {
            Some(MemoryType::Discovery)
        } else if chars_eq(&c, &chars_of("insight")) {
            Some(MemoryType::Insight)
        } else if chars_eq(&c, &chars_of("deadend")) {
            Some(MemoryType::Deadend)
        } else if chars_eq(&c, &chars_of("query_result")) {
            Some(MemoryType::QueryResult)
        } else if chars_eq(&c, &chars_of("plan")) {
            Some(MemoryType::Plan)
        } else if chars_eq(&c, &chars_of("feedback")) {
            Some(MemoryType::Feedback)
        } else if chars_eq(&c, &chars_of("context")) {
            Some(MemoryType::Context)
        } else {
            None
        }
    }
}

/// A type's stored name reads back as that type.
pub proof fn lemma_stored_name_round_trip(t: MemoryType)
    ensures
        is_lower_ascii_word(stored_name(t)),
        type_of_stored_name(stored_name(t)) == Some(t),
{
    reveal_strlit("discovery");
    reveal_strlit("insight");
    reveal_strlit("deadend");
    reveal_strlit("query_result");
    reveal_strlit("plan");
    reveal_strlit("feedback");
    reveal_strlit("context");
    let d = "discovery"@;
    let i = "insight"@;
    let e = "deadend"@;
    let q = "query_result"@;
    let p = "plan"@;
    let f = "feedback"@;
    let c = "context"@;
    assert(d[0] != i[0] && d[0] != q[0] && d[0] != p[0] && d[0] != f[0] && d[0] != c[0]);
    assert(d.len() != e.len());
    assert(i[0] != e[0] && i[0] != q[0] && i[0] != p[0] && i[0] != f[0] && i[0] != c[0]);
    assert(e[0] != q[0] && e[0] != p[0] && e[0] != f[0] && e[0] != c[0]);
    assert(q[0] != p[0] && q[0] != f[0] && q[0] != c[0]);
    assert(p[0] != f[0] && p[0] != c[0]);
    assert(f[0] != c[0]);
}

/// Counts of stored memories, by type.
#[derive(Clone, Copy, Debug)]
pub struct MemoryStats {
    pub total_count: usize,
    pub discovery_count: usize,
    pub insight_count: usize,
    pub deadend_count: usize,
    pub query_result_count: usize,
    pub plan_count: usize,
    pub feedback_count: usize,
    pub context_count: usize,
}

/// How many of `ts` are `t`.
pub open spec fn count_of(ts: Seq<MemoryType>, t: MemoryType) -> nat
    decreases ts.len(),
{
    if ts.len() == 0 {
        0
    } else {
        count_of(ts.drop_last(), t) + if ts.last() == t {
            1nat
        } else {
            0nat
        }
    }
}

/// The counts are those of the memories whose types are `ts`.
pub open spec fn stats_match(s: MemoryStats, ts: Seq<MemoryType>) -> bool {
    &&& s.total_count == ts.len()
    &&& s.discovery_count == count_of(ts, MemoryType::Discovery)
    &&& s.insight_count == count_of(ts, MemoryType::Insight)
    &&& s.deadend_count == count_of(ts, MemoryType::Deadend)
    &&& s.query_result_count == count_of(ts, MemoryType::QueryResult)
    &&& s.plan_count == count_of(ts, MemoryType::Plan)
    &&& s.feedback_count == count_of(ts, MemoryType::Feedback)
    &&& s.context_count == count_of(ts, MemoryType::Context)
}

proof fn lemma_count_le_len(ts: Seq<MemoryType>, t: MemoryType)
    ensures
        count_of(ts, t) <= ts.len(),
    decreases ts.len(),
{
    if ts.len() > 0 {
        lemma_count_le_len(ts.drop_last(), t);
    }
}

impl MemoryStats {
    /// The counts of the memories whose types are `types`.
    pub fn from_types(types: &Vec<MemoryType>) -> (r: MemoryStats)
        ensures
            stats_match(r, types@),
    {
        let mut s = MemoryStats {
            total_count: 0,
            discovery_count: 0,
            insight_count: 0,
            deadend_count: 0,
            query_result_count: 0,
            plan_count: 0,
            feedback_count: 0,
            context_count: 0,
        };
        let mut i: usize = 0;
        proof {
            assert(types@.take(0) =~= Seq::<MemoryType>::empty());
        }
        while i < types.len()
            invariant
                i <= types@.len(),
                stats_match(s, types@.take(i as int)),
            decreases types.len() - i,
        {
            let ghost before = types@.take(i as int);
            proof {
                assert(types@.take(i + 1).drop_last() =~= before);
                assert(types@.take(i + 1).last() == types@[i as int]);
                lemma_count_le_len(before, MemoryType::Discovery);
                lemma_count_le_len(before, MemoryType::Insight);
                lemma_count_le_len(before, MemoryType::Deadend);
                lemma_count_le_len(before, MemoryType::QueryResult);
                lemma_count_le_len(before, MemoryType::Plan);
                lemma_count_le_len(before, MemoryType::Feedback);
                lemma_count_le_len(before, MemoryType::Context);
            }
            s.total_count = s.total_count + 1;
            match types[i] {
                MemoryType::Discovery => s.discovery_count = s.discovery_count + 1,
                MemoryType::Insight => s.insight_count = s.insight_count + 1,
                MemoryType::Deadend => s.deadend_count = s.deadend_count + 1,
                MemoryType::QueryResult => s.query_result_count = s.query_result_count + 1,
                MemoryType::Plan => s.plan_count = s.plan_count + 1,
                MemoryType::Feedback => s.feedback_count = s.feedback_count + 1,
                MemoryType::Context => s.context_count = s.context_count + 1,
            }
            i = i + 1;
        }
        proof {
            assert(types@.take(types@.len() as int) =~= types@);
        }
        s
    }

    /// The counts as one line of text.
    pub fn summary_line(&self) -> (r: String)
        ensures
            r@ == "Total: "@ + crate::status::decimal_of(self.total_count as nat)
                + " (Discoveries: "@ + crate::status::decimal_of(self.discovery_count as nat)
                + ", Insights: "@ + crate::status::decimal_of(self.insight_count as nat)
                + ", Deadends: "@ + crate::status::decimal_of(self.deadend_count as nat)
                + ", Cached Queries: "@ + crate::status::decimal_of(
                self.query_result_count as nat,
            ) + ")"@,
    {
        let mut out: Vec<char> = Vec::new();
        crate::text::append_str(&mut out, "Total: ");
        crate::text::append_chars(&mut out, &crate::status::decimal_chars(self.total_count));
        crate::text::append_str(&mut out, " (Discoveries: ");
        crate::text::append_chars(&mut out, &crate::status::decimal_chars(self.discovery_count));
        crate::text::append_str(&mut out, ", Insights: ");
        crate::text::append_chars(&mut out, &crate::status::decimal_chars(self.insight_count));
        crate::text::append_str(&mut out, ", Deadends: ");
        crate::text::append_chars(&mut out, &crate::status::decimal_chars(self.deadend_count));
        crate::text::append_str(&mut out, ", Cached Queries: ");
        crate::text::append_chars(
            &mut out,
            &crate::status::decimal_chars(self.query_result_count),
        );
        crate::text::append_str(&mut out, ")");
        crate::text::string_of(&out)
    }
}

/// A store with no memories counts zero of every type.
pub proof fn lemma_empty_stats_zero(s: MemoryStats)
    requires
        stats_match(s, Seq::empty()),
    ensures
        s.total_count == 0 && s.discovery_count == 0 && s.insight_count == 0 && s.deadend_count
            == 0 && s.query_result_count == 0 && s.plan_count == 0 && s.feedback_count == 0
            && s.context_count == 0,
{
}

/// Why an embedding could not be stored.
#[derive(PartialEq, Eq, Structural, Clone, Copy, Debug)]
pub enum EmbeddingError {
    /// The vector's length is not the configured dimension.
    WrongDimension,
}

/// The four little-endian bytes of a 32-bit word.
pub open spec fn le_bytes(w: u32) -> Seq<u8> {
    seq![(w % 256) as u8, ((w / 256) % 256) as u8, ((w / 65536) % 256) as u8, (w / 16777216) as u8]
}

/// The blob of an embedding: each component's IEEE-754 bits, little-endian.
pub open spec fn blob_of(bits: Seq<u32>) -> Seq<u8>
    decreases bits.len(),
{
    if bits.len() == 0 {
        Seq::empty()
    } else {
        blob_of(bits.drop_last()) + le_bytes(bits.last())
    }
}

proof fn lemma_blob_len(bits: Seq<u32>)
    ensures
        blob_of(bits).len() == 4 * bits.len(),
    decreases bits.len(),
{
    if bits.len() > 0 {
        lemma_blob_len(bits.drop_last());
    }
}

/// Encodes an embedding, given as the bit patterns of its `f32` components,
/// as the blob the vector index stores; refuses one of the wrong dimension.
pub fn embedding_blob(bits: &Vec<u32>, dimensions: usize) -> (r: Result<Vec<u8>, EmbeddingError>)
    ensures
        bits@.len() == dimensions <==> r is Ok,
        r matches Ok(b) ==> b@ == blob_of(bits@) && b@.len() == 4 * dimensions,
{
    if bits.len() != dimensions {
        return Err(EmbeddingError::WrongDimension);
    }
    let mut out: Vec<u8> = Vec::new();
    let mut i: usize = 0;
    proof {
        assert(bits@.take(0) =~= Seq::<u32>::empty());
    }
    while i < bits.len()
        invariant
            i <= bits@.len(),
            out@ == blob_of(bits@.take(i as int)),
        decreases bits.len() - i,
    {
        let w = bits[i];
        out.push((w % 256) as u8);
        out.push(((w / 256) % 256) as u8);
        out.push(((w / 65536) % 256) as u8);
        out.push((w / 16777216) as u8);
        proof {
            assert(bits@.take(i + 1).drop_last() =~= bits@.take(i as int));
            assert(out@ =~= blob_of(bits@.take(i as int)) + le_bytes(w));
        }
        i = i + 1;
    }
    proof {
        assert(bits@.take(bits@.len() as int) =~= bits@);
        lemma_blob_len(bits@);
    }
    Ok(out)
}

/// Every stored blob holds four bytes for each of the configured dimensions.
pub proof fn lemma_blob_dimension(bits: Seq<u32>, dimensions: nat)
    requires
        bits.len() == dimensions,
    ensures
        blob_of(bits).len() / 4 == dimensions,
{
    lemma_blob_len(bits);
}

/// The slot of a stored memory for update-or-store: its type, author and
/// session.
pub type Slot = (MemoryType, Seq<char>, Option<Seq<char>>);

/// Two memories share a slot when type, author and session agree and the
/// session is known.
pub open spec fn same_slot(a: Slot, b: Slot) -> bool {
    b.2 is Some && a.0 == b.0 && a.1 == b.1 && a.2 == b.2
}

/// How many stored memories share the slot `k`.
pub open spec fn slot_count(rows: Seq<Slot>, k: Slot) -> nat
    decreases rows.len(),
{
    if rows.len() == 0 {
        0
    } else {
        slot_count(rows.drop_last(), k) + if same_slot(rows.last(), k) {
            1nat
        } else {
            0nat
        }
    }
}

/// What update-or-store does.
#[derive(PartialEq, Eq, Structural, Clone, Copy, Debug)]
pub enum UpsertAction {
    /// Overwrite the content, metadata, time and embedding of this memory.
    Update(i64),
    /// Store a new memory.
    Insert,
}

/// Decides update-or-store, given the ids of the stored memories with the
/// same type, author and session, oldest first: overwrite the first of them,
/// else store anew. Without a session it always stores anew.
pub fn upsert_action(has_query_id: bool, matching_ids: &Vec<i64>) -> (r: UpsertAction)
    ensures
        !has_query_id ==> r == UpsertAction::Insert,
        has_query_id && matching_ids@.len() > 0 ==> r == UpsertAction::Update(matching_ids@[0]),
        has_query_id && matching_ids@.len() == 0 ==> r == UpsertAction::Insert,
{
    if has_query_id && matching_ids.len() > 0 {
        UpsertAction::Update(matching_ids[0])
    } else {
        UpsertAction::Insert
    }
}

/// The slots of the store after an update-or-store of a memory in slot `k`:
/// an update keeps every slot as it was, an insert adds one.
pub open spec fn after_upsert(rows: Seq<Slot>, k: Slot) -> Seq<Slot> {
    if k.2 is Some && slot_count(rows, k) > 0 {
        rows
    } else {
        rows.push(k)
    }
}

/// Supervisor feedback collapses: when a session's slot holds at most one
/// memory, it still does after an update-or-store into it.
pub proof fn lemma_upsert_keeps_one(rows: Seq<Slot>, k: Slot)
    requires
        k.2 is Some,
        slot_count(rows, k) <= 1,
    ensures
        slot_count(after_upsert(rows, k), k) <= 1,
{
    if slot_count(rows, k) == 0 {
        assert(rows.push(k).drop_last() =~= rows);
    }
}

/// Whether a vector table, as its `CREATE` statement reads, has the older
/// layout keyed by text, and must be rebuilt with an integer key.
pub fn needs_vector_rebuild(create_sql: &str) -> (r: bool)
    ensures
        r == crate::text::contains(create_sql@, "memory_id TEXT"@),
{
    let c = chars_of(create_sql);
    crate::text::contains_chars(&c, &chars_of("memory_id TEXT"))
}

/// One saved exchange of the interface's session history.
#[derive(Clone, Debug)]
pub struct HistoryEntry {
    pub id: i64,
    pub prompt: String,
    pub response: String,
    pub created_at: i64,
}

} // verus!
