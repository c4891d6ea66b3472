//! Memory records, how a recall joins candidates to records, and how
//! recalled memories are rendered for an agent.

use vstd::prelude::*;
use crate::search::MemorySearchResult;

verus! {

/// Kind of a stored memory.
#[derive(Debug, Clone, Copy, PartialEq, Eq)]
pub enum MemoryType {
    Fact,
    Preference,
    Decision,
    Identity,
    Event,
    Observation,
}

/// Tag under which a memory type is rendered.
pub open spec fn memory_type_tag(t: MemoryType) -> Seq<char> {
    match t {
        MemoryType::Fact => "fact"@,
        MemoryType::Preference => "preference"@,
        MemoryType::Decision => "decision"@,
        MemoryType::Identity => "identity"@,
        MemoryType::Event => "event"@,
        MemoryType::Observation => "observation"@,
    }
}

impl MemoryType {
    pub fn as_str(&self) -> (r: &'static str)
        ensures
            r@ == memory_type_tag(*self),
    {
        match self {
            MemoryType::Fact => "fact",
            MemoryType::Preference => "preference",
            MemoryType::Decision => "decision",
            MemoryType::Identity => "identity",
            MemoryType::Event => "event",
            MemoryType::Observation => "observation",
        }
    }
}

/// A full memory record as the record store returns it. Importance is kept
/// in hundredths (`100` is 1.00).
#[derive(Debug, Clone)]
pub struct Memory {
    pub id: String,
    pub content: String,
    pub memory_type: MemoryType,
    pub importance: u64,
    pub source: Option<String>,
    pub channel_id: Option<String>,
}

/// Text rendered for an empty recall.
pub open spec fn no_memories_text() -> Seq<char> {
    "No relevant memories found."@
}

/// Heading of a non-empty recall.
pub open spec fn heading_text() -> Seq<char> {
    "## Relevant Memories\n\n"@
}

pub open spec fn digit_char(d: nat) -> char {
    if d == 0 {
        '0'
    } else if d == 1 {
        '1'
    } else if d == 2 {
        '2'
    } else if d == 3 {
        '3'
    } else if d == 4 {
        '4'
    } else if d == 5 {
        '5'
    } else if d == 6 {
        '6'
    } else if d == 7 {
        '7'
    } else if d == 8 {
        '8'
    } else {
        '9'
    }
}

/// Decimal digits of `n`, without leading zeros.
pub open spec fn decimal(n: nat) -> Seq<char>
    decreases n,
{
    if n < 10 {
        seq![digit_char(n)]
    } else {
        decimal(n / 10).push(digit_char(n % 10))
    }
}

/// `h` hundredths written with two decimals (`57` is `0.57`).
pub open spec fn two_decimals(h: nat) -> Seq<char> {
    decimal(h / 100) + seq!['.', digit_char((h % 100) / 10), digit_char(h % 10)]
}

/// First line of `s`: up to the first line feed, without a carriage return
/// that ends it; all of `s` when it holds no line feed.
pub open spec fn first_line(s: Seq<char>) -> Seq<char> {
    if exists|i: int| 0 <= i < s.len() && s[i] == '\n' {
        let k = choose|k: int| 0 <= k < s.len() && s[k] == '\n' && forall|j: int| 0 <= j < k ==> s[j] != '\n';
        let l = s.subrange(0, k);
        if l.len() > 0 && l.last() == '\r' {
            l.drop_last()
        } else {
            l
        }
    } else {
        s
    }
}

/// Entry of rank `rank` (counted from 1).
pub open spec fn entry_text(rank: nat, m: Memory) -> Seq<char> {
    decimal(rank) + ". ["@ + memory_type_tag(m.memory_type) + "] (importance: "@ + two_decimals(m.importance as nat)
        + ")\n   "@ + first_line(m.content@) + "\n\n"@
}

/// Entries `0..n` of `ms`, each under its rank.
pub open spec fn entries_text(ms: Seq<Memory>, n: nat) -> Seq<char>
    decreases n,
{
    if n == 0 {
        Seq::empty()
    } else {
        entries_text(ms, (n - 1) as nat) + entry_text(n, ms[n - 1])
    }
}

/// Rendering of a recall for the agent.
pub open spec fn memories_text(ms: Seq<Memory>) -> Seq<char> {
    if ms.len() == 0 {
        no_memories_text()
    } else {
        heading_text() + entries_text(ms, ms.len())
    }
}

fn digit_str(d: u64) -> (r: &'static str)
    requires
        d < 10,
    ensures
        r@ == seq![digit_char(d as nat)],
{
    proof {
        reveal_strlit("0");
        reveal_strlit("1");
        reveal_strlit("2");
        reveal_strlit("3");
        reveal_strlit("4");
        reveal_strlit("5");
        reveal_strlit("6");
        reveal_strlit("7");
        reveal_strlit("8");
        reveal_strlit("9");
    }
    if d == 0 {
        "0"
    } else if d == 1 {
        "1"
    } else if d == 2 {
        "2"
    } else if d == 3 {
        "3"
    } else if d == 4 {
        "4"
    } else if d == 5 {
        "5"
    } else if d == 6 {
        "6"
    } else if d == 7 {
        "7"
    } else if d == 8 {
        "8"
    } else {
        assert(seq!['9'] =~= "9"@);
        "9"
    }
}

fn append_decimal(out: &mut String, n: u64)
    ensures
        final(out)@ == old(out)@ + decimal(n as nat),
    decreases n,
{
    if n < 10 {
        out.append(digit_str(n));
    } else {
        append_decimal(out, n / 10);
        out.append(digit_str(n % 10));
        assert(decimal(n as nat) =~= decimal((n / 10) as nat) + seq![digit_char((n % 10) as nat)]);
    }
}

/// Position of the first line feed of `s`, or its length when there is none.
fn line_end(s: &str) -> (r: usize)
    ensures
        r <= s@.len(),
        forall|j: int| 0 <= j < r ==> s@[j] != '\n',
        r < s@.len() ==> s@[r as int] == '\n',
{
    let n = s.unicode_len();
    let mut i: usize = 0;
    while i < n
        invariant
            n == s@.len(),
            i <= n,
            forall|j: int| 0 <= j < i ==> s@[j] != '\n',
        decreases n - i,
    {
        if s.get_char(i) == '\n' {
            return i;
        }
        i = i + 1;
    }
    i
}

fn first_line_of(s: &str) -> (r: &str)
    ensures
        r@ == first_line(s@),
{
    let k = line_end(s);
    if k == s.unicode_len() {
        assert(!exists|i: int| 0 <= i < s@.len() && s@[i] == '\n');
        s
    } else {
        let ghost kk = choose|k: int| 0 <= k < s@.len() && s@[k] == '\n' && forall|j: int| 0 <= j < k ==> s@[j] != '\n';
        assert(kk == k as int) by {
            if kk < k as int {
                assert(s@[kk] != '\n');
            }
            if (k as int) < kk {
                assert(s@[k as int] != '\n');
            }
        }
        if k > 0 && s.get_char(k - 1) == '\r' {
            let r = s.substring_char(0, k - 1);
            assert(r@ =~= s@.subrange(0, k as int).drop_last());
            r
        } else {
            s.substring_char(0, k)
        }
    }
}

/// Renders recalled memories for an agent: a fixed sentence when there are
/// none; else a heading, then per memory its rank, type tag, importance with
/// two decimals and the first line of its content.
pub fn format_memories(memories: &[Memory]) -> (r: String)
    ensures
        r@ == memories_text(memories@),
{
    if memories.len() == 0 {
        return String::from_str("No relevant memories found.");
    }
    let mut output = String::from_str("## Relevant Memories\n\n");
    let mut i: usize = 0;
    while i < memories.len()
        invariant
            i <= memories@.len(),
            output@ == heading_text() + entries_text(memories@, i as nat),
        decreases memories@.len() - i,
    {
        let m = &memories[i];
        let ghost before = output@;
        append_decimal(&mut output, (i + 1) as u64);
        output.append(". [");
        output.append(m.memory_type.as_str());
        output.append("] (importance: ");
        append_decimal(&mut output, m.importance / 100);
        output.append(".");
        output.append(digit_str((m.importance % 100) / 10));
        output.append(digit_str(m.importance % 10));
        output.append(")\n   ");
        output.append(first_line_of(m.content.as_str()));
        output.append("\n\n");
        proof {
            reveal_strlit(".");
            assert(output@ =~= before + entry_text((i + 1) as nat, memories@[i as int]));
            assert(heading_text() + entries_text(memories@, (i + 1) as nat) =~= before + entry_text(
                (i + 1) as nat,
                memories@[i as int],
            ));
        }
        i = i + 1;
    }
    output
}


/// An empty recall renders as the fixed "no relevant memories" sentence.
pub proof fn lemma_empty_recall_text(ms: Seq<Memory>)
    requires
        ms.len() == 0,
    ensures
        memories_text(ms) == no_memories_text(),
{
}


/// `i` is the first record of `records` with id `id`.
pub open spec fn is_first_record(records: Seq<Memory>, id: Seq<char>, i: int) -> bool {
    &&& 0 <= i < records.len()
    &&& records[i].id@ == id
    &&& forall|k: int| 0 <= k < i ==> records[k].id@ != id
}

/// The record of `id`: the first one that carries it, if any.
pub open spec fn record_of(records: Seq<Memory>, id: Seq<char>) -> Option<Memory> {
    if exists|i: int| is_first_record(records, id, i) {
        Some(records[choose|i: int| is_first_record(records, id, i)])
    } else {
        None
    }
}

/// Records of the first `n` curated entries, in their order; entries with
/// no record are skipped.
pub open spec fn resolved(curated: Seq<MemorySearchResult>, records: Seq<Memory>, n: int) -> Seq<Memory>
    decreases n,
{
    if n <= 0 {
        Seq::empty()
    } else {
        let p = resolved(curated, records, n - 1);
        match record_of(records, curated[n - 1].id@) {
            Some(m) => p.push(m),
            None => p,
        }
    }
}

fn copy_text(s: &Option<String>) -> (r: Option<String>)
    ensures
        r == *s,
{
    match s {
        Some(t) => Some(t.clone()),
        None => None,
    }
}

fn copy_memory(m: &Memory) -> (r: Memory)
    ensures
        r == *m,
{
    Memory {
        id: m.id.clone(),
        content: m.content.clone(),
        memory_type: m.memory_type,
        importance: m.importance,
        source: copy_text(&m.source),
        channel_id: copy_text(&m.channel_id),
    }
}

fn find_record(records: &Vec<Memory>, id: &String) -> (r: Option<usize>)
    ensures
        r matches Some(i) ==> is_first_record(records@, id@, i as int) && record_of(records@, id@) == Some(
            records@[i as int],
        ),
        r is None ==> record_of(records@, id@) is None,
{
    let mut i: usize = 0;
    while i < records.len()
        invariant
            i <= records@.len(),
            forall|k: int| 0 <= k < i ==> records@[k].id@ != id@,
        decreases records@.len() - i,
    {
        if records[i].id == *id {
            proof {
                assert(is_first_record(records@, id@, i as int));
                let c = choose|c: int| is_first_record(records@, id@, c);
                assert(is_first_record(records@, id@, c));
                if c < i as int {
                    assert(records@[c].id@ == id@);
                }
                if (i as int) < c {
                    assert(records@[i as int].id@ == id@);
                }
            }
            return Some(i);
        }
        i = i + 1;
    }
    None
}

/// Gives each candidate the importance of its record, where `records`
/// holds one; other candidates keep theirs. Ids and scores are untouched.
pub fn attach_importance(candidates: &mut Vec<MemorySearchResult>, records: &Vec<Memory>)
    ensures
        final(candidates)@.len() == old(candidates)@.len(),
        forall|k: int|
            0 <= k < final(candidates)@.len() ==> {
                let c = #[trigger] final(candidates)@[k];
                let o = old(candidates)@[k];
                &&& c.id == o.id
                &&& c.score == o.score
                &&& c.importance == match record_of(records@, o.id@) {
                    Some(m) => Some(m.importance),
                    None => o.importance,
                }
            },
{
    let ghost orig = candidates@;
    let mut i: usize = 0;
    while i < candidates.len()
        invariant
            i <= candidates@.len(),
            candidates@.len() == orig.len(),
            forall|k: int| i <= k < candidates@.len() ==> #[trigger] candidates@[k] == orig[k],
            forall|k: int|
                0 <= k < i ==> {
                    let c = #[trigger] candidates@[k];
                    let o = orig[k];
                    &&& c.id == o.id
                    &&& c.score == o.score
                    &&& c.importance == match record_of(records@, o.id@) {
                        Some(m) => Some(m.importance),
                        None => o.importance,
                    }
                },
        decreases candidates@.len() - i,
    {
        match find_record(records, &candidates[i].id) {
            Some(r) => {
                let c = MemorySearchResult {
                    id: candidates[i].id.clone(),
                    score: candidates[i].score,
                    importance: Some(records[r].importance),
                };
                candidates.set(i, c);
            },
            None => {},
        }
        i = i + 1;
    }
}

/// The records of the curated candidates, in curated order; a candidate
/// whose record is missing is skipped.
pub fn resolve_records(curated: &Vec<MemorySearchResult>, records: &Vec<Memory>) -> (r: Vec<Memory>)
    ensures
        r@ == resolved(curated@, records@, curated@.len() as int),
{
    let mut out: Vec<Memory> = Vec::new();
    let mut i: usize = 0;
    while i < curated.len()
        invariant
            i <= curated@.len(),
            out@ == resolved(curated@, records@, i as int),
        decreases curated@.len() - i,
    {
        match find_record(records, &curated[i].id) {
            Some(k) => {
                out.push(copy_memory(&records[k]));
            },
            None => {},
        }
        i = i + 1;
    }
    out
}

} // verus!
