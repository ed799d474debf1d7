//! HTML/XML character references for a codepoint: the named entities
//! from a sorted table, followed by the decimal and hexadecimal numeric
//! references that exist for every codepoint.
use vstd::prelude::*;

use crate::numfmt::dec_rep;
use crate::numfmt::dec_string;
use crate::numfmt::hex_rep;
use crate::numfmt::hex_string;

verus! {

/// The views of a sequence of strings.
pub open spec fn views_of(v: Seq<String>) -> Seq<Seq<char>> {
    v.map_values(|s: String| s@)
}

/// A named entity rendered as a character reference: `&name;`.
pub open spec fn entity_name_wrapped(name: Seq<char>) -> Seq<char> {
    seq!['&'] + name + seq![';']
}

/// Every name of a sequence, rendered as a character reference.
pub open spec fn wrapped_names(names: Seq<Seq<char>>) -> Seq<Seq<char>> {
    names.map_values(|n: Seq<char>| entity_name_wrapped(n))
}

/// The decimal numeric character reference: `&#n;`.
pub open spec fn dec_entity(cp: int) -> Seq<char> {
    seq!['&', '#'] + dec_rep(cp) + seq![';']
}

/// The hexadecimal numeric character reference: `&#xN;` (uppercase).
pub open spec fn hex_entity(cp: int) -> Seq<char> {
    seq!['&', '#', 'x'] + hex_rep(cp) + seq![';']
}

/// A table of entity names keyed by codepoint, sorted strictly
/// ascending so lookup is a binary search.
pub struct EntityTable {
    pub entries: Vec<(u32, Vec<String>)>,
}

impl EntityTable {
    /// The table invariant: strictly increasing codepoints.
    pub open spec fn wf(&self) -> bool {
        forall|i: int, j: int|
            0 <= i < j < self.entries@.len() ==> self.entries@[i].0 < self.entries@[j].0
    }

    /// Whether the table has named entities for codepoint `cp`.
    pub open spec fn contains(&self, cp: int) -> bool {
        exists|i: int| 0 <= i < self.entries@.len() && self.entries@[i].0 == cp
    }

    /// The index of the entry for `cp` (unique in a well-formed table).
    pub open spec fn index_of(&self, cp: int) -> int {
        choose|i: int| 0 <= i < self.entries@.len() && self.entries@[i].0 == cp
    }

    /// The entity names stored for codepoint `cp`.
    pub open spec fn names(&self, cp: int) -> Seq<Seq<char>> {
        views_of(self.entries@[self.index_of(cp)].1@)
    }

    /// Build a table from entries, validating that the codepoints are
    /// strictly increasing; `None` exactly when they are not.
    pub fn new(entries: Vec<(u32, Vec<String>)>) -> (r: Option<EntityTable>)
        ensures
            match r {
                Some(t) => t.wf() && t.entries@ == entries@,
                None => !(EntityTable { entries }).wf(),
            },
    {
        let mut i: usize = 1;
        while i < entries.len()
            invariant
                1 <= i,
                forall|k: int| 1 <= k < i ==> entries@[k - 1].0 < #[trigger] entries@[k].0,
            decreases entries@.len() - i,
        {
            if entries[i - 1].0 >= entries[i].0 {
                proof {
                    let t0 = EntityTable { entries };
                    assert(t0.entries@[i as int - 1].0 >= t0.entries@[i as int].0);
                    assert(!t0.wf());
                }
                return None;
            }
            i += 1;
        }
        proof {
            assert forall|p: int, q: int|
                0 <= p < q < entries@.len() implies entries@[p].0 < entries@[q].0 by {
                lemma_entries_adjacent_sorted(entries@, p, q);
            }
        }
        Some(EntityTable { entries })
    }
}

/// Pairwise-adjacent strictly increasing keys make the whole entry
/// sequence strictly sorted.
proof fn lemma_entries_adjacent_sorted(entries: Seq<(u32, Vec<String>)>, i: int, j: int)
    requires
        forall|k: int| 1 <= k < entries.len() ==> entries[k - 1].0 < #[trigger] entries[k].0,
        0 <= i < j < entries.len(),
    ensures
        entries[i].0 < entries[j].0,
    decreases j - i,
{
    if i + 1 < j {
        lemma_entries_adjacent_sorted(entries, i, j - 1);
    }
}

/// The entry found at `i` is the entry that [`EntityTable::index_of`]
/// names, since keys are unique in a well-formed table.
proof fn lemma_entity_index_is(t: EntityTable, cp: int, i: int)
    requires
        t.wf(),
        0 <= i < t.entries@.len(),
        t.entries@[i].0 == cp,
    ensures
        t.contains(cp),
        t.index_of(cp) == i,
{
    assert(t.contains(cp));
    let j = t.index_of(cp);
    if j < i {
        assert(t.entries@[j].0 < t.entries@[i].0);
    } else if j > i {
        assert(t.entries@[i].0 < t.entries@[j].0);
    }
}

/// Everything [`get_entities`] returns for codepoint `cp`: the named
/// references when the table has the codepoint, then always the decimal
/// and the hexadecimal numeric references, in that order.
pub open spec fn entities_spec(t: EntityTable, cp: int) -> Seq<Seq<char>> {
    (if t.contains(cp) {
        wrapped_names(t.names(cp))
    } else {
        Seq::empty()
    }) + seq![dec_entity(cp), hex_entity(cp)]
}

/// The character references that apply to codepoint `cp`: the table's
/// named entities (each as `&name;`), then `&#n;` and `&#xN;`.
pub fn get_entities(table: &EntityTable, cp: u32) -> (r: Vec<String>)
    requires
        table.wf(),
    ensures
        views_of(r@) == entities_spec(*table, cp as int),
{
    let mut out: Vec<String> = Vec::new();
    match find_entity_index(table, cp) {
        Some(idx) => {
            let names = &table.entries[idx].1;
            let mut k: usize = 0;
            while k < names.len()
                invariant
                    k <= names@.len(),
                    out@.len() == k,
                    forall|i: int| 0 <= i < k ==> out@[i]@ == entity_name_wrapped(names@[i]@),
                decreases names@.len() - k,
            {
                let mut t = String::new();
                t.push('&');
                t.append(names[k].as_str());
                t.push(';');
                proof {
                    assert(t@ =~= entity_name_wrapped(names@[k as int]@));
                }
                out.push(t);
                k += 1;
            }
        },
        None => {},
    }
    let mut d = String::new();
    d.push('&');
    d.push('#');
    d.append(dec_string(cp).as_str());
    d.push(';');
    proof {
        assert(d@ =~= dec_entity(cp as int));
    }
    out.push(d);
    let mut h = String::new();
    h.push('&');
    h.push('#');
    h.push('x');
    h.append(hex_string(cp).as_str());
    h.push(';');
    proof {
        assert(h@ =~= hex_entity(cp as int));
    }
    out.push(h);
    proof {
        assert(views_of(out@) =~= entities_spec(*table, cp as int));
    }
    out
}

/// Binary search for the entry carrying codepoint `cp`.
fn find_entity_index(table: &EntityTable, cp: u32) -> (r: Option<usize>)
    requires
        table.wf(),
    ensures
        match r {
            Some(i) => {
                &&& table.contains(cp as int)
                &&& i == table.index_of(cp as int)
                &&& i < table.entries@.len()
            },
            None => !table.contains(cp as int),
        },
{
    let mut lo: usize = 0;
    let mut hi: usize = table.entries.len();
    while lo < hi
        invariant
            table.wf(),
            lo <= hi <= table.entries@.len(),
            forall|i: int| 0 <= i < lo ==> table.entries@[i].0 < cp,
            forall|i: int| hi <= i < table.entries@.len() ==> table.entries@[i].0 > cp,
        decreases hi - lo,
    {
        let mid = lo + (hi - lo) / 2;
        let key = table.entries[mid].0;
        if key < cp {
            lo = mid + 1;
        } else if key > cp {
            hi = mid;
        } else {
            proof {
                lemma_entity_index_is(*table, cp as int, mid as int);
            }
            return Some(mid);
        }
    }
    None
}

} // verus!
