//! Small maps: those keyed by transcript cell, and one keyed by name.

use std::collections::{BTreeMap, BTreeSet};

use vstd::prelude::*;
use vstd::std_specs::cmp::OrdSpec;
use vstd::std_specs::iter::IteratorSpec;

use crate::text::same_text;

verus! {

// ---------------------------------------------------------------------------
// Keyed by cell
// ---------------------------------------------------------------------------

/// These cells come in order, each once.
pub open spec fn increasing(cells: Seq<usize>) -> bool {
    forall|i: int, j: int| 0 <= i < j < cells.len() ==> cells[i] < cells[j]
}

/// The part of a map below `n`.
pub open spec fn below<T>(m: Map<usize, T>, n: usize) -> Map<usize, T> {
    Map::new(|cell: usize| cell < n && m.contains_key(cell), |cell: usize| m[cell])
}

/// A map moved down by `n` cells. What lies below `n` is dropped.
pub open spec fn moved_down<T>(m: Map<usize, T>, n: usize) -> Map<usize, T> {
    Map::new(
        |cell: usize| cell + n <= usize::MAX && m.contains_key((cell + n) as usize),
        |cell: usize| m[(cell + n) as usize],
    )
}

/// The cells below `n`.
pub open spec fn cells_below(cells: Set<usize>, n: usize) -> Set<usize> {
    Set::new(|cell: usize| cell < n && cells.contains(cell))
}

/// Cells moved down by `n`. Those below `n` are dropped.
pub open spec fn cells_moved_down(cells: Set<usize>, n: usize) -> Set<usize> {
    Set::new(|cell: usize| cell + n <= usize::MAX && cells.contains((cell + n) as usize))
}

/// The cells that a map has something for, in order.
pub fn cells_of<T>(map: &BTreeMap<usize, T>) -> (res: Vec<usize>)
    ensures
        increasing(res@),
        forall|cell: usize| res@.contains(cell) <==> #[trigger] map@.contains_key(cell),
{
    let mut out: Vec<usize> = Vec::new();
    let entries = map.iter();
    let ghost all = entries.remaining();
    let ghost cells = all.map_values(|entry: (&usize, &T)| *entry.0);
    proof {
        assert forall|i: int, j: int| 0 <= i < j < cells.len() implies cells[i] < cells[j] by {
            assert(cells[i].cmp_spec(&cells[j]) is Less);
        }
        assert forall|cell: usize| cells.contains(cell) <==> #[trigger] map@.contains_key(cell) by {
            if map@.contains_key(cell) {
                assert(all.contains((&cell, &map@[cell])));
                let i = choose|i: int| 0 <= i < all.len() && all[i] == (&cell, &map@[cell]);
                assert(cells[i] == cell);
            }
            if cells.contains(cell) {
                let i = choose|i: int| 0 <= i < cells.len() && cells[i] == cell;
                assert(map@.contains_key(*all[i].0));
            }
        }
    }
    for entry in it: entries
        invariant
            it.seq() == all,
            cells == all.map_values(|entry: (&usize, &T)| *entry.0),
            out@.len() == it.index(),
            forall|i: int| 0 <= i < it.index() ==> out@[i] == cells[i],
    {
        out.push(*entry.0);
    }
    proof { assert(out@ =~= cells); }
    out
}

/// Drops what a map has for cells at or behind `n`.
pub fn retain_below<T>(map: &mut BTreeMap<usize, T>, n: usize)
    ensures
        final(map)@ == below(old(map)@, n),
{
    let ghost before = map@;
    let cells = cells_of(map);
    let mut i: usize = 0;
    while i < cells.len()
        invariant
            i <= cells@.len(),
            increasing(cells@),
            forall|cell: usize| cells@.contains(cell) <==> #[trigger] before.contains_key(cell),
            forall|cell: usize| #[trigger]
                map@.contains_key(cell) ==> before.contains_key(cell) && map@[cell] == before[cell],
            forall|cell: usize| #[trigger]
                before.contains_key(cell) && cell < n ==> map@.contains_key(cell),
            forall|k: int| 0 <= k < i && #[trigger] cells@[k] >= n ==> !map@.contains_key(cells@[k]),
        decreases cells@.len() - i,
    {
        let cell: usize = cells[i];
        if cell >= n {
            let _ = map.remove(&cell);
        }
        i += 1;
    }
    proof {
        assert forall|cell: usize| #[trigger] map@.contains_key(cell) implies cell < n by {
            assert(cells@.contains(cell));
            let k = choose|k: int| 0 <= k < cells@.len() && cells@[k] == cell;
            assert(cells@[k] == cell);
        }
        assert(map@ =~= below(before, n));
    }
}

/// Moves what a map has down by `n` cells and drops what it has for the first
/// `n`.
pub fn shift_down<T>(map: &mut BTreeMap<usize, T>, n: usize)
    ensures
        final(map)@ == moved_down(old(map)@, n),
{
    let ghost before = map@;
    let cells = cells_of(map);
    let mut moved: BTreeMap<usize, T> = BTreeMap::new();
    let mut i: usize = 0;
    while i < cells.len()
        invariant
            i <= cells@.len(),
            increasing(cells@),
            forall|cell: usize| cells@.contains(cell) <==> #[trigger] before.contains_key(cell),
            forall|k: int|
                i <= k < cells@.len() ==> map@.contains_key(#[trigger] cells@[k]) && map@[cells@[k]]
                    == before[cells@[k]],
            forall|k: int|
                0 <= k < i && #[trigger] cells@[k] >= n ==> moved@.contains_key(
                    (cells@[k] - n) as usize,
                ),
            forall|cell: usize| #[trigger]
                moved@.contains_key(cell) ==> cell + n <= usize::MAX && before.contains_key(
                    (cell + n) as usize,
                ) && moved@[cell] == before[(cell + n) as usize],
        decreases cells@.len() - i,
    {
        let cell: usize = cells[i];
        proof {
            assert(cells@.contains(cell));
            assert(before.contains_key(cell));
        }
        if let Some(value) = map.remove(&cell) {
            if cell >= n {
                moved.insert(cell - n, value);
            }
        }
        i += 1;
    }
    proof {
        assert forall|cell: usize|
            cell + n <= usize::MAX && before.contains_key((cell + n) as usize) implies
            #[trigger] moved@.contains_key(cell) by {
            let from = (cell + n) as usize;
            assert(cells@.contains(from));
            let k = choose|k: int| 0 <= k < cells@.len() && cells@[k] == from;
            assert(cells@[k] == from);
        }
        assert(moved@ =~= moved_down(before, n));
    }
    *map = moved;
}

/// The cells of a set.
fn listed(set: &BTreeSet<usize>) -> (res: Vec<usize>)
    ensures
        forall|cell: usize| res@.contains(cell) <==> #[trigger] set@.contains(cell),
{
    let mut out: Vec<usize> = Vec::new();
    for cell in it: set.iter()
        invariant
            out@.len() == it.index(),
            forall|i: int| 0 <= i < it.index() ==> out@[i] == *(it.seq()[i]),
    {
        out.push(*cell);
    }
    proof {
        let all = set.iter().remaining();
        assert(out@ =~= all.unref());
        assert forall|cell: usize| out@.contains(cell) <==> #[trigger] set@.contains(cell) by {
            assert(all.unref().to_set().contains(cell) <==> set@.contains(cell));
        }
    }
    out
}

/// Drops the cells at or behind `n`.
pub fn retain_cells_below(set: &mut BTreeSet<usize>, n: usize)
    ensures
        final(set)@ == cells_below(old(set)@, n),
{
    let ghost before = set@;
    let cells = listed(set);
    let mut kept: BTreeSet<usize> = BTreeSet::new();
    let mut i: usize = 0;
    while i < cells.len()
        invariant
            i <= cells@.len(),
            forall|cell: usize| cells@.contains(cell) <==> #[trigger] before.contains(cell),
            forall|k: int| 0 <= k < i && #[trigger] cells@[k] < n ==> kept@.contains(cells@[k]),
            forall|cell: usize| #[trigger]
                kept@.contains(cell) ==> cell < n && before.contains(cell),
        decreases cells@.len() - i,
    {
        let cell: usize = cells[i];
        proof { assert(cells@.contains(cell)); }
        if cell < n {
            kept.insert(cell);
        }
        i += 1;
    }
    proof {
        assert forall|cell: usize| cell < n && before.contains(cell) implies
            #[trigger] kept@.contains(cell) by {
            assert(cells@.contains(cell));
            let k = choose|k: int| 0 <= k < cells@.len() && cells@[k] == cell;
            assert(cells@[k] == cell);
        }
        assert(kept@ =~= cells_below(before, n));
    }
    *set = kept;
}

/// Moves cells down by `n` and drops the first `n`.
pub fn shift_cells_down(set: &mut BTreeSet<usize>, n: usize)
    ensures
        final(set)@ == cells_moved_down(old(set)@, n),
{
    let ghost before = set@;
    let cells = listed(set);
    let mut moved: BTreeSet<usize> = BTreeSet::new();
    let mut i: usize = 0;
    while i < cells.len()
        invariant
            i <= cells@.len(),
            forall|cell: usize| cells@.contains(cell) <==> #[trigger] before.contains(cell),
            forall|k: int|
                0 <= k < i && #[trigger] cells@[k] >= n ==> moved@.contains(
                    (cells@[k] - n) as usize,
                ),
            forall|cell: usize| #[trigger]
                moved@.contains(cell) ==> cell + n <= usize::MAX && before.contains(
                    (cell + n) as usize,
                ),
        decreases cells@.len() - i,
    {
        let cell: usize = cells[i];
        proof { assert(cells@.contains(cell)); }
        if cell >= n {
            moved.insert(cell - n);
        }
        i += 1;
    }
    proof {
        assert forall|cell: usize|
            cell + n <= usize::MAX && before.contains((cell + n) as usize) implies
            #[trigger] moved@.contains(cell) by {
            let from = (cell + n) as usize;
            assert(cells@.contains(from));
            let k = choose|k: int| 0 <= k < cells@.len() && cells@[k] == from;
            assert(cells@[k] == from);
        }
        assert(moved@ =~= cells_moved_down(before, n));
    }
    *set = moved;
}

// ---------------------------------------------------------------------------
// Keyed by name
// ---------------------------------------------------------------------------

/// A map from names.
#[derive(Debug)]
pub struct NameMap<T> {
    entries: Vec<(String, T)>,
}

/// No name comes twice.
pub open spec fn distinct_names<T>(s: Seq<(String, T)>) -> bool {
    forall|i: int, j: int| 0 <= i < j < s.len() ==> s[i].0@ != s[j].0@
}

/// One of these entries is for the name.
pub open spec fn holds_name<T>(s: Seq<(String, T)>, name: Seq<char>) -> bool {
    exists|i: int| 0 <= i < s.len() && (#[trigger] s[i]).0@ == name
}

/// The position of the entry for a name.
pub open spec fn name_position<T>(s: Seq<(String, T)>, name: Seq<char>) -> int {
    choose|i: int| 0 <= i < s.len() && (#[trigger] s[i]).0@ == name
}

/// The map that entries stand for.
pub open spec fn name_map<T>(s: Seq<(String, T)>) -> Map<Seq<char>, T> {
    Map::new(
        |name: Seq<char>| holds_name(s, name),
        |name: Seq<char>| s[name_position(s, name)].1,
    )
}

/// The part of a map whose values lie below `n`.
pub open spec fn values_below(m: Map<Seq<char>, usize>, n: usize) -> Map<Seq<char>, usize> {
    Map::new(|name: Seq<char>| m.contains_key(name) && m[name] < n, |name: Seq<char>| m[name])
}

/// A map with its values lowered by `n`. Values below `n` are dropped.
pub open spec fn values_lowered(m: Map<Seq<char>, usize>, n: usize) -> Map<Seq<char>, usize> {
    Map::new(
        |name: Seq<char>| m.contains_key(name) && m[name] >= n,
        |name: Seq<char>| (m[name] - n) as usize,
    )
}

proof fn lemma_name_entry<T>(s: Seq<(String, T)>, i: int)
    requires
        distinct_names(s),
        0 <= i < s.len(),
    ensures
        name_map(s).contains_key(s[i].0@),
        name_map(s)[s[i].0@] == s[i].1,
        name_position(s, s[i].0@) == i,
{
    assert(holds_name(s, s[i].0@));
    let j = name_position(s, s[i].0@);
    assert(s[j].0@ == s[i].0@);
    if j < i {
        assert(s[j].0@ != s[i].0@);
    } else if i < j {
        assert(s[i].0@ != s[j].0@);
    }
}

impl<T> View for NameMap<T> {
    type V = Map<Seq<char>, T>;

    closed spec fn view(&self) -> Map<Seq<char>, T> {
        name_map(self.entries@)
    }
}

impl<T> NameMap<T> {
    /// The entries in some order.
    pub closed spec fn entries(&self) -> Seq<(String, T)> {
        self.entries@
    }

    #[verifier::type_invariant]
    spec fn is_distinct(self) -> bool {
        distinct_names(self.entries@)
    }

    /// An empty map.
    pub fn new() -> (res: Self)
        ensures
            res@ == Map::<Seq<char>, T>::empty(),
    {
        let res = NameMap { entries: Vec::new() };
        proof { assert(res@ =~= Map::<Seq<char>, T>::empty()); }
        res
    }

    /// How many names the map has an entry for.
    pub fn len(&self) -> (res: usize)
        ensures
            res == self.entries().len(),
            distinct_names(self.entries()),
            self@ == name_map(self.entries()),
    {
        proof { use_type_invariant(self); }
        self.entries.len()
    }

    /// The value at a position.
    pub fn value(&self, i: usize) -> (res: &T)
        requires
            i < self.entries().len(),
        ensures
            *res == self.entries()[i as int].1,
            self@.contains_key(self.entries()[i as int].0@),
            self@[self.entries()[i as int].0@] == *res,
    {
        proof {
            use_type_invariant(self);
            lemma_name_entry(self.entries@, i as int);
        }
        &self.entries[i].1
    }

    fn position(&self, name: &str) -> (res: usize)
        ensures
            res <= self.entries@.len(),
            forall|i: int| 0 <= i < res ==> (#[trigger] self.entries@[i]).0@ != name@,
            res < self.entries@.len() ==> self.entries@[res as int].0@ == name@,
    {
        let mut i: usize = 0;
        while i < self.entries.len()
            invariant
                i <= self.entries@.len(),
                forall|j: int| 0 <= j < i ==> (#[trigger] self.entries@[j]).0@ != name@,
            decreases self.entries@.len() - i,
        {
            if same_text(self.entries[i].0.as_str(), name) {
                return i;
            }
            i += 1;
        }
        i
    }

    /// What the map holds for a name.
    pub fn get(&self, name: &str) -> (res: Option<&T>)
        ensures
            match res {
                Some(v) => self@.contains_key(name@) && *v == self@[name@],
                None => !self@.contains_key(name@),
            },
    {
        proof { use_type_invariant(self); }
        let p = self.position(name);
        if p < self.entries.len() {
            proof { lemma_name_entry(self.entries@, p as int); }
            Some(&self.entries[p].1)
        } else {
            None
        }
    }

    /// Sets what the map holds for a name.
    pub fn insert(&mut self, name: String, value: T)
        ensures
            final(self)@ == old(self)@.insert(name@, value),
    {
        proof { use_type_invariant(&*self); }
        let p = self.position(name.as_str());
        let mut entries: Vec<(String, T)> = Vec::new();
        std::mem::swap(&mut self.entries, &mut entries);
        let ghost before = entries@;
        let ghost key = name@;
        if p < entries.len() {
            entries.set(p, (name, value));
            proof { assert(entries@ =~= before.update(p as int, (name, value))); }
        } else {
            entries.push((name, value));
            proof { assert(entries@ =~= before.push((name, value))); }
        }
        proof { lemma_name_inserted(before, entries@, p as int, name, value); }
        self.entries = entries;
    }

    /// Removes every entry.
    pub fn clear(&mut self)
        ensures
            final(self)@ == Map::<Seq<char>, T>::empty(),
    {
        let entries: Vec<(String, T)> = Vec::new();
        proof { assert(name_map(entries@) =~= Map::<Seq<char>, T>::empty()); }
        self.entries = entries;
    }

    /// Removes some entry and hands it over, where there is one.
    pub fn pop(&mut self) -> (res: Option<(String, T)>)
        ensures
            match res {
                Some((name, value)) => old(self)@.contains_key(name@) && old(self)@[name@] == value
                    && final(self)@ == old(self)@.remove(name@) && final(self).entries().len()
                    == old(self).entries().len() - 1,
                None => old(self).entries().len() == 0 && old(self)@ == Map::<
                    Seq<char>,
                    T,
                >::empty() && *final(self) == *old(self),
            },
    {
        proof { use_type_invariant(&*self); }
        if self.entries.len() == 0 {
            proof { assert(self@ =~= Map::<Seq<char>, T>::empty()); }
            return None;
        }
        let mut entries: Vec<(String, T)> = Vec::new();
        std::mem::swap(&mut self.entries, &mut entries);
        let ghost before = entries@;
        let res = entries.pop();
        proof {
            assert(entries@ =~= before.drop_last());
            lemma_name_entry(before, before.len() - 1);
            lemma_name_dropped(before);
        }
        self.entries = entries;
        res
    }
}

/// A value lies from `lo` up to `hi`, where there is such a limit.
spec fn in_range(value: usize, lo: usize, hi: Option<usize>) -> bool {
    value >= lo && (hi matches Some(h) ==> value < h)
}

/// The part of a map whose values lie in a range, with its values lowered by
/// the range's start.
spec fn values_in(m: Map<Seq<char>, usize>, lo: usize, hi: Option<usize>) -> Map<Seq<char>, usize> {
    Map::new(
        |name: Seq<char>| m.contains_key(name) && in_range(m[name], lo, hi),
        |name: Seq<char>| (m[name] - lo) as usize,
    )
}

/// Entry `e` is entry `o` with its value lowered.
spec fn is_lowered(e: (String, usize), o: (String, usize), lo: usize) -> bool {
    e.0@ == o.0@ && e.1 == o.1 - lo
}

impl NameMap<usize> {
    fn keep_range(&mut self, lo: usize, hi: Option<usize>)
        ensures
            final(self)@ == values_in(old(self)@, lo, hi),
    {
        proof { use_type_invariant(&*self); }
        let mut kept: Vec<(String, usize)> = Vec::new();
        let ghost before = self.entries@;
        // Where each kept entry comes from.
        let ghost mut origin: Seq<int> = Seq::empty();
        let mut i: usize = 0;
        while i < self.entries.len()
            invariant
                i <= self.entries@.len(),
                before == self.entries@,
                origin.len() == kept@.len(),
                forall|k: int|
                    0 <= k < kept@.len() ==> 0 <= #[trigger] origin[k] < i && in_range(
                        before[origin[k]].1,
                        lo,
                        hi,
                    ) && is_lowered(kept@[k], before[origin[k]], lo),
                forall|a: int, b: int| 0 <= a < b < origin.len() ==> origin[a] < origin[b],
                forall|j: int|
                    0 <= j < i && in_range((#[trigger] before[j]).1, lo, hi) ==> origin.contains(j),
            decreases self.entries@.len() - i,
        {
            let value: usize = self.entries[i].1;
            let within = match hi {
                Some(h) => value < h,
                None => true,
            };
            let ghost old_origin = origin;
            if value >= lo && within {
                let entry = (self.entries[i].0.clone(), value - lo);
                kept.push(entry);
                proof {
                    origin = origin.push(i as int);
                    assert(origin[origin.len() - 1] == i);
                }
            }
            proof {
                assert forall|j: int| 0 <= j < i + 1 && in_range((#[trigger] before[j]).1, lo, hi)
                    implies origin.contains(j) by {
                    if j < i {
                        assert(old_origin.contains(j));
                        let k = choose|k: int| 0 <= k < old_origin.len() && old_origin[k] == j;
                        assert(origin[k] == j);
                    }
                }
            }
            i += 1;
        }
        proof { lemma_kept(before, kept@, origin, lo, hi); }
        self.entries = kept;
    }

    /// Drops the entries whose values are `n` or more.
    pub fn retain_below(&mut self, n: usize)
        ensures
            final(self)@ == values_below(old(self)@, n),
    {
        proof { assert(values_in(self@, 0, Some(n)) =~= values_below(self@, n)); }
        self.keep_range(0, Some(n));
    }

    /// Lowers every value by `n` and drops the entries whose values are less.
    pub fn shift_down(&mut self, n: usize)
        ensures
            final(self)@ == values_lowered(old(self)@, n),
    {
        proof { assert(values_in(self@, n, None) =~= values_lowered(self@, n)); }
        self.keep_range(n, None);
    }
}

proof fn lemma_kept(
    before: Seq<(String, usize)>,
    after: Seq<(String, usize)>,
    origin: Seq<int>,
    lo: usize,
    hi: Option<usize>,
)
    requires
        distinct_names(before),
        origin.len() == after.len(),
        forall|k: int|
            0 <= k < after.len() ==> 0 <= #[trigger] origin[k] < before.len() && in_range(
                before[origin[k]].1,
                lo,
                hi,
            ) && is_lowered(after[k], before[origin[k]], lo),
        forall|a: int, b: int| 0 <= a < b < origin.len() ==> origin[a] < origin[b],
        forall|j: int|
            0 <= j < before.len() && in_range((#[trigger] before[j]).1, lo, hi) ==> origin.contains(
                j,
            ),
    ensures
        distinct_names(after),
        name_map(after) == values_in(name_map(before), lo, hi),
{
    assert forall|a: int, b: int| 0 <= a < b < after.len() implies after[a].0@ != after[b].0@ by {
        assert(origin[a] < origin[b]);
        assert(before[origin[a]].0@ != before[origin[b]].0@);
    }
    assert forall|name: Seq<char>| #![auto]
        name_map(after).contains_key(name) == values_in(name_map(before), lo, hi).contains_key(
            name,
        ) by {
        if holds_name(after, name) {
            let k = name_position(after, name);
            assert(after[k].0@ == name);
            assert(before[origin[k]].0@ == name);
            lemma_name_entry(before, origin[k]);
        }
        if holds_name(before, name) {
            let j = name_position(before, name);
            assert(before[j].0@ == name);
            lemma_name_entry(before, j);
            if in_range(before[j].1, lo, hi) {
                assert(origin.contains(j));
                let k = choose|k: int| 0 <= k < origin.len() && origin[k] == j;
                assert(after[k].0@ == name);
                assert(holds_name(after, name));
            }
        }
    }
    assert forall|name: Seq<char>| #![auto] name_map(after).contains_key(name) implies name_map(
        after,
    )[name] == values_in(name_map(before), lo, hi)[name] by {
        let k = name_position(after, name);
        assert(after[k].0@ == name);
        lemma_name_entry(after, k);
        assert(before[origin[k]].0@ == name);
        lemma_name_entry(before, origin[k]);
    }
    assert(name_map(after) =~= values_in(name_map(before), lo, hi));
}

proof fn lemma_name_inserted<T>(
    before: Seq<(String, T)>,
    after: Seq<(String, T)>,
    p: int,
    name: String,
    value: T,
)
    requires
        distinct_names(before),
        0 <= p <= before.len(),
        forall|i: int| 0 <= i < p ==> (#[trigger] before[i]).0@ != name@,
        p < before.len() ==> before[p].0@ == name@ && after == before.update(p, (name, value)),
        p == before.len() ==> after == before.push((name, value)),
    ensures
        distinct_names(after),
        name_map(after) == name_map(before).insert(name@, value),
{
    assert(after[p] == (name, value));
    assert forall|i: int, j: int| 0 <= i < j < after.len() implies after[i].0@ != after[j].0@ by {
        if i != p {
            assert(after[i] == before[i]);
        }
        if j != p {
            assert(after[j] == before[j]);
        }
        if i == p {
            assert(before[p].0@ != before[j].0@);
        }
    }
    assert forall|k: Seq<char>| #![auto]
        name_map(after).contains_key(k) == name_map(before).insert(name@, value).contains_key(k) by {
        if holds_name(after, k) {
            let i = name_position(after, k);
            assert(after[i].0@ == k);
            if i != p {
                assert(before[i].0@ == k);
                assert(holds_name(before, k));
            }
        }
        if holds_name(before, k) {
            let i = name_position(before, k);
            assert(before[i].0@ == k);
            assert(after[i].0@ == k);
            assert(holds_name(after, k));
        }
        if k == name@ {
            assert(holds_name(after, k));
        }
    }
    assert forall|k: Seq<char>| #![auto] name_map(after).contains_key(k) implies name_map(after)[k]
        == name_map(before).insert(name@, value)[k] by {
        let i = name_position(after, k);
        assert(after[i].0@ == k);
        lemma_name_entry(after, i);
        if i != p {
            assert(after[i] == before[i]);
            lemma_name_entry(before, i);
            assert(k != name@) by {
                if i < p {
                    assert(before[i].0@ != name@);
                } else {
                    assert(after[p].0@ != after[i].0@);
                }
            }
        }
    }
    assert(name_map(after) =~= name_map(before).insert(name@, value));
}

proof fn lemma_name_dropped<T>(before: Seq<(String, T)>)
    requires
        distinct_names(before),
        before.len() > 0,
    ensures
        distinct_names(before.drop_last()),
        name_map(before.drop_last()) == name_map(before).remove(before.last().0@),
{
    let after = before.drop_last();
    let last = before.len() - 1;
    assert forall|k: Seq<char>| #![auto]
        name_map(after).contains_key(k) == name_map(before).remove(before.last().0@).contains_key(
            k,
        ) by {
        if holds_name(after, k) {
            let i = name_position(after, k);
            assert(after[i].0@ == k);
            assert(before[i].0@ == k);
            assert(before[i].0@ != before[last].0@);
            assert(holds_name(before, k));
        }
        if holds_name(before, k) && k != before.last().0@ {
            let i = name_position(before, k);
            assert(before[i].0@ == k);
            assert(after[i].0@ == k);
            assert(holds_name(after, k));
        }
    }
    assert forall|k: Seq<char>| #![auto] name_map(after).contains_key(k) implies name_map(after)[k]
        == name_map(before).remove(before.last().0@)[k] by {
        let i = name_position(after, k);
        assert(after[i].0@ == k);
        lemma_name_entry(after, i);
        lemma_name_entry(before, i);
    }
    assert(name_map(after) =~= name_map(before).remove(before.last().0@));
}

} // verus!
