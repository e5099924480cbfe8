//! Outputs (monitors): their description, and the assembly of the
//! enumeration that the compositor reports piece by piece.

use vstd::prelude::*;
use std::collections::HashMap;
use crate::keys::{ascending, sorted_keys};

verus! {

/// One display. `name` is the compositor's logical output name (e.g.
/// "DP-1"); position and size are in logical px.
#[derive(Clone, Debug)]
pub struct OutputInfo {
    pub name: String,
    pub x: i32,
    pub y: i32,
    pub width: i32,
    pub height: i32,
}

impl OutputInfo {
    /// A field-for-field copy.
    pub fn duplicate(&self) -> (o: Self)
        ensures
            o == *self,
    {
        OutputInfo {
            name: self.name.clone(),
            x: self.x,
            y: self.y,
            width: self.width,
            height: self.height,
        }
    }
}

/// Index of the first output in `outputs[from..]` whose name is `name`.
pub open spec fn index_of_name_from(outputs: Seq<OutputInfo>, name: Seq<char>, from: int) -> Option<
    int,
>
    decreases outputs.len() - from,
{
    if from < 0 || from >= outputs.len() {
        None
    } else if outputs[from].name@ == name {
        Some(from)
    } else {
        index_of_name_from(outputs, name, from + 1)
    }
}

/// Index of the first output whose name is `name`.
pub open spec fn index_of_name(outputs: Seq<OutputInfo>, name: Seq<char>) -> Option<int> {
    index_of_name_from(outputs, name, 0)
}

pub proof fn lemma_index_of_name_from(outputs: Seq<OutputInfo>, name: Seq<char>, from: int)
    requires
        0 <= from,
    ensures
        index_of_name_from(outputs, name, from) matches Some(i) ==> from <= i < outputs.len()
            && outputs[i].name@ == name && forall|j: int|
            from <= j < i ==> outputs[j].name@ != name,
        index_of_name_from(outputs, name, from) is None ==> forall|j: int|
            from <= j < outputs.len() ==> outputs[j].name@ != name,
    decreases outputs.len() - from,
{
    if from < outputs.len() && outputs[from].name@ != name {
        lemma_index_of_name_from(outputs, name, from + 1);
    }
}

/// The index of the first output named `name`, if any.
pub fn find_output(outputs: &Vec<OutputInfo>, name: &String) -> (r: Option<usize>)
    ensures
        match r {
            Some(i) => index_of_name(outputs@, name@) == Some(i as int),
            None => index_of_name(outputs@, name@) is None,
        },
        r matches Some(i) ==> i < outputs@.len() && outputs@[i as int].name@ == name@,
{
    proof {
        lemma_index_of_name_from(outputs@, name@, 0);
    }
    let mut i: usize = 0;
    while i < outputs.len()
        invariant
            i <= outputs.len(),
            index_of_name(outputs@, name@) == index_of_name_from(outputs@, name@, i as int),
        decreases outputs.len() - i,
    {
        if outputs[i].name == *name {
            return Some(i);
        }
        i = i + 1;
    }
    None
}

broadcast use vstd::std_specs::hash::group_hash_axioms;

/// Inserts `e` into `s` after every element whose x is at most `e.x`
/// (scanning from the back), keeping equal-x elements in arrival order.
pub open spec fn insert_by_x(s: Seq<OutputInfo>, e: OutputInfo) -> Seq<OutputInfo>
    decreases s.len(),
{
    if s.len() == 0 || s.last().x <= e.x {
        s.push(e)
    } else {
        insert_by_x(s.drop_last(), e).push(s.last())
    }
}

/// `s` stably sorted by x (left to right).
pub open spec fn sort_by_x(s: Seq<OutputInfo>) -> Seq<OutputInfo>
    decreases s.len(),
{
    if s.len() == 0 {
        s
    } else {
        insert_by_x(sort_by_x(s.drop_last()), s.last())
    }
}

pub open spec fn sorted_by_x(s: Seq<OutputInfo>) -> bool {
    forall|i: int, j: int| 0 <= i < j < s.len() ==> s[i].x <= s[j].x
}

proof fn lemma_insert_by_x(s: Seq<OutputInfo>, e: OutputInfo)
    requires
        sorted_by_x(s),
    ensures
        sorted_by_x(insert_by_x(s, e)),
        insert_by_x(s, e).to_multiset() == s.to_multiset().insert(e),
        insert_by_x(s, e).len() == s.len() + 1,
    decreases s.len(),
{
    broadcast use vstd::seq_lib::group_to_multiset_ensures;
    if s.len() == 0 || s.last().x <= e.x {
    } else {
        let t = s.drop_last();
        assert(sorted_by_x(t));
        lemma_insert_by_x(t, e);
        let r = insert_by_x(t, e);
        assert(s =~= t.push(s.last()));
        assert forall|i: int| 0 <= i < r.len() implies r[i].x <= s.last().x by {
            assert(r.to_multiset().count(r[i]) > 0);
            assert(t.to_multiset().insert(e).count(r[i]) > 0);
            if r[i] != e {
                assert(t.to_multiset().count(r[i]) > 0);
                assert(t.contains(r[i]));
                let k = choose|k: int| 0 <= k < t.len() && t[k] == r[i];
                assert(s[k] == t[k]);
            }
        }
        assert(r.push(s.last()).to_multiset() =~= r.to_multiset().insert(s.last()));
        assert(s.to_multiset() =~= t.to_multiset().insert(s.last()));
        assert(r.to_multiset().insert(s.last()) =~= t.to_multiset().insert(s.last()).insert(e));
    }
}

/// `sort_by_x` orders left to right and only reorders.
pub proof fn lemma_sort_by_x(s: Seq<OutputInfo>)
    ensures
        sorted_by_x(sort_by_x(s)),
        sort_by_x(s).to_multiset() == s.to_multiset(),
        sort_by_x(s).len() == s.len(),
    decreases s.len(),
{
    broadcast use vstd::seq_lib::group_to_multiset_ensures;
    if s.len() > 0 {
        lemma_sort_by_x(s.drop_last());
        lemma_insert_by_x(sort_by_x(s.drop_last()), s.last());
        assert(s =~= s.drop_last().push(s.last()));
    }
}

/// Inserting at position `p` found by scanning back over larger x.
proof fn lemma_insert_at(s: Seq<OutputInfo>, e: OutputInfo, p: int)
    requires
        0 <= p <= s.len(),
        forall|q: int| p <= q < s.len() ==> s[q].x > e.x,
        p == 0 || s[p - 1].x <= e.x,
    ensures
        insert_by_x(s, e) == s.take(p).push(e) + s.skip(p),
    decreases s.len(),
{
    if s.len() == 0 || s.last().x <= e.x {
        assert(p == s.len());
        assert(s.take(p) =~= s);
        assert(s.skip(p) =~= Seq::<OutputInfo>::empty());
        assert(s.push(e) =~= s.take(p).push(e) + s.skip(p));
    } else {
        let t = s.drop_last();
        assert(p < s.len());
        lemma_insert_at(t, e, p);
        assert(insert_by_x(t, e).push(s.last()) =~= s.take(p).push(e) + s.skip(p));
    }
}

/// What is known of one output before the compositor marks it complete.
#[derive(Debug)]
pub struct PendingOutput {
    pub name: String,
    pub x: i32,
    pub y: i32,
    pub width: i32,
    pub height: i32,
}

impl PendingOutput {
    /// An output nothing has been reported of yet.
    pub fn new() -> (p: Self)
        ensures
            p.name@ == Seq::<char>::empty(),
            p.x == 0 && p.y == 0 && p.width == 0 && p.height == 0,
    {
        PendingOutput { name: String::new(), x: 0, y: 0, width: 0, height: 0 }
    }
}

pub open spec fn info_of(p: PendingOutput) -> OutputInfo {
    OutputInfo { name: p.name, x: p.x, y: p.y, width: p.width, height: p.height }
}

/// The description of each output being enumerated (keyed by the protocol
/// id of its `wl_output`), and the outputs already complete.
pub struct OutputsState {
    pending: HashMap<u64, PendingOutput>,
    results: Vec<OutputInfo>,
}

pub ghost struct OutputsView {
    pub pending: Map<u64, PendingOutput>,
    pub results: Seq<OutputInfo>,
}

impl View for OutputsState {
    type V = OutputsView;

    closed spec fn view(&self) -> OutputsView {
        OutputsView { pending: self.pending@, results: self.results@ }
    }
}

/// Outputs still pending that have a name, in ascending id order.
pub open spec fn named_leftovers(pending: Map<u64, PendingOutput>) -> Seq<OutputInfo> {
    ascending(pending.dom()).filter(|k: u64| pending[k].name@.len() > 0).map_values(
        |k: u64| info_of(pending[k]),
    )
}

/// The enumeration result: complete outputs, then pending ones that have a
/// name, sorted left to right (stable).
pub open spec fn spec_finish(v: OutputsView) -> Seq<OutputInfo> {
    sort_by_x(v.results + named_leftovers(v.pending))
}

pub open spec fn blank_or(m: Map<u64, PendingOutput>, id: u64, p: PendingOutput) -> bool {
    if m.contains_key(id) {
        p.name == m[id].name && p.x == m[id].x && p.y == m[id].y && p.width == m[id].width
            && p.height == m[id].height
    } else {
        p.name@ == Seq::<char>::empty() && p.x == 0 && p.y == 0 && p.width == 0 && p.height == 0
    }
}

impl OutputsState {
    pub fn new() -> (s: Self)
        ensures
            s@.pending == Map::<u64, PendingOutput>::empty(),
            s@.results == Seq::<OutputInfo>::empty(),
    {
        OutputsState { pending: HashMap::new(), results: Vec::new() }
    }

    fn take_entry(&mut self, id: u64) -> (p: PendingOutput)
        ensures
            final(self)@.pending == old(self)@.pending.remove(id),
            final(self)@.results == old(self)@.results,
            blank_or(old(self)@.pending, id, p),
    {
        match self.pending.remove(&id) {
            Some(p) => p,
            None => PendingOutput::new(),
        }
    }

    /// Output `id` reported its name.
    pub fn set_name(&mut self, id: u64, name: String)
        ensures
            final(self)@.results == old(self)@.results,
            final(self)@.pending == old(self)@.pending.insert(id, final(self)@.pending[id]),
            final(self)@.pending[id].name == name,
            blank_or(
                old(self)@.pending,
                id,
                PendingOutput { name: old(self)@.pending[id].name, ..final(self)@.pending[id] },
            ) || !old(self)@.pending.contains_key(id),
            !old(self)@.pending.contains_key(id) ==> {
                let p = final(self)@.pending[id];
                p.x == 0 && p.y == 0 && p.width == 0 && p.height == 0
            },
    {
        let mut p = self.take_entry(id);
        p.name = name;
        self.pending.insert(id, p);
    }

    /// Output `id` reported its logical position.
    pub fn set_logical_position(&mut self, id: u64, x: i32, y: i32)
        ensures
            final(self)@.results == old(self)@.results,
            final(self)@.pending == old(self)@.pending.insert(id, final(self)@.pending[id]),
            blank_or(
                old(self)@.pending,
                id,
                PendingOutput { x: old(self)@.pending[id].x, y: old(self)@.pending[id].y, ..final(self)@.pending[id] },
            ) || !old(self)@.pending.contains_key(id),
            !old(self)@.pending.contains_key(id) ==> {
                let p = final(self)@.pending[id];
                p.name@ == Seq::<char>::empty() && p.width == 0 && p.height == 0
            },
            final(self)@.pending[id].x == x,
            final(self)@.pending[id].y == y,
    {
        let mut p = self.take_entry(id);
        p.x = x;
        p.y = y;
        self.pending.insert(id, p);
    }

    /// Output `id` reported its logical size.
    pub fn set_logical_size(&mut self, id: u64, width: i32, height: i32)
        ensures
            final(self)@.results == old(self)@.results,
            final(self)@.pending == old(self)@.pending.insert(id, final(self)@.pending[id]),
            blank_or(
                old(self)@.pending,
                id,
                PendingOutput {
                    width: old(self)@.pending[id].width,
                    height: old(self)@.pending[id].height,
                    ..final(self)@.pending[id]
                },
            ) || !old(self)@.pending.contains_key(id),
            !old(self)@.pending.contains_key(id) ==> {
                let p = final(self)@.pending[id];
                p.name@ == Seq::<char>::empty() && p.x == 0 && p.y == 0
            },
            final(self)@.pending[id].width == width,
            final(self)@.pending[id].height == height,
    {
        let mut p = self.take_entry(id);
        p.width = width;
        p.height = height;
        self.pending.insert(id, p);
    }

    /// Output `id` is complete: its description joins the results.
    pub fn finalize(&mut self, id: u64)
        ensures
            final(self)@.pending == old(self)@.pending.remove(id),
            final(self)@.results == if old(self)@.pending.contains_key(id) {
                old(self)@.results.push(info_of(old(self)@.pending[id]))
            } else {
                old(self)@.results
            },
    {
        if let Some(p) = self.pending.remove(&id) {
            self.results.push(
                OutputInfo { name: p.name, x: p.x, y: p.y, width: p.width, height: p.height },
            );
        }
    }

    /// The enumeration: complete outputs, then the pending ones that have a
    /// name, sorted left to right.
    pub fn finish(self) -> (r: Vec<OutputInfo>)
        ensures
            r@ == spec_finish(self@),
            sorted_by_x(r@),
            r@.to_multiset() == (self@.results + named_leftovers(self@.pending)).to_multiset(),
    {
        let ghost v = self@;
        let OutputsState { mut pending, results } = self;
        let mut all = results;
        let ids = sorted_keys(&pending);
        let ghost ks = ids@;
        let ghost pred = |k: u64| v.pending[k].name@.len() > 0;
        let ghost f = |k: u64| info_of(v.pending[k]);
        let mut i: usize = 0;
        proof {
            assert(ks.take(0).filter(pred) =~= Seq::<u64>::empty());
            assert(all@ =~= v.results + ks.take(0).filter(pred).map_values(f));
        }
        while i < ids.len()
            invariant
                ids@ == ks,
                ks == ascending(v.pending.dom()),
                ks.to_set() == v.pending.dom(),
                crate::keys::strictly_increasing(ks),
                0 <= i <= ids.len(),
                forall|j: int| i <= j < ks.len() ==> pending@.contains_key(#[trigger] ks[j])
                    && pending@[ks[j]] == v.pending[ks[j]],
                all@ == v.results + ks.take(i as int).filter(pred).map_values(f),
                pred == (|k: u64| v.pending[k].name@.len() > 0),
                f == (|k: u64| info_of(v.pending[k])),
            decreases ids.len() - i,
        {
            let k = ids[i];
            proof {
                assert(ks[i as int] == k);
                assert(pending@.contains_key(k) && pending@[k] == v.pending[k]);
            }
            let named = match pending.get(&k) {
                Some(p) => {
                    let nm = p.name.as_str();
                    assert(nm@ == p.name@);
                    nm.unicode_len() > 0
                },
                None => false,
            };
            assert(named == (v.pending[k].name@.len() > 0));
            let ghost before = all@;
            proof {
                assert(ks[i as int] == k);
            }
            if named {
                let p = pending.remove(&k).unwrap();
                all.push(OutputInfo { name: p.name, x: p.x, y: p.y, width: p.width, height: p.height });
            }
            proof {
                let a = ks.take(i as int);
                let b = seq![k];
                assert(ks.take(i + 1) =~= a + b);
                Seq::filter_distributes_over_add(a, b, pred);
                reveal_with_fuel(Seq::filter, 2);
                assert(b.drop_last() =~= Seq::<u64>::empty());
                assert(b.filter(pred) =~= if pred(k) { seq![k] } else { Seq::<u64>::empty() });
                assert((a.filter(pred) + b.filter(pred)).map_values(f) =~= a.filter(pred).map_values(f)
                    + b.filter(pred).map_values(f));
                assert(named == pred(k));
                if named {
                    assert(all@ =~= before.push(f(k)));
                    assert(b.filter(pred).map_values(f) =~= seq![f(k)]);
                } else {
                    assert(all@ =~= before);
                    assert(b.filter(pred).map_values(f) =~= Seq::<OutputInfo>::empty());
                }
                assert(all@ =~= v.results + ks.take(i + 1).filter(pred).map_values(f));
                assert forall|j: int| i + 1 <= j < ks.len() implies pending@.contains_key(#[trigger] ks[j])
                    && pending@[ks[j]] == v.pending[ks[j]] by {
                    assert(ks[i as int] < ks[j]);
                }
            }
            i = i + 1;
        }
        proof {
            assert(ks.take(ks.len() as int) =~= ks);
        }
        let ghost input = all@;
        let mut sorted: Vec<OutputInfo> = Vec::new();
        let mut j: usize = 0;
        while j < all.len()
            invariant
                all@ == input,
                0 <= j <= all.len(),
                sorted@ == sort_by_x(input.take(j as int)),
            decreases all.len() - j,
        {
            let e = all[j].duplicate();
            proof {
                lemma_sort_by_x(input.take(j as int));
            }
            let mut p: usize = sorted.len();
            while p > 0 && sorted[p - 1].x > e.x
                invariant
                    0 <= p <= sorted.len(),
                    sorted@ == sort_by_x(input.take(j as int)),
                    forall|q: int| p <= q < sorted@.len() ==> sorted@[q].x > e.x,
                decreases p,
            {
                p = p - 1;
            }
            proof {
                lemma_insert_at(sorted@, e, p as int);
                assert(input.take(j + 1).drop_last() =~= input.take(j as int));
                assert(input.take(j + 1).last() == e);
            }
            sorted.insert(p, e);
            proof {
                assert(sorted@ =~= sort_by_x(input.take(j + 1)));
            }
            j = j + 1;
        }
        proof {
            assert(input.take(input.len() as int) =~= input);
            lemma_sort_by_x(input);
        }
        sorted
    }
}

} // verus!
