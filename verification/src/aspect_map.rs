use vstd::prelude::*;
use crate::schema::clone_strings;

verus! {

/// The set of the texts that a sequence of strings holds.
pub open spec fn view_strs(s: Seq<String>) -> Set<Seq<char>> {
    Set::new(|a: Seq<char>| exists|j: int| 0 <= j < s.len() && s[j]@ == a)
}

/// No two strings of the sequence hold the same text.
pub open spec fn distinct_strs(s: Seq<String>) -> bool {
    forall|i: int, j: int| 0 <= i < j < s.len() ==> s[i]@ != s[j]@
}

/// The texts of a sequence of pairs of strings.
pub open spec fn pair_views(s: Seq<(String, String)>) -> Seq<(Seq<char>, Seq<char>)> {
    s.map_values(|p: (String, String)| (p.0@, p.1@))
}

/// The (entry, aspect) pairs that `incoming` holds and `held` does not.
pub open spec fn new_aspects(
    held: Map<Seq<char>, Set<Seq<char>>>,
    incoming: Map<Seq<char>, Set<Seq<char>>>,
    entry: Seq<char>,
    aspect: Seq<char>,
) -> bool {
    &&& incoming.contains_key(entry)
    &&& incoming[entry].contains(aspect)
    &&& !(held.contains_key(entry) && held[entry].contains(aspect))
}

/// Holding what a scan found a second time changes nothing and finds nothing
/// new: an update from the same incoming map is idempotent.
pub proof fn lemma_update_idempotent(
    held: Map<Seq<char>, Set<Seq<char>>>,
    incoming: Map<Seq<char>, Set<Seq<char>>>,
)
    ensures
        held.union_prefer_right(incoming).union_prefer_right(incoming) == held.union_prefer_right(incoming),
        forall|e: Seq<char>, a: Seq<char>| !new_aspects(held.union_prefer_right(incoming), incoming, e, a),
{
    assert(held.union_prefer_right(incoming).union_prefer_right(incoming) =~= held.union_prefer_right(incoming));
}

/// Each newly found aspect is held after the update, and each entry that the
/// scan did not find keeps the aspects it had.
pub proof fn lemma_update_holds_new_aspects(
    held: Map<Seq<char>, Set<Seq<char>>>,
    incoming: Map<Seq<char>, Set<Seq<char>>>,
    e: Seq<char>,
    a: Seq<char>,
)
    ensures
        new_aspects(held, incoming, e, a) ==> held.union_prefer_right(incoming).contains_key(e)
            && held.union_prefer_right(incoming)[e].contains(a),
        held.contains_key(e) && !incoming.contains_key(e) ==> held.union_prefer_right(incoming).contains_key(e)
            && held.union_prefer_right(incoming)[e] == held[e],
{
}

/// One entry address with the addresses of its aspects.
#[derive(Debug)]
pub struct AspectEntry {
    entry_address: String,
    aspect_addresses: Vec<String>,
}

/// A map from entry addresses to the sets of their aspect addresses.
#[derive(Debug)]
pub struct AspectAddressMap {
    entries: Vec<AspectEntry>,
}

pub closed spec fn has_key(e: Seq<AspectEntry>, k: Seq<char>) -> bool {
    exists|i: int| 0 <= i < e.len() && e[i].entry_address@ == k
}

pub closed spec fn key_index(e: Seq<AspectEntry>, k: Seq<char>) -> int {
    choose|i: int| 0 <= i < e.len() && e[i].entry_address@ == k
}

pub closed spec fn entries_view(e: Seq<AspectEntry>) -> Map<Seq<char>, Set<Seq<char>>> {
    Map::new(
        |k: Seq<char>| has_key(e, k),
        |k: Seq<char>| view_strs(e[key_index(e, k)].aspect_addresses@),
    )
}

pub closed spec fn entries_wf(e: Seq<AspectEntry>) -> bool {
    &&& forall|i: int, j: int|
        0 <= i < j < e.len() ==> e[i].entry_address@ != e[j].entry_address@
    &&& forall|i: int| 0 <= i < e.len() ==> distinct_strs(#[trigger] e[i].aspect_addresses@)
}

proof fn lemma_view_at(e: Seq<AspectEntry>, i: int)
    requires
        entries_wf(e),
        0 <= i < e.len(),
    ensures
        entries_view(e).contains_key(e[i].entry_address@),
        entries_view(e)[e[i].entry_address@] == view_strs(e[i].aspect_addresses@),
{
    let k = e[i].entry_address@;
    assert(has_key(e, k));
    let j = key_index(e, k);
    assert(0 <= j < e.len() && e[j].entry_address@ == k);
    if j != i {
        if j < i {
            assert(e[j].entry_address@ != e[i].entry_address@);
        } else {
            assert(e[i].entry_address@ != e[j].entry_address@);
        }
    }
}

/// Two well-formed sequences of entries with the same keys and aspect sets,
/// index by index, have the same map.
proof fn lemma_view_char(e: Seq<AspectEntry>, m: Map<Seq<char>, Set<Seq<char>>>)
    requires
        entries_wf(e),
        forall|i: int|
            0 <= i < e.len() ==> m.contains_key(#[trigger] e[i].entry_address@) && m[e[i].entry_address@]
                == view_strs(e[i].aspect_addresses@),
        forall|k: Seq<char>| m.contains_key(k) ==> has_key(e, k),
    ensures
        entries_view(e) == m,
{
    assert forall|k: Seq<char>| entries_view(e).contains_key(k) <==> m.contains_key(k) by {
        if entries_view(e).contains_key(k) {
            let i = choose|i: int| 0 <= i < e.len() && e[i].entry_address@ == k;
            assert(m.contains_key(e[i].entry_address@));
        }
    }
    assert forall|k: Seq<char>| entries_view(e).contains_key(k) implies entries_view(e)[k] == m[k] by {
        let i = choose|i: int| 0 <= i < e.len() && e[i].entry_address@ == k;
        lemma_view_at(e, i);
        assert(m.contains_key(e[i].entry_address@));
    }
    assert(entries_view(e) =~= m);
}

proof fn lemma_view_push(e: Seq<AspectEntry>, x: AspectEntry)
    requires
        entries_wf(e),
        !has_key(e, x.entry_address@),
        distinct_strs(x.aspect_addresses@),
    ensures
        entries_wf(e.push(x)),
        entries_view(e.push(x)) == entries_view(e).insert(
            x.entry_address@,
            view_strs(x.aspect_addresses@),
        ),
{
    let f = e.push(x);
    let m = entries_view(e).insert(x.entry_address@, view_strs(x.aspect_addresses@));
    assert forall|i: int, j: int| 0 <= i < j < f.len() implies f[i].entry_address@ != f[j].entry_address@ by {
        if j == e.len() {
            assert(f[i] == e[i]);
        } else {
            assert(f[i] == e[i] && f[j] == e[j]);
        }
    }
    assert forall|i: int| 0 <= i < f.len() implies distinct_strs(#[trigger] f[i].aspect_addresses@) by {
        if i < e.len() {
            assert(f[i] == e[i]);
        }
    }
    assert forall|i: int| 0 <= i < f.len() implies m.contains_key(#[trigger] f[i].entry_address@) && m[f[i].entry_address@]
        == view_strs(f[i].aspect_addresses@) by {
        if i < e.len() {
            assert(f[i] == e[i]);
            lemma_view_at(e, i);
        }
    }
    assert forall|k: Seq<char>| m.contains_key(k) implies has_key(f, k) by {
        if k == x.entry_address@ {
            assert(f[e.len() as int] == x);
        } else {
            let i = choose|i: int| 0 <= i < e.len() && e[i].entry_address@ == k;
            assert(f[i] == e[i]);
        }
    }
    lemma_view_char(f, m);
}

proof fn lemma_view_update(e: Seq<AspectEntry>, p: int, x: AspectEntry)
    requires
        entries_wf(e),
        0 <= p < e.len(),
        e[p].entry_address@ == x.entry_address@,
        distinct_strs(x.aspect_addresses@),
    ensures
        entries_wf(e.update(p, x)),
        entries_view(e.update(p, x)) == entries_view(e).insert(
            x.entry_address@,
            view_strs(x.aspect_addresses@),
        ),
{
    let f = e.update(p, x);
    let m = entries_view(e).insert(x.entry_address@, view_strs(x.aspect_addresses@));
    assert forall|i: int, j: int| 0 <= i < j < f.len() implies f[i].entry_address@ != f[j].entry_address@ by {
        assert(f[i].entry_address@ == e[i].entry_address@);
        assert(f[j].entry_address@ == e[j].entry_address@);
    }
    assert forall|i: int| 0 <= i < f.len() implies distinct_strs(#[trigger] f[i].aspect_addresses@) by {
        if i != p {
            assert(f[i] == e[i]);
        }
    }
    assert forall|i: int| 0 <= i < f.len() implies m.contains_key(#[trigger] f[i].entry_address@) && m[f[i].entry_address@]
        == view_strs(f[i].aspect_addresses@) by {
        if i != p {
            assert(f[i] == e[i]);
            lemma_view_at(e, i);
            assert(e[i].entry_address@ != e[p].entry_address@) by {
                if i < p {
                } else {
                }
            }
        }
    }
    assert forall|k: Seq<char>| m.contains_key(k) implies has_key(f, k) by {
        if k == x.entry_address@ {
            assert(f[p] == x);
        } else {
            let i = choose|i: int| 0 <= i < e.len() && e[i].entry_address@ == k;
            assert(i != p);
            assert(f[i] == e[i]);
        }
    }
    lemma_view_char(f, m);
}

proof fn lemma_view_empty(e: Seq<AspectEntry>)
    requires
        e.len() == 0,
    ensures
        entries_wf(e),
        entries_view(e) == Map::<Seq<char>, Set<Seq<char>>>::empty(),
{
    assert(entries_view(e) =~= Map::<Seq<char>, Set<Seq<char>>>::empty());
}

fn find_entry(e: &Vec<AspectEntry>, k: &String) -> (r: Option<usize>)
    ensures
        match r {
            Some(i) => i < e.len() && e@[i as int].entry_address@ == k@,
            None => !has_key(e@, k@),
        },
{
    let mut i: usize = 0;
    while i < e.len()
        invariant
            i <= e.len(),
            forall|j: int| 0 <= j < i ==> e@[j].entry_address@ != k@,
        decreases e.len() - i,
    {
        if e[i].entry_address == *k {
            return Some(i);
        }
        i = i + 1;
    }
    None
}

fn contains_str(v: &Vec<String>, s: &String) -> (r: bool)
    ensures
        r == view_strs(v@).contains(s@),
{
    let mut i: usize = 0;
    while i < v.len()
        invariant
            i <= v.len(),
            forall|j: int| 0 <= j < i ==> v@[j]@ != s@,
        decreases v.len() - i,
    {
        if v[i] == *s {
            assert(view_strs(v@).contains(s@)) by {
                assert(v@[i as int]@ == s@);
            }
            return true;
        }
        i = i + 1;
    }
    false
}

/// The strings of `v` with later repeats of a text left out.
fn dedup_strs(v: &Vec<String>) -> (r: Vec<String>)
    ensures
        view_strs(r@) == view_strs(v@),
        distinct_strs(r@),
{
    let mut r: Vec<String> = Vec::new();
    let mut i: usize = 0;
    while i < v.len()
        invariant
            i <= v.len(),
            view_strs(r@) == view_strs(v@.take(i as int)),
            distinct_strs(r@),
        decreases v.len() - i,
    {
        let ghost before = r@;
        if !contains_str(&r, &v[i]) {
            r.push(v[i].clone());
            assert forall|a: int, b: int| 0 <= a < b < r@.len() implies r@[a]@ != r@[b]@ by {
                if b == before.len() {
                    assert(r@[a] == before[a]);
                    assert(!view_strs(before).contains(v@[i as int]@));
                    if r@[a]@ == r@[b]@ {
                        assert(view_strs(before).contains(before[a]@));
                    }
                } else {
                    assert(r@[a] == before[a] && r@[b] == before[b]);
                }
            }
        }
        let ghost t = v@.take(i + 1);
        assert(t =~= v@.take(i as int).push(v@[i as int]));
        assert(view_strs(r@) =~= view_strs(t)) by {
            assert forall|x: Seq<char>| view_strs(r@).contains(x) implies view_strs(t).contains(x) by {
                let j = choose|j: int| 0 <= j < r@.len() && r@[j]@ == x;
                if j < before.len() {
                    assert(r@[j] == before[j]);
                    assert(view_strs(before).contains(x));
                    let m = choose|m: int| 0 <= m < i && v@.take(i as int)[m]@ == x;
                    assert(t[m] == v@.take(i as int)[m]);
                } else {
                    assert(t[i as int] == v@[i as int]);
                }
            }
            assert forall|x: Seq<char>| view_strs(t).contains(x) implies view_strs(r@).contains(x) by {
                let m = choose|m: int| 0 <= m < t.len() && t[m]@ == x;
                if m < i {
                    assert(v@.take(i as int)[m] == t[m]);
                    assert(view_strs(v@.take(i as int)).contains(x));
                    assert(view_strs(before).contains(x));
                    let j = choose|j: int| 0 <= j < before.len() && before[j]@ == x;
                    assert(r@[j] == before[j]);
                } else {
                    if view_strs(before).contains(v@[i as int]@) {
                        let j = choose|j: int| 0 <= j < before.len() && before[j]@ == x;
                        assert(r@[j] == before[j]);
                    } else {
                        assert(r@[before.len() as int] == v@[i as int]);
                    }
                }
            }
        }
        i = i + 1;
    }
    assert(v@.take(v.len() as int) =~= v@);
    r
}


/// Appends `(key, a)` for each aspect address `a` of `aspects` that `held`
/// does not hold, in the order of `aspects`.
fn push_fresh_aspects(
    result: &mut Vec<(String, String)>,
    key: &String,
    aspects: &Vec<String>,
    held: Option<&Vec<String>>,
)
    requires
        distinct_strs(aspects@),
        pair_views(old(result)@).no_duplicates(),
        forall|i: int| 0 <= i < old(result)@.len() ==> (#[trigger] old(result)@[i]).0@ != key@,
    ensures
        forall|e: Seq<char>, a: Seq<char>|
            pair_views(final(result)@).contains((e, a)) <==> (pair_views(old(result)@).contains((e, a))
                || (e == key@ && view_strs(aspects@).contains(a) && !(held matches Some(h)
                && view_strs(h@).contains(a)))),
        pair_views(final(result)@).no_duplicates(),
        forall|i: int| 0 <= i < old(result)@.len() ==> final(result)@[i] == old(result)@[i],
        forall|i: int|
            old(result)@.len() <= i < final(result)@.len() ==> (#[trigger] final(result)@[i]).0@ == key@,
{
    let ghost start = result@;
    let mut j: usize = 0;
    while j < aspects.len()
        invariant
            j <= aspects.len(),
            distinct_strs(aspects@),
            start.len() <= result@.len(),
            pair_views(start).no_duplicates(),
            forall|i: int| 0 <= i < start.len() ==> (#[trigger] start[i]).0@ != key@,
            forall|i: int| 0 <= i < start.len() ==> result@[i] == start[i],
            forall|i: int| start.len() <= i < result@.len() ==> (#[trigger] result@[i]).0@ == key@,
            forall|i: int|
                start.len() <= i < result@.len() ==> exists|m: int|
                    0 <= m < j && aspects@[m]@ == (#[trigger] result@[i]).1@,
            forall|e: Seq<char>, a: Seq<char>|
                #![trigger pair_views(result@).contains((e, a))]
                pair_views(result@).contains((e, a)) <==> (pair_views(start).contains((e, a)) || (e
                    == key@ && view_strs(aspects@.take(j as int)).contains(a) && !(held matches Some(h)
                    && view_strs(h@).contains(a)))),
            pair_views(result@).no_duplicates(),
        decreases aspects.len() - j,
    {
        let a = &aspects[j];
        let fresh = match held {
            Some(h) => !contains_str(h, a),
            None => true,
        };
        let ghost before = result@;
        let ghost t = aspects@.take(j + 1);
        assert(t =~= aspects@.take(j as int).push(aspects@[j as int]));
        if fresh {
            let pair = (key.clone(), a.clone());
            result.push(pair);
            assert(pair_views(result@) =~= pair_views(before).push((key@, a@)));
            assert(!pair_views(before).contains((key@, a@))) by {
                if pair_views(before).contains((key@, a@)) {
                    let i = choose|i: int| 0 <= i < before.len() && pair_views(before)[i] == (key@, a@);
                    if i < start.len() {
                        assert(start[i] == before[i]);
                    } else {
                        let m = choose|m: int| 0 <= m < j && aspects@[m]@ == (#[trigger] before[i]).1@;
                        assert(aspects@[m]@ != aspects@[j as int]@);
                    }
                }
            }
            assert forall|x: int, y: int| 0 <= x < y < pair_views(result@).len() implies pair_views(result@)[x]
                != pair_views(result@)[y] by {
                if y == before.len() {
                    assert(pair_views(before)[x] == pair_views(result@)[x]);
                }
            }
            assert forall|i: int|
                start.len() <= i < result@.len() implies exists|m: int|
                    0 <= m < j + 1 && aspects@[m]@ == (#[trigger] result@[i]).1@ by {
                if i < before.len() {
                    assert(result@[i] == before[i]);
                    let m = choose|m: int| 0 <= m < j && aspects@[m]@ == (#[trigger] before[i]).1@;
                    assert(0 <= m < j + 1 && aspects@[m]@ == result@[i].1@);
                } else {
                    assert(0 <= j < j + 1 && aspects@[j as int]@ == result@[i].1@);
                }
            }
        }
        assert(fresh ==> pair_views(result@) == pair_views(before).push((key@, a@)));
        assert(!fresh ==> result@ == before);
        assert forall|e: Seq<char>, a2: Seq<char>|
            #![trigger pair_views(result@).contains((e, a2))]
            pair_views(result@).contains((e, a2)) <==> (pair_views(start).contains((e, a2)) || (e == key@
                && view_strs(t).contains(a2) && !(held matches Some(h) && view_strs(h@).contains(a2)))) by {
            let prev = view_strs(aspects@.take(j as int)).contains(a2);
            let held_has = held matches Some(h) && view_strs(h@).contains(a2);
            assert(view_strs(t).contains(a2) <==> (prev || a2 == a@)) by {
                if view_strs(t).contains(a2) {
                    let m = choose|m: int| 0 <= m < t.len() && t[m]@ == a2;
                    if m < j {
                        assert(aspects@.take(j as int)[m] == t[m]);
                    }
                }
                if prev {
                    let m = choose|m: int| 0 <= m < j && aspects@.take(j as int)[m]@ == a2;
                    assert(t[m] == aspects@.take(j as int)[m]);
                }
                if a2 == a@ {
                    assert(t[j as int] == aspects@[j as int]);
                }
            }
            assert(pair_views(before).contains((e, a2)) ==> pair_views(result@).contains((e, a2))) by {
                if pair_views(before).contains((e, a2)) {
                    let i = choose|i: int| 0 <= i < before.len() && pair_views(before)[i] == (e, a2);
                    assert(result@[i] == before[i]);
                    assert(pair_views(result@)[i] == (e, a2));
                }
            }
            if pair_views(result@).contains((e, a2)) {
                let i = choose|i: int| 0 <= i < result@.len() && pair_views(result@)[i] == (e, a2);
                if i < before.len() {
                    assert(result@[i] == before[i]);
                    assert(pair_views(before)[i] == (e, a2));
                } else {
                    assert(fresh);
                    assert(pair_views(result@)[i] == (key@, a@));
                }
            }
            if e == key@ && a2 == a@ && !held_has {
                assert(fresh);
                assert(pair_views(result@)[before.len() as int] == (e, a2));
            }
        }
        j = j + 1;
    }
    assert(aspects@.take(aspects.len() as int) =~= aspects@);
}

impl View for AspectAddressMap {
    type V = Map<Seq<char>, Set<Seq<char>>>;

    closed spec fn view(&self) -> Map<Seq<char>, Set<Seq<char>>> {
        entries_view(self.entries@)
    }
}

impl AspectAddressMap {
    #[verifier::type_invariant]
    closed spec fn wf(&self) -> bool {
        entries_wf(self.entries@)
    }

    /// The empty map.
    pub fn new() -> (r: Self)
        ensures
            r@ == Map::<Seq<char>, Set<Seq<char>>>::empty(),
    {
        let r = AspectAddressMap { entries: Vec::new() };
        proof {
            lemma_view_empty(r.entries@);
        }
        r
    }

    /// Whether the map holds the entry address `key`.
    pub fn contains_key(&self, key: &String) -> (r: bool)
        ensures
            r == self@.contains_key(key@),
    {
        proof {
            use_type_invariant(self);
        }
        match find_entry(&self.entries, key) {
            Some(i) => {
                proof {
                    lemma_view_at(self.entries@, i as int);
                }
                true
            },
            None => false,
        }
    }

    /// The aspect addresses held under `key`, each once.
    pub fn get(&self, key: &String) -> (r: Option<Vec<String>>)
        ensures
            r is Some <==> self@.contains_key(key@),
            r matches Some(v) ==> view_strs(v@) == self@[key@] && distinct_strs(v@),
    {
        proof {
            use_type_invariant(self);
        }
        match find_entry(&self.entries, key) {
            Some(i) => {
                proof {
                    lemma_view_at(self.entries@, i as int);
                }
                Some(clone_strings(&self.entries[i].aspect_addresses))
            },
            None => None,
        }
    }

    /// Sets the aspect addresses held under `key` to those of `aspects`, and
    /// gives back the ones held there before, if any.
    pub fn insert(&mut self, key: String, aspects: Vec<String>) -> (r: Option<Vec<String>>)
        ensures
            final(self)@ == old(self)@.insert(key@, view_strs(aspects@)),
            r is Some <==> old(self)@.contains_key(key@),
            r matches Some(v) ==> view_strs(v@) == old(self)@[key@] && distinct_strs(v@),
    {
        proof {
            use_type_invariant(&*self);
        }
        let unique = dedup_strs(&aspects);
        let mut entries: Vec<AspectEntry> = Vec::new();
        std::mem::swap(&mut entries, &mut self.entries);
        let ghost before = entries@;
        assert(entries_view(before) == old(self)@);
        let found = find_entry(&entries, &key);
        let r = match found {
            Some(p) => {
                proof {
                    lemma_view_at(before, p as int);
                }
                let old_aspects = clone_strings(&entries[p].aspect_addresses);
                let entry = AspectEntry { entry_address: key, aspect_addresses: unique };
                proof {
                    lemma_view_update(before, p as int, entry);
                }
                entries.set(p, entry);
                Some(old_aspects)
            },
            None => {
                let entry = AspectEntry { entry_address: key, aspect_addresses: unique };
                proof {
                    lemma_view_push(before, entry);
                }
                entries.push(entry);
                None
            },
        };
        self.entries = entries;
        r
    }

    /// Holds what `incoming` holds: each of its entry addresses gets exactly
    /// its aspect addresses, the other entries stay. Gives back, each once,
    /// the (entry, aspect) pairs of `incoming` that were not held before.
    pub fn update_from(&mut self, incoming: &AspectAddressMap) -> (r: Vec<(String, String)>)
        ensures
            final(self)@ == old(self)@.union_prefer_right(incoming@),
            forall|e: Seq<char>, a: Seq<char>|
                #![trigger pair_views(r@).contains((e, a))]
                pair_views(r@).contains((e, a)) <==> new_aspects(old(self)@, incoming@, e, a),
            pair_views(r@).no_duplicates(),
    {
        proof {
            use_type_invariant(&*self);
            use_type_invariant(incoming);
        }
        let mut entries: Vec<AspectEntry> = Vec::new();
        std::mem::swap(&mut entries, &mut self.entries);
        let ghost held0 = entries_view(entries@);
        let ghost inc = incoming.entries@;
        let mut result: Vec<(String, String)> = Vec::new();
        proof {
            lemma_view_empty(inc.take(0));
            assert(held0.union_prefer_right(entries_view(inc.take(0))) =~= held0);
        }
        let mut i: usize = 0;
        while i < incoming.entries.len()
            invariant
                i <= inc.len(),
                inc == incoming.entries@,
                entries_wf(inc),
                entries_wf(entries@),
                held0 == old(self)@,
                entries_view(entries@) == held0.union_prefer_right(entries_view(inc.take(i as int))),
                entries_wf(inc.take(i as int)),
                forall|e: Seq<char>, a: Seq<char>|
                    #![trigger pair_views(result@).contains((e, a))]
                    pair_views(result@).contains((e, a)) <==> new_aspects(
                        held0,
                        entries_view(inc.take(i as int)),
                        e,
                        a,
                    ),
                pair_views(result@).no_duplicates(),
            decreases inc.len() - i,
        {
            let item = &incoming.entries[i];
            let key = &item.entry_address;
            let ghost prefix = inc.take(i as int);
            let ghost pm = entries_view(prefix);
            let ghost k = key@;
            let ghost aset = view_strs(item.aspect_addresses@);
            proof {
                assert(inc.take(i + 1) =~= prefix.push(inc[i as int]));
                assert(!has_key(prefix, k)) by {
                    if has_key(prefix, k) {
                        let m = choose|m: int| 0 <= m < prefix.len() && prefix[m].entry_address@ == k;
                        assert(prefix[m] == inc[m]);
                    }
                }
                assert(distinct_strs(inc[i as int].aspect_addresses@));
                lemma_view_push(prefix, inc[i as int]);
                assert(!pm.contains_key(k));
            }
            let found = find_entry(&entries, key);
            let held: Option<&Vec<String>> = match found {
                Some(p) => Some(&entries[p].aspect_addresses),
                None => None,
            };
            proof {
                match found {
                    Some(p) => {
                        lemma_view_at(entries@, p as int);
                        assert(held0.contains_key(k));
                        assert(held0[k] == view_strs(entries@[p as int].aspect_addresses@));
                    },
                    None => {
                        assert(!entries_view(entries@).contains_key(k));
                        assert(!held0.contains_key(k));
                    },
                }
                assert forall|x: int| 0 <= x < result@.len() implies (#[trigger] result@[x]).0@ != k by {
                    let pv = pair_views(result@)[x];
                    assert(pair_views(result@).contains(pv));
                    assert(pm.contains_key(pv.0));
                }
            }
            let ghost before = result@;
            push_fresh_aspects(&mut result, key, &item.aspect_addresses, held);
            let entry = AspectEntry {
                entry_address: key.clone(),
                aspect_addresses: clone_strings(&item.aspect_addresses),
            };
            proof {
                let m2 = entries_view(inc.take(i + 1));
                assert(m2 == pm.insert(k, aset));
                assert forall|e: Seq<char>, a: Seq<char>|
                    #![trigger pair_views(result@).contains((e, a))]
                    pair_views(result@).contains((e, a)) <==> new_aspects(held0, m2, e, a) by {
                    assert(pair_views(before).contains((e, a)) <==> new_aspects(held0, pm, e, a));
                }
            }
            match found {
                Some(p) => {
                    proof {
                        lemma_view_update(entries@, p as int, entry);
                    }
                    entries.set(p, entry);
                },
                None => {
                    proof {
                        assert(!has_key(entries@, k));
                        lemma_view_push(entries@, entry);
                    }
                    entries.push(entry);
                },
            }
            proof {
                assert(held0.union_prefer_right(pm.insert(k, aset)) =~= held0.union_prefer_right(
                    pm,
                ).insert(k, aset));
            }
            i = i + 1;
        }
        proof {
            assert(inc.take(inc.len() as int) =~= inc);
        }
        self.entries = entries;
        result
    }
}

} // verus!
