use crate::record::Meme;
use crate::store::{has_id, lookup, position, RecordStore};
use vstd::prelude::*;

verus! {

/// Whether some entry of `e` is named `n`.
pub open spec fn has_name(e: Seq<(Seq<char>, Seq<u64>)>, n: Seq<char>) -> bool {
    exists|i: int| 0 <= i < e.len() && e[i].0 == n
}

/// No two entries of `e` share a name.
pub open spec fn unique_names(e: Seq<(Seq<char>, Seq<u64>)>) -> bool {
    forall|i: int, j: int|
        0 <= i < e.len() && 0 <= j < e.len() && #[trigger] e[i].0 == #[trigger] e[j].0 ==> i == j
}

/// The position of an entry named `n` (meaningful when `has_name(e, n)`).
pub open spec fn name_position(e: Seq<(Seq<char>, Seq<u64>)>, n: Seq<char>) -> int {
    choose|i: int| 0 <= i < e.len() && e[i].0 == n
}

/// The names of the entries of `e`, in order.
pub open spec fn names_of(e: Seq<(Seq<char>, Seq<u64>)>) -> Seq<Seq<char>> {
    e.map_values(|x: (Seq<char>, Seq<u64>)| x.0)
}

/// The ids appended under `n`, or `None` when no entry has that name.
pub open spec fn ids_of(e: Seq<(Seq<char>, Seq<u64>)>, n: Seq<char>) -> Option<Seq<u64>> {
    if has_name(e, n) {
        Some(e[name_position(e, n)].1)
    } else {
        None
    }
}

/// The entries after appending `id` under `n`: pushed onto the end of that
/// entry's ids, or a new entry `(n, [id])` at the end when `n` is new.
pub open spec fn appended(e: Seq<(Seq<char>, Seq<u64>)>, n: Seq<char>, id: u64) -> Seq<
    (Seq<char>, Seq<u64>),
> {
    if has_name(e, n) {
        let p = name_position(e, n);
        e.update(p, (n, e[p].1.push(id)))
    } else {
        e.push((n, seq![id]))
    }
}

/// The memes that `ids` name in the store `s` and that belong to the
/// collection `n`, in the order of `ids`. An id with no meme in `s`, or whose
/// meme now belongs to another collection (its id was reused there), is
/// skipped.
pub open spec fn resolve_ids(ids: Seq<u64>, s: Seq<Meme>, n: Seq<char>) -> Seq<Meme>
    decreases ids.len(),
{
    if ids.len() == 0 {
        Seq::empty()
    } else {
        let prev = resolve_ids(ids.drop_last(), s, n);
        match lookup(s, ids.last()) {
            Some(m) => if m.museo@ == n {
                prev.push(m)
            } else {
                prev
            },
            None => prev,
        }
    }
}

/// The memes of the collection named `n`: none when there is no such
/// collection.
pub open spec fn resolved(e: Seq<(Seq<char>, Seq<u64>)>, n: Seq<char>, s: Seq<Meme>) -> Seq<Meme> {
    match ids_of(e, n) {
        Some(ids) => resolve_ids(ids, s, n),
        None => Seq::empty(),
    }
}

/// With unique names, the entry found at `i` is the one `ids_of` gives.
pub proof fn lemma_ids_at(e: Seq<(Seq<char>, Seq<u64>)>, i: int)
    requires
        unique_names(e),
        0 <= i < e.len(),
    ensures
        has_name(e, e[i].0),
        name_position(e, e[i].0) == i,
        ids_of(e, e[i].0) == Some(e[i].1),
{
    assert(has_name(e, e[i].0));
    let p = name_position(e, e[i].0);
    assert(e[p].0 == e[i].0);
}

/// Appending keeps the names unique; afterwards `n` holds its former ids
/// (none if it was new) followed by `id`, every other name holds what it held,
/// and the names present are the former ones and `n`.
pub proof fn lemma_ids_appended(e: Seq<(Seq<char>, Seq<u64>)>, n: Seq<char>, id: u64, k: Seq<char>)
    requires
        unique_names(e),
    ensures
        unique_names(appended(e, n, id)),
        has_name(appended(e, n, id), k) == (k == n || has_name(e, k)),
        ids_of(appended(e, n, id), k) == (if k == n {
            Some(
                match ids_of(e, n) {
                    Some(ids) => ids.push(id),
                    None => seq![id],
                },
            )
        } else {
            ids_of(e, k)
        }),
{
    let t = appended(e, n, id);
    let q = if has_name(e, n) { name_position(e, n) } else { e.len() as int };
    if has_name(e, n) {
        assert(e[q].0 == n);
    }
    assert(t[q].0 == n);
    assert forall|i: int, j: int|
        0 <= i < t.len() && 0 <= j < t.len() && #[trigger] t[i].0 == #[trigger] t[j].0
    implies i == j by {
        if i != q && j != q {
            assert(t[i] == e[i] && t[j] == e[j]);
        } else if i != q {
            assert(t[i] == e[i]);
            assert(e[i].0 == n);
        } else if j != q {
            assert(t[j] == e[j]);
            assert(e[j].0 == n);
        }
    }
    lemma_ids_at(t, q);
    if has_name(e, n) {
        lemma_ids_at(e, q);
    }
    if k != n {
        if has_name(e, k) {
            let p = name_position(e, k);
            assert(e[p].0 == k);
            assert(t[p] == e[p]);
            lemma_ids_at(t, p);
        } else {
            assert forall|i: int| 0 <= i < t.len() implies #[trigger] t[i].0 != k by {
                if i != q {
                    assert(t[i] == e[i]);
                }
            }
        }
    }
}

/// Each meme that `resolve_ids` gives is the one the store holds under its id,
/// and belongs to the collection `n`.
pub proof fn lemma_resolved_from_store(ids: Seq<u64>, s: Seq<Meme>, n: Seq<char>)
    ensures
        forall|i: int|
            0 <= i < resolve_ids(ids, s, n).len() ==> lookup(
                s,
                #[trigger] resolve_ids(ids, s, n)[i].id,
            ) == Some(resolve_ids(ids, s, n)[i]) && resolve_ids(ids, s, n)[i].museo@ == n,
    decreases ids.len(),
{
    if ids.len() > 0 {
        lemma_resolved_from_store(ids.drop_last(), s, n);
        if has_id(s, ids.last()) {
            let p = position(s, ids.last());
            assert(s[p].id == ids.last());
        }
    }
}

/// A copy of a list of ids.
fn copy_ids(v: &Vec<u64>) -> (r: Vec<u64>)
    ensures
        r@ == v@,
{
    let mut out: Vec<u64> = Vec::new();
    let mut i: usize = 0;
    while i < v.len()
        invariant
            i <= v@.len(),
            out@ == v@.take(i as int),
        decreases v@.len() - i,
    {
        out.push(v[i]);
        i += 1;
        assert(out@ =~= v@.take(i as int));
    }
    assert(v@.take(v@.len() as int) =~= v@);
    out
}

/// The secondary store: for each collection name, the ids appended under it
/// in the order of appending, duplicates kept. Names stand in the order in
/// which each was first used.
pub struct CollectionIndex {
    entries: Vec<(String, Vec<u64>)>,
}

impl View for CollectionIndex {
    type V = Seq<(Seq<char>, Seq<u64>)>;

    closed spec fn view(&self) -> Seq<(Seq<char>, Seq<u64>)> {
        self.entries@.map_values(|e: (String, Vec<u64>)| (e.0@, e.1@))
    }
}

impl CollectionIndex {
    pub open spec fn wf(&self) -> bool {
        unique_names(self@)
    }

    pub fn new() -> (r: CollectionIndex)
        ensures
            r.wf(),
            r@ == Seq::<(Seq<char>, Seq<u64>)>::empty(),
    {
        let r = CollectionIndex { entries: Vec::new() };
        assert(r@ =~= Seq::<(Seq<char>, Seq<u64>)>::empty());
        r
    }

    /// Where the entry named `name` stands, if there is one.
    fn find(&self, name: &String) -> (r: Option<usize>)
        requires
            self.wf(),
        ensures
            match r {
                Some(i) => i < self@.len() && has_name(self@, name@) && name_position(self@, name@)
                    == i,
                None => !has_name(self@, name@),
            },
    {
        let mut i: usize = 0;
        while i < self.entries.len()
            invariant
                self.wf(),
                i <= self.entries@.len(),
                forall|j: int| 0 <= j < i ==> #[trigger] self@[j].0 != name@,
            decreases self.entries@.len() - i,
        {
            if self.entries[i].0 == *name {
                proof {
                    lemma_ids_at(self@, i as int);
                }
                return Some(i);
            }
            i += 1;
        }
        None
    }

    /// Appends `id` under `name`, starting the collection when `name` is new.
    pub fn append(&mut self, name: String, id: u64)
        requires
            old(self).wf(),
        ensures
            final(self).wf(),
            final(self)@ == appended(old(self)@, name@, id),
    {
        proof {
            lemma_ids_appended(self@, name@, id, name@);
        }
        match self.find(&name) {
            Some(i) => {
                let mut ids = copy_ids(&self.entries[i].1);
                ids.push(id);
                self.entries.set(i, (name, ids));
            },
            None => {
                let mut ids: Vec<u64> = Vec::new();
                ids.push(id);
                self.entries.push((name, ids));
            },
        }
        proof {
            assert(self@ =~= appended(old(self)@, name@, id));
        }
    }

    /// The ids appended under `name`, if the collection exists.
    pub fn get(&self, name: &String) -> (r: Option<Vec<u64>>)
        requires
            self.wf(),
        ensures
            match r {
                Some(v) => ids_of(self@, name@) == Some(v@),
                None => ids_of(self@, name@) is None,
            },
    {
        match self.find(name) {
            Some(i) => Some(copy_ids(&self.entries[i].1)),
            None => None,
        }
    }

    /// Every collection name, in the index's order.
    pub fn list_names(&self) -> (r: Vec<String>)
        ensures
            r@.map_values(|s: String| s@) == names_of(self@),
    {
        let mut out: Vec<String> = Vec::new();
        let mut i: usize = 0;
        while i < self.entries.len()
            invariant
                i <= self.entries@.len(),
                out@.len() == i,
                forall|j: int| 0 <= j < i ==> #[trigger] out@[j]@ == self@[j].0,
            decreases self.entries@.len() - i,
        {
            out.push(self.entries[i].0.clone());
            i += 1;
        }
        assert(out@.map_values(|s: String| s@) =~= names_of(self@));
        out
    }

    /// The memes of the collection `name` as found in `store`, in the order
    /// their ids were appended; ids that `store` no longer holds, or whose
    /// meme now belongs to another collection, are skipped, and an unknown
    /// collection gives no memes.
    pub fn resolve(&self, name: &String, store: &RecordStore) -> (r: Vec<Meme>)
        requires
            self.wf(),
            store.wf(),
        ensures
            r@ == resolved(self@, name@, store@),
    {
        let mut out: Vec<Meme> = Vec::new();
        match self.find(name) {
            None => {
                assert(out@ =~= Seq::<Meme>::empty());
            },
            Some(p) => {
                let ids = &self.entries[p].1;
                proof {
                    lemma_ids_at(self@, p as int);
                }
                let mut i: usize = 0;
                while i < ids.len()
                    invariant
                        store.wf(),
                        i <= ids@.len(),
                        out@ == resolve_ids(ids@.take(i as int), store@, name@),
                    decreases ids@.len() - i,
                {
                    let ghost before = ids@.take(i as int);
                    proof {
                        assert(ids@.take(i + 1).drop_last() =~= before);
                    }
                    match store.get(ids[i]) {
                        Some(m) => {
                            if m.museo == *name {
                                out.push(m);
                            }
                        },
                        None => {},
                    }
                    i += 1;
                }
                assert(ids@.take(ids@.len() as int) =~= ids@);
            },
        }
        out
    }
}

} // verus!
