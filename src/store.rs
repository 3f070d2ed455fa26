use crate::record::Meme;
use vstd::prelude::*;

verus! {

/// Whether some entry of `s` carries `id`.
pub open spec fn has_id(s: Seq<Meme>, id: u64) -> bool {
    exists|i: int| 0 <= i < s.len() && s[i].id == id
}

/// No two entries of `s` carry the same id.
pub open spec fn unique_ids(s: Seq<Meme>) -> bool {
    forall|i: int, j: int|
        0 <= i < s.len() && 0 <= j < s.len() && #[trigger] s[i].id == #[trigger] s[j].id ==> i == j
}

/// The position of an entry that carries `id` (meaningful when `has_id(s, id)`).
pub open spec fn position(s: Seq<Meme>, id: u64) -> int {
    choose|i: int| 0 <= i < s.len() && s[i].id == id
}

/// The meme stored under `id`, if any.
pub open spec fn lookup(s: Seq<Meme>, id: u64) -> Option<Meme> {
    if has_id(s, id) {
        Some(s[position(s, id)])
    } else {
        None
    }
}

/// The entries after storing `m`: it replaces the entry under its id in
/// place, or is added at the end when the id is new.
pub open spec fn stored(s: Seq<Meme>, m: Meme) -> Seq<Meme> {
    if has_id(s, m.id) {
        s.update(position(s, m.id), m)
    } else {
        s.push(m)
    }
}

/// Each entry paired with its id, in order.
pub open spec fn id_pairs(s: Seq<Meme>) -> Seq<(u64, Meme)> {
    s.map_values(|m: Meme| (m.id, m))
}

/// With unique ids, the entry found at `i` is the one `lookup` gives.
pub proof fn lemma_lookup_at(s: Seq<Meme>, i: int)
    requires
        unique_ids(s),
        0 <= i < s.len(),
    ensures
        has_id(s, s[i].id),
        position(s, s[i].id) == i,
        lookup(s, s[i].id) == Some(s[i]),
{
    assert(has_id(s, s[i].id));
    let p = position(s, s[i].id);
    assert(s[p].id == s[i].id);
}

/// Storing a meme keeps the ids unique; afterwards its id gives that meme and
/// every other id gives what it gave before.
pub proof fn lemma_lookup_stored(s: Seq<Meme>, m: Meme, k: u64)
    requires
        unique_ids(s),
    ensures
        unique_ids(stored(s, m)),
        lookup(stored(s, m), k) == (if k == m.id { Some(m) } else { lookup(s, k) }),
{
    let t = stored(s, m);
    if has_id(s, m.id) {
        let p = position(s, m.id);
        assert(s[p].id == m.id);
        assert forall|i: int, j: int|
            0 <= i < t.len() && 0 <= j < t.len() && #[trigger] t[i].id == #[trigger] t[j].id
        implies i == j by {
            assert(t[i].id == s[i].id);
            assert(t[j].id == s[j].id);
        }
    } else {
        assert forall|i: int, j: int|
            0 <= i < t.len() && 0 <= j < t.len() && #[trigger] t[i].id == #[trigger] t[j].id
        implies i == j by {
            if i < s.len() && j < s.len() {
                assert(t[i] == s[i] && t[j] == s[j]);
            } else if i < s.len() {
                assert(t[i] == s[i]);
                assert(s[i].id == m.id);
            } else if j < s.len() {
                assert(t[j] == s[j]);
                assert(s[j].id == m.id);
            }
        }
    }
    let q = if has_id(s, m.id) { position(s, m.id) } else { s.len() as int };
    assert(t[q] == m);
    lemma_lookup_at(t, q);
    if k != m.id {
        if has_id(s, k) {
            let p = position(s, k);
            assert(s[p].id == k);
            assert(t[p] == s[p]);
            lemma_lookup_at(t, p);
        } else {
            assert forall|i: int| 0 <= i < t.len() implies #[trigger] t[i].id != k by {
                if i != q {
                    assert(t[i] == s[i]);
                }
            }
        }
    }
}

/// The primary store: memes keyed by their id, in the order in which each id
/// was first stored.
pub struct RecordStore {
    entries: Vec<Meme>,
}

impl View for RecordStore {
    type V = Seq<Meme>;

    closed spec fn view(&self) -> Seq<Meme> {
        self.entries@
    }
}

impl RecordStore {
    pub open spec fn wf(&self) -> bool {
        unique_ids(self@)
    }

    pub fn new() -> (r: RecordStore)
        ensures
            r.wf(),
            r@ == Seq::<Meme>::empty(),
    {
        RecordStore { entries: Vec::new() }
    }

    /// Where the entry under `id` stands, if there is one.
    fn find(&self, id: u64) -> (r: Option<usize>)
        requires
            self.wf(),
        ensures
            match r {
                Some(i) => i < self@.len() && has_id(self@, id) && position(self@, id) == i,
                None => !has_id(self@, id),
            },
    {
        let mut i: usize = 0;
        while i < self.entries.len()
            invariant
                self.wf(),
                i <= self.entries@.len(),
                forall|j: int| 0 <= j < i ==> #[trigger] self.entries@[j].id != id,
            decreases self.entries@.len() - i,
        {
            if self.entries[i].id == id {
                proof {
                    lemma_lookup_at(self@, i as int);
                }
                return Some(i);
            }
            i += 1;
        }
        None
    }

    /// Writes `m` under its id, replacing any meme already stored there.
    pub fn insert(&mut self, m: Meme)
        requires
            old(self).wf(),
        ensures
            final(self).wf(),
            final(self)@ == stored(old(self)@, m),
    {
        proof {
            lemma_lookup_stored(self@, m, m.id);
        }
        match self.find(m.id) {
            Some(i) => {
                self.entries.set(i, m);
            },
            None => {
                self.entries.push(m);
            },
        }
    }

    /// The meme stored under `id`, if any.
    pub fn get(&self, id: u64) -> (r: Option<Meme>)
        requires
            self.wf(),
        ensures
            r == lookup(self@, id),
    {
        match self.find(id) {
            Some(i) => Some(self.entries[i].duplicate()),
            None => None,
        }
    }

    /// Every stored pair of id and meme, in the store's order.
    pub fn list_all(&self) -> (r: Vec<(u64, Meme)>)
        ensures
            r@ == id_pairs(self@),
    {
        let mut out: Vec<(u64, Meme)> = Vec::new();
        let mut i: usize = 0;
        while i < self.entries.len()
            invariant
                i <= self.entries@.len(),
                out@.len() == i,
                forall|j: int| 0 <= j < i ==> #[trigger] out@[j] == (self@[j].id, self@[j]),
            decreases self.entries@.len() - i,
        {
            let m = self.entries[i].duplicate();
            out.push((m.id, m));
            i += 1;
        }
        assert(out@ =~= id_pairs(self@));
        out
    }
}

} // verus!
