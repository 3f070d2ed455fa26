use crate::index::{
    appended, has_name, ids_of, lemma_ids_appended, lemma_resolved_from_store, names_of, resolve_ids, resolved, unique_names,
    CollectionIndex,
};
use crate::record::Meme;
use crate::store::{id_pairs, lemma_lookup_stored, lookup, stored, unique_ids, RecordStore};
use vstd::prelude::*;

verus! {

/// The abstract state of a museum catalogue: the stored memes in store order,
/// and the collection index as pairs of name and appended ids.
pub struct MuseumView {
    pub records: Seq<Meme>,
    pub collections: Seq<(Seq<char>, Seq<u64>)>,
}

/// The state after creating `m`: it is stored under its id, then its id is
/// appended to the collection it names.
pub open spec fn after_create(v: MuseumView, m: Meme) -> MuseumView {
    MuseumView {
        records: stored(v.records, m),
        collections: appended(v.collections, m.museo@, m.id),
    }
}

/// The state after creating each meme of `ms` in turn.
pub open spec fn after_creates(v: MuseumView, ms: Seq<Meme>) -> MuseumView
    decreases ms.len(),
{
    if ms.len() == 0 {
        v
    } else {
        after_create(after_creates(v, ms.drop_last()), ms.last())
    }
}

/// The ids of the memes of `ms` that name the collection `c`, in order.
pub open spec fn ids_for(ms: Seq<Meme>, c: Seq<char>) -> Seq<u64>
    decreases ms.len(),
{
    if ms.len() == 0 {
        Seq::empty()
    } else if ms.last().museo@ == c {
        ids_for(ms.drop_last(), c).push(ms.last().id)
    } else {
        ids_for(ms.drop_last(), c)
    }
}

/// Whether some meme of `ms` names the collection `c`.
pub open spec fn targets(ms: Seq<Meme>, c: Seq<char>) -> bool {
    exists|i: int| 0 <= i < ms.len() && ms[i].museo@ == c
}

/// What a catalogue in state `v` lists for the museum `c`.
pub open spec fn museum_memes(v: MuseumView, c: Seq<char>) -> Seq<Meme> {
    resolved(v.collections, c, v.records)
}

/// The state of a catalogue that holds nothing.
pub open spec fn empty_view() -> MuseumView {
    MuseumView { records: Seq::empty(), collections: Seq::empty() }
}

/// Ids unique in the store, names unique in the index.
pub open spec fn view_wf(v: MuseumView) -> bool {
    unique_ids(v.records) && unique_names(v.collections)
}

/// Creating memes keeps the state well formed.
pub proof fn lemma_creates_wf(v: MuseumView, ms: Seq<Meme>)
    requires
        view_wf(v),
    ensures
        view_wf(after_creates(v, ms)),
    decreases ms.len(),
{
    if ms.len() > 0 {
        let w = after_creates(v, ms.drop_last());
        lemma_creates_wf(v, ms.drop_last());
        lemma_lookup_stored(w.records, ms.last(), 0);
        lemma_ids_appended(w.collections, ms.last().museo@, ms.last().id, Seq::empty());
    }
}

/// A created meme is what its id gives from then on, as long as no later
/// creation reuses that id; when one does, the id gives the latest meme
/// created under it.
pub proof fn lemma_get_after_creates(v: MuseumView, ms: Seq<Meme>, i: int)
    requires
        view_wf(v),
        0 <= i < ms.len(),
        forall|j: int| i < j < ms.len() ==> #[trigger] ms[j].id != ms[i].id,
    ensures
        lookup(after_creates(v, ms).records, ms[i].id) == Some(ms[i]),
    decreases ms.len(),
{
    let w = after_creates(v, ms.drop_last());
    lemma_creates_wf(v, ms.drop_last());
    lemma_lookup_stored(w.records, ms.last(), ms[i].id);
    if i < ms.len() - 1 {
        let prefix = ms.drop_last();
        assert forall|j: int| i < j < prefix.len() implies #[trigger] prefix[j].id != prefix[i].id by {
            assert(prefix[j] == ms[j]);
        }
        lemma_get_after_creates(v, prefix, i);
    }
}

/// A collection exists after a run of creations exactly when it existed
/// before or one of them named it; its ids are the ids it held before
/// followed by the ids of the memes created for it, in creation order.
pub proof fn lemma_collections_after_creates(v: MuseumView, ms: Seq<Meme>, c: Seq<char>)
    requires
        view_wf(v),
    ensures
        has_name(after_creates(v, ms).collections, c) == (has_name(v.collections, c) || targets(
            ms,
            c,
        )),
        has_name(after_creates(v, ms).collections, c) ==> ids_of(after_creates(v, ms).collections, c)
            == Some(
            match ids_of(v.collections, c) {
                Some(p) => p,
                None => Seq::<u64>::empty(),
            } + ids_for(ms, c),
        ),
    decreases ms.len(),
{
    let prior = match ids_of(v.collections, c) {
        Some(p) => p,
        None => Seq::<u64>::empty(),
    };
    if ms.len() == 0 {
        assert(prior + ids_for(ms, c) =~= prior);
    } else {
        let prefix = ms.drop_last();
        let m = ms.last();
        let w = after_creates(v, prefix);
        lemma_creates_wf(v, prefix);
        lemma_collections_after_creates(v, prefix, c);
        lemma_ids_appended(w.collections, m.museo@, m.id, c);
        if targets(ms, c) && !targets(prefix, c) {
            let k = choose|k: int| 0 <= k < ms.len() && ms[k].museo@ == c;
            if k < prefix.len() {
                assert(prefix[k] == ms[k]);
            }
        }
        if targets(prefix, c) {
            let k = choose|k: int| 0 <= k < prefix.len() && prefix[k].museo@ == c;
            assert(ms[k] == prefix[k]);
        }
        if m.museo@ == c {
            assert(ms[ms.len() - 1] == m);
            if has_name(w.collections, c) {
                assert(prior + ids_for(ms, c) =~= (prior + ids_for(prefix, c)).push(m.id));
            } else {
                assert(ids_for(prefix, c) =~= Seq::<u64>::empty()) by {
                    lemma_ids_for_untargeted(prefix, c);
                }
                assert(prior + ids_for(ms, c) =~= seq![m.id]);
            }
        }
    }
}

/// Starting from an empty catalogue, a museum is listed exactly when some
/// creation named it, and its memes are those whose ids were appended to it,
/// in the order of appending, skipping ids the store no longer holds for it.
pub proof fn lemma_fresh_catalogue_after_creates(ms: Seq<Meme>, c: Seq<char>)
    ensures
        names_of(after_creates(empty_view(), ms).collections).contains(c) == targets(ms, c),
        targets(ms, c) ==> ids_of(after_creates(empty_view(), ms).collections, c) == Some(
            ids_for(ms, c),
        ),
        museum_memes(after_creates(empty_view(), ms), c) == resolve_ids(
            ids_for(ms, c),
            after_creates(empty_view(), ms).records,
            c,
        ),
{
    let v = empty_view();
    lemma_collections_after_creates(v, ms, c);
    let e = after_creates(v, ms).collections;
    if has_name(e, c) {
        let p = choose|p: int| 0 <= p < e.len() && e[p].0 == c;
        assert(names_of(e)[p] == c);
    }
    if names_of(e).contains(c) {
        let p = choose|p: int| 0 <= p < names_of(e).len() && names_of(e)[p] == c;
        assert(e[p].0 == c);
    }
    assert(Seq::<u64>::empty() + ids_for(ms, c) =~= ids_for(ms, c));
    if !targets(ms, c) {
        lemma_ids_for_untargeted(ms, c);
    }
}

/// When a second creation reuses the id of a first, the store gives the second
/// meme under that id from then on. A museum other than the second meme's
/// lists no meme under that id; the second meme's museum lists the second
/// meme wherever the id appears in it.
pub proof fn lemma_reused_id(v: MuseumView, a: Meme, b: Meme, c: Seq<char>)
    requires
        view_wf(v),
        a.id == b.id,
    ensures
        lookup(after_create(after_create(v, a), b).records, a.id) == Some(b),
        c != b.museo@ ==> forall|i: int|
            0 <= i < museum_memes(after_create(after_create(v, a), b), c).len() ==> (
            #[trigger] museum_memes(after_create(after_create(v, a), b), c)[i]).id != a.id,
        c == b.museo@ ==> forall|i: int|
            0 <= i < museum_memes(after_create(after_create(v, a), b), c).len() && (
            #[trigger] museum_memes(after_create(after_create(v, a), b), c)[i]).id == a.id
                ==> museum_memes(after_create(after_create(v, a), b), c)[i] == b,
{
    let ms = seq![a, b];
    assert(ms.drop_last() =~= seq![a]);
    assert(seq![a].drop_last() =~= Seq::<Meme>::empty());
    assert(after_creates(v, Seq::<Meme>::empty()) == v);
    assert(after_creates(v, seq![a]) == after_create(v, a));
    let w = after_creates(v, ms);
    assert(w == after_create(after_create(v, a), b));
    assert(ms[1] == b);
    lemma_get_after_creates(v, ms, 1);
    lemma_creates_wf(v, ms);
    match ids_of(w.collections, c) {
        Some(ids) => lemma_resolved_from_store(ids, w.records, c),
        None => {},
    }
}

/// A collection that no meme names gets no ids.
pub proof fn lemma_ids_for_untargeted(ms: Seq<Meme>, c: Seq<char>)
    requires
        !targets(ms, c),
    ensures
        ids_for(ms, c) == Seq::<u64>::empty(),
    decreases ms.len(),
{
    if ms.len() > 0 {
        let prefix = ms.drop_last();
        assert(ms[ms.len() - 1] == ms.last());
        assert forall|k: int| 0 <= k < prefix.len() implies #[trigger] prefix[k].museo@ != c by {
            assert(prefix[k] == ms[k]);
        }
        lemma_ids_for_untargeted(prefix, c);
    }
}

/// The catalogue: memes kept by id, and museums that list the ids of their
/// memes. Both are only ever added to.
pub struct SimpleMemeMuseum {
    museos: CollectionIndex,
    memes: RecordStore,
}

impl View for SimpleMemeMuseum {
    type V = MuseumView;

    closed spec fn view(&self) -> MuseumView {
        MuseumView { records: self.memes@, collections: self.museos@ }
    }
}

impl Default for SimpleMemeMuseum {
    fn default() -> (r: Self)
        ensures
            r.wf(),
            r@ == empty_view(),
    {
        SimpleMemeMuseum { museos: CollectionIndex::new(), memes: RecordStore::new() }
    }
}

impl SimpleMemeMuseum {
    pub open spec fn wf(&self) -> bool {
        view_wf(self@)
    }

    /// A catalogue over an index and a store brought back from elsewhere.
    pub fn from_parts(museos: CollectionIndex, memes: RecordStore) -> (r: Self)
        requires
            museos.wf(),
            memes.wf(),
        ensures
            r.wf(),
            r@.records == memes@,
            r@.collections == museos@,
    {
        SimpleMemeMuseum { museos, memes }
    }

    /// The collection index.
    pub fn museos(&self) -> (r: &CollectionIndex)
        requires
            self.wf(),
        ensures
            r.wf(),
            r@ == self@.collections,
    {
        &self.museos
    }

    /// The meme store.
    pub fn memes(&self) -> (r: &RecordStore)
        requires
            self.wf(),
        ensures
            r.wf(),
            r@ == self@.records,
    {
        &self.memes
    }

    /// Creates a meme under the minted `id` on behalf of `creado_por`, stores
    /// it (replacing any meme already under `id`), appends its id to the
    /// museum `nombre_museo`, and returns it.
    pub fn crear_meme(
        &mut self,
        titulo: String,
        url: String,
        nombre_museo: String,
        creado_por: String,
        id: u64,
    ) -> (r: Meme)
        requires
            old(self).wf(),
        ensures
            r == (Meme { id, creado_por, titulo, museo: nombre_museo, url, donaciones: 0 }),
            final(self).wf(),
            final(self)@ == after_create(old(self)@, r),
    {
        let meme = Meme::new(titulo, url, nombre_museo, creado_por, id);
        proof {
            lemma_creates_wf(self@, seq![meme]);
            assert(seq![meme].drop_last() =~= Seq::<Meme>::empty());
        }
        let name = meme.museo.clone();
        self.memes.insert(meme.duplicate());
        self.museos.append(name, meme.id);
        meme
    }

    /// The meme stored under `id`, if any.
    pub fn obtener_meme(&self, id: u64) -> (r: Option<Meme>)
        requires
            self.wf(),
        ensures
            r == lookup(self@.records, id),
    {
        self.memes.get(id)
    }

    /// Every stored pair of id and meme, in the store's order.
    pub fn obtener_lista_memes(&self) -> (r: Vec<(u64, Meme)>)
        ensures
            r@ == id_pairs(self@.records),
    {
        self.memes.list_all()
    }

    /// Every museum name, in the index's order.
    pub fn obtener_lista_museos(&self) -> (r: Vec<String>)
        ensures
            r@.map_values(|s: String| s@) == names_of(self@.collections),
    {
        self.museos.list_names()
    }

    /// The memes of the museum `nombre_museo`, in the order they were added,
    /// skipping ids whose meme the store no longer holds or that a later
    /// creation took over for another museum; none for an unknown museum.
    pub fn obtener_memes_museo(&self, nombre_museo: String) -> (r: Vec<Meme>)
        requires
            self.wf(),
        ensures
            r@ == museum_memes(self@, nombre_museo@),
    {
        self.museos.resolve(&nombre_museo, &self.memes)
    }
}

} // verus!
