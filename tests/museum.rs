use meme_museum::index::CollectionIndex;
use meme_museum::museum::SimpleMemeMuseum;
use meme_museum::record::Meme;
use meme_museum::store::RecordStore;

fn s(x: &str) -> String {
    String::from(x)
}

fn create(m: &mut SimpleMemeMuseum, t: &str, u: &str, museo: &str, who: &str, id: u64) -> Meme {
    m.crear_meme(s(t), s(u), s(museo), s(who), id)
}

#[test]
fn create_then_get_returns_the_created_meme() {
    let mut m = SimpleMemeMuseum::default();
    let r = create(&mut m, "T1", "U1", "M1", "alice", 5);
    let got = m.obtener_meme(5).unwrap();
    assert_eq!(got.titulo, "T1");
    assert_eq!(got.url, "U1");
    assert_eq!(got.museo, "M1");
    assert_eq!(got.creado_por, "alice");
    assert_eq!(got.donaciones, 0);
    assert_eq!(got.id, 5);
    assert_eq!(got, r);
}

#[test]
fn two_creations_in_one_museum_keep_creation_order() {
    let mut m = SimpleMemeMuseum::default();
    create(&mut m, "first", "u1", "M1", "alice", 1);
    create(&mut m, "second", "u2", "M1", "bob", 2);
    let list = m.obtener_memes_museo(s("M1"));
    assert_eq!(list.len(), 2);
    assert_eq!(list[0].titulo, "first");
    assert_eq!(list[1].titulo, "second");
}

#[test]
fn unknown_museum_gives_no_memes() {
    let mut m = SimpleMemeMuseum::default();
    assert!(m.obtener_memes_museo(s("unknown")).is_empty());
    create(&mut m, "t", "u", "M1", "alice", 1);
    assert!(m.obtener_memes_museo(s("unknown")).is_empty());
}

#[test]
fn reused_id_in_another_museum_replaces_and_orphans() {
    let mut m = SimpleMemeMuseum::default();
    create(&mut m, "old", "u1", "M1", "alice", 9);
    create(&mut m, "new", "u2", "M2", "bob", 9);
    assert_eq!(m.obtener_meme(9).unwrap().titulo, "new");
    assert!(m.obtener_memes_museo(s("M1")).is_empty());
    let m2 = m.obtener_memes_museo(s("M2"));
    assert_eq!(m2.len(), 1);
    assert_eq!(m2[0].titulo, "new");
    assert_eq!(m.obtener_lista_memes().len(), 1);
}

#[test]
fn reused_id_in_same_museum_shows_second_data_twice() {
    let mut m = SimpleMemeMuseum::default();
    create(&mut m, "old", "u1", "M1", "alice", 3);
    create(&mut m, "new", "u2", "M1", "bob", 3);
    let list = m.obtener_memes_museo(s("M1"));
    assert_eq!(list.len(), 2);
    assert_eq!(list[0].titulo, "new");
    assert_eq!(list[1].titulo, "new");
    assert_eq!(list[0].creado_por, "bob");
}

#[test]
fn get_of_missing_id_is_none() {
    let mut m = SimpleMemeMuseum::default();
    assert!(m.obtener_meme(0).is_none());
    create(&mut m, "t", "u", "M", "a", 1);
    assert!(m.obtener_meme(2).is_none());
}

#[test]
fn later_creation_with_other_id_leaves_earlier_meme() {
    let mut m = SimpleMemeMuseum::default();
    let a = create(&mut m, "a", "ua", "M1", "x", 1);
    create(&mut m, "b", "ub", "M2", "y", 2);
    create(&mut m, "c", "uc", "M1", "z", 3);
    assert_eq!(m.obtener_meme(1).unwrap(), a);
}

#[test]
fn museum_list_holds_exactly_the_used_names() {
    let mut m = SimpleMemeMuseum::default();
    assert!(m.obtener_lista_museos().is_empty());
    create(&mut m, "a", "u", "M1", "x", 1);
    create(&mut m, "b", "u", "M2", "x", 2);
    create(&mut m, "c", "u", "M1", "x", 3);
    assert_eq!(m.obtener_lista_museos(), vec![s("M1"), s("M2")]);
}

#[test]
fn museum_records_follow_append_order_across_museums() {
    let mut m = SimpleMemeMuseum::default();
    create(&mut m, "a", "u", "M1", "x", 10);
    create(&mut m, "b", "u", "M2", "x", 4);
    create(&mut m, "c", "u", "M1", "x", 7);
    let ids: Vec<u64> = m.obtener_memes_museo(s("M1")).iter().map(|r| r.id).collect();
    assert_eq!(ids, vec![10, 7]);
    assert_eq!(m.museos().get(&s("M1")), Some(vec![10, 7]));
    assert_eq!(m.museos().get(&s("M3")), None);
}

#[test]
fn reads_repeat_identically() {
    let mut m = SimpleMemeMuseum::default();
    create(&mut m, "a", "u", "M1", "x", 1);
    create(&mut m, "b", "u", "M2", "y", 2);
    assert_eq!(m.obtener_meme(1), m.obtener_meme(1));
    assert_eq!(m.obtener_lista_memes(), m.obtener_lista_memes());
    assert_eq!(m.obtener_lista_museos(), m.obtener_lista_museos());
    assert_eq!(m.obtener_memes_museo(s("M1")), m.obtener_memes_museo(s("M1")));
}

#[test]
fn list_of_memes_pairs_ids_in_first_store_order() {
    let mut m = SimpleMemeMuseum::default();
    create(&mut m, "a", "u", "M1", "x", 8);
    create(&mut m, "b", "u", "M1", "x", 2);
    create(&mut m, "c", "u", "M1", "x", 8);
    let all = m.obtener_lista_memes();
    assert_eq!(all.len(), 2);
    assert_eq!(all[0].0, 8);
    assert_eq!(all[0].1.titulo, "c");
    assert_eq!(all[1].0, 2);
    assert_eq!(all[1].1.titulo, "b");
}

#[test]
fn empty_strings_are_accepted() {
    let mut m = SimpleMemeMuseum::default();
    let r = create(&mut m, "", "", "", "", u64::MAX);
    assert_eq!(m.obtener_meme(u64::MAX), Some(r));
    assert_eq!(m.obtener_lista_museos(), vec![s("")]);
    assert_eq!(m.obtener_memes_museo(s("")).len(), 1);
}

#[test]
fn default_meme_is_blank() {
    let d = Meme::default();
    assert_eq!(d.id, 0);
    assert_eq!(d.titulo, "");
    assert_eq!(d.url, "");
    assert_eq!(d.museo, "");
    assert_eq!(d.creado_por, "");
    assert_eq!(d.donaciones, 0);
}

#[test]
fn new_meme_starts_with_no_donations() {
    let r = Meme::new(s("t"), s("u"), s("m"), s("who"), 42);
    assert_eq!(r.id, 42);
    assert_eq!(r.titulo, "t");
    assert_eq!(r.url, "u");
    assert_eq!(r.museo, "m");
    assert_eq!(r.creado_por, "who");
    assert_eq!(r.donaciones, 0);
    assert_eq!(r.duplicate(), r);
}

#[test]
fn store_insert_replaces_in_place() {
    let mut st = RecordStore::new();
    st.insert(Meme::new(s("a"), s("u"), s("m"), s("x"), 1));
    st.insert(Meme::new(s("b"), s("u"), s("m"), s("x"), 2));
    st.insert(Meme::new(s("c"), s("u"), s("n"), s("y"), 1));
    let all = st.list_all();
    assert_eq!(all.len(), 2);
    assert_eq!(all[0].1.titulo, "c");
    assert_eq!(st.get(1).unwrap().museo, "n");
    assert_eq!(st.get(2).unwrap().titulo, "b");
    assert!(st.get(3).is_none());
}

#[test]
fn index_append_and_resolve_skip_orphans() {
    let mut ix = CollectionIndex::new();
    ix.append(s("M"), 1);
    ix.append(s("N"), 2);
    ix.append(s("M"), 3);
    ix.append(s("M"), 1);
    assert_eq!(ix.get(&s("M")), Some(vec![1, 3, 1]));
    assert_eq!(ix.list_names(), vec![s("M"), s("N")]);
    let mut st = RecordStore::new();
    st.insert(Meme::new(s("one"), s("u"), s("M"), s("x"), 1));
    st.insert(Meme::new(s("three"), s("u"), s("N"), s("x"), 3));
    let res = ix.resolve(&s("M"), &st);
    assert_eq!(res.len(), 2);
    assert_eq!(res[0].titulo, "one");
    assert_eq!(res[1].titulo, "one");
    assert!(ix.resolve(&s("Z"), &st).is_empty());
}

#[test]
fn catalogue_from_parts_reads_what_was_loaded() {
    let mut st = RecordStore::new();
    st.insert(Meme::new(s("a"), s("u"), s("M"), s("x"), 4));
    let mut ix = CollectionIndex::new();
    ix.append(s("M"), 4);
    let mut m = SimpleMemeMuseum::from_parts(ix, st);
    assert_eq!(m.obtener_memes_museo(s("M")).len(), 1);
    create(&mut m, "b", "u", "M", "y", 5);
    assert_eq!(m.memes().get(5).unwrap().titulo, "b");
    assert_eq!(m.obtener_memes_museo(s("M")).len(), 2);
}
