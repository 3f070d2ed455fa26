use vstd::prelude::*;

verus! {

/// One submitted item. Immutable once created.
#[derive(Debug, PartialEq, Eq)]
pub struct Meme {
    pub id: u64,
    pub creado_por: String,
    pub titulo: String,
    pub museo: String,
    pub url: String,
    /// Present for compatibility; no operation ever changes it from zero.
    pub donaciones: u128,
}

impl Meme {
    /// Builds a fresh meme under the minted `id`, created by `creado_por`,
    /// with nothing donated.
    pub fn new(titulo: String, url: String, museo: String, creado_por: String, id: u64) -> (r: Meme)
        ensures
            r == (Meme { id, creado_por, titulo, museo, url, donaciones: 0 }),
    {
        Meme { id, creado_por, titulo, museo, url, donaciones: 0 }
    }

    /// A field-by-field copy.
    pub fn duplicate(&self) -> (r: Meme)
        ensures
            r == *self,
    {
        Meme {
            id: self.id,
            creado_por: self.creado_por.clone(),
            titulo: self.titulo.clone(),
            museo: self.museo.clone(),
            url: self.url.clone(),
            donaciones: self.donaciones,
        }
    }
}

impl Default for Meme {
    fn default() -> (r: Self)
        ensures
            r.id == 0,
            r.creado_por@ == Seq::<char>::empty(),
            r.titulo@ == Seq::<char>::empty(),
            r.museo@ == Seq::<char>::empty(),
            r.url@ == Seq::<char>::empty(),
            r.donaciones == 0,
    {
        Meme {
            id: 0,
            creado_por: String::new(),
            titulo: String::new(),
            museo: String::new(),
            url: String::new(),
            donaciones: 0,
        }
    }
}

} // verus!
