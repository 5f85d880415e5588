//! The creatures a card can depict. The catalog hands the library a plain
//! list of English names; entry `i` gets number `i + 1`, the numbering the
//! binder's completion mode is laid out by.

use vstd::prelude::*;

use crate::locale;

verus! {

/// A creature's number in the catalog, starting at 1.
#[derive(Debug, Clone, Copy, PartialEq, Eq, PartialOrd, Ord, Hash, Structural)]
pub struct Id(pub u32);

/// A creature: its number and its localized names.
#[derive(Debug)]
pub struct Pokemon {
    pub id: Id,
    pub name: locale::Table,
}

impl Pokemon {
    /// The English name, which the catalog always provides.
    pub fn name(&self) -> (r: &str)
        requires
            self.name.spec_get("en"@) is Some,
        ensures
            r@ == self.name.spec_get("en"@)->Some_0,
    {
        match self.name.get(&locale::Locale::new(String::from_str("en"))) {
            Some(name) => name.as_str(),
            None => "",
        }
    }
}

/// Builds the creature list from the catalog's English names: entry `i`
/// becomes number `i + 1` with that single localized name.
pub fn load_pokemon(names: Vec<String>) -> (r: Vec<Pokemon>)
    requires
        names@.len() < u32::MAX,
    ensures
        r@.len() == names@.len(),
        forall|i: int|
            0 <= i < r@.len() ==> (#[trigger] r@[i].id)
                == (Id { 0: (i + 1) as u32 }),
        forall|i: int|
            0 <= i < r@.len() ==> (#[trigger] r@[i].name.spec_get("en"@)) == Some(names@[i]@),
        forall|i: int| 0 <= i < r@.len() ==> (#[trigger] r@[i].name).wf(),
        forall|i: int| 0 <= i < r@.len() ==> (#[trigger] r@[i].name).entries_view().len() == 1,
{
    let n = names.len();
    let mut out: Vec<Pokemon> = Vec::new();
    let mut i: usize = 0;
    while i < n
        invariant
            0 <= i <= n,
            n == names@.len(),
            n < u32::MAX,
            out@.len() == i,
            forall|j: int|
                0 <= j < i ==> (#[trigger] out@[j].id) == (Id { 0: (j + 1) as u32 }),
            forall|j: int|
                0 <= j < i ==> (#[trigger] out@[j].name.spec_get("en"@)) == Some(names@[j]@),
            forall|j: int| 0 <= j < i ==> (#[trigger] out@[j].name).wf(),
            forall|j: int| 0 <= j < i ==> (#[trigger] out@[j].name).entries_view().len() == 1,
        decreases n - i,
    {
        let mut name = locale::Table::new();
        name.insert(locale::Locale::new(String::from_str("en")), names[i].clone());
        out.push(Pokemon { id: Id((i as u32) + 1), name });
        i += 1;
    }
    out
}

} // verus!
