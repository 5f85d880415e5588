//! Card series: a named group of expansions released over a span of time.

use vstd::prelude::*;

use crate::locale;

verus! {

/// A series identifier.
#[derive(Debug)]
pub struct Id {
    code: String,
}

impl View for Id {
    type V = Seq<char>;

    closed spec fn view(&self) -> Seq<char> {
        self.code@
    }
}

impl Id {
    pub fn new(code: String) -> (r: Self)
        ensures
            r@ == code@,
    {
        Id { code }
    }

    pub fn as_str(&self) -> (r: &str)
        ensures
            r@ == self@,
    {
        self.code.as_str()
    }
}

impl Clone for Id {
    fn clone(&self) -> (r: Self)
        ensures
            r@ == self@,
    {
        Id { code: self.code.clone() }
    }
}

/// A series: identifier, localized names, and release date.
#[derive(Debug)]
pub struct Series {
    pub id: Id,
    pub name: locale::Table,
    pub release_date: String,
}

} // verus!
