//! Locale codes and locale-keyed name tables. A card or set carries one
//! name per locale; the provider requires an English name, so locale
//! availability gates whether a price can be fetched at all.

use vstd::prelude::*;

use crate::assoc;

verus! {

/// A locale code such as "en" or "ja".
#[derive(Debug)]
pub struct Locale {
    code: String,
}

impl View for Locale {
    type V = Seq<char>;

    closed spec fn view(&self) -> Seq<char> {
        self.code@
    }
}

impl Locale {
    pub fn new(code: String) -> (r: Self)
        ensures
            r@ == code@,
    {
        Locale { code }
    }

    pub fn as_str(&self) -> (r: &str)
        ensures
            r@ == self@,
    {
        self.code.as_str()
    }
}

impl Clone for Locale {
    fn clone(&self) -> (r: Self)
        ensures
            r@ == self@,
    {
        Locale { code: self.code.clone() }
    }
}

impl PartialEq for Locale {
    fn eq(&self, other: &Locale) -> bool {
        self.code == other.code
    }
}

impl vstd::std_specs::cmp::PartialEqSpecImpl for Locale {
    open spec fn obeys_eq_spec() -> bool {
        true
    }

    open spec fn eq_spec(&self, other: &Locale) -> bool {
        self@ == other@
    }
}

/// A locale-keyed table of names, with pairwise distinct locales.
#[derive(Debug)]
pub struct Table {
    entries: Vec<(Locale, String)>,
}

impl Table {
    /// The table as a sequence of (locale, name) views.
    pub closed spec fn entries_view(self) -> Seq<(Seq<char>, Seq<char>)> {
        Seq::new(self.entries@.len(), |i: int| (self.entries@[i].0@, self.entries@[i].1@))
    }

    /// Locales are pairwise distinct.
    pub open spec fn wf(self) -> bool {
        assoc::unique_keys(self.entries_view())
    }

    /// The name stored for a locale.
    pub open spec fn spec_get(self, locale: Seq<char>) -> Option<Seq<char>> {
        assoc::lookup(self.entries_view(), locale)
    }

    pub fn new() -> (r: Self)
        ensures
            r.wf(),
            r.entries_view() == Seq::<(Seq<char>, Seq<char>)>::empty(),
    {
        let t = Table { entries: Vec::new() };
        proof {
            assert(t.entries_view() =~= Seq::<(Seq<char>, Seq<char>)>::empty());
        }
        t
    }

    /// Stores a name under a locale, returning the name previously stored
    /// there, if any.
    pub fn insert(&mut self, locale: Locale, value: String) -> (r: Option<String>)
        requires
            old(self).wf(),
        ensures
            final(self).wf(),
            final(self).spec_get(locale@) == Some(value@),
            forall|k: Seq<char>|
                k != locale@ ==> final(self).spec_get(k) == old(self).spec_get(k),
            r is Some <==> old(self).spec_get(locale@) is Some,
            r is Some ==> r->Some_0@ == old(self).spec_get(locale@)->Some_0,
            old(self).spec_get(locale@) is Some ==> final(self).entries_view().len() == old(
                self,
            ).entries_view().len(),
            old(self).spec_get(locale@) is None ==> final(self).entries_view().len() == old(
                self,
            ).entries_view().len() + 1,
    {
        let ghost s = self.entries_view();
        let n = self.entries.len();
        let mut i: usize = 0;
        while i < n
            invariant
                0 <= i <= n,
                n == self.entries@.len(),
                *self == *old(self),
                s == self.entries_view(),
                old(self).wf(),
                forall|j: int| 0 <= j < i ==> s[j].0 != locale@,
            decreases n - i,
        {
            if self.entries[i].0.eq(&locale) {
                let previous = self.entries.remove(i);
                self.entries.insert(i, (locale, value));
                proof {
                    assert(self.entries_view() =~= s.update(i as int, (s[i as int].0, value@)));
                    assoc::lemma_lookup_at(s, i as int);
                    assert forall|k: Seq<char>| k != s[i as int].0 implies assoc::lookup(
                        self.entries_view(),
                        k,
                    ) == assoc::lookup(s, k) by {
                        assoc::lemma_lookup_update(s, i as int, value@, k);
                    }
                    assoc::lemma_lookup_update(s, i as int, value@, s[i as int].0);
                }
                return Some(previous.1);
            }
            i += 1;
        }
        self.entries.push((locale, value));
        proof {
            assert(self.entries_view() =~= s.push((locale@, value@)));
            assoc::lemma_lookup_absent(s, locale@);
            assert forall|k: Seq<char>| k != locale@ implies assoc::lookup(
                self.entries_view(),
                k,
            ) == assoc::lookup(s, k) by {
                assoc::lemma_lookup_push(s, locale@, value@, k);
            }
            assoc::lemma_lookup_push(s, locale@, value@, locale@);
        }
        None
    }

    /// The name stored for a locale, if any.
    pub fn get(&self, locale: &Locale) -> (r: Option<&String>)
        ensures
            r is Some <==> self.spec_get(locale@) is Some,
            r is Some ==> r->Some_0@ == self.spec_get(locale@)->Some_0,
    {
        let ghost s = self.entries_view();
        let n = self.entries.len();
        let mut i: usize = 0;
        while i < n
            invariant
                0 <= i <= n,
                n == self.entries@.len(),
                s == self.entries_view(),
                forall|j: int| 0 <= j < i ==> s[j].0 != locale@,
            decreases n - i,
        {
            if self.entries[i].0.eq(locale) {
                proof {
                    assoc::lemma_lookup_skip(s, locale@, i as int);
                }
                return Some(&self.entries[i].1);
            }
            i += 1;
        }
        proof {
            assoc::lemma_lookup_absent(s, locale@);
        }
        None
    }

    /// Whether an English name is available.
    pub fn has_english(&self) -> (r: bool)
        ensures
            r == assoc::contains_key(self.entries_view(), "en"@),
    {
        self.get(&Locale::new(String::from_str("en"))).is_some()
    }

    /// Whether a Japanese name is available.
    pub fn has_japanese(&self) -> (r: bool)
        ensures
            r == assoc::contains_key(self.entries_view(), "ja"@),
    {
        self.get(&Locale::new(String::from_str("ja"))).is_some()
    }

    /// Whether any supported locale (English or Japanese) is available.
    pub fn is_supported(&self) -> (r: bool)
        ensures
            r == (assoc::contains_key(self.entries_view(), "en"@) || assoc::contains_key(
                self.entries_view(),
                "ja"@,
            )),
    {
        self.has_english() || self.has_japanese()
    }

    /// The name to display: English preferred, then Japanese, then the
    /// first name of any locale, then a fixed placeholder.
    pub open spec fn spec_display(self) -> Seq<char> {
        if self.spec_get("en"@) is Some {
            self.spec_get("en"@)->Some_0
        } else if self.spec_get("ja"@) is Some {
            self.spec_get("ja"@)->Some_0
        } else if self.entries_view().len() > 0 {
            self.entries_view()[0].1
        } else {
            "Unknown"@
        }
    }

    pub fn as_str(&self) -> (r: &str)
        ensures
            r@ == self.spec_display(),
    {
        if let Some(name) = self.get(&Locale::new(String::from_str("en"))) {
            return name.as_str();
        }
        if let Some(name) = self.get(&Locale::new(String::from_str("ja"))) {
            return name.as_str();
        }
        if self.entries.len() > 0 {
            return self.entries[0].1.as_str();
        }
        "Unknown"
    }
}

impl Clone for Table {
    fn clone(&self) -> (r: Self)
        ensures
            r.entries_view() == self.entries_view(),
    {
        let mut entries: Vec<(Locale, String)> = Vec::new();
        let n = self.entries.len();
        let mut i: usize = 0;
        while i < n
            invariant
                0 <= i <= n,
                n == self.entries@.len(),
                entries@.len() == i,
                forall|j: int|
                    0 <= j < i ==> entries@[j].0@ == self.entries@[j].0@ && entries@[j].1@
                        == self.entries@[j].1@,
            decreases n - i,
        {
            let locale = self.entries[i].0.clone();
            let name = self.entries[i].1.clone();
            entries.push((locale, name));
            i += 1;
        }
        let r = Table { entries };
        proof {
            assert(r.entries_view() =~= self.entries_view());
        }
        r
    }
}

} // verus!
