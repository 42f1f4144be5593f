//! Macro definitions and the table of defined macros.

use vstd::prelude::*;

use crate::text::chars_eq;

verus! {

/// A text macro: `` `define NAME body `` or `` `define NAME(a, b) body ``.
#[derive(Debug, Clone)]
pub struct MacroDef {
    pub name: String,
    pub params: Option<Vec<String>>,
    pub body: String,
}

/// The mathematical content of a macro definition.
pub struct MacroSpec {
    pub name: Seq<char>,
    pub params: Option<Seq<Seq<char>>>,
    pub body: Seq<char>,
}

/// The defined macros, keyed by name.
pub type MacroMap = Map<Seq<char>, MacroSpec>;

pub open spec fn strings_view(v: Seq<String>) -> Seq<Seq<char>> {
    v.map_values(|s: String| s@)
}

pub open spec fn chars_view(v: Seq<Vec<char>>) -> Seq<Seq<char>> {
    v.map_values(|s: Vec<char>| s@)
}

impl View for MacroDef {
    type V = MacroSpec;

    open spec fn view(&self) -> MacroSpec {
        MacroSpec {
            name: self.name@,
            params: match self.params {
                Some(p) => Some(strings_view(p@)),
                None => None,
            },
            body: self.body@,
        }
    }
}

/// The characters of a `str`.
pub fn str_to_chars(s: &str) -> (v: Vec<char>)
    ensures
        v@ == s@,
{
    let mut v: Vec<char> = Vec::new();
    for c in it: s.chars()
        invariant
            v@ == it.seq().take(it.index() as int),
    {
        v.push(c);
    }
    v
}

/// Trusted: `String::push` appends one character.
pub assume_specification[ String::push ](s: &mut String, ch: char)
    ensures
        final(s)@ == old(s)@.push(ch),
;

/// A `String` holding the characters of `v`.
pub fn chars_to_string(v: &[char]) -> (s: String)
    ensures
        s@ == v@,
{
    let mut s = String::new();
    let mut k: usize = 0;
    while k < v.len()
        invariant
            0 <= k <= v@.len(),
            s@ == v@.take(k as int),
        decreases v@.len() - k,
    {
        s.push(v[k]);
        k = k + 1;
        assert(s@ =~= v@.take(k as int));
    }
    assert(v@.take(v@.len() as int) =~= v@);
    s
}

/// A macro as the table stores it, with its text held as characters.
pub(crate) struct MacroEntry {
    pub(crate) key: Vec<char>,
    pub(crate) name: Vec<char>,
    pub(crate) params: Option<Vec<Vec<char>>>,
    pub(crate) body: Vec<char>,
}

impl MacroEntry {
    pub(crate) open spec fn spec(&self) -> MacroSpec {
        MacroSpec {
            name: self.name@,
            params: match self.params {
                Some(p) => Some(chars_view(p@)),
                None => None,
            },
            body: self.body@,
        }
    }

    /// The entry for `key` holding `def`.
    pub(crate) fn from_def(key: &str, def: &MacroDef) -> (e: MacroEntry)
        ensures
            e.key@ == key@,
            e.spec() == def@,
    {
        let params = match &def.params {
            Some(ps) => {
                let mut out: Vec<Vec<char>> = Vec::new();
                let mut k: usize = 0;
                while k < ps.len()
                    invariant
                        0 <= k <= ps@.len(),
                        out@.len() == k,
                        chars_view(out@) == strings_view(ps@.take(k as int)),
                    decreases ps@.len() - k,
                {
                    let p = str_to_chars(ps[k].as_str());
                    let ghost prev = out@;
                    out.push(p);
                    proof {
                        assert forall|m: int| 0 <= m <= k implies #[trigger] chars_view(out@)[m]
                            == strings_view(ps@.take(k + 1))[m] by {
                            if m < k {
                                assert(out@[m] == prev[m]);
                                assert(chars_view(prev)[m] == strings_view(ps@.take(k as int))[m]);
                            }
                        }
                    }
                    k = k + 1;
                    assert(chars_view(out@) =~= strings_view(ps@.take(k as int)));
                }
                assert(ps@.take(ps@.len() as int) =~= ps@);
                Some(out)
            },
            None => None,
        };
        MacroEntry {
            key: str_to_chars(key),
            name: str_to_chars(def.name.as_str()),
            params,
            body: str_to_chars(def.body.as_str()),
        }
    }
}

/// Macros keyed by name; no name occurs twice.
pub(crate) struct MacroTable {
    pub(crate) entries: Vec<MacroEntry>,
}

impl MacroTable {
    pub(crate) open spec fn wf(&self) -> bool {
        forall|i: int, j: int|
            0 <= i < self.entries@.len() && 0 <= j < self.entries@.len() && i != j
                ==> #[trigger] self.entries@[i].key@ != #[trigger] self.entries@[j].key@
    }

    pub(crate) open spec fn has_key(&self, k: Seq<char>) -> bool {
        exists|i: int| 0 <= i < self.entries@.len() && #[trigger] self.entries@[i].key@ == k
    }

    pub(crate) open spec fn view(&self) -> MacroMap {
        Map::new(
            |k: Seq<char>| self.has_key(k),
            |k: Seq<char>|
                self.entries@[choose|i: int|
                    0 <= i < self.entries@.len() && #[trigger] self.entries@[i].key@ == k].spec(),
        )
    }

    pub(crate) proof fn lemma_view_at(&self, i: int)
        requires
            self.wf(),
            0 <= i < self.entries@.len(),
        ensures
            self.view().contains_key(self.entries@[i].key@),
            self.view()[self.entries@[i].key@] == self.entries@[i].spec(),
    {
        let k = self.entries@[i].key@;
        assert(self.has_key(k));
        let j = choose|j: int| 0 <= j < self.entries@.len() && #[trigger] self.entries@[j].key@ == k;
        assert(j == i);
    }

    /// A well-formed table whose entries are exactly described by `m` has view `m`.
    pub(crate) proof fn lemma_view_is(&self, m: MacroMap)
        requires
            self.wf(),
            forall|i: int|
                0 <= i < self.entries@.len() ==> m.contains_key(#[trigger] self.entries@[i].key@)
                    && m[self.entries@[i].key@] == self.entries@[i].spec(),
            forall|k: Seq<char>| #[trigger] m.contains_key(k) ==> self.has_key(k),
        ensures
            self.view() == m,
    {
        assert forall|k: Seq<char>| #[trigger] m.contains_key(k) implies self.view().contains_key(k)
            && self.view()[k] == m[k] by {
            let i = choose|i: int| 0 <= i < self.entries@.len() && #[trigger] self.entries@[i].key@ == k;
            self.lemma_view_at(i);
        }
        assert forall|k: Seq<char>| #[trigger] self.view().contains_key(k) implies m.contains_key(k) by {
            let i = choose|i: int| 0 <= i < self.entries@.len() && #[trigger] self.entries@[i].key@ == k;
        }
        assert(self.view() =~= m);
    }

    pub(crate) fn new() -> (t: MacroTable)
        ensures
            t.wf(),
            t.view() == Map::<Seq<char>, MacroSpec>::empty(),
    {
        let t = MacroTable { entries: Vec::new() };
        assert(t.view() =~= Map::<Seq<char>, MacroSpec>::empty());
        t
    }

    /// Index of the entry named `key`, if any.
    pub(crate) fn find(&self, key: &[char]) -> (r: Option<usize>)
        requires
            self.wf(),
        ensures
            match r {
                Some(i) => i < self.entries@.len() && self.entries@[i as int].key@ == key@,
                None => !self.view().contains_key(key@),
            },
    {
        let mut i: usize = 0;
        while i < self.entries.len()
            invariant
                0 <= i <= self.entries@.len(),
                forall|j: int| 0 <= j < i ==> #[trigger] self.entries@[j].key@ != key@,
            decreases self.entries@.len() - i,
        {
            if chars_eq(self.entries[i].key.as_slice(), key) {
                return Some(i);
            }
            i = i + 1;
        }
        None
    }

    pub(crate) fn contains(&self, key: &[char]) -> (r: bool)
        requires
            self.wf(),
        ensures
            r == self.view().contains_key(key@),
    {
        match self.find(key) {
            Some(i) => {
                proof {
                    self.lemma_view_at(i as int);
                }
                true
            },
            None => false,
        }
    }

    /// The entry named `key`, if any.
    pub(crate) fn get(&self, key: &[char]) -> (r: Option<&MacroEntry>)
        requires
            self.wf(),
        ensures
            match r {
                Some(e) => self.view().contains_key(key@) && self.view()[key@] == e.spec(),
                None => !self.view().contains_key(key@),
            },
    {
        match self.find(key) {
            Some(i) => {
                proof {
                    self.lemma_view_at(i as int);
                }
                Some(&self.entries[i])
            },
            None => None,
        }
    }

    /// Adds `e`, replacing any entry with the same key.
    pub(crate) fn insert(&mut self, e: MacroEntry)
        requires
            old(self).wf(),
        ensures
            final(self).wf(),
            final(self).view() == old(self).view().insert(e.key@, e.spec()),
    {
        let ghost m = self.view().insert(e.key@, e.spec());
        let ghost k = e.key@;
        proof {
            assert forall|i: int| 0 <= i < self.entries@.len() implies #[trigger] self.entries@[i].key@
                != k || (self.view().contains_key(k)) by {
                if self.entries@[i].key@ == k {
                    self.lemma_view_at(i);
                }
            }
        }
        match self.find(e.key.as_slice()) {
            Some(i) => {
                let ghost old_entries = self.entries@;
                let ghost old_t = self.view();
                proof {
                    assert forall|j: int| 0 <= j < old_entries.len() && j != i implies #[trigger] old_t.contains_key(old_entries[j].key@)
                        && old_t[old_entries[j].key@] == old_entries[j].spec() by {
                        self.lemma_view_at(j);
                    }
                }
                self.entries.set(i, e);
                proof {
                    assert forall|a: int, b: int|
                        0 <= a < self.entries@.len() && 0 <= b < self.entries@.len() && a != b
                            implies #[trigger] self.entries@[a].key@
                        != #[trigger] self.entries@[b].key@ by {
                        if a != i && b != i {
                            assert(old_entries[a].key@ != old_entries[b].key@);
                        } else if a == i {
                            assert(old_entries[b].key@ != old_entries[a].key@);
                        } else {
                            assert(old_entries[a].key@ != old_entries[b].key@);
                        }
                    }
                    assert forall|kk: Seq<char>| #[trigger] m.contains_key(kk) implies self.has_key(kk) by {
                        if kk != k {
                            assert(old_t.contains_key(kk));
                            let j = choose|j: int| 0 <= j < old_entries.len() && #[trigger] old_entries[j].key@ == kk;
                            assert(j != i);
                            assert(self.entries@[j].key@ == kk);
                        } else {
                            assert(self.entries@[i as int].key@ == kk);
                        }
                    }
                    self.lemma_view_is(m);
                }
            },
            None => {
                let ghost old_entries = self.entries@;
                let ghost old_t = self.view();
                proof {
                    assert forall|j: int| 0 <= j < old_entries.len() implies #[trigger] old_t.contains_key(old_entries[j].key@)
                        && old_t[old_entries[j].key@] == old_entries[j].spec() by {
                        self.lemma_view_at(j);
                    }
                }
                self.entries.push(e);
                proof {
                    let n = old_entries.len() as int;
                    assert forall|a: int, b: int|
                        0 <= a < self.entries@.len() && 0 <= b < self.entries@.len() && a != b
                            implies #[trigger] self.entries@[a].key@
                        != #[trigger] self.entries@[b].key@ by {
                        if a != n && b != n {
                            assert(old_entries[a].key@ != old_entries[b].key@);
                        } else if a == n {
                            assert(old_t.contains_key(old_entries[b].key@));
                        } else {
                            assert(old_t.contains_key(old_entries[a].key@));
                        }
                    }
                    assert forall|kk: Seq<char>| #[trigger] m.contains_key(kk) implies self.has_key(kk) by {
                        if kk != k {
                            assert(old_t.contains_key(kk));
                            let j = choose|j: int| 0 <= j < old_entries.len() && #[trigger] old_entries[j].key@ == kk;
                            assert(self.entries@[j].key@ == kk);
                        } else {
                            assert(self.entries@[n].key@ == kk);
                        }
                    }
                    self.lemma_view_is(m);
                }
            },
        }
    }

    /// Removes the entry named `key`, if any.
    pub(crate) fn remove(&mut self, key: &[char])
        requires
            old(self).wf(),
        ensures
            final(self).wf(),
            final(self).view() == old(self).view().remove(key@),
    {
        let ghost m = self.view().remove(key@);
        let ghost old_entries = self.entries@;
        let ghost old_t = self.view();
        proof {
            assert forall|j: int| 0 <= j < old_entries.len() implies #[trigger] old_t.contains_key(old_entries[j].key@)
                && old_t[old_entries[j].key@] == old_entries[j].spec() by {
                self.lemma_view_at(j);
            }
        }
        match self.find(key) {
            Some(i) => {
                self.entries.remove(i);
                proof {
                    assert forall|a: int|
                        0 <= a < self.entries@.len() implies #[trigger] self.entries@[a]
                        == old_entries[if a < i {
                        a
                    } else {
                        a + 1
                    }] by {}
                    assert forall|a: int, b: int|
                        0 <= a < self.entries@.len() && 0 <= b < self.entries@.len() && a != b
                            implies #[trigger] self.entries@[a].key@
                        != #[trigger] self.entries@[b].key@ by {
                        let a2 = if a < i { a } else { a + 1 };
                        let b2 = if b < i { b } else { b + 1 };
                        assert(self.entries@[a] == old_entries[a2]);
                        assert(self.entries@[b] == old_entries[b2]);
                        assert(old_entries[a2].key@ != old_entries[b2].key@);
                    }
                    assert forall|a: int|
                        0 <= a < self.entries@.len() implies m.contains_key(#[trigger] self.entries@[a].key@)
                            && m[self.entries@[a].key@] == self.entries@[a].spec() by {
                        let a2 = if a < i { a } else { a + 1 };
                        assert(self.entries@[a] == old_entries[a2]);
                        assert(old_entries[a2].key@ != old_entries[i as int].key@);
                    }
                    assert forall|kk: Seq<char>| #[trigger] m.contains_key(kk) implies self.has_key(kk) by {
                        let j = choose|j: int| 0 <= j < old_entries.len() && #[trigger] old_entries[j].key@ == kk;
                        assert(j != i);
                        let a = if j < i { j } else { j - 1 };
                        assert(self.entries@[a] == old_entries[j]);
                    }
                    self.lemma_view_is(m);
                }
            },
            None => {
                proof {
                    assert(m =~= old_t);
                }
            },
        }
    }
}

} // verus!
