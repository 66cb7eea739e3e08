//! The loaded configuration: one build/run profile per language, looked up
//! by a language key. Keys are unique, as in the map the configuration file
//! is read into.

use vstd::prelude::*;
use crate::bytes::bytes_eq;

verus! {

/// How a solution in one language is built and run: the name of its source
/// file, an optional compile command, and the execute command. The commands
/// are user-authored shell fragments, carried whole.
pub struct Language {
    pub source: Vec<u8>,
    pub compile: Option<String>,
    pub execute: String,
}

/// One configured language under its key.
pub struct LangEntry {
    pub key: Vec<u8>,
    pub lang: Language,
}

/// The whole configuration: the configured languages, with distinct keys.
pub struct Config {
    pub langs: Vec<LangEntry>,
}

impl Config {
    /// Keys are distinct.
    pub open spec fn wf(self) -> bool {
        forall|i: int, j: int|
            0 <= i < j < self.langs@.len() ==> self.langs@[i].key@ != self.langs@[j].key@
    }

    /// Whether some entry has key `k`.
    pub open spec fn spec_has_key(self, k: Seq<u8>) -> bool {
        exists|i: int| 0 <= i < self.langs@.len() && self.langs@[i].key@ == k
    }

    /// An empty configuration.
    pub fn new() -> (r: Config)
        ensures
            r.wf(),
            r.langs@.len() == 0,
    {
        Config { langs: Vec::new() }
    }

    /// Add a language under a fresh key; a key already present is refused
    /// and the configuration is left as it was.
    pub fn add_language(&mut self, key: Vec<u8>, lang: Language) -> (r: bool)
        requires
            old(self).wf(),
        ensures
            final(self).wf(),
            r == !old(self).spec_has_key(key@),
            r ==> final(self).langs@ == old(self).langs@.push(LangEntry { key, lang }),
            !r ==> *final(self) == *old(self),
    {
        let mut i: usize = 0;
        while i < self.langs.len()
            invariant
                i <= self.langs@.len(),
                self.wf(),
                *self == *old(self),
                forall|j: int| 0 <= j < i ==> self.langs@[j].key@ != key@,
            decreases self.langs.len() - i,
        {
            if bytes_eq(&self.langs[i].key, &key) {
                return false;
            }
            i += 1;
        }
        self.langs.push(LangEntry { key, lang });
        true
    }

    /// The language under `key`, or nothing when the key is not configured.
    pub fn find_language(&self, key: &Vec<u8>) -> (r: Option<&Language>)
        ensures
            match r {
                Some(l) => exists|i: int|
                    0 <= i < self.langs@.len() && self.langs@[i].key@ == key@ && *l
                        == self.langs@[i].lang,
                None => !self.spec_has_key(key@),
            },
    {
        let mut i: usize = 0;
        while i < self.langs.len()
            invariant
                i <= self.langs@.len(),
                forall|j: int| 0 <= j < i ==> self.langs@[j].key@ != key@,
            decreases self.langs.len() - i,
        {
            if bytes_eq(&self.langs[i].key, key) {
                return Some(&self.langs[i].lang);
            }
            i += 1;
        }
        None
    }
}

} // verus!
