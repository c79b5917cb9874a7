//! The in-memory registry of providers, keyed by provider id.
use vstd::prelude::*;

use crate::keyed::{lemma_entries_dom, spec_entries_map, spec_keys_unique, KeyedVec};

verus! {

/// Providers registered under their ids; registering an id again replaces
/// the provider held for it.
pub struct InMemoryProviderRegistry<P> {
    providers: KeyedVec<P>,
}

impl<P> View for InMemoryProviderRegistry<P> {
    type V = Map<Seq<char>, P>;

    closed spec fn view(&self) -> Map<Seq<char>, P> {
        self.providers@
    }
}

impl<P> InMemoryProviderRegistry<P> {
    /// An empty registry.
    pub fn new() -> (r: InMemoryProviderRegistry<P>)
        ensures
            r@ == Map::<Seq<char>, P>::empty(),
    {
        InMemoryProviderRegistry { providers: KeyedVec::new() }
    }

    /// Register `provider` under `id`, replacing any provider already there.
    pub fn register(&mut self, id: String, provider: P)
        ensures
            final(self)@ == old(self)@.insert(id@, provider),
    {
        self.providers.insert(id, provider);
    }

    /// The registered ids, each once.
    pub fn list(&self) -> (r: Vec<String>)
        ensures
            forall|i: int, j: int| 0 <= i < j < r@.len() ==> (#[trigger] r@[i])@ != (#[trigger] r@[j])@,
            forall|k: Seq<char>| self@.dom().contains(k) <==> exists|i: int| 0 <= i < r@.len() && (#[trigger] r@[i])@ == k,
    {
        let entries = self.providers.entries();
        let mut out: Vec<String> = Vec::new();
        let mut i: usize = 0;
        while i < entries.len()
            invariant
                i <= entries@.len(),
                spec_keys_unique(entries@),
                spec_entries_map(entries@) == self@,
                out@.len() == i,
                forall|j: int| 0 <= j < i ==> (#[trigger] out@[j])@ == entries@[j].0@,
            decreases entries@.len() - i,
        {
            out.push(entries[i].0.clone());
            i += 1;
        }
        proof {
            assert forall|k: Seq<char>| self@.dom().contains(k) implies exists|i: int|
                0 <= i < out@.len() && (#[trigger] out@[i])@ == k by {
                lemma_entries_dom(entries@, k);
                let j = choose|i: int| 0 <= i < entries@.len() && (#[trigger] entries@[i]).0@ == k;
                assert(out@[j]@ == k);
            }
            assert forall|k: Seq<char>| (exists|i: int| 0 <= i < out@.len() && (#[trigger] out@[i])@ == k)
                implies self@.dom().contains(k) by {
                let j = choose|i: int| 0 <= i < out@.len() && (#[trigger] out@[i])@ == k;
                lemma_entries_dom(entries@, k);
                assert(entries@[j].0@ == k);
            }
            assert forall|a: int, b: int| 0 <= a < b < out@.len() implies (#[trigger] out@[a])@ != (
            #[trigger] out@[b])@ by {
                assert(out@[a]@ == entries@[a].0@ && out@[b]@ == entries@[b].0@);
            }
        }
        out
    }

    /// The provider registered under `id`.
    pub fn get(&self, id: &str) -> (r: Option<&P>)
        ensures
            match r {
                Some(p) => self@.dom().contains(id@) && *p == self@[id@],
                None => !self@.dom().contains(id@),
            },
    {
        self.providers.get(id)
    }
}

} // verus!
