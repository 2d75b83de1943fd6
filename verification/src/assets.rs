//! The asset store: the bundled payloads, each under the name by which a
//! request path refers to it.

use crate::text::same_text;
use vstd::prelude::*;
use vstd::string::*;

verus! {

/// One bundled payload and the name it is served under.
#[derive(Debug, Clone)]
pub struct Asset {
    pub identifier: String,
    pub bytes: Vec<u8>,
}

/// The bundled payloads. A store that was built holds at least one asset and
/// no two under one name; it is never changed afterwards.
#[derive(Debug)]
pub struct AssetStore {
    assets: Vec<Asset>,
}

/// The names and payloads of a list of assets, in the list's order.
pub open spec fn entries_of(assets: Seq<Asset>) -> Seq<(Seq<char>, Seq<u8>)> {
    Seq::new(assets.len(), |i: int| (assets[i].identifier@, assets[i].bytes@))
}

/// Whether no two entries share a name.
pub open spec fn distinct_names(entries: Seq<(Seq<char>, Seq<u8>)>) -> bool {
    forall|i: int, j: int|
        0 <= i < j < entries.len() ==> (#[trigger] entries[i]).0 != (#[trigger] entries[j]).0
}

/// What a store may hold: at least one entry, and each name once.
pub open spec fn valid_entries(entries: Seq<(Seq<char>, Seq<u8>)>) -> bool {
    entries.len() > 0 && distinct_names(entries)
}

/// Whether some entry goes by `name`.
pub open spec fn holds_name(entries: Seq<(Seq<char>, Seq<u8>)>, name: Seq<char>) -> bool {
    exists|i: int| 0 <= i < entries.len() && (#[trigger] entries[i]).0 == name
}

/// The place of an entry that goes by `name`, where there is one.
pub open spec fn place_of(entries: Seq<(Seq<char>, Seq<u8>)>, name: Seq<char>) -> int {
    choose|i: int| 0 <= i < entries.len() && (#[trigger] entries[i]).0 == name
}

/// The payload stored under `name`, where there is one.
pub open spec fn payload_of(entries: Seq<(Seq<char>, Seq<u8>)>, name: Seq<char>) -> Seq<u8> {
    entries[place_of(entries, name)].1
}

/// With distinct names, the entry found under a name is the only one.
pub proof fn lemma_place_unique(entries: Seq<(Seq<char>, Seq<u8>)>, i: int)
    requires
        distinct_names(entries),
        0 <= i < entries.len(),
    ensures
        holds_name(entries, entries[i].0),
        place_of(entries, entries[i].0) == i,
        payload_of(entries, entries[i].0) == entries[i].1,
{
    let name = entries[i].0;
    let j = place_of(entries, name);
    assert(0 <= j < entries.len() && entries[j].0 == name);
    if j < i {
        assert(entries[j].0 != entries[i].0);
    } else if i < j {
        assert(entries[i].0 != entries[j].0);
    }
}

/// Draws an index below `n` from the thread's random number generator, by
/// `rand::Rng::gen_range` on the range from zero up to `n`, `n` excluded. The
/// contract claims only that the index lies in that range; `gen_range` panics
/// on an empty range, which `n > 0` rules out.
#[verifier::external_body]
fn random_index(n: usize) -> (index: usize)
    requires
        n > 0,
    ensures
        index < n,
{
    rand::Rng::gen_range(&mut rand::thread_rng(), 0..n)
}

impl AssetStore {
    /// The store's names and payloads, in the order in which they were given.
    pub closed spec fn view(&self) -> Seq<(Seq<char>, Seq<u8>)> {
        entries_of(self.assets@)
    }

    /// The store's invariant.
    pub open spec fn wf(&self) -> bool {
        valid_entries(self@)
    }

    /// Builds the store from the bundled assets. There is no store without
    /// assets, nor one with two assets under one name.
    pub fn new(assets: Vec<Asset>) -> (r: Option<AssetStore>)
        ensures
            r is Some <==> valid_entries(entries_of(assets@)),
            r matches Some(store) ==> store@ == entries_of(assets@) && store.wf(),
    {
        let n: usize = assets.len();
        if n == 0 {
            return None;
        }
        let ghost entries = entries_of(assets@);
        let mut i: usize = 0;
        while i < n
            invariant
                n == assets.len(),
                i <= n,
                entries == entries_of(assets@),
                forall|a: int, b: int|
                    0 <= a < b < i ==> (#[trigger] entries[a]).0 != (#[trigger] entries[b]).0,
            decreases n - i,
        {
            let mut j: usize = 0;
            while j < i
                invariant
                    n == assets.len(),
                    i < n,
                    j <= i,
                    entries == entries_of(assets@),
                    forall|a: int| 0 <= a < j ==> (#[trigger] entries[a]).0 != entries[i as int].0,
                decreases i - j,
            {
                if same_text(assets[j].identifier.as_str(), assets[i].identifier.as_str()) {
                    proof {
                        assert(entries[j as int].0 == entries[i as int].0);
                    }
                    return None;
                }
                j += 1;
            }
            i += 1;
        }
        Some(AssetStore { assets })
    }

    /// The number of assets.
    pub fn len(&self) -> (n: usize)
        ensures
            n == self@.len(),
    {
        self.assets.len()
    }

    /// The place of the asset named `identifier`, by exact match.
    pub fn find(&self, identifier: &str) -> (r: Option<usize>)
        requires
            self.wf(),
        ensures
            r is Some <==> holds_name(self@, identifier@),
            r matches Some(i) ==> i as int == place_of(self@, identifier@),
    {
        let n: usize = self.assets.len();
        let mut i: usize = 0;
        while i < n
            invariant
                self.wf(),
                n == self.assets.len(),
                i <= n,
                forall|a: int| 0 <= a < i ==> (#[trigger] self@[a]).0 != identifier@,
            decreases n - i,
        {
            if same_text(self.assets[i].identifier.as_str(), identifier) {
                proof {
                    lemma_place_unique(self@, i as int);
                }
                return Some(i);
            }
            i += 1;
        }
        None
    }

    /// The payload of the asset named `identifier`, by exact match; `None`
    /// where the store has no such asset.
    pub fn lookup(&self, identifier: &str) -> (r: Option<&Vec<u8>>)
        requires
            self.wf(),
        ensures
            r is Some <==> holds_name(self@, identifier@),
            r matches Some(bytes) ==> bytes@ == payload_of(self@, identifier@),
    {
        match self.find(identifier) {
            Some(i) => Some(&self.assets[i].bytes),
            None => None,
        }
    }

    /// The name of the asset at `index`.
    pub fn identifier_at(&self, index: usize) -> (name: &str)
        requires
            index < self@.len(),
        ensures
            name@ == self@[index as int].0,
    {
        self.assets[index].identifier.as_str()
    }

    /// The payload of the asset at `index`.
    pub fn bytes_at(&self, index: usize) -> (bytes: &Vec<u8>)
        requires
            index < self@.len(),
        ensures
            bytes@ == self@[index as int].1,
    {
        &self.assets[index].bytes
    }

    /// The place of an asset drawn at random, each asset with the same
    /// chance. Whatever is drawn, it is a place of the store.
    pub fn random_place(&self) -> (index: usize)
        requires
            self.wf(),
        ensures
            index < self@.len(),
    {
        random_index(self.assets.len())
    }

    /// The name of an asset drawn at random, each asset with the same chance.
    /// Whatever is drawn, it is the name of an asset of the store.
    pub fn random_identifier(&self) -> (name: &str)
        requires
            self.wf(),
        ensures
            holds_name(self@, name@),
    {
        let index: usize = self.random_place();
        self.identifier_at(index)
    }
}

} // verus!
