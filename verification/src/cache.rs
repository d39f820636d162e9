//! The process-wide memoization of architecture resolution: one entry per
//! raw image string, holding the outcome of its first resolution (including
//! a failed one), never evicted. Readers see exactly what was recorded.

use vstd::prelude::*;
use crate::manifest::strings_view;
use crate::strutil::str_eq;

verus! {

/// The recorded outcome of one resolution, as mathematics: `None` for a
/// failed resolution, otherwise the architecture views.
pub open spec fn outcome_view(a: Option<Vec<String>>) -> Option<Seq<Seq<char>>> {
    match a {
        Some(v) => Some(strings_view(v)),
        None => None,
    }
}

/// Maps each recorded image string to its recorded outcome.
pub open spec fn entries_map(es: Seq<(String, Option<Vec<String>>)>) -> Map<Seq<char>, Option<
    Seq<Seq<char>>,
>>
    decreases es.len(),
{
    if es.len() == 0 {
        Map::empty()
    } else {
        entries_map(es.drop_last()).insert(es.last().0@, outcome_view(es.last().1))
    }
}

/// No image string is recorded twice.
pub open spec fn unique_keys(es: Seq<(String, Option<Vec<String>>)>) -> bool {
    forall|x: int, y: int|
        0 <= x < y < es.len() ==> (#[trigger] es[x]).0@ != (#[trigger] es[y]).0@
}

proof fn lemma_entries_map_absent(es: Seq<(String, Option<Vec<String>>)>, k: Seq<char>)
    requires
        forall|j: int| 0 <= j < es.len() ==> (#[trigger] es[j]).0@ != k,
    ensures
        !entries_map(es).contains_key(k),
    decreases es.len(),
{
    if es.len() > 0 {
        assert(es.last().0@ != k);
        lemma_entries_map_absent(es.drop_last(), k);
    }
}

proof fn lemma_entries_map_found(es: Seq<(String, Option<Vec<String>>)>, j: int)
    requires
        unique_keys(es),
        0 <= j < es.len(),
    ensures
        entries_map(es).contains_key(es[j].0@),
        entries_map(es)[es[j].0@] == outcome_view(es[j].1),
    decreases es.len(),
{
    if j == es.len() - 1 {
    } else {
        assert(es.last().0@ != es[j].0@);
        assert(es.drop_last()[j] == es[j]);
        lemma_entries_map_found(es.drop_last(), j);
    }
}

/// The memoization table of resolved image strings.
#[derive(Debug)]
pub struct ResolutionCache {
    entries: Vec<(String, Option<Vec<String>>)>,
}

impl View for ResolutionCache {
    type V = Map<Seq<char>, Option<Seq<Seq<char>>>>;

    closed spec fn view(&self) -> Map<Seq<char>, Option<Seq<Seq<char>>>> {
        entries_map(self.entries@)
    }
}

impl ResolutionCache {
    /// The structural invariant: each image string recorded at most once.
    pub closed spec fn wf(&self) -> bool {
        unique_keys(self.entries@)
    }

    /// An empty cache.
    pub fn new() -> (r: ResolutionCache)
        ensures
            r.wf(),
            r@ == Map::<Seq<char>, Option<Seq<Seq<char>>>>::empty(),
    {
        ResolutionCache { entries: Vec::new() }
    }

    /// The recorded outcome for an image string: exactly the model's entry,
    /// and `None` only when nothing was recorded for it.
    pub fn lookup<'a>(&'a self, image: &str) -> (r: Option<&'a Option<Vec<String>>>)
        requires
            self.wf(),
        ensures
            match r {
                Some(a) => self@.contains_key(image@) && self@[image@] == outcome_view(*a),
                None => !self@.contains_key(image@),
            },
    {
        let n: usize = self.entries.len();
        let mut i: usize = 0;
        while i < n
            invariant
                self.wf(),
                n == self.entries@.len(),
                0 <= i <= n,
                forall|j: int| 0 <= j < i ==> (#[trigger] self.entries@[j]).0@ != image@,
            decreases n - i,
        {
            if str_eq(self.entries[i].0.as_str(), image) {
                proof {
                    lemma_entries_map_found(self.entries@, i as int);
                }
                return Some(&self.entries[i].1);
            }
            i = i + 1;
        }
        proof {
            lemma_entries_map_absent(self.entries@, image@);
        }
        None
    }

    /// Records the outcome of a first resolution. Later lookups of `image`
    /// see exactly `outcome`; every other entry is untouched.
    pub fn insert(&mut self, image: String, outcome: Option<Vec<String>>)
        requires
            old(self).wf(),
            !old(self)@.contains_key(image@),
        ensures
            final(self).wf(),
            final(self)@ == old(self)@.insert(image@, outcome_view(outcome)),
    {
        proof {
            assert forall|j: int| 0 <= j < self.entries@.len() implies (#[trigger] self
                .entries@[j]).0@ != image@ by {
                if self.entries@[j].0@ == image@ {
                    lemma_entries_map_found(self.entries@, j);
                }
            }
        }
        let ghost before = self.entries@;
        self.entries.push((image, outcome));
        proof {
            assert(self.entries@.drop_last() =~= before);
            assert(self.entries@.last() == self.entries@[before.len() as int]);
        }
    }
}

/// Memoization law: after an outcome is recorded for an image string, looking
/// that string up yields exactly the recorded outcome, so a second resolution
/// of the same string needs no further work.
pub proof fn lemma_cache_hit(
    m: Map<Seq<char>, Option<Seq<Seq<char>>>>,
    image: Seq<char>,
    outcome: Option<Seq<Seq<char>>>,
)
    ensures
        m.insert(image, outcome).contains_key(image),
        m.insert(image, outcome)[image] == outcome,
{
}

} // verus!
