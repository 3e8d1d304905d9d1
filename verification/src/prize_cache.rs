//! The cache of the prizes that can be drawn: a snapshot that readers take
//! without waiting, replaced as a whole by each successful refresh.

use vstd::prelude::*;

verus! {

/// What a draw needs to know of a prize: who it is and what it weighs.
#[derive(Clone, Debug)]
pub struct PrizeLite {
    pub id: u128,
    pub name: String,
    pub probability: i32,
}

impl PrizeLite {
    /// A copy of the entry.
    pub fn duplicate(&self) -> (copy: PrizeLite)
        ensures
            copy == *self,
    {
        PrizeLite { id: self.id, name: self.name.clone(), probability: self.probability }
    }
}

/// The weights of a list of prizes, in the list's order.
pub open spec fn probabilities(prizes: Seq<PrizeLite>) -> Seq<i32> {
    prizes.map_values(|p: PrizeLite| p.probability)
}

/// Copies a list of prizes.
pub fn duplicate_all(prizes: &Vec<PrizeLite>) -> (copy: Vec<PrizeLite>)
    ensures
        copy@ == prizes@,
{
    let mut copy: Vec<PrizeLite> = Vec::new();
    let mut i: usize = 0;
    while i < prizes.len()
        invariant
            i <= prizes.len(),
            copy@ == prizes@.take(i as int),
        decreases prizes.len() - i,
    {
        copy.push(prizes[i].duplicate());
        assert(prizes@.take(i as int).push(prizes@[i as int]) =~= prizes@.take(i as int + 1));
        i = i + 1;
    }
    assert(prizes@.take(prizes.len() as int) =~= prizes@);
    copy
}

/// The weights of a list of prizes, in the list's order.
pub fn weights_of(prizes: &Vec<PrizeLite>) -> (weights: Vec<i32>)
    ensures
        weights@ == probabilities(prizes@),
{
    let mut weights: Vec<i32> = Vec::new();
    let mut i: usize = 0;
    while i < prizes.len()
        invariant
            i <= prizes.len(),
            weights@ == probabilities(prizes@.take(i as int)),
        decreases prizes.len() - i,
    {
        weights.push(prizes[i].probability);
        assert(prizes@.take(i as int).push(prizes@[i as int]) =~= prizes@.take(i as int + 1));
        assert(weights@ =~= probabilities(prizes@.take(i as int + 1)));
        i = i + 1;
    }
    assert(prizes@.take(prizes.len() as int) =~= prizes@);
    weights
}

/// The cache. It starts empty and holds what the last successful refresh
/// brought.
pub struct PrizeCache {
    prizes: Vec<PrizeLite>,
}

impl View for PrizeCache {
    type V = Seq<PrizeLite>;

    closed spec fn view(&self) -> Seq<PrizeLite> {
        self.prizes@
    }
}

impl PrizeCache {
    /// A cache that was never refreshed.
    pub fn new() -> (cache: PrizeCache)
        ensures
            cache@ == Seq::<PrizeLite>::empty(),
    {
        PrizeCache { prizes: Vec::new() }
    }

    /// The list that the last successful refresh brought; empty before the first.
    pub fn snapshot(&self) -> (prizes: Vec<PrizeLite>)
        ensures
            prizes@ == self@,
    {
        duplicate_all(&self.prizes)
    }

    /// Whether the cache holds no prize, as it does before the first refresh.
    pub fn is_empty(&self) -> (empty: bool)
        ensures
            empty == (self@.len() == 0),
    {
        self.prizes.len() == 0
    }

    /// Ends a refresh: a list that was fetched replaces the snapshot as a
    /// whole; a failed fetch, `None`, leaves the snapshot as it was.
    pub fn refresh_once(&mut self, fetched: Option<Vec<PrizeLite>>)
        ensures
            final(self)@ == match fetched {
                Some(list) => list@,
                None => old(self)@,
            },
    {
        match fetched {
            Some(list) => {
                self.prizes = list;
            },
            None => {},
        }
    }
}

} // verus!
