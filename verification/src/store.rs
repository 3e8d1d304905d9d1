//! The durable store: the prize rows, each user's last draw and the draw
//! records, with the operations that the draw engine needs of them.

use crate::error::database_error;
use crate::error::AppError;
use crate::models::LotteryRecord;
use crate::models::Prize;
use crate::prize_cache::PrizeLite;
use std::collections::HashMap;
use vstd::prelude::*;

verus! {

broadcast use vstd::std_specs::hash::group_hash_axioms;

/// The store as a mathematical value.
pub struct StoreState {
    /// The prize rows, in the order in which they are read.
    pub prizes: Seq<Prize>,
    /// For each user who drew, the instant of the last draw.
    pub last_draw: Map<u128, i64>,
    /// The draw records, oldest first.
    pub records: Seq<LotteryRecord>,
}

/// An enabled prize that has stock, as a draw against the store sees it.
#[derive(Clone, Debug)]
pub struct EnabledPrize {
    pub id: u128,
    pub name: String,
    pub remaining_count: i64,
    pub probability: i32,
}

/// What the cache keeps of a prize row.
pub open spec fn lite_of(p: Prize) -> PrizeLite {
    PrizeLite { id: p.id, name: p.name, probability: p.probability }
}

/// What a draw against the store sees of a prize row.
pub open spec fn enabled_of(p: Prize) -> EnabledPrize {
    EnabledPrize {
        id: p.id,
        name: p.name,
        remaining_count: p.remaining_count,
        probability: p.probability,
    }
}

/// What a draw needs of an enabled prize.
pub open spec fn lite_of_enabled(p: EnabledPrize) -> PrizeLite {
    PrizeLite { id: p.id, name: p.name, probability: p.probability }
}

/// The prizes that are enabled.
pub open spec fn enabled() -> spec_fn(Prize) -> bool {
    |p: Prize| p.is_enabled
}

/// The prizes that are enabled and have stock.
pub open spec fn eligible() -> spec_fn(Prize) -> bool {
    |p: Prize| p.is_enabled && p.remaining_count > 0
}

/// Whether row `i` of `prizes` holds the prize `id`.
pub open spec fn row_holds(prizes: Seq<Prize>, id: u128, i: int) -> bool {
    0 <= i < prizes.len() && prizes[i].id == id
}

/// The row of `prizes` that holds the prize `id`, if one does.
pub open spec fn row_of(prizes: Seq<Prize>, id: u128) -> Option<int> {
    if exists|i: int| row_holds(prizes, id, i) {
        Some(choose|i: int| row_holds(prizes, id, i))
    } else {
        None
    }
}

/// What remains of a stock after `delta` sold units are taken off it; never
/// less than zero.
pub open spec fn reconciled_count(remaining: i64, delta: i64) -> int {
    if remaining - delta > 0 {
        remaining - delta
    } else {
        0
    }
}

impl StoreState {
    /// The store with no row.
    pub open spec fn empty() -> StoreState {
        StoreState { prizes: Seq::empty(), last_draw: Map::empty(), records: Seq::empty() }
    }

    /// Every prize's stock is in range and no identifier occurs twice.
    pub open spec fn wf(self) -> bool {
        &&& forall|i: int| 0 <= i < self.prizes.len() ==> (#[trigger] self.prizes[i]).stock_in_range()
        &&& forall|i: int, j: int|
            0 <= i < j < self.prizes.len() ==> (#[trigger] self.prizes[i]).id != (
            #[trigger] self.prizes[j]).id
    }

    /// Whether row `i` holds the prize `id`.
    pub open spec fn holds_at(self, id: u128, i: int) -> bool {
        row_holds(self.prizes, id, i)
    }

    /// The row of a prize, if the store has the prize.
    pub open spec fn position(self, id: u128) -> Option<int> {
        row_of(self.prizes, id)
    }

    /// The remaining count of a prize; zero for a prize the store lacks.
    pub open spec fn remaining(self, id: u128) -> int {
        match self.position(id) {
            Some(i) => self.prizes[i].remaining_count as int,
            None => 0,
        }
    }

    /// The store with the remaining count of row `i` replaced.
    pub open spec fn with_remaining_at(self, i: int, remaining: i64) -> StoreState {
        StoreState {
            prizes: self.prizes.update(i, self.prizes[i].with_remaining(remaining)),
            ..self
        }
    }

    /// Conditional decrement: takes one unit off a prize that has stock and
    /// gives the new count; a prize without stock, or unknown, is left alone.
    pub open spec fn decrement_stock(self, id: u128) -> (StoreState, Option<i64>) {
        match self.position(id) {
            Some(i) if self.prizes[i].remaining_count > 0 => (
                self.with_remaining_at(i, (self.prizes[i].remaining_count - 1) as i64),
                Some((self.prizes[i].remaining_count - 1) as i64),
            ),
            _ => (self, None),
        }
    }

    /// The store after `delta` sold units were taken off a prize's stock; a
    /// delta that is not positive changes nothing.
    pub open spec fn apply_sold(self, id: u128, delta: i64) -> StoreState {
        match self.position(id) {
            Some(i) if delta > 0 => self.with_remaining_at(
                i,
                reconciled_count(self.prizes[i].remaining_count, delta) as i64,
            ),
            _ => self,
        }
    }

    /// The enabled prizes, in row order, as the cache keeps them.
    pub open spec fn enabled_lite(self) -> Seq<PrizeLite> {
        self.prizes.filter(enabled()).map_values(|p: Prize| lite_of(p))
    }

    /// The identifiers of the enabled prizes, in row order.
    pub open spec fn enabled_ids(self) -> Seq<u128> {
        self.prizes.filter(enabled()).map_values(|p: Prize| p.id)
    }

    /// The enabled prizes that have stock, in row order.
    pub open spec fn enabled_in_stock(self) -> Seq<EnabledPrize> {
        self.prizes.filter(eligible()).map_values(|p: Prize| enabled_of(p))
    }

    /// Whether a new prize with this identifier and stock can be stored.
    pub open spec fn accepts(self, id: u128, total_count: i64) -> bool {
        self.position(id) is None && total_count >= 0
    }

    /// The store with one more row at the end.
    pub open spec fn with_prize(self, prize: Prize) -> StoreState {
        StoreState { prizes: self.prizes.push(prize), ..self }
    }

    /// The instant of a user's last draw, if the user ever drew.
    pub open spec fn last_draw_at(self, user: u128) -> Option<i64> {
        if self.last_draw.contains_key(user) {
            Some(self.last_draw[user])
        } else {
            None
        }
    }

    /// The store after a draw was written down: the record is appended and
    /// the user's last draw is the record's instant.
    pub open spec fn recorded(self, record: LotteryRecord) -> StoreState {
        StoreState {
            last_draw: self.last_draw.insert(record.user_id, record.created_at),
            records: self.records.push(record),
            ..self
        }
    }
}

/// Two rows that hold the same prize are the same row.
pub proof fn lemma_position_unique(s: StoreState, id: u128, i: int)
    requires
        s.wf(),
        s.holds_at(id, i),
    ensures
        s.position(id) == Some(i),
{
    let j = choose|j: int| row_holds(s.prizes, id, j);
    if i < j {
        assert(s.prizes[i].id != s.prizes[j].id);
    }
    if j < i {
        assert(s.prizes[j].id != s.prizes[i].id);
    }
}

/// Replacing the remaining count of a row by a count in range keeps the
/// store well formed, keeps every prize in its row, and changes the remaining
/// count of that row's prize alone.
pub proof fn lemma_with_remaining_at(s: StoreState, i: int, remaining: i64, id: u128)
    requires
        s.wf(),
        0 <= i < s.prizes.len(),
        0 <= remaining <= s.prizes[i].total_count,
    ensures
        s.with_remaining_at(i, remaining).wf(),
        s.with_remaining_at(i, remaining).position(id) == s.position(id),
        s.with_remaining_at(i, remaining).remaining(id) == if s.prizes[i].id == id {
            remaining as int
        } else {
            s.remaining(id)
        },
{
    let after = s.with_remaining_at(i, remaining);
    assert forall|j: int| 0 <= j < after.prizes.len() implies (#[trigger] after.prizes[j]).id
        == s.prizes[j].id by {}
    assert forall|j: int, k: int| 0 <= j < k < after.prizes.len() implies (
    #[trigger] after.prizes[j]).id != (#[trigger] after.prizes[k]).id by {
        assert(s.prizes[j].id != s.prizes[k].id);
    }
    match s.position(id) {
        Some(j) => {
            assert(row_holds(s.prizes, id, j));
            assert(after.holds_at(id, j));
            lemma_position_unique(after, id, j);
        },
        None => {
            if exists|j: int| row_holds(after.prizes, id, j) {
                let j = choose|j: int| row_holds(after.prizes, id, j);
                assert(row_holds(s.prizes, id, j));
            }
        },
    }
    if s.prizes[i].id == id {
        lemma_position_unique(s, id, i);
    }
}

/// The conditional decrement keeps the store well formed and takes exactly
/// one unit off the prize when it returns a count, which it does exactly
/// when the prize had stock; no other prize changes.
pub proof fn lemma_decrement_stock(s: StoreState, id: u128, other: u128)
    requires
        s.wf(),
    ensures
        ({
            let (after, left) = s.decrement_stock(id);
            &&& after.wf()
            &&& left is Some <==> s.remaining(id) > 0
            &&& left matches Some(count) ==> count == s.remaining(id) - 1
            &&& after.remaining(id) == if left is Some {
                s.remaining(id) - 1
            } else {
                s.remaining(id)
            }
            &&& other != id ==> after.remaining(other) == s.remaining(other)
            &&& after.position(other) == s.position(other)
            &&& after.last_draw == s.last_draw
            &&& after.records == s.records
        }),
{
    match s.position(id) {
        Some(i) => {
            assert(s.holds_at(id, i));
            assert(s.prizes[i].stock_in_range());
            if s.prizes[i].remaining_count > 0 {
                let left = (s.prizes[i].remaining_count - 1) as i64;
                lemma_with_remaining_at(s, i, left, id);
                lemma_with_remaining_at(s, i, left, other);
            }
        },
        None => {},
    }
}

/// An enabled prize is among the enabled identifiers.
pub proof fn lemma_enabled_listed(s: StoreState, i: int)
    requires
        0 <= i < s.prizes.len(),
        s.prizes[i].is_enabled,
    ensures
        s.enabled_ids().contains(s.prizes[i].id),
{
    let kept = s.prizes.filter(enabled());
    s.prizes.lemma_filter_contains(enabled(), i);
    let k = choose|k: int| 0 <= k < kept.len() && kept[k] == s.prizes[i];
    assert(s.enabled_ids()[k] == s.prizes[i].id);
}

/// Filtering and mapping one more element of a sequence either appends the
/// element's image or changes nothing.
pub proof fn lemma_filter_map_step<A, B>(
    s: Seq<A>,
    i: int,
    pred: spec_fn(A) -> bool,
    f: spec_fn(A) -> B,
)
    requires
        0 <= i < s.len(),
    ensures
        s.take(i + 1).filter(pred).map_values(f) == if pred(s[i]) {
            s.take(i).filter(pred).map_values(f).push(f(s[i]))
        } else {
            s.take(i).filter(pred).map_values(f)
        },
{
    reveal(Seq::filter);
    assert(s.take(i + 1).drop_last() =~= s.take(i));
    assert(s.take(i + 1).last() == s[i]);
    if pred(s[i]) {
        assert(s.take(i + 1).filter(pred) == s.take(i).filter(pred).push(s[i]));
        assert(s.take(i).filter(pred).push(s[i]).map_values(f) =~= s.take(i).filter(
            pred,
        ).map_values(f).push(f(s[i])));
    }
}

/// An in-memory durable store.
pub struct Store {
    prizes: Vec<Prize>,
    last_draw: HashMap<u128, i64>,
    records: Vec<LotteryRecord>,
}

impl View for Store {
    type V = StoreState;

    closed spec fn view(&self) -> StoreState {
        StoreState { prizes: self.prizes@, last_draw: self.last_draw@, records: self.records@ }
    }
}

impl Store {
    #[verifier::type_invariant]
    spec fn inv(&self) -> bool {
        self@.wf()
    }

    /// A store with no row.
    pub fn new() -> (store: Store)
        ensures
            store@ == StoreState::empty(),
            store@.wf(),
    {
        Store { prizes: Vec::new(), last_draw: HashMap::new(), records: Vec::new() }
    }

    /// The row that holds a prize.
    fn find(&self, id: u128) -> (found: Option<usize>)
        ensures
            self@.wf(),
            found.is_some() == self@.position(id).is_some(),
            found matches Some(i) ==> self@.position(id) == Some(i as int) && self@.holds_at(
                id,
                i as int,
            ),
    {
        proof {
            use_type_invariant(self);
        }
        let mut i: usize = 0;
        while i < self.prizes.len()
            invariant
                i <= self.prizes.len(),
                self@.wf(),
                forall|j: int| 0 <= j < i ==> !row_holds(self@.prizes, id, j),
            decreases self.prizes.len() - i,
        {
            if self.prizes[i].id == id {
                proof {
                    lemma_position_unique(self@, id, i as int);
                }
                return Some(i);
            }
            i = i + 1;
        }
        None
    }

    /// The remaining count of a prize; zero for a prize the store lacks.
    pub fn remaining(&self, id: u128) -> (remaining: i64)
        ensures
            remaining == self@.remaining(id),
            self@.wf(),
    {
        match self.find(id) {
            Some(i) => self.prizes[i].remaining_count,
            None => 0,
        }
    }

    /// Replaces the remaining count of one row.
    fn set_remaining(&mut self, i: usize, remaining: i64)
        requires
            i < old(self)@.prizes.len(),
            0 <= remaining <= old(self)@.prizes[i as int].total_count,
        ensures
            final(self)@ == old(self)@.with_remaining_at(i as int, remaining),
            final(self)@.wf(),
    {
        proof {
            use_type_invariant(&*self);
        }
        // the row is changed outside the store, which is put back whole
        let mut taken = Store::new();
        std::mem::swap(self, &mut taken);
        assert(taken@.wf());
        let Store { prizes: mut rows, last_draw, records } = taken;
        assert(rows@ == old(self)@.prizes);
        rows[i].remaining_count = remaining;
        assert(rows@ =~= old(self)@.prizes.update(
            i as int,
            old(self)@.prizes[i as int].with_remaining(remaining),
        ));
        *self = Store { prizes: rows, last_draw, records };
    }

    /// The prize rows, in the order in which they are read.
    pub fn prizes(&self) -> (rows: &Vec<Prize>)
        ensures
            rows@ == self@.prizes,
            self@.wf(),
    {
        proof {
            use_type_invariant(self);
        }
        &self.prizes
    }

    /// The draw records, oldest first.
    pub fn records(&self) -> (records: &Vec<LotteryRecord>)
        ensures
            records@ == self@.records,
    {
        &self.records
    }

    /// The instant of a user's last draw, if the user ever drew.
    pub fn last_draw_at(&self, user: u128) -> (last: Option<i64>)
        ensures
            last == self@.last_draw_at(user),
    {
        match self.last_draw.get(&user) {
            Some(at) => Some(*at),
            None => None,
        }
    }

    /// The enabled prizes, in row order, as the cache keeps them.
    pub fn enabled_lite(&self) -> (list: Vec<PrizeLite>)
        ensures
            list@ == self@.enabled_lite(),
    {
        let mut list: Vec<PrizeLite> = Vec::new();
        let mut i: usize = 0;
        while i < self.prizes.len()
            invariant
                i <= self.prizes.len(),
                list@ == self@.prizes.take(i as int).filter(enabled()).map_values(
                    |p: Prize| lite_of(p),
                ),
            decreases self.prizes.len() - i,
        {
            proof {
                lemma_filter_map_step(self@.prizes, i as int, enabled(), |p: Prize| lite_of(p));
            }
            let row = &self.prizes[i];
            if row.is_enabled {
                list.push(
                    PrizeLite { id: row.id, name: row.name.clone(), probability: row.probability },
                );
            }
            i = i + 1;
        }
        assert(self@.prizes.take(self.prizes.len() as int) =~= self@.prizes);
        list
    }

    /// The identifiers of the enabled prizes, in row order.
    pub fn enabled_ids(&self) -> (ids: Vec<u128>)
        ensures
            ids@ == self@.enabled_ids(),
    {
        let mut ids: Vec<u128> = Vec::new();
        let mut i: usize = 0;
        while i < self.prizes.len()
            invariant
                i <= self.prizes.len(),
                ids@ == self@.prizes.take(i as int).filter(enabled()).map_values(|p: Prize| p.id),
            decreases self.prizes.len() - i,
        {
            proof {
                lemma_filter_map_step(self@.prizes, i as int, enabled(), |p: Prize| p.id);
            }
            let row = &self.prizes[i];
            if row.is_enabled {
                ids.push(row.id);
            }
            i = i + 1;
        }
        assert(self@.prizes.take(self.prizes.len() as int) =~= self@.prizes);
        ids
    }

    /// The enabled prizes that have stock, in row order.
    pub fn list_enabled_prizes(&self) -> (list: Vec<EnabledPrize>)
        ensures
            list@ == self@.enabled_in_stock(),
    {
        let mut list: Vec<EnabledPrize> = Vec::new();
        let mut i: usize = 0;
        while i < self.prizes.len()
            invariant
                i <= self.prizes.len(),
                list@ == self@.prizes.take(i as int).filter(eligible()).map_values(
                    |p: Prize| enabled_of(p),
                ),
            decreases self.prizes.len() - i,
        {
            proof {
                lemma_filter_map_step(
                    self@.prizes,
                    i as int,
                    eligible(),
                    |p: Prize| enabled_of(p),
                );
            }
            let row = &self.prizes[i];
            if row.is_enabled && row.remaining_count > 0 {
                list.push(
                    EnabledPrize {
                        id: row.id,
                        name: row.name.clone(),
                        remaining_count: row.remaining_count,
                        probability: row.probability,
                    },
                );
            }
            i = i + 1;
        }
        assert(self@.prizes.take(self.prizes.len() as int) =~= self@.prizes);
        list
    }

    /// Stores a new prize with its whole stock remaining. A prize whose
    /// identifier the store already has, or with a negative stock, is
    /// refused, and the store is left as it was.
    pub fn create_prize(
        &mut self,
        id: u128,
        activity_id: u128,
        name: String,
        description: Option<String>,
        total_count: i64,
        probability: i32,
        is_enabled: bool,
    ) -> (created: Result<(), AppError>)
        ensures
            final(self)@.wf(),
            old(self)@.accepts(id, total_count) ==> created is Ok && final(self)@ == old(
                self,
            )@.with_prize(
                Prize {
                    id,
                    activity_id,
                    name,
                    description,
                    total_count,
                    remaining_count: total_count,
                    probability,
                    is_enabled,
                },
            ),
            !old(self)@.accepts(id, total_count) ==> created == Err::<(), AppError>(
                AppError::database(),
            ) && final(self)@ == old(self)@,
            created is Ok ==> final(self)@.remaining(id) == total_count,
            forall|other: u128|
                other != id ==> #[trigger] final(self)@.remaining(other) == old(self)@.remaining(
                    other,
                ),
    {
        proof {
            use_type_invariant(&*self);
        }
        if total_count < 0 || self.find(id).is_some() {
            return Err(database_error());
        }
        let prize = Prize {
            id,
            activity_id,
            name,
            description,
            total_count,
            remaining_count: total_count,
            probability,
            is_enabled,
        };
        let mut taken = Store::new();
        std::mem::swap(self, &mut taken);
        assert(taken@.wf());
        let Store { prizes: mut rows, last_draw, records } = taken;
        assert(rows@ == old(self)@.prizes);
        rows.push(prize);
        assert forall|i: int, j: int| 0 <= i < j < rows@.len() implies (#[trigger] rows@[i]).id != (
        #[trigger] rows@[j]).id by {
            if j == rows@.len() - 1 {
                assert(!old(self)@.holds_at(id, i));
            }
        }
        *self = Store { prizes: rows, last_draw, records };
        proof {
            let before = old(self)@;
            let after = before.with_prize(prize);
            assert(after.holds_at(id, before.prizes.len() as int));
            lemma_position_unique(after, id, before.prizes.len() as int);
            assert forall|other: u128| other != id implies #[trigger] after.remaining(other)
                == before.remaining(other) by {
                match before.position(other) {
                    Some(i) => {
                        assert(row_holds(before.prizes, other, i));
                        assert(after.holds_at(other, i));
                        lemma_position_unique(after, other, i);
                    },
                    None => {
                        if exists|j: int| row_holds(after.prizes, other, j) {
                            let j = choose|j: int| row_holds(after.prizes, other, j);
                            assert(row_holds(before.prizes, other, j));
                        }
                    },
                }
            }
        }
        Ok(())
    }

    /// Writes a draw down: appends the record and sets the user's last draw
    /// to the record's instant.
    pub fn record_draw(&mut self, record: LotteryRecord)
        ensures
            final(self)@ == old(self)@.recorded(record),
            final(self)@.wf(),
    {
        proof {
            use_type_invariant(&*self);
        }
        let mut taken = Store::new();
        std::mem::swap(self, &mut taken);
        assert(taken@.wf());
        let Store { prizes, last_draw: mut last, records: mut log } = taken;
        assert(prizes@ == old(self)@.prizes);
        last.insert(record.user_id, record.created_at);
        log.push(record);
        *self = Store { prizes, last_draw: last, records: log };
    }

    /// Conditional decrement: takes one unit off a prize that has stock and
    /// returns the new count; returns `None`, and changes nothing, for a
    /// prize without stock or one the store lacks.
    pub fn decrement_stock(&mut self, prize_id: u128) -> (left: Option<i64>)
        ensures
            (final(self)@, left) == old(self)@.decrement_stock(prize_id),
            final(self)@.wf(),
            left is Some <==> old(self)@.remaining(prize_id) > 0,
            left matches Some(count) ==> count == old(self)@.remaining(prize_id) - 1,
            final(self)@.remaining(prize_id) == if left is Some {
                old(self)@.remaining(prize_id) - 1
            } else {
                old(self)@.remaining(prize_id)
            },
            forall|other: u128|
                other != prize_id ==> #[trigger] final(self)@.remaining(other) == old(
                    self,
                )@.remaining(other),
    {
        proof {
            use_type_invariant(&*self);
            let after = old(self)@.decrement_stock(prize_id).0;
            assert forall|other: u128| other != prize_id implies #[trigger] after.remaining(other)
                == old(self)@.remaining(other) by {
                lemma_decrement_stock(old(self)@, prize_id, other);
            }
            lemma_decrement_stock(old(self)@, prize_id, prize_id);
        }
        match self.find(prize_id) {
            Some(i) => {
                let remaining = self.prizes[i].remaining_count;
                if remaining > 0 {
                    self.set_remaining(i, remaining - 1);
                    Some(remaining - 1)
                } else {
                    None
                }
            },
            None => None,
        }
    }

    /// Reconciliation of one prize: takes `delta` sold units off its stock,
    /// which never falls below zero. A delta that is not positive changes nothing.
    pub fn apply_sold(&mut self, prize_id: u128, delta: i64)
        ensures
            final(self)@ == old(self)@.apply_sold(prize_id, delta),
            final(self)@.wf(),
    {
        proof {
            use_type_invariant(&*self);
        }
        if delta <= 0 {
            return ;
        }
        match self.find(prize_id) {
            Some(i) => {
                let remaining = self.prizes[i].remaining_count;
                let left: i64 = if remaining > delta {
                    remaining - delta
                } else {
                    0
                };
                self.set_remaining(i, left);
            },
            None => {},
        }
    }
}

} // verus!
