//! The fast-path ledger: per-user cooldown flags and per-prize stock and
//! sold counters, changed only by operations that are each one indivisible
//! step.

use crate::ids::hyphenated;
use crate::ids::uuid_text;
use std::collections::HashMap;
use vstd::prelude::*;
use vstd::string::*;

verus! {

broadcast use vstd::std_specs::hash::group_hash_axioms;

/// The number of seconds a user waits between two draws.
pub const COOLDOWN_SECS: u32 = 60;

/// The prefix of the key of a user's cooldown flag.
pub const COOLDOWN_PREFIX: &'static str = "lottery:cooldown:";

/// The prefix of the key of a prize's stock counter.
pub const STOCK_PREFIX: &'static str = "lottery:stock:";

/// The prefix of the key of a prize's sold counter.
pub const SOLD_PREFIX: &'static str = "lottery:sold:";

/// What the ledger answers to a request to commit a won prize.
#[derive(Clone, Copy, Debug, PartialEq, Eq, Structural)]
pub enum Commit {
    /// The user's cooldown is still running; nothing changed.
    Denied,
    /// The prize has no stock left; the cooldown was started all the same.
    OutOfStock,
    /// One unit was taken from the stock and the cooldown was started.
    Committed,
}

impl Commit {
    /// The answer that a reported number stands for: zero is a denial, one
    /// is a commit, any other number is an empty stock.
    pub open spec fn of_code(code: i64) -> Commit {
        if code == 0 {
            Commit::Denied
        } else if code == 1 {
            Commit::Committed
        } else {
            Commit::OutOfStock
        }
    }
}

/// The answer that a number reported by a counter store stands for.
pub fn decode_commit(code: i64) -> (commit: Commit)
    ensures
        commit == Commit::of_code(code),
{
    if code == 0 {
        Commit::Denied
    } else if code == 1 {
        Commit::Committed
    } else {
        Commit::OutOfStock
    }
}

/// Whether a number reported for a cooldown-only request means that the
/// cooldown was started: zero is a denial.
pub fn decode_cooldown(code: i64) -> (accepted: bool)
    ensures
        accepted == (code != 0),
{
    code != 0
}

/// The key of a user's cooldown flag.
pub fn cooldown_key(uid: u128) -> (key: String)
    ensures
        key@ == COOLDOWN_PREFIX@ + hyphenated(uid),
{
    String::from_str(COOLDOWN_PREFIX).concat(uuid_text(uid).as_str())
}

/// The key of a prize's stock counter.
pub fn stock_key(prize: u128) -> (key: String)
    ensures
        key@ == STOCK_PREFIX@ + hyphenated(prize),
{
    String::from_str(STOCK_PREFIX).concat(uuid_text(prize).as_str())
}

/// The key of a prize's sold counter.
pub fn sold_key(prize: u128) -> (key: String)
    ensures
        key@ == SOLD_PREFIX@ + hyphenated(prize),
{
    String::from_str(SOLD_PREFIX).concat(uuid_text(prize).as_str())
}

/// The stock to seed for a prize: the durable remaining count less the
/// units sold and not yet reconciled, and never less than zero.
pub open spec fn stock_to_seed(remaining: i64, sold: i64) -> int {
    if remaining - sold > 0 {
        remaining - sold
    } else {
        0
    }
}

/// The stock to seed for a prize.
pub fn seeded_stock(remaining: i64, sold: i64) -> (stock: i64)
    requires
        sold >= 0,
    ensures
        stock == stock_to_seed(remaining, sold),
{
    if remaining > sold {
        remaining - sold
    } else {
        0
    }
}

/// The two counters that the ledger keeps for one prize.
#[derive(Clone, Copy, Debug)]
pub struct Counters {
    /// Units that can still be won.
    pub stock: i64,
    /// Units won since the counter was last taken for reconciliation.
    pub sold: i64,
}

impl Counters {
    /// Neither counter is negative and their sum fits the counter type.
    pub open spec fn wf(self) -> bool {
        &&& 0 <= self.stock
        &&& 0 <= self.sold
        &&& self.stock + self.sold <= i64::MAX
    }
}

/// The ledger as a mathematical value.
pub struct LedgerState {
    /// For each user with a cooldown flag, the instant at which it expires.
    pub cooldown: Map<u128, i128>,
    /// The counters of each prize that was seeded.
    pub counters: Map<u128, Counters>,
}

impl LedgerState {
    /// The ledger with no flag and no counter.
    pub open spec fn empty() -> LedgerState {
        LedgerState { cooldown: Map::empty(), counters: Map::empty() }
    }

    /// Every prize's counters are well formed.
    pub open spec fn wf(self) -> bool {
        forall|prize: u128|
            #![trigger self.counters.contains_key(prize)]
            #![trigger self.counters[prize]]
            self.counters.contains_key(prize) ==> self.counters[prize].wf()
    }

    /// Whether the user's cooldown flag exists at the instant `now`.
    pub open spec fn cooling(self, user: u128, now: i64) -> bool {
        self.cooldown.contains_key(user) && now < self.cooldown[user]
    }

    /// The stock counter of a prize; a missing counter counts as zero.
    pub open spec fn stock(self, prize: u128) -> int {
        if self.counters.contains_key(prize) {
            self.counters[prize].stock as int
        } else {
            0
        }
    }

    /// The sold counter of a prize; a missing counter counts as zero.
    pub open spec fn sold(self, prize: u128) -> int {
        if self.counters.contains_key(prize) {
            self.counters[prize].sold as int
        } else {
            0
        }
    }

    /// The ledger after the user's cooldown flag was set at `now` for `ttl` seconds.
    pub open spec fn throttled(self, user: u128, now: i64, ttl: u32) -> LedgerState {
        LedgerState { cooldown: self.cooldown.insert(user, (now + ttl) as i128), ..self }
    }

    /// The ledger after one unit of the prize moved from stock to sold.
    pub open spec fn decremented(self, prize: u128) -> LedgerState {
        LedgerState {
            counters: self.counters.insert(
                prize,
                Counters {
                    stock: (self.stock(prize) - 1) as i64,
                    sold: (self.sold(prize) + 1) as i64,
                },
            ),
            ..self
        }
    }

    /// Cooldown only: denied while the flag exists, else the flag is set.
    pub open spec fn cooldown_only(self, user: u128, now: i64, ttl: u32) -> (LedgerState, bool) {
        if self.cooling(user, now) {
            (self, false)
        } else {
            (self.throttled(user, now, ttl), true)
        }
    }

    /// Cooldown and decrement: denied while the flag exists; else the flag is
    /// set, and a unit is taken if the stock is positive.
    pub open spec fn cooldown_and_decrement(
        self,
        user: u128,
        prize: u128,
        now: i64,
        ttl: u32,
    ) -> (LedgerState, Commit) {
        if self.cooling(user, now) {
            (self, Commit::Denied)
        } else if self.stock(prize) <= 0 {
            (self.throttled(user, now, ttl), Commit::OutOfStock)
        } else {
            (self.decremented(prize).throttled(user, now, ttl), Commit::Committed)
        }
    }

    /// The ledger after the prize's stock was seeded from a durable remaining
    /// count: the units sold and not yet reconciled are taken off it.
    pub open spec fn seeded(self, prize: u128, remaining: i64) -> LedgerState {
        LedgerState {
            counters: self.counters.insert(
                prize,
                Counters {
                    stock: stock_to_seed(remaining, self.sold(prize) as i64) as i64,
                    sold: self.sold(prize) as i64,
                },
            ),
            ..self
        }
    }

    /// Fetch and reset: the sold counter's value, and the ledger with it at zero.
    pub open spec fn take_sold(self, prize: u128) -> (LedgerState, i64) {
        if self.counters.contains_key(prize) {
            (
                LedgerState {
                    counters: self.counters.insert(
                        prize,
                        Counters { stock: self.counters[prize].stock, sold: 0 },
                    ),
                    ..self
                },
                self.counters[prize].sold,
            )
        } else {
            (self, 0)
        }
    }
}

/// An in-memory ledger. Each method is one indivisible step on its state.
pub struct Ledger {
    cooldown: HashMap<u128, i128>,
    counters: HashMap<u128, Counters>,
}

impl View for Ledger {
    type V = LedgerState;

    closed spec fn view(&self) -> LedgerState {
        LedgerState { cooldown: self.cooldown@, counters: self.counters@ }
    }
}

impl Ledger {
    #[verifier::type_invariant]
    spec fn inv(&self) -> bool {
        self@.wf()
    }

    /// A ledger with no flag and no counter.
    pub fn new() -> (ledger: Ledger)
        ensures
            ledger@ == LedgerState::empty(),
            ledger@.wf(),
    {
        Ledger { cooldown: HashMap::new(), counters: HashMap::new() }
    }

    /// Sets the counters of one prize.
    fn put_counters(&mut self, prize: u128, counters: Counters)
        requires
            counters.wf(),
        ensures
            final(self)@ == (LedgerState {
                counters: old(self)@.counters.insert(prize, counters),
                ..old(self)@
            }),
    {
        proof {
            use_type_invariant(&*self);
        }
        // the table is changed outside the ledger, which is put back whole
        let mut taken = Ledger::new();
        std::mem::swap(self, &mut taken);
        assert(taken@.wf());
        let Ledger { cooldown, counters: mut table } = taken;
        assert(table@ == old(self)@.counters);
        table.insert(prize, counters);
        *self = Ledger { cooldown, counters: table };
    }

    /// Sets the user's cooldown flag at `now` for `ttl` seconds.
    fn put_flag(&mut self, user: u128, now: i64, ttl: u32)
        ensures
            final(self)@ == old(self)@.throttled(user, now, ttl),
    {
        proof {
            use_type_invariant(&*self);
        }
        // the flags are changed outside the ledger, which is put back whole
        let mut taken = Ledger::new();
        std::mem::swap(self, &mut taken);
        assert(taken@.wf());
        let Ledger { cooldown: mut flags, counters } = taken;
        assert(counters@ == old(self)@.counters);
        flags.insert(user, now as i128 + ttl as i128);
        *self = Ledger { cooldown: flags, counters };
    }

    /// Whether the user's cooldown flag exists at `now`.
    pub fn is_cooling(&self, user: u128, now: i64) -> (cooling: bool)
        ensures
            cooling == self@.cooling(user, now),
            self@.wf(),
    {
        proof {
            use_type_invariant(self);
        }
        match self.cooldown.get(&user) {
            Some(expiry) => (now as i128) < *expiry,
            None => false,
        }
    }

    /// The stock counter of a prize; zero where it was never seeded.
    pub fn stock(&self, prize: u128) -> (stock: i64)
        ensures
            stock == self@.stock(prize),
            self@.wf(),
    {
        proof {
            use_type_invariant(self);
        }
        match self.counters.get(&prize) {
            Some(c) => c.stock,
            None => 0,
        }
    }

    /// The sold counter of a prize; zero where nothing was sold.
    pub fn sold(&self, prize: u128) -> (sold: i64)
        ensures
            sold == self@.sold(prize),
            self@.wf(),
    {
        proof {
            use_type_invariant(self);
        }
        match self.counters.get(&prize) {
            Some(c) => c.sold,
            None => 0,
        }
    }

    /// Seeds the prize's stock from the durable remaining count.
    pub fn seed(&mut self, prize: u128, remaining: i64)
        ensures
            final(self)@ == old(self)@.seeded(prize, remaining),
            final(self)@.wf(),
    {
        proof {
            use_type_invariant(&*self);
        }
        let sold = self.sold(prize);
        let stock = seeded_stock(remaining, sold);
        self.put_counters(prize, Counters { stock, sold });
    }

    /// Cooldown only: returns `false` while the user's flag exists, else sets
    /// the flag for `ttl` seconds and returns `true`.
    pub fn cooldown_only(&mut self, user: u128, now: i64, ttl: u32) -> (accepted: bool)
        ensures
            (final(self)@, accepted) == old(self)@.cooldown_only(user, now, ttl),
            final(self)@.wf(),
    {
        if self.is_cooling(user, now) {
            return false;
        }
        self.put_flag(user, now, ttl);
        true
    }

    /// Cooldown and decrement: denies while the user's flag exists; else sets
    /// the flag for `ttl` seconds and, if the prize has stock, moves one unit
    /// from stock to sold.
    pub fn cooldown_and_decrement(&mut self, user: u128, prize: u128, now: i64, ttl: u32) -> (commit:
        Commit)
        ensures
            (final(self)@, commit) == old(self)@.cooldown_and_decrement(user, prize, now, ttl),
            final(self)@.wf(),
    {
        proof {
            use_type_invariant(&*self);
        }
        if self.is_cooling(user, now) {
            return Commit::Denied;
        }
        let stock = self.stock(prize);
        if stock <= 0 {
            self.put_flag(user, now, ttl);
            return Commit::OutOfStock;
        }
        let sold = self.sold(prize);
        self.put_counters(prize, Counters { stock: stock - 1, sold: sold + 1 });
        self.put_flag(user, now, ttl);
        Commit::Committed
    }

    /// Fetch and reset: returns the prize's sold counter and sets it to zero.
    pub fn take_sold(&mut self, prize: u128) -> (delta: i64)
        ensures
            (final(self)@, delta) == old(self)@.take_sold(prize),
            final(self)@.wf(),
            delta >= 0,
    {
        proof {
            use_type_invariant(&*self);
        }
        let found: Option<Counters> = match self.counters.get(&prize) {
            Some(c) => Some(*c),
            None => None,
        };
        match found {
            Some(c) => {
                assert(self@.counters.contains_key(prize) && self@.counters[prize] == c);
                self.put_counters(prize, Counters { stock: c.stock, sold: 0 });
                c.sold
            },
            None => 0,
        }
    }
}

} // verus!
