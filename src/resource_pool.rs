use std::marker::PhantomData;
use vstd::prelude::*;

verus! {

/// Category marker for hit points.
pub struct Health;

/// Category marker for fire-breath charge.
pub struct Fire;

/// The value after adding `n` to `amount`, saturating at `max`.
pub open spec fn added(amount: int, max: int, n: int) -> int {
    if amount + n > max {
        max
    } else {
        amount + n
    }
}

/// The value after taking `n` from `amount`, saturating at zero.
pub open spec fn subtracted(amount: int, n: int) -> int {
    if amount - n < 0 {
        0
    } else {
        amount - n
    }
}

/// A bounded integer reservoir of one category. Its maximum is the amount it
/// was created with; the pool never grows past it.
pub struct ResourcePool<K> {
    amount: u16,
    max: u16,
    kind: PhantomData<K>,
}

impl<K> ResourcePool<K> {
    /// The current amount.
    pub closed spec fn amount_spec(&self) -> int {
        self.amount as int
    }

    /// The maximum, fixed at construction.
    pub closed spec fn max_spec(&self) -> int {
        self.max as int
    }

    pub closed spec fn wf(&self) -> bool {
        self.amount <= self.max
    }

    pub proof fn lemma_bounds(&self)
        ensures
            self.wf() ==> 0 <= self.amount_spec() <= self.max_spec(),
            self.max_spec() <= u16::MAX,
            0 <= self.amount_spec(),
    {
    }

    /// A full pool holding `initial`.
    pub fn new(initial: u16) -> (r: Self)
        ensures
            r.wf(),
            r.amount_spec() == initial,
            r.max_spec() == initial,
    {
        ResourcePool { amount: initial, max: initial, kind: PhantomData }
    }

    pub fn amount(&self) -> (r: u16)
        ensures
            r == self.amount_spec(),
    {
        self.amount
    }

    pub fn max(&self) -> (r: u16)
        ensures
            r == self.max_spec(),
    {
        self.max
    }

    /// Adds `n`, saturating at the maximum.
    pub fn add(&mut self, n: u16)
        requires
            old(self).wf(),
        ensures
            final(self).wf(),
            final(self).max_spec() == old(self).max_spec(),
            final(self).amount_spec() == added(old(self).amount_spec(), old(self).max_spec(), n as int),
    {
        if n >= self.max - self.amount {
            self.amount = self.max;
        } else {
            self.amount = self.amount + n;
        }
    }

    /// Takes `n` away, saturating at zero.
    pub fn subtract(&mut self, n: u16)
        requires
            old(self).wf(),
        ensures
            final(self).wf(),
            final(self).max_spec() == old(self).max_spec(),
            final(self).amount_spec() == subtracted(old(self).amount_spec(), n as int),
    {
        if n >= self.amount {
            self.amount = 0;
        } else {
            self.amount = self.amount - n;
        }
    }

    /// Whether nothing is left.
    pub fn is_empty(&self) -> (r: bool)
        ensures
            r == (self.amount_spec() == 0),
    {
        self.amount == 0
    }
}

/// One operation on a pool.
pub enum PoolOp {
    Add(u16),
    Subtract(u16),
}

/// The amount after `ops` are applied in order, starting from `amount`.
pub open spec fn amount_after(amount: int, max: int, ops: Seq<PoolOp>) -> int
    decreases ops.len(),
{
    if ops.len() == 0 {
        amount
    } else {
        let next = match ops[0] {
            PoolOp::Add(n) => added(amount, max, n as int),
            PoolOp::Subtract(n) => subtracted(amount, n as int),
        };
        amount_after(next, max, ops.drop_first())
    }
}

/// Whatever sequence of additions and subtractions is applied to a pool, its
/// amount stays between zero and the maximum it was created with.
pub proof fn lemma_amount_stays_bounded<K>(pool: &ResourcePool<K>, ops: Seq<PoolOp>)
    requires
        pool.wf(),
    ensures
        0 <= amount_after(pool.amount_spec(), pool.max_spec(), ops) <= pool.max_spec(),
{
    pool.lemma_bounds();
    lemma_bounded_from(pool.amount_spec(), pool.max_spec(), ops);
}

proof fn lemma_bounded_from(amount: int, max: int, ops: Seq<PoolOp>)
    requires
        0 <= amount <= max,
    ensures
        0 <= amount_after(amount, max, ops) <= max,
    decreases ops.len(),
{
    if ops.len() > 0 {
        let next = match ops[0] {
            PoolOp::Add(n) => added(amount, max, n as int),
            PoolOp::Subtract(n) => subtracted(amount, n as int),
        };
        lemma_bounded_from(next, max, ops.drop_first());
    }
}

} // verus!
