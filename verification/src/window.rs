//! The window of recent tick intervals from which a wheel's speed is
//! estimated: a ring of eight slots of which the first `capacity` are used.
use vstd::arithmetic::div_mod::{
    lemma_add_mod_noop, lemma_fundamental_div_mod, lemma_mod_adds, lemma_mod_bound,
    lemma_mod_multiples_basic,
};
use vstd::prelude::*;

verus! {

/// Number of slots of a window; a window uses at most this many.
pub const WINDOW_SLOTS: usize = 8;

/// The window as `(slots, count, cursor)`: the slot contents, how many of
/// the first slots hold samples, and the slot that the next sample fills.
pub type WindowView<T> = (Seq<T>, int, int);

/// The smaller of two integers.
pub open spec fn min_int(a: int, b: int) -> int {
    if a <= b {
        a
    } else {
        b
    }
}

/// The window after a sample is added while `capacity` slots are in use.
pub open spec fn pushed<T>(w: WindowView<T>, value: T, capacity: int) -> WindowView<T> {
    (w.0.update(w.2, value), min_int(w.1 + 1, capacity), (w.2 + 1) % capacity)
}

/// Whether adding a sample while `capacity` slots are in use stays within
/// the slots.
pub open spec fn push_fits<T>(w: WindowView<T>, capacity: int) -> bool {
    &&& 1 <= capacity
    &&& 0 <= w.2 < WINDOW_SLOTS
    &&& min_int(w.1 + 1, capacity) <= WINDOW_SLOTS
}

/// Whether the window holds the most recent of `values`, added in order
/// with a fixed `capacity`: the first `min(n, capacity)` slots are in use,
/// the next sample goes to slot `n % capacity`, and each slot in use holds
/// the latest sample that was added to it.
pub open spec fn holds_recent<T>(w: WindowView<T>, values: Seq<T>, capacity: int) -> bool {
    let n = values.len() as int;
    &&& w.0.len() == WINDOW_SLOTS
    &&& w.1 == min_int(n, capacity)
    &&& w.2 == n % capacity
    &&& forall|i: int| 0 <= i < w.1 ==> #[trigger] w.0[i] == values[n - 1 - ((n - 1 - i) % capacity)]
}

/// Whether a window has its slots and counts no more of them than it has.
pub open spec fn window_ok<T>(w: WindowView<T>) -> bool {
    &&& w.0.len() == WINDOW_SLOTS
    &&& 0 <= w.1 <= WINDOW_SLOTS
    &&& 0 <= w.2
}

/// An emptied window with every slot set to `fill`.
pub open spec fn emptied<T>(fill: T) -> WindowView<T> {
    (Seq::new(WINDOW_SLOTS as nat, |i: int| fill), 0, 0)
}

/// One modulo a positive capacity.
proof fn one_mod(capacity: int)
    requires
        1 <= capacity,
    ensures
        1int % capacity == if capacity == 1 {
            0int
        } else {
            1int
        },
{
    if capacity == 1 {
        vstd::arithmetic::div_mod::lemma_mod_self_0(1);
    } else {
        vstd::arithmetic::div_mod::lemma_small_mod(1, capacity as nat);
    }
}

/// An emptied window holds the most recent of no samples.
pub proof fn lemma_emptied_holds_recent<T>(fill: T, capacity: int)
    requires
        1 <= capacity <= WINDOW_SLOTS,
    ensures
        holds_recent(emptied(fill), Seq::<T>::empty(), capacity),
{
    lemma_mod_multiples_basic(0, capacity);
}

/// Adding samples with a fixed capacity keeps the most recent ones: after
/// each addition, the slots in use hold exactly the latest samples, each in
/// the slot it was added to; older samples are overwritten in turn.
pub proof fn lemma_push_keeps_recent<T>(w: WindowView<T>, values: Seq<T>, value: T, capacity: int)
    requires
        1 <= capacity <= WINDOW_SLOTS,
        holds_recent(w, values, capacity),
    ensures
        holds_recent(pushed(w, value, capacity), values.push(value), capacity),
{
    let n = values.len() as int;
    let next = pushed(w, value, capacity);
    let all = values.push(value);
    lemma_mod_bound(n, capacity);
    lemma_add_mod_noop(n, 1, capacity);
    lemma_mod_multiples_basic(1, capacity);
    if n < capacity {
        vstd::arithmetic::div_mod::lemma_small_mod(n as nat, capacity as nat);
    }
    assert((n % capacity + 1) % capacity == (n + 1) % capacity) by {
        one_mod(capacity);
        if capacity == 1 {
            assert(n % capacity == 0) by {
                lemma_fundamental_div_mod(n, 1);
            }
            lemma_mod_multiples_basic(n + 1, 1);
        }
    }
    assert forall|i: int| 0 <= i < next.1 implies #[trigger] next.0[i] == all[(n + 1) - 1 - (((n
        + 1) - 1 - i) % capacity)] by {
        lemma_mod_bound(n - i, capacity);
        if i == n % capacity {
            lemma_fundamental_div_mod(n, capacity);
            assert(n - i == capacity * (n / capacity));
            lemma_mod_multiples_basic(n / capacity, capacity);
            assert((n - i) % capacity == 0) by {
                assert(n - i == (n / capacity) * capacity);
            }
            assert((n + 1) - 1 - i == n - i);
            assert(next.0[i] == value);
            assert(all[n] == value);
        } else {
            assert(i < w.1);
            assert(0 <= n - 1 - i);
            lemma_mod_bound(n - 1 - i, capacity);
            lemma_mod_adds(n - 1 - i, 1, capacity);
            assert((n - 1 - i) % capacity != capacity - 1) by {
                if (n - 1 - i) % capacity == capacity - 1 {
                    lemma_fundamental_div_mod(n - 1 - i, capacity);
                    lemma_fundamental_div_mod(n, capacity);
                    let q = (n - 1 - i) / capacity;
                    assert(n - i == capacity * (q + 1)) by (nonlinear_arith)
                        requires
                            n - 1 - i == capacity * q + capacity - 1,
                    ;
                    assert(n == capacity * (q + 1) + i);
                    assert(0 <= i < capacity);
                    vstd::arithmetic::div_mod::lemma_fundamental_div_mod_converse(
                        n,
                        capacity,
                        q + 1,
                        i,
                    );
                }
            }
            if capacity == 1 {
                assert(false);
            }
            one_mod(capacity);
            assert((n - i) % capacity == (n - 1 - i) % capacity + 1);
            assert((n + 1) - 1 - i == n - i);
            let k = n - 1 - ((n - 1 - i) % capacity);
            vstd::arithmetic::div_mod::lemma_mod_decreases((n - 1 - i) as nat, capacity as nat);
            assert(0 <= k < n);
            assert(next.0[i] == w.0[i]);
            assert(w.0[i] == values[k]);
            assert(all[k] == values[k]);
        }
    }
}

/// A window of recent samples.
#[derive(Debug, Clone)]
pub struct TickWindow<T> {
    slots: Vec<T>,
    count: usize,
    cursor: usize,
}

impl<T> View for TickWindow<T> {
    type V = WindowView<T>;

    closed spec fn view(&self) -> WindowView<T> {
        (self.slots@, self.count as int, self.cursor as int)
    }
}

impl<T: Copy> TickWindow<T> {
    fn filled(fill: T) -> (slots: Vec<T>)
        ensures
            slots@ == emptied(fill).0,
    {
        let mut slots: Vec<T> = Vec::new();
        let mut i: usize = 0;
        while i < WINDOW_SLOTS
            invariant
                i <= WINDOW_SLOTS,
                slots@ == Seq::new(i as nat, |k: int| fill),
            decreases WINDOW_SLOTS - i,
        {
            slots.push(fill);
            i = i + 1;
            assert(slots@ =~= Seq::new(i as nat, |k: int| fill));
        }
        slots
    }

    /// An empty window whose slots hold `fill`.
    pub fn new(fill: T) -> (w: Self)
        ensures
            w@ == emptied(fill),
            window_ok(w@),
    {
        TickWindow { slots: Self::filled(fill), count: 0, cursor: 0 }
    }

    /// Empties the window, setting every slot to `fill`.
    pub fn reset(&mut self, fill: T)
        ensures
            final(self)@ == emptied(fill),
            window_ok(final(self)@),
    {
        *self = Self::new(fill);
    }

    /// Whether a sample can be added while `capacity` slots are in use.
    pub fn can_push(&self, capacity: usize) -> (b: bool)
        requires
            window_ok(self@),
        ensures
            b == push_fits(self@, capacity as int),
    {
        let next_count = if self.count + 1 <= capacity {
            self.count + 1
        } else {
            capacity
        };
        1 <= capacity && self.cursor < WINDOW_SLOTS && next_count <= WINDOW_SLOTS
    }

    /// Adds a sample while `capacity` slots are in use: it fills the cursor's
    /// slot, the cursor moves on cyclically, and one more slot is counted up
    /// to `capacity`.
    pub fn push(&mut self, value: T, capacity: usize)
        requires
            window_ok(old(self)@),
            push_fits(old(self)@, capacity as int),
        ensures
            final(self)@ == pushed(old(self)@, value, capacity as int),
            window_ok(final(self)@),
    {
        self.slots[self.cursor] = value;
        self.cursor = (self.cursor + 1) % capacity;
        self.count = if self.count + 1 <= capacity {
            self.count + 1
        } else {
            capacity
        };
    }

    /// The samples in use: the first `count` slots.
    pub fn recent(&self) -> (samples: Vec<T>)
        requires
            window_ok(self@),
        ensures
            samples@ == self@.0.subrange(0, self@.1),
    {
        let mut samples: Vec<T> = Vec::new();
        let mut i: usize = 0;
        while i < self.count
            invariant
                self.count <= self.slots@.len(),
                i <= self.count,
                samples@ == self.slots@.subrange(0, i as int),
            decreases self.count - i,
        {
            samples.push(self.slots[i]);
            i = i + 1;
        }
        samples
    }

    /// How many slots hold samples.
    pub fn count(&self) -> (n: usize)
        ensures
            n == self@.1,
    {
        self.count
    }
}

} // verus!
