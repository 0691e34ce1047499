use vstd::prelude::*;

verus! {

/// A slot that holds at most the latest value handed to it: a newer value
/// replaces an older one that nobody took yet.
pub struct LastValue<T> {
    val: Vec<T>,
}

impl<T> View for LastValue<T> {
    type V = Option<T>;

    /// The value the slot holds, if any.
    closed spec fn view(&self) -> Option<T> {
        if self.val@.len() == 0 {
            None
        } else {
            Some(self.val@[0])
        }
    }
}

/// What a slot holding `held` holds after `set(value)`.
pub open spec fn after_set<T>(held: Option<T>, value: T) -> Option<T> {
    Some(value)
}

/// What `pop` returns from a slot holding `held`, and what the slot holds
/// afterwards.
pub open spec fn after_pop<T>(held: Option<T>) -> (Option<T>, Option<T>) {
    (held, None)
}

impl<T> LastValue<T> {
    /// A slot never holds more than one value.
    #[verifier::type_invariant]
    spec fn holds_at_most_one(&self) -> bool {
        self.val@.len() <= 1
    }

    /// An empty slot.
    pub fn new() -> (r: Self)
        ensures
            r@ is None,
    {
        Self { val: Vec::with_capacity(1) }
    }

    /// Puts `value` in the slot, replacing whatever it held.
    pub fn set(&mut self, value: T)
        ensures
            final(self)@ == after_set(old(self)@, value),
    {
        let mut fresh: Vec<T> = Vec::with_capacity(1);
        fresh.push(value);
        self.val = fresh;
    }

    /// Takes the value out of the slot, leaving it empty.
    pub fn pop(&mut self) -> (r: Option<T>)
        ensures
            (r, final(self)@) == after_pop(old(self)@),
    {
        proof {
            use_type_invariant(&*self);
        }
        let mut taken: Vec<T> = Vec::new();
        std::mem::swap(&mut taken, &mut self.val);
        taken.pop()
    }
}

/// The slot gives back the latest value put in it, once: whatever it held,
/// after `set(a)` and `set(b)` a `pop` returns `b` (not `a`), and the next
/// `pop` returns nothing.
pub proof fn law_last_value_wins<T>(held: Option<T>, a: T, b: T)
    ensures
        after_pop(after_set(after_set(held, a), b)).0 == Some(b),
        after_pop(after_pop(after_set(after_set(held, a), b)).1).0 is None,
{
}

} // verus!
