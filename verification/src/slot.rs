//! An atomically swappable holder of at most one heap value.
//!
//! The slot has two reserved sentinel states — "null" (no value) and
//! "invalid" (a placeholder marking a value that exists but is not yet
//! linked into a structure) — distinct from holding a value. Every mutation
//! is a single exchange that hands the previously held value, if any, to
//! exactly one caller, who thereby becomes its exclusive owner.

use vstd::prelude::*;

verus! {

/// Abstract state of an [`AtomicBox`]: no value, the reserved placeholder,
/// or a held value.
pub enum BoxState<T> {
    Null,
    Invalid,
    Held(T),
}

/// What a momentary probe of a slot reports: which of the three states it
/// was in, with no ownership transferred.
#[derive(Clone, Copy, PartialEq, Eq, Structural, Debug)]
pub enum SlotProbe {
    Null,
    Invalid,
    Value,
}

enum Content<T> {
    Null,
    Invalid,
    Value(Box<T>),
}

/// A swappable holder of at most one heap value, created in one of the two
/// sentinel states and mutated only by exchange.
pub struct AtomicBox<T> {
    inner: Content<T>,
}

impl<T> View for AtomicBox<T> {
    type V = BoxState<T>;

    closed spec fn view(&self) -> BoxState<T> {
        match self.inner {
            Content::Null => BoxState::Null,
            Content::Invalid => BoxState::Invalid,
            Content::Value(b) => BoxState::Held(*b),
        }
    }
}

/// Whether an exchange performed on a slot in state `s` hands a previous
/// value back: exactly on the held state, never on a sentinel.
pub open spec fn exchange_yields_value<T>(s: BoxState<T>) -> bool {
    s is Held
}

impl<T> AtomicBox<T> {
    /// A slot in the "no value" state.
    pub fn null() -> (r: Self)
        ensures
            r@ == BoxState::<T>::Null,
    {
        AtomicBox { inner: Content::Null }
    }

    /// A slot in the reserved placeholder state.
    pub fn invalid() -> (r: Self)
        ensures
            r@ == BoxState::<T>::Invalid,
    {
        AtomicBox { inner: Content::Invalid }
    }

    /// Probes the current state without transferring ownership.
    pub fn load(&self) -> (r: SlotProbe)
        ensures
            r == (match self@ {
                BoxState::Null => SlotProbe::Null,
                BoxState::Invalid => SlotProbe::Invalid,
                BoxState::Held(_) => SlotProbe::Value,
            }),
    {
        match &self.inner {
            Content::Null => SlotProbe::Null,
            Content::Invalid => SlotProbe::Invalid,
            Content::Value(_) => SlotProbe::Value,
        }
    }

    /// True exactly in the "no value" state.
    pub fn is_null(&self) -> (r: bool)
        ensures
            r == (self@ is Null),
    {
        matches!(self.load(), SlotProbe::Null)
    }

    /// True exactly in the placeholder state.
    pub fn is_invalid(&self) -> (r: bool)
        ensures
            r == (self@ is Invalid),
    {
        matches!(self.load(), SlotProbe::Invalid)
    }

    /// Stores a new value and returns the previously held one, if there was
    /// one: the single exchange through which every mutation goes. The
    /// returned value is owned exclusively by the caller.
    pub fn swap(&mut self, new: Box<T>) -> (r: Option<Box<T>>)
        ensures
            final(self)@ == BoxState::Held(*new),
            r is Some <==> exchange_yields_value(old(self)@),
            (match old(self)@ {
                BoxState::Held(v) => r matches Some(b) && *b == v,
                _ => r is None,
            }),
    {
        self.inner_swap(Content::Value(new))
    }

    /// Removes and returns the held value, if any, leaving the slot in the
    /// "no value" state.
    pub fn take(&mut self) -> (r: Option<Box<T>>)
        ensures
            final(self)@ == BoxState::<T>::Null,
            r is Some <==> exchange_yields_value(old(self)@),
            (match old(self)@ {
                BoxState::Held(v) => r matches Some(b) && *b == v,
                _ => r is None,
            }),
    {
        self.inner_swap(Content::Null)
    }

    fn inner_swap(&mut self, new: Content<T>) -> (r: Option<Box<T>>)
        ensures
            final(self)@ == (match new {
                Content::Null => BoxState::<T>::Null,
                Content::Invalid => BoxState::<T>::Invalid,
                Content::Value(b) => BoxState::Held(*b),
            }),
            (match old(self)@ {
                BoxState::Held(v) => r matches Some(b) && *b == v,
                _ => r is None,
            }),
    {
        let mut tmp = new;
        core::mem::swap(&mut self.inner, &mut tmp);
        match tmp {
            Content::Value(b) => Some(b),
            _ => None,
        }
    }
}

impl<T> Default for AtomicBox<T> {
    /// The default slot holds no value.
    fn default() -> (r: Self)
        ensures
            r@ == BoxState::<T>::Null,
    {
        AtomicBox::<T>::null()
    }
}

/// The results of a run of exchanges that store `vs[0], vs[1], ...` in
/// order into one slot starting in state `init`: `true` where the exchange
/// handed a previous value back.
pub open spec fn exchange_results<T>(init: BoxState<T>, vs: Seq<T>) -> Seq<bool>
    decreases vs.len(),
{
    if vs.len() == 0 {
        Seq::empty()
    } else {
        seq![exchange_yields_value(init)] + exchange_results(BoxState::Held(vs[0]), vs.drop_first())
    }
}

/// How many exchanges of a run handed a previous value back.
pub open spec fn count_yields(bs: Seq<bool>) -> nat
    decreases bs.len(),
{
    if bs.len() == 0 {
        0
    } else {
        (if bs[0] {
            1nat
        } else {
            0nat
        }) + count_yields(bs.drop_first())
    }
}

proof fn lemma_count_all_true(bs: Seq<bool>)
    requires
        forall|i: int| 0 <= i < bs.len() ==> bs[i] == true,
    ensures
        count_yields(bs) == bs.len(),
    decreases bs.len(),
{
    if bs.len() > 0 {
        assert(forall|i: int|
            0 <= i < bs.drop_first().len() ==> bs.drop_first()[i] == bs[i + 1]);
        lemma_count_all_true(bs.drop_first());
    }
}

proof fn lemma_exchange_on_held_all_yield<T>(v: T, vs: Seq<T>)
    ensures
        exchange_results(BoxState::Held(v), vs).len() == vs.len(),
        forall|i: int|
            0 <= i < vs.len() ==> exchange_results(BoxState::Held(v), vs)[i] == true,
    decreases vs.len(),
{
    if vs.len() > 0 {
        lemma_exchange_on_held_all_yield(vs[0], vs.drop_first());
    }
}

/// Exactly-once ownership transfer: in any run of `n >= 1` exchanges on a
/// slot that starts with no value, the first exchange hands no previous
/// value back and every later one hands one back — so over the whole run
/// `n - 1` exchanges return a value and exactly one returns none.
pub proof fn lemma_exchange_exactly_once<T>(vs: Seq<T>)
    requires
        vs.len() >= 1,
    ensures
        exchange_results(BoxState::<T>::Null, vs).len() == vs.len(),
        exchange_results(BoxState::<T>::Null, vs)[0] == false,
        forall|i: int|
            1 <= i < vs.len() ==> exchange_results(BoxState::<T>::Null, vs)[i] == true,
        count_yields(exchange_results(BoxState::<T>::Null, vs)) == vs.len() - 1,
{
    lemma_exchange_on_held_all_yield(vs[0], vs.drop_first());
    let rs = exchange_results(BoxState::<T>::Null, vs);
    assert(rs.drop_first() == exchange_results(BoxState::Held(vs[0]), vs.drop_first()));
    lemma_count_all_true(rs.drop_first());
}

} // verus!
