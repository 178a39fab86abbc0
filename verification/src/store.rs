use vstd::prelude::*;

verus! {

/// The record the store holds after a name is written, whatever it held before.
pub open spec fn written(state: Option<Seq<char>>, name: Seq<char>) -> Option<Seq<char>> {
    Some(name)
}

/// The record the store holds after it is cleared, whatever it held before.
pub open spec fn cleared(state: Option<Seq<char>>) -> Option<Seq<char>> {
    None
}

/// What a read of the store returns: exactly the record it holds.
pub open spec fn read_of(state: Option<Seq<char>>) -> Option<Seq<char>> {
    state
}

/// The single-record store that tracks which configuration is currently
/// active, or that none is.
///
/// The store itself is a passive record with no logic of its own; the
/// activation controller is its only mutator. Persistence to disk is the
/// caller's concern: a caller loads the record once at startup and saves it
/// back after each mutation.
pub struct StateStore {
    current: Option<String>,
}

impl View for StateStore {
    type V = Option<Seq<char>>;

    closed spec fn view(&self) -> Option<Seq<char>> {
        self.current.deep_view()
    }
}

impl StateStore {
    /// A store with no active configuration recorded.
    pub fn new() -> (r: StateStore)
        ensures
            r@ is None,
    {
        StateStore { current: None }
    }

    /// A store holding the given record, as loaded from persistent storage.
    pub fn restore(current: Option<String>) -> (r: StateStore)
        ensures
            r@ == current.deep_view(),
    {
        StateStore { current }
    }

    /// Returns the recorded active configuration name, if any.
    pub fn read(&self) -> (r: Option<String>)
        ensures
            r.deep_view() == read_of(self@),
    {
        match &self.current {
            Some(name) => Some(name.clone()),
            None => None,
        }
    }

    /// Records `name` as the active configuration, replacing any prior record.
    pub fn write(&mut self, name: String)
        ensures
            final(self)@ == written(old(self)@, name@),
    {
        self.current = Some(name);
    }

    /// Removes the record; afterwards no configuration is considered active.
    pub fn clear(&mut self)
        ensures
            final(self)@ == cleared(old(self)@),
    {
        self.current = None;
    }
}

/// Round trip through the store: a write is read back as exactly the written
/// name, and a clear after a write is read back as no record at all.
pub proof fn lemma_store_round_trip(state: Option<Seq<char>>, name: Seq<char>)
    ensures
        read_of(written(state, name)) == Some(name),
        read_of(cleared(written(state, name))) is None,
{
}

} // verus!
