//! A value shared by the firmware's main loop and its interrupt handlers,
//! handed out to one user at a time.
use vstd::prelude::*;

verus! {

/// Where the shared value is.
pub enum GlobalState<T> {
    /// Nothing installed yet.
    Uninitialized,
    /// Handed out; not back yet.
    Acquired,
    /// Installed and free to be handed out.
    Released(T),
}

/// A value that is installed once and then lent out, one user at a time.
pub struct Global<T> {
    inner: GlobalState<T>,
}

impl<T> Global<T> {
    pub closed spec fn state(&self) -> GlobalState<T> {
        self.inner
    }

    pub fn new() -> (g: Self)
        ensures
            g.state() is Uninitialized,
    {
        Global { inner: GlobalState::Uninitialized }
    }

    /// Installs the value, replacing whatever was there.
    pub fn install(&mut self, init: T)
        ensures
            final(self).state() == GlobalState::Released(init),
    {
        self.inner = GlobalState::Released(init);
    }

    /// Hands the value out. It must have been installed and must not be
    /// handed out already.
    pub fn acquire(&mut self) -> (value: T)
        requires
            old(self).state() is Released,
        ensures
            old(self).state() == GlobalState::Released(value),
            final(self).state() is Acquired,
    {
        let mut state = GlobalState::Acquired;
        std::mem::swap(&mut state, &mut self.inner);
        match state {
            GlobalState::Released(value) => value,
            GlobalState::Uninitialized => vstd::pervasive::unreached(),
            GlobalState::Acquired => vstd::pervasive::unreached(),
        }
    }

    /// Takes the value back.
    pub fn release(&mut self, value: T)
        ensures
            final(self).state() == GlobalState::Released(value),
    {
        self.inner = GlobalState::Released(value);
    }
}

} // verus!
