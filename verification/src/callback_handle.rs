//! A handle that holds a callback.
use vstd::prelude::*;

verus! {

/// Why a callback was refused.
#[derive(Clone, Copy, Debug, PartialEq, Eq, Structural)]
pub enum CallbackError {
    /// The handle held a callback already.
    AlreadySet,
}

impl CallbackError {
    /// Returns the message of the error.
    pub fn to_string(&self) -> (message: String)
        ensures
            message@ == "Callback was already set"@,
    {
        "Callback was already set".to_owned()
    }
}

/// What a handle holds after a callback was set, and what is answered. The handle holds the new
/// callback either way.
pub open spec fn after_set<C>(held: Option<C>, callback: C) -> (
    Option<C>,
    Result<(), CallbackError>,
) {
    (
        Some(callback),
        if held is Some {
            Err(CallbackError::AlreadySet)
        } else {
            Ok(())
        },
    )
}

/// What a handle holds after it was cleared.
pub open spec fn after_clear<C>(held: Option<C>) -> Option<C> {
    None
}

/// Helper struct to hold a reference to a callback struct.
#[derive(Debug)]
pub struct CallbackHandle<C> {
    callback: Option<C>,
}

impl<C> View for CallbackHandle<C> {
    type V = Option<C>;

    closed spec fn view(&self) -> Option<C> {
        self.callback
    }
}

impl<C> Default for CallbackHandle<C> {
    /// By default, the handle holds no callback.
    fn default() -> (handle: Self)
        ensures
            handle@ == None::<C>,
    {
        CallbackHandle { callback: None }
    }
}

impl<C: Clone> CallbackHandle<C> {
    /// Set a callback. Returns an error if a callback was already set; the handle holds the new
    /// callback either way.
    pub fn set(&mut self, callback: C) -> (result: Result<(), CallbackError>)
        ensures
            (final(self)@, result) == after_set(old(self)@, callback),
    {
        let previous = self.callback.take();
        self.callback = Some(callback);
        if previous.is_some() {
            Err(CallbackError::AlreadySet)
        } else {
            Ok(())
        }
    }

    /// Get a cloned copy of the callback.
    pub fn get(&self) -> (callback: Option<C>)
        ensures
            match callback {
                Some(copy) => self@ is Some && cloned(self@->0, copy),
                None => self@ is None,
            },
    {
        match &self.callback {
            Some(callback) => Some(callback.clone()),
            None => None,
        }
    }

    /// Get reference to the callback.
    pub fn get_ref(&self) -> (callback: &Option<C>)
        ensures
            *callback == self@,
    {
        &self.callback
    }

    /// Remove the callback.
    /// Used during shutdown to resolve circular dependencies between types.
    pub fn clear(&mut self)
        ensures
            final(self)@ == after_clear(old(self)@),
    {
        self.callback = None;
    }
}

/// A callback is set without an error once. A second one is an error, and has still replaced the
/// first.
pub proof fn only_the_first_callback_is_set_without_an_error<C>(first: C, second: C)
    ensures
        after_set(None, first) == (Some(first), Ok::<(), CallbackError>(())),
        after_set(after_set(None, first).0, second) == (
            Some(second),
            Err::<(), CallbackError>(CallbackError::AlreadySet),
        ),
{
}

/// Clearing makes a handle settable again, whatever it held, and clearing it once more changes
/// nothing.
pub proof fn a_cleared_handle_is_settable_again<C>(held: Option<C>, callback: C)
    ensures
        after_set(after_clear(held), callback) == (Some(callback), Ok::<(), CallbackError>(())),
        after_clear(after_clear(held)) == after_clear(held),
{
}

} // verus!
