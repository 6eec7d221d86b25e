//! Updates that are passed on only where something changed: a guard that notes whether
//! the value behind it was borrowed for writing, and what a conditional update reports.

use vstd::prelude::*;
use core::ops::Deref;
use core::ops::DerefMut;

verus! {

/// A mutable borrow that remembers whether it was handed out for writing.
///
/// The fields are public so that contracts can speak of the borrow. A write made through
/// the guard itself is noted; one made through `inner` directly is not.
pub struct UpdateGuard<'a, T> {
    pub inner: &'a mut T,
    pub updated: bool,
}

impl<'a, T> UpdateGuard<'a, T> {
    /// A guard over `inner` that has not been written through.
    pub fn new(inner: &'a mut T) -> (guard: Self)
        ensures
            !guard.updated,
            *guard.inner == *old(inner),
            *final(guard.inner) == *final(inner),
    {
        UpdateGuard { inner, updated: false }
    }
}

impl<'a, T> Deref for UpdateGuard<'a, T> {
    type Target = T;

    /// The value, for reading. The guard stays as it is.
    fn deref(&self) -> (value: &T)
        ensures
            *value == *old(self.inner),
    {
        &*self.inner
    }
}

impl<'a, T> DerefMut for UpdateGuard<'a, T> {
    /// The value, for writing. The guard notes that it was handed out, whether or not
    /// anything is written.
    fn deref_mut(&mut self) -> (value: &mut T)
        ensures
            final(self).updated,
            *value == *old(self).inner,
            *final(self).inner == *final(value),
            *final(final(self).inner) == *final(old(self).inner),
    {
        self.updated = true;
        &mut *self.inner
    }
}

/// Runs `f` on a fresh guard over `value`. The result of `f` comes back only where `f`
/// left the guard marked as written through.
pub fn update_guarded<T, R, F: FnOnce(&mut UpdateGuard<'_, T>) -> R>(value: &mut T, f: F) -> (result:
    Option<R>)
    requires
        forall|guard: &mut UpdateGuard<'_, T>|
            !guard.updated && *guard.inner == *old(value) ==> #[trigger] f.requires((guard,)),
    ensures
        exists|guard: &mut UpdateGuard<'_, T>, returned: R|
            {
                &&& !guard.updated
                &&& *guard.inner == *old(value)
                &&& *final(guard.inner) == *final(value)
                &&& #[trigger] f.ensures((guard,), returned)
                &&& *final(final(guard).inner) == *final(guard).inner
                &&& result == (if final(guard).updated {
                    Some(returned)
                } else {
                    None
                })
            },
{
    let mut guard = UpdateGuard::new(value);
    let returned = f(&mut guard);
    if guard.updated {
        Some(returned)
    } else {
        None
    }
}

/// What an update that may have found nothing to update, and may have chosen to report
/// nothing, passes on: the value where there is one. The subscribers are told exactly
/// where something is passed on.
pub fn passed_on<R>(outcome: Option<Option<R>>) -> (result: Option<R>)
    ensures
        result == (match outcome {
            Some(Some(value)) => Some(value),
            _ => None,
        }),
{
    match outcome {
        Some(Some(value)) => Some(value),
        _ => None,
    }
}

/// Whether an update that may have found nothing to update reported a change. The
/// subscribers are told exactly where it did.
pub fn confirmed(outcome: Option<bool>) -> (changed: bool)
    ensures
        changed == (outcome == Some(true)),
{
    match outcome {
        Some(true) => true,
        _ => false,
    }
}

} // verus!
