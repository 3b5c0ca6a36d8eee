use vstd::prelude::*;

use crate::base::{FreeRtosBaseType, FreeRtosError, FreeRtosTickType};
use crate::units::DurationTicks;

verus! {

/// A call into the kernel's semaphore API, as a mutex asks for it. The handle is
/// the address of the kernel's semaphore.
#[derive(Copy, Clone, Debug, PartialEq, Eq, Structural)]
pub enum SemaphoreCall {
    CreateMutex,
    CreateRecursiveMutex,
    TakeMutex { handle: usize, ticks: FreeRtosTickType },
    TakeRecursiveMutex { handle: usize, ticks: FreeRtosTickType },
    GiveMutex { handle: usize },
    GiveRecursiveMutex { handle: usize },
    DeleteSemaphore { handle: usize },
}

/// The kernel's side of a mutex: the semaphore that guards the value, and whether
/// it is recursive (the current owner of a lock can re-lock it).
pub struct MutexHandle {
    handle: usize,
    recursive: bool,
}

/// The view of a mutex's kernel side.
pub struct MutexHandleView {
    pub handle: usize,
    pub recursive: bool,
}

impl View for MutexHandle {
    type V = MutexHandleView;

    closed spec fn view(&self) -> MutexHandleView {
        MutexHandleView { handle: self.handle, recursive: self.recursive }
    }
}

/// The call that creates the semaphore of a mutex.
pub open spec fn create_call_spec(recursive: bool) -> SemaphoreCall {
    if recursive {
        SemaphoreCall::CreateRecursiveMutex
    } else {
        SemaphoreCall::CreateMutex
    }
}

/// The call that takes the semaphore of `m`, waiting at most `ticks`.
pub open spec fn lock_call_spec(m: MutexHandleView, ticks: FreeRtosTickType) -> SemaphoreCall {
    if m.recursive {
        SemaphoreCall::TakeRecursiveMutex { handle: m.handle, ticks }
    } else {
        SemaphoreCall::TakeMutex { handle: m.handle, ticks }
    }
}

/// The call that gives the semaphore of `m` back.
pub open spec fn unlock_call_spec(m: MutexHandleView) -> SemaphoreCall {
    if m.recursive {
        SemaphoreCall::GiveRecursiveMutex { handle: m.handle }
    } else {
        SemaphoreCall::GiveMutex { handle: m.handle }
    }
}

impl MutexHandle {
    /// A handle is never null.
    #[verifier::type_invariant]
    spec fn wf(&self) -> bool {
        self.handle != 0
    }

    /// The call that creates the semaphore of a new mutex.
    pub fn create_call(recursive: bool) -> (c: SemaphoreCall)
        ensures
            c == create_call_spec(recursive),
    {
        if recursive {
            SemaphoreCall::CreateRecursiveMutex
        } else {
            SemaphoreCall::CreateMutex
        }
    }

    /// Takes the handle that the create call returned: a null handle means that the
    /// kernel ran out of memory.
    pub fn new_mutex(handle: usize, recursive: bool) -> (r: Result<MutexHandle, FreeRtosError>)
        ensures
            handle == 0 ==> r == Err::<MutexHandle, FreeRtosError>(FreeRtosError::OutOfMemory),
            handle != 0 ==> (r matches Ok(m) && m@ == (MutexHandleView {
                handle,
                recursive,
            })),
    {
        if handle == 0 {
            return Err(FreeRtosError::OutOfMemory);
        }
        Ok(MutexHandle { handle: handle, recursive: recursive })
    }

    /// The address of the semaphore, which is never null.
    pub fn handle(&self) -> (h: usize)
        ensures
            h == self@.handle,
            h != 0,
    {
        proof {
            use_type_invariant(self);
        }
        self.handle
    }

    pub fn is_recursive(&self) -> (r: bool)
        ensures
            r == self@.recursive,
    {
        self.recursive
    }

    /// The call that tries to obtain the lock, waiting at most `max_wait`.
    pub fn lock_call<D: DurationTicks>(&self, max_wait: &D) -> (c: SemaphoreCall)
        ensures
            c == lock_call_spec(self@, max_wait.ticks_spec()),
            c is TakeMutex || c is TakeRecursiveMutex,
            c matches SemaphoreCall::TakeMutex { handle, ticks } ==> handle == self@.handle
                && ticks == max_wait.ticks_spec() && !self@.recursive,
            c matches SemaphoreCall::TakeRecursiveMutex { handle, ticks } ==> handle
                == self@.handle && ticks == max_wait.ticks_spec() && self@.recursive,
    {
        let ticks = max_wait.to_ticks();
        if self.recursive {
            SemaphoreCall::TakeRecursiveMutex { handle: self.handle, ticks: ticks }
        } else {
            SemaphoreCall::TakeMutex { handle: self.handle, ticks: ticks }
        }
    }

    /// What the take call's result means: zero is success, anything else a timeout.
    pub fn lock_result(res: FreeRtosBaseType) -> (r: Result<(), FreeRtosError>)
        ensures
            res == 0 ==> r == Ok::<(), FreeRtosError>(()),
            res != 0 ==> r == Err::<(), FreeRtosError>(FreeRtosError::MutexTimeout),
    {
        if res != 0 {
            return Err(FreeRtosError::MutexTimeout);
        }
        Ok(())
    }

    /// The call that releases the lock when the guard goes.
    pub fn unlock_call(&self) -> (c: SemaphoreCall)
        ensures
            c == unlock_call_spec(self@),
    {
        if self.recursive {
            SemaphoreCall::GiveRecursiveMutex { handle: self.handle }
        } else {
            SemaphoreCall::GiveMutex { handle: self.handle }
        }
    }

    /// The call that deletes the semaphore when the mutex goes.
    pub fn delete_call(&self) -> (c: SemaphoreCall)
        ensures
            c == (SemaphoreCall::DeleteSemaphore { handle: self@.handle }),
    {
        SemaphoreCall::DeleteSemaphore { handle: self.handle }
    }
}

/// A lock and its release go to the same semaphore through the same kind of call:
/// a recursive take is given back by a recursive give, a plain take by a plain give.
pub proof fn lemma_lock_unlock_match(m: MutexHandleView, ticks: FreeRtosTickType)
    ensures
        lock_call_spec(m, ticks) matches SemaphoreCall::TakeRecursiveMutex { handle, .. }
            ==> unlock_call_spec(m) == (SemaphoreCall::GiveRecursiveMutex { handle }),
        lock_call_spec(m, ticks) matches SemaphoreCall::TakeMutex { handle, .. }
            ==> unlock_call_spec(m) == (SemaphoreCall::GiveMutex { handle }),
        lock_call_spec(m, ticks) is TakeRecursiveMutex <==> create_call_spec(m.recursive) is CreateRecursiveMutex,
{
}

/// The take call made for a lock goes to the mutex's own semaphore and carries
/// exactly the ticks of the wait it was given, unchanged: a plain mutex is taken
/// with a plain take, a recursive one with a recursive take.
pub proof fn lemma_lock_call_carries_wait(m: MutexHandleView, ticks: FreeRtosTickType)
    ensures
        lock_call_spec(m, ticks) is TakeMutex || lock_call_spec(m, ticks) is TakeRecursiveMutex,
        lock_call_spec(m, ticks) matches SemaphoreCall::TakeMutex { handle, ticks: t } ==> handle
            == m.handle && t == ticks && !m.recursive,
        lock_call_spec(m, ticks) matches SemaphoreCall::TakeRecursiveMutex { handle, ticks: t }
            ==> handle == m.handle && t == ticks && m.recursive,
{
}

/// Locks with different waits differ only in their ticks: the wait is the only
/// thing that a lock's call takes from its argument.
pub proof fn lemma_lock_calls_differ_by_wait(m: MutexHandleView, a: FreeRtosTickType, b: FreeRtosTickType)
    ensures
        lock_call_spec(m, a) == lock_call_spec(m, b) <==> a == b,
{
}

} // verus!
