use freertos_rs::mutex::{MutexHandle, SemaphoreCall};
use freertos_rs::{Duration, FreeRtosError};

#[test]
fn mutex_create_calls() {
    assert_eq!(SemaphoreCall::CreateMutex, MutexHandle::create_call(false));
    assert_eq!(SemaphoreCall::CreateRecursiveMutex, MutexHandle::create_call(true));
}

#[test]
fn mutex_null_handle_is_out_of_memory() {
    assert!(matches!(MutexHandle::new_mutex(0, false), Err(FreeRtosError::OutOfMemory)));
    assert!(matches!(MutexHandle::new_mutex(0, true), Err(FreeRtosError::OutOfMemory)));
    let m = MutexHandle::new_mutex(0x2000_0100, true).ok().unwrap();
    assert_eq!(0x2000_0100, m.handle());
    assert!(m.is_recursive());
}

#[test]
fn mutex_lock_and_unlock_calls() {
    let m = MutexHandle::new_mutex(0x40, false).ok().unwrap();
    assert_eq!(
        SemaphoreCall::TakeMutex { handle: 0x40, ticks: 7 },
        m.lock_call(&Duration::ticks(7))
    );
    assert_eq!(SemaphoreCall::GiveMutex { handle: 0x40 }, m.unlock_call());
    assert_eq!(SemaphoreCall::DeleteSemaphore { handle: 0x40 }, m.delete_call());

    let r = MutexHandle::new_mutex(0x80, true).ok().unwrap();
    assert_eq!(
        SemaphoreCall::TakeRecursiveMutex { handle: 0x80, ticks: 0xffff_ffff },
        r.lock_call(&Duration::infinite(0xffff_ffff))
    );
    assert_eq!(SemaphoreCall::GiveRecursiveMutex { handle: 0x80 }, r.unlock_call());
    assert_eq!(SemaphoreCall::DeleteSemaphore { handle: 0x80 }, r.delete_call());
}

#[test]
fn mutex_lock_result() {
    assert_eq!(Ok(()), MutexHandle::lock_result(0));
    assert_eq!(Err(FreeRtosError::MutexTimeout), MutexHandle::lock_result(1));
    assert_eq!(Err(FreeRtosError::MutexTimeout), MutexHandle::lock_result(-1));
}
