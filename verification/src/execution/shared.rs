//! Values that the worker shares with other threads. Another thread may
//! change such a value at any time, so nothing is claimed of what a read
//! returns.

use vstd::prelude::*;
use std::sync::{Mutex, RwLock};
use std::sync::mpsc::Sender;

verus! {

/// `std::sync::Mutex`. Nothing of what it guards is known here.
#[verifier::external_type_specification]
#[verifier::external_body]
#[verifier::reject_recursive_types(T)]
pub struct ExMutex<T: ?Sized>(Mutex<T>);

/// `std::sync::RwLock`. Nothing of what it guards is known here.
#[verifier::external_type_specification]
#[verifier::external_body]
#[verifier::reject_recursive_types(T)]
pub struct ExRwLock<T: ?Sized>(RwLock<T>);

/// `std::sync::mpsc::Sender`, the sending half of a channel.
#[verifier::external_type_specification]
#[verifier::external_body]
#[verifier::reject_recursive_types(T)]
pub struct ExSender<T>(Sender<T>);

/// Takes the mutex with `Mutex::lock` and copies out what it guards. A
/// poisoned mutex is read as it stands. Nothing is claimed of the value.
#[verifier::external_body]
pub(crate) fn read_shared<T: Copy>(cell: &Mutex<T>) -> (value: T) {
    match cell.lock() {
        Ok(guard) => *guard,
        Err(poisoned) => *poisoned.into_inner(),
    }
}

/// Takes the mutex with `Mutex::lock` and puts `value` in place of what it
/// guards. A poisoned mutex is written all the same.
#[verifier::external_body]
pub(crate) fn write_shared<T>(cell: &Mutex<T>, value: T) {
    match cell.lock() {
        Ok(mut guard) => *guard = value,
        Err(poisoned) => *poisoned.into_inner() = value,
    }
}

/// Wraps `value` in a new lock with `RwLock::new`.
#[verifier::external_body]
pub(crate) fn new_lock<T>(value: T) -> (lock: RwLock<T>) {
    RwLock::new(value)
}

/// Takes the lock for reading with `RwLock::read` and clones what it
/// guards. A poisoned lock is read as it stands. Nothing is claimed of the
/// value.
#[verifier::external_body]
pub(crate) fn read_locked<T: Clone>(lock: &RwLock<T>) -> (value: T) {
    match lock.read() {
        Ok(guard) => guard.clone(),
        Err(poisoned) => poisoned.into_inner().clone(),
    }
}

/// Takes the lock for writing with `RwLock::write` and puts `value` in place
/// of what it guards. A poisoned lock is written all the same.
#[verifier::external_body]
pub(crate) fn write_locked<T>(lock: &RwLock<T>, value: T) {
    match lock.write() {
        Ok(mut guard) => *guard = value,
        Err(poisoned) => *poisoned.into_inner() = value,
    }
}

/// Sends `value` with `Sender::send`. Returns whether the channel took it;
/// it does not once the receiver is gone.
#[verifier::external_body]
pub(crate) fn send_on<T>(sender: &Sender<T>, value: T) -> (sent: bool) {
    sender.send(value).is_ok()
}

} // verus!
