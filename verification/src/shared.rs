//! The concurrency wrapper: one shared `Home` behind a single
//! reader/writer lock.
//!
//! Queries take the shared side, mutations the exclusive side, and each
//! operation holds the lock for its whole validate-then-mutate span, so no
//! two instruction sets interleave field by field on one device.  The lock
//! keeps the home invariant: it only ever stores a well-formed `Home`.

use crate::device::Device;
use crate::dict::DeviceDict;
use crate::errors::HandleRequestError;
use crate::home::{home_wf, Home};
use crate::protocol::update_device;
use crate::query::{device_from_query, parse_query};
use vstd::prelude::*;
use vstd::rwlock::{RwLock, RwLockPredicate};

verus! {

/// What the lock guards: only a well-formed home is ever stored.
pub struct HomeInvariant;

impl RwLockPredicate<Home> for HomeInvariant {
    open spec fn inv(self, h: Home) -> bool {
        home_wf(h@)
    }
}

/// One home, shared among request handlers.
pub struct SharedHome {
    lock: RwLock<Home, HomeInvariant>,
}

impl SharedHome {
    pub fn new(home: Home) -> (s: SharedHome)
        requires
            home_wf(home@),
    {
        SharedHome { lock: RwLock::new(home, Ghost(HomeInvariant)) }
    }

    /// The home's name, under a read lock.
    pub fn name(&self) -> String {
        let handle = self.lock.acquire_read();
        let r = handle.borrow().get_name().clone();
        handle.release_read();
        r
    }

    /// The room names, under a read lock.
    pub fn room_names(&self) -> Vec<String> {
        let handle = self.lock.acquire_read();
        let r = handle.borrow().room_names();
        handle.release_read();
        r
    }

    /// The device names of one room, under a read lock.
    pub fn device_names_in(&self, room_name: &str) -> Option<Vec<String>> {
        let handle = self.lock.acquire_read();
        let r = handle.borrow().device_names_in(room_name);
        handle.release_read();
        r
    }

    /// The dictionary of the device under a path, under a read lock.
    pub fn device_dictionary(&self, room_name: &str, device_name: &str) -> Option<DeviceDict> {
        let handle = self.lock.acquire_read();
        let r = match handle.borrow().get_device_by_path(room_name, device_name) {
            Some(device) => Some(device.to_dictionary()),
            None => None,
        };
        handle.release_read();
        r
    }

    /// The diagnostic report of every room, under a read lock.
    pub fn report(&self) -> String {
        let handle = self.lock.acquire_read();
        let r = handle.borrow().report();
        handle.release_read();
        r
    }

    /// Add an empty room, under a write lock.
    pub fn add_room(&self, name: &str) -> Option<()> {
        let (mut home, handle) = self.lock.acquire_write();
        let r = home.add_room(name);
        handle.release_write(home);
        r
    }

    /// Remove a room, under a write lock.
    pub fn remove_room(&self, name: &str) -> Option<()> {
        let (mut home, handle) = self.lock.acquire_write();
        let r = match home.remove_room(name) {
            Some(_) => Some(()),
            None => None,
        };
        handle.release_write(home);
        r
    }

    /// Add a device built from the arriving instruction set, holding the
    /// write lock across both the validation and the insertion.  `Ok(None)`
    /// is the collapsed "room missing or duplicate device" outcome.
    pub fn add_device_from_query(
        &self,
        room_name: &str,
        device_name: &str,
        query: &str,
    ) -> Result<Option<()>, HandleRequestError> {
        let (mut home, handle) = self.lock.acquire_write();
        let r = match device_from_query(query) {
            Ok(device) => Ok(home.add_device(room_name, device_name, device)),
            Err(e) => Err(e),
        };
        handle.release_write(home);
        r
    }

    /// Add an already-built device, under a write lock.
    pub fn add_device(&self, room_name: &str, device_name: &str, device: Device) -> Option<()>
        requires
            !(device@ is Unknown),
    {
        let (mut home, handle) = self.lock.acquire_write();
        let r = home.add_device(room_name, device_name, device);
        handle.release_write(home);
        r
    }

    /// Remove a device and report its last state, under a write lock.
    pub fn remove_device(&self, room_name: &str, device_name: &str) -> Option<DeviceDict> {
        let (mut home, handle) = self.lock.acquire_write();
        let r = match home.remove_device(room_name, device_name) {
            Some(device) => Some(device.to_dictionary()),
            None => None,
        };
        handle.release_write(home);
        r
    }

    /// Run the update protocol on an already-parsed instruction set,
    /// holding the write lock across the whole validate-then-mutate span.
    pub fn update_device(
        &self,
        room_name: &str,
        device_name: &str,
        data: &DeviceDict,
    ) -> Result<(), HandleRequestError> {
        let (mut home, handle) = self.lock.acquire_write();
        let r = update_device(&mut home, room_name, device_name, data);
        handle.release_write(home);
        r
    }

    /// Run the update protocol on an arriving query string, holding the
    /// write lock across the whole validate-then-mutate span.
    pub fn update_from_query(
        &self,
        room_name: &str,
        device_name: &str,
        query: &str,
    ) -> Result<(), HandleRequestError> {
        let data = parse_query(query);
        let (mut home, handle) = self.lock.acquire_write();
        let r = update_device(&mut home, room_name, device_name, &data);
        handle.release_write(home);
        r
    }
}

} // verus!
