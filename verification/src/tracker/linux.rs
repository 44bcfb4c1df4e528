//! Change tracking through device-mapper `era` targets.
//!
//! The listing of `/dev/mapper` is read by the caller and handed in as
//! `(file name, path)` pairs; the tracker decides from it.

use vstd::prelude::*;

use super::{ChangeTracker, Checkpoint};
use crate::utils::clock::now_unix_seconds;
use crate::utils::errors::HelixError;
use crate::utils::ids::{is_hyphenated_uuid, new_uuid_string};
use crate::utils::text::{contains_str, contains_text, strings_view};

verus! {

/// The text a device-mapper name holds when it is an era target.
pub open spec fn era_marker() -> Seq<char> {
    "-era"@
}

/// The paths of the listed entries whose name holds `-era`, in listing order.
pub open spec fn era_device_paths(entries: Seq<(Seq<char>, Seq<char>)>) -> Seq<Seq<char>>
    decreases entries.len(),
{
    if entries.len() == 0 {
        Seq::empty()
    } else {
        let rest = era_device_paths(entries.drop_last());
        if contains_text(entries.last().0, era_marker()) {
            rest.push(entries.last().1)
        } else {
            rest
        }
    }
}

/// The views of a list of `(name, path)` pairs.
pub open spec fn entries_view(v: Seq<(String, String)>) -> Seq<(Seq<char>, Seq<char>)> {
    v.map_values(|e: (String, String)| (e.0@, e.1@))
}

/// The message of the error that every era query gives.
pub open spec fn era_query_message() -> Seq<char> {
    "dm-era query not implemented. Requires kernel support and appropriate permissions."@
}

/// Tracks changes through the first dm-era device found.
pub struct DmEraTracker {
    device_path: String,
    era_devices: Vec<String>,
}

impl DmEraTracker {
    /// The era devices the tracker knows of, in listing order.
    pub closed spec fn devices(&self) -> Seq<Seq<char>> {
        strings_view(self.era_devices@)
    }

    /// The device path the tracker was given (empty at first).
    pub closed spec fn device(&self) -> Seq<char> {
        self.device_path@
    }

    /// A tracker that knows of no era device yet.
    pub fn new() -> (r: Result<Self, HelixError>)
        ensures
            r is Ok,
            r->Ok_0.devices() == Seq::<Seq<char>>::empty(),
            r->Ok_0.device() == Seq::<char>::empty(),
    {
        Ok(DmEraTracker { device_path: String::new(), era_devices: Vec::new() })
    }

    /// The era devices among the entries of a device-mapper directory,
    /// given as `(file name, path)` pairs: those whose name holds `-era`.
    pub fn find_dm_era_devices(entries: &Vec<(String, String)>) -> (r: Vec<String>)
        ensures
            strings_view(r@) == era_device_paths(entries_view(entries@)),
    {
        let ghost ev = entries_view(entries@);
        let mut devices: Vec<String> = Vec::new();
        let n = entries.len();
        let mut i: usize = 0;
        while i < n
            invariant
                n == entries@.len(),
                ev == entries_view(entries@),
                i <= n,
                strings_view(devices@) == era_device_paths(ev.take(i as int)),
            decreases n - i,
        {
            let ghost before = devices@;
            assert(ev.take(i as int + 1).drop_last() =~= ev.take(i as int));
            if contains_str(entries[i].0.as_str(), "-era") {
                devices.push(entries[i].1.clone());
                assert(strings_view(devices@) =~= strings_view(before).push(entries@[i as int].1@));
            }
            i = i + 1;
        }
        assert(ev.take(n as int) =~= ev);
        devices
    }

    /// Replaces the known era devices with those found among `entries`.
    pub fn refresh_devices(&mut self, entries: &Vec<(String, String)>)
        ensures
            final(self).devices() == era_device_paths(entries_view(entries@)),
            final(self).device() == old(self).device(),
    {
        self.era_devices = Self::find_dm_era_devices(entries);
    }

    /// The changed blocks that the era target of `device` reports: reading
    /// them is not supported, so this always fails.
    fn query_era_blocks(&self, device: &str) -> (r: Result<Vec<u64>, HelixError>)
        ensures
            r matches Err(HelixError::Unsupported(m)) && m@ == era_query_message(),
    {
        Err(HelixError::Unsupported(String::from_str(
            "dm-era query not implemented. Requires kernel support and appropriate permissions.",
        )))
    }
}

impl ChangeTracker for DmEraTracker {
    /// No era device: an empty list (the caller falls back to a full scan).
    /// Otherwise the query of the first device, which is not supported.
    fn get_changed_blocks(&self, since: Option<Checkpoint>) -> (r: Result<Vec<u64>, HelixError>)
        ensures
            self.devices().len() == 0 ==> (r matches Ok(v) && v@.len() == 0),
            self.devices().len() > 0 ==> (r matches Err(HelixError::Unsupported(m))
                && m@ == era_query_message()),
    {
        if self.era_devices.len() == 0 {
            return Ok(Vec::new());
        }
        self.query_era_blocks(self.era_devices[0].as_str())
    }

    /// A fresh checkpoint of method `dm-era` that counts no block.
    fn create_checkpoint(&mut self) -> (r: Result<Checkpoint, HelixError>)
        ensures
            r is Ok,
            r->Ok_0.block_count == 0,
            r->Ok_0.tracking_method@ == "dm-era"@,
            is_hyphenated_uuid(r->Ok_0.id@),
            *final(self) == *old(self),
    {
        Ok(Checkpoint {
            id: new_uuid_string(),
            timestamp: now_unix_seconds(),
            block_count: 0,
            tracking_method: String::from_str("dm-era"),
        })
    }

    /// Nothing to forget.
    fn reset_tracking(&mut self) -> (r: Result<(), HelixError>)
        ensures
            r is Ok,
            *final(self) == *old(self),
    {
        Ok(())
    }

    /// The era target keeps no checkpoint here.
    fn get_current_checkpoint(&self) -> (r: Result<Option<Checkpoint>, HelixError>)
        ensures
            r == Ok::<Option<Checkpoint>, HelixError>(None),
    {
        Ok(None)
    }
}

} // verus!
