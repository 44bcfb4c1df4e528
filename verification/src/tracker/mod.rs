//! Change tracking: which blocks of a device changed since a checkpoint.

pub mod bitmap;
pub mod linux;
pub mod macos;
pub mod ordered;

use vstd::prelude::*;

use crate::utils::errors::HelixError;
use bitmap::BitmapTracker;
use linux::DmEraTracker;
use macos::FseventsTracker;
use linux::era_query_message;
use ordered::is_increasing_listing;
use crate::utils::ids::is_hyphenated_uuid;

verus! {

/// A point in a device's history that later change queries are relative to.
#[derive(Debug, Clone)]
pub struct Checkpoint {
    pub id: String,
    pub timestamp: i64,
    pub block_count: u64,
    pub tracking_method: String,
}

impl Checkpoint {
    /// A field-by-field copy.
    pub fn duplicate(&self) -> (r: Checkpoint)
        ensures
            r == *self,
    {
        Checkpoint {
            id: self.id.clone(),
            timestamp: self.timestamp,
            block_count: self.block_count,
            tracking_method: self.tracking_method.clone(),
        }
    }
}

/// A source of changed-block lists. Implementations say in their own
/// contracts what they report.
pub trait ChangeTracker {
    /// The blocks changed since `since` (or since tracking began).
    fn get_changed_blocks(&self, since: Option<Checkpoint>) -> Result<Vec<u64>, HelixError>;

    /// Records a checkpoint and starts a new tracking period.
    fn create_checkpoint(&mut self) -> Result<Checkpoint, HelixError>;

    /// Forgets every recorded change.
    fn reset_tracking(&mut self) -> Result<(), HelixError>;

    /// The latest checkpoint, if any.
    fn get_current_checkpoint(&self) -> Result<Option<Checkpoint>, HelixError>;
}

/// The tracker a platform uses: dm-era on Linux, file-system events on
/// macOS, an in-memory bitmap elsewhere.
pub enum PlatformTracker {
    DmEra(DmEraTracker),
    Fsevents(FseventsTracker),
    Bitmap(BitmapTracker),
}

/// The tracker for the named target operating system (as
/// `std::env::consts::OS` names it); the bitmap tracker works on 4096-byte
/// blocks.
pub fn create_tracker(target_os: &str) -> (r: Result<PlatformTracker, HelixError>)
    ensures
        r is Ok,
        target_os@ == "linux"@ ==> (r matches Ok(PlatformTracker::DmEra(t))
            && t.devices().len() == 0),
        target_os@ == "macos"@ ==> (r matches Ok(PlatformTracker::Fsevents(t))
            && t.watched().len() == 0 && t.changed().len() == 0 && !t.is_running()),
        target_os@ != "linux"@ && target_os@ != "macos"@ ==> (r matches Ok(PlatformTracker::Bitmap(t))
            && t.dirty().is_empty() && t.history().len() == 0 && t.tracked_block_size() == 4096),
{
    proof {
        reveal_strlit("linux");
        reveal_strlit("macos");
        assert("linux"@[0] != "macos"@[0]);
    }
    let os = String::from_str(target_os);
    if crate::utils::text::equals_str(&os, "linux") {
        match DmEraTracker::new() {
            Ok(t) => Ok(PlatformTracker::DmEra(t)),
            Err(e) => Err(e),
        }
    } else if crate::utils::text::equals_str(&os, "macos") {
        match FseventsTracker::new() {
            Ok(t) => Ok(PlatformTracker::Fsevents(t)),
            Err(e) => Err(e),
        }
    } else {
        match BitmapTracker::new(4096) {
            Ok(t) => Ok(PlatformTracker::Bitmap(t)),
            Err(e) => Err(e),
        }
    }
}

impl ChangeTracker for PlatformTracker {
    /// What the platform's tracker reports.
    fn get_changed_blocks(&self, since: Option<Checkpoint>) -> (r: Result<Vec<u64>, HelixError>)
        ensures
            self matches PlatformTracker::Bitmap(t) ==> (r matches Ok(v) && is_increasing_listing(v@, t.dirty())),
            self matches PlatformTracker::Fsevents(t) ==> (r matches Ok(v) && v@.len() == 0),
            self matches PlatformTracker::DmEra(t) ==> if t.devices().len() == 0 {
                r matches Ok(v) && v@.len() == 0
            } else {
                r matches Err(HelixError::Unsupported(m)) && m@ == era_query_message()
            },
    {
        match self {
            PlatformTracker::DmEra(t) => t.get_changed_blocks(since),
            PlatformTracker::Fsevents(t) => t.get_changed_blocks(since),
            PlatformTracker::Bitmap(t) => t.get_changed_blocks(since),
        }
    }

    /// The platform tracker's checkpoint.
    fn create_checkpoint(&mut self) -> (r: Result<Checkpoint, HelixError>)
        ensures
            r is Ok,
            is_hyphenated_uuid(r->Ok_0.id@),
            *old(self) matches PlatformTracker::Bitmap(t) ==> r->Ok_0.block_count == t.dirty().len()
                && r->Ok_0.tracking_method@ == "bitmap"@ && (*final(self) matches PlatformTracker::Bitmap(u)
                && u.dirty().is_empty() && u.history() == t.history().push(r->Ok_0) && u.total() == t.total()
                && u.tracked_block_size() == t.tracked_block_size()),
            *old(self) matches PlatformTracker::DmEra(t) ==> r->Ok_0.block_count == 0
                && r->Ok_0.tracking_method@ == "dm-era"@ && *final(self) == *old(self),
            *old(self) matches PlatformTracker::Fsevents(t) ==> r->Ok_0.block_count == 0
                && r->Ok_0.tracking_method@ == "fsevents"@ && (*final(self) matches PlatformTracker::Fsevents(u)
                && u.changed().len() == 0 && u.watched() == t.watched() && u.is_running() == t.is_running()),
    {
        match self {
            PlatformTracker::DmEra(t) => t.create_checkpoint(),
            PlatformTracker::Fsevents(t) => t.create_checkpoint(),
            PlatformTracker::Bitmap(t) => t.create_checkpoint(),
        }
    }

    /// The platform tracker's reset.
    fn reset_tracking(&mut self) -> (r: Result<(), HelixError>)
        ensures
            r is Ok,
            *old(self) matches PlatformTracker::Bitmap(t) ==> (*final(self) matches PlatformTracker::Bitmap(u)
                && u.dirty().is_empty() && u.history() == t.history() && u.total() == t.total()
                && u.tracked_block_size() == t.tracked_block_size()),
            *old(self) matches PlatformTracker::DmEra(t) ==> *final(self) == *old(self),
            *old(self) matches PlatformTracker::Fsevents(t) ==> (*final(self) matches PlatformTracker::Fsevents(u)
                && u.changed().len() == 0 && u.watched() == t.watched() && u.is_running() == t.is_running()),
    {
        match self {
            PlatformTracker::DmEra(t) => t.reset_tracking(),
            PlatformTracker::Fsevents(t) => t.reset_tracking(),
            PlatformTracker::Bitmap(t) => t.reset_tracking(),
        }
    }

    /// The platform tracker's latest checkpoint.
    fn get_current_checkpoint(&self) -> (r: Result<Option<Checkpoint>, HelixError>)
        ensures
            r is Ok,
            !(self is Bitmap) ==> r->Ok_0 is None,
            self matches PlatformTracker::Bitmap(t) ==> r->Ok_0 == (if t.history().len() == 0 {
                None
            } else {
                Some(t.history().last())
            }),
    {
        match self {
            PlatformTracker::DmEra(t) => t.get_current_checkpoint(),
            PlatformTracker::Fsevents(t) => t.get_current_checkpoint(),
            PlatformTracker::Bitmap(t) => t.get_current_checkpoint(),
        }
    }
}

} // verus!
