//! Change tracking through file-system events: the tracker keeps the watched
//! paths and the paths reported changed.

use vstd::prelude::*;

use super::{ChangeTracker, Checkpoint};
use crate::utils::clock::now_unix_seconds;
use crate::utils::errors::HelixError;
use crate::utils::ids::{is_hyphenated_uuid, new_uuid_string};
use crate::utils::text::{equals_str, strings_view};

verus! {

/// Watches paths for file-system events.
pub struct FseventsTracker {
    watched_paths: Vec<String>,
    changed_paths: Vec<String>,
    running: bool,
}

impl FseventsTracker {
    /// The watched paths, in the order they were first added.
    pub closed spec fn watched(&self) -> Seq<Seq<char>> {
        strings_view(self.watched_paths@)
    }

    /// The paths reported changed since the last checkpoint or reset.
    pub closed spec fn changed(&self) -> Seq<Seq<char>> {
        strings_view(self.changed_paths@)
    }

    /// Whether the event stream was started.
    pub closed spec fn is_running(&self) -> bool {
        self.running
    }

    /// A tracker that watches nothing and has not started its stream.
    pub fn new() -> (r: Result<Self, HelixError>)
        ensures
            r is Ok,
            r->Ok_0.watched() == Seq::<Seq<char>>::empty(),
            r->Ok_0.changed() == Seq::<Seq<char>>::empty(),
            !r->Ok_0.is_running(),
    {
        Ok(FseventsTracker { watched_paths: Vec::new(), changed_paths: Vec::new(), running: false })
    }

    /// Adds `path` to the watched paths unless it is there already.
    pub fn watch_path(&mut self, path: &str) -> (r: Result<(), HelixError>)
        ensures
            r is Ok,
            final(self).watched() == (if old(self).watched().contains(path@) {
                old(self).watched()
            } else {
                old(self).watched().push(path@)
            }),
            final(self).changed() == old(self).changed(),
            final(self).is_running() == old(self).is_running(),
    {
        let n = self.watched_paths.len();
        let mut i: usize = 0;
        while i < n
            invariant
                n == self.watched_paths@.len(),
                i <= n,
                forall|k: int| 0 <= k < i ==> self.watched_paths@[k]@ != path@,
            decreases n - i,
        {
            if equals_str(&self.watched_paths[i], path) {
                assert(self.watched()[i as int] == path@);
                return Ok(());
            }
            i = i + 1;
        }
        assert(!self.watched().contains(path@)) by {
            if self.watched().contains(path@) {
                let k = choose|k: int| 0 <= k < self.watched().len() && self.watched()[k] == path@;
                assert(self.watched_paths@[k]@ == path@);
            }
        }
        let ghost before = self.watched_paths@;
        self.watched_paths.push(String::from_str(path));
        assert(strings_view(self.watched_paths@) =~= strings_view(before).push(path@));
        Ok(())
    }

    /// Starts the event stream; nothing happens when it runs already.
    #[allow(dead_code)]
    fn start_fsevent_stream(&mut self) -> (r: Result<(), HelixError>)
        ensures
            r is Ok,
            final(self).is_running(),
            final(self).watched() == old(self).watched(),
            final(self).changed() == old(self).changed(),
    {
        if self.running {
            return Ok(());
        }
        self.running = true;
        Ok(())
    }
}

impl ChangeTracker for FseventsTracker {
    /// Changed paths are not mapped to blocks: the list is always empty.
    fn get_changed_blocks(&self, since: Option<Checkpoint>) -> (r: Result<Vec<u64>, HelixError>)
        ensures
            r matches Ok(v) && v@.len() == 0,
    {
        Ok(Vec::new())
    }

    /// Forgets the changed paths and returns a checkpoint of method
    /// `fsevents` that counts no block.
    fn create_checkpoint(&mut self) -> (r: Result<Checkpoint, HelixError>)
        ensures
            r is Ok,
            r->Ok_0.block_count == 0,
            r->Ok_0.tracking_method@ == "fsevents"@,
            is_hyphenated_uuid(r->Ok_0.id@),
            final(self).changed() == Seq::<Seq<char>>::empty(),
            final(self).watched() == old(self).watched(),
            final(self).is_running() == old(self).is_running(),
    {
        self.changed_paths.clear();
        assert(strings_view(self.changed_paths@) =~= Seq::<Seq<char>>::empty());
        Ok(Checkpoint {
            id: new_uuid_string(),
            timestamp: now_unix_seconds(),
            block_count: 0,
            tracking_method: String::from_str("fsevents"),
        })
    }

    /// Forgets the changed paths.
    fn reset_tracking(&mut self) -> (r: Result<(), HelixError>)
        ensures
            r is Ok,
            final(self).changed() == Seq::<Seq<char>>::empty(),
            final(self).watched() == old(self).watched(),
            final(self).is_running() == old(self).is_running(),
    {
        self.changed_paths.clear();
        assert(strings_view(self.changed_paths@) =~= Seq::<Seq<char>>::empty());
        Ok(())
    }

    /// No checkpoint is kept.
    fn get_current_checkpoint(&self) -> (r: Result<Option<Checkpoint>, HelixError>)
        ensures
            r == Ok::<Option<Checkpoint>, HelixError>(None),
    {
        Ok(None)
    }
}

} // verus!
