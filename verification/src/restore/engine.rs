//! Choosing what a restore applies: the snapshot named by the restore point,
//! and whether it is restored alone or with its chain.

use vstd::prelude::*;

use crate::repository::layout::BackupSnapshot;
use crate::utils::errors::HelixError;
use crate::utils::text::equals_str;

verus! {

/// Runs restores.
pub struct RestoreEngine;

/// How a snapshot is restored.
#[derive(Debug, Clone, Copy, PartialEq, Eq, Structural)]
pub enum RestoreKind {
    /// Alone, from its own data file.
    Full,
    /// With the chain of snapshots it stands on.
    Incremental,
}

/// `i` is the position of the first snapshot with id `id`.
pub open spec fn is_first_with_id(s: Seq<BackupSnapshot>, id: Seq<char>, i: int) -> bool {
    &&& 0 <= i < s.len()
    &&& s[i].id@ == id
    &&& forall|j: int| 0 <= j < i ==> (#[trigger] s[j]).id@ != id
}

/// The position of the first snapshot with id `id`, if any.
pub open spec fn first_with_id(s: Seq<BackupSnapshot>, id: Seq<char>) -> Option<int> {
    if exists|i: int| is_first_with_id(s, id, i) {
        Some(choose|i: int| is_first_with_id(s, id, i))
    } else {
        None
    }
}

/// What restoring to `point` does with the listing `snapshots` (ordered by
/// time): `Err(true)` when there is no snapshot at all, `Err(false)` when the
/// named snapshot is not listed, `Ok(None)` when the latest snapshot is of
/// neither known type (nothing is restored), else the snapshot's position and
/// how it is restored.
pub open spec fn restore_selection(point: Option<Seq<char>>, snapshots: Seq<BackupSnapshot>) -> Result<
    Option<(int, RestoreKind)>,
    bool,
> {
    if point is None || point == Some("latest"@) {
        if snapshots.len() == 0 {
            Err(true)
        } else {
            let i = snapshots.len() - 1;
            if snapshots[i].backup_type@ == "full"@ {
                Ok(Some((i as int, RestoreKind::Full)))
            } else if snapshots[i].backup_type@ == "incremental"@ {
                Ok(Some((i as int, RestoreKind::Incremental)))
            } else {
                Ok(None)
            }
        }
    } else {
        match first_with_id(snapshots, point->0) {
            None => Err(false),
            Some(i) => if snapshots[i].backup_type@ == "full"@ {
                Ok(Some((i, RestoreKind::Full)))
            } else {
                Ok(Some((i, RestoreKind::Incremental)))
            },
        }
    }
}

fn find_by_id(snapshots: &Vec<BackupSnapshot>, id: &str) -> (r: Option<usize>)
    ensures
        match first_with_id(snapshots@, id@) {
            Some(i) => r matches Some(j) && j == i,
            None => r is None,
        },
{
    let n = snapshots.len();
    let mut i: usize = 0;
    while i < n
        invariant
            n == snapshots@.len(),
            i <= n,
            forall|j: int| 0 <= j < i ==> (#[trigger] snapshots@[j]).id@ != id@,
        decreases n - i,
    {
        if equals_str(&snapshots[i].id, id) {
            assert(is_first_with_id(snapshots@, id@, i as int));
            let ghost k = choose|k: int| is_first_with_id(snapshots@, id@, k);
            assert(k == i) by {
                if k < i {
                    assert(snapshots@[k].id@ != id@);
                } else if k > i {
                    assert(snapshots@[i as int].id@ != id@);
                }
            }
            return Some(i);
        }
        i = i + 1;
    }
    assert(!exists|k: int| is_first_with_id(snapshots@, id@, k)) by {
        if exists|k: int| is_first_with_id(snapshots@, id@, k) {
            let k = choose|k: int| is_first_with_id(snapshots@, id@, k);
            assert(snapshots@[k].id@ != id@);
        }
    }
    None
}

impl RestoreEngine {
    pub fn new() -> (r: Result<Self, HelixError>)
        ensures
            r is Ok,
    {
        Ok(RestoreEngine)
    }

    /// The snapshot to restore for `point` (`None` or `latest`: the latest
    /// one; else the snapshot with that id) and how to restore it.
    pub fn select_restore(&self, point: Option<&str>, snapshots: &Vec<BackupSnapshot>) -> (r: Result<
        Option<(String, RestoreKind)>,
        HelixError,
    >)
        ensures
            match restore_selection(
                match point {
                    Some(p) => Some(p@),
                    None => None,
                },
                snapshots@,
            ) {
                Ok(Some((i, kind))) => r matches Ok(Some((id, k))) && id@ == snapshots@[i].id@ && k == kind
                    && (k == RestoreKind::Full <==> snapshots@[i].backup_type@ == "full"@),
                Ok(None) => r matches Ok(None),
                Err(true) => r matches Err(HelixError::NotFound(m)) && m@ == "No backup snapshots found"@,
                Err(false) => r matches Err(HelixError::NotFound(m)) && m@ == "Snapshot '"@ + point->0@
                    + "' not found"@,
            },
    {
        let latest = match point {
            None => true,
            Some(p) => {
                let ps = String::from_str(p);
                equals_str(&ps, "latest")
            },
        };
        if latest {
            let n = snapshots.len();
            if n == 0 {
                return Err(HelixError::NotFound(String::from_str("No backup snapshots found")));
            }
            let snap = &snapshots[n - 1];
            if equals_str(&snap.backup_type, "full") {
                Ok(Some((snap.id.clone(), RestoreKind::Full)))
            } else if equals_str(&snap.backup_type, "incremental") {
                Ok(Some((snap.id.clone(), RestoreKind::Incremental)))
            } else {
                Ok(None)
            }
        } else {
            let id = match point {
                Some(p) => p,
                None => "",
            };
            match find_by_id(snapshots, id) {
                None => {
                    let mut m = String::from_str("Snapshot '");
                    m.append(id);
                    m.append("' not found");
                    Err(HelixError::NotFound(m))
                },
                Some(i) => {
                    let snap = &snapshots[i];
                    if equals_str(&snap.backup_type, "full") {
                        Ok(Some((snap.id.clone(), RestoreKind::Full)))
                    } else {
                        Ok(Some((snap.id.clone(), RestoreKind::Incremental)))
                    }
                },
            }
        }
    }
}

/// A restore applies the snapshot that the restore point names (the latest
/// one for `latest` or no point), and restores it alone exactly when it is a
/// full backup: an incremental one is always restored with its chain.
pub proof fn lemma_restore_kind_follows_type(point: Option<Seq<char>>, snapshots: Seq<BackupSnapshot>)
    ensures
        restore_selection(point, snapshots) matches Ok(Some((i, k))) ==> {
            &&& 0 <= i < snapshots.len()
            &&& (k == RestoreKind::Full <==> snapshots[i].backup_type@ == "full"@)
            &&& (snapshots[i].backup_type@ == "incremental"@ ==> k == RestoreKind::Incremental)
            &&& (point is None || point == Some("latest"@) ==> i == snapshots.len() - 1)
            &&& (!(point is None || point == Some("latest"@)) ==> snapshots[i].id@ == point->0)
        },
{
    reveal_strlit("full");
    reveal_strlit("incremental");
    assert("full"@ != "incremental"@) by {
        assert("full"@[0] != "incremental"@[0]);
    }
    if !(point is None || point == Some("latest"@)) {
        if exists|i: int| is_first_with_id(snapshots, point->0, i) {
            let i = choose|i: int| is_first_with_id(snapshots, point->0, i);
            assert(first_with_id(snapshots, point->0) == Some(i));
        }
    }
}

} // verus!
