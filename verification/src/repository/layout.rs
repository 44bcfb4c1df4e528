//! The repository: its snapshots, the chain of snapshots a restore applies,
//! and the checks of its integrity. Reading and writing its files is the
//! caller's part; the decisions about them are made here.

use vstd::prelude::*;

use super::manifest::Manifest;
use crate::utils::clock::now_rfc3339;
use crate::utils::errors::HelixError;
use crate::utils::ids::{is_hyphenated_uuid, new_uuid_string};
use crate::utils::text::{equals_str, push_char, strings_view, text_less, text_lt};
use crate::utils::text::{lemma_text_lt_irreflexive, lemma_text_lt_total, lemma_text_lt_transitive};

verus! {

/// One snapshot as the repository lists it.
pub struct BackupSnapshot {
    pub id: String,
    pub timestamp: String,
    pub backup_type: String,
    pub block_count: u64,
    pub total_size: u64,
    pub label: String,
    pub parent_id: Option<String>,
}

impl BackupSnapshot {
    /// A field-by-field copy.
    pub fn duplicate(&self) -> (r: BackupSnapshot)
        ensures
            r == *self,
    {
        BackupSnapshot {
            id: self.id.clone(),
            timestamp: self.timestamp.clone(),
            backup_type: self.backup_type.clone(),
            block_count: self.block_count,
            total_size: self.total_size,
            label: self.label.clone(),
            parent_id: match &self.parent_id {
                Some(p) => Some(p.clone()),
                None => None,
            },
        }
    }
}

/// An optional string by its contents.
pub open spec fn opt_view(o: Option<String>) -> Option<Seq<char>> {
    match o {
        Some(s) => Some(s@),
        None => None,
    }
}

/// Parent links `(snapshot id, parent id)` by their contents.
pub open spec fn links_view(v: Seq<(String, Option<String>)>) -> Seq<(Seq<char>, Option<Seq<char>>)> {
    v.map_values(|e: (String, Option<String>)| (e.0@, opt_view(e.1)))
}

/// The parent recorded for `id` by the first link that names it: `None` when
/// no link names it, `Some(None)` for a snapshot without parent.
pub open spec fn lookup_parent(links: Seq<(Seq<char>, Option<Seq<char>>)>, id: Seq<char>) -> Option<Option<Seq<char>>>
    decreases links.len(),
{
    if links.len() == 0 {
        None
    } else if links[0].0 == id {
        Some(links[0].1)
    } else {
        lookup_parent(links.drop_first(), id)
    }
}

/// The snapshots from `id` back to the first one without parent, following
/// at most `fuel` links. `Err(Some(m))`: snapshot `m` is not known;
/// `Err(None)`: the links did not end within `fuel` steps.
pub open spec fn chain_back(links: Seq<(Seq<char>, Option<Seq<char>>)>, id: Seq<char>, fuel: nat) -> Result<
    Seq<Seq<char>>,
    Option<Seq<char>>,
>
    decreases fuel,
{
    if fuel == 0 {
        Err(None)
    } else {
        match lookup_parent(links, id) {
            None => Err(Some(id)),
            Some(None) => Ok(seq![id]),
            Some(Some(p)) => match chain_back(links, p, (fuel - 1) as nat) {
                Ok(rest) => Ok(seq![id] + rest),
                Err(e) => Err(e),
            },
        }
    }
}

/// The chain a restore of `id` applies, oldest first: the snapshots from the
/// first one without parent up to `id`. Links that do not end within as many
/// steps as there are links go round in a circle.
pub open spec fn restore_chain(links: Seq<(Seq<char>, Option<Seq<char>>)>, id: Seq<char>) -> Result<
    Seq<Seq<char>>,
    Option<Seq<char>>,
> {
    match chain_back(links, id, links.len() + 1) {
        Ok(c) => Ok(c.reverse()),
        Err(e) => Err(e),
    }
}

/// The message when a snapshot is not known.
pub open spec fn not_found_message(id: Seq<char>) -> Seq<char> {
    "Snapshot '"@ + id + "' not found"@
}

/// `r` prefixed by `p` when it is a chain.
pub open spec fn prefixed_chain(p: Seq<Seq<char>>, r: Result<Seq<Seq<char>>, Option<Seq<char>>>) -> Result<
    Seq<Seq<char>>,
    Option<Seq<char>>,
> {
    match r {
        Ok(s) => Ok(p + s),
        Err(e) => Err(e),
    }
}

/// Each snapshot of a chain found from `id` has the next one as parent, the
/// chain starts at `id` and its last snapshot has no parent.
pub proof fn lemma_chain_back_links(links: Seq<(Seq<char>, Option<Seq<char>>)>, id: Seq<char>, fuel: nat)
    requires
        chain_back(links, id, fuel) is Ok,
    ensures
        ({
            let c = chain_back(links, id, fuel)->Ok_0;
            &&& c.len() >= 1
            &&& c.len() <= fuel
            &&& c[0] == id
            &&& lookup_parent(links, c.last()) == Some(None::<Seq<char>>)
            &&& forall|i: int| 0 <= i < c.len() - 1 ==> lookup_parent(links, #[trigger] c[i]) == Some(Some(c[i + 1]))
        }),
    decreases fuel,
{
    match lookup_parent(links, id) {
        None => {},
        Some(None) => {},
        Some(Some(p)) => {
            lemma_chain_back_links(links, p, (fuel - 1) as nat);
            let rest = chain_back(links, p, (fuel - 1) as nat)->Ok_0;
            let c = chain_back(links, id, fuel)->Ok_0;
            assert(c == seq![id] + rest);
            assert forall|i: int| 0 <= i < c.len() - 1 implies lookup_parent(links, #[trigger] c[i]) == Some(
                Some(c[i + 1]),
            ) by {
                if i > 0 {
                    assert(c[i] == rest[i - 1]);
                    assert(c[i + 1] == rest[i]);
                }
            }
        },
    }
}

/// The restore chain of a snapshot starts at a snapshot without parent, ends
/// at the snapshot itself, and each snapshot in it is the parent of the next.
pub proof fn lemma_restore_chain_links(links: Seq<(Seq<char>, Option<Seq<char>>)>, id: Seq<char>)
    requires
        restore_chain(links, id) is Ok,
    ensures
        ({
            let c = restore_chain(links, id)->Ok_0;
            &&& c.len() >= 1
            &&& c.last() == id
            &&& lookup_parent(links, c[0]) == Some(None::<Seq<char>>)
            &&& forall|i: int| 0 < i < c.len() ==> lookup_parent(links, #[trigger] c[i]) == Some(Some(c[i - 1]))
        }),
{
    let fuel = links.len() + 1;
    lemma_chain_back_links(links, id, fuel);
    let b = chain_back(links, id, fuel)->Ok_0;
    let c = restore_chain(links, id)->Ok_0;
    assert(c == b.reverse());
    assert(c.last() == b[0]);
    assert(c[0] == b.last());
    assert forall|i: int| 0 < i < c.len() implies lookup_parent(links, #[trigger] c[i]) == Some(Some(c[i - 1])) by {
        let j = c.len() - 1 - i;
        assert(c[i] == b[j]);
        assert(c[i - 1] == b[j + 1]);
    }
}

/// The first `n` snapshots met when following parent links from `id`
/// (fewer when a snapshot is unknown or has no parent).
pub open spec fn parent_walk(links: Seq<(Seq<char>, Option<Seq<char>>)>, id: Seq<char>, n: nat) -> Seq<Seq<char>>
    decreases n,
{
    if n == 0 {
        Seq::empty()
    } else {
        seq![id] + match lookup_parent(links, id) {
            Some(Some(p)) => parent_walk(links, p, (n - 1) as nat),
            _ => Seq::empty(),
        }
    }
}

/// The snapshot ids the links name.
pub open spec fn link_ids(links: Seq<(Seq<char>, Option<Seq<char>>)>) -> Seq<Seq<char>> {
    links.map_values(|e: (Seq<char>, Option<Seq<char>>)| e.0)
}

proof fn lemma_lookup_found(links: Seq<(Seq<char>, Option<Seq<char>>)>, id: Seq<char>)
    requires
        lookup_parent(links, id) is Some,
    ensures
        link_ids(links).contains(id),
    decreases links.len(),
{
    if links[0].0 == id {
        assert(link_ids(links)[0] == id);
    } else {
        lemma_lookup_found(links.drop_first(), id);
        let k = choose|k: int| 0 <= k < link_ids(links.drop_first()).len() && link_ids(links.drop_first())[k] == id;
        assert(link_ids(links)[k + 1] == id);
    }
}

proof fn lemma_unending_chain_walk(links: Seq<(Seq<char>, Option<Seq<char>>)>, id: Seq<char>, fuel: nat)
    requires
        chain_back(links, id, fuel) == Err::<Seq<Seq<char>>, Option<Seq<char>>>(None),
    ensures
        parent_walk(links, id, fuel).len() == fuel,
        forall|i: int| 0 <= i < fuel ==> link_ids(links).contains(#[trigger] parent_walk(links, id, fuel)[i]),
    decreases fuel,
{
    if fuel > 0 {
        lemma_lookup_found(links, id);
        let p = lookup_parent(links, id)->0->0;
        lemma_unending_chain_walk(links, p, (fuel - 1) as nat);
        let w = parent_walk(links, id, fuel);
        let rest = parent_walk(links, p, (fuel - 1) as nat);
        assert(w == seq![id] + rest);
        assert forall|i: int| 0 <= i < fuel implies link_ids(links).contains(#[trigger] w[i]) by {
            if i > 0 {
                assert(w[i] == rest[i - 1]);
            }
        }
    }
}

/// A failed chain stops at a snapshot that no link names.
proof fn lemma_chain_back_missing(links: Seq<(Seq<char>, Option<Seq<char>>)>, id: Seq<char>, fuel: nat)
    requires
        chain_back(links, id, fuel) matches Err(Some(_)),
    ensures
        chain_back(links, id, fuel) matches Err(Some(m)) && lookup_parent(links, m) is None,
    decreases fuel,
{
    if let Some(Some(p)) = lookup_parent(links, id) {
        lemma_chain_back_missing(links, p, (fuel - 1) as nat);
    }
}

/// When following the parent links from `id` never meets a snapshot twice,
/// building its restore chain fails only for a snapshot no link names.
pub proof fn lemma_restore_chain_without_cycle(links: Seq<(Seq<char>, Option<Seq<char>>)>, id: Seq<char>)
    requires
        parent_walk(links, id, links.len() + 1).no_duplicates(),
    ensures
        restore_chain(links, id) is Ok || (restore_chain(links, id) matches Err(Some(m)) && lookup_parent(links, m) is None),
{
    let fuel: nat = links.len() + 1;
    match chain_back(links, id, fuel) {
        Ok(_) => {},
        Err(Some(_)) => {
            lemma_chain_back_missing(links, id, fuel);
        },
        Err(None) => {
            lemma_unending_chain_walk(links, id, fuel);
            let w = parent_walk(links, id, fuel);
            let ids = link_ids(links);
            w.unique_seq_to_set();
            ids.lemma_cardinality_of_set();
            assert(w.to_set().subset_of(ids.to_set())) by {
                assert forall|x: Seq<char>| w.to_set().contains(x) implies ids.to_set().contains(x) by {
                    let i = choose|i: int| 0 <= i < w.len() && w[i] == x;
                    assert(ids.contains(w[i]));
                }
            }
            vstd::seq_lib::seq_to_set_is_finite(ids);
            vstd::set_lib::lemma_len_subset(w.to_set(), ids.to_set());
            assert(false);
        },
    }
}

/// The parent recorded for `id` by the first link naming it.
fn find_parent(links: &Vec<(String, Option<String>)>, id: &str) -> (r: Option<Option<String>>)
    ensures
        match r {
            None => lookup_parent(links_view(links@), id@) is None,
            Some(p) => lookup_parent(links_view(links@), id@) == Some(opt_view(p)),
        },
{
    let ghost lv = links_view(links@);
    let n = links.len();
    let mut i: usize = 0;
    assert(lv.skip(0) =~= lv);
    while i < n
        invariant
            n == links@.len(),
            lv == links_view(links@),
            i <= n,
            lookup_parent(lv, id@) == lookup_parent(lv.skip(i as int), id@),
        decreases n - i,
    {
        assert(lv.skip(i as int)[0] == lv[i as int]);
        assert(lv.skip(i as int).drop_first() =~= lv.skip(i as int + 1));
        if crate::utils::text::equals_str(&links[i].0, id) {
            let p = match &links[i].1 {
                Some(s) => Some(s.clone()),
                None => None,
            };
            return Some(p);
        }
        i = i + 1;
    }
    None
}

/// A list of strings in reverse order.
fn reversed(v: Vec<String>) -> (r: Vec<String>)
    ensures
        strings_view(r@) == strings_view(v@).reverse(),
{
    let mut r: Vec<String> = Vec::new();
    let n = v.len();
    let mut i: usize = n;
    while i > 0
        invariant
            n == v@.len(),
            i <= n,
            r@.len() == n - i,
            forall|k: int| 0 <= k < n - i ==> #[trigger] r@[k]@ == v@[n - 1 - k]@,
        decreases i,
    {
        i = i - 1;
        r.push(v[i].clone());
    }
    assert(strings_view(r@) =~= strings_view(v@).reverse());
    r
}

/// A full backup.
pub open spec fn is_full(b: BackupSnapshot) -> bool {
    b.backup_type@ == "full"@
}

/// The position of the last full backup of a list.
pub open spec fn last_full_index(s: Seq<BackupSnapshot>) -> Option<int>
    decreases s.len(),
{
    if s.len() == 0 {
        None
    } else if is_full(s.last()) {
        Some(s.len() - 1)
    } else {
        last_full_index(s.drop_last())
    }
}

/// The id of the last full backup of a list (the latest, in a list ordered
/// by time).
pub fn latest_full_id(backups: &Vec<BackupSnapshot>) -> (r: Option<String>)
    ensures
        match last_full_index(backups@) {
            Some(i) => r matches Some(id) && id@ == backups@[i].id@,
            None => r is None,
        },
{
    let mut i: usize = backups.len();
    assert(backups@.take(i as int) =~= backups@);
    while i > 0
        invariant
            i <= backups@.len(),
            last_full_index(backups@) == last_full_index(backups@.take(i as int)),
        decreases i,
    {
        let ghost t = backups@.take(i as int);
        assert(t.drop_last() =~= backups@.take(i as int - 1));
        if equals_str(&backups[i - 1].backup_type, "full") {
            return Some(backups[i - 1].id.clone());
        }
        i = i - 1;
    }
    None
}

/// The id of a snapshot of `backup_type` drawn with the UUID text `uuid`: the
/// type, a hyphen and the first group of the UUID (its first 8 hex digits).
pub open spec fn snapshot_id(backup_type: Seq<char>, uuid: Seq<char>) -> Seq<char> {
    backup_type + "-"@ + uuid.take(8)
}

/// The id a new snapshot of `backup_type` gets: the type, a hyphen and the
/// first group of a random version-4 UUID (8 lowercase hex digits).
pub open spec fn is_snapshot_id_for(id: Seq<char>, backup_type: Seq<char>) -> bool {
    exists|u: Seq<char>| #[trigger] is_hyphenated_uuid(u) && id == snapshot_id(backup_type, u)
}

/// The id of a snapshot of `backup_type` drawn with the UUID text `uuid`.
pub fn snapshot_id_from_uuid(backup_type: &str, uuid: &str) -> (r: String)
    requires
        is_hyphenated_uuid(uuid@),
    ensures
        r@ == snapshot_id(backup_type@, uuid@),
{
    let mut id = String::from_str(backup_type);
    id.append("-");
    let mut i: usize = 0;
    while i < 8
        invariant
            i <= 8,
            is_hyphenated_uuid(uuid@),
            id@ == backup_type@ + "-"@ + uuid@.take(i as int),
        decreases 8 - i,
    {
        let c = uuid.get_char(i);
        push_char(&mut id, c);
        assert(uuid@.take(i as int + 1) =~= uuid@.take(i as int).push(c));
        i = i + 1;
    }
    id
}

/// Ids of one type drawn with two UUIDs are equal exactly when the first
/// groups of the UUIDs are: the id keeps the whole first group, so ids
/// drawn with different first groups never collide.
pub proof fn lemma_snapshot_id_keeps_uuid_group(backup_type: Seq<char>, u: Seq<char>, v: Seq<char>)
    requires
        is_hyphenated_uuid(u),
        is_hyphenated_uuid(v),
    ensures
        snapshot_id(backup_type, u) == snapshot_id(backup_type, v) <==> u.take(8) == v.take(8),
        snapshot_id(backup_type, u).len() == backup_type.len() + 9,
        snapshot_id(backup_type, u).subrange(backup_type.len() + 1int, backup_type.len() + 9int) == u.take(8),
{
    reveal_strlit("-");
    let a = snapshot_id(backup_type, u);
    let b = snapshot_id(backup_type, v);
    let n: int = backup_type.len() as int;
    assert(a.subrange(n + 1, n + 9) =~= u.take(8));
    assert(b.subrange(n + 1, n + 9) =~= v.take(8));
    if u.take(8) == v.take(8) {
        assert(a =~= b);
    }
}

/// A fresh snapshot id for `backup_type`, drawn with a new random UUID.
pub fn new_snapshot_id(backup_type: &str) -> (r: String)
    ensures
        is_snapshot_id_for(r@, backup_type@),
{
    let uuid = new_uuid_string();
    snapshot_id_from_uuid(backup_type, uuid.as_str())
}

/// The directory under the repository root that holds snapshots of a type.
pub open spec fn subdir_for(backup_type: Seq<char>) -> Seq<char> {
    if backup_type == "full"@ {
        "Full"@
    } else {
        "Incremental"@
    }
}

/// The directory under the repository root that holds snapshots of a type.
pub fn snapshot_subdir(backup_type: &str) -> (r: String)
    ensures
        r@ == subdir_for(backup_type@),
{
    let t = String::from_str(backup_type);
    if equals_str(&t, "full") {
        String::from_str("Full")
    } else {
        String::from_str("Incremental")
    }
}

/// What the repository records for a new snapshot: its id, the directory it
/// goes in, its listing entry and its manifest.
pub struct SnapshotPlan {
    pub id: String,
    pub subdir: String,
    pub snapshot: BackupSnapshot,
    pub manifest: Manifest,
}

/// An optional string copied.
fn copy_opt(o: &Option<String>) -> (r: Option<String>)
    ensures
        r == *o,
{
    match o {
        Some(s) => Some(s.clone()),
        None => None,
    }
}

/// The listing entry of a snapshot read from its manifest; a full backup is
/// listed without parent.
pub fn snapshot_from_manifest(manifest: &Manifest, full: bool) -> (r: BackupSnapshot)
    ensures
        r.id == manifest.snapshot_id,
        r.timestamp == manifest.created_at,
        r.backup_type@ == (if full { "full"@ } else { "incremental"@ }),
        r.block_count == manifest.block_count,
        r.total_size == manifest.total_size,
        r.label == manifest.label,
        r.parent_id == (if full { None } else { manifest.parent_id }),
{
    BackupSnapshot {
        id: manifest.snapshot_id.clone(),
        timestamp: manifest.created_at.clone(),
        backup_type: if full { String::from_str("full") } else { String::from_str("incremental") },
        block_count: manifest.block_count,
        total_size: manifest.total_size,
        label: manifest.label.clone(),
        parent_id: if full { None } else { copy_opt(&manifest.parent_id) },
    }
}

/// `a` was taken before `b`.
pub open spec fn time_lt(a: BackupSnapshot, b: BackupSnapshot) -> bool {
    text_lt(a.timestamp@, b.timestamp@)
}

/// Where `x` goes in a list ordered by time: after every entry not taken
/// later than it.
pub open spec fn insertion_point(s: Seq<BackupSnapshot>, x: BackupSnapshot) -> int
    decreases s.len(),
{
    if s.len() == 0 {
        0
    } else if time_lt(x, s.last()) {
        insertion_point(s.drop_last(), x)
    } else {
        s.len() as int
    }
}

/// A list ordered by time, entries of equal time in their first order.
pub open spec fn sorted_by_time(s: Seq<BackupSnapshot>) -> Seq<BackupSnapshot>
    decreases s.len(),
{
    if s.len() == 0 {
        s
    } else {
        let t = sorted_by_time(s.drop_last());
        t.insert(insertion_point(t, s.last()), s.last())
    }
}

/// No entry comes after a later-taken one.
pub open spec fn is_time_ordered(s: Seq<BackupSnapshot>) -> bool {
    forall|i: int, j: int| 0 <= i < j < s.len() ==> !time_lt(#[trigger] s[j], #[trigger] s[i])
}

proof fn lemma_insertion_point(s: Seq<BackupSnapshot>, x: BackupSnapshot)
    requires
        is_time_ordered(s),
    ensures
        0 <= insertion_point(s, x) <= s.len(),
        forall|i: int| 0 <= i < insertion_point(s, x) ==> !time_lt(x, #[trigger] s[i]),
        forall|i: int| insertion_point(s, x) <= i < s.len() ==> time_lt(x, #[trigger] s[i]),
    decreases s.len(),
{
    if s.len() > 0 {
        let p = insertion_point(s, x);
        if time_lt(x, s.last()) {
            let d = s.drop_last();
            assert(is_time_ordered(d));
            lemma_insertion_point(d, x);
            assert forall|i: int| 0 <= i < p implies !time_lt(x, #[trigger] s[i]) by {
                assert(s[i] == d[i]);
            }
            assert forall|i: int| p <= i < s.len() implies time_lt(x, #[trigger] s[i]) by {
                if i < s.len() - 1 {
                    assert(s[i] == d[i]);
                }
            }
        } else {
            assert forall|i: int| 0 <= i < p implies !time_lt(x, #[trigger] s[i]) by {
                if time_lt(x, s[i]) {
                    if i < s.len() - 1 {
                        assert(!time_lt(s.last(), s[i]));
                        lemma_text_lt_total(s.last().timestamp@, s[i].timestamp@);
                        if s.last().timestamp@ == s[i].timestamp@ {
                        } else {
                            lemma_text_lt_transitive(x.timestamp@, s[i].timestamp@, s.last().timestamp@);
                        }
                    }
                }
            }
        }
    }
}

/// Ordering by time gives an ordered list.
pub proof fn lemma_sorted_by_time_ordered(s: Seq<BackupSnapshot>)
    ensures
        is_time_ordered(sorted_by_time(s)),
    decreases s.len(),
{
    if s.len() > 0 {
        let t = sorted_by_time(s.drop_last());
        lemma_sorted_by_time_ordered(s.drop_last());
        let x = s.last();
        lemma_insertion_point(t, x);
        let p = insertion_point(t, x);
        let r = t.insert(p, x);
        assert forall|i: int, j: int| 0 <= i < j < r.len() implies !time_lt(#[trigger] r[j], #[trigger] r[i]) by {
            if i < p && j < p {
                assert(r[i] == t[i] && r[j] == t[j]);
            } else if i < p && j == p {
                assert(r[i] == t[i] && r[j] == x);
                assert(!time_lt(x, t[i]));
                lemma_text_lt_total(x.timestamp@, t[i].timestamp@);
                if x.timestamp@ == t[i].timestamp@ {
                    lemma_text_lt_irreflexive(x.timestamp@);
                }
            } else if i < p {
                assert(r[i] == t[i] && r[j] == t[j - 1]);
            } else if i == p {
                assert(r[i] == x && r[j] == t[j - 1]);
                assert(time_lt(x, t[j - 1]));
                lemma_text_lt_total(x.timestamp@, t[j - 1].timestamp@);
                if time_lt(t[j - 1], x) {
                    lemma_text_lt_transitive(x.timestamp@, t[j - 1].timestamp@, x.timestamp@);
                    lemma_text_lt_irreflexive(x.timestamp@);
                }
            } else {
                assert(r[i] == t[i - 1] && r[j] == t[j - 1]);
            }
        }
    }
}

/// Ordering by time keeps every entry, as often as it occurs.
pub proof fn lemma_sorted_by_time_permutes(s: Seq<BackupSnapshot>)
    ensures
        sorted_by_time(s).to_multiset() == s.to_multiset(),
        sorted_by_time(s).len() == s.len(),
    decreases s.len(),
{
    broadcast use {vstd::seq_lib::to_multiset_insert, vstd::seq_lib::to_multiset_build};

    if s.len() > 0 {
        lemma_sorted_by_time_permutes(s.drop_last());
        let t = sorted_by_time(s.drop_last());
        lemma_sorted_by_time_ordered(s.drop_last());
        lemma_insertion_point(t, s.last());
        assert(s.drop_last().push(s.last()) =~= s);
    }
}

/// Orders snapshots by time, keeping the first order among equal times.
pub fn sort_by_time(v: Vec<BackupSnapshot>) -> (r: Vec<BackupSnapshot>)
    ensures
        r@ == sorted_by_time(v@),
{
    let mut r: Vec<BackupSnapshot> = Vec::new();
    let n = v.len();
    let mut i: usize = 0;
    while i < n
        invariant
            n == v@.len(),
            i <= n,
            r@ == sorted_by_time(v@.take(i as int)),
        decreases n - i,
    {
        let x = v[i].duplicate();
        let ghost t = r@;
        proof {
            lemma_sorted_by_time_permutes(v@.take(i as int));
        }
        let mut j: usize = r.len();
        assert(t.take(t.len() as int) =~= t);
        while j > 0 && text_less(x.timestamp.as_str(), r[j - 1].timestamp.as_str())
            invariant
                r@ == t,
                j <= t.len(),
                insertion_point(t, x) == insertion_point(t.take(j as int), x),
            decreases j,
        {
            assert(t.take(j as int).drop_last() =~= t.take(j as int - 1));
            j = j - 1;
        }
        assert(t.take(t.len() as int) =~= t);
        assert(insertion_point(t, x) == j);
        r.insert(j, x);
        assert(v@.take(i as int + 1).drop_last() =~= v@.take(i as int));
        i = i + 1;
    }
    assert(v@.take(n as int) =~= v@);
    r
}

/// `b` is the listing entry of the snapshot described by `m`.
pub open spec fn is_entry_of(b: BackupSnapshot, m: Manifest, full: bool) -> bool {
    &&& b.id == m.snapshot_id
    &&& b.timestamp == m.created_at
    &&& b.backup_type@ == (if full { "full"@ } else { "incremental"@ })
    &&& b.block_count == m.block_count
    &&& b.total_size == m.total_size
    &&& b.label == m.label
    &&& b.parent_id == (if full { None } else { m.parent_id })
}

/// `u` lists the full manifests, then the incremental ones, in their order.
pub open spec fn is_listing_of(u: Seq<BackupSnapshot>, full: Seq<Manifest>, incremental: Seq<Manifest>) -> bool {
    &&& u.len() == full.len() + incremental.len()
    &&& forall|i: int| 0 <= i < full.len() ==> is_entry_of(#[trigger] u[i], full[i], true)
    &&& forall|i: int| 0 <= i < incremental.len() ==> is_entry_of(#[trigger] u[full.len() + i], incremental[i], false)
}

/// The listing of a repository from the manifests read in its full and in
/// its incremental directory, ordered by time.
pub fn list_backups(full: &Vec<Manifest>, incremental: &Vec<Manifest>) -> (r: Vec<BackupSnapshot>)
    ensures
        exists|u: Seq<BackupSnapshot>| is_listing_of(u, full@, incremental@) && r@ == sorted_by_time(u),
{
    let mut u: Vec<BackupSnapshot> = Vec::new();
    let nf = full.len();
    let mut i: usize = 0;
    while i < nf
        invariant
            nf == full@.len(),
            i <= nf,
            u@.len() == i,
            forall|k: int| 0 <= k < i ==> is_entry_of(#[trigger] u@[k], full@[k], true),
        decreases nf - i,
    {
        u.push(snapshot_from_manifest(&full[i], true));
        i = i + 1;
    }
    let ni = incremental.len();
    let mut j: usize = 0;
    while j < ni
        invariant
            nf == full@.len(),
            ni == incremental@.len(),
            j <= ni,
            u@.len() == nf + j,
            forall|k: int| 0 <= k < nf ==> is_entry_of(#[trigger] u@[k], full@[k], true),
            forall|k: int| 0 <= k < j ==> is_entry_of(#[trigger] u@[nf + k], incremental@[k], false),
        decreases ni - j,
    {
        u.push(snapshot_from_manifest(&incremental[j], false));
        j = j + 1;
    }
    let ghost w = u@;
    assert(is_listing_of(w, full@, incremental@));
    sort_by_time(u)
}

/// The message of a missing manifest.
pub open spec fn missing_manifest_message(id: Seq<char>) -> Seq<char> {
    "Missing manifest for snapshot: "@ + id
}

/// One issue for each listed snapshot whose manifest is missing, in order.
pub open spec fn missing_manifest_issues(backups: Seq<BackupSnapshot>, present: Seq<bool>) -> Seq<Seq<char>>
    decreases backups.len(),
{
    if backups.len() == 0 {
        Seq::empty()
    } else {
        let rest = missing_manifest_issues(backups.drop_last(), present.take(backups.len() - 1));
        if present[backups.len() - 1] {
            rest
        } else {
            rest.push(missing_manifest_message(backups.last().id@))
        }
    }
}

/// The issues found in a repository: missing metadata first, then each
/// missing manifest.
pub open spec fn validation_issues(metadata_exists: bool, backups: Seq<BackupSnapshot>, present: Seq<bool>) -> Seq<
    Seq<char>,
> {
    (if metadata_exists {
        Seq::empty()
    } else {
        seq!["metadata.json not found"@]
    }) + missing_manifest_issues(backups, present)
}

proof fn lemma_no_missing_manifests(backups: Seq<BackupSnapshot>, present: Seq<bool>)
    requires
        present.len() == backups.len(),
    ensures
        missing_manifest_issues(backups, present).len() == 0 <==> forall|i: int|
            0 <= i < present.len() ==> #[trigger] present[i],
    decreases backups.len(),
{
    if backups.len() > 0 {
        let n = backups.len() - 1;
        let p1 = present.take(n as int);
        lemma_no_missing_manifests(backups.drop_last(), p1);
        if forall|i: int| 0 <= i < present.len() ==> #[trigger] present[i] {
            assert forall|i: int| 0 <= i < p1.len() implies #[trigger] p1[i] by {
                assert(p1[i] == present[i]);
            }
        }
        if missing_manifest_issues(backups, present).len() == 0 {
            assert forall|i: int| 0 <= i < present.len() implies #[trigger] present[i] by {
                if i < n {
                    assert(p1[i] == present[i]);
                }
            }
        }
    }
}

/// A repository check passes exactly when the metadata file exists and every
/// listed snapshot has its manifest.
pub proof fn lemma_validation_passes_iff(metadata_exists: bool, backups: Seq<BackupSnapshot>, present: Seq<bool>)
    requires
        present.len() == backups.len(),
    ensures
        validation_issues(metadata_exists, backups, present).len() == 0 <==> metadata_exists && forall|i: int|
            0 <= i < present.len() ==> #[trigger] present[i],
{
    lemma_no_missing_manifests(backups, present);
}

/// The outcome of a repository check.
pub struct ValidationResult {
    ok: bool,
    issues: Vec<String>,
}

impl ValidationResult {
    /// Whether no issue was found.
    pub closed spec fn passed(&self) -> bool {
        self.ok
    }

    /// The issues found, in order.
    pub closed spec fn found(&self) -> Seq<Seq<char>> {
        strings_view(self.issues@)
    }

    /// Whether no issue was found.
    pub fn is_ok(&self) -> (r: bool)
        ensures
            r == self.passed(),
    {
        self.ok
    }

    /// The issues found, in order.
    pub fn issues(&self) -> (r: &[String])
        ensures
            strings_view(r@) == self.found(),
    {
        self.issues.as_slice()
    }
}

/// A hidden directory entry: its name starts with `.`.
pub open spec fn is_hidden_name(name: Seq<char>) -> bool {
    name.len() > 0 && name[0] == '.'
}

/// Whether a directory with entries of these names may receive a new
/// repository: every entry in it is hidden.
pub fn only_hidden_entries(names: &Vec<String>) -> (r: bool)
    ensures
        r == forall|i: int| 0 <= i < names@.len() ==> is_hidden_name(#[trigger] names@[i]@),
{
    let n = names.len();
    let mut i: usize = 0;
    while i < n
        invariant
            n == names@.len(),
            i <= n,
            forall|k: int| 0 <= k < i ==> is_hidden_name(#[trigger] names@[k]@),
        decreases n - i,
    {
        let name = names[i].as_str();
        if name.unicode_len() == 0 || name.get_char(0) != '.' {
            return false;
        }
        i = i + 1;
    }
    true
}

/// The record a repository keeps of itself (its metadata file).
pub struct RepositoryMetadata {
    pub version: u32,
    pub created_at: String,
    pub block_size: u32,
    pub compression_level: i32,
    pub encrypted: bool,
    pub total_snapshots: u64,
}

impl RepositoryMetadata {
    /// The record of a new repository: format 1, 4096-byte blocks, no
    /// snapshot yet, stamped with the current time.
    pub fn new(compression_level: i32, encrypted: bool) -> (r: Self)
        ensures
            r.version == 1,
            r.block_size == 4096,
            r.compression_level == compression_level,
            r.encrypted == encrypted,
            r.total_snapshots == 0,
    {
        RepositoryMetadata {
            version: 1,
            created_at: now_rfc3339(),
            block_size: 4096,
            compression_level,
            encrypted,
            total_snapshots: 0,
        }
    }

    /// Counts one more snapshot.
    pub fn record_snapshot(&mut self)
        requires
            old(self).total_snapshots < u64::MAX,
        ensures
            final(self).total_snapshots == old(self).total_snapshots + 1,
            final(self).version == old(self).version,
            final(self).created_at == old(self).created_at,
            final(self).block_size == old(self).block_size,
            final(self).compression_level == old(self).compression_level,
            final(self).encrypted == old(self).encrypted,
    {
        self.total_snapshots = self.total_snapshots + 1;
    }
}

/// Whether a list of strings holds `s`.
fn holds_string(v: &Vec<String>, s: &str) -> (r: bool)
    ensures
        r == strings_view(v@).contains(s@),
{
    let n = v.len();
    let mut i: usize = 0;
    while i < n
        invariant
            n == v@.len(),
            i <= n,
            forall|k: int| 0 <= k < i ==> v@[k]@ != s@,
        decreases n - i,
    {
        if equals_str(&v[i], s) {
            assert(strings_view(v@)[i as int] == s@);
            return true;
        }
        i = i + 1;
    }
    assert(!strings_view(v@).contains(s@)) by {
        if strings_view(v@).contains(s@) {
            let k = choose|k: int| 0 <= k < strings_view(v@).len() && strings_view(v@)[k] == s@;
            assert(v@[k]@ == s@);
        }
    }
    false
}

/// Whether following the parent links from `snapshot_id` ends: it meets no
/// snapshot twice (it then stops at a snapshot without parent or at one that
/// no link names).
pub fn restore_chain_ends(snapshot_id: &str, links: &Vec<(String, Option<String>)>) -> (r: bool)
    ensures
        r == parent_walk(links_view(links@), snapshot_id@, (links@.len() + 1) as nat).no_duplicates(),
{
    let ghost lv = links_view(links@);
    let ghost total: nat = (links@.len() + 1) as nat;
    let mut visited: Vec<String> = Vec::new();
    let mut current = String::from_str(snapshot_id);
    let mut left: u128 = links.len() as u128 + 1;
    assert(strings_view(visited@) + parent_walk(lv, current@, left as nat) =~= parent_walk(lv, current@, left as nat));
    loop
        invariant
            lv == links_view(links@),
            total == links@.len() + 1,
            left <= total,
            parent_walk(lv, snapshot_id@, total) == strings_view(visited@) + parent_walk(lv, current@, left as nat),
            strings_view(visited@).no_duplicates(),
        decreases left,
    {
        let ghost before = strings_view(visited@);
        let ghost walk = parent_walk(lv, snapshot_id@, total);
        if left == 0 {
            assert(walk =~= before);
            return true;
        }
        let ghost rest = parent_walk(lv, current@, left as nat);
        assert(rest[0] == current@);
        if holds_string(&visited, current.as_str()) {
            proof {
                let k = choose|k: int| 0 <= k < before.len() && before[k] == current@;
                assert(walk[k] == current@);
                assert(walk[before.len() as int] == current@);
            }
            return false;
        }
        assert((before.push(current@)).no_duplicates()) by {
            assert forall|i: int, j: int| 0 <= i < j < before.len() + 1 implies before.push(current@)[i]
                != before.push(current@)[j] by {
                if j == before.len() {
                    assert(before.push(current@)[i] == before[i]);
                }
            }
        }
        match find_parent(links, current.as_str()) {
            Some(Some(p)) => {
                let ghost cur = current@;
                visited.push(current);
                assert(strings_view(visited@) =~= before.push(cur));
                assert(rest == seq![cur] + parent_walk(lv, p@, (left - 1) as nat));
                assert(walk =~= strings_view(visited@) + parent_walk(lv, p@, (left - 1) as nat));
                current = p;
                left = left - 1;
            },
            _ => {
                assert(rest =~= seq![current@]);
                assert(walk =~= before.push(current@));
                return true;
            },
        }
    }
}

/// A repository with its root directory and block size.
pub struct Repository {
    root: String,
    block_size: u32,
}

impl Repository {
    /// The root directory.
    pub closed spec fn root_path(&self) -> Seq<char> {
        self.root@
    }

    /// The block size recorded in the repository's metadata.
    pub closed spec fn spec_block_size(&self) -> u32 {
        self.block_size
    }

    /// The repository at `root`, whose metadata records `block_size`.
    pub fn from_parts(root: String, block_size: u32) -> (r: Self)
        ensures
            r.root_path() == root@,
            r.spec_block_size() == block_size,
    {
        Repository { root, block_size }
    }

    /// The root directory.
    pub fn root(&self) -> (r: &str)
        ensures
            r@ == self.root_path(),
    {
        self.root.as_str()
    }

    /// The block size recorded in the repository's metadata.
    pub fn block_size(&self) -> (r: u32)
        ensures
            r == self.spec_block_size(),
    {
        self.block_size
    }

    /// What to record for a new snapshot of `backup_type` labelled `label`:
    /// a fresh id, the directory for its type, and a listing entry and
    /// manifest stamped with the current time. An incremental snapshot has as
    /// parent the latest full backup of `existing` (the current listing,
    /// ordered by time).
    pub fn create_snapshot(&self, label: &str, backup_type: &str, existing: &Vec<BackupSnapshot>) -> (r:
        SnapshotPlan)
        ensures
            is_snapshot_id_for(r.id@, backup_type@),
            r.subdir@ == subdir_for(backup_type@),
            r.snapshot.id == r.id,
            r.snapshot.backup_type@ == backup_type@,
            r.snapshot.block_count == 0,
            r.snapshot.total_size == 0,
            r.snapshot.label@ == label@,
            r.manifest.version == 1,
            r.manifest.snapshot_id@ == r.id@,
            r.manifest.backup_type@ == backup_type@,
            r.manifest.completed_at is None,
            !r.manifest.completed,
            r.manifest.block_size == self.spec_block_size(),
            r.manifest.block_count == 0,
            r.manifest.total_size == 0,
            !r.manifest.compressed,
            !r.manifest.encrypted,
            r.manifest.label@ == label@,
            r.manifest.block_hashes@.len() == 0,
            r.manifest.parent_id == r.snapshot.parent_id,
            backup_type@ == "incremental"@ ==> match last_full_index(existing@) {
                Some(i) => r.snapshot.parent_id matches Some(p) && p@ == existing@[i].id@,
                None => r.snapshot.parent_id is None,
            },
            backup_type@ != "incremental"@ ==> r.snapshot.parent_id is None,
    {
        let id = new_snapshot_id(backup_type);
        let subdir = snapshot_subdir(backup_type);
        let kind = String::from_str(backup_type);
        let parent_id = if equals_str(&kind, "incremental") {
            latest_full_id(existing)
        } else {
            None
        };
        let snapshot = BackupSnapshot {
            id: id.clone(),
            timestamp: now_rfc3339(),
            backup_type: String::from_str(backup_type),
            block_count: 0,
            total_size: 0,
            label: String::from_str(label),
            parent_id: copy_opt(&parent_id),
        };
        let mut manifest = Manifest::new(id.as_str(), backup_type, self.block_size);
        manifest.label = String::from_str(label);
        manifest.parent_id = parent_id;
        SnapshotPlan { id, subdir, snapshot, manifest }
    }

    /// Checks a repository from what was found on disk: whether its metadata
    /// file exists, its listed snapshots, and for each of them whether its
    /// manifest exists. Repairing is not supported; the flag changes nothing.
    pub fn validate(&self, repair: bool, metadata_exists: bool, backups: &Vec<BackupSnapshot>, manifest_present: &Vec<
        bool,
    >) -> (r: Result<ValidationResult, HelixError>)
        requires
            manifest_present@.len() == backups@.len(),
        ensures
            r matches Ok(v) && v.found() == validation_issues(metadata_exists, backups@, manifest_present@)
                && v.passed() == (v.found().len() == 0),
    {
        let mut issues: Vec<String> = Vec::new();
        let mut ok = true;
        if !metadata_exists {
            issues.push(String::from_str("metadata.json not found"));
            ok = false;
        }
        let ghost head = strings_view(issues@);
        assert(head == (if metadata_exists {
            Seq::<Seq<char>>::empty()
        } else {
            seq!["metadata.json not found"@]
        }));
        let n = backups.len();
        let mut i: usize = 0;
        while i < n
            invariant
                n == backups@.len(),
                n == manifest_present@.len(),
                i <= n,
                strings_view(issues@) == head + missing_manifest_issues(
                    backups@.take(i as int),
                    manifest_present@.take(i as int),
                ),
                ok == (strings_view(issues@).len() == 0),
            decreases n - i,
        {
            let ghost before = strings_view(issues@);
            assert(backups@.take(i as int + 1).drop_last() =~= backups@.take(i as int));
            assert(manifest_present@.take(i as int + 1).take(i as int) =~= manifest_present@.take(i as int));
            if !manifest_present[i] {
                let mut msg = String::from_str("Missing manifest for snapshot: ");
                msg.append(backups[i].id.as_str());
                issues.push(msg);
                assert(strings_view(issues@) =~= before.push(missing_manifest_message(backups@[i as int].id@)));
                ok = false;
            }
            i = i + 1;
        }
        assert(backups@.take(n as int) =~= backups@);
        assert(manifest_present@.take(n as int) =~= manifest_present@);
        Ok(ValidationResult { ok, issues })
    }

    /// The snapshots to apply, oldest first, to restore `snapshot_id`, found
    /// by following the parent links `(snapshot id, parent id)` of the
    /// repository's manifests from the snapshot back to one without parent.
    /// Links that lead round in a circle are left out (following them never
    /// ends); `restore_chain_ends` tells them apart.
    pub fn build_restore_chain(&self, snapshot_id: &str, links: &Vec<(String, Option<String>)>) -> (r: Result<
        Vec<String>,
        HelixError,
    >)
        requires
            parent_walk(links_view(links@), snapshot_id@, (links@.len() + 1) as nat).no_duplicates(),
        ensures
            match restore_chain(links_view(links@), snapshot_id@) {
                Ok(c) => r matches Ok(v) && strings_view(v@) == c,
                Err(e) => r matches Err(HelixError::NotFound(msg)) && e matches Some(m) && msg@ == not_found_message(
                    m,
                ),
            },
    {
        let ghost lv = links_view(links@);
        let ghost total: nat = (links@.len() + 1) as nat;
        proof {
            lemma_restore_chain_without_cycle(lv, snapshot_id@);
        }
        let ghost mut fuel: nat = total;
        let mut back: Vec<String> = Vec::new();
        let mut current = String::from_str(snapshot_id);
        loop
            invariant_except_break
                chain_back(lv, snapshot_id@, total) == prefixed_chain(
                    strings_view(back@),
                    chain_back(lv, current@, fuel),
                ),
            invariant
                lv == links_view(links@),
                total == links@.len() + 1,
                !(chain_back(lv, snapshot_id@, total) matches Err(None)),
            ensures
                chain_back(lv, snapshot_id@, total) == Ok::<Seq<Seq<char>>, Option<Seq<char>>>(strings_view(back@)),
            decreases fuel,
        {
            assert(fuel > 0);
            match find_parent(links, current.as_str()) {
                None => {
                    let mut msg = String::from_str("Snapshot '");
                    msg.append(current.as_str());
                    msg.append("' not found");
                    return Err(HelixError::NotFound(msg));
                },
                Some(None) => {
                    let ghost before = strings_view(back@);
                    back.push(current);
                    assert(strings_view(back@) =~= before + seq![current@]);
                    break;
                },
                Some(Some(p)) => {
                    let ghost before = strings_view(back@);
                    let ghost cur = current@;
                    back.push(current);
                    assert(strings_view(back@) =~= before + seq![cur]);
                    proof {
                        let tail = chain_back(lv, p@, (fuel - 1) as nat);
                        match tail {
                            Ok(s) => {
                                assert(before + (seq![cur] + s) =~= (before + seq![cur]) + s);
                            },
                            Err(_) => {},
                        }
                        fuel = (fuel - 1) as nat;
                    }
                    current = p;
                },
            }
        }
        let chain = reversed(back);
        Ok(chain)
    }
}

} // verus!
