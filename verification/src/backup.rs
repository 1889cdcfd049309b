//! The rules around a server backup: what it leaves out, the claim that
//! admits one backup or restore per entry at a time, how world saving is
//! resumed after a live backup, and what the caller is told when resuming
//! fails. The archive, the console and the clock are the caller's.

use vstd::prelude::*;

use crate::launch::contains_string;

verus! {

/// What a server backup skips and a restore carries over: the server jar of
/// the record's current version, then `libraries`, `logs`, `cache` and the
/// managed `mods` mirror, all of which the launcher re-creates.
pub open spec fn excludes_spec(primary: Seq<char>) -> Seq<Seq<char>> {
    seq![primary, "libraries"@, "logs"@, "cache"@, "mods"@]
}

/// What a server backup skips, given the file name of the server's jar.
pub fn server_backup_excludes(primary_filename: &str) -> (r: Vec<String>)
    ensures
        r.deep_view() == excludes_spec(primary_filename@),
{
    let mut r: Vec<String> = Vec::new();
    r.push(String::from_str(primary_filename));
    r.push(String::from_str("libraries"));
    r.push(String::from_str("logs"));
    r.push(String::from_str("cache"));
    r.push(String::from_str("mods"));
    assert(r.deep_view() =~= excludes_spec(primary_filename@));
    r
}

/// The entries a backup or restore is running for.
#[derive(Debug, Clone)]
pub struct BackupClaims {
    active: Vec<String>,
}

impl BackupClaims {
    /// Whether a backup or restore holds `key`.
    pub closed spec fn holds(&self, key: Seq<char>) -> bool {
        self.active.deep_view().contains(key)
    }

    /// No claim held.
    pub fn new() -> (r: BackupClaims)
        ensures
            forall|k: Seq<char>| !r.holds(k),
    {
        BackupClaims { active: Vec::new() }
    }

    /// Claim `key` for one backup or restore: granted only when no other
    /// holds it, and then held until released.
    pub fn claim(&mut self, key: &String) -> (granted: bool)
        ensures
            granted == !old(self).holds(key@),
            forall|k: Seq<char>| #[trigger] final(self).holds(k) <==> (old(self).holds(k) || k == key@),
    {
        if contains_string(&self.active, key) {
            return false;
        }
        let ghost before = self.active.deep_view();
        self.active.push(key.clone());
        assert(self.active.deep_view() =~= before.push(key@));
        assert forall|k: Seq<char>| #[trigger] self.holds(k) <==> (before.contains(k) || k == key@) by {
            if before.contains(k) {
                let w = choose|w: int| 0 <= w < before.len() && before[w] == k;
                assert(self.active.deep_view()[w] == k);
            }
            if k == key@ {
                assert(self.active.deep_view()[before.len() as int] == k);
            }
        }
        true
    }

    /// Give `key` back once its backup or restore is over.
    pub fn release(&mut self, key: &String)
        ensures
            forall|k: Seq<char>| #[trigger] final(self).holds(k) <==> (old(self).holds(k) && k != key@),
    {
        let ghost before = self.active.deep_view();
        let mut kept: Vec<String> = Vec::new();
        let mut i: usize = 0;
        while i < self.active.len()
            invariant
                before == self.active.deep_view(),
                i <= before.len(),
                forall|k: Seq<char>| #[trigger] kept.deep_view().contains(k) <==> (exists|j: int|
                    0 <= j < i && before[j] == k) && k != key@,
            decreases self.active.len() - i,
        {
            let item = self.active[i].clone();
            let ghost kb = kept.deep_view();
            if item != *key {
                kept.push(item);
                assert(kept.deep_view() =~= kb.push(before[i as int]));
            }
            assert forall|k: Seq<char>| #[trigger] kept.deep_view().contains(k) <==> (exists|j: int|
                0 <= j < i + 1 && before[j] == k) && k != key@ by {
                if kept.deep_view().contains(k) {
                    let w = choose|w: int| 0 <= w < kept.deep_view().len() && kept.deep_view()[w] == k;
                    if w < kb.len() {
                        assert(kb[w] == k);
                        assert(kb.contains(k));
                    } else {
                        assert(before[i as int] == k);
                    }
                }
                if (exists|j: int| 0 <= j < i + 1 && before[j] == k) && k != key@ {
                    let j = choose|j: int| 0 <= j < i + 1 && before[j] == k;
                    if j < i {
                        assert(kb.contains(k));
                        let w = choose|w: int| 0 <= w < kb.len() && kb[w] == k;
                        assert(kept.deep_view()[w] == k);
                    } else {
                        assert(kept.deep_view()[kb.len() as int] == k);
                    }
                }
            }
            i += 1;
        }
        self.active = kept;
        assert forall|k: Seq<char>| #[trigger] self.holds(k) <==> (before.contains(k) && k != key@) by {
            if before.contains(k) {
                let w = choose|w: int| 0 <= w < before.len() && before[w] == k;
                assert(exists|j: int| 0 <= j < before.len() && before[j] == k);
            }
        }
    }
}

/// How many times `save-on` is tried after a live backup.
pub const RESUME_ATTEMPTS: u32 = 5;

/// Seconds to wait before resume attempt `attempt` (counting from 0): none
/// before the first, five before each retry.
pub fn resume_wait(attempt: u32) -> (r: u64)
    ensures
        r == (if attempt == 0 {
            0u64
        } else {
            5u64
        }),
{
    if attempt == 0 {
        0
    } else {
        5
    }
}

/// What a backup answers once the archive pass and, for a live server, the
/// resumption of world saving are over.
#[derive(Debug, Clone, Copy, PartialEq, Eq, Structural)]
pub enum BackupVerdict {
    /// The archive pass's own outcome stands.
    AsArchived,
    /// The archive exists, but the world no longer saves: the caller must be
    /// told to run `save-on` by hand.
    SavingStillOff,
}

/// The verdict on a backup: a failed resumption after a successful archive
/// outweighs it; an archive failure is reported as itself either way.
pub fn backup_verdict(archived: bool, resumed: Option<bool>) -> (r: BackupVerdict)
    ensures
        r == (if archived && resumed == Some(false) {
            BackupVerdict::SavingStillOff
        } else {
            BackupVerdict::AsArchived
        }),
{
    match resumed {
        Some(false) => if archived {
            BackupVerdict::SavingStillOff
        } else {
            BackupVerdict::AsArchived
        },
        _ => BackupVerdict::AsArchived,
    }
}

/// The claim a backup or restore of a server takes: `server-<id>`.
pub fn server_claim_key(id: &str) -> (r: String)
    ensures
        r@ == "server-"@ + id@,
{
    let mut out: Vec<char> = Vec::new();
    crate::text::push_str(&mut out, "server-");
    crate::text::push_str(&mut out, id);
    crate::text::string_of(&out)
}

} // verus!
