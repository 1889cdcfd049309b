//! The instance's multiplayer list (`servers.dat`): finding an entry by what
//! a person would call it, and moving one among the rows a person sees.

use vstd::prelude::*;

use crate::launch::{join_str, path_join};
use crate::text::{chars_of, eq_ignore_case, eq_ignore_case_exec, trim, trim_str};

verus! {

/// The file the in-game server list lives in.
pub const FILE: &'static str = "servers.dat";

/// One row of the multiplayer list.
#[derive(Debug, Clone, Default, PartialEq, Eq)]
pub struct ServerEntry {
    pub name: String,
    pub address: String,
    pub icon: String,
    pub accept_textures: bool,
    /// A scratch row the game keeps out of the visible list.
    pub hidden: bool,
}

/// Where the list lives under a game directory.
pub fn path(game_dir: &str) -> (r: String)
    ensures
        r@ == path_join(game_dir@, "servers.dat"@),
{
    join_str(game_dir, "servers.dat")
}

/// The first index whose entry's name (or, with `by_address`, address)
/// equals `key` ignoring ASCII case.
pub open spec fn first_match(s: Seq<ServerEntry>, key: Seq<char>, by_address: bool) -> Option<int>
    decreases s.len(),
{
    if s.len() == 0 {
        None
    } else if eq_ignore_case(if by_address {
        s[0].address@
    } else {
        s[0].name@
    }, key) {
        Some(0)
    } else {
        match first_match(s.drop_first(), key, by_address) {
            Some(k) => Some(k + 1),
            None => None,
        }
    }
}

/// Where an entry is found by name or address: the first whose name matches
/// the trimmed reference ignoring ASCII case, else the first whose address
/// does.
pub open spec fn find_spec(s: Seq<ServerEntry>, reference: Seq<char>) -> Option<int> {
    match first_match(s, trim(reference), false) {
        Some(i) => Some(i),
        None => first_match(s, trim(reference), true),
    }
}

fn first_match_exec(servers: &Vec<ServerEntry>, key: &Vec<char>, by_address: bool) -> (r: Option<usize>)
    ensures
        r matches Some(i) ==> first_match(servers@, key@, by_address) == Some(i as int),
        r is None ==> first_match(servers@, key@, by_address) is None,
{
    let ghost s = servers@;
    let mut i: usize = 0;
    assert(s.skip(0) =~= s);
    while i < servers.len()
        invariant
            s == servers@,
            i <= s.len(),
            first_match(s, key@, by_address) == (match first_match(s.skip(i as int), key@, by_address) {
                Some(k) => Some(k + i),
                None => None,
            }),
        decreases servers.len() - i,
    {
        let field = if by_address {
            chars_of(servers[i].address.as_str())
        } else {
            chars_of(servers[i].name.as_str())
        };
        assert(s.skip(i as int)[0] == s[i as int]);
        if eq_ignore_case_exec(&field, key) {
            return Some(i);
        }
        assert(s.skip(i as int).drop_first() =~= s.skip(i + 1));
        i += 1;
    }
    assert(s.skip(s.len() as int) =~= Seq::<ServerEntry>::empty());
    None
}

/// Find an entry by name or by address, ignoring ASCII case.
pub fn find(servers: &Vec<ServerEntry>, reference: &str) -> (r: Option<usize>)
    ensures
        r matches Some(i) ==> find_spec(servers@, reference@) == Some(i as int),
        r is None ==> find_spec(servers@, reference@) is None,
{
    let key = trim_str(reference);
    match first_match_exec(servers, &key, false) {
        Some(i) => Some(i),
        None => first_match_exec(servers, &key, true),
    }
}

/// Where the `p`-th visible row of `s` sits: its index, `s.len()` when `p`
/// is just past the last visible row, and `None` beyond that. Hidden rows are
/// not counted.
pub open spec fn slot(s: Seq<ServerEntry>, p: nat) -> Option<int>
    decreases s.len(),
{
    if s.len() == 0 {
        if p == 0 {
            Some(0)
        } else {
            None
        }
    } else if !s[0].hidden {
        if p == 0 {
            Some(0)
        } else {
            match slot(s.drop_first(), (p - 1) as nat) {
                Some(k) => Some(k + 1),
                None => None,
            }
        }
    } else {
        match slot(s.drop_first(), p) {
            Some(k) => Some(k + 1),
            None => None,
        }
    }
}

proof fn lemma_slot_bound(s: Seq<ServerEntry>, p: nat)
    ensures
        slot(s, p) matches Some(k) ==> 0 <= k <= s.len(),
    decreases s.len(),
{
    if s.len() > 0 {
        if !s[0].hidden {
            if p > 0 {
                lemma_slot_bound(s.drop_first(), (p - 1) as nat);
            }
        } else {
            lemma_slot_bound(s.drop_first(), p);
        }
    }
}

/// What moving the entry at `index` to visible position `position` does:
/// the entry is taken out and put back before the row now holding that
/// visible position (or after the last row); a position past the end leaves
/// the list as it was.
pub open spec fn reposition_spec(s: Seq<ServerEntry>, index: int, position: nat) -> Option<Seq<ServerEntry>> {
    let rest = s.remove(index);
    match slot(rest, position) {
        Some(k) => Some(rest.insert(k, s[index])),
        None => None,
    }
}

/// Where the `position`-th visible row of `servers` sits.
pub fn visible_slot(servers: &Vec<ServerEntry>, position: usize) -> (r: Option<usize>)
    ensures
        r matches Some(k) ==> slot(servers@, position as nat) == Some(k as int),
        r is None ==> slot(servers@, position as nat) is None,
{
    let ghost rest = servers@;
    let n = servers.len();
    let mut seen: usize = 0;
    let mut j: usize = 0;
    assert(rest.skip(0) =~= rest);
    while j < n
        invariant
            n == rest.len(),
            rest == servers@,
            j <= n,
            seen <= position,
            slot(rest, position as nat) == (match slot(rest.skip(j as int), (position - seen) as nat) {
                Some(k) => Some(k + j),
                None => None,
            }),
        decreases n - j,
    {
        let ghost t = rest.skip(j as int);
        assert(t[0] == rest[j as int]);
        assert(t.drop_first() =~= rest.skip(j + 1));
        if !servers[j].hidden {
            if seen == position {
                return Some(j);
            }
            seen += 1;
        }
        j += 1;
    }
    assert(rest.skip(n as int) =~= Seq::<ServerEntry>::empty());
    if seen < position {
        None
    } else {
        Some(n)
    }
}

/// Move the entry at `index` to `position`, counted over the visible rows
/// only. `false` when the position is past the end, which leaves the list
/// untouched.
pub fn reposition(servers: &mut Vec<ServerEntry>, index: usize, position: usize) -> (r: bool)
    requires
        index < old(servers)@.len(),
    ensures
        match reposition_spec(old(servers)@, index as int, position as nat) {
            Some(moved) => r && final(servers)@ == moved,
            None => !r && final(servers)@ == old(servers)@,
        },
{
    let ghost before = servers@;
    let entry = servers.remove(index);
    let ghost rest = servers@;
    assert(rest =~= before.remove(index as int));
    match visible_slot(servers, position) {
        Some(at) => {
            proof {
                lemma_slot_bound(rest, position as nat);
            }
            servers.insert(at, entry);
            true
        },
        None => {
            servers.insert(index, entry);
            assert(servers@ =~= before);
            false
        },
    }
}


/// Moving an entry keeps the list's entries: the moved list holds exactly
/// the entries it held before, each as often.
pub proof fn lemma_reposition_keeps_entries(s: Seq<ServerEntry>, index: int, position: nat)
    requires
        0 <= index < s.len(),
        reposition_spec(s, index, position) is Some,
    ensures
        reposition_spec(s, index, position)->0.to_multiset() == s.to_multiset(),
        reposition_spec(s, index, position)->0.len() == s.len(),
{
    let rest = s.remove(index);
    let k = slot(rest, position)->0;
    lemma_slot_bound(rest, position);
    vstd::seq_lib::to_multiset_remove(s, index);
    vstd::seq_lib::to_multiset_insert(rest, k, s[index]);
    assert(s.to_multiset().remove(s[index]).insert(s[index]) =~= s.to_multiset()) by {
        vstd::seq_lib::to_multiset_contains(s, s[index]);
        broadcast use vstd::multiset::group_multiset_axioms;
    }
}

/// One row in `servers.dat`'s own spelling, every field optional in
/// practice: older versions and third-party editors omit what they do not
/// set, and an omission must not hide the row.
#[derive(Debug, Clone, Default, PartialEq, Eq)]
pub struct FileEntry {
    pub name: String,
    pub ip: String,
    pub icon: String,
    pub accept_textures: Option<i8>,
    pub hidden: Option<i8>,
}

/// A flag the file stores as a byte: set when present and non-zero.
pub open spec fn flag(b: Option<i8>) -> bool {
    match b {
        Some(v) => v != 0,
        None => false,
    }
}

/// The list row a file row reads as.
pub fn into_entry(e: FileEntry) -> (r: ServerEntry)
    ensures
        r == (ServerEntry {
            name: e.name,
            address: e.ip,
            icon: e.icon,
            accept_textures: flag(e.accept_textures),
            hidden: flag(e.hidden),
        }),
{
    let accept_textures = match e.accept_textures {
        Some(v) => v != 0,
        None => false,
    };
    let hidden = match e.hidden {
        Some(v) => v != 0,
        None => false,
    };
    ServerEntry { name: e.name, address: e.ip, icon: e.icon, accept_textures, hidden }
}

/// The file row a list row is written as: the texture flag always, the
/// hidden flag only on a hidden row.
pub fn from_entry(e: &ServerEntry) -> (r: FileEntry)
    ensures
        r.name == e.name,
        r.ip == e.address,
        r.icon == e.icon,
        r.accept_textures == Some(if e.accept_textures {
            1i8
        } else {
            0i8
        }),
        r.hidden == (if e.hidden {
            Some(1i8)
        } else {
            None
        }),
{
    FileEntry {
        name: e.name.clone(),
        ip: e.address.clone(),
        icon: e.icon.clone(),
        accept_textures: Some(if e.accept_textures { 1 } else { 0 }),
        hidden: if e.hidden { Some(1) } else { None },
    }
}

/// A list written to the file reads back as the same list.
pub proof fn lemma_entry_round_trip(e: ServerEntry, f: FileEntry)
    requires
        f.name == e.name,
        f.ip == e.address,
        f.icon == e.icon,
        f.accept_textures == Some(if e.accept_textures {
            1i8
        } else {
            0i8
        }),
        f.hidden == (if e.hidden {
            Some(1i8)
        } else {
            None
        }),
    ensures
        (ServerEntry {
            name: f.name,
            address: f.ip,
            icon: f.icon,
            accept_textures: flag(f.accept_textures),
            hidden: flag(f.hidden),
        }) == e,
{
}

/// Why an edit of the list was refused.
#[derive(Debug, Clone, PartialEq, Eq)]
pub enum ListEditError {
    /// An entry needs a name.
    NameRequired,
    /// No entry answers to the reference; it carries the reference.
    NotFound(String),
}

/// Whether `r` is `entry` as the list stores it: name and address trimmed,
/// the icon `icon`, the flags as given.
pub open spec fn stored_as(r: ServerEntry, entry: ServerEntry, icon: String) -> bool {
    &&& r.name@ == trim(entry.name@)
    &&& r.address@ == trim(entry.address@)
    &&& r.icon == icon
    &&& r.accept_textures == entry.accept_textures
    &&& r.hidden == entry.hidden
}

/// Add `entry` to the list, or, when `target` names one, rewrite that entry
/// in place keeping the icon the game cached for its row. The name and
/// address are stored trimmed; an empty name is refused, as is a target no
/// entry answers to.
pub fn edit_entry(list: &mut Vec<ServerEntry>, target: &str, entry: ServerEntry) -> (r: Result<(), ListEditError>)
    ensures
        trim(entry.name@).len() == 0 ==> r == Err::<(), ListEditError>(ListEditError::NameRequired) && final(list)@ == old(list)@,
        trim(entry.name@).len() > 0 && trim(target@).len() == 0 ==> r is Ok && final(list)@.len() == old(list)@.len() + 1
            && final(list)@.take(old(list)@.len() as int) == old(list)@ && stored_as(final(list)@.last(), entry, entry.icon),
        trim(entry.name@).len() > 0 && trim(target@).len() > 0 ==> match find_spec(old(list)@, target@) {
            None => (r matches Err(ListEditError::NotFound(t)) && t@ == target@) && final(list)@ == old(list)@,
            Some(i) => r is Ok && final(list)@.len() == old(list)@.len() && (forall|j: int|
                0 <= j < old(list)@.len() && j != i ==> final(list)@[j] == old(list)@[j]) && stored_as(
                final(list)@[i],
                entry,
                old(list)@[i].icon,
            ),
        },
{
    let name = trim_str(entry.name.as_str());
    if name.len() == 0 {
        return Err(ListEditError::NameRequired);
    }
    let address = trim_str(entry.address.as_str());
    let t = trim_str(target);
    if t.len() == 0 {
        list.push(
            ServerEntry {
                name: crate::text::string_of(&name),
                address: crate::text::string_of(&address),
                icon: entry.icon,
                accept_textures: entry.accept_textures,
                hidden: entry.hidden,
            },
        );
        return Ok(());
    }
    match find(list, target) {
        None => Err(ListEditError::NotFound(String::from_str(target))),
        Some(i) => {
            assert(i < list@.len()) by {
                lemma_find_bound(list@, target@);
            }
            let icon = list[i].icon.clone();
            list.set(
                i,
                ServerEntry {
                    name: crate::text::string_of(&name),
                    address: crate::text::string_of(&address),
                    icon,
                    accept_textures: entry.accept_textures,
                    hidden: entry.hidden,
                },
            );
            Ok(())
        },
    }
}

proof fn lemma_first_match_bound(s: Seq<ServerEntry>, key: Seq<char>, by_address: bool)
    ensures
        first_match(s, key, by_address) matches Some(i) ==> 0 <= i < s.len(),
    decreases s.len(),
{
    if s.len() > 0 {
        lemma_first_match_bound(s.drop_first(), key, by_address);
    }
}

proof fn lemma_find_bound(s: Seq<ServerEntry>, reference: Seq<char>)
    ensures
        find_spec(s, reference) matches Some(i) ==> 0 <= i < s.len(),
{
    lemma_first_match_bound(s, trim(reference), false);
    lemma_first_match_bound(s, trim(reference), true);
}

/// Take the entry `target` names out of the list.
pub fn remove_entry(list: &mut Vec<ServerEntry>, target: &str) -> (r: Result<(), ListEditError>)
    ensures
        match find_spec(old(list)@, target@) {
            None => (r matches Err(ListEditError::NotFound(t)) && t@ == target@) && final(list)@ == old(list)@,
            Some(i) => r is Ok && final(list)@ == old(list)@.remove(i),
        },
{
    match find(list, target) {
        None => Err(ListEditError::NotFound(String::from_str(target))),
        Some(i) => {
            proof {
                lemma_find_bound(list@, target@);
            }
            list.remove(i);
            Ok(())
        },
    }
}

} // verus!
