//! The instance and profile stores: where each keeps its entries, and what
//! each change does to a record. Finding a record on disk and writing it back
//! are the caller's.

use vstd::prelude::*;

use vstd::string::StringExecFns;

use crate::launch::{first_not_flag, join, join_str, memory_spec, path_join, words, JavaSettings, SettingError};
use crate::profile::InstanceProfile;
use crate::text::{chars_of, last_index, push_str, rfind_char, str_eq, string_of, sub_chars, trim};

verus! {

/// The game directory's name inside an instance directory.
pub const DATA: &'static str = "data";

/// One client instance, as its `instance.json` records it.
#[derive(Debug, Clone, Default)]
pub struct InstanceRecord {
    pub id: String,
    pub name: String,
    pub created_unix: i64,
    /// Unix time of the most recent launch; `None` until first played.
    pub last_played_unix: Option<i64>,
    /// Cumulative seconds played, accumulated as each session exits.
    pub playtime_seconds: i64,
    /// Per-entry JVM tuning injected at each launch.
    pub jvm: JavaSettings,
    pub profile: InstanceProfile,
}

/// Why a JVM setting of an instance could not be read or written.
#[derive(Debug, Clone, PartialEq, Eq)]
pub enum ConfigError {
    /// The key is neither `memory` nor `jvm-args`; it carries the key.
    UnknownKey(String),
    /// The value was refused.
    Invalid(SettingError),
}

impl ConfigError {
    /// The message a user is shown: an unknown key is named together with
    /// the valid keys, `memory` and `jvm-args`; a refused value says why.
    pub fn message(&self) -> (r: String)
        ensures
            self matches ConfigError::UnknownKey(k) ==> r@ == "unknown key '"@ + k@ + "' (valid keys: memory, jvm-args)"@,
            self matches ConfigError::Invalid(e) ==> (e is Memory ==> r@ == "memory must look like 4G or 2048M"@)
                && (e matches SettingError::NotAFlag(t) ==> r@ == "jvm arguments must start with '-' (got '"@ + t@ + "')"@),
    {
        match self {
            ConfigError::UnknownKey(key) => {
                let mut out: Vec<char> = Vec::new();
                push_str(&mut out, "unknown key '");
                push_str(&mut out, key.as_str());
                push_str(&mut out, "' (valid keys: memory, jvm-args)");
                string_of(&out)
            },
            ConfigError::Invalid(e) => e.message(),
        }
    }
}

/// The instance store: every instance lives in a directory under `dir`.
#[derive(Debug, Clone)]
pub struct Instances {
    dir: String,
}

impl Instances {
    /// The directory instances live under.
    pub closed spec fn dir_spec(&self) -> Seq<char> {
        self.dir@
    }

    /// A store over `dir`.
    pub fn new(dir: String) -> (r: Instances)
        ensures
            r.dir_spec() == dir@,
    {
        Instances { dir }
    }

    /// Point the store at another directory.
    pub fn reload(&mut self, dir: String)
        ensures
            final(self).dir_spec() == dir@,
    {
        self.dir = dir;
    }

    /// The directory instances live under.
    pub fn dir(&self) -> (r: String)
        ensures
            r@ == self.dir_spec(),
    {
        self.dir.clone()
    }

    /// Stamp the most recent launch of `record` at `now_unix`, so the next
    /// launch no longer counts as a first play. Nothing else changes.
    pub fn mark_launched(&self, record: &mut InstanceRecord, now_unix: i64)
        ensures
            *final(record) == (InstanceRecord { last_played_unix: Some(now_unix), ..*old(record) }),
    {
        record.last_played_unix = Some(now_unix);
    }

    /// Add an exited session's duration to the playtime; a non-positive
    /// duration changes nothing. Whether the record changed (and so is to be
    /// written back) is returned.
    pub fn add_playtime(&self, record: &mut InstanceRecord, seconds: i64) -> (changed: bool)
        requires
            seconds > 0 ==> old(record).playtime_seconds + seconds <= i64::MAX,
        ensures
            changed == (seconds > 0),
            seconds <= 0 ==> *final(record) == *old(record),
            seconds > 0 ==> *final(record) == (InstanceRecord {
                playtime_seconds: (old(record).playtime_seconds + seconds) as i64,
                ..*old(record)
            }),
    {
        if seconds <= 0 {
            return false;
        }
        record.playtime_seconds = record.playtime_seconds + seconds;
        true
    }

    /// One JVM setting of `record`: `Ok(None)` when unset; an unknown key is
    /// refused.
    pub fn config_get(&self, record: &InstanceRecord, key: &str) -> (r: Result<Option<String>, ConfigError>)
        ensures
            key@ == "memory"@ ==> r == Ok::<Option<String>, ConfigError>(record.jvm.memory),
            key@ == "jvm-args"@ ==> (r matches Ok(v) && (record.jvm.jvm_args@.len() == 0 ==> v is None)
                && (record.jvm.jvm_args@.len() > 0 ==> (v matches Some(s) && s@ == join(
                record.jvm.jvm_args.deep_view(),
                " "@,
            )))),
            key@ != "memory"@ && key@ != "jvm-args"@ ==> (r matches Err(ConfigError::UnknownKey(k))
                && k@ == key@),
    {
        match record.jvm.get(key) {
            Some(v) => Ok(v),
            None => Err(ConfigError::UnknownKey(String::from_str(key))),
        }
    }

    /// Write one JVM setting of `record`; an empty value clears it. An unknown
    /// key or a refused value leaves the record as it was.
    pub fn config_set(&self, record: &mut InstanceRecord, key: &str, value: &str) -> (r: Result<(), ConfigError>)
        ensures
            r is Ok ==> *final(record) == (InstanceRecord { jvm: final(record).jvm, ..*old(record) }),
            r is Err ==> *final(record) == *old(record),
            key@ == "memory"@ ==> (trim(value@).len() == 0 ==> r is Ok && final(record).jvm.memory is None
                && final(record).jvm.jvm_args == old(record).jvm.jvm_args),
            key@ == "memory"@ ==> (trim(value@).len() > 0 ==> match memory_spec(value@) {
                Some(m) => r is Ok && (final(record).jvm.memory matches Some(s) && s@ == m)
                    && final(record).jvm.jvm_args == old(record).jvm.jvm_args,
                None => r == Err::<(), ConfigError>(ConfigError::Invalid(SettingError::Memory)),
            }),
            key@ == "jvm-args"@ ==> match first_not_flag(words(value@)) {
                Some(t) => r matches Err(ConfigError::Invalid(SettingError::NotAFlag(s))) && s@ == t,
                None => r is Ok && final(record).jvm.jvm_args.deep_view() == words(value@)
                    && final(record).jvm.memory == old(record).jvm.memory,
            },
            key@ != "memory"@ && key@ != "jvm-args"@ ==> (r matches Err(ConfigError::UnknownKey(k))
                && k@ == key@),
    {
        match record.jvm.set(key, value) {
            Ok(true) => Ok(()),
            Ok(false) => Err(ConfigError::UnknownKey(String::from_str(key))),
            Err(e) => Err(ConfigError::Invalid(e)),
        }
    }

    /// Both JVM settings of `record` with their values, empty when unset.
    pub fn config_list(&self, record: &InstanceRecord) -> (r: Vec<(String, String)>)
        ensures
            r@.len() == 2,
            r@[0].0@ == "memory"@,
            r@[0].1@ == (match record.jvm.memory {
                Some(m) => m@,
                None => Seq::<char>::empty(),
            }),
            r@[1].0@ == "jvm-args"@,
            r@[1].1@ == join(record.jvm.jvm_args.deep_view(), " "@),
    {
        record.jvm.entries()
    }
}

/// The global content-profile store: one `<name>.json` per profile under
/// `dir`.
#[derive(Debug, Clone)]
pub struct Profiles {
    dir: String,
}

/// The profile a file in the store holds: the file's stem when its
/// extension is `json`. A leading dot does not start an extension.
pub open spec fn profile_name_spec(file_name: Seq<char>) -> Option<Seq<char>> {
    match last_index(file_name, '.') {
        Some(i) => if i > 0 && file_name.skip(i + 1) == "json"@ {
            Some(file_name.take(i))
        } else {
            None
        },
        None => None,
    }
}

/// The profile a file in the store holds, if it is a profile file.
pub fn profile_name(file_name: &str) -> (r: Option<String>)
    ensures
        r matches Some(n) ==> profile_name_spec(file_name@) == Some(n@),
        r is None ==> profile_name_spec(file_name@) is None,
{
    let cs = chars_of(file_name);
    match rfind_char(&cs, '.') {
        Some(i) => {
            if i == 0 {
                return None;
            }
            let n = cs.len();
            assert(i < n);
            let ext = sub_chars(&cs, i + 1, n);
            let e = string_of(&ext);
            assert(ext@ =~= cs@.skip(i + 1));
            if str_eq(e.as_str(), "json") {
                let stem = sub_chars(&cs, 0, i);
                assert(stem@ =~= cs@.take(i as int));
                Some(string_of(&stem))
            } else {
                None
            }
        },
        None => None,
    }
}

impl Profiles {
    /// The directory profiles live under.
    pub closed spec fn dir_spec(&self) -> Seq<char> {
        self.dir@
    }

    /// A store over `dir`.
    pub fn new(dir: String) -> (r: Profiles)
        ensures
            r.dir_spec() == dir@,
    {
        Profiles { dir }
    }

    /// Point the store at another directory.
    pub fn reload(&mut self, dir: String)
        ensures
            final(self).dir_spec() == dir@,
    {
        self.dir = dir;
    }

    /// The directory profiles live under.
    pub fn dir(&self) -> (r: String)
        ensures
            r@ == self.dir_spec(),
    {
        self.dir.clone()
    }

    /// The file a profile of canonical name `name` is kept in.
    pub fn file_of(&self, name: &str) -> (r: String)
        ensures
            r@ == path_join(self.dir_spec(), name@ + ".json"@),
    {
        let mut file = chars_of(name);
        push_str(&mut file, ".json");
        let f = string_of(&file);
        join_str(self.dir.as_str(), f.as_str())
    }
}

} // verus!
