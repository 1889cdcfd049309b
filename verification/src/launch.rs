//! Turns a resolved profile plus materialised paths into the JVM invocation:
//! the per-entry JVM settings, classpath assembly and `${placeholder}`
//! substitution.

use vstd::prelude::*;

use crate::profile::{InstanceProfile, Library, ServerProfile};
use crate::text::{
    chars_eq, find_char, first_index, first_occ, first_occ_exec, occurs_at, sub_chars,
    chars_of, is_digit, is_digit_exec, is_whitespace, is_ws, push_all, push_str, str_eq,
    string_of, to_upper, trim, trim_str, upper, all_digits, last_index, rfind_char, has_sub,
};

verus! {

/// The reserved key for the memory setting.
pub const MEMORY_KEY: &'static str = "memory";

/// The reserved key for the extra JVM flags.
pub const JVM_ARGS_KEY: &'static str = "jvm-args";

/// Why a JVM setting was refused.
#[derive(Debug, Clone, PartialEq, Eq)]
pub enum SettingError {
    /// A memory value not of the form `4G` or `2048M`.
    Memory,
    /// A JVM argument that does not start with `-`; it carries the token.
    NotAFlag(String),
}

impl SettingError {
    /// The message a user is shown.
    pub fn message(&self) -> (r: String)
        ensures
            self is Memory ==> r@ == "memory must look like 4G or 2048M"@,
            self matches SettingError::NotAFlag(t) ==> r@ == "jvm arguments must start with '-' (got '"@ + t@ + "')"@,
    {
        match self {
            SettingError::Memory => String::from_str("memory must look like 4G or 2048M"),
            SettingError::NotAFlag(token) => {
                let mut out: Vec<char> = Vec::new();
                push_str(&mut out, "jvm arguments must start with '-' (got '");
                push_str(&mut out, token.as_str());
                push_str(&mut out, "')");
                string_of(&out)
            },
        }
    }
}

/// `parts` joined with `sep` between each neighbouring pair.
pub open spec fn join(parts: Seq<Seq<char>>, sep: Seq<char>) -> Seq<char>
    decreases parts.len(),
{
    if parts.len() == 0 {
        Seq::empty()
    } else if parts.len() == 1 {
        parts[0]
    } else {
        join(parts.drop_last(), sep) + sep + parts.last()
    }
}

/// `parts` joined with `sep`.
pub fn join_strings(parts: &Vec<String>, sep: &str) -> (r: String)
    ensures
        r@ == join(parts.deep_view(), sep@),
{
    let ghost all = parts.deep_view();
    let mut out: Vec<char> = Vec::new();
    let mut i: usize = 0;
    while i < parts.len()
        invariant
            all == parts.deep_view(),
            i <= all.len(),
            out@ == join(all.take(i as int), sep@),
        decreases parts.len() - i,
    {
        let ghost before = out@;
        if i > 0 {
            push_str(&mut out, sep);
        }
        push_str(&mut out, parts[i].as_str());
        assert(all.take(i + 1).drop_last() =~= all.take(i as int));
        assert(all[i as int] == parts@[i as int]@);
        if i == 0 {
            assert(out@ =~= join(all.take(1), sep@));
        }
        i += 1;
    }
    assert(all.take(all.len() as int) =~= all);
    string_of(&out)
}

/// The whitespace-separated words of `s`, in order (`str::split_whitespace`).
pub open spec fn words(s: Seq<char>) -> Seq<Seq<char>>
    decreases s.len(),
{
    if s.len() == 0 {
        Seq::empty()
    } else {
        let w = words(s.drop_last());
        let c = s.last();
        if is_ws(c) {
            w
        } else if s.len() >= 2 && !is_ws(s[s.len() - 2]) {
            w.update(w.len() - 1, w.last().push(c))
        } else {
            w.push(seq![c])
        }
    }
}

/// The whitespace-separated words of `text`.
pub fn split_words(text: &str) -> (r: Vec<String>)
    ensures
        r.deep_view() == words(text@),
{
    let cs = chars_of(text);
    let mut out: Vec<String> = Vec::new();
    let mut cur: Vec<char> = Vec::new();
    let mut i: usize = 0;
    while i < cs.len()
        invariant
            i <= cs@.len(),
            words(cs@.take(i as int)) == out.deep_view() + (if cur@.len() > 0 {
                seq![cur@]
            } else {
                Seq::<Seq<char>>::empty()
            }),
            (cur@.len() > 0) == (i > 0 && !is_ws(cs@[i - 1])),
        decreases cs.len() - i,
    {
        let c = cs[i];
        let ghost pre = cs@.take(i as int);
        let ghost post = cs@.take(i + 1);
        assert(post.drop_last() =~= pre);
        assert(post.last() == c);
        let ghost before = out.deep_view();
        let ghost cur_before = cur@;
        if is_whitespace(c) {
            if cur.len() > 0 {
                out.push(string_of(&cur));
                cur = Vec::new();
                assert(out.deep_view() =~= before.push(cur_before));
            }
            assert(words(post) == words(pre));
        } else {
            let had = cur.len() > 0;
            cur.push(c);
            if had {
                assert(post[post.len() - 2] == cs@[i - 1]);
                let ghost w = words(pre);
                assert(w =~= before.push(cur_before));
                assert(words(post) == w.update(w.len() - 1, w.last().push(c)));
                assert(words(post) =~= before.push(cur@));
            } else {
                assert(i > 0 ==> post[post.len() - 2] == cs@[i - 1]);
                assert(before + Seq::<Seq<char>>::empty() =~= before);
                assert(words(pre) == before);
                assert(words(post) == words(pre).push(seq![c]));
                assert(cur@ =~= seq![c]);
            }
        }
        i += 1;
    }
    assert(cs@.take(cs@.len() as int) =~= cs@);
    if cur.len() > 0 {
        let ghost before = out.deep_view();
        out.push(string_of(&cur));
        assert(out.deep_view() =~= before.push(cur@));
    } else {
        assert(out.deep_view() + Seq::<Seq<char>>::empty() =~= out.deep_view());
    }
    out
}

/// Whether `c` names a memory unit (k, m or g in either case).
pub open spec fn is_unit(c: char) -> bool {
    c == 'k' || c == 'm' || c == 'g' || c == 'K' || c == 'M' || c == 'G'
}

/// The normalised spelling of a memory value, or `None` when it is not
/// digits followed by one unit, with a nonzero number: the value is trimmed
/// and its unit upper-cased.
pub open spec fn memory_spec(value: Seq<char>) -> Option<Seq<char>> {
    let t = trim(value);
    if t.len() == 0 || !is_unit(t.last()) {
        None
    } else {
        let digits = t.drop_last();
        if digits.len() > 0 && all_digits(digits) && exists|i: int|
            0 <= i < digits.len() && digits[i] != '0' {
            Some(digits.push(upper(t.last())))
        } else {
            None
        }
    }
}

/// Validate and normalise a memory value such as `4g` into `4G`.
pub fn normalize_memory(value: &str) -> (r: Result<String, SettingError>)
    ensures
        memory_spec(value@) matches Some(m) ==> (r matches Ok(s) && s@ == m),
        memory_spec(value@) is None ==> r == Err::<String, SettingError>(SettingError::Memory),
{
    let t = trim_str(value);
    if t.len() == 0 {
        return Err(SettingError::Memory);
    }
    let unit = t[t.len() - 1];
    assert(unit == t@.last());
    if !(unit == 'k' || unit == 'm' || unit == 'g' || unit == 'K' || unit == 'M' || unit == 'G') {
        return Err(SettingError::Memory);
    }
    let n = t.len() - 1;
    let ghost digits = t@.drop_last();
    let mut all = true;
    let mut any_nonzero = false;
    let mut i: usize = 0;
    while i < n
        invariant
            n == t@.len() - 1,
            digits == t@.drop_last(),
            i <= n,
            all == (forall|k: int| 0 <= k < i ==> is_digit(#[trigger] digits[k])),
            any_nonzero == (exists|k: int| 0 <= k < i && digits[k] != '0'),
        decreases n - i,
    {
        let c = t[i];
        assert(c == digits[i as int]);
        if !is_digit_exec(c) {
            all = false;
        }
        if c != '0' {
            any_nonzero = true;
        }
        i += 1;
    }
    if n == 0 || !all || !any_nonzero {
        return Err(SettingError::Memory);
    }
    let mut out: Vec<char> = Vec::new();
    let mut j: usize = 0;
    while j < n
        invariant
            n == t@.len() - 1,
            j <= n,
            out@ == t@.take(j as int),
        decreases n - j,
    {
        out.push(t[j]);
        j += 1;
        assert(t@.take(j as int) =~= t@.take(j - 1).push(t@[j - 1]));
    }
    assert(out@ =~= digits);
    out.push(to_upper(unit));
    Ok(string_of(&out))
}

/// The first word that does not start with `-`.
pub open spec fn first_not_flag(ws: Seq<Seq<char>>) -> Option<Seq<char>>
    decreases ws.len(),
{
    if ws.len() == 0 {
        None
    } else if !(ws[0].len() > 0 && ws[0][0] == '-') {
        Some(ws[0])
    } else {
        first_not_flag(ws.drop_first())
    }
}

/// Split JVM args on whitespace; every word must start with `-`, else the
/// first that does not is refused.
pub fn parse_jvm_args(value: &str) -> (r: Result<Vec<String>, SettingError>)
    ensures
        first_not_flag(words(value@)) matches Some(t) ==> (r matches Err(SettingError::NotAFlag(s)) && s@ == t),
        first_not_flag(words(value@)) is None ==> (r matches Ok(v) && v.deep_view() == words(value@)),
{
    let ws = split_words(value);
    let ghost all = ws.deep_view();
    let mut i: usize = 0;
    assert(all.skip(0) =~= all);
    while i < ws.len()
        invariant
            all == ws.deep_view(),
            all == words(value@),
            i <= all.len(),
            first_not_flag(all) == first_not_flag(all.skip(i as int)),
        decreases ws.len() - i,
    {
        let w = chars_of(ws[i].as_str());
        assert(all.skip(i as int)[0] == w@);
        if !(w.len() > 0 && w[0] == '-') {
            assert(first_not_flag(all.skip(i as int)) == Some(w@));
            return Err(SettingError::NotAFlag(ws[i].clone()));
        }
        assert(all.skip(i as int).drop_first() =~= all.skip(i + 1));
        i += 1;
    }
    assert(all.skip(all.len() as int) =~= Seq::<Seq<char>>::empty());
    Ok(ws)
}

/// Per-entry JVM tuning: a single memory value driving both `-Xms` and
/// `-Xmx`, plus extra flags injected at launch.
#[derive(Debug, Clone, Default)]
pub struct JavaSettings {
    pub memory: Option<String>,
    pub jvm_args: Vec<String>,
}

/// The flags a memory setting contributes.
pub open spec fn memory_flags(memory: Option<String>) -> Seq<Seq<char>> {
    match memory {
        Some(m) => seq!["-Xms"@ + m@, "-Xmx"@ + m@],
        None => Seq::empty(),
    }
}

fn copy_option(o: &Option<String>) -> (r: Option<String>)
    ensures
        r == *o,
{
    match o {
        Some(s) => Some(s.clone()),
        None => None,
    }
}

/// A copy of a list of strings.
pub fn copy_strings(v: &Vec<String>) -> (r: Vec<String>)
    ensures
        r.deep_view() == v.deep_view(),
{
    let mut out: Vec<String> = Vec::new();
    append_all(&mut out, v);
    assert(Seq::<Seq<char>>::empty() + v.deep_view() =~= v.deep_view());
    out
}

/// The JVM arguments left after layering `outer` over `inner`: the outer
/// layer's when it sets any, else the inner's.
pub open spec fn layer_args(outer: Seq<Seq<char>>, inner: Seq<Seq<char>>) -> Seq<Seq<char>> {
    if outer.len() > 0 {
        outer
    } else {
        inner
    }
}

/// A flavor's recommended flags as a settings layer: flags only, never a
/// memory value.
pub fn flavor_defaults(jvm_args: &Vec<String>) -> (r: JavaSettings)
    ensures
        r.memory is None,
        r.jvm_args.deep_view() == jvm_args.deep_view(),
{
    JavaSettings { memory: None, jvm_args: copy_strings(jvm_args) }
}

/// Which settings layer supplies the JVM flags a server starts with.
#[derive(Debug, Clone, Copy, PartialEq, Eq, Structural)]
pub enum JvmArgsSource {
    Entry,
    Defaults,
    Flavor,
    Unset,
}

/// The innermost layer that sets any flags: the entry, then the launcher-wide
/// defaults, then the flavor's recommendation.
pub open spec fn source_of(entry: Seq<Seq<char>>, defaults: Seq<Seq<char>>, flavor: Seq<Seq<char>>) -> JvmArgsSource {
    if entry.len() > 0 {
        JvmArgsSource::Entry
    } else if defaults.len() > 0 {
        JvmArgsSource::Defaults
    } else if flavor.len() > 0 {
        JvmArgsSource::Flavor
    } else {
        JvmArgsSource::Unset
    }
}

/// Which layer supplies the flags, in the order `or_defaults` resolves them.
pub fn jvm_args_source(entry: &JavaSettings, defaults: &JavaSettings, flavor: &Vec<String>) -> (r: JvmArgsSource)
    ensures
        r == source_of(entry.jvm_args.deep_view(), defaults.jvm_args.deep_view(), flavor.deep_view()),
{
    if entry.jvm_args.len() > 0 {
        JvmArgsSource::Entry
    } else if defaults.jvm_args.len() > 0 {
        JvmArgsSource::Defaults
    } else if flavor.len() > 0 {
        JvmArgsSource::Flavor
    } else {
        JvmArgsSource::Unset
    }
}

/// The layer `jvm_args_source` names is the one whose flags the layered
/// settings carry: resolving entry over defaults over flavor yields that
/// layer's arguments, and none when it names no layer.
pub proof fn lemma_source_names_the_resolved_flags(
    entry: Seq<Seq<char>>,
    defaults: Seq<Seq<char>>,
    flavor: Seq<Seq<char>>,
)
    ensures
        ({
            let resolved = layer_args(layer_args(entry, defaults), flavor);
            match source_of(entry, defaults, flavor) {
                JvmArgsSource::Entry => resolved == entry,
                JvmArgsSource::Defaults => resolved == defaults,
                JvmArgsSource::Flavor => resolved == flavor,
                JvmArgsSource::Unset => resolved.len() == 0,
            }
        }),
{
}

impl JavaSettings {
    /// These settings with what they leave unset taken from `defaults`: the
    /// memory when none is set, the JVM arguments when there are none.
    pub fn or_defaults(&self, defaults: &JavaSettings) -> (r: JavaSettings)
        ensures
            r.memory == (if self.memory is Some {
                self.memory
            } else {
                defaults.memory
            }),
            r.jvm_args.deep_view() == layer_args(self.jvm_args.deep_view(), defaults.jvm_args.deep_view()),
    {
        let memory = match &self.memory {
            Some(m) => Some(m.clone()),
            None => copy_option(&defaults.memory),
        };
        let jvm_args = if self.jvm_args.len() > 0 {
            copy_strings(&self.jvm_args)
        } else {
            copy_strings(&defaults.jvm_args)
        };
        JavaSettings { memory, jvm_args }
    }

    /// The JVM flags these settings inject: the memory pair first, then the
    /// extra arguments.
    pub open spec fn flags_spec(&self) -> Seq<Seq<char>> {
        memory_flags(self.memory) + self.jvm_args.deep_view()
    }

    /// The current value of a JVM key, or `None` (outer) when `key` is not a
    /// JVM key; the inner `None` means the key is unset.
    pub fn get(&self, key: &str) -> (r: Option<Option<String>>)
        ensures
            key@ == "memory"@ ==> r == Some(self.memory),
            key@ == "jvm-args"@ ==> (r matches Some(inner) && (self.jvm_args@.len() == 0 ==> inner is None)
                && (self.jvm_args@.len() > 0 ==> (inner matches Some(s) && s@ == join(self.jvm_args.deep_view(), " "@)))),
            key@ != "memory"@ && key@ != "jvm-args"@ ==> r is None,
    {
        proof {
            reveal_strlit("memory");
            reveal_strlit("jvm-args");
            assert("memory"@.len() == 6);
            assert("jvm-args"@.len() == 8);
            assert("jvm-args"@ != "memory"@);
        }
        if str_eq(key, "memory") {
            Some(copy_option(&self.memory))
        } else if str_eq(key, "jvm-args") {
            if self.jvm_args.len() == 0 {
                Some(None)
            } else {
                Some(Some(join_strings(&self.jvm_args, " ")))
            }
        } else {
            None
        }
    }

    /// Apply a JVM key. `Ok(false)` means `key` is not a JVM key; an empty
    /// value clears the setting; an invalid value is refused and changes
    /// nothing.
    pub fn set(&mut self, key: &str, value: &str) -> (r: Result<bool, SettingError>)
        ensures
            key@ == "memory"@ ==> (trim(value@).len() == 0 ==> r == Ok::<bool, SettingError>(true) && final(self).memory is None && final(self).jvm_args == old(self).jvm_args),
            key@ == "memory"@ ==> (trim(value@).len() > 0 ==> match memory_spec(value@) {
                Some(m) => r == Ok::<bool, SettingError>(true) && (final(self).memory matches Some(s) && s@ == m) && final(self).jvm_args == old(self).jvm_args,
                None => r == Err::<bool, SettingError>(SettingError::Memory) && *final(self) == *old(self),
            }),
            key@ == "jvm-args"@ ==> match first_not_flag(words(value@)) {
                Some(t) => (r matches Err(SettingError::NotAFlag(s)) && s@ == t) && *final(self) == *old(self),
                None => r == Ok::<bool, SettingError>(true) && final(self).jvm_args.deep_view() == words(value@) && final(self).memory == old(self).memory,
            },
            key@ != "memory"@ && key@ != "jvm-args"@ ==> r == Ok::<bool, SettingError>(false) && *final(self) == *old(self),
    {
        proof {
            reveal_strlit("memory");
            reveal_strlit("jvm-args");
            assert("memory"@.len() == 6);
            assert("jvm-args"@.len() == 8);
            assert("jvm-args"@ != "memory"@);
        }
        if str_eq(key, "memory") {
            let t = trim_str(value);
            if t.len() == 0 {
                self.memory = None;
            } else {
                let m = normalize_memory(value)?;
                self.memory = Some(m);
            }
            Ok(true)
        } else if str_eq(key, "jvm-args") {
            let args = parse_jvm_args(value)?;
            self.jvm_args = args;
            Ok(true)
        } else {
            Ok(false)
        }
    }

    /// Both reserved keys with their current values, empty when unset.
    pub fn entries(&self) -> (r: Vec<(String, String)>)
        ensures
            r@.len() == 2,
            r@[0].0@ == "memory"@,
            r@[0].1@ == (match self.memory {
                Some(m) => m@,
                None => Seq::<char>::empty(),
            }),
            r@[1].0@ == "jvm-args"@,
            r@[1].1@ == join(self.jvm_args.deep_view(), " "@),
    {
        let memory = match &self.memory {
            Some(m) => m.clone(),
            None => String::new(),
        };
        let mut out: Vec<(String, String)> = Vec::new();
        out.push((String::from_str("memory"), memory));
        out.push((String::from_str("jvm-args"), join_strings(&self.jvm_args, " ")));
        out
    }

    /// The JVM flags these settings inject: `-Xms<m>` and `-Xmx<m>` for a
    /// memory value, then the extra arguments.
    pub fn flags(&self) -> (r: Vec<String>)
        ensures
            r.deep_view() == self.flags_spec(),
    {
        let mut out: Vec<String> = Vec::new();
        if let Some(memory) = &self.memory {
            let mut xms: Vec<char> = Vec::new();
            push_str(&mut xms, "-Xms");
            push_str(&mut xms, memory.as_str());
            let mut xmx: Vec<char> = Vec::new();
            push_str(&mut xmx, "-Xmx");
            push_str(&mut xmx, memory.as_str());
            out.push(string_of(&xms));
            out.push(string_of(&xmx));
        }
        let ghost head = out.deep_view();
        assert(head =~= memory_flags(self.memory));
        let ghost extra = self.jvm_args.deep_view();
        let mut i: usize = 0;
        while i < self.jvm_args.len()
            invariant
                head == memory_flags(self.memory),
                extra == self.jvm_args.deep_view(),
                i <= extra.len(),
                out.deep_view() == head + extra.take(i as int),
            decreases self.jvm_args.len() - i,
        {
            let ghost before = out.deep_view();
            let item = self.jvm_args[i].clone();
            assert(item@ == extra[i as int]);
            out.push(item);
            assert(out.deep_view() =~= before.push(extra[i as int]));
            assert(extra.take(i + 1) =~= extra.take(i as int).push(extra[i as int]));
            assert(out.deep_view() =~= head + extra.take(i + 1));
            i += 1;
        }
        assert(extra.take(extra.len() as int) =~= extra);
        out
    }
}

/// The classpath separator the JVM expects on a host: `;` on Windows, `:`
/// elsewhere.
pub open spec fn separator_spec(windows: bool) -> Seq<char> {
    if windows {
        ";"@
    } else {
        ":"@
    }
}

/// The classpath separator the JVM expects on a host.
pub fn classpath_separator(windows: bool) -> (r: &'static str)
    ensures
        r@ == separator_spec(windows),
{
    if windows {
        ";"
    } else {
        ":"
    }
}

/// The name the launcher reports to the game.
pub const LAUNCHER_NAME: &'static str = "hestia";

/// The version the launcher reports to the game.
pub const LAUNCHER_VERSION: &'static str = "0.1.0";

/// `relative` joined under `root` the way a Unix path join does: an absolute
/// `relative` stands alone, and one separator goes between the two.
pub open spec fn path_join(root: Seq<char>, rel: Seq<char>) -> Seq<char> {
    if rel.len() > 0 && rel[0] == '/' {
        rel
    } else if root.len() == 0 {
        rel
    } else if root.last() == '/' {
        root + rel
    } else {
        root + "/"@ + rel
    }
}

/// The index of the last separator in `p`, or -1 when it has none.
pub open spec fn last_sep(p: Seq<char>) -> int
    decreases p.len(),
{
    if p.len() == 0 {
        -1
    } else if p.last() == '/' {
        p.len() - 1
    } else {
        last_sep(p.drop_last())
    }
}

/// Where `last_sep` points: at a separator with none after it, or nowhere.
pub proof fn lemma_last_sep(p: Seq<char>)
    ensures
        -1 <= last_sep(p) < p.len(),
        last_sep(p) >= 0 ==> p[last_sep(p)] == '/',
        forall|k: int| last_sep(p) < k < p.len() ==> p[k] != '/',
    decreases p.len(),
{
    if p.len() > 0 && p.last() != '/' {
        lemma_last_sep(p.drop_last());
        assert forall|k: int| last_sep(p) < k < p.len() implies p[k] != '/' by {
            if k < p.len() - 1 {
                assert(p.drop_last()[k] == p[k]);
            }
        }
    }
}

proof fn lemma_last_sep_is(p: Seq<char>, i: int)
    requires
        -1 <= i < p.len(),
        i >= 0 ==> p[i] == '/',
        forall|k: int| i < k < p.len() ==> p[k] != '/',
    ensures
        last_sep(p) == i,
    decreases p.len(),
{
    if p.len() > 0 && i < p.len() - 1 {
        lemma_last_sep_is(p.drop_last(), i);
    }
}

/// Whether a relative `p` begins with a `.` component.
pub open spec fn cur_dir_lead(p: Seq<char>) -> bool {
    p.len() > 0 && p[0] == '.' && (p.len() == 1 || p[1] == '/')
}

/// Where the components of `p` begin: after the root separator of an
/// absolute path, or after the leading `.` of a relative one.
pub open spec fn body_start(p: Seq<char>) -> int {
    if p.len() > 0 && p[0] == '/' {
        1
    } else if cur_dir_lead(p) {
        1
    } else {
        0
    }
}

/// The last component of `p` past `floor`: where it starts, and how much of
/// `p` is left once it and the separator before it are taken off.
pub open spec fn comp_split(p: Seq<char>, floor: int) -> (int, int) {
    let i = last_sep(p);
    if i >= floor {
        (i + 1, i)
    } else {
        (floor, floor)
    }
}

/// `p` without the trailing separators and `.` components after `floor`,
/// the way a path's components read it from the back.
pub open spec fn trim_back(p: Seq<char>, floor: int) -> Seq<char>
    decreases p.len(),
{
    if p.len() <= floor || floor < 0 {
        p
    } else if p.last() == '/' {
        trim_back(p.drop_last(), floor)
    } else {
        let (s, rem) = comp_split(p, floor);
        if p.skip(s) == "."@ {
            proof {
                lemma_last_sep(p);
            }
            trim_back(p.take(rem), floor)
        } else {
            p
        }
    }
}

/// The directory holding `p`, as `Path::parent` reads it: the last component
/// (separators doubled or trailing, and `.` components, not counting) taken
/// off, with what is left trimmed the same way; empty for a bare name or a
/// lone `.`, `None` for the root or an empty path.
pub open spec fn parent_path(p: Seq<char>) -> Option<Seq<char>> {
    let floor = body_start(p);
    let t = trim_back(p, floor);
    if t.len() > floor {
        Some(trim_back(t.take(comp_split(t, floor).1), floor))
    } else if cur_dir_lead(p) {
        Some(Seq::empty())
    } else {
        None
    }
}

fn comp_split_exec(p: &Vec<char>, floor: usize) -> (r: (usize, usize))
    requires
        floor < p@.len(),
    ensures
        r.0 as int == comp_split(p@, floor as int).0,
        r.1 as int == comp_split(p@, floor as int).1,
        r.1 < p@.len(),
        r.0 <= p@.len(),
{
    proof {
        lemma_last_sep(p@);
    }
    match rfind_char(p, '/') {
        Some(i) => {
            proof {
                lemma_last_sep_is(p@, i as int);
            }
            assert(i < p.len());
            if i >= floor {
                (i + 1, i)
            } else {
                (floor, floor)
            }
        },
        None => {
            proof {
                lemma_last_sep_is(p@, -1);
            }
            (floor, floor)
        },
    }
}

fn trim_back_exec(p: &Vec<char>, floor: usize) -> (r: Vec<char>)
    ensures
        r@ == trim_back(p@, floor as int),
    decreases p@.len(),
{
    if p.len() <= floor {
        return sub_chars(p, 0, p.len());
    }
    if p[p.len() - 1] == '/' {
        let q = sub_chars(p, 0, p.len() - 1);
        assert(q@ =~= p@.drop_last());
        return trim_back_exec(&q, floor);
    }
    let (s, rem) = comp_split_exec(p, floor);
    proof {
        reveal_strlit(".");
    }
    let dot = p.len() - s == 1 && p[s] == '.';
    if dot {
        assert(p@.skip(s as int) =~= "."@);
    } else {
        proof {
            if p@.skip(s as int) == "."@ {
                assert("."@.len() == 1 && "."@[0] == '.');
                assert(p@.len() - s == 1);
                assert(p@.skip(s as int)[0] == p@[s as int]);
                assert(false);
            }
        }
    }
    if dot {
        let q = sub_chars(p, 0, rem);
        assert(q@ =~= p@.take(rem as int));
        trim_back_exec(&q, floor)
    } else {
        sub_chars(p, 0, p.len())
    }
}

/// The directory holding `p`.
pub fn parent_of(p: &str) -> (r: Option<String>)
    ensures
        r matches Some(d) ==> parent_path(p@) == Some(d@),
        r is None ==> parent_path(p@) is None,
{
    let cs = chars_of(p);
    let lead = cs.len() > 0 && cs[0] == '.' && (cs.len() == 1 || cs[1] == '/');
    let floor: usize = if cs.len() > 0 && cs[0] == '/' {
        1
    } else if lead {
        1
    } else {
        0
    };
    let t = trim_back_exec(&cs, floor);
    if t.len() > floor {
        let (_, rem) = comp_split_exec(&t, floor);
        let head = sub_chars(&t, 0, rem);
        assert(head@ =~= t@.take(rem as int));
        let d = trim_back_exec(&head, floor);
        Some(string_of(&d))
    } else if lead {
        Some(String::new())
    } else {
        None
    }
}

/// Append copies of every string of `more` to `out`.
pub fn append_all(out: &mut Vec<String>, more: &Vec<String>)
    ensures
        final(out).deep_view() == old(out).deep_view() + more.deep_view(),
{
    let ghost start = out.deep_view();
    let ghost extra = more.deep_view();
    let mut i: usize = 0;
    while i < more.len()
        invariant
            i <= extra.len(),
            extra == more.deep_view(),
            out.deep_view() == start + extra.take(i as int),
        decreases more.len() - i,
    {
        let item = more[i].clone();
        assert(item@ == extra[i as int]);
        let ghost before = out.deep_view();
        out.push(item);
        assert(out.deep_view() =~= before.push(item@));
        assert(extra.take(i + 1) =~= extra.take(i as int).push(item@));
        i += 1;
    }
    assert(extra.take(extra.len() as int) =~= extra);
}

/// `relative` joined under `root`.
pub fn join_str(root: &str, relative: &str) -> (r: String)
    ensures
        r@ == path_join(root@, relative@),
{
    let rc = chars_of(root);
    let rel = chars_of(relative);
    let mut out: Vec<char> = Vec::new();
    if rel.len() > 0 && rel[0] == '/' {
        push_all(&mut out, &rel);
    } else if rc.len() == 0 {
        push_all(&mut out, &rel);
    } else if rc[rc.len() - 1] == '/' {
        push_all(&mut out, &rc);
        push_all(&mut out, &rel);
    } else {
        push_all(&mut out, &rc);
        out.push('/');
        push_all(&mut out, &rel);
        proof {
            reveal_strlit("/");
        }
        assert(out@ =~= rc@ + "/"@ + rel@);
    }
    string_of(&out)
}

/// `s` with every repeat of an earlier item dropped, first occurrences kept in
/// order.
pub open spec fn dedup(s: Seq<Seq<char>>) -> Seq<Seq<char>>
    decreases s.len(),
{
    if s.len() == 0 {
        Seq::empty()
    } else {
        let d = dedup(s.drop_last());
        if d.contains(s.last()) {
            d
        } else {
            d.push(s.last())
        }
    }
}

/// Whether `entries` already holds `entry`.
pub fn contains_string(entries: &Vec<String>, entry: &String) -> (r: bool)
    ensures
        r == entries.deep_view().contains(entry@),
{
    let ghost all = entries.deep_view();
    let mut i: usize = 0;
    while i < entries.len()
        invariant
            all == entries.deep_view(),
            i <= all.len(),
            forall|k: int| 0 <= k < i ==> all[k] != entry@,
        decreases entries.len() - i,
    {
        if str_eq(entries[i].as_str(), entry.as_str()) {
            assert(all[i as int] == entry@);
            return true;
        }
        i += 1;
    }
    false
}

/// Append `entry` unless it is already present.
pub fn push_unique(entries: &mut Vec<String>, entry: String)
    ensures
        final(entries).deep_view() == (if old(entries).deep_view().contains(entry@) {
            old(entries).deep_view()
        } else {
            old(entries).deep_view().push(entry@)
        }),
{
    if !contains_string(entries, &entry) {
        let ghost before = entries.deep_view();
        let ghost e = entry@;
        entries.push(entry);
        assert(entries.deep_view() =~= before.push(e));
    }
}

/// The library paths of `libs` joined under `root`, in order.
pub open spec fn library_paths(libs: Seq<Library>, root: Seq<char>) -> Seq<Seq<char>> {
    Seq::new(libs.len(), |i: int| path_join(root, libs[i].path@))
}

/// The classpath entries for `libs` under `root`, without repeats, in order.
pub fn unique_library_paths(libs: &Vec<Library>, root: &str) -> (r: Vec<String>)
    ensures
        r.deep_view() == dedup(library_paths(libs@, root@)),
{
    let ghost all = library_paths(libs@, root@);
    let mut out: Vec<String> = Vec::new();
    let mut i: usize = 0;
    while i < libs.len()
        invariant
            all == library_paths(libs@, root@),
            i <= libs@.len(),
            out.deep_view() == dedup(all.take(i as int)),
        decreases libs.len() - i,
    {
        let entry = join_str(root, libs[i].path.as_str());
        assert(all.take(i + 1).drop_last() =~= all.take(i as int));
        assert(all.take(i + 1).last() == entry@);
        push_unique(&mut out, entry);
        i += 1;
    }
    assert(all.take(libs@.len() as int) =~= all);
    out
}

/// A ready-to-spawn process: program, arguments and working directory.
#[derive(Debug, Clone)]
pub struct LaunchPlan {
    pub program: String,
    pub args: Vec<String>,
    pub cwd: String,
}

/// The signed-in identity substituted into the client's auth placeholders.
#[derive(Debug, Clone)]
pub struct LaunchAccount {
    pub name: String,
    pub uuid: String,
    pub access_token: String,
}

/// Where the materialised instance pieces live.
#[derive(Debug, Clone)]
pub struct InstancePaths {
    pub game_dir: String,
    pub natives_dir: String,
    pub client_jar: String,
    pub libraries_root: String,
    pub assets_root: String,
}

/// What follows the JVM flags in a server invocation: `-jar <primary>` when
/// the profile names no main class, else a classpath of its libraries plus
/// the primary, then the main class.
pub open spec fn server_tail(profile: ServerProfile, windows: bool) -> Seq<Seq<char>> {
    if profile.main_class@.len() == 0 {
        seq!["-jar"@, profile.primary.filename@]
    } else {
        seq![
            "-cp"@,
            join(dedup(library_paths(profile.libraries@, "libraries"@)).push(profile.primary.filename@), separator_spec(windows)),
            profile.main_class@,
        ]
    }
}

/// The server invocation's arguments: the settings' flags, the jar or
/// classpath part (joined by the separator of the host, Windows or not), and
/// `nogui`.
pub open spec fn server_args(profile: ServerProfile, settings: JavaSettings, windows: bool) -> Seq<Seq<char>> {
    settings.flags_spec() + server_tail(profile, windows) + seq!["nogui"@]
}

/// Append a copy of `s` to `out`.
fn push_copy(out: &mut Vec<String>, s: &str)
    ensures
        final(out).deep_view() == old(out).deep_view().push(s@),
{
    let ghost before = out.deep_view();
    out.push(String::from_str(s));
    assert(out.deep_view() =~= before.push(s@));
}

/// The server invocation, run from the server directory; `windows` tells
/// which classpath separator the host's JVM expects.
pub fn server_plan(profile: &ServerProfile, java: &str, dir: &str, settings: &JavaSettings, windows: bool) -> (r: LaunchPlan)
    ensures
        r.program@ == java@,
        r.cwd@ == dir@,
        r.args.deep_view() == server_args(*profile, *settings, windows),
{
    let mut args = settings.flags();
    let ghost flags = args.deep_view();
    proof {
        reveal_strlit("-jar");
        reveal_strlit("-cp");
        reveal_strlit("nogui");
        reveal_strlit("libraries");
    }
    if profile.main_class.as_str().unicode_len() == 0 {
        push_copy(&mut args, "-jar");
        push_copy(&mut args, profile.primary.filename.as_str());
    } else {
        let mut entries = unique_library_paths(&profile.libraries, "libraries");
        let ghost unique = entries.deep_view();
        entries.push(profile.primary.filename.clone());
        assert(entries.deep_view() =~= unique.push(profile.primary.filename@));
        let classpath = join_strings(&entries, classpath_separator(windows));
        push_copy(&mut args, "-cp");
        push_copy(&mut args, classpath.as_str());
        push_copy(&mut args, profile.main_class.as_str());
    }
    push_copy(&mut args, "nogui");
    assert(args.deep_view() =~= server_args(*profile, *settings, windows));
    LaunchPlan { program: String::from_str(java), args, cwd: String::from_str(dir) }
}

/// The value a placeholder table gives `key`: the first entry's, or nothing.
pub open spec fn var_value(vars: Seq<(Seq<char>, Seq<char>)>, key: Seq<char>) -> Seq<char>
    decreases vars.len(),
{
    if vars.len() == 0 {
        Seq::empty()
    } else if vars[0].0 == key {
        vars[0].1
    } else {
        var_value(vars.drop_first(), key)
    }
}

/// The character view of a placeholder table.
pub open spec fn pair_views(vars: Seq<(String, String)>) -> Seq<(Seq<char>, Seq<char>)> {
    Seq::new(vars.len(), |i: int| (vars[i].0@, vars[i].1@))
}

/// Where the text after an opening `${` at `start` begins, kept in bounds.
pub open spec fn past_open(s: Seq<char>, start: int) -> int {
    if 0 <= start && start + 2 <= s.len() {
        start + 2
    } else {
        s.len() as int
    }
}

/// Where the text after a closing `}` at `end` begins, kept in bounds.
pub open spec fn past_close(s: Seq<char>, end: int) -> int {
    if 0 <= end && end < s.len() {
        end + 1
    } else {
        s.len() as int
    }
}

/// `s` with every `${key}` replaced by its value in `vars`; an unknown key
/// becomes empty, and an opening `${` with no closing `}` is left as it is.
#[verifier::opaque]
pub open spec fn subst(s: Seq<char>, vars: Seq<(Seq<char>, Seq<char>)>) -> Seq<char>
    decreases s.len(),
{
    match first_occ(s, "${"@) {
        None => s,
        Some(start) => {
            let after = s.skip(past_open(s, start));
            match first_index(after, '}') {
                Some(end) => s.take(start) + var_value(vars, after.take(end)) + subst(
                    after.skip(past_close(after, end)),
                    vars,
                ),
                None => s,
            }
        },
    }
}

proof fn lemma_subst_step(s: Seq<char>, vars: Seq<(Seq<char>, Seq<char>)>)
    ensures
        first_occ(s, "${"@) is None ==> subst(s, vars) == s,
        first_occ(s, "${"@) matches Some(start) ==> occurs_at(s, "${"@, start) ==> {
            let after = s.skip(start + 2);
            &&& first_index(after, '}') is None ==> subst(s, vars) == s
            &&& first_index(after, '}') matches Some(end) ==> 0 <= end < after.len() ==> subst(s, vars)
                == s.take(start) + var_value(vars, after.take(end)) + subst(after.skip(end + 1), vars)
        },
{
    reveal(subst);
    reveal_strlit("${");
}

fn lookup_var(vars: &Vec<(String, String)>, key: &Vec<char>) -> (r: Vec<char>)
    ensures
        r@ == var_value(pair_views(vars@), key@),
{
    let ghost table = pair_views(vars@);
    let mut i: usize = 0;
    assert(table.skip(0) =~= table);
    while i < vars.len()
        invariant
            table == pair_views(vars@),
            i <= vars@.len(),
            var_value(table, key@) == var_value(table.skip(i as int), key@),
        decreases vars.len() - i,
    {
        let name = chars_of(vars[i].0.as_str());
        assert(table.skip(i as int)[0] == (vars@[i as int].0@, vars@[i as int].1@));
        if chars_eq(&name, key) {
            return chars_of(vars[i].1.as_str());
        }
        assert(table.skip(i as int).drop_first() =~= table.skip(i + 1));
        i += 1;
    }
    assert(table.skip(vars@.len() as int) =~= Seq::<(Seq<char>, Seq<char>)>::empty());
    Vec::new()
}

/// Replace every `${key}` in `arg` with its value in `vars`.
pub fn substitute(arg: &str, vars: &Vec<(String, String)>) -> (r: String)
    ensures
        r@ == subst(arg@, pair_views(vars@)),
{
    let ghost table = pair_views(vars@);
    let open = chars_of("${");
    proof {
        reveal_strlit("${");
    }
    let mut out: Vec<char> = Vec::new();
    let mut rest = chars_of(arg);
    loop
        invariant
            table == pair_views(vars@),
            open@ == "${"@,
            out@ + subst(rest@, table) == subst(arg@, table),
        decreases rest@.len(),
    {
        let ghost whole = rest@;
        proof {
            reveal_strlit("${");
            lemma_subst_step(whole, table);
        }
        let start = match first_occ_exec(&rest, &open) {
            Some(st) => st,
            None => {
                push_all(&mut out, &rest);
                return string_of(&out);
            },
        };
        let n = rest.len();
        assert(start + 2 <= n);
        let after = sub_chars(&rest, start + 2, n);
        assert(after@ =~= whole.skip(start + 2));
        match find_char(&after, '}') {
            Some(end) => {
                let prefix = sub_chars(&rest, 0, start);
                let key = sub_chars(&after, 0, end);
                let value = lookup_var(vars, &key);
                let tail = sub_chars(&after, end + 1, after.len());
                assert(prefix@ =~= whole.take(start as int));
                assert(key@ =~= after@.take(end as int));
                assert(tail@ =~= after@.skip(end + 1));
                let ghost before = out@;
                push_all(&mut out, &prefix);
                push_all(&mut out, &value);
                assert(out@ + subst(tail@, table) =~= before + subst(whole, table));
                rest = tail;
            },
            None => {
                push_all(&mut out, &rest);
                return string_of(&out);
            },
        }
    }
}

/// Every argument of `args` substituted against `vars`.
pub open spec fn subst_all(args: Seq<Seq<char>>, vars: Seq<(Seq<char>, Seq<char>)>) -> Seq<Seq<char>> {
    Seq::new(args.len(), |i: int| subst(args[i], vars))
}

/// Every argument of `args` substituted against `vars`, in order.
pub fn substitute_all(args: &Vec<String>, vars: &Vec<(String, String)>) -> (r: Vec<String>)
    ensures
        r.deep_view() == subst_all(args.deep_view(), pair_views(vars@)),
{
    let ghost all = args.deep_view();
    let mut out: Vec<String> = Vec::new();
    let mut i: usize = 0;
    while i < args.len()
        invariant
            all == args.deep_view(),
            i <= all.len(),
            out.deep_view() == subst_all(all.take(i as int), pair_views(vars@)),
        decreases args.len() - i,
    {
        let ghost before = out.deep_view();
        let item = substitute(args[i].as_str(), vars);
        assert(args[i as int]@ == all[i as int]);
        out.push(item);
        assert(out.deep_view() =~= before.push(subst(all[i as int], pair_views(vars@))));
        assert(subst_all(all.take(i + 1), pair_views(vars@)) =~= subst_all(all.take(i as int), pair_views(vars@)).push(subst(all[i as int], pair_views(vars@))));
        i += 1;
    }
    assert(all.take(all.len() as int) =~= all);
    out
}

/// The placeholder table a client launch substitutes against.
pub open spec fn var_table(
    profile: InstanceProfile,
    paths: InstancePaths,
    account: LaunchAccount,
    classpath: Seq<char>,
) -> Seq<(Seq<char>, Seq<char>)> {
    seq![
        ("classpath"@, classpath),
        ("natives_directory"@, paths.natives_dir@),
        ("game_directory"@, paths.game_dir@),
        ("assets_root"@, paths.assets_root@),
        ("assets_index_name"@, profile.asset_index.id@),
        ("version_name"@, profile.game_version@),
        ("version_type"@, "release"@),
        ("launcher_name"@, "hestia"@),
        ("launcher_version"@, "0.1.0"@),
        ("auth_player_name"@, account.name@),
        ("auth_uuid"@, account.uuid@),
        ("auth_access_token"@, account.access_token@),
        ("auth_session"@, account.access_token@),
        ("user_type"@, "msa"@),
        ("user_properties"@, "{}"@),
        ("clientid"@, Seq::<char>::empty()),
        ("auth_xuid"@, Seq::<char>::empty()),
    ]
}

fn push_pair(out: &mut Vec<(String, String)>, key: &str, value: &str)
    ensures
        pair_views(final(out)@) == pair_views(old(out)@).push((key@, value@)),
{
    let ghost before = pair_views(out@);
    out.push((String::from_str(key), String::from_str(value)));
    assert(pair_views(out@) =~= before.push((key@, value@)));
}

/// The placeholder table a client launch substitutes against.
pub fn build_vars(
    profile: &InstanceProfile,
    paths: &InstancePaths,
    account: &LaunchAccount,
    classpath: &str,
) -> (r: Vec<(String, String)>)
    ensures
        pair_views(r@) == var_table(*profile, *paths, *account, classpath@),
{
    let mut out: Vec<(String, String)> = Vec::new();
    push_pair(&mut out, "classpath", classpath);
    push_pair(&mut out, "natives_directory", paths.natives_dir.as_str());
    push_pair(&mut out, "game_directory", paths.game_dir.as_str());
    push_pair(&mut out, "assets_root", paths.assets_root.as_str());
    push_pair(&mut out, "assets_index_name", profile.asset_index.id.as_str());
    push_pair(&mut out, "version_name", profile.game_version.as_str());
    push_pair(&mut out, "version_type", "release");
    push_pair(&mut out, "launcher_name", "hestia");
    push_pair(&mut out, "launcher_version", "0.1.0");
    push_pair(&mut out, "auth_player_name", account.name.as_str());
    push_pair(&mut out, "auth_uuid", account.uuid.as_str());
    push_pair(&mut out, "auth_access_token", account.access_token.as_str());
    push_pair(&mut out, "auth_session", account.access_token.as_str());
    push_pair(&mut out, "user_type", "msa");
    push_pair(&mut out, "user_properties", "{}");
    push_pair(&mut out, "clientid", "");
    push_pair(&mut out, "auth_xuid", "");
    proof {
        reveal_strlit("");
        assert(""@ =~= Seq::<char>::empty());
    }
    assert(pair_views(out@) =~= var_table(*profile, *paths, *account, classpath@));
    out
}

/// The client's classpath: its libraries under the libraries root without
/// repeats, then the client jar, joined by the host's separator.
pub open spec fn instance_classpath(profile: InstanceProfile, paths: InstancePaths, windows: bool) -> Seq<char> {
    join(dedup(library_paths(profile.libraries@, paths.libraries_root@)).push(paths.client_jar@), separator_spec(windows))
}

/// The client invocation's arguments: the manifest's JVM section substituted
/// (or a bare classpath when it has none), the user's flags, the main class,
/// then the substituted game arguments.
pub open spec fn instance_args(
    profile: InstanceProfile,
    paths: InstancePaths,
    account: LaunchAccount,
    settings: JavaSettings,
    windows: bool,
) -> Seq<Seq<char>> {
    let table = var_table(profile, paths, account, instance_classpath(profile, paths, windows));
    let jvm = if profile.jvm_args@.len() == 0 {
        seq!["-cp"@, var_value(table, "classpath"@)]
    } else {
        subst_all(profile.jvm_args.deep_view(), table)
    };
    jvm + settings.flags_spec() + seq![profile.main_class@] + subst_all(profile.game_args.deep_view(), table)
}

/// The client's classpath.
pub fn build_classpath(profile: &InstanceProfile, paths: &InstancePaths, windows: bool) -> (r: String)
    ensures
        r@ == instance_classpath(*profile, *paths, windows),
{
    let mut entries = unique_library_paths(&profile.libraries, paths.libraries_root.as_str());
    let ghost unique = entries.deep_view();
    entries.push(paths.client_jar.clone());
    assert(entries.deep_view() =~= unique.push(paths.client_jar@));
    join_strings(&entries, classpath_separator(windows))
}

fn extend_strings(out: &mut Vec<String>, more: &Vec<String>)
    ensures
        final(out).deep_view() == old(out).deep_view() + more.deep_view(),
{
    let ghost start = out.deep_view();
    let ghost extra = more.deep_view();
    let mut i: usize = 0;
    while i < more.len()
        invariant
            start == old(out).deep_view(),
            extra == more.deep_view(),
            i <= extra.len(),
            out.deep_view() == start + extra.take(i as int),
        decreases more.len() - i,
    {
        let ghost before = out.deep_view();
        let item = more[i].clone();
        out.push(item);
        assert(out.deep_view() =~= before.push(extra[i as int]));
        assert(extra.take(i + 1) =~= extra.take(i as int).push(extra[i as int]));
        i += 1;
    }
    assert(extra.take(extra.len() as int) =~= extra);
}

/// The client invocation, run from the instance's game directory; `windows`
/// tells which classpath separator the host's JVM expects.
pub fn instance_plan(
    profile: &InstanceProfile,
    java: &str,
    paths: &InstancePaths,
    account: &LaunchAccount,
    settings: &JavaSettings,
    windows: bool,
) -> (r: LaunchPlan)
    ensures
        r.program@ == java@,
        r.cwd@ == paths.game_dir@,
        r.args.deep_view() == instance_args(*profile, *paths, *account, *settings, windows),
{
    let classpath = build_classpath(profile, paths, windows);
    let vars = build_vars(profile, paths, account, classpath.as_str());
    let ghost table = var_table(*profile, *paths, *account, classpath@);
    let mut args: Vec<String> = Vec::new();
    proof {
        reveal_strlit("-cp");
        reveal_strlit("classpath");
        reveal_with_fuel(var_value, 2);
    }
    if profile.jvm_args.len() == 0 {
        push_copy(&mut args, "-cp");
        push_copy(&mut args, classpath.as_str());
        assert(var_value(table, "classpath"@) == classpath@);
    } else {
        let jvm = substitute_all(&profile.jvm_args, &vars);
        extend_strings(&mut args, &jvm);
    }
    let flags = settings.flags();
    extend_strings(&mut args, &flags);
    push_copy(&mut args, profile.main_class.as_str());
    let game = substitute_all(&profile.game_args, &vars);
    extend_strings(&mut args, &game);
    assert(args.deep_view() =~= instance_args(*profile, *paths, *account, *settings, windows));
    LaunchPlan { program: String::from_str(java), args, cwd: paths.game_dir.clone() }
}


/// Text that holds no `${` is left as it stands by substitution.
pub proof fn lemma_subst_plain(s: Seq<char>, vars: Seq<(Seq<char>, Seq<char>)>)
    requires
        !has_sub(s, "${"@),
    ensures
        subst(s, vars) == s,
{
    reveal(first_occ);
    lemma_subst_step(s, vars);
}

/// A classpath built by `dedup` names each entry once and loses none: it
/// holds exactly the entries of `s`, without repeats.
pub proof fn lemma_dedup_unique(s: Seq<Seq<char>>)
    ensures
        forall|i: int, j: int| 0 <= i < j < dedup(s).len() ==> dedup(s)[i] != dedup(s)[j],
        forall|x: Seq<char>| #[trigger] dedup(s).contains(x) <==> s.contains(x),
    decreases s.len(),
{
    if s.len() > 0 {
        let d = dedup(s.drop_last());
        lemma_dedup_unique(s.drop_last());
        assert forall|x: Seq<char>| #[trigger] dedup(s).contains(x) <==> s.contains(x) by {
            if s.contains(x) {
                let w = choose|w: int| 0 <= w < s.len() && s[w] == x;
                if w < s.len() - 1 {
                    assert(s.drop_last()[w] == x);
                    assert(s.drop_last().contains(x));
                    assert(d.contains(x));
                    let v = choose|v: int| 0 <= v < d.len() && d[v] == x;
                    if !d.contains(s.last()) {
                        assert(d.push(s.last())[v] == x);
                    }
                } else if !d.contains(s.last()) {
                    assert(d.push(s.last())[d.len() as int] == x);
                }
            }
            if dedup(s).contains(x) {
                let v = choose|v: int| 0 <= v < dedup(s).len() && dedup(s)[v] == x;
                if v < d.len() {
                    assert(d[v] == x);
                    assert(d.contains(x));
                    let w = choose|w: int| 0 <= w < s.drop_last().len() && s.drop_last()[w] == x;
                    assert(s[w] == x);
                } else {
                    assert(s[s.len() - 1] == x);
                }
            }
        }
    }
}

/// Digits spelling zero are all `0`.
proof fn lemma_zero_digits(d: Seq<char>)
    requires
        all_digits(d),
        forall|i: int| 0 <= i < d.len() ==> d[i] == '0',
    ensures
        crate::text::digits_value(d) == 0,
    decreases d.len(),
{
    if d.len() > 0 {
        lemma_zero_digits(d.drop_last());
    }
}

/// Every memory value made of digits spelling a positive number followed by
/// a unit is accepted, with its digits kept and its unit upper-cased: `10G`
/// stays `10G`, `512m` becomes `512M`.
pub proof fn lemma_positive_memory_is_accepted(d: Seq<char>, u: char)
    requires
        d.len() > 0,
        forall|i: int| 0 <= i < d.len() ==> '0' <= #[trigger] d[i] <= '9',
        crate::text::digits_value(d) > 0,
        u == 'k' || u == 'm' || u == 'g' || u == 'K' || u == 'M' || u == 'G',
    ensures
        (u == 'k' || u == 'K') ==> memory_spec(d.push(u)) == Some(d.push('K')),
        (u == 'm' || u == 'M') ==> memory_spec(d.push(u)) == Some(d.push('M')),
        (u == 'g' || u == 'G') ==> memory_spec(d.push(u)) == Some(d.push('G')),
{
    let s = d.push(u);
    assert(s[0] == d[0]);
    assert(!crate::text::is_ws(s[0]));
    assert(crate::text::trim_start(s) == s);
    assert(s.last() == u);
    assert(crate::text::trim_end(s) == s);
    assert(trim(s) == s);
    assert(s.drop_last() =~= d);
    assert(all_digits(d));
    if forall|i: int| 0 <= i < d.len() ==> d[i] == '0' {
        lemma_zero_digits(d);
    }
    assert(exists|i: int| 0 <= i < d.len() && d[i] != '0');
}

} // verus!
