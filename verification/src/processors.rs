//! The NeoForge install processors: which of the install profile's tools
//! run for a side, the `{TOKEN}` table their arguments substitute against,
//! and each processor's command line. Running the tools and reading their
//! jars are the caller's.

use vstd::prelude::*;

use vstd::string::StringExecFns;

use crate::installer::{zip_content, zip_entry_bytes, zip_entry_count, zip_entry_meta, zip_meta, zip_open};
use crate::json::{array_spec, get_spec, str_opt, str_spec, strings, strings_of, Json};
use crate::launch::{classpath_separator, join, join_str, join_strings, path_join, separator_spec};
use crate::meta::{items_of, maven_path, maven_path_spec};
use crate::text::{
    after_last, after_last_exec, chars_of, ends_with, first_index, lemma_split_nonempty,
    push_all, push_str, replace_all, replace_all_exec, split_char, split_on, starts_with,
    starts_with_str, str_eq, string_of, sub_chars, trim, trim_chars,
};

verus! {

/// Which half of the game an install is for.
#[derive(Debug, Clone, Copy, PartialEq, Eq, Structural)]
pub enum Side {
    Client,
    Server,
}

impl Side {
    /// The side's name in the install profile.
    pub open spec fn name_spec(self) -> Seq<char> {
        match self {
            Side::Client => "client"@,
            Side::Server => "server"@,
        }
    }

    /// The side's name in the install profile.
    pub fn as_str(self) -> (r: &'static str)
        ensures
            r@ == self.name_spec(),
    {
        match self {
            Side::Client => "client",
            Side::Server => "server",
        }
    }
}

/// What processing a NeoForge install refuses.
#[derive(Debug, Clone, PartialEq, Eq)]
pub enum ProcessorError {
    /// A value that should be a Maven coordinate is not one.
    NotACoordinate(String),
    /// The data table names a file the installer does not carry.
    MissingInstallerFile(String),
    /// A processor names no jar.
    NoJar,
}

/// Where an install writes and what it starts from.
#[derive(Debug, Clone)]
pub struct Install {
    /// The install root; the processors write `libraries/` beneath it.
    pub root: String,
    /// The installer jar itself, on disk.
    pub installer: String,
    /// The vanilla jar for this side.
    pub minecraft_jar: String,
    pub side: Side,
    pub java: String,
}

impl Install {
    /// The libraries root the processors read and write.
    pub fn libraries(&self) -> (r: String)
        ensures
            r@ == path_join(self.root@, "libraries"@),
    {
        join_str(self.root.as_str(), "libraries")
    }
}

/// Whether a processor runs on `side`: one naming no sides runs on both.
pub open spec fn runs_on_spec(processor: Json, side: Side) -> bool {
    match get_spec(processor, "sides"@) {
        Some(v) => match array_spec(v) {
            Some(sides) => strings(sides).contains(side.name_spec()),
            None => true,
        },
        None => true,
    }
}

/// Whether a processor runs on `side`.
pub fn runs_on(processor: &Json, side: Side) -> (r: bool)
    ensures
        r == runs_on_spec(*processor, side),
{
    let sides = match processor.get("sides") {
        Some(v) => match v.as_array() {
            Some(s) => s,
            None => return true,
        },
        None => return true,
    };
    let names = strings_of(sides);
    let want = side.as_str();
    let ghost all = names.deep_view();
    let mut i: usize = 0;
    while i < names.len()
        invariant
            all == names.deep_view(),
            all == strings(sides@),
            runs_on_spec(*processor, side) == strings(sides@).contains(side.name_spec()),
            want@ == side.name_spec(),
            i <= all.len(),
            forall|k: int| 0 <= k < i ==> all[k] != side.name_spec(),
        decreases names.len() - i,
    {
        if str_eq(names[i].as_str(), want) {
            assert(all[i as int] == side.name_spec());
            assert(all.contains(side.name_spec()));
            return true;
        }
        i += 1;
    }
    false
}

/// The processors of an install profile that run on `side`, as indices into
/// its `processors` array, in order.
pub fn wanted(profile: &Json, side: Side) -> (r: Vec<usize>)
    ensures
        forall|k: int| 0 <= k < r@.len() ==> #[trigger] r@[k] < crate::json::items_at(Some(*profile), "processors"@).len(),
        forall|k: int, m: int| 0 <= k < m < r@.len() ==> r@[k] < r@[m],
        forall|i: int|
            0 <= i < crate::json::items_at(Some(*profile), "processors"@).len() ==> (r@.contains(i as usize)
                <==> runs_on_spec(#[trigger] crate::json::items_at(Some(*profile), "processors"@)[i], side)),
{
    let mut out: Vec<usize> = Vec::new();
    let items = match items_of(Some(profile), "processors") {
        Some(items) => items,
        None => return out,
    };
    let mut i: usize = 0;
    while i < items.len()
        invariant
            i <= items@.len(),
            items@ == crate::json::items_at(Some(*profile), "processors"@),
            forall|k: int| 0 <= k < out@.len() ==> #[trigger] out@[k] < i,
            forall|k: int, m: int| 0 <= k < m < out@.len() ==> out@[k] < out@[m],
            forall|q: int| 0 <= q < i ==> (out@.contains(q as usize) <==> runs_on_spec(#[trigger] items@[q], side)),
        decreases items.len() - i,
    {
        let ghost before = out@;
        if runs_on(&items[i], side) {
            out.push(i);
            assert(out@[before.len() as int] == i);
        }
        assert forall|q: int| 0 <= q < i + 1 implies (out@.contains(q as usize) <==> runs_on_spec(
            #[trigger] items@[q],
            side,
        )) by {
            if q < i {
                if before.contains(q as usize) {
                    let w = choose|w: int| 0 <= w < before.len() && before[w] == q as usize;
                    assert(out@[w] == q as usize);
                }
                if out@.contains(q as usize) {
                    let w = choose|w: int| 0 <= w < out@.len() && out@[w] == q as usize;
                    if w < before.len() {
                        assert(before[w] == q as usize);
                    }
                }
            } else {
                if out@.contains(q as usize) {
                    let w = choose|w: int| 0 <= w < out@.len() && out@[w] == q as usize;
                    if w < before.len() {
                        assert(before[w] < i);
                    }
                }
            }
        }
        i += 1;
    }
    out
}

/// Where an installer `data/` entry is staged: its file name under
/// `.neoforge` in the root; the data table addresses it as `/` + its name.
pub fn staged_entry(root: &str, name: &str) -> (r: (String, String))
    ensures
        r.0@ == "/"@ + name@,
        r.1@ == path_join(path_join(root@, ".neoforge"@), after_last(name@, '/')),
{
    let mut key: Vec<char> = Vec::new();
    push_str(&mut key, "/");
    push_str(&mut key, name);
    let dir = join_str(root, ".neoforge");
    let file = after_last_exec(name, '/');
    (string_of(&key), join_str(dir.as_str(), file.as_str()))
}

/// A Maven coordinate's path under the libraries root.
pub open spec fn library_path_spec(libraries: Seq<char>, coord: Seq<char>) -> Option<Seq<char>> {
    match maven_path_spec(coord) {
        Some(rel) => Some(path_join(libraries, rel)),
        None => None,
    }
}

/// A Maven coordinate's path under the libraries root.
pub fn library_path(libraries: &str, coord: &str) -> (r: Result<String, ProcessorError>)
    ensures
        library_path_spec(libraries@, coord@) matches Some(p) ==> (r matches Ok(x) && x@ == p),
        library_path_spec(libraries@, coord@) is None ==> (r matches Err(
            ProcessorError::NotACoordinate(c),
        ) && c@ == coord@),
{
    match maven_path(coord) {
        Some(rel) => Ok(join_str(libraries, rel.as_str())),
        None => Err(ProcessorError::NotACoordinate(String::from_str(coord))),
    }
}

/// The coordinate a `[...]` value brackets, if it is bracketed.
pub open spec fn bracketed(raw: Seq<char>) -> Option<Seq<char>> {
    if raw.len() >= 2 && raw[0] == '[' && raw.last() == ']' {
        Some(raw.subrange(1, raw.len() - 1))
    } else {
        None
    }
}

/// The coordinate a `[...]` value brackets.
fn bracketed_exec(raw: &str) -> (r: Option<String>)
    ensures
        r matches Some(c) ==> bracketed(raw@) == Some(c@),
        r is None ==> bracketed(raw@) is None,
{
    let cs = chars_of(raw);
    let n = cs.len();
    if n >= 2 && cs[0] == '[' && cs[n - 1] == ']' {
        let inner = sub_chars(&cs, 1, n - 1);
        assert(inner@ =~= raw@.subrange(1, raw@.len() - 1));
        Some(string_of(&inner))
    } else {
        None
    }
}

/// The value stored under `key` in a table, the first such entry.
pub open spec fn table_get(table: Seq<(Seq<char>, Seq<char>)>, key: Seq<char>) -> Option<Seq<char>>
    decreases table.len(),
{
    if table.len() == 0 {
        None
    } else if table[0].0 == key {
        Some(table[0].1)
    } else {
        table_get(table.drop_first(), key)
    }
}

/// A table of string pairs as texts.
pub open spec fn pairs_view(table: Seq<(String, String)>) -> Seq<(Seq<char>, Seq<char>)> {
    table.map_values(|p: (String, String)| (p.0@, p.1@))
}

/// The value stored under `key`.
fn table_lookup(table: &Vec<(String, String)>, key: &str) -> (r: Option<String>)
    ensures
        r matches Some(v) ==> table_get(pairs_view(table@), key@) == Some(v@),
        r is None ==> table_get(pairs_view(table@), key@) is None,
{
    let ghost t = pairs_view(table@);
    let mut i: usize = 0;
    assert(t.skip(0) =~= t);
    while i < table.len()
        invariant
            t == pairs_view(table@),
            i <= t.len(),
            table_get(t, key@) == table_get(t.skip(i as int), key@),
        decreases table.len() - i,
    {
        assert(t.skip(i as int)[0] == t[i as int]);
        if str_eq(table[i].0.as_str(), key) {
            return Some(table[i].1.clone());
        }
        assert(t.skip(i as int).drop_first() =~= t.skip(i + 1));
        i += 1;
    }
    None
}

/// One data-table value for this install: a bracketed coordinate resolves to
/// its library path, a leading `/` names a staged installer file, anything
/// else is a literal.
pub open spec fn resolve_spec(raw: Seq<char>, libraries: Seq<char>, staged: Seq<(Seq<char>, Seq<char>)>) -> Result<Seq<char>, Seq<char>> {
    match bracketed(raw) {
        Some(coord) => match library_path_spec(libraries, coord) {
            Some(p) => Ok(p),
            None => Err(coord),
        },
        None => if raw.len() > 0 && raw[0] == '/' {
            match table_get(staged, raw) {
                Some(p) => Ok(p),
                None => Err(raw),
            }
        } else {
            Ok(raw)
        },
    }
}

/// One data-table value for this install.
pub fn resolve(raw: &str, libraries: &str, staged: &Vec<(String, String)>) -> (r: Result<String, ProcessorError>)
    ensures
        resolve_spec(raw@, libraries@, pairs_view(staged@)) matches Ok(v) ==> (r matches Ok(x) && x@ == v),
        resolve_spec(raw@, libraries@, pairs_view(staged@)) is Err ==> r is Err,
        bracketed(raw@) is Some && resolve_spec(raw@, libraries@, pairs_view(staged@)) is Err ==> (r matches Err(ProcessorError::NotACoordinate(c)) && Some(c@) == bracketed(raw@)),
        bracketed(raw@) is None && resolve_spec(raw@, libraries@, pairs_view(staged@)) is Err ==> (r matches Err(ProcessorError::MissingInstallerFile(f)) && f@ == raw@),
{
    if let Some(coord) = bracketed_exec(raw) {
        return library_path(libraries, coord.as_str());
    }
    let cs = chars_of(raw);
    if cs.len() > 0 && cs[0] == '/' {
        return match table_lookup(staged, raw) {
            Some(p) => Ok(p),
            None => Err(ProcessorError::MissingInstallerFile(String::from_str(raw))),
        };
    }
    Ok(String::from_str(raw))
}

/// `{key}` for a table key.
pub open spec fn token(key: Seq<char>) -> Seq<char> {
    "{"@ + key + "}"@
}

/// `arg` with every `{key}` of the table replaced by its value, entry by
/// entry in table order.
pub open spec fn substitute_tokens(arg: Seq<char>, table: Seq<(Seq<char>, Seq<char>)>) -> Seq<char>
    decreases table.len(),
{
    if table.len() == 0 {
        arg
    } else {
        let last = table.last();
        replace_all(substitute_tokens(arg, table.drop_last()), token(last.0), last.1)
    }
}

/// One processor argument: a bracketed coordinate becomes its library path;
/// anything else has its tokens replaced in place.
pub open spec fn argument_spec(arg: Seq<char>, table: Seq<(Seq<char>, Seq<char>)>, libraries: Seq<char>) -> Result<Seq<char>, Seq<char>> {
    match bracketed(arg) {
        Some(coord) => match library_path_spec(libraries, coord) {
            Some(p) => Ok(p),
            None => Err(coord),
        },
        None => Ok(substitute_tokens(arg, table)),
    }
}

/// One processor argument, substituted.
pub fn argument(arg: &str, table: &Vec<(String, String)>, libraries: &str) -> (r: Result<String, ProcessorError>)
    ensures
        argument_spec(arg@, pairs_view(table@), libraries@) matches Ok(v) ==> (r matches Ok(x) && x@ == v),
        argument_spec(arg@, pairs_view(table@), libraries@) matches Err(c) ==> (r matches Err(ProcessorError::NotACoordinate(x)) && x@ == c),
{
    if let Some(coord) = bracketed_exec(arg) {
        return library_path(libraries, coord.as_str());
    }
    let ghost t = pairs_view(table@);
    let mut out = chars_of(arg);
    let mut i: usize = 0;
    while i < table.len()
        invariant
            t == pairs_view(table@),
            i <= t.len(),
            out@ == substitute_tokens(arg@, t.take(i as int)),
        decreases table.len() - i,
    {
        proof {
            reveal_strlit("{");
            reveal_strlit("}");
        }
        let mut tok: Vec<char> = Vec::new();
        push_str(&mut tok, "{");
        push_str(&mut tok, table[i].0.as_str());
        push_str(&mut tok, "}");
        let value = chars_of(table[i].1.as_str());
        assert(tok@ =~= token(t[i as int].0));
        assert(t.take(i + 1).drop_last() =~= t.take(i as int));
        assert(t.take(i + 1).last() == t[i as int]);
        out = replace_all_exec(&out, &tok, &value);
        i += 1;
    }
    assert(t.take(t.len() as int) =~= t);
    Ok(string_of(&out))
}

/// Every argument of a processor, one out for each textual one in, in order.
pub fn arguments(processor: &Json, table: &Vec<(String, String)>, libraries: &str) -> (r: Result<Vec<String>, ProcessorError>)
    ensures
        ({
            let args = strings(crate::json::items_at(Some(*processor), "args"@));
            match r {
                Ok(out) => out@.len() == args.len() && forall|i: int|
                    0 <= i < args.len() ==> argument_spec(args[i], pairs_view(table@), libraries@) == Ok::<Seq<char>, Seq<char>>((#[trigger] out@[i])@),
                Err(ProcessorError::NotACoordinate(c)) => exists|i: int|
                    0 <= i < args.len() && #[trigger] argument_spec(args[i], pairs_view(table@), libraries@) == Err::<Seq<char>, Seq<char>>(c@)
                        && forall|k: int| 0 <= k < i ==> (#[trigger] argument_spec(args[k], pairs_view(table@), libraries@)) is Ok,
                Err(_) => false,
            }
        }),
{
    let list = match items_of(Some(processor), "args") {
        Some(items) => strings_of(items),
        None => Vec::new(),
    };
    let ghost args = list.deep_view();
    let mut out: Vec<String> = Vec::new();
    let mut i: usize = 0;
    while i < list.len()
        invariant
            args == list.deep_view(),
            args == strings(crate::json::items_at(Some(*processor), "args"@)),
            i <= args.len(),
            out@.len() == i,
            forall|k: int| 0 <= k < i ==> argument_spec(args[k], pairs_view(table@), libraries@) == Ok::<Seq<char>, Seq<char>>((#[trigger] out@[k])@),
        decreases list.len() - i,
    {
        match argument(list[i].as_str(), table, libraries) {
            Ok(a) => out.push(a),
            Err(e) => {
                assert(argument_spec(args[i as int], pairs_view(table@), libraries@) is Err);
                assert forall|k: int| 0 <= k < i implies (#[trigger] argument_spec(args[k], pairs_view(table@), libraries@)) is Ok by {
                    assert(argument_spec(args[k], pairs_view(table@), libraries@) == Ok::<Seq<char>, Seq<char>>(out@[k]@));
                }
                return Err(e);
            },
        }
        i += 1;
    }
    Ok(out)
}

/// Set `key` to `value` in a table: the first entry under `key` takes the
/// value, or the pair is appended.
pub open spec fn table_set(table: Seq<(Seq<char>, Seq<char>)>, key: Seq<char>, value: Seq<char>) -> Seq<(Seq<char>, Seq<char>)>
    decreases table.len(),
{
    if table.len() == 0 {
        seq![(key, value)]
    } else if table[0].0 == key {
        table.update(0, (key, value))
    } else {
        seq![table[0]] + table_set(table.drop_first(), key, value)
    }
}

/// Set `key` to `value` in a table.
pub fn table_insert(table: &mut Vec<(String, String)>, key: String, value: String)
    ensures
        pairs_view(final(table)@) == table_set(pairs_view(old(table)@), key@, value@),
{
    let ghost t = pairs_view(table@);
    let mut i: usize = 0;
    while i < table.len()
        invariant
            t == pairs_view(table@),
            t == pairs_view(old(table)@),
            i <= t.len(),
            forall|k: int| 0 <= k < i ==> t[k].0 != key@,
        decreases table.len() - i,
    {
        if str_eq(table[i].0.as_str(), key.as_str()) {
            proof {
                lemma_table_set_at(t, key@, value@, i as int);
            }
            let ghost kv = key@;
            let ghost vv = value@;
            assert(table_set(t, kv, vv) == t.update(i as int, (kv, vv)));
            table.set(i, (key, value));
            assert(pairs_view(table@) =~= t.update(i as int, (kv, vv)));
            assert(pairs_view(table@) == table_set(t, kv, vv));
            return;
        }
        i += 1;
    }
    proof {
        lemma_table_set_append(t, key@, value@);
    }
    table.push((key, value));
    assert(pairs_view(table@) =~= t.push((key@, value@)));
}

/// Setting a key first held at `i` replaces that entry's value.
proof fn lemma_table_set_at(t: Seq<(Seq<char>, Seq<char>)>, key: Seq<char>, value: Seq<char>, i: int)
    requires
        0 <= i < t.len(),
        t[i].0 == key,
        forall|k: int| 0 <= k < i ==> t[k].0 != key,
    ensures
        table_set(t, key, value) == t.update(i, (key, value)),
    decreases i,
{
    if i == 0 {
    } else {
        lemma_table_set_at(t.drop_first(), key, value, i - 1);
        assert(seq![t[0]] + t.drop_first().update(i - 1, (key, value)) =~= t.update(i, (key, value)));
    }
}

/// Setting a key no entry holds appends it.
proof fn lemma_table_set_append(t: Seq<(Seq<char>, Seq<char>)>, key: Seq<char>, value: Seq<char>)
    requires
        forall|k: int| 0 <= k < t.len() ==> t[k].0 != key,
    ensures
        table_set(t, key, value) == t.push((key, value)),
    decreases t.len(),
{
    if t.len() > 0 {
        lemma_table_set_append(t.drop_first(), key, value);
        assert(seq![t[0]] + t.drop_first().push((key, value)) =~= t.push((key, value)));
    }
}

/// The data entries of an install profile: the fields of its `data`
/// object, or none when it has no such object.
pub open spec fn data_fields(profile: Json) -> Seq<(String, Json)> {
    match get_spec(profile, "data"@) {
        Some(Json::Object(fields)) => fields@,
        _ => Seq::empty(),
    }
}

/// The data entries from `fields` on, added to `table` in order: each entry
/// with a string value for the side is resolved and set under its key,
/// others are passed over. The first value that does not resolve is the
/// error.
pub open spec fn data_rows(
    fields: Seq<(String, Json)>,
    side: Side,
    libraries: Seq<char>,
    staged: Seq<(Seq<char>, Seq<char>)>,
    table: Seq<(Seq<char>, Seq<char>)>,
) -> Result<Seq<(Seq<char>, Seq<char>)>, Seq<char>>
    decreases fields.len(),
{
    if fields.len() == 0 {
        Ok(table)
    } else {
        let rest = fields.drop_first();
        match str_opt(get_spec(fields[0].1, side.name_spec())) {
            None => data_rows(rest, side, libraries, staged, table),
            Some(raw) => match resolve_spec(raw, libraries, staged) {
                Ok(v) => data_rows(rest, side, libraries, staged, table_set(table, fields[0].0@, v)),
                Err(_) => Err(raw),
            },
        }
    }
}

/// The data rows with the four tokens the installer supplies set after
/// them: `ROOT`, `SIDE`, `MINECRAFT_JAR` and `INSTALLER`.
pub open spec fn with_install_tokens(rows: Seq<(Seq<char>, Seq<char>)>, install: Install) -> Seq<(Seq<char>, Seq<char>)> {
    table_set(
        table_set(
            table_set(table_set(rows, "ROOT"@, install.root@), "SIDE"@, install.side.name_spec()),
            "MINECRAFT_JAR"@,
            install.minecraft_jar@,
        ),
        "INSTALLER"@,
        install.installer@,
    )
}

/// The `{TOKEN}` table of an install: each data entry with a value for the
/// side, resolved, then the tokens the installer supplies itself: `ROOT`,
/// `SIDE`, `MINECRAFT_JAR` and `INSTALLER`.
pub fn data_table(profile: &Json, install: &Install, staged: &Vec<(String, String)>) -> (r: Result<Vec<(String, String)>, ProcessorError>)
    ensures
        match data_rows(data_fields(*profile), install.side, path_join(install.root@, "libraries"@), pairs_view(staged@), Seq::empty()) {
            Ok(rows) => r matches Ok(t) && pairs_view(t@) == with_install_tokens(rows, *install),
            Err(raw) => match r {
                Err(ProcessorError::NotACoordinate(c)) => bracketed(raw) == Some(c@),
                Err(ProcessorError::MissingInstallerFile(f)) => bracketed(raw) is None && f@ == raw,
                _ => false,
            },
        },
        r matches Ok(t) ==> table_get(pairs_view(t@), "ROOT"@) == Some(install.root@)
            && table_get(pairs_view(t@), "SIDE"@) == Some(install.side.name_spec())
            && table_get(pairs_view(t@), "MINECRAFT_JAR"@) == Some(install.minecraft_jar@)
            && table_get(pairs_view(t@), "INSTALLER"@) == Some(install.installer@),
{
    let libraries = install.libraries();
    let side = install.side.as_str();
    let ghost lib = libraries@;
    let ghost st = pairs_view(staged@);
    let ghost fields = data_fields(*profile);
    let mut table: Vec<(String, String)> = Vec::new();
    assert(pairs_view(table@) =~= Seq::<(Seq<char>, Seq<char>)>::empty());
    match profile.get("data") {
        Some(Json::Object(data)) => {
            assert(data@ == fields);
            let mut i: usize = 0;
            assert(fields.skip(0) =~= fields);
            while i < data.len()
                invariant
                    data@ == fields,
                    fields == data_fields(*profile),
                    i <= data@.len(),
                    side@ == install.side.name_spec(),
                    lib == libraries@,
                    lib == path_join(install.root@, "libraries"@),
                    st == pairs_view(staged@),
                    data_rows(fields, install.side, lib, st, Seq::empty())
                        == data_rows(fields.skip(i as int), install.side, lib, st, pairs_view(table@)),
                decreases data.len() - i,
            {
                let ghost t = pairs_view(table@);
                assert(fields.skip(i as int)[0] == fields[i as int]);
                assert(fields.skip(i as int).drop_first() =~= fields.skip(i + 1));
                let key = &data[i].0;
                let raw = match data[i].1.get(side) {
                    Some(v) => v.as_str(),
                    None => None,
                };
                match raw {
                    Some(raw) => {
                        match resolve(raw.as_str(), libraries.as_str(), staged) {
                            Ok(value) => {
                                table_insert(&mut table, key.clone(), value);
                            },
                            Err(e) => {
                                return Err(e);
                            },
                        }
                    },
                    None => {},
                }
                i += 1;
            }
            assert(fields.skip(i as int) =~= Seq::<(String, Json)>::empty());
        },
        _ => {
            assert(fields =~= Seq::<(String, Json)>::empty());
        },
    }
    proof {
        reveal_strlit("ROOT");
        reveal_strlit("SIDE");
        reveal_strlit("MINECRAFT_JAR");
        reveal_strlit("INSTALLER");
        assert("ROOT"@[0] != "SIDE"@[0] && "ROOT"@[0] != "MINECRAFT_JAR"@[0] && "ROOT"@[0] != "INSTALLER"@[0]);
        assert("SIDE"@[0] != "MINECRAFT_JAR"@[0] && "SIDE"@[0] != "INSTALLER"@[0]);
        assert("MINECRAFT_JAR"@[0] != "INSTALLER"@[0]);
    }
    let ghost t0 = pairs_view(table@);
    table_insert(&mut table, String::from_str("ROOT"), install.root.clone());
    let ghost t1 = pairs_view(table@);
    table_insert(&mut table, String::from_str("SIDE"), String::from_str(side));
    let ghost t2 = pairs_view(table@);
    table_insert(&mut table, String::from_str("MINECRAFT_JAR"), install.minecraft_jar.clone());
    let ghost t3 = pairs_view(table@);
    table_insert(&mut table, String::from_str("INSTALLER"), install.installer.clone());
    proof {
        lemma_get_after_set(t0, "ROOT"@, install.root@);
        lemma_get_other_after_set(t1, "SIDE"@, install.side.name_spec(), "ROOT"@);
        lemma_get_after_set(t1, "SIDE"@, install.side.name_spec());
        lemma_get_other_after_set(t2, "MINECRAFT_JAR"@, install.minecraft_jar@, "ROOT"@);
        lemma_get_other_after_set(t2, "MINECRAFT_JAR"@, install.minecraft_jar@, "SIDE"@);
        lemma_get_after_set(t2, "MINECRAFT_JAR"@, install.minecraft_jar@);
        lemma_get_other_after_set(t3, "INSTALLER"@, install.installer@, "ROOT"@);
        lemma_get_other_after_set(t3, "INSTALLER"@, install.installer@, "SIDE"@);
        lemma_get_other_after_set(t3, "INSTALLER"@, install.installer@, "MINECRAFT_JAR"@);
        lemma_get_after_set(t3, "INSTALLER"@, install.installer@);
    }
    Ok(table)
}

/// A key just set reads back its value.
pub proof fn lemma_get_after_set(t: Seq<(Seq<char>, Seq<char>)>, key: Seq<char>, value: Seq<char>)
    ensures
        table_get(table_set(t, key, value), key) == Some(value),
    decreases t.len(),
{
    if t.len() > 0 && t[0].0 != key {
        lemma_get_after_set(t.drop_first(), key, value);
        assert((seq![t[0]] + table_set(t.drop_first(), key, value)).drop_first() =~= table_set(
            t.drop_first(),
            key,
            value,
        ));
    }
}

/// Setting one key leaves what every other key reads.
pub proof fn lemma_get_other_after_set(
    t: Seq<(Seq<char>, Seq<char>)>,
    key: Seq<char>,
    value: Seq<char>,
    other: Seq<char>,
)
    requires
        other != key,
    ensures
        table_get(table_set(t, key, value), other) == table_get(t, other),
    decreases t.len(),
{
    if t.len() == 0 {
        assert(table_set(t, key, value).drop_first() =~= t);
    } else {
        if t[0].0 == key {
            let u = table_set(t, key, value);
            assert(u == t.update(0, (key, value)));
            assert(u[0].0 == key);
            assert(u.drop_first() =~= t.drop_first());
            assert(table_get(u, other) == table_get(u.drop_first(), other));
            assert(table_get(t, other) == table_get(t.drop_first(), other));
        } else {
            lemma_get_other_after_set(t.drop_first(), key, value, other);
            let u = table_set(t, key, value);
            assert(u == seq![t[0]] + table_set(t.drop_first(), key, value));
            assert(u[0] == t[0]);
            assert(u.drop_first() =~= table_set(t.drop_first(), key, value));
            if t[0].0 == other {
                assert(table_get(u, other) == Some(t[0].1));
            } else {
                assert(table_get(u, other) == table_get(u.drop_first(), other));
            }
        }
    }
}

/// The text after `Main-Class:` on the first manifest line starting with it,
/// trimmed.
pub open spec fn main_class_spec(manifest: Seq<char>) -> Option<Seq<char>> {
    let lines = split_on(manifest, '\n');
    if exists|i: int| 0 <= i < lines.len() && starts_with(#[trigger] lines[i], "Main-Class:"@) {
        let i = choose|i: int|
            0 <= i < lines.len() && starts_with(#[trigger] lines[i], "Main-Class:"@) && forall|k: int|
                0 <= k < i ==> !starts_with(#[trigger] lines[k], "Main-Class:"@);
        Some(trim(lines[i].skip(11)))
    } else {
        None
    }
}

/// A jar manifest's `Main-Class`.
pub fn main_class(manifest: &str) -> (r: Option<String>)
    ensures
        r matches Some(c) ==> main_class_spec(manifest@) == Some(c@),
        r is None ==> main_class_spec(manifest@) is None,
{
    proof {
        reveal_strlit("Main-Class:");
    }
    let cs = chars_of(manifest);
    let lines = split_char(&cs, '\n');
    let ghost ls = lines@.map_values(|v: Vec<char>| v@);
    let mut i: usize = 0;
    while i < lines.len()
        invariant
            ls == lines@.map_values(|v: Vec<char>| v@),
            ls == split_on(manifest@, '\n'),
            i <= ls.len(),
            forall|k: int| 0 <= k < i ==> !starts_with(#[trigger] ls[k], "Main-Class:"@),
        decreases lines.len() - i,
    {
        assert(ls[i as int] == lines@[i as int]@);
        proof {
            reveal_strlit("Main-Class:");
        }
        if starts_with_str(&lines[i], "Main-Class:") {
            let n = lines[i].len();
            assert("Main-Class:"@.len() == 11);
            let rest = sub_chars(&lines[i], 11, n);
            assert(rest@ =~= ls[i as int].skip(11));
            let value = trim_chars(&rest);
            proof {
                let c = choose|c: int|
                    0 <= c < ls.len() && starts_with(#[trigger] ls[c], "Main-Class:"@) && forall|k: int|
                        0 <= k < c ==> !starts_with(#[trigger] ls[k], "Main-Class:"@);
                if c < i {
                } else if c > i {
                    assert(!starts_with(ls[i as int], "Main-Class:"@));
                }
            }
            return Some(string_of(&value));
        }
        i += 1;
    }
    None
}

/// A coordinate's artifact id for progress text: its second `:` part, or the
/// whole coordinate when it has none.
pub open spec fn short_name_spec(coord: Seq<char>) -> Seq<char> {
    let parts = split_on(coord, ':');
    if parts.len() > 1 {
        parts[1]
    } else {
        coord
    }
}

/// A coordinate's artifact id for progress text.
pub fn short_name(coord: &str) -> (r: String)
    ensures
        r@ == short_name_spec(coord@),
{
    let cs = chars_of(coord);
    let parts = split_char(&cs, ':');
    if parts.len() > 1 {
        string_of(&parts[1])
    } else {
        String::from_str(coord)
    }
}

/// The jar a processor names: its `jar` text.
pub fn processor_jar(processor: &Json) -> (r: Result<String, ProcessorError>)
    ensures
        match str_opt(get_spec(*processor, "jar"@)) {
            Some(j) => r matches Ok(x) && x@ == j,
            None => r == Err::<String, ProcessorError>(ProcessorError::NoJar),
        },
{
    match processor.get("jar") {
        Some(v) => match v.as_str() {
            Some(j) => Ok(j.clone()),
            None => Err(ProcessorError::NoJar),
        },
        None => Err(ProcessorError::NoJar),
    }
}

/// The library paths of a processor's classpath coordinates, in order; the
/// first coordinate that is none is the error.
pub open spec fn classpath_entries(coords: Seq<Seq<char>>, libraries: Seq<char>) -> Result<Seq<Seq<char>>, Seq<char>>
    decreases coords.len(),
{
    if coords.len() == 0 {
        Ok(Seq::empty())
    } else {
        match classpath_entries(coords.drop_last(), libraries) {
            Err(c) => Err(c),
            Ok(prev) => match library_path_spec(libraries, coords.last()) {
                Some(p) => Ok(prev.push(p)),
                None => Err(coords.last()),
            },
        }
    }
}

proof fn lemma_classpath_err_persists(coords: Seq<Seq<char>>, libraries: Seq<char>, k: int, m: int)
    requires
        0 <= k <= m <= coords.len(),
        classpath_entries(coords.take(k), libraries) is Err,
    ensures
        classpath_entries(coords.take(m), libraries) == classpath_entries(coords.take(k), libraries),
    decreases m - k,
{
    if k < m {
        lemma_classpath_err_persists(coords, libraries, k, m - 1);
        assert(coords.take(m).drop_last() =~= coords.take(m - 1));
    }
}

/// A processor's classpath: the library path of each textual coordinate of
/// its `classpath`, in order, then the processor's own jar, joined by the
/// host's separator.
pub fn processor_classpath(processor: &Json, libraries: &str, jar_path: &str, windows: bool) -> (r: Result<String, ProcessorError>)
    ensures
        match classpath_entries(strings(crate::json::items_at(Some(*processor), "classpath"@)), libraries@) {
            Ok(entries) => r matches Ok(cp) && cp@ == join(entries.push(jar_path@), separator_spec(windows)),
            Err(c) => r matches Err(ProcessorError::NotACoordinate(x)) && x@ == c,
        },
{
    let coords = match items_of(Some(processor), "classpath") {
        Some(items) => strings_of(items),
        None => Vec::new(),
    };
    let ghost cs = coords.deep_view();
    let mut out: Vec<String> = Vec::new();
    let mut i: usize = 0;
    assert(cs.take(0) =~= Seq::<Seq<char>>::empty());
    assert(out.deep_view() =~= Seq::<Seq<char>>::empty());
    while i < coords.len()
        invariant
            cs == coords.deep_view(),
            cs == strings(crate::json::items_at(Some(*processor), "classpath"@)),
            i <= cs.len(),
            classpath_entries(cs.take(i as int), libraries@) == Ok::<Seq<Seq<char>>, Seq<char>>(out.deep_view()),
        decreases coords.len() - i,
    {
        assert(cs.take(i + 1).drop_last() =~= cs.take(i as int));
        assert(cs.take(i + 1).last() == cs[i as int]);
        match library_path(libraries, coords[i].as_str()) {
            Ok(p) => {
                let ghost before = out.deep_view();
                out.push(p);
                assert(out.deep_view() =~= before.push(p@));
            },
            Err(e) => {
                proof {
                    lemma_classpath_err_persists(cs, libraries@, i + 1, cs.len() as int);
                    assert(cs.take(cs.len() as int) =~= cs);
                }
                return Err(e);
            },
        }
        i += 1;
    }
    assert(cs.take(cs.len() as int) =~= cs);
    let ghost entries = out.deep_view();
    out.push(String::from_str(jar_path));
    assert(out.deep_view() =~= entries.push(jar_path@));
    Ok(join_strings(&out, classpath_separator(windows)))
}

/// std's `String::from_utf8` on a copy of the bytes, its error as `None`:
/// present exactly when the bytes are valid UTF-8, and then their decoding.
#[verifier::external_body]
fn utf8_strict(bytes: &[u8]) -> (r: Option<String>)
    ensures
        r is Some <==> vstd::utf8::valid_utf8(bytes@),
        r matches Some(s) ==> s@ == vstd::utf8::decode_utf8(bytes@),
{
    String::from_utf8(bytes.to_vec()).ok()
}

/// The archive-relative name of a jar's manifest.
pub open spec fn manifest_name() -> Seq<char> {
    "META-INF/MANIFEST.MF"@
}

/// The first of the first `n` entries of a zip that is the manifest.
pub open spec fn manifest_at(bytes: Seq<u8>, n: nat) -> Option<nat>
    decreases n,
{
    if n == 0 {
        None
    } else {
        match manifest_at(bytes, (n - 1) as nat) {
            Some(i) => Some(i),
            None => match zip_meta(bytes, (n - 1) as nat) {
                Some(m) => if m.0 == manifest_name() {
                    Some((n - 1) as nat)
                } else {
                    None
                },
                None => None,
            },
        }
    }
}

/// A jar's `Main-Class`: its manifest entry, decoded as UTF-8, then the
/// first `Main-Class:` line's value. `None` when the bytes are no zip, the
/// jar carries no manifest, the manifest cannot be read or is not text, or
/// it names no main class.
pub open spec fn jar_main_class_spec(jar: Seq<u8>) -> Option<Seq<char>> {
    match zip_entry_count(jar) {
        None => None,
        Some(n) => match manifest_at(jar, n) {
            None => None,
            Some(i) => match zip_content(jar, i) {
                None => None,
                Some(c) => if vstd::utf8::valid_utf8(c) {
                    main_class_spec(vstd::utf8::decode_utf8(c))
                } else {
                    None
                },
            },
        },
    }
}

/// A processor jar's `Main-Class`, read from its manifest.
pub fn jar_main_class(jar: &[u8]) -> (r: Option<String>)
    ensures
        r matches Some(c) ==> jar_main_class_spec(jar@) == Some(c@),
        r is None ==> jar_main_class_spec(jar@) is None,
{
    let n = match zip_open(jar) {
        Some(n) => n,
        None => return None,
    };
    proof {
        reveal_strlit("META-INF/MANIFEST.MF");
    }
    let mut i: usize = 0;
    let mut found: Option<usize> = None;
    while i < n
        invariant_except_break
            i <= n,
            found is None,
            manifest_at(jar@, i as nat) is None,
        invariant
            zip_entry_count(jar@) == Some(n as nat),
        ensures
            found matches Some(k) ==> manifest_at(jar@, n as nat) == Some(k as nat),
            found is None ==> manifest_at(jar@, n as nat) is None,
        decreases n - i,
    {
        let hit = match zip_entry_meta(jar, i) {
            Some(m) => str_eq(m.0.as_str(), "META-INF/MANIFEST.MF"),
            None => false,
        };
        if hit {
            proof {
                lemma_manifest_at_stays(jar@, (i + 1) as nat, n as nat);
            }
            found = Some(i);
            break;
        }
        i += 1;
    }
    let k = match found {
        Some(k) => k,
        None => return None,
    };
    let content = match zip_entry_bytes(jar, k) {
        Some(c) => c,
        None => return None,
    };
    let text = match utf8_strict(content.as_slice()) {
        Some(t) => t,
        None => return None,
    };
    main_class(text.as_str())
}

proof fn lemma_manifest_at_stays(bytes: Seq<u8>, k: nat, m: nat)
    requires
        k <= m,
        manifest_at(bytes, k) is Some,
    ensures
        manifest_at(bytes, m) == manifest_at(bytes, k),
    decreases m - k,
{
    if k < m {
        lemma_manifest_at_stays(bytes, k, (m - 1) as nat);
    }
}

} // verus!
