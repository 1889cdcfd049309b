//! Compiling a Bukkit or Spigot server with SpigotMC's BuildTools: which jar
//! a build produces, the supervisor id it runs under, its command line, and
//! which of its output lines narrate progress.

use vstd::prelude::*;

use crate::text::{
    chars_of, push_str, starts_with, starts_with_str, string_of, trim, trim_str,
};

verus! {

/// Which of the two jars one build produces.
#[derive(Debug, Clone, Copy, PartialEq, Eq, Structural)]
pub enum Product {
    Bukkit,
    Spigot,
}

impl Product {
    /// The file-name prefix of the product's jar.
    pub open spec fn prefix_spec(self) -> Seq<char> {
        match self {
            Product::Bukkit => "craftbukkit"@,
            Product::Spigot => "spigot"@,
        }
    }

    /// The file-name prefix of the product's jar.
    pub fn prefix(self) -> (r: &'static str)
        ensures
            r@ == self.prefix_spec(),
    {
        match self {
            Product::Bukkit => "craftbukkit",
            Product::Spigot => "spigot",
        }
    }

    /// The jar a build writes for `version`: `<prefix>-<version>.jar`.
    pub fn jar_name(self, version: &str) -> (r: String)
        ensures
            r@ == self.prefix_spec() + "-"@ + version@ + ".jar"@,
    {
        let mut out: Vec<char> = Vec::new();
        push_str(&mut out, self.prefix());
        push_str(&mut out, "-");
        push_str(&mut out, version);
        push_str(&mut out, ".jar");
        string_of(&out)
    }

    /// The flavor id a product is registered under.
    pub open spec fn flavor_spec(self) -> Seq<char> {
        match self {
            Product::Bukkit => "bukkit"@,
            Product::Spigot => "spigot"@,
        }
    }

    /// The flavor id a product is registered under.
    pub fn flavor(self) -> (r: &'static str)
        ensures
            r@ == self.flavor_spec(),
    {
        match self {
            Product::Bukkit => "bukkit",
            Product::Spigot => "spigot",
        }
    }
}

/// The supervisor id a version's build runs under, the same for every build
/// of that version.
pub fn build_id(version: &str) -> (r: String)
    ensures
        r@ == "build-spigot-"@ + version@,
{
    let mut out: Vec<char> = Vec::new();
    push_str(&mut out, "build-spigot-");
    push_str(&mut out, version);
    string_of(&out)
}

/// Whether a line is BuildTools narrating its own progress: a non-blank line
/// that is not a bracketed log level, a per-file patch line or an extraction
/// line.
pub open spec fn is_step_spec(line: Seq<char>) -> bool {
    let t = trim(line);
    t.len() > 0 && !starts_with(t, "["@) && !starts_with(t, "Patching "@) && !starts_with(t, "Extracted:"@)
}

/// Whether a line is BuildTools narrating its own progress.
pub fn is_step(line: &str) -> (r: bool)
    ensures
        r == is_step_spec(line@),
{
    let t = trim_str(line);
    t.len() > 0 && !starts_with_str(&t, "[") && !starts_with_str(&t, "Patching ") && !starts_with_str(
        &t,
        "Extracted:",
    )
}

/// The BuildTools command line: the tools jar, the revision, where to write,
/// both products, and no GUI.
pub open spec fn build_args_spec(tools: Seq<char>, version: Seq<char>, jars: Seq<char>) -> Seq<Seq<char>> {
    seq![
        "-jar"@,
        tools,
        "--rev"@,
        version,
        "--output-dir"@,
        jars,
        "--compile"@,
        "CRAFTBUKKIT"@,
        "--compile"@,
        "SPIGOT"@,
        "--nogui"@,
    ]
}

fn push_copy(out: &mut Vec<String>, s: &str)
    ensures
        final(out).deep_view() == old(out).deep_view().push(s@),
{
    let ghost before = out.deep_view();
    out.push(String::from_str(s));
    assert(out.deep_view() =~= before.push(s@));
}

/// The BuildTools command line for one version.
pub fn build_args(tools: &str, version: &str, jars: &str) -> (r: Vec<String>)
    ensures
        r.deep_view() == build_args_spec(tools@, version@, jars@),
{
    let mut out: Vec<String> = Vec::new();
    push_copy(&mut out, "-jar");
    push_copy(&mut out, tools);
    push_copy(&mut out, "--rev");
    push_copy(&mut out, version);
    push_copy(&mut out, "--output-dir");
    push_copy(&mut out, jars);
    push_copy(&mut out, "--compile");
    push_copy(&mut out, "CRAFTBUKKIT");
    push_copy(&mut out, "--compile");
    push_copy(&mut out, "SPIGOT");
    push_copy(&mut out, "--nogui");
    assert(out.deep_view() =~= build_args_spec(tools@, version@, jars@));
    out
}

} // verus!
