//! The provider vocabulary: the content kinds an entry accepts, which half of
//! the game it is, what a flavor needs on the machine, and the requests a
//! flavor resolves and installs.

use vstd::prelude::*;

verus! {

/// A kind of third-party content.
#[derive(Debug, Clone, Copy, PartialEq, Eq, Structural)]
pub enum ContentKind {
    Mod,
    Plugin,
    ResourcePack,
    Shader,
    DataPack,
}

/// The content a flavor's own loader consumes, if any.
pub type Loads = Option<ContentKind>;

/// Which half of the game an entry is.
#[derive(Debug, Clone, Copy, PartialEq, Eq, Structural)]
pub enum Side {
    Server,
    Client,
}

/// Everything an entry of this side and flavor accepts: what the flavor's
/// loader takes, then a client's resource packs and shaders, then datapacks.
pub open spec fn accepted_kinds_spec(side: Side, loads: Option<ContentKind>) -> Seq<ContentKind> {
    let own = match loads {
        Some(k) => seq![k],
        None => Seq::empty(),
    };
    let client = if side == Side::Client {
        seq![ContentKind::ResourcePack, ContentKind::Shader]
    } else {
        Seq::empty()
    };
    own + client + seq![ContentKind::DataPack]
}

/// Everything an entry of this side and flavor accepts.
pub fn accepted_kinds(side: Side, loads: Loads) -> (r: Vec<ContentKind>)
    ensures
        r@ == accepted_kinds_spec(side, loads),
{
    let mut kinds: Vec<ContentKind> = Vec::new();
    if let Some(k) = loads {
        kinds.push(k);
    }
    if side == Side::Client {
        kinds.push(ContentKind::ResourcePack);
        kinds.push(ContentKind::Shader);
    }
    kinds.push(ContentKind::DataPack);
    assert(kinds@ =~= accepted_kinds_spec(side, loads));
    kinds
}

/// A tool a flavor needs on the machine that the launcher cannot install.
#[derive(Debug, Clone, Copy, PartialEq, Eq, Structural)]
pub enum Prerequisite {
    Git,
}

impl Prerequisite {
    /// The tool's display name.
    pub fn name(self) -> (r: &'static str)
        ensures
            r@ == "Git"@,
    {
        match self {
            Prerequisite::Git => "Git",
        }
    }

    /// Where to get the tool.
    pub fn url(self) -> (r: &'static str)
        ensures
            r@ == "https://git-scm.com/downloads"@,
    {
        match self {
            Prerequisite::Git => "https://git-scm.com/downloads",
        }
    }

    /// The program whose `--version` answers whether the tool is installed.
    pub fn program(self) -> (r: &'static str)
        ensures
            r@ == "git"@,
    {
        match self {
            Prerequisite::Git => "git",
        }
    }
}

/// The tools BuildTools needs: none on Windows, where it brings its own Git.
pub fn prerequisites(windows: bool) -> (r: Vec<Prerequisite>)
    ensures
        windows ==> r@.len() == 0,
        !windows ==> r@ == seq![Prerequisite::Git],
{
    let mut out: Vec<Prerequisite> = Vec::new();
    if !windows {
        out.push(Prerequisite::Git);
    }
    assert(!windows ==> out@ =~= seq![Prerequisite::Git]);
    out
}

/// A missing tool, as reported to a user.
#[derive(Debug, Clone, PartialEq, Eq)]
pub struct Requirement {
    pub name: String,
    pub url: String,
}

/// The requirements among `required` whose tool `installed` says is absent,
/// in order.
pub fn unmet(required: &Vec<Prerequisite>, installed: &Vec<bool>) -> (r: Vec<Requirement>)
    requires
        installed@.len() == required@.len(),
    ensures
        forall|i: int| 0 <= i < r@.len() ==> r@[i].name@ == "Git"@ && r@[i].url@ == "https://git-scm.com/downloads"@,
        r@.len() == installed@.filter(|b: bool| !b).len(),
{
    let mut out: Vec<Requirement> = Vec::new();
    let mut i: usize = 0;
    while i < required.len()
        invariant
            installed@.len() == required@.len(),
            i <= required@.len(),
            out@.len() == installed@.take(i as int).filter(|b: bool| !b).len(),
            forall|k: int| 0 <= k < out@.len() ==> out@[k].name@ == "Git"@ && out@[k].url@ == "https://git-scm.com/downloads"@,
        decreases required.len() - i,
    {
        assert(installed@.take(i + 1).drop_last() =~= installed@.take(i as int));
        proof {
            reveal(Seq::filter);
        }
        if !installed[i] {
            let p = required[i];
            out.push(Requirement { name: String::from_str(p.name()), url: String::from_str(p.url()) });
        }
        i += 1;
    }
    assert(installed@.take(installed@.len() as int) =~= installed@);
    out
}

/// What every flavor says of itself, on whichever side it serves: its
/// identifier, its display name, a one-line summary, the content its own
/// loader consumes, and the tools it needs on the machine.
pub trait Flavor {
    fn id(&self) -> &'static str;

    fn name(&self) -> &'static str;

    fn summary(&self) -> &'static str;

    fn loads(&self) -> Loads;

    /// Tools this flavor needs on the machine; none for all but a flavor that
    /// builds its own artifacts.
    fn needs(&self, windows: bool) -> Vec<Prerequisite> {
        Vec::new()
    }
}

/// A resolution request: a game version and, for modloaders, an optional
/// pinned loader version.
#[derive(Debug, Clone)]
pub struct ResolveRequest {
    pub version: String,
    pub loader_version: Option<String>,
}

/// What a flavor needs to build what its profile cannot simply name.
#[derive(Debug, Clone)]
pub struct InstallRequest {
    pub game_version: String,
    pub loader_version: Option<String>,
    /// Where this entry's install writes.
    pub root: String,
    /// The shared metadata root.
    pub meta: String,
    /// The vanilla jar for this side, already materialised.
    pub minecraft_jar: String,
    pub java: String,
}

} // verus!
