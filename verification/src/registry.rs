//! The flavor registries: which server and instance flavors ship, in which
//! order they are offered, and the lookups every flow makes by flavor id.
//! An id no flavor carries is refused where a flavor must act, and loads
//! nothing where only its content kinds are asked for.

use vstd::prelude::*;

use crate::fabric::{FabricInstance, FabricServer};
use crate::neoforge::{NeoForgeInstance, NeoForgeServer};
use crate::paper::{FoliaServer, PaperServer};
use crate::provider::{accepted_kinds, accepted_kinds_spec, ContentKind, Flavor, Loads, Prerequisite, Side};
use crate::spigot::{BukkitServer, SpigotServer};
use crate::text::{push_str, str_eq, string_of};
use crate::vanilla::{VanillaInstance, VanillaServer};

verus! {

/// What the registry records of one flavor.
#[derive(Debug, Clone)]
pub struct FlavorCard {
    pub id: String,
    pub name: String,
    pub summary: String,
    pub loads: Loads,
    pub needs: Vec<Prerequisite>,
}

/// A flavor as a catalogue lists it: what it is and what an entry of it
/// accepts.
#[derive(Debug, Clone)]
pub struct FlavorInfo {
    pub id: String,
    pub name: String,
    pub summary: String,
    pub accepts: Vec<ContentKind>,
}

fn card(id: &str, name: &str, summary: &str, loads: Loads, needs: Vec<Prerequisite>) -> (r: FlavorCard)
    ensures
        r.id@ == id@,
        r.name@ == name@,
        r.summary@ == summary@,
        r.loads == loads,
        r.needs == needs,
{
    FlavorCard {
        id: String::from_str(id),
        name: String::from_str(name),
        summary: String::from_str(summary),
        loads,
        needs,
    }
}

/// The ids of a list of cards, in order.
pub open spec fn ids(cards: Seq<FlavorCard>) -> Seq<Seq<char>> {
    cards.map_values(|c: FlavorCard| c.id@)
}

/// The position of the first card with `id`.
pub open spec fn position(cards: Seq<FlavorCard>, id: Seq<char>) -> Option<int> {
    if exists|i: int| 0 <= i < cards.len() && (#[trigger] cards[i]).id@ == id {
        Some(
            choose|i: int|
                0 <= i < cards.len() && (#[trigger] cards[i]).id@ == id && forall|j: int|
                    0 <= j < i ==> (#[trigger] cards[j]).id@ != id,
        )
    } else {
        None
    }
}

/// The server and instance flavors on offer.
#[derive(Debug, Clone)]
pub struct Registry {
    pub servers: Vec<FlavorCard>,
    pub instances: Vec<FlavorCard>,
}

/// Why a flavor id was refused.
#[derive(Debug, Clone, PartialEq, Eq)]
pub struct UnknownFlavor {
    pub side: Side,
    pub id: String,
}

impl UnknownFlavor {
    /// The message a client sees: `unknown <side> flavor: <id>`.
    pub fn message(&self) -> (r: String)
        ensures
            r@ == (match self.side {
                Side::Server => "unknown server flavor: "@,
                Side::Client => "unknown instance flavor: "@,
            }) + self.id@,
    {
        let mut out: Vec<char> = Vec::new();
        match self.side {
            Side::Server => push_str(&mut out, "unknown server flavor: "),
            Side::Client => push_str(&mut out, "unknown instance flavor: "),
        }
        push_str(&mut out, self.id.as_str());
        string_of(&out)
    }
}

/// The first card of `cards` with `id`.
fn find(cards: &Vec<FlavorCard>, id: &str) -> (r: Option<usize>)
    ensures
        r matches Some(i) ==> position(cards@, id@) == Some(i as int) && i < cards@.len(),
        r is None ==> position(cards@, id@) is None,
{
    let mut i: usize = 0;
    while i < cards.len()
        invariant
            i <= cards@.len(),
            forall|j: int| 0 <= j < i ==> (#[trigger] cards@[j]).id@ != id@,
        decreases cards.len() - i,
    {
        if str_eq(cards[i].id.as_str(), id) {
            proof {
                let p = choose|p: int|
                    0 <= p < cards@.len() && (#[trigger] cards@[p]).id@ == id@ && forall|j: int|
                        0 <= j < p ==> (#[trigger] cards@[j]).id@ != id@;
                if p < i {
                } else if p > i {
                    assert(cards@[i as int].id@ == id@);
                }
            }
            return Some(i);
        }
        i += 1;
    }
    None
}

/// The content a flavor of `cards` loads; nothing for an unknown id.
pub open spec fn loads_in(cards: Seq<FlavorCard>, id: Seq<char>) -> Loads {
    match position(cards, id) {
        Some(i) => cards[i].loads,
        None => None,
    }
}

/// The tools a flavor of `cards` needs; none for an unknown id.
pub open spec fn needs_in(cards: Seq<FlavorCard>, id: Seq<char>) -> Seq<Prerequisite> {
    match position(cards, id) {
        Some(i) => cards[i].needs@,
        None => Seq::empty(),
    }
}

/// Whether `info` lists `card` as a flavor of `side`.
pub open spec fn lists(info: FlavorInfo, card: FlavorCard, side: Side) -> bool {
    &&& info.id@ == card.id@
    &&& info.name@ == card.name@
    &&& info.summary@ == card.summary@
    &&& info.accepts@ == accepted_kinds_spec(side, card.loads)
}

fn flavors_of(cards: &Vec<FlavorCard>, side: Side) -> (r: Vec<FlavorInfo>)
    ensures
        r@.len() == cards@.len(),
        forall|i: int| 0 <= i < r@.len() ==> lists(#[trigger] r@[i], cards@[i], side),
{
    let mut out: Vec<FlavorInfo> = Vec::new();
    let mut i: usize = 0;
    while i < cards.len()
        invariant
            i <= cards@.len(),
            out@.len() == i,
            forall|k: int| 0 <= k < i ==> lists(#[trigger] out@[k], cards@[k], side),
        decreases cards.len() - i,
    {
        let c = &cards[i];
        out.push(
            FlavorInfo {
                id: c.id.clone(),
                name: c.name.clone(),
                summary: c.summary.clone(),
                accepts: accepted_kinds(side, c.loads),
            },
        );
        i += 1;
    }
    out
}

fn copy_needs(v: &Vec<Prerequisite>) -> (r: Vec<Prerequisite>)
    ensures
        r@ == v@,
{
    let mut out: Vec<Prerequisite> = Vec::new();
    let mut i: usize = 0;
    while i < v.len()
        invariant
            i <= v@.len(),
            out@ == v@.take(i as int),
        decreases v.len() - i,
    {
        out.push(v[i]);
        assert(out@ =~= v@.take(i + 1));
        i += 1;
    }
    assert(v@.take(v@.len() as int) =~= v@);
    out
}

fn loads_of(cards: &Vec<FlavorCard>, id: &str) -> (r: Loads)
    ensures
        r == loads_in(cards@, id@),
{
    match find(cards, id) {
        Some(i) => cards[i].loads,
        None => None,
    }
}

fn needs_of(cards: &Vec<FlavorCard>, id: &str) -> (r: Vec<Prerequisite>)
    ensures
        r@ == needs_in(cards@, id@),
{
    match find(cards, id) {
        Some(i) => copy_needs(&cards[i].needs),
        None => Vec::new(),
    }
}

impl Registry {
    /// The flavors that ship, in the order they are offered: vanilla,
    /// fabric, paper, folia, spigot, bukkit and neoforge servers; vanilla,
    /// fabric and neoforge instances. `windows` says whether the host is
    /// Windows, where BuildTools brings its own Git.
    pub fn shipped(windows: bool) -> (r: Registry)
        ensures
            ids(r.servers@) == seq![
                "vanilla"@,
                "fabric"@,
                "paper"@,
                "folia"@,
                "spigot"@,
                "bukkit"@,
                "neoforge"@,
            ],
            ids(r.instances@) == seq!["vanilla"@, "fabric"@, "neoforge"@],
    {
        let mut servers: Vec<FlavorCard> = Vec::new();
        servers.push(card(VanillaServer.id(), VanillaServer.name(), VanillaServer.summary(), VanillaServer.loads(), VanillaServer.needs(windows)));
        servers.push(card(FabricServer.id(), FabricServer.name(), FabricServer.summary(), FabricServer.loads(), FabricServer.needs(windows)));
        servers.push(card(PaperServer.id(), PaperServer.name(), PaperServer.summary(), PaperServer.loads(), PaperServer.needs(windows)));
        servers.push(card(FoliaServer.id(), FoliaServer.name(), FoliaServer.summary(), FoliaServer.loads(), FoliaServer.needs(windows)));
        servers.push(card(SpigotServer.id(), SpigotServer.name(), SpigotServer.summary(), SpigotServer.loads(), SpigotServer.needs(windows)));
        servers.push(card(BukkitServer.id(), BukkitServer.name(), BukkitServer.summary(), BukkitServer.loads(), BukkitServer.needs(windows)));
        servers.push(card(NeoForgeServer.id(), NeoForgeServer.name(), NeoForgeServer.summary(), NeoForgeServer.loads(), NeoForgeServer.needs(windows)));
        let mut instances: Vec<FlavorCard> = Vec::new();
        instances.push(card(VanillaInstance.id(), VanillaInstance.name(), VanillaInstance.summary(), VanillaInstance.loads(), VanillaInstance.needs(windows)));
        instances.push(card(FabricInstance.id(), FabricInstance.name(), FabricInstance.summary(), FabricInstance.loads(), FabricInstance.needs(windows)));
        instances.push(card(NeoForgeInstance.id(), NeoForgeInstance.name(), NeoForgeInstance.summary(), NeoForgeInstance.loads(), NeoForgeInstance.needs(windows)));
        assert(ids(servers@) =~= seq![
            "vanilla"@,
            "fabric"@,
            "paper"@,
            "folia"@,
            "spigot"@,
            "bukkit"@,
            "neoforge"@,
        ]);
        assert(ids(instances@) =~= seq!["vanilla"@, "fabric"@, "neoforge"@]);
        Registry { servers, instances }
    }

    /// The server flavors, in order, as a catalogue lists them.
    pub fn server_flavors(&self) -> (r: Vec<FlavorInfo>)
        ensures
            r@.len() == self.servers@.len(),
            forall|i: int| 0 <= i < r@.len() ==> lists(#[trigger] r@[i], self.servers@[i], Side::Server),
    {
        flavors_of(&self.servers, Side::Server)
    }

    /// The instance flavors, in order, as a catalogue lists them.
    pub fn instance_flavors(&self) -> (r: Vec<FlavorInfo>)
        ensures
            r@.len() == self.instances@.len(),
            forall|i: int| 0 <= i < r@.len() ==> lists(#[trigger] r@[i], self.instances@[i], Side::Client),
    {
        flavors_of(&self.instances, Side::Client)
    }

    /// The content a server flavor's loader consumes; an unregistered flavor
    /// (one a record names that no longer ships) loads nothing.
    pub fn server_loads(&self, flavor: &str) -> (r: Loads)
        ensures
            r == loads_in(self.servers@, flavor@),
    {
        loads_of(&self.servers, flavor)
    }

    /// The content an instance flavor's loader consumes.
    pub fn instance_loads(&self, flavor: &str) -> (r: Loads)
        ensures
            r == loads_in(self.instances@, flavor@),
    {
        loads_of(&self.instances, flavor)
    }

    /// The tools a server flavor needs on the machine; none when unknown.
    pub fn server_requires(&self, flavor: &str) -> (r: Vec<Prerequisite>)
        ensures
            r@ == needs_in(self.servers@, flavor@),
    {
        needs_of(&self.servers, flavor)
    }

    /// The tools an instance flavor needs on the machine; none when unknown.
    pub fn instance_requires(&self, flavor: &str) -> (r: Vec<Prerequisite>)
        ensures
            r@ == needs_in(self.instances@, flavor@),
    {
        needs_of(&self.instances, flavor)
    }

    /// The server flavor that acts for `flavor`, by its place in the list.
    pub fn server(&self, flavor: &str) -> (r: Result<usize, UnknownFlavor>)
        ensures
            r matches Ok(i) ==> position(self.servers@, flavor@) == Some(i as int),
            r matches Err(e) ==> position(self.servers@, flavor@) is None && e.side == Side::Server && e.id@ == flavor@,
    {
        match find(&self.servers, flavor) {
            Some(i) => Ok(i),
            None => Err(UnknownFlavor { side: Side::Server, id: String::from_str(flavor) }),
        }
    }

    /// The instance flavor that acts for `flavor`, by its place in the list.
    pub fn instance(&self, flavor: &str) -> (r: Result<usize, UnknownFlavor>)
        ensures
            r matches Ok(i) ==> position(self.instances@, flavor@) == Some(i as int),
            r matches Err(e) ==> position(self.instances@, flavor@) is None && e.side == Side::Client && e.id@ == flavor@,
    {
        match find(&self.instances, flavor) {
            Some(i) => Ok(i),
            None => Err(UnknownFlavor { side: Side::Client, id: String::from_str(flavor) }),
        }
    }
}

/// The flavor a pack or archive's loader names: the loader itself when one
/// is named, else vanilla.
pub open spec fn wanted_flavor(loader: Option<Seq<char>>) -> Seq<char> {
    match loader {
        Some(l) => if l.len() > 0 {
            l
        } else {
            "vanilla"@
        },
        None => "vanilla"@,
    }
}

impl Registry {
    /// The flavor a pack's loader pins, on `side`: the registry is the table,
    /// so a loader is a flavor exactly when a flavor of that side has its id;
    /// one that none has is refused by name (`Err` carries it) rather than
    /// installed as vanilla.
    pub fn pack_flavor(&self, side: Side, loader: &Option<String>) -> (r: Result<String, String>)
        ensures
            ({
                let cards = match side {
                    Side::Server => self.servers@,
                    Side::Client => self.instances@,
                };
                let wanted = wanted_flavor(match loader {
                    Some(l) => Some(l@),
                    None => None,
                });
                &&& position(cards, wanted) is Some ==> (r matches Ok(f) && f@ == wanted)
                &&& position(cards, wanted) is None ==> (r matches Err(l) && l@ == wanted)
            }),
    {
        let wanted = match loader {
            Some(l) => if l.as_str().is_empty() {
                String::from_str("vanilla")
            } else {
                l.clone()
            },
            None => String::from_str("vanilla"),
        };
        proof {
            reveal_strlit("vanilla");
        }
        let cards = match side {
            Side::Server => &self.servers,
            Side::Client => &self.instances,
        };
        match find(cards, wanted.as_str()) {
            Some(_) => Ok(wanted),
            None => Err(wanted),
        }
    }
}

} // verus!
