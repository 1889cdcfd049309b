//! The account's skin picture: library entries, the vanilla defaults and
//! the equipped external skin reconciled into one list where at most one
//! skin is marked equipped; and the name a preserved skin is saved under.
//! A texture travels as standard base64, in a `data:` URL on the way out.
//! The profile, the textures and the library files are the caller's.

use vstd::prelude::*;

use vstd::string::StringExecFns;

use base64::Engine;

use crate::text::{
    chars_of, decimal, decimal_u64, parse_uint, parse_uint_spec, push_all, push_str, starts_with,
    starts_with_str, string_of, sub_chars, trim, trim_chars,
};

verus! {

/// A skin's arm model.
#[derive(Debug, Clone, Copy, PartialEq, Eq, Structural)]
pub enum SkinVariant {
    Classic,
    Slim,
}

/// Where a listed skin comes from.
#[derive(Debug, Clone, Copy, PartialEq, Eq, Structural)]
pub enum SkinSource {
    Library,
    Default,
    External,
}

/// One skin as the list shows it.
#[derive(Debug, Clone)]
pub struct Skin {
    pub key: String,
    pub name: String,
    pub variant: SkinVariant,
    pub texture: String,
    pub source: SkinSource,
    pub equipped: bool,
}

/// A library entry, with its texture as a data URL when it could be read.
#[derive(Debug, Clone)]
pub struct LibrarySkin {
    pub key: String,
    pub name: String,
    pub variant: SkinVariant,
    pub texture: Option<String>,
}

/// A vanilla default skin.
#[derive(Debug, Clone)]
pub struct DefaultSkin {
    pub key: String,
    pub name: String,
    pub variant: SkinVariant,
    pub texture: String,
}

/// The skin the account's profile has equipped.
#[derive(Debug, Clone)]
pub struct ActiveSkin {
    pub key: String,
    pub variant: SkinVariant,
    pub url: String,
}

/// The keys of the defaults.
pub open spec fn default_keys(defaults: Seq<DefaultSkin>) -> Seq<Seq<char>> {
    defaults.map_values(|d: DefaultSkin| d.key@)
}

/// Whether `key` is the active skin's.
pub open spec fn is_active(active: Option<ActiveSkin>, key: Seq<char>) -> bool {
    match active {
        Some(a) => a.key@ == key,
        None => false,
    }
}

/// The number of skins marked equipped.
pub open spec fn equipped_count(skins: Seq<Skin>) -> nat
    decreases skins.len(),
{
    if skins.len() == 0 {
        0
    } else {
        equipped_count(skins.drop_last()) + if skins.last().equipped {
            1nat
        } else {
            0nat
        }
    }
}

/// What listing decides: the skins, and the library entry whose variant is
/// to follow the profile's (the equipped one, when they differ).
#[derive(Debug, Clone)]
pub struct SkinList {
    pub skins: Vec<Skin>,
    pub sync_variant: Option<(String, SkinVariant)>,
}

/// Whether `key` is among `keys`.
fn listed(keys: &Vec<DefaultSkin>, key: &String) -> (r: bool)
    ensures
        r == default_keys(keys@).contains(key@),
{
    let ghost ks = default_keys(keys@);
    let mut i: usize = 0;
    while i < keys.len()
        invariant
            ks == default_keys(keys@),
            i <= keys@.len(),
            forall|k: int| 0 <= k < i ==> ks[k] != key@,
        decreases keys.len() - i,
    {
        if keys[i].key == *key {
            assert(ks[i as int] == key@);
            return true;
        }
        i += 1;
    }
    false
}

/// Whether `key` is the active skin's.
fn active_is(active: &Option<ActiveSkin>, key: &String) -> (r: bool)
    ensures
        r == is_active(*active, key@),
{
    match active {
        Some(a) => a.key == *key,
        None => false,
    }
}

/// The account's skins: each readable library entry that is not a default's
/// texture, then every default, then, when none of those is the equipped
/// skin, the equipped external one. The first entry with the active key is
/// the equipped one, and takes the profile's variant.
/// The library's cards, in order: every entry the defaults do not list and
/// whose texture could be read, the first one the active skin names marked
/// equipped (its variant taken from the profile); with whether that entry
/// was met and the variant correction it owes the library.
pub open spec fn library_cards(library: Seq<LibrarySkin>, defaults: Seq<DefaultSkin>, active: Option<ActiveSkin>) -> (Seq<Skin>, bool, Option<(String, SkinVariant)>)
    decreases library.len(),
{
    if library.len() == 0 {
        (Seq::empty(), false, None)
    } else {
        let (cards, seen, sync) = library_cards(library.drop_last(), defaults, active);
        let e = library.last();
        if default_keys(defaults).contains(e.key@) {
            (cards, seen, sync)
        } else {
            let equipped = !seen && is_active(active, e.key@);
            let corrected = equipped && active.unwrap().variant != e.variant;
            let variant = if corrected {
                active.unwrap().variant
            } else {
                e.variant
            };
            let sync2 = if corrected {
                Some((e.key, active.unwrap().variant))
            } else {
                sync
            };
            let cards2 = match e.texture {
                Some(t) => cards.push(
                    Skin { key: e.key, name: e.name, variant, texture: t, source: SkinSource::Library, equipped },
                ),
                None => cards,
            };
            (cards2, seen || equipped, sync2)
        }
    }
}

/// The default cards, in order, the first one the active skin names marked
/// equipped unless `seen` says the library already showed it; with whether
/// the active skin has been met.
pub open spec fn default_cards(defaults: Seq<DefaultSkin>, active: Option<ActiveSkin>, seen: bool) -> (Seq<Skin>, bool)
    decreases defaults.len(),
{
    if defaults.len() == 0 {
        (Seq::empty(), seen)
    } else {
        let (cards, s) = default_cards(defaults.drop_last(), active, seen);
        let d = defaults.last();
        let equipped = !s && is_active(active, d.key@);
        (
            cards.push(
                Skin {
                    key: d.key,
                    name: d.name,
                    variant: d.variant,
                    texture: d.texture,
                    source: SkinSource::Default,
                    equipped,
                },
            ),
            s || equipped,
        )
    }
}

pub fn assemble(library: &Vec<LibrarySkin>, defaults: &Vec<DefaultSkin>, active: &Option<ActiveSkin>) -> (r: SkinList)
    ensures
        ({
            let (lib, seen, sync) = library_cards(library@, defaults@, *active);
            let (defs, met) = default_cards(defaults@, *active, seen);
            &&& r.sync_variant == sync
            &&& (met || active is None) ==> r.skins@ == lib + defs
            &&& (!met && active is Some) ==> {
                &&& r.skins@.len() == lib.len() + defs.len() + 1
                &&& r.skins@.take(r.skins@.len() - 1) == lib + defs
                &&& r.skins@.last().key == active.unwrap().key
                &&& r.skins@.last().name@.len() == 0
                &&& r.skins@.last().variant == active.unwrap().variant
                &&& r.skins@.last().texture == active.unwrap().url
                &&& r.skins@.last().source == SkinSource::External
                &&& r.skins@.last().equipped
            }
        }),
        equipped_count(r.skins@) <= 1,
        active is None ==> equipped_count(r.skins@) == 0,
        r.sync_variant matches Some((k, v)) ==> (active matches Some(a) && k@ == a.key@ && v == a.variant
            && exists|i: int| 0 <= i < library@.len() && (#[trigger] library@[i]).key@ == a.key@ && library@[i].variant != a.variant),
        forall|i: int| 0 <= i < r.skins@.len() && (#[trigger] r.skins@[i]).equipped ==> is_active(*active, r.skins@[i].key@),
        forall|i: int|
            0 <= i < r.skins@.len() ==> ((#[trigger] r.skins@[i]).source == SkinSource::Library ==> !default_keys(defaults@).contains(r.skins@[i].key@)),
{
    let mut skins: Vec<Skin> = Vec::new();
    let mut seen = false;
    let mut sync: Option<(String, SkinVariant)> = None;
    let mut i: usize = 0;
    while i < library.len()
        invariant
            i <= library@.len(),
            (skins@, seen, sync) == library_cards(library@.take(i as int), defaults@, *active),
            equipped_count(skins@) <= 1,
            !seen ==> equipped_count(skins@) == 0,
            active is None ==> !seen,
            sync matches Some((k, v)) ==> (*active matches Some(a) && k@ == a.key@ && v == a.variant
                && exists|q: int| 0 <= q < library@.len() && (#[trigger] library@[q]).key@ == a.key@ && library@[q].variant != a.variant),
            forall|q: int| 0 <= q < skins@.len() && (#[trigger] skins@[q]).equipped ==> is_active(*active, skins@[q].key@),
            forall|q: int|
                0 <= q < skins@.len() ==> ((#[trigger] skins@[q]).source == SkinSource::Library ==> !default_keys(defaults@).contains(skins@[q].key@)),
        decreases library.len() - i,
    {
        assert(library@.take(i + 1).drop_last() =~= library@.take(i as int));
        assert(library@.take(i + 1).last() == library@[i as int]);
        let entry = &library[i];
        if !listed(defaults, &entry.key) {
            let mut variant = entry.variant;
            let equipped = !seen && active_is(active, &entry.key);
            if equipped {
                if let Some(a) = active {
                    if a.variant != variant {
                        sync = Some((entry.key.clone(), a.variant));
                        assert(library@[i as int].key@ == a.key@ && library@[i as int].variant != a.variant);
                        variant = a.variant;
                    }
                }
            }
            seen = seen || equipped;
            match &entry.texture {
                Some(texture) => {
                    let ghost before = skins@;
                    skins.push(
                        Skin {
                            key: entry.key.clone(),
                            name: entry.name.clone(),
                            variant,
                            texture: texture.clone(),
                            source: SkinSource::Library,
                            equipped,
                        },
                    );
                    assert(skins@.drop_last() =~= before);
                },
                None => {
                    assert(skins@ == skins@);
                },
            }
        }
        i += 1;
    }
    assert(library@.take(library@.len() as int) =~= library@);
    let ghost lib = skins@;
    let ghost seen0 = seen;
    assert(skins@.skip(lib.len() as int) =~= Seq::<Skin>::empty());
    assert(skins@.take(lib.len() as int) =~= lib);
    let mut j: usize = 0;
    while j < defaults.len()
        invariant
            j <= defaults@.len(),
            lib == library_cards(library@, defaults@, *active).0,
            sync == library_cards(library@, defaults@, *active).2,
            (skins@.skip(lib.len() as int), seen) == default_cards(defaults@.take(j as int), *active, seen0),
            skins@.take(lib.len() as int) == lib,
            skins@.len() >= lib.len(),
            seen0 == library_cards(library@, defaults@, *active).1,
            equipped_count(skins@) <= 1,
            !seen ==> equipped_count(skins@) == 0,
            active is None ==> !seen,
            forall|q: int| 0 <= q < skins@.len() && (#[trigger] skins@[q]).equipped ==> is_active(*active, skins@[q].key@),
            forall|q: int|
                0 <= q < skins@.len() ==> ((#[trigger] skins@[q]).source == SkinSource::Library ==> !default_keys(defaults@).contains(skins@[q].key@)),
        decreases defaults.len() - j,
    {
        assert(defaults@.take(j + 1).drop_last() =~= defaults@.take(j as int));
        assert(defaults@.take(j + 1).last() == defaults@[j as int]);
        let d = &defaults[j];
        let equipped = !seen && active_is(active, &d.key);
        seen = seen || equipped;
        let ghost before = skins@;
        skins.push(
            Skin {
                key: d.key.clone(),
                name: d.name.clone(),
                variant: d.variant,
                texture: d.texture.clone(),
                source: SkinSource::Default,
                equipped,
            },
        );
        assert(skins@.drop_last() =~= before);
        assert(skins@.skip(lib.len() as int) =~= before.skip(lib.len() as int).push(skins@.last()));
        assert(skins@.take(lib.len() as int) =~= before.take(lib.len() as int));
        j += 1;
    }
    assert(defaults@.take(defaults@.len() as int) =~= defaults@);
    assert(skins@ =~= skins@.take(lib.len() as int) + skins@.skip(lib.len() as int));
    if !seen {
        if let Some(a) = active {
            let ghost before = skins@;
            skins.push(
                Skin {
                    key: a.key.clone(),
                    name: String::new(),
                    variant: a.variant,
                    texture: a.url.clone(),
                    source: SkinSource::External,
                    equipped: true,
                },
            );
            assert(skins@.drop_last() =~= before);
            assert(skins@.take(skins@.len() - 1) =~= before);
        }
    }
    SkinList { skins, sync_variant: sync }
}

/// The number a library skin name `Skin <n>` carries, if it is one.
pub open spec fn skin_number(name: Seq<char>) -> Option<int> {
    if starts_with(name, "Skin "@) {
        parse_uint_spec(trim(name.skip(5)), 0xffff_ffff)
    } else {
        None
    }
}

/// The highest number among `names` (0 when none carries one).
pub open spec fn highest_number(names: Seq<Seq<char>>) -> int
    decreases names.len(),
{
    if names.len() == 0 {
        0
    } else {
        let rest = highest_number(names.drop_last());
        match skin_number(names.last()) {
            Some(n) => if n > rest {
                n
            } else {
                rest
            },
            None => rest,
        }
    }
}

/// The highest number a name carries is never negative.
proof fn lemma_highest_nonnegative(names: Seq<Seq<char>>)
    ensures
        0 <= highest_number(names),
    decreases names.len(),
{
    if names.len() > 0 {
        lemma_highest_nonnegative(names.drop_last());
    }
}

/// The name a preserved skin is saved under: `Skin <n>`, one past the
/// highest number a library name carries.
pub fn next_skin_name(names: &Vec<String>) -> (r: String)
    requires
        highest_number(names.deep_view()) < 0xffff_ffff,
    ensures
        r@ == "Skin "@ + decimal((highest_number(names.deep_view()) + 1) as nat),
{
    proof {
        reveal_strlit("Skin ");
    }
    let ghost all = names.deep_view();
    let mut highest: u64 = 0;
    let mut i: usize = 0;
    while i < names.len()
        invariant
            all == names.deep_view(),
            i <= all.len(),
            highest == highest_number(all.take(i as int)),
            highest_number(all) < 0xffff_ffff,
        decreases names.len() - i,
    {
        assert(all.take(i + 1).drop_last() =~= all.take(i as int));
        let cs = chars_of(names[i].as_str());
        assert(cs@ == all[i as int]);
        proof {
            reveal_strlit("Skin ");
        }
        if starts_with_str(&cs, "Skin ") {
            let rest = sub_chars(&cs, 5, cs.len());
            assert(rest@ =~= cs@.skip(5));
            let t = trim_chars(&rest);
            match parse_uint(&t, 0xffff_ffff) {
                Some(n) => {
                    if n > highest {
                        highest = n;
                    }
                },
                None => {},
            }
        }
        i += 1;
    }
    assert(all.take(all.len() as int) =~= all);
    proof {
        lemma_highest_nonnegative(all);
    }
    let digits = decimal_u64(highest + 1);
    let mut out: Vec<char> = Vec::new();
    push_str(&mut out, "Skin ");
    push_all(&mut out, &digits);
    string_of(&out)
}

/// The RFC 4648 base64 digit of a six-bit value: `A`–`Z`, `a`–`z`, `0`–`9`,
/// `+`, `/`.
pub open spec fn base64_digit(v: int) -> char {
    if v < 26 {
        (65 + v) as char
    } else if v < 52 {
        (97 + v - 26) as char
    } else if v < 62 {
        (48 + v - 52) as char
    } else if v == 62 {
        '+'
    } else {
        '/'
    }
}

/// The padded RFC 4648 base64 text of `bytes`, as base64's standard engine
/// writes it: four digits for each group of three bytes, the last group
/// short of bytes padded with `=`.
pub open spec fn base64_standard(bytes: Seq<u8>) -> Seq<char>
    decreases bytes.len(),
{
    if bytes.len() == 0 {
        Seq::empty()
    } else if bytes.len() == 1 {
        let x = bytes[0] as int;
        seq![base64_digit(x / 4), base64_digit((x % 4) * 16), '=', '=']
    } else if bytes.len() == 2 {
        let x = bytes[0] as int;
        let y = bytes[1] as int;
        seq![base64_digit(x / 4), base64_digit((x % 4) * 16 + y / 16), base64_digit((y % 16) * 4), '=']
    } else {
        let x = bytes[0] as int;
        let y = bytes[1] as int;
        let z = bytes[2] as int;
        seq![
            base64_digit(x / 4),
            base64_digit((x % 4) * 16 + y / 16),
            base64_digit((y % 16) * 4 + z / 64),
            base64_digit(z % 64),
        ] + base64_standard(bytes.skip(3))
    }
}

/// The bytes base64's standard engine decodes `text` to, or `None` when it
/// refuses the text.
pub uninterp spec fn base64_standard_decoded(text: Seq<char>) -> Option<Seq<u8>>;

/// base64's `STANDARD.encode`: the padded encoding of `bytes`, four
/// characters for every started group of three bytes. It panics when that
/// length overflows, which `requires` rules out.
#[verifier::external_body]
pub(crate) fn base64_encode(bytes: &[u8]) -> (r: String)
    requires
        bytes@.len() / 3 * 4 + 4 <= usize::MAX,
    ensures
        r@ == base64_standard(bytes@),
        r@.len() == 4 * ((bytes@.len() + 2) / 3),
{
    base64::engine::general_purpose::STANDARD.encode(bytes)
}

/// base64's `STANDARD.decode`: the decoded bytes, or `None` for its
/// `DecodeError`.
#[verifier::external_body]
fn base64_decode(text: &str) -> (r: Option<Vec<u8>>)
    ensures
        r matches Some(b) ==> base64_standard_decoded(text@) == Some(b@),
        r is None ==> base64_standard_decoded(text@) is None,
{
    match base64::engine::general_purpose::STANDARD.decode(text) {
        Ok(bytes) => Some(bytes),
        Err(_) => None,
    }
}

/// A PNG texture as the `data:` URL a front-end shows directly.
pub fn data_url(png: &[u8]) -> (r: String)
    requires
        png@.len() / 3 * 4 + 4 <= usize::MAX,
    ensures
        r@ == "data:image/png;base64,"@ + base64_standard(png@),
{
    let encoded = base64_encode(png);
    let mut out: Vec<char> = Vec::new();
    push_str(&mut out, "data:image/png;base64,");
    push_str(&mut out, encoded.as_str());
    string_of(&out)
}

/// Why uploaded skin data was refused.
#[derive(Debug, Clone, Copy, PartialEq, Eq, Structural)]
pub enum SkinDataError {
    /// The data is not standard base64.
    NotBase64,
}

impl SkinDataError {
    /// The message a client sees.
    pub fn message(&self) -> (r: String)
        ensures
            r@ == "the skin data is not valid base64"@,
    {
        String::from_str("the skin data is not valid base64")
    }
}

/// The PNG bytes an uploaded skin carries: its text, trimmed, decoded as
/// standard base64.
pub fn skin_data(data: &str) -> (r: Result<Vec<u8>, SkinDataError>)
    ensures
        r is Ok <==> base64_standard_decoded(trim(data@)) is Some,
        r matches Ok(b) ==> base64_standard_decoded(trim(data@)) == Some(b@),
        r is Err ==> r == Err::<Vec<u8>, SkinDataError>(SkinDataError::NotBase64),
{
    let t = string_of(&trim_chars(&chars_of(data)));
    match base64_decode(t.as_str()) {
        Some(bytes) => Ok(bytes),
        None => Err(SkinDataError::NotBase64),
    }
}

} // verus!
