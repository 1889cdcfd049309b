use engine::skins::{
    assemble, data_url, next_skin_name, skin_data, ActiveSkin, DefaultSkin, LibrarySkin,
    SkinDataError, SkinSource, SkinVariant,
};

fn lib(key: &str, name: &str, variant: SkinVariant, readable: bool) -> LibrarySkin {
    LibrarySkin {
        key: key.to_string(),
        name: name.to_string(),
        variant,
        texture: if readable { Some(format!("data:{key}")) } else { None },
    }
}

fn default(key: &str) -> DefaultSkin {
    DefaultSkin {
        key: key.to_string(),
        name: key.to_string(),
        variant: SkinVariant::Classic,
        texture: format!("https://textures/{key}"),
    }
}

fn active(key: &str, variant: SkinVariant) -> Option<ActiveSkin> {
    Some(ActiveSkin {
        key: key.to_string(),
        variant,
        url: format!("https://textures.minecraft.net/{key}"),
    })
}

#[test]
fn an_equipped_library_skin_is_marked_once_and_its_variant_synced() {
    let library = vec![
        lib("k1", "Skin 1", SkinVariant::Classic, true),
        lib("steve", "dup", SkinVariant::Classic, true),
    ];
    let defaults = vec![default("steve"), default("alex")];
    let list = assemble(&library, &defaults, &active("k1", SkinVariant::Slim));
    let keys: Vec<&str> = list.skins.iter().map(|s| s.key.as_str()).collect();
    assert_eq!(keys, ["k1", "steve", "alex"], "a library row shadowing a default is dropped");
    assert!(list.skins[0].equipped);
    assert_eq!(list.skins[0].variant, SkinVariant::Slim);
    assert_eq!(list.skins.iter().filter(|s| s.equipped).count(), 1);
    assert_eq!(list.sync_variant, Some(("k1".to_string(), SkinVariant::Slim)));
}

#[test]
fn an_external_skin_is_listed_last_when_nothing_covers_it() {
    let list = assemble(&vec![], &vec![default("steve")], &active("zzz", SkinVariant::Classic));
    assert_eq!(list.skins.len(), 2);
    let last = &list.skins[1];
    assert_eq!(last.source, SkinSource::External);
    assert!(last.equipped);
    assert_eq!(last.key, "zzz");
    assert_eq!(last.name, "");
    assert_eq!(last.texture, "https://textures.minecraft.net/zzz");
    assert_eq!(list.sync_variant, None);
}

#[test]
fn a_default_is_equipped_when_the_profile_wears_it() {
    let list = assemble(&vec![], &vec![default("steve"), default("alex")], &active("alex", SkinVariant::Classic));
    assert_eq!(list.skins.len(), 2);
    assert!(!list.skins[0].equipped);
    assert!(list.skins[1].equipped);
    assert_eq!(list.skins[1].source, SkinSource::Default);
}

#[test]
fn an_unreadable_library_skin_is_skipped_but_still_counts_as_seen() {
    let library = vec![lib("k1", "Skin 1", SkinVariant::Classic, false)];
    let list = assemble(&library, &vec![], &active("k1", SkinVariant::Classic));
    assert!(list.skins.is_empty(), "no external card for a skin the library holds");
    let list = assemble(&library, &vec![], &None);
    assert!(list.skins.is_empty());
}

#[test]
fn a_preserved_skin_takes_the_next_free_number() {
    let names = vec!["Skin 2".to_string(), "Castle".to_string(), "Skin  7 ".to_string()];
    assert_eq!(next_skin_name(&names), "Skin 8");
    assert_eq!(next_skin_name(&vec![]), "Skin 1");
}

#[test]
fn a_texture_travels_as_a_data_url() {
    assert_eq!(data_url(b"hi"), "data:image/png;base64,aGk=");
    assert_eq!(data_url(b""), "data:image/png;base64,");
}

#[test]
fn uploaded_skin_data_is_trimmed_base64() {
    assert_eq!(skin_data("  aGk=\n").unwrap(), b"hi".to_vec());
    assert_eq!(skin_data("not base64!"), Err(SkinDataError::NotBase64));
    assert_eq!(SkinDataError::NotBase64.message(), "the skin data is not valid base64");
}
