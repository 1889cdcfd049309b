//! Vanilla (Mojang): the server jar and the client, resolved straight from a
//! version's detail document.

use vstd::prelude::*;

use vstd::string::StringExecFns;

use crate::json::{get_spec, text_in, Json};
use crate::meta::{
    asset_index, client_artifact, collect_args_spec, download_obj, game_args, game_args_spec,
    has_download, is_artifact_of, is_library_of, java_major, java_major_spec, jvm_args, libraries,
    library_kept, main_class, server_artifact, version_libs, MetaError,
};
use crate::profile::{InstanceProfile, ServerProfile};
use crate::provider::{Flavor, Loads};

verus! {

/// The vanilla server flavor.
#[derive(Debug, Clone, Copy)]
pub struct VanillaServer;

/// The vanilla client flavor.
#[derive(Debug, Clone, Copy)]
pub struct VanillaInstance;

impl Flavor for VanillaServer {
    fn id(&self) -> (r: &'static str)
        ensures
            r@ == "vanilla"@,
    {
        "vanilla"
    }

    fn name(&self) -> (r: &'static str)
        ensures
            r@ == "Vanilla"@,
    {
        "Vanilla"
    }

    fn summary(&self) -> (r: &'static str)
        ensures
            r@ == ""@,
    {
        ""
    }

    fn loads(&self) -> (r: Loads)
        ensures
            r is None,
    {
        None
    }
}

impl Flavor for VanillaInstance {
    fn id(&self) -> (r: &'static str)
        ensures
            r@ == "vanilla"@,
    {
        "vanilla"
    }

    fn name(&self) -> (r: &'static str)
        ensures
            r@ == "Vanilla"@,
    {
        "Vanilla"
    }

    fn summary(&self) -> (r: &'static str)
        ensures
            r@ == ""@,
    {
        ""
    }

    fn loads(&self) -> (r: Loads)
        ensures
            r is None,
    {
        None
    }
}

/// The vanilla server profile of `game`, from its version document.
pub fn server_profile(game: &str, version: &Json) -> (r: Result<ServerProfile, MetaError>)
    ensures
        !has_download(*version, "server"@) ==> r == Err::<ServerProfile, MetaError>(MetaError::NoServerDownload),
        has_download(*version, "server"@) ==> (r matches Ok(p) && p.flavor@ == "vanilla"@
            && p.game_version@ == game@ && p.loader_version is None && is_artifact_of(
            p.primary,
            download_obj(*version, "server"@)->0,
        ) && p.libraries@.len() == 0 && p.java_major == java_major_spec(*version)
            && p.main_class@.len() == 0 && p.jvm_args@.len() == 0 && p.args_file@.len() == 0),
{
    let primary = server_artifact(version)?;
    Ok(
        ServerProfile {
            flavor: String::from_str("vanilla"),
            game_version: String::from_str(game),
            loader_version: None,
            primary,
            libraries: Vec::new(),
            java_major: java_major(version),
            main_class: String::new(),
            jvm_args: Vec::new(),
            args_file: String::new(),
        },
    )
}

/// The vanilla client profile of `game`, from its version document; `os`
/// is the host in Mojang's rule vocabulary.
pub fn instance_profile(game: &str, version: &Json, os: &str) -> (r: Result<InstanceProfile, MetaError>)
    ensures
        !has_download(*version, "client"@) ==> r == Err::<InstanceProfile, MetaError>(MetaError::NoClientDownload),
        has_download(*version, "client"@) && get_spec(*version, "assetIndex"@) is None ==> r == Err::<
            InstanceProfile,
            MetaError,
        >(MetaError::NoAssetIndex),
        r matches Ok(p) ==> {
            let kept = crate::json::keep(version_libs(*version), |lib: Json| library_kept(lib, os@));
            &&& p.flavor@ == "vanilla"@
            &&& p.game_version@ == game@
            &&& p.loader_version is None
            &&& is_artifact_of(p.client, download_obj(*version, "client"@)->0)
            &&& p.asset_index.id@ == text_in(get_spec(*version, "assetIndex"@), "id"@)
            &&& p.java_major == java_major_spec(*version)
            &&& p.main_class@ == text_in(Some(*version), "mainClass"@)
            &&& p.jvm_args.deep_view() == collect_args_spec(*version, "jvm"@, os@)
            &&& p.game_args.deep_view() == game_args_spec(*version, os@)
            &&& p.libraries@.len() == kept.len()
            &&& forall|i: int| 0 <= i < kept.len() ==> is_library_of(#[trigger] p.libraries@[i], kept[i])
        },
{
    let client = client_artifact(version)?;
    let index = asset_index(version)?;
    Ok(
        InstanceProfile {
            flavor: String::from_str("vanilla"),
            game_version: String::from_str(game),
            loader_version: None,
            client,
            libraries: libraries(version, os),
            asset_index: index,
            java_major: java_major(version),
            main_class: main_class(version),
            jvm_args: jvm_args(version, os),
            game_args: game_args(version, os),
        },
    )
}

} // verus!
