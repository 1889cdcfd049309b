use engine::buildtools::{build_args, build_id, is_step, Product};

#[test]
fn a_product_names_the_jar_buildtools_writes() {
    assert_eq!(Product::Spigot.jar_name("1.21.4"), "spigot-1.21.4.jar");
    assert_eq!(Product::Bukkit.jar_name("1.21.4"), "craftbukkit-1.21.4.jar");
}

#[test]
fn only_buildtools_own_narration_is_reported() {
    assert!(is_step("Compiling Spigot & Spigot-API"));
    assert!(is_step("Applying CraftBukkit Patches"));
    assert!(!is_step("[INFO] Building Spigot-API 1.21.4-R0.1-SNAPSHOT"));
    assert!(!is_step("Patching net/minecraft/server/MinecraftServer.java"));
    assert!(!is_step(""));
}

#[test]
fn a_version_maps_to_one_build_id() {
    assert_eq!(build_id("1.21.4"), "build-spigot-1.21.4");
}

#[test]
fn the_build_compiles_both_products_without_a_gui() {
    let args = build_args("/w/BuildTools.jar", "1.21.4", "/w/jars/1.21.4");
    assert_eq!(
        args,
        [
            "-jar",
            "/w/BuildTools.jar",
            "--rev",
            "1.21.4",
            "--output-dir",
            "/w/jars/1.21.4",
            "--compile",
            "CRAFTBUKKIT",
            "--compile",
            "SPIGOT",
            "--nogui"
        ]
    );
}
