use engine::secrets::redact;

fn args(raw: &[&str]) -> Vec<String> {
    raw.iter().map(|s| s.to_string()).collect()
}

#[test]
fn every_credential_flag_masks_its_value() {
    let redacted = redact(&args(&[
        "--username",
        "toraaoo",
        "--accessToken",
        "ey.a.real.jwt",
        "--session",
        "ey.another.one",
        "--versionType",
        "release",
    ]));
    assert_eq!(
        redacted,
        args(&[
            "--username",
            "toraaoo",
            "--accessToken",
            "<redacted>",
            "--session",
            "<redacted>",
            "--versionType",
            "release",
        ])
    );
}

#[test]
fn a_trailing_flag_masks_nothing_and_drops_nothing() {
    assert_eq!(
        redact(&args(&["-cp", "a.jar", "--accessToken"])),
        args(&["-cp", "a.jar", "--accessToken"])
    );
}

#[test]
fn a_value_that_looks_like_a_flag_is_still_masked_once() {
    assert_eq!(
        redact(&args(&["--accessToken", "--session", "real"])),
        args(&["--accessToken", "<redacted>", "real"]),
        "the token after a secret flag is consumed, whatever it looks like"
    );
}

#[test]
fn nothing_to_mask_passes_through() {
    assert_eq!(redact(&args(&[])), args(&[]));
    assert_eq!(redact(&args(&["--session", "s", "--session", "t"])), args(&["--session", "<redacted>", "--session", "<redacted>"]));
}

#[test]
fn redacting_twice_changes_nothing() {
    let raw: Vec<String> = ["--session", "--accessToken", "tok", "--accessToken", "secret", "x"]
        .iter()
        .map(|s| s.to_string())
        .collect();
    let once = engine::secrets::redact(&raw);
    assert_eq!(once, ["--session", "<redacted>", "tok", "--accessToken", "<redacted>", "x"]);
    assert_eq!(engine::secrets::redact(&once), once);
}
