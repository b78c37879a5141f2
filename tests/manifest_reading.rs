use test_package_compiler::{parse_manifest, parse_target, Manifest, ManifestError, Target};

#[test]
fn defaults_to_erlang() {
    let m = parse_manifest("name = \"the_package\"\nversion = \"1.0.0\"\n").unwrap();
    assert_eq!(m, Manifest { target: Target::Erlang, typescript_declarations: false });
}

#[test]
fn javascript_with_declarations() {
    let text = "name = \"p\"\ntarget = \"javascript\"\n\n[javascript]\ntypescript_declarations = true\n";
    let m = parse_manifest(text).unwrap();
    assert_eq!(m, Manifest { target: Target::JavaScript, typescript_declarations: true });
}

#[test]
fn javascript_without_declarations() {
    let m = parse_manifest("target = \"javascript\"\n").unwrap();
    assert_eq!(m, Manifest { target: Target::JavaScript, typescript_declarations: false });
}

#[test]
fn explicit_erlang() {
    let m = parse_manifest("target = \"erlang\"\n[javascript]\ntypescript_declarations = true\n").unwrap();
    assert_eq!(m, Manifest { target: Target::Erlang, typescript_declarations: true });
}

#[test]
fn unsupported_target_is_refused() {
    assert_eq!(parse_manifest("target = \"lua\"\n"), Err(ManifestError::UnsupportedTarget));
}

#[test]
fn malformed_target_is_refused() {
    assert_eq!(parse_manifest("target = 3\n"), Err(ManifestError::MalformedTarget));
    assert_eq!(parse_manifest("target = true\n"), Err(ManifestError::MalformedTarget));
}

#[test]
fn malformed_javascript_section_is_refused() {
    assert_eq!(parse_manifest("javascript = 1\n"), Err(ManifestError::MalformedJavaScript));
    assert_eq!(
        parse_manifest("[javascript]\ntypescript_declarations = \"yes\"\n"),
        Err(ManifestError::MalformedTypescriptDeclarations)
    );
}

#[test]
fn syntax_error_is_refused() {
    assert_eq!(parse_manifest("target = \n[[["), Err(ManifestError::Syntax));
}

#[test]
fn target_names() {
    assert_eq!(parse_target("erlang"), Ok(Target::Erlang));
    assert_eq!(parse_target("javascript"), Ok(Target::JavaScript));
    assert_eq!(parse_target("Erlang"), Err(ManifestError::UnsupportedTarget));
    assert_eq!(parse_target(""), Err(ManifestError::UnsupportedTarget));
}
