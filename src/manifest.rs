use vstd::prelude::*;

verus! {

#[verifier::external_type_specification]
#[verifier::external_body]
pub struct ExTomlValue(toml::Value);

#[verifier::external_type_specification]
#[verifier::external_body]
pub struct ExTomlError(toml::de::Error);

/// The compilation target that a package declares.
#[derive(Clone, Copy, Debug, PartialEq, Eq, Structural)]
pub enum Target {
    Erlang,
    JavaScript,
}

/// The settings of a package manifest that decide how the package is compiled.
#[derive(Clone, Copy, Debug, PartialEq, Eq, Structural)]
pub struct Manifest {
    pub target: Target,
    pub typescript_declarations: bool,
}

/// Why a manifest cannot be read.
#[derive(Clone, Copy, Debug, PartialEq, Eq, Structural)]
pub enum ManifestError {
    /// The text is not a TOML document.
    Syntax,
    /// `target` names no supported target.
    UnsupportedTarget,
    /// `target` is not a string.
    MalformedTarget,
    /// `javascript` is not a table.
    MalformedJavaScript,
    /// `javascript.typescript_declarations` is not a boolean.
    MalformedTypescriptDeclarations,
}

/// The value of one key of a TOML table, as far as a manifest reads it.
#[derive(Debug)]
pub enum TomlField {
    Text(String),
    Flag(bool),
    Table(toml::Value),
    Other,
}

/// The keys of a TOML table and their values; empty for a value that is no table.
pub uninterp spec fn toml_entries(doc: toml::Value) -> Map<Seq<char>, TomlField>;

/// Whether a text is a TOML document.
pub uninterp spec fn parses_as_toml(text: Seq<char>) -> bool;

/// The document that a TOML text describes.
pub uninterp spec fn toml_document(text: Seq<char>) -> toml::Value;

/// Relies on `toml::from_str` into a `toml::Value`, whose result depends on the
/// text alone.
#[verifier::external_body]
fn parse_document(text: &str) -> (r: Result<toml::Value, toml::de::Error>)
    ensures
        r is Ok == parses_as_toml(text@),
        r matches Ok(d) ==> d == toml_document(text@),
{
    toml::from_str::<toml::Value>(text)
}

/// Relies on `toml::Value::get` with a string key, which looks the key up in a
/// table and finds nothing in any other value.
#[verifier::external_body]
fn field(doc: &toml::Value, key: &str) -> (r: Option<TomlField>)
    ensures
        match r {
            Some(f) => toml_entries(*doc).contains_key(key@) && toml_entries(*doc)[key@] == f,
            None => !toml_entries(*doc).contains_key(key@),
        },
{
    match doc.get(key) {
        None => None,
        Some(toml::Value::String(s)) => Some(TomlField::Text(s.clone())),
        Some(toml::Value::Boolean(b)) => Some(TomlField::Flag(*b)),
        Some(toml::Value::Table(t)) => Some(TomlField::Table(toml::Value::Table(t.clone()))),
        Some(_) => Some(TomlField::Other),
    }
}

pub open spec fn target_key() -> Seq<char> {
    seq!['t', 'a', 'r', 'g', 'e', 't']
}

pub open spec fn javascript_key() -> Seq<char> {
    seq!['j', 'a', 'v', 'a', 's', 'c', 'r', 'i', 'p', 't']
}

pub open spec fn typescript_key() -> Seq<char> {
    seq![
        't', 'y', 'p', 'e', 's', 'c', 'r', 'i', 'p', 't', '_', 'd', 'e', 'c', 'l', 'a', 'r', 'a',
        't', 'i', 'o', 'n', 's',
    ]
}

/// The target that a name in a manifest stands for.
pub open spec fn target_named(s: Seq<char>) -> Option<Target> {
    if s == seq!['e', 'r', 'l', 'a', 'n', 'g'] {
        Some(Target::Erlang)
    } else if s == javascript_key() {
        Some(Target::JavaScript)
    } else {
        None
    }
}

/// The declared target: Erlang where the key is absent.
pub open spec fn target_of(doc: toml::Value) -> Result<Target, ManifestError> {
    let e = toml_entries(doc);
    if !e.contains_key(target_key()) {
        Ok(Target::Erlang)
    } else {
        match e[target_key()] {
            TomlField::Text(s) => match target_named(s@) {
                Some(t) => Ok(t),
                None => Err(ManifestError::UnsupportedTarget),
            },
            _ => Err(ManifestError::MalformedTarget),
        }
    }
}

/// Whether TypeScript declarations are asked for: false where a key is absent.
pub open spec fn typescript_of(doc: toml::Value) -> Result<bool, ManifestError> {
    let e = toml_entries(doc);
    if !e.contains_key(javascript_key()) {
        Ok(false)
    } else {
        match e[javascript_key()] {
            TomlField::Table(js) => {
                let j = toml_entries(js);
                if !j.contains_key(typescript_key()) {
                    Ok(false)
                } else {
                    match j[typescript_key()] {
                        TomlField::Flag(b) => Ok(b),
                        _ => Err(ManifestError::MalformedTypescriptDeclarations),
                    }
                }
            },
            _ => Err(ManifestError::MalformedJavaScript),
        }
    }
}

/// The manifest that a parsed document describes.
pub open spec fn manifest_of(doc: toml::Value) -> Result<Manifest, ManifestError> {
    match target_of(doc) {
        Err(e) => Err(e),
        Ok(target) => match typescript_of(doc) {
            Err(e) => Err(e),
            Ok(typescript_declarations) => Ok(Manifest { target, typescript_declarations }),
        },
    }
}

/// The target that a name stands for; any other name is refused.
pub fn parse_target(name: &str) -> (r: Result<Target, ManifestError>)
    ensures
        r == match target_named(name@) {
            Some(t) => Ok(t),
            None => Err(ManifestError::UnsupportedTarget),
        },
{
    let erlang = "erlang";
    let javascript = "javascript";
    proof {
        reveal_strlit("erlang");
        reveal_strlit("javascript");
        assert(erlang@ =~= seq!['e', 'r', 'l', 'a', 'n', 'g']);
        assert(javascript@ =~= javascript_key());
    }
    let n = String::from_str(name);
    if n.eq(&String::from_str(erlang)) {
        Ok(Target::Erlang)
    } else if n.eq(&String::from_str(javascript)) {
        Ok(Target::JavaScript)
    } else {
        Err(ManifestError::UnsupportedTarget)
    }
}

fn read_target(doc: &toml::Value) -> (r: Result<Target, ManifestError>)
    ensures
        r == target_of(*doc),
{
    proof {
        reveal_strlit("target");
        assert("target"@ =~= target_key());
    }
    match field(doc, "target") {
        None => Ok(Target::Erlang),
        Some(TomlField::Text(s)) => parse_target(s.as_str()),
        Some(_) => Err(ManifestError::MalformedTarget),
    }
}

fn read_typescript_declarations(doc: &toml::Value) -> (r: Result<bool, ManifestError>)
    ensures
        r == typescript_of(*doc),
{
    proof {
        reveal_strlit("javascript");
        reveal_strlit("typescript_declarations");
        assert("javascript"@ =~= javascript_key());
        assert("typescript_declarations"@ =~= typescript_key());
    }
    match field(doc, "javascript") {
        None => Ok(false),
        Some(TomlField::Table(js)) => match field(&js, "typescript_declarations") {
            None => Ok(false),
            Some(TomlField::Flag(b)) => Ok(b),
            Some(_) => Err(ManifestError::MalformedTypescriptDeclarations),
        },
        Some(_) => Err(ManifestError::MalformedJavaScript),
    }
}

/// The manifest that a parsed TOML document describes.
pub fn manifest_from_document(doc: &toml::Value) -> (r: Result<Manifest, ManifestError>)
    ensures
        r == manifest_of(*doc),
{
    let target = match read_target(doc) {
        Ok(t) => t,
        Err(e) => return Err(e),
    };
    let typescript_declarations = match read_typescript_declarations(doc) {
        Ok(b) => b,
        Err(e) => return Err(e),
    };
    Ok(Manifest { target, typescript_declarations })
}

/// Reads a manifest from its text: a syntax error, or what the parsed document
/// describes.
pub fn parse_manifest(text: &str) -> (r: Result<Manifest, ManifestError>)
    ensures
        r == (if parses_as_toml(text@) {
            manifest_of(toml_document(text@))
        } else {
            Err(ManifestError::Syntax)
        }),
{
    match parse_document(text) {
        Ok(doc) => manifest_from_document(&doc),
        Err(_) => Err(ManifestError::Syntax),
    }
}

} // verus!
