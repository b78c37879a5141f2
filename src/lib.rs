//! A snapshot harness for compiling one Gleam package: it picks the package's
//! sources, reads its manifest, settles what the compiler is handed, and renders
//! what the compiler produced as one deterministic text.

mod driver;
mod fixture;
mod laws;
mod manifest;
mod render;
mod text;

pub use driver::{
    plan_compilation, render_outcome, resolve_target, snapshot_mode, CompilationPlan,
    CompileOutcome, CompilerSwitches, ErlangAppCodegenConfiguration, TargetCodegenConfiguration,
};
pub use fixture::{
    is_source_file, origin_dir, source_files, source_from_file, strip_dir, FixtureError, Origin,
    Source,
};
pub use laws::{
    lemma_every_file_shown, lemma_listed_source_loads, lemma_prelude_content_irrelevant,
    lemma_prelude_hidden, lemma_unsupported_target_refused, lemma_write_order_irrelevant,
    one_content_per_path,
};
pub use manifest::{
    manifest_from_document, parse_manifest, parse_target, Manifest, ManifestError, Target,
    TomlField,
};
pub use render::{is_prelude, Content, TestCompileOutput};
