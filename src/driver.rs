use vstd::prelude::*;
use crate::fixture::Source;
use crate::manifest::{Manifest, Target};
use crate::render::{overview_text, is_path_ordering, Content, TestCompileOutput};
use crate::text::string_of;

verus! {

/// The application file that an Erlang build writes.
#[derive(Clone, Copy, Debug, PartialEq, Eq, Structural)]
pub struct ErlangAppCodegenConfiguration {
    pub include_dev_deps: bool,
}

/// What the compiler emits for the package's target.
#[derive(Clone, Copy, Debug, PartialEq, Eq, Structural)]
pub enum TargetCodegenConfiguration {
    Erlang { app_file: Option<ErlangAppCodegenConfiguration> },
    JavaScript { emit_typescript_definitions: bool },
}

/// The side work of a build, each of which a snapshot run leaves off.
#[derive(Clone, Copy, Debug, PartialEq, Eq, Structural)]
pub struct CompilerSwitches {
    pub write_entrypoint: bool,
    pub write_metadata: bool,
    pub compile_beam_bytecode: bool,
    pub copy_native_files: bool,
}

/// Everything the package compiler is handed for one snapshot run.
#[derive(Debug)]
pub struct CompilationPlan {
    pub target: TargetCodegenConfiguration,
    pub switches: CompilerSwitches,
    pub sources: Vec<Source>,
    pub root: String,
    pub out: String,
    pub lib: String,
}

/// What one compilation gives: the files it wrote and its warnings, or its error.
#[derive(Debug)]
pub enum CompileOutcome {
    Success { files: Vec<(String, Content)>, warnings: Vec<String> },
    Failure { error: String },
}

/// The configuration for a manifest's target. A build here is always a development
/// build, so the Erlang application file takes in development dependencies.
pub open spec fn resolved_target(manifest: Manifest) -> TargetCodegenConfiguration {
    match manifest.target {
        Target::Erlang => TargetCodegenConfiguration::Erlang {
            app_file: Some(ErlangAppCodegenConfiguration { include_dev_deps: true }),
        },
        Target::JavaScript => TargetCodegenConfiguration::JavaScript {
            emit_typescript_definitions: manifest.typescript_declarations,
        },
    }
}

pub open spec fn snapshot_switches() -> CompilerSwitches {
    CompilerSwitches {
        write_entrypoint: false,
        write_metadata: false,
        compile_beam_bytecode: false,
        copy_native_files: false,
    }
}

pub open spec fn root_dir() -> Seq<char> {
    seq!['/']
}

pub open spec fn lib_dir() -> Seq<char> {
    seq!['/', 'o', 'u', 't', '/', 'l', 'i', 'b']
}

pub open spec fn out_dir() -> Seq<char> {
    lib_dir() + seq!['/', 't', 'h', 'e', '_', 'p', 'a', 'c', 'k', 'a', 'g', 'e']
}

/// The snapshot of an outcome, with the files of a success in the order given.
pub open spec fn outcome_text(outcome: CompileOutcome, files: Seq<(String, Content)>) -> Seq<char> {
    match outcome {
        CompileOutcome::Success { warnings, .. } => overview_text(files, warnings@),
        CompileOutcome::Failure { error } => error@,
    }
}

/// The configuration for the target that the manifest declares.
pub fn resolve_target(manifest: &Manifest) -> (r: TargetCodegenConfiguration)
    ensures
        r == resolved_target(*manifest),
{
    match manifest.target {
        Target::Erlang => TargetCodegenConfiguration::Erlang {
            app_file: Some(ErlangAppCodegenConfiguration { include_dev_deps: true }),
        },
        Target::JavaScript => TargetCodegenConfiguration::JavaScript {
            emit_typescript_definitions: manifest.typescript_declarations,
        },
    }
}

/// The switches of a snapshot run: no entrypoint, no metadata, no bytecode and no
/// native files.
pub fn snapshot_mode() -> (r: CompilerSwitches)
    ensures
        r == snapshot_switches(),
{
    CompilerSwitches {
        write_entrypoint: false,
        write_metadata: false,
        compile_beam_bytecode: false,
        copy_native_files: false,
    }
}

/// What the compiler is handed for a package: the resolved target, the snapshot
/// switches, the library sources followed by the test sources, and the simulated
/// directories of the in-memory file system.
pub fn plan_compilation(manifest: &Manifest, src: Vec<Source>, test: Vec<Source>) -> (r:
    CompilationPlan)
    ensures
        r.target == resolved_target(*manifest),
        r.switches == snapshot_switches(),
        r.sources@ == src@ + test@,
        r.root@ == root_dir(),
        r.out@ == out_dir(),
        r.lib@ == lib_dir(),
{
    let mut sources = src;
    let mut rest = test;
    sources.append(&mut rest);
    let root = string_of(&['/']);
    let lib = string_of(&['/', 'o', 'u', 't', '/', 'l', 'i', 'b']);
    let out = string_of(
        &['/', 'o', 'u', 't', '/', 'l', 'i', 'b', '/', 't', 'h', 'e', '_', 'p', 'a', 'c', 'k', 'a', 'g', 'e'],
    );
    assert(root@ =~= root_dir());
    assert(lib@ =~= lib_dir());
    assert(out@ =~= out_dir());
    CompilationPlan {
        target: resolve_target(manifest),
        switches: snapshot_mode(),
        sources,
        root,
        out,
        lib,
    }
}

/// The snapshot of a compilation: for a success its files in ascending order of
/// path, then its warnings; for a failure the compiler's error text alone.
pub fn render_outcome(outcome: CompileOutcome) -> (r: String)
    ensures
        match outcome {
            CompileOutcome::Success { files, .. } => exists|sorted: Seq<(String, Content)>|
                is_path_ordering(sorted, files@) && r@ == outcome_text(outcome, sorted),
            CompileOutcome::Failure { error } => r@ == error@,
        },
{
    let ghost given = outcome;
    match outcome {
        CompileOutcome::Success { files, warnings } => {
            let ghost written = files@;
            let output = TestCompileOutput::new(files, warnings);
            let r = output.as_overview_text();
            assert(is_path_ordering(output.files(), written) && r@ == outcome_text(
                given,
                output.files(),
            ));
            r
        },
        CompileOutcome::Failure { error } => error,
    }
}

} // verus!
