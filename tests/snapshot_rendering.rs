use test_package_compiler::{
    is_prelude, plan_compilation, render_outcome, resolve_target, snapshot_mode, source_from_file,
    CompileOutcome, Content, ErlangAppCodegenConfiguration, Manifest, Origin, Target,
    TargetCodegenConfiguration, TestCompileOutput,
};

fn text(path: &str, body: &str) -> (String, Content) {
    (path.to_string(), Content::Text(body.to_string()))
}

#[test]
fn erlang_target_includes_dev_deps() {
    let m = Manifest { target: Target::Erlang, typescript_declarations: true };
    assert_eq!(
        resolve_target(&m),
        TargetCodegenConfiguration::Erlang {
            app_file: Some(ErlangAppCodegenConfiguration { include_dev_deps: true })
        }
    );
}

#[test]
fn javascript_target_copies_declarations_flag() {
    for flag in [true, false] {
        let m = Manifest { target: Target::JavaScript, typescript_declarations: flag };
        assert_eq!(
            resolve_target(&m),
            TargetCodegenConfiguration::JavaScript { emit_typescript_definitions: flag }
        );
    }
}

#[test]
fn plan_puts_library_sources_before_tests() {
    let m = Manifest { target: Target::Erlang, typescript_declarations: false };
    let src = vec![source_from_file("/p", "/p/src/z.gleam", Origin::Src, String::new()).unwrap()];
    let test = vec![source_from_file("/p", "/p/test/a.gleam", Origin::Test, String::new()).unwrap()];
    let plan = plan_compilation(&m, src, test);
    let names: Vec<&str> = plan.sources.iter().map(|s| s.name.as_str()).collect();
    assert_eq!(names, vec!["z", "a"]);
    assert_eq!(plan.switches, snapshot_mode());
    assert!(!plan.switches.write_entrypoint);
    assert!(!plan.switches.write_metadata);
    assert!(!plan.switches.compile_beam_bytecode);
    assert!(!plan.switches.copy_native_files);
    assert_eq!(plan.root, "/");
    assert_eq!(plan.out, "/out/lib/the_package");
    assert_eq!(plan.lib, "/out/lib");
}

#[test]
fn single_module_without_warnings() {
    let outcome = CompileOutcome::Success {
        files: vec![text("/out/lib/the_package/_gleam_artefacts/main.erl", "-module(main).")],
        warnings: vec![],
    };
    assert_eq!(
        render_outcome(outcome),
        "//// /out/lib/the_package/_gleam_artefacts/main.erl\n-module(main).\n\n"
    );
}

#[test]
fn failure_renders_error_alone() {
    let outcome = CompileOutcome::Failure { error: "error: Unknown variable\n  x\n".to_string() };
    assert_eq!(render_outcome(outcome), "error: Unknown variable\n  x\n");
}

#[test]
fn files_are_listed_by_path() {
    let outcome = CompileOutcome::Success {
        files: vec![
            text("/out/lib/the_package/_gleam_artefacts/one_test.erl", "T"),
            text("/out/lib/the_package/_gleam_artefacts/one.erl", "S"),
        ],
        warnings: vec![],
    };
    assert_eq!(
        render_outcome(outcome),
        "//// /out/lib/the_package/_gleam_artefacts/one.erl\nS\n\n\
         //// /out/lib/the_package/_gleam_artefacts/one_test.erl\nT\n\n"
    );
}

#[test]
fn prelude_declarations_are_hidden() {
    let outcome = CompileOutcome::Success {
        files: vec![
            text("/out/lib/the_package/main.mjs", "export {}"),
            text("/out/lib/the_package/gleam.d.ts", "declare class X {}"),
            text("/out/lib/the_package/main.d.ts", "export {}"),
        ],
        warnings: vec![],
    };
    assert_eq!(
        render_outcome(outcome),
        "//// /out/lib/the_package/gleam.d.ts\n<prelude>\n\n\
         //// /out/lib/the_package/main.d.ts\nexport {}\n\n\
         //// /out/lib/the_package/main.mjs\nexport {}\n\n"
    );
}

#[test]
fn prelude_names() {
    assert!(is_prelude("/out/lib/the_package/gleam.mjs"));
    assert!(is_prelude("/out/lib/the_package/gleam.d.ts"));
    assert!(is_prelude("gleam.mjs"));
    assert!(!is_prelude("/out/lib/the_package/my_gleam.mjs"));
    assert!(!is_prelude("/out/lib/the_package/gleam.mjs.map"));
}

#[test]
fn binary_content_is_debug_formatted() {
    let output = TestCompileOutput::new(
        vec![("/out/a.beam".to_string(), Content::Binary(vec![1, 2]))],
        vec![],
    );
    assert_eq!(output.as_overview_text(), "//// /out/a.beam\n[\n    1,\n    2,\n]\n\n");
}

#[test]
fn warnings_follow_files() {
    let output = TestCompileOutput::new(
        vec![text("/b", "B"), text("/a", "A")],
        vec!["Unused {\n    x,\n}".to_string(), "Second".to_string()],
    );
    assert_eq!(
        output.as_overview_text(),
        "//// /a\nA\n\n//// /b\nB\n\n//// Warning\nUnused {\n    x,\n}\n\n//// Warning\nSecond\n\n"
    );
}

#[test]
fn empty_success_renders_empty() {
    let output = TestCompileOutput::new(vec![], vec![]);
    assert_eq!(output.as_overview_text(), "");
}

#[test]
fn rendering_twice_is_identical() {
    let make = || {
        CompileOutcome::Success {
            files: vec![text("/x/c", "3"), text("/x/a", "1"), text("/x/b", "2")],
            warnings: vec!["W".to_string()],
        }
    };
    let first = render_outcome(make());
    let second = render_outcome(make());
    assert_eq!(first, second);
    let reordered = CompileOutcome::Success {
        files: vec![text("/x/b", "2"), text("/x/c", "3"), text("/x/a", "1")],
        warnings: vec!["W".to_string()],
    };
    assert_eq!(render_outcome(reordered), first);
}

#[test]
fn nested_modules_sort_by_component() {
    let outcome = CompileOutcome::Success {
        files: vec![text("/a.erl", "top"), text("/a/b.erl", "nested")],
        warnings: vec![],
    };
    assert_eq!(render_outcome(outcome), "//// /a/b.erl\nnested\n\n//// /a.erl\ntop\n\n");
}

#[test]
fn nested_javascript_module_comes_first() {
    let output = TestCompileOutput::new(
        vec![text("/out/x.mjs", "X"), text("/out/x/y.mjs", "Y"), text("/out/w.mjs", "W")],
        vec![],
    );
    assert_eq!(
        output.as_overview_text(),
        "//// /out/w.mjs\nW\n\n//// /out/x/y.mjs\nY\n\n//// /out/x.mjs\nX\n\n"
    );
}

#[test]
fn empty_binary_content() {
    let output = TestCompileOutput::new(vec![("/e".to_string(), Content::Binary(vec![]))], vec![]);
    assert_eq!(output.as_overview_text(), "//// /e\n[]\n\n");
}

#[test]
fn multi_digit_bytes() {
    let output =
        TestCompileOutput::new(vec![("/m".to_string(), Content::Binary(vec![0, 10, 255]))], vec![]);
    assert_eq!(output.as_overview_text(), "//// /m\n[\n    0,\n    10,\n    255,\n]\n\n");
}
