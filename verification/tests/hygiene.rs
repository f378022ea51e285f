use rayon::iter::{IntoParallelIterator, ParallelIterator};
use rspack_hooks::hygiene::{HygieneError, HygieneScope};
use rspack_hooks::module::SourceType;
use rspack_hooks::plugin::{CssModule, CssPlugin, ParseDiagnostic, ParseModuleArgs, Plugin};

#[test]
fn new_scope_has_handed_out_nothing() {
    let scope = HygieneScope::new();
    assert_eq!(scope.issued_marks(), Vec::<u32>::new());
    assert!(!scope.has_issued(0));
    assert!(!scope.has_issued(1));
}

#[test]
fn marks_of_one_scope_differ() {
    let mut scope = HygieneScope::new();
    let mut seen = Vec::new();
    for _ in 0..64 {
        let mark = scope.new_scope().unwrap();
        assert!(!seen.contains(&mark.as_u32()));
        seen.push(mark.as_u32());
    }
    assert_eq!(scope.issued_marks(), seen);
}

#[test]
fn two_plugins_never_share_a_mark() {
    let mut scope = HygieneScope::new();
    let a = CssPlugin::new(&mut scope).unwrap();
    let b = CssPlugin::new(&mut scope).unwrap();
    assert_ne!(a.bundled_import_mark(), b.bundled_import_mark());
    assert_ne!(a.bundled_import_mark().as_u32(), b.bundled_import_mark().as_u32());
}

#[test]
fn plugin_keeps_the_mark_it_was_made_with() {
    let mut scope = HygieneScope::new();
    let a = CssPlugin::new(&mut scope).unwrap();
    let first = a.bundled_import_mark();
    let _b = CssPlugin::new(&mut scope).unwrap();
    assert_eq!(a.bundled_import_mark(), first);
    assert!(scope.has_issued(first.as_u32()));
}

#[test]
fn mark_is_none_of_the_marks_made_behind_the_back_of_the_scope() {
    let mut scope = HygieneScope::new();
    let a = scope.new_scope().unwrap();
    let stray = scope.run_under(|| swc_common::Mark::new().as_u32());
    let b = scope.new_scope().unwrap();
    assert_ne!(a.as_u32(), stray);
    assert_ne!(b.as_u32(), stray);
    assert_ne!(a, b);
}

#[test]
fn recorded_mark_is_handed_out_once() {
    let mut scope = HygieneScope::new();
    let mark = scope.record_mark(7).unwrap();
    assert_eq!(mark.as_u32(), 7);
    assert_eq!(scope.record_mark(7), Err(HygieneError::Exhausted { raw: 7 }));
    assert_eq!(scope.issued_marks(), vec![7]);
    assert_eq!(scope.record_mark(8).unwrap().as_u32(), 8);
    assert_eq!(scope.issued_marks(), vec![7, 8]);
}

#[test]
fn mark_that_comes_again_is_refused() {
    let mut probe = HygieneScope::new();
    let next = probe.new_scope().unwrap().as_u32();
    let mut scope = HygieneScope::new();
    scope.record_mark(next).unwrap();
    assert_eq!(scope.new_scope(), Err(HygieneError::Exhausted { raw: next }));
    assert_eq!(scope.issued_marks(), vec![next]);
    assert!(CssPlugin::new(&mut scope).is_ok());
}

#[test]
fn work_runs_once_under_the_scope_and_its_value_comes_back() {
    let scope = HygieneScope::new();
    assert!(!swc_common::GLOBALS.is_set());
    let mut runs = 0;
    let out = scope.run_under(|| {
        runs += 1;
        (swc_common::GLOBALS.is_set(), 41 + 1)
    });
    assert_eq!(out, (true, 42));
    assert_eq!(runs, 1);
    assert!(!swc_common::GLOBALS.is_set());
}

#[test]
fn scopes_are_independent() {
    let mut one = HygieneScope::new();
    let mut other = HygieneScope::new();
    let a = one.new_scope().unwrap();
    let b = other.new_scope().unwrap();
    assert_eq!(one.issued_marks(), vec![a.as_u32()]);
    assert_eq!(other.issued_marks(), vec![b.as_u32()]);
}

fn args(uri: &str, source: &str) -> ParseModuleArgs {
    ParseModuleArgs { uri: uri.to_string(), source: source.to_string() }
}

#[test]
fn parsed_source_becomes_a_style_module() {
    let mut scope = HygieneScope::new();
    let plugin = CssPlugin::new(&mut scope).unwrap();
    let module = plugin
        .parse_module(&scope, args("a.css", "a { }"), |args: &ParseModuleArgs| {
            assert!(swc_common::GLOBALS.is_set());
            Ok(CssModule { code: args.source.replace(' ', "") })
        })
        .unwrap();
    assert_eq!(module.uri, "a.css");
    assert_eq!(module.source_type, SourceType::Css);
    assert_eq!(module.module, CssModule { code: "a{}".to_string() });
}

#[test]
fn source_that_does_not_parse_gives_a_diagnostic_naming_it() {
    let mut scope = HygieneScope::new();
    let plugin = CssPlugin::new(&mut scope).unwrap();
    let out = plugin.parse_module(&scope, args("bad.css", "a {"), |args: &ParseModuleArgs| {
        Err::<CssModule, String>(format!("unclosed block in {}", args.uri))
    });
    assert_eq!(
        out.err(),
        Some(ParseDiagnostic {
            uri: "bad.css".to_string(),
            message: "unclosed block in bad.css".to_string(),
        })
    );
}

#[test]
fn module_is_made_from_what_the_parser_returned() {
    let mut scope = HygieneScope::new();
    let plugin = CssPlugin::new(&mut scope).unwrap();
    let made = plugin.module_from("a.css".to_string(), Ok::<u8, String>(5)).unwrap();
    assert_eq!((made.uri.as_str(), made.source_type, made.module), ("a.css", SourceType::Css, 5));
    let failed = plugin.module_from("a.css".to_string(), Err::<u8, String>("no".to_string()));
    assert_eq!(
        failed.err(),
        Some(ParseDiagnostic { uri: "a.css".to_string(), message: "no".to_string() })
    );
}

#[test]
fn plugins_made_side_by_side_never_share_a_mark() {
    let scope = std::sync::Mutex::new(HygieneScope::new());
    let mut marks: Vec<u32> = (0..400)
        .into_par_iter()
        .map(|_| {
            let plugin = CssPlugin::new(&mut scope.lock().unwrap()).unwrap();
            plugin.bundled_import_mark().as_u32()
        })
        .collect();
    let issued = scope.lock().unwrap().issued_marks();
    assert_eq!(issued.len(), 400);
    marks.sort();
    marks.dedup();
    assert_eq!(marks.len(), 400);
    let mut sorted = issued.clone();
    sorted.sort();
    assert_eq!(sorted, marks);
}
