use rspack_hooks::hygiene::HygieneScope;
use rspack_hooks::module::{
    Chunk, ChunkGraph, Compilation, Module, ModuleGraph, ModuleGraphModule, SourceType,
};
use rspack_hooks::plugin::{CssModule, CssPlugin, Plugin, RenderManifestArgs};
use rspack_hooks::render::{assemble, Asset, AssetFilename, RenderError, RenderFailure};

fn style(uri: &str, source_type: SourceType, code: &str) -> ModuleGraphModule<CssModule> {
    ModuleGraphModule {
        uri: uri.to_string(),
        source_type,
        module: CssModule { code: code.to_string() },
    }
}

fn compilation_of(
    modules: Vec<ModuleGraphModule<CssModule>>,
    chunk_id: &str,
    uris: &[&str],
) -> Compilation<CssModule> {
    Compilation {
        module_graph: ModuleGraph { modules },
        chunk_graph: ChunkGraph {
            chunks: vec![Chunk {
                id: chunk_id.to_string(),
                module_uris: uris.iter().map(|u| u.to_string()).collect(),
            }],
        },
    }
}

fn plugin() -> CssPlugin {
    let mut scope = HygieneScope::new();
    CssPlugin::new(&mut scope).unwrap()
}

#[test]
fn styles_of_a_mixed_chunk_make_one_asset() {
    let compilation = compilation_of(
        vec![
            style("a.css", SourceType::Css, "a{}"),
            style("m.js", SourceType::Js, "let m;"),
            style("b.css", SourceType::Css, "b{}"),
        ],
        "main",
        &["a.css", "m.js", "b.css"],
    );
    let id = "main".to_string();
    let out = plugin().render_manifest(RenderManifestArgs { chunk_id: &id, compilation: &compilation });
    assert_eq!(
        out,
        Ok(vec![Asset {
            rendered: "a{}\nb{}".to_string(),
            filename: AssetFilename::Static("main.css".to_string()),
        }])
    );
}

#[test]
fn chunk_without_styles_makes_no_asset() {
    let compilation = compilation_of(
        vec![style("m.js", SourceType::Js, "let m;")],
        "main",
        &["m.js"],
    );
    let id = "main".to_string();
    let out = plugin().render_manifest(RenderManifestArgs { chunk_id: &id, compilation: &compilation });
    assert_eq!(out, Ok(vec![]));
}

#[test]
fn unknown_chunk_is_an_error_naming_it() {
    let compilation = compilation_of(vec![], "main", &[]);
    let id = "other".to_string();
    let out = plugin().render_manifest(RenderManifestArgs { chunk_id: &id, compilation: &compilation });
    assert_eq!(
        out,
        Err(RenderError {
            chunk_id: "other".to_string(),
            plugin: "css".to_string(),
            failure: RenderFailure::ChunkNotFound,
        })
    );
}

#[test]
fn first_failure_is_fatal_to_the_chunk() {
    let id = "main".to_string();
    let out = assemble(
        &id,
        "css",
        "css",
        vec![Ok("a{}".to_string()), Err("bad".to_string()), Err("worse".to_string())],
    );
    assert_eq!(
        out,
        Err(RenderError {
            chunk_id: "main".to_string(),
            plugin: "css".to_string(),
            failure: RenderFailure::ModuleFailed { position: 1, message: "bad".to_string() },
        })
    );
}

struct Failing;

impl Module for Failing {
    fn render(&self, _compilation: &Compilation<Self>) -> Result<String, String> {
        Err("cannot print".to_string())
    }
}

#[test]
fn failing_module_fails_the_render_hook() {
    let compilation = Compilation {
        module_graph: ModuleGraph {
            modules: vec![ModuleGraphModule {
                uri: "x.css".to_string(),
                source_type: SourceType::Css,
                module: Failing,
            }],
        },
        chunk_graph: ChunkGraph {
            chunks: vec![Chunk { id: "main".to_string(), module_uris: vec!["x.css".to_string()] }],
        },
    };
    let id = "main".to_string();
    let out = plugin().render_manifest(RenderManifestArgs { chunk_id: &id, compilation: &compilation });
    assert_eq!(
        out,
        Err(RenderError {
            chunk_id: "main".to_string(),
            plugin: "css".to_string(),
            failure: RenderFailure::ModuleFailed {
                position: 0,
                message: "cannot print".to_string(),
            },
        })
    );
}

#[test]
fn body_follows_the_order_of_the_chunk_for_many_modules() {
    let count = 500;
    let mut modules = Vec::new();
    let mut uris = Vec::new();
    for i in 0..count {
        let kind = if i % 3 == 1 { SourceType::Js } else { SourceType::Css };
        modules.push(style(&format!("m{}", i), kind, &format!(".c{}{{}}", i)));
        uris.push(format!("m{}", i));
    }
    let expected: Vec<String> =
        (0..count).filter(|i| i % 3 != 1).map(|i| format!(".c{}{{}}", i)).collect();
    let compilation = Compilation {
        module_graph: ModuleGraph { modules },
        chunk_graph: ChunkGraph { chunks: vec![Chunk { id: "big".to_string(), module_uris: uris }] },
    };
    let id = "big".to_string();
    for _ in 0..20 {
        let out = plugin()
            .render_manifest(RenderManifestArgs { chunk_id: &id, compilation: &compilation })
            .unwrap();
        assert_eq!(out.len(), 1);
        assert_eq!(out[0].rendered, expected.join("\n"));
        assert_eq!(out[0].filename, AssetFilename::Static("big.css".to_string()));
    }
}

#[test]
fn body_follows_the_chunk_not_the_module_graph() {
    let compilation = compilation_of(
        vec![
            style("a.css", SourceType::Css, "a{}"),
            style("b.css", SourceType::Css, "b{}"),
            style("c.css", SourceType::Css, "c{}"),
        ],
        "main",
        &["c.css", "a.css", "b.css"],
    );
    let id = "main".to_string();
    let out = plugin()
        .render_manifest(RenderManifestArgs { chunk_id: &id, compilation: &compilation })
        .unwrap();
    assert_eq!(out[0].rendered, "c{}\na{}\nb{}");
}

#[test]
fn body_is_trimmed_as_a_whole() {
    let id = "main".to_string();
    let out = assemble(
        &id,
        "css",
        "css",
        vec![Ok("\n  a{} ".to_string()), Ok(" b{}\n".to_string()), Ok("c{}\n\n".to_string())],
    )
    .unwrap();
    assert_eq!(out[0].rendered, "a{} \n b{}\n\nc{}");
}

#[test]
fn modules_that_render_to_nothing_still_make_one_asset() {
    let id = "main".to_string();
    let out = assemble(&id, "css", "css", vec![Ok("".to_string()), Ok(" ".to_string())]).unwrap();
    assert_eq!(
        out,
        vec![Asset {
            rendered: "".to_string(),
            filename: AssetFilename::Static("main.css".to_string()),
        }]
    );
}

#[test]
fn no_rendering_makes_no_asset() {
    let id = "main".to_string();
    assert_eq!(assemble(&id, "css", "css", vec![]), Ok(vec![]));
}

#[test]
fn asset_is_named_after_chunk_and_extension() {
    let id = "vendor~main".to_string();
    let out = assemble(&id, "js", "mjs", vec![Ok("x".to_string())]).unwrap();
    assert_eq!(out[0].filename, AssetFilename::Static("vendor~main.mjs".to_string()));
}

#[test]
fn failure_leaves_no_partial_asset() {
    let id = "main".to_string();
    let out = assemble(&id, "css", "css", vec![Err("first".to_string()), Ok("a{}".to_string())]);
    assert_eq!(
        out,
        Err(RenderError {
            chunk_id: "main".to_string(),
            plugin: "css".to_string(),
            failure: RenderFailure::ModuleFailed { position: 0, message: "first".to_string() },
        })
    );
}

#[test]
fn chunk_is_found_by_its_name() {
    let graph = ChunkGraph {
        chunks: vec![
            Chunk { id: "a".to_string(), module_uris: vec!["1".to_string()] },
            Chunk { id: "b".to_string(), module_uris: vec!["2".to_string()] },
            Chunk { id: "a".to_string(), module_uris: vec!["3".to_string()] },
        ],
    };
    assert_eq!(graph.chunk_by_id(&"b".to_string()).unwrap().module_uris, vec!["2"]);
    assert_eq!(graph.chunk_by_id(&"a".to_string()).unwrap().module_uris, vec!["1"]);
    assert!(graph.chunk_by_id(&"c".to_string()).is_none());
}

#[test]
fn module_is_found_by_its_location() {
    let graph = ModuleGraph {
        modules: vec![
            style("a.css", SourceType::Css, "one"),
            style("b.css", SourceType::Css, "two"),
            style("a.css", SourceType::Css, "three"),
        ],
    };
    assert_eq!(graph.module_by_uri(&"a.css".to_string()).unwrap().module.code, "one");
    assert_eq!(graph.module_by_uri(&"b.css".to_string()).unwrap().module.code, "two");
    assert!(graph.module_by_uri(&"c.css".to_string()).is_none());
}

#[test]
fn chunk_passes_over_locations_that_the_graph_does_not_hold() {
    let graph = ModuleGraph {
        modules: vec![style("a.css", SourceType::Css, "a"), style("b.css", SourceType::Css, "b")],
    };
    let chunk = Chunk {
        id: "main".to_string(),
        module_uris: vec![
            "b.css".to_string(),
            "gone.css".to_string(),
            "a.css".to_string(),
            "b.css".to_string(),
        ],
    };
    let codes: Vec<&str> =
        chunk.ordered_modules(&graph).iter().map(|m| m.module.code.as_str()).collect();
    assert_eq!(codes, vec!["b", "a", "b"]);
}

#[test]
fn modules_are_picked_by_source_type_in_order() {
    let modules = vec![
        style("1", SourceType::Css, "1"),
        style("2", SourceType::Asset, "2"),
        style("3", SourceType::Js, "3"),
        style("4", SourceType::Css, "4"),
    ];
    let refs: Vec<&ModuleGraphModule<CssModule>> = modules.iter().collect();
    let picked: Vec<&str> = rspack_hooks::render::modules_of_type(&refs, SourceType::Css)
        .iter()
        .map(|m| m.uri.as_str())
        .collect();
    assert_eq!(picked, vec!["1", "4"]);
    assert!(rspack_hooks::render::modules_of_type(&Vec::new(), SourceType::Js)
        .iter()
        .map(|m: &&ModuleGraphModule<CssModule>| m.uri.as_str())
        .next()
        .is_none());
}

#[test]
fn render_chunk_serves_any_source_type() {
    let compilation = compilation_of(
        vec![style("a.css", SourceType::Css, "a{}"), style("m.js", SourceType::Js, " let m; ")],
        "main",
        &["a.css", "m.js"],
    );
    let id = "main".to_string();
    let out =
        rspack_hooks::render::render_chunk(&compilation, &id, "script", "js", SourceType::Js)
            .unwrap();
    assert_eq!(
        out,
        vec![Asset {
            rendered: "let m;".to_string(),
            filename: AssetFilename::Static("main.js".to_string()),
        }]
    );
}

#[test]
fn style_module_renders_to_its_text() {
    let compilation = compilation_of(vec![], "main", &[]);
    let module = CssModule { code: " a{} ".to_string() };
    assert_eq!(module.render(&compilation), Ok(" a{} ".to_string()));
}
