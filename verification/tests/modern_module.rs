use rspack_plugins::dependency::{DependencyId, DependencyIdAllocator, DependencyLocation};
use rspack_plugins::external::{ExternalModule, ExternalRequest, ExternalRequestValue};
use rspack_plugins::modern_module::{
    ChunkGraph, ChunkHasher, ExportInfo, LibraryOptions, ModernModuleLibraryPlugin, RenderSource,
};
use rspack_plugins::module_graph::{
    AsyncDependenciesBlock, BlockId, ConnectionId, GraphDependency, GraphModule, ImportDependency,
    ModuleGraph, ModuleGraphConnection, ModuleKind,
};
use rspack_plugins::plugin::{ApplyContext, HookName};
use rspack_plugins::runtime::{merge_runtime, RuntimeSpec};

fn s(v: &str) -> String {
    v.to_string()
}

fn modern() -> LibraryOptions {
    LibraryOptions { name: None, library_type: s("modern-module") }
}

fn export(name: &str, used: &str) -> ExportInfo {
    ExportInfo { name: s(name), used_name: s(used) }
}

const NAME_ERROR: &str = "Library name must be unset. Common configuration options that specific library names are 'output.library[.name]', 'entry.xyz.library[.name]', 'ModuleFederationPlugin.name' and 'ModuleFederationPlugin.library[.name]'.";

#[test]
fn options_for_chunk() {
    let plugin = ModernModuleLibraryPlugin;
    assert!(matches!(plugin.get_options_for_chunk(None), Ok(None)));
    let umd = LibraryOptions { name: None, library_type: s("umd") };
    assert!(matches!(plugin.get_options_for_chunk(Some(&umd)), Ok(None)));
    assert!(matches!(plugin.get_options_for_chunk(Some(&modern())), Ok(Some(()))));
    let named = LibraryOptions { name: Some(s("MyLib")), library_type: s("modern-module") };
    match plugin.get_options_for_chunk(Some(&named)) {
        Err(e) => assert_eq!(e.message, NAME_ERROR),
        _ => panic!("a named modern-module library is an error"),
    }
    let named_umd = LibraryOptions { name: Some(s("MyLib")), library_type: s("umd") };
    assert!(matches!(plugin.get_options_for_chunk(Some(&named_umd)), Ok(None)));
}

#[test]
fn render_startup_exports() {
    let plugin = ModernModuleLibraryPlugin;
    let exports = vec![export("a", "a"), export("b", "b"), export("p", "p"), export("gone", "gone")];
    let names = vec![(s("a"), s("a")), (s("b"), s("c")), (s("p"), s("obj.p"))];
    let mut src = RenderSource { source: s("// startup\n") };
    assert!(plugin.render_startup(Some(&modern()), &exports, Some(&names), &mut src).is_ok());
    assert_eq!(
        src.source,
        "// startup\nvar __webpack_exports__p = obj.p;\nexport { a, c as b, __webpack_exports__p as p };\n"
    );
}

#[test]
fn render_startup_property_names_become_identifiers() {
    let plugin = ModernModuleLibraryPlugin;
    let exports = vec![export("default", "default"), export("my-name", "x")];
    let names = vec![(s("default"), s("lib[\"default\"]")), (s("x"), s("call()"))];
    let mut src = RenderSource { source: s("") };
    assert!(plugin.render_startup(Some(&modern()), &exports, Some(&names), &mut src).is_ok());
    assert_eq!(
        src.source,
        "var __webpack_exports__default = lib[\"default\"];\nvar __webpack_exports__my_name = call();\nexport { __webpack_exports__default as default, __webpack_exports__my_name as my-name };\n"
    );
}

#[test]
fn render_startup_without_exports() {
    let plugin = ModernModuleLibraryPlugin;
    let mut src = RenderSource { source: s("code") };
    assert!(plugin.render_startup(Some(&modern()), &vec![export("a", "a")], None, &mut src).is_ok());
    assert_eq!(src.source, "code");
    let mut src = RenderSource { source: s("code") };
    assert!(plugin.render_startup(Some(&modern()), &vec![], Some(&vec![]), &mut src).is_ok());
    assert_eq!(src.source, "code");
}

#[test]
fn render_startup_other_libraries_unchanged() {
    let plugin = ModernModuleLibraryPlugin;
    let names = vec![(s("a"), s("a"))];
    let mut src = RenderSource { source: s("code") };
    assert!(plugin.render_startup(None, &vec![export("a", "a")], Some(&names), &mut src).is_ok());
    assert_eq!(src.source, "code");
    let named = LibraryOptions { name: Some(s("L")), library_type: s("modern-module") };
    match plugin.render_startup(Some(&named), &vec![export("a", "a")], Some(&names), &mut src) {
        Err(e) => assert_eq!(e.message, NAME_ERROR),
        Ok(()) => panic!("a named library is an error"),
    }
    assert_eq!(src.source, "code");
}

#[test]
fn chunk_hash_adds_plugin_name() {
    let plugin = ModernModuleLibraryPlugin;
    let mut h = ChunkHasher::new();
    assert!(plugin.js_chunk_hash(Some(&modern()), &mut h).is_ok());
    assert_eq!(h.written, vec![s("rspack.ModernModuleLibraryPlugin")]);
    let mut h = ChunkHasher::new();
    assert!(plugin.js_chunk_hash(None, &mut h).is_ok());
    assert!(h.written.is_empty());
}

#[test]
fn plugin_hooks() {
    let plugin = ModernModuleLibraryPlugin;
    assert_eq!(plugin.name(), "rspack.ModernModuleLibraryPlugin");
    let mut defs = vec![];
    assert!(matches!(plugin.exports_definitions(&mut defs), Ok(Some(true))));
    let mut ctx = ApplyContext::new();
    assert!(plugin.apply(&mut ctx).is_ok());
    let hooks: Vec<HookName> = ctx.taps.iter().map(|t| t.hook).collect();
    assert_eq!(
        hooks,
        vec![
            HookName::CompilerCompilation,
            HookName::ConcatenatedModuleExportsDefinitions,
            HookName::CompilationOptimizeChunkModules,
            HookName::CompilationFinishModules
        ]
    );
    let mut js = ApplyContext::new();
    assert!(plugin.compilation(&mut js).is_ok());
    let hooks: Vec<HookName> = js.taps.iter().map(|t| t.hook).collect();
    assert_eq!(hooks, vec![HookName::JavascriptModulesRenderStartup, HookName::JavascriptModulesChunkHash]);
}

fn module(id: u64, kind: ModuleKind, blocks: Vec<u32>, bailout: Vec<&str>) -> GraphModule {
    GraphModule {
        id,
        kind,
        blocks: blocks.into_iter().map(|value| BlockId { value }).collect(),
        optimization_bailout: bailout.into_iter().map(s).collect(),
    }
}

fn external(user_request: &str, primary: &str) -> ModuleKind {
    ModuleKind::External(ExternalModule::new(
        ExternalRequest::Single(ExternalRequestValue::new(s(primary), None)),
        s("module"),
        s(user_request),
    ))
}

fn import(id: u32, request: &str) -> GraphDependency {
    GraphDependency::Import(ImportDependency {
        id: DependencyId { value: id },
        request: s(request),
        range: DependencyLocation { start: 5, end: 20 },
    })
}

fn connection(id: u32, from: u64, dep: u32, to: u64) -> ModuleGraphConnection {
    ModuleGraphConnection {
        id: ConnectionId { value: id },
        origin_module: from,
        dependency: DependencyId { value: dep },
        module: to,
    }
}

#[test]
fn finish_modules_rewrites_external_imports() {
    let mut graph = ModuleGraph {
        modules: vec![
            module(1, ModuleKind::Normal, vec![10, 11], vec![]),
            module(2, external("lodash", "lodash-es"), vec![], vec![]),
            module(3, ModuleKind::Normal, vec![], vec![]),
        ],
        blocks: vec![
            AsyncDependenciesBlock { id: BlockId { value: 10 }, dependencies: vec![DependencyId { value: 100 }] },
            AsyncDependenciesBlock { id: BlockId { value: 11 }, dependencies: vec![DependencyId { value: 101 }] },
        ],
        dependencies: vec![import(100, "lodash"), import(101, "./local")],
        connections: vec![connection(7, 1, 100, 2), connection(8, 1, 101, 3)],
    };
    let mut ids = DependencyIdAllocator::new();
    let plugin = ModernModuleLibraryPlugin;
    assert!(plugin.finish_modules(&mut graph, &mut ids).is_ok());

    assert_eq!(graph.blocks[0].dependencies, vec![DependencyId { value: 0 }]);
    assert_eq!(graph.blocks[1].dependencies, vec![DependencyId { value: 101 }]);
    assert_eq!(graph.dependencies.len(), 3);
    match &graph.dependencies[2] {
        GraphDependency::ModernModuleImport(d) => {
            assert_eq!(d.id, DependencyId { value: 0 });
            assert_eq!(d.request, "lodash");
            assert_eq!(d.target_request, "lodash-es");
            assert_eq!(d.range, DependencyLocation { start: 5, end: 20 });
        }
        _ => panic!("expected the new import"),
    }
    assert_eq!(graph.connections, vec![connection(8, 1, 101, 3)]);
    assert_eq!(ids.fresh().value, 1);
}

#[test]
fn finish_modules_keeps_keyed_externals() {
    let keyed = ModuleKind::External(ExternalModule::new(
        ExternalRequest::Keyed(vec![(s("root"), ExternalRequestValue::new(s("_"), None))]),
        s("umd"),
        s("lodash"),
    ));
    let mut graph = ModuleGraph {
        modules: vec![module(1, ModuleKind::Normal, vec![10], vec![]), module(2, keyed, vec![], vec![])],
        blocks: vec![AsyncDependenciesBlock { id: BlockId { value: 10 }, dependencies: vec![DependencyId { value: 100 }] }],
        dependencies: vec![import(100, "lodash")],
        connections: vec![connection(7, 1, 100, 2)],
    };
    let mut ids = DependencyIdAllocator::new();
    assert!(ModernModuleLibraryPlugin.finish_modules(&mut graph, &mut ids).is_ok());
    assert_eq!(graph.blocks[0].dependencies, vec![DependencyId { value: 100 }]);
    assert_eq!(graph.dependencies.len(), 1);
    assert_eq!(graph.connections.len(), 1);
}

fn runtime(names: &[&str]) -> RuntimeSpec {
    RuntimeSpec { names: names.iter().map(|n| s(n)).collect() }
}

#[test]
fn merge_runtimes() {
    let m = merge_runtime(&runtime(&["main", "worker"]), &runtime(&["worker", "admin"]));
    assert_eq!(m.names, vec![s("main"), s("worker"), s("admin")]);
}

#[test]
fn optimize_forces_lonely_modules() {
    let graph = ModuleGraph {
        modules: vec![
            module(1, ModuleKind::Normal, vec![], vec!["Module is an entry point"]),
            module(2, ModuleKind::Normal, vec![], vec!["Module is not an ECMAScript module"]),
            module(3, ModuleKind::Concatenated(vec![4]), vec![], vec![]),
            module(4, ModuleKind::Normal, vec![], vec![]),
            module(5, ModuleKind::Normal, vec![], vec![]),
        ],
        blocks: vec![],
        dependencies: vec![],
        connections: vec![],
    };
    let chunk_graph = ChunkGraph {
        module_runtimes: vec![
            (1, vec![runtime(&["main"]), runtime(&["main", "worker"])]),
            (2, vec![runtime(&["main"])]),
            (3, vec![runtime(&["main"])]),
            (4, vec![runtime(&["main"])]),
            (5, vec![]),
        ],
    };
    let plan = ModernModuleLibraryPlugin.optimize_chunk_modules_impl(&graph, &chunk_graph);
    let roots: Vec<u64> = plan.iter().map(|c| c.root_module).collect();
    assert_eq!(roots, vec![1, 5]);
    assert_eq!(plan[0].runtime.as_ref().unwrap().names, vec![s("main"), s("worker")]);
    assert!(plan[1].runtime.as_ref().unwrap().names.is_empty());
}

#[test]
fn optimize_hook_queues_configurations() {
    let graph = ModuleGraph {
        modules: vec![
            module(1, ModuleKind::Normal, vec![], vec!["Module is an entry point"]),
            module(2, ModuleKind::Normal, vec![], vec!["Module is not an ECMAScript module"]),
        ],
        blocks: vec![],
        dependencies: vec![],
        connections: vec![],
    };
    let chunk_graph = ChunkGraph { module_runtimes: vec![(1, vec![runtime(&["main"])])] };
    let mut queued = ModernModuleLibraryPlugin.optimize_chunk_modules_impl(&graph, &chunk_graph);
    assert_eq!(queued.len(), 1);
    let answer = ModernModuleLibraryPlugin.optimize_chunk_modules(&graph, &chunk_graph, &mut queued);
    assert!(matches!(answer, Ok(None)));
    let roots: Vec<u64> = queued.iter().map(|c| c.root_module).collect();
    assert_eq!(roots, vec![1, 1]);
    assert_eq!(queued[1].runtime.as_ref().unwrap().names, vec![s("main")]);
}

#[test]
fn exports_definitions_keeps_the_list() {
    let mut defs = vec![(s("a"), s("b"))];
    assert!(matches!(ModernModuleLibraryPlugin.exports_definitions(&mut defs), Ok(Some(true))));
    assert_eq!(defs, vec![(s("a"), s("b"))]);
}

#[test]
fn finish_modules_ignores_connections_it_never_follows() {
    let mut graph = ModuleGraph {
        modules: vec![module(1, ModuleKind::Normal, vec![10], vec![])],
        blocks: vec![AsyncDependenciesBlock { id: BlockId { value: 10 }, dependencies: vec![DependencyId { value: 100 }] }],
        dependencies: vec![GraphDependency::Other(DependencyId { value: 100 })],
        connections: vec![connection(7, 1, 100, 9)],
    };
    let mut ids = DependencyIdAllocator::new();
    assert!(ModernModuleLibraryPlugin.finish_modules(&mut graph, &mut ids).is_ok());
    assert_eq!(graph.blocks[0].dependencies, vec![DependencyId { value: 100 }]);
    assert_eq!(graph.connections.len(), 1);
}

#[test]
fn finish_modules_gives_fresh_ids() {
    let mut graph = ModuleGraph {
        modules: vec![
            module(1, ModuleKind::Normal, vec![10], vec![]),
            module(2, external("lodash", "lodash-es"), vec![], vec![]),
            module(3, external("react", "preact"), vec![], vec![]),
        ],
        blocks: vec![AsyncDependenciesBlock {
            id: BlockId { value: 10 },
            dependencies: vec![DependencyId { value: 0 }, DependencyId { value: 1 }],
        }],
        dependencies: vec![import(0, "lodash"), import(1, "react")],
        connections: vec![connection(7, 1, 0, 2), connection(8, 1, 1, 3)],
    };
    let mut ids = DependencyIdAllocator::new();
    let _ = ids.fresh();
    let _ = ids.fresh();
    assert!(ModernModuleLibraryPlugin.finish_modules(&mut graph, &mut ids).is_ok());
    let all: Vec<u32> = graph
        .dependencies
        .iter()
        .map(|d| match d {
            GraphDependency::Import(i) => i.id.value,
            GraphDependency::ModernModuleImport(i) => i.id.value,
            GraphDependency::Other(i) => i.value,
        })
        .collect();
    assert_eq!(all, vec![0, 1, 2, 3]);
    assert_eq!(graph.blocks[0].dependencies, vec![DependencyId { value: 2 }, DependencyId { value: 3 }]);
    assert!(graph.connections.is_empty());
}
