use rspack_plugins::dependency::{
    create_resource_identifier_for_esm_dependency, AffectType, DependencyCategory, DependencyIdAllocator,
    DependencyLocation, DependencyType, ExternalModuleDependency, InitFragmentKey, InitFragmentStage,
    ModernModuleExportStarDependency, ReplaceSource, TemplateContext,
};
use rspack_plugins::external::{ExternalRequest, ExternalRequestValue};
use rspack_plugins::strict_plugin::{BuildInfo, JavascriptOptions, JavascriptParser, StrictPlugin};

#[test]
fn fresh_ids_are_distinct_and_count_up() {
    let mut ids = DependencyIdAllocator::new();
    let a = ids.fresh();
    let b = ids.fresh();
    let c = ids.fresh();
    assert_eq!(a.value, 0);
    assert_eq!(b.value, 1);
    assert_eq!(c.value, 2);
    assert_ne!(a, b);
    assert_ne!(b, c);
}

#[test]
fn external_module_dependency_imports_target() {
    let mut ids = DependencyIdAllocator::new();
    let d = ExternalModuleDependency::new(
        &mut ids,
        "./lazy".to_string(),
        "lodash".to_string(),
        DependencyLocation { start: 10, end: 24 },
    );
    assert_eq!(d.id().value, 0);
    assert_eq!(d.dependency_id(), Some(*d.id()));
    let mut source = ReplaceSource::new("const m = import('./lazy');".to_string());
    let mut ctx = TemplateContext { chunk_init_fragments: vec![] };
    d.apply(&mut source, &mut ctx);
    assert_eq!(source.replacements.len(), 1);
    let r = &source.replacements[0];
    assert_eq!((r.start, r.end), (10, 24));
    assert_eq!(r.content, "import(\"lodash\")");
    assert!(r.name.is_none());
    assert!(ctx.chunk_init_fragments.is_empty());
}

#[test]
fn replace_source_keeps_earlier_replacements() {
    let mut source = ReplaceSource::new("abc".to_string());
    source.replace(0, 1, "x", None);
    source.replace(2, 3, "z", Some("n"));
    assert_eq!(source.replacements.len(), 2);
    assert_eq!(source.replacements[0].content, "x");
    assert_eq!(source.replacements[1].content, "z");
    assert_eq!(source.replacements[1].name.as_deref(), Some("n"));
    assert_eq!(source.inner, "abc");
}

#[test]
fn resource_identifier_of_esm_request() {
    assert_eq!(create_resource_identifier_for_esm_dependency("lodash"), "esm|lodash");
    assert_eq!(create_resource_identifier_for_esm_dependency(""), "esm|");
}

#[test]
fn export_star_dependency() {
    let mut ids = DependencyIdAllocator::new();
    let _ = ids.fresh();
    let target = ExternalRequest::Single(ExternalRequestValue::new("lodash".to_string(), None));
    let mut d = ModernModuleExportStarDependency::new(&mut ids, "lodash".to_string(), target);
    assert_eq!(d.id().value, 1);
    assert_eq!(d.dependency_id().map(|i| i.value), Some(1));
    assert_eq!(d.resource_identifier(), Some("esm|lodash"));
    assert_eq!(d.category(), DependencyCategory::Esm);
    assert_eq!(d.dependency_type(), DependencyType::DynamicImport);
    assert_eq!(d.could_affect_referencing_module(), AffectType::True);
    assert_eq!(d.request(), "lodash");
    assert_eq!(d.user_request(), "lodash");

    let mut source = ReplaceSource::new(String::new());
    let mut ctx = TemplateContext { chunk_init_fragments: vec![] };
    d.apply(&mut source, &mut ctx);
    assert_eq!(ctx.chunk_init_fragments.len(), 1);
    let f = &ctx.chunk_init_fragments[0];
    assert_eq!(f.content, "export * from \"lodash\";\n");
    assert_eq!(f.stage, InitFragmentStage::StageESMImports);
    assert_eq!(f.position, 0);
    match &f.key {
        InitFragmentKey::Const(k) => assert_eq!(k, "gogogo"),
        _ => panic!("expected a constant key"),
    }
    assert!(f.end_content.is_none());
    assert!(source.replacements.is_empty());

    d.set_request("react".to_string());
    assert_eq!(d.request(), "react");
    assert_eq!(d.resource_identifier(), Some("esm|lodash"));
    d.apply(&mut source, &mut ctx);
    assert_eq!(ctx.chunk_init_fragments.len(), 2);
    assert_eq!(ctx.chunk_init_fragments[1].content, "export * from \"react\";\n");
}

fn parser(strict: Option<bool>, current: bool) -> JavascriptParser {
    JavascriptParser {
        javascript_options: JavascriptOptions { strict },
        build_info: BuildInfo { strict: current },
    }
}

#[test]
fn strict_option_sets_build_info() {
    let plugin = StrictPlugin::default();
    let mut p = parser(Some(true), false);
    assert_eq!(plugin.program(&mut p), None);
    assert!(p.build_info.strict);
    let mut p = parser(Some(false), true);
    assert_eq!(plugin.program(&mut p), None);
    assert!(!p.build_info.strict);
}

#[test]
fn unset_strict_option_keeps_build_info() {
    let plugin = StrictPlugin;
    let mut p = parser(None, true);
    assert_eq!(plugin.program(&mut p), None);
    assert!(p.build_info.strict);
    let mut p = parser(None, false);
    assert_eq!(plugin.program(&mut p), None);
    assert!(!p.build_info.strict);
}
