use rspack_plugins::external::{
    parse_external_type_from_str, ExternalFnHandle, ExternalItem, ExternalItemFnResult,
    ExternalItemValue, ExternalModule, ExternalRequest, ExternalsPlugin, FactorizeAction,
    ModuleDependency, ModuleFactoryCreateData,
};
use rspack_plugins::pattern::CompiledPattern;
use rspack_plugins::plugin::{ApplyContext, HookName};

fn s(v: &str) -> String {
    v.to_string()
}

fn dep(request: &str) -> ModuleDependency {
    ModuleDependency { request: s(request), category: s("esm") }
}

fn data(request: &str) -> ModuleFactoryCreateData {
    ModuleFactoryCreateData { context: s("/project"), dependency: dep(request), issuer: Some(s("/project/index.js")) }
}

fn single(m: &ExternalModule) -> (String, Option<Vec<String>>) {
    match &m.request {
        ExternalRequest::Single(v) => (v.primary.clone(), v.rest.clone()),
        ExternalRequest::Keyed(_) => panic!("expected a single request"),
    }
}

fn pattern(p: &str) -> CompiledPattern {
    match CompiledPattern::compile(p) {
        Ok(c) => c,
        Err(_) => panic!("pattern should compile"),
    }
}

#[test]
fn parses_type_prefix() {
    assert_eq!(parse_external_type_from_str("module lodash"), Some((s("module"), s("lodash"))));
    assert_eq!(parse_external_type_from_str("a-b1 c d"), Some((s("a-b1"), s("c d"))));
    assert_eq!(parse_external_type_from_str("commonjs "), Some((s("commonjs"), s(""))));
}

#[test]
fn no_type_prefix() {
    assert_eq!(parse_external_type_from_str("lodash"), None);
    assert_eq!(parse_external_type_from_str("Module lodash"), None);
    assert_eq!(parse_external_type_from_str(" lodash"), None);
    assert_eq!(parse_external_type_from_str("my_type lodash"), None);
    assert_eq!(parse_external_type_from_str(""), None);
}

#[test]
fn type_prefix_roundtrip() {
    let v = "amd jquery plugin";
    let (t, rest) = parse_external_type_from_str(v).unwrap();
    assert_eq!(format!("{} {}", t, rest), v);
}

#[test]
fn string_value_with_and_without_type() {
    let plugin = ExternalsPlugin::new(s("module"), vec![]);
    let m = plugin.handle_external(&ExternalItemValue::String(s("commonjs lodash")), None, &dep("lodash")).unwrap();
    assert_eq!(m.external_type, "commonjs");
    assert_eq!(single(&m), (s("lodash"), None));
    assert_eq!(m.user_request, "lodash");

    let m = plugin.handle_external(&ExternalItemValue::String(s("_")), None, &dep("lodash")).unwrap();
    assert_eq!(m.external_type, "module");
    assert_eq!(single(&m), (s("_"), None));
}

#[test]
fn explicit_type_wins() {
    let plugin = ExternalsPlugin::new(s("module"), vec![]);
    let m = plugin
        .handle_external(&ExternalItemValue::String(s("commonjs lodash")), Some(s("global")), &dep("lodash"))
        .unwrap();
    assert_eq!(m.external_type, "global");
    assert_eq!(single(&m), (s("lodash"), None));
}

#[test]
fn array_value() {
    let plugin = ExternalsPlugin::new(s("var"), vec![]);
    let m = plugin
        .handle_external(&ExternalItemValue::Array(vec![s("window lodash"), s("map"), s("get")]), None, &dep("x"))
        .unwrap();
    assert_eq!(m.external_type, "window");
    assert_eq!(single(&m), (s("lodash"), Some(vec![s("map"), s("get")])));

    let m = plugin.handle_external(&ExternalItemValue::Array(vec![s("React")]), None, &dep("react")).unwrap();
    assert_eq!(m.external_type, "var");
    assert_eq!(single(&m), (s("React"), None));

    assert!(plugin.handle_external(&ExternalItemValue::Array(vec![]), None, &dep("react")).is_none());
}

#[test]
fn bool_value() {
    let plugin = ExternalsPlugin::new(s("commonjs"), vec![]);
    let m = plugin.handle_external(&ExternalItemValue::Bool(true), None, &dep("fs")).unwrap();
    assert_eq!(m.external_type, "commonjs");
    assert_eq!(single(&m), (s("fs"), None));
    assert!(plugin.handle_external(&ExternalItemValue::Bool(false), None, &dep("fs")).is_none());
}

#[test]
fn object_value() {
    let plugin = ExternalsPlugin::new(s("umd"), vec![]);
    let value = ExternalItemValue::Object(vec![
        (s("root"), vec![s("_")]),
        (s("commonjs"), vec![s("lodash"), s("fp")]),
    ]);
    let m = plugin.handle_external(&value, None, &dep("lodash")).unwrap();
    assert_eq!(m.external_type, "umd");
    match &m.request {
        ExternalRequest::Keyed(entries) => {
            assert_eq!(entries.len(), 2);
            assert_eq!(entries[0].0, "root");
            assert_eq!(entries[0].1.primary, "_");
            assert_eq!(entries[0].1.rest, None);
            assert_eq!(entries[1].0, "commonjs");
            assert_eq!(entries[1].1.primary, "lodash");
            assert_eq!(entries[1].1.rest, Some(vec![s("fp")]));
        }
        ExternalRequest::Single(_) => panic!("expected keyed requests"),
    }
}

#[test]
fn factorize_points_request_at_dot() {
    let plugin = ExternalsPlugin::new(s("module"), vec![ExternalItem::String(s("lodash"))]);
    let mut d = data("lodash");
    match plugin.factorize(&mut d) {
        FactorizeAction::Done(None) => {}
        _ => panic!("nothing matches the request \".\""),
    }
    assert_eq!(d.dependency.request, ".");
    assert_eq!(d.dependency.category, "esm");
}

#[test]
fn factorize_string_item() {
    let plugin = ExternalsPlugin::new(s("module"), vec![ExternalItem::String(s("."))]);
    let mut d = data("lodash");
    match plugin.factorize(&mut d) {
        FactorizeAction::Done(Some(m)) => {
            assert_eq!(single(&m), (s("."), None));
            assert_eq!(m.external_type, "module");
            assert_eq!(m.user_request, ".");
        }
        _ => panic!("the string entry should decide"),
    }
}

#[test]
fn factorize_object_item_first_match_wins() {
    let plugin = ExternalsPlugin::new(
        s("module"),
        vec![
            ExternalItem::Object(vec![(s("react"), ExternalItemValue::String(s("React")))]),
            ExternalItem::Object(vec![(s("."), ExternalItemValue::String(s("commonjs here")))]),
            ExternalItem::String(s(".")),
        ],
    );
    let mut d = data("whatever");
    match plugin.factorize(&mut d) {
        FactorizeAction::Done(Some(m)) => {
            assert_eq!(m.external_type, "commonjs");
            assert_eq!(single(&m), (s("here"), None));
        }
        _ => panic!("the second entry should decide"),
    }
}

#[test]
fn factorize_object_false_is_not_external() {
    let plugin = ExternalsPlugin::new(
        s("module"),
        vec![
            ExternalItem::Object(vec![(s("."), ExternalItemValue::Bool(false))]),
            ExternalItem::String(s(".")),
        ],
    );
    let mut d = data("x");
    match plugin.factorize(&mut d) {
        FactorizeAction::Done(None) => {}
        _ => panic!("`false` decides that the request is bundled"),
    }
}

#[test]
fn factorize_regexp_item() {
    let plugin = ExternalsPlugin::new(s("module"), vec![ExternalItem::RegExp(pattern(r"^\.$"))]);
    let mut d = data("x");
    match plugin.factorize(&mut d) {
        FactorizeAction::Done(Some(m)) => assert_eq!(single(&m), (s("."), None)),
        _ => panic!("the expression matches"),
    }
    let plugin = ExternalsPlugin::new(s("module"), vec![ExternalItem::RegExp(pattern("^lodash"))]);
    let mut d = data("lodash");
    match plugin.factorize(&mut d) {
        FactorizeAction::Done(None) => {}
        _ => panic!("the expression does not match \".\""),
    }
}

#[test]
fn factorize_calls_user_function() {
    let plugin = ExternalsPlugin::new(
        s("module"),
        vec![
            ExternalItem::String(s("other")),
            ExternalItem::Fn(ExternalFnHandle { id: 7 }),
            ExternalItem::String(s(".")),
        ],
    );
    let mut d = data("x");
    let (index, handle, ctx) = match plugin.factorize(&mut d) {
        FactorizeAction::CallFn { index, handle, ctx } => (index, handle, ctx),
        _ => panic!("the function must be called"),
    };
    assert_eq!(index, 1);
    assert_eq!(handle, 7);
    assert_eq!(ctx.context, "/project");
    assert_eq!(ctx.request, ".");
    assert_eq!(ctx.dependency_type, "esm");
    assert_eq!(ctx.context_info.issuer, "/project/index.js");

    match plugin.factorize_resume(&d, index, ExternalItemFnResult { result: None, external_type: None }) {
        FactorizeAction::Done(Some(m)) => assert_eq!(single(&m), (s("."), None)),
        _ => panic!("no answer passes on to the next entry"),
    }
    match plugin.factorize_resume(
        &d,
        index,
        ExternalItemFnResult { result: Some(ExternalItemValue::String(s("jquery"))), external_type: Some(s("amd")) },
    ) {
        FactorizeAction::Done(Some(m)) => {
            assert_eq!(single(&m), (s("jquery"), None));
            assert_eq!(m.external_type, "amd");
        }
        _ => panic!("the answer decides"),
    }
}

#[test]
fn user_function_context_without_issuer() {
    let plugin = ExternalsPlugin::new(s("module"), vec![ExternalItem::Fn(ExternalFnHandle { id: 1 })]);
    let mut d = data("x");
    d.issuer = None;
    match plugin.factorize(&mut d) {
        FactorizeAction::CallFn { ctx, .. } => assert_eq!(ctx.context_info.issuer, ""),
        _ => panic!("the function must be called"),
    }
}

#[test]
fn invalid_pattern_is_refused() {
    assert!(CompiledPattern::compile("(").is_err());
    assert!(CompiledPattern::compile("^[a-z0-9-]+ ").is_ok());
}

#[test]
fn pattern_matching() {
    let p = pattern("^[a-z0-9-]+ ");
    assert!(p.test("module lodash"));
    assert!(!p.test("lodash"));
}

#[test]
fn externals_plugin_taps_hooks() {
    let plugin = ExternalsPlugin::new(s("module"), vec![]);
    assert_eq!(plugin.name(), "rspack.ExternalsPlugin");
    let mut ctx = ApplyContext::new();
    assert!(plugin.apply(&mut ctx).is_ok());
    assert_eq!(ctx.taps.len(), 2);
    assert_eq!(ctx.taps[0].hook, HookName::NormalModuleFactoryFactorize);
    assert_eq!(ctx.taps[1].hook, HookName::CompilationFinishModules);
    assert_eq!(ctx.taps[1].plugin, "rspack.ExternalsPlugin");
}

#[test]
fn later_malformed_object_does_not_matter() {
    let plugin = ExternalsPlugin::new(
        s("module"),
        vec![
            ExternalItem::String(s(".")),
            ExternalItem::Object(vec![(s("."), ExternalItemValue::Object(vec![(s("k"), vec![])]))]),
        ],
    );
    assert!(plugin.deciding_value_well_formed(".", 0));
    let mut d = data("lodash");
    match plugin.factorize(&mut d) {
        FactorizeAction::Done(Some(m)) => assert_eq!(single(&m), (s("."), None)),
        _ => panic!("the string entry should decide"),
    }
}

#[test]
fn deciding_malformed_object_is_reported() {
    let plugin = ExternalsPlugin::new(
        s("module"),
        vec![
            ExternalItem::Object(vec![(s("."), ExternalItemValue::Object(vec![(s("k"), vec![])]))]),
            ExternalItem::String(s(".")),
        ],
    );
    assert!(!plugin.deciding_value_well_formed(".", 0));
    assert!(plugin.deciding_value_well_formed(".", 1));
    assert!(plugin.deciding_value_well_formed(".", 2));
}

#[test]
fn user_function_decides_before_malformed_object() {
    let plugin = ExternalsPlugin::new(
        s("module"),
        vec![
            ExternalItem::Fn(ExternalFnHandle { id: 1 }),
            ExternalItem::Object(vec![(s("."), ExternalItemValue::Object(vec![(s("k"), vec![])]))]),
        ],
    );
    assert!(plugin.deciding_value_well_formed(".", 0));
    assert!(!plugin.deciding_value_well_formed(".", 1));
}

#[test]
fn value_well_formedness() {
    assert!(ExternalItemValue::String(s("a")).is_well_formed());
    assert!(ExternalItemValue::Array(vec![]).is_well_formed());
    assert!(ExternalItemValue::Object(vec![(s("root"), vec![s("_")])]).is_well_formed());
    assert!(!ExternalItemValue::Object(vec![(s("root"), vec![s("_")]), (s("amd"), vec![])]).is_well_formed());
}
