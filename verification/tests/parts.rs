use rspack_core::asset_source::{
    into_bytes, wrap_asset_source, AssetSourceModule, AssetSourceParser, ModuleRenderResult,
    ParseModuleArgs,
};
use rspack_core::cache::Cache;
use rspack_core::css_module::CssModule;
use rspack_core::module::{DependencyKind, ModuleDependency, ModuleType, SourceType};
use rspack_core::options::{AliasMap, CompilerOptionsBuilder, RawResolveOptions};
use rspack_core::plugin_driver::Content;
use rspack_core::provide::{
    provide_builtin, Expr, Ident, MemberExpr, MemberObject, Provide, ProvideBuiltin, ProvidedExpr,
    Span, Visited,
};

const HEAD: &str = "function (module, exports, __rspack_require__, __rspack_dynamic_require__) {\n  \"use strict\";\n  module.exports = ";

fn javascript(r: Option<ModuleRenderResult>) -> String {
    match r {
        Some(ModuleRenderResult::JavaScript(code)) => code,
        other => panic!("not javascript: {:?}", other),
    }
}

#[test]
fn asset_source_exports_the_text_as_a_string() {
    let module = AssetSourceModule::new(b"hello \"world\"\n".to_vec());
    let code = javascript(module.render(SourceType::JavaScript).unwrap());
    assert_eq!(code, format!("{}\"hello \\\"world\\\"\\n\";\n}};\n", HEAD));
    assert_eq!(module.module_type(), ModuleType::Asset);
    assert_eq!(module.source_types(), vec![SourceType::JavaScript]);
}

#[test]
fn asset_source_replaces_invalid_bytes() {
    let module = AssetSourceModule::new(vec![b'a', 0xff, b'b']);
    let code = javascript(module.render(SourceType::JavaScript).unwrap());
    assert_eq!(code, format!("{}\"a\u{fffd}b\";\n}};\n", HEAD));
}

#[test]
fn asset_source_renders_nothing_else() {
    let module = AssetSourceModule::new(b"x".to_vec());
    assert!(module.render(SourceType::Css).unwrap().is_none());
    assert!(module.render(SourceType::Asset).unwrap().is_none());
    let empty = AssetSourceModule::new(vec![]);
    assert!(empty.render(SourceType::JavaScript).unwrap().is_none());
}

#[test]
fn asset_source_parser_takes_any_content() {
    let parser = AssetSourceParser::default();
    let text = parser
        .parse(
            ModuleType::AssetSource,
            ParseModuleArgs { uri: "/a.txt".to_string(), source: Content::String("h\u{e9}".to_string()) },
        )
        .unwrap();
    assert_eq!(
        javascript(text.render(SourceType::JavaScript).unwrap()),
        format!("{}\"h\u{e9}\";\n}};\n", HEAD)
    );
    let bytes = parser
        .parse(
            ModuleType::Js,
            ParseModuleArgs { uri: "/b.bin".to_string(), source: Content::Buffer(vec![0x41]) },
        )
        .unwrap();
    assert_eq!(
        javascript(bytes.render(SourceType::JavaScript).unwrap()),
        format!("{}\"A\";\n}};\n", HEAD)
    );
    assert_eq!(into_bytes(Content::String("h\u{e9}".to_string())), vec![b'h', 0xc3, 0xa9]);
    assert_eq!(wrap_asset_source("1"), format!("{}1;\n}};\n", HEAD));
}

fn strings(items: &[&str]) -> Vec<String> {
    items.iter().map(|s| s.to_string()).collect()
}

#[test]
fn raw_resolve_options_are_taken_over() {
    let builder = CompilerOptionsBuilder { root: None, target: None };
    let raw = RawResolveOptions {
        prefer_relative: Some(true),
        extensions: Some(strings(&[".js", ".ts"])),
        main_files: Some(strings(&["index"])),
        main_fields: Some(vec![]),
        browser_field: Some(false),
        condition_names: None,
        alias: Some(vec![
            ("@".to_string(), "/src".to_string()),
            ("react".to_string(), "preact/compat".to_string()),
        ]),
        symlinks: None,
    };
    let resolve = raw.to_compiler_option(&builder).unwrap();
    assert_eq!(resolve.prefer_relative, Some(true));
    assert_eq!(resolve.extensions, Some(strings(&[".js", ".ts"])));
    assert_eq!(resolve.main_files, Some(strings(&["index"])));
    assert_eq!(resolve.main_fields, Some(vec![]));
    assert_eq!(resolve.browser_field, Some(false));
    assert_eq!(resolve.condition_names, None);
    assert_eq!(resolve.symlinks, None);
    let alias: Vec<(String, String)> = resolve
        .alias
        .unwrap()
        .into_iter()
        .map(|(k, v)| match v {
            AliasMap::Target(t) => (k, t),
            AliasMap::Ignored => panic!("no alias is ignored"),
        })
        .collect();
    assert_eq!(
        alias,
        vec![
            ("@".to_string(), "/src".to_string()),
            ("react".to_string(), "preact/compat".to_string())
        ]
    );
}

#[test]
fn fallback_resolve_options_are_all_absent() {
    let builder = CompilerOptionsBuilder { root: Some("/".to_string()), target: None };
    let raw = RawResolveOptions::fallback_value(&builder);
    assert!(raw.prefer_relative.is_none() && raw.extensions.is_none());
    assert!(raw.main_files.is_none() && raw.main_fields.is_none());
    assert!(raw.browser_field.is_none() && raw.condition_names.is_none());
    assert!(raw.alias.is_none() && raw.symlinks.is_none());
    let resolve = raw.to_compiler_option(&builder).unwrap();
    assert!(resolve.alias.is_none() && resolve.extensions.is_none());
}

#[test]
fn cache_idles_between_builds() {
    let mut cache = Cache::new();
    assert!(cache.is_idle());
    cache.end_idle();
    cache.end_idle();
    assert!(!cache.is_idle());
    assert_eq!(cache.pauses(), 1);
    cache.begin_idle();
    cache.begin_idle();
    assert!(cache.is_idle());
    cache.end_idle();
    assert_eq!(cache.pauses(), 2);
}

#[test]
fn stylesheet_module_hands_out_what_it_holds() {
    let module = CssModule::new(
        "a{color:red}".to_string(),
        vec![ModuleDependency { target: "./b.css".to_string(), kind: DependencyKind::CssImport }],
    );
    assert_eq!(module.module_type(), ModuleType::Css);
    assert_eq!(module.render(), "a{color:red}");
    let deps = module.dependencies();
    assert_eq!(deps.len(), 1);
    assert_eq!((deps[0].target.as_str(), deps[0].kind), ("./b.css", DependencyKind::CssImport));
}

fn member(obj: MemberObject, prop: Option<&str>) -> MemberExpr {
    MemberExpr { obj, prop: prop.map(|p| p.to_string()) }
}

fn provide() -> Provide {
    let mut opts = Provide::new();
    opts.insert("process".to_string(), strings(&["process"]));
    opts.insert("Buffer".to_string(), strings(&["buffer", "Buffer"]));
    opts.insert("process.env.NODE_ENV".to_string(), strings(&["env", "a", "b"]));
    opts.insert("nothing".to_string(), vec![]);
    opts
}

/// The expression as text, with the place of each part.
fn show(e: &ProvidedExpr) -> String {
    match e {
        ProvidedExpr::Call(call) => {
            format!("{}({:?})@{}", call.callee, call.argument, call.span.ctxt)
        }
        ProvidedExpr::Member { span, obj, prop } => format!("{}[{:?}]@{}", show(obj), prop, span.ctxt),
    }
}

fn shown(v: Visited) -> Option<String> {
    match v {
        Visited::Unchanged => None,
        Visited::Replaced(e) => Some(show(&e)),
    }
}

#[test]
fn dotted_name_of_a_member_chain() {
    let opts = provide();
    let visitor = ProvideBuiltin::new(&opts, 9);
    let env = member(MemberObject::Ident("process".to_string()), Some("env"));
    assert_eq!(visitor.get_nested_identifier_name(&env), "process.env");
    let node_env = member(MemberObject::Member(Box::new(env)), Some("NODE_ENV"));
    assert_eq!(visitor.get_nested_identifier_name(&node_env), "process.env.NODE_ENV");
    let this = member(MemberObject::This, Some("x"));
    assert_eq!(visitor.get_nested_identifier_name(&this), "this.x");
    let computed = member(MemberObject::Ident("a".to_string()), None);
    assert_eq!(visitor.get_nested_identifier_name(&computed), "a");
    let other = member(MemberObject::Member(Box::new(member(MemberObject::Other, Some("b")))), Some("c"));
    assert_eq!(visitor.get_nested_identifier_name(&other), ".b.c");
}

#[test]
fn provided_identifier_becomes_a_require() {
    let opts = provide();
    let visitor = provide_builtin(&opts, 9);
    let span = Span { lo: 3, hi: 9, ctxt: 2 };
    let at = |sym: &str| Ident { span, sym: sym.to_string() };
    assert_eq!(shown(visitor.handle_ident(&at("process"))).unwrap(), "require(\"process\")@2");
    assert_eq!(
        shown(visitor.handle_ident(&at("Buffer"))).unwrap(),
        "require(\"buffer\")@2[\"Buffer\"]@2"
    );
    assert!(shown(visitor.handle_ident(&at("window"))).is_none());
    assert!(shown(visitor.handle_ident(&at("nothing"))).is_none());
    assert!(shown(visitor.visit_mut_expr(&Expr::Other)).is_none());
    assert!(shown(visitor.visit_mut_expr(&Expr::Ident(at("process")))).is_some());
    let call = visitor.create_call_expr(span, "m");
    assert_eq!((call.callee.as_str(), call.argument.as_str(), call.span), ("require", "m", span));
}

#[test]
fn provided_member_chain_becomes_a_require_in_the_unbound_context() {
    let opts = provide();
    let visitor = ProvideBuiltin::new(&opts, 9);
    let chain = || {
        member(
            MemberObject::Member(Box::new(member(
                MemberObject::Ident("process".to_string()),
                Some("env"),
            ))),
            Some("NODE_ENV"),
        )
    };
    assert_eq!(
        shown(visitor.handle_member_expr(&chain())).unwrap(),
        "require(\"env\")@9[\"a\"]@9[\"b\"]@9"
    );
    assert_eq!(
        shown(visitor.visit_mut_expr(&Expr::Member(chain()))).unwrap(),
        "require(\"env\")@9[\"a\"]@9[\"b\"]@9"
    );
    let unknown = member(MemberObject::Ident("process".to_string()), Some("argv"));
    assert!(shown(visitor.handle_member_expr(&unknown)).is_none());
    match visitor.create_obj_expr(Span { lo: 0, hi: 0, ctxt: 1 }, &strings(&["only"])) {
        ProvidedExpr::Call(call) => assert_eq!(call.argument, "only"),
        other => panic!("not a call: {:?}", other),
    }
}
