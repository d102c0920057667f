use tanxium::module_loader::{media_kind_of, LoadError, LoadPlan, MediaKind, ModuleKind,
    TranspileError, TypescriptModuleLoader};
use tanxium::resolve::ResolutionError;

fn loader() -> TypescriptModuleLoader {
    TypescriptModuleLoader::new()
}

#[test]
fn resolve_alias_prefix_rewrites_to_internal_namespace() {
    let l = loader();
    let r = l.resolve("yasumu:virtual/greet", "file:///main.ts").unwrap();
    assert_eq!(r, "file://yasumu_internal/yasumu:virtual/greet");
}

#[test]
fn resolve_absolute_specifiers_pass_through() {
    let l = loader();
    assert_eq!(
        l.resolve("https://example.com/mod.js", "file:///main.ts").unwrap(),
        "https://example.com/mod.js"
    );
    assert_eq!(l.resolve("file:///a/b.ts", "https://x/y").unwrap(), "file:///a/b.ts");
}

#[test]
fn resolve_relative_sibling() {
    let l = loader();
    assert_eq!(l.resolve("./b.ts", "file:///a/main.ts").unwrap(), "file:///a/b.ts");
}

#[test]
fn resolve_relative_parent() {
    let l = loader();
    assert_eq!(
        l.resolve("../lib/util.ts", "file:///a/b/main.ts").unwrap(),
        "file:///a/lib/util.ts"
    );
}

#[test]
fn resolve_dot_segments_are_removed() {
    let l = loader();
    assert_eq!(l.resolve("./../x.ts", "file:///a/b/c.ts").unwrap(), "file:///a/x.ts");
    assert_eq!(l.resolve("./x/./y.ts", "file:///a/m.ts").unwrap(), "file:///a/x/y.ts");
}

#[test]
fn resolve_root_relative_against_remote_referrer() {
    let l = loader();
    assert_eq!(l.resolve("/x.ts", "https://host/a/b").unwrap(), "https://host/x.ts");
}

#[test]
fn resolve_normalizes_absolute_specifiers() {
    let l = loader();
    assert_eq!(l.resolve("file:///a/../b.ts", "file:///main.ts").unwrap(), "file:///b.ts");
    assert_eq!(l.resolve("https://host/a/./b.js", "file:///main.ts").unwrap(), "https://host/a/b.js");
    assert_eq!(l.resolve("https://host", "file:///main.ts").unwrap(), "https://host/");
    assert_eq!(l.resolve("file://", "file:///main.ts").unwrap(), "file:///");
}

#[test]
fn resolve_rejects_https_without_authority() {
    let l = loader();
    assert_eq!(l.resolve("https://", "file:///main.ts").unwrap_err(), ResolutionError::InvalidUrl);
    assert_eq!(
        l.resolve("https:///x.ts", "file:///main.ts").unwrap_err(),
        ResolutionError::InvalidUrl
    );
}

#[test]
fn resolve_bare_specifier_is_rejected() {
    let l = loader();
    assert_eq!(
        l.resolve("lodash", "file:///main.ts").unwrap_err(),
        ResolutionError::ImportPrefixMissing
    );
}

#[test]
fn resolve_relative_needs_absolute_referrer() {
    let l = loader();
    assert_eq!(
        l.resolve("./x.ts", "not a specifier").unwrap_err(),
        ResolutionError::InvalidBaseUrl
    );
}

#[test]
fn virtual_module_round_trip() {
    let mut l = loader();
    l.virtual_modules.register("greet".to_string(), "export default 42;".to_string());
    let resolved = l.resolve("yasumu:virtual/greet", "file:///main.ts").unwrap();
    match l.plan_load(&resolved).unwrap() {
        LoadPlan::Ready(text) => {
            assert_eq!(text.code, "export default 42;");
            assert!(text.transpile);
            assert!(matches!(text.media, MediaKind::TypeScript));
            assert!(matches!(text.module_kind, ModuleKind::JavaScript));
        }
        other => panic!("expected ready source, got {:?}", other),
    }
    l.virtual_modules.unregister("greet");
    assert_eq!(l.plan_load(&resolved).unwrap_err(), LoadError::ModuleNotFound);
}

#[test]
fn unregister_all_twice_is_harmless() {
    let mut l = loader();
    l.virtual_modules.register("a".to_string(), "1".to_string());
    l.virtual_modules.register("b".to_string(), "2".to_string());
    l.virtual_modules.unregister_all();
    assert!(l.virtual_modules.lookup("a").is_none());
    l.virtual_modules.unregister_all();
    assert!(l.virtual_modules.lookup("a").is_none());
    assert!(l.virtual_modules.lookup("b").is_none());
}

#[test]
fn register_replaces_earlier_registration() {
    let mut l = loader();
    l.virtual_modules.register("m".to_string(), "old".to_string());
    l.virtual_modules.register("m".to_string(), "new".to_string());
    assert_eq!(l.virtual_modules.lookup("m").unwrap(), "new");
}

#[test]
fn plan_local_typescript_file() {
    let l = loader();
    match l.plan_load("file:///proj/mod.ts").unwrap() {
        LoadPlan::NeedsFile(f) => {
            assert_eq!(f.path, "/proj/mod.ts");
            assert!(matches!(f.media, MediaKind::TypeScript));
            assert!(f.transpile);
            assert!(matches!(f.module_kind, ModuleKind::JavaScript));
        }
        other => panic!("expected a file plan, got {:?}", other),
    }
}

#[test]
fn plan_local_javascript_file_needs_no_transpile() {
    let l = loader();
    match l.plan_load("file:///proj/mod.js").unwrap() {
        LoadPlan::NeedsFile(f) => {
            assert!(matches!(f.media, MediaKind::JavaScript));
            assert!(!f.transpile);
        }
        other => panic!("expected a file plan, got {:?}", other),
    }
}

#[test]
fn plan_local_json_file() {
    let l = loader();
    match l.plan_load("file:///proj/data.json").unwrap() {
        LoadPlan::NeedsFile(f) => {
            assert!(matches!(f.module_kind, ModuleKind::Json));
            assert!(!f.transpile);
        }
        other => panic!("expected a file plan, got {:?}", other),
    }
}

#[test]
fn plan_unknown_extension_is_an_error() {
    let l = loader();
    assert_eq!(l.plan_load("file:///proj/mod.wasm").unwrap_err(), LoadError::UnknownExtension);
    assert_eq!(l.plan_load("file:///proj/noext").unwrap_err(), LoadError::UnknownExtension);
}

#[test]
fn plan_remote_fetch() {
    let l = loader();
    match l.plan_load("https://cdn.example/mod.ts").unwrap() {
        LoadPlan::NeedsFetch(url) => assert_eq!(url, "https://cdn.example/mod.ts"),
        other => panic!("expected a fetch plan, got {:?}", other),
    }
}

#[test]
fn plan_unsupported_scheme_is_an_error() {
    let l = loader();
    let resolved = l.resolve("ftp://host/mod.ts", "file:///main.ts").unwrap();
    assert_eq!(l.plan_load(&resolved).unwrap_err(), LoadError::UnsupportedScheme);
}

#[test]
fn builtin_modules_load_from_the_compiled_in_registry() {
    let mut l = loader();
    l.builtin_modules.insert("yasumu:ui/jsx-runtime".to_string(), "export const jsx = 1;".to_string());
    match l.plan_load("file://yasumu_internal/yasumu:ui/jsx-runtime").unwrap() {
        LoadPlan::Ready(text) => {
            assert_eq!(text.code, "export const jsx = 1;");
            assert!(text.transpile);
        }
        other => panic!("expected ready source, got {:?}", other),
    }
    assert_eq!(
        l.plan_load("file://yasumu_internal/yasumu:ui/nothing").unwrap_err(),
        LoadError::UnknownBuiltinModule
    );
}

#[test]
fn source_maps_are_stored_and_found_by_specifier() {
    let mut l = loader();
    assert!(l.get_source_map("file:///a.ts").is_none());
    let emitted = "var x = 1;".to_string();
    let map = vec![1u8, 2, 3];
    let source = l.finish_transpiled("file:///a.ts", ModuleKind::JavaScript, emitted, map);
    assert_eq!(source.code, "var x = 1;");
    assert_eq!(source.specifier, "file:///a.ts");
    assert_eq!(l.get_source_map("file:///a.ts").unwrap(), &vec![1u8, 2, 3]);
    assert!(l.get_source_map("file:///b.ts").is_none());
}

#[test]
fn media_kinds_follow_extensions() {
    assert!(matches!(media_kind_of("/a/b.ts"), MediaKind::TypeScript));
    assert!(matches!(media_kind_of("/a/b.tsx"), MediaKind::Tsx));
    assert!(matches!(media_kind_of("/a/b.jsx"), MediaKind::Jsx));
    assert!(matches!(media_kind_of("/a/b.mjs"), MediaKind::Mjs));
    assert!(matches!(media_kind_of("/a/b.cjs"), MediaKind::Cjs));
    assert!(matches!(media_kind_of("/a/b.d.ts"), MediaKind::Dts));
    assert!(matches!(media_kind_of("/a/b.json"), MediaKind::Json));
    assert!(matches!(media_kind_of("/a.dir/b"), MediaKind::Unknown));
}

#[test]
fn file_and_fetch_text_carry_their_classification() {
    let l = loader();
    match l.plan_load("file:///p/m.ts").unwrap() {
        LoadPlan::NeedsFile(f) => {
            let text = l.file_module_text(&f, "let a: number = 1;".to_string());
            assert_eq!(text.code, "let a: number = 1;");
            assert!(text.transpile);
        }
        other => panic!("expected a file plan, got {:?}", other),
    }
    let fetched = l.fetched_module_text("console.log(1)".to_string());
    assert_eq!(fetched.code, "console.log(1)");
    assert!(!fetched.transpile);
    let done = l.finish_plain("https://x/y.js", fetched);
    assert_eq!(done.code, "console.log(1)");
    assert_eq!(done.specifier, "https://x/y.js");
}

#[test]
fn transpile_errors_carry_their_message() {
    let e = TranspileError::new("unexpected token at 3:14".to_string());
    assert_eq!(e.message, "unexpected token at 3:14");
}
