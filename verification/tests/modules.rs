use gpui_shell::error::ErrorKind;
use gpui_shell::exports::{
    behaviors, builtin_module, builtin_specifiers, export_table, module_exporting, module_source,
    BuiltinModule, ExportOrigin, ModuleSource, RegisteredComponentModule,
};
use gpui_shell::modules::{
    check_module_size, check_module_source, AppModules, Candidate, Dependencies, Dependency,
};
use gpui_shell::path::PathStyle;

fn dependency(name: &str, root: &str) -> Dependencies {
    let mut dependencies = Dependencies::new();
    dependencies.insert(Dependency {
        name: name.to_owned(),
        root: root.to_owned(),
        entry: format!("{root}/index.js"),
    });
    dependencies
}

fn resolve(
    modules: &AppModules,
    importer: &str,
    name: &str,
    found: Option<&str>,
) -> Result<String, String> {
    match modules.begin_resolve(importer, name, "gpui, gpui-base") {
        Ok(search) => search
            .resolve(importer, name, found, "gpui, gpui-base")
            .map_err(|error| error.message()),
        Err(error) => Err(error.message()),
    }
}

#[test]
fn gpui_module_exports_div() {
    let module = builtin_module("gpui").expect("gpui is an importable built-in module");
    assert!(module.names().contains(&"div"));
    assert!(module.names().contains(&"View"));
}

#[test]
fn registrations_for_the_same_root_are_generation_scoped_and_leased() {
    let mut modules = AppModules::new(PathStyle::Slash);
    let root = "/tmp/gpui-shell-module-lifecycle".to_owned();

    let first = modules.register(root.clone());
    let second = modules.register(root.clone());

    assert_ne!(first.generation(), second.generation());
    assert_eq!(modules.registration_count(), 2);

    let retained = modules.share(&first);
    modules.release(first);
    assert_eq!(modules.registration_count(), 2);
    modules.release(retained);
    assert_eq!(modules.registration_count(), 1);
    modules.release(second);
    assert_eq!(modules.registration_count(), 0);
}

#[test]
fn importer_tags_select_the_exact_same_root_generation() {
    let mut modules = AppModules::new(PathStyle::Slash);
    let root = "/tmp/gpui-shell-module-generation".to_owned();
    let first = modules.register(root.clone());
    let second = modules.register(root.clone());

    let first_importer = format!("{}/main.js?v={}", root, first.generation());
    let second_importer = format!("{}/main.js?v={}", root, second.generation());

    assert_eq!(
        modules.application_for_base(&first_importer).expect("first generation").load_generation(),
        first.generation()
    );
    assert_eq!(
        modules
            .application_for_base(&second_importer)
            .expect("second generation")
            .load_generation(),
        second.generation()
    );
}

#[test]
fn an_older_same_root_class_keeps_its_import_generation() {
    let mut modules = AppModules::new(PathStyle::Slash);
    let root = "/tmp/application".to_owned();
    let first = modules.register(root.clone());
    let second = modules.register(root.clone());
    let importer = format!("{}/main.js?v={}", root, first.generation());
    let found =
        resolve(&modules, &importer, "./feature.js", Some("/tmp/application/feature.js"));
    assert_eq!(
        found.ok(),
        Some(format!("/tmp/application/feature.js?v={}", first.generation()))
    );
    let newer = format!("{}/main.js?v={}", root, second.generation());
    let found = resolve(&modules, &newer, "./feature.js", Some("/tmp/application/feature.js"));
    assert_eq!(
        found.ok(),
        Some(format!("/tmp/application/feature.js?v={}", second.generation()))
    );
    modules.release(first);
    assert_eq!(modules.registration_count(), 1);
    modules.release(second);
    assert_eq!(modules.registration_count(), 0);
    assert!(resolve(&modules, &importer, "./feature.js", None).is_err());
}

#[test]
fn a_bare_dependency_import_loads_its_entry_and_relative_modules() {
    let mut modules = AppModules::new(PathStyle::Slash);
    let lease = modules.register_with_dependencies(
        "/work/application".to_owned(),
        dependency("omarchy-ui", "/work/dependency"),
    );
    let importer = format!("/work/application/main.js?v={}", lease.generation());

    let entry = modules.begin_resolve(&importer, "omarchy-ui", "").unwrap_or_else(|_| panic!());
    assert!(matches!(&entry.candidate, Candidate::Entry { file, boundary }
        if file == "/work/dependency/index.js" && boundary == "/work/dependency"));

    let theme =
        modules.begin_resolve(&importer, "omarchy-ui/theme.js", "").unwrap_or_else(|_| panic!());
    assert_eq!(
        theme.probe_to_open(true, false).map(String::as_str),
        Some("/work/dependency/theme.js")
    );
    let tagged = format!("/work/dependency/index.js?v={}", lease.generation());
    let inner = resolve(&modules, &tagged, "./theme.js", Some("/work/dependency/theme.js"));
    assert_eq!(
        inner.ok(),
        Some(format!("/work/dependency/theme.js?v={}", lease.generation()))
    );
}

#[test]
fn a_dependency_relative_import_cannot_escape_its_checkout() {
    let mut modules = AppModules::new(PathStyle::Slash);
    let lease = modules.register_with_dependencies(
        "/work/application".to_owned(),
        dependency("third-party", "/work/dependency"),
    );
    let importer = format!("/work/dependency/index.js?v={}", lease.generation());
    let error = resolve(&modules, &importer, "../secret.js", Some("/work/secret.js"))
        .expect_err("dependency traversal must be refused");
    assert!(error.contains("outside"), "{error}");
}

#[test]
fn an_import_that_is_no_file_is_not_found() {
    let mut modules = AppModules::new(PathStyle::Slash);
    let lease = modules.register("/work/application".to_owned());
    let importer = format!("/work/application/main.js?v={}", lease.generation());
    assert!(resolve(&modules, &importer, "./missing.js", None).is_err());
    let bare = resolve(&modules, &importer, "react", None).unwrap_err();
    assert!(bare.contains("gpui, gpui-base"), "{bare}");
}

#[test]
fn modules_are_found_under_a_drive() {
    let mut modules = AppModules::new(PathStyle::Backslash);
    let root = r"\\?\C:\app".to_owned();
    let lease = modules.register(root.clone());
    let importer = format!(r"{}\main.js?v={}", root, lease.generation());
    let search = modules.begin_resolve(&importer, "./lib/a", "").unwrap_or_else(|_| panic!());
    assert!(matches!(&search.candidate, Candidate::Probe { first, second, boundary }
        if first == r"\\?\C:\app\lib\a"
            && second == r"\\?\C:\app\lib\a.js"
            && boundary == r"\\?\C:\app"));
    assert_eq!(
        search.resolve(&importer, "./lib/a", Some(r"\\?\C:\app\lib\a.js"), "").ok(),
        Some(format!(r"\\?\C:\app\lib\a.js?v={}", lease.generation()))
    );
    assert!(resolve(&modules, &importer, "../b.js", Some(r"\\?\C:\b.js"))
        .expect_err("outside")
        .contains("outside"));
}

#[test]
fn a_root_that_looks_tagged_is_served() {
    let mut modules = AppModules::new(PathStyle::Slash);
    let lease = modules.register("/srv/app?v=1".to_owned());
    let importer = format!("/srv/app?v=1/main.js?v={}", lease.generation());
    assert_eq!(
        resolve(&modules, &importer, "./a.js", Some("/srv/app?v=1/a.js")).ok(),
        Some(format!("/srv/app?v=1/a.js?v={}", lease.generation()))
    );
}

#[test]
fn a_load_is_shared_by_its_number_while_it_is_held() {
    let mut modules = AppModules::new(PathStyle::Slash);
    assert!(modules.can_register());
    assert_eq!(modules.path_style(), PathStyle::Slash);
    let first = modules.register("/app".to_owned());
    let load = first.load_number();
    assert!(modules.can_share());
    let shared = modules.share_load(load).expect("it is held");
    assert_eq!((shared.load_number(), shared.generation()), (load, first.generation()));
    modules.release_all(vec![first, shared]);
    assert_eq!(modules.registration_count(), 0);
    assert!(modules.share_load(load).is_none());
}

#[test]
fn tags_are_taken_off_and_read_back() {
    assert_eq!(AppModules::untag("/a/main.js?v=12"), "/a/main.js");
    assert_eq!(AppModules::untag("/a/main.js"), "/a/main.js");
    assert_eq!(AppModules::untag("/srv/app?v=1/main.js?v=7"), "/srv/app?v=1/main.js");
    assert_eq!(AppModules::generation("/srv/app?v=1/main.js?v=7"), Some(7));
    assert_eq!(AppModules::generation("/a/main.js?v=12"), Some(12));
    assert_eq!(AppModules::generation("/a/main.js?v=x"), None);
    assert_eq!(AppModules::generation("/a/main.js"), None);
}

#[test]
fn a_module_may_be_so_large_and_no_larger() {
    let limit: u64 = 8 * 1024 * 1024;
    assert!(check_module_size("/a/main.js", limit).is_ok());
    let error = check_module_size("/a/main.js", limit + 1).unwrap_err();
    assert_eq!(error.kind(), ErrorKind::Host);
    assert!(error.message().contains("/a/main.js"));
    assert!(check_module_source("/a/main.js", "export default 1;").is_ok());
    let grown = "x".repeat(limit as usize + 1);
    let message = check_module_source("/a/main.js", &grown).unwrap_err().message();
    assert_eq!(message, "module `/a/main.js` grew over the 8388608-byte limit");
}

#[test]
fn dependencies_are_kept_by_name() {
    let mut dependencies = dependency("b", "/b");
    dependencies.insert(Dependency {
        name: "a".to_owned(),
        root: "/a".to_owned(),
        entry: "/a/index.js".to_owned(),
    });
    dependencies.insert(Dependency {
        name: "b".to_owned(),
        root: "/other".to_owned(),
        entry: "/other/index.js".to_owned(),
    });
    assert_eq!(dependencies.len(), 2);
}

#[test]
fn registered_exports_have_a_table_of_their_own() {
    assert_eq!(export_table(ExportOrigin::Builtin), "__gpui");
    assert_eq!(export_table(ExportOrigin::Registered), "__gpui_components");
}

#[test]
fn built_in_modules_have_names_and_say_what_they_export() {
    assert_eq!(builtin_module("gpui-base"), Some(BuiltinModule::GpuiBase));
    assert_eq!(builtin_module("react"), None);
    for name in ["gpui", "gpui-base"] {
        assert_eq!(builtin_module(name).map(|module| module.specifier()), Some(name));
    }
    assert_eq!(builtin_module("gpui").map(|module| module.names()), builtin_module("gpui-kit").map(|module| module.names()));
    assert_eq!(module_exporting("div"), Some("gpui-kit"));
    assert_eq!(module_exporting("no_such_export"), None);
    assert!(builtin_specifiers("gpui-component").contains("gpui-component"));
    assert_eq!(behaviors().len(), 56);
}

#[test]
fn the_runtime_names_its_modules_before_the_host_and_the_application() {
    let components = Some("gpui-component");
    assert!(matches!(
        module_source(components, true, true, "gpui-component"),
        ModuleSource::Components
    ));
    assert!(matches!(module_source(components, true, true, "path"), ModuleSource::Standard));
    assert!(matches!(
        module_source(components, false, true, "gpui-kit"),
        ModuleSource::Builtin(BuiltinModule::Gpui)
    ));
    assert!(matches!(module_source(components, false, true, "x"), ModuleSource::Host));
    assert!(matches!(module_source(components, false, false, "x"), ModuleSource::Application));
}

#[test]
fn the_component_module_answers_to_its_own_name_only() {
    let module = RegisteredComponentModule {
        specifier: Some("gpui-component".to_owned()),
        source: "export {};".to_owned(),
    };
    assert_eq!(module.resolve("/a/main.js", "gpui-component").ok(), Some("gpui-component".to_owned()));
    assert_eq!(module.load("gpui-component").ok().map(String::as_str), Some("export {};"));
    assert_eq!(module.resolve("/a/main.js", "gpui").unwrap_err().kind(), ErrorKind::Reference);
    assert!(module.load("gpui").is_err());
}
