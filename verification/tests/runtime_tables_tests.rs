use v8_bridge::handles::{HandleTable, RuntimeHandles};
use v8_bridge::modules::{
    dynamic_import_referrer, dynamic_import_step, export_name_listing, instantiation_result,
    prepare_module,
    ImportStep, ModuleLookup, ModuleStatus, ModuleStore, Preparation, MAIN_MODULE_SPECIFIER,
};

#[test]
fn handles_start_at_one_and_read_back() {
    let mut table: HandleTable<&'static str> = HandleTable::new();
    let a = table.store("a");
    let b = table.store("b");
    assert_eq!((a, b), (1, 2));
    assert_eq!(table.get(a), Some(&"a"));
    assert_eq!(table.get(b), Some(&"b"));
    assert_eq!(table.get(0), None);
    assert_eq!(table.get(3), None);
}

#[test]
fn removed_handle_is_gone() {
    let mut table: HandleTable<u8> = HandleTable::new();
    let a = table.store(10);
    let b = table.store(20);
    assert_eq!(table.remove(a), Some(10));
    assert_eq!(table.get(a), None);
    assert_eq!(table.remove(a), None);
    assert_eq!(table.get(b), Some(&20));
    assert_eq!(table.store(30), 3);
}

#[test]
fn promise_and_module_handles_are_checked() {
    let mut handles: RuntimeHandles<&'static str, &'static str> = RuntimeHandles::new();
    assert_eq!(handles.promise(0).err().unwrap().message(), "promise handle is null");
    assert_eq!(handles.promise(1).err().unwrap().message(), "promise handle is closed");
    assert_eq!(handles.module(0).err().unwrap().message(), "module handle is null");
    assert_eq!(handles.module(1).err().unwrap().message(), "module handle is closed");
    let p = handles.promises.store("p");
    assert_eq!(handles.promise(p).ok(), Some(&"p"));
    handles.delete_promise(p);
    assert_eq!(handles.promise(p).err().unwrap().message(), "promise handle is closed");
}

#[test]
fn pending_module_keeps_its_evaluation_promise() {
    let mut handles: RuntimeHandles<&'static str, &'static str> = RuntimeHandles::new();
    let settled = handles.modules.store("done");
    let m = handles.store_pending_module("module", "evaluation");
    assert_eq!(m, 2);
    assert_eq!(handles.module(m).ok(), Some(&"module"));
    let p = handles.module_evaluation_promise(m).ok().unwrap();
    assert_eq!(p, 1);
    assert_eq!(handles.promise(p).ok(), Some(&"evaluation"));
    assert_eq!(handles.module_evaluation_promise(settled).ok(), Some(0));
    assert_eq!(
        handles.module_evaluation_promise(0).err().unwrap().message(),
        "module handle is null"
    );
    handles.delete_module(m);
    assert_eq!(handles.module(m).err().unwrap().message(), "module handle is closed");
    assert_eq!(handles.module_evaluation_promise(m).ok(), Some(0));
    assert_eq!(handles.promise(p).ok(), Some(&"evaluation"));
}

#[test]
fn module_store_loads_and_compiles() {
    let mut store: ModuleStore<&'static str> = ModuleStore::new();
    let spec = "file:///dep.mjs".to_string();
    assert_eq!(
        store.lookup(&spec).err().unwrap().message(),
        "module not found: file:///dep.mjs"
    );
    assert!(store.load_source(spec.clone(), "export const x = 1;".to_string()).is_ok());
    match store.lookup(&spec) {
        Ok(ModuleLookup::Source(src)) => assert_eq!(src, "export const x = 1;"),
        _ => panic!("expected the source"),
    }
    store.register_compiled(spec.clone(), "compiled", 42);
    match store.lookup(&spec) {
        Ok(ModuleLookup::Compiled(m)) => assert_eq!(*m, "compiled"),
        _ => panic!("expected the compiled module"),
    }
    assert_eq!(store.referrer_specifier(42).ok().unwrap(), spec);
    assert!(store.load_source(spec.clone(), "export const x = 2;".to_string()).is_ok());
    match store.lookup(&spec) {
        Ok(ModuleLookup::Source(src)) => assert_eq!(src, "export const x = 2;"),
        _ => panic!("reloading forgets the compiled module"),
    }
}

#[test]
fn empty_module_specifier_is_refused() {
    let mut store: ModuleStore<u8> = ModuleStore::new();
    let err = store.load_source(String::new(), "x".to_string()).err().unwrap();
    assert_eq!(err.message(), "module specifier must not be empty");
}

#[test]
fn imports_resolve_against_the_referrer() {
    let mut store: ModuleStore<u8> = ModuleStore::new();
    store.register_compiled("file:///lib/main.mjs".to_string(), 1, 7);
    assert_eq!(store.resolve_import(7, "./util.mjs").ok().unwrap(), "file:///lib/util.mjs");
    assert_eq!(store.resolve_import(7, "../x.mjs").ok().unwrap(), "file:///x.mjs");
    assert_eq!(store.resolve_import(7, "pkg").ok().unwrap(), "pkg");
    assert_eq!(
        store.resolve_import(8, "./util.mjs").err().unwrap().message(),
        "missing referrer metadata for module resolution"
    );
}

#[test]
fn dynamic_import_referrer_falls_back_to_main() {
    assert_eq!(dynamic_import_referrer(Some("file:///a.mjs".to_string())), "file:///a.mjs");
    assert_eq!(dynamic_import_referrer(Some("undefined".to_string())), MAIN_MODULE_SPECIFIER);
    assert_eq!(dynamic_import_referrer(Some(String::new())), "file:///main.mjs");
    assert_eq!(dynamic_import_referrer(None), "file:///main.mjs");
}

#[test]
fn module_preparation_by_status() {
    let spec = "file:///m.mjs";
    assert_eq!(prepare_module(spec, ModuleStatus::Uninstantiated).ok(), Some(Preparation::Instantiate));
    for status in [
        ModuleStatus::Instantiating,
        ModuleStatus::Instantiated,
        ModuleStatus::Evaluating,
        ModuleStatus::Evaluated,
    ] {
        assert_eq!(prepare_module(spec, status).ok(), Some(Preparation::Ready));
    }
    assert_eq!(
        prepare_module(spec, ModuleStatus::Errored).err().unwrap().message(),
        "module is already errored: file:///m.mjs"
    );
}

#[test]
fn instantiation_outcomes() {
    assert!(instantiation_result("a.mjs", Some(true)).is_ok());
    assert_eq!(
        instantiation_result("a.mjs", Some(false)).err().unwrap().message(),
        "module instantiation did not complete: a.mjs"
    );
    assert_eq!(
        instantiation_result("a.mjs", None).err().unwrap().message(),
        "failed to instantiate module: a.mjs"
    );
}

#[test]
fn dynamic_import_steps() {
    assert_eq!(dynamic_import_step(ModuleStatus::Evaluated), ImportStep::ResolveNamespace);
    assert_eq!(dynamic_import_step(ModuleStatus::Errored), ImportStep::RejectWithException);
    assert_eq!(dynamic_import_step(ModuleStatus::Instantiated), ImportStep::Evaluate);
    assert_eq!(dynamic_import_step(ModuleStatus::Evaluating), ImportStep::Evaluate);
}

#[test]
fn export_names_are_listed_one_per_line() {
    let names = vec!["default".to_string(), "add".to_string(), "x".to_string()];
    assert_eq!(export_name_listing(&names), "default\nadd\nx");
    assert_eq!(export_name_listing(&vec!["only".to_string()]), "only");
    assert_eq!(export_name_listing(&Vec::new()), "");
    assert_eq!(export_name_listing(&vec![String::new(), String::new()]), "\n");
}

#[test]
fn handles_are_not_reused_after_removal() {
    let mut table: HandleTable<u8> = HandleTable::new();
    let a = table.store(1);
    let b = table.store(2);
    table.remove(a);
    table.remove(b);
    let c = table.store(3);
    assert!(c != a && c != b);
    assert_eq!(table.get(c), Some(&3));
}
