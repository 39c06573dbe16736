//! The module registry of a runtime: sources loaded by the embedder, modules
//! compiled from them, and which specifier each compiled module came from.
use vstd::prelude::*;
use std::collections::HashMap;
use crate::collections::{AssocList, SameView};
use crate::errors::{BridgeError, BridgeErrorView, NameKind};
use crate::specifier::{
    char_views, join_into, join_segments, resolve_module_specifier, spec_resolve_module_specifier,
};
use crate::text::{chars_of, string_from_chars};

verus! {

broadcast use vstd::std_specs::hash::group_hash_axioms;

/// The specifier given to scripts and modules evaluated without a name.
pub const MAIN_MODULE_SPECIFIER: &'static str = "file:///main.mjs";

/// The abstract state of a module registry.
#[verifier::ext_equal]
pub struct ModuleStoreState<M> {
    pub sources: Map<Seq<char>, Seq<char>>,
    pub compiled: Map<Seq<char>, M>,
    pub specifiers_by_identity_hash: Map<i32, Seq<char>>,
}

/// The state after the embedder loads `source` under `specifier`: the source
/// replaces any earlier one, and a module compiled from an earlier source is
/// forgotten.
pub open spec fn module_load_source<M>(
    s: ModuleStoreState<M>,
    specifier: Seq<char>,
    source: Seq<char>,
) -> ModuleStoreState<M> {
    ModuleStoreState {
        sources: s.sources.insert(specifier, source),
        compiled: s.compiled.remove(specifier),
        ..s
    }
}

/// The state after recording `module`, compiled for `specifier`, whose
/// identity hash is `identity_hash`.
pub open spec fn module_register_compiled<M>(
    s: ModuleStoreState<M>,
    specifier: Seq<char>,
    module: M,
    identity_hash: i32,
) -> ModuleStoreState<M> {
    ModuleStoreState {
        sources: s.sources,
        compiled: s.compiled.insert(specifier, module),
        specifiers_by_identity_hash: s.specifiers_by_identity_hash.insert(identity_hash, specifier),
    }
}

/// What the registry holds for a specifier.
pub enum ModuleLookup<'a, M> {
    /// A module already compiled for it.
    Compiled(&'a M),
    /// Only its source, still to be compiled.
    Source(String),
}

/// The module registry of one runtime; `M` is the compiled module type.
pub struct ModuleStore<M> {
    sources: AssocList<String, String>,
    compiled: AssocList<String, M>,
    specifiers_by_identity_hash: HashMap<i32, String>,
}

impl<M> View for ModuleStore<M> {
    type V = ModuleStoreState<M>;

    closed spec fn view(&self) -> ModuleStoreState<M> {
        ModuleStoreState {
            sources: self.sources@.map_values(|s: String| s@),
            compiled: self.compiled@,
            specifiers_by_identity_hash: self.specifiers_by_identity_hash@.map_values(
                |s: String| s@,
            ),
        }
    }
}

impl<M> ModuleStore<M> {
    /// The internal lists are well formed.
    pub closed spec fn wf(&self) -> bool {
        self.sources.wf() && self.compiled.wf()
    }

    /// An empty registry.
    pub fn new() -> (r: Self)
        ensures
            r.wf(),
            r@.sources == Map::<Seq<char>, Seq<char>>::empty(),
            r@.compiled == Map::<Seq<char>, M>::empty(),
            r@.specifiers_by_identity_hash == Map::<i32, Seq<char>>::empty(),
    {
        let r = ModuleStore {
            sources: AssocList::new(),
            compiled: AssocList::new(),
            specifiers_by_identity_hash: HashMap::new(),
        };
        assert(r@.sources =~= Map::<Seq<char>, Seq<char>>::empty());
        assert(r@.specifiers_by_identity_hash =~= Map::<i32, Seq<char>>::empty());
        r
    }

    /// Loads `source` under `specifier`; an empty specifier is refused.
    pub fn load_source(&mut self, specifier: String, source: String) -> (r: Result<(), BridgeError>)
        requires
            old(self).wf(),
        ensures
            final(self).wf(),
            specifier@.len() == 0 ==> (r matches Err(e) && e@ == BridgeErrorView::EmptyName(
                NameKind::ModuleSpecifier,
            ) && final(self)@ == old(self)@),
            specifier@.len() != 0 ==> (r is Ok && final(self)@ == module_load_source(
                old(self)@,
                specifier@,
                source@,
            )),
    {
        if specifier.as_str().is_empty() {
            return Err(BridgeError::EmptyName(NameKind::ModuleSpecifier));
        }
        let ghost before = self@;
        let ghost sv = source@;
        let key = specifier.duplicate();
        self.sources.insert(specifier, source);
        self.compiled.remove(&key);
        assert(self@.sources =~= before.sources.insert(key@, sv));
        assert(self@ =~= module_load_source(before, key@, sv));
        Ok(())
    }

    /// What the registry holds for `specifier`; refused when it holds
    /// neither a compiled module nor a source.
    pub fn lookup(&self, specifier: &String) -> (r: Result<ModuleLookup<'_, M>, BridgeError>)
        requires
            self.wf(),
        ensures
            self@.compiled.contains_key(specifier@) ==> (r matches Ok(ModuleLookup::Compiled(m))
                && *m == self@.compiled[specifier@]),
            !self@.compiled.contains_key(specifier@) && self@.sources.contains_key(specifier@) ==> (
            r matches Ok(ModuleLookup::Source(src)) && src@ == self@.sources[specifier@]),
            !self@.compiled.contains_key(specifier@) && !self@.sources.contains_key(specifier@) ==> (
            r matches Err(e) && e@ == BridgeErrorView::ModuleNotFound(specifier@)),
    {
        match self.compiled.get(specifier) {
            Some(m) => Ok(ModuleLookup::Compiled(m)),
            None => match self.sources.get(specifier) {
                Some(src) => Ok(ModuleLookup::Source(src.duplicate())),
                None => Err(BridgeError::ModuleNotFound(specifier.duplicate())),
            },
        }
    }

    /// Records `module`, compiled for `specifier`, with its identity hash.
    pub fn register_compiled(&mut self, specifier: String, module: M, identity_hash: i32)
        requires
            old(self).wf(),
        ensures
            final(self).wf(),
            final(self)@ == module_register_compiled(old(self)@, specifier@, module, identity_hash),
    {
        let ghost before = self@;
        let ghost sv = specifier@;
        let key = specifier.duplicate();
        self.compiled.insert(specifier, module);
        self.specifiers_by_identity_hash.insert(identity_hash, key);
        assert(self@.specifiers_by_identity_hash =~= before.specifiers_by_identity_hash.insert(
            identity_hash,
            sv,
        ));
        assert(self@ =~= module_register_compiled(before, sv, module, identity_hash));
    }

    /// The specifier of the compiled module with identity hash `identity_hash`.
    pub fn referrer_specifier(&self, identity_hash: i32) -> (r: Result<String, BridgeError>)
        ensures
            self@.specifiers_by_identity_hash.contains_key(identity_hash) ==> (r matches Ok(s)
                && s@ == self@.specifiers_by_identity_hash[identity_hash]),
            !self@.specifiers_by_identity_hash.contains_key(identity_hash) ==> (r matches Err(e)
                && e@ == BridgeErrorView::MissingReferrerMetadata),
    {
        match self.specifiers_by_identity_hash.get(&identity_hash) {
            Some(s) => Ok(s.duplicate()),
            None => Err(BridgeError::MissingReferrerMetadata),
        }
    }

    /// The specifier that an import of `specifier` from the compiled module
    /// with identity hash `referrer_hash` designates.
    pub fn resolve_import(&self, referrer_hash: i32, specifier: &str) -> (r: Result<
        String,
        BridgeError,
    >)
        ensures
            self@.specifiers_by_identity_hash.contains_key(referrer_hash) ==> (r matches Ok(s)
                && s@ == spec_resolve_module_specifier(
                self@.specifiers_by_identity_hash[referrer_hash],
                specifier@,
            )),
            !self@.specifiers_by_identity_hash.contains_key(referrer_hash) ==> (r matches Err(e)
                && e@ == BridgeErrorView::MissingReferrerMetadata),
    {
        let referrer = self.referrer_specifier(referrer_hash)?;
        Ok(resolve_module_specifier(referrer.as_str(), specifier))
    }
}

// ---------------------------------------------------------------------------
// Instantiation and dynamic import
// ---------------------------------------------------------------------------

/// Where a module stands in its life cycle.
#[derive(Clone, Copy, Debug, PartialEq, Eq, Structural)]
pub enum ModuleStatus {
    Uninstantiated,
    Instantiating,
    Instantiated,
    Evaluating,
    Evaluated,
    Errored,
}

/// What a module needs before it can be used.
#[derive(Clone, Copy, Debug, PartialEq, Eq, Structural)]
pub enum Preparation {
    /// It must be instantiated first.
    Instantiate,
    /// It can be used as it is.
    Ready,
}

/// What a module in `status` needs before it is used, for the module
/// registered under `specifier`: an errored module is refused.
pub open spec fn spec_prepare_module(specifier: Seq<char>, status: ModuleStatus) -> Result<
    Preparation,
    BridgeErrorView,
> {
    match status {
        ModuleStatus::Uninstantiated => Ok(Preparation::Instantiate),
        ModuleStatus::Errored => Err(BridgeErrorView::ModuleAlreadyErrored(specifier)),
        _ => Ok(Preparation::Ready),
    }
}

/// Decides what the module registered under `specifier`, now in `status`,
/// needs before it is used.
pub fn prepare_module(specifier: &str, status: ModuleStatus) -> (r: Result<Preparation, BridgeError>)
    ensures
        match r {
            Ok(p) => spec_prepare_module(specifier@, status) == Ok::<Preparation, BridgeErrorView>(p),
            Err(e) => spec_prepare_module(specifier@, status) == Err::<Preparation, BridgeErrorView>(e@),
        },
{
    match status {
        ModuleStatus::Uninstantiated => Ok(Preparation::Instantiate),
        ModuleStatus::Errored => Err(BridgeError::ModuleAlreadyErrored(specifier.to_string())),
        _ => Ok(Preparation::Ready),
    }
}

/// The result of instantiating the module registered under `specifier`,
/// given what instantiation answered: `Some(true)` when it completed,
/// `Some(false)` when it did not, `None` when it threw.
pub fn instantiation_result(specifier: &str, outcome: Option<bool>) -> (r: Result<(), BridgeError>)
    ensures
        outcome == Some(true) ==> r is Ok,
        outcome == Some(false) ==> (r matches Err(e) && e@
            == BridgeErrorView::ModuleInstantiationIncomplete(specifier@)),
        outcome is None ==> (r matches Err(e) && e@ == BridgeErrorView::ModuleInstantiationFailed(
            specifier@,
        )),
{
    match outcome {
        Some(true) => Ok(()),
        Some(false) => Err(BridgeError::ModuleInstantiationIncomplete(specifier.to_string())),
        None => Err(BridgeError::ModuleInstantiationFailed(specifier.to_string())),
    }
}

/// How a dynamic `import()` goes on once its module is instantiated.
#[derive(Clone, Copy, Debug, PartialEq, Eq, Structural)]
pub enum ImportStep {
    /// Resolve the import with the module's namespace.
    ResolveNamespace,
    /// Reject the import with the module's exception.
    RejectWithException,
    /// Evaluate the module first.
    Evaluate,
}

/// The step of a dynamic `import()` whose module is in `status`: an evaluated
/// module resolves at once, an errored one rejects, any other is evaluated.
pub open spec fn spec_dynamic_import_step(status: ModuleStatus) -> ImportStep {
    match status {
        ModuleStatus::Evaluated => ImportStep::ResolveNamespace,
        ModuleStatus::Errored => ImportStep::RejectWithException,
        _ => ImportStep::Evaluate,
    }
}

/// Decides how a dynamic `import()` of a module in `status` goes on.
pub fn dynamic_import_step(status: ModuleStatus) -> (step: ImportStep)
    ensures
        step == spec_dynamic_import_step(status),
{
    match status {
        ModuleStatus::Evaluated => ImportStep::ResolveNamespace,
        ModuleStatus::Errored => ImportStep::RejectWithException,
        _ => ImportStep::Evaluate,
    }
}

/// The module that a dynamic `import()` is resolved against: the script's
/// resource name, unless it is missing, empty or `"undefined"`, in which case
/// the main module.
pub open spec fn spec_dynamic_import_referrer(resource_name: Option<Seq<char>>) -> Seq<char> {
    match resource_name {
        Some(name) if name != "undefined"@ && name.len() != 0 => name,
        _ => MAIN_MODULE_SPECIFIER@,
    }
}

/// The referrer of a dynamic `import()` whose script resource name, taken as
/// a string, is `resource_name` (`None` when it could not be taken so).
pub fn dynamic_import_referrer(resource_name: Option<String>) -> (r: String)
    ensures
        r@ == spec_dynamic_import_referrer(
            match resource_name {
                Some(s) => Some(s@),
                None => None,
            },
        ),
{
    let undefined = String::from_str("undefined");
    match resource_name {
        Some(name) => {
            if !name.as_str().is_empty() && !name.same_as(&undefined) {
                name
            } else {
                String::from_str(MAIN_MODULE_SPECIFIER)
            }
        },
        None => String::from_str(MAIN_MODULE_SPECIFIER),
    }
}

/// The embedder's listing of a module's export names: the names, in order,
/// separated by newlines.
pub fn export_name_listing(names: &Vec<String>) -> (listing: String)
    ensures
        listing@ == join_segments(names@.map_values(|n: String| n@), '\n'),
{
    let mut segs: Vec<Vec<char>> = Vec::new();
    let n = names.len();
    for i in 0..n
        invariant
            n == names@.len(),
            segs@.len() == i,
            forall|j: int| 0 <= j < i ==> #[trigger] segs@[j]@ == names@[j]@,
    {
        segs.push(chars_of(names[i].as_str()));
    }
    let mut out: Vec<char> = Vec::new();
    join_into(&mut out, &segs, '\n');
    assert(char_views(segs@) =~= names@.map_values(|n: String| n@));
    assert(out@ =~= join_segments(char_views(segs@), '\n'));
    string_from_chars(out.as_slice())
}

/// A loaded source is what the registry holds for its specifier until it is
/// compiled; the compiled module then takes its place.
pub proof fn law_loaded_source_then_compiled<M>(
    s: ModuleStoreState<M>,
    specifier: Seq<char>,
    source: Seq<char>,
    module: M,
    identity_hash: i32,
)
    ensures
        ({
            let loaded = module_load_source(s, specifier, source);
            &&& !loaded.compiled.contains_key(specifier)
            &&& loaded.sources[specifier] == source
            &&& module_register_compiled(loaded, specifier, module, identity_hash).compiled[specifier]
                == module
        }),
{
}

/// Loading a source under `specifier` touches nothing registered under any
/// other specifier: its source and its compiled module (if any) stay as they
/// were, and so does the map from identity hashes to specifiers.
pub proof fn law_loading_leaves_other_modules<M>(
    s: ModuleStoreState<M>,
    specifier: Seq<char>,
    source: Seq<char>,
    other: Seq<char>,
)
    requires
        other != specifier,
    ensures
        ({
            let loaded = module_load_source(s, specifier, source);
            &&& loaded.compiled.contains_key(other) == s.compiled.contains_key(other)
            &&& s.compiled.contains_key(other) ==> loaded.compiled[other] == s.compiled[other]
            &&& loaded.sources.contains_key(other) == s.sources.contains_key(other)
            &&& s.sources.contains_key(other) ==> loaded.sources[other] == s.sources[other]
            &&& loaded.specifiers_by_identity_hash == s.specifiers_by_identity_hash
        }),
{
}

/// Every resource name other than the empty one and `"undefined"` is the
/// referrer of the dynamic imports in its script, whatever its form; the main
/// module stands in only when there is no usable resource name.
pub proof fn law_resource_name_is_import_referrer(name: Seq<char>)
    ensures
        name.len() != 0 && name != "undefined"@ ==> spec_dynamic_import_referrer(Some(name))
            == name,
        spec_dynamic_import_referrer(Some(Seq::<char>::empty())) == MAIN_MODULE_SPECIFIER@,
        spec_dynamic_import_referrer(Some("undefined"@)) == MAIN_MODULE_SPECIFIER@,
        spec_dynamic_import_referrer(None) == MAIN_MODULE_SPECIFIER@,
{
}

/// A compiled module's identity hash leads back to its specifier.
pub proof fn law_identity_hash_names_specifier<M>(
    s: ModuleStoreState<M>,
    specifier: Seq<char>,
    module: M,
    identity_hash: i32,
)
    ensures
        module_register_compiled(
            s,
            specifier,
            module,
            identity_hash,
        ).specifiers_by_identity_hash[identity_hash] == specifier,
{
}

} // verus!
