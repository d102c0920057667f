//! Module loading.
//!
//! `resolve` turns a specifier and referrer into an absolute specifier;
//! `plan_load` decides, in priority order, where the module's source comes
//! from: the virtual-module registry, the built-in registry, a local file,
//! or a secure remote transport. Reading files and fetching over the
//! network are the embedder's work; the loader hands it a plan and takes
//! the raw text back. Transpiled modules leave their source map in a keyed
//! side table for later stack-trace mapping.

use vstd::prelude::*;
use crate::assoc::AssocMap;
use crate::resolve::{ResolutionError, join_slash, normalize_absolute_spec, normalize_segs,
    origin_end, origin_of, resolve_spec, resolve_specifier, scheme_marker_len, split_slash};
use crate::strutil::{rfind_char, str_ends_with, str_rfind_char, str_starts_with, str_strip_prefix,
    str_suffix_from};

verus! {

/// Why a resolved specifier could not be loaded.
#[derive(Debug, Clone, PartialEq, Eq, Structural)]
pub enum LoadError {
    /// The specifier names a virtual module that is not registered.
    ModuleNotFound,
    /// The specifier names a built-in module that does not exist.
    UnknownBuiltinModule,
    /// The file's extension maps to no known module kind.
    UnknownExtension,
    /// The specifier's scheme is not one the loader supports.
    UnsupportedScheme,
    /// Reading a local file failed.
    FileRead,
    /// Fetching over the remote transport failed.
    Transport,
}

/// Why transpilation of typed-superset source failed: a syntax or parse
/// failure, distinct from the load errors. The parse/transpile stage is
/// the embedder's collaborator; this carries its explanation back as a
/// typed, script-visible failure that aborts only the failing load.
#[derive(Debug, Clone)]
pub struct TranspileError {
    pub message: String,
}

impl TranspileError {
    /// A transpile failure carrying the stage's explanation.
    pub fn new(message: String) -> (r: Self)
        ensures
            r.message@ == message@,
    {
        TranspileError { message: message }
    }
}

/// The syntax family of a module's source text, from its file extension.
#[derive(Debug, Clone, Copy, PartialEq, Eq, Structural)]
pub enum MediaKind {
    JavaScript,
    Mjs,
    Cjs,
    Jsx,
    TypeScript,
    Mts,
    Cts,
    Dts,
    Tsx,
    Json,
    Unknown,
}

/// The logical kind of a loaded module.
#[derive(Debug, Clone, Copy, PartialEq, Eq, Structural)]
pub enum ModuleKind {
    JavaScript,
    Json,
}

/// The extension of a path: what follows the last `.`, provided it comes
/// after the last `/`; empty otherwise.
pub open spec fn ext_of(p: Seq<char>) -> Seq<char> {
    match rfind_char(p, '.') {
        Some(i) => {
            let after_slash = match rfind_char(p, '/') {
                Some(s) => s < i,
                None => true,
            };
            if after_slash {
                p.skip(i + 1)
            } else {
                Seq::empty()
            }
        },
        None => Seq::empty(),
    }
}

/// The media kind an extension denotes.
pub open spec fn media_kind_of_ext(e: Seq<char>) -> MediaKind {
    if e == "js"@ {
        MediaKind::JavaScript
    } else if e == "mjs"@ {
        MediaKind::Mjs
    } else if e == "cjs"@ {
        MediaKind::Cjs
    } else if e == "jsx"@ {
        MediaKind::Jsx
    } else if e == "ts"@ {
        MediaKind::TypeScript
    } else if e == "mts"@ {
        MediaKind::Mts
    } else if e == "cts"@ {
        MediaKind::Cts
    } else if e == "tsx"@ {
        MediaKind::Tsx
    } else if e == "json"@ {
        MediaKind::Json
    } else {
        MediaKind::Unknown
    }
}

/// The media kind of a path: declaration files are recognized by their
/// double extension, everything else by the plain extension.
pub open spec fn media_kind_of_path(p: Seq<char>) -> MediaKind {
    if ".d.ts"@.is_suffix_of(p) || ".d.mts"@.is_suffix_of(p) || ".d.cts"@.is_suffix_of(p) {
        MediaKind::Dts
    } else {
        media_kind_of_ext(ext_of(p))
    }
}

/// The module kind a media kind loads as, and whether its source must be
/// transpiled first; nothing for an unknown media kind.
pub open spec fn module_plan_of_media(m: MediaKind) -> Option<(ModuleKind, bool)> {
    match m {
        MediaKind::JavaScript => Some((ModuleKind::JavaScript, false)),
        MediaKind::Mjs => Some((ModuleKind::JavaScript, false)),
        MediaKind::Cjs => Some((ModuleKind::JavaScript, false)),
        MediaKind::Jsx => Some((ModuleKind::JavaScript, true)),
        MediaKind::TypeScript => Some((ModuleKind::JavaScript, true)),
        MediaKind::Mts => Some((ModuleKind::JavaScript, true)),
        MediaKind::Cts => Some((ModuleKind::JavaScript, true)),
        MediaKind::Dts => Some((ModuleKind::JavaScript, true)),
        MediaKind::Tsx => Some((ModuleKind::JavaScript, true)),
        MediaKind::Json => Some((ModuleKind::Json, false)),
        MediaKind::Unknown => None,
    }
}

/// The media kind of a path.
pub fn media_kind_of(path: &str) -> (r: MediaKind)
    ensures
        r == media_kind_of_path(path@),
{
    if str_ends_with(path, ".d.ts") || str_ends_with(path, ".d.mts") || str_ends_with(
        path,
        ".d.cts",
    ) {
        return MediaKind::Dts;
    }
    let path_len: usize = path.unicode_len();
    let ext: String = match str_rfind_char(path, '.') {
        Some(i) => {
            let after_slash = match str_rfind_char(path, '/') {
                Some(s) => s < i,
                None => true,
            };
            if after_slash {
                proof {
                    assert(i < path_len);
                }
                str_suffix_from(path, i + 1).to_owned()
            } else {
                String::new()
            }
        },
        None => String::new(),
    };
    proof {
        assert(ext@ == ext_of(path@));
    }
    if crate::types::str_eq(ext.as_str(), "js") {
        MediaKind::JavaScript
    } else if crate::types::str_eq(ext.as_str(), "mjs") {
        MediaKind::Mjs
    } else if crate::types::str_eq(ext.as_str(), "cjs") {
        MediaKind::Cjs
    } else if crate::types::str_eq(ext.as_str(), "jsx") {
        MediaKind::Jsx
    } else if crate::types::str_eq(ext.as_str(), "ts") {
        MediaKind::TypeScript
    } else if crate::types::str_eq(ext.as_str(), "mts") {
        MediaKind::Mts
    } else if crate::types::str_eq(ext.as_str(), "cts") {
        MediaKind::Cts
    } else if crate::types::str_eq(ext.as_str(), "tsx") {
        MediaKind::Tsx
    } else if crate::types::str_eq(ext.as_str(), "json") {
        MediaKind::Json
    } else {
        MediaKind::Unknown
    }
}

/// Module source text in hand, with what remains to be done to it.
#[derive(Debug, Clone)]
pub struct ModuleText {
    pub code: String,
    pub media: MediaKind,
    pub module_kind: ModuleKind,
    pub transpile: bool,
}

/// A local file the embedder must read to finish a load.
#[derive(Debug, Clone)]
pub struct FileLoad {
    pub path: String,
    pub media: MediaKind,
    pub module_kind: ModuleKind,
    pub transpile: bool,
}

/// What a load needs next.
#[derive(Debug, Clone)]
pub enum LoadPlan {
    /// The source is already in hand (virtual or built-in module).
    Ready(ModuleText),
    /// The embedder must read this local file.
    NeedsFile(FileLoad),
    /// The embedder must fetch this URL; the body is treated as plain
    /// executable script, with no further kind inference.
    NeedsFetch(String),
}

/// The mathematical shape of module text.
pub struct ModuleTextSpec {
    pub code: Seq<char>,
    pub media: MediaKind,
    pub module_kind: ModuleKind,
    pub transpile: bool,
}

/// The mathematical shape of a load plan.
pub enum LoadPlanSpec {
    Ready(ModuleTextSpec),
    NeedsFile { path: Seq<char>, media: MediaKind, module_kind: ModuleKind, transpile: bool },
    NeedsFetch { url: Seq<char> },
}

impl View for ModuleText {
    type V = ModuleTextSpec;

    open spec fn view(&self) -> ModuleTextSpec {
        ModuleTextSpec {
            code: self.code@,
            media: self.media,
            module_kind: self.module_kind,
            transpile: self.transpile,
        }
    }
}

impl View for LoadPlan {
    type V = LoadPlanSpec;

    open spec fn view(&self) -> LoadPlanSpec {
        match self {
            LoadPlan::Ready(t) => LoadPlanSpec::Ready(t@),
            LoadPlan::NeedsFile(f) => LoadPlanSpec::NeedsFile {
                path: f.path@,
                media: f.media,
                module_kind: f.module_kind,
                transpile: f.transpile,
            },
            LoadPlan::NeedsFetch(u) => LoadPlanSpec::NeedsFetch { url: u@ },
        }
    }
}

/// The prefix of the internal namespace.
pub open spec fn internal_prefix() -> Seq<char> {
    "file://yasumu_internal/"@
}

/// The prefix under which virtual modules live, in resolved form.
pub open spec fn virtual_full_prefix() -> Seq<char> {
    "file://yasumu_internal/yasumu:virtual/"@
}

/// The shape of virtual and built-in module source: typed-superset script
/// that is transpiled before execution.
pub open spec fn internal_module_text(code: Seq<char>) -> ModuleTextSpec {
    ModuleTextSpec {
        code: code,
        media: MediaKind::TypeScript,
        module_kind: ModuleKind::JavaScript,
        transpile: true,
    }
}

/// What `plan_load` decides for a resolved specifier, in priority order:
/// the virtual registry, the built-in registry, a local file classified
/// by extension, the remote transport, and otherwise a typed error.
pub open spec fn load_plan_spec(
    virtuals: Map<Seq<char>, Seq<char>>,
    builtins: Map<Seq<char>, Seq<char>>,
    sp: Seq<char>,
) -> Result<LoadPlanSpec, LoadError> {
    if virtual_full_prefix().is_prefix_of(sp) {
        let key = sp.skip(virtual_full_prefix().len() as int);
        if virtuals.contains_key(key) {
            Ok(LoadPlanSpec::Ready(internal_module_text(virtuals[key])))
        } else {
            Err(LoadError::ModuleNotFound)
        }
    } else if internal_prefix().is_prefix_of(sp) {
        let name = sp.skip(internal_prefix().len() as int);
        if builtins.contains_key(name) {
            Ok(LoadPlanSpec::Ready(internal_module_text(builtins[name])))
        } else {
            Err(LoadError::UnknownBuiltinModule)
        }
    } else if "file://"@.is_prefix_of(sp) {
        let path = sp.skip("file://"@.len() as int);
        let media = media_kind_of_path(path);
        match module_plan_of_media(media) {
            Some(plan) => Ok(
                LoadPlanSpec::NeedsFile {
                    path: path,
                    media: media,
                    module_kind: plan.0,
                    transpile: plan.1,
                },
            ),
            None => Err(LoadError::UnknownExtension),
        }
    } else if "https://"@.is_prefix_of(sp) {
        Ok(LoadPlanSpec::NeedsFetch { url: sp })
    } else {
        Err(LoadError::UnsupportedScheme)
    }
}

/// Operator-registered module source, keyed by identifier; shared by all
/// execution contexts of one host session.
pub struct VirtualModuleRegistry {
    entries: AssocMap<String>,
}

impl View for VirtualModuleRegistry {
    type V = Map<Seq<char>, Seq<char>>;

    closed spec fn view(&self) -> Map<Seq<char>, Seq<char>> {
        self.entries@
    }
}

impl VirtualModuleRegistry {
    /// An empty registry.
    pub fn new() -> (r: Self)
        ensures
            r@ == Map::<Seq<char>, Seq<char>>::empty(),
    {
        VirtualModuleRegistry { entries: AssocMap::new() }
    }

    /// Registers `code` under `key`, replacing any earlier registration.
    pub fn register(&mut self, key: String, code: String)
        ensures
            final(self)@ == old(self)@.insert(key@, code@),
    {
        self.entries.insert(key, code);
    }

    /// Unregisters `key`; a key that is not registered is a no-op.
    pub fn unregister(&mut self, key: &str)
        ensures
            final(self)@ == old(self)@.remove(key@),
    {
        self.entries.remove(key);
    }

    /// Unregisters everything. Never errors, and calling it twice in a
    /// row is a no-op the second time: an empty registry is left exactly
    /// as it is.
    pub fn unregister_all(&mut self)
        ensures
            final(self)@ == Map::<Seq<char>, Seq<char>>::empty(),
            old(self)@ == Map::<Seq<char>, Seq<char>>::empty() ==> final(self)@ == old(self)@,
    {
        self.entries.clear();
    }

    /// The source registered under `key`, if any.
    pub fn lookup(&self, key: &str) -> (r: Option<&String>)
        ensures
            match r {
                Some(code) => self@.contains_key(key@) && code@ == self@[key@],
                None => !self@.contains_key(key@),
            },
    {
        self.entries.get(key)
    }
}

/// A fully loaded module, ready for the execution engine.
#[derive(Debug, Clone)]
pub struct ModuleSource {
    pub module_kind: ModuleKind,
    pub code: String,
    pub specifier: String,
}

/// Resolves specifiers and plans module loads over three source origins:
/// the operator's virtual-module registry, the embedder's built-in
/// registry, and the outside world (files and remote URLs); keeps the
/// source maps that transpilation emits.
pub struct TypescriptModuleLoader {
    pub source_maps: AssocMap<Vec<u8>>,
    pub virtual_modules: VirtualModuleRegistry,
    pub builtin_modules: AssocMap<String>,
}

impl TypescriptModuleLoader {
    /// A loader with no registered modules and no stored source maps.
    pub fn new() -> (r: Self)
        ensures
            r.source_maps@ == Map::<Seq<char>, Seq<u8>>::empty(),
            r.virtual_modules@ == Map::<Seq<char>, Seq<char>>::empty(),
            r.builtin_modules@ == Map::<Seq<char>, Seq<char>>::empty(),
    {
        TypescriptModuleLoader {
            source_maps: AssocMap::new(),
            virtual_modules: VirtualModuleRegistry::new(),
            builtin_modules: AssocMap::new(),
        }
    }

    /// Resolves `specifier` against `referrer`.
    pub fn resolve(&self, specifier: &str, referrer: &str) -> (r: Result<String, ResolutionError>)
        ensures
            match r {
                Ok(s) => resolve_spec(specifier@, referrer@) == Ok::<Seq<char>, ResolutionError>(
                    s@,
                ),
                Err(e) => resolve_spec(specifier@, referrer@) == Err::<Seq<char>, ResolutionError>(
                    e,
                ),
            },
    {
        resolve_specifier(specifier, referrer)
    }

    /// Decides where the source for a resolved specifier comes from.
    pub fn plan_load(&self, resolved: &str) -> (r: Result<LoadPlan, LoadError>)
        ensures
            match r {
                Ok(p) => load_plan_spec(self.virtual_modules@, self.builtin_modules@, resolved@)
                    == Ok::<LoadPlanSpec, LoadError>(p@),
                Err(e) => load_plan_spec(self.virtual_modules@, self.builtin_modules@, resolved@)
                    == Err::<LoadPlanSpec, LoadError>(e),
            },
    {
        if str_starts_with(resolved, "file://yasumu_internal/yasumu:virtual/") {
            let key = str_strip_prefix(resolved, "file://yasumu_internal/yasumu:virtual/");
            match self.virtual_modules.lookup(key) {
                Some(code) => Ok(
                    LoadPlan::Ready(
                        ModuleText {
                            code: code.clone(),
                            media: MediaKind::TypeScript,
                            module_kind: ModuleKind::JavaScript,
                            transpile: true,
                        },
                    ),
                ),
                None => Err(LoadError::ModuleNotFound),
            }
        } else if str_starts_with(resolved, "file://yasumu_internal/") {
            let name = str_strip_prefix(resolved, "file://yasumu_internal/");
            match self.builtin_modules.get(name) {
                Some(code) => Ok(
                    LoadPlan::Ready(
                        ModuleText {
                            code: code.clone(),
                            media: MediaKind::TypeScript,
                            module_kind: ModuleKind::JavaScript,
                            transpile: true,
                        },
                    ),
                ),
                None => Err(LoadError::UnknownBuiltinModule),
            }
        } else if str_starts_with(resolved, "file://") {
            let path = str_strip_prefix(resolved, "file://");
            let media = media_kind_of(path);
            match media_module_plan(media) {
                Some(plan) => Ok(
                    LoadPlan::NeedsFile(
                        FileLoad {
                            path: path.to_owned(),
                            media: media,
                            module_kind: plan.0,
                            transpile: plan.1,
                        },
                    ),
                ),
                None => Err(LoadError::UnknownExtension),
            }
        } else if str_starts_with(resolved, "https://") {
            Ok(LoadPlan::NeedsFetch(resolved.to_owned()))
        } else {
            Err(LoadError::UnsupportedScheme)
        }
    }

    /// Turns the text the embedder read from a planned file into module
    /// text carrying the plan's classification.
    pub fn file_module_text(&self, plan: &FileLoad, text: String) -> (r: ModuleText)
        ensures
            r@ == (ModuleTextSpec {
                code: text@,
                media: plan.media,
                module_kind: plan.module_kind,
                transpile: plan.transpile,
            }),
    {
        ModuleText {
            code: text,
            media: plan.media,
            module_kind: plan.module_kind,
            transpile: plan.transpile,
        }
    }

    /// Turns the body the embedder fetched from a planned URL into module
    /// text: always plain executable script, never transpiled.
    pub fn fetched_module_text(&self, body: String) -> (r: ModuleText)
        ensures
            r@ == (ModuleTextSpec {
                code: body@,
                media: MediaKind::JavaScript,
                module_kind: ModuleKind::JavaScript,
                transpile: false,
            }),
    {
        ModuleText {
            code: body,
            media: MediaKind::JavaScript,
            module_kind: ModuleKind::JavaScript,
            transpile: false,
        }
    }

    /// Finishes a load whose text needs no transpilation.
    pub fn finish_plain(&self, specifier: &str, text: ModuleText) -> (r: ModuleSource)
        requires
            !text.transpile,
        ensures
            r.code@ == text.code@,
            r.module_kind == text.module_kind,
            r.specifier@ == specifier@,
    {
        ModuleSource { module_kind: text.module_kind, code: text.code, specifier: specifier.to_owned() }
    }

    /// Finishes a load whose text the embedder transpiled: stores the
    /// emitted source map under the specifier and returns the module.
    pub fn finish_transpiled(
        &mut self,
        specifier: &str,
        module_kind: ModuleKind,
        emitted: String,
        source_map: Vec<u8>,
    ) -> (r: ModuleSource)
        ensures
            final(self).source_maps@ == old(self).source_maps@.insert(specifier@, source_map@),
            final(self).virtual_modules@ == old(self).virtual_modules@,
            final(self).builtin_modules@ == old(self).builtin_modules@,
            r.code@ == emitted@,
            r.module_kind == module_kind,
            r.specifier@ == specifier@,
    {
        self.source_maps.insert(specifier.to_owned(), source_map);
        ModuleSource { module_kind: module_kind, code: emitted, specifier: specifier.to_owned() }
    }

    /// The source map stored for a specifier, if any.
    pub fn get_source_map(&self, specifier: &str) -> (r: Option<&Vec<u8>>)
        ensures
            match r {
                Some(m) => self.source_maps@.contains_key(specifier@) && m@
                    == self.source_maps@[specifier@],
                None => !self.source_maps@.contains_key(specifier@),
            },
    {
        self.source_maps.get(specifier)
    }
}

/// Law: registering a virtual module, then resolving its aliased
/// specifier and loading what resolution produced, yields exactly the
/// registered text, before any transpilation; after unregistering it,
/// the same load fails with the "module not found" error. It holds for
/// every key whose segments are not dot segments — resolution would
/// normalize those away.
pub proof fn lemma_virtual_module_round_trip(
    virtuals: Map<Seq<char>, Seq<char>>,
    builtins: Map<Seq<char>, Seq<char>>,
    key: Seq<char>,
    code: Seq<char>,
    referrer: Seq<char>,
)
    requires
        forall|i: int|
            0 <= i < split_slash(key).len() ==> #[trigger] split_slash(key)[i] != "."@
                && split_slash(key)[i] != ".."@,
    ensures
        resolve_spec("yasumu:virtual/"@ + key, referrer) == Ok::<Seq<char>, ResolutionError>(
            virtual_full_prefix() + key,
        ),
        load_plan_spec(virtuals.insert(key, code), builtins, virtual_full_prefix() + key) == Ok::<
            LoadPlanSpec,
            LoadError,
        >(LoadPlanSpec::Ready(internal_module_text(code))),
        load_plan_spec(virtuals.remove(key), builtins, virtual_full_prefix() + key) == Err::<
            LoadPlanSpec,
            LoadError,
        >(LoadError::ModuleNotFound),
{
    reveal_strlit("yasumu:");
    reveal_strlit("yasumu:virtual/");
    reveal_strlit("file://yasumu_internal/");
    reveal_strlit("file://yasumu_internal/yasumu:virtual/");
    reveal_strlit("file://");
    reveal_strlit("https://");
    reveal_strlit("/");
    reveal_strlit(".");
    reveal_strlit("..");
    let aliased = "yasumu:virtual/"@ + key;
    let resolved = virtual_full_prefix() + key;
    assert("yasumu:"@.len() == 7 && "yasumu:virtual/"@.len() == 15
        && "file://yasumu_internal/"@.len() == 23 && virtual_full_prefix().len() == 38
        && "file://"@.len() == 7 && "https://"@.len() == 8 && "/"@.len() == 1 && "."@.len() == 1
        && ".."@.len() == 2);
    assert("yasumu:"@.is_prefix_of(aliased)) by {
        assert(aliased.take(7) =~= "yasumu:"@);
    }
    assert("file://yasumu_internal/"@ + aliased =~= resolved);
    assert("file://"@.is_prefix_of(resolved)) by {
        assert(resolved.take(7) =~= "file://"@);
    }
    assert(scheme_marker_len(resolved) == 7);
    // the origin ends at the slash after the authority
    let after = resolved.skip(7);
    assert(after[15] == '/');
    assert forall|j: int| 0 <= j < 15 implies after[j] != '/' by {
        assert(after[j] == resolved[j + 7]);
    }
    crate::strutil::lemma_find_char_some(after, '/', 15);
    assert(origin_end(resolved) == 22);
    // the path begins at the authority's end and splits into the virtual
    // namespace segment followed by the key's own segments
    let path = resolved.skip(22);
    assert(path.len() == 16 + key.len());
    let body = path.skip(1);
    assert(body =~= resolved.skip(23));
    assert(body.len() == 15 + key.len());
    assert(body[14] == '/');
    assert forall|j: int| 0 <= j < 14 implies body[j] != '/' by {
        assert(body[j] == resolved[j + 23]);
    }
    crate::strutil::lemma_find_char_some(body, '/', 14);
    let head = body.take(14);
    let tail = body.skip(15);
    assert(tail =~= key);
    assert(split_slash(body) == seq![head] + split_slash(key));
    // no segment is a dot segment, so normalization keeps them all
    let segs = seq![head] + split_slash(key);
    assert(head.len() == 14);
    assert forall|i: int|
        0 <= i < segs.len() implies #[trigger] segs[i] != "."@ && segs[i] != ".."@ by {
        if i >= 1 {
            assert(segs[i] == split_slash(key)[i - 1]);
        }
    }
    crate::resolve::lemma_normalize_plain(segs);
    crate::resolve::lemma_split_nonempty(key);
    crate::resolve::lemma_join_cons(head, split_slash(key));
    crate::resolve::lemma_join_split(key);
    assert(join_slash(normalize_segs(split_slash(body))) == head + "/"@ + key);
    // normalization reassembles exactly the resolved specifier
    assert(origin_of(resolved) + "/"@ + (head + "/"@ + key) =~= resolved);
    assert(normalize_absolute_spec(resolved) == Ok::<Seq<char>, ResolutionError>(resolved));
    // load planning then finds the key in the virtual registry
    assert(virtual_full_prefix().is_prefix_of(resolved)) by {
        assert(resolved.take(38) =~= virtual_full_prefix());
    }
    assert(resolved.skip(38) =~= key);
}

/// The module kind and transpilation need of a media kind.
pub fn media_module_plan(media: MediaKind) -> (r: Option<(ModuleKind, bool)>)
    ensures
        r == module_plan_of_media(media),
{
    match media {
        MediaKind::JavaScript => Some((ModuleKind::JavaScript, false)),
        MediaKind::Mjs => Some((ModuleKind::JavaScript, false)),
        MediaKind::Cjs => Some((ModuleKind::JavaScript, false)),
        MediaKind::Jsx => Some((ModuleKind::JavaScript, true)),
        MediaKind::TypeScript => Some((ModuleKind::JavaScript, true)),
        MediaKind::Mts => Some((ModuleKind::JavaScript, true)),
        MediaKind::Cts => Some((ModuleKind::JavaScript, true)),
        MediaKind::Dts => Some((ModuleKind::JavaScript, true)),
        MediaKind::Tsx => Some((ModuleKind::JavaScript, true)),
        MediaKind::Json => Some((ModuleKind::Json, false)),
        MediaKind::Unknown => None,
    }
}

} // verus!
