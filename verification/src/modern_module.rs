//! The `modern-module` library output: the entry module's exports become
//! ESM `export` statements.
use vstd::prelude::*;
use vstd::string::*;

use crate::identifier::{spec_to_identifier, to_identifier};
use crate::dependency::DependencyIdAllocator;
use crate::module_graph::{
    dependencies_appended, graph_state, ids_below, module_ids_unique, new_ids_fresh, rewrites_defined, rewrite_external_imports, rewrite_imports, GraphModule,
    ModuleGraph, ModuleIdentifier, ModuleKind,
};
use crate::plugin::{taps_view, ApplyContext, HookName, PluginError};
use crate::runtime::{
    in_some_runtime, merge_runtime, module_id_set, module_id_set_contains, module_id_set_insert,
    module_id_set_new, runtime_names, RuntimeSpec,
};
use crate::text::{contains_seq, contains_str};
use crate::text::{contains_any_char, has_any_char, owned};

verus! {

/// The name of the plugin.
pub open spec fn plugin_name() -> Seq<char> {
    "rspack.ModernModuleLibraryPlugin"@
}

/// The library type that this plugin serves.
pub open spec fn modern_module_type() -> Seq<char> {
    "modern-module"@
}

/// The part of every library-name error that tells where names are set.
pub open spec fn common_library_name_message() -> Seq<char> {
    "Common configuration options that specific library names are 'output.library[.name]', 'entry.xyz.library[.name]', 'ModuleFederationPlugin.name' and 'ModuleFederationPlugin.library[.name]'."@
}

/// The error raised where a `modern-module` library is given a name.
pub open spec fn library_name_error() -> Seq<char> {
    "Library name must be unset. "@ + common_library_name_message()
}

/// The library options of a chunk.
pub struct LibraryOptions {
    pub name: Option<String>,
    pub library_type: String,
}

/// The generated startup code of a module.
pub struct RenderSource {
    pub source: String,
}

/// One export of the entry module: its name, and the name it is used under.
pub struct ExportInfo {
    pub name: String,
    pub used_name: String,
}

/// What `get_options_for_chunk` decides: `Ok(None)` where the chunk is not a
/// `modern-module` library, an error where such a library has a name.
pub open spec fn spec_options_for_chunk(library: Option<LibraryOptions>) -> Result<Option<()>, Seq<char>> {
    match library {
        None => Ok(None),
        Some(l) => if l.library_type@ != modern_module_type() {
            Ok(None)
        } else if l.name is Some {
            Err(library_name_error())
        } else {
            Ok(Some(()))
        },
    }
}

pub open spec fn options_result_view(r: Result<Option<()>, PluginError>) -> Result<Option<()>, Seq<char>> {
    match r {
        Ok(o) => Ok(o),
        Err(e) => Err(e.message@),
    }
}

/// The index of the first entry of `names` at or after `from` keyed `key`,
/// or `names.len()`.
pub open spec fn first_name_index(names: Seq<(String, String)>, key: Seq<char>, from: int) -> int
    decreases names.len() - from,
{
    if from >= names.len() {
        names.len() as int
    } else if names[from].0@ == key {
        from
    } else {
        first_name_index(names, key, from + 1)
    }
}

/// The final name of the export used as `used`, if there is one.
pub open spec fn final_name_of(names: Seq<(String, String)>, used: Seq<char>) -> Option<Seq<char>> {
    let k = first_name_index(names, used, 0);
    if k < names.len() {
        Some(names[k].1@)
    } else {
        None
    }
}

/// The used names keyed in `names` are distinct, as the keys of a map.
pub open spec fn final_names_unique(names: Seq<(String, String)>) -> bool {
    forall|i: int, j: int| 0 <= i < j < names.len() ==> (#[trigger] names[i]).0@ != (#[trigger] names[j]).0@
}

proof fn lemma_first_name_reaches(names: Seq<(String, String)>, key: Seq<char>, from: int, i: int)
    requires
        final_names_unique(names),
        0 <= from <= i < names.len(),
        names[i].0@ == key,
    ensures
        first_name_index(names, key, from) == i,
    decreases i - from,
{
    if from < i {
        assert(names[from].0@ != names[i].0@);
        lemma_first_name_reaches(names, key, from + 1, i);
    }
}

/// With distinct used names, the final names are looked up as a map: the
/// final name of `names[i].0` is `names[i].1`.
pub proof fn lemma_final_name_is_map(names: Seq<(String, String)>, i: int)
    requires
        final_names_unique(names),
        0 <= i < names.len(),
    ensures
        final_name_of(names, names[i].0@) == Some(names[i].1@),
{
    lemma_first_name_reaches(names, names[i].0@, 0, i);
}

/// The characters that show a property access in a final name.
pub open spec fn property_access_chars() -> Seq<char> {
    "[]()."@
}

/// The export item of a final name that is a plain variable: the name alone
/// where both are the same, else `<final> as <name>`.
pub open spec fn plain_export_item(final_name: Seq<char>, name: Seq<char>) -> Seq<char> {
    if name == final_name {
        name
    } else {
        final_name + " as "@ + name
    }
}

/// The export items of the first `n` exports whose final names are plain
/// variables, in order.
pub open spec fn plain_exports(exports: Seq<ExportInfo>, names: Seq<(String, String)>, n: int) -> Seq<Seq<char>>
    decreases n,
{
    if n <= 0 {
        Seq::empty()
    } else {
        let prev = plain_exports(exports, names, n - 1);
        let e = exports[n - 1];
        match final_name_of(names, e.used_name@) {
            Some(f) => if has_any_char(f, property_access_chars()) {
                prev
            } else {
                prev.push(plain_export_item(f, e.name@))
            },
            None => prev,
        }
    }
}

/// The (final name, name) pairs of the first `n` exports whose final names
/// access a property, in order.
pub open spec fn property_exports(exports: Seq<ExportInfo>, names: Seq<(String, String)>, n: int) -> Seq<(Seq<char>, Seq<char>)>
    decreases n,
{
    if n <= 0 {
        Seq::empty()
    } else {
        let prev = property_exports(exports, names, n - 1);
        let e = exports[n - 1];
        match final_name_of(names, e.used_name@) {
            Some(f) => if has_any_char(f, property_access_chars()) {
                prev.push((f, e.name@))
            } else {
                prev
            },
            None => prev,
        }
    }
}

/// The variable that holds an export whose final name accesses a property.
pub open spec fn export_var_name(name: Seq<char>) -> Seq<char> {
    "__webpack_exports__"@ + spec_to_identifier(name)
}

/// `var <var> = <final>;` and a line break.
pub open spec fn export_var_declaration(final_name: Seq<char>, name: Seq<char>) -> Seq<char> {
    "var "@ + export_var_name(name) + " = "@ + final_name + ";\n"@
}

/// The declarations of the first `n` property exports.
pub open spec fn declarations(props: Seq<(Seq<char>, Seq<char>)>, n: int) -> Seq<char>
    decreases n,
{
    if n <= 0 {
        Seq::empty()
    } else {
        declarations(props, n - 1) + export_var_declaration(props[n - 1].0, props[n - 1].1)
    }
}

/// The export items of the property exports: `<var> as <name>`.
pub open spec fn property_export_items(props: Seq<(Seq<char>, Seq<char>)>) -> Seq<Seq<char>> {
    props.map_values(|p: (Seq<char>, Seq<char>)| export_var_name(p.1) + " as "@ + p.1)
}

/// The first `n` items, separated by `sep`.
pub open spec fn join(items: Seq<Seq<char>>, sep: Seq<char>, n: int) -> Seq<char>
    decreases n,
{
    if n <= 0 {
        Seq::empty()
    } else if n == 1 {
        items[0]
    } else {
        join(items, sep, n - 1) + sep + items[n - 1]
    }
}

/// `export { a, b as c };` and a line break, or nothing where there are no
/// items.
pub open spec fn export_statement(items: Seq<Seq<char>>) -> Seq<char> {
    if items.len() == 0 {
        Seq::empty()
    } else {
        "export { "@ + join(items, ", "@, items.len() as int) + " };\n"@
    }
}

/// What the startup code becomes: the declarations of the property exports
/// and the export statement follow the inner code.
pub open spec fn spec_render_exports(
    source: Seq<char>,
    exports: Seq<ExportInfo>,
    final_names: Option<Seq<(String, String)>>,
) -> Seq<char> {
    match final_names {
        None => source,
        Some(names) => {
            let plain = plain_exports(exports, names, exports.len() as int);
            let props = property_exports(exports, names, exports.len() as int);
            source + declarations(props, props.len() as int) + export_statement(
                plain + property_export_items(props),
            )
        },
    }
}

/// The final name of the export used as `used`.
fn lookup_final_name<'a>(names: &'a Vec<(String, String)>, used: &String) -> (r: Option<&'a String>)
    ensures
        match r {
            Some(f) => final_name_of(names@, used@) == Some(f@),
            None => final_name_of(names@, used@) is None,
        },
{
    let mut i: usize = 0;
    while i < names.len()
        invariant
            i <= names@.len(),
            first_name_index(names@, used@, 0) == first_name_index(names@, used@, i as int),
        decreases names@.len() - i,
    {
        if names[i].0 == *used {
            return Some(&names[i].1);
        }
        i = i + 1;
    }
    None
}

/// `items[0..n]` joined by `", "`.
fn join_items(items: &Vec<String>) -> (r: String)
    ensures
        r@ == join(items@.map_values(|s: String| s@), ", "@, items@.len() as int),
{
    let ghost v = items@.map_values(|s: String| s@);
    let mut r = String::new();
    let mut i: usize = 0;
    while i < items.len()
        invariant
            i <= items@.len(),
            v == items@.map_values(|s: String| s@),
            r@ == join(v, ", "@, i as int),
        decreases items@.len() - i,
    {
        if i > 0 {
            r.append(", ");
        }
        r.append(items[i].as_str());
        i = i + 1;
    }
    r
}

/// The plugin that emits a `modern-module` library.
#[derive(Debug, Default, Clone, Copy)]
pub struct ModernModuleLibraryPlugin;

impl ModernModuleLibraryPlugin {
    /// The name of the plugin.
    pub fn name(&self) -> (r: &'static str)
        ensures
            r@ == plugin_name(),
    {
        "rspack.ModernModuleLibraryPlugin"
    }

    /// A `modern-module` library must not be named.
    pub fn parse_options(&self, library: &LibraryOptions) -> (r: Result<(), PluginError>)
        ensures
            r is Ok <==> library.name is None,
            r matches Err(e) ==> e.message@ == library_name_error(),
    {
        if library.name.is_some() {
            let mut message = String::from_str("Library name must be unset. ");
            message.append(
                "Common configuration options that specific library names are 'output.library[.name]', 'entry.xyz.library[.name]', 'ModuleFederationPlugin.name' and 'ModuleFederationPlugin.library[.name]'.",
            );
            return Err(PluginError { message });
        }
        Ok(())
    }

    /// Whether the chunk, whose library options are `library`, is a
    /// `modern-module` library (`Ok(Some(()))`); an error where such a library
    /// is named.
    pub fn get_options_for_chunk(&self, library: Option<&LibraryOptions>) -> (r: Result<Option<()>, PluginError>)
        ensures
            options_result_view(r) == spec_options_for_chunk(
                match library {
                    Some(l) => Some(*l),
                    None => None,
                },
            ),
    {
        match library {
            None => Ok(None),
            Some(l) => {
                let t = owned("modern-module");
                if l.library_type == t {
                    match self.parse_options(l) {
                        Ok(()) => Ok(Some(())),
                        Err(e) => Err(e),
                    }
                } else {
                    Ok(None)
                }
            },
        }
    }

    /// Appends the exports of the entry module to its startup code: exports
    /// whose final name accesses a property are first bound to a variable
    /// `__webpack_exports__<identifier>`; then one `export { .. };` lists
    /// every export. Nothing changes where the chunk is not a `modern-module`
    /// library; a named library is an error.
    pub fn render_startup(
        &self,
        library: Option<&LibraryOptions>,
        ordered_exports: &Vec<ExportInfo>,
        exports_final_names: Option<&Vec<(String, String)>>,
        render_source: &mut RenderSource,
    ) -> (r: Result<(), PluginError>)
        ensures
            ({
                let lib = match library {
                    Some(l) => Some(*l),
                    None => None,
                };
                match spec_options_for_chunk(lib) {
                    Err(m) => r matches Err(e) && e.message@ == m && final(render_source).source
                        == old(render_source).source,
                    Ok(None) => r is Ok && final(render_source).source == old(render_source).source,
                    Ok(Some(_)) => r is Ok && final(render_source).source@ == spec_render_exports(
                        old(render_source).source@,
                        ordered_exports@,
                        match exports_final_names {
                            Some(n) => Some(n@),
                            None => None,
                        },
                    ),
                }
            }),
    {
        match self.get_options_for_chunk(library) {
            Err(e) => {
                return Err(e);
            },
            Ok(None) => {
                return Ok(());
            },
            Ok(Some(())) => {},
        }
        let mut source = render_source.source.clone();
        let names = match exports_final_names {
            None => {
                render_source.source = source;
                return Ok(());
            },
            Some(n) => n,
        };
        let mut exports: Vec<String> = Vec::new();
        let mut property_access: Vec<(String, String)> = Vec::new();
        let ghost ex = ordered_exports@;
        let mut i: usize = 0;
        while i < ordered_exports.len()
            invariant
                i <= ex.len(),
                ex == ordered_exports@,
                exports@.map_values(|s: String| s@) == plain_exports(ex, names@, i as int),
                property_access@.map_values(|p: (String, String)| (p.0@, p.1@)) == property_exports(
                    ex,
                    names@,
                    i as int,
                ),
            decreases ex.len() - i,
        {
            let info = &ordered_exports[i];
            let ghost prev_e = exports@;
            let ghost prev_p = property_access@;
            match lookup_final_name(names, &info.used_name) {
                Some(final_name) => {
                    if contains_any_char(final_name.as_str(), "[]().") {
                        property_access.push((final_name.clone(), info.name.clone()));
                        assert(property_access@.map_values(|p: (String, String)| (p.0@, p.1@))
                            =~= prev_p.map_values(|p: (String, String)| (p.0@, p.1@)).push(
                            (final_name@, info.name@),
                        ));
                        assert(exports@ == prev_e);
                    } else if info.name == *final_name {
                        exports.push(info.name.clone());
                        assert(exports@.map_values(|s: String| s@) =~= prev_e.map_values(
                            |s: String| s@,
                        ).push(info.name@));
                    } else {
                        let mut item = final_name.clone();
                        item.append(" as ");
                        item.append(info.name.as_str());
                        exports.push(item);
                        assert(exports@.map_values(|s: String| s@) =~= prev_e.map_values(
                            |s: String| s@,
                        ).push(plain_export_item(final_name@, info.name@)));
                    }
                },
                None => {},
            }
            i = i + 1;
        }
        let ghost plain = exports@.map_values(|s: String| s@);
        let ghost props = property_access@.map_values(|p: (String, String)| (p.0@, p.1@));
        let mut j: usize = 0;
        while j < property_access.len()
            invariant
                j <= property_access@.len(),
                props == property_access@.map_values(|p: (String, String)| (p.0@, p.1@)),
                source@ == old(render_source).source@ + declarations(props, j as int),
                exports@.map_values(|s: String| s@) == plain + property_export_items(props).take(
                    j as int,
                ),
            decreases property_access@.len() - j,
        {
            let ghost prev_e = exports@;
            let final_name = &property_access[j].0;
            let info_name = &property_access[j].1;
            let mut var_name = String::from_str("__webpack_exports__");
            var_name.append(to_identifier(info_name.as_str()).as_str());
            source.append("var ");
            source.append(var_name.as_str());
            source.append(" = ");
            source.append(final_name.as_str());
            source.append(";\n");
            let mut item = var_name;
            item.append(" as ");
            item.append(info_name.as_str());
            exports.push(item);
            assert(property_export_items(props).take(j + 1) =~= property_export_items(props).take(
                j as int,
            ).push(export_var_name(props[j as int].1) + " as "@ + props[j as int].1));
            assert(exports@.map_values(|s: String| s@) =~= prev_e.map_values(|s: String| s@).push(
                export_var_name(props[j as int].1) + " as "@ + props[j as int].1,
            ));
            j = j + 1;
        }
        assert(property_export_items(props).take(props.len() as int) =~= property_export_items(props));
        if exports.len() > 0 {
            source.append("export { ");
            source.append(join_items(&exports).as_str());
            source.append(" };\n");
        }
        render_source.source = source;
        Ok(())
    }
}

/// The runtimes of the chunks that each module belongs to.
pub struct ChunkGraph {
    pub module_runtimes: Vec<(ModuleIdentifier, Vec<RuntimeSpec>)>,
}

/// The index of the first entry at or after `from` for module `m`, or the
/// number of entries.
pub open spec fn chunk_entry_index(entries: Seq<(ModuleIdentifier, Vec<RuntimeSpec>)>, m: ModuleIdentifier, from: int) -> int
    decreases entries.len() - from,
{
    if from >= entries.len() {
        entries.len() as int
    } else if entries[from].0 == m {
        from
    } else {
        chunk_entry_index(entries, m, from + 1)
    }
}

/// Every module to concatenate by itself (see `forced_modules`) belongs to
/// the chunk graph.
pub open spec fn chunk_graph_covers(cg: ChunkGraph, modules: Seq<GraphModule>) -> bool {
    forall|i: int|
        0 <= i < modules.len() && !is_concatenated(modules, modules[i].id, modules.len() as int)
            && bailout_allows(#[trigger] modules[i]) ==> chunk_entry_index(
            cg.module_runtimes@,
            modules[i].id,
            0,
        ) < cg.module_runtimes@.len()
}

/// The runtimes of the chunks of module `m`.
pub open spec fn module_runtimes(cg: ChunkGraph, m: ModuleIdentifier) -> Seq<RuntimeSpec> {
    cg.module_runtimes@[chunk_entry_index(cg.module_runtimes@, m, 0)].1@
}

/// A module to concatenate by itself, in the given runtime.
pub struct ConcatConfiguration {
    pub root_module: ModuleIdentifier,
    pub runtime: Option<RuntimeSpec>,
}

/// The configuration's runtime is the union of the runtimes of the chunks
/// of its module, each named once.
pub open spec fn configuration_runtime(cg: ChunkGraph, c: ConcatConfiguration) -> bool {
    match c.runtime {
        Some(rt) => {
            &&& runtime_names(rt).no_duplicates()
            &&& forall|x: Seq<char>| runtime_names(rt).contains(x) <==> in_some_runtime(
                module_runtimes(cg, c.root_module),
                x,
                module_runtimes(cg, c.root_module).len() as int,
            )
        },
        None => false,
    }
}

/// Whether `x` is, among the first `n` modules, a concatenated module or
/// one of its inner modules.
pub open spec fn is_concatenated(modules: Seq<GraphModule>, x: ModuleIdentifier, n: int) -> bool
    decreases n,
{
    if n <= 0 {
        false
    } else {
        is_concatenated(modules, x, n - 1) || match modules[n - 1].kind {
            ModuleKind::Concatenated(inner) => modules[n - 1].id == x || inner@.contains(x),
            _ => false,
        }
    }
}

/// The reason that does not keep a module from being concatenated.
pub open spec fn entry_point_reason() -> Seq<char> {
    "Module is an entry point"@
}

/// Every reason why `m` was not concatenated is that it is an entry point.
pub open spec fn bailout_allows(m: GraphModule) -> bool {
    forall|i: int| 0 <= i < m.optimization_bailout@.len() ==> contains_seq(#[trigger] m.optimization_bailout@[i]@, entry_point_reason())
}

/// Among the first `n` modules, in order, those to concatenate by
/// themselves: not concatenated, and kept out only for being entry points.
pub open spec fn forced_modules(modules: Seq<GraphModule>, n: int) -> Seq<ModuleIdentifier>
    decreases n,
{
    if n <= 0 {
        Seq::empty()
    } else {
        let prev = forced_modules(modules, n - 1);
        let m = modules[n - 1];
        if !is_concatenated(modules, m.id, modules.len() as int) && bailout_allows(m) {
            prev.push(m.id)
        } else {
            prev
        }
    }
}

/// Whether all reasons are that the module is an entry point.
fn only_entry_point_reasons(m: &GraphModule) -> (r: bool)
    ensures
        r == bailout_allows(*m),
{
    let reasons = &m.optimization_bailout;
    let mut i: usize = 0;
    while i < reasons.len()
        invariant
            i <= reasons@.len(),
            reasons@ == m.optimization_bailout@,
            forall|j: int| 0 <= j < i ==> contains_seq(#[trigger] reasons@[j]@, entry_point_reason()),
        decreases reasons@.len() - i,
    {
        if !contains_str(reasons[i].as_str(), "Module is an entry point") {
            return false;
        }
        i = i + 1;
    }
    true
}

/// The merged runtime of the chunks of module `m`.
fn chunk_runtime(cg: &ChunkGraph, m: ModuleIdentifier) -> (r: RuntimeSpec)
    requires
        chunk_entry_index(cg.module_runtimes@, m, 0) < cg.module_runtimes@.len(),
    ensures
        forall|x: Seq<char>| runtime_names(r).contains(x) <==> in_some_runtime(module_runtimes(*cg, m), x, module_runtimes(*cg, m).len() as int),
        runtime_names(r).no_duplicates(),
{
    let entries = &cg.module_runtimes;
    let mut k: usize = 0;
    while k < entries.len() && entries[k].0 != m
        invariant
            k <= entries@.len(),
            entries@ == cg.module_runtimes@,
            chunk_entry_index(entries@, m, 0) == chunk_entry_index(entries@, m, k as int),
        decreases entries@.len() - k,
    {
        k = k + 1;
    }
    assert(k < entries@.len() && entries@[k as int].0 == m && chunk_entry_index(entries@, m, 0) == k);
    let runtimes = &entries[k].1;
    let mut acc = RuntimeSpec::new();
    assert(runtime_names(acc) =~= Seq::<Seq<char>>::empty());
    let mut i: usize = 0;
    while i < runtimes.len()
        invariant
            i <= runtimes@.len(),
            runtimes@ == module_runtimes(*cg, m),
            forall|x: Seq<char>| runtime_names(acc).contains(x) <==> in_some_runtime(runtimes@, x, i as int),
            runtime_names(acc).no_duplicates(),
        decreases runtimes@.len() - i,
    {
        acc = merge_runtime(&acc, &runtimes[i]);
        i = i + 1;
    }
    acc
}

impl ModernModuleLibraryPlugin {
    /// Rewrites the dynamic imports that external modules resolve into
    /// imports of the external requests (see `rewrite_external_imports`).
    pub fn finish_modules(&self, graph: &mut ModuleGraph, ids: &mut DependencyIdAllocator) -> (r: Result<(), PluginError>)
        requires
            module_ids_unique(old(graph).modules@),
            rewrites_defined(
                old(graph).modules@,
                graph_state(*old(graph), *old(ids)),
                old(graph).modules@.len() as int,
            ),
        ensures
            r is Ok,
            final(graph).modules@ == old(graph).modules@,
            graph_state(*final(graph), *final(ids)) == rewrite_imports(
                old(graph).modules@,
                graph_state(*old(graph), *old(ids)),
                old(graph).modules@.len() as int,
            ),
            dependencies_appended(graph_state(*old(graph), *old(ids)), graph_state(*final(graph), *final(ids))),
            ids_below(graph_state(*old(graph), *old(ids)), old(ids).next()) && old(ids).next() + (
            final(graph).dependencies@.len() - old(graph).dependencies@.len()) <= u32::MAX ==> new_ids_fresh(
                graph_state(*old(graph), *old(ids)),
                graph_state(*final(graph), *final(ids)),
            ),
    {
        rewrite_external_imports(graph, ids);
        Ok(())
    }

    /// The modules to concatenate by themselves, so that every chunk gets the
    /// runtime optimizations of concatenated modules: in module order, those
    /// that are neither concatenated nor inside a concatenated module, and
    /// were kept from concatenation only for being entry points; each in the
    /// union of the runtimes of its chunks.
    pub fn optimize_chunk_modules_impl(&self, graph: &ModuleGraph, chunk_graph: &ChunkGraph) -> (r: Vec<ConcatConfiguration>)
        requires
            module_ids_unique(graph.modules@),
            chunk_graph_covers(*chunk_graph, graph.modules@),
        ensures
            r@.map_values(|c: ConcatConfiguration| c.root_module) == forced_modules(graph.modules@, graph.modules@.len() as int),
            forall|j: int| 0 <= j < r@.len() ==> configuration_runtime(*chunk_graph, #[trigger] r@[j]),
    {
        let modules = &graph.modules;
        let mut concatenated = module_id_set_new();
        let mut i: usize = 0;
        while i < modules.len()
            invariant
                i <= modules@.len(),
                forall|x: ModuleIdentifier| module_id_set(concatenated).contains(x) <==> is_concatenated(modules@, x, i as int),
            decreases modules@.len() - i,
        {
            if let ModuleKind::Concatenated(inner) = &modules[i].kind {
                let ghost before = module_id_set(concatenated);
                module_id_set_insert(&mut concatenated, modules[i].id);
                let mut k: usize = 0;
                while k < inner.len()
                    invariant
                        k <= inner@.len(),
                        module_id_set(concatenated) == before.insert(modules@[i as int].id).union(inner@.take(k as int).to_set()),
                    decreases inner@.len() - k,
                {
                    module_id_set_insert(&mut concatenated, inner[k]);
                    assert(inner@.take(k + 1).to_set() =~= inner@.take(k as int).to_set().insert(inner@[k as int])) by {
                        assert(inner@.take(k + 1) =~= inner@.take(k as int).push(inner@[k as int]));
                        inner@.take(k as int).lemma_push_to_set_commute(inner@[k as int]);
                    }
                    assert(module_id_set(concatenated) =~= before.insert(modules@[i as int].id).union(inner@.take(k + 1).to_set()));
                    k = k + 1;
                }
                assert(inner@.take(inner@.len() as int) =~= inner@);
                assert forall|x: ModuleIdentifier| module_id_set(concatenated).contains(x) <==> is_concatenated(modules@, x, i + 1) by {
                    if inner@.contains(x) {
                        assert(inner@.to_set().contains(x));
                    }
                    if inner@.to_set().contains(x) {
                        assert(inner@.contains(x));
                    }
                }
            }
            i = i + 1;
        }
        let mut r: Vec<ConcatConfiguration> = Vec::new();
        let mut i: usize = 0;
        while i < modules.len()
            invariant
                i <= modules@.len(),
                modules@ == graph.modules@,
                chunk_graph_covers(*chunk_graph, graph.modules@),
                forall|x: ModuleIdentifier| module_id_set(concatenated).contains(x) <==> is_concatenated(modules@, x, modules@.len() as int),
                r@.map_values(|c: ConcatConfiguration| c.root_module) == forced_modules(modules@, i as int),
                forall|j: int| 0 <= j < r@.len() ==> configuration_runtime(*chunk_graph, #[trigger] r@[j]),
            decreases modules@.len() - i,
        {
            let m = &modules[i];
            if !module_id_set_contains(&concatenated, m.id) && only_entry_point_reasons(m) {
                let runtime = chunk_runtime(chunk_graph, m.id);
                let ghost prev = r@;
                r.push(ConcatConfiguration { root_module: m.id, runtime: Some(runtime) });
                assert(r@.map_values(|c: ConcatConfiguration| c.root_module) =~= prev.map_values(
                    |c: ConcatConfiguration| c.root_module,
                ).push(m.id));
            }
            i = i + 1;
        }
        r
    }

    /// The chunk-module optimization hook: queues the configurations of
    /// `optimize_chunk_modules_impl`, after those already queued, for the
    /// concatenation step, and answers `Ok(None)` (it does not stop the
    /// optimization).
    pub fn optimize_chunk_modules(
        &self,
        graph: &ModuleGraph,
        chunk_graph: &ChunkGraph,
        configurations: &mut Vec<ConcatConfiguration>,
    ) -> (r: Result<Option<bool>, PluginError>)
        requires
            module_ids_unique(graph.modules@),
            chunk_graph_covers(*chunk_graph, graph.modules@),
        ensures
            r matches Ok(None),
            final(configurations)@.take(old(configurations)@.len() as int) == old(configurations)@,
            final(configurations)@.skip(old(configurations)@.len() as int).map_values(
                |c: ConcatConfiguration| c.root_module,
            ) == forced_modules(graph.modules@, graph.modules@.len() as int),
            forall|j: int|
                old(configurations)@.len() <= j < final(configurations)@.len() ==> configuration_runtime(
                    *chunk_graph,
                    #[trigger] final(configurations)@[j],
                ),
    {
        let mut found = self.optimize_chunk_modules_impl(graph, chunk_graph);
        let ghost prev = configurations@;
        let ghost added = found@;
        configurations.append(&mut found);
        assert(configurations@.take(prev.len() as int) =~= prev);
        assert(configurations@.skip(prev.len() as int) =~= added);
        assert forall|j: int| prev.len() <= j < configurations@.len() implies configuration_runtime(
            *chunk_graph,
            #[trigger] configurations@[j],
        ) by {
            assert(configurations@[j] == added[j - prev.len()]);
        }
        Ok(None)
    }

    /// Adds the plugin's name to the chunk hash of a `modern-module` library
    /// chunk.
    pub fn js_chunk_hash(&self, library: Option<&LibraryOptions>, hasher: &mut ChunkHasher) -> (r: Result<(), PluginError>)
        ensures
            ({
                let lib = match library {
                    Some(l) => Some(*l),
                    None => None,
                };
                match spec_options_for_chunk(lib) {
                    Err(m) => r matches Err(e) && e.message@ == m && final(hasher).written@ == old(hasher).written@,
                    Ok(None) => r is Ok && final(hasher).written@ == old(hasher).written@,
                    Ok(Some(_)) => r is Ok && hasher_view(*final(hasher)) == hasher_view(*old(hasher)).push(plugin_name()),
                }
            }),
    {
        match self.get_options_for_chunk(library) {
            Err(e) => Err(e),
            Ok(None) => Ok(()),
            Ok(Some(())) => {
                hasher.write_str(self.name());
                Ok(())
            },
        }
    }

    /// Concatenated modules of this library keep their own export
    /// definitions (`Some(true)`).
    pub fn exports_definitions(&self, _exports_definitions: &mut Vec<(String, String)>) -> (r: Result<Option<bool>, PluginError>)
        ensures
            r matches Ok(Some(true)),
            final(_exports_definitions)@ == old(_exports_definitions)@,
    {
        Ok(Some(true))
    }

    /// At each compilation, taps the startup rendering and the chunk hash of
    /// JavaScript modules.
    pub fn compilation(&self, hooks: &mut ApplyContext) -> (r: Result<(), PluginError>)
        ensures
            r is Ok,
            taps_view(final(hooks).taps@) == taps_view(old(hooks).taps@).push(
                (HookName::JavascriptModulesRenderStartup, plugin_name()),
            ).push((HookName::JavascriptModulesChunkHash, plugin_name())),
    {
        hooks.tap(HookName::JavascriptModulesRenderStartup, self.name());
        hooks.tap(HookName::JavascriptModulesChunkHash, self.name());
        Ok(())
    }

    /// Taps the compilation, export definitions of concatenated modules,
    /// chunk module optimization and module finishing hooks.
    pub fn apply(&self, ctx: &mut ApplyContext) -> (r: Result<(), PluginError>)
        ensures
            r is Ok,
            taps_view(final(ctx).taps@) == taps_view(old(ctx).taps@).push(
                (HookName::CompilerCompilation, plugin_name()),
            ).push((HookName::ConcatenatedModuleExportsDefinitions, plugin_name())).push(
                (HookName::CompilationOptimizeChunkModules, plugin_name()),
            ).push((HookName::CompilationFinishModules, plugin_name())),
    {
        ctx.tap(HookName::CompilerCompilation, self.name());
        ctx.tap(HookName::ConcatenatedModuleExportsDefinitions, self.name());
        ctx.tap(HookName::CompilationOptimizeChunkModules, self.name());
        ctx.tap(HookName::CompilationFinishModules, self.name());
        Ok(())
    }
}

/// The chunk hasher: the strings written to it, in order.
pub struct ChunkHasher {
    pub written: Vec<String>,
}

pub open spec fn hasher_view(h: ChunkHasher) -> Seq<Seq<char>> {
    h.written@.map_values(|s: String| s@)
}

impl ChunkHasher {
    pub fn new() -> (r: Self)
        ensures
            r.written@.len() == 0,
    {
        ChunkHasher { written: Vec::new() }
    }

    /// Feeds a string to the hash.
    pub fn write_str(&mut self, s: &str)
        ensures
            hasher_view(*final(self)) == hasher_view(*old(self)).push(s@),
    {
        let ghost prev = self.written@;
        self.written.push(owned(s));
        assert(hasher_view(*self) =~= prev.map_values(|s: String| s@).push(s@));
    }
}

/// How many of the first `n` exports have a final name.
pub open spec fn named_exports(exports: Seq<ExportInfo>, names: Seq<(String, String)>, n: int) -> int
    decreases n,
{
    if n <= 0 {
        0
    } else {
        named_exports(exports, names, n - 1) + if final_name_of(names, exports[n - 1].used_name@) is Some {
            1int
        } else {
            0int
        }
    }
}

/// Every export that has a final name is listed once in the export
/// statement: as a plain item, or through its variable.
pub proof fn lemma_every_named_export_listed(exports: Seq<ExportInfo>, names: Seq<(String, String)>, n: int)
    requires
        0 <= n <= exports.len(),
    ensures
        plain_exports(exports, names, n).len() + property_export_items(property_exports(exports, names, n)).len()
            == named_exports(exports, names, n),
    decreases n,
{
    if n > 0 {
        lemma_every_named_export_listed(exports, names, n - 1);
    }
}

/// The modules to concatenate by themselves are modules of the graph that
/// are neither concatenated nor inside a concatenated module, and were kept
/// out only for being entry points.
pub proof fn lemma_forced_modules_are_lonely(modules: Seq<GraphModule>, n: int)
    requires
        0 <= n <= modules.len(),
    ensures
        forall|j: int|
            0 <= j < forced_modules(modules, n).len() ==> exists|i: int|
                0 <= i < n && modules[i].id == #[trigger] forced_modules(modules, n)[j] && !is_concatenated(
                    modules,
                    modules[i].id,
                    modules.len() as int,
                ) && bailout_allows(modules[i]),
    decreases n,
{
    if n > 0 {
        lemma_forced_modules_are_lonely(modules, n - 1);
        let prev = forced_modules(modules, n - 1);
        let cur = forced_modules(modules, n);
        assert forall|j: int| 0 <= j < cur.len() implies exists|i: int|
            0 <= i < n && modules[i].id == #[trigger] cur[j] && !is_concatenated(
                modules,
                modules[i].id,
                modules.len() as int,
            ) && bailout_allows(modules[i]) by {
            if j < prev.len() {
                assert(cur[j] == prev[j]);
                let i = choose|i: int|
                    0 <= i < n - 1 && modules[i].id == #[trigger] prev[j] && !is_concatenated(
                        modules,
                        modules[i].id,
                        modules.len() as int,
                    ) && bailout_allows(modules[i]);
                assert(modules[i].id == cur[j]);
            } else {
                assert(cur[j] == modules[n - 1].id);
            }
        }
    }
}

/// A module kept from concatenation for a reason other than being an entry
/// point is not concatenated by itself: where one of its bailout reasons does
/// not contain "Module is an entry point", its identity is not among the
/// forced modules.
pub proof fn lemma_other_bailout_not_forced(modules: Seq<GraphModule>, i: int, r: int)
    requires
        module_ids_unique(modules),
        0 <= i < modules.len(),
        0 <= r < modules[i].optimization_bailout@.len(),
        ({
            let reason = modules[i].optimization_bailout@[r]@;
            let needle = "Module is an entry point"@;
            !(exists|k: int| 0 <= k <= reason.len() - needle.len() && #[trigger] reason.subrange(k, k + needle.len()) == needle)
        }),
    ensures
        !forced_modules(modules, modules.len() as int).contains(modules[i].id),
{
    let forced = forced_modules(modules, modules.len() as int);
    if forced.contains(modules[i].id) {
        lemma_forced_modules_are_lonely(modules, modules.len() as int);
        let j = choose|j: int| 0 <= j < forced.len() && forced[j] == modules[i].id;
        let i2 = choose|i2: int|
            0 <= i2 < modules.len() && modules[i2].id == #[trigger] forced[j] && !is_concatenated(
                modules,
                modules[i2].id,
                modules.len() as int,
            ) && bailout_allows(modules[i2]);
        if i2 != i {
            if i2 < i {
                assert(modules[i2].id != modules[i].id);
            } else {
                assert(modules[i].id != modules[i2].id);
            }
        }
        assert(contains_seq(modules[i].optimization_bailout@[r]@, entry_point_reason()));
    }
}

} // verus!
