//! The hooks of the JavaScript modules plugin, and the drive that runs every
//! registered plugin at each of them.
use vstd::prelude::*;

use crate::dependency::InitFragment;
use crate::modern_module::ChunkHasher;
use crate::module_graph::ModuleIdentifier;
use crate::plugin::PluginError;
use crate::runtime::RuntimeSpec;

verus! {

/// The identity of a chunk.
#[derive(Clone, Copy, PartialEq, Eq, Structural, Debug)]
pub struct ChunkUkey {
    pub value: u32,
}

/// A chunk.
pub struct Chunk {
    pub ukey: ChunkUkey,
    pub runtime: RuntimeSpec,
}

/// The compilation, as far as the hooks read it: its chunks.
pub struct Compilation {
    pub chunk_by_ukey: Vec<Chunk>,
}

/// The index of the first chunk at or after `from` with identity `ukey`, or
/// the number of chunks.
pub open spec fn chunk_index(chunks: Seq<Chunk>, ukey: ChunkUkey, from: int) -> int
    decreases chunks.len() - from,
{
    if from >= chunks.len() {
        chunks.len() as int
    } else if chunks[from].ukey == ukey {
        from
    } else {
        chunk_index(chunks, ukey, from + 1)
    }
}

/// Whether the compilation has the chunk `ukey`.
pub open spec fn has_chunk(c: Compilation, ukey: ChunkUkey) -> bool {
    chunk_index(c.chunk_by_ukey@, ukey, 0) < c.chunk_by_ukey@.len()
}

/// The chunk `ukey` of the compilation.
pub open spec fn spec_chunk(c: Compilation, ukey: ChunkUkey) -> Chunk {
    c.chunk_by_ukey@[chunk_index(c.chunk_by_ukey@, ukey, 0)]
}

impl Compilation {
    /// The chunk `ukey`, which must exist.
    pub fn expect_chunk(&self, ukey: ChunkUkey) -> (r: &Chunk)
        requires
            has_chunk(*self, ukey),
        ensures
            *r == spec_chunk(*self, ukey),
    {
        let mut i: usize = 0;
        while i < self.chunk_by_ukey.len() && self.chunk_by_ukey[i].ukey != ukey
            invariant
                i <= self.chunk_by_ukey@.len(),
                chunk_index(self.chunk_by_ukey@, ukey, 0) == chunk_index(self.chunk_by_ukey@, ukey, i as int),
            decreases self.chunk_by_ukey@.len() - i,
        {
            i = i + 1;
        }
        &self.chunk_by_ukey[i]
    }
}

/// What rendering a chunk gets.
pub struct RenderJsChunkArgs<'a> {
    pub compilation: &'a Compilation,
    pub chunk_ukey: ChunkUkey,
    pub module_source: String,
}

impl<'me> RenderJsChunkArgs<'me> {
    pub fn chunk(&self) -> (r: &Chunk)
        requires
            has_chunk(*self.compilation, self.chunk_ukey),
        ensures
            *r == spec_chunk(*self.compilation, self.chunk_ukey),
    {
        self.compilation.expect_chunk(self.chunk_ukey)
    }
}

/// What rendering the content of a module gets, and gives back.
pub struct RenderJsModuleContentArgs<'a> {
    pub module_source: String,
    pub chunk_init_fragments: Vec<InitFragment>,
    pub compilation: &'a Compilation,
    pub module: ModuleIdentifier,
}

/// What rendering the startup code of a chunk gets.
pub struct RenderJsStartupArgs<'a> {
    pub compilation: &'a Compilation,
    pub chunk: ChunkUkey,
    pub module: ModuleIdentifier,
    pub source: String,
}

impl<'me> RenderJsStartupArgs<'me> {
    pub fn chunk(&self) -> (r: &Chunk)
        requires
            has_chunk(*self.compilation, self.chunk),
        ensures
            *r == spec_chunk(*self.compilation, self.chunk),
    {
        self.compilation.expect_chunk(self.chunk)
    }
}

/// What rendering the code of a chunk gets.
pub struct RenderJsArgs<'a> {
    pub source: &'a String,
    pub chunk: ChunkUkey,
    pub compilation: &'a Compilation,
}

impl<'me> RenderJsArgs<'me> {
    pub fn chunk(&self) -> (r: &Chunk)
        requires
            has_chunk(*self.compilation, self.chunk),
        ensures
            *r == spec_chunk(*self.compilation, self.chunk),
    {
        self.compilation.expect_chunk(self.chunk)
    }
}

/// What hashing a chunk gets: the hasher to feed.
pub struct JsChunkHashArgs<'a> {
    pub chunk_ukey: ChunkUkey,
    pub compilation: &'a Compilation,
    pub hasher: ChunkHasher,
}

impl<'me> JsChunkHashArgs<'me> {
    pub fn chunk(&self) -> (r: &Chunk)
        requires
            has_chunk(*self.compilation, self.chunk_ukey),
        ensures
            *r == spec_chunk(*self.compilation, self.chunk_ukey),
    {
        self.compilation.expect_chunk(self.chunk_ukey)
    }
}

/// The model of what a hook answers: an error message, no source, or a
/// source.
pub open spec fn answer_view(r: Result<Option<String>, PluginError>) -> Result<Option<Seq<char>>, Seq<char>> {
    match r {
        Ok(Some(s)) => Ok(Some(s@)),
        Ok(None) => Ok(None),
        Err(e) => Err(e.message@),
    }
}

pub open spec fn reason_view(r: Option<String>) -> Option<Seq<char>> {
    match r {
        Some(s) => Some(s@),
        None => None,
    }
}

/// The hooks of the JavaScript modules plugin that a plugin implements. Each
/// value-giving hook states its answer by a spec function of the plugin.
pub trait JavascriptModulesPluginPlugin: Send + Sync {
    open spec fn spec_render_chunk(&self, compilation: Compilation, chunk_ukey: ChunkUkey, module_source: Seq<char>) -> Result<Option<Seq<char>>, Seq<char>> {
        Ok(None)
    }

    open spec fn spec_render(&self, compilation: Compilation, chunk: ChunkUkey, source: Seq<char>) -> Result<Option<Seq<char>>, Seq<char>> {
        Ok(None)
    }

    open spec fn spec_render_startup(
        &self,
        compilation: Compilation,
        chunk: ChunkUkey,
        module: ModuleIdentifier,
        source: Seq<char>,
    ) -> Result<Option<Seq<char>>, Seq<char>> {
        Ok(None)
    }

    open spec fn spec_render_module_content<'a>(&self, args: RenderJsModuleContentArgs<'a>) -> Result<RenderJsModuleContentArgs<'a>, Seq<char>> {
        Ok(args)
    }

    open spec fn spec_js_chunk_hash(&self, compilation: Compilation, chunk_ukey: ChunkUkey, hasher: ChunkHasher) -> Result<ChunkHasher, Seq<char>> {
        Ok(hasher)
    }

    open spec fn spec_inline_in_runtime_bailout(&self) -> Option<Seq<char>> {
        None
    }

    open spec fn spec_embed_in_runtime_bailout(&self, compilation: Compilation, module: ModuleIdentifier, chunk: ChunkUkey) -> Result<Option<Seq<char>>, Seq<char>> {
        Ok(None)
    }

    open spec fn spec_strict_runtime_bailout(&self, compilation: Compilation, chunk_ukey: ChunkUkey) -> Result<Option<Seq<char>>, Seq<char>> {
        Ok(None)
    }

    /// Renders a chunk: a source replaces the chunk's code.
    fn render_chunk(&self, args: &RenderJsChunkArgs) -> (r: Result<Option<String>, PluginError>)
        ensures
            answer_view(r) == self.spec_render_chunk(*args.compilation, args.chunk_ukey, args.module_source@),
    ;

    /// Renders the code of a chunk.
    fn render(&self, args: &RenderJsArgs) -> (r: Result<Option<String>, PluginError>)
        ensures
            answer_view(r) == self.spec_render(*args.compilation, args.chunk, args.source@),
    ;

    /// Renders the startup code of a chunk: a source replaces the current one.
    fn render_startup(&self, args: &RenderJsStartupArgs) -> (r: Result<Option<String>, PluginError>)
        ensures
            answer_view(r) == self.spec_render_startup(*args.compilation, args.chunk, args.module, args.source@),
    ;

    /// Renders the content of a module.
    fn render_module_content<'a>(&'a self, args: RenderJsModuleContentArgs<'a>) -> (r: Result<RenderJsModuleContentArgs<'a>, PluginError>)
        ensures
            match self.spec_render_module_content(args) {
                Ok(a) => r == Ok::<RenderJsModuleContentArgs<'a>, PluginError>(a),
                Err(m) => r matches Err(e) && e.message@ == m,
            },
    ;

    /// Feeds the chunk's hash.
    fn js_chunk_hash(&self, args: &mut JsChunkHashArgs) -> (r: Result<(), PluginError>)
        ensures
            final(args).compilation == old(args).compilation,
            final(args).chunk_ukey == old(args).chunk_ukey,
            match self.spec_js_chunk_hash(*old(args).compilation, old(args).chunk_ukey, old(args).hasher) {
                Ok(h) => r is Ok && final(args).hasher == h,
                Err(m) => r matches Err(e) && e.message@ == m,
            },
    ;

    /// Why modules cannot be inlined into the runtime, if they cannot.
    fn inline_in_runtime_bailout(&self) -> (r: Option<String>)
        ensures
            reason_view(r) == self.spec_inline_in_runtime_bailout(),
    ;

    /// Why `module` cannot be embedded into the runtime of `chunk`, if it
    /// cannot.
    fn embed_in_runtime_bailout(&self, compilation: &Compilation, module: ModuleIdentifier, chunk: &Chunk) -> (r: Result<Option<String>, PluginError>)
        ensures
            answer_view(r) == self.spec_embed_in_runtime_bailout(*compilation, module, chunk.ukey),
    ;

    /// Why the runtime of a chunk cannot be in strict mode, if it cannot.
    fn strict_runtime_bailout(&self, compilation: &Compilation, chunk_ukey: ChunkUkey) -> (r: Result<Option<String>, PluginError>)
        ensures
            answer_view(r) == self.spec_strict_runtime_bailout(*compilation, chunk_ukey),
    ;
}

/// A shared plugin answers as the plugin it shares.
impl<T: JavascriptModulesPluginPlugin> JavascriptModulesPluginPlugin for std::sync::Arc<T> {
    open spec fn spec_render_chunk(&self, compilation: Compilation, chunk_ukey: ChunkUkey, module_source: Seq<char>) -> Result<Option<Seq<char>>, Seq<char>> {
        (**self).spec_render_chunk(compilation, chunk_ukey, module_source)
    }

    open spec fn spec_render(&self, compilation: Compilation, chunk: ChunkUkey, source: Seq<char>) -> Result<Option<Seq<char>>, Seq<char>> {
        (**self).spec_render(compilation, chunk, source)
    }

    open spec fn spec_render_startup(
        &self,
        compilation: Compilation,
        chunk: ChunkUkey,
        module: ModuleIdentifier,
        source: Seq<char>,
    ) -> Result<Option<Seq<char>>, Seq<char>> {
        (**self).spec_render_startup(compilation, chunk, module, source)
    }

    open spec fn spec_render_module_content<'a>(&self, args: RenderJsModuleContentArgs<'a>) -> Result<RenderJsModuleContentArgs<'a>, Seq<char>> {
        (**self).spec_render_module_content(args)
    }

    open spec fn spec_js_chunk_hash(&self, compilation: Compilation, chunk_ukey: ChunkUkey, hasher: ChunkHasher) -> Result<ChunkHasher, Seq<char>> {
        (**self).spec_js_chunk_hash(compilation, chunk_ukey, hasher)
    }

    open spec fn spec_inline_in_runtime_bailout(&self) -> Option<Seq<char>> {
        (**self).spec_inline_in_runtime_bailout()
    }

    open spec fn spec_embed_in_runtime_bailout(&self, compilation: Compilation, module: ModuleIdentifier, chunk: ChunkUkey) -> Result<Option<Seq<char>>, Seq<char>> {
        (**self).spec_embed_in_runtime_bailout(compilation, module, chunk)
    }

    open spec fn spec_strict_runtime_bailout(&self, compilation: Compilation, chunk_ukey: ChunkUkey) -> Result<Option<Seq<char>>, Seq<char>> {
        (**self).spec_strict_runtime_bailout(compilation, chunk_ukey)
    }

    fn render_chunk(&self, args: &RenderJsChunkArgs) -> (r: Result<Option<String>, PluginError>) {
        (**self).render_chunk(args)
    }

    fn render(&self, args: &RenderJsArgs) -> (r: Result<Option<String>, PluginError>) {
        (**self).render(args)
    }

    fn render_startup(&self, args: &RenderJsStartupArgs) -> (r: Result<Option<String>, PluginError>) {
        (**self).render_startup(args)
    }

    fn render_module_content<'a>(&'a self, args: RenderJsModuleContentArgs<'a>) -> (r: Result<RenderJsModuleContentArgs<'a>, PluginError>) {
        (**self).render_module_content(args)
    }

    fn js_chunk_hash(&self, args: &mut JsChunkHashArgs) -> (r: Result<(), PluginError>) {
        (**self).js_chunk_hash(args)
    }

    fn inline_in_runtime_bailout(&self) -> (r: Option<String>) {
        (**self).inline_in_runtime_bailout()
    }

    fn embed_in_runtime_bailout(&self, compilation: &Compilation, module: ModuleIdentifier, chunk: &Chunk) -> (r: Result<Option<String>, PluginError>) {
        (**self).embed_in_runtime_bailout(compilation, module, chunk)
    }

    fn strict_runtime_bailout(&self, compilation: &Compilation, chunk_ukey: ChunkUkey) -> (r: Result<Option<String>, PluginError>) {
        (**self).strict_runtime_bailout(compilation, chunk_ukey)
    }
}

pub type BoxJavascriptModulePluginPlugin = Box<dyn JavascriptModulesPluginPlugin>;

/// The first answer among `answers[from..]` that is an error or a source;
/// no source where there is none.
pub open spec fn first_answer(answers: Seq<Result<Option<Seq<char>>, Seq<char>>>, from: int) -> Result<Option<Seq<char>>, Seq<char>>
    decreases answers.len() - from,
{
    if from >= answers.len() {
        Ok(None)
    } else {
        match answers[from] {
            Ok(None) => first_answer(answers, from + 1),
            a => a,
        }
    }
}

/// The first reason among `reasons[from..]`, if any.
pub open spec fn first_reason(reasons: Seq<Option<Seq<char>>>, from: int) -> Option<Seq<char>>
    decreases reasons.len() - from,
{
    if from >= reasons.len() {
        None
    } else {
        match reasons[from] {
            None => first_reason(reasons, from + 1),
            r => r,
        }
    }
}

/// The startup code after the first `n` plugins: each is handed the
/// current code, and a source it gives replaces it; an error stops.
pub open spec fn startup_fold(
    plugins: Seq<BoxJavascriptModulePluginPlugin>,
    compilation: Compilation,
    chunk: ChunkUkey,
    module: ModuleIdentifier,
    source: Seq<char>,
    n: int,
) -> Result<Seq<char>, Seq<char>>
    decreases n,
{
    if n <= 0 {
        Ok(source)
    } else {
        match startup_fold(plugins, compilation, chunk, module, source, n - 1) {
            Err(e) => Err(e),
            Ok(s) => match plugins[n - 1].spec_render_startup(compilation, chunk, module, s) {
                Err(e) => Err(e),
                Ok(Some(t)) => Ok(t),
                Ok(None) => Ok(s),
            },
        }
    }
}

/// The module content after the first `n` plugins: each is handed what the
/// one before gave; an error stops.
pub open spec fn content_fold<'a>(
    plugins: Seq<BoxJavascriptModulePluginPlugin>,
    args: RenderJsModuleContentArgs<'a>,
    n: int,
) -> Result<RenderJsModuleContentArgs<'a>, Seq<char>>
    decreases n,
{
    if n <= 0 {
        Ok(args)
    } else {
        match content_fold(plugins, args, n - 1) {
            Err(e) => Err(e),
            Ok(a) => plugins[n - 1].spec_render_module_content(a),
        }
    }
}

/// The chunk hasher after the first `n` plugins fed it; an error stops.
pub open spec fn hash_fold(
    plugins: Seq<BoxJavascriptModulePluginPlugin>,
    compilation: Compilation,
    chunk_ukey: ChunkUkey,
    hasher: ChunkHasher,
    n: int,
) -> Result<ChunkHasher, Seq<char>>
    decreases n,
{
    if n <= 0 {
        Ok(hasher)
    } else {
        match hash_fold(plugins, compilation, chunk_ukey, hasher, n - 1) {
            Err(e) => Err(e),
            Ok(h) => plugins[n - 1].spec_js_chunk_hash(compilation, chunk_ukey, h),
        }
    }
}

proof fn lemma_content_fold_error_stands<'a>(
    plugins: Seq<BoxJavascriptModulePluginPlugin>,
    args: RenderJsModuleContentArgs<'a>,
    k: int,
    n: int,
)
    requires
        0 <= k <= n,
        content_fold(plugins, args, k) is Err,
    ensures
        content_fold(plugins, args, n) == content_fold(plugins, args, k),
    decreases n - k,
{
    if n > k {
        lemma_content_fold_error_stands(plugins, args, k, n - 1);
    }
}

proof fn lemma_hash_fold_error_stands(
    plugins: Seq<BoxJavascriptModulePluginPlugin>,
    compilation: Compilation,
    chunk_ukey: ChunkUkey,
    hasher: ChunkHasher,
    k: int,
    n: int,
)
    requires
        0 <= k <= n,
        hash_fold(plugins, compilation, chunk_ukey, hasher, k) is Err,
    ensures
        hash_fold(plugins, compilation, chunk_ukey, hasher, n) == hash_fold(plugins, compilation, chunk_ukey, hasher, k),
    decreases n - k,
{
    if n > k {
        lemma_hash_fold_error_stands(plugins, compilation, chunk_ukey, hasher, k, n - 1);
    }
}

/// Once a plugin fails, the failure stands.
proof fn lemma_startup_fold_error_stands(
    plugins: Seq<BoxJavascriptModulePluginPlugin>,
    compilation: Compilation,
    chunk: ChunkUkey,
    module: ModuleIdentifier,
    source: Seq<char>,
    k: int,
    n: int,
)
    requires
        0 <= k <= n,
        startup_fold(plugins, compilation, chunk, module, source, k) is Err,
    ensures
        startup_fold(plugins, compilation, chunk, module, source, n) == startup_fold(plugins, compilation, chunk, module, source, k),
    decreases n - k,
{
    if n > k {
        lemma_startup_fold_error_stands(plugins, compilation, chunk, module, source, k, n - 1);
    }
}

/// Runs the registered plugins at each hook, in the order they were added.
pub struct JavascriptModulesPluginPluginDrive {
    plugins: Vec<BoxJavascriptModulePluginPlugin>,
}

impl Default for JavascriptModulesPluginPluginDrive {
    fn default() -> (r: Self)
        ensures
            r.plugins().len() == 0,
    {
        JavascriptModulesPluginPluginDrive::new()
    }
}

impl JavascriptModulesPluginPluginDrive {
    pub closed spec fn plugins(&self) -> Seq<BoxJavascriptModulePluginPlugin> {
        self.plugins@
    }

    pub fn new() -> (r: Self)
        ensures
            r.plugins().len() == 0,
    {
        JavascriptModulesPluginPluginDrive { plugins: Vec::new() }
    }

    /// Registers a plugin after those added before.
    pub fn add_plugin(&mut self, plugin: BoxJavascriptModulePluginPlugin)
        ensures
            final(self).plugins() == old(self).plugins().push(plugin),
    {
        self.plugins.push(plugin);
    }

    /// The first plugin that renders the chunk, or fails, decides.
    pub fn render_chunk(&self, args: RenderJsChunkArgs<'_>) -> (r: Result<Option<String>, PluginError>)
        ensures
            answer_view(r) == first_answer(
                self.plugins().map_values(
                    |p: BoxJavascriptModulePluginPlugin| p.spec_render_chunk(*args.compilation, args.chunk_ukey, args.module_source@),
                ),
                0,
            ),
    {
        let ghost answers = self.plugins().map_values(
            |p: BoxJavascriptModulePluginPlugin| p.spec_render_chunk(*args.compilation, args.chunk_ukey, args.module_source@),
        );
        let mut i: usize = 0;
        while i < self.plugins.len()
            invariant
                i <= self.plugins@.len(),
                answers == self.plugins().map_values(
                    |p: BoxJavascriptModulePluginPlugin| p.spec_render_chunk(*args.compilation, args.chunk_ukey, args.module_source@),
                ),
                first_answer(answers, 0) == first_answer(answers, i as int),
            decreases self.plugins@.len() - i,
        {
            match self.plugins[i].render_chunk(&args) {
                Err(e) => {
                    return Err(e);
                },
                Ok(Some(source)) => {
                    return Ok(Some(source));
                },
                Ok(None) => {},
            }
            i = i + 1;
        }
        Ok(None)
    }

    /// The first plugin that renders the chunk's code, or fails, decides.
    pub fn render(&self, args: RenderJsArgs) -> (r: Result<Option<String>, PluginError>)
        ensures
            answer_view(r) == first_answer(
                self.plugins().map_values(
                    |p: BoxJavascriptModulePluginPlugin| p.spec_render(*args.compilation, args.chunk, args.source@),
                ),
                0,
            ),
    {
        let ghost answers = self.plugins().map_values(
            |p: BoxJavascriptModulePluginPlugin| p.spec_render(*args.compilation, args.chunk, args.source@),
        );
        let mut i: usize = 0;
        while i < self.plugins.len()
            invariant
                i <= self.plugins@.len(),
                answers == self.plugins().map_values(
                    |p: BoxJavascriptModulePluginPlugin| p.spec_render(*args.compilation, args.chunk, args.source@),
                ),
                first_answer(answers, 0) == first_answer(answers, i as int),
            decreases self.plugins@.len() - i,
        {
            match self.plugins[i].render(&args) {
                Err(e) => {
                    return Err(e);
                },
                Ok(Some(source)) => {
                    return Ok(Some(source));
                },
                Ok(None) => {},
            }
            i = i + 1;
        }
        Ok(None)
    }

    /// Hands the startup code through every plugin in turn; each source given
    /// replaces it. Fails at the first plugin that fails.
    pub fn render_startup(&self, args: RenderJsStartupArgs) -> (r: Result<Option<String>, PluginError>)
        ensures
            match startup_fold(
                self.plugins(),
                *args.compilation,
                args.chunk,
                args.module,
                args.source@,
                self.plugins().len() as int,
            ) {
                Ok(s) => r matches Ok(Some(t)) && t@ == s,
                Err(m) => r matches Err(e) && e.message@ == m,
            },
    {
        let compilation = args.compilation;
        let chunk = args.chunk;
        let module = args.module;
        let ghost inner = args.source@;
        let mut source = args.source;
        let mut i: usize = 0;
        while i < self.plugins.len()
            invariant
                i <= self.plugins@.len(),
                startup_fold(self.plugins(), *compilation, chunk, module, inner, i as int) == Ok::<Seq<char>, Seq<char>>(source@),
                *compilation == *args.compilation,
                chunk == args.chunk,
                module == args.module,
                inner == args.source@,
            decreases self.plugins@.len() - i,
        {
            let step_args = RenderJsStartupArgs { compilation, chunk, module, source: source.clone() };
            match self.plugins[i].render_startup(&step_args) {
                Err(e) => {
                    proof {
                        lemma_startup_fold_error_stands(
                            self.plugins(),
                            *compilation,
                            chunk,
                            module,
                            inner,
                            i + 1,
                            self.plugins().len() as int,
                        );
                    }
                    return Err(e);
                },
                Ok(Some(s)) => {
                    source = s;
                },
                Ok(None) => {},
            }
            i = i + 1;
        }
        Ok(Some(source))
    }

    /// Feeds the chunk's hash through every plugin in turn and gives the
    /// hasher back; fails at the first plugin that fails.
    pub fn js_chunk_hash(&self, args: JsChunkHashArgs) -> (r: Result<ChunkHasher, PluginError>)
        ensures
            match hash_fold(self.plugins(), *args.compilation, args.chunk_ukey, args.hasher, self.plugins().len() as int) {
                Ok(h) => r == Ok::<ChunkHasher, PluginError>(h),
                Err(m) => r matches Err(e) && e.message@ == m,
            },
    {
        let ghost compilation = *args.compilation;
        let ghost chunk_ukey = args.chunk_ukey;
        let ghost start = args.hasher;
        let mut cur = args;
        let mut i: usize = 0;
        while i < self.plugins.len()
            invariant
                i <= self.plugins@.len(),
                compilation == *args.compilation,
                chunk_ukey == args.chunk_ukey,
                start == args.hasher,
                *cur.compilation == compilation,
                cur.chunk_ukey == chunk_ukey,
                hash_fold(self.plugins(), compilation, chunk_ukey, start, i as int) == Ok::<ChunkHasher, Seq<char>>(cur.hasher),
            decreases self.plugins@.len() - i,
        {
            match self.plugins[i].js_chunk_hash(&mut cur) {
                Err(e) => {
                    proof {
                        lemma_hash_fold_error_stands(
                            self.plugins(),
                            compilation,
                            chunk_ukey,
                            start,
                            i + 1,
                            self.plugins().len() as int,
                        );
                    }
                    return Err(e);
                },
                Ok(()) => {},
            }
            i = i + 1;
        }
        Ok(cur.hasher)
    }

    /// Hands the module's content through every plugin in turn; fails at the
    /// first plugin that fails.
    pub fn render_module_content<'a>(&'a self, args: RenderJsModuleContentArgs<'a>) -> (r: Result<RenderJsModuleContentArgs<'a>, PluginError>)
        ensures
            match content_fold(self.plugins(), args, self.plugins().len() as int) {
                Ok(a) => r == Ok::<RenderJsModuleContentArgs<'a>, PluginError>(a),
                Err(m) => r matches Err(e) && e.message@ == m,
            },
    {
        let ghost start = args;
        let mut cur = args;
        let mut i: usize = 0;
        while i < self.plugins.len()
            invariant
                i <= self.plugins@.len(),
                start == args,
                content_fold(self.plugins(), start, i as int) == Ok::<RenderJsModuleContentArgs<'a>, Seq<char>>(cur),
            decreases self.plugins@.len() - i,
        {
            cur = match self.plugins[i].render_module_content(cur) {
                Err(e) => {
                    proof {
                        lemma_content_fold_error_stands(self.plugins(), start, i + 1, self.plugins().len() as int);
                    }
                    return Err(e);
                },
                Ok(a) => a,
            };
            i = i + 1;
        }
        Ok(cur)
    }

    /// The first reason that a plugin gives, if any.
    pub fn inline_in_runtime_bailout(&self) -> (r: Option<String>)
        ensures
            reason_view(r) == first_reason(
                self.plugins().map_values(|p: BoxJavascriptModulePluginPlugin| p.spec_inline_in_runtime_bailout()),
                0,
            ),
    {
        let ghost reasons = self.plugins().map_values(|p: BoxJavascriptModulePluginPlugin| p.spec_inline_in_runtime_bailout());
        let mut i: usize = 0;
        while i < self.plugins.len()
            invariant
                i <= self.plugins@.len(),
                reasons == self.plugins().map_values(|p: BoxJavascriptModulePluginPlugin| p.spec_inline_in_runtime_bailout()),
                first_reason(reasons, 0) == first_reason(reasons, i as int),
            decreases self.plugins@.len() - i,
        {
            let reason = self.plugins[i].inline_in_runtime_bailout();
            if reason.is_some() {
                return reason;
            }
            i = i + 1;
        }
        None
    }

    /// The first reason, or failure, that a plugin gives.
    pub fn embed_in_runtime_bailout(&self, compilation: &Compilation, module: ModuleIdentifier, chunk: &Chunk) -> (r: Result<Option<String>, PluginError>)
        ensures
            answer_view(r) == first_answer(
                self.plugins().map_values(
                    |p: BoxJavascriptModulePluginPlugin| p.spec_embed_in_runtime_bailout(*compilation, module, chunk.ukey),
                ),
                0,
            ),
    {
        let ghost answers = self.plugins().map_values(
            |p: BoxJavascriptModulePluginPlugin| p.spec_embed_in_runtime_bailout(*compilation, module, chunk.ukey),
        );
        let mut i: usize = 0;
        while i < self.plugins.len()
            invariant
                i <= self.plugins@.len(),
                answers == self.plugins().map_values(
                    |p: BoxJavascriptModulePluginPlugin| p.spec_embed_in_runtime_bailout(*compilation, module, chunk.ukey),
                ),
                first_answer(answers, 0) == first_answer(answers, i as int),
            decreases self.plugins@.len() - i,
        {
            match self.plugins[i].embed_in_runtime_bailout(compilation, module, chunk) {
                Err(e) => {
                    return Err(e);
                },
                Ok(Some(reason)) => {
                    return Ok(Some(reason));
                },
                Ok(None) => {},
            }
            i = i + 1;
        }
        Ok(None)
    }

    /// The first reason, or failure, that a plugin gives.
    pub fn strict_runtime_bailout(&self, compilation: &Compilation, chunk_ukey: ChunkUkey) -> (r: Result<Option<String>, PluginError>)
        ensures
            answer_view(r) == first_answer(
                self.plugins().map_values(
                    |p: BoxJavascriptModulePluginPlugin| p.spec_strict_runtime_bailout(*compilation, chunk_ukey),
                ),
                0,
            ),
    {
        let ghost answers = self.plugins().map_values(
            |p: BoxJavascriptModulePluginPlugin| p.spec_strict_runtime_bailout(*compilation, chunk_ukey),
        );
        let mut i: usize = 0;
        while i < self.plugins.len()
            invariant
                i <= self.plugins@.len(),
                answers == self.plugins().map_values(
                    |p: BoxJavascriptModulePluginPlugin| p.spec_strict_runtime_bailout(*compilation, chunk_ukey),
                ),
                first_answer(answers, 0) == first_answer(answers, i as int),
            decreases self.plugins@.len() - i,
        {
            match self.plugins[i].strict_runtime_bailout(compilation, chunk_ukey) {
                Err(e) => {
                    return Err(e);
                },
                Ok(Some(reason)) => {
                    return Ok(Some(reason));
                },
                Ok(None) => {},
            }
            i = i + 1;
        }
        Ok(None)
    }
}

/// A shared plugin answers every hook as the plugin it shares.
pub proof fn lemma_shared_plugin_answers_as_itself<'a, T: JavascriptModulesPluginPlugin>(
    p: std::sync::Arc<T>,
    compilation: Compilation,
    chunk: ChunkUkey,
    module: ModuleIdentifier,
    source: Seq<char>,
    hasher: ChunkHasher,
    args: RenderJsModuleContentArgs<'a>,
)
    ensures
        p.spec_render_chunk(compilation, chunk, source) == (*p).spec_render_chunk(compilation, chunk, source),
        p.spec_render(compilation, chunk, source) == (*p).spec_render(compilation, chunk, source),
        p.spec_render_startup(compilation, chunk, module, source) == (*p).spec_render_startup(
            compilation,
            chunk,
            module,
            source,
        ),
        p.spec_render_module_content(args) == (*p).spec_render_module_content(args),
        p.spec_js_chunk_hash(compilation, chunk, hasher) == (*p).spec_js_chunk_hash(compilation, chunk, hasher),
        p.spec_inline_in_runtime_bailout() == (*p).spec_inline_in_runtime_bailout(),
        p.spec_embed_in_runtime_bailout(compilation, module, chunk) == (*p).spec_embed_in_runtime_bailout(
            compilation,
            module,
            chunk,
        ),
        p.spec_strict_runtime_bailout(compilation, chunk) == (*p).spec_strict_runtime_bailout(compilation, chunk),
{
}

/// A plugin added last is asked last: the drive's first answer over the
/// plugins with one more added is the earlier first answer, or, where the
/// earlier plugins all passed, the added plugin's answer.
pub proof fn lemma_added_plugin_answers_last(
    answers: Seq<Result<Option<Seq<char>>, Seq<char>>>,
    a: Result<Option<Seq<char>>, Seq<char>>,
    from: int,
)
    requires
        0 <= from <= answers.len(),
    ensures
        first_answer(answers.push(a), from) == if first_answer(answers, from) == Ok::<Option<Seq<char>>, Seq<char>>(None) {
            a
        } else {
            first_answer(answers, from)
        },
    decreases answers.len() - from,
{
    if from < answers.len() {
        assert(answers.push(a)[from] == answers[from]);
        lemma_added_plugin_answers_last(answers, a, from + 1);
    } else {
        assert(answers.push(a)[from] == a);
        assert(first_answer(answers.push(a), from + 1) == Ok::<Option<Seq<char>>, Seq<char>>(None));
    }
}

/// A plugin added last is asked last for a reason: the first reason over
/// the plugins with one more added is the earlier first reason, or else the
/// added plugin's reason.
pub proof fn lemma_added_plugin_reason_last(reasons: Seq<Option<Seq<char>>>, x: Option<Seq<char>>, from: int)
    requires
        0 <= from <= reasons.len(),
    ensures
        first_reason(reasons.push(x), from) == match first_reason(reasons, from) {
            Some(r) => Some(r),
            None => x,
        },
    decreases reasons.len() - from,
{
    if from < reasons.len() {
        assert(reasons.push(x)[from] == reasons[from]);
        lemma_added_plugin_reason_last(reasons, x, from + 1);
    } else {
        assert(reasons.push(x)[from] == x);
        assert(first_reason(reasons.push(x), from + 1) is None);
    }
}

/// Where every plugin passes (or there are none), the drive answers no
/// source.
pub proof fn lemma_all_pass_no_answer(answers: Seq<Result<Option<Seq<char>>, Seq<char>>>, from: int)
    requires
        0 <= from,
        forall|i: int| from <= i < answers.len() ==> answers[i] == Ok::<Option<Seq<char>>, Seq<char>>(None),
    ensures
        first_answer(answers, from) == Ok::<Option<Seq<char>>, Seq<char>>(None),
    decreases answers.len() - from,
{
    if from < answers.len() {
        lemma_all_pass_no_answer(answers, from + 1);
    }
}

/// Where every plugin gives no reason (or there are none), there is none.
pub proof fn lemma_no_reason(reasons: Seq<Option<Seq<char>>>, from: int)
    requires
        0 <= from,
        forall|i: int| from <= i < reasons.len() ==> reasons[i] is None,
    ensures
        first_reason(reasons, from) is None,
    decreases reasons.len() - from,
{
    if from < reasons.len() {
        lemma_no_reason(reasons, from + 1);
    }
}

/// Plugins that give no startup source leave the startup code as it is.
pub proof fn lemma_startup_unchanged(
    plugins: Seq<BoxJavascriptModulePluginPlugin>,
    compilation: Compilation,
    chunk: ChunkUkey,
    module: ModuleIdentifier,
    source: Seq<char>,
    n: int,
)
    requires
        0 <= n <= plugins.len(),
        forall|i: int| 0 <= i < n ==> (#[trigger] plugins[i]).spec_render_startup(compilation, chunk, module, source)
            == Ok::<Option<Seq<char>>, Seq<char>>(None),
    ensures
        startup_fold(plugins, compilation, chunk, module, source, n) == Ok::<Seq<char>, Seq<char>>(source),
    decreases n,
{
    if n > 0 {
        lemma_startup_unchanged(plugins, compilation, chunk, module, source, n - 1);
    }
}

} // verus!
