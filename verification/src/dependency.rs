//! Dependencies: their identities, their source locations, and the
//! templates by which they rewrite the generated code.
use vstd::prelude::*;
use vstd::string::*;

use crate::external::ExternalRequest;
use crate::text::owned;

verus! {

/// The identity of a dependency.
#[derive(Clone, Copy, PartialEq, Eq, Structural, Debug)]
pub struct DependencyId {
    pub value: u32,
}

/// Hands out dependency identities by counting up, from 0, wrapping around
/// after `u32::MAX`.
pub struct DependencyIdAllocator {
    next: u32,
}

/// The counter value after `n`: one more, wrapping to 0 after `u32::MAX`.
pub open spec fn next_id_after(n: u32) -> u32 {
    if n == u32::MAX {
        0
    } else {
        (n + 1) as u32
    }
}

impl DependencyIdAllocator {
    /// The identity that the next call of `fresh` hands out.
    pub closed spec fn next(&self) -> u32 {
        self.next
    }

    pub fn new() -> (r: Self)
        ensures
            r.next() == 0,
    {
        DependencyIdAllocator { next: 0 }
    }

    /// The next identity.
    pub fn fresh(&mut self) -> (id: DependencyId)
        ensures
            id.value == old(self).next(),
            final(self).next() == next_id_after(old(self).next()),
    {
        let id = DependencyId { value: self.next };
        self.next = if self.next == u32::MAX {
            0
        } else {
            self.next + 1
        };
        id
    }
}

/// Identities handed out by successive calls of `fresh` are distinct as long
/// as fewer than 2^32 are handed out: the `k`-th call after a state whose
/// counter is `n` hands out `n + k`, which differs from `n + j` for `j < k`.
pub proof fn lemma_fresh_ids_distinct(start: u32, j: nat, k: nat)
    requires
        j < k,
        start + k <= u32::MAX,
    ensures
        ids_after(start, j) != ids_after(start, k),
        ids_after(start, k) == start + k,
{
    lemma_ids_after_no_wrap(start, j);
    lemma_ids_after_no_wrap(start, k);
}

/// The counter value after `k` calls of `fresh` from `start`.
pub open spec fn ids_after(start: u32, k: nat) -> u32
    decreases k,
{
    if k == 0 {
        start
    } else {
        next_id_after(ids_after(start, (k - 1) as nat))
    }
}

pub(crate) proof fn lemma_ids_after_no_wrap(start: u32, k: nat)
    requires
        start + k <= u32::MAX,
    ensures
        ids_after(start, k) == start + k,
    decreases k,
{
    if k > 0 {
        lemma_ids_after_no_wrap(start, (k - 1) as nat);
    }
}

/// Where a dependency stands in the source: the range `start..end`.
#[derive(Clone, Copy, PartialEq, Eq, Structural, Debug)]
pub struct DependencyLocation {
    pub start: u32,
    pub end: u32,
}

/// One replacement of the source text `start..end` by `content`.
pub struct Replacement {
    pub start: u32,
    pub end: u32,
    pub content: String,
    pub name: Option<String>,
}

/// A source together with the replacements to make in it.
pub struct ReplaceSource {
    pub inner: String,
    pub replacements: Vec<Replacement>,
}

impl ReplaceSource {
    pub fn new(inner: String) -> (r: Self)
        ensures
            r.inner == inner,
            r.replacements@.len() == 0,
    {
        ReplaceSource { inner, replacements: Vec::new() }
    }

    /// Records that `start..end` is replaced by `content`.
    pub fn replace(&mut self, start: u32, end: u32, content: &str, name: Option<&str>)
        ensures
            final(self).inner == old(self).inner,
            final(self).replacements@.len() == old(self).replacements@.len() + 1,
            final(self).replacements@.take(old(self).replacements@.len() as int)
                == old(self).replacements@,
            final(self).replacements@.last().start == start,
            final(self).replacements@.last().end == end,
            final(self).replacements@.last().content@ == content@,
            final(self).replacements@.last().name matches Some(n) ==> name matches Some(m) && n@ == m@,
            final(self).replacements@.last().name is None ==> name is None,
    {
        let name = match name {
            Some(n) => Some(owned(n)),
            None => None,
        };
        self.replacements.push(Replacement { start, end, content: owned(content), name });
        assert(self.replacements@.take(old(self).replacements@.len() as int) =~= old(
            self,
        ).replacements@);
    }
}

/// The order in which init fragments are emitted.
#[derive(Clone, Copy, PartialEq, Eq, Structural, Debug)]
pub enum InitFragmentStage {
    StageConstants,
    StageAsyncBoundary,
    StageESMExports,
    StageESMImports,
    StageProvides,
    StageAsyncDependencies,
    StageAsyncESMImports,
}

/// How init fragments are told apart and merged.
pub enum InitFragmentKey {
    Unique(u32),
    Const(String),
}

/// Code emitted at the start of a chunk (and, optionally, at its end).
pub struct InitFragment {
    pub content: String,
    pub stage: InitFragmentStage,
    pub position: i32,
    pub key: InitFragmentKey,
    pub end_content: Option<String>,
}

/// What dependency templates may add to while code is generated.
pub struct TemplateContext {
    pub chunk_init_fragments: Vec<InitFragment>,
}

/// The category of a dependency.
#[derive(Clone, Copy, PartialEq, Eq, Structural, Debug)]
pub enum DependencyCategory {
    Unknown,
    Esm,
    CommonJS,
}

/// The kind of a dependency.
#[derive(Clone, Copy, PartialEq, Eq, Structural, Debug)]
pub enum DependencyType {
    Unknown,
    EsmImport,
    DynamicImport,
}

/// Whether a dependency can change the module that refers to it.
#[derive(Clone, Copy, PartialEq, Eq, Structural, Debug)]
pub enum AffectType {
    True,
    False,
    Transitive,
}

/// The code that loads an external module by a dynamic import:
/// `import("<target>")`.
pub open spec fn dynamic_import_code(target: Seq<char>) -> Seq<char> {
    "import(\""@ + target + "\")"@
}

/// Rewrites a dynamic import of an external module into an `import()` of
/// the external request.
pub struct ExternalModuleDependency {
    pub id: DependencyId,
    request: String,
    target_request: String,
    range: DependencyLocation,
}

impl ExternalModuleDependency {
    pub closed spec fn spec_id(&self) -> DependencyId {
        self.id
    }

    pub closed spec fn request(&self) -> Seq<char> {
        self.request@
    }

    pub closed spec fn target_request(&self) -> Seq<char> {
        self.target_request@
    }

    pub closed spec fn range(&self) -> DependencyLocation {
        self.range
    }

    pub fn new(
        ids: &mut DependencyIdAllocator,
        request: String,
        target_request: String,
        range: DependencyLocation,
    ) -> (r: Self)
        ensures
            r.spec_id().value == old(ids).next(),
            final(ids).next() == next_id_after(old(ids).next()),
            r.request() == request@,
            r.target_request() == target_request@,
            r.range() == range,
    {
        ExternalModuleDependency { id: ids.fresh(), request, target_request, range }
    }

    pub fn id(&self) -> (r: &DependencyId)
        ensures
            *r == self.spec_id(),
    {
        &self.id
    }

    pub fn dependency_id(&self) -> (r: Option<DependencyId>)
        ensures
            r == Some(self.spec_id()),
    {
        Some(self.id)
    }

    /// Replaces the dependency's range by `import("<target request>")`.
    pub fn apply(&self, source: &mut ReplaceSource, _code_generatable_context: &mut TemplateContext)
        ensures
            final(source).inner == old(source).inner,
            final(source).replacements@.len() == old(source).replacements@.len() + 1,
            final(source).replacements@.take(old(source).replacements@.len() as int)
                == old(source).replacements@,
            final(source).replacements@.last().start == self.range().start,
            final(source).replacements@.last().end == self.range().end,
            final(source).replacements@.last().content@ == dynamic_import_code(self.target_request()),
            final(source).replacements@.last().name is None,
            *final(_code_generatable_context) == *old(_code_generatable_context),
    {
        let mut content = String::from_str("import(\"");
        content.append(self.target_request.as_str());
        content.append("\")");
        source.replace(self.range.start, self.range.end, content.as_str(), None);
    }
}

/// The resource identifier of an ESM dependency without import attributes:
/// `esm|<request>`.
pub open spec fn esm_resource_identifier(request: Seq<char>) -> Seq<char> {
    "esm|"@ + request
}

pub fn create_resource_identifier_for_esm_dependency(request: &str) -> (r: String)
    ensures
        r@ == esm_resource_identifier(request@),
{
    let mut ident = String::from_str("esm|");
    ident.append(request);
    ident
}

/// The statement that re-exports everything of a request:
/// `export * from "<request>";` and a line break.
pub open spec fn export_star_code(request: Seq<char>) -> Seq<char> {
    "export * from \""@ + request + "\";\n"@
}

/// The key under which the re-export fragments are merged.
pub open spec fn export_star_key() -> Seq<char> {
    "gogogo"@
}

/// Re-exports everything of an external request from the generated module.
pub struct ModernModuleExportStarDependency {
    id: DependencyId,
    request: String,
    target_request: ExternalRequest,
    resource_identifier: String,
}

impl ModernModuleExportStarDependency {
    pub closed spec fn spec_id(&self) -> DependencyId {
        self.id
    }

    pub closed spec fn spec_request(&self) -> Seq<char> {
        self.request@
    }

    pub closed spec fn spec_target_request(&self) -> ExternalRequest {
        self.target_request
    }

    pub closed spec fn spec_resource_identifier(&self) -> Seq<char> {
        self.resource_identifier@
    }

    pub fn new(ids: &mut DependencyIdAllocator, request: String, target_request: ExternalRequest) -> (r: Self)
        ensures
            r.spec_id().value == old(ids).next(),
            final(ids).next() == next_id_after(old(ids).next()),
            r.spec_request() == request@,
            r.spec_target_request() == target_request,
            r.spec_resource_identifier() == esm_resource_identifier(request@),
    {
        let resource_identifier = create_resource_identifier_for_esm_dependency(request.as_str());
        ModernModuleExportStarDependency { request, target_request, id: ids.fresh(), resource_identifier }
    }

    pub fn id(&self) -> (r: &DependencyId)
        ensures
            *r == self.spec_id(),
    {
        &self.id
    }

    pub fn resource_identifier(&self) -> (r: Option<&str>)
        ensures
            r matches Some(s) && s@ == self.spec_resource_identifier(),
    {
        Some(self.resource_identifier.as_str())
    }

    pub fn category(&self) -> (r: DependencyCategory)
        ensures
            r == DependencyCategory::Esm,
    {
        DependencyCategory::Esm
    }

    pub fn dependency_type(&self) -> (r: DependencyType)
        ensures
            r == DependencyType::DynamicImport,
    {
        DependencyType::DynamicImport
    }

    pub fn could_affect_referencing_module(&self) -> (r: AffectType)
        ensures
            r == AffectType::True,
    {
        AffectType::True
    }

    pub fn request(&self) -> (r: &str)
        ensures
            r@ == self.spec_request(),
    {
        self.request.as_str()
    }

    pub fn user_request(&self) -> (r: &str)
        ensures
            r@ == self.spec_request(),
    {
        self.request.as_str()
    }

    pub fn set_request(&mut self, request: String)
        ensures
            final(self).spec_request() == request@,
            final(self).spec_id() == old(self).spec_id(),
            final(self).spec_target_request() == old(self).spec_target_request(),
            final(self).spec_resource_identifier() == old(self).spec_resource_identifier(),
    {
        self.request = request;
    }

    /// Adds the fragment `export * from "<request>";` to the chunk's init
    /// fragments, at the ESM import stage.
    pub fn apply(&self, _source: &mut ReplaceSource, code_generatable_context: &mut TemplateContext)
        ensures
            *final(_source) == *old(_source),
            final(code_generatable_context).chunk_init_fragments@.len()
                == old(code_generatable_context).chunk_init_fragments@.len() + 1,
            final(code_generatable_context).chunk_init_fragments@.take(
                old(code_generatable_context).chunk_init_fragments@.len() as int,
            ) == old(code_generatable_context).chunk_init_fragments@,
            ({
                let f = final(code_generatable_context).chunk_init_fragments@.last();
                &&& f.content@ == export_star_code(self.spec_request())
                &&& f.stage == InitFragmentStage::StageESMImports
                &&& f.position == 0
                &&& f.key matches InitFragmentKey::Const(k) && k@ == export_star_key()
                &&& f.end_content is None
            }),
    {
        let mut content = String::from_str("export * from \"");
        content.append(self.request.as_str());
        content.append("\";\n");
        let fragment = InitFragment {
            content,
            stage: InitFragmentStage::StageESMImports,
            position: 0,
            key: InitFragmentKey::Const(owned("gogogo")),
            end_content: None,
        };
        code_generatable_context.chunk_init_fragments.push(fragment);
        assert(code_generatable_context.chunk_init_fragments@.take(
            old(code_generatable_context).chunk_init_fragments@.len() as int,
        ) =~= old(code_generatable_context).chunk_init_fragments@);
    }

    pub fn dependency_id(&self) -> (r: Option<DependencyId>)
        ensures
            r == Some(self.spec_id()),
    {
        Some(self.id)
    }
}

} // verus!
