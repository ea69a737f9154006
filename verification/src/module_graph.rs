//! The module graph: modules, their asynchronous blocks, dependencies and
//! the connections between modules.
use vstd::prelude::*;

use crate::dependency::{ids_after, next_id_after, DependencyId, DependencyIdAllocator, DependencyLocation};
use crate::external::{ExternalModule, ExternalRequest};
use crate::text::owned;

verus! {

/// The identity of a module.
pub type ModuleIdentifier = u64;

/// The identity of an asynchronous dependencies block.
#[derive(Clone, Copy, PartialEq, Eq, Structural, Debug)]
pub struct BlockId {
    pub value: u32,
}

/// The identity of a connection.
#[derive(Clone, Copy, PartialEq, Eq, Structural, Debug)]
pub struct ConnectionId {
    pub value: u32,
}

/// A connection from `origin_module`, made by `dependency`, to `module`.
#[derive(Clone, Copy, PartialEq, Eq, Structural, Debug)]
pub struct ModuleGraphConnection {
    pub id: ConnectionId,
    pub origin_module: ModuleIdentifier,
    pub dependency: DependencyId,
    pub module: ModuleIdentifier,
}

/// A block of dependencies that load asynchronously (a dynamic `import()`).
pub struct AsyncDependenciesBlock {
    pub id: BlockId,
    pub dependencies: Vec<DependencyId>,
}

/// A dynamic `import()` of a request, at `range`.
pub struct ImportDependency {
    pub id: DependencyId,
    pub request: String,
    pub range: DependencyLocation,
}

/// A dynamic `import()` of a request that an external module resolves: the
/// code imports `target_request` itself.
pub struct ModernModuleImportDependency {
    pub id: DependencyId,
    pub request: String,
    pub target_request: String,
    pub range: DependencyLocation,
}

impl ModernModuleImportDependency {
    pub fn new(
        ids: &mut DependencyIdAllocator,
        request: String,
        target_request: String,
        range: DependencyLocation,
    ) -> (r: Self)
        ensures
            r.id.value == old(ids).next(),
            final(ids).next() == next_id_after(old(ids).next()),
            r.request == request,
            r.target_request == target_request,
            r.range == range,
    {
        ModernModuleImportDependency { id: ids.fresh(), request, target_request, range }
    }
}

/// A dependency of the graph.
pub enum GraphDependency {
    Import(ImportDependency),
    ModernModuleImport(ModernModuleImportDependency),
    /// Any other dependency, of which only the identity matters here.
    Other(DependencyId),
}

/// The model of a dependency.
pub enum DependencyModel {
    Import { id: DependencyId, request: Seq<char>, range: DependencyLocation },
    ModernModuleImport {
        id: DependencyId,
        request: Seq<char>,
        target_request: Seq<char>,
        range: DependencyLocation,
    },
    Other(DependencyId),
}

impl View for GraphDependency {
    type V = DependencyModel;

    open spec fn view(&self) -> DependencyModel {
        match self {
            GraphDependency::Import(d) => DependencyModel::Import {
                id: d.id,
                request: d.request@,
                range: d.range,
            },
            GraphDependency::ModernModuleImport(d) => DependencyModel::ModernModuleImport {
                id: d.id,
                request: d.request@,
                target_request: d.target_request@,
                range: d.range,
            },
            GraphDependency::Other(id) => DependencyModel::Other(*id),
        }
    }
}

impl DependencyModel {
    pub open spec fn id(self) -> DependencyId {
        match self {
            DependencyModel::Import { id, .. } => id,
            DependencyModel::ModernModuleImport { id, .. } => id,
            DependencyModel::Other(id) => id,
        }
    }
}

/// What kind of module a module is.
pub enum ModuleKind {
    Normal,
    External(ExternalModule),
    /// Modules concatenated into one, with the identities of the inner ones.
    Concatenated(Vec<ModuleIdentifier>),
}

/// A module of the graph.
pub struct GraphModule {
    pub id: ModuleIdentifier,
    pub kind: ModuleKind,
    pub blocks: Vec<BlockId>,
    /// Why the module could not be concatenated.
    pub optimization_bailout: Vec<String>,
}

/// The module graph.
pub struct ModuleGraph {
    pub modules: Vec<GraphModule>,
    pub blocks: Vec<AsyncDependenciesBlock>,
    pub dependencies: Vec<GraphDependency>,
    pub connections: Vec<ModuleGraphConnection>,
}

/// A block by its identity and the identities of its dependencies.
pub type BlockModel = (BlockId, Seq<DependencyId>);

pub open spec fn blocks_view(blocks: Seq<AsyncDependenciesBlock>) -> Seq<BlockModel> {
    blocks.map_values(|b: AsyncDependenciesBlock| (b.id, b.dependencies@))
}

pub open spec fn dependencies_view(deps: Seq<GraphDependency>) -> Seq<DependencyModel> {
    deps.map_values(|d: GraphDependency| d@)
}

/// The part of the graph that rewriting dependencies changes, and the next
/// dependency identity.
pub struct GraphState {
    pub blocks: Seq<BlockModel>,
    pub dependencies: Seq<DependencyModel>,
    pub connections: Seq<ModuleGraphConnection>,
    pub next_id: u32,
}

pub open spec fn graph_state(g: ModuleGraph, ids: DependencyIdAllocator) -> GraphState {
    GraphState {
        blocks: blocks_view(g.blocks@),
        dependencies: dependencies_view(g.dependencies@),
        connections: g.connections@,
        next_id: ids.next(),
    }
}

/// The index of the first module at or after `from` with identity `id`, or
/// the number of modules.
pub open spec fn module_index(modules: Seq<GraphModule>, id: ModuleIdentifier, from: int) -> int
    decreases modules.len() - from,
{
    if from >= modules.len() {
        modules.len() as int
    } else if modules[from].id == id {
        from
    } else {
        module_index(modules, id, from + 1)
    }
}

/// The modules have distinct identities, as the keys of a map.
pub open spec fn module_ids_unique(modules: Seq<GraphModule>) -> bool {
    forall|i: int, j: int| 0 <= i < j < modules.len() ==> (#[trigger] modules[i]).id != (#[trigger] modules[j]).id
}

proof fn lemma_module_index_reaches(modules: Seq<GraphModule>, from: int, i: int)
    requires
        module_ids_unique(modules),
        0 <= from <= i < modules.len(),
    ensures
        module_index(modules, modules[i].id, from) == i,
    decreases i - from,
{
    if from < i {
        assert(modules[from].id != modules[i].id);
        lemma_module_index_reaches(modules, from + 1, i);
    }
}

/// With distinct identities, modules are looked up as in a map: the module
/// found for `modules[i].id` is `modules[i]`.
pub proof fn lemma_module_lookup_is_map(modules: Seq<GraphModule>, i: int)
    requires
        module_ids_unique(modules),
        0 <= i < modules.len(),
    ensures
        module_index(modules, modules[i].id, 0) == i,
{
    lemma_module_index_reaches(modules, 0, i);
}

/// The index of the first block at or after `from` with identity `id`, or
/// the number of blocks.
pub open spec fn block_index(blocks: Seq<BlockModel>, id: BlockId, from: int) -> int
    decreases blocks.len() - from,
{
    if from >= blocks.len() {
        blocks.len() as int
    } else if blocks[from].0 == id {
        from
    } else {
        block_index(blocks, id, from + 1)
    }
}

/// The index of the first dependency at or after `from` with identity `id`,
/// or the number of dependencies.
pub open spec fn dependency_index(deps: Seq<DependencyModel>, id: DependencyId, from: int) -> int
    decreases deps.len() - from,
{
    if from >= deps.len() {
        deps.len() as int
    } else if deps[from].id() == id {
        from
    } else {
        dependency_index(deps, id, from + 1)
    }
}

pub fn find_module(modules: &Vec<GraphModule>, id: ModuleIdentifier) -> (r: usize)
    ensures
        r == module_index(modules@, id, 0),
{
    let mut i: usize = 0;
    while i < modules.len()
        invariant
            i <= modules@.len(),
            module_index(modules@, id, 0) == module_index(modules@, id, i as int),
        decreases modules@.len() - i,
    {
        if modules[i].id == id {
            return i;
        }
        i = i + 1;
    }
    i
}

pub fn find_block(blocks: &Vec<AsyncDependenciesBlock>, id: BlockId) -> (r: usize)
    ensures
        r == block_index(blocks_view(blocks@), id, 0),
{
    let ghost bv = blocks_view(blocks@);
    let mut i: usize = 0;
    while i < blocks.len()
        invariant
            i <= blocks@.len(),
            bv == blocks_view(blocks@),
            block_index(bv, id, 0) == block_index(bv, id, i as int),
        decreases blocks@.len() - i,
    {
        if blocks[i].id == id {
            return i;
        }
        i = i + 1;
    }
    i
}

pub fn find_dependency(deps: &Vec<GraphDependency>, id: DependencyId) -> (r: usize)
    ensures
        r == dependency_index(dependencies_view(deps@), id, 0),
{
    let ghost dv = dependencies_view(deps@);
    let mut i: usize = 0;
    while i < deps.len()
        invariant
            i <= deps@.len(),
            dv == dependencies_view(deps@),
            dependency_index(dv, id, 0) == dependency_index(dv, id, i as int),
        decreases deps@.len() - i,
    {
        let d = match &deps[i] {
            GraphDependency::Import(d) => d.id,
            GraphDependency::ModernModuleImport(d) => d.id,
            GraphDependency::Other(d) => *d,
        };
        if d == id {
            return i;
        }
        i = i + 1;
    }
    i
}

/// The connections among the first `n` that start at module `m`, in order.
pub open spec fn outgoing(conns: Seq<ModuleGraphConnection>, m: ModuleIdentifier, n: int) -> Seq<ModuleGraphConnection>
    decreases n,
{
    if n <= 0 {
        Seq::empty()
    } else {
        let prev = outgoing(conns, m, n - 1);
        if conns[n - 1].origin_module == m {
            prev.push(conns[n - 1])
        } else {
            prev
        }
    }
}

pub fn outgoing_connections(conns: &Vec<ModuleGraphConnection>, m: ModuleIdentifier) -> (r: Vec<ModuleGraphConnection>)
    ensures
        r@ == outgoing(conns@, m, conns@.len() as int),
{
    let mut r: Vec<ModuleGraphConnection> = Vec::new();
    let mut i: usize = 0;
    while i < conns.len()
        invariant
            i <= conns@.len(),
            r@ == outgoing(conns@, m, i as int),
        decreases conns@.len() - i,
    {
        if conns[i].origin_module == m {
            r.push(conns[i]);
        }
        i = i + 1;
    }
    r
}

/// The dependencies of the block `b`.
pub open spec fn block_dependencies(blocks: Seq<BlockModel>, b: BlockId) -> Seq<DependencyId> {
    blocks[block_index(blocks, b, 0)].1
}

/// The (block, dependency) pairs of the first `n` blocks of a module, in
/// order.
pub open spec fn dependency_pairs(blocks: Seq<BlockModel>, module_blocks: Seq<BlockId>, n: int) -> Seq<(BlockId, DependencyId)>
    decreases n,
{
    if n <= 0 {
        Seq::empty()
    } else {
        let b = module_blocks[n - 1];
        dependency_pairs(blocks, module_blocks, n - 1) + block_dependencies(blocks, b).map_values(
            |d: DependencyId| (b, d),
        )
    }
}

/// A dynamic import to rewrite: in `block`, `dependency` (an import of
/// `request` at `range`) makes way for an import of `target_request`, and the
/// connection `connection` to the external module goes.
pub struct PlanModel {
    pub block: BlockId,
    pub dependency: DependencyId,
    pub request: Seq<char>,
    pub target_request: Seq<char>,
    pub range: DependencyLocation,
    pub connection: ConnectionId,
}

/// Whether connection `c` leads to an external module whose user request is
/// `request`.
pub open spec fn leads_to_external(modules: Seq<GraphModule>, c: ModuleGraphConnection, request: Seq<char>) -> bool {
    let mi = module_index(modules, c.module, 0);
    mi < modules.len() && match modules[mi].kind {
        ModuleKind::External(em) => em.user_request@ == request,
        _ => false,
    }
}

/// The index of the first of `conns` at or after `from` that leads to an
/// external module for `request`, or `conns.len()`.
pub open spec fn first_external_connection(
    modules: Seq<GraphModule>,
    conns: Seq<ModuleGraphConnection>,
    request: Seq<char>,
    from: int,
) -> int
    decreases conns.len() - from,
{
    if from >= conns.len() {
        conns.len() as int
    } else if leads_to_external(modules, conns[from], request) {
        from
    } else {
        first_external_connection(modules, conns, request, from + 1)
    }
}

/// What to do with the dependency `pair.1` of block `pair.0`: an import that
/// the first outgoing connection to an external module of the same request
/// resolves, with a single (not keyed) request, is rewritten.
pub open spec fn plan_for(
    modules: Seq<GraphModule>,
    deps: Seq<DependencyModel>,
    conns: Seq<ModuleGraphConnection>,
    pair: (BlockId, DependencyId),
) -> Option<PlanModel> {
    let di = dependency_index(deps, pair.1, 0);
    if di < deps.len() {
        match deps[di] {
            DependencyModel::Import { id, request, range } => {
                let ci = first_external_connection(modules, conns, request, 0);
                if ci < conns.len() {
                    let mi = module_index(modules, conns[ci].module, 0);
                    match modules[mi].kind {
                        ModuleKind::External(em) => match em.request {
                            ExternalRequest::Single(v) => Some(
                                PlanModel {
                                    block: pair.0,
                                    dependency: pair.1,
                                    request,
                                    target_request: v.primary@,
                                    range,
                                    connection: conns[ci].id,
                                },
                            ),
                            _ => None,
                        },
                        _ => None,
                    }
                } else {
                    None
                }
            },
            _ => None,
        }
    } else {
        None
    }
}

/// The rewrites planned for the first `n` pairs, in order.
pub open spec fn plan(
    modules: Seq<GraphModule>,
    deps: Seq<DependencyModel>,
    conns: Seq<ModuleGraphConnection>,
    pairs: Seq<(BlockId, DependencyId)>,
    n: int,
) -> Seq<PlanModel>
    decreases n,
{
    if n <= 0 {
        Seq::empty()
    } else {
        let prev = plan(modules, deps, conns, pairs, n - 1);
        match plan_for(modules, deps, conns, pairs[n - 1]) {
            Some(p) => prev.push(p),
            None => prev,
        }
    }
}

/// The first `n` of `s`, without `x`.
pub open spec fn without_dep(s: Seq<DependencyId>, x: DependencyId, n: int) -> Seq<DependencyId>
    decreases n,
{
    if n <= 0 {
        Seq::empty()
    } else if s[n - 1] == x {
        without_dep(s, x, n - 1)
    } else {
        without_dep(s, x, n - 1).push(s[n - 1])
    }
}

/// The first `n` of `s`, without the connection `id`.
pub open spec fn without_connection(s: Seq<ModuleGraphConnection>, id: ConnectionId, n: int) -> Seq<ModuleGraphConnection>
    decreases n,
{
    if n <= 0 {
        Seq::empty()
    } else if s[n - 1].id == id {
        without_connection(s, id, n - 1)
    } else {
        without_connection(s, id, n - 1).push(s[n - 1])
    }
}

/// One rewrite: the block loses the old dependency and gains a new one,
/// with the next identity; the graph gains that dependency; the connection
/// to the external module is revoked.
pub open spec fn apply_plan_item(st: GraphState, p: PlanModel) -> GraphState {
    let bi = block_index(st.blocks, p.block, 0);
    let new_id = DependencyId { value: st.next_id };
    let deps = st.blocks[bi].1;
    GraphState {
        blocks: st.blocks.update(bi, (st.blocks[bi].0, without_dep(deps, p.dependency, deps.len() as int).push(new_id))),
        dependencies: st.dependencies.push(
            DependencyModel::ModernModuleImport {
                id: new_id,
                request: p.request,
                target_request: p.target_request,
                range: p.range,
            },
        ),
        connections: without_connection(st.connections, p.connection, st.connections.len() as int),
        next_id: next_id_after(st.next_id),
    }
}

/// The first `n` rewrites, in order.
pub open spec fn apply_plan(st: GraphState, ps: Seq<PlanModel>, n: int) -> GraphState
    decreases n,
{
    if n <= 0 {
        st
    } else {
        apply_plan_item(apply_plan(st, ps, n - 1), ps[n - 1])
    }
}

/// The rewrites for module `m` in state `st`.
pub open spec fn module_plan(modules: Seq<GraphModule>, st: GraphState, m: GraphModule) -> Seq<PlanModel> {
    let conns = outgoing(st.connections, m.id, st.connections.len() as int);
    let pairs = dependency_pairs(st.blocks, m.blocks@, m.blocks@.len() as int);
    plan(modules, st.dependencies, conns, pairs, pairs.len() as int)
}

/// The state after the dynamic imports of module `m` are rewritten.
pub open spec fn module_step(modules: Seq<GraphModule>, st: GraphState, m: GraphModule) -> GraphState {
    let ps = module_plan(modules, st, m);
    apply_plan(st, ps, ps.len() as int)
}

/// The state after the first `k` modules are handled, in order.
pub open spec fn rewrite_imports(modules: Seq<GraphModule>, st: GraphState, k: int) -> GraphState
    decreases k,
{
    if k <= 0 {
        st
    } else {
        module_step(modules, rewrite_imports(modules, st, k - 1), modules[k - 1])
    }
}

/// Searching `conns` from index `from` for a connection to an external
/// module for `request` looks up only modules of the graph: each connection
/// looked at, up to the first that leads to such a module, leads to a
/// module of the graph.
pub open spec fn search_defined(
    modules: Seq<GraphModule>,
    conns: Seq<ModuleGraphConnection>,
    request: Seq<char>,
    from: int,
) -> bool
    decreases conns.len() - from,
{
    if from >= conns.len() {
        true
    } else if module_index(modules, conns[from].module, 0) >= modules.len() {
        false
    } else if leads_to_external(modules, conns[from], request) {
        true
    } else {
        search_defined(modules, conns, request, from + 1)
    }
}

/// Handling the dependency `pair.1` looks up only modules of the graph: where
/// it is an import, the search for its external module is.
pub open spec fn pair_defined(
    modules: Seq<GraphModule>,
    deps: Seq<DependencyModel>,
    conns: Seq<ModuleGraphConnection>,
    pair: (BlockId, DependencyId),
) -> bool {
    let di = dependency_index(deps, pair.1, 0);
    di < deps.len() ==> match deps[di] {
        DependencyModel::Import { request, .. } => search_defined(modules, conns, request, 0),
        _ => true,
    }
}

/// Rewriting the imports of module `m` in state `st` looks up only blocks
/// and modules of the graph: the module's blocks are in the graph, and
/// handling each of their dependencies is defined.
pub open spec fn module_defined(modules: Seq<GraphModule>, st: GraphState, m: GraphModule) -> bool {
    let conns = outgoing(st.connections, m.id, st.connections.len() as int);
    let pairs = dependency_pairs(st.blocks, m.blocks@, m.blocks@.len() as int);
    &&& forall|j: int| 0 <= j < m.blocks@.len() ==> block_index(st.blocks, #[trigger] m.blocks@[j], 0) < st.blocks.len()
    &&& forall|k: int| 0 <= k < pairs.len() ==> pair_defined(modules, st.dependencies, conns, #[trigger] pairs[k])
}

/// Rewriting the imports of the first `k` modules, in order, looks up only
/// blocks and modules of the graph.
pub open spec fn rewrites_defined(modules: Seq<GraphModule>, st: GraphState, k: int) -> bool
    decreases k,
{
    if k <= 0 {
        true
    } else {
        rewrites_defined(modules, st, k - 1) && module_defined(
            modules,
            rewrite_imports(modules, st, k - 1),
            modules[k - 1],
        )
    }
}

proof fn lemma_rewrites_defined_prefix(modules: Seq<GraphModule>, st: GraphState, n: int, j: int)
    requires
        0 <= j < n,
        rewrites_defined(modules, st, n),
    ensures
        module_defined(modules, rewrite_imports(modules, st, j), modules[j]),
    decreases n,
{
    if j < n - 1 {
        lemma_rewrites_defined_prefix(modules, st, n - 1, j);
    }
}

/// The dependencies of `st2` are those of `st` followed by new ones: the
/// `j`-th new one has the identity that the counter of `st` reaches after `j`
/// steps, and the counter has taken one step per new dependency.
pub open spec fn dependencies_appended(st: GraphState, st2: GraphState) -> bool {
    let n = st.dependencies.len();
    &&& n <= st2.dependencies.len()
    &&& st2.dependencies.take(n as int) == st.dependencies
    &&& forall|j: int|
        n <= j < st2.dependencies.len() ==> (#[trigger] st2.dependencies[j]).id().value == ids_after(
            st.next_id,
            (j - n) as nat,
        )
    &&& st2.next_id == ids_after(st.next_id, (st2.dependencies.len() - n) as nat)
}

/// Every identity in the state is below `bound`: those of the dependencies
/// and those that the blocks list.
pub open spec fn ids_below(st: GraphState, bound: u32) -> bool {
    &&& forall|i: int| 0 <= i < st.dependencies.len() ==> (#[trigger] st.dependencies[i]).id().value < bound
    &&& forall|b: int, k: int|
        0 <= b < st.blocks.len() && 0 <= k < st.blocks[b].1.len() ==> (#[trigger] st.blocks[b].1[k]).value < bound
}

/// The dependencies that `st2` adds to `st` have identities that no earlier
/// dependency has, and that no block of `st` lists.
pub open spec fn new_ids_fresh(st: GraphState, st2: GraphState) -> bool {
    let n = st.dependencies.len();
    &&& forall|i: int, j: int|
        0 <= i < j < st2.dependencies.len() && n <= j ==> (#[trigger] st2.dependencies[i]).id()
            != (#[trigger] st2.dependencies[j]).id()
    &&& forall|b: int, k: int, j: int|
        0 <= b < st.blocks.len() && 0 <= k < st.blocks[b].1.len() && n <= j < st2.dependencies.len() ==> (
        #[trigger] st.blocks[b].1[k]) != (#[trigger] st2.dependencies[j]).id()
}

proof fn lemma_ids_after_add(s: u32, m: nat, k: nat)
    ensures
        ids_after(ids_after(s, m), k) == ids_after(s, m + k),
    decreases k,
{
    if k > 0 {
        lemma_ids_after_add(s, m, (k - 1) as nat);
        assert((m + k - 1) as nat == (m + (k - 1)) as nat);
    }
}

proof fn lemma_appended_refl(st: GraphState)
    ensures
        dependencies_appended(st, st),
{
    assert(st.dependencies.take(st.dependencies.len() as int) =~= st.dependencies);
}

proof fn lemma_appended_item(st: GraphState, p: PlanModel)
    ensures
        dependencies_appended(st, apply_plan_item(st, p)),
{
    let st2 = apply_plan_item(st, p);
    assert(st2.dependencies.take(st.dependencies.len() as int) =~= st.dependencies);
    assert(ids_after(st.next_id, 0) == st.next_id);
    assert(ids_after(st.next_id, 1) == next_id_after(ids_after(st.next_id, 0)));
}

proof fn lemma_appended_trans(a: GraphState, b: GraphState, c: GraphState)
    requires
        dependencies_appended(a, b),
        dependencies_appended(b, c),
    ensures
        dependencies_appended(a, c),
{
    let na = a.dependencies.len();
    let nb = b.dependencies.len();
    assert(c.dependencies.take(na as int) =~= b.dependencies.take(na as int)) by {
        assert forall|i: int| 0 <= i < na implies c.dependencies[i] == b.dependencies[i] by {
            assert(c.dependencies.take(nb as int)[i] == c.dependencies[i]);
        }
    }
    assert forall|j: int| na <= j < c.dependencies.len() implies (#[trigger] c.dependencies[j]).id().value
        == ids_after(a.next_id, (j - na) as nat) by {
        if j < nb {
            assert(c.dependencies.take(nb as int)[j] == c.dependencies[j]);
            assert(b.dependencies[j] == c.dependencies[j]);
        } else {
            lemma_ids_after_add(a.next_id, (nb - na) as nat, (j - nb) as nat);
            assert(((nb - na) + (j - nb)) as nat == (j - na) as nat);
        }
    }
    lemma_ids_after_add(a.next_id, (nb - na) as nat, (c.dependencies.len() - nb) as nat);
    assert(((nb - na) + (c.dependencies.len() - nb)) as nat == (c.dependencies.len() - na) as nat);
}

proof fn lemma_appended_plan(st: GraphState, ps: Seq<PlanModel>, n: int)
    requires
        0 <= n,
    ensures
        dependencies_appended(st, apply_plan(st, ps, n)),
    decreases n,
{
    if n <= 0 {
        lemma_appended_refl(st);
    } else {
        lemma_appended_plan(st, ps, n - 1);
        lemma_appended_item(apply_plan(st, ps, n - 1), ps[n - 1]);
        lemma_appended_trans(st, apply_plan(st, ps, n - 1), apply_plan(st, ps, n));
    }
}

/// Rewriting the imports only adds dependencies, each with the next
/// identity of the counter, in turn.
pub proof fn lemma_rewrite_appends_dependencies(modules: Seq<GraphModule>, st: GraphState, k: int)
    requires
        0 <= k,
    ensures
        dependencies_appended(st, rewrite_imports(modules, st, k)),
    decreases k,
{
    if k <= 0 {
        lemma_appended_refl(st);
    } else {
        let prev = rewrite_imports(modules, st, k - 1);
        lemma_rewrite_appends_dependencies(modules, st, k - 1);
        let ps = module_plan(modules, prev, modules[k - 1]);
        lemma_appended_plan(prev, ps, ps.len() as int);
        lemma_appended_trans(st, prev, rewrite_imports(modules, st, k));
    }
}

/// Where every identity of `st` is below its counter and the counter does
/// not wrap around, the dependencies added after `st` have fresh identities.
pub proof fn lemma_appended_fresh(st: GraphState, st2: GraphState)
    requires
        dependencies_appended(st, st2),
        ids_below(st, st.next_id),
        st.next_id + (st2.dependencies.len() - st.dependencies.len()) <= u32::MAX,
    ensures
        new_ids_fresh(st, st2),
{
    let n = st.dependencies.len();
    let s = st.next_id;
    assert forall|j: int| n <= j < st2.dependencies.len() implies (#[trigger] st2.dependencies[j]).id().value == s + (j
        - n) by {
        crate::dependency::lemma_ids_after_no_wrap(s, (j - n) as nat);
    }
    assert forall|i: int, j: int|
        0 <= i < j < st2.dependencies.len() && n <= j implies (#[trigger] st2.dependencies[i]).id()
        != (#[trigger] st2.dependencies[j]).id() by {
        if i < n {
            assert(st2.dependencies.take(n as int)[i] == st2.dependencies[i]);
            assert(st.dependencies[i].id().value < s);
        }
    }
}

proof fn lemma_block_index_range(s: Seq<BlockModel>, b: BlockId, from: int)
    requires
        0 <= from <= s.len(),
    ensures
        from <= block_index(s, b, from) <= s.len(),
        block_index(s, b, from) < s.len() ==> s[block_index(s, b, from)].0 == b,
    decreases s.len() - from,
{
    if from < s.len() {
        lemma_block_index_range(s, b, from + 1);
    }
}

/// The planned rewrites are of blocks among the pairs.
proof fn lemma_plan_blocks(
    modules: Seq<GraphModule>,
    deps: Seq<DependencyModel>,
    conns: Seq<ModuleGraphConnection>,
    pairs: Seq<(BlockId, DependencyId)>,
    n: int,
)
    requires
        0 <= n <= pairs.len(),
    ensures
        forall|k: int|
            0 <= k < plan(modules, deps, conns, pairs, n).len() ==> exists|i: int|
                0 <= i < n && pairs[i].0 == (#[trigger] plan(modules, deps, conns, pairs, n)[k]).block,
    decreases n,
{
    if n > 0 {
        lemma_plan_blocks(modules, deps, conns, pairs, n - 1);
        let prev = plan(modules, deps, conns, pairs, n - 1);
        let cur = plan(modules, deps, conns, pairs, n);
        assert forall|k: int| 0 <= k < cur.len() implies exists|i: int|
            0 <= i < n && pairs[i].0 == (#[trigger] cur[k]).block by {
            if k < prev.len() {
                assert(cur[k] == prev[k]);
                let i = choose|i: int| 0 <= i < n - 1 && pairs[i].0 == prev[k].block;
                assert(0 <= i < n && pairs[i].0 == cur[k].block);
            } else {
                assert(pairs[n - 1].0 == cur[k].block);
            }
        }
    }
}

/// The pairs are of blocks of the module.
proof fn lemma_pairs_blocks(blocks: Seq<BlockModel>, mb: Seq<BlockId>, n: int)
    requires
        0 <= n <= mb.len(),
    ensures
        forall|k: int|
            0 <= k < dependency_pairs(blocks, mb, n).len() ==> exists|i: int|
                0 <= i < n && mb[i] == (#[trigger] dependency_pairs(blocks, mb, n)[k]).0,
    decreases n,
{
    if n > 0 {
        lemma_pairs_blocks(blocks, mb, n - 1);
        let prev = dependency_pairs(blocks, mb, n - 1);
        let cur = dependency_pairs(blocks, mb, n);
        let b = mb[n - 1];
        let tail = block_dependencies(blocks, b).map_values(|d: DependencyId| (b, d));
        assert forall|k: int| 0 <= k < cur.len() implies exists|i: int|
            0 <= i < n && mb[i] == (#[trigger] cur[k]).0 by {
            if k < prev.len() {
                assert(cur[k] == prev[k]);
                let i = choose|i: int| 0 <= i < n - 1 && mb[i] == prev[k].0;
                assert(0 <= i < n && mb[i] == cur[k].0);
            } else {
                assert(cur[k] == tail[k - prev.len()]);
                assert(mb[n - 1] == cur[k].0);
            }
        }
    }
}

/// Every dependency of every block of a module is handled, and nothing else:
/// a (block, dependency) pair is among the pairs of the module's first `n`
/// blocks exactly where the block is one of them and the dependency is listed
/// in that block.
pub proof fn lemma_pairs_cover_blocks(blocks: Seq<BlockModel>, mb: Seq<BlockId>, n: int)
    requires
        0 <= n <= mb.len(),
    ensures
        forall|b: BlockId, d: DependencyId|
            #[trigger] dependency_pairs(blocks, mb, n).contains((b, d)) <==> exists|i: int|
                0 <= i < n && mb[i] == b && blocks[block_index(blocks, b, 0)].1.contains(d),
    decreases n,
{
    if n > 0 {
        lemma_pairs_cover_blocks(blocks, mb, n - 1);
        let prev = dependency_pairs(blocks, mb, n - 1);
        let cur = dependency_pairs(blocks, mb, n);
        let bn = mb[n - 1];
        let deps = blocks[block_index(blocks, bn, 0)].1;
        let tail = deps.map_values(|x: DependencyId| (bn, x));
        assert(cur == prev + tail);
        assert forall|b: BlockId, d: DependencyId|
            #[trigger] cur.contains((b, d)) <==> exists|i: int|
                0 <= i < n && mb[i] == b && blocks[block_index(blocks, b, 0)].1.contains(d) by {
            if cur.contains((b, d)) {
                let k = choose|k: int| 0 <= k < cur.len() && cur[k] == (b, d);
                if k < prev.len() {
                    assert(prev[k] == cur[k]);
                    assert(prev.contains((b, d)));
                } else {
                    assert(cur[k] == tail[k - prev.len()]);
                    assert(deps[k - prev.len()] == d);
                    assert(deps.contains(d));
                    assert(0 <= n - 1 < n && mb[n - 1] == b);
                }
            }
            if exists|i: int| 0 <= i < n && mb[i] == b && blocks[block_index(blocks, b, 0)].1.contains(d) {
                let i = choose|i: int| 0 <= i < n && mb[i] == b && blocks[block_index(blocks, b, 0)].1.contains(d);
                if i < n - 1 {
                    assert(prev.contains((b, d)));
                    let k = choose|k: int| 0 <= k < prev.len() && prev[k] == (b, d);
                    assert(cur[k] == prev[k]);
                } else {
                    let k = choose|k: int| 0 <= k < deps.len() && deps[k] == d;
                    assert(tail[k] == (b, d));
                    assert(cur[prev.len() + k] == tail[k]);
                }
            }
        }
    }
}

/// Only one block changes: the others keep their indexes.
proof fn lemma_block_index_update(s: Seq<BlockModel>, i: int, x: Seq<DependencyId>, b: BlockId, from: int)
    requires
        0 <= i < s.len(),
        0 <= from,
    ensures
        block_index(s.update(i, (s[i].0, x)), b, from) == block_index(s, b, from),
    decreases s.len() - from,
{
    if from < s.len() {
        lemma_block_index_update(s, i, x, b, from + 1);
    }
}

/// A rewrite keeps the blocks, their number and their identities.
proof fn lemma_apply_item_blocks(st: GraphState, p: PlanModel)
    requires
        block_index(st.blocks, p.block, 0) < st.blocks.len(),
    ensures
        apply_plan_item(st, p).blocks.len() == st.blocks.len(),
        forall|b: BlockId| block_index(apply_plan_item(st, p).blocks, b, 0) == block_index(st.blocks, b, 0),
{
    let bi = block_index(st.blocks, p.block, 0);
    lemma_block_index_range(st.blocks, p.block, 0);
    let deps = st.blocks[bi].1;
    let x = without_dep(deps, p.dependency, deps.len() as int).push(DependencyId { value: st.next_id });
    assert forall|b: BlockId| block_index(apply_plan_item(st, p).blocks, b, 0) == block_index(st.blocks, b, 0) by {
        lemma_block_index_update(st.blocks, bi, x, b, 0);
    }
}

/// The counter after `n` rewrites.
proof fn lemma_apply_plan_next_id(st: GraphState, ps: Seq<PlanModel>, n: int)
    requires
        0 <= n,
    ensures
        apply_plan(st, ps, n).next_id == crate::dependency::ids_after(st.next_id, n as nat),
    decreases n,
{
    if n > 0 {
        lemma_apply_plan_next_id(st, ps, n - 1);
    }
}

/// The (block, dependency) pairs of module `mi`, in order.
pub fn module_dependency_pairs(g: &ModuleGraph, mi: usize) -> (r: Vec<(BlockId, DependencyId)>)
    requires
        mi < g.modules@.len(),
        forall|j: int|
            0 <= j < g.modules@[mi as int].blocks@.len() ==> block_index(
                blocks_view(g.blocks@),
                #[trigger] g.modules@[mi as int].blocks@[j],
                0,
            ) < g.blocks@.len(),
    ensures
        r@ == dependency_pairs(
            blocks_view(g.blocks@),
            g.modules@[mi as int].blocks@,
            g.modules@[mi as int].blocks@.len() as int,
        ),
{
    let ghost bv = blocks_view(g.blocks@);
    let module_blocks = &g.modules[mi].blocks;
    let mut r: Vec<(BlockId, DependencyId)> = Vec::new();
    let mut i: usize = 0;
    while i < module_blocks.len()
        invariant
            bv == blocks_view(g.blocks@),
            module_blocks@ == g.modules@[mi as int].blocks@,
            i <= module_blocks@.len(),
            forall|j: int|
                0 <= j < module_blocks@.len() ==> block_index(bv, #[trigger] module_blocks@[j], 0)
                    < g.blocks@.len(),
            r@ == dependency_pairs(bv, module_blocks@, i as int),
        decreases module_blocks@.len() - i,
    {
        let b = module_blocks[i];
        let bi = find_block(&g.blocks, b);
        assert(bi < g.blocks@.len());
        let deps = &g.blocks[bi].dependencies;
        let ghost prev = r@;
        let mut k: usize = 0;
        while k < deps.len()
            invariant
                k <= deps@.len(),
                r@ == prev + deps@.take(k as int).map_values(|d: DependencyId| (b, d)),
            decreases deps@.len() - k,
        {
            r.push((b, deps[k]));
            assert(deps@.take(k + 1).map_values(|d: DependencyId| (b, d)) =~= deps@.take(
                k as int,
            ).map_values(|d: DependencyId| (b, d)).push((b, deps@[k as int])));
            k = k + 1;
        }
        assert(deps@.take(deps@.len() as int) =~= deps@);
        assert(bv[bi as int].1 == deps@);
        i = i + 1;
    }
    r
}

/// The index of the first of `conns` that leads to an external module for
/// `request`.
pub fn find_external_connection(
    modules: &Vec<GraphModule>,
    conns: &Vec<ModuleGraphConnection>,
    request: &String,
) -> (r: usize)
    requires
        search_defined(modules@, conns@, request@, 0),
    ensures
        r == first_external_connection(modules@, conns@, request@, 0),
        r < conns@.len() ==> module_index(modules@, conns@[r as int].module, 0) < modules@.len(),
{
    let mut i: usize = 0;
    while i < conns.len()
        invariant
            i <= conns@.len(),
            first_external_connection(modules@, conns@, request@, 0) == first_external_connection(
                modules@,
                conns@,
                request@,
                i as int,
            ),
            search_defined(modules@, conns@, request@, i as int),
        decreases conns@.len() - i,
    {
        let mi = find_module(modules, conns[i].module);
        assert(mi < modules@.len());
        let leads = match &modules[mi].kind {
            ModuleKind::External(em) => em.user_request == *request,
            _ => false,
        };
        if leads {
            return i;
        }
        i = i + 1;
    }
    i
}

/// A planned rewrite, with the dependency that takes the old one's place.
pub struct PlannedRewrite {
    pub block: BlockId,
    pub dependency: DependencyId,
    pub new_dependency: ModernModuleImportDependency,
    pub connection: ConnectionId,
}

impl View for PlannedRewrite {
    type V = PlanModel;

    open spec fn view(&self) -> PlanModel {
        PlanModel {
            block: self.block,
            dependency: self.dependency,
            request: self.new_dependency.request@,
            target_request: self.new_dependency.target_request@,
            range: self.new_dependency.range,
            connection: self.connection,
        }
    }
}

/// Plans the rewrites of the given pairs; each new dependency takes the
/// next identity.
pub fn plan_rewrites(
    modules: &Vec<GraphModule>,
    deps: &Vec<GraphDependency>,
    conns: &Vec<ModuleGraphConnection>,
    pairs: &Vec<(BlockId, DependencyId)>,
    ids: &mut DependencyIdAllocator,
) -> (r: Vec<PlannedRewrite>)
    requires
        forall|k: int| 0 <= k < pairs@.len() ==> pair_defined(modules@, dependencies_view(deps@), conns@, #[trigger] pairs@[k]),
    ensures
        ({
            let ps = plan(modules@, dependencies_view(deps@), conns@, pairs@, pairs@.len() as int);
            &&& r@.len() == ps.len()
            &&& forall|j: int| 0 <= j < r@.len() ==> (#[trigger] r@[j])@ == ps[j]
                && r@[j].new_dependency.id.value == crate::dependency::ids_after(old(ids).next(), j as nat)
            &&& final(ids).next() == crate::dependency::ids_after(old(ids).next(), r@.len() as nat)
        }),
{
    let ghost dv = dependencies_view(deps@);
    let ghost start = ids.next();
    let mut r: Vec<PlannedRewrite> = Vec::new();
    let mut i: usize = 0;
    while i < pairs.len()
        invariant
            i <= pairs@.len(),
            dv == dependencies_view(deps@),
            forall|k: int| 0 <= k < pairs@.len() ==> pair_defined(modules@, dv, conns@, #[trigger] pairs@[k]),
            ({
                let ps = plan(modules@, dv, conns@, pairs@, i as int);
                &&& r@.len() == ps.len()
                &&& forall|j: int| 0 <= j < r@.len() ==> (#[trigger] r@[j])@ == ps[j]
                    && r@[j].new_dependency.id.value == crate::dependency::ids_after(start, j as nat)
                &&& ids.next() == crate::dependency::ids_after(start, r@.len() as nat)
            }),
        decreases pairs@.len() - i,
    {
        let (block, dep_id) = pairs[i];
        let di = find_dependency(deps, dep_id);
        if di < deps.len() {
            if let GraphDependency::Import(import) = &deps[di] {
                proof {
                    assert(pair_defined(modules@, dv, conns@, pairs@[i as int]));
                }
                let ci = find_external_connection(modules, conns, &import.request);
                if ci < conns.len() {
                    let mi = find_module(modules, conns[ci].module);
                    assert(mi < modules@.len());
                    if let ModuleKind::External(em) = &modules[mi].kind {
                        if let ExternalRequest::Single(v) = &em.request {
                            let new_dependency = ModernModuleImportDependency::new(
                                ids,
                                import.request.clone(),
                                v.primary.clone(),
                                import.range,
                            );
                            let ghost prev = r@;
                            r.push(PlannedRewrite { block, dependency: dep_id, new_dependency, connection: conns[ci].id });
                            assert(forall|j: int| 0 <= j < prev.len() ==> r@[j] == prev[j]);
                        }
                    }
                }
            }
        }
        i = i + 1;
    }
    r
}

/// The dependencies of `s` other than `x`.
fn remove_dependency_id(s: &Vec<DependencyId>, x: DependencyId) -> (r: Vec<DependencyId>)
    ensures
        r@ == without_dep(s@, x, s@.len() as int),
{
    let mut r: Vec<DependencyId> = Vec::new();
    let mut i: usize = 0;
    while i < s.len()
        invariant
            i <= s@.len(),
            r@ == without_dep(s@, x, i as int),
        decreases s@.len() - i,
    {
        if s[i] != x {
            r.push(s[i]);
        }
        i = i + 1;
    }
    r
}

/// The connections of `s` other than `id`.
fn revoke_connection(s: &Vec<ModuleGraphConnection>, id: ConnectionId) -> (r: Vec<ModuleGraphConnection>)
    ensures
        r@ == without_connection(s@, id, s@.len() as int),
{
    let mut r: Vec<ModuleGraphConnection> = Vec::new();
    let mut i: usize = 0;
    while i < s.len()
        invariant
            i <= s@.len(),
            r@ == without_connection(s@, id, i as int),
        decreases s@.len() - i,
    {
        if s[i].id != id {
            r.push(s[i]);
        }
        i = i + 1;
    }
    r
}

/// Makes one planned rewrite.
fn apply_rewrite(g: &mut ModuleGraph, item: PlannedRewrite)
    requires
        block_index(blocks_view(old(g).blocks@), item.block, 0) < old(g).blocks@.len(),
    ensures
        ({
            let st = GraphState {
                blocks: blocks_view(old(g).blocks@),
                dependencies: dependencies_view(old(g).dependencies@),
                connections: old(g).connections@,
                next_id: item.new_dependency.id.value,
            };
            let nst = apply_plan_item(st, item@);
            &&& blocks_view(final(g).blocks@) == nst.blocks
            &&& dependencies_view(final(g).dependencies@) == nst.dependencies
            &&& final(g).connections@ == nst.connections
        }),
        final(g).modules == old(g).modules,
{
    let ghost bv = blocks_view(g.blocks@);
    let bi = find_block(&g.blocks, item.block);
    let mut deps = remove_dependency_id(&g.blocks[bi].dependencies, item.dependency);
    deps.push(item.new_dependency.id);
    let id = g.blocks[bi].id;
    g.blocks.set(bi, AsyncDependenciesBlock { id, dependencies: deps });
    assert(blocks_view(g.blocks@) =~= bv.update(bi as int, (bv[bi as int].0, deps@)));
    let ghost dv = dependencies_view(g.dependencies@);
    let new_id = item.new_dependency.id;
    g.dependencies.push(GraphDependency::ModernModuleImport(item.new_dependency));
    assert(dependencies_view(g.dependencies@) =~= dv.push(
        DependencyModel::ModernModuleImport {
            id: new_id,
            request: item@.request,
            target_request: item@.target_request,
            range: item@.range,
        },
    ));
    let conns = revoke_connection(&g.connections, item.connection);
    g.connections = conns;
}

/// Rewrites the dynamic imports of every module, in order: an import whose
/// request an external module (with a single request) resolves, through the
/// first outgoing connection of the importing module that leads to such a
/// module, is replaced in its block by a new import of the external request,
/// the new dependency joins the graph, and that connection is revoked.
pub fn rewrite_external_imports(g: &mut ModuleGraph, ids: &mut DependencyIdAllocator)
    requires
        rewrites_defined(
            old(g).modules@,
            graph_state(*old(g), *old(ids)),
            old(g).modules@.len() as int,
        ),
    ensures
        final(g).modules@ == old(g).modules@,
        graph_state(*final(g), *final(ids)) == rewrite_imports(
            old(g).modules@,
            graph_state(*old(g), *old(ids)),
            old(g).modules@.len() as int,
        ),
        dependencies_appended(graph_state(*old(g), *old(ids)), graph_state(*final(g), *final(ids))),
        ids_below(graph_state(*old(g), *old(ids)), old(ids).next()) && old(ids).next() + (final(g).dependencies@.len()
            - old(g).dependencies@.len()) <= u32::MAX ==> new_ids_fresh(
            graph_state(*old(g), *old(ids)),
            graph_state(*final(g), *final(ids)),
        ),
{
    let ghost modules = g.modules@;
    let ghost st0 = graph_state(*g, *ids);
    let n = g.modules.len();
    let mut mi: usize = 0;
    while mi < n
        invariant
            n == modules.len(),
            mi <= n,
            g.modules@ == modules,
            graph_state(*g, *ids) == rewrite_imports(modules, st0, mi as int),
            rewrites_defined(modules, st0, n as int),
        decreases n - mi,
    {
        let ghost st = graph_state(*g, *ids);
        let mid = g.modules[mi].id;
        let conns = outgoing_connections(&g.connections, mid);
        proof {
            lemma_rewrites_defined_prefix(modules, st0, n as int, mi as int);
            assert forall|j: int| 0 <= j < g.modules@[mi as int].blocks@.len() implies block_index(
                blocks_view(g.blocks@),
                #[trigger] g.modules@[mi as int].blocks@[j],
                0,
            ) < g.blocks@.len() by {
                assert(block_index(st.blocks, modules[mi as int].blocks@[j], 0) < st.blocks.len());
            }
        }
        let pairs = module_dependency_pairs(g, mi);
        let planned = plan_rewrites(&g.modules, &g.dependencies, &conns, &pairs, ids);
        let ghost ps = module_plan(modules, st, modules[mi as int]);
        assert(ps == plan(modules, st.dependencies, conns@, pairs@, pairs@.len() as int));
        let ghost pv = planned@;
        let plen = planned.len();
        let mut planned = planned;
        proof {
            lemma_apply_plan_next_id(st, ps, pv.len() as int);
            let mb = modules[mi as int].blocks@;
            lemma_plan_blocks(modules, st.dependencies, conns@, pairs@, pairs@.len() as int);
            lemma_pairs_blocks(st.blocks, mb, mb.len() as int);
            assert forall|k: int| 0 <= k < ps.len() implies block_index(st.blocks, (#[trigger] ps[k]).block, 0) < st.blocks.len() by {
                let i = choose|i: int| 0 <= i < pairs@.len() && pairs@[i].0 == ps[k].block;
                let jj = choose|jj: int| 0 <= jj < mb.len() && mb[jj] == pairs@[i].0;
                assert(block_index(st.blocks, mb[jj], 0) < st.blocks.len());
            }
        }
        let mut j: usize = 0;
        while planned.len() > 0
            invariant
                g.modules@ == modules,
                0 <= j <= pv.len(),
                plen == pv.len(),
                planned@ == pv.skip(j as int),
                pv.len() == ps.len(),
                forall|k: int| 0 <= k < pv.len() ==> (#[trigger] pv[k])@ == ps[k]
                    && pv[k].new_dependency.id.value == crate::dependency::ids_after(st.next_id, k as nat),
                ids.next() == crate::dependency::ids_after(st.next_id, pv.len() as nat),
                apply_plan(st, ps, pv.len() as int).next_id == crate::dependency::ids_after(st.next_id, pv.len() as nat),
                forall|k: int| 0 <= k < ps.len() ==> block_index(st.blocks, (#[trigger] ps[k]).block, 0) < st.blocks.len(),
                forall|b: BlockId| block_index(apply_plan(st, ps, j as int).blocks, b, 0) == block_index(st.blocks, b, 0),
                apply_plan(st, ps, j as int).blocks.len() == st.blocks.len(),
                blocks_view(g.blocks@) == apply_plan(st, ps, j as int).blocks,
                dependencies_view(g.dependencies@) == apply_plan(st, ps, j as int).dependencies,
                g.connections@ == apply_plan(st, ps, j as int).connections,
            decreases planned@.len(),
        {
            let item = planned.remove(0);
            proof {
                assert(item == pv[j as int]);
                lemma_apply_plan_next_id(st, ps, j as int);
                lemma_apply_item_blocks(apply_plan(st, ps, j as int), ps[j as int]);
            }
            apply_rewrite(g, item);
            j = j + 1;
            assert(planned@ =~= pv.skip(j as int));
        }
        assert(j == pv.len());
        mi = mi + 1;
    }
    proof {
        lemma_rewrite_appends_dependencies(modules, st0, n as int);
        let st1 = graph_state(*g, *ids);
        assert(st1.dependencies.len() == g.dependencies@.len());
        assert(st0.dependencies.len() == old(g).dependencies@.len());
        if ids_below(st0, st0.next_id) && st0.next_id + (st1.dependencies.len() - st0.dependencies.len()) <= u32::MAX {
            lemma_appended_fresh(st0, st1);
        }
    }
}

proof fn lemma_without_dep_excludes(s: Seq<DependencyId>, x: DependencyId, n: int)
    requires
        0 <= n <= s.len(),
    ensures
        !without_dep(s, x, n).contains(x),
        forall|d: DependencyId| d != x && s.take(n).contains(d) ==> without_dep(s, x, n).contains(d),
    decreases n,
{
    if n > 0 {
        lemma_without_dep_excludes(s, x, n - 1);
        let prev = without_dep(s, x, n - 1);
        let cur = without_dep(s, x, n);
        assert forall|d: DependencyId| d != x && s.take(n).contains(d) implies cur.contains(d) by {
            let j = choose|j: int| 0 <= j < n && #[trigger] s.take(n)[j] == d;
            if j < n - 1 {
                assert(s.take(n - 1)[j] == d);
                assert(s.take(n - 1).contains(d));
                assert(prev.contains(d));
                let k = choose|k: int| 0 <= k < prev.len() && #[trigger] prev[k] == d;
                if s[n - 1] == x {
                    assert(cur == prev);
                } else {
                    assert(cur == prev.push(s[n - 1]));
                    assert(cur[k] == prev[k]);
                }
                assert(cur[k] == d);
            } else {
                assert(s[n - 1] == d);
                assert(cur == prev.push(s[n - 1]));
                assert(cur[cur.len() - 1] == d);
            }
        }
        if cur.contains(x) {
            let k = choose|k: int| 0 <= k < cur.len() && #[trigger] cur[k] == x;
            if k < prev.len() {
                assert(prev[k] == x);
            }
        }
    }
}

proof fn lemma_without_connection_excludes(s: Seq<ModuleGraphConnection>, id: ConnectionId, n: int)
    requires
        0 <= n <= s.len(),
    ensures
        forall|c: int| 0 <= c < without_connection(s, id, n).len() ==> (#[trigger] without_connection(s, id, n)[c]).id != id,
    decreases n,
{
    if n > 0 {
        lemma_without_connection_excludes(s, id, n - 1);
        let prev = without_connection(s, id, n - 1);
        let cur = without_connection(s, id, n);
        if s[n - 1].id != id {
            assert(cur == prev.push(s[n - 1]));
            assert forall|c: int| 0 <= c < cur.len() implies (#[trigger] cur[c]).id != id by {
                if c < prev.len() {
                    assert(cur[c] == prev[c]);
                }
            }
        }
    }
}

/// One rewrite of a dynamic import: the block no longer holds the old
/// dependency, and holds the new one last; every other dependency of the
/// block stays; the graph's dependencies gain the new import last; no
/// connection with the revoked identity remains; the blocks keep their
/// number and identities.
pub proof fn lemma_rewrite_replaces_import(st: GraphState, p: PlanModel)
    requires
        block_index(st.blocks, p.block, 0) < st.blocks.len(),
    ensures
        ({
            let bi = block_index(st.blocks, p.block, 0);
            let new_id = DependencyId { value: st.next_id };
            let nst = apply_plan_item(st, p);
            &&& nst.blocks.len() == st.blocks.len()
            &&& forall|i: int| 0 <= i < st.blocks.len() ==> (#[trigger] nst.blocks[i]).0 == st.blocks[i].0
            &&& forall|i: int| 0 <= i < st.blocks.len() && i != bi ==> (#[trigger] nst.blocks[i]).1 == st.blocks[i].1
            &&& !nst.blocks[bi].1.drop_last().contains(p.dependency)
            &&& nst.blocks[bi].1.last() == new_id
            &&& forall|d: DependencyId| d != p.dependency && st.blocks[bi].1.contains(d) ==> nst.blocks[bi].1.contains(d)
            &&& nst.dependencies == st.dependencies.push(
                DependencyModel::ModernModuleImport {
                    id: new_id,
                    request: p.request,
                    target_request: p.target_request,
                    range: p.range,
                },
            )
            &&& forall|c: int| 0 <= c < nst.connections.len() ==> (#[trigger] nst.connections[c]).id != p.connection
        }),
{
    let bi = block_index(st.blocks, p.block, 0);
    lemma_block_index_range(st.blocks, p.block, 0);
    let deps = st.blocks[bi].1;
    lemma_without_dep_excludes(deps, p.dependency, deps.len() as int);
    assert(deps.take(deps.len() as int) =~= deps);
    let w = without_dep(deps, p.dependency, deps.len() as int);
    let nst = apply_plan_item(st, p);
    assert(nst.blocks[bi].1.drop_last() =~= w);
    assert forall|d: DependencyId| d != p.dependency && st.blocks[bi].1.contains(d) implies nst.blocks[bi].1.contains(d) by {
        let k = choose|k: int| 0 <= k < w.len() && #[trigger] w[k] == d;
        assert(nst.blocks[bi].1[k] == d);
    }
    lemma_without_connection_excludes(st.connections, p.connection, st.connections.len() as int);
}

} // verus!
