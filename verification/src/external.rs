//! Externals: requests that are not bundled but resolved to an external
//! module (a global, a module system import, ...).
use vstd::prelude::*;
use vstd::string::*;

use crate::module_graph::ModuleGraph;
use crate::plugin::{taps_view, ApplyContext, HookName, PluginError};
use crate::pattern::{
    regex_is_match, has_type_prefix, is_type_char, type_prefix_at, CompiledPattern, EXTERNAL_TYPE_PREFIX_PATTERN,
};
use crate::text::{chars_of, owned, str_eq, string_of_range, views};

verus! {

/// The type of an external module, such as `"module"` or `"commonjs"`.
pub type ExternalType = String;

/// The request of an external module: a primary name and, optionally, a
/// property path inside it.
pub struct ExternalRequestValue {
    pub primary: String,
    pub rest: Option<Vec<String>>,
}

/// The model of an `ExternalRequestValue`.
pub struct RequestValueModel {
    pub primary: Seq<char>,
    pub rest: Option<Seq<Seq<char>>>,
}

pub open spec fn rest_view(rest: Option<Vec<String>>) -> Option<Seq<Seq<char>>> {
    match rest {
        Some(v) => Some(views(v@)),
        None => None,
    }
}

impl View for ExternalRequestValue {
    type V = RequestValueModel;

    open spec fn view(&self) -> RequestValueModel {
        RequestValueModel { primary: self.primary@, rest: rest_view(self.rest) }
    }
}

impl ExternalRequestValue {
    pub fn new(primary: String, rest: Option<Vec<String>>) -> (r: Self)
        ensures
            r.primary == primary,
            r.rest == rest,
    {
        ExternalRequestValue { primary, rest }
    }
}

/// One request, or one request per external type (`{ root: .., commonjs: .. }`,
/// the keyed form).
pub enum ExternalRequest {
    Single(ExternalRequestValue),
    Keyed(Vec<(String, ExternalRequestValue)>),
}

pub enum RequestModel {
    Single(RequestValueModel),
    Keyed(Seq<(Seq<char>, RequestValueModel)>),
}

pub open spec fn keyed_values_view(m: Seq<(String, ExternalRequestValue)>) -> Seq<(Seq<char>, RequestValueModel)> {
    m.map_values(|kv: (String, ExternalRequestValue)| (kv.0@, kv.1@))
}

impl View for ExternalRequest {
    type V = RequestModel;

    open spec fn view(&self) -> RequestModel {
        match self {
            ExternalRequest::Single(v) => RequestModel::Single(v@),
            ExternalRequest::Keyed(m) => RequestModel::Keyed(keyed_values_view(m@)),
        }
    }
}

/// The value an externals configuration gives to a request.
pub enum ExternalItemValue {
    String(String),
    Array(Vec<String>),
    Bool(bool),
    Object(Vec<(String, Vec<String>)>),
}

pub enum ItemValueModel {
    String(Seq<char>),
    Array(Seq<Seq<char>>),
    Bool(bool),
    Object(Seq<(Seq<char>, Seq<Seq<char>>)>),
}

pub open spec fn keyed_lists_view(m: Seq<(String, Vec<String>)>) -> Seq<(Seq<char>, Seq<Seq<char>>)> {
    m.map_values(|kv: (String, Vec<String>)| (kv.0@, views(kv.1@)))
}

impl View for ExternalItemValue {
    type V = ItemValueModel;

    open spec fn view(&self) -> ItemValueModel {
        match self {
            ExternalItemValue::String(s) => ItemValueModel::String(s@),
            ExternalItemValue::Array(a) => ItemValueModel::Array(views(a@)),
            ExternalItemValue::Bool(b) => ItemValueModel::Bool(*b),
            ExternalItemValue::Object(m) => ItemValueModel::Object(keyed_lists_view(m@)),
        }
    }
}

/// A module that is not bundled: what to request, and how.
pub struct ExternalModule {
    pub request: ExternalRequest,
    pub external_type: ExternalType,
    pub user_request: String,
}

pub struct ExternalModuleModel {
    pub request: RequestModel,
    pub external_type: Seq<char>,
    pub user_request: Seq<char>,
}

impl View for ExternalModule {
    type V = ExternalModuleModel;

    open spec fn view(&self) -> ExternalModuleModel {
        ExternalModuleModel {
            request: self.request@,
            external_type: self.external_type@,
            user_request: self.user_request@,
        }
    }
}

impl ExternalModule {
    pub fn new(request: ExternalRequest, external_type: ExternalType, user_request: String) -> (r: Self)
        ensures
            r.request == request,
            r.external_type == external_type,
            r.user_request == user_request,
    {
        ExternalModule { request, external_type, user_request }
    }
}

/// The index of the space that ends the type prefix of `v`.
pub open spec fn type_prefix_end(v: Seq<char>) -> int {
    choose|k: int| type_prefix_at(v, k)
}

/// `v` split into its type prefix and the rest (`"module lodash"` gives
/// `("module", "lodash")`), when it has one.
pub open spec fn split_external_type(v: Seq<char>) -> Option<(Seq<char>, Seq<char>)> {
    if has_type_prefix(v) {
        let k = type_prefix_end(v);
        Some((v.take(k), v.skip(k + 1)))
    } else {
        None
    }
}

/// Splits off the external type that a request may start with, as in
/// `"module lodash"` (`^[a-z0-9-]+ ` then split at the first space).
pub fn parse_external_type_from_str(v: &str) -> (r: Option<(ExternalType, String)>)
    ensures
        match r {
            Some((t, c)) => split_external_type(v@) == Some((t@, c@)),
            None => split_external_type(v@) is None,
        },
{
    match CompiledPattern::new(EXTERNAL_TYPE_PREFIX_PATTERN) {
        Ok(re) => split_type_prefix(&re, v),
        Err(_) => unreached(),
    }
}

/// `parse_external_type_from_str` with the prefix pattern compiled already.
fn split_type_prefix(re: &CompiledPattern, v: &str) -> (r: Option<(ExternalType, String)>)
    requires
        re.source() == EXTERNAL_TYPE_PREFIX_PATTERN@,
    ensures
        match r {
            Some((t, c)) => split_external_type(v@) == Some((t@, c@)),
            None => split_external_type(v@) is None,
        },
{
    if !re.is_match(v) {
        return None;
    }
    let chars = chars_of(v);
    let ghost k = type_prefix_end(v@);
    let mut i: usize = 0;
    while i < chars.len() && chars[i] != ' '
        invariant
            chars@ == v@,
            type_prefix_at(v@, k),
            i <= k,
        decreases chars@.len() - i,
    {
        assert(is_type_char(chars@[i as int]));
        i = i + 1;
    }
    proof {
        if (i as int) < k {
            assert(is_type_char(v@[i as int]));
        }
    }
    let t = string_of_range(&chars, 0, i);
    let c = string_of_range(&chars, i + 1, chars.len());
    assert(v@.take(k) =~= chars@.subrange(0, i as int));
    assert(v@.skip(k + 1) =~= chars@.subrange(i + 1, chars@.len() as int));
    Some((t, c))
}

/// The request value made of a non-empty list: its first element is the
/// primary request, the others (if any) the property path.
pub open spec fn request_value_of(items: Seq<Seq<char>>) -> RequestValueModel {
    RequestValueModel {
        primary: items[0],
        rest: if items.len() > 1 { Some(items.skip(1)) } else { None },
    }
}

/// The external type and the request of a configured string: the type
/// prefix it starts with, else `default_type` and the whole string.
pub open spec fn typed_request(c: Seq<char>, default_type: Seq<char>) -> (Seq<char>, Seq<char>) {
    match split_external_type(c) {
        Some((t, rest)) => (t, rest),
        None => (default_type, c),
    }
}

/// The request and external type that a configured value asks for, if any.
pub open spec fn spec_external_config(plugin_type: Seq<char>, config: ItemValueModel, request: Seq<char>) -> Option<(RequestModel, Seq<char>)> {
    match config {
        ItemValueModel::String(c) => {
            let (t, r) = typed_request(c, plugin_type);
            Some((RequestModel::Single(RequestValueModel { primary: r, rest: None }), t))
        },
        ItemValueModel::Array(arr) => {
            if arr.len() == 0 {
                None
            } else {
                let (t, primary) = typed_request(arr[0], plugin_type);
                Some(
                    (
                        RequestModel::Single(
                            RequestValueModel {
                                primary,
                                rest: request_value_of(arr).rest,
                            },
                        ),
                        t,
                    ),
                )
            }
        },
        ItemValueModel::Bool(b) => {
            if b {
                Some((RequestModel::Single(RequestValueModel { primary: request, rest: None }), plugin_type))
            } else {
                None
            }
        },
        ItemValueModel::Object(m) => Some(
            (
                RequestModel::Keyed(
                    m.map_values(|kv: (Seq<char>, Seq<Seq<char>>)| (kv.0, request_value_of(kv.1))),
                ),
                plugin_type,
            ),
        ),
    }
}

/// The external module that a configured value gives for a request; an
/// explicit `type_override` wins over the configured or default type.
pub open spec fn spec_handle_external(
    plugin_type: Seq<char>,
    config: ItemValueModel,
    type_override: Option<Seq<char>>,
    request: Seq<char>,
) -> Option<ExternalModuleModel> {
    match spec_external_config(plugin_type, config, request) {
        None => None,
        Some((req, t)) => Some(
            ExternalModuleModel {
                request: req,
                external_type: match type_override {
                    Some(o) => o,
                    None => t,
                },
                user_request: request,
            },
        ),
    }
}

/// Every list of an object value is non-empty.
pub open spec fn config_well_formed(config: ItemValueModel) -> bool {
    match config {
        ItemValueModel::Object(m) => lists_non_empty(m),
        _ => true,
    }
}

/// Every list of keyed lists is non-empty.
pub open spec fn lists_non_empty(m: Seq<(Seq<char>, Seq<Seq<char>>)>) -> bool {
    forall|i: int| 0 <= i < m.len() ==> (#[trigger] m[i]).1.len() > 0
}

/// A copy of `v[from..]`.
pub fn clone_strings_from(v: &Vec<String>, from: usize) -> (r: Vec<String>)
    requires
        from <= v@.len(),
    ensures
        views(r@) == views(v@).skip(from as int),
{
    let mut r: Vec<String> = Vec::new();
    let mut i = from;
    while i < v.len()
        invariant
            from <= i <= v@.len(),
            r@.len() == i - from,
            forall|j: int| 0 <= j < r@.len() ==> (#[trigger] r@[j])@ == v@[from + j]@,
        decreases v@.len() - i,
    {
        let s = v[i].clone();
        r.push(s);
        i = i + 1;
    }
    assert(views(r@) =~= views(v@).skip(from as int));
    r
}

/// The request value made of a non-empty list: its first element, and the
/// others only when there are any.
pub fn request_value_from_list(items: &Vec<String>) -> (r: ExternalRequestValue)
    requires
        items@.len() > 0,
    ensures
        r@ == request_value_of(views(items@)),
{
    let primary = items[0].clone();
    let rest = if items.len() > 1 {
        Some(clone_strings_from(items, 1))
    } else {
        None
    };
    ExternalRequestValue::new(primary, rest)
}

/// The type and request of a configured string.
fn typed_request_of(re: &CompiledPattern, c: &String, default_type: &ExternalType) -> (r: (ExternalType, String))
    requires
        re.source() == EXTERNAL_TYPE_PREFIX_PATTERN@,
    ensures
        (r.0@, r.1@) == typed_request(c@, default_type@),
{
    match split_type_prefix(re, c.as_str()) {
        Some((t, rest)) => (t, rest),
        None => (default_type.clone(), c.clone()),
    }
}

/// The module dependency whose request is being resolved.
pub struct ModuleDependency {
    pub request: String,
    pub category: String,
}

impl ModuleDependency {
    pub fn request(&self) -> (r: &str)
        ensures
            r@ == self.request@,
    {
        self.request.as_str()
    }

    pub fn set_request(&mut self, request: String)
        ensures
            final(self).request == request,
            final(self).category == old(self).category,
    {
        self.request = request;
    }
}

/// Keyed request values made of keyed non-empty lists.
fn keyed_request_values(m: &Vec<(String, Vec<String>)>) -> (r: Vec<(String, ExternalRequestValue)>)
    requires
        forall|i: int| 0 <= i < m@.len() ==> (#[trigger] m@[i]).1@.len() > 0,
    ensures
        keyed_values_view(r@) == keyed_lists_view(m@).map_values(
            |kv: (Seq<char>, Seq<Seq<char>>)| (kv.0, request_value_of(kv.1)),
        ),
{
    let mut r: Vec<(String, ExternalRequestValue)> = Vec::new();
    let mut i: usize = 0;
    while i < m.len()
        invariant
            i <= m@.len(),
            forall|j: int| 0 <= j < m@.len() ==> (#[trigger] m@[j]).1@.len() > 0,
            r@.len() == i,
            forall|j: int|
                0 <= j < i ==> (#[trigger] r@[j]).0@ == m@[j].0@ && r@[j].1@ == request_value_of(
                    views(m@[j].1@),
                ),
        decreases m@.len() - i,
    {
        let key = m[i].0.clone();
        let value = request_value_from_list(&m[i].1);
        r.push((key, value));
        i = i + 1;
    }
    assert(keyed_values_view(r@) =~= keyed_lists_view(m@).map_values(
        |kv: (Seq<char>, Seq<Seq<char>>)| (kv.0, request_value_of(kv.1)),
    ));
    r
}

/// Resolves requests to external modules by the configured externals.
pub struct ExternalsPlugin {
    externals: Vec<ExternalItem>,
    external_type: ExternalType,
    /// `EXTERNAL_TYPE_PREFIX_PATTERN`, compiled once.
    type_prefix: CompiledPattern,
}

/// A user function that decides externals, known to the caller by a handle.
pub struct ExternalFnHandle {
    pub id: u64,
}

/// One entry of the externals configuration.
pub enum ExternalItem {
    /// Requests mapped to values.
    Object(Vec<(String, ExternalItemValue)>),
    /// Requests that match a regular expression.
    RegExp(CompiledPattern),
    /// One request, resolved to itself.
    String(String),
    /// A user function that decides.
    Fn(ExternalFnHandle),
}

impl ExternalsPlugin {
    pub fn new(external_type: ExternalType, externals: Vec<ExternalItem>) -> (r: Self)
        requires
            externals_keyed_once(externals@),
        ensures
            r.externals() == externals@,
            r.external_type() == external_type@,
    {
        let type_prefix = match CompiledPattern::new(EXTERNAL_TYPE_PREFIX_PATTERN) {
            Ok(re) => re,
            Err(_) => unreached(),
        };
        ExternalsPlugin { externals, external_type, type_prefix }
    }

    /// The compiled prefix pattern is that of external types, and every
    /// object entry has distinct keys.
    #[verifier::type_invariant]
    spec fn well_formed(&self) -> bool {
        &&& self.type_prefix.source() == EXTERNAL_TYPE_PREFIX_PATTERN@
        &&& externals_keyed_once(self.externals@)
    }

    pub closed spec fn externals(&self) -> Seq<ExternalItem> {
        self.externals@
    }

    pub closed spec fn external_type(&self) -> Seq<char> {
        self.external_type@
    }

    /// The configured entries, in order.
    pub fn externals_list(&self) -> (r: &Vec<ExternalItem>)
        ensures
            r@ == self.externals(),
            externals_keyed_once(r@),
    {
        proof {
            use_type_invariant(self);
        }
        &self.externals
    }

    /// The external module that `config` makes of the dependency's request,
    /// or `None` where `config` is `false` or an empty list.
    pub fn handle_external(
        &self,
        config: &ExternalItemValue,
        external_type: Option<String>,
        dependency: &ModuleDependency,
    ) -> (r: Option<ExternalModule>)
        requires
            config_well_formed(config@),
        ensures
            match r {
                Some(m) => spec_handle_external(
                    self.external_type(),
                    config@,
                    match external_type {
                        Some(t) => Some(t@),
                        None => None,
                    },
                    dependency.request@,
                ) == Some(m@),
                None => spec_handle_external(
                    self.external_type(),
                    config@,
                    match external_type {
                        Some(t) => Some(t@),
                        None => None,
                    },
                    dependency.request@,
                ) is None,
            },
    {
        proof {
            use_type_invariant(self);
        }
        let (external_module_config, external_module_type) = match config {
            ExternalItemValue::String(c) => {
                let (t, request) = typed_request_of(&self.type_prefix, c, &self.external_type);
                (ExternalRequest::Single(ExternalRequestValue::new(request, None)), t)
            },
            ExternalItemValue::Array(arr) => {
                if arr.len() == 0 {
                    return None;
                }
                let (t, primary) = typed_request_of(&self.type_prefix, &arr[0], &self.external_type);
                let rest = if arr.len() > 1 {
                    Some(clone_strings_from(arr, 1))
                } else {
                    None
                };
                (ExternalRequest::Single(ExternalRequestValue::new(primary, rest)), t)
            },
            ExternalItemValue::Bool(b) => {
                if *b {
                    (
                        ExternalRequest::Single(
                            ExternalRequestValue::new(owned(dependency.request()), None),
                        ),
                        self.external_type.clone(),
                    )
                } else {
                    return None;
                }
            },
            ExternalItemValue::Object(m) => {
                proof {
                    assert forall|i: int| 0 <= i < m@.len() implies (#[trigger] m@[i]).1@.len() > 0 by {
                        assert(keyed_lists_view(m@)[i].1.len() > 0);
                    }
                }
                (ExternalRequest::Keyed(keyed_request_values(m)), self.external_type.clone())
            },
        };
        let t = match external_type {
            Some(t) => t,
            None => external_module_type,
        };
        Some(ExternalModule::new(external_module_config, t, owned(dependency.request())))
    }
}

/// The index of the first entry of `m` at or after `from` whose key is
/// `key`, or `m.len()`.
pub open spec fn first_key_index(m: Seq<(String, ExternalItemValue)>, key: Seq<char>, from: int) -> int
    decreases m.len() - from,
{
    if from >= m.len() {
        m.len() as int
    } else if m[from].0@ == key {
        from
    } else {
        first_key_index(m, key, from + 1)
    }
}

/// The keys of an object entry are distinct, as those of a map.
pub open spec fn object_keys_unique(m: Seq<(String, ExternalItemValue)>) -> bool {
    forall|i: int, j: int| 0 <= i < j < m.len() ==> (#[trigger] m[i]).0@ != (#[trigger] m[j]).0@
}

/// Every object entry of the externals has distinct keys.
pub open spec fn externals_keyed_once(items: Seq<ExternalItem>) -> bool {
    forall|k: int|
        0 <= k < items.len() ==> ((#[trigger] items[k]) matches ExternalItem::Object(m) ==> object_keys_unique(m@))
}

proof fn lemma_first_key_reaches(m: Seq<(String, ExternalItemValue)>, key: Seq<char>, from: int, i: int)
    requires
        object_keys_unique(m),
        0 <= from <= i < m.len(),
        m[i].0@ == key,
    ensures
        first_key_index(m, key, from) == i,
    decreases i - from,
{
    if from < i {
        assert(m[from].0@ != m[i].0@);
        lemma_first_key_reaches(m, key, from + 1, i);
    }
}

/// With distinct keys an object entry is looked up as a map: the entry found
/// for `key` is the one entry keyed `key`.
pub proof fn lemma_object_lookup_is_map(m: Seq<(String, ExternalItemValue)>, key: Seq<char>, i: int)
    requires
        object_keys_unique(m),
        0 <= i < m.len(),
        m[i].0@ == key,
    ensures
        first_key_index(m, key, 0) == i,
{
    lemma_first_key_reaches(m, key, 0, i);
}

/// The index in `m` of the entry keyed `key` (the first one), or `m.len()`.
pub fn object_index(m: &Vec<(String, ExternalItemValue)>, key: &str) -> (r: usize)
    ensures
        r == first_key_index(m@, key@, 0),
{
    let k = owned(key);
    let mut i: usize = 0;
    while i < m.len()
        invariant
            i <= m@.len(),
            k@ == key@,
            first_key_index(m@, key@, 0) == first_key_index(m@, key@, i as int),
        decreases m@.len() - i,
    {
        if m[i].0 == k {
            return i;
        }
        i = i + 1;
    }
    i
}

/// What one entry of the externals configuration makes of a request.
pub enum ItemDecision {
    /// The entry does not apply; the next one is asked.
    Pass,
    /// The entry applies and gives this value.
    Value(ItemValueModel),
    /// The entry is a user function, which must be called.
    CallFn,
}

/// What `item` makes of `request`: an object applies by its key, a regular
/// expression when it matches, a string when it is the request; the last two
/// give the request itself as the value.
pub open spec fn item_decision(item: ExternalItem, request: Seq<char>) -> ItemDecision {
    match item {
        ExternalItem::Object(m) => {
            let k = first_key_index(m@, request, 0);
            if k < m@.len() {
                ItemDecision::Value(m@[k].1@)
            } else {
                ItemDecision::Pass
            }
        },
        ExternalItem::RegExp(p) => {
            if regex_is_match(p.source(), request) {
                ItemDecision::Value(ItemValueModel::String(request))
            } else {
                ItemDecision::Pass
            }
        },
        ExternalItem::String(s) => {
            if s@ == request {
                ItemDecision::Value(ItemValueModel::String(request))
            } else {
                ItemDecision::Pass
            }
        },
        ExternalItem::Fn(_) => ItemDecision::CallFn,
    }
}

/// The index of the first entry at or after `from` that does not pass on
/// `request`, or `items.len()`.
pub open spec fn first_decisive(items: Seq<ExternalItem>, request: Seq<char>, from: int) -> int
    decreases items.len() - from,
{
    if from >= items.len() {
        items.len() as int
    } else if item_decision(items[from], request) is Pass {
        first_decisive(items, request, from + 1)
    } else {
        from
    }
}

/// The value of the entry that decides `request`, asking the entries from
/// index `from` on, can be handled (its object lists are non-empty), where
/// that entry gives a value.
pub open spec fn decision_well_formed(items: Seq<ExternalItem>, request: Seq<char>, from: int) -> bool {
    let k = first_decisive(items, request, from);
    k < items.len() ==> match item_decision(items[k], request) {
        ItemDecision::Value(v) => config_well_formed(v),
        _ => true,
    }
}

/// What the module factory asks to create.
pub struct ModuleFactoryCreateData {
    pub context: String,
    pub dependency: ModuleDependency,
    pub issuer: Option<String>,
}

pub struct ContextInfo {
    pub issuer: String,
}

/// What a user function of the externals configuration is called with.
pub struct ExternalItemFnCtx {
    pub context: String,
    pub request: String,
    pub dependency_type: String,
    pub context_info: ContextInfo,
}

/// What a user function of the externals configuration answers.
pub struct ExternalItemFnResult {
    pub result: Option<ExternalItemValue>,
    pub external_type: Option<ExternalType>,
}

/// The next step of resolving a request.
pub enum FactorizeAction {
    /// Resolved: the external module, or `None` (bundle the request).
    Done(Option<ExternalModule>),
    /// The user function of entry `index` must be called with `ctx`; its
    /// answer goes to `ExternalsPlugin::factorize_resume`.
    CallFn { index: usize, handle: u64, ctx: ExternalItemFnCtx },
}

pub open spec fn module_option_view(m: Option<ExternalModule>) -> Option<ExternalModuleModel> {
    match m {
        Some(m) => Some(m@),
        None => None,
    }
}

pub open spec fn string_option_view(s: Option<String>) -> Option<Seq<char>> {
    match s {
        Some(s) => Some(s@),
        None => None,
    }
}

/// The call context handed to a user function: the factory's context, the
/// request, the dependency's category and the issuer (empty when there is
/// none).
pub open spec fn fn_ctx_of(ctx: ExternalItemFnCtx, data: ModuleFactoryCreateData) -> bool {
    &&& ctx.context@ == data.context@
    &&& ctx.request@ == data.dependency.request@
    &&& ctx.dependency_type@ == data.dependency.category@
    &&& ctx.context_info.issuer@ == match data.issuer {
        Some(i) => i@,
        None => Seq::<char>::empty(),
    }
}

/// `r` is what the externals make of the dependency's request, asking the
/// entries from index `from` on: the first entry that does not pass decides.
pub open spec fn factorize_outcome(
    items: Seq<ExternalItem>,
    plugin_type: Seq<char>,
    data: ModuleFactoryCreateData,
    from: int,
    r: FactorizeAction,
) -> bool {
    let request = data.dependency.request@;
    let k = first_decisive(items, request, from);
    if k >= items.len() {
        r matches FactorizeAction::Done(None)
    } else {
        match item_decision(items[k], request) {
            ItemDecision::Value(v) => match r {
                FactorizeAction::Done(m) => module_option_view(m) == spec_handle_external(
                    plugin_type,
                    v,
                    None,
                    request,
                ),
                _ => false,
            },
            ItemDecision::CallFn => match r {
                FactorizeAction::CallFn { index, handle, ctx } => {
                    &&& index == k
                    &&& items[k] matches ExternalItem::Fn(h) && handle == h.id
                    &&& fn_ctx_of(ctx, data)
                },
                _ => false,
            },
            ItemDecision::Pass => false,
        }
    }
}

/// The context a user function is called with.
pub fn fn_ctx(data: &ModuleFactoryCreateData) -> (r: ExternalItemFnCtx)
    ensures
        fn_ctx_of(r, *data),
{
    let issuer = match &data.issuer {
        Some(i) => i.clone(),
        None => String::new(),
    };
    ExternalItemFnCtx {
        context: data.context.clone(),
        request: data.dependency.request.clone(),
        dependency_type: data.dependency.category.clone(),
        context_info: ContextInfo { issuer },
    }
}

/// An object value with an empty list cannot be handled.
proof fn lemma_empty_list_not_well_formed(m: Seq<(Seq<char>, Seq<Seq<char>>)>, i: int)
    requires
        0 <= i < m.len(),
        m[i].1.len() == 0,
    ensures
        !lists_non_empty(m),
{
}

impl ExternalItemValue {
    /// Whether the value can be handled: every list of an object value is
    /// non-empty.
    pub fn is_well_formed(&self) -> (r: bool)
        ensures
            r == config_well_formed(self@),
    {
        match self {
            ExternalItemValue::Object(m) => {
                let mut i: usize = 0;
                while i < m.len()
                    invariant
                        i <= m@.len(),
                        self@ == ItemValueModel::Object(keyed_lists_view(m@)),
                        forall|j: int| 0 <= j < i ==> (#[trigger] keyed_lists_view(m@)[j]).1.len() > 0,
                    decreases m@.len() - i,
                {
                    if m[i].1.len() == 0 {
                        proof {
                            lemma_empty_list_not_well_formed(keyed_lists_view(m@), i as int);
                        }
                        return false;
                    }
                    i = i + 1;
                }
                true
            },
            _ => true,
        }
    }
}

impl ExternalsPlugin {
    /// Whether the value of the entry that decides `request`, asking the
    /// entries from index `from` on, can be handled; resolving a request
    /// whose deciding value cannot be handled is not allowed.
    pub fn deciding_value_well_formed(&self, request: &str, from: usize) -> (r: bool)
        requires
            from <= self.externals().len(),
        ensures
            r == decision_well_formed(self.externals(), request@, from as int),
    {
        let mut i = from;
        while i < self.externals.len()
            invariant
                from <= i <= self.externals@.len(),
                first_decisive(self.externals@, request@, from as int) == first_decisive(
                    self.externals@,
                    request@,
                    i as int,
                ),
            decreases self.externals@.len() - i,
        {
            match &self.externals[i] {
                ExternalItem::Object(m) => {
                    let k = object_index(m, request);
                    if k < m.len() {
                        return m[k].1.is_well_formed();
                    }
                },
                ExternalItem::RegExp(p) => {
                    if p.test(request) {
                        return true;
                    }
                },
                ExternalItem::String(s) => {
                    if str_eq(s.as_str(), request) {
                        return true;
                    }
                },
                ExternalItem::Fn(_) => {
                    return true;
                },
            }
            i = i + 1;
        }
        true
    }
}

/// The request that `factorize` resolves: every dependency is first
/// pointed at `"."`.
pub open spec fn factorized_request() -> Seq<char> {
    "."@
}

impl ExternalsPlugin {
    /// Asks the entries from index `from` on, in order.
    fn scan_from(&self, data: &ModuleFactoryCreateData, from: usize) -> (r: FactorizeAction)
        requires
            from <= self.externals@.len(),
            decision_well_formed(self.externals@, data.dependency.request@, from as int),
        ensures
            factorize_outcome(self.externals@, self.external_type@, *data, from as int, r),
    {
        let request = data.dependency.request();
        let mut i = from;
        while i < self.externals.len()
            invariant
                from <= i <= self.externals@.len(),
                request@ == data.dependency.request@,
                decision_well_formed(self.externals@, data.dependency.request@, from as int),
                first_decisive(self.externals@, request@, from as int) == first_decisive(
                    self.externals@,
                    request@,
                    i as int,
                ),
            decreases self.externals@.len() - i,
        {
            match &self.externals[i] {
                ExternalItem::Object(m) => {
                    let k = object_index(m, request);
                    if k < m.len() {
                        return FactorizeAction::Done(self.handle_external(&m[k].1, None, &data.dependency));
                    }
                },
                ExternalItem::RegExp(p) => {
                    if p.test(request) {
                        let value = ExternalItemValue::String(owned(request));
                        return FactorizeAction::Done(self.handle_external(&value, None, &data.dependency));
                    }
                },
                ExternalItem::String(s) => {
                    if str_eq(s.as_str(), request) {
                        let value = ExternalItemValue::String(owned(request));
                        return FactorizeAction::Done(self.handle_external(&value, None, &data.dependency));
                    }
                },
                ExternalItem::Fn(h) => {
                    return FactorizeAction::CallFn { index: i, handle: h.id, ctx: fn_ctx(data) };
                },
            }
            i = i + 1;
        }
        FactorizeAction::Done(None)
    }

    /// Resolves the dependency of `data` by the externals: the dependency's
    /// request is first set to `"."`, then the first entry that applies to it
    /// decides. Where that entry is a user function, the caller calls it and
    /// hands its answer to `factorize_resume`.
    pub fn factorize(&self, data: &mut ModuleFactoryCreateData) -> (r: FactorizeAction)
        requires
            decision_well_formed(self.externals(), factorized_request(), 0),
        ensures
            final(data).dependency.request@ == factorized_request(),
            final(data).dependency.category == old(data).dependency.category,
            final(data).context == old(data).context,
            final(data).issuer == old(data).issuer,
            factorize_outcome(self.externals(), self.external_type(), *final(data), 0, r),
    {
        data.dependency.set_request(owned("."));
        self.scan_from(data, 0)
    }

    /// Goes on after the user function of entry `index` answered `result`:
    /// a value decides; no value passes on to the next entry.
    pub fn factorize_resume(
        &self,
        data: &ModuleFactoryCreateData,
        index: usize,
        result: ExternalItemFnResult,
    ) -> (r: FactorizeAction)
        requires
            index < self.externals().len(),
            result.result is None ==> decision_well_formed(self.externals(), data.dependency.request@, index + 1),
            result.result matches Some(v) ==> config_well_formed(v@),
        ensures
            match result.result {
                Some(v) => match r {
                    FactorizeAction::Done(m) => module_option_view(m) == spec_handle_external(
                        self.external_type(),
                        v@,
                        string_option_view(result.external_type),
                        data.dependency.request@,
                    ),
                    _ => false,
                },
                None => factorize_outcome(
                    self.externals(),
                    self.external_type(),
                    *data,
                    index + 1,
                    r,
                ),
            },
    {
        let n = self.externals.len();
        assert(index < n);
        match result.result {
            Some(v) => FactorizeAction::Done(self.handle_external(&v, result.external_type, &data.dependency)),
            None => self.scan_from(data, index + 1),
        }
    }
}

/// The name of the externals plugin.
pub open spec fn externals_plugin_name() -> Seq<char> {
    "rspack.ExternalsPlugin"@
}

impl ExternalsPlugin {
    pub fn name(&self) -> (r: &'static str)
        ensures
            r@ == externals_plugin_name(),
    {
        "rspack.ExternalsPlugin"
    }

    /// Once modules are built, the externals change nothing more.
    pub fn finish_modules(&self, graph: &mut ModuleGraph) -> (r: Result<(), PluginError>)
        ensures
            r is Ok,
            *final(graph) == *old(graph),
    {
        Ok(())
    }

    /// Taps module factorization and module finishing.
    pub fn apply(&self, ctx: &mut ApplyContext) -> (r: Result<(), PluginError>)
        ensures
            r is Ok,
            taps_view(final(ctx).taps@) == taps_view(old(ctx).taps@).push(
                (HookName::NormalModuleFactoryFactorize, externals_plugin_name()),
            ).push((HookName::CompilationFinishModules, externals_plugin_name())),
    {
        ctx.tap(HookName::NormalModuleFactoryFactorize, self.name());
        ctx.tap(HookName::CompilationFinishModules, self.name());
        Ok(())
    }
}

/// Splitting off a type prefix loses nothing: the type, a space and the
/// rest make the inner request, and the type is a non-empty run of
/// lower-case letters, digits and `-`.
pub proof fn lemma_split_external_type_roundtrip(v: Seq<char>)
    requires
        split_external_type(v) is Some,
    ensures
        ({
            let (t, rest) = split_external_type(v).unwrap();
            &&& v == t + seq![' '] + rest
            &&& t.len() > 0
            &&& forall|i: int| 0 <= i < t.len() ==> is_type_char(#[trigger] t[i])
        }),
{
    let k = type_prefix_end(v);
    let (t, rest) = split_external_type(v).unwrap();
    assert(v =~= t + seq![' '] + rest);
    assert forall|i: int| 0 <= i < t.len() implies is_type_char(#[trigger] t[i]) by {
        assert(t[i] == v[i]);
    }
}

/// What an external module is made of: its user request is the
/// dependency's request; an explicit type wins; `false` and an empty list
/// make no external module, `true` makes the request itself external.
pub proof fn lemma_handle_external_outline(
    plugin_type: Seq<char>,
    config: ItemValueModel,
    type_override: Option<Seq<char>>,
    request: Seq<char>,
)
    ensures
        spec_handle_external(plugin_type, config, type_override, request) matches Some(m) ==> m.user_request == request,
        type_override matches Some(o) ==> (spec_handle_external(plugin_type, config, type_override, request) matches Some(m)
            ==> m.external_type == o),
        config == ItemValueModel::Bool(false) ==> spec_handle_external(plugin_type, config, type_override, request) is None,
        config == ItemValueModel::Array(Seq::<Seq<char>>::empty()) ==> spec_handle_external(plugin_type, config, type_override, request) is None,
        config == ItemValueModel::Bool(true) ==> spec_handle_external(plugin_type, config, type_override, request) == Some(
            ExternalModuleModel {
                request: RequestModel::Single(RequestValueModel { primary: request, rest: None }),
                external_type: match type_override {
                    Some(o) => o,
                    None => plugin_type,
                },
                user_request: request,
            },
        ),
{
}

/// A list value makes one request: its first element, with its type prefix
/// split off (the prefix, else the plugin's type, is the external type), is
/// the primary request, and the elements after the first, when there are
/// any, are the property path.
pub proof fn lemma_array_value_request(
    plugin_type: Seq<char>,
    arr: Seq<Seq<char>>,
    type_override: Option<Seq<char>>,
    request: Seq<char>,
)
    requires
        arr.len() > 0,
    ensures
        ({
            let (t, primary) = match split_external_type(arr[0]) {
                Some((t, rest)) => (t, rest),
                None => (plugin_type, arr[0]),
            };
            spec_handle_external(plugin_type, ItemValueModel::Array(arr), type_override, request) == Some(
                ExternalModuleModel {
                    request: RequestModel::Single(
                        RequestValueModel {
                            primary,
                            rest: if arr.len() > 1 {
                                Some(arr.subrange(1, arr.len() as int))
                            } else {
                                None
                            },
                        },
                    ),
                    external_type: match type_override {
                        Some(o) => o,
                        None => t,
                    },
                    user_request: request,
                },
            )
        }),
{
    assert(arr.skip(1) =~= arr.subrange(1, arr.len() as int));
}

/// With no entry that decides, a request is not external; the first entry
/// that decides, decides.
pub proof fn lemma_first_decisive(items: Seq<ExternalItem>, request: Seq<char>, from: int)
    requires
        0 <= from <= items.len(),
    ensures
        from <= first_decisive(items, request, from) <= items.len(),
        forall|k: int| from <= k < first_decisive(items, request, from) ==> #[trigger] item_decision(items[k], request) is Pass,
        first_decisive(items, request, from) < items.len() ==> !(item_decision(items[first_decisive(items, request, from)], request) is Pass),
    decreases items.len() - from,
{
    if from < items.len() {
        lemma_first_decisive(items, request, from + 1);
    }
}

} // verus!
