//! What plugins share: their errors and the hooks they tap.
use vstd::prelude::*;
use vstd::string::*;

verus! {

/// An error raised by a plugin, with its message.
pub struct PluginError {
    pub message: String,
}

/// The hooks that the plugins here tap.
#[derive(Clone, Copy, PartialEq, Eq, Structural, Debug)]
pub enum HookName {
    CompilerCompilation,
    CompilationFinishModules,
    CompilationOptimizeChunkModules,
    ConcatenatedModuleExportsDefinitions,
    NormalModuleFactoryFactorize,
    JavascriptModulesRenderStartup,
    JavascriptModulesChunkHash,
}

/// A plugin's handler registered at a hook.
pub struct HookTap {
    pub hook: HookName,
    pub plugin: String,
}

/// The hooks of a compiler (or of the JavaScript modules of a compilation),
/// with the handlers tapped so far, in order.
pub struct ApplyContext {
    pub taps: Vec<HookTap>,
}

/// The (hook, plugin name) pairs of a list of taps.
pub open spec fn taps_view(taps: Seq<HookTap>) -> Seq<(HookName, Seq<char>)> {
    taps.map_values(|t: HookTap| (t.hook, t.plugin@))
}

impl ApplyContext {
    pub fn new() -> (r: Self)
        ensures
            r.taps@.len() == 0,
    {
        ApplyContext { taps: Vec::new() }
    }

    /// Registers `plugin`'s handler at `hook`, after those tapped before.
    pub fn tap(&mut self, hook: HookName, plugin: &str)
        ensures
            taps_view(final(self).taps@) == taps_view(old(self).taps@).push((hook, plugin@)),
    {
        let ghost prev = self.taps@;
        self.taps.push(HookTap { hook, plugin: String::from_str(plugin) });
        assert(taps_view(self.taps@) =~= taps_view(prev).push((hook, plugin@)));
    }
}

} // verus!
