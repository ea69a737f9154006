//! The parser plugin that records whether a module is in strict mode.
use vstd::prelude::*;

verus! {

/// The JavaScript parser options that the plugin reads.
pub struct JavascriptOptions {
    /// Forces strict mode on or off when set.
    pub strict: Option<bool>,
}

/// What is recorded about the module being built.
pub struct BuildInfo {
    pub strict: bool,
}

/// The parser state that the plugin reads and writes.
pub struct JavascriptParser {
    pub javascript_options: JavascriptOptions,
    pub build_info: BuildInfo,
}

/// Applies the `strict` parser option to the module's build info.
#[derive(Default, Debug, Clone, Copy)]
pub struct StrictPlugin;

impl StrictPlugin {
    /// At the start of a program: where the `strict` option is set, the
    /// module's build info takes its value; otherwise nothing changes. The
    /// plugin never stops the parse (`None`).
    pub fn program(&self, parser: &mut JavascriptParser) -> (r: Option<bool>)
        ensures
            r is None,
            final(parser).javascript_options == old(parser).javascript_options,
            final(parser).build_info.strict == match old(parser).javascript_options.strict {
                Some(strict) => strict,
                None => old(parser).build_info.strict,
            },
    {
        if let Some(strict) = parser.javascript_options.strict {
            parser.build_info.strict = strict;
        }
        None
    }
}

} // verus!
