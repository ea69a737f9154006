use rspack_plugins::drive::{
    Chunk, ChunkUkey, Compilation, JavascriptModulesPluginPlugin, JavascriptModulesPluginPluginDrive,
    JsChunkHashArgs, RenderJsArgs, RenderJsChunkArgs, RenderJsModuleContentArgs, RenderJsStartupArgs,
};
use rspack_plugins::modern_module::ChunkHasher;
use rspack_plugins::plugin::PluginError;
use rspack_plugins::runtime::RuntimeSpec;

/// A plugin that answers every hook with fixed values.
struct Fixed {
    answer: Option<String>,
    fail: bool,
    wrap: Option<&'static str>,
}

impl Fixed {
    fn out(&self) -> Result<Option<String>, PluginError> {
        if self.fail {
            Err(PluginError { message: "failed".to_string() })
        } else {
            Ok(self.answer.clone())
        }
    }
}

impl JavascriptModulesPluginPlugin for Fixed {
    fn render_chunk(&self, _args: &RenderJsChunkArgs) -> Result<Option<String>, PluginError> {
        self.out()
    }

    fn render(&self, _args: &RenderJsArgs) -> Result<Option<String>, PluginError> {
        self.out()
    }

    fn render_startup(&self, args: &RenderJsStartupArgs) -> Result<Option<String>, PluginError> {
        if self.fail {
            return Err(PluginError { message: "failed".to_string() });
        }
        Ok(self.wrap.map(|w| format!("{}({})", w, args.source)))
    }

    fn render_module_content<'a>(&'a self, args: RenderJsModuleContentArgs<'a>) -> Result<RenderJsModuleContentArgs<'a>, PluginError> {
        if self.fail {
            return Err(PluginError { message: "failed".to_string() });
        }
        match self.wrap {
            Some(w) => Ok(RenderJsModuleContentArgs { module_source: format!("{}({})", w, args.module_source), ..args }),
            None => Ok(args),
        }
    }

    fn js_chunk_hash(&self, args: &mut JsChunkHashArgs) -> Result<(), PluginError> {
        if let Some(a) = &self.answer {
            args.hasher.write_str(a);
        }
        Ok(())
    }

    fn inline_in_runtime_bailout(&self) -> Option<String> {
        self.answer.clone()
    }

    fn embed_in_runtime_bailout(&self, _c: &Compilation, _m: u64, _chunk: &Chunk) -> Result<Option<String>, PluginError> {
        self.out()
    }

    fn strict_runtime_bailout(&self, _c: &Compilation, _chunk: ChunkUkey) -> Result<Option<String>, PluginError> {
        self.out()
    }
}

fn fixed(answer: Option<&str>, fail: bool, wrap: Option<&'static str>) -> Box<dyn JavascriptModulesPluginPlugin> {
    Box::new(Fixed { answer: answer.map(|a| a.to_string()), fail, wrap })
}

fn compilation() -> Compilation {
    Compilation { chunk_by_ukey: vec![Chunk { ukey: ChunkUkey { value: 3 }, runtime: RuntimeSpec { names: vec!["main".to_string()] } }] }
}

#[test]
fn empty_drive_answers_nothing() {
    let drive = JavascriptModulesPluginPluginDrive::new();
    let c = compilation();
    let chunk = ChunkUkey { value: 3 };
    assert!(matches!(drive.render_chunk(RenderJsChunkArgs { compilation: &c, chunk_ukey: chunk, module_source: "m".to_string() }), Ok(None)));
    let src = "s".to_string();
    assert!(matches!(drive.render(RenderJsArgs { source: &src, chunk, compilation: &c }), Ok(None)));
    assert!(drive.inline_in_runtime_bailout().is_none());
    assert!(matches!(drive.strict_runtime_bailout(&c, chunk), Ok(None)));
    let out = drive.render_startup(RenderJsStartupArgs { compilation: &c, chunk, module: 1, source: "start".to_string() });
    assert!(matches!(out, Ok(Some(ref s)) if s == "start"));
    let h = drive.js_chunk_hash(JsChunkHashArgs { chunk_ukey: chunk, compilation: &c, hasher: ChunkHasher::new() });
    assert!(matches!(h, Ok(ref h) if h.written.is_empty()));
    let content = drive.render_module_content(RenderJsModuleContentArgs {
        module_source: "x".to_string(),
        chunk_init_fragments: vec![],
        compilation: &c,
        module: 1,
    });
    assert!(matches!(content, Ok(ref a) if a.module_source == "x"));
}

#[test]
fn first_answer_wins() {
    let mut drive = JavascriptModulesPluginPluginDrive::new();
    drive.add_plugin(fixed(None, false, None));
    drive.add_plugin(fixed(Some("second"), false, None));
    drive.add_plugin(fixed(Some("third"), false, None));
    let c = compilation();
    let chunk = ChunkUkey { value: 3 };
    let out = drive.render_chunk(RenderJsChunkArgs { compilation: &c, chunk_ukey: chunk, module_source: "m".to_string() });
    assert!(matches!(out, Ok(Some(ref s)) if s == "second"));
    assert_eq!(drive.inline_in_runtime_bailout(), Some("second".to_string()));
    let chunk_ref = c.expect_chunk(chunk);
    let out = drive.embed_in_runtime_bailout(&c, 1, chunk_ref);
    assert!(matches!(out, Ok(Some(ref s)) if s == "second"));
}

#[test]
fn failure_stops_the_drive() {
    let mut drive = JavascriptModulesPluginPluginDrive::new();
    drive.add_plugin(fixed(None, false, Some("a")));
    drive.add_plugin(fixed(Some("late"), true, None));
    drive.add_plugin(fixed(Some("never"), false, Some("b")));
    let c = compilation();
    let chunk = ChunkUkey { value: 3 };
    assert!(matches!(drive.strict_runtime_bailout(&c, chunk), Err(ref e) if e.message == "failed"));
    let out = drive.render_startup(RenderJsStartupArgs { compilation: &c, chunk, module: 1, source: "s".to_string() });
    assert!(matches!(out, Err(ref e) if e.message == "failed"));
}

#[test]
fn startup_goes_through_every_plugin() {
    let mut drive = JavascriptModulesPluginPluginDrive::new();
    drive.add_plugin(fixed(None, false, Some("a")));
    drive.add_plugin(fixed(None, false, None));
    drive.add_plugin(fixed(None, false, Some("b")));
    let c = compilation();
    let out = drive.render_startup(RenderJsStartupArgs { compilation: &c, chunk: ChunkUkey { value: 3 }, module: 1, source: "s".to_string() });
    assert!(matches!(out, Ok(Some(ref s)) if s == "b(a(s))"));
}

#[test]
fn hash_goes_through_every_plugin() {
    let mut drive = JavascriptModulesPluginPluginDrive::new();
    drive.add_plugin(fixed(Some("x"), false, None));
    drive.add_plugin(fixed(Some("y"), false, None));
    let c = compilation();
    let h = drive.js_chunk_hash(JsChunkHashArgs { chunk_ukey: ChunkUkey { value: 3 }, compilation: &c, hasher: ChunkHasher::new() });
    assert!(matches!(h, Ok(ref h) if h.written == vec!["x".to_string(), "y".to_string()]));
}

#[test]
fn chunk_lookup() {
    let c = compilation();
    let args = RenderJsStartupArgs { compilation: &c, chunk: ChunkUkey { value: 3 }, module: 1, source: String::new() };
    assert_eq!(args.chunk().runtime.names, vec!["main".to_string()]);
}

#[test]
fn shared_plugin_answers_as_itself() {
    let shared = std::sync::Arc::new(Fixed { answer: Some("shared".to_string()), fail: false, wrap: Some("w") });
    let mut drive = JavascriptModulesPluginPluginDrive::default();
    drive.add_plugin(Box::new(shared.clone()));
    assert_eq!(drive.inline_in_runtime_bailout(), Some("shared".to_string()));
    let c = compilation();
    let out = drive.render_startup(RenderJsStartupArgs { compilation: &c, chunk: ChunkUkey { value: 3 }, module: 1, source: "s".to_string() });
    assert!(matches!(out, Ok(Some(ref s)) if s == "w(s)"));
}

#[test]
fn module_content_goes_through_every_plugin() {
    let mut drive = JavascriptModulesPluginPluginDrive::new();
    drive.add_plugin(fixed(None, false, Some("a")));
    drive.add_plugin(fixed(None, false, Some("b")));
    let c = compilation();
    let out = drive.render_module_content(RenderJsModuleContentArgs {
        module_source: "m".to_string(),
        chunk_init_fragments: vec![],
        compilation: &c,
        module: 2,
    });
    assert!(matches!(out, Ok(ref a) if a.module_source == "b(a(m))" && a.module == 2));
    drive.add_plugin(fixed(None, true, None));
    let out = drive.render_module_content(RenderJsModuleContentArgs {
        module_source: "m".to_string(),
        chunk_init_fragments: vec![],
        compilation: &c,
        module: 2,
    });
    assert!(matches!(out, Err(ref e) if e.message == "failed"));
}
