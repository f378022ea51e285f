//! The style-sheet plugin: it claims style sheets, parses them under the
//! hygiene scope and renders the style modules of a chunk into one asset.

use crate::hygiene::{HygieneError, HygieneScope, Mark};
use crate::module::{chunk_ids, first_index, Compilation, Module, ModuleGraphModule, SourceType};
use crate::render::{
    chunk_manifest, manifest, manifest_view, members, of_type, outcome_texts, render_chunk,
    rendered_as, Asset, AssetView, RenderError, RenderErrorView,
};
use vstd::prelude::*;

verus! {

/// A style sheet, held as the text that it is printed as.
#[derive(Debug, Clone, PartialEq, Eq)]
pub struct CssModule {
    pub code: String,
}

impl Module for CssModule {
    /// The style sheet's text.
    fn render(&self, compilation: &Compilation<Self>) -> (outcome: Result<String, String>)
        ensures
            outcome == Ok::<String, String>(self.code),
    {
        Ok(self.code.clone())
    }
}

/// What a parse hook is called with.
#[derive(Debug, Clone, PartialEq, Eq)]
pub struct ParseModuleArgs {
    /// The location of the source, which identifies it.
    pub uri: String,
    /// The text of the source.
    pub source: String,
}

/// A source that did not parse.
#[derive(Debug, Clone, PartialEq, Eq)]
pub struct ParseDiagnostic {
    pub uri: String,
    pub message: String,
}

/// What a render hook is called with.
pub struct RenderManifestArgs<'a, M> {
    pub chunk_id: &'a String,
    pub compilation: &'a Compilation<M>,
}

/// What every plugin offers to the pipeline. The pipeline asks each plugin
/// what it claims, and hands parse and render work to those that claim it.
pub trait Plugin {
    /// The source types that the plugin parses, or nothing where it parses
    /// none.
    fn register_parse_module(&self) -> Option<Vec<SourceType>>;

    /// Parses a source of a type that the plugin claims: runs `parser` on
    /// it, under `scope`, and makes a module of what the parser returns, or
    /// a diagnostic that names the source.
    fn parse_module<M, P: FnOnce(&ParseModuleArgs) -> Result<M, String>>(
        &self,
        scope: &HygieneScope,
        args: ParseModuleArgs,
        parser: P,
    ) -> Result<ModuleGraphModule<M>, ParseDiagnostic>
        requires
            parser.requires((&args,)),
    ;

    /// Renders a chunk: no asset where the chunk holds nothing for the
    /// plugin, else one asset; an error where the chunk or one of its
    /// modules fails.
    fn render_manifest<M: Module + Sync>(&self, args: RenderManifestArgs<M>) -> Result<
        Vec<Asset>,
        RenderError,
    >;
}

/// The plugin for style sheets.
#[derive(Debug)]
pub struct CssPlugin {
    bundled_import_mark: Mark,
}

/// The name by which the plugin is known in errors.
pub open spec fn css_plugin_name() -> Seq<char> {
    "css"@
}

/// The extension of the assets that the plugin emits.
pub open spec fn css_extension() -> Seq<char> {
    "css"@
}

/// What the parse hook makes of what the parser returned: a style module
/// read from `uri`, or a diagnostic that names `uri`.
pub open spec fn parse_outcome<M>(uri: String, parsed: Result<M, String>) -> Result<
    ModuleGraphModule<M>,
    ParseDiagnostic,
> {
    match parsed {
        Ok(module) => Ok(ModuleGraphModule { uri, source_type: SourceType::Css, module }),
        Err(message) => Err(ParseDiagnostic { uri, message }),
    }
}

impl CssPlugin {
    /// The mark that this plugin got when it was made.
    pub closed spec fn mark(&self) -> Mark {
        self.bundled_import_mark
    }

    /// Makes a plugin, with a mark that `scope` has not handed out before.
    pub fn new(scope: &mut HygieneScope) -> (out: Result<CssPlugin, HygieneError>)
        ensures
            match out {
                Ok(plugin) => !old(scope).issued().contains(plugin.mark().id())
                    && final(scope).issued() == old(scope).issued().push(plugin.mark().id()),
                Err(HygieneError::Exhausted { raw }) => old(scope).issued().contains(raw)
                    && final(scope).issued() == old(scope).issued(),
            },
    {
        match scope.new_scope() {
            Ok(mark) => Ok(CssPlugin { bundled_import_mark: mark }),
            Err(error) => Err(error),
        }
    }

    /// The mark that this plugin got when it was made.
    pub fn bundled_import_mark(&self) -> (mark: Mark)
        ensures
            mark == self.mark(),
    {
        self.bundled_import_mark
    }

    /// Makes the module, or the diagnostic, of a source from what the parser
    /// returned for it.
    pub fn module_from<M>(&self, uri: String, parsed: Result<M, String>) -> (out: Result<
        ModuleGraphModule<M>,
        ParseDiagnostic,
    >)
        ensures
            out == parse_outcome(uri, parsed),
    {
        match parsed {
            Ok(module) => Ok(ModuleGraphModule { uri, source_type: SourceType::Css, module }),
            Err(message) => Err(ParseDiagnostic { uri, message }),
        }
    }
}

impl Plugin for CssPlugin {
    /// The source types that this plugin parses: style sheets, and no other.
    fn register_parse_module(&self) -> (claims: Option<Vec<SourceType>>)
        ensures
            claims matches Some(kinds) && kinds@ == seq![SourceType::Css],
    {
        let mut kinds: Vec<SourceType> = Vec::new();
        kinds.push(SourceType::Css);
        Some(kinds)
    }

    /// Parses a source: runs `parser` on it under `scope`, once, and makes a
    /// style module of what the parser returns, or a diagnostic of its
    /// message.
    fn parse_module<M, P: FnOnce(&ParseModuleArgs) -> Result<M, String>>(
        &self,
        scope: &HygieneScope,
        args: ParseModuleArgs,
        parser: P,
    ) -> (out: Result<ModuleGraphModule<M>, ParseDiagnostic>)
        ensures
            exists|parsed: Result<M, String>|
                parser.ensures((&args,), parsed) && out == parse_outcome(args.uri, parsed),
    {
        let source = &args;
        let work = move || -> (parsed: Result<M, String>)
            requires
                parser.requires((source,)),
            ensures
                parser.ensures((source,), parsed),
            { parser(source) };
        let parsed = scope.run_under(work);
        self.module_from(args.uri, parsed)
    }

    /// Renders the style modules of a chunk into one asset, named after the
    /// chunk.
    fn render_manifest<M: Module + Sync>(&self, args: RenderManifestArgs<M>) -> (out: Result<
        Vec<Asset>,
        RenderError,
    >)
        ensures
            chunk_manifest(
                args.compilation,
                args.chunk_id@,
                css_plugin_name(),
                css_extension(),
                SourceType::Css,
                manifest_view(out),
            ),
    {
        render_chunk(args.compilation, args.chunk_id, "css", "css", SourceType::Css)
    }
}

/// Rendering style sheets has one outcome: each module's text, in the
/// modules' order.
pub proof fn lemma_css_renderings(
    modules: Seq<ModuleGraphModule<CssModule>>,
    compilation: &Compilation<CssModule>,
    outcomes: Seq<Result<String, String>>,
)
    requires
        rendered_as(modules, compilation, outcomes),
    ensures
        outcome_texts(outcomes) == codes(modules),
{
    assert forall|i: int| 0 <= i < modules.len() implies outcome_texts(outcomes)[i] == Ok::<
        Seq<char>,
        Seq<char>,
    >(modules[i].module.code@) by {}
}

/// The texts of style modules, in their order.
pub open spec fn codes(modules: Seq<ModuleGraphModule<CssModule>>) -> Seq<
    Result<Seq<char>, Seq<char>>,
> {
    Seq::new(modules.len(), |i: int| Ok::<Seq<char>, Seq<char>>(modules[i].module.code@))
}

/// What the plugin emits for a chunk of a compilation of style sheets is
/// settled by the compilation and the chunk's name: the texts of the
/// chunk's style modules, in the chunk's order, joined and trimmed, under
/// the chunk's name.
pub proof fn lemma_css_manifest_is_settled(
    compilation: &Compilation<CssModule>,
    chunk_id: Seq<char>,
    result: Result<Seq<AssetView>, RenderErrorView>,
)
    requires
        chunk_manifest(
            compilation,
            chunk_id,
            css_plugin_name(),
            css_extension(),
            SourceType::Css,
            result,
        ),
        first_index(chunk_ids(compilation.chunk_graph.chunks@), chunk_id) is Some,
    ensures
        ({
            let c = first_index(chunk_ids(compilation.chunk_graph.chunks@), chunk_id)->0;
            let styles = of_type(
                members(compilation, compilation.chunk_graph.chunks@[c]),
                SourceType::Css,
            );
            result == manifest(chunk_id, css_plugin_name(), css_extension(), codes(styles))
        }),
{
    let c = first_index(chunk_ids(compilation.chunk_graph.chunks@), chunk_id)->0;
    let styles = of_type(members(compilation, compilation.chunk_graph.chunks@[c]), SourceType::Css);
    let outcomes = choose|outcomes: Seq<Result<String, String>>|
        #![trigger outcome_texts(outcomes)]
        rendered_as(styles, compilation, outcomes) && result == manifest(
            chunk_id,
            css_plugin_name(),
            css_extension(),
            outcome_texts(outcomes),
        );
    lemma_css_renderings(styles, compilation, outcomes);
}

/// Two plugins never share a mark: the plugin `second`, made from a scope
/// when it had handed out `later`, carries another mark than the plugin
/// `first`, made from that scope at an earlier time, when it had handed out
/// `earlier`.
pub proof fn lemma_plugins_never_share_a_mark(
    earlier: Seq<u32>,
    first: CssPlugin,
    later: Seq<u32>,
    second: CssPlugin,
)
    requires
        earlier.push(first.mark().id()).is_prefix_of(later),
        !later.contains(second.mark().id()),
    ensures
        first.mark() != second.mark(),
{
    crate::hygiene::lemma_marks_never_repeat(earlier, first.mark(), later, second.mark());
}

} // verus!
