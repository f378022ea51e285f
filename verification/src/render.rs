//! Rendering the modules of a chunk into at most one asset: the modules of
//! one source type are rendered side by side, and their texts are joined in
//! the chunk's order.

use crate::module::{
    chunk_ids, first_index, modules_at, resolved, Chunk, Compilation, Module, ModuleGraphModule,
    SourceType,
};
use crate::text::{join_lines, joined, texts, trim, trimmed};
use rayon::iter::{IntoParallelRefIterator, ParallelIterator};
use vstd::prelude::*;

verus! {

/// The name under which an asset is emitted.
#[derive(Debug, Clone, PartialEq, Eq)]
pub enum AssetFilename {
    /// A name that is used as it stands.
    Static(String),
}

/// An artifact that is ready to be emitted.
#[derive(Debug, Clone, PartialEq, Eq)]
pub struct Asset {
    pub rendered: String,
    pub filename: AssetFilename,
}

/// What went wrong while a chunk was rendered.
#[derive(Debug, Clone, PartialEq, Eq)]
pub enum RenderFailure {
    /// The compilation has no chunk of that name.
    ChunkNotFound,
    /// A module did not render. `position` counts the modules of the
    /// plugin's source type in the chunk's order, from zero.
    ModuleFailed { position: usize, message: String },
}

/// A failed rendering of one chunk by one plugin. No asset is emitted for
/// that chunk.
#[derive(Debug, Clone, PartialEq, Eq)]
pub struct RenderError {
    pub chunk_id: String,
    pub plugin: String,
    pub failure: RenderFailure,
}

/// An asset as mathematics sees it.
pub struct AssetView {
    pub rendered: Seq<char>,
    pub filename: Seq<char>,
}

/// What went wrong, as mathematics sees it.
pub enum RenderFailureModel {
    ChunkNotFound,
    ModuleFailed { position: int, message: Seq<char> },
}

/// A render error as mathematics sees it.
pub struct RenderErrorView {
    pub chunk_id: Seq<char>,
    pub plugin: Seq<char>,
    pub failure: RenderFailureModel,
}

impl View for Asset {
    type V = AssetView;

    open spec fn view(&self) -> AssetView {
        AssetView {
            rendered: self.rendered@,
            filename: match self.filename {
                AssetFilename::Static(name) => name@,
            },
        }
    }
}

impl View for RenderError {
    type V = RenderErrorView;

    open spec fn view(&self) -> RenderErrorView {
        RenderErrorView {
            chunk_id: self.chunk_id@,
            plugin: self.plugin@,
            failure: match self.failure {
                RenderFailure::ChunkNotFound => RenderFailureModel::ChunkNotFound,
                RenderFailure::ModuleFailed { position, message } => RenderFailureModel::ModuleFailed {
                    position: position as int,
                    message: message@,
                },
            },
        }
    }
}

/// The views of `assets`, in their order.
pub open spec fn asset_views(assets: Seq<Asset>) -> Seq<AssetView> {
    Seq::new(assets.len(), |i: int| assets[i]@)
}

/// The view of what a render hook returns.
pub open spec fn manifest_view(out: Result<Vec<Asset>, RenderError>) -> Result<
    Seq<AssetView>,
    RenderErrorView,
> {
    match out {
        Ok(assets) => Ok(asset_views(assets@)),
        Err(error) => Err(error@),
    }
}

/// The text of a rendering, or the message of its failure.
pub open spec fn outcome_text(outcome: Result<String, String>) -> Result<Seq<char>, Seq<char>> {
    match outcome {
        Ok(text) => Ok(text@),
        Err(message) => Err(message@),
    }
}

/// The texts of renderings, or the messages of their failures.
pub open spec fn outcome_texts(outcomes: Seq<Result<String, String>>) -> Seq<
    Result<Seq<char>, Seq<char>>,
> {
    Seq::new(outcomes.len(), |i: int| outcome_text(outcomes[i]))
}

/// The place of the first failure among `outcomes`.
pub open spec fn first_failure(outcomes: Seq<Result<Seq<char>, Seq<char>>>) -> Option<int>
    decreases outcomes.len(),
{
    if outcomes.len() == 0 {
        None
    } else {
        match first_failure(outcomes.drop_last()) {
            Some(k) => Some(k),
            None => if outcomes.last() is Err {
                Some(outcomes.len() - 1)
            } else {
                None
            },
        }
    }
}

/// The rendered texts of `outcomes`, in their order; a failure stands as the
/// empty text.
pub open spec fn bodies(outcomes: Seq<Result<Seq<char>, Seq<char>>>) -> Seq<Seq<char>> {
    Seq::new(
        outcomes.len(),
        |i: int|
            match outcomes[i] {
                Ok(text) => text,
                Err(_) => Seq::empty(),
            },
    )
}

/// The name of the asset of the chunk `chunk_id`: the chunk's name, a dot
/// and the extension.
pub open spec fn asset_name(chunk_id: Seq<char>, extension: Seq<char>) -> Seq<char> {
    chunk_id + seq!['.'] + extension
}

/// What a plugin emits for a chunk whose modules rendered to `outcomes`:
/// - the first failure, if there is one, and no asset;
/// - nothing, if there are no modules;
/// - else one asset, whose body is the texts in their order, joined by line
///   feeds and trimmed.
pub open spec fn manifest(
    chunk_id: Seq<char>,
    plugin: Seq<char>,
    extension: Seq<char>,
    outcomes: Seq<Result<Seq<char>, Seq<char>>>,
) -> Result<Seq<AssetView>, RenderErrorView> {
    match first_failure(outcomes) {
        Some(k) => Err(
            RenderErrorView {
                chunk_id,
                plugin,
                failure: RenderFailureModel::ModuleFailed {
                    position: k,
                    message: outcomes[k]->Err_0,
                },
            },
        ),
        None => if outcomes.len() == 0 {
            Ok(Seq::empty())
        } else {
            Ok(
                seq![
                    AssetView {
                        rendered: trimmed(joined(bodies(outcomes))),
                        filename: asset_name(chunk_id, extension),
                    },
                ],
            )
        },
    }
}

/// `first_failure` finds a failure before which there is none, and finds
/// none only where there is no failure.
pub proof fn lemma_first_failure(outcomes: Seq<Result<Seq<char>, Seq<char>>>)
    ensures
        match first_failure(outcomes) {
            Some(k) => 0 <= k < outcomes.len() && outcomes[k] is Err && forall|j: int|
                0 <= j < k ==> outcomes[j] is Ok,
            None => forall|j: int| 0 <= j < outcomes.len() ==> outcomes[j] is Ok,
        },
    decreases outcomes.len(),
{
    if outcomes.len() > 0 {
        let front = outcomes.drop_last();
        lemma_first_failure(front);
        assert forall|j: int| 0 <= j < front.len() implies front[j] == outcomes[j] by {}
    }
}

/// Puts the renderings of a chunk's modules together.
pub fn assemble(
    chunk_id: &String,
    plugin: &str,
    extension: &str,
    outcomes: Vec<Result<String, String>>,
) -> (out: Result<Vec<Asset>, RenderError>)
    ensures
        manifest_view(out) == manifest(chunk_id@, plugin@, extension@, outcome_texts(outcomes@)),
{
    let ghost all = outcome_texts(outcomes@);
    let count = outcomes.len();
    let mut parts: Vec<String> = Vec::new();
    let mut position: usize = 0;
    for outcome in it: outcomes
        invariant
            all.len() == count,
            it.seq().len() == count,
            all == outcome_texts(it.seq()),
            position == it.index(),
            first_failure(all.take(it.index())) is None,
            texts(parts@) == bodies(all.take(it.index())),
    {
        let ghost before = parts@;
        proof {
            assert(all.take(position + 1).drop_last() == all.take(position as int));
        }
        match outcome {
            Ok(text) => {
                parts.push(text);
                proof {
                    let now = bodies(all.take(position + 1));
                    let earlier = bodies(all.take(position as int));
                    assert(texts(before).len() == earlier.len());
                    assert forall|i: int| 0 <= i < now.len() implies texts(parts@)[i] == now[i] by {
                        if i < position {
                            assert(texts(before)[i] == earlier[i]);
                        }
                    }
                }
            },
            Err(message) => {
                proof {
                    lemma_first_failure_extends(all, position + 1);
                }
                return Err(
                    RenderError {
                        chunk_id: chunk_id.clone(),
                        plugin: String::from_str(plugin),
                        failure: RenderFailure::ModuleFailed { position, message },
                    },
                );
            },
        }
        position = position + 1;
    }
    proof {
        assert(all.take(all.len() as int) == all);
    }
    if parts.len() == 0 {
        let assets: Vec<Asset> = Vec::new();
        proof {
            assert(asset_views(assets@) =~= Seq::empty());
        }
        return Ok(assets);
    }
    let body = trim(join_lines(&parts).as_str());
    let mut name = chunk_id.clone();
    name.append(".");
    name.append(extension);
    proof {
        reveal_strlit(".");
        assert("."@ == seq!['.']);
    }
    let mut assets: Vec<Asset> = Vec::new();
    assets.push(Asset { rendered: body, filename: AssetFilename::Static(name) });
    proof {
        assert(asset_views(assets@) =~= seq![
            AssetView {
                rendered: trimmed(joined(bodies(all))),
                filename: asset_name(chunk_id@, extension@),
            },
        ]);
    }
    Ok(assets)
}

/// A failure found among the first `n` outcomes is the first of all.
proof fn lemma_first_failure_extends(outcomes: Seq<Result<Seq<char>, Seq<char>>>, n: int)
    requires
        0 <= n <= outcomes.len(),
        first_failure(outcomes.take(n)) is Some,
    ensures
        first_failure(outcomes) == first_failure(outcomes.take(n)),
    decreases outcomes.len() - n,
{
    if n < outcomes.len() {
        assert(outcomes.take(n + 1).drop_last() == outcomes.take(n));
        lemma_first_failure_extends(outcomes, n + 1);
    } else {
        assert(outcomes.take(n) == outcomes);
    }
}

/// The modules among `modules` whose source type is `kind`, in their order.
pub open spec fn of_type<M>(modules: Seq<ModuleGraphModule<M>>, kind: SourceType) -> Seq<
    ModuleGraphModule<M>,
>
    decreases modules.len(),
{
    if modules.len() == 0 {
        Seq::empty()
    } else {
        let rest = of_type(modules.drop_last(), kind);
        if modules.last().source_type == kind {
            rest.push(modules.last())
        } else {
            rest
        }
    }
}

/// The modules that `refs` point to, in their order.
pub open spec fn pointees<M>(refs: Seq<&ModuleGraphModule<M>>) -> Seq<ModuleGraphModule<M>> {
    Seq::new(refs.len(), |i: int| *refs[i])
}

/// `outcomes` are what one rendering of each of `modules` may return, in
/// their order.
pub open spec fn rendered_as<M: Module>(
    modules: Seq<ModuleGraphModule<M>>,
    compilation: &Compilation<M>,
    outcomes: Seq<Result<String, String>>,
) -> bool {
    &&& outcomes.len() == modules.len()
    &&& forall|i: int|
        0 <= i < modules.len() ==> call_ensures(
            M::render,
            (&modules[i].module, compilation),
            #[trigger] outcomes[i],
        )
}

/// The modules of the chunk that `compilation` holds, in the chunk's order.
pub open spec fn members<M>(compilation: &Compilation<M>, chunk: Chunk) -> Seq<
    ModuleGraphModule<M>,
> {
    modules_at(
        compilation.module_graph.modules@,
        resolved(chunk.module_uris@, compilation.module_graph.modules@),
    )
}

/// `result` is what `plugin` may emit for the chunk named `chunk_id`, where
/// it renders the modules of source type `kind`:
/// - an error, if the compilation has no chunk of that name;
/// - else what `manifest` makes of one rendering of each such module of the
///   chunk, taken in the chunk's order.
pub open spec fn chunk_manifest<M: Module>(
    compilation: &Compilation<M>,
    chunk_id: Seq<char>,
    plugin: Seq<char>,
    extension: Seq<char>,
    kind: SourceType,
    result: Result<Seq<AssetView>, RenderErrorView>,
) -> bool {
    match first_index(chunk_ids(compilation.chunk_graph.chunks@), chunk_id) {
        None => result == Err::<Seq<AssetView>, RenderErrorView>(
            RenderErrorView { chunk_id, plugin, failure: RenderFailureModel::ChunkNotFound },
        ),
        Some(c) => exists|outcomes: Seq<Result<String, String>>|
            #![trigger outcome_texts(outcomes)]
            rendered_as(
                of_type(members(compilation, compilation.chunk_graph.chunks@[c]), kind),
                compilation,
                outcomes,
            ) && result == manifest(chunk_id, plugin, extension, outcome_texts(outcomes)),
    }
}

/// Picks the modules whose source type is `kind`, keeping their order.
pub fn modules_of_type<'a, M>(modules: &Vec<&'a ModuleGraphModule<M>>, kind: SourceType) -> (chosen:
    Vec<&'a ModuleGraphModule<M>>)
    ensures
        pointees(chosen@) == of_type(pointees(modules@), kind),
{
    let ghost all = pointees(modules@);
    let mut chosen: Vec<&'a ModuleGraphModule<M>> = Vec::new();
    let mut i: usize = 0;
    while i < modules.len()
        invariant
            i <= modules@.len(),
            all == pointees(modules@),
            pointees(chosen@) == of_type(all.take(i as int), kind),
        decreases modules@.len() - i,
    {
        proof {
            assert(all.take(i + 1).drop_last() == all.take(i as int));
        }
        if modules[i].source_type == kind {
            chosen.push(modules[i]);
        }
        i = i + 1;
    }
    proof {
        assert(all.take(i as int) == all);
    }
    chosen
}

/// Calls rayon's `par_iter`, `map` and `collect` on `modules`: each module is
/// rendered by one call of `Module::render`, on whichever worker takes it,
/// and the outcomes are collected into a vector in the order of `modules`,
/// not in the order in which the calls finish.
#[verifier::external_body]
fn render_each<M: Module + Sync>(
    modules: &Vec<&ModuleGraphModule<M>>,
    compilation: &Compilation<M>,
) -> (outcomes: Vec<Result<String, String>>)
    ensures
        outcomes@.len() == modules@.len(),
        forall|i: int|
            0 <= i < modules@.len() ==> call_ensures(
                M::render,
                (&modules@[i].module, compilation),
                #[trigger] outcomes@[i],
            ),
{
    modules.par_iter().map(|entry| entry.module.render(compilation)).collect()
}

/// Renders the chunk named `chunk_id` for `plugin`: the chunk's modules of
/// source type `kind` are rendered side by side and put together in the
/// chunk's order.
pub fn render_chunk<M: Module + Sync>(
    compilation: &Compilation<M>,
    chunk_id: &String,
    plugin: &str,
    extension: &str,
    kind: SourceType,
) -> (out: Result<Vec<Asset>, RenderError>)
    ensures
        chunk_manifest(compilation, chunk_id@, plugin@, extension@, kind, manifest_view(out)),
{
    let chunk = match compilation.chunk_graph.chunk_by_id(chunk_id) {
        Some(chunk) => chunk,
        None => {
            return Err(
                RenderError {
                    chunk_id: chunk_id.clone(),
                    plugin: String::from_str(plugin),
                    failure: RenderFailure::ChunkNotFound,
                },
            );
        },
    };
    let ordered = chunk.ordered_modules(&compilation.module_graph);
    proof {
        assert(pointees(ordered@) =~= members(compilation, *chunk));
    }
    let chosen = modules_of_type(&ordered, kind);
    let outcomes = render_each(&chosen, compilation);
    let ghost returned = outcomes@;
    proof {
        assert forall|i: int| 0 <= i < chosen@.len() implies call_ensures(
            M::render,
            (&pointees(chosen@)[i].module, compilation),
            #[trigger] returned[i],
        ) by {}
    }
    assemble(chunk_id, plugin, extension, outcomes)
}

/// Order is kept: where every module rendered, the one asset's body is the
/// modules' texts in the modules' order, joined by line feeds and trimmed.
pub proof fn lemma_body_in_module_order(
    chunk_id: Seq<char>,
    plugin: Seq<char>,
    extension: Seq<char>,
    outcomes: Seq<Result<Seq<char>, Seq<char>>>,
)
    requires
        outcomes.len() > 0,
        forall|i: int| 0 <= i < outcomes.len() ==> outcomes[i] is Ok,
    ensures
        manifest(chunk_id, plugin, extension, outcomes) == Ok::<Seq<AssetView>, RenderErrorView>(
            seq![
                AssetView {
                    rendered: trimmed(joined(Seq::new(outcomes.len(), |i: int| outcomes[i]->Ok_0))),
                    filename: asset_name(chunk_id, extension),
                },
            ],
        ),
{
    lemma_first_failure(outcomes);
    assert(bodies(outcomes) =~= Seq::new(outcomes.len(), |i: int| outcomes[i]->Ok_0));
}

/// A chunk gives at most one asset: none where it has no module to render,
/// one where all its modules rendered, and an error that names the chunk
/// and the plugin, without any asset, where one failed.
pub proof fn lemma_at_most_one_asset(
    chunk_id: Seq<char>,
    plugin: Seq<char>,
    extension: Seq<char>,
    outcomes: Seq<Result<Seq<char>, Seq<char>>>,
)
    ensures
        match manifest(chunk_id, plugin, extension, outcomes) {
            Ok(assets) => (forall|i: int| 0 <= i < outcomes.len() ==> outcomes[i] is Ok)
                && assets.len() == (if outcomes.len() == 0 {
                0nat
            } else {
                1nat
            }),
            Err(error) => (exists|i: int| 0 <= i < outcomes.len() && outcomes[i] is Err)
                && error.chunk_id == chunk_id && error.plugin == plugin,
        },
{
    lemma_first_failure(outcomes);
}

/// No module of a source type is among modules none of which has it.
pub proof fn lemma_none_of_type<M>(modules: Seq<ModuleGraphModule<M>>, kind: SourceType)
    requires
        forall|i: int| 0 <= i < modules.len() ==> modules[i].source_type != kind,
    ensures
        of_type(modules, kind) == Seq::<ModuleGraphModule<M>>::empty(),
    decreases modules.len(),
{
    if modules.len() > 0 {
        let front = modules.drop_last();
        assert forall|i: int| 0 <= i < front.len() implies front[i].source_type != kind by {}
        lemma_none_of_type(front, kind);
    }
}

/// A chunk none of whose modules has the plugin's source type gives no
/// asset, and no error.
pub proof fn lemma_no_module_no_asset<M: Module>(
    compilation: &Compilation<M>,
    chunk_id: Seq<char>,
    plugin: Seq<char>,
    extension: Seq<char>,
    kind: SourceType,
    result: Result<Seq<AssetView>, RenderErrorView>,
)
    requires
        chunk_manifest(compilation, chunk_id, plugin, extension, kind, result),
        first_index(chunk_ids(compilation.chunk_graph.chunks@), chunk_id) matches Some(c) && forall|
            i: int,
        |
            0 <= i < members(compilation, compilation.chunk_graph.chunks@[c]).len() ==> members(
                compilation,
                compilation.chunk_graph.chunks@[c],
            )[i].source_type != kind,
    ensures
        result == Ok::<Seq<AssetView>, RenderErrorView>(Seq::empty()),
{
    let c = first_index(chunk_ids(compilation.chunk_graph.chunks@), chunk_id)->0;
    let chunk = compilation.chunk_graph.chunks@[c];
    lemma_none_of_type(members(compilation, chunk), kind);
}

} // verus!
