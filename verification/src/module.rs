//! The compilation as the hooks see it: modules with their source types, the
//! module graph that owns them, and the chunks that refer to them in order.

use vstd::prelude::*;

verus! {

/// The kind of a module's content.
#[derive(Debug, Clone, Copy, PartialEq, Eq, Structural)]
pub enum SourceType {
    /// A script.
    Js,
    /// A style sheet.
    Css,
    /// Any other file, emitted as it is.
    Asset,
}

/// The typed content of a module, which knows how to render itself.
/// Rendering reads the module and the compilation, and changes neither.
pub trait Module: Sized {
    /// Renders the module: its text, or the message of a failure.
    fn render(&self, compilation: &Compilation<Self>) -> Result<String, String>;
}

/// A module as the module graph holds it.
pub struct ModuleGraphModule<M> {
    /// The location that the module was read from, which identifies it.
    pub uri: String,
    pub source_type: SourceType,
    pub module: M,
}

/// The modules of a compilation.
pub struct ModuleGraph<M> {
    pub modules: Vec<ModuleGraphModule<M>>,
}

/// A group of modules that are emitted together. It names its modules by
/// their locations, in the order in which they are emitted.
pub struct Chunk {
    pub id: String,
    pub module_uris: Vec<String>,
}

/// The chunks of a compilation.
pub struct ChunkGraph {
    pub chunks: Vec<Chunk>,
}

/// What a render hook gets to read.
pub struct Compilation<M> {
    pub module_graph: ModuleGraph<M>,
    pub chunk_graph: ChunkGraph,
}

/// The place of the first of `keys` that equals `key`.
pub open spec fn first_index(keys: Seq<Seq<char>>, key: Seq<char>) -> Option<int>
    decreases keys.len(),
{
    if keys.len() == 0 {
        None
    } else {
        match first_index(keys.drop_last(), key) {
            Some(k) => Some(k),
            None => if keys.last() == key {
                Some(keys.len() - 1)
            } else {
                None
            },
        }
    }
}

/// `first_index` finds a place that holds `key`, before which no place does,
/// and finds none only where no place holds it.
pub proof fn lemma_first_index(keys: Seq<Seq<char>>, key: Seq<char>)
    ensures
        match first_index(keys, key) {
            Some(k) => 0 <= k < keys.len() && keys[k] == key && forall|j: int|
                0 <= j < k ==> keys[j] != key,
            None => forall|j: int| 0 <= j < keys.len() ==> keys[j] != key,
        },
    decreases keys.len(),
{
    if keys.len() > 0 {
        let front = keys.drop_last();
        lemma_first_index(front, key);
        assert forall|j: int| 0 <= j < front.len() implies front[j] == keys[j] by {}
    }
}

/// The names of `chunks`, in their order.
pub open spec fn chunk_ids(chunks: Seq<Chunk>) -> Seq<Seq<char>> {
    Seq::new(chunks.len(), |i: int| chunks[i].id@)
}

/// The locations of `modules`, in their order.
pub open spec fn module_uris<M>(modules: Seq<ModuleGraphModule<M>>) -> Seq<Seq<char>> {
    Seq::new(modules.len(), |i: int| modules[i].uri@)
}

/// The places in `modules` of the modules that `uris` name, in the order of
/// `uris`. A location that no module has is passed over.
pub open spec fn resolved<M>(uris: Seq<String>, modules: Seq<ModuleGraphModule<M>>) -> Seq<int>
    decreases uris.len(),
{
    if uris.len() == 0 {
        Seq::empty()
    } else {
        let rest = resolved(uris.drop_last(), modules);
        match first_index(module_uris(modules), uris.last()@) {
            Some(k) => rest.push(k),
            None => rest,
        }
    }
}

/// Every place that `resolved` gives lies in `modules`.
pub proof fn lemma_resolved_in_range<M>(uris: Seq<String>, modules: Seq<ModuleGraphModule<M>>)
    ensures
        forall|i: int|
            0 <= i < resolved(uris, modules).len() ==> 0 <= #[trigger] resolved(uris, modules)[i]
                < modules.len(),
    decreases uris.len(),
{
    if uris.len() > 0 {
        let rest = resolved(uris.drop_last(), modules);
        lemma_resolved_in_range(uris.drop_last(), modules);
        lemma_first_index(module_uris(modules), uris.last()@);
        assert forall|i: int| 0 <= i < resolved(uris, modules).len() implies 0 <= #[trigger] resolved(
            uris,
            modules,
        )[i] < modules.len() by {
            if i < rest.len() {
                assert(resolved(uris, modules)[i] == rest[i]);
            }
        }
    }
}

/// The modules at `places`, in that order.
pub open spec fn modules_at<M>(
    modules: Seq<ModuleGraphModule<M>>,
    places: Seq<int>,
) -> Seq<ModuleGraphModule<M>> {
    Seq::new(places.len(), |i: int| modules[places[i]])
}

impl ChunkGraph {
    /// The first chunk named `id`.
    pub fn chunk_by_id(&self, id: &String) -> (found: Option<&Chunk>)
        ensures
            match first_index(chunk_ids(self.chunks@), id@) {
                Some(k) => found == Some(&self.chunks@[k]),
                None => found is None,
            },
    {
        let ghost ids = chunk_ids(self.chunks@);
        let mut i: usize = 0;
        while i < self.chunks.len()
            invariant
                i <= self.chunks@.len(),
                ids == chunk_ids(self.chunks@),
                first_index(ids.take(i as int), id@) is None,
            decreases self.chunks@.len() - i,
        {
            proof {
                assert(ids.take(i + 1).drop_last() == ids.take(i as int));
            }
            if self.chunks[i].id == *id {
                proof {
                    lemma_first_index_extends(ids, id@, i + 1);
                }
                return Some(&self.chunks[i]);
            }
            i = i + 1;
        }
        proof {
            assert(ids.take(i as int) == ids);
        }
        None
    }
}

/// A place found among the first `n` keys is the place found among all.
proof fn lemma_first_index_extends(keys: Seq<Seq<char>>, key: Seq<char>, n: int)
    requires
        0 <= n <= keys.len(),
        first_index(keys.take(n), key) is Some,
    ensures
        first_index(keys, key) == first_index(keys.take(n), key),
    decreases keys.len() - n,
{
    if n < keys.len() {
        assert(keys.take(n + 1).drop_last() == keys.take(n));
        lemma_first_index_extends(keys, key, n + 1);
    } else {
        assert(keys.take(n) == keys);
    }
}

impl<M> ModuleGraph<M> {
    /// The first module read from `uri`.
    pub fn module_by_uri(&self, uri: &String) -> (found: Option<&ModuleGraphModule<M>>)
        ensures
            match first_index(module_uris(self.modules@), uri@) {
                Some(k) => found == Some(&self.modules@[k]),
                None => found is None,
            },
    {
        let ghost uris = module_uris(self.modules@);
        let mut i: usize = 0;
        while i < self.modules.len()
            invariant
                i <= self.modules@.len(),
                uris == module_uris(self.modules@),
                first_index(uris.take(i as int), uri@) is None,
            decreases self.modules@.len() - i,
        {
            proof {
                assert(uris.take(i + 1).drop_last() == uris.take(i as int));
            }
            if self.modules[i].uri == *uri {
                proof {
                    lemma_first_index_extends(uris, uri@, i + 1);
                }
                return Some(&self.modules[i]);
            }
            i = i + 1;
        }
        proof {
            assert(uris.take(i as int) == uris);
        }
        None
    }
}

impl Chunk {
    /// The modules of this chunk that `graph` holds, in the chunk's order.
    pub fn ordered_modules<'a, M>(&self, graph: &'a ModuleGraph<M>) -> (found: Vec<
        &'a ModuleGraphModule<M>,
    >)
        ensures
            found@.len() == resolved(self.module_uris@, graph.modules@).len(),
            forall|i: int|
                0 <= i < found@.len() ==> 0 <= #[trigger] resolved(
                    self.module_uris@,
                    graph.modules@,
                )[i] < graph.modules@.len(),
            forall|i: int|
                0 <= i < found@.len() ==> *#[trigger] found@[i] == graph.modules@[resolved(
                    self.module_uris@,
                    graph.modules@,
                )[i]],
    {
        proof {
            lemma_resolved_in_range(self.module_uris@, graph.modules@);
        }
        let mut found: Vec<&'a ModuleGraphModule<M>> = Vec::new();
        let mut i: usize = 0;
        while i < self.module_uris.len()
            invariant
                i <= self.module_uris@.len(),
                found@.len() == resolved(self.module_uris@.take(i as int), graph.modules@).len(),
                forall|k: int|
                    0 <= k < found@.len() ==> *#[trigger] found@[k] == graph.modules@[resolved(
                        self.module_uris@.take(i as int),
                        graph.modules@,
                    )[k]],
            decreases self.module_uris@.len() - i,
        {
            proof {
                assert(self.module_uris@.take(i + 1).drop_last() == self.module_uris@.take(
                    i as int,
                ));
            }
            match graph.module_by_uri(&self.module_uris[i]) {
                Some(module) => {
                    found.push(module);
                },
                None => {},
            }
            i = i + 1;
        }
        proof {
            assert(self.module_uris@.take(i as int) == self.module_uris@);
        }
        found
    }
}

} // verus!
