//! The mathematical model of a render graph and of its builder: what a graph
//! holds, the declarations a builder accepts, and how each one changes the
//! builder's state.

use crate::name_map::list_or_empty;
use vstd::prelude::*;

verus! {

/// What a render graph holds, as maps and sequences.
pub struct GraphContents<PassDesc, PipelineDesc, TextureDesc, Provider> {
    /// Pipeline descriptors by pipeline name.
    pub pipelines: Map<Seq<char>, PipelineDesc>,
    /// Pipeline names, in the order each was first declared.
    pub pipeline_names: Seq<Seq<char>>,
    /// Pass descriptors by pass name.
    pub passes: Map<Seq<char>, PassDesc>,
    /// Pass names, in the order each was first declared.
    pub pass_names: Seq<Seq<char>>,
    /// For each pass that has pipelines, their names in declaration order.
    pub links: Map<Seq<char>, Seq<Seq<char>>>,
    /// Resource providers in the order they were added.
    pub providers: Seq<Provider>,
    /// Texture declarations waiting to be materialised, in order.
    pub textures: Seq<(Seq<char>, TextureDesc)>,
}

/// A builder's state: the graph so far and the pass declared last.
pub struct BuildState<PassDesc, PipelineDesc, TextureDesc, Provider> {
    pub graph: GraphContents<PassDesc, PipelineDesc, TextureDesc, Provider>,
    pub current: Option<Seq<char>>,
}

/// One call on a builder.
pub enum Decl<PassDesc, PipelineDesc, TextureDesc, Provider> {
    Pass(Seq<char>, PassDesc),
    Pipeline(Seq<char>, PipelineDesc),
    Texture(Seq<char>, TextureDesc),
    Provider(Provider),
}

/// A graph with nothing in it.
pub open spec fn empty_contents<PassDesc, PipelineDesc, TextureDesc, Provider>() -> GraphContents<
    PassDesc,
    PipelineDesc,
    TextureDesc,
    Provider,
> {
    GraphContents {
        pipelines: Map::empty(),
        pipeline_names: Seq::empty(),
        passes: Map::empty(),
        pass_names: Seq::empty(),
        links: Map::empty(),
        providers: Seq::empty(),
        textures: Seq::empty(),
    }
}

/// The state of a builder that has seen no declaration.
pub open spec fn initial_state<PassDesc, PipelineDesc, TextureDesc, Provider>() -> BuildState<
    PassDesc,
    PipelineDesc,
    TextureDesc,
    Provider,
> {
    BuildState { graph: empty_contents(), current: None }
}

/// `names` with `n` added at the end, unless `known` says it is already there.
pub open spec fn note_name(names: Seq<Seq<char>>, n: Seq<char>, known: bool) -> Seq<Seq<char>> {
    if known {
        names
    } else {
        names.push(n)
    }
}

/// The state after one declaration.
pub open spec fn step<PassDesc, PipelineDesc, TextureDesc, Provider>(
    s: BuildState<PassDesc, PipelineDesc, TextureDesc, Provider>,
    d: Decl<PassDesc, PipelineDesc, TextureDesc, Provider>,
) -> BuildState<PassDesc, PipelineDesc, TextureDesc, Provider> {
    let g = s.graph;
    match d {
        Decl::Pass(n, p) => BuildState {
            graph: GraphContents {
                passes: g.passes.insert(n, p),
                pass_names: note_name(g.pass_names, n, g.passes.contains_key(n)),
                ..g
            },
            current: Some(n),
        },
        Decl::Pipeline(n, p) => BuildState {
            graph: GraphContents {
                pipelines: g.pipelines.insert(n, p),
                pipeline_names: note_name(g.pipeline_names, n, g.pipelines.contains_key(n)),
                links: match s.current {
                    Some(c) => g.links.insert(c, list_or_empty(g.links, c).push(n)),
                    None => g.links,
                },
                ..g
            },
            current: s.current,
        },
        Decl::Texture(n, t) => BuildState {
            graph: GraphContents { textures: g.textures.push((n, t)), ..g },
            current: s.current,
        },
        Decl::Provider(r) => BuildState {
            graph: GraphContents { providers: g.providers.push(r), ..g },
            current: s.current,
        },
    }
}

/// The state after a sequence of declarations, made in order on a new builder.
pub open spec fn run<PassDesc, PipelineDesc, TextureDesc, Provider>(
    ds: Seq<Decl<PassDesc, PipelineDesc, TextureDesc, Provider>>,
) -> BuildState<PassDesc, PipelineDesc, TextureDesc, Provider>
    decreases ds.len(),
{
    if ds.len() == 0 {
        initial_state()
    } else {
        step(run(ds.drop_last()), ds.last())
    }
}

} // verus!
