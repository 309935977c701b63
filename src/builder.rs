//! A fluent builder for render graphs. A pipeline declared after a pass is
//! linked to the pass declared most recently.

use crate::graph::RenderGraph;
use crate::model::{initial_state, step, BuildState, Decl};
use vstd::prelude::*;

verus! {

/// Collects declarations into a render graph, remembering the pass declared
/// last so that later pipelines are linked to it.
pub struct RenderGraphBuilder<PassDesc, PipelineDesc, TextureDesc, Provider> {
    render_graph: RenderGraph<PassDesc, PipelineDesc, TextureDesc, Provider>,
    current_pass: Option<String>,
}

impl<PassDesc, PipelineDesc, TextureDesc, Provider> View for RenderGraphBuilder<
    PassDesc,
    PipelineDesc,
    TextureDesc,
    Provider,
> {
    type V = BuildState<PassDesc, PipelineDesc, TextureDesc, Provider>;

    closed spec fn view(&self) -> BuildState<PassDesc, PipelineDesc, TextureDesc, Provider> {
        BuildState {
            graph: self.render_graph@,
            current: match self.current_pass {
                Some(c) => Some(c@),
                None => None,
            },
        }
    }
}

impl<PassDesc, PipelineDesc, TextureDesc, Provider> RenderGraphBuilder<
    PassDesc,
    PipelineDesc,
    TextureDesc,
    Provider,
> {
    /// The graph under construction is well formed.
    pub closed spec fn wf(&self) -> bool {
        self.render_graph.wf()
    }

    /// A builder with an empty graph and no pass declared.
    pub fn new() -> (r: Self)
        ensures
            r.wf(),
            r@ == initial_state::<PassDesc, PipelineDesc, TextureDesc, Provider>(),
    {
        RenderGraphBuilder { render_graph: RenderGraph::default(), current_pass: None }
    }

    /// Stores `pass` under `name`, replacing any pass of that name, and makes
    /// `name` the pass that later pipelines are linked to.
    pub fn add_pass(self, name: &str, pass: PassDesc) -> (r: Self)
        requires
            self.wf(),
        ensures
            r.wf(),
            r@ == step(self@, Decl::Pass(name@, pass)),
    {
        let mut b = self;
        b.current_pass = Some(name.to_string());
        b.render_graph.pass_descriptors.insert(name.to_string(), pass);
        b
    }

    /// Stores `pipeline` under `name`, replacing any pipeline of that name.
    /// If a pass has been declared, `name` is appended to the pipelines of
    /// the pass declared last, duplicates included.
    pub fn add_pipeline(self, name: &str, pipeline: PipelineDesc) -> (r: Self)
        requires
            self.wf(),
        ensures
            r.wf(),
            r@ == step(self@, Decl::Pipeline(name@, pipeline)),
    {
        let mut b = self;
        b.render_graph.pipeline_descriptors.insert(name.to_string(), pipeline);
        match &b.current_pass {
            Some(current) => {
                b.render_graph.pass_pipelines.append(current, name.to_string());
            },
            None => {},
        }
        b
    }

    /// Takes ownership of `resource_provider`, after those added before.
    pub fn add_resource_provider(self, resource_provider: Provider) -> (r: Self)
        requires
            self.wf(),
        ensures
            r.wf(),
            r@ == step(self@, Decl::Provider(resource_provider)),
    {
        let mut b = self;
        b.render_graph.resource_providers.push(resource_provider);
        b
    }

    /// Queues a texture declaration, after those queued before.
    pub fn add_texture(self, name: &str, texture_descriptor: TextureDesc) -> (r: Self)
        requires
            self.wf(),
        ensures
            r.wf(),
            r@ == step(self@, Decl::Texture(name@, texture_descriptor)),
    {
        let mut b = self;
        let ghost t = b.render_graph.queued_textures@;
        b.render_graph.queued_textures.push((name.to_string(), texture_descriptor));
        proof {
            assert(b.render_graph.queued_textures@.map_values(|e: (String, TextureDesc)| (e.0@, e.1))
                =~= t.map_values(|e: (String, TextureDesc)| (e.0@, e.1)).push((name@, texture_descriptor)));
        }
        b
    }

    /// The finished graph.
    pub fn build(self) -> (r: RenderGraph<PassDesc, PipelineDesc, TextureDesc, Provider>)
        requires
            self.wf(),
        ensures
            r.wf(),
            r@ == self@.graph,
    {
        self.render_graph
    }
}

} // verus!
