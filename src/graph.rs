//! The render graph that a builder produces.

use crate::model::{empty_contents, GraphContents};
use crate::name_map::{name_lists, NameMap};
use vstd::prelude::*;

verus! {

/// Named pipelines and passes, the pipelines each pass runs, resource
/// providers, and textures queued for later creation.
pub struct RenderGraph<PassDesc, PipelineDesc, TextureDesc, Provider> {
    pub pipeline_descriptors: NameMap<PipelineDesc>,
    pub pass_descriptors: NameMap<PassDesc>,
    pub pass_pipelines: NameMap<Vec<String>>,
    pub resource_providers: Vec<Provider>,
    pub queued_textures: Vec<(String, TextureDesc)>,
}

impl<PassDesc, PipelineDesc, TextureDesc, Provider> View for RenderGraph<
    PassDesc,
    PipelineDesc,
    TextureDesc,
    Provider,
> {
    type V = GraphContents<PassDesc, PipelineDesc, TextureDesc, Provider>;

    open spec fn view(&self) -> GraphContents<PassDesc, PipelineDesc, TextureDesc, Provider> {
        GraphContents {
            pipelines: self.pipeline_descriptors@,
            pipeline_names: self.pipeline_descriptors.names(),
            passes: self.pass_descriptors@,
            pass_names: self.pass_descriptors.names(),
            links: name_lists(self.pass_pipelines@),
            providers: self.resource_providers@,
            textures: self.queued_textures@.map_values(|e: (String, TextureDesc)| (e.0@, e.1)),
        }
    }
}

impl<PassDesc, PipelineDesc, TextureDesc, Provider> RenderGraph<
    PassDesc,
    PipelineDesc,
    TextureDesc,
    Provider,
> {
    /// Each of the three name maps is well formed.
    pub open spec fn wf(&self) -> bool {
        &&& self.pipeline_descriptors.wf()
        &&& self.pass_descriptors.wf()
        &&& self.pass_pipelines.wf()
    }
}

impl<PassDesc, PipelineDesc, TextureDesc, Provider> Default for RenderGraph<
    PassDesc,
    PipelineDesc,
    TextureDesc,
    Provider,
> {
    /// A graph with every container empty.
    fn default() -> (r: Self)
        ensures
            r.wf(),
            r@ == empty_contents::<PassDesc, PipelineDesc, TextureDesc, Provider>(),
    {
        let r = RenderGraph {
            pipeline_descriptors: NameMap::new(),
            pass_descriptors: NameMap::new(),
            pass_pipelines: NameMap::new(),
            resource_providers: Vec::new(),
            queued_textures: Vec::new(),
        };
        assert(name_lists(r.pass_pipelines@) =~= Map::empty());
        assert(r.queued_textures@.map_values(|e: (String, TextureDesc)| (e.0@, e.1))
            =~= Seq::empty());
        r
    }
}

} // verus!
