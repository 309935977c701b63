//! Properties of every sequence of builder declarations, proved over the
//! model that the builder's operations follow.

use crate::model::{run, Decl};
use crate::name_map::list_or_empty;
use vstd::prelude::*;

verus! {

/// The name of the last pass declared among the first `i` declarations.
pub open spec fn latest_pass<PassDesc, PipelineDesc, TextureDesc, Provider>(
    ds: Seq<Decl<PassDesc, PipelineDesc, TextureDesc, Provider>>,
    i: int,
) -> Option<Seq<char>>
    decreases i,
{
    if i <= 0 {
        None
    } else {
        match ds[i - 1] {
            Decl::Pass(n, _) => Some(n),
            _ => latest_pass(ds, i - 1),
        }
    }
}

/// The names of the pipeline declarations made while `p` was the pass
/// declared last, in order, duplicates included.
pub open spec fn pipelines_under<PassDesc, PipelineDesc, TextureDesc, Provider>(
    ds: Seq<Decl<PassDesc, PipelineDesc, TextureDesc, Provider>>,
    p: Seq<char>,
) -> Seq<Seq<char>>
    decreases ds.len(),
{
    if ds.len() == 0 {
        Seq::empty()
    } else {
        let before = pipelines_under(ds.drop_last(), p);
        match ds.last() {
            Decl::Pipeline(n, _) => if latest_pass(ds, ds.len() - 1) == Some(p) {
                before.push(n)
            } else {
                before
            },
            _ => before,
        }
    }
}

/// The texture declarations among `ds`, in order.
pub open spec fn texture_decls<PassDesc, PipelineDesc, TextureDesc, Provider>(
    ds: Seq<Decl<PassDesc, PipelineDesc, TextureDesc, Provider>>,
) -> Seq<(Seq<char>, TextureDesc)>
    decreases ds.len(),
{
    if ds.len() == 0 {
        Seq::empty()
    } else {
        match ds.last() {
            Decl::Texture(n, t) => texture_decls(ds.drop_last()).push((n, t)),
            _ => texture_decls(ds.drop_last()),
        }
    }
}

/// The providers handed over among `ds`, in order.
pub open spec fn provider_decls<PassDesc, PipelineDesc, TextureDesc, Provider>(
    ds: Seq<Decl<PassDesc, PipelineDesc, TextureDesc, Provider>>,
) -> Seq<Provider>
    decreases ds.len(),
{
    if ds.len() == 0 {
        Seq::empty()
    } else {
        match ds.last() {
            Decl::Provider(r) => provider_decls(ds.drop_last()).push(r),
            _ => provider_decls(ds.drop_last()),
        }
    }
}

/// How many of `ds` hand over a provider.
pub open spec fn provider_count<PassDesc, PipelineDesc, TextureDesc, Provider>(
    ds: Seq<Decl<PassDesc, PipelineDesc, TextureDesc, Provider>>,
) -> nat
    decreases ds.len(),
{
    if ds.len() == 0 {
        0
    } else {
        provider_count(ds.drop_last()) + if ds.last() is Provider {
            1nat
        } else {
            0nat
        }
    }
}

proof fn lemma_latest_pass_prefix<PassDesc, PipelineDesc, TextureDesc, Provider>(
    ds: Seq<Decl<PassDesc, PipelineDesc, TextureDesc, Provider>>,
    i: int,
)
    requires
        ds.len() > 0,
        0 <= i < ds.len(),
    ensures
        latest_pass(ds, i) == latest_pass(ds.drop_last(), i),
    decreases i,
{
    if i > 0 {
        assert(ds[i - 1] == ds.drop_last()[i - 1]);
        lemma_latest_pass_prefix(ds, i - 1);
    }
}

/// A new builder's state after the declarations `ds` links each pass to
/// exactly the pipelines declared while it was the pass declared last, in
/// call order with duplicates kept; a pass gets an entry only once such a
/// pipeline exists.
pub proof fn law_pipelines_follow_latest_pass<PassDesc, PipelineDesc, TextureDesc, Provider>(
    ds: Seq<Decl<PassDesc, PipelineDesc, TextureDesc, Provider>>,
    p: Seq<char>,
)
    ensures
        run(ds).current == latest_pass(ds, ds.len() as int),
        run(ds).graph.links.contains_key(p) <==> pipelines_under(ds, p).len() > 0,
        list_or_empty(run(ds).graph.links, p) == pipelines_under(ds, p),
    decreases ds.len(),
{
    if ds.len() > 0 {
        let t = ds.drop_last();
        law_pipelines_follow_latest_pass(t, p);
        lemma_latest_pass_prefix(ds, ds.len() - 1);
        let s = run(t);
        match ds.last() {
            Decl::Pipeline(n, _) => {
                match s.current {
                    Some(c) => {
                        if c != p {
                            law_pipelines_follow_latest_pass(t, c);
                        }
                    },
                    None => {},
                }
            },
            _ => {},
        }
    }
}

/// A pipeline declared before any pass is stored under its name and is in
/// no pass's list of pipelines.
pub proof fn law_pipeline_before_any_pass<PassDesc, PipelineDesc, TextureDesc, Provider>(
    ds: Seq<Decl<PassDesc, PipelineDesc, TextureDesc, Provider>>,
    n: Seq<char>,
    d: PipelineDesc,
)
    requires
        forall|i: int| 0 <= i < ds.len() ==> !(#[trigger] ds[i] is Pass),
    ensures
        run(ds.push(Decl::Pipeline(n, d))).graph.pipelines.contains_key(n),
        run(ds.push(Decl::Pipeline(n, d))).graph.pipelines[n] == d,
        forall|p: Seq<char>|
            #[trigger] run(ds.push(Decl::Pipeline(n, d))).graph.links.contains_key(p) ==> !run(
                ds.push(Decl::Pipeline(n, d)),
            ).graph.links[p].contains(n),
{
    lemma_no_pass_no_links(ds);
    assert(ds.push(Decl::Pipeline(n, d)).drop_last() == ds);
}

proof fn lemma_no_pass_no_links<PassDesc, PipelineDesc, TextureDesc, Provider>(
    ds: Seq<Decl<PassDesc, PipelineDesc, TextureDesc, Provider>>,
)
    requires
        forall|i: int| 0 <= i < ds.len() ==> !(#[trigger] ds[i] is Pass),
    ensures
        run(ds).current is None,
        run(ds).graph.links == Map::<Seq<char>, Seq<Seq<char>>>::empty(),
    decreases ds.len(),
{
    if ds.len() > 0 {
        let t = ds.drop_last();
        assert forall|i: int| 0 <= i < t.len() implies !(#[trigger] t[i] is Pass) by {
            assert(t[i] == ds[i]);
        }
        lemma_no_pass_no_links(t);
        assert(!(ds[ds.len() - 1] is Pass));
    }
}

/// Declaring a pass under a name already held replaces its descriptor and
/// changes neither the set or order of pass names nor any pass's pipelines.
pub proof fn law_pass_redeclared<PassDesc, PipelineDesc, TextureDesc, Provider>(
    ds: Seq<Decl<PassDesc, PipelineDesc, TextureDesc, Provider>>,
    n: Seq<char>,
    d: PassDesc,
)
    requires
        run(ds).graph.passes.contains_key(n),
    ensures
        run(ds.push(Decl::Pass(n, d))).graph.passes == run(ds).graph.passes.insert(n, d),
        run(ds.push(Decl::Pass(n, d))).graph.passes.dom() == run(ds).graph.passes.dom(),
        run(ds.push(Decl::Pass(n, d))).graph.pass_names == run(ds).graph.pass_names,
        run(ds.push(Decl::Pass(n, d))).graph.links == run(ds).graph.links,
{
    assert(ds.push(Decl::Pass(n, d)).drop_last() == ds);
    assert(run(ds).graph.passes.insert(n, d).dom() =~= run(ds).graph.passes.dom());
}

/// Declaring a pipeline under a name already held replaces its descriptor,
/// keeps the set and order of pipeline names, and keeps every list of
/// pipelines already linked to a pass as the start of that pass's list.
pub proof fn law_pipeline_redeclared<PassDesc, PipelineDesc, TextureDesc, Provider>(
    ds: Seq<Decl<PassDesc, PipelineDesc, TextureDesc, Provider>>,
    n: Seq<char>,
    d: PipelineDesc,
)
    requires
        run(ds).graph.pipelines.contains_key(n),
    ensures
        run(ds.push(Decl::Pipeline(n, d))).graph.pipelines == run(ds).graph.pipelines.insert(n, d),
        run(ds.push(Decl::Pipeline(n, d))).graph.pipelines.dom() == run(ds).graph.pipelines.dom(),
        run(ds.push(Decl::Pipeline(n, d))).graph.pipeline_names == run(ds).graph.pipeline_names,
        forall|p: Seq<char>| #[trigger]
            run(ds).graph.links.contains_key(p) ==> {
                let after = run(ds.push(Decl::Pipeline(n, d))).graph.links;
                &&& after.contains_key(p)
                &&& after[p].subrange(0, run(ds).graph.links[p].len() as int)
                    == run(ds).graph.links[p]
            },
{
    let s = run(ds);
    assert(ds.push(Decl::Pipeline(n, d)).drop_last() == ds);
    assert(s.graph.pipelines.insert(n, d).dom() =~= s.graph.pipelines.dom());
    let after = run(ds.push(Decl::Pipeline(n, d))).graph.links;
    assert forall|p: Seq<char>| #[trigger] s.graph.links.contains_key(p) implies {
        &&& after.contains_key(p)
        &&& after[p].subrange(0, s.graph.links[p].len() as int) == s.graph.links[p]
    } by {
        let old_list = s.graph.links[p];
        if s.current == Some(p) {
            assert(after[p].subrange(0, old_list.len() as int) =~= old_list);
        }
    }
}

/// Textures are queued exactly as declared, in order and with duplicates,
/// whatever passes and pipelines are declared between them.
pub proof fn law_textures_in_order<PassDesc, PipelineDesc, TextureDesc, Provider>(
    ds: Seq<Decl<PassDesc, PipelineDesc, TextureDesc, Provider>>,
)
    ensures
        run(ds).graph.textures == texture_decls(ds),
    decreases ds.len(),
{
    if ds.len() > 0 {
        law_textures_in_order(ds.drop_last());
    }
}

/// Providers are kept in the order they were handed over, one for each
/// call.
pub proof fn law_providers_in_order<PassDesc, PipelineDesc, TextureDesc, Provider>(
    ds: Seq<Decl<PassDesc, PipelineDesc, TextureDesc, Provider>>,
)
    ensures
        run(ds).graph.providers == provider_decls(ds),
        run(ds).graph.providers.len() == provider_count(ds),
    decreases ds.len(),
{
    if ds.len() > 0 {
        law_providers_in_order(ds.drop_last());
    }
}

} // verus!
