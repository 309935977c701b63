use render_graph::builder::RenderGraphBuilder;
use render_graph::graph::RenderGraph;

type Builder = RenderGraphBuilder<u32, &'static str, (u32, u32), Box<dyn Fn() -> u32>>;

fn names_of<V>(m: &render_graph::name_map::NameMap<V>) -> Vec<String> {
    let mut out = Vec::new();
    for i in 0..m.len() {
        out.push(m.name_at(i).clone());
    }
    out
}

fn pipelines_of(g: &RenderGraph<u32, &'static str, (u32, u32), Box<dyn Fn() -> u32>>, pass: &str) -> Option<Vec<String>> {
    g.pass_pipelines.get(pass).cloned()
}

fn strings(v: &[&str]) -> Vec<String> {
    v.iter().map(|s| s.to_string()).collect()
}

#[test]
fn scenario_two_passes_shared_pipeline() {
    let g = Builder::new()
        .add_pass("shadow", 1)
        .add_pipeline("p1", "P1")
        .add_pass("main", 2)
        .add_pipeline("p2", "P2")
        .add_pipeline("p1", "P1")
        .build();
    assert_eq!(g.pass_pipelines.len(), 2);
    assert_eq!(pipelines_of(&g, "shadow"), Some(strings(&["p1"])));
    assert_eq!(pipelines_of(&g, "main"), Some(strings(&["p2", "p1"])));
    assert_eq!(g.pipeline_descriptors.len(), 2);
    assert_eq!(g.pipeline_descriptors.get("p1"), Some(&"P1"));
    assert_eq!(g.pipeline_descriptors.get("p2"), Some(&"P2"));
    assert_eq!(g.pass_descriptors.get("shadow"), Some(&1));
    assert_eq!(g.pass_descriptors.get("main"), Some(&2));
}

#[test]
fn build_right_after_new_is_empty() {
    let g = Builder::new().build();
    assert!(g.pipeline_descriptors.is_empty());
    assert!(g.pass_descriptors.is_empty());
    assert!(g.pass_pipelines.is_empty());
    assert!(g.resource_providers.is_empty());
    assert!(g.queued_textures.is_empty());
}

#[test]
fn default_graph_is_empty() {
    let g: RenderGraph<u32, &'static str, (u32, u32), Box<dyn Fn() -> u32>> = RenderGraph::default();
    assert_eq!(g.pipeline_descriptors.len(), 0);
    assert_eq!(g.pass_descriptors.len(), 0);
    assert_eq!(g.pass_pipelines.len(), 0);
    assert_eq!(g.resource_providers.len(), 0);
    assert_eq!(g.queued_textures.len(), 0);
}

#[test]
fn pipelines_follow_the_latest_pass() {
    let g = Builder::new()
        .add_pass("a", 1)
        .add_pipeline("x", "X")
        .add_pipeline("y", "Y")
        .add_pass("b", 2)
        .add_pipeline("x", "X2")
        .add_pass("a", 3)
        .add_pipeline("z", "Z")
        .add_pipeline("z", "Z")
        .build();
    assert_eq!(pipelines_of(&g, "a"), Some(strings(&["x", "y", "z", "z"])));
    assert_eq!(pipelines_of(&g, "b"), Some(strings(&["x"])));
    assert_eq!(g.pipeline_descriptors.get("x"), Some(&"X2"));
}

#[test]
fn pass_without_pipelines_has_no_entry() {
    let g = Builder::new()
        .add_pass("a", 1)
        .add_pass("b", 2)
        .add_pipeline("x", "X")
        .build();
    assert!(!g.pass_pipelines.contains_key("a"));
    assert_eq!(g.pass_pipelines.get("a"), None);
    assert_eq!(pipelines_of(&g, "b"), Some(strings(&["x"])));
}

#[test]
fn pipeline_before_any_pass_is_linked_nowhere() {
    let g = Builder::new()
        .add_pipeline("early", "E")
        .add_pass("a", 1)
        .build();
    assert_eq!(g.pipeline_descriptors.get("early"), Some(&"E"));
    assert!(g.pass_pipelines.is_empty());
    assert_eq!(g.pass_descriptors.get("a"), Some(&1));
}

#[test]
fn redeclared_pass_replaces_descriptor_and_keeps_links() {
    let g = Builder::new()
        .add_pass("a", 1)
        .add_pipeline("x", "X")
        .add_pass("b", 2)
        .add_pass("a", 9)
        .build();
    assert_eq!(g.pass_descriptors.len(), 2);
    assert_eq!(g.pass_descriptors.get("a"), Some(&9));
    assert_eq!(names_of(&g.pass_descriptors), strings(&["a", "b"]));
    assert_eq!(pipelines_of(&g, "a"), Some(strings(&["x"])));
}

#[test]
fn redeclared_pipeline_replaces_descriptor_and_keeps_links() {
    let g = Builder::new()
        .add_pass("a", 1)
        .add_pipeline("x", "old")
        .add_pipeline("y", "Y")
        .add_pass("b", 2)
        .add_pipeline("x", "new")
        .build();
    assert_eq!(g.pipeline_descriptors.len(), 2);
    assert_eq!(g.pipeline_descriptors.get("x"), Some(&"new"));
    assert_eq!(names_of(&g.pipeline_descriptors), strings(&["x", "y"]));
    assert_eq!(pipelines_of(&g, "a"), Some(strings(&["x", "y"])));
    assert_eq!(pipelines_of(&g, "b"), Some(strings(&["x"])));
}

#[test]
fn passes_keep_declaration_order() {
    let g = Builder::new()
        .add_pass("c", 3)
        .add_pass("a", 1)
        .add_pass("b", 2)
        .build();
    assert_eq!(names_of(&g.pass_descriptors), strings(&["c", "a", "b"]));
}

#[test]
fn textures_are_queued_verbatim() {
    let g = Builder::new()
        .add_texture("depth", (1024, 1024))
        .add_pass("a", 1)
        .add_texture("color", (640, 480))
        .add_pipeline("x", "X")
        .add_texture("depth", (1024, 1024))
        .build();
    let expected: Vec<(String, (u32, u32))> = vec![
        ("depth".to_string(), (1024, 1024)),
        ("color".to_string(), (640, 480)),
        ("depth".to_string(), (1024, 1024)),
    ];
    assert_eq!(g.queued_textures, expected);
}

#[test]
fn providers_are_kept_in_call_order() {
    let g = Builder::new()
        .add_resource_provider(Box::new(|| 10))
        .add_pass("a", 1)
        .add_resource_provider(Box::new(|| 20))
        .add_resource_provider(Box::new(|| 30))
        .build();
    assert_eq!(g.resource_providers.len(), 3);
    let produced: Vec<u32> = g.resource_providers.iter().map(|p| p()).collect();
    assert_eq!(produced, vec![10, 20, 30]);
}
