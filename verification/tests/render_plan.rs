use orrery::render_plan::{plan_render_passes, Pipeline, RenderGroupType, SurfaceSize};

#[test]
fn values_draw_lit_first() {
    assert_eq!(RenderGroupType::values(), [RenderGroupType::Lit, RenderGroupType::Unlit]);
}

#[test]
fn passes_group_objects_in_order() {
    let groups = vec![
        RenderGroupType::Unlit,
        RenderGroupType::Lit,
        RenderGroupType::Lit,
        RenderGroupType::Unlit,
        RenderGroupType::Lit,
    ];
    let passes = plan_render_passes(&groups, false);
    assert_eq!(passes.len(), 2);
    assert_eq!(passes[0].pipeline, Pipeline::Group(RenderGroupType::Lit));
    assert!(passes[0].clear);
    assert_eq!(passes[0].objects, vec![1, 2, 4]);
    assert_eq!(passes[1].pipeline, Pipeline::Group(RenderGroupType::Unlit));
    assert!(!passes[1].clear);
    assert_eq!(passes[1].objects, vec![0, 3]);
}

#[test]
fn every_object_in_exactly_one_group_pass() {
    let groups = vec![RenderGroupType::Lit, RenderGroupType::Unlit, RenderGroupType::Unlit];
    let passes = plan_render_passes(&groups, false);
    for i in 0..groups.len() {
        let hits = passes.iter().filter(|p| p.objects.contains(&i)).count();
        assert_eq!(hits, 1);
    }
}

#[test]
fn wireframe_pass_draws_everything_last() {
    let groups = vec![RenderGroupType::Lit, RenderGroupType::Unlit];
    let passes = plan_render_passes(&groups, true);
    assert_eq!(passes.len(), 3);
    assert_eq!(passes[2].pipeline, Pipeline::Wireframe);
    assert!(!passes[2].clear);
    assert_eq!(passes[2].objects, vec![0, 1]);
}

#[test]
fn no_objects_still_clears() {
    let passes = plan_render_passes(&Vec::new(), false);
    assert_eq!(passes.len(), 2);
    assert!(passes[0].clear);
    assert!(passes[0].objects.is_empty() && passes[1].objects.is_empty());
}

#[test]
fn resize_ignores_empty_size() {
    let mut size = SurfaceSize { width: 800, height: 600 };
    assert!(!size.resize(0, 300));
    assert_eq!(size, SurfaceSize { width: 800, height: 600 });
    assert!(!size.resize(300, 0));
    assert!(size.resize(1024, 768));
    assert_eq!(size, SurfaceSize { width: 1024, height: 768 });
}
