use durer::pixels::Color;
use durer::plane::PlaneType;
use durer::raytracer::{add_colors, csg_crossings, is_inside_csg, CSGOperation, CsgCrossing};
use durer::wireframe::{render_video, RenderingSettings, ShadingModel};

#[test]
fn add_colors_adds_channels() {
    let c = add_colors(Color { r: 10, g: 100, b: 200 }, Color { r: 5, g: 155, b: 55 });
    assert_eq!(c, Color { r: 15, g: 255, b: 255 });
}

#[test]
fn inside_csg_truth_table() {
    for &(l, r) in &[(false, false), (false, true), (true, false), (true, true)] {
        assert_eq!(is_inside_csg(l, r, &CSGOperation::Union), l || r);
        assert_eq!(is_inside_csg(l, r, &CSGOperation::Intersection), l && r);
        assert_eq!(is_inside_csg(l, r, &CSGOperation::Difference), l && !r);
    }
}

fn crossing(event: usize, flip_normal: bool) -> CsgCrossing {
    CsgCrossing { event, flip_normal }
}

#[test]
fn csg_crossings_of_overlapping_operands() {
    let events = vec![true, false, true, false];
    assert_eq!(
        csg_crossings(&events, &CSGOperation::Union),
        vec![crossing(0, false), crossing(3, false)]
    );
    assert_eq!(
        csg_crossings(&events, &CSGOperation::Intersection),
        vec![crossing(1, true), crossing(2, true)]
    );
    assert_eq!(
        csg_crossings(&events, &CSGOperation::Difference),
        vec![crossing(0, false), crossing(1, false)]
    );
}

#[test]
fn csg_crossings_of_disjoint_operands() {
    let events = vec![true, true, false, false];
    assert_eq!(
        csg_crossings(&events, &CSGOperation::Union),
        vec![crossing(0, false), crossing(1, true), crossing(2, true), crossing(3, false)]
    );
    assert!(csg_crossings(&events, &CSGOperation::Intersection).is_empty());
    assert_eq!(
        csg_crossings(&events, &CSGOperation::Difference),
        vec![crossing(0, false), crossing(1, true)]
    );
}

#[test]
fn csg_crossings_alternate_in_and_out() {
    let events = vec![true, false, false, true, true, false, true, false];
    for op in [CSGOperation::Union, CSGOperation::Intersection, CSGOperation::Difference] {
        let crossings = csg_crossings(&events, &op);
        assert_eq!(crossings.len() % 2, 0);
        for pair in crossings.windows(2) {
            assert!(pair[0].event < pair[1].event);
        }
    }
}

#[test]
fn settings_and_plane_types() {
    let settings = RenderingSettings {
        shading_model: ShadingModel::Gouraud,
        show_normals: false,
        backface_culling: true,
    };
    assert_eq!(settings.shading_model, ShadingModel::Gouraud);
    assert_ne!(PlaneType::Near, PlaneType::Left);
    render_video();
}
