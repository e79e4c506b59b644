use ascii_racer::glyph::{candidates, glyph_char, is_structural, CellRole, GlyphMode};
use ascii_racer::mesh::SurfaceKind;
use ascii_racer::renderer::{
    clip_plan, colors_close, history_matches, neighbors, on_axis, palette_char, road_marking_debug_cell,
    sample_mask, stroke_axis, AaMode, ClipPoint, DebugView, StrokeAxis,
};

fn chars(indices: &[u8]) -> String {
    indices.iter().map(|&i| glyph_char(i)).collect()
}

#[test]
fn flat_road_candidates_have_no_line_glyphs() {
    for role in [CellRole::Filled, CellRole::ThinStructure, CellRole::SilhouetteBoundary] {
        for sparse in [false, true] {
            for surface in [SurfaceKind::Road, SurfaceKind::Ground] {
                for &i in &candidates(surface, role, false, sparse) {
                    assert!(!is_structural(i));
                }
            }
        }
    }
    assert_eq!(chars(&candidates(SurfaceKind::Road, CellRole::Filled, false, false)), ":");
    assert_eq!(chars(&candidates(SurfaceKind::Ground, CellRole::Filled, false, true)), ".,:");
}

#[test]
fn solid_surfaces_fill_and_strokes_get_lines() {
    for surface in [SurfaceKind::Vehicle, SurfaceKind::Generic, SurfaceKind::Guardrail] {
        let filled = chars(&candidates(surface, CellRole::SilhouetteBoundary, false, false));
        assert_eq!(filled, "=+*#%@");
        let thin = chars(&candidates(surface, CellRole::ThinStructure, false, false));
        assert_eq!(thin, "=+*#%@-|_/\\");
    }
    let paint = chars(&candidates(SurfaceKind::RoadMarking, CellRole::Filled, true, false));
    assert_eq!(paint, ".,-|_/\\=+*#");
    let wire = chars(&candidates(SurfaceKind::Guardrail, CellRole::ThinStructure, true, false));
    assert_eq!(wire, "=");
}

#[test]
fn glyph_modes_and_views() {
    assert_eq!(GlyphMode::from_code(1), GlyphMode::Density);
    assert_eq!(GlyphMode::from_code(0), GlyphMode::Shape);
    assert_eq!(GlyphMode::from_code(7), GlyphMode::Shape);
    assert_eq!(AaMode::Off.count(), 1);
    assert_eq!(AaMode::X2.count(), 4);
    assert_eq!(DebugView::default(), DebugView::Normal);
    let ramp: String = (0..10).map(palette_char).collect();
    assert_eq!(ramp, " .:-=+*#%@");
}

#[test]
fn sample_masks_name_stroke_axes() {
    assert_eq!(sample_mask([true, true, false, false]), 0b0011);
    assert_eq!(stroke_axis(sample_mask([false, false, true, true])), Some(StrokeAxis::Horizontal));
    assert_eq!(stroke_axis(sample_mask([true, false, true, false])), Some(StrokeAxis::Vertical));
    assert_eq!(stroke_axis(sample_mask([true, false, false, true])), Some(StrokeAxis::Falling));
    assert_eq!(stroke_axis(sample_mask([false, true, true, false])), Some(StrokeAxis::Rising));
    assert_eq!(stroke_axis(sample_mask([true, true, true, false])), None);
    assert_eq!(stroke_axis(0), None);
    assert!(on_axis(StrokeAxis::Rising, 1, -1));
    assert!(!on_axis(StrokeAxis::Falling, 1, -1));
    assert!(on_axis(StrokeAxis::Vertical, 0, 1));
    assert!(!on_axis(StrokeAxis::Horizontal, 0, 1));
}

#[test]
fn neighbors_stay_inside_the_grid_in_scan_order() {
    let corner: Vec<(usize, i8, i8)> =
        neighbors(0, 0, 4, 3).iter().map(|n| (n.index, n.dx, n.dy)).collect();
    assert_eq!(corner, vec![(1, 1, 0), (4, 0, 1), (5, 1, 1)]);
    let inner = neighbors(1, 1, 4, 3);
    assert_eq!(inner.len(), 8);
    let indices: Vec<usize> = inner.iter().map(|n| n.index).collect();
    assert_eq!(indices, vec![0, 1, 2, 4, 6, 8, 9, 10]);
    assert_eq!(neighbors(0, 0, 1, 1).len(), 0);
}

#[test]
fn history_colors_must_stay_within_sixty() {
    assert!(colors_close((100, 100, 100), (159, 41, 100)));
    assert!(!colors_close((100, 100, 100), (160, 100, 100)));
    assert!(!colors_close((0, 0, 200), (0, 0, 140)));
}

#[test]
fn near_plane_clips_triangles() {
    const NEAR: f32 = 0.12;
    let depths = [0.01_f32, 1.0, 1.0];
    let plan = clip_plan(depths.map(|z| z >= NEAR));
    assert_eq!(plan.len(), 4);
    assert_eq!(
        plan,
        vec![
            ClipPoint::Crossing(0),
            ClipPoint::Vertex(1),
            ClipPoint::Vertex(2),
            ClipPoint::Crossing(2),
        ]
    );
}

#[test]
fn clipping_keeps_whole_triangles_and_drops_hidden_ones() {
    assert_eq!(
        clip_plan([true, true, true]),
        vec![ClipPoint::Vertex(0), ClipPoint::Vertex(1), ClipPoint::Vertex(2)]
    );
    assert!(clip_plan([false, false, false]).is_empty());
    assert_eq!(
        clip_plan([false, false, true]),
        vec![ClipPoint::Crossing(1), ClipPoint::Vertex(2), ClipPoint::Crossing(2)]
    );
}

#[test]
fn road_marking_view_colors_each_outcome() {
    let blank = road_marking_debug_cell(false, true, true, true, true);
    assert_eq!((blank.ch, blank.color), (' ', (0, 0, 0)));
    let shown = road_marking_debug_cell(true, true, true, false, true);
    assert_eq!((shown.ch, shown.color), ('#', (0, 255, 0)));
    let faded = road_marking_debug_cell(true, false, true, true, true);
    assert_eq!((faded.ch, faded.color), ('.', (255, 255, 0)));
    let hidden = road_marking_debug_cell(true, true, false, false, false);
    assert_eq!((hidden.ch, hidden.color), ('.', (255, 0, 0)));
}

#[test]
fn history_needs_a_visible_glyph_on_the_same_surface() {
    assert!(history_matches('#', SurfaceKind::Vehicle, (200, 60, 50), SurfaceKind::Vehicle, (180, 70, 40)));
    assert!(!history_matches(' ', SurfaceKind::Vehicle, (200, 60, 50), SurfaceKind::Vehicle, (200, 60, 50)));
    assert!(!history_matches('#', SurfaceKind::Road, (200, 60, 50), SurfaceKind::Vehicle, (200, 60, 50)));
    assert!(!history_matches('#', SurfaceKind::Vehicle, (200, 60, 50), SurfaceKind::Vehicle, (120, 60, 50)));
}
