//! The glyph families the final resolve chooses from: which characters a
//! cell may become, given what covers it and how.
use vstd::prelude::*;
use crate::mesh::SurfaceKind;

verus! {

/// Whether cells are drawn with shape-matched glyphs or a plain density ramp.
#[derive(Clone, Copy, Debug, PartialEq, Eq, Structural)]
pub enum GlyphMode {
    Shape,
    Density,
}

impl GlyphMode {
    /// The mode for a host's numeric code: 1 is the density ramp, anything
    /// else shape glyphs.
    pub fn from_code(code: u32) -> (mode: GlyphMode)
        ensures
            mode == (if code == 1 {
                GlyphMode::Density
            } else {
                GlyphMode::Shape
            }),
    {
        if code == 1 {
            GlyphMode::Density
        } else {
            GlyphMode::Shape
        }
    }
}

/// How a cell's coverage reads: a filled area, the edge of a filled
/// silhouette, or a stroke about one cell wide.
#[derive(Clone, Copy, Debug, PartialEq, Eq, Structural)]
pub enum CellRole {
    Filled,
    SilhouetteBoundary,
    ThinStructure,
}

/// Number of glyphs in the table.
pub const GLYPH_COUNT: usize = 16;

/// The glyph table's characters: blank, light punctuation, the fill ramp
/// `=+*#%@`, then the line glyphs `-|_/\`.
pub open spec fn spec_glyph_char(index: nat) -> char {
    seq![' ', '.', ',', ':', ';', '=', '+', '*', '#', '%', '@', '-', '|', '_', '/', '\\'][index as int]
}

/// Line glyphs: they draw an edge or a stroke in a direction.
pub open spec fn spec_structural(index: nat) -> bool {
    11 <= index < 16
}

/// The filled ink ramp `=+*#%@`.
pub open spec fn spec_fill(index: nat) -> bool {
    5 <= index <= 10
}

/// The glyphs a cell may become.
/// - A one-cell horizontal stroke that is not paint: `=` alone.
/// - Road and ground: `.,:` when sparsely covered, `:` otherwise.
/// - Road paint: light punctuation, the line glyphs and the light fills.
/// - Other strokes: the fill ramp and the line glyphs.
/// - Other surfaces: the fill ramp alone.
pub open spec fn spec_candidates(
    surface: SurfaceKind,
    role: CellRole,
    continuous_horizontal: bool,
    sparse: bool,
) -> Seq<u8> {
    if continuous_horizontal && role == CellRole::ThinStructure && surface
        != SurfaceKind::RoadMarking {
        seq![5u8]
    } else if surface == SurfaceKind::Road || surface == SurfaceKind::Ground {
        if sparse {
            seq![1u8, 2, 3]
        } else {
            seq![3u8]
        }
    } else if surface == SurfaceKind::RoadMarking {
        seq![1u8, 2, 11, 12, 13, 14, 15, 5, 6, 7, 8]
    } else if role == CellRole::ThinStructure {
        seq![5u8, 6, 7, 8, 9, 10, 11, 12, 13, 14, 15]
    } else {
        seq![5u8, 6, 7, 8, 9, 10]
    }
}

/// The character of glyph `index`.
pub fn glyph_char(index: u8) -> (ch: char)
    requires
        index < GLYPH_COUNT,
    ensures
        ch == spec_glyph_char(index as nat),
{
    let table = [' ', '.', ',', ':', ';', '=', '+', '*', '#', '%', '@', '-', '|', '_', '/', '\\'];
    assert(table@ =~= seq![' ', '.', ',', ':', ';', '=', '+', '*', '#', '%', '@', '-', '|', '_', '/', '\\']);
    table[index as usize]
}

/// Whether glyph `index` is a line glyph.
pub fn is_structural(index: u8) -> (structural: bool)
    ensures
        structural == spec_structural(index as nat),
{
    11 <= index && index < 16
}

/// The glyph indices a cell may become; `sparse` tells whether a road or
/// ground cell is covered below the calm-coverage threshold.
pub fn candidates(
    surface: SurfaceKind,
    role: CellRole,
    continuous_horizontal: bool,
    sparse: bool,
) -> (indices: Vec<u8>)
    ensures
        indices@ == spec_candidates(surface, role, continuous_horizontal, sparse),
        surface.spec_calm() && !(continuous_horizontal && role == CellRole::ThinStructure) ==> glyph_chars(indices@) == (if sparse {
            seq!['.', ',', ':']
        } else {
            seq![':']
        }),
{
    proof {
        lemma_calm_candidates(role, continuous_horizontal, sparse);
    }
    let thin = match role {
        CellRole::ThinStructure => true,
        _ => false,
    };
    let marking = match surface {
        SurfaceKind::RoadMarking => true,
        _ => false,
    };
    let v = if continuous_horizontal && thin && !marking {
        vec![5u8]
    } else if surface.calm() {
        if sparse {
            vec![1u8, 2, 3]
        } else {
            vec![3u8]
        }
    } else if marking {
        vec![1u8, 2, 11, 12, 13, 14, 15, 5, 6, 7, 8]
    } else if thin {
        vec![5u8, 6, 7, 8, 9, 10, 11, 12, 13, 14, 15]
    } else {
        vec![5u8, 6, 7, 8, 9, 10]
    };
    assert(v@ =~= spec_candidates(surface, role, continuous_horizontal, sparse));
    v
}

/// The characters of a list of glyph indices.
pub open spec fn glyph_chars(indices: Seq<u8>) -> Seq<char> {
    indices.map_values(|i: u8| spec_glyph_char(i as nat))
}

/// Road and ground are the same flat background: in every situation they
/// get the same candidates. Apart from a one-cell horizontal stroke, a
/// sparsely covered background cell may become any of the light marks `.`,
/// `,` and `:`, and a well covered one only `:`.
pub proof fn lemma_calm_candidates(role: CellRole, continuous_horizontal: bool, sparse: bool)
    ensures
        spec_candidates(SurfaceKind::Road, role, continuous_horizontal, sparse)
            == spec_candidates(SurfaceKind::Ground, role, continuous_horizontal, sparse),
        !(continuous_horizontal && role == CellRole::ThinStructure) ==> glyph_chars(
            spec_candidates(SurfaceKind::Road, role, continuous_horizontal, true),
        ) == seq!['.', ',', ':'],
        !(continuous_horizontal && role == CellRole::ThinStructure) ==> glyph_chars(
            spec_candidates(SurfaceKind::Road, role, continuous_horizontal, false),
        ) == seq![':'],
{
    if !(continuous_horizontal && role == CellRole::ThinStructure) {
        assert(glyph_chars(spec_candidates(SurfaceKind::Road, role, continuous_horizontal, true))
            =~= seq!['.', ',', ':']);
        assert(glyph_chars(spec_candidates(SurfaceKind::Road, role, continuous_horizontal, false))
            =~= seq![':']);
    }
}

/// Flat road and ground never draw line glyphs: their candidates are light
/// punctuation or `=`.
pub proof fn lemma_calm_surfaces_have_no_line_glyphs(
    surface: SurfaceKind,
    role: CellRole,
    continuous_horizontal: bool,
    sparse: bool,
    i: int,
)
    requires
        surface.spec_calm(),
        0 <= i < spec_candidates(surface, role, continuous_horizontal, sparse).len(),
    ensures
        !spec_structural(spec_candidates(surface, role, continuous_horizontal, sparse)[i] as nat),
{
}

/// A filled or silhouette cell of a solid surface (car, guardrail, gate,
/// generic geometry) only ever becomes one of `=+*#%@`: corners and edges of
/// solid faces are never drawn as ASCII line art.
pub proof fn lemma_solid_cells_use_fill_ink(
    surface: SurfaceKind,
    role: CellRole,
    continuous_horizontal: bool,
    sparse: bool,
    i: int,
)
    requires
        !surface.spec_calm(),
        surface != SurfaceKind::RoadMarking,
        role != CellRole::ThinStructure,
        0 <= i < spec_candidates(surface, role, continuous_horizontal, sparse).len(),
    ensures
        spec_fill(spec_candidates(surface, role, continuous_horizontal, sparse)[i] as nat),
        spec_candidates(surface, role, continuous_horizontal, sparse)[i] < GLYPH_COUNT,
{
}

/// Every candidate is an entry of the glyph table.
pub proof fn lemma_candidates_in_table(
    surface: SurfaceKind,
    role: CellRole,
    continuous_horizontal: bool,
    sparse: bool,
    i: int,
)
    requires
        0 <= i < spec_candidates(surface, role, continuous_horizontal, sparse).len(),
    ensures
        spec_candidates(surface, role, continuous_horizontal, sparse)[i] < GLYPH_COUNT,
{
}

} // verus!
