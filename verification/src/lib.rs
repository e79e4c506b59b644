pub mod decimal;
pub mod frame;
pub mod glyph;
pub mod hud;
pub mod input;
pub mod mesh;
pub mod renderer;
pub mod track;
