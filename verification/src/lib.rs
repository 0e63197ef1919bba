//! Verified core of the makepad icon atlas, SVG path reader, font face and desktop window chrome.
pub mod svg_path;
pub mod svg_path_laws;
pub mod svg_path_text;
pub mod icon_atlas;
pub mod icon_atlas_laws;
pub mod font_face;
pub mod desktop_window;
