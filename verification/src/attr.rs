use vstd::prelude::*;

verus! {

/// Handle for position attributes (vertex).
pub const POSITION: &'static str = "position";
/// Handle for normal attributes (vertex).
pub const NORMAL: &'static str = "normal";
/// Handle for UV texture coordinate attributes (vertex).
pub const UV_COORDS: &'static str = "uvs";
/// Handle for Transform attributes (instance).
pub const TRANSFORM: &'static str = "transform";
/// Handle for uv boundaries attributes (instance).
pub const UV_BOUNDS: &'static str = "uv_bounds";
/// Handle for tint color attributes (instance).
pub const TINT_COLOR: &'static str = "color_tint";
/// Handle for text color attributes (instance).
pub const TEXT_COLOR: &'static str = "text_color";
/// Handle for text outline color attributes (instance).
pub const OUTLINE_COLOR: &'static str = "outline_color";
/// Handle for text settings attributes (instance).
pub const SETTINGS: &'static str = "text_settings";

} // verus!
