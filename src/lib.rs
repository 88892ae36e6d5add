//! A layout and drawing engine for plots: pixel rectangles and their
//! subdivision, drawing areas with attached coordinate systems, the drawing
//! backend protocol and the drawable elements built on top of it.
pub mod rect;
pub mod style;
pub mod text;
pub mod backend;
pub mod font;
pub mod mocked;
pub mod coord;
pub mod size;
pub mod element;
pub mod area;
pub mod chart;
pub mod points;
pub mod candlestick;
pub mod text_elem;
pub mod composable;
pub mod shapes3d;
pub mod web_font;
pub mod svg;
pub mod cartesian;
