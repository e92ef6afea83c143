//! A modal text editor core: a line buffer with positional edits, a
//! mode-aware input classifier, an action interpreter enforcing the cursor
//! and viewport invariants, and the pure computations behind the renderer.
//!
//! Terminal I/O (raw mode, event polling, painting) lives outside this
//! library; the editor state machine here is pure and fully specified.

pub mod buffer;
pub mod editor;
pub mod input;
pub mod laws;
pub mod render;
pub mod text;

pub use buffer::Buffer;
pub use editor::Editor;
