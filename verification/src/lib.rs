//! Core of a terminal text-editing component: a buffer holding document
//! content plus caret, selection, scroll and undo state; the commands that
//! mutate it with Unicode-aware caret arithmetic; and the pipeline that turns
//! buffer state into an ordered list of abstract paint instructions.

pub mod units;
pub mod seg;
pub mod col_math;
pub mod line;
pub mod selection;
pub mod doc;
pub mod history;
pub mod editor_buffer;
pub mod input_event;
pub mod clipboard;
pub mod render_op;
pub mod highlight;
pub mod engine;
pub mod render_no_hi;
pub mod render_syntect;
pub mod render_internal_hi;
pub mod engine_api;
pub mod terminal_lib_backends;

pub use units::{Position, Size, SelectionRange, ScrollOffsetColLocationInRange};
pub use seg::{Seg, SegView};
pub use line::Line;
pub use selection::SelectionMap;
pub use history::{History, Snapshot};
pub use editor_buffer::{EditorBuffer, EditorBufferCommand, CaretDirection};
pub use input_event::{InputEvent, KeyPress, Key, SpecialKey};
pub use clipboard::{copy, cut, paste, try_to_put_content_into_clipboard, try_to_get_content_from_clipboard, ClipboardError};
pub use render_op::{RenderOp, RenderPipeline, ZOrder, TuiStyle, TuiColor, AnsiBasicColor};
pub use engine::{EditorEngine, EditorEngineConfig, EditorFlexBox, EditMode, SyntaxHighlightMode, HasFocus};
pub use engine_api::{EditorEngineApi, EditorEngineApplyEventResult};
pub use terminal_lib_backends::TerminalLibBackend;
