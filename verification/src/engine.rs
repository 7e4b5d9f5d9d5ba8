//! The editor engine: per-widget render configuration. It carries the
//! editing mode, the highlighting mode, the flex box the editor was laid
//! out into, and the loaded grammar set and theme for the external
//! highlighter.

use vstd::prelude::*;
use syntect::highlighting::Theme;
use syntect::parsing::SyntaxSet;
use crate::render_op::TuiStyle;
use crate::units::{Position, Size};
use crate::highlight::{load_default_syntax_set, load_default_theme};

verus! {

/// Whether content-mutating commands are accepted.
#[derive(Clone, Copy, PartialEq, Eq, Structural, Debug)]
pub enum EditMode {
    ReadOnly,
    ReadWrite,
}

/// Which content-rendering strategy the engine uses.
#[derive(Clone, Copy, PartialEq, Eq, Structural, Debug)]
pub enum SyntaxHighlightMode {
    Disable,
    /// External-grammar highlighting, with the internal override applied
    /// on top.
    Enable,
}

#[derive(Clone, Copy, PartialEq, Eq, Structural, Debug)]
pub struct EditorEngineConfig {
    pub edit_mode: EditMode,
    pub syntax_highlight: SyntaxHighlightMode,
}

/// The box the layout engine computed for this editor: its identity, the
/// origin the paint operations are relative to, the usable size, and the
/// style the box carries.
#[derive(Clone, Copy, PartialEq, Eq, Structural, Debug)]
pub struct EditorFlexBox {
    pub id: usize,
    pub style_adjusted_origin_pos: Position,
    pub style_adjusted_bounds_size: Size,
    pub maybe_computed_style: Option<TuiStyle>,
}

impl EditorFlexBox {
    pub fn new(id: usize, origin: Position, size: Size, style: Option<TuiStyle>) -> (r: EditorFlexBox)
        ensures
            r == (EditorFlexBox {
                id,
                style_adjusted_origin_pos: origin,
                style_adjusted_bounds_size: size,
                maybe_computed_style: style,
            }),
    {
        EditorFlexBox {
            id,
            style_adjusted_origin_pos: origin,
            style_adjusted_bounds_size: size,
            maybe_computed_style: style,
        }
    }
}

/// Which widget currently holds input focus.
#[derive(Clone, Copy, PartialEq, Eq, Structural, Debug)]
pub struct HasFocus {
    pub maybe_id: Option<usize>,
}

impl HasFocus {
    pub fn new(maybe_id: Option<usize>) -> (r: HasFocus)
        ensures
            r.maybe_id == maybe_id,
    {
        HasFocus { maybe_id }
    }

    pub fn does_id_have_focus(&self, id: usize) -> (r: bool)
        ensures
            r == (self.maybe_id == Some(id)),
    {
        match self.maybe_id {
            Some(focused) => focused == id,
            None => false,
        }
    }
}

/// The engine for one editor widget.
pub struct EditorEngine {
    pub config_options: EditorEngineConfig,
    pub current_box: EditorFlexBox,
    /// The external highlighter's grammar set.
    pub syntax_set: SyntaxSet,
    /// The external highlighter's color theme, when one could be loaded.
    pub theme: Option<Theme>,
}

impl EditorEngine {
    pub fn new(config_options: EditorEngineConfig, current_box: EditorFlexBox) -> (r: EditorEngine)
        ensures
            r.config_options == config_options,
            r.current_box == current_box,
    {
        EditorEngine {
            config_options,
            current_box,
            syntax_set: load_default_syntax_set(),
            theme: load_default_theme(),
        }
    }

    /// The viewport size the engine renders into.
    pub fn viewport(&self) -> (r: Size)
        ensures
            r == self.current_box.style_adjusted_bounds_size,
    {
        self.current_box.style_adjusted_bounds_size
    }
}

} // verus!
