//! What a frame of the terminal looks like.
use vstd::prelude::*;

verus! {

/// Bounded, nonzero terminal dimensions.
#[derive(Clone, Copy, Debug, PartialEq, Eq, Structural)]
pub struct GridSize {
    pub columns: u16,
    pub lines: u16,
}

#[derive(Clone, Copy, Debug, PartialEq, Eq, Structural)]
pub enum GridSizeError {
    Zero,
    TooLarge,
}

impl GridSizeError {
    /// The message shown for the error.
    pub fn message(&self) -> (result: &'static str)
        ensures
            result@ == match *self {
                GridSizeError::Zero => "terminal grid dimensions must be nonzero"@,
                GridSizeError::TooLarge => "terminal grid exceeds 512x256 cells"@,
            },
    {
        match self {
            GridSizeError::Zero => "terminal grid dimensions must be nonzero",
            GridSizeError::TooLarge => "terminal grid exceeds 512x256 cells",
        }
    }
}

impl GridSize {
    pub const MAX_COLUMNS: u16 = 512;

    pub const MAX_LINES: u16 = 256;

    /// Both dimensions are nonzero and within the limits.
    pub open spec fn wf(self) -> bool {
        1 <= self.columns <= 512 && 1 <= self.lines <= 256
    }

    /// Creates bounded, nonzero terminal dimensions.
    pub fn new(columns: u16, lines: u16) -> (result: Result<GridSize, GridSizeError>)
        ensures
            result == (if columns > 512 || lines > 256 {
                Err(GridSizeError::TooLarge)
            } else if columns == 0 || lines == 0 {
                Err(GridSizeError::Zero)
            } else {
                Ok(GridSize { columns, lines })
            }),
            result is Ok ==> result->Ok_0.wf(),
    {
        if columns > Self::MAX_COLUMNS || lines > Self::MAX_LINES {
            return Err(GridSizeError::TooLarge);
        }
        if columns == 0 || lines == 0 {
            return Err(GridSizeError::Zero);
        }
        Ok(GridSize { columns, lines })
    }

    pub fn columns(self) -> (result: usize)
        ensures
            result == self.columns,
    {
        self.columns as usize
    }

    pub fn lines(self) -> (result: usize)
        ensures
            result == self.lines,
    {
        self.lines as usize
    }

    /// The number of cells of the grid.
    pub open spec fn cell_count(self) -> nat {
        (self.columns * self.lines) as nat
    }
}

#[derive(Clone, Copy, Debug, PartialEq, Eq, Structural)]
pub enum TerminalColor {
    Named(u16),
    Indexed(u8),
    Rgb(u8, u8, u8),
}

#[derive(Clone, Copy, Debug, PartialEq, Eq, Structural)]
pub struct CellFlags {
    pub bold: bool,
    pub dim: bool,
    pub italic: bool,
    pub underline: bool,
    pub inverse: bool,
    pub hidden: bool,
    pub strikeout: bool,
}

impl CellFlags {
    /// No flag is set.
    pub open spec fn none() -> CellFlags {
        CellFlags {
            bold: false,
            dim: false,
            italic: false,
            underline: false,
            inverse: false,
            hidden: false,
            strikeout: false,
        }
    }
}

impl Default for CellFlags {
    fn default() -> (result: CellFlags)
        ensures
            result == CellFlags::none(),
    {
        CellFlags {
            bold: false,
            dim: false,
            italic: false,
            underline: false,
            inverse: false,
            hidden: false,
            strikeout: false,
        }
    }
}

#[derive(Clone, Copy, Debug, PartialEq, Eq, Structural)]
pub enum CellWidth {
    Narrow,
    Wide,
    Spacer,
    LeadingSpacer,
}

#[derive(Clone, Copy, Debug, PartialEq, Eq, Structural)]
pub enum UnderlineStyle {
    Off,
    Single,
    Double,
    Curly,
    Dotted,
    Dashed,
}

#[derive(Clone, Copy, Debug, PartialEq, Eq, Structural)]
pub enum CursorShape {
    Block,
    Beam,
    Underline,
}

#[derive(Clone, Copy, Debug, PartialEq, Eq, Structural)]
pub enum CursorBlink {
    Steady,
    Blinking,
}

/// The screen that a search or a snapshot speaks of.
#[derive(Clone, Copy, Debug, PartialEq, Eq, Structural)]
pub enum SearchBuffer {
    Normal,
    Alternate,
}

#[derive(Clone, Copy, Debug, PartialEq, Eq, Structural)]
pub struct CursorSnapshot {
    pub column: u16,
    pub line: u16,
    pub visible: bool,
    pub shape: CursorShape,
    pub blink: CursorBlink,
}

#[derive(Clone, Copy, Debug, PartialEq, Eq, Structural)]
pub enum MouseProtocol {
    Off,
    X10,
    Normal,
    ButtonEvent,
    AnyEvent,
}

#[derive(Clone, Copy, Debug, PartialEq, Eq, Structural)]
pub enum MouseEncoding {
    Legacy,
    Utf8,
    Sgr,
}

/// The progressive enhancements of the kitty keyboard protocol, five flags in five bits.
#[derive(Clone, Copy, Debug, PartialEq, Eq, Structural)]
pub struct KittyKeyboardFlags {
    pub bits: u8,
}

impl KittyKeyboardFlags {
    pub const DISAMBIGUATE: u8 = 1;

    pub const REPORT_EVENTS: u8 = 2;

    pub const ALTERNATE_KEYS: u8 = 4;

    pub const ALL_KEYS: u8 = 8;

    pub const ASSOCIATED_TEXT: u8 = 16;

    /// Only known flags are set.
    pub open spec fn wf(self) -> bool {
        self.bits < 32
    }

    /// The flags of a bit pattern, if all of its bits are known.
    pub fn from_valid_bits(bits: u8) -> (result: Option<KittyKeyboardFlags>)
        ensures
            result == (if bits < 32 {
                Some(KittyKeyboardFlags { bits })
            } else {
                None
            }),
    {
        if bits < 32 {
            Some(KittyKeyboardFlags { bits })
        } else {
            None
        }
    }

    pub fn bits(self) -> (result: u8)
        ensures
            result == self.bits,
    {
        self.bits
    }

    pub fn is_empty(self) -> (result: bool)
        ensures
            result == (self.bits == 0),
    {
        self.bits == 0
    }

    /// Whether every flag of `mask` is set.
    pub open spec fn has(self, mask: u8) -> bool {
        self.bits & mask == mask
    }

    /// Whether every flag of `mask` is set.
    pub fn contains(self, mask: u8) -> (result: bool)
        ensures
            result == self.has(mask),
    {
        self.bits & mask == mask
    }

    /// The flags of either.
    pub fn union(self, other: KittyKeyboardFlags) -> (result: KittyKeyboardFlags)
        ensures
            result.bits == self.bits | other.bits,
            self.wf() && other.wf() ==> result.wf(),
    {
        let a: u8 = self.bits;
        let b: u8 = other.bits;
        assert(a < 32 && b < 32 ==> (a | b) < 32) by (bit_vector);
        KittyKeyboardFlags { bits: self.bits | other.bits }
    }

    /// The flags of this one that `other` lacks.
    pub fn difference(self, other: KittyKeyboardFlags) -> (result: KittyKeyboardFlags)
        ensures
            result.bits == self.bits & !other.bits,
            self.wf() ==> result.wf(),
    {
        let a: u8 = self.bits;
        let b: u8 = other.bits;
        assert(a < 32 ==> (a & !b) < 32) by (bit_vector);
        KittyKeyboardFlags { bits: self.bits & !other.bits }
    }
}

impl Default for KittyKeyboardFlags {
    fn default() -> (result: KittyKeyboardFlags)
        ensures
            result.bits == 0,
    {
        KittyKeyboardFlags { bits: 0 }
    }
}

/// How far the `modifyOtherKeys` protocol of xterm is switched on.
#[derive(Clone, Copy, Debug, PartialEq, Eq, Structural)]
pub enum ModifyOtherKeysLevel {
    Disabled,
    ExceptWellDefined,
    All,
}

#[derive(Clone, Copy, Debug, PartialEq, Eq, Structural)]
pub struct KeyboardProtocolState {
    pub kitty: KittyKeyboardFlags,
    pub modify_other_keys: ModifyOtherKeysLevel,
}

impl KeyboardProtocolState {
    /// Both protocols are off.
    pub open spec fn off() -> KeyboardProtocolState {
        KeyboardProtocolState {
            kitty: KittyKeyboardFlags { bits: 0 },
            modify_other_keys: ModifyOtherKeysLevel::Disabled,
        }
    }
}

impl Default for KeyboardProtocolState {
    fn default() -> (result: KeyboardProtocolState)
        ensures
            result == KeyboardProtocolState::off(),
    {
        KeyboardProtocolState {
            kitty: KittyKeyboardFlags { bits: 0 },
            modify_other_keys: ModifyOtherKeysLevel::Disabled,
        }
    }
}

#[derive(Clone, Copy, Debug, PartialEq, Eq, Structural)]
pub struct TerminalModes {
    pub alternate_screen: bool,
    pub bracketed_paste: bool,
    pub application_cursor: bool,
    pub application_keypad: bool,
    pub keyboard: KeyboardProtocolState,
    pub focus_reporting: bool,
    pub alternate_scroll: bool,
    pub mouse_protocol: MouseProtocol,
    pub mouse_encoding: MouseEncoding,
}

impl TerminalModes {
    /// The modes of a terminal after a reset.
    pub open spec fn initial() -> TerminalModes {
        TerminalModes {
            alternate_screen: false,
            bracketed_paste: false,
            application_cursor: false,
            application_keypad: false,
            keyboard: KeyboardProtocolState::off(),
            focus_reporting: false,
            alternate_scroll: false,
            mouse_protocol: MouseProtocol::Off,
            mouse_encoding: MouseEncoding::Legacy,
        }
    }
}

impl Default for TerminalModes {
    fn default() -> (result: TerminalModes)
        ensures
            result == TerminalModes::initial(),
    {
        TerminalModes {
            alternate_screen: false,
            bracketed_paste: false,
            application_cursor: false,
            application_keypad: false,
            keyboard: KeyboardProtocolState::default(),
            focus_reporting: false,
            alternate_scroll: false,
            mouse_protocol: MouseProtocol::Off,
            mouse_encoding: MouseEncoding::Legacy,
        }
    }
}

/// One cell of the visible grid.
#[derive(Clone, Debug, PartialEq, Eq)]
pub struct SnapshotCell {
    pub ch: char,
    pub zerowidth: Option<Vec<char>>,
    pub foreground: TerminalColor,
    pub background: TerminalColor,
    pub underline_color: Option<TerminalColor>,
    pub underline_style: UnderlineStyle,
    pub flags: CellFlags,
    pub width: CellWidth,
    pub hyperlink: Option<u16>,
}

#[derive(Clone, Debug, PartialEq, Eq)]
pub struct SnapshotHyperlink {
    pub id: String,
    pub uri: String,
}

/// Everything that is needed to draw one frame.
#[derive(Clone, Debug, PartialEq, Eq)]
pub struct FrameSnapshot {
    pub generation: u64,
    pub content_revision: u64,
    pub active_buffer: SearchBuffer,
    pub grid: GridSize,
    pub cells: Vec<SnapshotCell>,
    pub cursor: CursorSnapshot,
    pub modes: TerminalModes,
    pub display_offset: usize,
    pub history_size: usize,
    pub title: Option<String>,
    pub hyperlinks: Vec<SnapshotHyperlink>,
}

impl FrameSnapshot {
    /// The grid is valid and every one of its cells is there.
    pub open spec fn wf(&self) -> bool {
        self.grid.wf() && self.cells@.len() == self.grid.cell_count()
    }
}

#[derive(Clone, Copy, Debug, PartialEq, Eq, Structural)]
pub enum SelectionKind {
    Simple,
    Semantic,
    Lines,
}

#[derive(Clone, Copy, Debug, PartialEq, Eq, Structural)]
pub enum SelectionSide {
    Left,
    Right,
}

#[derive(Clone, Copy, Debug, PartialEq, Eq, Structural)]
pub struct SelectionPoint {
    pub column: u16,
    pub line: u16,
}

/// A selection in visible cells, each end as column and line.
#[derive(Clone, Copy, Debug, PartialEq, Eq)]
pub struct ProjectedSelection {
    pub start: [u16; 2],
    pub end: [u16; 2],
}

} // verus!
