//! Commands decoded from keys.
use vstd::prelude::*;

verus! {

/// A change of letter case.
#[derive(Debug, Clone, Copy, PartialEq, Eq, Structural)]
pub enum CaseOp {
    Lower,
    Upper,
    Toggle,
}

/// What an operator acts on.
#[derive(Debug, Clone, Copy, PartialEq, Eq, Structural)]
pub enum Motion {
    Line,
    WordForward,
    WordEnd,
    WordBackward,
    LineEnd,
    LineStart,
    FirstNonBlank,
    WORDForward,
    WORDEnd,
    WORDBackward,
    ParagraphForward,
    ParagraphBackward,
    Inner(char),
    Around(char),
    FindForward(char),
    FindBackward(char),
    TillForward(char),
    TillBackward(char),
}

/// An editing command decoded from keys.
#[derive(Debug, Clone, Copy, PartialEq, Eq, Structural)]
pub enum Command {
    // Movement
    MoveLeft,
    MoveDown,
    MoveUp,
    MoveRight,
    MoveWordForward,
    MoveWordBackward,
    MoveWordEnd,
    MoveLineStart,
    MoveLineEnd,
    MoveFirstNonBlank,
    MoveWORDForward,
    MoveWORDBackward,
    MoveWORDEnd,
    MoveParagraphForward,
    MoveParagraphBackward,

    // Editing
    InsertChar(char),
    DeleteCharForward,
    DeleteCharBackward,
    DeleteLine,
    InsertNewlineBelow,
    InsertNewlineAbove,
    InsertNewline,
    InsertTab,
    IndentLine,
    DedentLine,

    // Operator + motion
    DeleteMotion(Motion),
    ChangeMotion(Motion),
    YankMotion(Motion),

    // Find/till character (standalone motion)
    FindCharForward(char),
    FindCharBackward(char),
    TillCharForward(char),
    TillCharBackward(char),

    // Replace character
    ReplaceChar(char),

    // Join lines
    JoinLines,

    // Undo/Redo
    Undo,
    Redo,

    // Mode changes
    EnterInsertMode,
    EnterInsertModeAfter,
    EnterInsertModeLineEnd,
    EnterInsertModeFirstNonBlank,
    EnterVisualMode,
    EnterVisualLineMode,
    EnterCommandMode,
    ExitToNormalMode,

    // Visual mode operations
    VisualDelete,
    VisualYank,
    VisualChange,
    VisualIndent,
    VisualDedent,
    VisualSwapAnchor,

    // Paste
    PasteAfter,
    PasteBefore,

    // Yank line
    YankLine,

    // Jump list
    JumpBack,
    JumpForward,

    // Completion
    TriggerCompletion,
    AcceptCompletion,
    CancelCompletion,
    CompletionNext,
    CompletionPrev,

    // LSP actions
    GotoDefinition,
    Hover,
    FindReferences,
    DismissPopup,
    ReferenceNext,
    ReferencePrev,
    ReferenceJump,

    // Search
    EnterSearchMode,
    SearchInput(char),
    SearchBackspace,
    SearchConfirm,
    SearchCancel,
    SearchNext,
    SearchPrev,

    // Extended movement
    GotoTop,
    GotoBottom,
    HalfPageDown,
    HalfPageUp,
    FullPageDown,
    FullPageUp,

    // File finder
    OpenFileFinder,
    FileFinderInput(char),
    FileFinderBackspace,
    FileFinderConfirm,
    FileFinderCancel,
    FileFinderNext,
    FileFinderPrev,

    // Repeat
    RepeatLastChange,

    // Search word under cursor
    SearchWordForward,
    SearchWordBackward,

    // Bracket jump
    MatchBracket,

    // Viewport navigation
    ViewportHigh,
    ViewportMiddle,
    ViewportLow,

    // Scroll positioning
    ScrollCenter,
    ScrollTop,
    ScrollBottom,

    // Buffer switching
    NextBuffer,
    PrevBuffer,

    // Case change
    ToggleCaseChar,
    CaseChange(CaseOp, Motion),
    CaseChangeLine(CaseOp),

    // Number increment/decrement
    IncrementNumber,
    DecrementNumber,

    // Named registers
    SelectRegister(char),

    // Macro recording
    StartMacro(char),
    StopMacro,
    PlayMacro(char),
    PlayLastMacro,

    // LSP formatting
    FormatDocument,

    // Diagnostic navigation
    DiagnosticNext,
    DiagnosticPrev,
    DiagnosticList,
    DiagnosticJump,

    // LSP Code Actions
    CodeAction,
    CodeActionNext,
    CodeActionPrev,
    CodeActionAccept,
    CodeActionDismiss,

    // Window split
    SplitHorizontal,
    SplitVertical,
    PaneLeft,
    PaneDown,
    PaneUp,
    PaneRight,
    PaneNext,
    PaneClose,

    // Command mode
    CommandInput(char),
    CommandBackspace,
    CommandExecute,
    CommandHistoryPrev,
    CommandHistoryNext,
}

} // verus!
