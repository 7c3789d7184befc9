//! The commands of the palette, and what the other things that it finds do.

use vstd::prelude::*;

use crate::color::Rgba;
use crate::document::{Alignment, CellStyle};
use crate::dialogs;
use crate::edit_buffer;
use crate::edit_buffer::EditState;
use crate::failures;
use crate::grid;
use crate::grid::{NumberFormat, RepeatAction};
use crate::chrome::UiState;
use crate::state::{DocPath, FileState, Mode, Spreadsheet, ViewState};
use crate::text;

verus! {

/// A command, by its name.
#[derive(Debug, Clone, Copy, PartialEq, Eq, Structural)]
pub enum CommandId {
    GoToCell,
    FindInCells,
    GoToStart,
    SelectAll,
    AddConditionalFormat,
    ManageConditionalFormats,
    ClearConditionalFormats,
    SelectBlanks,
    SelectCurrentRegion,
    HideRows,
    UnhideRows,
    HideCols,
    UnhideCols,
    FillDown,
    FillRight,
    ClearCells,
    TrimWhitespace,
    TransformUppercase,
    TransformLowercase,
    TransformTitleCase,
    TransformSentenceCase,
    Undo,
    Redo,
    AutoSum,
    Copy,
    Cut,
    Paste,
    PasteValues,
    TogglePasteValuesDefault,
    PasteSpecial,
    PasteFormulas,
    PasteFormats,
    ToggleBold,
    RepeatLastAction,
    FitColumnWidth,
    AlignLeft,
    AlignCenter,
    AlignRight,
    AlignGeneral,
    CenterAcrossSelection,
    ToggleItalic,
    ToggleUnderline,
    FormatCurrency,
    FormatPercent,
    FormatCells,
    ClearFormatting,
    FormatPainter,
    FormatPainterLocked,
    CopyFormat,
    PasteFormat,
    FillColor,
    ClearBackground,
    BackgroundYellow,
    BackgroundGreen,
    BackgroundBlue,
    BackgroundRed,
    BackgroundOrange,
    BackgroundPurple,
    BackgroundGray,
    BackgroundCyan,
    BordersAll,
    BordersOutline,
    BordersInside,
    BordersTop,
    BordersBottom,
    BordersLeft,
    BordersRight,
    BordersClear,
    StyleDefault,
    StyleError,
    StyleWarning,
    StyleSuccess,
    StyleInput,
    StyleTotal,
    StyleNote,
    StyleClear,
    NewWindow,
    OpenFile,
    Save,
    SaveAs,
    ExportCsv,
    ExportTsv,
    ExportJson,
    SelectTheme,
    SelectFont,
    ToggleInspector,
    ToggleProfiler,
    ProfileNextRecalc,
    ClearProfiler,
    ToggleMinimap,
    ToggleZenMode,
    ZoomIn,
    ZoomOut,
    ZoomReset,
    FreezeTopRow,
    FreezeFirstColumn,
    FreezePanes,
    UnfreezePanes,
    SplitRight,
    CloseSplit,
    ToggleTrace,
    CycleTracePrecedent,
    CycleTraceDependent,
    ReturnToTraceSource,
    ToggleVerifiedMode,
    ToggleVimMode,
    Recalculate,
    ReloadCustomFunctions,
    ApproveModel,
    ClearApproval,
    NavPerfReport,
    SwitchWindow,
    ShowShortcuts,
    OpenKeybindings,
    OpenDocs,
    ShowAbout,
    TourNamedRanges,
    ShowRefactorLog,
    ShowAISettings,
    InsertFormulaAI,
    AnalyzeAI,
    ExtractNamedRange,
    NextSheet,
    PrevSheet,
    AddSheet,
    SortAscending,
    SortDescending,
    ToggleAutoFilter,
    ClearSort,
    ValidationDialog,
    ExcludeFromValidation,
    ClearValidationExclusions,
    CircleInvalidData,
    ClearInvalidCircles,
    OpenDiffResults,
    RerunDiff,
    RerunDiffRun,
    OpenThisDiffFile,
    RefreshDiffResults,
    HubCheckStatus,
    HubPull,
    HubPublish,
    HubOpenRemoteAsCopy,
    HubUnlink,
    HubDiagnostics,
    HubSignIn,
    HubSignOut,
    HubLinkDialog,
    ImportTerminalOutput,
    RunVgridPeekJson,
    RunVgridDiffJson,
    RunVgridCalcJson,
    OpenTerminal,
    VerifyIntegrity,
    Convert,
    CaptureAiLua,
    PreviewLastLua,
    BuildModelWithLua,
    LaunchAI,
    PasteSelectionToTerminal,
    PasteHeadersToTerminal,
    PasteFilePathToTerminal,
    PasteVisiGridContext,
    GenerateAiContextFiles,
    OpenAiContextFolder,
    AiExplainSelection,
    OpenAiMetrics,
}

#[derive(Debug, Clone, Copy, PartialEq, Eq, Structural)]
pub enum BorderApplyMode {
    All,
    Outline,
    Inside,
    Top,
    Bottom,
    Left,
    Right,
    Clear,
}

#[derive(Debug, Clone, Copy, PartialEq, Eq, Structural)]
pub enum TransformOp {
    Uppercase,
    Lowercase,
    TitleCase,
    SentenceCase,
}

/// What is counted of the use of the assistant.
#[derive(Debug, Clone, Copy, PartialEq, Eq, Structural)]
pub enum AiMetricEvent {
    PasteContext,
    GenerateContextFiles,
}

/// What is left to do for a command.
#[derive(Debug, PartialEq, Eq)]
pub enum CommandEffect {
    /// Nothing.
    Done,
    /// Give the selection this background, or none.
    Background(Option<Rgba>),
    /// Give the selection these borders.
    Borders(BorderApplyMode),
    /// Give the selection this style.
    Style(CellStyle),
    /// Give the selection this alignment.
    Align(Alignment),
    /// Show the numbers of the selection in this way.
    Number(NumberFormat),
    /// Rewrite the texts of the selection.
    Transform(TransformOp),
    /// Sort by the column of the selected cell.
    Sort { ascending: bool },
    /// Run the command after it was counted.
    Counted(CommandId, AiMetricEvent),
    /// Run the command.
    Run(CommandId),
}

/// A background without transparency.
pub open spec fn background(r: u8, g: u8, b: u8) -> CommandEffect {
    CommandEffect::Background(Some(Rgba { r, g, b, a: 255 }))
}

/// What is left to do for a command.
pub open spec fn effect_of(cmd: CommandId) -> CommandEffect {
    match cmd {
        CommandId::GoToCell => CommandEffect::Done,
        CommandId::GoToStart => CommandEffect::Done,
        CommandId::PasteSpecial => CommandEffect::Done,
        CommandId::ZoomIn => CommandEffect::Done,
        CommandId::ZoomOut => CommandEffect::Done,
        CommandId::ZoomReset => CommandEffect::Done,
        CommandId::ShowAbout => CommandEffect::Done,
        CommandId::ClearInvalidCircles => CommandEffect::Done,
        CommandId::FormatCells => CommandEffect::Done,
        CommandId::ToggleInspector => CommandEffect::Done,
        CommandId::ToggleProfiler => CommandEffect::Done,
        CommandId::ToggleMinimap => CommandEffect::Done,
        CommandId::ToggleZenMode => CommandEffect::Done,
        CommandId::NavPerfReport => CommandEffect::Done,
        CommandId::ShowShortcuts => CommandEffect::Done,
        CommandId::ClearBackground => CommandEffect::Background(None),
        CommandId::BackgroundYellow => background(255, 255, 0),
        CommandId::BackgroundGreen => background(198, 239, 206),
        CommandId::BackgroundBlue => background(189, 215, 238),
        CommandId::BackgroundRed => background(255, 199, 206),
        CommandId::BackgroundOrange => background(255, 235, 156),
        CommandId::BackgroundPurple => background(204, 192, 218),
        CommandId::BackgroundGray => background(217, 217, 217),
        CommandId::BackgroundCyan => background(183, 222, 232),
        CommandId::BordersAll => CommandEffect::Borders(BorderApplyMode::All),
        CommandId::BordersOutline => CommandEffect::Borders(BorderApplyMode::Outline),
        CommandId::BordersInside => CommandEffect::Borders(BorderApplyMode::Inside),
        CommandId::BordersTop => CommandEffect::Borders(BorderApplyMode::Top),
        CommandId::BordersBottom => CommandEffect::Borders(BorderApplyMode::Bottom),
        CommandId::BordersLeft => CommandEffect::Borders(BorderApplyMode::Left),
        CommandId::BordersRight => CommandEffect::Borders(BorderApplyMode::Right),
        CommandId::BordersClear => CommandEffect::Borders(BorderApplyMode::Clear),
        CommandId::StyleDefault => CommandEffect::Style(CellStyle::Plain),
        CommandId::StyleError => CommandEffect::Style(CellStyle::Error),
        CommandId::StyleWarning => CommandEffect::Style(CellStyle::Warning),
        CommandId::StyleSuccess => CommandEffect::Style(CellStyle::Success),
        CommandId::StyleInput => CommandEffect::Style(CellStyle::Input),
        CommandId::StyleTotal => CommandEffect::Style(CellStyle::Total),
        CommandId::StyleNote => CommandEffect::Style(CellStyle::Note),
        CommandId::StyleClear => CommandEffect::Style(CellStyle::Plain),
        CommandId::AlignLeft => CommandEffect::Align(Alignment::Left),
        CommandId::AlignCenter => CommandEffect::Align(Alignment::Center),
        CommandId::AlignRight => CommandEffect::Align(Alignment::Right),
        CommandId::AlignGeneral => CommandEffect::Align(Alignment::General),
        CommandId::FormatCurrency => CommandEffect::Number(NumberFormat::Currency { decimals: 2 }),
        CommandId::FormatPercent => CommandEffect::Number(NumberFormat::Percent { decimals: 2 }),
        CommandId::TransformUppercase => CommandEffect::Transform(TransformOp::Uppercase),
        CommandId::TransformLowercase => CommandEffect::Transform(TransformOp::Lowercase),
        CommandId::TransformTitleCase => CommandEffect::Transform(TransformOp::TitleCase),
        CommandId::TransformSentenceCase => CommandEffect::Transform(TransformOp::SentenceCase),
        CommandId::SortAscending => CommandEffect::Sort { ascending: true },
        CommandId::SortDescending => CommandEffect::Sort { ascending: false },
        CommandId::PasteSelectionToTerminal => CommandEffect::Counted(
            cmd,
            AiMetricEvent::PasteContext,
        ),
        CommandId::PasteHeadersToTerminal => CommandEffect::Counted(
            cmd,
            AiMetricEvent::PasteContext,
        ),
        CommandId::PasteFilePathToTerminal => CommandEffect::Counted(
            cmd,
            AiMetricEvent::PasteContext,
        ),
        CommandId::PasteVisiGridContext => CommandEffect::Counted(
            cmd,
            AiMetricEvent::PasteContext,
        ),
        CommandId::GenerateAiContextFiles => CommandEffect::Counted(
            cmd,
            AiMetricEvent::GenerateContextFiles,
        ),
        _ => CommandEffect::Run(cmd),
    }
}

fn opaque(r: u8, g: u8, b: u8) -> (e: CommandEffect)
    ensures
        e == background(r, g, b),
{
    CommandEffect::Background(Some(Rgba { r, g, b, a: 255 }))
}

/// What is left to do for a command.
pub fn command_effect(cmd: CommandId) -> (r: CommandEffect)
    ensures
        r == effect_of(cmd),
{
    match cmd {
        CommandId::GoToCell => CommandEffect::Done,
        CommandId::GoToStart => CommandEffect::Done,
        CommandId::PasteSpecial => CommandEffect::Done,
        CommandId::ZoomIn => CommandEffect::Done,
        CommandId::ZoomOut => CommandEffect::Done,
        CommandId::ZoomReset => CommandEffect::Done,
        CommandId::ShowAbout => CommandEffect::Done,
        CommandId::ClearInvalidCircles => CommandEffect::Done,
        CommandId::FormatCells => CommandEffect::Done,
        CommandId::ToggleInspector => CommandEffect::Done,
        CommandId::ToggleProfiler => CommandEffect::Done,
        CommandId::ToggleMinimap => CommandEffect::Done,
        CommandId::ToggleZenMode => CommandEffect::Done,
        CommandId::NavPerfReport => CommandEffect::Done,
        CommandId::ShowShortcuts => CommandEffect::Done,
        CommandId::ClearBackground => CommandEffect::Background(None),
        CommandId::BackgroundYellow => opaque(255, 255, 0),
        CommandId::BackgroundGreen => opaque(198, 239, 206),
        CommandId::BackgroundBlue => opaque(189, 215, 238),
        CommandId::BackgroundRed => opaque(255, 199, 206),
        CommandId::BackgroundOrange => opaque(255, 235, 156),
        CommandId::BackgroundPurple => opaque(204, 192, 218),
        CommandId::BackgroundGray => opaque(217, 217, 217),
        CommandId::BackgroundCyan => opaque(183, 222, 232),
        CommandId::BordersAll => CommandEffect::Borders(BorderApplyMode::All),
        CommandId::BordersOutline => CommandEffect::Borders(BorderApplyMode::Outline),
        CommandId::BordersInside => CommandEffect::Borders(BorderApplyMode::Inside),
        CommandId::BordersTop => CommandEffect::Borders(BorderApplyMode::Top),
        CommandId::BordersBottom => CommandEffect::Borders(BorderApplyMode::Bottom),
        CommandId::BordersLeft => CommandEffect::Borders(BorderApplyMode::Left),
        CommandId::BordersRight => CommandEffect::Borders(BorderApplyMode::Right),
        CommandId::BordersClear => CommandEffect::Borders(BorderApplyMode::Clear),
        CommandId::StyleDefault => CommandEffect::Style(CellStyle::Plain),
        CommandId::StyleError => CommandEffect::Style(CellStyle::Error),
        CommandId::StyleWarning => CommandEffect::Style(CellStyle::Warning),
        CommandId::StyleSuccess => CommandEffect::Style(CellStyle::Success),
        CommandId::StyleInput => CommandEffect::Style(CellStyle::Input),
        CommandId::StyleTotal => CommandEffect::Style(CellStyle::Total),
        CommandId::StyleNote => CommandEffect::Style(CellStyle::Note),
        CommandId::StyleClear => CommandEffect::Style(CellStyle::Plain),
        CommandId::AlignLeft => CommandEffect::Align(Alignment::Left),
        CommandId::AlignCenter => CommandEffect::Align(Alignment::Center),
        CommandId::AlignRight => CommandEffect::Align(Alignment::Right),
        CommandId::AlignGeneral => CommandEffect::Align(Alignment::General),
        CommandId::FormatCurrency => CommandEffect::Number(NumberFormat::Currency { decimals: 2 }),
        CommandId::FormatPercent => CommandEffect::Number(NumberFormat::Percent { decimals: 2 }),
        CommandId::TransformUppercase => CommandEffect::Transform(TransformOp::Uppercase),
        CommandId::TransformLowercase => CommandEffect::Transform(TransformOp::Lowercase),
        CommandId::TransformTitleCase => CommandEffect::Transform(TransformOp::TitleCase),
        CommandId::TransformSentenceCase => CommandEffect::Transform(TransformOp::SentenceCase),
        CommandId::SortAscending => CommandEffect::Sort { ascending: true },
        CommandId::SortDescending => CommandEffect::Sort { ascending: false },
        CommandId::PasteSelectionToTerminal => CommandEffect::Counted(
            cmd,
            AiMetricEvent::PasteContext,
        ),
        CommandId::PasteHeadersToTerminal => CommandEffect::Counted(
            cmd,
            AiMetricEvent::PasteContext,
        ),
        CommandId::PasteFilePathToTerminal => CommandEffect::Counted(
            cmd,
            AiMetricEvent::PasteContext,
        ),
        CommandId::PasteVisiGridContext => CommandEffect::Counted(
            cmd,
            AiMetricEvent::PasteContext,
        ),
        CommandId::GenerateAiContextFiles => CommandEffect::Counted(
            cmd,
            AiMetricEvent::GenerateContextFiles,
        ),
        _ => CommandEffect::Run(cmd),
    }
}

/// The shortcuts that are shown.
pub open spec fn shortcuts_text(macos: bool) -> Seq<char> {
    if macos {
        "Shortcuts: Cmd+D Fill Down, Cmd+R Fill Right, Cmd+Enter Multi-edit, Cmd+` Switch Window"@
    } else {
        "Shortcuts: Ctrl+D Fill Down, Ctrl+R Fill Right, Ctrl+Enter Multi-edit, Ctrl+` Switch Window"@
    }
}

/// What is said of how fast one moves in the grid.
pub open spec fn perf_text(report: Option<Seq<char>>) -> Seq<char> {
    match report {
        Some(r) => r,
        None => "Nav perf tracking disabled. Set VISIGRID_PERF=nav and restart."@,
    }
}

/// What a command says, if it says anything by itself.
pub open spec fn message_of(cmd: CommandId, macos: bool, report: Option<Seq<char>>) -> Option<Seq<char>> {
    if cmd == CommandId::NavPerfReport {
        Some(perf_text(report))
    } else if cmd == CommandId::ShowShortcuts {
        Some(shortcuts_text(macos))
    } else {
        None
    }
}

fn command_message(cmd: CommandId, macos: bool, report: &Option<String>) -> (r: Option<String>)
    ensures
        text::opt_text(r) == message_of(cmd, macos, text::opt_text(*report)),
{
    if cmd == CommandId::NavPerfReport {
        match report {
            Some(m) => Some(m.clone()),
            None => Some(
                text::lit("Nav perf tracking disabled. Set VISIGRID_PERF=nav and restart."),
            ),
        }
    } else if cmd == CommandId::ShowShortcuts {
        if macos {
            Some(
                text::lit(
                    "Shortcuts: Cmd+D Fill Down, Cmd+R Fill Right, Cmd+Enter Multi-edit, Cmd+` Switch Window",
                ),
            )
        } else {
            Some(
                text::lit(
                    "Shortcuts: Ctrl+D Fill Down, Ctrl+R Fill Right, Ctrl+Enter Multi-edit, Ctrl+` Switch Window",
                ),
            )
        }
    } else {
        None
    }
}

/// What surrounds the grid after a command.
pub open spec fn ui_after(u: UiState, cmd: CommandId) -> UiState {
    if cmd == CommandId::FormatCells {
        UiState { inspector_visible: true, inspector_on_format: true, ..u }
    } else if cmd == CommandId::ToggleInspector {
        UiState {
            inspector_visible: !u.inspector_visible,
            profiler_visible: u.profiler_visible && u.inspector_visible,
            ..u
        }
    } else if cmd == CommandId::ToggleProfiler {
        UiState {
            profiler_visible: !u.profiler_visible,
            inspector_visible: u.inspector_visible && u.profiler_visible,
            ..u
        }
    } else if cmd == CommandId::ToggleMinimap {
        UiState { minimap_visible: !u.minimap_visible, ..u }
    } else if cmd == CommandId::ToggleZenMode {
        UiState { zen_mode: !u.zen_mode, ..u }
    } else {
        u
    }
}

fn next_ui(u: UiState, cmd: CommandId) -> (r: UiState)
    ensures
        r == ui_after(u, cmd),
{
    let mut r = u;
    if cmd == CommandId::FormatCells {
        r.inspector_visible = true;
        r.inspector_on_format = true;
    } else if cmd == CommandId::ToggleInspector {
        r.inspector_visible = !u.inspector_visible;
        r.profiler_visible = u.profiler_visible && u.inspector_visible;
    } else if cmd == CommandId::ToggleProfiler {
        r.profiler_visible = !u.profiler_visible;
        r.inspector_visible = u.inspector_visible && u.profiler_visible;
    } else if cmd == CommandId::ToggleMinimap {
        r.minimap_visible = !u.minimap_visible;
    } else if cmd == CommandId::ToggleZenMode {
        r.zen_mode = !u.zen_mode;
    }
    r
}

/// The part of a command that needs nothing from outside was done.
pub open spec fn acted(
    old: Spreadsheet,
    new: Spreadsheet,
    cmd: CommandId,
    macos: bool,
    report: Option<Seq<char>>,
) -> bool {
    match cmd {
        CommandId::GoToCell => dialogs::goto_shown(old, new),
        CommandId::GoToStart => new == (Spreadsheet {
            view: crate::state::home_view(old.view),
            ..old
        }),
        CommandId::PasteSpecial => new == dialogs::paste_special_shown(old),
        CommandId::ShowAbout => new == dialogs::modal(old, Mode::About),
        CommandId::ZoomIn => grid::zoomed_in(old, new),
        CommandId::ZoomOut => grid::zoomed_out(old, new),
        CommandId::ZoomReset => grid::zoomed(old, new, grid::DEFAULT_ZOOM),
        CommandId::FormatCurrency => new == grid::format_changed(
            old,
            RepeatAction::NumberFormat(NumberFormat::Currency { decimals: 2 }),
        ),
        CommandId::FormatPercent => new == grid::format_changed(
            old,
            RepeatAction::NumberFormat(NumberFormat::Percent { decimals: 2 }),
        ),
        CommandId::ClearInvalidCircles => failures::circles_cleared(old, new),
        _ => {
            &&& new == (Spreadsheet {
                ui: ui_after(old.ui, cmd),
                status_message: new.status_message,
                ..old
            })
            &&& match message_of(cmd, macos, report) {
                Some(m) => text::opt_text(new.status_message) == Some(m),
                None => new.status_message == old.status_message,
            }
        },
    }
}

/// Commands without one of them.
pub open spec fn without_command(v: Seq<CommandId>, cmd: CommandId) -> Seq<CommandId>
    decreases v.len(),
{
    if v.len() == 0 {
        Seq::empty()
    } else if v.last() == cmd {
        without_command(v.drop_last(), cmd)
    } else {
        without_command(v.drop_last(), cmd).push(v.last())
    }
}

/// The commands that were run, after one more: it comes first, and is not
/// listed twice.
pub open spec fn recent_with(v: Seq<CommandId>, cmd: CommandId) -> Seq<CommandId> {
    seq![cmd] + without_command(v, cmd)
}

/// The window `s`, with the recent commands of `old`, and with a title to be set
/// anew as in `old`.
pub open spec fn but_for_the_record(s: Spreadsheet, old: Spreadsheet) -> Spreadsheet {
    Spreadsheet {
        recent_commands: old.recent_commands,
        file: FileState { pending_title_refresh: old.file.pending_title_refresh, ..s.file },
        ..s
    }
}

/// The part of a command that needs nothing from outside was done. The command
/// heads the recent ones, and the title has to be set anew, as after any
/// command.
pub open spec fn command_done(
    old: Spreadsheet,
    new: Spreadsheet,
    cmd: CommandId,
    macos: bool,
    report: Option<Seq<char>>,
) -> bool {
    &&& new.file.pending_title_refresh
    &&& new.recent_commands@ == recent_with(old.recent_commands@, cmd)
    &&& acted(old, but_for_the_record(new, old), cmd, macos, report)
}

/// No command by itself decides whether the title has to be set anew, or what
/// was run before.
proof fn lemma_record_is_left(
    old: Spreadsheet,
    new: Spreadsheet,
    cmd: CommandId,
    macos: bool,
    report: Option<Seq<char>>,
)
    requires
        acted(old, new, cmd, macos, report),
    ensures
        new.file.pending_title_refresh == old.file.pending_title_refresh,
        new.recent_commands == old.recent_commands,
{
}

impl Spreadsheet {
    /// Change what surrounds the grid, and say what the command says.
    fn act_on_ui(&mut self, cmd: CommandId, macos: bool, report: &Option<String>)
        ensures
            *final(self) == (Spreadsheet {
                ui: ui_after(old(self).ui, cmd),
                status_message: final(self).status_message,
                ..*old(self)
            }),
            match message_of(cmd, macos, text::opt_text(*report)) {
                Some(m) => text::opt_text(final(self).status_message) == Some(m),
                None => final(self).status_message == old(self).status_message,
            },
    {
        self.ui = next_ui(self.ui, cmd);
        let said = command_message(cmd, macos, report);
        match said {
            Some(m) => self.say(m.as_str()),
            None => {},
        }
    }

    /// A command was run.
    pub fn add_recent_command(&mut self, cmd: CommandId)
        ensures
            *final(self) == (Spreadsheet {
                recent_commands: final(self).recent_commands,
                ..*old(self)
            }),
            final(self).recent_commands@ == recent_with(old(self).recent_commands@, cmd),
    {
        let mut v: Vec<CommandId> = Vec::new();
        v.push(cmd);
        let mut i: usize = 0;
        assert(self.recent_commands@.take(0) =~= Seq::empty());
        assert(v@ =~= recent_with(self.recent_commands@.take(0), cmd));
        while i < self.recent_commands.len()
            invariant
                i <= self.recent_commands@.len(),
                *self == *old(self),
                v@ == recent_with(self.recent_commands@.take(i as int), cmd),
            decreases self.recent_commands@.len() - i,
        {
            let c = self.recent_commands[i];
            let ghost before = v@;
            proof {
                let next = self.recent_commands@.take(i + 1);
                assert(next.drop_last() =~= self.recent_commands@.take(i as int));
                assert(next.last() == c);
            }
            if c != cmd {
                v.push(c);
            }
            i = i + 1;
            assert(v@ =~= recent_with(self.recent_commands@.take(i as int), cmd));
        }
        assert(self.recent_commands@.take(self.recent_commands@.len() as int)
            =~= self.recent_commands@);
        self.recent_commands = v;
    }

    /// Do the part of a command that needs nothing from outside.
    fn act(&mut self, cmd: CommandId, macos: bool, report: &Option<String>)
        ensures
            acted(*old(self), *final(self), cmd, macos, text::opt_text(*report)),
    {
        match cmd {
            CommandId::GoToCell => self.show_goto(),
            CommandId::GoToStart => self.go_home(),
            CommandId::PasteSpecial => self.show_paste_special(),
            CommandId::ShowAbout => self.show_about(),
            CommandId::ZoomIn => self.zoom_in(),
            CommandId::ZoomOut => self.zoom_out(),
            CommandId::ZoomReset => self.zoom_reset(),
            CommandId::FormatCurrency => {
                self.format_currency();
            },
            CommandId::FormatPercent => {
                self.format_percent();
            },
            CommandId::ClearInvalidCircles => self.clear_invalid_circles(),
            _ => self.act_on_ui(cmd, macos, report),
        }
    }

    /// Run a command: the result is what is left to do for it. `report` is how
    /// fast one moves in the grid, if that is measured.
    pub fn dispatch_command(&mut self, cmd: CommandId, macos: bool, report: &Option<String>) -> (r:
        CommandEffect)
        ensures
            r == effect_of(cmd),
            command_done(*old(self), *final(self), cmd, macos, text::opt_text(*report)),
    {
        self.act(cmd, macos, report);
        let ghost acted_on = *self;
        proof {
            lemma_record_is_left(*old(self), acted_on, cmd, macos, text::opt_text(*report));
        }
        self.add_recent_command(cmd);
        self.file.pending_title_refresh = true;
        assert(but_for_the_record(*self, *old(self)) == acted_on);
        command_effect(cmd)
    }
}

// ---------------------------------------------------------------------------
// What the palette finds
// ---------------------------------------------------------------------------

/// What is done with something that the palette has found.
#[derive(Debug, PartialEq, Eq)]
pub enum SearchAction {
    RunCommand(CommandId),
    JumpToCell { row: usize, col: usize },
    InsertFormula { name: String, signature: String },
    OpenFile(DocPath),
    JumpToNamedRange { name: String },
    OpenSetting { key: String },
    CopyToClipboard { text: String, description: String },
    ShowFunctionHelp { name: String, signature: String, description: String },
    ShowReferences { row: usize, col: usize },
    ShowPrecedents { row: usize, col: usize },
}

/// What is left to do for it.
#[derive(Debug, PartialEq, Eq)]
pub enum ActionEffect {
    Done,
    Command(CommandEffect),
    OpenFile(DocPath),
    /// Scroll until the cell is seen.
    MakeVisible { row: usize, col: usize },
    /// Copy the name of a setting, and open the file that it is in.
    OpenSetting(String),
    Copy(String),
    ShowReferences { row: usize, col: usize },
    ShowPrecedents { row: usize, col: usize },
}

/// A function can be put where the cursor is.
pub open spec fn function_fits(s: Spreadsheet, name: Seq<char>) -> bool {
    &&& text::utf8_len(name) + 2 <= usize::MAX
    &&& edit_buffer::in_formula(s) ==> text::has_boundary(s.edit.value@, s.edit.at())
        && s.edit.cursor + text::utf8_len(name) + 1 <= usize::MAX
}

/// A function was put into the formula that is being edited, or a formula was
/// begun with it.
pub open spec fn function_put(old: Spreadsheet, new: Spreadsheet, name: Seq<char>, raw: Seq<char>) -> bool {
    if edit_buffer::in_formula(old) {
        &&& new == (Spreadsheet {
            status_message: new.status_message,
            edit: EditState {
                value: new.edit.value,
                cursor: (old.edit.cursor + text::utf8_len(name) + 1) as usize,
                ..old.edit
            },
            ..old
        })
        &&& new.edit.value@ == text::with_insert(old.edit.value@, old.edit.at(), name + "("@)
    } else {
        &&& new == (Spreadsheet {
            mode: Mode::Formula,
            status_message: new.status_message,
            edit: EditState {
                value: new.edit.value,
                cursor: (text::utf8_len(name) + 2) as usize,
                original: new.edit.original,
                ..old.edit
            },
            ..old
        })
        &&& new.edit.value@ == "="@ + name + "("@
        &&& new.edit.original@ == raw
    }
}

/// What something that the palette has found does.
pub open spec fn action_done(
    old: Spreadsheet,
    new: Spreadsheet,
    action: SearchAction,
    raw: Seq<char>,
    macos: bool,
    report: Option<Seq<char>>,
    r: ActionEffect,
) -> bool {
    match action {
        SearchAction::RunCommand(cmd) => r == ActionEffect::Command(effect_of(cmd))
            && command_done(old, new, cmd, macos, report),
        SearchAction::JumpToCell { row, col } => r == (ActionEffect::MakeVisible { row, col })
            && new == (Spreadsheet {
            view: ViewState { selected: (row, col), selection_end: None, ..old.view },
            ..old
        }),
        SearchAction::InsertFormula { name, signature } => {
            &&& r == ActionEffect::Done
            &&& function_put(old, new, name@, raw)
            &&& text::opt_text(new.status_message) == Some(signature@)
        },
        SearchAction::OpenFile(p) => r == ActionEffect::OpenFile(p) && new == old,
        SearchAction::JumpToNamedRange { .. } => r == ActionEffect::Done && new == old,
        SearchAction::OpenSetting { key } => r == ActionEffect::OpenSetting(key) && new == old,
        SearchAction::CopyToClipboard { text: t, description } => r == ActionEffect::Copy(t)
            && crate::hub::only_says(old, new, description@),
        SearchAction::ShowFunctionHelp { name, signature, description } => r == ActionEffect::Done
            && crate::hub::only_says(old, new, name@ + signature@ + " — "@ + description@),
        SearchAction::ShowReferences { row, col } => r == (ActionEffect::ShowReferences {
            row,
            col,
        }) && new == old,
        SearchAction::ShowPrecedents { row, col } => r == (ActionEffect::ShowPrecedents {
            row,
            col,
        }) && new == old,
    }
}

impl Spreadsheet {
    /// Do what something that the palette has found does; `raw` is what the
    /// selected cell holds.
    pub fn dispatch_action(
        &mut self,
        action: SearchAction,
        raw: &str,
        macos: bool,
        report: &Option<String>,
    ) -> (r: ActionEffect)
        requires
            action matches SearchAction::InsertFormula { name, .. } ==> function_fits(
                *old(self),
                name@,
            ),
        ensures
            action_done(
                *old(self),
                *final(self),
                action,
                raw@,
                macos,
                text::opt_text(*report),
                r,
            ),
    {
        match action {
            SearchAction::RunCommand(cmd) => ActionEffect::Command(
                self.dispatch_command(cmd, macos, report),
            ),
            SearchAction::JumpToCell { row, col } => {
                self.view.selected = (row, col);
                self.view.selection_end = None;
                ActionEffect::MakeVisible { row, col }
            },
            SearchAction::InsertFormula { name, signature } => {
                self.insert_function(name.as_str(), signature.as_str(), raw);
                ActionEffect::Done
            },
            SearchAction::OpenFile(p) => ActionEffect::OpenFile(p),
            SearchAction::JumpToNamedRange { .. } => ActionEffect::Done,
            SearchAction::OpenSetting { key } => ActionEffect::OpenSetting(key),
            SearchAction::CopyToClipboard { text: t, description } => {
                self.say(description.as_str());
                ActionEffect::Copy(t)
            },
            SearchAction::ShowFunctionHelp { name, signature, description } => {
                let mut m = text::cat3(name.as_str(), signature.as_str(), " — ");
                m.append(description.as_str());
                self.say(m.as_str());
                ActionEffect::Done
            },
            SearchAction::ShowReferences { row, col } => ActionEffect::ShowReferences { row, col },
            SearchAction::ShowPrecedents { row, col } => ActionEffect::ShowPrecedents { row, col },
        }
    }

    /// The file with the settings was opened, or could not be; `filename` is
    /// its name.
    pub fn setting_opened(&mut self, key: &str, filename: &Option<String>, opened: Result<(), String>)
        ensures
            setting_told(*old(self), *final(self), key@, text::opt_text(*filename), opened),
    {
        match opened {
            Ok(_) => {
                let mut m = text::cat3(
                    "Copied \"",
                    key,
                    "\" to clipboard — paste into ",
                );
                match filename {
                    Some(f) => m.append(f.as_str()),
                    None => m.append("settings.json"),
                }
                self.say(m.as_str());
            },
            Err(e) => self.say_with("Failed to open settings: ", e.as_str()),
        }
    }
}

/// The status bar says what came of opening the settings.
pub open spec fn setting_told(
    old: Spreadsheet,
    new: Spreadsheet,
    key: Seq<char>,
    filename: Option<Seq<char>>,
    opened: Result<(), String>,
) -> bool {
    &&& crate::hub::only_says(
        old,
        new,
        match opened {
            Ok(_) => "Copied \""@ + key + "\" to clipboard — paste into "@
                + match filename {
                Some(f) => f,
                None => "settings.json"@,
            },
            Err(e) => "Failed to open settings: "@ + e@,
        },
    )
}

// ---------------------------------------------------------------------------
// Laws
// ---------------------------------------------------------------------------

/// Showing the inspector hides the profiler, and the other way round.
pub proof fn one_side_panel(u: UiState, cmd: CommandId)
    requires
        cmd == CommandId::ToggleInspector || cmd == CommandId::ToggleProfiler,
        !(u.inspector_visible && u.profiler_visible),
    ensures
        !(ui_after(u, cmd).inspector_visible && ui_after(u, cmd).profiler_visible),
{
}

proof fn lemma_without_absent(v: Seq<CommandId>, cmd: CommandId)
    requires
        !v.contains(cmd),
    ensures
        without_command(v, cmd) == v,
    decreases v.len(),
{
    if v.len() > 0 {
        let w = v.drop_last();
        assert(v =~= w.push(v.last()));
        assert(v[v.len() - 1] == v.last());
        assert(!w.contains(cmd)) by {
            if w.contains(cmd) {
                let i = choose|i: int| 0 <= i < w.len() && w[i] == cmd;
                assert(v[i] == cmd);
            }
        }
        lemma_without_absent(w, cmd);
    }
}

proof fn lemma_without_of_both(a: Seq<CommandId>, b: Seq<CommandId>, cmd: CommandId)
    ensures
        without_command(a + b, cmd) == without_command(a, cmd) + without_command(b, cmd),
    decreases b.len(),
{
    if b.len() == 0 {
        assert(a + b =~= a);
        assert(without_command(b, cmd) =~= Seq::empty());
    } else {
        lemma_without_of_both(a, b.drop_last(), cmd);
        assert((a + b).drop_last() =~= a + b.drop_last());
        assert((a + b).last() == b.last());
    }
}

/// The command that was run last stands first among the recent ones. The others
/// follow in the order that they had, and it stands among them no more.
pub proof fn the_last_command_comes_first(a: Seq<CommandId>, cmd: CommandId, b: Seq<CommandId>)
    requires
        !a.contains(cmd),
        !b.contains(cmd),
    ensures
        recent_with(a, cmd) == seq![cmd] + a,
        recent_with(a + seq![cmd] + b, cmd) == seq![cmd] + a + b,
{
    lemma_without_absent(a, cmd);
    lemma_without_absent(b, cmd);
    let one = seq![cmd];
    assert(without_command(one, cmd) =~= Seq::empty()) by {
        reveal_with_fuel(without_command, 2);
        assert(one.drop_last() =~= Seq::<CommandId>::empty());
        assert(one.last() == cmd);
    }
    lemma_without_of_both(a + one, b, cmd);
    lemma_without_of_both(a, one, cmd);
    assert(one + (a + Seq::empty() + b) =~= one + a + b);
}

/// What is switched on and off changes and is the other way round again after the
/// second time, and nothing else of the window changes. Of the inspector and the
/// profiler, showing one hides the other, and hiding one leaves the other.
pub proof fn switches_are_turned_back(u: UiState)
    ensures
        ui_after(u, CommandId::ToggleMinimap).minimap_visible != u.minimap_visible,
        ui_after(ui_after(u, CommandId::ToggleMinimap), CommandId::ToggleMinimap) == u,
        ui_after(u, CommandId::ToggleZenMode).zen_mode != u.zen_mode,
        ui_after(ui_after(u, CommandId::ToggleZenMode), CommandId::ToggleZenMode) == u,
        ui_after(u, CommandId::ToggleInspector).inspector_visible != u.inspector_visible,
        ui_after(u, CommandId::ToggleProfiler).profiler_visible != u.profiler_visible,
        !u.inspector_visible ==> !ui_after(u, CommandId::ToggleInspector).profiler_visible,
        u.inspector_visible ==> ui_after(u, CommandId::ToggleInspector).profiler_visible
            == u.profiler_visible,
        !u.profiler_visible ==> !ui_after(u, CommandId::ToggleProfiler).inspector_visible,
        u.profiler_visible ==> ui_after(u, CommandId::ToggleProfiler).inspector_visible
            == u.inspector_visible,
        ui_after(u, CommandId::FormatCells).inspector_visible,
        ui_after(u, CommandId::FormatCells).inspector_on_format,
        ui_after(u, CommandId::FormatCells).profiler_visible == u.profiler_visible,
        ui_after(u, CommandId::ToggleInspector) == (UiState {
            inspector_visible: ui_after(u, CommandId::ToggleInspector).inspector_visible,
            profiler_visible: ui_after(u, CommandId::ToggleInspector).profiler_visible,
            ..u
        }),
        ui_after(u, CommandId::ToggleProfiler) == (UiState {
            inspector_visible: ui_after(u, CommandId::ToggleProfiler).inspector_visible,
            profiler_visible: ui_after(u, CommandId::ToggleProfiler).profiler_visible,
            ..u
        }),
        ui_after(ui_after(u, CommandId::FormatCells), CommandId::FormatCells) == ui_after(
            u,
            CommandId::FormatCells,
        ),
{
}

/// No two commands ask for the same, but for those that are done at once and the
/// two that take a style away. What is asked to be run is the command itself.
pub proof fn commands_ask_for_different_things(a: CommandId, b: CommandId)
    ensures
        a != b && effect_of(a) == effect_of(b) ==> effect_of(a) is Done || effect_of(a)
            == CommandEffect::Style(CellStyle::Plain),
        effect_of(a) matches CommandEffect::Run(c) ==> c == a,
        effect_of(a) matches CommandEffect::Counted(c, _) ==> c == a,
        effect_of(a) matches CommandEffect::Background(Some(c)) ==> c.a == 255,
        effect_of(a) matches CommandEffect::Style(CellStyle::Plain) ==> (a
            == CommandId::StyleDefault || a == CommandId::StyleClear),
{
}

/// A background is given in the colour that the command names.
pub proof fn backgrounds_have_their_colours(cmd: CommandId, c: Rgba)
    requires
        effect_of(cmd) == CommandEffect::Background(Some(c)),
    ensures
        cmd == CommandId::BackgroundRed ==> c.r > c.g && c.r > c.b,
        cmd == CommandId::BackgroundGreen ==> c.g > c.r && c.g > c.b,
        cmd == CommandId::BackgroundBlue ==> c.b > c.g && c.b > c.r,
        cmd == CommandId::BackgroundYellow ==> c.r == c.g && c.g > c.b,
        cmd == CommandId::BackgroundOrange ==> c.r > c.g && c.g > c.b,
        cmd == CommandId::BackgroundPurple ==> c.r > c.g && c.b > c.g,
        cmd == CommandId::BackgroundCyan ==> c.g > c.r && c.b > c.r,
        cmd == CommandId::BackgroundGray ==> c.r == c.g && c.g == c.b,
        cmd != CommandId::ClearBackground,
{
}

/// A command that was run is the first of the recent ones and has the title drawn
/// anew. It keeps the file, what is being edited and the sizes; only one that
/// formats numbers leaves the document modified.
pub proof fn a_command_is_recorded(
    old: Spreadsheet,
    new: Spreadsheet,
    cmd: CommandId,
    macos: bool,
    report: Option<Seq<char>>,
)
    requires
        command_done(old, new, cmd, macos, report),
    ensures
        new.recent_commands@.len() > 0,
        new.recent_commands@[0] == cmd,
        new.file.pending_title_refresh,
        new.file.current_file == old.file.current_file,
        new.file.meta == old.file.meta,
        new.file.is_modified == (old.file.is_modified || cmd == CommandId::FormatCurrency || cmd
            == CommandId::FormatPercent),
        new.edit == old.edit,
        new.sizes == old.sizes,
        new.cells_rev == old.cells_rev,
{
    let n = but_for_the_record(new, old);
    assert(n.file.current_file == new.file.current_file);
    assert(n.file.meta == new.file.meta);
    assert(n.file.is_modified == new.file.is_modified);
    assert(n.edit == new.edit && n.sizes == new.sizes && n.cells_rev == new.cells_rev);
}

/// A command that opens a dialog leaves the window in its mode, one that goes to
/// the start selects the first cell, and a command that is for others to run
/// changes nothing but the record.
pub proof fn commands_do_what_they_say(
    old: Spreadsheet,
    new: Spreadsheet,
    cmd: CommandId,
    macos: bool,
    report: Option<Seq<char>>,
)
    requires
        command_done(old, new, cmd, macos, report),
    ensures
        cmd == CommandId::GoToCell ==> new.mode == Mode::GoTo && new.dialogs.goto_input@.len() == 0,
        cmd == CommandId::PasteSpecial ==> new.mode == Mode::PasteSpecial
            && new.dialogs.paste_selected == old.dialogs.last_paste,
        cmd == CommandId::ShowAbout ==> new.mode == Mode::About,
        cmd != CommandId::GoToCell && cmd != CommandId::PasteSpecial && cmd != CommandId::ShowAbout
            ==> new.mode == old.mode && new.dialogs == old.dialogs,
        cmd == CommandId::GoToStart ==> new.view.selected == (0usize, 0usize)
            && new.view.selection_end is None && new.view.zoom == old.view.zoom,
        cmd == CommandId::ZoomReset ==> new.view.zoom == grid::DEFAULT_ZOOM,
        cmd == CommandId::ClearInvalidCircles ==> new.failures.marks@.len() == 0
            && new.failures.list@.len() == 0,
        !old.grid.suppress_repeat && (cmd == CommandId::FormatCurrency || cmd
            == CommandId::FormatPercent) ==> (new.grid.repeat matches Some(RepeatAction::NumberFormat(f)) && effect_of(cmd)
            == CommandEffect::Number(f)),
        effect_of(cmd) is Run ==> new == (Spreadsheet {
            recent_commands: new.recent_commands,
            file: FileState { pending_title_refresh: true, ..old.file },
            ..old
        }),
        cmd == CommandId::NavPerfReport ==> (report matches Some(r) ==> text::opt_text(
            new.status_message,
        ) == Some(r)),
{
    let n = but_for_the_record(new, old);
    assert(n.mode == new.mode && n.dialogs == new.dialogs && n.view == new.view);
    assert(n.failures == new.failures && n.grid == new.grid);
    assert(n.status_message == new.status_message);
    assert(new == (Spreadsheet {
        recent_commands: new.recent_commands,
        file: FileState { pending_title_refresh: new.file.pending_title_refresh, ..n.file },
        ..n
    }));
}

/// The keys that are shown are those of the system.
pub proof fn shortcuts_are_of_the_system()
    ensures
        shortcuts_text(true)[11] == 'C',
        shortcuts_text(true)[12] == 'm',
        shortcuts_text(true)[13] == 'd',
        shortcuts_text(false)[11] == 'C',
        shortcuts_text(false)[12] == 't',
        shortcuts_text(false)[13] == 'r',
        shortcuts_text(false).len() == shortcuts_text(true).len() + 4,
{
    reveal_strlit(
        "Shortcuts: Cmd+D Fill Down, Cmd+R Fill Right, Cmd+Enter Multi-edit, Cmd+` Switch Window",
    );
    reveal_strlit(
        "Shortcuts: Ctrl+D Fill Down, Ctrl+R Fill Right, Ctrl+Enter Multi-edit, Ctrl+` Switch Window",
    );
}

/// A function that was found goes into the formula at the cursor, which stands
/// behind its bracket then. Where there is no formula yet, it begins one, and what
/// the cell held is kept to go back to.
pub proof fn a_found_function_goes_into_the_formula(
    old: Spreadsheet,
    new: Spreadsheet,
    name: Seq<char>,
    raw: Seq<char>,
)
    requires
        function_fits(old, name),
        function_put(old, new, name, raw),
    ensures
        edit_buffer::in_formula(old) ==> {
            &&& new.mode == old.mode
            &&& new.edit.cursor == old.edit.cursor + text::utf8_len(name + "("@)
            &&& text::utf8_len(new.edit.value@) == text::utf8_len(old.edit.value@)
                + text::utf8_len(name + "("@)
            &&& text::contains_text(new.edit.value@, name + "("@)
        },
        !edit_buffer::in_formula(old) ==> {
            &&& new.mode == Mode::Formula
            &&& new.edit.cursor == text::utf8_len(new.edit.value@)
            &&& new.edit.value@.len() == name.len() + 2
            &&& new.edit.value@[0] == '='
            &&& text::has_suffix(new.edit.value@, name + "("@)
            &&& new.edit.original@ == raw
        },
        new.file == old.file,
        new.view == old.view,
{
    reveal_strlit("=");
    reveal_strlit("(");
    text::byte_lengths_add_up(name, "("@);
    text::byte_lengths_add_up("="@, name);
    text::byte_lengths_add_up("="@ + name, "("@);
    lemma_one_byte("("@);
    lemma_one_byte("="@);
    if edit_buffer::in_formula(old) {
        text::an_insert_leaves_the_text_around_it(old.edit.value@, old.edit.at(), name + "("@);
        let s = old.edit.value@;
        let front = text::byte_prefix(s, old.edit.at());
        text::what_it_means_to_hold_a_text(front, name + "("@, s.skip(front.len() as int));
    } else {
        text::a_text_holds_its_parts("="@, name, "("@, Seq::empty());
    }
}

proof fn lemma_one_byte(s: Seq<char>)
    requires
        s.len() == 1,
        (s[0] as u32) < 128,
    ensures
        text::utf8_len(s) == 1,
{
    reveal_with_fuel(text::utf8_len, 2);
}

/// What was found is done with the thing itself: the cell is selected, the file is
/// opened, the text is copied. But for commands and functions nothing changes but
/// what is selected and what the status bar says.
pub proof fn a_found_thing_is_followed(
    old: Spreadsheet,
    new: Spreadsheet,
    action: SearchAction,
    raw: Seq<char>,
    macos: bool,
    report: Option<Seq<char>>,
    r: ActionEffect,
)
    requires
        action_done(old, new, action, raw, macos, report, r),
    ensures
        action matches SearchAction::JumpToCell { row, col } ==> {
            &&& new.view.selected == (row, col)
            &&& new.view.selection_end is None
            &&& r == (ActionEffect::MakeVisible { row, col })
        },
        action matches SearchAction::OpenFile(p) ==> r == ActionEffect::OpenFile(p),
        action matches SearchAction::OpenSetting { key } ==> r == ActionEffect::OpenSetting(key),
        action matches SearchAction::CopyToClipboard { text: t, .. } ==> r == ActionEffect::Copy(t),
        action matches SearchAction::ShowReferences { row, col } ==> r
            == (ActionEffect::ShowReferences { row, col }),
        action matches SearchAction::ShowPrecedents { row, col } ==> r
            == (ActionEffect::ShowPrecedents { row, col }),
        action matches SearchAction::RunCommand(cmd) ==> new.recent_commands@.len() > 0
            && new.recent_commands@[0] == cmd,
        action matches SearchAction::ShowFunctionHelp { name, signature, description } ==> (
        new.status_message matches Some(m) && text::has_prefix(m@, name@ + signature@)
            && text::has_suffix(m@, description@)),
        !(action is RunCommand) && !(action is InsertFormula) ==> new == (Spreadsheet {
            view: ViewState {
                selected: new.view.selected,
                selection_end: new.view.selection_end,
                ..old.view
            },
            status_message: new.status_message,
            ..old
        }),
        !(action is RunCommand) && !(action is InsertFormula) && !(action is JumpToCell) ==> new.view
            == old.view,
{
    if let SearchAction::ShowFunctionHelp { name, signature, description } = action {
        text::a_text_holds_its_parts(name@, signature@, " — "@, description@);
        text::what_it_means_to_hold_a_text(
            name@ + signature@ + " — "@,
            description@,
            Seq::empty(),
        );
    }
}

/// The name of the setting is told where the settings were opened, and the reason
/// where they were not.
pub proof fn an_opened_setting_is_told(
    old: Spreadsheet,
    new: Spreadsheet,
    key: Seq<char>,
    filename: Option<Seq<char>>,
    opened: Result<(), String>,
)
    requires
        setting_told(old, new, key, filename, opened),
    ensures
        new == (Spreadsheet { status_message: new.status_message, ..old }),
        new.status_message matches Some(m) && match opened {
            Ok(_) => text::contains_text(m@, key) && (filename matches Some(f) ==> text::has_suffix(
                m@,
                f,
            )),
            Err(e) => text::has_suffix(m@, e@),
        },
{
    match opened {
        Ok(_) => {
            let f = match filename {
                Some(f) => f,
                None => "settings.json"@,
            };
            text::a_text_holds_its_parts(
                "Copied \""@,
                key,
                "\" to clipboard — paste into "@,
                f,
            );
            text::what_it_means_to_hold_a_text(
                "Copied \""@ + key + "\" to clipboard — paste into "@,
                f,
                Seq::empty(),
            );
        },
        Err(e) => {
            text::what_it_means_to_hold_a_text("Failed to open settings: "@, e@, Seq::empty());
        },
    }
}

} // verus!
