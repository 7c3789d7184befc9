//! The interchange document: cells with their content and formats, as a file
//! holds them and as the calculation engine holds them.

use vstd::prelude::*;

use crate::color;
use crate::color::Rgba;
use crate::layout::{Charts, FilterSpec};
use crate::text;

verus! {

/// The name that an interchange document carries as its format.
pub const FULL_JSON_FORMAT: &'static str = "visigrid-json";

/// The version of a document with a single sheet.
pub const FULL_JSON_VERSION: u32 = 1;

/// The version of a document with a list of sheets.
pub const FULL_JSON_WORKBOOK_VERSION: u32 = 2;

// ---------------------------------------------------------------------------
// Formats in the engine
// ---------------------------------------------------------------------------

#[derive(Debug, Clone, Copy, PartialEq, Eq, Structural)]
pub enum CellStyle {
    Plain,
    Error,
    Warning,
    Success,
    Input,
    Total,
    Note,
}

#[derive(Debug, Clone, Copy, PartialEq, Eq, Structural)]
pub enum Alignment {
    General,
    Left,
    Center,
    Right,
    CenterAcrossSelection,
}

#[derive(Debug, Clone, Copy, PartialEq, Eq, Structural)]
pub enum VerticalAlignment {
    Top,
    Middle,
    Bottom,
}

#[derive(Debug, Clone, Copy, PartialEq, Eq, Structural)]
pub enum TextOverflow {
    Clip,
    Wrap,
    Overflow,
}

#[derive(Debug, Clone, Copy, PartialEq, Eq, Structural)]
pub enum BorderStyle {
    Absent,
    Thin,
    Medium,
    Thick,
}

#[derive(Debug, Clone, Copy, PartialEq, Eq, Structural)]
pub struct CellBorder {
    pub style: BorderStyle,
    pub color: Option<Rgba>,
}

/// No border.
pub open spec fn no_border() -> CellBorder {
    CellBorder { style: BorderStyle::Absent, color: None }
}

/// The format of a cell. The font size is the bit pattern of single-precision
/// points; the number format is its written form, absent for the default one.
#[derive(Debug, PartialEq, Eq)]
pub struct CellFormat {
    pub bold: bool,
    pub italic: bool,
    pub underline: bool,
    pub strikethrough: bool,
    pub font_color: Option<Rgba>,
    pub background_color: Option<Rgba>,
    pub cell_style: CellStyle,
    pub alignment: Alignment,
    pub vertical_alignment: VerticalAlignment,
    pub font_family: Option<String>,
    pub font_size: Option<u32>,
    pub text_overflow: TextOverflow,
    pub border_top: CellBorder,
    pub border_right: CellBorder,
    pub border_bottom: CellBorder,
    pub border_left: CellBorder,
    pub number_format: Option<String>,
}

// ---------------------------------------------------------------------------
// The document
// ---------------------------------------------------------------------------

/// A value in a document. A number is held as it is written; `Other` is any
/// value that is neither number, text nor truth value, as it is written.
#[derive(Debug, PartialEq, Eq)]
pub enum Scalar {
    Number(String),
    Text(String),
    Bool(bool),
    Other(String),
}

#[derive(Debug, PartialEq, Eq)]
pub struct FullBorder {
    pub style: String,
    pub color: Option<String>,
}

#[derive(Debug, PartialEq, Eq)]
pub struct FullBorders {
    pub top: Option<FullBorder>,
    pub right: Option<FullBorder>,
    pub bottom: Option<FullBorder>,
    pub left: Option<FullBorder>,
}

#[derive(Debug, PartialEq, Eq)]
pub struct FullFormat {
    pub bold: bool,
    pub italic: bool,
    pub underline: bool,
    pub strikethrough: bool,
    pub fg: Option<String>,
    pub bg: Option<String>,
    pub style: Option<String>,
    pub align: Option<String>,
    pub valign: Option<String>,
    pub font: Option<String>,
    pub size: Option<u32>,
    pub number_format: Option<String>,
    pub overflow: Option<String>,
    pub borders: Option<FullBorders>,
}

#[derive(Debug, PartialEq, Eq)]
pub struct FullCell {
    pub row: usize,
    pub col: usize,
    pub value: Option<Scalar>,
    pub formula: Option<String>,
    pub fmt: Option<FullFormat>,
    /// The value was kept, not recomputed: the build that wrote it has no
    /// definition for the formula's function.
    pub stale_custom_fn: bool,
    /// Set on a cell that a formula spilled into: the cell it came from.
    pub spill_from: Option<(usize, usize)>,
}

#[derive(Debug, Clone, Copy, PartialEq, Eq, Structural)]
pub struct MergeSpec {
    pub start_row: usize,
    pub start_col: usize,
    pub end_row: usize,
    pub end_col: usize,
}

#[derive(Debug, Clone, Copy, PartialEq, Eq, Structural)]
pub struct CellRange {
    pub start_row: usize,
    pub start_col: usize,
    pub end_row: usize,
    pub end_col: usize,
}

/// One data-validation rule on a range; the rule is kept as it is written.
#[derive(Debug, PartialEq, Eq)]
pub struct ValidationSpec {
    pub range: CellRange,
    pub rule: String,
}

/// One sheet of a document.
#[derive(Debug, PartialEq, Eq)]
pub struct SheetBody {
    pub name: String,
    pub cells: Vec<FullCell>,
    pub merges: Vec<MergeSpec>,
    pub col_widths: Vec<(String, u32)>,
    pub row_heights: Vec<(String, u32)>,
    pub hidden_rows: Vec<usize>,
    pub hidden_cols: Vec<usize>,
    pub tab_color: Option<String>,
    pub frozen_rows: usize,
    pub frozen_cols: usize,
    pub cond_formats: Option<String>,
    pub validations: Vec<ValidationSpec>,
    pub filter: Option<FilterSpec>,
    pub charts: Option<Charts>,
}

/// A document: one sheet at the top level, or a list of sheets.
#[derive(Debug, PartialEq, Eq)]
pub struct FullDoc {
    pub format: String,
    pub version: u32,
    pub body: SheetBody,
    pub sheets: Vec<SheetBody>,
    pub active_sheet: Option<usize>,
}

// ---------------------------------------------------------------------------
// What a document says, apart from how it is held
// ---------------------------------------------------------------------------

#[verifier::ext_equal]
pub enum ScalarModel {
    Number(Seq<char>),
    Text(Seq<char>),
    Bool(bool),
    Other(Seq<char>),
}

#[verifier::ext_equal]
pub struct BorderModel {
    pub style: Seq<char>,
    pub color: Option<Seq<char>>,
}

#[verifier::ext_equal]
pub struct BordersModel {
    pub top: Option<BorderModel>,
    pub right: Option<BorderModel>,
    pub bottom: Option<BorderModel>,
    pub left: Option<BorderModel>,
}

#[verifier::ext_equal]
pub struct FormatModel {
    pub bold: bool,
    pub italic: bool,
    pub underline: bool,
    pub strikethrough: bool,
    pub fg: Option<Seq<char>>,
    pub bg: Option<Seq<char>>,
    pub style: Option<Seq<char>>,
    pub align: Option<Seq<char>>,
    pub valign: Option<Seq<char>>,
    pub font: Option<Seq<char>>,
    pub size: Option<u32>,
    pub number_format: Option<Seq<char>>,
    pub overflow: Option<Seq<char>>,
    pub borders: Option<BordersModel>,
}

#[verifier::ext_equal]
pub struct CellModel {
    pub row: usize,
    pub col: usize,
    pub value: Option<ScalarModel>,
    pub formula: Option<Seq<char>>,
    pub fmt: Option<FormatModel>,
    pub stale_custom_fn: bool,
    pub spill_from: Option<(usize, usize)>,
}

impl View for Scalar {
    type V = ScalarModel;

    open spec fn view(&self) -> ScalarModel {
        match self {
            Scalar::Number(s) => ScalarModel::Number(s@),
            Scalar::Text(s) => ScalarModel::Text(s@),
            Scalar::Bool(b) => ScalarModel::Bool(*b),
            Scalar::Other(s) => ScalarModel::Other(s@),
        }
    }
}

pub open spec fn opt_scalar(s: Option<Scalar>) -> Option<ScalarModel> {
    match s {
        Some(x) => Some(x@),
        None => None,
    }
}

impl View for FullBorder {
    type V = BorderModel;

    open spec fn view(&self) -> BorderModel {
        BorderModel { style: self.style@, color: text::opt_text(self.color) }
    }
}

pub open spec fn opt_border(b: Option<FullBorder>) -> Option<BorderModel> {
    match b {
        Some(x) => Some(x@),
        None => None,
    }
}

impl View for FullBorders {
    type V = BordersModel;

    open spec fn view(&self) -> BordersModel {
        BordersModel {
            top: opt_border(self.top),
            right: opt_border(self.right),
            bottom: opt_border(self.bottom),
            left: opt_border(self.left),
        }
    }
}

pub open spec fn opt_borders(b: Option<FullBorders>) -> Option<BordersModel> {
    match b {
        Some(x) => Some(x@),
        None => None,
    }
}

impl View for FullFormat {
    type V = FormatModel;

    open spec fn view(&self) -> FormatModel {
        FormatModel {
            bold: self.bold,
            italic: self.italic,
            underline: self.underline,
            strikethrough: self.strikethrough,
            fg: text::opt_text(self.fg),
            bg: text::opt_text(self.bg),
            style: text::opt_text(self.style),
            align: text::opt_text(self.align),
            valign: text::opt_text(self.valign),
            font: text::opt_text(self.font),
            size: self.size,
            number_format: text::opt_text(self.number_format),
            overflow: text::opt_text(self.overflow),
            borders: opt_borders(self.borders),
        }
    }
}

pub open spec fn opt_format(f: Option<FullFormat>) -> Option<FormatModel> {
    match f {
        Some(x) => Some(x@),
        None => None,
    }
}

impl View for FullCell {
    type V = CellModel;

    open spec fn view(&self) -> CellModel {
        CellModel {
            row: self.row,
            col: self.col,
            value: opt_scalar(self.value),
            formula: text::opt_text(self.formula),
            fmt: opt_format(self.fmt),
            stale_custom_fn: self.stale_custom_fn,
            spill_from: self.spill_from,
        }
    }
}

pub open spec fn cells_view(c: Seq<FullCell>) -> Seq<CellModel> {
    c.map_values(|x: FullCell| x@)
}

pub open spec fn validations_view(v: Seq<ValidationSpec>) -> Seq<(CellRange, Seq<char>)> {
    v.map_values(|x: ValidationSpec| (x.range, x.rule@))
}

pub open spec fn sizes_view(v: Seq<(String, u32)>) -> Seq<(Seq<char>, u32)> {
    v.map_values(|x: (String, u32)| (x.0@, x.1))
}

/// A copy of an optional text.
pub fn clone_text(s: &Option<String>) -> (r: Option<String>)
    ensures
        r == *s,
{
    match s {
        Some(t) => Some(t.clone()),
        None => None,
    }
}

// ---------------------------------------------------------------------------
// Formats on their way out
// ---------------------------------------------------------------------------

pub open spec fn color_out(c: Option<Rgba>) -> Option<Seq<char>> {
    match c {
        Some(x) => Some(color::hex_text(x)),
        None => None,
    }
}

pub open spec fn border_written(b: CellBorder) -> Option<BorderModel> {
    match b.style {
        BorderStyle::Absent => None,
        BorderStyle::Thin => Some(BorderModel { style: "thin"@, color: color_out(b.color) }),
        BorderStyle::Medium => Some(BorderModel { style: "medium"@, color: color_out(b.color) }),
        BorderStyle::Thick => Some(BorderModel { style: "thick"@, color: color_out(b.color) }),
    }
}

pub open spec fn has_any_border(f: CellFormat) -> bool {
    f.border_top.style != BorderStyle::Absent || f.border_right.style != BorderStyle::Absent
        || f.border_bottom.style != BorderStyle::Absent || f.border_left.style != BorderStyle::Absent
}

pub open spec fn borders_written(f: CellFormat) -> Option<BordersModel> {
    if has_any_border(f) {
        Some(
            BordersModel {
                top: border_written(f.border_top),
                right: border_written(f.border_right),
                bottom: border_written(f.border_bottom),
                left: border_written(f.border_left),
            },
        )
    } else {
        None
    }
}

pub open spec fn style_written(s: CellStyle) -> Option<Seq<char>> {
    match s {
        CellStyle::Plain => None,
        CellStyle::Error => Some("error"@),
        CellStyle::Warning => Some("warning"@),
        CellStyle::Success => Some("success"@),
        CellStyle::Input => Some("input"@),
        CellStyle::Total => Some("total"@),
        CellStyle::Note => Some("note"@),
    }
}

pub open spec fn align_written(a: Alignment) -> Option<Seq<char>> {
    match a {
        Alignment::General => None,
        Alignment::Left => Some("left"@),
        Alignment::Center => Some("center"@),
        Alignment::Right => Some("right"@),
        Alignment::CenterAcrossSelection => Some("center_across"@),
    }
}

pub open spec fn valign_written(v: VerticalAlignment) -> Option<Seq<char>> {
    match v {
        VerticalAlignment::Middle => None,
        VerticalAlignment::Top => Some("top"@),
        VerticalAlignment::Bottom => Some("bottom"@),
    }
}

pub open spec fn overflow_written(o: TextOverflow) -> Option<Seq<char>> {
    match o {
        TextOverflow::Clip => None,
        TextOverflow::Wrap => Some("wrap"@),
        TextOverflow::Overflow => Some("overflow"@),
    }
}

/// A format as a document holds it: what is the default is left out.
pub open spec fn format_written(f: CellFormat) -> FormatModel {
    FormatModel {
        bold: f.bold,
        italic: f.italic,
        underline: f.underline,
        strikethrough: f.strikethrough,
        fg: color_out(f.font_color),
        bg: color_out(f.background_color),
        style: style_written(f.cell_style),
        align: align_written(f.alignment),
        valign: valign_written(f.vertical_alignment),
        font: text::opt_text(f.font_family),
        size: f.font_size,
        number_format: text::opt_text(f.number_format),
        overflow: overflow_written(f.text_overflow),
        borders: borders_written(f),
    }
}

fn hex_opt(c: Option<Rgba>) -> (r: Option<String>)
    ensures
        text::opt_text(r) == color_out(c),
{
    match c {
        Some(x) => Some(color::hex(x)),
        None => None,
    }
}

/// A border as a document holds it; no border is left out.
pub fn border_out(b: CellBorder) -> (r: Option<FullBorder>)
    ensures
        opt_border(r) == border_written(b),
{
    let style = match b.style {
        BorderStyle::Absent => return None,
        BorderStyle::Thin => text::lit("thin"),
        BorderStyle::Medium => text::lit("medium"),
        BorderStyle::Thick => text::lit("thick"),
    };
    Some(FullBorder { style, color: hex_opt(b.color) })
}

/// A format as a document holds it.
pub fn format_out(f: &CellFormat) -> (r: FullFormat)
    ensures
        r@ == format_written(*f),
{
    let style = match f.cell_style {
        CellStyle::Plain => None,
        CellStyle::Error => Some(text::lit("error")),
        CellStyle::Warning => Some(text::lit("warning")),
        CellStyle::Success => Some(text::lit("success")),
        CellStyle::Input => Some(text::lit("input")),
        CellStyle::Total => Some(text::lit("total")),
        CellStyle::Note => Some(text::lit("note")),
    };
    let align = match f.alignment {
        Alignment::General => None,
        Alignment::Left => Some(text::lit("left")),
        Alignment::Center => Some(text::lit("center")),
        Alignment::Right => Some(text::lit("right")),
        Alignment::CenterAcrossSelection => Some(text::lit("center_across")),
    };
    let valign = match f.vertical_alignment {
        VerticalAlignment::Middle => None,
        VerticalAlignment::Top => Some(text::lit("top")),
        VerticalAlignment::Bottom => Some(text::lit("bottom")),
    };
    let overflow = match f.text_overflow {
        TextOverflow::Clip => None,
        TextOverflow::Wrap => Some(text::lit("wrap")),
        TextOverflow::Overflow => Some(text::lit("overflow")),
    };
    let bordered = f.border_top.style != BorderStyle::Absent || f.border_right.style
        != BorderStyle::Absent || f.border_bottom.style != BorderStyle::Absent || f.border_left.style
        != BorderStyle::Absent;
    let borders = if bordered {
        Some(
            FullBorders {
                top: border_out(f.border_top),
                right: border_out(f.border_right),
                bottom: border_out(f.border_bottom),
                left: border_out(f.border_left),
            },
        )
    } else {
        None
    };
    FullFormat {
        bold: f.bold,
        italic: f.italic,
        underline: f.underline,
        strikethrough: f.strikethrough,
        fg: hex_opt(f.font_color),
        bg: hex_opt(f.background_color),
        style,
        align,
        valign,
        font: clone_text(&f.font_family),
        size: f.font_size,
        number_format: clone_text(&f.number_format),
        overflow,
        borders,
    }
}

// ---------------------------------------------------------------------------
// Formats on their way in
// ---------------------------------------------------------------------------

pub open spec fn color_read(c: Option<Seq<char>>) -> Option<Rgba> {
    match c {
        Some(x) => color::rgb_of(x),
        None => None,
    }
}

pub open spec fn style_read(s: Seq<char>) -> CellStyle {
    if s == "error"@ {
        CellStyle::Error
    } else if s == "warning"@ {
        CellStyle::Warning
    } else if s == "success"@ {
        CellStyle::Success
    } else if s == "input"@ {
        CellStyle::Input
    } else if s == "total"@ {
        CellStyle::Total
    } else if s == "note"@ {
        CellStyle::Note
    } else {
        CellStyle::Plain
    }
}

pub open spec fn align_read(a: Seq<char>) -> Alignment {
    if a == "left"@ {
        Alignment::Left
    } else if a == "center"@ {
        Alignment::Center
    } else if a == "right"@ {
        Alignment::Right
    } else if a == "center_across"@ {
        Alignment::CenterAcrossSelection
    } else {
        Alignment::General
    }
}

pub open spec fn valign_read(v: Seq<char>) -> VerticalAlignment {
    if v == "top"@ {
        VerticalAlignment::Top
    } else if v == "bottom"@ {
        VerticalAlignment::Bottom
    } else {
        VerticalAlignment::Middle
    }
}

pub open spec fn overflow_read(o: Seq<char>) -> TextOverflow {
    if o == "wrap"@ {
        TextOverflow::Wrap
    } else if o == "overflow"@ {
        TextOverflow::Overflow
    } else {
        TextOverflow::Clip
    }
}

pub open spec fn border_style_read(s: Seq<char>) -> BorderStyle {
    if s == "medium"@ {
        BorderStyle::Medium
    } else if s == "thick"@ {
        BorderStyle::Thick
    } else if s == "thin"@ {
        BorderStyle::Thin
    } else {
        BorderStyle::Absent
    }
}

pub open spec fn border_read(b: Option<BorderModel>) -> CellBorder {
    match b {
        None => no_border(),
        Some(m) => CellBorder { style: border_style_read(m.style), color: color_read(m.color) },
    }
}

/// `new` is the format `base` with what the document says laid over it: the
/// marks, colours and font always, the rest where the document names it. A
/// number format is taken only where it `reads` as one.
pub open spec fn format_laid_over(base: CellFormat, m: FormatModel, reads: bool, new: CellFormat) -> bool {
    &&& new.bold == m.bold
    &&& new.italic == m.italic
    &&& new.underline == m.underline
    &&& new.strikethrough == m.strikethrough
    &&& new.font_color == color_read(m.fg)
    &&& new.background_color == color_read(m.bg)
    &&& new.cell_style == match m.style {
        Some(s) => style_read(s),
        None => base.cell_style,
    }
    &&& new.alignment == match m.align {
        Some(a) => align_read(a),
        None => base.alignment,
    }
    &&& new.vertical_alignment == match m.valign {
        Some(v) => valign_read(v),
        None => base.vertical_alignment,
    }
    &&& text::opt_text(new.font_family) == m.font
    &&& new.font_size == m.size
    &&& new.text_overflow == match m.overflow {
        Some(o) => overflow_read(o),
        None => base.text_overflow,
    }
    &&& match m.borders {
        Some(b) => new.border_top == border_read(b.top) && new.border_right == border_read(b.right)
            && new.border_bottom == border_read(b.bottom) && new.border_left == border_read(
            b.left,
        ),
        None => new.border_top == base.border_top && new.border_right == base.border_right
            && new.border_bottom == base.border_bottom && new.border_left == base.border_left,
    }
    &&& text::opt_text(new.number_format) == if m.number_format is Some && reads {
        m.number_format
    } else {
        text::opt_text(base.number_format)
    }
}

fn parse_color(c: &Option<String>) -> (r: Option<Rgba>)
    ensures
        r == color_read(text::opt_text(*c)),
{
    match c {
        Some(s) => color::parse_hex(s.as_str()),
        None => None,
    }
}

/// The border that a document describes; an unknown style is no border.
pub fn border_in(b: &Option<FullBorder>) -> (r: CellBorder)
    ensures
        r == border_read(opt_border(*b)),
{
    match b {
        None => CellBorder { style: BorderStyle::Absent, color: None },
        Some(fb) => {
            let s = fb.style.as_str();
            let style = if text::str_eq(s, "medium") {
                BorderStyle::Medium
            } else if text::str_eq(s, "thick") {
                BorderStyle::Thick
            } else if text::str_eq(s, "thin") {
                BorderStyle::Thin
            } else {
                BorderStyle::Absent
            };
            CellBorder { style, color: parse_color(&fb.color) }
        },
    }
}

fn style_in(s: &str) -> (r: CellStyle)
    ensures
        r == style_read(s@),
{
    if text::str_eq(s, "error") {
        CellStyle::Error
    } else if text::str_eq(s, "warning") {
        CellStyle::Warning
    } else if text::str_eq(s, "success") {
        CellStyle::Success
    } else if text::str_eq(s, "input") {
        CellStyle::Input
    } else if text::str_eq(s, "total") {
        CellStyle::Total
    } else if text::str_eq(s, "note") {
        CellStyle::Note
    } else {
        CellStyle::Plain
    }
}

fn align_in(a: &str) -> (r: Alignment)
    ensures
        r == align_read(a@),
{
    if text::str_eq(a, "left") {
        Alignment::Left
    } else if text::str_eq(a, "center") {
        Alignment::Center
    } else if text::str_eq(a, "right") {
        Alignment::Right
    } else if text::str_eq(a, "center_across") {
        Alignment::CenterAcrossSelection
    } else {
        Alignment::General
    }
}

fn valign_in(v: &str) -> (r: VerticalAlignment)
    ensures
        r == valign_read(v@),
{
    if text::str_eq(v, "top") {
        VerticalAlignment::Top
    } else if text::str_eq(v, "bottom") {
        VerticalAlignment::Bottom
    } else {
        VerticalAlignment::Middle
    }
}

fn overflow_in(o: &str) -> (r: TextOverflow)
    ensures
        r == overflow_read(o@),
{
    if text::str_eq(o, "wrap") {
        TextOverflow::Wrap
    } else if text::str_eq(o, "overflow") {
        TextOverflow::Overflow
    } else {
        TextOverflow::Clip
    }
}

/// A cell's format with what a document says laid over it. `reads` is whether
/// the calculation engine can read the number format that the document names.
pub fn format_in(base: &CellFormat, f: &FullFormat, reads: bool) -> (r: CellFormat)
    ensures
        format_laid_over(*base, f@, reads, r),
{
    let cell_style = match &f.style {
        Some(s) => style_in(s.as_str()),
        None => base.cell_style,
    };
    let alignment = match &f.align {
        Some(a) => align_in(a.as_str()),
        None => base.alignment,
    };
    let vertical_alignment = match &f.valign {
        Some(v) => valign_in(v.as_str()),
        None => base.vertical_alignment,
    };
    let text_overflow = match &f.overflow {
        Some(o) => overflow_in(o.as_str()),
        None => base.text_overflow,
    };
    let (border_top, border_right, border_bottom, border_left) = match &f.borders {
        Some(b) => (
            border_in(&b.top),
            border_in(&b.right),
            border_in(&b.bottom),
            border_in(&b.left),
        ),
        None => (base.border_top, base.border_right, base.border_bottom, base.border_left),
    };
    let number_format = if f.number_format.is_some() && reads {
        clone_text(&f.number_format)
    } else {
        clone_text(&base.number_format)
    };
    CellFormat {
        bold: f.bold,
        italic: f.italic,
        underline: f.underline,
        strikethrough: f.strikethrough,
        font_color: parse_color(&f.fg),
        background_color: parse_color(&f.bg),
        cell_style,
        alignment,
        vertical_alignment,
        font_family: clone_text(&f.font),
        font_size: f.size,
        text_overflow,
        border_top,
        border_right,
        border_bottom,
        border_left,
        number_format,
    }
}

impl Default for CellFormat {
    /// The format of a cell that was never formatted.
    fn default() -> (f: CellFormat)
        ensures
            is_plain(f),
    {
        let none = CellBorder { style: BorderStyle::Absent, color: None };
        CellFormat {
            bold: false,
            italic: false,
            underline: false,
            strikethrough: false,
            font_color: None,
            background_color: None,
            cell_style: CellStyle::Plain,
            alignment: Alignment::General,
            vertical_alignment: VerticalAlignment::Middle,
            font_family: None,
            font_size: None,
            text_overflow: TextOverflow::Clip,
            border_top: none,
            border_right: none,
            border_bottom: none,
            border_left: none,
            number_format: None,
        }
    }
}

/// The format of a cell that was never formatted.
pub open spec fn is_plain(f: CellFormat) -> bool {
    &&& !f.bold && !f.italic && !f.underline && !f.strikethrough
    &&& f.font_color is None && f.background_color is None
    &&& f.cell_style == CellStyle::Plain
    &&& f.alignment == Alignment::General
    &&& f.vertical_alignment == VerticalAlignment::Middle
    &&& f.font_family is None && f.font_size is None
    &&& f.text_overflow == TextOverflow::Clip
    &&& f.border_top == no_border() && f.border_right == no_border() && f.border_bottom
        == no_border() && f.border_left == no_border()
    &&& f.number_format is None
}

// ---------------------------------------------------------------------------
// Laws
// ---------------------------------------------------------------------------

/// A colour keeps everything but its opacity.
pub open spec fn same_color(a: Option<Rgba>, b: Option<Rgba>) -> bool {
    match a {
        Some(x) => b == Some(x.opaque()),
        None => b is None,
    }
}

pub open spec fn same_border(a: CellBorder, b: CellBorder) -> bool {
    &&& a.style == b.style
    &&& a.style != BorderStyle::Absent ==> same_color(a.color, b.color)
    &&& a.style == BorderStyle::Absent ==> b.color is None
}

/// `b` is the format `a`, with full opacity and without the colour of a border
/// that is not drawn.
pub open spec fn same_format(a: CellFormat, b: CellFormat) -> bool {
    &&& a.bold == b.bold && a.italic == b.italic && a.underline == b.underline && a.strikethrough
        == b.strikethrough
    &&& same_color(a.font_color, b.font_color)
    &&& same_color(a.background_color, b.background_color)
    &&& a.cell_style == b.cell_style
    &&& a.alignment == b.alignment
    &&& a.vertical_alignment == b.vertical_alignment
    &&& text::opt_text(a.font_family) == text::opt_text(b.font_family)
    &&& a.font_size == b.font_size
    &&& a.text_overflow == b.text_overflow
    &&& same_border(a.border_top, b.border_top)
    &&& same_border(a.border_right, b.border_right)
    &&& same_border(a.border_bottom, b.border_bottom)
    &&& same_border(a.border_left, b.border_left)
    &&& text::opt_text(a.number_format) == text::opt_text(b.number_format)
}

/// A format that is written and read back on a fresh cell is the same format,
/// as long as its number format reads.
pub proof fn format_survives_the_document(f: CellFormat, base: CellFormat, back: CellFormat)
    requires
        is_plain(base),
        format_laid_over(base, format_written(f), true, back),
    ensures
        same_format(f, back),
{
    lemma_color(f.font_color);
    lemma_color(f.background_color);
    lemma_names();
    lemma_border(f.border_top);
    lemma_border(f.border_right);
    lemma_border(f.border_bottom);
    lemma_border(f.border_left);
}

proof fn lemma_color(c: Option<Rgba>)
    ensures
        same_color(c, color_read(color_out(c))),
{
    if let Some(x) = c {
        color::parse_hex_reads_hex(x);
    }
}

proof fn lemma_border(b: CellBorder)
    ensures
        same_border(b, border_read(border_written(b))),
{
    lemma_color(b.color);
    reveal_strlit("thin");
    reveal_strlit("medium");
    reveal_strlit("thick");
    assert("thin"@.len() == 4 && "medium"@.len() == 6 && "thick"@.len() == 5);
}

proof fn lemma_names()
    ensures
        forall|s: CellStyle| (#[trigger] style_written(s)) matches Some(t) ==> style_read(t) == s,
        forall|a: Alignment| (#[trigger] align_written(a)) matches Some(t) ==> align_read(t) == a,
        forall|v: VerticalAlignment|
            (#[trigger] valign_written(v)) matches Some(t) ==> valign_read(t) == v,
        forall|o: TextOverflow|
            (#[trigger] overflow_written(o)) matches Some(t) ==> overflow_read(t) == o,
{
    reveal_strlit("error");
    reveal_strlit("warning");
    reveal_strlit("success");
    reveal_strlit("input");
    reveal_strlit("total");
    reveal_strlit("note");
    reveal_strlit("left");
    reveal_strlit("center");
    reveal_strlit("right");
    reveal_strlit("center_across");
    reveal_strlit("top");
    reveal_strlit("bottom");
    reveal_strlit("wrap");
    reveal_strlit("overflow");
    assert("error"@[0] == 'e' && "warning"@[0] == 'w' && "success"@[0] == 's' && "input"@[0] == 'i'
        && "total"@[0] == 't' && "note"@[0] == 'n');
    assert("left"@.len() == 4 && "center"@.len() == 6 && "right"@.len() == 5
        && "center_across"@.len() == 13);
    assert("top"@.len() == 3 && "bottom"@.len() == 6 && "wrap"@.len() == 4 && "overflow"@.len()
        == 8);
}

/// The words that a document is written in. A word that is none of them reads as what
/// is left out otherwise.
pub proof fn the_words_of_a_document(s: Seq<char>, b: CellBorder)
    ensures
        FULL_JSON_FORMAT@ == "visigrid-json"@ && FULL_JSON_VERSION == 1
            && FULL_JSON_WORKBOOK_VERSION == 2,
        style_written(CellStyle::Plain) is None && style_written(CellStyle::Error) == Some("error"@)
            && style_written(CellStyle::Warning) == Some("warning"@) && style_written(
            CellStyle::Success,
        ) == Some("success"@) && style_written(CellStyle::Input) == Some("input"@) && style_written(
            CellStyle::Total,
        ) == Some("total"@) && style_written(CellStyle::Note) == Some("note"@),
        align_written(Alignment::General) is None && align_written(Alignment::Left) == Some("left"@)
            && align_written(Alignment::Center) == Some("center"@) && align_written(
            Alignment::Right,
        ) == Some("right"@) && align_written(Alignment::CenterAcrossSelection) == Some(
            "center_across"@,
        ),
        valign_written(VerticalAlignment::Middle) is None && valign_written(VerticalAlignment::Top)
            == Some("top"@) && valign_written(VerticalAlignment::Bottom) == Some("bottom"@),
        overflow_written(TextOverflow::Clip) is None && overflow_written(TextOverflow::Wrap)
            == Some("wrap"@) && overflow_written(TextOverflow::Overflow) == Some("overflow"@),
        border_written(b) is None <==> b.style == BorderStyle::Absent,
        b.style == BorderStyle::Thin ==> border_written(b)->0.style == "thin"@,
        b.style == BorderStyle::Medium ==> border_written(b)->0.style == "medium"@,
        b.style == BorderStyle::Thick ==> border_written(b)->0.style == "thick"@,
        style_read(s) != CellStyle::Plain ==> style_written(style_read(s)) == Some(s),
        align_read(s) != Alignment::General ==> align_written(align_read(s)) == Some(s),
        valign_read(s) != VerticalAlignment::Middle ==> valign_written(valign_read(s)) == Some(s),
        overflow_read(s) != TextOverflow::Clip ==> overflow_written(overflow_read(s)) == Some(s),
        border_style_read(s) != BorderStyle::Absent ==> (border_written(
            CellBorder { style: border_style_read(s), color: None },
        ) matches Some(m) && m.style == s),
{
}

/// Each part of a format is written in its own place: a border on its own side with its
/// own color, and a switch under its own name. Colors are written in hexadecimal.
pub proof fn each_part_of_a_format_has_its_place(f: CellFormat)
    ensures
        ({
            let m = format_written(f);
            &&& m.bold == f.bold && m.italic == f.italic && m.underline == f.underline
                && m.strikethrough == f.strikethrough
            &&& m.fg is Some <==> f.font_color is Some
            &&& m.bg is Some <==> f.background_color is Some
            &&& f.font_color matches Some(c) ==> m.fg == Some(color::hex_text(c))
            &&& f.background_color matches Some(c) ==> m.bg == Some(color::hex_text(c))
            &&& m.font == text::opt_text(f.font_family) && m.size == f.font_size
            &&& m.number_format == text::opt_text(f.number_format)
            &&& m.borders is None <==> f.border_top.style == BorderStyle::Absent
                && f.border_right.style == BorderStyle::Absent && f.border_bottom.style
                == BorderStyle::Absent && f.border_left.style == BorderStyle::Absent
            &&& m.borders matches Some(b) ==> {
                &&& b.top is None <==> f.border_top.style == BorderStyle::Absent
                &&& b.right is None <==> f.border_right.style == BorderStyle::Absent
                &&& b.bottom is None <==> f.border_bottom.style == BorderStyle::Absent
                &&& b.left is None <==> f.border_left.style == BorderStyle::Absent
                &&& (b.top matches Some(x) && f.border_top.color matches Some(c)) ==> b.top->0.color
                    == Some(color::hex_text(f.border_top.color->0))
                &&& (b.left matches Some(x) && f.border_left.color matches Some(c))
                    ==> b.left->0.color == Some(color::hex_text(f.border_left.color->0))
                &&& (b.right matches Some(x) && f.border_right.color matches Some(c))
                    ==> b.right->0.color == Some(color::hex_text(f.border_right.color->0))
                &&& (b.bottom matches Some(x) && f.border_bottom.color matches Some(c))
                    ==> b.bottom->0.color == Some(color::hex_text(f.border_bottom.color->0))
            }
        }),
{
}

/// What a format that is read leaves out stays as it was, and so does a number format
/// that cannot be read.
pub proof fn what_is_left_out_stays(
    base: CellFormat,
    m: FormatModel,
    reads: bool,
    new: CellFormat,
)
    requires
        format_laid_over(base, m, reads, new),
    ensures
        m.style is None ==> new.cell_style == base.cell_style,
        m.align is None ==> new.alignment == base.alignment,
        m.valign is None ==> new.vertical_alignment == base.vertical_alignment,
        m.overflow is None ==> new.text_overflow == base.text_overflow,
        m.borders is None ==> new.border_top == base.border_top && new.border_right
            == base.border_right && new.border_bottom == base.border_bottom && new.border_left
            == base.border_left,
        m.number_format is None || !reads ==> text::opt_text(new.number_format) == text::opt_text(
            base.number_format,
        ),
        m.number_format is Some && reads ==> text::opt_text(new.number_format) == m.number_format,
        new.bold == m.bold && new.italic == m.italic && new.underline == m.underline
            && new.strikethrough == m.strikethrough,
        text::opt_text(new.font_family) == m.font && new.font_size == m.size,
        m.fg is None ==> new.font_color is None,
        m.bg is None ==> new.background_color is None,
        m.borders matches Some(b) ==> (b.top is None ==> new.border_top.style
            == BorderStyle::Absent) && (b.left is None ==> new.border_left.style
            == BorderStyle::Absent) && (b.right is None ==> new.border_right.style
            == BorderStyle::Absent) && (b.bottom is None ==> new.border_bottom.style
            == BorderStyle::Absent),
{
}

} // verus!
