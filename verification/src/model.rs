//! The document model that the HWPX writers serialize: document info
//! (fonts, character shapes), sections with their page definition,
//! paragraphs, and the inline tables and pictures that paragraphs hold.

use vstd::prelude::*;

verus! {

/// Underline placement of a character shape.
#[derive(Clone, Copy, Debug, PartialEq, Eq, Default)]
pub enum UnderlineType {
    #[default]
    NoUnderline,
    Bottom,
    Top,
}

/// A font of one language group.
#[derive(Clone, Debug, Default)]
pub struct Font {
    pub name: String,
}

/// Character shape (a `charPr` of the header).
#[derive(Clone, Debug)]
pub struct CharShape {
    pub font_ids: [u16; 7],
    pub ratios: [u8; 7],
    pub spacings: [i8; 7],
    pub relative_sizes: [u8; 7],
    pub char_offsets: [i8; 7],
    pub base_size: i32,
    pub italic: bool,
    pub bold: bool,
    pub underline_type: UnderlineType,
    pub underline_shape: u8,
    pub underline_color: u32,
    pub outline_type: u8,
    pub shadow_type: u8,
    pub shadow_color: u32,
    pub text_color: u32,
    pub shade_color: u32,
    pub strikethrough: bool,
    pub strike_shape: u8,
    pub strike_color: u32,
    pub emboss: bool,
    pub engrave: bool,
    pub superscript: bool,
    pub subscript: bool,
    pub kerning: bool,
    pub border_fill_id: u16,
}

/// The shape with every number zero and every flag off, no underline.
pub open spec fn default_char_shape() -> CharShape {
    CharShape {
        font_ids: [0u16, 0, 0, 0, 0, 0, 0],
        ratios: [0u8, 0, 0, 0, 0, 0, 0],
        spacings: [0i8, 0, 0, 0, 0, 0, 0],
        relative_sizes: [0u8, 0, 0, 0, 0, 0, 0],
        char_offsets: [0i8, 0, 0, 0, 0, 0, 0],
        base_size: 0,
        italic: false,
        bold: false,
        underline_type: UnderlineType::NoUnderline,
        underline_shape: 0,
        underline_color: 0,
        outline_type: 0,
        shadow_type: 0,
        shadow_color: 0,
        text_color: 0,
        shade_color: 0,
        strikethrough: false,
        strike_shape: 0,
        strike_color: 0,
        emboss: false,
        engrave: false,
        superscript: false,
        subscript: false,
        kerning: false,
        border_fill_id: 0,
    }
}

impl Default for CharShape {
    fn default() -> (cs: CharShape)
        ensures
            cs == default_char_shape(),
    {
        CharShape {
            font_ids: [0u16, 0, 0, 0, 0, 0, 0],
            ratios: [0u8, 0, 0, 0, 0, 0, 0],
            spacings: [0i8, 0, 0, 0, 0, 0, 0],
            relative_sizes: [0u8, 0, 0, 0, 0, 0, 0],
            char_offsets: [0i8, 0, 0, 0, 0, 0, 0],
            base_size: 0,
            italic: false,
            bold: false,
            underline_type: UnderlineType::NoUnderline,
            underline_shape: 0,
            underline_color: 0,
            outline_type: 0,
            shadow_type: 0,
            shadow_color: 0,
            text_color: 0,
            shade_color: 0,
            strikethrough: false,
            strike_shape: 0,
            strike_color: 0,
            emboss: false,
            engrave: false,
            superscript: false,
            subscript: false,
            kerning: false,
            border_fill_id: 0,
        }
    }
}


/// Document-level resource tables.
#[derive(Clone, Debug, Default)]
pub struct DocInfo {
    /// Fonts per language group (HANGUL, LATIN, HANJA, JAPANESE, OTHER, SYMBOL, USER).
    pub font_faces: Vec<Vec<Font>>,
    pub char_shapes: Vec<CharShape>,
}

/// Binary payload of an embedded image.
#[derive(Clone, Debug, Default)]
pub struct BinDataContent {
    pub id: u16,
    pub data: Vec<u8>,
    pub extension: String,
}

/// How pages are bound.
#[derive(Clone, Copy, Debug, PartialEq, Eq, Default)]
pub enum BindingMethod {
    #[default]
    SingleSided,
    DuplexSided,
    TopFlip,
}

/// Paper size, orientation and margins (HWPUNIT).
#[derive(Clone, Copy, Debug, Default)]
pub struct PageDef {
    pub width: u32,
    pub height: u32,
    pub margin_left: u32,
    pub margin_right: u32,
    pub margin_top: u32,
    pub margin_bottom: u32,
    pub margin_header: u32,
    pub margin_footer: u32,
    pub margin_gutter: u32,
    pub landscape: bool,
    pub binding: BindingMethod,
}

/// Section-wide settings.
#[derive(Clone, Copy, Debug, Default)]
pub struct SectionDef {
    pub page_def: PageDef,
    pub default_tab_spacing: u32,
}

/// A run of characters that share a character shape, from `start_pos`
/// (a UTF-16 offset into the paragraph text) on.
#[derive(Clone, Copy, Debug, Default)]
pub struct CharShapeRef {
    pub start_pos: u32,
    pub char_shape_id: u32,
}

/// A paragraph: its text, the character shapes over it, and the inline
/// controls that the extended-control characters (U+0002) of the text stand for.
#[derive(Debug, Default)]
pub struct Paragraph {
    pub text: String,
    pub char_shapes: Vec<CharShapeRef>,
    pub para_shape_id: u16,
    pub style_id: u8,
    /// Per tab character: width, leader, type.
    pub tab_extended: Vec<[u16; 7]>,
    pub controls: Vec<Control>,
}

/// An inline control of a paragraph.
#[derive(Debug)]
pub enum Control {
    Table(Box<Table>),
    Picture(Box<Picture>),
    /// Any other control kind; it is not written to section XML.
    Other,
}

/// A section: its definition and its paragraphs.
#[derive(Debug, Default)]
pub struct Section {
    pub section_def: SectionDef,
    pub paragraphs: Vec<Paragraph>,
}

/// The whole document.
#[derive(Debug, Default)]
pub struct Document {
    pub doc_info: DocInfo,
    pub sections: Vec<Section>,
    pub bin_data_content: Vec<BinDataContent>,
}

/// Four-sided spacing.
#[derive(Clone, Copy, Debug, Default)]
pub struct Padding {
    pub left: i16,
    pub right: i16,
    pub top: i16,
    pub bottom: i16,
}

/// How text flows around an object.
#[derive(Clone, Copy, Debug, PartialEq, Eq, Default)]
pub enum TextWrap {
    #[default]
    Square,
    Tight,
    Through,
    TopAndBottom,
    BehindText,
    InFrontOfText,
}

/// What an object's vertical offset is measured from.
#[derive(Clone, Copy, Debug, PartialEq, Eq, Default)]
pub enum VertRelTo {
    Paper,
    Page,
    #[default]
    Para,
}

/// What an object's horizontal offset is measured from.
#[derive(Clone, Copy, Debug, PartialEq, Eq, Default)]
pub enum HorzRelTo {
    Paper,
    Page,
    #[default]
    Column,
    Para,
}

/// Vertical alignment of an object against its reference.
#[derive(Clone, Copy, Debug, PartialEq, Eq, Default)]
pub enum VertAlign {
    #[default]
    Top,
    Center,
    Bottom,
    Inside,
    Outside,
}

/// Horizontal alignment of an object against its reference.
#[derive(Clone, Copy, Debug, PartialEq, Eq, Default)]
pub enum HorzAlign {
    #[default]
    Left,
    Center,
    Right,
    Inside,
    Outside,
}

/// What an object's width or height is relative to.
#[derive(Clone, Copy, Debug, PartialEq, Eq, Default)]
pub enum SizeCriterion {
    Paper,
    Page,
    Column,
    Para,
    #[default]
    Absolute,
}

/// Placement attributes shared by tables and pictures.
#[derive(Clone, Copy, Debug, Default)]
pub struct CommonObjAttr {
    pub ctrl_id: u32,
    pub z_order: i32,
    pub instance_id: u32,
    pub text_wrap: TextWrap,
    pub treat_as_char: bool,
    pub vert_rel_to: VertRelTo,
    pub horz_rel_to: HorzRelTo,
    pub vert_align: VertAlign,
    pub horz_align: HorzAlign,
    pub vertical_offset: u32,
    pub horizontal_offset: u32,
    pub width: u32,
    pub height: u32,
    pub width_criterion: SizeCriterion,
    pub height_criterion: SizeCriterion,
    pub margin: Padding,
}

/// How a table is split across pages.
#[derive(Clone, Copy, Debug, PartialEq, Eq, Default)]
pub enum TablePageBreak {
    #[default]
    NoBreak,
    CellBreak,
    RowBreak,
}

/// Vertical alignment of a cell's content.
#[derive(Clone, Copy, Debug, PartialEq, Eq, Default)]
pub enum VerticalAlign {
    #[default]
    Top,
    Center,
    Bottom,
}

/// A cell-zone: a rectangle of cells with its own border fill.
#[derive(Clone, Copy, Debug, Default)]
pub struct TableZone {
    pub start_col: u16,
    pub start_row: u16,
    pub end_col: u16,
    pub end_row: u16,
    pub border_fill_id: u16,
}

/// A table cell.
#[derive(Debug, Default)]
pub struct Cell {
    pub col: u16,
    pub row: u16,
    pub col_span: u16,
    pub row_span: u16,
    pub width: u32,
    pub height: u32,
    pub padding: Padding,
    pub vertical_align: VerticalAlign,
    pub text_direction: u8,
    pub apply_inner_margin: bool,
    pub is_header: bool,
    pub border_fill_id: u16,
    pub paragraphs: Vec<Paragraph>,
}

impl Cell {
    /// A one-by-one cell at (`col`, `row`) holding one empty paragraph.
    pub fn new_empty(col: u16, row: u16, width: u32, height: u32, border_fill_id: u16) -> (c: Cell)
        ensures
            c.col == col,
            c.row == row,
            c.col_span == 1,
            c.row_span == 1,
            c.width == width,
            c.height == height,
            c.border_fill_id == border_fill_id,
            c.vertical_align == VerticalAlign::Center,
            c.text_direction == 0,
            !c.apply_inner_margin,
            !c.is_header,
            c.padding == (Padding { left: 141, right: 141, top: 141, bottom: 141 }),
            c.paragraphs@.len() == 1,
            c.paragraphs@[0].text@.len() == 0,
            c.paragraphs@[0].char_shapes@.len() == 0,
            c.paragraphs@[0].controls@.len() == 0,
            c.paragraphs@[0].tab_extended@.len() == 0,
            c.paragraphs@[0].para_shape_id == 0,
            c.paragraphs@[0].style_id == 0,
    {
        let mut paragraphs: Vec<Paragraph> = Vec::new();
        paragraphs.push(Paragraph {
            text: String::new(),
            char_shapes: Vec::new(),
            para_shape_id: 0,
            style_id: 0,
            tab_extended: Vec::new(),
            controls: Vec::new(),
        });
        Cell {
            col,
            row,
            col_span: 1,
            row_span: 1,
            width,
            height,
            padding: Padding { left: 141, right: 141, top: 141, bottom: 141 },
            vertical_align: VerticalAlign::Center,
            text_direction: 0,
            apply_inner_margin: false,
            is_header: false,
            border_fill_id,
            paragraphs,
        }
    }
}

/// A table control.
#[derive(Debug, Default)]
pub struct Table {
    pub common: CommonObjAttr,
    pub page_break: TablePageBreak,
    pub repeat_header: bool,
    pub row_count: u16,
    pub col_count: u16,
    pub cell_spacing: i16,
    pub padding: Padding,
    pub outer_margin_left: i16,
    pub outer_margin_right: i16,
    pub outer_margin_top: i16,
    pub outer_margin_bottom: i16,
    pub border_fill_id: u16,
    pub zones: Vec<TableZone>,
    /// Cells in row-major order.
    pub cells: Vec<Cell>,
}

/// Colour effect applied to an image.
#[derive(Clone, Copy, Debug, PartialEq, Eq, Default)]
pub enum ImageEffect {
    #[default]
    RealPic,
    GrayScale,
    BlackWhite,
    Pattern8x8,
}

/// Image reference and adjustments of a picture.
#[derive(Clone, Copy, Debug, Default)]
pub struct ImageAttr {
    pub brightness: i8,
    pub contrast: i8,
    pub effect: ImageEffect,
    pub bin_data_id: u16,
}

/// Image clipping rectangle.
#[derive(Clone, Copy, Debug, Default)]
pub struct CropInfo {
    pub left: i32,
    pub top: i32,
    pub right: i32,
    pub bottom: i32,
}

/// A picture control.
#[derive(Clone, Debug, Default)]
pub struct Picture {
    pub common: CommonObjAttr,
    pub padding: Padding,
    pub crop: CropInfo,
    pub image_attr: ImageAttr,
}

/// Border line kinds of the document model.
#[derive(Clone, Copy, Debug, PartialEq, Eq, Default)]
pub enum BorderLineType {
    #[default]
    NoLine,
    Solid,
    Dash,
    Dot,
    DashDot,
    DashDotDot,
    LongDash,
    Circle,
    Double,
    ThinThickDouble,
    ThickThinDouble,
    ThinThickThinTriple,
    Wave,
    DoubleWave,
    Thick3D,
    Thick3DReverse,
    Thin3D,
    Thin3DReverse,
}

/// Horizontal paragraph alignment.
#[derive(Clone, Copy, Debug, PartialEq, Eq, Default)]
pub enum Alignment {
    #[default]
    Justify,
    Left,
    Right,
    Center,
    Distribute,
    Split,
}

/// How a paragraph's line spacing value is read.
#[derive(Clone, Copy, Debug, PartialEq, Eq, Default)]
pub enum LineSpacingType {
    #[default]
    Percent,
    Fixed,
    SpaceOnly,
    Minimum,
}

} // verus!
