//! The table entries an entity resolves its references against, and the
//! closed sets of values the DIMSTYLE and LAYOUT objects name.

use crate::model::Ref;
use vstd::prelude::*;

verus! {

/// One LAYER table entry (DXF `LAYER`).
#[derive(Debug, Clone, PartialEq)]
pub struct LayerRecord {
    /// Layer name (DXF 2).
    pub name: String,
    /// The layer's own AutoCAD Color Index (DXF 62), with the same raw
    /// semantics as an entity's: negative means "off" (how a DXF says so --
    /// see [`Self::off`]), otherwise a palette index. It is never 0 or 256 in
    /// a well-formed table (BYBLOCK/BYLAYER are entity-level values a layer
    /// cannot resolve against itself); a parser that meets such a value
    /// recovers or reports it before it reaches here.
    pub color_index: i16,
    /// Whether the layer is switched off: its entities stay in the drawing
    /// and are not shown. A DXF says so with a negative `color_index`; the
    /// binary format has a flag of its own and keeps the colour positive,
    /// so this field, not the sign, is what says it for every file.
    pub off: bool,
    /// DXF 70, bit 1: the layer is frozen -- its entities are not shown and
    /// not regenerated.
    pub frozen: bool,
    /// DXF 70, bit 4: the layer is locked -- its entities are shown but
    /// cannot be edited.
    pub locked: bool,
    /// DXF 290: whether the layer is plotted. `None` when the file does not
    /// state it -- R13 and R14 have no such flag -- or when the reader
    /// cannot tell a stated "do not plot" from an absent group.
    pub plot: Option<bool>,
    /// DXF 370: the layer's lineweight in hundredths of a millimetre, or
    /// -3 for the application's default weight (the format's other codes,
    /// -1 and -2, are entity values a layer cannot take). `None` when the
    /// file does not state one, or when the reader cannot tell a stated 0
    /// from an absent group.
    pub lineweight: Option<i16>,
    /// DXF 6: the layer's linetype, an entry of the drawing's LTYPE table
    /// (which the model does not carry), as a reference like an entity's
    /// layer.
    pub linetype: Ref<String>,
}

/// How a dimension style writes a linear measurement (`DIMLUNIT`, DXF 277,
/// 1 to 6 in this order).
#[derive(Debug, Clone, Copy, PartialEq, Eq, Structural)]
pub enum LinearUnitFormat {
    /// `1.55E+01`.
    Scientific,
    /// `15.50`.
    Decimal,
    /// Feet and decimal inches: `1'-3.50"`.
    Engineering,
    /// Feet and fractional inches: `1'-3 1/2"`.
    Architectural,
    /// `15 1/2`.
    Fractional,
    /// The operating system's own decimal format.
    WindowsDesktop,
}

/// How a dimension style writes an angle (`DIMAUNIT`, DXF 275, 0 to 4 in
/// this order).
#[derive(Debug, Clone, Copy, PartialEq, Eq, Structural)]
pub enum AngularUnitFormat {
    /// `45.5` degrees.
    DecimalDegrees,
    /// `45d30'0"`.
    DegreesMinutesSeconds,
    /// `50.5556g`.
    Gradians,
    /// `0.7941r`.
    Radians,
    /// A bearing: `N 44d30' E`.
    SurveyorsUnits,
}

/// How a dimension style writes a fraction (`DIMFRAC`, DXF 276, 0 to 2 in
/// this order).
#[derive(Debug, Clone, Copy, PartialEq, Eq, Structural)]
pub enum FractionFormat {
    /// Numerator over denominator, with a horizontal bar.
    Horizontal,
    /// Numerator over denominator, with a diagonal bar.
    Diagonal,
    /// On one line: `1/2`.
    NotStacked,
}

/// The unit a layout is drawn in on paper (DXF 72, 0 to 2 in this order).
#[derive(Debug, Clone, Copy, PartialEq, Eq, Structural)]
pub enum PlotPaperUnits {
    /// 0: inches.
    Inches,
    /// 1: millimetres.
    Millimeters,
    /// 2: pixels, for a raster device.
    Pixels,
}

/// How a layout is turned on its paper (DXF 73, 0 to 3 in this order).
#[derive(Debug, Clone, Copy, PartialEq, Eq, Structural)]
pub enum PlotRotation {
    /// 0: not turned.
    Unrotated,
    /// 1: a quarter turn counter-clockwise.
    Counterclockwise90,
    /// 2: upside down.
    UpsideDown,
    /// 3: a quarter turn clockwise.
    Clockwise90,
}

} // verus!
