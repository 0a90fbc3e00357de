//! The entity model's plain parts: the references an entity carries, its
//! identity and markers, and the closed sets of values the format's groups
//! name. What holds coordinates and measures lives beside the model's
//! consumers; what is only naming, choosing and referring lives here.
//!
//! The shape follows the DXF reference: each value is the one a group states,
//! and a set of codes is read into the value it names, `None` for a code the
//! format does not define.

use vstd::prelude::*;

pub use crate::confidence::Confidence;

verus! {

/// A value this model reached by following what the source file points with
/// -- a layer name, a block name, a style name.
///
/// A file points either with a handle (DWG, and DXF once it has handles) or
/// with the name itself (a DXF INSERT names its block). Both are references
/// and both take the same three states.
///
/// Three states rather than an `Option`, because two different things used
/// to collapse into one empty string: a field the file points at nothing for
/// at all (normal for some fields), and a reference that nothing in the
/// drawing answers to (always a defect in the file or in the read). The
/// unresolved case keeps what the file wrote -- the handle, or the name: it
/// is the only thing that tells one missing table row (many entities point
/// at the same dead reference) from references broken wholesale (every
/// entity points somewhere different).
#[derive(Debug, Clone, PartialEq, Eq)]
pub enum Ref<T> {
    /// The reference resolved. `T` is what it resolved to (a name, today).
    Resolved(T),
    /// The file points at nothing for this field.
    Absent,
    /// The file carries a reference, but nothing in the drawing answers to
    /// it. The value is what the file wrote: the handle as a hex string; for
    /// a pre-R13 drawing, which points at its tables by index rather than by
    /// handle, the index as `idx:<n>`; and where the file points by name, the
    /// name.
    Unresolved(String),
}

impl<T> Ref<T> {
    /// The resolved value, if there is one.
    pub fn resolved(&self) -> (r: Option<&T>)
        ensures
            self is Resolved <==> r is Some,
            r matches Some(v) ==> *self == Ref::<T>::Resolved(*v),
    {
        match self {
            Ref::Resolved(value) => Some(value),
            Ref::Absent | Ref::Unresolved(_) => None,
        }
    }

    /// `true` for [`Ref::Resolved`].
    pub fn is_resolved(&self) -> (r: bool)
        ensures
            r == self is Resolved,
    {
        matches!(self, Ref::Resolved(_))
    }
}

impl Ref<String> {
    /// The resolved name as a `&str`, or `""` when there is none. For
    /// consumers that only need a lookup key and treat "no name" and "no such
    /// name" alike; anything that must tell them apart matches on the enum.
    pub fn name(&self) -> (r: &str)
        ensures
            self matches Ref::Resolved(n) ==> r@ == n@,
            !(self is Resolved) ==> r@ == Seq::<char>::empty(),
    {
        match self {
            Ref::Resolved(value) => value.as_str(),
            Ref::Absent | Ref::Unresolved(_) => {
                proof {
                    reveal_strlit("");
                }
                ""
            },
        }
    }
}

impl<'a> Ref<&'a String> {
    /// [`Ref::name`] for a reference that borrows its name: the resolved
    /// name, or `""` when there is none, borrowed for as long as the name is.
    pub fn name(&self) -> (r: &'a str)
        ensures
            self matches Ref::Resolved(n) ==> r@ == n@,
            !(self is Resolved) ==> r@ == Seq::<char>::empty(),
    {
        match self {
            Ref::Resolved(value) => value.as_str(),
            Ref::Absent | Ref::Unresolved(_) => {
                proof {
                    reveal_strlit("");
                }
                ""
            },
        }
    }
}

/// What a document written before a reference field existed reads as: no
/// reference at all.
pub fn absent<T>() -> (r: Ref<T>)
    ensures
        r == Ref::<T>::Absent,
{
    Ref::Absent
}

/// The name by which an entity is pointed at: one scheme, shared by every
/// consumer. Minted by whoever puts the entity into the model -- a parser, a
/// recognizer, an editor -- at the moment it is put there, never by a reader.
/// Unique within a model, opaque to consumers, and the same for the same
/// inputs. A file handle is not a reference ID.
#[derive(Debug, Clone, Copy, PartialEq, Eq, Structural, PartialOrd, Ord)]
pub struct EntityId(u64);

impl View for EntityId {
    type V = u64;

    closed spec fn view(&self) -> u64 {
        self.0
    }
}

impl EntityId {
    /// Mints an ID. Only a producer of entities calls this; a consumer
    /// carries IDs it received and never invents one.
    pub fn new(value: u64) -> (id: Self)
        ensures
            id@ == value,
    {
        EntityId(value)
    }

    /// The ID's value, for producers that derive IDs from one another or
    /// keep them in a table. It carries no meaning for a consumer.
    pub fn value(self) -> (v: u64)
        ensures
            v == self@,
    {
        self.0
    }
}

/// Two IDs are the same ID exactly when they carry the same value: minting
/// gives back the value it was given, and a value names one ID.
pub proof fn entity_ids_are_their_values(a: EntityId, b: EntityId)
    ensures
        a@ == b@ <==> a == b,
{
    if a@ == b@ {
        assert(a.0 == b.0);
    }
}

/// Where an entity came from. A closed set: a fourth kind is a discussion,
/// not an addition. Consumers do not branch on it -- they act on
/// [`Confidence`] alone.
#[derive(Debug, Clone, Copy, PartialEq, Eq, Structural)]
pub enum Origin {
    /// Read from a vector source (a DWG/DXF parser).
    Vector,
    /// Recognized from a raster source (an image of a drawing).
    Raster,
    /// Produced by an operation on the model (an editor).
    Derived,
}

/// Which linetype an entity is drawn with (DXF 6): its layer's, its block
/// reference's, or one it names from the drawing's LTYPE table (which the
/// model does not carry), as a reference like an entity's layer.
#[derive(Debug, Clone, PartialEq, Eq)]
pub enum EntityLinetype {
    ByLayer,
    ByBlock,
    Named(Ref<String>),
}

impl Default for EntityLinetype {
    /// The format writes the group only when it is not BYLAYER, so an absent
    /// one is [`EntityLinetype::ByLayer`].
    fn default() -> (r: Self)
        ensures
            r == EntityLinetype::ByLayer,
    {
        EntityLinetype::ByLayer
    }
}

/// How transparent an entity is drawn, read from the value the file stores
/// (DXF 440): as its layer says, as its block reference says, or by its own
/// alpha -- 0 fully transparent, 255 opaque.
#[derive(Debug, Clone, Copy, PartialEq, Eq, Structural)]
pub enum Transparency {
    ByLayer,
    ByBlock,
    Alpha(u8),
}

impl Transparency {
    /// The transparency a stored value states: its high byte says how to
    /// read it (0 BYLAYER, 1 BYBLOCK, 2 by the alpha in the low byte). `None`
    /// for a method the format does not define.
    pub fn from_code(code: u32) -> (t: Option<Transparency>)
        ensures
            code / 0x0100_0000 == 0 ==> t == Some(Transparency::ByLayer),
            code / 0x0100_0000 == 1 ==> t == Some(Transparency::ByBlock),
            code / 0x0100_0000 == 2 ==> t == Some(Transparency::Alpha((code % 256) as u8)),
            code / 0x0100_0000 > 2 ==> t is None,
    {
        let method = code >> 24;
        let alpha = code & 0xFF;
        assert(method == code / 0x0100_0000 && alpha == code % 256) by (bit_vector)
            requires
                method == code >> 24,
                alpha == code & 0xFF,
        ;
        match method {
            0 => Some(Transparency::ByLayer),
            1 => Some(Transparency::ByBlock),
            2 => Some(Transparency::Alpha(alpha as u8)),
            _ => None,
        }
    }
}

/// How a TEXT, ATTRIB or ATTDEF is justified along its baseline (DXF 72,
/// 0 to 5 in this order). The format's own default is [`Self::Left`].
#[derive(Debug, Clone, Copy, PartialEq, Eq, Structural)]
pub enum HorizontalJustification {
    /// The text starts at its start point.
    Left,
    /// Centred on its alignment point.
    Center,
    /// Ends at its alignment point.
    Right,
    /// Fills the baseline from its start point to its alignment point, its
    /// height scaled with its width.
    Aligned,
    /// Centred on its alignment point, horizontally and vertically.
    Middle,
    /// Fills the baseline from its start point to its alignment point at
    /// its own height, only its width scaled.
    Fit,
}

impl Default for HorizontalJustification {
    /// The format's own default for an absent group: left.
    fn default() -> (r: Self)
        ensures
            r == HorizontalJustification::Left,
    {
        HorizontalJustification::Left
    }
}

/// Which line of a TEXT, ATTRIB or ATTDEF sits on its alignment point (DXF
/// 73 on TEXT, 74 on ATTRIB and ATTDEF; 0 to 3 in this order). The
/// format's own default is [`Self::Baseline`].
#[derive(Debug, Clone, Copy, PartialEq, Eq, Structural)]
pub enum VerticalJustification {
    /// The baseline.
    Baseline,
    /// The bottom of the descenders.
    Bottom,
    /// The middle of the text.
    Middle,
    /// The top of the text.
    Top,
}

impl Default for VerticalJustification {
    /// The format's own default for an absent group: the baseline.
    fn default() -> (r: Self)
        ensures
            r == VerticalJustification::Baseline,
    {
        VerticalJustification::Baseline
    }
}

/// The flags of an ATTRIB or ATTDEF (DXF 70), one per bit, named as the
/// reference names them.
#[derive(Debug, Clone, Copy, PartialEq, Eq, Structural)]
pub struct AttributeFlags {
    /// Bit 1: the attribute is invisible -- the drawing holds its value but
    /// does not show it. Not the same flag as the one any entity can carry
    /// (DXF 60).
    pub invisible: bool,
    /// Bit 2: the attribute is constant -- its value is the definition's,
    /// the same in every block reference, and no ATTRIB carries it.
    pub constant: bool,
    /// Bit 4: the value is verified when it is entered.
    pub verify: bool,
    /// Bit 8: the value is preset -- entered without a prompt.
    pub preset: bool,
}

impl Default for AttributeFlags {
    /// No flag set: what a file that leaves the group out states.
    fn default() -> (r: Self)
        ensures
            !r.invisible && !r.constant && !r.verify && !r.preset,
    {
        AttributeFlags { invisible: false, constant: false, verify: false, preset: false }
    }
}

/// The four edge flags of a 3DFACE's DXF group 70, bit `i` for edge `i`:
/// edge `i` runs from corner `i + 1` to the next, the fourth back to the
/// first, and a set bit marks it invisible.
pub fn invisible_edges_from_bits(bits: u32) -> (edges: [bool; 4])
    ensures
        edges@ == seq![bits % 2 == 1, (bits / 2) % 2 == 1, (bits / 4) % 2 == 1, (bits / 8) % 2 == 1],
{
    let e0 = bits & 1 != 0;
    let e1 = bits & 2 != 0;
    let e2 = bits & 4 != 0;
    let e3 = bits & 8 != 0;
    assert(e0 == (bits % 2 == 1) && e1 == ((bits / 2) % 2 == 1) && e2 == ((bits / 4) % 2 == 1)
        && e3 == ((bits / 8) % 2 == 1)) by (bit_vector)
        requires
            e0 == (bits & 1 != 0),
            e1 == (bits & 2 != 0),
            e2 == (bits & 4 != 0),
            e3 == (bits & 8 != 0),
    ;
    let edges = [e0, e1, e2, e3];
    assert(edges@ == seq![e0, e1, e2, e3]);
    edges
}

/// How a LEADER's line runs between its vertices (DXF 72).
#[derive(Debug, Clone, Copy, PartialEq, Eq, Structural)]
pub enum LeaderPath {
    /// 0: straight segments.
    Straight,
    /// 1: a spline through the vertices.
    Spline,
}

/// What a LEADER points at (DXF 73). The format's own default is
/// [`Self::Nothing`], so a file that omits the group is a leader with no
/// annotation rather than an unknown one.
#[derive(Debug, Clone, Copy, PartialEq, Eq, Structural)]
pub enum LeaderAnnotation {
    /// 0: an MTEXT.
    MText,
    /// 1: a TOLERANCE frame.
    Tolerance,
    /// 2: a block reference.
    Insert,
    /// 3: nothing.
    Nothing,
}

impl Default for LeaderAnnotation {
    /// The format's own default for an absent group: nothing.
    fn default() -> (r: Self)
        ensures
            r == LeaderAnnotation::Nothing,
    {
        LeaderAnnotation::Nothing
    }
}

/// Which point of an MTEXT block its insertion point is (DXF 71, 1 to 9 in
/// this order).
#[derive(Debug, Clone, Copy, PartialEq, Eq, Structural)]
pub enum MTextAttachment {
    TopLeft,
    TopCenter,
    TopRight,
    MiddleLeft,
    MiddleCenter,
    MiddleRight,
    BottomLeft,
    BottomCenter,
    BottomRight,
}

/// Which areas a HATCH fills among nested boundary paths (DXF 75).
#[derive(Debug, Clone, Copy, PartialEq, Eq, Structural)]
pub enum HatchStyle {
    /// 0: alternate areas from the outside in -- an island is left empty,
    /// an island within it filled again.
    Normal,
    /// 1: only the outermost area; everything inside the first island is
    /// left empty.
    Outer,
    /// 2: the whole outermost area, islands ignored.
    Ignore,
}

impl HatchStyle {
    /// The style DXF group 75 names, `None` for a value outside the three.
    pub fn from_code(code: i64) -> (s: Option<HatchStyle>)
        ensures
            code == 0 ==> s == Some(HatchStyle::Normal),
            code == 1 ==> s == Some(HatchStyle::Outer),
            code == 2 ==> s == Some(HatchStyle::Ignore),
            !(0 <= code <= 2) ==> s is None,
    {
        match code {
            0 => Some(HatchStyle::Normal),
            1 => Some(HatchStyle::Outer),
            2 => Some(HatchStyle::Ignore),
            _ => None,
        }
    }
}

/// What a dimension measures, as the file states it (DXF 70, low three
/// bits). A file that does not state it leaves the dimension's kind `None`
/// -- the format defines no default, so there is nothing to fall back to and
/// nothing to guess.
#[derive(Debug, Clone, Copy, PartialEq, Eq, Structural)]
pub enum DimensionKind {
    /// 0: a linear dimension, measured along its rotation.
    Rotated,
    /// 1: aligned with the two extension line origins.
    Aligned,
    /// 2: the angle between two lines.
    Angular2Line,
    /// 3: a diameter.
    Diameter,
    /// 4: a radius.
    Radius,
    /// 5: the angle through three points.
    Angular3Point,
    /// 6: an ordinate (a single coordinate from the origin).
    Ordinate,
    /// The length along an arc. The format gives this one its own entity
    /// (`ARC_DIMENSION`) rather than a value of group 70 -- that group says
    /// 5 on such a dimension, which would read as a three-point angular one.
    /// The entity's name is what decides it.
    ArcLength,
}

/// The dimension's text, as the file states it (DXF 1).
///
/// The format spells "just show what you measured" three ways -- the group
/// absent, an empty string, or the literal `<>` -- and readers of different
/// files see different ones of the three. They are one meaning, so this type
/// folds them into one value: a consumer comparing two drawings must not see
/// a difference that is only a spelling.
#[derive(Debug, Clone, PartialEq, Eq)]
pub enum TextOverride {
    /// Show the measurement. The file wrote nothing, `""`, or `<>`.
    Measured,
    /// Show no text at all. The file wrote a single space.
    Suppressed,
    /// Show this instead. It may itself contain `<>`, standing for the
    /// measurement inside a longer string (`"<> H7"`); substituting it is a
    /// consumer's job, not this model's.
    Literal(String),
}

/// Which coordinate an ordinate dimension measures (DXF 70, bit 64).
#[derive(Debug, Clone, Copy, PartialEq, Eq, Structural)]
pub enum OrdinateAxis {
    /// The bit is set: the feature's x distance from the datum.
    X,
    /// The bit is clear: the feature's y distance from the datum.
    Y,
}

/// What kind of light a LIGHT entity is (DXF 70).
#[derive(Debug, Clone, Copy, PartialEq, Eq, Structural)]
pub enum LightType {
    /// 1: parallel rays from a direction.
    Distant,
    /// 2: radiates in every direction from its position.
    Point,
    /// 3: a cone from its position towards its target.
    Spot,
}

/// Which kind of entity an entity is: one per shape the model has, each
/// the DXF type it reads, and [`EntityKind::Unknown`] for a type the model
/// has no shape for -- such an entity keeps the DXF type name the file used
/// itself, so consumers can still count and report by type and nothing is
/// silently dropped. RAY and XLINE, SOLID and TRACE, REGION and the
/// polyface and polygon meshes, and LWPOLYLINE and POLYLINE_2D share a shape
/// but stay distinct kinds, so a kind still reports the real DXF name.
#[derive(Debug, Clone, Copy, PartialEq, Eq, Structural)]
pub enum EntityKind {
    Line,
    Circle,
    Text,
    LwPolyline,
    Arc,
    Ellipse,
    Point,
    Solid,
    Trace,
    Ray,
    XLine,
    Insert,
    Attrib,
    Attdef,
    Viewport,
    Face3D,
    Spline,
    MText,
    Polyline3D,
    Dimension,
    Hatch,
    Solid3D,
    Leader,
    MultiLeader,
    MLine,
    Region,
    PolylinePFace,
    PolylineMesh,
    Polyline2D,
    Tolerance,
    AcadTable,
    Wipeout,
    Light,
    Image,
    Unknown,
}

/// The DXF type name a kind the model has a shape for reports (none for
/// [`EntityKind::Unknown`], whose name is the entity's own).
pub open spec fn kind_name(kind: EntityKind) -> Seq<char> {
    match kind {
        EntityKind::Line => "LINE"@,
        EntityKind::Circle => "CIRCLE"@,
        EntityKind::Text => "TEXT"@,
        EntityKind::LwPolyline => "LWPOLYLINE"@,
        EntityKind::Arc => "ARC"@,
        EntityKind::Ellipse => "ELLIPSE"@,
        EntityKind::Point => "POINT"@,
        EntityKind::Solid => "SOLID"@,
        EntityKind::Trace => "TRACE"@,
        EntityKind::Ray => "RAY"@,
        EntityKind::XLine => "XLINE"@,
        EntityKind::Insert => "INSERT"@,
        EntityKind::Attrib => "ATTRIB"@,
        EntityKind::Attdef => "ATTDEF"@,
        EntityKind::Viewport => "VIEWPORT"@,
        EntityKind::Face3D => "3DFACE"@,
        EntityKind::Spline => "SPLINE"@,
        EntityKind::MText => "MTEXT"@,
        EntityKind::Polyline3D => "POLYLINE_3D"@,
        EntityKind::Dimension => "DIMENSION"@,
        EntityKind::Hatch => "HATCH"@,
        EntityKind::Solid3D => "3DSOLID"@,
        EntityKind::Leader => "LEADER"@,
        EntityKind::MultiLeader => "MULTILEADER"@,
        EntityKind::MLine => "MLINE"@,
        EntityKind::Region => "REGION"@,
        EntityKind::PolylinePFace => "POLYLINE_PFACE"@,
        EntityKind::PolylineMesh => "POLYLINE_MESH"@,
        EntityKind::Polyline2D => "POLYLINE_2D"@,
        EntityKind::Tolerance => "TOLERANCE"@,
        EntityKind::AcadTable => "ACAD_TABLE"@,
        EntityKind::Wipeout => "WIPEOUT"@,
        EntityKind::Light => "LIGHT"@,
        EntityKind::Image => "IMAGE"@,
        EntityKind::Unknown => Seq::<char>::empty(),
    }
}

impl EntityKind {
    /// The DXF/entity type name, e.g. `"LINE"`; `None` for an unknown kind,
    /// whose entity carries the name the file used.
    pub fn dxf_type(self) -> (name: Option<&'static str>)
        ensures
            self is Unknown <==> name is None,
            name matches Some(n) ==> n@ == kind_name(self),
    {
        let name = match self {
            EntityKind::Line => Some("LINE"),
            EntityKind::Circle => Some("CIRCLE"),
            EntityKind::Text => Some("TEXT"),
            EntityKind::LwPolyline => Some("LWPOLYLINE"),
            EntityKind::Arc => Some("ARC"),
            EntityKind::Ellipse => Some("ELLIPSE"),
            EntityKind::Point => Some("POINT"),
            EntityKind::Solid => Some("SOLID"),
            EntityKind::Trace => Some("TRACE"),
            EntityKind::Ray => Some("RAY"),
            EntityKind::XLine => Some("XLINE"),
            EntityKind::Insert => Some("INSERT"),
            EntityKind::Attrib => Some("ATTRIB"),
            EntityKind::Attdef => Some("ATTDEF"),
            EntityKind::Viewport => Some("VIEWPORT"),
            EntityKind::Face3D => Some("3DFACE"),
            EntityKind::Spline => Some("SPLINE"),
            EntityKind::MText => Some("MTEXT"),
            EntityKind::Polyline3D => Some("POLYLINE_3D"),
            EntityKind::Dimension => Some("DIMENSION"),
            EntityKind::Hatch => Some("HATCH"),
            EntityKind::Solid3D => Some("3DSOLID"),
            EntityKind::Leader => Some("LEADER"),
            EntityKind::MultiLeader => Some("MULTILEADER"),
            EntityKind::MLine => Some("MLINE"),
            EntityKind::Region => Some("REGION"),
            EntityKind::PolylinePFace => Some("POLYLINE_PFACE"),
            EntityKind::PolylineMesh => Some("POLYLINE_MESH"),
            EntityKind::Polyline2D => Some("POLYLINE_2D"),
            EntityKind::Tolerance => Some("TOLERANCE"),
            EntityKind::AcadTable => Some("ACAD_TABLE"),
            EntityKind::Wipeout => Some("WIPEOUT"),
            EntityKind::Light => Some("LIGHT"),
            EntityKind::Image => Some("IMAGE"),
            EntityKind::Unknown => None,
        };
        name
    }
}

/// Every kind the model has a shape for reports its own DXF type name: two
/// such kinds with the same name are the same kind, so a consumer can
/// dispatch on the name alone.
pub proof fn dxf_types_tell_kinds_apart(a: EntityKind, b: EntityKind)
    requires
        !(a is Unknown),
        !(b is Unknown),
        kind_name(a) == kind_name(b),
    ensures
        a == b,
{
    lemma_kind_name_fixes_kind(b);
    lemma_kind_name_fixes_kind(a);
}

/// The name of a kind the model has a shape for tells which kind it is.
proof fn lemma_kind_name_fixes_kind(k: EntityKind)
    requires
        !(k is Unknown),
    ensures
        kind_name(k) == seq!['L', 'I', 'N', 'E'] <==> k == EntityKind::Line,
        kind_name(k) == seq!['C', 'I', 'R', 'C', 'L', 'E'] <==> k == EntityKind::Circle,
        kind_name(k) == seq!['T', 'E', 'X', 'T'] <==> k == EntityKind::Text,
        kind_name(k) == seq!['L', 'W', 'P', 'O', 'L', 'Y', 'L', 'I', 'N', 'E'] <==> k == EntityKind::LwPolyline,
        kind_name(k) == seq!['A', 'R', 'C'] <==> k == EntityKind::Arc,
        kind_name(k) == seq!['E', 'L', 'L', 'I', 'P', 'S', 'E'] <==> k == EntityKind::Ellipse,
        kind_name(k) == seq!['P', 'O', 'I', 'N', 'T'] <==> k == EntityKind::Point,
        kind_name(k) == seq!['S', 'O', 'L', 'I', 'D'] <==> k == EntityKind::Solid,
        kind_name(k) == seq!['T', 'R', 'A', 'C', 'E'] <==> k == EntityKind::Trace,
        kind_name(k) == seq!['R', 'A', 'Y'] <==> k == EntityKind::Ray,
        kind_name(k) == seq!['X', 'L', 'I', 'N', 'E'] <==> k == EntityKind::XLine,
        kind_name(k) == seq!['I', 'N', 'S', 'E', 'R', 'T'] <==> k == EntityKind::Insert,
        kind_name(k) == seq!['A', 'T', 'T', 'R', 'I', 'B'] <==> k == EntityKind::Attrib,
        kind_name(k) == seq!['A', 'T', 'T', 'D', 'E', 'F'] <==> k == EntityKind::Attdef,
        kind_name(k) == seq!['V', 'I', 'E', 'W', 'P', 'O', 'R', 'T'] <==> k == EntityKind::Viewport,
        kind_name(k) == seq!['3', 'D', 'F', 'A', 'C', 'E'] <==> k == EntityKind::Face3D,
        kind_name(k) == seq!['S', 'P', 'L', 'I', 'N', 'E'] <==> k == EntityKind::Spline,
        kind_name(k) == seq!['M', 'T', 'E', 'X', 'T'] <==> k == EntityKind::MText,
        kind_name(k) == seq!['P', 'O', 'L', 'Y', 'L', 'I', 'N', 'E', '_', '3', 'D'] <==> k == EntityKind::Polyline3D,
        kind_name(k) == seq!['D', 'I', 'M', 'E', 'N', 'S', 'I', 'O', 'N'] <==> k == EntityKind::Dimension,
        kind_name(k) == seq!['H', 'A', 'T', 'C', 'H'] <==> k == EntityKind::Hatch,
        kind_name(k) == seq!['3', 'D', 'S', 'O', 'L', 'I', 'D'] <==> k == EntityKind::Solid3D,
        kind_name(k) == seq!['L', 'E', 'A', 'D', 'E', 'R'] <==> k == EntityKind::Leader,
        kind_name(k) == seq!['M', 'U', 'L', 'T', 'I', 'L', 'E', 'A', 'D', 'E', 'R'] <==> k == EntityKind::MultiLeader,
        kind_name(k) == seq!['M', 'L', 'I', 'N', 'E'] <==> k == EntityKind::MLine,
        kind_name(k) == seq!['R', 'E', 'G', 'I', 'O', 'N'] <==> k == EntityKind::Region,
        kind_name(k) == seq!['P', 'O', 'L', 'Y', 'L', 'I', 'N', 'E', '_', 'P', 'F', 'A', 'C', 'E'] <==> k == EntityKind::PolylinePFace,
        kind_name(k) == seq!['P', 'O', 'L', 'Y', 'L', 'I', 'N', 'E', '_', 'M', 'E', 'S', 'H'] <==> k == EntityKind::PolylineMesh,
        kind_name(k) == seq!['P', 'O', 'L', 'Y', 'L', 'I', 'N', 'E', '_', '2', 'D'] <==> k == EntityKind::Polyline2D,
        kind_name(k) == seq!['T', 'O', 'L', 'E', 'R', 'A', 'N', 'C', 'E'] <==> k == EntityKind::Tolerance,
        kind_name(k) == seq!['A', 'C', 'A', 'D', '_', 'T', 'A', 'B', 'L', 'E'] <==> k == EntityKind::AcadTable,
        kind_name(k) == seq!['W', 'I', 'P', 'E', 'O', 'U', 'T'] <==> k == EntityKind::Wipeout,
        kind_name(k) == seq!['L', 'I', 'G', 'H', 'T'] <==> k == EntityKind::Light,
        kind_name(k) == seq!['I', 'M', 'A', 'G', 'E'] <==> k == EntityKind::Image,
{
    match k {
        EntityKind::Line => {
            reveal_strlit("LINE");
            assert(kind_name(k) == seq!['L', 'I', 'N', 'E']);
        },
        EntityKind::Circle => {
            reveal_strlit("CIRCLE");
            assert(kind_name(k) == seq!['C', 'I', 'R', 'C', 'L', 'E']);
        },
        EntityKind::Text => {
            reveal_strlit("TEXT");
            assert(kind_name(k) == seq!['T', 'E', 'X', 'T']);
        },
        EntityKind::LwPolyline => {
            reveal_strlit("LWPOLYLINE");
            assert(kind_name(k) == seq!['L', 'W', 'P', 'O', 'L', 'Y', 'L', 'I', 'N', 'E']);
        },
        EntityKind::Arc => {
            reveal_strlit("ARC");
            assert(kind_name(k) == seq!['A', 'R', 'C']);
        },
        EntityKind::Ellipse => {
            reveal_strlit("ELLIPSE");
            assert(kind_name(k) == seq!['E', 'L', 'L', 'I', 'P', 'S', 'E']);
        },
        EntityKind::Point => {
            reveal_strlit("POINT");
            assert(kind_name(k) == seq!['P', 'O', 'I', 'N', 'T']);
        },
        EntityKind::Solid => {
            reveal_strlit("SOLID");
            assert(kind_name(k) == seq!['S', 'O', 'L', 'I', 'D']);
        },
        EntityKind::Trace => {
            reveal_strlit("TRACE");
            assert(kind_name(k) == seq!['T', 'R', 'A', 'C', 'E']);
        },
        EntityKind::Ray => {
            reveal_strlit("RAY");
            assert(kind_name(k) == seq!['R', 'A', 'Y']);
        },
        EntityKind::XLine => {
            reveal_strlit("XLINE");
            assert(kind_name(k) == seq!['X', 'L', 'I', 'N', 'E']);
        },
        EntityKind::Insert => {
            reveal_strlit("INSERT");
            assert(kind_name(k) == seq!['I', 'N', 'S', 'E', 'R', 'T']);
        },
        EntityKind::Attrib => {
            reveal_strlit("ATTRIB");
            assert(kind_name(k) == seq!['A', 'T', 'T', 'R', 'I', 'B']);
        },
        EntityKind::Attdef => {
            reveal_strlit("ATTDEF");
            assert(kind_name(k) == seq!['A', 'T', 'T', 'D', 'E', 'F']);
        },
        EntityKind::Viewport => {
            reveal_strlit("VIEWPORT");
            assert(kind_name(k) == seq!['V', 'I', 'E', 'W', 'P', 'O', 'R', 'T']);
        },
        EntityKind::Face3D => {
            reveal_strlit("3DFACE");
            assert(kind_name(k) == seq!['3', 'D', 'F', 'A', 'C', 'E']);
        },
        EntityKind::Spline => {
            reveal_strlit("SPLINE");
            assert(kind_name(k) == seq!['S', 'P', 'L', 'I', 'N', 'E']);
        },
        EntityKind::MText => {
            reveal_strlit("MTEXT");
            assert(kind_name(k) == seq!['M', 'T', 'E', 'X', 'T']);
        },
        EntityKind::Polyline3D => {
            reveal_strlit("POLYLINE_3D");
            assert(kind_name(k) == seq!['P', 'O', 'L', 'Y', 'L', 'I', 'N', 'E', '_', '3', 'D']);
        },
        EntityKind::Dimension => {
            reveal_strlit("DIMENSION");
            assert(kind_name(k) == seq!['D', 'I', 'M', 'E', 'N', 'S', 'I', 'O', 'N']);
        },
        EntityKind::Hatch => {
            reveal_strlit("HATCH");
            assert(kind_name(k) == seq!['H', 'A', 'T', 'C', 'H']);
        },
        EntityKind::Solid3D => {
            reveal_strlit("3DSOLID");
            assert(kind_name(k) == seq!['3', 'D', 'S', 'O', 'L', 'I', 'D']);
        },
        EntityKind::Leader => {
            reveal_strlit("LEADER");
            assert(kind_name(k) == seq!['L', 'E', 'A', 'D', 'E', 'R']);
        },
        EntityKind::MultiLeader => {
            reveal_strlit("MULTILEADER");
            assert(kind_name(k) == seq!['M', 'U', 'L', 'T', 'I', 'L', 'E', 'A', 'D', 'E', 'R']);
        },
        EntityKind::MLine => {
            reveal_strlit("MLINE");
            assert(kind_name(k) == seq!['M', 'L', 'I', 'N', 'E']);
        },
        EntityKind::Region => {
            reveal_strlit("REGION");
            assert(kind_name(k) == seq!['R', 'E', 'G', 'I', 'O', 'N']);
        },
        EntityKind::PolylinePFace => {
            reveal_strlit("POLYLINE_PFACE");
            assert(kind_name(k) == seq!['P', 'O', 'L', 'Y', 'L', 'I', 'N', 'E', '_', 'P', 'F', 'A', 'C', 'E']);
        },
        EntityKind::PolylineMesh => {
            reveal_strlit("POLYLINE_MESH");
            assert(kind_name(k) == seq!['P', 'O', 'L', 'Y', 'L', 'I', 'N', 'E', '_', 'M', 'E', 'S', 'H']);
        },
        EntityKind::Polyline2D => {
            reveal_strlit("POLYLINE_2D");
            assert(kind_name(k) == seq!['P', 'O', 'L', 'Y', 'L', 'I', 'N', 'E', '_', '2', 'D']);
        },
        EntityKind::Tolerance => {
            reveal_strlit("TOLERANCE");
            assert(kind_name(k) == seq!['T', 'O', 'L', 'E', 'R', 'A', 'N', 'C', 'E']);
        },
        EntityKind::AcadTable => {
            reveal_strlit("ACAD_TABLE");
            assert(kind_name(k) == seq!['A', 'C', 'A', 'D', '_', 'T', 'A', 'B', 'L', 'E']);
        },
        EntityKind::Wipeout => {
            reveal_strlit("WIPEOUT");
            assert(kind_name(k) == seq!['W', 'I', 'P', 'E', 'O', 'U', 'T']);
        },
        EntityKind::Light => {
            reveal_strlit("LIGHT");
            assert(kind_name(k) == seq!['L', 'I', 'G', 'H', 'T']);
        },
        EntityKind::Image => {
            reveal_strlit("IMAGE");
            assert(kind_name(k) == seq!['I', 'M', 'A', 'G', 'E']);
        },
        EntityKind::Unknown => {},
    }
}

} // verus!
