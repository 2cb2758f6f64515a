//! Export of the editor's data to a version 2 beatmap. The map's own value
//! table is set over the shared one, then every note, bomb, obstacle and arc
//! has its fields resolved; an element whose field fails contributes its first
//! error and nothing else, and the other elements go on. Chains, template
//! placements and wall texts have no version 2 form and are left out. The
//! export succeeds exactly when no element failed.
use vstd::prelude::*;
use crate::beatmap_data::{
    GagaSideV2, HydraulicsTypeV2, LightEventTypeV2, LightEventValueV2, RingLightEventTypeV2, SpinningLaserSideV2,
};
use crate::map_values::{
    chased_within, cut_direction_field, error_view, lookup, merged, missing, number_field, result_view,
    value_type_name, wrong_type, BaseValue, CutDirection, CutDirectionValue, ExportError, F32Value, NumberValue,
    ResolveError, ResolveErrorView, Value, ValueTable,
};

verus! {

/// The saber colour of a note.
#[derive(Copy, Clone, Debug, PartialEq, Eq, Structural)]
pub enum Color {
    Red,
    Blue,
}

/// A note-colour field: a colour, or a reference to the code of one.
#[derive(Debug)]
pub enum NoteTypeValue {
    Reference(String),
    Color(Color),
}

/// How an arc bends at its middle.
#[derive(Copy, Clone, Debug, PartialEq, Eq, Structural)]
pub enum ArcMidAnchorMode {
    Straight,
    Clockwise,
    CounterClockwise,
}

/// The fields of a note that the export reads.
#[derive(Debug)]
pub struct NoteData {
    pub beat: F32Value,
    pub cut_direction: CutDirectionValue,
    pub x: F32Value,
    pub y: F32Value,
    pub note_type: NoteTypeValue,
}

/// The fields of a bomb that the export reads.
#[derive(Debug)]
pub struct BombData {
    pub beat: F32Value,
    pub x: F32Value,
    pub y: F32Value,
}

/// The fields of an obstacle that the export reads.
#[derive(Debug)]
pub struct ObstacleData {
    pub beat: F32Value,
    pub x: F32Value,
    pub y: F32Value,
    pub duration: F32Value,
    pub width: F32Value,
    pub height: F32Value,
}

/// The fields of an arc that the export reads.
#[derive(Debug)]
pub struct ArcData {
    pub beat: F32Value,
    pub cut_direction: CutDirectionValue,
    pub x: F32Value,
    pub y: F32Value,
    pub head_ctrl_magnitude: F32Value,
    pub tail_beat: F32Value,
    pub tx: F32Value,
    pub ty: F32Value,
    pub tail_cut_direction: CutDirectionValue,
    pub tail_ctrl_magnitude: F32Value,
    pub mid_anchor_mode: ArcMidAnchorMode,
    pub note_type: NoteTypeValue,
}

/// An element of the editor's data. Chains, template placements and wall
/// texts carry nothing the version 2 export reads.
#[derive(Debug)]
pub enum DataElement {
    Note(NoteData),
    Bomb(BombData),
    Obstacle(ObstacleData),
    Chain,
    Arc(ArcData),
    Template,
    ObstacleText,
}

/// The data of one beatmap: its elements and its own named values.
#[derive(Debug)]
pub struct EditingData {
    pub elements: Vec<DataElement>,
    pub values: ValueTable,
}

/// An exported note.
#[derive(Copy, Clone, Debug, PartialEq, Eq, Structural)]
pub struct ColorNoteV2 {
    pub time: NumberValue,
    pub line_index: NumberValue,
    pub line_layer: NumberValue,
    pub typ: Color,
    pub cut_direction: CutDirection,
}

/// An exported bomb; the format gives it the cut direction up.
#[derive(Copy, Clone, Debug, PartialEq, Eq, Structural)]
pub struct BombNoteV2 {
    pub beat: NumberValue,
    pub line_index: NumberValue,
    pub line_layer: NumberValue,
    pub cut_direction: CutDirection,
}

/// A version 2 note entry: a note or a bomb.
#[derive(Copy, Clone, Debug, PartialEq, Eq, Structural)]
pub enum V2Note {
    Note(ColorNoteV2),
    Bomb(BombNoteV2),
}

/// The kind of a version 2 obstacle: a full-height wall, a crouch wall, or a
/// free-form one whose size is given.
#[derive(Copy, Clone, Debug, PartialEq, Eq, Structural)]
pub enum ObstacleV2Type {
    Full,
    Crouch,
    Free,
}

/// An exported obstacle; the export writes free-form obstacles.
#[derive(Copy, Clone, Debug, PartialEq, Eq, Structural)]
pub struct ObstacleV2 {
    pub typ: ObstacleV2Type,
    pub beat: NumberValue,
    pub duration: NumberValue,
    pub line_index: NumberValue,
    pub line_layer: NumberValue,
    pub width: NumberValue,
    pub height: NumberValue,
}

/// An exported arc.
#[derive(Copy, Clone, Debug, PartialEq, Eq, Structural)]
pub struct ArcV2 {
    pub color: Color,
    pub head_beat: NumberValue,
    pub head_line_index: NumberValue,
    pub head_line_layer: NumberValue,
    pub head_cut_direction: CutDirection,
    pub head_ctrl_magnitude: NumberValue,
    pub tail_beat: NumberValue,
    pub tail_line_index: NumberValue,
    pub tail_line_layer: NumberValue,
    pub tail_cut_direction: CutDirection,
    pub tail_ctrl_magnitude: NumberValue,
    pub mid_anchor_mode: ArcMidAnchorMode,
}

/// The format version a version 2 export writes.
#[allow(non_camel_case_types)]
#[derive(Copy, Clone, Debug, PartialEq, Eq, Structural)]
pub enum MapVersion {
    V2_6_0,
}

/// A version 2 light event; beats are `f32` bit patterns.
#[derive(Copy, Clone, Debug, PartialEq, Eq, Structural)]
pub struct LightEventV2 {
    pub beat: u32,
    pub typ: LightEventTypeV2,
    pub value: LightEventValueV2,
}

/// A version 2 ring event.
#[derive(Copy, Clone, Debug, PartialEq, Eq, Structural)]
pub struct RingLightEventV2 {
    pub beat: u32,
    pub typ: RingLightEventTypeV2,
    pub value: u32,
}

/// A version 2 rotating-laser speed event.
#[derive(Copy, Clone, Debug, PartialEq, Eq, Structural)]
pub struct SpinningLaserEventV2 {
    pub beat: u32,
    pub typ: SpinningLaserSideV2,
    pub value: u32,
}

/// A version 2 hydraulics event.
#[derive(Copy, Clone, Debug, PartialEq, Eq, Structural)]
pub struct HydraulicsEventV2 {
    pub beat: u32,
    pub typ: HydraulicsTypeV2,
    pub value: u32,
}

/// A version 2 event of the Gaga environment.
#[derive(Copy, Clone, Debug, PartialEq, Eq, Structural)]
pub struct GagaEventV2 {
    pub beat: u32,
    pub typ: GagaSideV2,
    pub value: u32,
}

/// A version 2 colour-boost event.
#[derive(Copy, Clone, Debug, PartialEq, Eq, Structural)]
pub struct ColorBoostV2 {
    pub beat: u32,
    pub value: u32,
}

/// A version 2 event entry.
#[derive(Copy, Clone, Debug, PartialEq, Eq, Structural)]
pub enum V2Event {
    Light(LightEventV2),
    ColorBoost(ColorBoostV2),
    Ring(RingLightEventV2),
    RotatingLights(SpinningLaserEventV2),
    Hydraulics(HydraulicsEventV2),
    Gaga(GagaEventV2),
}

/// A version 2 beatmap as the export writes it: its version, the exported
/// objects in element order, and its events (the export writes none).
#[derive(Debug)]
pub struct BeatmapFileV2 {
    pub version: MapVersion,
    pub notes: Vec<V2Note>,
    pub obstacles: Vec<ObstacleV2>,
    pub arcs: Vec<ArcV2>,
    pub events: Vec<V2Event>,
}

/// What one element exports to.
#[derive(Copy, Clone, Debug, PartialEq, Eq, Structural)]
pub enum Exported {
    Nothing,
    Note(V2Note),
    Obstacle(ObstacleV2),
    Arc(ArcV2),
}

/// The colour a stored code stands for: 0 is red, 1 is blue. This reading of
/// a referenced colour is this library's own rule: a note-colour field that
/// refers to a named value takes that value as a whole-number code.
pub open spec fn color_of_code(i: i32) -> Option<Color> {
    if i == 0 {
        Some(Color::Red)
    } else if i == 1 {
        Some(Color::Blue)
    } else {
        None
    }
}

/// What a note-colour field resolves to: the colour it holds, or the colour
/// whose code (by [`color_of_code`], this library's own rule) the entry its
/// reference names resolves to; a code that names no colour is an error.
pub open spec fn note_type_field(t: Seq<(String, Value)>, n: NoteTypeValue) -> Result<Color, ResolveErrorView> {
    match n {
        NoteTypeValue::Color(c) => Ok(c),
        NoteTypeValue::Reference(r) => match lookup(t, r@) {
            None => Err(ResolveErrorView::MissingValue(r@)),
            Some(v) => match chased_within(t, v) {
                Err(e) => Err(e),
                Ok(Value::BaseValue(BaseValue::I32(i))) => match color_of_code(i) {
                    Some(c) => Ok(c),
                    None => Err(ResolveErrorView::OutOfRange(i)),
                },
                Ok(w) => Err(ResolveErrorView::WrongType(value_type_name(w))),
            },
        },
    }
}

impl NoteTypeValue {
    /// Resolves the field to a colour: the one it holds, or the one whose
    /// code its reference resolves to.
    pub fn resolve_within(&self, values: &ValueTable) -> (r: Result<Color, ResolveError>)
        ensures
            result_view(r) == note_type_field(values.entries@, *self),
    {
        match self {
            NoteTypeValue::Color(c) => Ok(*c),
            NoteTypeValue::Reference(n) => match values.get(n) {
                None => missing(n),
                Some(v) => match v.chase_within(values) {
                    Err(e) => Err(e),
                    Ok(w) => match w {
                        Value::BaseValue(BaseValue::I32(i)) => {
                            if *i == 0 {
                                Ok(Color::Red)
                            } else if *i == 1 {
                                Ok(Color::Blue)
                            } else {
                                Err(ResolveError::OutOfRange(*i))
                            }
                        },
                        _ => wrong_type(w),
                    },
                },
            },
        }
    }
}

/// The note a note element exports to, or the error of its first field that
/// fails, the fields taken as beat, x, y, colour, cut direction.
pub open spec fn note_out(t: Seq<(String, Value)>, n: NoteData) -> Result<ColorNoteV2, ResolveErrorView> {
    let time = number_field(t, n.beat);
    let x = number_field(t, n.x);
    let y = number_field(t, n.y);
    let c = note_type_field(t, n.note_type);
    let d = cut_direction_field(t, n.cut_direction);
    if time is Err {
        Err(time->Err_0)
    } else if x is Err {
        Err(x->Err_0)
    } else if y is Err {
        Err(y->Err_0)
    } else if c is Err {
        Err(c->Err_0)
    } else if d is Err {
        Err(d->Err_0)
    } else {
        Ok(ColorNoteV2 { time: time->Ok_0, line_index: x->Ok_0, line_layer: y->Ok_0, typ: c->Ok_0, cut_direction: d->Ok_0 })
    }
}

/// The bomb a bomb element exports to, or the error of its first field that
/// fails, the fields taken as beat, x, y.
pub open spec fn bomb_out(t: Seq<(String, Value)>, b: BombData) -> Result<BombNoteV2, ResolveErrorView> {
    let beat = number_field(t, b.beat);
    let x = number_field(t, b.x);
    let y = number_field(t, b.y);
    if beat is Err {
        Err(beat->Err_0)
    } else if x is Err {
        Err(x->Err_0)
    } else if y is Err {
        Err(y->Err_0)
    } else {
        Ok(BombNoteV2 { beat: beat->Ok_0, line_index: x->Ok_0, line_layer: y->Ok_0, cut_direction: CutDirection::Up })
    }
}

/// The obstacle an obstacle element exports to, or the error of its first
/// field that fails, the fields taken as beat, duration, x, y, width, height.
pub open spec fn obstacle_out(t: Seq<(String, Value)>, o: ObstacleData) -> Result<ObstacleV2, ResolveErrorView> {
    let beat = number_field(t, o.beat);
    let duration = number_field(t, o.duration);
    let x = number_field(t, o.x);
    let y = number_field(t, o.y);
    let w = number_field(t, o.width);
    let h = number_field(t, o.height);
    if beat is Err {
        Err(beat->Err_0)
    } else if duration is Err {
        Err(duration->Err_0)
    } else if x is Err {
        Err(x->Err_0)
    } else if y is Err {
        Err(y->Err_0)
    } else if w is Err {
        Err(w->Err_0)
    } else if h is Err {
        Err(h->Err_0)
    } else {
        Ok(ObstacleV2 {
            typ: ObstacleV2Type::Free,
            beat: beat->Ok_0,
            duration: duration->Ok_0,
            line_index: x->Ok_0,
            line_layer: y->Ok_0,
            width: w->Ok_0,
            height: h->Ok_0,
        })
    }
}

/// The arc an arc element exports to, or the error of its first field that
/// fails, the fields taken as colour, head beat, x, y, cut direction and
/// control magnitude, then tail beat, x, y, cut direction and control magnitude.
pub open spec fn arc_out(t: Seq<(String, Value)>, a: ArcData) -> Result<ArcV2, ResolveErrorView> {
    let c = note_type_field(t, a.note_type);
    let hb = number_field(t, a.beat);
    let hx = number_field(t, a.x);
    let hy = number_field(t, a.y);
    let hd = cut_direction_field(t, a.cut_direction);
    let hm = number_field(t, a.head_ctrl_magnitude);
    let tb = number_field(t, a.tail_beat);
    let tx = number_field(t, a.tx);
    let ty = number_field(t, a.ty);
    let td = cut_direction_field(t, a.tail_cut_direction);
    let tm = number_field(t, a.tail_ctrl_magnitude);
    if c is Err {
        Err(c->Err_0)
    } else if hb is Err {
        Err(hb->Err_0)
    } else if hx is Err {
        Err(hx->Err_0)
    } else if hy is Err {
        Err(hy->Err_0)
    } else if hd is Err {
        Err(hd->Err_0)
    } else if hm is Err {
        Err(hm->Err_0)
    } else if tb is Err {
        Err(tb->Err_0)
    } else if tx is Err {
        Err(tx->Err_0)
    } else if ty is Err {
        Err(ty->Err_0)
    } else if td is Err {
        Err(td->Err_0)
    } else if tm is Err {
        Err(tm->Err_0)
    } else {
        Ok(ArcV2 {
            color: c->Ok_0,
            head_beat: hb->Ok_0,
            head_line_index: hx->Ok_0,
            head_line_layer: hy->Ok_0,
            head_cut_direction: hd->Ok_0,
            head_ctrl_magnitude: hm->Ok_0,
            tail_beat: tb->Ok_0,
            tail_line_index: tx->Ok_0,
            tail_line_layer: ty->Ok_0,
            tail_cut_direction: td->Ok_0,
            tail_ctrl_magnitude: tm->Ok_0,
            mid_anchor_mode: a.mid_anchor_mode,
        })
    }
}

/// What one element exports to, or why it cannot be.
pub open spec fn element_out(t: Seq<(String, Value)>, e: DataElement) -> Result<Exported, ResolveErrorView> {
    match e {
        DataElement::Note(n) => match note_out(t, n) {
            Ok(c) => Ok(Exported::Note(V2Note::Note(c))),
            Err(x) => Err(x),
        },
        DataElement::Bomb(b) => match bomb_out(t, b) {
            Ok(c) => Ok(Exported::Note(V2Note::Bomb(c))),
            Err(x) => Err(x),
        },
        DataElement::Obstacle(o) => match obstacle_out(t, o) {
            Ok(c) => Ok(Exported::Obstacle(c)),
            Err(x) => Err(x),
        },
        DataElement::Arc(a) => match arc_out(t, a) {
            Ok(c) => Ok(Exported::Arc(c)),
            Err(x) => Err(x),
        },
        _ => Ok(Exported::Nothing),
    }
}

/// The notes and bombs of the elements that export, in order.
pub open spec fn exported_notes(t: Seq<(String, Value)>, es: Seq<DataElement>) -> Seq<V2Note>
    decreases es.len(),
{
    if es.len() == 0 {
        Seq::empty()
    } else {
        let r = exported_notes(t, es.drop_last());
        match element_out(t, es.last()) {
            Ok(Exported::Note(n)) => r.push(n),
            _ => r,
        }
    }
}

/// The obstacles of the elements that export, in order.
pub open spec fn exported_obstacles(t: Seq<(String, Value)>, es: Seq<DataElement>) -> Seq<ObstacleV2>
    decreases es.len(),
{
    if es.len() == 0 {
        Seq::empty()
    } else {
        let r = exported_obstacles(t, es.drop_last());
        match element_out(t, es.last()) {
            Ok(Exported::Obstacle(o)) => r.push(o),
            _ => r,
        }
    }
}

/// The arcs of the elements that export, in order.
pub open spec fn exported_arcs(t: Seq<(String, Value)>, es: Seq<DataElement>) -> Seq<ArcV2>
    decreases es.len(),
{
    if es.len() == 0 {
        Seq::empty()
    } else {
        let r = exported_arcs(t, es.drop_last());
        match element_out(t, es.last()) {
            Ok(Exported::Arc(a)) => r.push(a),
            _ => r,
        }
    }
}

/// One error for each element that fails, in element order.
pub open spec fn export_errors(t: Seq<(String, Value)>, es: Seq<DataElement>) -> Seq<ResolveErrorView>
    decreases es.len(),
{
    if es.len() == 0 {
        Seq::empty()
    } else {
        let r = export_errors(t, es.drop_last());
        match element_out(t, es.last()) {
            Err(x) => r.push(x),
            Ok(_) => r,
        }
    }
}

pub open spec fn export_error_view(e: ExportError) -> ResolveErrorView {
    match e {
        ExportError::ResolveError(x) => error_view(x),
    }
}

fn export_note(n: &NoteData, values: &ValueTable) -> (r: Result<ColorNoteV2, ResolveError>)
    ensures
        result_view(r) == note_out(values.entries@, *n),
{
    let time = match n.beat.resolve_within(values) { Ok(v) => v, Err(e) => return Err(e) };
    let x = match n.x.resolve_within(values) { Ok(v) => v, Err(e) => return Err(e) };
    let y = match n.y.resolve_within(values) { Ok(v) => v, Err(e) => return Err(e) };
    let c = match n.note_type.resolve_within(values) { Ok(v) => v, Err(e) => return Err(e) };
    let d = match n.cut_direction.resolve_within(values) { Ok(v) => v, Err(e) => return Err(e) };
    Ok(ColorNoteV2 { time, line_index: x, line_layer: y, typ: c, cut_direction: d })
}

fn export_bomb(b: &BombData, values: &ValueTable) -> (r: Result<BombNoteV2, ResolveError>)
    ensures
        result_view(r) == bomb_out(values.entries@, *b),
{
    let beat = match b.beat.resolve_within(values) { Ok(v) => v, Err(e) => return Err(e) };
    let x = match b.x.resolve_within(values) { Ok(v) => v, Err(e) => return Err(e) };
    let y = match b.y.resolve_within(values) { Ok(v) => v, Err(e) => return Err(e) };
    Ok(BombNoteV2 { beat, line_index: x, line_layer: y, cut_direction: CutDirection::Up })
}

fn export_obstacle(o: &ObstacleData, values: &ValueTable) -> (r: Result<ObstacleV2, ResolveError>)
    ensures
        result_view(r) == obstacle_out(values.entries@, *o),
{
    let beat = match o.beat.resolve_within(values) { Ok(v) => v, Err(e) => return Err(e) };
    let duration = match o.duration.resolve_within(values) { Ok(v) => v, Err(e) => return Err(e) };
    let x = match o.x.resolve_within(values) { Ok(v) => v, Err(e) => return Err(e) };
    let y = match o.y.resolve_within(values) { Ok(v) => v, Err(e) => return Err(e) };
    let width = match o.width.resolve_within(values) { Ok(v) => v, Err(e) => return Err(e) };
    let height = match o.height.resolve_within(values) { Ok(v) => v, Err(e) => return Err(e) };
    Ok(ObstacleV2 { typ: ObstacleV2Type::Free, beat, duration, line_index: x, line_layer: y, width, height })
}

fn export_arc(a: &ArcData, values: &ValueTable) -> (r: Result<ArcV2, ResolveError>)
    ensures
        result_view(r) == arc_out(values.entries@, *a),
{
    let color = match a.note_type.resolve_within(values) { Ok(v) => v, Err(e) => return Err(e) };
    let head_beat = match a.beat.resolve_within(values) { Ok(v) => v, Err(e) => return Err(e) };
    let head_line_index = match a.x.resolve_within(values) { Ok(v) => v, Err(e) => return Err(e) };
    let head_line_layer = match a.y.resolve_within(values) { Ok(v) => v, Err(e) => return Err(e) };
    let head_cut_direction = match a.cut_direction.resolve_within(values) { Ok(v) => v, Err(e) => return Err(e) };
    let head_ctrl_magnitude = match a.head_ctrl_magnitude.resolve_within(values) { Ok(v) => v, Err(e) => return Err(e) };
    let tail_beat = match a.tail_beat.resolve_within(values) { Ok(v) => v, Err(e) => return Err(e) };
    let tail_line_index = match a.tx.resolve_within(values) { Ok(v) => v, Err(e) => return Err(e) };
    let tail_line_layer = match a.ty.resolve_within(values) { Ok(v) => v, Err(e) => return Err(e) };
    let tail_cut_direction = match a.tail_cut_direction.resolve_within(values) { Ok(v) => v, Err(e) => return Err(e) };
    let tail_ctrl_magnitude = match a.tail_ctrl_magnitude.resolve_within(values) { Ok(v) => v, Err(e) => return Err(e) };
    Ok(ArcV2 {
        color,
        head_beat,
        head_line_index,
        head_line_layer,
        head_cut_direction,
        head_ctrl_magnitude,
        tail_beat,
        tail_line_index,
        tail_line_layer,
        tail_cut_direction,
        tail_ctrl_magnitude,
        mid_anchor_mode: a.mid_anchor_mode,
    })
}

/// Exports one element against the merged value table. Each field of the
/// exported object is what the element's own field of that meaning resolves
/// to; an element exports exactly when all its fields resolve, and otherwise
/// fails with the error of one of them.
pub fn export_element(e: &DataElement, values: &ValueTable) -> (r: Result<Exported, ResolveError>)
    ensures
        result_view(r) == element_out(values.entries@, *e),
        e matches DataElement::Note(n) ==> {
            let t = values.entries@;
            &&& (r matches Ok(Exported::Note(V2Note::Note(x))) || r is Err)
            &&& (r matches Ok(Exported::Note(V2Note::Note(x))) ==> {
                &&& number_field(t, n.beat) == Ok::<NumberValue, ResolveErrorView>(x.time)
                &&& number_field(t, n.x) == Ok::<NumberValue, ResolveErrorView>(x.line_index)
                &&& number_field(t, n.y) == Ok::<NumberValue, ResolveErrorView>(x.line_layer)
                &&& note_type_field(t, n.note_type) == Ok::<Color, ResolveErrorView>(x.typ)
                &&& cut_direction_field(t, n.cut_direction) == Ok::<CutDirection, ResolveErrorView>(x.cut_direction)
            })
            &&& (number_field(t, n.beat) is Ok && number_field(t, n.x) is Ok && number_field(t, n.y) is Ok
                && note_type_field(t, n.note_type) is Ok && cut_direction_field(t, n.cut_direction) is Ok ==> r is Ok)
            &&& (r matches Err(x) ==> {
                ||| number_field(t, n.beat) == Err::<NumberValue, ResolveErrorView>(error_view(x))
                ||| number_field(t, n.x) == Err::<NumberValue, ResolveErrorView>(error_view(x))
                ||| number_field(t, n.y) == Err::<NumberValue, ResolveErrorView>(error_view(x))
                ||| note_type_field(t, n.note_type) == Err::<Color, ResolveErrorView>(error_view(x))
                ||| cut_direction_field(t, n.cut_direction) == Err::<CutDirection, ResolveErrorView>(error_view(x))
            })
        },
        e matches DataElement::Bomb(b) ==> {
            let t = values.entries@;
            &&& (r matches Ok(Exported::Note(V2Note::Bomb(x))) || r is Err)
            &&& (r matches Ok(Exported::Note(V2Note::Bomb(x))) ==> {
                &&& number_field(t, b.beat) == Ok::<NumberValue, ResolveErrorView>(x.beat)
                &&& number_field(t, b.x) == Ok::<NumberValue, ResolveErrorView>(x.line_index)
                &&& number_field(t, b.y) == Ok::<NumberValue, ResolveErrorView>(x.line_layer)
                &&& x.cut_direction == CutDirection::Up
            })
            &&& (number_field(t, b.beat) is Ok && number_field(t, b.x) is Ok && number_field(t, b.y) is Ok ==> r is Ok)
            &&& (r matches Err(x) ==> {
                ||| number_field(t, b.beat) == Err::<NumberValue, ResolveErrorView>(error_view(x))
                ||| number_field(t, b.x) == Err::<NumberValue, ResolveErrorView>(error_view(x))
                ||| number_field(t, b.y) == Err::<NumberValue, ResolveErrorView>(error_view(x))
            })
        },
        e matches DataElement::Obstacle(o) ==> {
            let t = values.entries@;
            &&& (r matches Ok(Exported::Obstacle(x)) || r is Err)
            &&& (r matches Ok(Exported::Obstacle(x)) ==> {
                &&& x.typ == ObstacleV2Type::Free
                &&& number_field(t, o.beat) == Ok::<NumberValue, ResolveErrorView>(x.beat)
                &&& number_field(t, o.duration) == Ok::<NumberValue, ResolveErrorView>(x.duration)
                &&& number_field(t, o.x) == Ok::<NumberValue, ResolveErrorView>(x.line_index)
                &&& number_field(t, o.y) == Ok::<NumberValue, ResolveErrorView>(x.line_layer)
                &&& number_field(t, o.width) == Ok::<NumberValue, ResolveErrorView>(x.width)
                &&& number_field(t, o.height) == Ok::<NumberValue, ResolveErrorView>(x.height)
            })
            &&& (number_field(t, o.beat) is Ok && number_field(t, o.duration) is Ok && number_field(t, o.x) is Ok
                && number_field(t, o.y) is Ok && number_field(t, o.width) is Ok && number_field(t, o.height) is Ok
                ==> r is Ok)
            &&& (r matches Err(x) ==> {
                ||| number_field(t, o.beat) == Err::<NumberValue, ResolveErrorView>(error_view(x))
                ||| number_field(t, o.duration) == Err::<NumberValue, ResolveErrorView>(error_view(x))
                ||| number_field(t, o.x) == Err::<NumberValue, ResolveErrorView>(error_view(x))
                ||| number_field(t, o.y) == Err::<NumberValue, ResolveErrorView>(error_view(x))
                ||| number_field(t, o.width) == Err::<NumberValue, ResolveErrorView>(error_view(x))
                ||| number_field(t, o.height) == Err::<NumberValue, ResolveErrorView>(error_view(x))
            })
        },
        e matches DataElement::Arc(a) ==> {
            let t = values.entries@;
            &&& (r matches Ok(Exported::Arc(x)) || r is Err)
            &&& (r matches Ok(Exported::Arc(x)) ==> {
                &&& note_type_field(t, a.note_type) == Ok::<Color, ResolveErrorView>(x.color)
                &&& number_field(t, a.beat) == Ok::<NumberValue, ResolveErrorView>(x.head_beat)
                &&& number_field(t, a.x) == Ok::<NumberValue, ResolveErrorView>(x.head_line_index)
                &&& number_field(t, a.y) == Ok::<NumberValue, ResolveErrorView>(x.head_line_layer)
                &&& cut_direction_field(t, a.cut_direction) == Ok::<CutDirection, ResolveErrorView>(x.head_cut_direction)
                &&& number_field(t, a.head_ctrl_magnitude) == Ok::<NumberValue, ResolveErrorView>(x.head_ctrl_magnitude)
                &&& number_field(t, a.tail_beat) == Ok::<NumberValue, ResolveErrorView>(x.tail_beat)
                &&& number_field(t, a.tx) == Ok::<NumberValue, ResolveErrorView>(x.tail_line_index)
                &&& number_field(t, a.ty) == Ok::<NumberValue, ResolveErrorView>(x.tail_line_layer)
                &&& cut_direction_field(t, a.tail_cut_direction) == Ok::<CutDirection, ResolveErrorView>(x.tail_cut_direction)
                &&& number_field(t, a.tail_ctrl_magnitude) == Ok::<NumberValue, ResolveErrorView>(x.tail_ctrl_magnitude)
                &&& x.mid_anchor_mode == a.mid_anchor_mode
            })
            &&& (note_type_field(t, a.note_type) is Ok && number_field(t, a.beat) is Ok && number_field(t, a.x) is Ok
                && number_field(t, a.y) is Ok && cut_direction_field(t, a.cut_direction) is Ok
                && number_field(t, a.head_ctrl_magnitude) is Ok && number_field(t, a.tail_beat) is Ok
                && number_field(t, a.tx) is Ok && number_field(t, a.ty) is Ok
                && cut_direction_field(t, a.tail_cut_direction) is Ok && number_field(t, a.tail_ctrl_magnitude) is Ok
                ==> r is Ok)
        },
        (e is Chain || e is Template || e is ObstacleText) ==> r matches Ok(Exported::Nothing),
{
    match e {
        DataElement::Note(n) => match export_note(n, values) {
            Ok(c) => Ok(Exported::Note(V2Note::Note(c))),
            Err(x) => Err(x),
        },
        DataElement::Bomb(b) => match export_bomb(b, values) {
            Ok(c) => Ok(Exported::Note(V2Note::Bomb(c))),
            Err(x) => Err(x),
        },
        DataElement::Obstacle(o) => match export_obstacle(o, values) {
            Ok(c) => Ok(Exported::Obstacle(c)),
            Err(x) => Err(x),
        },
        DataElement::Arc(a) => match export_arc(a, values) {
            Ok(c) => Ok(Exported::Arc(c)),
            Err(x) => Err(x),
        },
        _ => Ok(Exported::Nothing),
    }
}

/// Every note or bomb an element exports is in the exported notes, and every
/// exported note or bomb comes from an element that exports it.
#[verifier::spinoff_prover]
#[verifier::rlimit(40)]
proof fn lemma_exported_notes_members(t: Seq<(String, Value)>, es: Seq<DataElement>)
    ensures
        forall|i: int| 0 <= i < es.len() ==> (#[trigger] element_out(t, es[i]) matches Ok(Exported::Note(n))
            ==> exported_notes(t, es).contains(n)),
        forall|k: int| 0 <= k < exported_notes(t, es).len() ==> exists|i: int| 0 <= i < es.len()
            && element_out(t, es[i]) == Ok::<Exported, ResolveErrorView>(Exported::Note(#[trigger] exported_notes(t, es)[k])),
    decreases es.len(),
{
    if es.len() > 0 {
        let pre = es.drop_last();
        lemma_exported_notes_members(t, pre);
        let last = es.len() - 1;
        assert(es[last] == es.last());
        let r = exported_notes(t, pre);
        let all = exported_notes(t, es);
        assert(forall|q: int| 0 <= q < r.len() ==> all[q] == r[q]);
        assert forall|i: int| 0 <= i < es.len() implies (#[trigger] element_out(t, es[i]) matches Ok(Exported::Note(n))
            ==> all.contains(n)) by {
            if i < last {
                assert(es[i] == pre[i]);
                if let Ok(Exported::Note(n)) = element_out(t, es[i]) {
                    let q = choose|q: int| 0 <= q < r.len() && r[q] == n;
                    assert(all[q] == n);
                }
            } else if let Ok(Exported::Note(n)) = element_out(t, es[i]) {
                assert(all[r.len() as int] == n);
            }
        }
        assert forall|k: int| 0 <= k < all.len() implies exists|i: int| 0 <= i < es.len()
            && element_out(t, es[i]) == Ok::<Exported, ResolveErrorView>(Exported::Note(#[trigger] all[k])) by {
            if k < r.len() {
                let i = choose|i: int| 0 <= i < pre.len()
                    && element_out(t, pre[i]) == Ok::<Exported, ResolveErrorView>(Exported::Note(r[k]));
                assert(es[i] == pre[i]);
            } else {
                assert(element_out(t, es[last]) == Ok::<Exported, ResolveErrorView>(Exported::Note(all[k])));
            }
        }
    }
}

/// Every obstacle an element exports is in the exported obstacles, and every
/// exported obstacle comes from an element that exports it.
#[verifier::spinoff_prover]
#[verifier::rlimit(40)]
proof fn lemma_exported_obstacles_members(t: Seq<(String, Value)>, es: Seq<DataElement>)
    ensures
        forall|i: int| 0 <= i < es.len() ==> (#[trigger] element_out(t, es[i]) matches Ok(Exported::Obstacle(n))
            ==> exported_obstacles(t, es).contains(n)),
        forall|k: int| 0 <= k < exported_obstacles(t, es).len() ==> exists|i: int| 0 <= i < es.len()
            && element_out(t, es[i]) == Ok::<Exported, ResolveErrorView>(Exported::Obstacle(#[trigger] exported_obstacles(t, es)[k])),
    decreases es.len(),
{
    if es.len() > 0 {
        let pre = es.drop_last();
        lemma_exported_obstacles_members(t, pre);
        let last = es.len() - 1;
        assert(es[last] == es.last());
        let r = exported_obstacles(t, pre);
        let all = exported_obstacles(t, es);
        assert(forall|q: int| 0 <= q < r.len() ==> all[q] == r[q]);
        assert forall|i: int| 0 <= i < es.len() implies (#[trigger] element_out(t, es[i]) matches Ok(Exported::Obstacle(n))
            ==> all.contains(n)) by {
            if i < last {
                assert(es[i] == pre[i]);
                if let Ok(Exported::Obstacle(n)) = element_out(t, es[i]) {
                    let q = choose|q: int| 0 <= q < r.len() && r[q] == n;
                    assert(all[q] == n);
                }
            } else if let Ok(Exported::Obstacle(n)) = element_out(t, es[i]) {
                assert(all[r.len() as int] == n);
            }
        }
        assert forall|k: int| 0 <= k < all.len() implies exists|i: int| 0 <= i < es.len()
            && element_out(t, es[i]) == Ok::<Exported, ResolveErrorView>(Exported::Obstacle(#[trigger] all[k])) by {
            if k < r.len() {
                let i = choose|i: int| 0 <= i < pre.len()
                    && element_out(t, pre[i]) == Ok::<Exported, ResolveErrorView>(Exported::Obstacle(r[k]));
                assert(es[i] == pre[i]);
            } else {
                assert(element_out(t, es[last]) == Ok::<Exported, ResolveErrorView>(Exported::Obstacle(all[k])));
            }
        }
    }
}

/// Every arc an element exports is in the exported arcs, and every
/// exported arc comes from an element that exports it.
#[verifier::spinoff_prover]
#[verifier::rlimit(40)]
proof fn lemma_exported_arcs_members(t: Seq<(String, Value)>, es: Seq<DataElement>)
    ensures
        forall|i: int| 0 <= i < es.len() ==> (#[trigger] element_out(t, es[i]) matches Ok(Exported::Arc(n))
            ==> exported_arcs(t, es).contains(n)),
        forall|k: int| 0 <= k < exported_arcs(t, es).len() ==> exists|i: int| 0 <= i < es.len()
            && element_out(t, es[i]) == Ok::<Exported, ResolveErrorView>(Exported::Arc(#[trigger] exported_arcs(t, es)[k])),
    decreases es.len(),
{
    if es.len() > 0 {
        let pre = es.drop_last();
        lemma_exported_arcs_members(t, pre);
        let last = es.len() - 1;
        assert(es[last] == es.last());
        let r = exported_arcs(t, pre);
        let all = exported_arcs(t, es);
        assert(forall|q: int| 0 <= q < r.len() ==> all[q] == r[q]);
        assert forall|i: int| 0 <= i < es.len() implies (#[trigger] element_out(t, es[i]) matches Ok(Exported::Arc(n))
            ==> all.contains(n)) by {
            if i < last {
                assert(es[i] == pre[i]);
                if let Ok(Exported::Arc(n)) = element_out(t, es[i]) {
                    let q = choose|q: int| 0 <= q < r.len() && r[q] == n;
                    assert(all[q] == n);
                }
            } else if let Ok(Exported::Arc(n)) = element_out(t, es[i]) {
                assert(all[r.len() as int] == n);
            }
        }
        assert forall|k: int| 0 <= k < all.len() implies exists|i: int| 0 <= i < es.len()
            && element_out(t, es[i]) == Ok::<Exported, ResolveErrorView>(Exported::Arc(#[trigger] all[k])) by {
            if k < r.len() {
                let i = choose|i: int| 0 <= i < pre.len()
                    && element_out(t, pre[i]) == Ok::<Exported, ResolveErrorView>(Exported::Arc(r[k]));
                assert(es[i] == pre[i]);
            } else {
                assert(element_out(t, es[last]) == Ok::<Exported, ResolveErrorView>(Exported::Arc(all[k])));
            }
        }
    }
}

/// No element fails exactly when every element exports.
pub proof fn lemma_no_errors_iff_all_export(t: Seq<(String, Value)>, es: Seq<DataElement>)
    ensures
        export_errors(t, es).len() == 0 <==> forall|i: int| 0 <= i < es.len() ==> #[trigger] element_out(t, es[i]) is Ok,
    decreases es.len(),
{
    if es.len() > 0 {
        lemma_no_errors_iff_all_export(t, es.drop_last());
        if forall|i: int| 0 <= i < es.len() ==> #[trigger] element_out(t, es[i]) is Ok {
            assert forall|i: int| 0 <= i < es.drop_last().len() implies #[trigger] element_out(t, es.drop_last()[i]) is Ok by {
                assert(es.drop_last()[i] == es[i]);
            }
            assert(element_out(t, es[es.len() - 1]) is Ok);
        }
        if export_errors(t, es).len() == 0 {
            assert forall|i: int| 0 <= i < es.len() implies #[trigger] element_out(t, es[i]) is Ok by {
                if i < es.len() - 1 {
                    assert(es.drop_last()[i] == es[i]);
                }
            }
        }
    }
}

/// Exports the editor's data as a version 2 beatmap. The map's own values
/// are set over `values`, then each element is exported against the merged
/// table: the exported notes, obstacles and arcs come in element order, and
/// when any element fails the result is the list of errors, one for each
/// failing element, in order.
pub fn export_v2(data: &EditingData, values: ValueTable) -> (r: Result<BeatmapFileV2, Vec<ExportError>>)
    ensures
        ({
            let m = merged(values.entries@, data.values.entries@);
            let es = data.elements@;
            &&& (r is Ok <==> forall|i: int| 0 <= i < es.len() ==> #[trigger] element_out(m, es[i]) is Ok)
            &&& (r is Ok <==> export_errors(m, es).len() == 0)
            &&& (r matches Ok(b) ==> b.notes@ == exported_notes(m, es) && b.obstacles@ == exported_obstacles(m, es)
                && b.arcs@ == exported_arcs(m, es) && b.version == MapVersion::V2_6_0 && b.events@.len() == 0)
            &&& (r matches Err(v) ==> v@.map_values(|e: ExportError| export_error_view(e)) == export_errors(m, es))
        }),
        r matches Ok(b) ==> {
            let m = merged(values.entries@, data.values.entries@);
            let es = data.elements@;
            &&& forall|i: int| 0 <= i < es.len() ==> (#[trigger] element_out(m, es[i]) matches Ok(Exported::Note(n))
                ==> b.notes@.contains(n))
            &&& forall|i: int| 0 <= i < es.len() ==> (#[trigger] element_out(m, es[i]) matches Ok(Exported::Obstacle(o))
                ==> b.obstacles@.contains(o))
            &&& forall|i: int| 0 <= i < es.len() ==> (#[trigger] element_out(m, es[i]) matches Ok(Exported::Arc(a))
                ==> b.arcs@.contains(a))
            &&& forall|k: int| 0 <= k < b.notes@.len() ==> exists|i: int| 0 <= i < es.len()
                && element_out(m, es[i]) == Ok::<Exported, ResolveErrorView>(Exported::Note(#[trigger] b.notes@[k]))
            &&& forall|k: int| 0 <= k < b.obstacles@.len() ==> exists|i: int| 0 <= i < es.len()
                && element_out(m, es[i]) == Ok::<Exported, ResolveErrorView>(Exported::Obstacle(#[trigger] b.obstacles@[k]))
            &&& forall|k: int| 0 <= k < b.arcs@.len() ==> exists|i: int| 0 <= i < es.len()
                && element_out(m, es[i]) == Ok::<Exported, ResolveErrorView>(Exported::Arc(#[trigger] b.arcs@[k]))
        },
{
    let ghost es = data.elements@;
    let mut table = values;
    table.merge_from(&data.values);
    let ghost m = table.entries@;
    let mut notes: Vec<V2Note> = Vec::new();
    let mut obstacles: Vec<ObstacleV2> = Vec::new();
    let mut arcs: Vec<ArcV2> = Vec::new();
    let mut errors: Vec<ExportError> = Vec::new();
    let n = data.elements.len();
    for i in 0..n
        invariant
            n == es.len(),
            es == data.elements@,
            m == table.entries@,
            notes@ == exported_notes(m, es.take(i as int)),
            obstacles@ == exported_obstacles(m, es.take(i as int)),
            arcs@ == exported_arcs(m, es.take(i as int)),
            errors@.map_values(|e: ExportError| export_error_view(e)) == export_errors(m, es.take(i as int)),
    {
        proof {
            assert(es.take(i + 1).drop_last() =~= es.take(i as int));
            assert(es.take(i + 1).last() == es[i as int]);
        }
        let ghost ev = errors@;
        match export_element(&data.elements[i], &table) {
            Ok(Exported::Note(x)) => notes.push(x),
            Ok(Exported::Obstacle(x)) => obstacles.push(x),
            Ok(Exported::Arc(x)) => arcs.push(x),
            Ok(Exported::Nothing) => {},
            Err(e) => {
                errors.push(ExportError::ResolveError(e));
                proof {
                    assert(errors@.map_values(|e: ExportError| export_error_view(e)) =~= ev.map_values(
                        |e: ExportError| export_error_view(e),
                    ).push(error_view(e)));
                }
            },
        }
    }
    proof {
        assert(es.take(n as int) =~= es);
        lemma_no_errors_iff_all_export(m, es);
        lemma_exported_notes_members(m, es);
        lemma_exported_obstacles_members(m, es);
        lemma_exported_arcs_members(m, es);
    }
    if errors.len() == 0 {
        Ok(BeatmapFileV2 { version: MapVersion::V2_6_0, notes, obstacles, arcs, events: Vec::new() })
    } else {
        Err(errors)
    }
}

/// The colour codes: 0 is red, 1 is blue, and no other code names a colour.
pub proof fn lemma_color_codes(i: i32)
    ensures
        color_of_code(0) == Some(Color::Red),
        color_of_code(1) == Some(Color::Blue),
        color_of_code(i) is Some <==> 0 <= i <= 1,
{
}

} // verus!
