use beatcraft_editor::export::{
    export_v2, ArcData, ArcMidAnchorMode, BombData, Color, ColorNoteV2, DataElement, EditingData, MapVersion, NoteData,
    NoteTypeValue, ObstacleData, ObstacleV2Type, V2Note,
};
use beatcraft_editor::map_values::{
    BaseValue, CutDirection, CutDirectionValue, ExportError, F32Value, NumberValue, ResolveError, Value, ValueTable,
};

fn num(bits: u32) -> F32Value {
    F32Value::F32(bits)
}

fn rf(n: &str) -> F32Value {
    F32Value::Reference(n.to_string())
}

fn entry(n: &str, v: Value) -> (String, Value) {
    (n.to_string(), v)
}

fn whole(i: i32) -> Value {
    Value::BaseValue(BaseValue::I32(i))
}

fn note(beat: F32Value, color: NoteTypeValue, cut: CutDirectionValue) -> DataElement {
    DataElement::Note(NoteData { beat, cut_direction: cut, x: num(1), y: num(2), note_type: color })
}

#[test]
fn chase_within_reports_cycles() {
    let t = ValueTable {
        entries: vec![
            entry("a", Value::BaseValue(BaseValue::Reference("b".to_string()))),
            entry("b", Value::BaseValue(BaseValue::Reference("a".to_string()))),
            entry("c", whole(4)),
        ],
    };
    let start = Value::BaseValue(BaseValue::Reference("a".to_string()));
    match start.chase_within(&t) {
        Err(ResolveError::Cycle(n)) => assert_eq!(n, "a"),
        other => panic!("expected a cycle, got {:?}", other),
    }
    assert_eq!(rf("c").resolve_within(&t).unwrap(), NumberValue::I32(4));
    assert!(matches!(rf("a").resolve_within(&t), Err(ResolveError::Cycle(_))));
    assert!(matches!(rf("zz").resolve_within(&t), Err(ResolveError::MissingValue(_))));
}

#[test]
fn cut_direction_and_color_codes() {
    let t = ValueTable { entries: vec![entry("d", whole(8)), entry("bad", whole(9)), entry("blue", whole(1))] };
    assert_eq!(CutDirectionValue::Reference("d".into()).resolve_within(&t).unwrap(), CutDirection::Dot);
    assert!(matches!(CutDirectionValue::Reference("bad".into()).resolve_within(&t), Err(ResolveError::OutOfRange(9))));
    assert_eq!(CutDirectionValue::CutDir(CutDirection::Left).resolve_within(&t).unwrap(), CutDirection::Left);
    assert_eq!(NoteTypeValue::Reference("blue".into()).resolve_within(&t).unwrap(), Color::Blue);
    assert!(matches!(NoteTypeValue::Reference("bad".into()).resolve_within(&t), Err(ResolveError::OutOfRange(9))));
}

#[test]
fn table_insert_and_merge() {
    let mut t = ValueTable { entries: vec![entry("a", whole(1)), entry("b", whole(2))] };
    t.insert("b".to_string(), whole(5));
    t.insert("c".to_string(), whole(6));
    assert_eq!(t.entries.len(), 3);
    assert!(matches!(t.get(&"b".to_string()), Some(Value::BaseValue(BaseValue::I32(5)))));
    let other = ValueTable { entries: vec![entry("a", whole(9)), entry("z", whole(0))] };
    t.merge_from(&other);
    assert_eq!(t.entries.len(), 4);
    assert!(matches!(t.get(&"a".to_string()), Some(Value::BaseValue(BaseValue::I32(9)))));
    assert!(matches!(t.get(&"c".to_string()), Some(Value::BaseValue(BaseValue::I32(6)))));
}

#[test]
fn export_v2_collects_objects_in_order() {
    let data = EditingData {
        elements: vec![
            note(num(0x4000_0000), NoteTypeValue::Color(Color::Red), CutDirectionValue::CutDir(CutDirection::Down)),
            DataElement::Chain,
            DataElement::Bomb(BombData { beat: rf("beat"), x: num(0), y: num(0) }),
            DataElement::Obstacle(ObstacleData {
                beat: num(1),
                x: num(2),
                y: num(3),
                duration: rf("len"),
                width: num(4),
                height: num(5),
            }),
            DataElement::Template,
            DataElement::Arc(ArcData {
                beat: num(1),
                cut_direction: CutDirectionValue::Reference("dir".into()),
                x: num(0),
                y: num(0),
                head_ctrl_magnitude: num(1),
                tail_beat: num(2),
                tx: num(1),
                ty: num(1),
                tail_cut_direction: CutDirectionValue::CutDir(CutDirection::Up),
                tail_ctrl_magnitude: num(1),
                mid_anchor_mode: ArcMidAnchorMode::Clockwise,
                note_type: NoteTypeValue::Reference("col".into()),
            }),
        ],
        values: ValueTable { entries: vec![entry("beat", whole(3)), entry("dir", whole(2))] },
    };
    let shared = ValueTable { entries: vec![entry("beat", whole(100)), entry("len", whole(4)), entry("col", whole(1))] };
    let map = export_v2(&data, shared).unwrap();
    assert_eq!(map.notes.len(), 2);
    assert_eq!(
        map.notes[0],
        V2Note::Note(ColorNoteV2 {
            time: NumberValue::F32(0x4000_0000),
            line_index: NumberValue::F32(1),
            line_layer: NumberValue::F32(2),
            typ: Color::Red,
            cut_direction: CutDirection::Down,
        })
    );
    match map.notes[1] {
        V2Note::Bomb(b) => {
            assert_eq!(b.beat, NumberValue::I32(3));
            assert_eq!(b.cut_direction, CutDirection::Up);
        },
        _ => panic!("expected a bomb"),
    }
    assert_eq!(map.obstacles.len(), 1);
    assert_eq!(map.obstacles[0].duration, NumberValue::I32(4));
    assert_eq!(map.obstacles[0].typ, ObstacleV2Type::Free);
    assert_eq!(map.version, MapVersion::V2_6_0);
    assert!(map.events.is_empty());
    assert_eq!(map.arcs.len(), 1);
    assert_eq!(map.arcs[0].color, Color::Blue);
    assert_eq!(map.arcs[0].head_cut_direction, CutDirection::Left);
    assert_eq!(map.arcs[0].mid_anchor_mode, ArcMidAnchorMode::Clockwise);
}

#[test]
fn export_v2_reports_one_error_per_failing_element() {
    let data = EditingData {
        elements: vec![
            note(rf("missing"), NoteTypeValue::Color(Color::Blue), CutDirectionValue::CutDir(CutDirection::Up)),
            DataElement::Bomb(BombData { beat: num(0), x: num(0), y: num(0) }),
            note(num(0), NoteTypeValue::Reference("s".into()), CutDirectionValue::Reference("nope".into())),
        ],
        values: ValueTable { entries: vec![entry("s", Value::BaseValue(BaseValue::String("x".into())))] },
    };
    let errors = export_v2(&data, ValueTable { entries: vec![] }).unwrap_err();
    assert_eq!(errors.len(), 2);
    assert!(matches!(&errors[0], ExportError::ResolveError(ResolveError::MissingValue(n)) if n.as_str() == "missing"));
    assert!(matches!(&errors[1], ExportError::ResolveError(ResolveError::WrongType("String"))));
}

#[test]
fn export_v2_empty_data() {
    let data = EditingData { elements: vec![], values: ValueTable { entries: vec![] } };
    let map = export_v2(&data, ValueTable { entries: vec![] }).unwrap();
    assert!(map.notes.is_empty() && map.obstacles.is_empty() && map.arcs.is_empty());
}
