use beatcraft_editor::map_values::{
    BaseValue, CanonicalizationError, CutDirection, CutDirectionValue, ExportError, F32Value, NumberValue,
    OptionalF32Value, ResolveError, U8Value, Value, ValueTable,
};

fn table() -> ValueTable {
    ValueTable {
        entries: vec![
            ("a".to_string(), Value::BaseValue(BaseValue::I32(7))),
            ("b".to_string(), Value::BaseValue(BaseValue::Reference("a".to_string()))),
            ("s".to_string(), Value::BaseValue(BaseValue::String("hi".to_string()))),
            ("f".to_string(), Value::BaseValue(BaseValue::F32(0x3f80_0000))),
            ("dangling".to_string(), Value::BaseValue(BaseValue::Reference("nowhere".to_string()))),
            ("e".to_string(), Value::Empty),
            ("v".to_string(), Value::Vec2([BaseValue::I32(1), BaseValue::I32(2)])),
        ],
    }
}

fn reference(n: &str) -> Value {
    Value::BaseValue(BaseValue::Reference(n.to_string()))
}

#[test]
fn resolve_through_references() {
    let t = table();
    assert_eq!(reference("b").resolve_i32(&t).unwrap(), 7);
    assert_eq!(Value::BaseValue(BaseValue::I32(3)).resolve_i32(&t).unwrap(), 3);
    assert_eq!(reference("s").resolve_string(&t).unwrap(), "hi");
    assert_eq!(reference("f").resolve_number(&t).unwrap(), NumberValue::F32(0x3f80_0000));
    assert_eq!(reference("b").resolve_number(&t).unwrap(), NumberValue::I32(7));
    assert_eq!(reference("e").resolve_optional_number(&t).unwrap(), None);
}

#[test]
fn resolve_errors() {
    let t = table();
    match reference("dangling").resolve_i32(&t) {
        Err(ResolveError::MissingValue(n)) => assert_eq!(n, "nowhere"),
        other => panic!("{other:?}"),
    }
    match reference("s").resolve_i32(&t) {
        Err(ResolveError::WrongType(n)) => assert_eq!(n, "String"),
        other => panic!("{other:?}"),
    }
    match reference("v").resolve_number(&t) {
        Err(ResolveError::WrongType(n)) => assert_eq!(n, "Vec2"),
        other => panic!("{other:?}"),
    }
    match reference("e").resolve_number(&t) {
        Err(ResolveError::WrongType(n)) => assert_eq!(n, "None"),
        other => panic!("{other:?}"),
    }
    match reference("a").resolve_string(&t) {
        Err(ResolveError::WrongType(n)) => assert_eq!(n, "i32"),
        other => panic!("{other:?}"),
    }
}

#[test]
fn value_type_names() {
    assert_eq!(reference("x").value_type(), "Reference");
    assert_eq!(Value::BaseValue(BaseValue::F32(0)).value_type(), "f32");
    assert_eq!(Value::Vec3([BaseValue::I32(0), BaseValue::I32(0), BaseValue::I32(0)]).value_type(), "Vec3");
    assert_eq!(Value::Vec4([BaseValue::I32(0), BaseValue::I32(0), BaseValue::I32(0), BaseValue::I32(0)]).value_type(), "Vec4");
}

#[test]
fn field_resolution() {
    let t = table();
    assert_eq!(F32Value::F32(5).resolve(&t).unwrap(), NumberValue::F32(5));
    assert_eq!(F32Value::Reference("a".into()).resolve(&t).unwrap(), NumberValue::I32(7));
    match F32Value::Reference("zz".into()).resolve(&t) {
        Err(ResolveError::MissingValue(n)) => assert_eq!(n, "zz"),
        other => panic!("{other:?}"),
    }
    assert_eq!(OptionalF32Value::Empty.resolve(&t).unwrap(), None);
    assert_eq!(OptionalF32Value::F32(9).resolve(&t).unwrap(), Some(NumberValue::F32(9)));
    assert_eq!(OptionalF32Value::Reference("e".into()).resolve(&t).unwrap(), None);
}

#[test]
fn table_lookup_and_conversions() {
    let t = table();
    assert!(t.get(&"a".to_string()).is_some());
    assert!(t.get(&"zz".to_string()).is_none());
    assert!(matches!(U8Value::from(4u8), U8Value::U8(4)));
    assert!(matches!(CutDirectionValue::from(CutDirection::Dot), CutDirectionValue::CutDir(CutDirection::Dot)));
    assert!(matches!(BaseValue::from(200u8), BaseValue::I32(200)));
    assert!(matches!(BaseValue::from(-3i32), BaseValue::I32(-3)));
    let e: CanonicalizationError = ResolveError::WrongType("f32").into();
    assert!(matches!(e, CanonicalizationError::ResolveError(ResolveError::WrongType("f32"))));
    let x: ExportError = ResolveError::MissingValue("q".into()).into();
    assert!(matches!(x, ExportError::ResolveError(ResolveError::MissingValue(_))));
}
