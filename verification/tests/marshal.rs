use calculator::contract::{Operation, Value, ValueType};
use calculator::fault::CallError;
use calculator::marshal::{lift_all, lower_all, Wire};

#[test]
fn numbers_are_lowered_to_words() {
    assert_eq!(Value::S32(-5).lower(), Wire::Word(-5));
    assert_eq!(Value::S32(i32::MIN).lower(), Wire::Word(-2147483648));
    assert_eq!(Value::U32(7).lower(), Wire::Word(7));
    assert_eq!(Value::U32(u32::MAX).lower(), Wire::Word(4294967295));
}

#[test]
fn text_is_lowered_to_its_utf8_bytes() {
    assert_eq!(Value::Text(String::from("1 + 2")).lower(), Wire::Bytes(vec![49, 32, 43, 32, 50]));
    assert_eq!(Value::Text(String::new()).lower(), Wire::Bytes(vec![]));
    assert_eq!(Value::Text(String::from("é")).lower(), Wire::Bytes(vec![0xC3, 0xA9]));
}

#[test]
fn a_word_is_lifted_within_the_range_of_its_type() {
    assert_eq!(Wire::Word(0).lift(ValueType::S32), Ok(Value::S32(0)));
    assert_eq!(Wire::Word(2147483647).lift(ValueType::S32), Ok(Value::S32(i32::MAX)));
    assert_eq!(Wire::Word(-2147483648).lift(ValueType::S32), Ok(Value::S32(i32::MIN)));
    assert_eq!(Wire::Word(0).lift(ValueType::U32), Ok(Value::U32(0)));
    assert_eq!(Wire::Word(4294967295).lift(ValueType::U32), Ok(Value::U32(u32::MAX)));
    assert_eq!(Wire::Word(3).lift(ValueType::U32), Ok(Value::U32(3)));
}

#[test]
fn a_word_out_of_range_is_a_contract_violation() {
    assert_eq!(Wire::Word(2147483648).lift(ValueType::S32), Err(CallError::ContractViolation));
    assert_eq!(Wire::Word(-2147483649).lift(ValueType::S32), Err(CallError::ContractViolation));
    assert_eq!(Wire::Word(-1).lift(ValueType::U32), Err(CallError::ContractViolation));
    assert_eq!(Wire::Word(4294967296).lift(ValueType::U32), Err(CallError::ContractViolation));
    assert_eq!(Wire::Word(i64::MAX).lift(ValueType::U32), Err(CallError::ContractViolation));
    assert_eq!(Wire::Word(i64::MIN).lift(ValueType::S32), Err(CallError::ContractViolation));
}

#[test]
fn a_wire_form_of_the_wrong_shape_is_a_contract_violation() {
    assert_eq!(Wire::Word(1).lift(ValueType::Text), Err(CallError::ContractViolation));
    assert_eq!(Wire::Bytes(vec![49]).lift(ValueType::S32), Err(CallError::ContractViolation));
    assert_eq!(Wire::Bytes(vec![49]).lift(ValueType::U32), Err(CallError::ContractViolation));
}

#[test]
fn valid_utf8_is_lifted_to_the_text_it_encodes() {
    assert_eq!(
        Wire::Bytes(vec![49, 32, 43, 32, 50]).lift(ValueType::Text),
        Ok(Value::Text(String::from("1 + 2")))
    );
    assert_eq!(Wire::Bytes(vec![]).lift(ValueType::Text), Ok(Value::Text(String::new())));
    assert_eq!(
        Wire::Bytes(vec![0xE2, 0x82, 0xAC, 0x00, 0xF0, 0x9F, 0x98, 0x80]).lift(ValueType::Text),
        Ok(Value::Text(String::from("€\u{0}😀")))
    );
}

#[test]
fn malformed_utf8_is_a_contract_violation() {
    let malformed: Vec<Vec<u8>> = vec![
        vec![0xFF],
        vec![0x80],
        vec![0xC3],
        vec![0xC0, 0x80],
        vec![0xE2, 0x82],
        vec![0xED, 0xA0, 0x80],
        vec![0xF4, 0x90, 0x80, 0x80],
        vec![49, 0xFF, 50],
    ];
    for bytes in malformed {
        assert_eq!(Wire::Bytes(bytes).lift(ValueType::Text), Err(CallError::ContractViolation));
    }
}

#[test]
fn lifting_undoes_lowering() {
    let values: Vec<Value> = vec![
        Value::S32(0),
        Value::S32(-1),
        Value::S32(i32::MAX),
        Value::S32(i32::MIN),
        Value::U32(0),
        Value::U32(u32::MAX),
        Value::Text(String::new()),
        Value::Text(String::from("1 + 2")),
        Value::Text(String::from("a\u{0}b\u{1}")),
        Value::Text(String::from("数式 ∑ 😀")),
    ];
    for value in values {
        let ty: ValueType = value.value_type();
        assert_eq!(value.lower().lift(ty), Ok(value));
    }
}

#[test]
fn every_value_has_its_type() {
    assert_eq!(Value::S32(1).value_type(), ValueType::S32);
    assert_eq!(Value::U32(1).value_type(), ValueType::U32);
    assert_eq!(Value::Text(String::from("x")).value_type(), ValueType::Text);
}

#[test]
fn the_operations_have_their_signatures() {
    assert_eq!(Operation::Add.param_types(), vec![ValueType::S32, ValueType::S32]);
    assert_eq!(Operation::Add.result_type(), ValueType::S32);
    assert_eq!(Operation::EvalExpression.param_types(), vec![ValueType::Text]);
    assert_eq!(Operation::EvalExpression.result_type(), ValueType::U32);
}

#[test]
fn a_list_is_lowered_in_order() {
    let values: Vec<Value> = vec![Value::S32(1), Value::U32(2), Value::Text(String::from("3"))];
    assert_eq!(lower_all(&values), vec![Wire::Word(1), Wire::Word(2), Wire::Bytes(vec![51])]);
    assert_eq!(lower_all(&Vec::new()), Vec::<Wire>::new());
}

#[test]
fn a_list_is_lifted_slot_by_slot() {
    let wires: Vec<Wire> = vec![Wire::Word(1), Wire::Word(-2)];
    assert_eq!(
        lift_all(&wires, &Operation::Add.param_types()),
        Ok(vec![Value::S32(1), Value::S32(-2)])
    );
    let text: Vec<Wire> = vec![Wire::Bytes(vec![49])];
    assert_eq!(
        lift_all(&text, &Operation::EvalExpression.param_types()),
        Ok(vec![Value::Text(String::from("1"))])
    );
    assert_eq!(lift_all(&Vec::new(), &Vec::new()), Ok(Vec::<Value>::new()));
}

#[test]
fn a_list_of_the_wrong_length_is_a_contract_violation() {
    let one: Vec<Wire> = vec![Wire::Word(1)];
    let three: Vec<Wire> = vec![Wire::Word(1), Wire::Word(2), Wire::Word(3)];
    assert_eq!(lift_all(&one, &Operation::Add.param_types()), Err(CallError::ContractViolation));
    assert_eq!(lift_all(&three, &Operation::Add.param_types()), Err(CallError::ContractViolation));
    assert_eq!(
        lift_all(&Vec::new(), &Operation::EvalExpression.param_types()),
        Err(CallError::ContractViolation)
    );
}

#[test]
fn a_list_with_one_bad_slot_is_a_contract_violation() {
    let wires: Vec<Wire> = vec![Wire::Word(1), Wire::Word(2147483648)];
    assert_eq!(lift_all(&wires, &Operation::Add.param_types()), Err(CallError::ContractViolation));
    let mixed: Vec<Wire> = vec![Wire::Word(1), Wire::Bytes(vec![50])];
    assert_eq!(lift_all(&mixed, &Operation::Add.param_types()), Err(CallError::ContractViolation));
}
