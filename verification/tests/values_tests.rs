use endium::engine::heap::Heap;
use endium::engine::scope::Scope;
use endium::engine::stack::Stack;
use endium::engine::tokens::Token;
use endium::errors::EndiumError;
use endium::utils::list_node::ListNode;
use endium::utils::memory_addresses::generate_memory_address;
use endium::utils::propery_path::PropertyPath;
use endium::values::js_bool::JSBool;
use endium::values::js_function::JSFunction;
use endium::values::js_number::JSNumber;
use endium::values::js_pointer::JSPointer;
use endium::values::js_string::JSString;
use endium::values::value_variant::{CompoundOp, JSValueVariant};

#[test]
fn number_from_int_matches_float_bits() {
    assert_eq!(JSNumber::from_int(7).number_value(), 7f64.to_bits());
    assert_eq!(JSNumber::from_int(0).number_value(), 0f64.to_bits());
}

#[test]
fn number_compound_assignment_arithmetic() {
    let mut n = JSNumber::new(10f64.to_bits());
    n.compound_assignment(
        CompoundOp::Add,
        &JSValueVariant::JSNumber(JSNumber::new(2.5f64.to_bits())),
    );
    assert_eq!(n.number_value(), 12.5f64.to_bits());
    n.compound_assignment(
        CompoundOp::Mul,
        &JSValueVariant::JSNumber(JSNumber::new(4f64.to_bits())),
    );
    assert_eq!(n.number_value(), 50f64.to_bits());
}

#[test]
fn number_compound_assignment_ignores_non_numbers() {
    let mut n = JSNumber::new(10f64.to_bits());
    n.compound_assignment(CompoundOp::Add, &JSValueVariant::Null);
    assert_eq!(n.number_value(), 10f64.to_bits());
}

#[test]
fn string_addition_assignment_appends_and_counts() {
    let mut s = JSString::from("ab".to_string());
    s.addition_assignment(&JSValueVariant::JSString(JSString::from("cde".to_string())));
    assert_eq!(s.str_value().as_str(), "abcde");
    let length = s.get_property(&"length".to_string()).unwrap();
    match length {
        JSValueVariant::JSNumber(n) => assert_eq!(n.number_value(), 5f64.to_bits()),
        other => panic!("expected a number, got {:?}", other),
    }
}

#[test]
fn string_subtraction_is_a_defined_no_op() {
    let mut s = JSString::from("ab".to_string());
    s.decrement_assignment(&JSValueVariant::JSNumber(JSNumber::new(1f64.to_bits())));
    assert_eq!(s.str_value().as_str(), "ab");
}

#[test]
fn string_property_other_than_length_is_absent() {
    let s = JSString::from("ab".to_string());
    assert!(s.get_property(&"size".to_string()).is_none());
    assert!(!s.is_primitive());
}

#[test]
fn heap_allocates_fresh_handles_and_stores_values() {
    let mut heap = Heap::new();
    let a = heap.allocate_ptr(JSValueVariant::Null);
    let b = heap.allocate_ptr(JSValueVariant::Undefined);
    assert_ne!(a, b);
    assert_eq!(heap.size(), 2);
    assert_eq!(heap.get_ptr(a), Some(&JSValueVariant::Null));
    assert_eq!(heap.get_ptr(b), Some(&JSValueVariant::Undefined));
    assert_eq!(heap.get_ptr(99), None);
    assert!(heap.set_ptr(a, JSValueVariant::JSBoolean(JSBool::new(true))));
    assert_eq!(
        heap.get_ptr(a),
        Some(&JSValueVariant::JSBoolean(JSBool::new(true)))
    );
    assert!(!heap.set_ptr(99, JSValueVariant::Null));
}

#[test]
fn stack_operations() {
    let mut st: Stack<u32> = Stack::new();
    assert!(st.is_empty());
    assert_eq!(st.pop(), None);
    st.push(1);
    st.push(2);
    st.push(3);
    assert_eq!(st.size(), 3);
    assert_eq!(st.peek(), Some(&3));
    assert_eq!(st.peek_at(0), Some(&1));
    assert_eq!(st.peek_at(7), None);
    assert_eq!(st.pop(), Some(3));
    assert_eq!(st.size(), 2);
    assert!(!st.is_empty());
}

#[test]
fn bool_and_pointer_accessors() {
    assert!(JSBool::new(true).bool_value());
    assert!(!JSBool::new(false).bool_value());
    assert_eq!(JSPointer::from(12).ptr(), 12);
}

#[test]
fn property_path_resolves_string_length() {
    let mut path = PropertyPath::new();
    path.add_path("length".to_string());
    let root = JSValueVariant::JSString(JSString::from("four".to_string()));
    match path.resolve_path(&root) {
        JSValueVariant::JSNumber(n) => assert_eq!(n.number_value(), 4f64.to_bits()),
        other => panic!("expected a number, got {:?}", other),
    }
}

#[test]
fn property_path_short_circuits_to_undefined() {
    let mut path = PropertyPath::new();
    path.add_path("nope".to_string());
    path.add_path("length".to_string());
    let root = JSValueVariant::JSString(JSString::from("four".to_string()));
    assert_eq!(path.resolve_path(&root), JSValueVariant::Undefined);
    let mut path2 = PropertyPath::new();
    path2.add_path("length".to_string());
    assert_eq!(
        path2.resolve_path(&JSValueVariant::Null),
        JSValueVariant::Undefined
    );
}

#[test]
fn list_node_chains_in_order() {
    let mut head = ListNode::new(1u32);
    head.chain(ListNode::new(2u32));
    assert_eq!(*head.val(), 1);
    let second = head.next().expect("second node exists");
    assert_eq!(*second.val(), 2);
    assert!(second.next().is_none());
}

#[test]
fn memory_addresses_are_hex_texts() {
    for _ in 0..16 {
        let addr = generate_memory_address();
        assert_eq!(addr.len(), 10);
        assert!(addr.starts_with("0x"));
        assert!(addr[2..].chars().all(|c| c.is_ascii_hexdigit()));
    }
}

#[test]
fn error_messages_name_the_error_class() {
    assert_eq!(
        EndiumError::RecursionLimitExceeded.message(),
        "recursion limit exceeded"
    );
    assert_eq!(
        EndiumError::UndefinedVariable("x".to_string()).message(),
        "undefined variable"
    );
    assert_eq!(
        EndiumError::AssignmentToConstantVariable("x".to_string()).message(),
        "assignment to constant variable"
    );
    assert_eq!(
        EndiumError::HeapHandleNotFound(3).message(),
        "heap handle not found"
    );
    assert_eq!(
        EndiumError::MalformedNumericLiteral("z".to_string()).message(),
        "malformed numeric literal"
    );
}

#[test]
fn string_set_property_accepts_only_the_length_mirror() {
    let mut s = JSString::from("four".to_string());
    // the mirror value itself is accepted and recaches the length
    assert!(s.set_property(
        &"length".to_string(),
        &JSValueVariant::JSNumber(JSNumber::new(4f64.to_bits())),
    ));
    // a number that is not the text's length is refused
    assert!(!s.set_property(
        &"length".to_string(),
        &JSValueVariant::JSNumber(JSNumber::new(7f64.to_bits())),
    ));
    // a non-number value is refused
    assert!(!s.set_property(&"length".to_string(), &JSValueVariant::Null));
    // an unknown property name is refused
    assert!(!s.set_property(
        &"size".to_string(),
        &JSValueVariant::JSNumber(JSNumber::new(4f64.to_bits())),
    ));
    let length = s.get_property(&"length".to_string()).unwrap();
    match length {
        JSValueVariant::JSNumber(n) => assert_eq!(n.number_value(), 4f64.to_bits()),
        other => panic!("expected a number, got {:?}", other),
    }
}

#[test]
fn function_binds_arguments_into_a_scope() {
    let f = JSFunction::new(
        Vec::new(),
        vec!["a".to_string(), "b".to_string()],
        0,
    );
    assert_eq!(f.scope(), 0);
    let mut scope = Scope::new(Vec::new());
    f.bind_arguments(
        &mut scope,
        0,
        vec![
            JSValueVariant::JSNumber(JSNumber::new(1f64.to_bits())),
            JSValueVariant::JSBoolean(JSBool::new(true)),
            JSValueVariant::Null,
        ],
    );
    let a = scope.get_state(0, &"a".to_string()).unwrap();
    assert!(a.is_mutable());
    match a.value() {
        JSValueVariant::JSNumber(n) => assert_eq!(n.number_value(), 1f64.to_bits()),
        other => panic!("expected a number, got {:?}", other),
    }
    let b = scope.get_state(0, &"b".to_string()).unwrap();
    assert_eq!(b.value(), &JSValueVariant::JSBoolean(JSBool::new(true)));
    // the third argument has no parameter name and is dropped
    assert_eq!(scope.state(0).len(), 2);
}

#[test]
fn token_clone_is_deep() {
    let t = Token::TemplateString(vec![
        Token::String("a".to_string()),
        Token::TemplateExpr(vec![Token::Number("1".to_string())]),
    ]);
    assert_eq!(t.clone(), t);
}
