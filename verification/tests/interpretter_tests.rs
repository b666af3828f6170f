use endium::engine::heap::Heap;
use endium::engine::interpretter::{run, Interpretter};
use endium::engine::lexer::Lexer;
use endium::engine::scope::Scope;
use endium::engine::state::State;
use endium::engine::tokens::Token;
use endium::errors::EndiumError;
use endium::values::js_pointer::JSPointer;
use endium::values::js_string::JSString;
use endium::values::value_variant::JSValueVariant;

fn lex(src: &str) -> Vec<Token> {
    Lexer::new(&String::from(src)).tokenize().expect("lexing should succeed")
}

fn number_bits(v: &JSValueVariant) -> u64 {
    match v {
        JSValueVariant::JSNumber(n) => n.number_value(),
        other => panic!("expected a number, got {:?}", other),
    }
}

#[test]
fn numeric_literal_evaluates_to_its_parsed_value() {
    for text in ["5", "3.25", "1e5", "2.5e-3", "0.125", "10"] {
        let value = run(lex(text)).expect("evaluation should succeed");
        let parsed: f64 = text.parse().unwrap();
        assert_eq!(number_bits(&value), parsed.to_bits(), "literal {}", text);
    }
}

#[test]
fn increment_of_constant_fails_and_keeps_the_value() {
    let mut it = Interpretter::new(Some(lex("const a = 5\na++")), None);
    let err = it.execute().expect_err("mutating a const must fail");
    assert_eq!(err, EndiumError::AssignmentToConstantVariable("a".to_string()));
    let bound = it.scope().get_state(0, &"a".to_string()).expect("a stays bound");
    assert!(!bound.is_mutable());
    assert_eq!(number_bits(bound.value()), 5f64.to_bits());
}

#[test]
fn plus_assign_adds_numbers() {
    let value = run(lex("let y = 10\ny += 5;\ny")).expect("evaluation should succeed");
    assert_eq!(number_bits(&value), 15f64.to_bits());
}

#[test]
fn minus_assign_subtracts_numbers() {
    let value = run(lex("let y = 10\ny -= 4\ny")).expect("evaluation should succeed");
    assert_eq!(number_bits(&value), 6f64.to_bits());
}

#[test]
fn multiply_and_divide_assign() {
    let value = run(lex("let y = 10\ny *= 3\ny")).expect("evaluation should succeed");
    assert_eq!(number_bits(&value), 30f64.to_bits());
    let value = run(lex("let y = 10\ny /= 4\ny")).expect("evaluation should succeed");
    assert_eq!(number_bits(&value), 2.5f64.to_bits());
}

#[test]
fn increment_and_decrement_by_one_unit() {
    let mut it = Interpretter::new(Some(lex("let y = 10\ny++\ny--\ny--")), None);
    it.execute().expect("evaluation should succeed");
    let bound = it.scope().get_state(0, &"y".to_string()).unwrap();
    assert_eq!(number_bits(bound.value()), 9f64.to_bits());
}

#[test]
fn string_plus_number_appends_decimal_text_and_refreshes_length() {
    let mut it = Interpretter::new(Some(lex("let x = \"foo\"\nx += 3")), None);
    it.execute().expect("evaluation should succeed");
    let bound = it.scope().get_state(0, &"x".to_string()).unwrap();
    match bound.value() {
        JSValueVariant::JSString(s) => {
            assert_eq!(s.str_value().as_str(), "foo3");
            let length = s.get_property(&"length".to_string()).expect("length exists");
            assert_eq!(number_bits(&length), 4f64.to_bits());
        }
        other => panic!("expected a string, got {:?}", other),
    }
}

#[test]
fn string_plus_string_concatenates() {
    let mut it = Interpretter::new(Some(lex("let x = \"ab\"\nx += \"cd\"")), None);
    it.execute().expect("evaluation should succeed");
    let bound = it.scope().get_state(0, &"x".to_string()).unwrap();
    match bound.value() {
        JSValueVariant::JSString(s) => assert_eq!(s.str_value().as_str(), "abcd"),
        other => panic!("expected a string, got {:?}", other),
    }
}

#[test]
fn aliased_heap_string_observes_mutation_through_other_binding() {
    let instructions = lex("p += \"!\"");
    let mut heap = Heap::new();
    let h = heap.allocate_ptr(JSValueVariant::JSString(JSString::from("hi".to_string())));
    let mut scope = Scope::new(lex("p += \"!\""));
    scope.insert_state(
        0,
        "p".to_string(),
        State::new(JSValueVariant::JSPointer(JSPointer::from(h)), true),
    );
    scope.insert_state(
        0,
        "q".to_string(),
        State::new(JSValueVariant::JSPointer(JSPointer::from(h)), true),
    );
    let mut it = Interpretter::with_context(scope, heap, instructions);
    it.execute().expect("evaluation should succeed");
    let q = it.scope().get_state(0, &"q".to_string()).unwrap();
    let handle = match q.value() {
        JSValueVariant::JSPointer(ptr) => ptr.ptr(),
        other => panic!("expected a pointer, got {:?}", other),
    };
    assert_eq!(handle, h);
    match it.heap().get_ptr(handle).expect("handle is valid") {
        JSValueVariant::JSString(s) => assert_eq!(s.str_value().as_str(), "hi!"),
        other => panic!("expected a string in the heap, got {:?}", other),
    }
}

#[test]
fn child_scope_observes_outer_reassignment_live() {
    let mut scope = Scope::new(Vec::new());
    scope.insert_state(
        0,
        "y".to_string(),
        State::new(JSValueVariant::JSNumber(endium::values::js_number::JSNumber::new(10f64.to_bits())), true),
    );
    let child = scope.add_child(0, Vec::new());
    let before = scope.get_state(child, &"y".to_string()).unwrap();
    assert_eq!(number_bits(before.value()), 10f64.to_bits());
    // reassign the outer binding after the child frame already exists
    scope.insert_state(
        0,
        "y".to_string(),
        State::new(JSValueVariant::JSNumber(endium::values::js_number::JSNumber::new(15f64.to_bits())), true),
    );
    let after = scope.get_state(child, &"y".to_string()).unwrap();
    assert_eq!(number_bits(after.value()), 15f64.to_bits());
}

#[test]
fn declaration_rhs_sees_outer_bindings() {
    let value = run(lex("let a = 7\nlet b = a\nb")).expect("evaluation should succeed");
    assert_eq!(number_bits(&value), 7f64.to_bits());
}

#[test]
fn redeclaring_a_name_overwrites_it() {
    let value = run(lex("let a = 7\nlet a = 9\na")).expect("evaluation should succeed");
    assert_eq!(number_bits(&value), 9f64.to_bits());
}

#[test]
fn bare_undefined_identifier_is_an_error() {
    let err = run(lex("z")).expect_err("an unbound name must fail");
    assert_eq!(err, EndiumError::UndefinedVariable("z".to_string()));
}

#[test]
fn malformed_numeric_literal_is_an_error() {
    let err = run(vec![Token::Number("abc".to_string())]).expect_err("parse must fail");
    assert_eq!(err, EndiumError::MalformedNumericLiteral("abc".to_string()));
}

#[test]
fn unknown_heap_handle_is_an_error() {
    let instructions = lex("p += 1");
    let mut scope = Scope::new(lex("p += 1"));
    scope.insert_state(
        0,
        "p".to_string(),
        State::new(JSValueVariant::JSPointer(JSPointer::from(99)), true),
    );
    let mut it = Interpretter::with_context(scope, Heap::new(), instructions);
    let err = it.execute().expect_err("a dangling handle must fail");
    assert_eq!(err, EndiumError::HeapHandleNotFound(99));
}

#[test]
fn recursion_limit_is_reported() {
    let mut it = Interpretter::new(Some(lex("let a = 1")), None);
    it.max_depth = 0;
    let err = it.execute().expect_err("no budget for nested evaluation");
    assert_eq!(err, EndiumError::RecursionLimitExceeded);
}

#[test]
fn null_and_undefined_literals_evaluate() {
    assert_eq!(run(lex("null")).unwrap(), JSValueVariant::Null);
    assert_eq!(run(lex("undefined")).unwrap(), JSValueVariant::Undefined);
}

#[test]
fn string_literal_is_the_result_value() {
    match run(lex("\"hey\"")).unwrap() {
        JSValueVariant::JSString(s) => assert_eq!(s.str_value().as_str(), "hey"),
        other => panic!("expected a string, got {:?}", other),
    }
}

#[test]
fn value_collector_stops_at_terminator_and_skips_it() {
    let mut it = Interpretter::new(Some(lex("1 + 2\n7")), None);
    let span = it.value_collector();
    assert_eq!(
        span,
        vec![
            Token::Number("1".to_string()),
            Token::Plus,
            Token::Number("2".to_string()),
        ]
    );
    assert_eq!(it.position, 4);
}

#[test]
fn handle_const_binds_immutably() {
    let mut it = Interpretter::new(Some(lex("const a = 5")), None);
    it.handle_const().expect("declaration should succeed");
    let bound = it.scope().get_state(0, &"a".to_string()).unwrap();
    assert!(!bound.is_mutable());
    assert_eq!(number_bits(bound.value()), 5f64.to_bits());
}

#[test]
fn handle_let_binds_mutably() {
    let mut it = Interpretter::new(Some(lex("let a = 5")), None);
    it.handle_let().expect("declaration should succeed");
    let bound = it.scope().get_state(0, &"a".to_string()).unwrap();
    assert!(bound.is_mutable());
}

#[test]
fn handle_identifier_resolves_bare_reference() {
    let mut it = Interpretter::new(Some(lex("a")), None);
    it.scope = {
        let mut s = Scope::new(lex("a"));
        s.insert_state(
            0,
            "a".to_string(),
            State::new(JSValueVariant::JSNumber(endium::values::js_number::JSNumber::new(2f64.to_bits())), false),
        );
        s
    };
    it.handle_identifier(&"a".to_string()).expect("lookup should succeed");
    assert_eq!(number_bits(it.interpretted_value()), 2f64.to_bits());
}

#[test]
fn string_value_of_a_number_uses_decimal_text() {
    // coercion formats integral doubles without a trailing fraction
    let mut it = Interpretter::new(Some(lex("let x = \"n=\"\nx += 12\nx += 0.5")), None);
    it.execute().expect("evaluation should succeed");
    let bound = it.scope().get_state(0, &"x".to_string()).unwrap();
    match bound.value() {
        JSValueVariant::JSString(s) => assert_eq!(s.str_value().as_str(), "n=120.5"),
        other => panic!("expected a string, got {:?}", other),
    }
}

#[test]
fn eof_token_stops_execution() {
    let mut tokens = lex("let a = 1");
    tokens.push(Token::Newline);
    tokens.push(Token::Eof);
    tokens.push(Token::Identifier("nope".to_string()));
    // the unbound name after Eof is never reached
    run(tokens).expect("execution stops at Eof");
}
