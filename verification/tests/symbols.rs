use cb_5::{Symbol, SymbolClass, SymbolTable, SymbolType};

// Some utility functions
fn first_symbol() -> Symbol {
    Symbol {
        name: "First".to_string(),
        id: 0,
        symbol_type: SymbolType::Void,
        symbol_class: SymbolClass::Variable,
    }
}

fn second_symbol() -> Symbol {
    Symbol {
        name: "Second".to_string(),
        id: 1,
        symbol_type: SymbolType::Boolean,
        symbol_class: SymbolClass::Function { parameters: vec![] },
    }
}

fn third_symbol() -> Symbol {
    Symbol {
        name: "Third".to_string(),
        id: 2,
        symbol_type: SymbolType::Integer,
        symbol_class: SymbolClass::Function { parameters: vec![] },
    }
}

#[test]
fn empty_table() {
    let sym_tab = SymbolTable::default();
    assert_eq!(sym_tab.depth(), 1);
    assert_eq!(sym_tab.scope_len(0), 0)
}

#[test]
fn insert_symbol() {
    let mut sym_tab = SymbolTable::new();
    let symbol = first_symbol();
    sym_tab.insert(symbol.clone()).unwrap();
    assert_eq!(sym_tab.scope_len(0), 1);
    assert_eq!(sym_tab.get_in_scope(0, "First"), Some(&symbol));
}

#[test]
fn insert_symbols_same_scope() {
    let mut sym_tab = SymbolTable::new();
    let symbol_a = first_symbol();
    let symbol_b = second_symbol();
    sym_tab.insert(symbol_a.clone()).unwrap();
    sym_tab.insert(symbol_b.clone()).unwrap();
    assert_eq!(sym_tab.scope_len(0), 2);
    assert_eq!(sym_tab.get_in_scope(0, "First"), Some(&symbol_a));
    assert_eq!(sym_tab.get_in_scope(0, "Second"), Some(&symbol_b));
}

#[test]
fn insert_symbols_multiple_scopes() {
    let mut sym_tab = SymbolTable::new();
    let symbol_a = first_symbol();
    let symbol_b = second_symbol();
    let symbol_c = third_symbol();

    sym_tab.insert(symbol_a.clone()).unwrap();
    sym_tab.enter_scope();

    sym_tab.insert(symbol_b.clone()).unwrap();
    sym_tab.enter_scope();

    sym_tab.insert(symbol_c.clone()).unwrap();

    assert_eq!(sym_tab.depth(), 3);
    assert_eq!(sym_tab.scope_len(0), 1);
    assert_eq!(sym_tab.scope_len(1), 1);
    assert_eq!(sym_tab.scope_len(2), 1);

    assert_eq!(sym_tab.get_in_scope(0, "First"), Some(&symbol_a));
    assert_eq!(sym_tab.get_in_scope(1, "Second"), Some(&symbol_b));
    assert_eq!(sym_tab.get_in_scope(2, "Third"), Some(&symbol_c));
}

#[test]
fn leave_scope() {
    let mut sym_tab = SymbolTable::new();

    sym_tab.insert(first_symbol()).unwrap();
    sym_tab.enter_scope();

    sym_tab.insert(second_symbol()).unwrap();
    sym_tab.enter_scope();

    sym_tab.insert(third_symbol()).unwrap();

    assert_eq!(sym_tab.depth(), 3);
    assert_eq!(sym_tab.scope_len(0), 1);
    assert_eq!(sym_tab.scope_len(1), 1);
    assert_eq!(sym_tab.scope_len(2), 1);

    sym_tab.leave_scope();
    assert_eq!(sym_tab.depth(), 2);
    sym_tab.leave_scope();
    assert_eq!(sym_tab.depth(), 1);
}

#[test]
fn lookup() {
    let mut sym_tab = SymbolTable::new();
    let symbol_a = first_symbol();
    let symbol_b = second_symbol();
    let symbol_c = third_symbol();

    sym_tab.insert(symbol_a.clone()).unwrap();
    sym_tab.enter_scope();

    sym_tab.insert(symbol_b.clone()).unwrap();
    sym_tab.enter_scope();

    sym_tab.insert(symbol_c.clone()).unwrap();

    assert_eq!(sym_tab.get("First"), Some(&symbol_a));
    assert_eq!(sym_tab.get("Second"), Some(&symbol_b));
    assert_eq!(sym_tab.get("Third"), Some(&symbol_c));
}

#[test]
fn lookup_closest() {
    let mut sym_tab = SymbolTable::new();
    let symbol_a = first_symbol();
    let symbol_b = second_symbol();
    let symbol_c = third_symbol();

    sym_tab.insert(symbol_a.clone()).unwrap();
    sym_tab.enter_scope();

    let closest = Symbol {
        name: "First".to_string(),
        id: 1,
        symbol_type: SymbolType::Float,
        symbol_class: SymbolClass::Function { parameters: vec![] },
    };

    sym_tab.insert(closest.clone()).unwrap();
    sym_tab.insert(symbol_b).unwrap();
    sym_tab.enter_scope();

    sym_tab.insert(symbol_c).unwrap();

    assert_eq!(sym_tab.get("First"), Some(&closest));

    sym_tab.leave_scope();
    sym_tab.leave_scope();
    assert_eq!(sym_tab.get("First"), Some(&symbol_a));
}

#[test]
fn duplicate_insert_is_semantic_error() {
    let mut sym_tab = SymbolTable::new();
    sym_tab.insert(first_symbol()).unwrap();
    let result = sym_tab.insert(first_symbol());
    match result {
        Err(cb_5::Error::Semantic(msg)) => {
            assert_eq!(
                msg,
                "Symbol(name: First, id: 0, type: Void, class: Variable) \
                 has been defined twice in the current scope (1)"
            );
        }
        other => panic!("expected a semantic diagnostic, got {:?}", other),
    }
    assert_eq!(sym_tab.scope_len(0), 1);
}

#[test]
fn symbol_equality_ignores_id() {
    let a = first_symbol();
    let b = Symbol {
        name: "First".to_string(),
        id: 17,
        symbol_type: SymbolType::Void,
        symbol_class: SymbolClass::Variable,
    };
    assert_eq!(a, b);
    let c = Symbol {
        name: "First".to_string(),
        id: 0,
        symbol_type: SymbolType::Integer,
        symbol_class: SymbolClass::Variable,
    };
    assert_ne!(a, c);
}

#[test]
fn parameters_are_recorded_in_declaration_order() {
    let mut sym_tab = SymbolTable::new();
    let f = sym_tab.function_symbol("f".to_string(), SymbolType::Void);
    sym_tab.insert(f).unwrap();
    sym_tab.enter_scope();
    let p1 = sym_tab.parameter_symbol("x".to_string(), SymbolType::Integer);
    sym_tab.insert(p1).unwrap();
    let p2 = sym_tab.parameter_symbol("y".to_string(), SymbolType::Float);
    sym_tab.insert(p2).unwrap();
    sym_tab.leave_scope();
    let sym = sym_tab.get("f").expect("function is still in scope");
    match &sym.symbol_class {
        SymbolClass::Function { parameters } => {
            assert_eq!(parameters.len(), 2);
            assert_eq!(parameters[0].name, "x");
            assert_eq!(parameters[0].symbol_type, SymbolType::Integer);
            assert_eq!(parameters[1].name, "y");
            assert_eq!(parameters[1].symbol_type, SymbolType::Float);
        }
        other => panic!("expected a function class, got {:?}", other),
    }
}

#[test]
fn function_type_tracks_current_function() {
    let mut sym_tab = SymbolTable::new();
    assert_eq!(sym_tab.function_type(), None);
    let f = sym_tab.function_symbol("f".to_string(), SymbolType::Float);
    sym_tab.insert(f).unwrap();
    assert_eq!(sym_tab.function_type(), Some(SymbolType::Float));
    sym_tab.clear_function_type();
    assert_eq!(sym_tab.function_type(), None);
}

#[test]
fn is_function_distinguishes_classes() {
    assert!(!first_symbol().is_function());
    assert!(second_symbol().is_function());
}
