use descent_parser::interner::{Interner, Symbol};

#[test]
fn interner_starts_empty() {
    let interner = Interner::new();
    assert_eq!(interner.len(), 0);
    assert_eq!(interner.resolve(Symbol(0)), None);
    assert_eq!(interner.lookup("x"), None);
}

#[test]
fn symbols_are_dense_in_order_of_first_interning() {
    let mut interner = Interner::new();
    assert_eq!(interner.intern("Elephant"), Some(Symbol(0)));
    assert_eq!(interner.intern("Tiger"), Some(Symbol(1)));
    assert_eq!(interner.intern("Horse"), Some(Symbol(2)));
    assert_eq!(interner.len(), 3);
}

#[test]
fn same_text_gives_same_symbol() {
    let mut interner = Interner::new();
    let a = interner.intern("Tiger");
    let b = interner.intern("Horse");
    let c = interner.intern("Tiger");
    assert_eq!(a, c);
    assert_ne!(a, b);
    assert_eq!(interner.len(), 2);
}

#[test]
fn resolve_gives_the_text_back() {
    let mut interner = Interner::new();
    let sym = interner.intern("Banana").unwrap();
    let other = interner.intern("Cherry").unwrap();
    assert_eq!(interner.resolve(sym), Some("Banana".to_string()));
    assert_eq!(interner.resolve(other), Some("Cherry".to_string()));
    assert_eq!(interner.resolve(Symbol(2)), None);
    assert_eq!(interner.resolve(Symbol(usize::MAX)), None);
}

#[test]
fn lookup_finds_only_what_is_held() {
    let mut interner = Interner::new();
    interner.intern("a");
    interner.intern("b");
    assert_eq!(interner.lookup("b"), Some(Symbol(1)));
    assert_eq!(interner.lookup("c"), None);
    assert_eq!(interner.len(), 2);
}

#[test]
fn empty_string_is_a_string_like_any_other() {
    let mut interner = Interner::new();
    assert_eq!(interner.intern(""), Some(Symbol(0)));
    assert_eq!(interner.intern(""), Some(Symbol(0)));
    assert_eq!(interner.resolve(Symbol(0)), Some(String::new()));
}
