use microc::error::ErrorKind;
use microc::symtable::global;
use microc::symtable::local;
use microc::symtable::scope::Scope;
use microc::symtable::table::Table;
use microc::symtable::CType;
use microc::symtable::Entry;
use microc::symtable::SymTable;
use microc::symtable::SymbolType;

fn name(s: &str) -> String {
    s.to_string()
}

fn ptr(t: CType) -> CType {
    CType::Ptr(Box::new(t))
}

#[test]
fn mutable_types_are_int_float_and_pointers() {
    assert!(CType::Int.is_mutable());
    assert!(CType::Float.is_mutable());
    assert!(ptr(CType::Void).is_mutable());
    assert!(!CType::Str.is_mutable());
    assert!(!CType::Void.is_mutable());
}

#[test]
fn dereference_unwraps_one_pointer() {
    assert_eq!(ptr(ptr(CType::Int)).dereference().unwrap(), ptr(CType::Int));
    assert_eq!(ptr(CType::Float).dereference().unwrap(), CType::Float);
    assert_eq!(CType::Int.dereference().unwrap_err().get_kind(), ErrorKind::Type);
    assert_eq!(CType::Str.dereference().unwrap_err().get_kind(), ErrorKind::Type);
}

#[test]
fn types_compare_structurally() {
    assert!(ptr(CType::Int).same(&ptr(CType::Int)));
    assert!(!ptr(CType::Int).same(&ptr(CType::Float)));
    assert!(!ptr(CType::Int).same(&CType::Int));
    assert_eq!(ptr(CType::Int).clone(), ptr(CType::Int));
}

#[test]
fn globals_start_at_their_base_in_steps_of_four() {
    let mut t = SymTable::new(0x20000000, 0x10000000);
    t.add_symbol(CType::Int, name("a"), SymbolType::Global).unwrap();
    t.add_symbol(CType::Float, name("b"), SymbolType::Global).unwrap();
    t.add_symbol(CType::Str, name("s"), SymbolType::Str(name("\"x\""))).unwrap();
    t.add_symbol(CType::Str, name("u"), SymbolType::Str(name("\"y\""))).unwrap();
    assert_eq!(t.get_symbol(&name("a")).unwrap().address(), 0x20000000);
    assert_eq!(t.get_symbol(&name("b")).unwrap().address(), 0x20000004);
    assert_eq!(t.get_symbol(&name("s")).unwrap().address(), 0x10000000);
    assert_eq!(t.get_symbol(&name("u")).unwrap().address(), 0x10000004);
    assert_eq!(t.get_addr_offset_val(), (0x20000008, 0x10000008));
    assert_eq!(t.strings_in_asm(), "0x10000000 \"x\"\n0x10000004 \"y\"\n");
}

#[test]
fn arguments_go_up_from_twelve_and_locals_down_from_minus_four() {
    let mut t = SymTable::new(0x20000000, 0x10000000);
    t.add_function(CType::Void, name("f"), vec![CType::Int, CType::Int]).unwrap();
    t.push_scope(0, &name("f"), CType::Void).unwrap();
    t.add_symbol(CType::Int, name("x"), SymbolType::Argument).unwrap();
    t.add_symbol(CType::Int, name("y"), SymbolType::Argument).unwrap();
    t.add_symbol(CType::Int, name("a"), SymbolType::Local).unwrap();
    t.add_symbol(CType::Int, name("b"), SymbolType::Local).unwrap();
    assert_eq!(t.get_symbol(&name("x")).unwrap().address(), 12);
    assert_eq!(t.get_symbol(&name("y")).unwrap().address(), 16);
    assert_eq!(t.get_symbol(&name("a")).unwrap().address(), -4);
    assert_eq!(t.get_symbol(&name("b")).unwrap().address(), -8);
    assert_eq!(t.get_addr_offset_val(), (16, -8));
    assert_eq!(t.get_function().unwrap(), 0);
    assert_eq!(t.get_scope_ctype().unwrap(), CType::Void);
}

#[test]
fn functions_get_identities_from_zero_and_their_scope_on_push() {
    let mut t = SymTable::new(0x20000000, 0x10000000);
    t.add_function(CType::Int, name("f"), vec![]).unwrap();
    t.add_function(CType::Float, name("g"), vec![CType::Int]).unwrap();
    assert_eq!(t.get_symbol(&name("f")).unwrap().address(), 0);
    assert_eq!(t.get_symbol(&name("g")).unwrap().address(), 1);
    assert_eq!(t.get_symbol(&name("g")).unwrap().scope(), 0);
    t.push_scope(1, &name("g"), CType::Float).unwrap();
    t.pop_scope().unwrap();
    let g = t.get_symbol(&name("g")).unwrap();
    assert_eq!(g.scope(), 1);
    assert_eq!(g.ctype(), CType::Float);
    assert_eq!(g.arguments().unwrap(), vec![CType::Int]);
    assert_eq!(t.get_symbol(&name("f")).unwrap().scope(), 0);
}

#[test]
fn lookup_walks_to_the_nearest_scope() {
    let mut t = SymTable::new(0x20000000, 0x10000000);
    t.add_symbol(CType::Int, name("a"), SymbolType::Global).unwrap();
    t.add_symbol(CType::Int, name("g"), SymbolType::Global).unwrap();
    t.add_function(CType::Void, name("f"), vec![]).unwrap();
    t.push_scope(0, &name("f"), CType::Void).unwrap();
    t.add_symbol(CType::Float, name("a"), SymbolType::Local).unwrap();
    assert_eq!(t.get_scope(&name("a")).unwrap(), 1);
    assert_eq!(t.get_symbol(&name("a")).unwrap().ctype(), CType::Float);
    assert_eq!(t.get_scope(&name("g")).unwrap(), 0);
    assert!(t.contains_symbol(&name("g")));
    assert!(!t.contains_symbol(&name("nowhere")));
    assert_eq!(t.get_scope(&name("nowhere")).unwrap_err().get_kind(), ErrorKind::SymTable);
    assert_eq!(t.get_symbol(&name("nowhere")).unwrap_err().get_kind(), ErrorKind::SymTable);
    assert_eq!(t.get_symbol_in_scope(&name("a"), 0).unwrap().ctype(), CType::Int);
    assert_eq!(
        t.get_symbol_in_scope(&name("g"), 1).unwrap_err().get_kind(),
        ErrorKind::SymTable
    );
    assert_eq!(
        t.get_symbol_in_scope(&name("g"), 7).unwrap_err().get_kind(),
        ErrorKind::SymTable
    );
    t.pop_scope().unwrap();
    assert_eq!(t.get_symbol(&name("a")).unwrap().ctype(), CType::Int);
}

#[test]
fn scope_errors() {
    let mut t = SymTable::new(0x20000000, 0x10000000);
    assert_eq!(t.pop_scope().unwrap_err().get_kind(), ErrorKind::SymTable);
    assert_eq!(t.switch_scope(1).unwrap_err().get_kind(), ErrorKind::SymTable);
    assert_eq!(t.get_function().unwrap_err().get_kind(), ErrorKind::SymTable);
    assert_eq!(t.get_scope_ctype().unwrap_err().get_kind(), ErrorKind::SymTable);
    let local = t.add_symbol(CType::Int, name("x"), SymbolType::Local);
    assert_eq!(local.unwrap_err().get_kind(), ErrorKind::SymTable);
    let argument = t.add_symbol(CType::Int, name("x"), SymbolType::Argument);
    assert_eq!(argument.unwrap_err().get_kind(), ErrorKind::SymTable);
    // a scope for a name that the root does not know stays, and the push fails
    assert_eq!(
        t.push_scope(0, &name("f"), CType::Void).unwrap_err().get_kind(),
        ErrorKind::SymTable
    );
    assert!(t.is_wf());
    let global = t.add_symbol(CType::Int, name("x"), SymbolType::Global);
    assert_eq!(global.unwrap_err().get_kind(), ErrorKind::SymTable);
    let function = t.add_function(CType::Int, name("g"), vec![]);
    assert_eq!(function.unwrap_err().get_kind(), ErrorKind::SymTable);
    t.pop_scope().unwrap();
    t.switch_scope(1).unwrap();
    t.switch_scope(0).unwrap();
}

#[test]
fn later_declaration_overwrites_and_keeps_its_place() {
    let mut t = SymTable::new(0x20000000, 0x10000000);
    t.add_symbol(CType::Str, name("s"), SymbolType::Str(name("\"one\""))).unwrap();
    t.add_symbol(CType::Str, name("u"), SymbolType::Str(name("\"two\""))).unwrap();
    t.add_symbol(CType::Str, name("s"), SymbolType::Str(name("\"three\""))).unwrap();
    assert_eq!(t.get_symbol(&name("s")).unwrap().address(), 0x10000008);
    assert_eq!(t.strings_in_asm(), "0x10000008 \"three\"\n0x10000004 \"two\"\n");
}

#[test]
fn addresses_that_are_used_up_fail() {
    let mut t = SymTable::new(0x7ffffffc, 0x10000000);
    let r = t.add_symbol(CType::Int, name("a"), SymbolType::Global);
    assert_eq!(r.unwrap_err().get_kind(), ErrorKind::SymTable);
    let mut t = SymTable::new(0x7ffffff8, 0x10000000);
    t.add_symbol(CType::Int, name("a"), SymbolType::Global).unwrap();
    assert_eq!(t.get_symbol(&name("a")).unwrap().address(), 0x7ffffff8);
}

#[test]
fn entries_answer_by_kind() {
    let symbol = Entry::Symbol { ctype: CType::Int, address: 8, symtype: SymbolType::Local };
    assert_eq!(symbol.ctype(), CType::Int);
    assert_eq!(symbol.address(), 8);
    assert_eq!(symbol.scope(), 0);
    assert_eq!(symbol.arguments().unwrap_err().get_kind(), ErrorKind::SymTable);
    assert_eq!(symbol.clone().set_scope(3), symbol);
    let function =
        Entry::Function { ctype: CType::Void, address: 2, arguments: vec![CType::Int], scope: 0 };
    assert_eq!(function.clone().set_scope(3).scope(), 3);
    assert_eq!(function.set_scope(3).address(), 2);
}

#[test]
fn scopes_of_both_kinds() {
    let mut g = global::Scope::new(100, 200);
    g.add_subscope(1);
    g.add_function(CType::Int, name("f"), vec![]).unwrap();
    g.add_symbol(CType::Int, name("a"), SymbolType::Global).unwrap();
    assert!(g.contains_symbol(&name("f")));
    assert_eq!(g.get_parent(), None);
    assert_eq!(g.get_symbol(&name("a")).unwrap().address(), 100);
    assert_eq!(g.get_addr_val(), (104, 200));
    assert_eq!(g.strings_in_asm(), "");
    g.set_function_scope(&name("f"), 1).unwrap();
    assert_eq!(g.get_symbol(&name("f")).unwrap().scope(), 1);
    assert!(g.set_function_scope(&name("nowhere"), 1).is_err());
    let mut l = local::Scope::new(4, 0, 8, 0, CType::Float);
    l.add_symbol(CType::Int, name("x"), SymbolType::Argument).unwrap();
    assert!(l.contains_symbol(&name("x")));
    assert_eq!(l.get_function(), 4);
    assert_eq!(l.get_parent(), Some(0));
    assert_eq!(l.get_offset_val(), (12, 0));
    assert_eq!(l.get_scope_ctype(), CType::Float);
    assert!(l.get_symbol(&name("y")).is_none());
    let mut s = Scope::Local(l);
    assert!(s.add_subscope(2).is_err());
    assert!(s.add_function(CType::Int, name("f"), vec![]).is_err());
    assert!(s.set_function_scope(&name("f"), 1).is_err());
    assert_eq!(s.get_parent(), Some(0));
    assert_eq!(s.get_function().unwrap(), 4);
    assert_eq!(s.get_scope_ctype().unwrap(), CType::Float);
    assert_eq!(s.get_addr_offset_val(), (12, 0));
    assert!(s.contains_symbol(&name("x")));
    assert_eq!(s.get_symbol(&name("x")).unwrap().address(), 12);
    s.add_symbol(CType::Int, name("a"), SymbolType::Local).unwrap();
    assert_eq!(s.get_addr_offset_val(), (12, -4));
}

#[test]
fn name_table_keeps_first_places() {
    let mut t = Table::new();
    let entry = |address: i32| Entry::Symbol {
        ctype: CType::Int,
        address,
        symtype: SymbolType::Global,
    };
    t.insert(name("a"), entry(1));
    t.insert(name("b"), entry(2));
    t.insert(name("a"), entry(3));
    assert_eq!(t.len(), 2);
    assert_eq!(t.name_at(0), "a");
    assert_eq!(t.entry_at(0).address(), 3);
    assert_eq!(t.find(&name("b")), Some(1));
    assert_eq!(t.find(&name("c")), None);
    assert!(t.contains(&name("a")));
    assert_eq!(t.get(&name("b")).unwrap().address(), 2);
}
