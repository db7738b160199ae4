use dang::compiler::symbol_table::{SymbolEntry, SymbolScope, SymbolTable};
use dang::intern::interner::Symbol;

#[test]
fn define() {
        let mut global = SymbolTable::new();
        let symbol_a = Symbol(0);
        let symbol_b = Symbol(1);

        let a = global.define(&symbol_a);
        assert_eq!(
            a,
            SymbolEntry {
                name: symbol_a,
                scope: SymbolScope::GlobalScope,
                index: 0
            },
        );

        let b = global.define(&symbol_b);
        assert_eq!(
            b,
            SymbolEntry {
                name: symbol_b,
                scope: SymbolScope::GlobalScope,
                index: 1
            },
        );
    }

#[test]
fn resolve_global() {
        let mut global = SymbolTable::new();
        let symbol_a = Symbol(0);
        let symbol_b = Symbol(1);

        global.define(&symbol_a);
        global.define(&symbol_b);

        let expected = [
            SymbolEntry {
                name: symbol_a,
                scope: SymbolScope::GlobalScope,
                index: 0,
            },
            SymbolEntry {
                name: symbol_b,
                scope: SymbolScope::GlobalScope,
                index: 1,
            },
        ];

        for sym in expected {
            assert_eq!(global.resolve(&sym.name), Some(sym));
        }
    }
