//! The pool, the scopes and their place operations, item parsing, and the
//! assembler's emission and resolution helpers.

use rune_core::assembler::Assembler;
use rune_core::assembler::AsmScopes;
use rune_core::assembler::Assembly;
use rune_core::assembler::Context;
use rune_core::assembler::Inst;
use rune_core::assembler::LoopFrame;
use rune_core::assembler::Loops;
use rune_core::assembler::Needs;
use rune_core::error::CompileErrorKind;
use rune_core::error::IrErrorKind;
use rune_core::ir::IrAssignOp;
use rune_core::ir::IrTarget;
use rune_core::ir::IrTargetKind;
use rune_core::item::Attribute;
use rune_core::item::Item;
use rune_core::item::ParseErrorKind;
use rune_core::item::Parser;
use rune_core::item::Token;
use rune_core::item::TokenKind;
use rune_core::item::Visibility;
use rune_core::meta::ContextMeta;
use rune_core::meta::ContextMetaKind;
use rune_core::pool::Pool;
use rune_core::query::Query;
use rune_core::scopes::ScopeGuard;
use rune_core::scopes::Scopes;
use rune_core::span::Span;
use rune_core::value::ConstValue;
use rune_core::value::IrValue;
use rune_core::visitor::NoopCompileVisitor;
use rune_core::warning::Diagnostics;
use rune_core::warning::Warning;

fn sp() -> Span {
    Span { start: 0, end: 0 }
}

fn path(parts: &[&str]) -> Vec<String> {
    parts.iter().map(|p| p.to_string()).collect()
}

#[test]
fn interning_is_idempotent_and_injective() {
    let mut pool = Pool::new();
    let a1 = pool.intern(path(&["foo", "bar"]));
    let a2 = pool.intern(path(&["foo", "bar"]));
    let b = pool.intern(path(&["foo", "baz"]));
    assert_eq!(a1, a2);
    assert_ne!(a1, b);
    assert_eq!(pool.item(a1), &path(&["foo", "bar"]));
    assert_eq!(pool.item(b), &path(&["foo", "baz"]));
    assert_eq!(pool.get_id(&path(&["foo", "bar"])), Some(a1));
    assert_eq!(pool.get_id(&path(&["foo", "missing"])), None);
}

#[test]
fn scope_pop_requires_the_most_recent_guard() {
    let mut scopes = Scopes::new();
    let g1 = scopes.push();
    let g2 = scopes.push();
    // The guard of an outer push is refused while an inner scope is open.
    assert!(scopes.pop(g1).is_err());
    assert!(scopes.pop(g2).is_ok());
    assert!(scopes.pop(g1).is_ok());
    // A fabricated guard at the wrong depth is refused.
    assert!(scopes.pop(ScopeGuard { depth: 7 }).is_err());
}

#[test]
fn target_write_then_read_round_trip() {
    let mut scopes = Scopes::new();
    let name = IrTarget { span: sp(), kind: IrTargetKind::Name("a".to_string()) };
    scopes.set_target(&name, IrValue::Integer(11)).unwrap();
    assert_eq!(scopes.get_target(&name).unwrap(), IrValue::Integer(11));

    let obj = IrValue::Object(vec![("f".to_string(), IrValue::Integer(1))]);
    let o = IrTarget { span: sp(), kind: IrTargetKind::Name("o".to_string()) };
    scopes.set_target(&o, obj).unwrap();
    let field = IrTarget {
        span: sp(),
        kind: IrTargetKind::Field(
            Box::new(IrTarget { span: sp(), kind: IrTargetKind::Name("o".to_string()) }),
            "f".to_string(),
        ),
    };
    scopes.set_target(&field, IrValue::Integer(42)).unwrap();
    assert_eq!(scopes.get_target(&field).unwrap(), IrValue::Integer(42));

    let v = IrTarget { span: sp(), kind: IrTargetKind::Name("v".to_string()) };
    scopes
        .set_target(&v, IrValue::Vector(vec![IrValue::Integer(1), IrValue::Integer(2)]))
        .unwrap();
    let index = IrTarget {
        span: sp(),
        kind: IrTargetKind::Index(
            Box::new(IrTarget { span: sp(), kind: IrTargetKind::Name("v".to_string()) }),
            1,
        ),
    };
    scopes.set_target(&index, IrValue::Integer(9)).unwrap();
    assert_eq!(scopes.get_target(&index).unwrap(), IrValue::Integer(9));
}

#[test]
fn target_errors_report_what_is_missing() {
    let mut scopes = Scopes::new();
    let missing = IrTarget { span: sp(), kind: IrTargetKind::Name("nope".to_string()) };
    let err = scopes.get_target(&missing).unwrap_err();
    assert!(matches!(err.kind, IrErrorKind::MissingLocal { .. }));

    let o = IrTarget { span: sp(), kind: IrTargetKind::Name("o".to_string()) };
    scopes
        .set_target(&o, IrValue::Object(vec![("f".to_string(), IrValue::Integer(1))]))
        .unwrap();
    let bad_field = IrTarget {
        span: sp(),
        kind: IrTargetKind::Field(
            Box::new(IrTarget { span: sp(), kind: IrTargetKind::Name("o".to_string()) }),
            "g".to_string(),
        ),
    };
    let err = scopes.get_target(&bad_field).unwrap_err();
    assert!(matches!(err.kind, IrErrorKind::MissingField { .. }));

    let v = IrTarget { span: sp(), kind: IrTargetKind::Name("v".to_string()) };
    scopes
        .set_target(&v, IrValue::Vector(vec![IrValue::Integer(1)]))
        .unwrap();
    let bad_index = IrTarget {
        span: sp(),
        kind: IrTargetKind::Index(
            Box::new(IrTarget { span: sp(), kind: IrTargetKind::Name("v".to_string()) }),
            5,
        ),
    };
    let err = scopes.get_target(&bad_index).unwrap_err();
    assert!(matches!(err.kind, IrErrorKind::MissingIndex { index: 5 }));

    // Mutating a name bound only in an outer scope misses: mutation reads
    // the topmost scope alone.
    let g = scopes.push();
    let err = scopes
        .mut_target(&o, IrAssignOp::Add, &IrValue::Integer(1))
        .unwrap_err();
    assert!(matches!(err.kind, IrErrorKind::MissingLocal { .. }));
    scopes.pop(g).unwrap();
}

#[test]
fn mutation_applies_checked_arithmetic() {
    let mut scopes = Scopes::new();
    let a = IrTarget { span: sp(), kind: IrTargetKind::Name("a".to_string()) };
    scopes.set_target(&a, IrValue::Integer(10)).unwrap();
    scopes.mut_target(&a, IrAssignOp::Sub, &IrValue::Integer(4)).unwrap();
    assert_eq!(scopes.get_target(&a).unwrap(), IrValue::Integer(6));
    let err = scopes
        .mut_target(&a, IrAssignOp::Div, &IrValue::Integer(0))
        .unwrap_err();
    assert_eq!(err.kind, IrErrorKind::DivisionByZero);
}

fn token(kind: TokenKind) -> Token {
    Token { kind, span: sp() }
}

#[test]
fn needs_semi_colon() {
    let mut parser = Parser::new(vec![token(TokenKind::Ident)]);
    let item = Item::parse(&mut parser).unwrap();
    assert!(item.needs_semi_colon());
    let mut parser = Parser::new(vec![token(TokenKind::Use)]);
    let item = Item::parse(&mut parser).unwrap();
    assert!(!item.needs_semi_colon());
}

#[test]
fn has_unsupported_attributes() {
    let mut parser = Parser::new(vec![token(TokenKind::Fn)]);
    let item = Item::parse_with_meta(
        &mut parser,
        vec![Attribute { span: sp() }],
        Visibility::Inherited,
    )
    .unwrap();
    assert!(item.has_unsupported_attributes());
    let mut parser = Parser::new(vec![token(TokenKind::Fn)]);
    let item = Item::parse(&mut parser).unwrap();
    assert!(!item.has_unsupported_attributes());
}

#[test]
fn peek_as_stmt() {
    for kind in [
        TokenKind::Use,
        TokenKind::Enum,
        TokenKind::Struct,
        TokenKind::Impl,
        TokenKind::Fn,
        TokenKind::Mod,
        TokenKind::Const,
    ] {
        let parser = Parser::new(vec![token(kind)]);
        assert_eq!(Item::peek_as_stmt(&parser), Ok(true));
    }
    let parser = Parser::new(vec![token(TokenKind::Async), token(TokenKind::Fn)]);
    assert_eq!(Item::peek_as_stmt(&parser), Ok(true));
    let parser = Parser::new(vec![token(TokenKind::Async), token(TokenKind::Other)]);
    assert_eq!(Item::peek_as_stmt(&parser), Ok(false));
    let parser = Parser::new(vec![token(TokenKind::Async)]);
    assert_eq!(Item::peek_as_stmt(&parser), Ok(false));
    let parser = Parser::new(vec![token(TokenKind::Other)]);
    assert_eq!(Item::peek_as_stmt(&parser), Ok(false));
    let parser = Parser::new(vec![]);
    assert_eq!(Item::peek_as_stmt(&parser), Ok(false));
}

#[test]
fn parse_with_meta_checks_attributes_and_visibility() {
    // An impl block refuses a written visibility.
    let mut parser = Parser::new(vec![token(TokenKind::Impl)]);
    let err = Item::parse_with_meta(&mut parser, vec![], Visibility::Public(sp())).unwrap_err();
    assert_eq!(err.kind, ParseErrorKind::UnsupportedItemVisibility);

    // A macro call refuses attributes, and attributes are reported first.
    let mut parser = Parser::new(vec![token(TokenKind::Ident)]);
    let err = Item::parse_with_meta(
        &mut parser,
        vec![Attribute { span: sp() }],
        Visibility::Public(sp()),
    )
    .unwrap_err();
    assert_eq!(err.kind, ParseErrorKind::UnsupportedItemAttributes);

    // A macro call refuses a written visibility.
    let mut parser = Parser::new(vec![token(TokenKind::Ident)]);
    let err = Item::parse_with_meta(&mut parser, vec![], Visibility::Public(sp())).unwrap_err();
    assert_eq!(err.kind, ParseErrorKind::UnsupportedItemVisibility);

    // A token that opens no item is reported with its kind.
    let mut parser = Parser::new(vec![token(TokenKind::Other)]);
    let err = Item::parse(&mut parser).unwrap_err();
    assert_eq!(err.kind, ParseErrorKind::ExpectedItem { actual: TokenKind::Other });

    // The end of input is reported as such.
    let mut parser = Parser::new(vec![]);
    let err = Item::parse(&mut parser).unwrap_err();
    assert_eq!(err.kind, ParseErrorKind::UnexpectedEof);

    // An ordinary declaration takes its attributes and visibility.
    let mut parser = Parser::new(vec![token(TokenKind::Const)]);
    let item = Item::parse_with_meta(
        &mut parser,
        vec![Attribute { span: sp() }],
        Visibility::Public(sp()),
    )
    .unwrap();
    assert!(matches!(item, Item::ItemConst(_)));
}

fn assembler() -> Assembler<NoopCompileVisitor> {
    Assembler {
        source_id: 0,
        context: Context::new(),
        q: Query::new(Pool::new()),
        assembly: Assembly::new(),
        scopes: AsmScopes::new(),
        contexts: Vec::new(),
        loops: Loops::new(),
        diagnostics: Diagnostics::new(),
        visitor: NoopCompileVisitor::new(),
    }
}

fn registration(item: usize, parameters: u64, kind: ContextMetaKind) -> ContextMeta {
    ContextMeta { item, module: 0, parameters, kind }
}

#[test]
fn ambiguous_context_item_lists_every_registration() {
    let mut a = assembler();
    let f = a.q.intern(path(&["m", "f"]));
    a.context.register(registration(f, 0, ContextMetaKind::Fn));
    a.context
        .register(registration(f, 0, ContextMetaKind::Const { value: ConstValue::Integer(1) }));
    let err = a.lookup_meta(sp(), f, None).unwrap_err();
    match err.kind {
        CompileErrorKind::AmbiguousContextItem { item, infos } => {
            assert_eq!(item, f);
            assert_eq!(infos.len(), 2);
        },
        other => panic!("expected an ambiguity, got {:?}", other),
    }
}

#[test]
fn single_matching_registration_is_selected() {
    let mut a = assembler();
    let f = a.q.intern(path(&["m", "f"]));
    a.context.register(registration(f, 0, ContextMetaKind::Fn));
    // A macro registration never competes: macros are filtered out.
    a.context.register(registration(f, 0, ContextMetaKind::Macro));
    let meta = a.lookup_meta(sp(), f, None).unwrap();
    assert_eq!(meta.item_meta.item, f);
}

#[test]
fn missing_item_errors_depend_on_requested_parameters() {
    let mut a = assembler();
    let f = a.q.intern(path(&["m", "f"]));
    let err = a.lookup_meta(sp(), f, None).unwrap_err();
    assert!(matches!(err.kind, CompileErrorKind::MissingItem { item } if item == f));
    let err = a.lookup_meta(sp(), f, Some(9)).unwrap_err();
    assert!(
        matches!(err.kind, CompileErrorKind::MissingItemParameters { item, parameters }
            if item == f && parameters == 9)
    );
}

#[test]
fn locals_pop_emits_by_count() {
    let mut a = assembler();
    a.locals_pop(0, sp());
    assert_eq!(a.assembly.instructions().len(), 0);
    a.locals_pop(1, sp());
    assert_eq!(a.assembly.instructions()[0].0, Inst::Pop);
    a.locals_pop(3, sp());
    assert_eq!(a.assembly.instructions()[1].0, Inst::PopN { count: 3 });
    a.locals_clean(0, sp());
    assert_eq!(a.assembly.instructions().len(), 2);
    a.locals_clean(2, sp());
    assert_eq!(a.assembly.instructions()[2].0, Inst::Clean { count: 2 });
}

#[test]
fn clean_last_scope_keeps_the_top_when_a_value_is_needed() {
    let mut a = assembler();
    let guard = a.scopes.push_scope();
    a.scopes.decl_var().unwrap();
    a.scopes.decl_var().unwrap();
    a.clean_last_scope(sp(), guard, Needs::Value).unwrap();
    let instructions = a.assembly.instructions();
    assert_eq!(instructions.len(), 1);
    assert_eq!(instructions[0].0, Inst::Clean { count: 2 });

    let guard = a.scopes.push_scope();
    a.scopes.decl_var().unwrap();
    a.clean_last_scope(sp(), guard, Needs::Nothing).unwrap();
    let instructions = a.assembly.instructions();
    assert_eq!(instructions.len(), 2);
    assert_eq!(instructions[1].0, Inst::Pop);
}

#[test]
fn break_without_value_in_a_value_loop_warns_and_jumps() {
    let mut a = assembler();
    a.loops.enter(LoopFrame {
        start_label: 0,
        break_label: 1,
        expects_value: true,
        locals_at_entry: 0,
    });
    a.assemble_break(sp(), false).unwrap();
    let warnings = a.diagnostics.warnings.into_vec();
    assert_eq!(warnings.len(), 1);
    assert!(matches!(warnings[0], Warning::BreakDoesNotProduceValue { .. }));
    let instructions = a.assembly.instructions();
    assert_eq!(instructions.last().unwrap().0, Inst::Jump { label: 1 });
}

#[test]
fn break_outside_any_loop_is_an_error() {
    let mut a = assembler();
    assert!(a.assemble_break(sp(), false).is_err());
}

#[test]
fn warnings_accumulate_in_order() {
    let mut w = rune_core::warning::Warnings::new();
    assert!(w.is_empty());
    w.not_used(sp(), None);
    w.let_pattern_might_panic(sp(), Some(sp()));
    w.template_without_expansions(sp(), None);
    assert!(!w.is_empty());
    let all = w.into_vec();
    assert_eq!(all.len(), 3);
    assert!(matches!(all[0], Warning::NotUsed { .. }));
    assert!(matches!(all[1], Warning::LetPatternMightPanic { .. }));
    assert!(matches!(all[2], Warning::TemplateWithoutExpansions { .. }));
}

#[test]
fn budget_take_counts_down_to_an_error() {
    let mut budget = rune_core::budget::IrBudget::new(2);
    assert!(budget.take(sp()).is_ok());
    assert!(budget.take(sp()).is_ok());
    let err = budget.take(sp()).unwrap_err();
    assert_eq!(err.kind, IrErrorKind::BudgetExceeded);
}

#[test]
fn diagnostics_records_errors() {
    let mut d = Diagnostics::new();
    assert!(!d.has_errors());
    d.error(rune_core::error::CompileError {
        span: sp(),
        kind: CompileErrorKind::MissingItem { item: 3 },
    });
    assert!(d.has_errors());
    assert_eq!(d.errors.len(), 1);
}

