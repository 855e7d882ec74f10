use montyc::ast::{Ast, AstNode, ClassDef, FunctionDef, Import, Module, Return};
use montyc::class::Class;
use montyc::context::global::GlobalContext;
use montyc::context::imports::{ImportError, ImportStep, LoadStack};
use montyc::context::{
    matches_module, search, shorten, shorten_components, DirEntry, EntryKind, ImportSearch,
    ModuleRef, SearchStep,
};
use montyc::error::{Diagnostic, Headline, Label, LabelStyle, LabelText, MontyError, Note};
use montyc::interpreter::scope::DynamicScope;
use montyc::ribs::Ribs;
use montyc::scope::{collect_subnodes, Builtin, Builtins, LocalScope, OpaqueScope, ScopeRoot};
use montyc::span::{Span, SpanInterner};
use montyc::typing::{FunctionType, TypeDescriptor, TypeMap};

fn file(name: &str) -> DirEntry {
    DirEntry { file_name: name.as_bytes().to_vec(), kind: EntryKind::File }
}

fn dir(name: &str) -> DirEntry {
    DirEntry { file_name: name.as_bytes().to_vec(), kind: EntryKind::Dir }
}

#[test]
fn a_module_is_a_py_file_or_a_directory() {
    assert!(matches_module(&file("os.py"), b"os"));
    assert!(!matches_module(&file("os.pyc"), b"os"));
    assert!(!matches_module(&file("os"), b"os"));
    assert!(!matches_module(&file("os.tar.py"), b"os"));
    assert!(!matches_module(&file("os.tar.py"), b"os.tar"));
    assert!(!matches_module(&file("sys.py"), b"os"));
    assert!(!matches_module(&file(".py"), b""));
    assert!(matches_module(&dir("os"), b"os"));
    assert!(matches_module(&dir("os.d"), b"os"));
    assert!(matches_module(&dir(".git"), b".git"));
    assert!(!matches_module(&dir("osx"), b"os"));
    assert!(!matches_module(
        &DirEntry { file_name: b"os.py".to_vec(), kind: EntryKind::Other },
        b"os"
    ));
}

#[test]
fn the_first_matching_entry_wins() {
    let entries = vec![file("a.txt"), dir("pkg"), file("pkg.py"), file("b.py")];
    assert_eq!(search(&entries, b"pkg"), Some(1));
    assert_eq!(search(&entries, b"b"), Some(3));
    assert_eq!(search(&entries, b"a"), None);
    assert_eq!(search(&vec![], b"a"), None);
}

#[test]
fn an_import_is_searched_below_each_root() {
    let roots = vec![b".".to_vec(), b"/lib/std".to_vec()];
    let qualname = vec![b"pkg".to_vec(), b"mod".to_vec()];
    let (mut searching, step) = ImportSearch::start(roots, qualname);
    assert_eq!(step, SearchStep::ReadDir(b".".to_vec()));
    // The current directory has the package, but the package lacks the module.
    let step = searching.next(&vec![file("main.py"), dir("pkg")]);
    assert_eq!(step, SearchStep::ReadDir(b"./pkg".to_vec()));
    let step = searching.next(&vec![file("other.py")]);
    assert_eq!(step, SearchStep::ReadDir(b"/lib/std".to_vec()));
    let step = searching.next(&vec![dir("pkg")]);
    assert_eq!(step, SearchStep::ReadDir(b"/lib/std/pkg".to_vec()));
    assert!(searching.is_searching());
    let step = searching.next(&vec![file("mod.pyc"), file("mod.py")]);
    assert_eq!(step, SearchStep::Found(b"/lib/std/pkg/mod.py".to_vec()));
    assert!(!searching.is_searching());
}

#[test]
fn an_import_that_is_nowhere_is_not_found() {
    let (mut searching, step) = ImportSearch::start(vec![b".".to_vec()], vec![b"gone".to_vec()]);
    assert_eq!(step, SearchStep::ReadDir(b".".to_vec()));
    assert!(searching.is_searching());
    assert_eq!(searching.next(&vec![file("here.py")]), SearchStep::NotFound);
    assert!(!searching.is_searching());
    let (_, step) = ImportSearch::start(vec![], vec![b"gone".to_vec()]);
    assert_eq!(step, SearchStep::NotFound);
}

#[test]
fn the_compilers_own_module_is_found_at_once() {
    let (searching, step) = ImportSearch::start(vec![b".".to_vec()], vec![b"__monty".to_vec()]);
    assert_eq!(step, SearchStep::OwnModule);
    assert!(searching.is_searching());
    let (_, step) = ImportSearch::start(vec![], vec![b"__monty".to_vec()]);
    assert_eq!(step, SearchStep::OwnModule);
    let (_, step) =
        ImportSearch::start(vec![b".".to_vec()], vec![b"__monty".to_vec(), b"x".to_vec()]);
    assert_eq!(step, SearchStep::ReadDir(b".".to_vec()));
}

#[test]
fn paths_are_shortened_to_two_parts() {
    assert_eq!(shorten("/usr/lib/monty/builtins.py"), "monty/builtins.py");
    assert_eq!(shorten("builtins.py"), "builtins.py");
    assert_eq!(shorten(""), "");
    let parts = vec!["a".to_string(), "b".to_string(), "c".to_string()];
    assert_eq!(shorten_components(&parts), "b/c");
    assert_eq!(shorten_components(&parts[..1].to_vec()), "a");
    assert_eq!(shorten_components(&vec![]), "");
}

#[test]
fn modules_are_registered_once() {
    let mut ctx = GlobalContext::new();
    let key = ModuleRef("a.py".to_string());
    assert_eq!(ctx.module_index(&key), None);
    let pass = ctx.ast.add(AstNode::Pass, Span { start: 0, end: 4 }).unwrap();
    let back = ctx.register_module(Module { body: vec![pass] }, key.clone(), b"pass".to_vec());
    assert_eq!(back, key);
    assert!(key.same_as(&back));
    assert_eq!(key.duplicate(), key);
    assert_eq!(ctx.module_index(&key), Some(0));
    assert_eq!(ctx.module_index(&ModuleRef("b.py".to_string())), None);
    assert_eq!(ctx.modules[0].scope.nodes, vec![pass]);
    assert_eq!(ctx.modules[0].scope.root(), ScopeRoot::Module);
    assert_eq!(ctx.modules[0].source, b"pass".to_vec());
    ctx.register_module(Module { body: vec![] }, ModuleRef("b.py".to_string()), Vec::new());
    assert_eq!(ctx.module_index(&ModuleRef("b.py".to_string())), Some(1));
    let (ribs, types) = ctx.check_module(0).unwrap();
    assert_eq!(ribs.len(), 0);
    assert_eq!(types, vec![None]);
}

#[test]
fn classes_are_found_in_their_module() {
    let mut ctx = GlobalContext::new();
    let at = Span { start: 0, end: 0 };
    let a = ctx.interner.intern(b"A", at);
    let b = ctx.interner.intern(b"B", at);
    let first = ctx.ast.add(AstNode::ClassDef(ClassDef { name: a, decorator_list: vec![], body: vec![] }), at).unwrap();
    let second = ctx.ast.add(AstNode::ClassDef(ClassDef { name: b, decorator_list: vec![], body: vec![] }), at).unwrap();
    let key = ModuleRef("m.py".to_string());
    ctx.register_module(Module { body: vec![first, second] }, key.clone(), Vec::new());
    let again = ctx.interner.intern(b"B", at);
    assert_eq!(ctx.get_class_from_module(&key, again), Some(second));
    assert_eq!(ctx.get_class_from_module(&key, a), Some(first));
    let c = ctx.interner.intern(b"C", at);
    assert_eq!(ctx.get_class_from_module(&key, c), None);
    assert_eq!(ctx.get_class_from_module(&ModuleRef("n.py".to_string()), a), None);
}

#[test]
fn a_scope_does_not_enter_function_bodies() {
    let mut ast = Ast::new();
    let mut interner = SpanInterner::new();
    let at = Span { start: 0, end: 0 };
    let one = ast.add(AstNode::Int(1), at).unwrap();
    let ret = ast.add(AstNode::Ret(Return { value: Some(one) }), at).unwrap();
    let f = interner.intern(b"f", at);
    let def = ast
        .add(
            AstNode::FuncDef(FunctionDef {
                name: f,
                reciever: None,
                args: vec![],
                body: vec![ret],
                decorator_list: vec![],
                returns: None,
            }),
            at,
        )
        .unwrap();
    let c = interner.intern(b"C", at);
    let class = ast
        .add(AstNode::ClassDef(ClassDef { name: c, decorator_list: vec![], body: vec![def] }), at)
        .unwrap();
    let two = ast.add(AstNode::Int(2), at).unwrap();
    let module = Module { body: vec![class, two] };
    let scope = OpaqueScope::from_module(&ast, &module, ModuleRef("m.py".to_string()));
    assert_eq!(scope.nodes, vec![class, def, two]);
    assert!(scope.may_contain_annotations(&ast));
    let inner = OpaqueScope::from_root(&ast, def);
    assert_eq!(inner.nodes, vec![ret, one]);
    assert_eq!(inner.root(), ScopeRoot::AstObject(def));
    assert!(!inner.may_contain_annotations(&ast));
    assert!(OpaqueScope::from_root(&ast, class).may_contain_annotations(&ast));
    assert_eq!(collect_subnodes(&ast, &vec![class, 99], ast.len()), vec![class, def, 99]);
    assert!(OpaqueScope::from_root(&ast, 99).nodes.is_empty());
    let dynamic = DynamicScope::new(ScopeRoot::Class(class), ModuleRef("m.py".to_string()));
    assert!(dynamic.may_contain_annotations(&ast));
    let dynamic = DynamicScope::new(ScopeRoot::Func(def), ModuleRef("m.py".to_string()));
    assert!(!dynamic.may_contain_annotations(&ast));
    assert_eq!(scope.position_of(two), 2);
    assert_eq!(scope.position_of(ret), 3);
}

#[test]
fn the_arena_refuses_forward_references() {
    let mut ast = Ast::new();
    let at = Span { start: 0, end: 0 };
    assert_eq!(ast.add(AstNode::Ret(Return { value: Some(0) }), at), None);
    assert_eq!(ast.len(), 0);
    assert_eq!(ast.add(AstNode::Int(1), at), Some(0));
    assert_eq!(ast.add(AstNode::Ret(Return { value: Some(0) }), at), Some(1));
    assert_eq!(ast.add(AstNode::Tuple(vec![0, 1, 2]), at), None);
    assert_eq!(ast.add(AstNode::Tuple(vec![0, 1]), at), Some(2));
    assert!(ast.get(3).is_none());
    assert_eq!(ast.get(2).unwrap().inner.walk_all(), vec![0, 1]);
    assert_eq!(ast.get(2).unwrap().inner.walk(), vec![0, 1]);
}

#[test]
fn dotted_names_fall_into_components() {
    let mut ast = Ast::new();
    let mut interner = SpanInterner::new();
    let at = Span { start: 0, end: 0 };
    let a = interner.intern(b"a", at);
    let b = interner.intern(b"b", at);
    let c = interner.intern(b"c", at);
    let first = ast.add(AstNode::Name(a), at).unwrap();
    let second = ast.add(AstNode::Attr { left: first, attr: b }, at).unwrap();
    let third = ast.add(AstNode::Attr { left: second, attr: c }, at).unwrap();
    let number = ast.add(AstNode::Int(1), at).unwrap();
    let bad = ast.add(AstNode::Attr { left: number, attr: c }, at).unwrap();
    assert_eq!(ast.components(third), Some(vec![a, b, c]));
    assert_eq!(ast.components(first), Some(vec![a]));
    assert_eq!(ast.components(number), None);
    assert_eq!(ast.components(bad), None);
    assert_eq!(ast.components(99), None);
    let import = ast.add(AstNode::Import(Import { module: Some(first), names: vec![second] }), at).unwrap();
    assert_eq!(ast.get(import).unwrap().inner.walk_all(), vec![first, second]);
}

#[test]
fn methods_are_unified_by_name_and_arguments() {
    let mut interner = SpanInterner::new();
    let mut types = TypeMap::new();
    let at = Span { start: 0, end: 0 };
    let add = interner.intern(b"__add__", at);
    let sub = interner.intern(b"__sub__", at);
    let int_add = types.intern(TypeDescriptor::Function(FunctionType {
        name: add,
        reciever: Some(TypeMap::INTEGER),
        args: vec![TypeMap::INTEGER],
        ret: TypeMap::INTEGER,
    }));
    let str_sub = types.intern(TypeDescriptor::Function(FunctionType {
        name: sub,
        reciever: Some(TypeMap::INTEGER),
        args: vec![TypeMap::STRING],
        ret: TypeMap::BOOL,
    }));
    let ast = Ast::new();
    let class = Class {
        scope: LocalScope { inner: OpaqueScope::from_root(&ast, 0) },
        kind: TypeMap::INTEGER,
        properties: vec![(sub, str_sub), (add, int_add)],
    };
    let template = |name, arg| FunctionType { name, reciever: None, args: vec![arg], ret: TypeMap::UNKNOWN };
    let again = interner.intern(b"__add__", at);
    assert_eq!(class.try_unify_method(&types, &template(again, TypeMap::INTEGER)), Some(TypeMap::INTEGER));
    assert_eq!(class.try_unify_method(&types, &template(sub, TypeMap::STRING)), Some(TypeMap::BOOL));
    assert_eq!(class.try_unify_method(&types, &template(add, TypeMap::STRING)), None);
    let mul = interner.intern(b"__mul__", at);
    assert_eq!(class.try_unify_method(&types, &template(mul, TypeMap::INTEGER)), None);
}

#[test]
fn ribs_keep_the_first_binding() {
    let mut ribs = Ribs::new();
    let first = Span { start: 1, end: 2 };
    let second = Span { start: 3, end: 4 };
    assert_eq!(ribs.add(7, TypeMap::INTEGER, first), Ok(()));
    assert_eq!(ribs.add(7, TypeMap::INTEGER, second), Ok(()));
    let refused = ribs.add(7, TypeMap::STRING, second).unwrap_err();
    assert_eq!((refused.group, refused.type_id, refused.span), (7, TypeMap::INTEGER, first));
    assert_eq!(ribs.get(7).unwrap().span, first);
    assert_eq!(ribs.get(8), None);
    assert_eq!(ribs.add(8, TypeMap::STRING, second), Ok(()));
    assert_eq!(ribs.len(), 2);
    assert_eq!(ribs.entry(0).unwrap().group, 7);
    assert_eq!(ribs.entry(1).unwrap().group, 8);
    assert_eq!(ribs.entry(2), None);
}

#[test]
fn errors_become_diagnostics() {
    let mut ast = Ast::new();
    let mut interner = SpanInterner::new();
    let int = interner.intern(b"int", Span { start: 12, end: 15 });
    let annotation = ast.add(AstNode::Name(int), Span { start: 12, end: 15 }).unwrap();
    let text = interner.intern(b"\"s\"", Span { start: 28, end: 31 });
    let value = ast.add(AstNode::Str(text), Span { start: 28, end: 31 }).unwrap();
    let ret = ast.add(AstNode::Ret(Return { value: Some(value) }), Span { start: 21, end: 31 }).unwrap();
    let bare = ast.add(AstNode::Ret(Return { value: None }), Span { start: 40, end: 46 }).unwrap();
    let f = interner.intern(b"f", Span { start: 4, end: 5 });
    let def = ast
        .add(
            AstNode::FuncDef(FunctionDef {
                name: f,
                reciever: None,
                args: vec![],
                body: vec![ret],
                decorator_list: vec![],
                returns: Some(annotation),
            }),
            Span { start: 0, end: 31 },
        )
        .unwrap();
    let error = MontyError::BadReturnType {
        expected: TypeMap::INTEGER,
        actual: TypeMap::STRING,
        ret_node: ret,
        def_node: Some(def),
    };
    assert_eq!(
        error.into_diagnostic(&ast, &interner),
        Diagnostic {
            headline: Headline::IncompatibleReturnType,
            labels: vec![
                Label {
                    style: LabelStyle::Primary,
                    span: Span { start: 28, end: 31 },
                    text: LabelText::ValueReturnedInstead,
                },
                Label {
                    style: LabelStyle::Secondary,
                    span: Span { start: 12, end: 15 },
                    text: LabelText::DeclaredToReturn { type_id: TypeMap::INTEGER },
                },
            ],
            notes: vec![Note::Expected(TypeMap::INTEGER), Note::Actual(TypeMap::STRING)],
        }
    );
    let error = MontyError::BadReturnType {
        expected: TypeMap::INTEGER,
        actual: TypeMap::NONE_TYPE,
        ret_node: bare,
        def_node: None,
    };
    let shown = error.into_diagnostic(&ast, &interner);
    assert_eq!(
        shown.labels,
        vec![
            Label {
                style: LabelStyle::Primary,
                span: Span { start: 40, end: 46 },
                text: LabelText::NoneReturnedHere,
            },
            Label {
                style: LabelStyle::Secondary,
                span: Span { start: 0, end: 0 },
                text: LabelText::ExpectedToReturnNone,
            },
        ]
    );
    let error = MontyError::MissingReturn {
        expected: TypeMap::INTEGER,
        actual: TypeMap::NONE_TYPE,
        def_node: Some(def),
    };
    let shown = error.into_diagnostic(&ast, &interner);
    assert_eq!(shown.headline, Headline::MissingReturn);
    assert_eq!(shown.labels[0].span, Span { start: 0, end: 31 });
    assert_eq!(shown.labels[0].text, LabelText::ImplicitReturn);
    assert_eq!(shown.labels[1].span, Span { start: 12, end: 15 });
    assert!(shown.notes.is_empty());
    let shown = MontyError::UndefinedVariable { node: annotation }.into_diagnostic(&ast, &interner);
    assert_eq!(shown.headline, Headline::UndefinedVariable);
    assert_eq!(
        shown.labels,
        vec![Label {
            style: LabelStyle::Primary,
            span: Span { start: 12, end: 15 },
            text: LabelText::NotDefined { name: Some(int) },
        }]
    );
    let shown = MontyError::UnknownType { node: value }.into_diagnostic(&ast, &interner);
    assert_eq!(shown.labels[0].text, LabelText::AnnotateThisName);
    let shown = MontyError::BadArgumentType {
        expected: TypeMap::INTEGER,
        actual: TypeMap::STRING,
        index: 0,
        arg_node: value,
        def_node: Some(def),
    }
    .into_diagnostic(&ast, &interner);
    assert_eq!(shown.headline, Headline::IncompatibleArgumentType);
    assert_eq!(shown.labels.len(), 2);
    assert_eq!(shown.labels[0].text, LabelText::ArgumentEvaluatesTo { actual: TypeMap::STRING });
    assert_eq!(shown.labels[1].text, LabelText::FunctionExpected { expected: TypeMap::INTEGER });
    assert_eq!(shown.labels[0].span, Span { start: 28, end: 31 });
    // The function is shown by its name, not by its whole definition.
    assert_eq!(shown.labels[1].span, Span { start: 4, end: 5 });
    let elsewhere = SpanInterner::new();
    let shown = MontyError::BadArgumentType {
        expected: TypeMap::INTEGER,
        actual: TypeMap::STRING,
        index: 0,
        arg_node: value,
        def_node: Some(def),
    }
    .into_diagnostic(&ast, &elsewhere);
    assert_eq!(shown.labels[1].span, Span { start: 0, end: 31 });
    let shown = MontyError::InferenceFailure.into_diagnostic(&ast, &interner);
    assert_eq!(shown.headline, Headline::InferenceFailure);
    assert!(shown.labels.is_empty());
}

#[test]
fn a_module_is_not_loaded_while_it_is_being_loaded() {
    let a = ModuleRef("a.py".to_string());
    let b = ModuleRef("pkg/b.py".to_string());
    let mut loading = LoadStack::new();
    assert_eq!(loading.depth(), 0);
    assert_eq!(loading.place_of(&a), None);
    assert_eq!(loading.begin(a.clone()), Ok(()));
    assert_eq!(loading.begin(b.clone()), Ok(()));
    assert_eq!(loading.place_of(&a), Some(0));
    assert_eq!(loading.place_of(&b), Some(1));
    assert_eq!(loading.begin(a.clone()), Err(ImportError::CyclicImport { depth: 0 }));
    assert_eq!(loading.begin(b.clone()), Err(ImportError::CyclicImport { depth: 1 }));
    assert_eq!(loading.depth(), 2);
    assert_eq!(loading.finish(), Some(b.clone()));
    assert_eq!(loading.begin(b.clone()), Ok(()));
    assert_eq!(loading.finish(), Some(b));
    assert_eq!(loading.finish(), Some(a));
    assert_eq!(loading.finish(), None);
    assert_eq!(loading.depth(), 0);
}

#[test]
fn an_import_is_loaded_known_or_circular() {
    let a = ModuleRef("a.py".to_string());
    let b = ModuleRef("b.py".to_string());
    let mut ctx = GlobalContext::new();
    let mut loading = LoadStack::new();
    assert_eq!(ctx.import_step(&loading, &a), Ok(ImportStep::Load));
    assert_eq!(loading.begin(a.clone()), Ok(()));
    assert_eq!(ctx.import_step(&loading, &a), Err(ImportError::CyclicImport { depth: 0 }));
    assert_eq!(ctx.import_step(&loading, &b), Ok(ImportStep::Load));
    ctx.register_module(Module { body: vec![] }, a.clone(), Vec::new());
    // Being loaded counts before being registered.
    assert_eq!(ctx.import_step(&loading, &a), Err(ImportError::CyclicImport { depth: 0 }));
    assert_eq!(loading.finish(), Some(a.clone()));
    assert_eq!(ctx.import_step(&loading, &a), Ok(ImportStep::Known(0)));
    assert_eq!(ctx.import_step(&loading, &b), Ok(ImportStep::Load));
}

#[test]
fn a_new_state_holds_the_builtin_types_and_nothing_else() {
    let ctx = GlobalContext::new();
    assert_eq!(ctx.ast.len(), 0);
    assert!(ctx.modules.is_empty());
    assert!(ctx.functions.is_empty());
    assert!(ctx.classes.is_empty());
    assert_eq!(ctx.declarations.get(0), None);
    assert_eq!(ctx.interner.find_group(b"int"), None);
    assert_eq!(ctx.interner.group_text(0), None);
    assert_eq!(ctx.type_map.len(), 12);
    assert!(ctx.builtins.entries.is_empty());
    assert!(ctx.builtins.mref.is_none());
    assert_eq!(ctx.store.graph.node_count(), 0);
    assert_eq!(ctx.store.graph.index_of_string(0), None);
    assert_eq!(ctx.store.graph.index_of_alloc(0), None);
    assert_eq!(ctx.store.type_of(0), None);
    assert_eq!(ctx.store.class_of(2), None);
    assert!(ctx.libstd.is_empty());
}

#[test]
fn a_builtin_type_stands_once() {
    let mut interner = SpanInterner::new();
    let int = interner.intern(b"int", Span { start: 0, end: 3 });
    let text = interner.intern(b"str", Span { start: 4, end: 7 });
    let mut builtins = Builtins { entries: Vec::new(), mref: None };
    builtins.insert(Builtin { type_id: TypeMap::INTEGER, name: int, class: 1 });
    builtins.insert(Builtin { type_id: TypeMap::STRING, name: text, class: 2 });
    assert_eq!(builtins.entries.len(), 2);
    // A second class for a type takes the place of the first.
    builtins.insert(Builtin { type_id: TypeMap::INTEGER, name: int, class: 5 });
    assert_eq!(builtins.entries.len(), 2);
    assert_eq!(builtins.entries[0], Builtin { type_id: TypeMap::INTEGER, name: int, class: 5 });
    assert_eq!(builtins.entries[1], Builtin { type_id: TypeMap::STRING, name: text, class: 2 });
    assert!(builtins.mref.is_none());
}
