use rust_parser::analyzer::{analyze, RustVisitor};
use rust_parser::report::{ParseResult, TypeKind};
use rust_parser::syntax::{
    Arm, ExprCall, ExprMatch, File, ItemFn, ItemImpl, ItemStruct, ItemTrait, Member, Node, Param,
    SelfType, Visibility,
};
use rust_parser::text::{contains_text, is_io_call};

fn s(t: &str) -> String {
    t.to_string()
}

fn call(text: &str, children: Vec<Node>) -> Node {
    Node::Call(ExprCall { text: s(text), children })
}

fn func(name: &str, vis: Visibility, params: Vec<Param>, body: Vec<Node>) -> Node {
    Node::Fn(ItemFn { name: s(name), vis, is_async: false, params, body })
}

fn run(items: Vec<Node>) -> ParseResult {
    analyze(&File { items }).expect("complexity fits")
}

fn match_with_arms(n: usize) -> Node {
    let mut arms = Vec::new();
    for _ in 0..n {
        arms.push(Arm { nodes: vec![Node::Other(vec![])] });
    }
    Node::Match(ExprMatch { scrutinee: vec![Node::Other(vec![])], arms })
}

#[test]
fn add_example_yields_one_function_and_complexity_two() {
    let body = vec![Node::If(vec![
        Node::Other(vec![]),
        Node::Other(vec![Node::Other(vec![])]),
        Node::Other(vec![Node::Other(vec![])]),
    ])];
    let r = run(vec![func(
        "add",
        Visibility::Public,
        vec![Param::Typed(s("a: i32")), Param::Typed(s("b: i32"))],
        body,
    )]);
    assert_eq!(r.functions.len(), 1);
    let f = &r.functions[0];
    assert_eq!(f.name, "add");
    assert_eq!(f.arity, 2);
    assert_eq!(f.params, vec![s("a: i32"), s("b: i32")]);
    assert!(f.public);
    assert_eq!(f.async_fn, None);
    assert_eq!(r.complexity, 2);
}

#[test]
fn empty_file_has_empty_report() {
    let r = run(vec![]);
    assert!(r.functions.is_empty());
    assert!(r.structs.is_empty());
    assert!(r.traits.is_empty());
    assert!(r.impls.is_empty());
    assert!(r.imports.is_empty());
    assert!(r.dependencies.is_empty());
    assert!(r.side_effects.is_empty());
    assert_eq!(r.complexity, 1);
}

#[test]
fn new_visitor_starts_at_baseline() {
    let v = RustVisitor::new();
    assert_eq!(v.result.complexity, 1);
    assert!(v.result.functions.is_empty());
    assert!(v.result.side_effects.is_empty());
}

#[test]
fn straight_line_code_has_complexity_one() {
    let body = vec![
        call("foo (1)", vec![Node::Other(vec![])]),
        Node::Other(vec![call("bar (x , y)", vec![])]),
    ];
    let r = run(vec![func("f", Visibility::Inherited, vec![], body)]);
    assert_eq!(r.complexity, 1);
    assert_eq!(r.dependencies.len(), 2);
}

#[test]
fn match_adds_one_per_arm() {
    for n in [0usize, 1, 3, 5] {
        let r = run(vec![func("f", Visibility::Inherited, vec![], vec![match_with_arms(n)])]);
        assert_eq!(r.complexity, 1 + n as u64);
    }
}

#[test]
fn nested_constructs_are_all_counted() {
    let inner_if = Node::If(vec![Node::Other(vec![])]);
    let lp = Node::Loop(vec![Node::Other(vec![inner_if])]);
    let m = Node::Match(ExprMatch {
        scrutinee: vec![],
        arms: vec![Arm { nodes: vec![Node::Loop(vec![])] }, Arm { nodes: vec![] }],
    });
    let r = run(vec![func("f", Visibility::Inherited, vec![], vec![lp, m])]);
    // baseline 1, loop 1, if 1, match 2, loop in arm 1
    assert_eq!(r.complexity, 6);
}

#[test]
fn complexity_is_not_reset_per_function() {
    let a = func("a", Visibility::Inherited, vec![], vec![Node::If(vec![])]);
    let b = func("b", Visibility::Inherited, vec![], vec![Node::Loop(vec![])]);
    let r = run(vec![a, b]);
    assert_eq!(r.complexity, 3);
    assert_eq!(r.functions[0].name, "a");
    assert_eq!(r.functions[1].name, "b");
}

#[test]
fn zero_parameters_give_arity_zero() {
    let r = run(vec![func("main", Visibility::Inherited, vec![], vec![])]);
    assert_eq!(r.functions[0].arity, 0);
    assert!(r.functions[0].params.is_empty());
    assert!(!r.functions[0].public);
}

#[test]
fn receiver_is_rendered_as_self_and_counted() {
    let r = run(vec![func(
        "get",
        Visibility::Public,
        vec![Param::Receiver, Param::Typed(s("i : usize"))],
        vec![],
    )]);
    assert_eq!(r.functions[0].arity, 2);
    assert_eq!(r.functions[0].params, vec![s("self"), s("i : usize")]);
}

#[test]
fn async_flag_is_present_only_when_true() {
    let r = run(vec![Node::Fn(ItemFn {
        name: s("fetch"),
        vis: Visibility::Restricted,
        is_async: true,
        params: vec![],
        body: vec![],
    })]);
    assert_eq!(r.functions[0].async_fn, Some(true));
    assert!(!r.functions[0].public);
}

#[test]
fn one_import_entry_per_use_declaration() {
    let r = run(vec![
        Node::Use(s("use std :: collections :: { HashMap , HashSet } ;")),
        Node::Use(s("use std :: fs ;")),
        Node::Other(vec![Node::Use(s("use super :: x ;"))]),
    ]);
    assert_eq!(
        r.imports,
        vec![
            s("use std :: collections :: { HashMap , HashSet } ;"),
            s("use std :: fs ;"),
            s("use super :: x ;")
        ]
    );
}

#[test]
fn io_tag_appears_once_for_many_io_calls() {
    let body = vec![
        call("log (println!(\"a\"))", vec![]),
        call("File::open (p)", vec![]),
        call("emit (write!(w, \"x\"))", vec![]),
    ];
    let r = run(vec![func("f", Visibility::Inherited, vec![], body)]);
    assert_eq!(r.side_effects, vec![s("io_operation")]);
    assert_eq!(r.dependencies.len(), 3);
}

#[test]
fn no_io_tag_without_io_call() {
    let r = run(vec![func(
        "f",
        Visibility::Inherited,
        vec![],
        vec![call("compute (1 , 2)", vec![]), call("File :: open (p)", vec![])],
    )]);
    assert!(r.side_effects.is_empty());
}

#[test]
fn dependencies_keep_text_and_preorder() {
    let inner = call("g (x)", vec![]);
    let outer = call("f (g (x))", vec![Node::Other(vec![]), inner]);
    let r = run(vec![func("h", Visibility::Inherited, vec![], vec![outer])]);
    assert_eq!(r.dependencies.len(), 2);
    assert_eq!(r.dependencies[0].function, "f (g (x))");
    assert_eq!(r.dependencies[1].function, "g (x)");
    assert!(r.dependencies[0].module.is_none());
}

#[test]
fn nested_function_is_recorded_after_its_parent() {
    let inner = func("inner", Visibility::Inherited, vec![], vec![Node::If(vec![])]);
    let r = run(vec![func("outer", Visibility::Public, vec![], vec![Node::Other(vec![inner])])]);
    assert_eq!(r.functions.len(), 2);
    assert_eq!(r.functions[0].name, "outer");
    assert_eq!(r.functions[1].name, "inner");
    assert_eq!(r.complexity, 2);
}

#[test]
fn struct_lists_named_fields_only() {
    let r = run(vec![
        Node::Struct(ItemStruct {
            name: s("Point"),
            vis: Visibility::Public,
            fields: vec![Some(s("x")), Some(s("y"))],
        }),
        Node::Struct(ItemStruct {
            name: s("Pair"),
            vis: Visibility::Inherited,
            fields: vec![None, None],
        }),
    ]);
    assert_eq!(r.structs.len(), 2);
    assert_eq!(r.structs[0].name, "Point");
    assert_eq!(r.structs[0].kind, TypeKind::Struct);
    assert!(r.structs[0].public);
    assert_eq!(r.structs[0].fields, Some(vec![s("x"), s("y")]));
    assert!(r.structs[0].methods.is_none());
    assert_eq!(r.structs[1].fields, Some(vec![]));
    assert!(!r.structs[1].public);
}

#[test]
fn trait_lists_function_members() {
    let r = run(vec![Node::Trait(ItemTrait {
        name: s("Shape"),
        vis: Visibility::Public,
        members: vec![
            Member::Function(s("area"), vec![]),
            Member::Other,
            Member::Function(s("name"), vec![]),
        ],
    })]);
    assert_eq!(r.traits.len(), 1);
    assert_eq!(r.traits[0].kind, TypeKind::Trait);
    assert!(r.traits[0].public);
    assert_eq!(r.traits[0].methods, Some(vec![s("area"), s("name")]));
    assert!(r.traits[0].fields.is_none());
}

#[test]
fn impl_is_named_by_last_path_segment_or_unknown() {
    let r = run(vec![
        Node::Impl(ItemImpl {
            self_ty: SelfType::Path(vec![s("crate"), s("geo"), s("Point")]),
            members: vec![Member::Function(s("new"), vec![]), Member::Other],
        }),
        Node::Impl(ItemImpl { self_ty: SelfType::Other, members: vec![] }),
        Node::Impl(ItemImpl { self_ty: SelfType::Path(vec![]), members: vec![] }),
    ]);
    assert_eq!(r.impls.len(), 3);
    assert_eq!(r.impls[0].name, "Point");
    assert_eq!(r.impls[0].kind, TypeKind::Impl);
    assert!(!r.impls[0].public);
    assert_eq!(r.impls[0].methods, Some(vec![s("new")]));
    assert_eq!(r.impls[1].name, "unknown");
    assert_eq!(r.impls[2].name, "unknown");
}

#[test]
fn two_runs_give_the_same_report() {
    let build = || {
        vec![
            Node::Use(s("use a :: b ;")),
            func("f", Visibility::Public, vec![Param::Receiver], vec![
                match_with_arms(2),
                call("println!(\"x\")", vec![]),
            ]),
        ]
    };
    let a = format!("{:?}", run(build()));
    let b = format!("{:?}", run(build()));
    assert_eq!(a, b);
}

#[test]
fn contains_text_finds_substrings() {
    assert!(contains_text("abc", ""));
    assert!(contains_text("abc", "abc"));
    assert!(contains_text("xxabcxx", "bc"));
    assert!(!contains_text("ab", "abc"));
    assert!(!contains_text("acb", "ab"));
    assert!(contains_text("héllo", "él"));
}

#[test]
fn io_call_patterns() {
    assert!(is_io_call("println!(\"a\")"));
    assert!(is_io_call("x (print!(\"a\"))"));
    assert!(is_io_call("w (write!(f, \"a\"))"));
    assert!(is_io_call("File::create (p)"));
    assert!(!is_io_call("printer (x)"));
    assert!(!is_io_call("File :: open (p)"));
}

#[test]
fn match_in_impl_method_is_counted() {
    // struct S; impl S { fn f(&self, x: u8) -> u8 { match x { 0 => 1, _ => 2 } } }
    let r = run(vec![
        Node::Struct(ItemStruct { name: s("S"), vis: Visibility::Inherited, fields: vec![] }),
        Node::Impl(ItemImpl {
            self_ty: SelfType::Path(vec![s("S")]),
            members: vec![Member::Function(s("f"), vec![match_with_arms(2)])],
        }),
    ]);
    assert_eq!(r.complexity, 3);
    assert_eq!(r.impls[0].methods, Some(vec![s("f")]));
    assert!(r.functions.is_empty());
}

#[test]
fn use_in_impl_method_is_an_import() {
    // impl S { fn g() { use std::fmt; } }
    let r = run(vec![Node::Impl(ItemImpl {
        self_ty: SelfType::Path(vec![s("S")]),
        members: vec![Member::Function(s("g"), vec![Node::Use(s("use std::fmt;"))])],
    })]);
    assert_eq!(r.imports, vec![s("use std::fmt;")]);
}

#[test]
fn trait_default_bodies_are_walked_in_order() {
    let r = run(vec![Node::Trait(ItemTrait {
        name: s("T"),
        vis: Visibility::Inherited,
        members: vec![
            Member::Function(s("a"), vec![call("first()", vec![])]),
            Member::Function(s("b"), vec![]),
            Member::Function(s("c"), vec![Node::Loop(vec![call("second()", vec![])])]),
        ],
    })]);
    assert_eq!(r.complexity, 2);
    assert_eq!(r.dependencies.len(), 2);
    assert_eq!(r.dependencies[0].function, "first()");
    assert_eq!(r.dependencies[1].function, "second()");
}
