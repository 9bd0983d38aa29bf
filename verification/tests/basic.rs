//! Basic tests: resolving annotated functions into target specifications.

use propfuzz::{
    Attr, Directive, DirectiveArg, DirectiveValue, FnArg, FnDecl, PatType, PropfuzzFn,
};


fn engine_defaults() -> propfuzz::ResolvedConfig {
    let c = proptest::test_runner::Config::default();
    propfuzz::ResolvedConfig {
        cases: c.cases,
        max_local_rejects: c.max_local_rejects,
        max_global_rejects: c.max_global_rejects,
        max_flat_map_regens: c.max_flat_map_regens,
        fork: c.fork,
        timeout: c.timeout,
        max_shrink_time: c.max_shrink_time,
        max_shrink_iters: c.max_shrink_iters,
        verbose: c.verbose,
    }
}

fn doc(text: &str, span: u64) -> Attr {
    Attr::Doc {
        text: text.to_string(),
        span,
    }
}

fn kv_uint(key: &str, v: u32, span: u64) -> DirectiveArg {
    DirectiveArg::Meta(Directive {
        key: key.to_string(),
        value: Some(DirectiveValue::Uint(v)),
        span,
    })
}

fn kv_bool(key: &str, v: bool, span: u64) -> DirectiveArg {
    DirectiveArg::Meta(Directive {
        key: key.to_string(),
        value: Some(DirectiveValue::Bool(v)),
        span,
    })
}

fn kv_text(key: &str, v: &str, span: u64) -> DirectiveArg {
    DirectiveArg::Meta(Directive {
        key: key.to_string(),
        value: Some(DirectiveValue::Text(v.to_string())),
        span,
    })
}

fn plain_param(pat: &str, ty: &str, span: u64) -> FnArg {
    FnArg::Typed(PatType {
        pat: pat.to_string(),
        ty: ty.to_string(),
        attrs: vec![],
        span,
    })
}

fn add_two_decl() -> FnDecl {
    FnDecl {
        module: "basic".to_string(),
        name: "add_two".to_string(),
        attrs: vec![
            doc("Basic test for foo.", 1),
            doc("", 2),
            doc(
                "This is a simple test which ensures that adding two numbers returns the expected result.",
                3,
            ),
        ],
        inputs: vec![plain_param("a", "u64", 4), plain_param("b", "u64", 5)],
        span: 0,
    }
}

#[test]
fn propfuzz_add_two() {
    let target = PropfuzzFn::new(&vec![], &add_two_decl()).expect("resolution should succeed");
    assert_eq!(target.qualified_name(), "basic::add_two");
    assert_eq!(
        target.description,
        "Basic test for foo.\n\
        \n\
        This is a simple test which ensures that adding two numbers returns the expected result."
    );

    let config = target.config.proptest.resolve(&engine_defaults());
    assert_eq!(config.cases, 256, "correct case count");
    assert_eq!(config.fork, false, "correct fork setting");
}

#[test]
fn basic_propfuzz_add_two() {
    let target = PropfuzzFn::new(&vec![], &add_two_decl()).expect("resolution should succeed");
    assert_eq!(target.qualified_name(), "basic::add_two");
    assert_eq!(
        target.description,
        "Basic test for foo.\n\
        \n\
        This is a simple test which ensures that adding two numbers returns the expected result."
    );
}

#[test]
fn propfuzz_add_pair() {
    let item = FnDecl {
        module: "basic".to_string(),
        name: "add_pair".to_string(),
        attrs: vec![doc("Pairs should parse just like individual values.", 1)],
        inputs: vec![plain_param("(a, b)", "(u64, u64)", 2)],
        span: 0,
    };
    let attr = vec![kv_bool("fork", true, 3)];
    let target = PropfuzzFn::new(&attr, &item).expect("resolution should succeed");
    assert_eq!(target.qualified_name(), "basic::add_pair");
    assert_eq!(
        target.description,
        "Pairs should parse just like individual values."
    );

    let config = target.config.proptest.resolve(&engine_defaults());
    assert_eq!(config.cases, 256, "correct case count");
    assert_eq!(config.fork, true, "correct fork setting");
}

fn reverse_decl(doc_text: &str, name: &str) -> FnDecl {
    FnDecl {
        module: "basic".to_string(),
        name: name.to_string(),
        attrs: vec![doc(doc_text, 1)],
        inputs: vec![FnArg::Typed(PatType {
            pat: "mut list".to_string(),
            ty: "Vec<u32>".to_string(),
            attrs: vec![Attr::Propfuzz {
                args: vec![kv_text("strategy", "vec(any::<u32>(), 0..64)", 2)],
                span: 2,
            }],
            span: 3,
        })],
        span: 0,
    }
}

#[test]
fn propfuzz_reverse() {
    let attr = vec![kv_uint("cases", 1024, 4)];
    let item = reverse_decl(
        "Test that reversing a list twice produces the same results.",
        "reverse",
    );
    let target = PropfuzzFn::new(&attr, &item).expect("resolution should succeed");
    assert_eq!(target.qualified_name(), "basic::reverse");
    assert_eq!(
        target.description,
        "Test that reversing a list twice produces the same results."
    );

    let config = target.config.proptest.resolve(&engine_defaults());
    assert_eq!(config.cases, 1024, "correct case count");
    assert_eq!(config.fork, false, "correct fork setting");

    let strategies = target.body.strategies();
    assert_eq!(strategies.len(), 1);
    assert!(matches!(
        &strategies[0],
        propfuzz::StrategyExpr::Custom { expr } if expr == "vec(any::<u32>(), 0..64)"
    ));
}

#[test]
fn propfuzz_failing() {
    let item = reverse_decl(
        "This test fails. It is ignored by default and can be run with `cargo test -- --ignored`.",
        "failing",
    );
    let target = PropfuzzFn::new(&vec![], &item).expect("resolution should succeed");
    assert_eq!(target.qualified_name(), "basic::failing");
    assert_eq!(
        target.description,
        "This test fails. It is ignored by default and can be run with `cargo test -- --ignored`."
    );

    let config = target.config.proptest.resolve(&engine_defaults());
    assert_eq!(config.cases, 256, "correct case count");
    assert_eq!(config.fork, false, "correct fork setting");
}

#[test]
fn propfuzz_multi() {
    let item = FnDecl {
        module: "basic".to_string(),
        name: "multi".to_string(),
        attrs: vec![
            doc("Test multiple #[propfuzz] annotations.", 1),
            Attr::Propfuzz {
                args: vec![kv_bool("fork", true, 2)],
                span: 2,
            },
        ],
        inputs: vec![plain_param("_", "Vec<u8>", 3)],
        span: 0,
    };
    let attr = vec![kv_uint("cases", 1024, 4)];
    let target = PropfuzzFn::new(&attr, &item).expect("resolution should succeed");
    assert_eq!(target.qualified_name(), "basic::multi");
    assert_eq!(target.description, "Test multiple #[propfuzz] annotations.");

    let config = target.config.proptest.resolve(&engine_defaults());
    assert_eq!(config.cases, 1024, "correct case count");
    assert_eq!(config.fork, true, "correct fork setting");
}

#[test]
fn propfuzz_all_proptest_options() {
    let item = FnDecl {
        module: "basic".to_string(),
        name: "all_proptest_options".to_string(),
        attrs: vec![
            doc("Test all proptest options.", 1),
            Attr::Propfuzz {
                args: vec![
                    kv_uint("max_flat_map_regens", 4, 2),
                    kv_bool("fork", true, 3),
                    kv_uint("timeout", 5, 4),
                    kv_uint("max_shrink_time", 6, 5),
                ],
                span: 2,
            },
            Attr::Propfuzz {
                args: vec![kv_uint("max_shrink_iters", 7, 6), kv_uint("verbose", 8, 7)],
                span: 6,
            },
            Attr::Other { span: 8 },
        ],
        inputs: vec![plain_param("_", "u8", 9)],
        span: 0,
    };
    let attr = vec![
        kv_uint("cases", 1, 10),
        kv_uint("max_local_rejects", 2, 11),
        kv_uint("max_global_rejects", 3, 12),
    ];
    let target = PropfuzzFn::new(&attr, &item).expect("resolution should succeed");

    let config = target.config.proptest.resolve(&engine_defaults());
    assert_eq!(config.cases, 1);
    assert_eq!(config.max_local_rejects, 2);
    assert_eq!(config.max_global_rejects, 3);
    assert_eq!(config.max_flat_map_regens, 4);
    assert_eq!(config.fork, true);
    assert_eq!(config.timeout, 5);
    assert_eq!(config.max_shrink_time, 6);
    assert_eq!(config.max_shrink_iters, 7);
    assert_eq!(config.verbose, 8);
}
