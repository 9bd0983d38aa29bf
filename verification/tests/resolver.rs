//! Diagnostic behaviour of the resolver: duplicates, wrong kinds,
//! unrecognized keys, malformed directives, structural errors, and
//! aggregation across a whole pass.

use propfuzz::{
    Attr, DiagnosticKind, Directive, DirectiveArg, DirectiveValue, ErrorList, FnArg, FnDecl,
    ParamConfigBuilder, PatType, PropfuzzConfigBuilder, PropfuzzFn, StrategyExpr,
};

fn kv_uint(key: &str, v: u32, span: u64) -> DirectiveArg {
    DirectiveArg::Meta(Directive {
        key: key.to_string(),
        value: Some(DirectiveValue::Uint(v)),
        span,
    })
}

fn kv_bool(key: &str, v: bool, span: u64) -> DirectiveArg {
    DirectiveArg::Meta(Directive {
        key: key.to_string(),
        value: Some(DirectiveValue::Bool(v)),
        span,
    })
}

fn kv_text(key: &str, v: &str, span: u64) -> DirectiveArg {
    DirectiveArg::Meta(Directive {
        key: key.to_string(),
        value: Some(DirectiveValue::Text(v.to_string())),
        span,
    })
}

fn bare_key(key: &str, span: u64) -> DirectiveArg {
    DirectiveArg::Meta(Directive {
        key: key.to_string(),
        value: None,
        span,
    })
}

fn documented(name: &str, inputs: Vec<FnArg>) -> FnDecl {
    FnDecl {
        module: "resolver".to_string(),
        name: name.to_string(),
        attrs: vec![Attr::Doc {
            text: format!("Test {}.", name),
            span: 1,
        }],
        inputs,
        span: 0,
    }
}

fn plain_param(pat: &str, ty: &str, span: u64) -> FnArg {
    FnArg::Typed(PatType {
        pat: pat.to_string(),
        ty: ty.to_string(),
        attrs: vec![],
        span,
    })
}

/// A boolean where an unsigned integer is expected: exactly one wrong-type
/// diagnostic, and no specification is produced.
#[test]
fn wrong_type_bool_for_uint() {
    let attr = vec![kv_bool("cases", true, 7)];
    let item = documented("wrong_type", vec![plain_param("_", "u8", 2)]);
    let errors = PropfuzzFn::new(&attr, &item).expect_err("resolution should fail");
    assert_eq!(errors.len(), 1);
    assert_eq!(errors[0].kind, DiagnosticKind::WrongType);
    assert_eq!(errors[0].span, 7);
}

/// Both bad values in one annotation are reported in the same pass.
#[test]
fn wrong_types_aggregate() {
    let attr = vec![kv_bool("cases", true, 7), kv_uint("fork", 1024, 8)];
    let item = documented("wrong_type1", vec![plain_param("_", "u8", 2)]);
    let errors = PropfuzzFn::new(&attr, &item).expect_err("resolution should fail");
    assert_eq!(errors.len(), 2);
    assert_eq!(errors[0].kind, DiagnosticKind::WrongType);
    assert_eq!(errors[0].span, 7);
    assert_eq!(errors[1].kind, DiagnosticKind::WrongType);
    assert_eq!(errors[1].span, 8);
}

/// A key set twice in one annotation: one duplicate-key diagnostic; the
/// first-seen value stays authoritative in the record.
#[test]
fn repeated_key_one_annotation() {
    let mut builder = PropfuzzConfigBuilder::default();
    let mut errors = ErrorList::new();
    let args = vec![kv_uint("cases", 1024, 1), kv_uint("cases", 2048, 2)];
    builder.apply_args(&args, &mut errors);
    let config = builder.finish();
    assert_eq!(config.proptest.cases, Some(1024), "first write wins");
    let report = errors.finish().expect_err("duplicate must be reported");
    assert_eq!(report.len(), 1);
    assert_eq!(report[0].kind, DiagnosticKind::DuplicateKey);
    assert_eq!(report[0].span, 2);
}

/// A key set in two separate annotations is still a duplicate.
#[test]
fn repeated_key_across_annotations() {
    let item = FnDecl {
        module: "resolver".to_string(),
        name: "repeated2".to_string(),
        attrs: vec![
            Attr::Doc {
                text: "Repeated across annotations.".to_string(),
                span: 1,
            },
            Attr::Propfuzz {
                args: vec![kv_uint("cases", 2048, 3)],
                span: 3,
            },
        ],
        inputs: vec![plain_param("_", "Vec<u8>", 4)],
        span: 0,
    };
    let attr = vec![kv_uint("cases", 1024, 2)];
    let errors = PropfuzzFn::new(&attr, &item).expect_err("resolution should fail");
    assert_eq!(errors.len(), 1);
    assert_eq!(errors[0].kind, DiagnosticKind::DuplicateKey);
    assert_eq!(errors[0].span, 3);
}

/// Zero parameters: resolution fails with exactly one empty-parameter-list
/// diagnostic.
#[test]
fn no_args() {
    let item = documented("no_args", vec![]);
    let errors = PropfuzzFn::new(&vec![], &item).expect_err("resolution should fail");
    assert_eq!(errors.len(), 1);
    assert_eq!(errors[0].kind, DiagnosticKind::EmptyParameterList);
    assert_eq!(errors[0].span, 0);
}

/// Receiver-style bindings are only supported on top-level functions.
#[test]
fn non_top_level() {
    let item = documented(
        "fuzz",
        vec![FnArg::Receiver { span: 5 }, plain_param("_", "Vec<u8>", 6)],
    );
    let errors = PropfuzzFn::new(&vec![], &item).expect_err("resolution should fail");
    assert_eq!(errors.len(), 1);
    assert_eq!(errors[0].kind, DiagnosticKind::UnsupportedContext);
    assert_eq!(errors[0].span, 5);
}

/// Malformed directives mixed with valid ones: every malformed one gets its
/// own diagnostic and the valid ones still populate the record.
#[test]
fn malformed_mixed_with_valid() {
    let mut builder = PropfuzzConfigBuilder::default();
    let mut errors = ErrorList::new();
    let args = vec![
        DirectiveArg::Lit { span: 1 },
        kv_uint("cases", 64, 2),
        bare_key("fork", 3),
        kv_uint("verbose", 2, 4),
    ];
    builder.apply_args(&args, &mut errors);
    let config = builder.finish();
    assert_eq!(config.proptest.cases, Some(64));
    assert_eq!(config.proptest.verbose, Some(2));
    assert_eq!(config.proptest.fork, None);
    let report = errors.finish().expect_err("malformed directives must be reported");
    assert_eq!(report.len(), 2);
    assert_eq!(report[0].kind, DiagnosticKind::MalformedDirective);
    assert_eq!(report[0].span, 1);
    assert_eq!(report[1].kind, DiagnosticKind::MalformedDirective);
    assert_eq!(report[1].span, 3);
}

/// A key outside the closed option set is unrecognized.
#[test]
fn unrecognized_key() {
    let mut builder = PropfuzzConfigBuilder::default();
    let mut errors = ErrorList::new();
    let args = vec![bare_key("wat", 9)];
    builder.apply_args(&args, &mut errors);
    let report = errors.finish().expect_err("unknown key must be reported");
    assert_eq!(report.len(), 1);
    assert_eq!(report[0].kind, DiagnosticKind::UnrecognizedKey);
    assert_eq!(report[0].span, 9);
}

/// A function without any documentation has no description.
#[test]
fn missing_description() {
    let item = FnDecl {
        module: "resolver".to_string(),
        name: "undocumented".to_string(),
        attrs: vec![],
        inputs: vec![plain_param("_", "u8", 1)],
        span: 0,
    };
    let errors = PropfuzzFn::new(&vec![], &item).expect_err("resolution should fail");
    assert_eq!(errors.len(), 1);
    assert_eq!(errors[0].kind, DiagnosticKind::MissingDescription);
}

/// An argument cannot have more than one strategy.
#[test]
fn repeated_strategy() {
    let mut builder = ParamConfigBuilder::new(&"u8".to_string());
    let mut errors = ErrorList::new();
    let args = vec![
        kv_text("strategy", "any::<u8>()", 1),
        kv_text("strategy", "any::<u8>()", 2),
    ];
    builder.apply_args(&args, &mut errors);
    let config = builder.finish();
    assert!(matches!(
        &config.strategy,
        StrategyExpr::Custom { expr } if expr == "any::<u8>()"
    ));
    let report = errors.finish().expect_err("second strategy must be reported");
    assert_eq!(report.len(), 1);
    assert_eq!(report[0].kind, DiagnosticKind::DuplicateKey);
    assert_eq!(report[0].span, 2);
}

/// A strategy must be given as an expression string.
#[test]
fn wrong_strategy_format() {
    let mut builder = ParamConfigBuilder::new(&"u8".to_string());
    let mut errors = ErrorList::new();
    let args = vec![kv_uint("strategy", 7, 1)];
    builder.apply_args(&args, &mut errors);
    let report = errors.finish().expect_err("non-string strategy must be reported");
    assert_eq!(report.len(), 1);
    assert_eq!(report[0].kind, DiagnosticKind::WrongType);
}

/// Foreign attributes on a parameter are unsupported: there is nowhere for
/// them to go.
#[test]
fn unknown_attr_on_param() {
    let item = FnDecl {
        module: "resolver".to_string(),
        name: "unknown_attr".to_string(),
        attrs: vec![Attr::Doc {
            text: "Unknown attribute.".to_string(),
            span: 1,
        }],
        inputs: vec![FnArg::Typed(PatType {
            pat: "_".to_string(),
            ty: "u8".to_string(),
            attrs: vec![Attr::Other { span: 2 }],
            span: 3,
        })],
        span: 0,
    };
    let errors = PropfuzzFn::new(&vec![], &item).expect_err("resolution should fail");
    assert_eq!(errors.len(), 1);
    assert_eq!(errors[0].kind, DiagnosticKind::UnsupportedContext);
    assert_eq!(errors[0].span, 2);
}

/// A function with parameters and no directives resolves with default
/// strategies for every parameter.
#[test]
fn no_directives_defaults() {
    let item = documented(
        "defaults",
        vec![plain_param("a", "u64", 2), plain_param("b", "String", 3)],
    );
    let target = PropfuzzFn::new(&vec![], &item).expect("resolution should succeed");
    assert_eq!(target.body.num_params(), 2);
    let strategies = target.body.strategies();
    assert!(matches!(&strategies[0], StrategyExpr::DefaultFor { ty } if ty == "u64"));
    assert!(matches!(&strategies[1], StrategyExpr::DefaultFor { ty } if ty == "String"));
    let types = target.body.types();
    assert_eq!(types, vec!["u64".to_string(), "String".to_string()]);
    let pats = target.body.name_pats();
    assert_eq!(pats, vec!["a".to_string(), "b".to_string()]);
    assert_eq!(target.config.proptest.cases, None, "unset stays unset until finalize");
}

/// Description resolution trims each line and joins with newlines; resolving
/// the resolved text again yields the identical description.
#[test]
fn description_resolution_idempotent() {
    let lines = vec![
        "  Leading and trailing.  ".to_string(),
        "".to_string(),
        "\tTabbed line\t".to_string(),
    ];
    let trimmed: Vec<String> = lines.iter().map(|l| propfuzz::trim(l)).collect();
    let once = propfuzz::join_with_newlines(&trimmed);
    assert_eq!(once, "Leading and trailing.\n\nTabbed line");

    let re_lines: Vec<String> = once.split('\n').map(|l| propfuzz::trim(l)).collect();
    let twice = propfuzz::join_with_newlines(&re_lines);
    assert_eq!(twice, once);
}

/// The accumulator keeps values of successful steps, records errors of
/// failed ones, and reports everything in order; an empty accumulator means
/// success.
#[test]
fn accumulator_behaviour() {
    let mut acc = ErrorList::new();
    assert!(acc.is_empty());
    let kept = acc.combine_opt(Ok::<u32, propfuzz::Error>(7));
    assert_eq!(kept, Some(7));
    assert!(acc.is_empty());
    let dropped = acc.combine_opt(Err::<u32, propfuzz::Error>(propfuzz::Error::new(
        1,
        DiagnosticKind::WrongType,
    )));
    assert_eq!(dropped, None);
    assert!(!acc.is_empty());
    acc.combine_result(Err(propfuzz::Error::new(2, DiagnosticKind::UnrecognizedKey)));
    acc.combine_result(Ok(()));
    let all = acc.combine_finish(propfuzz::Error::new(3, DiagnosticKind::DuplicateKey));
    assert_eq!(all.len(), 3);
    assert_eq!(all[0].span, 1);
    assert_eq!(all[1].span, 2);
    assert_eq!(all[2].span, 3);

    let empty = ErrorList::new();
    assert!(empty.finish().is_ok());
}

/// Every diagnostic kind renders its fixed message.
#[test]
fn diagnostic_messages() {
    let e = propfuzz::Error::new(3, DiagnosticKind::DuplicateKey);
    assert_eq!(e.message(), "key specified more than once");
    let e = propfuzz::Error::new(3, DiagnosticKind::UnrecognizedKey);
    assert_eq!(e.message(), "argument not recognized");
    let e = propfuzz::Error::new(3, DiagnosticKind::MalformedDirective);
    assert_eq!(e.message(), "expected key = value format");
    let e = propfuzz::Error::new(3, DiagnosticKind::WrongType);
    assert_eq!(e.message(), "expected a value of the key's kind");
    let e = propfuzz::Error::new(3, DiagnosticKind::MissingDescription);
    assert_eq!(e.message(), "a description is required as a doc comment");
    let e = propfuzz::Error::new(3, DiagnosticKind::UnsupportedContext);
    assert_eq!(e.message(), "annotation is not supported here");
    let e = propfuzz::Error::new(3, DiagnosticKind::EmptyParameterList);
    assert_eq!(e.message(), "at least one argument is required");
}
