//! Runtime tests: driving resolved targets through the real property engine.

use proptest::arbitrary::any;
use proptest::strategy::{Strategy, ValueTree};
use proptest::test_runner::{TestCaseError, TestError, TestRunner};
use propfuzz::{
    execute_as_proptest, format_failure_value, outcome_of_execution, Attr, Directive, DirectiveArg,
    DirectiveValue, Failure, FnArg, FnDecl, GenerateContext, PatType, Propfuzz, PropfuzzFn,
    ProptestConfig, RunOutcome,
};

fn reverse_decl(name: &str, doc_text: &str) -> FnDecl {
    FnDecl {
        module: "runtime".to_string(),
        name: name.to_string(),
        attrs: vec![Attr::Doc {
            text: doc_text.to_string(),
            span: 1,
        }],
        inputs: vec![FnArg::Typed(PatType {
            pat: "list".to_string(),
            ty: "Vec<u32>".to_string(),
            attrs: vec![Attr::Propfuzz {
                args: vec![DirectiveArg::Meta(Directive {
                    key: "strategy".to_string(),
                    value: Some(DirectiveValue::Text("vec(any::<u32>(), 0..64)".to_string())),
                    span: 2,
                })],
                span: 2,
            }],
            span: 3,
        })],
        span: 0,
    }
}

/// A compiled target: the resolved specification plus the test body, wired
/// together the way a registration step would.
struct ReverseTarget {
    spec: PropfuzzFn,
    /// Reverse the generated list this many times before comparing with the
    /// original: twice holds, once fails.
    reversals: usize,
}

impl ReverseTarget {
    fn run_body(&self, runner: &mut TestRunner) -> Result<(), TestError<(Vec<u32>,)>> {
        let strategy = (proptest::collection::vec(any::<u32>(), 0..64).boxed(),);
        let reversals = self.reversals;
        runner.run(&strategy, |(list,)| {
            let original = list.clone();
            let mut work = list;
            for _ in 0..reversals {
                work.reverse();
            }
            if work != original {
                return Err(TestCaseError::fail("lists differ"));
            }
            Ok(())
        })
    }
}

impl Propfuzz for ReverseTarget {
    type Value = (Vec<u32>,);

    fn name(&self) -> String {
        self.spec.qualified_name()
    }

    fn description(&self) -> String {
        self.spec.description.clone()
    }

    fn proptest_config(&self) -> ProptestConfig {
        self.spec.config.proptest
    }

    fn execute(&self, test_runner: &mut TestRunner) -> Result<(), Failure<(Vec<u32>,)>> {
        match self.run_body(test_runner) {
            Ok(()) => Ok(()),
            Err(TestError::Abort(reason)) => Err(Failure::Abort {
                reason: reason.message().to_string(),
            }),
            Err(TestError::Fail(reason, value)) => Err(Failure::Fail {
                reason: reason.message().to_string(),
                value,
            }),
        }
    }

    fn fmt_value(&self, value: &(Vec<u32>,)) -> String {
        let names = self.spec.body.name_pats();
        let values = vec![format!("{:?}", value.0)];
        format_failure_value(&names, &values)
    }
}

/// Reversing a list twice is the identity: the engine exhausts its whole
/// case budget without a counterexample.
#[test]
fn reverse_twice_passes() {
    let attr = vec![DirectiveArg::Meta(Directive {
        key: "cases".to_string(),
        value: Some(DirectiveValue::Uint(1024)),
        span: 4,
    })];
    let item = reverse_decl(
        "reverse",
        "Test that reversing a list twice produces the same results.",
    );
    let spec = PropfuzzFn::new(&attr, &item).expect("resolution should succeed");
    let target = ReverseTarget { spec, reversals: 2 };
    let outcome = execute_as_proptest(&target);
    assert!(matches!(outcome, RunOutcome::Pass), "property holds for all inputs");
}

/// Reversing a list only once is caught, and the engine shrinks the
/// counterexample to the smallest list for which one reversal is visibly not
/// the identity: two distinct elements.
#[test]
fn reverse_once_fails_minimally() {
    let item = reverse_decl("failing", "This test fails.");
    let spec = PropfuzzFn::new(&vec![], &item).expect("resolution should succeed");
    let target = ReverseTarget { spec, reversals: 1 };
    let outcome = execute_as_proptest(&target);
    match outcome {
        RunOutcome::Fail { message } => {
            assert_eq!(
                message,
                "Test failed: lists differ\nminimal failing input:\nlist = [0, 1]\n",
                "minimal test case"
            );
        }
        _ => panic!("test should fail"),
    }
}

/// A target that reports back what configuration the executor handed the
/// engine, through the abort report.
struct ConfigProbe;

impl Propfuzz for ConfigProbe {
    type Value = ();

    fn name(&self) -> String {
        "runtime::probe".to_string()
    }

    fn description(&self) -> String {
        "Probes the runner's configuration.".to_string()
    }

    fn proptest_config(&self) -> ProptestConfig {
        let mut c = ProptestConfig::default();
        c.cases = Some(17);
        c
    }

    fn execute(&self, test_runner: &mut TestRunner) -> Result<(), Failure<()>> {
        let config = test_runner.config();
        let reason = format!("{:?} {}", config.test_name, config.cases);
        Err(Failure::Abort { reason })
    }

    fn fmt_value(&self, _value: &()) -> String {
        String::new()
    }
}

/// The executor keys the engine runner by the target's qualified name (for
/// reporting, forked execution and seed persistence) and hands it the
/// target's resolved options.
#[test]
fn runner_keyed_by_target_name() {
    let outcome = execute_as_proptest(&ConfigProbe);
    match outcome {
        RunOutcome::Abort { message } => {
            assert_eq!(message, "Test aborted: Some(\"runtime::probe\") 17");
        }
        _ => panic!("expected the probe's abort"),
    }
}

/// The three terminal outcomes and their fixed report shapes.
#[test]
fn outcome_reports() {
    let outcome = outcome_of_execution(Ok(()));
    assert!(matches!(outcome, RunOutcome::Pass));

    let outcome = outcome_of_execution(Err(Failure::Abort {
        reason: "Too many global rejects".to_string(),
    }));
    match outcome {
        RunOutcome::Abort { message } => {
            assert_eq!(message, "Test aborted: Too many global rejects");
        }
        _ => panic!("expected an abort"),
    }

    let outcome = outcome_of_execution(Err(Failure::Fail {
        reason: "assertion failed".to_string(),
        value: "x = 3\n".to_string(),
    }));
    match outcome {
        RunOutcome::Fail { message } => {
            assert_eq!(
                message,
                "Test failed: assertion failed\nminimal failing input:\nx = 3\n"
            );
        }
        _ => panic!("expected a failure"),
    }
}

/// The counterexample dump lists each parameter and its value, one per line,
/// in declaration order.
#[test]
fn failure_value_format() {
    let names = vec!["a".to_string(), "mut list".to_string()];
    let values = vec!["17".to_string(), "[0, 1]".to_string()];
    let dump = format_failure_value(&names, &values);
    assert_eq!(dump, "a = 17\nmut list = [0, 1]\n");

    let empty = format_failure_value(&vec![], &vec![]);
    assert_eq!(empty, "");
}

/// Unset options resolve to the engine's own defaults.
#[test]
fn engine_default_resolution() {
    let c = proptest::test_runner::Config::default();
    let defaults = propfuzz::ResolvedConfig {
        cases: c.cases,
        max_local_rejects: c.max_local_rejects,
        max_global_rejects: c.max_global_rejects,
        max_flat_map_regens: c.max_flat_map_regens,
        fork: c.fork,
        timeout: c.timeout,
        max_shrink_time: c.max_shrink_time,
        max_shrink_iters: c.max_shrink_iters,
        verbose: c.verbose,
    };
    assert_eq!(defaults.cases, 256);
    assert_eq!(defaults.fork, false);
    assert_eq!(defaults.max_local_rejects, 65_536);

    let unset = ProptestConfig::default();
    let resolved = unset.resolve(&defaults);
    assert_eq!(resolved.cases, 256);
    assert_eq!(resolved.fork, false);
}

/// The generation context counts generated items from zero.
#[test]
fn generate_context_counts() {
    let mut ctx = GenerateContext::new();
    assert_eq!(ctx.index(), 0);
    ctx.increment();
    ctx.increment();
    assert_eq!(ctx.index(), 2);
}

/// The value generator is deterministic: two fresh generation contexts
/// produce the same value for the same strategy.
#[test]
fn value_generator_deterministic() {
    let mut one = GenerateContext::new();
    let mut two = GenerateContext::new();
    let strategy = proptest::collection::vec(any::<u32>(), 0..64);
    let a = strategy
        .new_tree(one.value_generator().runner())
        .expect("value generation should succeed");
    let b = strategy
        .new_tree(two.value_generator().runner())
        .expect("value generation should succeed");
    assert_eq!(a.current(), b.current());
}
