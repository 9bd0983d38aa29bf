//! Runtime support: driving a target through the property engine.
//!
//! The executor has three terminal outcomes and no others: the engine
//! exhausted its case budget (pass), the engine could not run the test at
//! all (abort), or the engine found and shrank a falsifying input (fail).
//! Failed runs always carry the formatted minimal-input dump.

use vstd::prelude::*;

use crate::config::ResolvedConfig;
use crate::propfuzz::{Failure, Propfuzz};

verus! {

// The property engine's runner is opaque to this library: values of it are
// created and carried through, never inspected.
#[verifier::external_type_specification]
#[verifier::external_body]
pub struct ExTestRunner(proptest::test_runner::TestRunner);

/// The engine's default configuration values.
///
/// Relies on `proptest::test_runner::Config::default`: the documented
/// defaults of each option, each of which the environment may override, so
/// nothing is promised of the values.
#[verifier::external_body]
pub(crate) fn engine_defaults() -> ResolvedConfig {
    let c = proptest::test_runner::Config::default();
    ResolvedConfig {
        cases: c.cases,
        max_local_rejects: c.max_local_rejects,
        max_global_rejects: c.max_global_rejects,
        max_flat_map_regens: c.max_flat_map_regens,
        fork: c.fork,
        timeout: c.timeout,
        max_shrink_time: c.max_shrink_time,
        max_shrink_iters: c.max_shrink_iters,
        verbose: c.verbose,
    }
}

/// A fresh engine runner for one target run, configured with the target's
/// fully resolved options and keyed by the target's qualified name. The
/// engine uses the name for test reporting, for finding the target again in
/// forked execution, and as the key of the persisted regression seed.
///
/// Relies on `proptest::test_runner::TestRunner::new`: a runner that
/// generates, runs and shrinks cases under the given configuration. The
/// engine wants the name with a static lifetime, so one copy of it is
/// leaked per runner.
#[verifier::external_body]
fn new_test_runner(config: &ResolvedConfig, test_name: &str) -> proptest::test_runner::TestRunner {
    let mut c = proptest::test_runner::Config::default();
    c.test_name = Some(Box::leak(test_name.to_owned().into_boxed_str()));
    c.cases = config.cases;
    c.max_local_rejects = config.max_local_rejects;
    c.max_global_rejects = config.max_global_rejects;
    c.max_flat_map_regens = config.max_flat_map_regens;
    c.fork = config.fork;
    c.timeout = config.timeout;
    c.max_shrink_time = config.max_shrink_time;
    c.max_shrink_iters = config.max_shrink_iters;
    c.verbose = config.verbose;
    proptest::test_runner::TestRunner::new(c)
}

/// The three terminal outcomes of one target run.
#[derive(Debug)]
pub enum RunOutcome {
    /// The engine exhausted its configured case budget without finding a
    /// falsifying input.
    Pass,
    /// The engine could not run the test at all; fatal, never retried.
    Abort { message: String },
    /// The engine found and shrank a minimal falsifying input; fatal to the
    /// whole run.
    Fail { message: String },
}

/// The report for a run the engine could not carry out.
pub open spec fn abort_message(reason: Seq<char>) -> Seq<char> {
    "Test aborted: "@ + reason
}

/// The report for a falsified run: the reason, then the formatted minimal
/// failing input.
pub open spec fn fail_message(reason: Seq<char>, dump: Seq<char>) -> Seq<char> {
    "Test failed: "@ + reason + "\nminimal failing input:\n"@ + dump
}

/// Turns an engine result into the run's terminal outcome. A clean result
/// passes; an abort and a shrunk failure each become their deterministic,
/// human-readable report, with the failure carrying the already-rendered
/// minimal-input dump.
pub fn outcome_of_execution(result: Result<(), Failure<String>>) -> (r: RunOutcome)
    ensures
        match result {
            Ok(()) => r == RunOutcome::Pass,
            Err(Failure::Abort { reason }) => match r {
                RunOutcome::Abort { message } => message@ == abort_message(reason@),
                _ => false,
            },
            Err(Failure::Fail { reason, value }) => match r {
                RunOutcome::Fail { message } => message@ == fail_message(reason@, value@),
                _ => false,
            },
        },
{
    match result {
        Ok(()) => RunOutcome::Pass,
        Err(Failure::Abort { reason }) => {
            let message = String::from_str("Test aborted: ").concat(reason.as_str());
            RunOutcome::Abort { message }
        },
        Err(Failure::Fail { reason, value }) => {
            let mut message = String::from_str("Test failed: ");
            message.append(reason.as_str());
            message.append("\nminimal failing input:\n");
            message.append(value.as_str());
            RunOutcome::Fail { message }
        },
    }
}

/// The formatted counterexample dump: each parameter's binding pattern and
/// its rendered value, one `pattern = value` line per parameter, in
/// declaration order.
pub open spec fn dump_spec(names: Seq<Seq<char>>, values: Seq<Seq<char>>) -> Seq<char>
    decreases names.len(),
{
    if names.len() == 0 {
        Seq::empty()
    } else {
        names[0] + " = "@ + values[0] + "\n"@ + dump_spec(names.drop_first(), values.drop_first())
    }
}

proof fn lemma_dump_spec_snoc(
    names: Seq<Seq<char>>,
    values: Seq<Seq<char>>,
    n: Seq<char>,
    v: Seq<char>,
)
    requires
        names.len() == values.len(),
    ensures
        dump_spec(names.push(n), values.push(v)) == dump_spec(names, values) + (n + " = "@ + v
            + "\n"@),
    decreases names.len(),
{
    let pn = names.push(n);
    let pv = values.push(v);
    if names.len() == 0 {
        assert(pn[0] == n);
        assert(pv[0] == v);
        assert(pn.drop_first() =~= Seq::<Seq<char>>::empty());
        assert(pv.drop_first() =~= Seq::<Seq<char>>::empty());
        assert(dump_spec(Seq::<Seq<char>>::empty(), Seq::<Seq<char>>::empty())
            == Seq::<char>::empty());
        assert(dump_spec(pn, pv) == n + " = "@ + v + "\n"@ + Seq::<char>::empty());
        assert(n + " = "@ + v + "\n"@ + Seq::<char>::empty() =~= Seq::<char>::empty() + (n + " = "@
            + v + "\n"@));
    } else {
        assert(pn[0] == names[0]);
        assert(pv[0] == values[0]);
        assert(pn.drop_first() =~= names.drop_first().push(n));
        assert(pv.drop_first() =~= values.drop_first().push(v));
        lemma_dump_spec_snoc(names.drop_first(), values.drop_first(), n, v);
        let rest = dump_spec(names.drop_first(), values.drop_first());
        assert(names[0] + " = "@ + values[0] + "\n"@ + (rest + (n + " = "@ + v + "\n"@)) =~= (
        names[0] + " = "@ + values[0] + "\n"@ + rest) + (n + " = "@ + v + "\n"@));
    }
}

/// Writes each parameter's binding pattern and its rendered counterexample
/// value, one per line, in parameter declaration order.
pub fn format_failure_value(names: &Vec<String>, values: &Vec<String>) -> (r: String)
    requires
        names@.len() == values@.len(),
    ensures
        r@ == dump_spec(names.deep_view(), values.deep_view()),
{
    let ghost ns = names.deep_view();
    let ghost vs = values.deep_view();
    let mut r = String::new();
    let n = names.len();
    let mut i: usize = 0;
    proof {
        assert(ns.take(0) =~= Seq::<Seq<char>>::empty());
        assert(vs.take(0) =~= Seq::<Seq<char>>::empty());
    }
    while i < n
        invariant
            n == names@.len(),
            n == values@.len(),
            ns == names.deep_view(),
            vs == values.deep_view(),
            ns.len() == n,
            vs.len() == n,
            forall|k: int| 0 <= k < n ==> ns[k] == names@[k]@,
            forall|k: int| 0 <= k < n ==> vs[k] == values@[k]@,
            i <= n,
            r@ == dump_spec(ns.take(i as int), vs.take(i as int)),
        decreases n - i,
    {
        r.append(names[i].as_str());
        r.append(" = ");
        r.append(values[i].as_str());
        r.append("\n");
        proof {
            assert(ns.take(i + 1) =~= ns.take(i as int).push(ns[i as int]));
            assert(vs.take(i + 1) =~= vs.take(i as int).push(vs[i as int]));
            lemma_dump_spec_snoc(ns.take(i as int), vs.take(i as int), ns[i as int], vs[i as int]);
            assert(r@ =~= dump_spec(ns.take(i + 1), vs.take(i + 1)));
        }
        i = i + 1;
    }
    proof {
        assert(ns.take(n as int) =~= ns);
        assert(vs.take(n as int) =~= vs);
    }
    r
}

/// Executes a fuzz target as a standard property-based test: resolves the
/// target's configuration against the engine's defaults, builds one engine
/// runner from it keyed by the target's name, runs the target through it
/// once, and turns the engine's result into the run's terminal outcome.
/// Which outcome comes back is the target's and the engine's decision, so
/// the contract fixes what holds of every outcome: an abort or a failure
/// always carries a report of the shape that [`outcome_of_execution`]
/// produces, the failure's with the rendered minimal-input dump.
pub fn execute_as_proptest<P: Propfuzz>(propfuzz: &P) -> (r: RunOutcome)
    ensures
        match r {
            RunOutcome::Pass => true,
            RunOutcome::Abort { message } => exists|reason: Seq<char>|
                message@ == abort_message(reason),
            RunOutcome::Fail { message } => exists|reason: Seq<char>, dump: Seq<char>|
                message@ == fail_message(reason, dump),
        },
{
    let config = propfuzz.proptest_config();
    let defaults = engine_defaults();
    let resolved = config.resolve(&defaults);
    let name = propfuzz.name();
    let mut test_runner = new_test_runner(&resolved, name.as_str());
    match propfuzz.execute(&mut test_runner) {
        Ok(()) => outcome_of_execution(Ok(())),
        Err(Failure::Abort { reason }) => outcome_of_execution(Err(Failure::Abort { reason })),
        Err(Failure::Fail { reason, value }) => {
            let dump = propfuzz.fmt_value(&value);
            outcome_of_execution(Err(Failure::Fail { reason, value: dump }))
        },
    }
}

} // verus!
