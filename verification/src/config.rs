//! Configuration resolution for fuzz targets.
//!
//! A function's annotations carry comma-separated `key = value` directives.
//! The resolver classifies each directive against a closed option set, checks
//! the value's kind, and writes it into a configuration record in source
//! order. Each option may be set at most once: the first write wins and every
//! later write is reported as a duplicate. Resolution never stops at the
//! first problem; all diagnostics of one pass are accumulated.

use vstd::prelude::*;

use crate::errors::{DiagnosticKind, Error, ErrorList};
use crate::text::str_eq;

verus! {

// ---
// Directives
// ---

/// The value carried by a `key = value` directive.
#[derive(Debug)]
pub enum DirectiveValue {
    Bool(bool),
    Uint(u32),
    Text(String),
}

/// Mathematical model of a directive value.
pub enum DirectiveValueV {
    Bool(bool),
    Uint(u32),
    Text(Seq<char>),
}

impl View for DirectiveValue {
    type V = DirectiveValueV;

    open spec fn view(&self) -> DirectiveValueV {
        match self {
            DirectiveValue::Bool(b) => DirectiveValueV::Bool(*b),
            DirectiveValue::Uint(u) => DirectiveValueV::Uint(*u),
            DirectiveValue::Text(s) => DirectiveValueV::Text(s@),
        }
    }
}

impl DeepView for DirectiveValue {
    type V = DirectiveValueV;

    open spec fn deep_view(&self) -> DirectiveValueV {
        self.view()
    }
}

/// One `key` or `key = value` instruction from an annotation.
///
/// A directive without a value models a bare key, which is never well-formed:
/// every recognized option requires `key = value` form.
#[derive(Debug)]
pub struct Directive {
    pub key: String,
    pub value: Option<DirectiveValue>,
    pub span: u64,
}

/// Mathematical model of a directive.
pub struct DirectiveV {
    pub key: Seq<char>,
    pub value: Option<DirectiveValueV>,
    pub span: u64,
}

impl View for Directive {
    type V = DirectiveV;

    open spec fn view(&self) -> DirectiveV {
        DirectiveV {
            key: self.key@,
            value: match self.value {
                Option::None => Option::None,
                Option::Some(v) => Option::Some(v@),
            },
            span: self.span,
        }
    }
}

impl DeepView for Directive {
    type V = DirectiveV;

    open spec fn deep_view(&self) -> DirectiveV {
        self.view()
    }
}

/// One argument of an annotation: a directive, or a bare literal where a
/// directive was expected.
#[derive(Debug)]
pub enum DirectiveArg {
    Meta(Directive),
    Lit { span: u64 },
}

/// Mathematical model of an annotation argument.
pub enum DirectiveArgV {
    Meta(DirectiveV),
    Lit { span: u64 },
}

impl View for DirectiveArg {
    type V = DirectiveArgV;

    open spec fn view(&self) -> DirectiveArgV {
        match self {
            DirectiveArg::Meta(d) => DirectiveArgV::Meta(d@),
            DirectiveArg::Lit { span } => DirectiveArgV::Lit { span: *span },
        }
    }
}

impl DeepView for DirectiveArg {
    type V = DirectiveArgV;

    open spec fn deep_view(&self) -> DirectiveArgV {
        self.view()
    }
}

// ---
// The closed option set
// ---

/// The recognized function-level configuration options.
#[derive(Clone, Copy, Debug, PartialEq, Eq, Structural)]
pub enum OptionKey {
    Cases,
    MaxLocalRejects,
    MaxGlobalRejects,
    MaxFlatMapRegens,
    Fork,
    Timeout,
    MaxShrinkTime,
    MaxShrinkIters,
    Verbose,
}

/// The kind of value an option expects.
#[derive(Clone, Copy, Debug, PartialEq, Eq, Structural)]
pub enum ValueKind {
    Bool,
    Uint,
}

/// Classifies a directive key against the closed option set.
pub open spec fn classify_key(k: Seq<char>) -> Option<OptionKey> {
    if k == "cases"@ {
        Option::Some(OptionKey::Cases)
    } else if k == "max_local_rejects"@ {
        Option::Some(OptionKey::MaxLocalRejects)
    } else if k == "max_global_rejects"@ {
        Option::Some(OptionKey::MaxGlobalRejects)
    } else if k == "max_flat_map_regens"@ {
        Option::Some(OptionKey::MaxFlatMapRegens)
    } else if k == "fork"@ {
        Option::Some(OptionKey::Fork)
    } else if k == "timeout"@ {
        Option::Some(OptionKey::Timeout)
    } else if k == "max_shrink_time"@ {
        Option::Some(OptionKey::MaxShrinkTime)
    } else if k == "max_shrink_iters"@ {
        Option::Some(OptionKey::MaxShrinkIters)
    } else if k == "verbose"@ {
        Option::Some(OptionKey::Verbose)
    } else {
        Option::None
    }
}

/// The value kind each option expects.
pub open spec fn key_kind(k: OptionKey) -> ValueKind {
    match k {
        OptionKey::Fork => ValueKind::Bool,
        _ => ValueKind::Uint,
    }
}

/// Whether a directive value has the given kind.
pub open spec fn value_matches(v: DirectiveValueV, kind: ValueKind) -> bool {
    match (v, kind) {
        (DirectiveValueV::Bool(_), ValueKind::Bool) => true,
        (DirectiveValueV::Uint(_), ValueKind::Uint) => true,
        _ => false,
    }
}

// ---
// The configuration record
// ---

/// The engine options of one target while they are being resolved.
///
/// Every field starts unset; "unset" stays distinguishable from "explicitly
/// set to the default" until the record is finalized against the engine's
/// defaults.
#[derive(Clone, Copy, Debug, PartialEq, Eq)]
pub struct ProptestConfig {
    pub cases: Option<u32>,
    pub max_local_rejects: Option<u32>,
    pub max_global_rejects: Option<u32>,
    pub max_flat_map_regens: Option<u32>,
    pub fork: Option<bool>,
    pub timeout: Option<u32>,
    pub max_shrink_time: Option<u32>,
    pub max_shrink_iters: Option<u32>,
    pub verbose: Option<u32>,
}

impl ProptestConfig {
    /// The record with every option unset.
    pub open spec fn spec_empty() -> ProptestConfig {
        ProptestConfig {
            cases: Option::None,
            max_local_rejects: Option::None,
            max_global_rejects: Option::None,
            max_flat_map_regens: Option::None,
            fork: Option::None,
            timeout: Option::None,
            max_shrink_time: Option::None,
            max_shrink_iters: Option::None,
            verbose: Option::None,
        }
    }

    /// The value currently held for an option, if any.
    pub open spec fn get(self, k: OptionKey) -> Option<DirectiveValueV> {
        match k {
            OptionKey::Cases => uint_field(self.cases),
            OptionKey::MaxLocalRejects => uint_field(self.max_local_rejects),
            OptionKey::MaxGlobalRejects => uint_field(self.max_global_rejects),
            OptionKey::MaxFlatMapRegens => uint_field(self.max_flat_map_regens),
            OptionKey::Fork => bool_field(self.fork),
            OptionKey::Timeout => uint_field(self.timeout),
            OptionKey::MaxShrinkTime => uint_field(self.max_shrink_time),
            OptionKey::MaxShrinkIters => uint_field(self.max_shrink_iters),
            OptionKey::Verbose => uint_field(self.verbose),
        }
    }

    /// The record with one option written; meaningful when the value's kind
    /// matches the option's.
    pub open spec fn set(self, k: OptionKey, v: DirectiveValueV) -> ProptestConfig {
        match k {
            OptionKey::Cases => ProptestConfig { cases: Option::Some(uint_of(v)), ..self },
            OptionKey::MaxLocalRejects => ProptestConfig {
                max_local_rejects: Option::Some(uint_of(v)),
                ..self
            },
            OptionKey::MaxGlobalRejects => ProptestConfig {
                max_global_rejects: Option::Some(uint_of(v)),
                ..self
            },
            OptionKey::MaxFlatMapRegens => ProptestConfig {
                max_flat_map_regens: Option::Some(uint_of(v)),
                ..self
            },
            OptionKey::Fork => ProptestConfig { fork: Option::Some(bool_of(v)), ..self },
            OptionKey::Timeout => ProptestConfig { timeout: Option::Some(uint_of(v)), ..self },
            OptionKey::MaxShrinkTime => ProptestConfig {
                max_shrink_time: Option::Some(uint_of(v)),
                ..self
            },
            OptionKey::MaxShrinkIters => ProptestConfig {
                max_shrink_iters: Option::Some(uint_of(v)),
                ..self
            },
            OptionKey::Verbose => ProptestConfig { verbose: Option::Some(uint_of(v)), ..self },
        }
    }
}

impl Default for ProptestConfig {
    /// The record with every option unset.
    fn default() -> (r: ProptestConfig)
        ensures
            r == ProptestConfig::spec_empty(),
    {
        ProptestConfig {
            cases: None,
            max_local_rejects: None,
            max_global_rejects: None,
            max_flat_map_regens: None,
            fork: None,
            timeout: None,
            max_shrink_time: None,
            max_shrink_iters: None,
            verbose: None,
        }
    }
}

pub open spec fn uint_field(f: Option<u32>) -> Option<DirectiveValueV> {
    match f {
        Option::Some(v) => Option::Some(DirectiveValueV::Uint(v)),
        Option::None => Option::None,
    }
}

pub open spec fn bool_field(f: Option<bool>) -> Option<DirectiveValueV> {
    match f {
        Option::Some(v) => Option::Some(DirectiveValueV::Bool(v)),
        Option::None => Option::None,
    }
}

pub open spec fn uint_of(v: DirectiveValueV) -> u32 {
    match v {
        DirectiveValueV::Uint(u) => u,
        _ => arbitrary(),
    }
}

pub open spec fn bool_of(v: DirectiveValueV) -> bool {
    match v {
        DirectiveValueV::Bool(b) => b,
        _ => arbitrary(),
    }
}

// ---
// What one directive does to the record
// ---

/// Reading a boolean from a directive: `key = value` form is required and
/// the value must be a boolean.
pub open spec fn read_bool_spec(d: DirectiveV) -> Result<bool, Error> {
    match d.value {
        Option::None => Result::Err(
            Error { kind: DiagnosticKind::MalformedDirective, span: d.span },
        ),
        Option::Some(DirectiveValueV::Bool(b)) => Result::Ok(b),
        Option::Some(_) => Result::Err(Error { kind: DiagnosticKind::WrongType, span: d.span }),
    }
}

/// Reading an unsigned integer from a directive.
pub open spec fn read_u32_spec(d: DirectiveV) -> Result<u32, Error> {
    match d.value {
        Option::None => Result::Err(
            Error { kind: DiagnosticKind::MalformedDirective, span: d.span },
        ),
        Option::Some(DirectiveValueV::Uint(u)) => Result::Ok(u),
        Option::Some(_) => Result::Err(Error { kind: DiagnosticKind::WrongType, span: d.span }),
    }
}

/// Reading a generator expression from a directive.
pub open spec fn read_expr_spec(d: DirectiveV) -> Result<Seq<char>, Error> {
    match d.value {
        Option::None => Result::Err(
            Error { kind: DiagnosticKind::MalformedDirective, span: d.span },
        ),
        Option::Some(DirectiveValueV::Text(t)) => Result::Ok(t),
        Option::Some(_) => Result::Err(Error { kind: DiagnosticKind::WrongType, span: d.span }),
    }
}

/// What one directive does to the configuration record: the new record and
/// the diagnostic reported, if any. The first write to an option wins; a
/// later write is rejected with a duplicate-key diagnostic.
pub open spec fn apply_meta_trans(c: ProptestConfig, d: DirectiveV) -> (
    ProptestConfig,
    Option<Error>,
) {
    match classify_key(d.key) {
        Option::None => (
            c,
            Option::Some(Error { kind: DiagnosticKind::UnrecognizedKey, span: d.span }),
        ),
        Option::Some(k) => match d.value {
            Option::None => (
                c,
                Option::Some(Error { kind: DiagnosticKind::MalformedDirective, span: d.span }),
            ),
            Option::Some(v) => if !value_matches(v, key_kind(k)) {
                (c, Option::Some(Error { kind: DiagnosticKind::WrongType, span: d.span }))
            } else if c.get(k) is Some {
                (c, Option::Some(Error { kind: DiagnosticKind::DuplicateKey, span: d.span }))
            } else {
                (c.set(k, v), Option::None)
            },
        },
    }
}

/// What one annotation argument does to the record: a bare literal is
/// malformed, a directive is applied.
pub open spec fn apply_arg_trans(c: ProptestConfig, a: DirectiveArgV) -> (
    ProptestConfig,
    Option<Error>,
) {
    match a {
        DirectiveArgV::Meta(d) => apply_meta_trans(c, d),
        DirectiveArgV::Lit { span } => (
            c,
            Option::Some(Error { kind: DiagnosticKind::MalformedDirective, span }),
        ),
    }
}

pub open spec fn opt_err_seq(e: Option<Error>) -> Seq<Error> {
    match e {
        Option::None => Seq::empty(),
        Option::Some(x) => seq![x],
    }
}

/// What a whole argument list does to the record, in source order, together
/// with every diagnostic reported along the way.
pub open spec fn apply_args_trans(c: ProptestConfig, args: Seq<DirectiveArgV>) -> (
    ProptestConfig,
    Seq<Error>,
)
    decreases args.len(),
{
    if args.len() == 0 {
        (c, Seq::empty())
    } else {
        let head = apply_arg_trans(c, args[0]);
        let rest = apply_args_trans(head.0, args.drop_first());
        (rest.0, opt_err_seq(head.1) + rest.1)
    }
}

pub proof fn lemma_apply_args_snoc(c: ProptestConfig, s: Seq<DirectiveArgV>, x: DirectiveArgV)
    ensures
        apply_args_trans(c, s.push(x)).0 == apply_arg_trans(apply_args_trans(c, s).0, x).0,
        apply_args_trans(c, s.push(x)).1 == apply_args_trans(c, s).1 + opt_err_seq(
            apply_arg_trans(apply_args_trans(c, s).0, x).1,
        ),
    decreases s.len(),
{
    let p = s.push(x);
    assert(p.len() == s.len() + 1);
    if s.len() == 0 {
        assert(p[0] == x);
        assert(p.drop_first() =~= Seq::<DirectiveArgV>::empty());
        let head = apply_arg_trans(c, x);
        assert(apply_args_trans(head.0, Seq::<DirectiveArgV>::empty()) == (
            head.0,
            Seq::<Error>::empty(),
        ));
        assert(apply_args_trans(c, p) == (head.0, opt_err_seq(head.1) + Seq::<Error>::empty()));
        assert(apply_args_trans(c, s) == (c, Seq::<Error>::empty()));
        assert(opt_err_seq(head.1) + Seq::<Error>::empty() =~= Seq::<Error>::empty() + opt_err_seq(
            head.1,
        ));
    } else {
        assert(p[0] == s[0]);
        assert(p.drop_first() =~= s.drop_first().push(x));
        let head = apply_arg_trans(c, s[0]);
        lemma_apply_args_snoc(head.0, s.drop_first(), x);
        let rest = apply_args_trans(head.0, s.drop_first());
        let restp = apply_args_trans(head.0, s.drop_first().push(x));
        assert(apply_args_trans(c, p) == (restp.0, opt_err_seq(head.1) + restp.1));
        assert(apply_args_trans(c, s) == (rest.0, opt_err_seq(head.1) + rest.1));
        assert(restp.0 == apply_arg_trans(rest.0, x).0);
        assert(restp.1 == rest.1 + opt_err_seq(apply_arg_trans(rest.0, x).1));
        assert(opt_err_seq(head.1) + (rest.1 + opt_err_seq(
            apply_arg_trans(rest.0, x).1,
        )) =~= (opt_err_seq(head.1) + rest.1) + opt_err_seq(apply_arg_trans(rest.0, x).1));
    }
}

pub proof fn lemma_apply_args_concat(c: ProptestConfig, a: Seq<DirectiveArgV>, b: Seq<
    DirectiveArgV,
>)
    ensures
        apply_args_trans(c, a + b).0 == apply_args_trans(apply_args_trans(c, a).0, b).0,
        apply_args_trans(c, a + b).1 == apply_args_trans(c, a).1 + apply_args_trans(
            apply_args_trans(c, a).0,
            b,
        ).1,
    decreases a.len(),
{
    if a.len() == 0 {
        assert(a + b =~= b);
        assert(apply_args_trans(c, a) == (c, Seq::<Error>::empty()));
        assert(Seq::<Error>::empty() + apply_args_trans(c, b).1 =~= apply_args_trans(c, b).1);
    } else {
        let ab = a + b;
        assert(ab[0] == a[0]);
        assert(ab.drop_first() =~= a.drop_first() + b);
        let head = apply_arg_trans(c, a[0]);
        lemma_apply_args_concat(head.0, a.drop_first(), b);
        let rest = apply_args_trans(head.0, a.drop_first());
        let tail = apply_args_trans(rest.0, b);
        assert(apply_args_trans(c, ab) == (tail.0, opt_err_seq(head.1) + (rest.1 + tail.1)));
        assert(apply_args_trans(c, a) == (rest.0, opt_err_seq(head.1) + rest.1));
        assert(opt_err_seq(head.1) + (rest.1 + tail.1) =~= (opt_err_seq(head.1) + rest.1)
            + tail.1);
    }
}

// ---
// Laws of a resolution pass
// ---

/// How many errors of one kind a pass reported.
pub open spec fn count_kind(es: Seq<Error>, k: DiagnosticKind) -> nat
    decreases es.len(),
{
    if es.len() == 0 {
        0
    } else {
        (if es[0].kind == k {
            1nat
        } else {
            0nat
        }) + count_kind(es.drop_first(), k)
    }
}

pub proof fn lemma_count_kind_concat(a: Seq<Error>, b: Seq<Error>, k: DiagnosticKind)
    ensures
        count_kind(a + b, k) == count_kind(a, k) + count_kind(b, k),
    decreases a.len(),
{
    if a.len() == 0 {
        assert(a + b =~= b);
    } else {
        assert((a + b).drop_first() =~= a.drop_first() + b);
        lemma_count_kind_concat(a.drop_first(), b, k);
    }
}

pub proof fn lemma_count_kind_opt(e: Option<Error>, k: DiagnosticKind)
    ensures
        count_kind(opt_err_seq(e), k) == (if e matches Some(x) && x.kind == k {
            1nat
        } else {
            0nat
        }),
{
    match e {
        Option::Some(x) => {
            assert(opt_err_seq(e) == seq![x]);
            assert(seq![x].len() == 1);
            assert(seq![x][0] == x);
            assert(seq![x].drop_first() =~= Seq::<Error>::empty());
            assert(count_kind(seq![x].drop_first(), k) == 0);
        },
        Option::None => {
            assert(opt_err_seq(e).len() == 0);
        },
    }
}

/// An argument that is not in `key = value` form although its key is in the
/// option set, or a bare literal: exactly the arguments reported as
/// malformed.
pub open spec fn arg_is_malformed(a: DirectiveArgV) -> bool {
    match a {
        DirectiveArgV::Lit { .. } => true,
        DirectiveArgV::Meta(d) => classify_key(d.key) is Some && d.value is None,
    }
}

pub open spec fn count_malformed(args: Seq<DirectiveArgV>) -> nat
    decreases args.len(),
{
    if args.len() == 0 {
        0
    } else {
        (if arg_is_malformed(args[0]) {
            1nat
        } else {
            0nat
        }) + count_malformed(args.drop_first())
    }
}

/// A well-formed setting of option `k`: a directive with that key and a
/// value of the right kind.
pub open spec fn arg_sets(a: DirectiveArgV, k: OptionKey) -> bool {
    match a {
        DirectiveArgV::Meta(d) => classify_key(d.key) == Option::Some(k) && match d.value {
            Option::Some(v) => value_matches(v, key_kind(k)),
            Option::None => false,
        },
        DirectiveArgV::Lit { .. } => false,
    }
}

pub open spec fn set_value(a: DirectiveArgV) -> DirectiveValueV {
    match a {
        DirectiveArgV::Meta(d) => match d.value {
            Option::Some(v) => v,
            Option::None => arbitrary(),
        },
        DirectiveArgV::Lit { .. } => arbitrary(),
    }
}

/// How many well-formed settings of `k` the arguments hold.
pub open spec fn count_sets(args: Seq<DirectiveArgV>, k: OptionKey) -> nat
    decreases args.len(),
{
    if args.len() == 0 {
        0
    } else {
        (if arg_sets(args[0], k) {
            1nat
        } else {
            0nat
        }) + count_sets(args.drop_first(), k)
    }
}

/// The value of the first well-formed setting of `k`, if there is one.
pub open spec fn first_set(args: Seq<DirectiveArgV>, k: OptionKey) -> Option<DirectiveValueV>
    decreases args.len(),
{
    if args.len() == 0 {
        Option::None
    } else if arg_sets(args[0], k) {
        Option::Some(set_value(args[0]))
    } else {
        first_set(args.drop_first(), k)
    }
}

proof fn lemma_set_get(c: ProptestConfig, k1: OptionKey, k2: OptionKey, v: DirectiveValueV)
    requires
        value_matches(v, key_kind(k1)),
    ensures
        c.set(k1, v).get(k2) == if k1 == k2 {
            Option::Some(v)
        } else {
            c.get(k2)
        },
{
}

/// LAW: first write wins. After a pass, an option holds the value it held
/// before the pass if it was already set, and otherwise the value of the
/// first well-formed directive that sets it; later writes never overwrite
/// it, and arguments with problems never populate it.
pub proof fn lemma_first_write_wins(c: ProptestConfig, args: Seq<DirectiveArgV>, k: OptionKey)
    ensures
        apply_args_trans(c, args).0.get(k) == if c.get(k) is Some {
            c.get(k)
        } else {
            first_set(args, k)
        },
    decreases args.len(),
{
    if args.len() > 0 {
        let a = args[0];
        let head = apply_arg_trans(c, a);
        lemma_first_write_wins(head.0, args.drop_first(), k);
        match a {
            DirectiveArgV::Meta(d) => {
                match classify_key(d.key) {
                    Option::Some(k0) => {
                        match d.value {
                            Option::Some(v) => {
                                if value_matches(v, key_kind(k0)) && c.get(k0) is None {
                                    lemma_set_get(c, k0, k, v);
                                }
                            },
                            Option::None => {},
                        }
                    },
                    Option::None => {},
                }
            },
            DirectiveArgV::Lit { .. } => {},
        }
    }
}

/// LAW: aggregation, not fail-fast. One pass reports one malformed-directive
/// diagnostic for each malformed argument, and the well-formed directives of
/// the same pass still populate the record: every option set at least once
/// by a well-formed directive ends up holding its first such value.
pub proof fn lemma_malformed_diagnosed(c: ProptestConfig, args: Seq<DirectiveArgV>)
    ensures
        count_kind(apply_args_trans(c, args).1, DiagnosticKind::MalformedDirective)
            == count_malformed(args),
    decreases args.len(),
{
    if args.len() > 0 {
        let a = args[0];
        let head = apply_arg_trans(c, a);
        let rest = apply_args_trans(head.0, args.drop_first());
        lemma_malformed_diagnosed(head.0, args.drop_first());
        lemma_count_kind_concat(
            opt_err_seq(head.1),
            rest.1,
            DiagnosticKind::MalformedDirective,
        );
        lemma_count_kind_opt(head.1, DiagnosticKind::MalformedDirective);
        assert(count_kind(opt_err_seq(head.1), DiagnosticKind::MalformedDirective) == (
        if arg_is_malformed(a) {
            1nat
        } else {
            0nat
        }));
    }
}

/// How many duplicate-key diagnostics the settings of one option must cause:
/// every well-formed setting beyond the first, and every one of them if the
/// option was already set before the pass.
pub open spec fn dup_contrib(c: ProptestConfig, args: Seq<DirectiveArgV>, k: OptionKey) -> nat {
    if c.get(k) is Some {
        count_sets(args, k)
    } else if count_sets(args, k) == 0 {
        0
    } else {
        (count_sets(args, k) - 1) as nat
    }
}

pub open spec fn dup_total(c: ProptestConfig, args: Seq<DirectiveArgV>) -> nat {
    dup_contrib(c, args, OptionKey::Cases) + dup_contrib(c, args, OptionKey::MaxLocalRejects)
        + dup_contrib(c, args, OptionKey::MaxGlobalRejects) + dup_contrib(
        c,
        args,
        OptionKey::MaxFlatMapRegens,
    ) + dup_contrib(c, args, OptionKey::Fork) + dup_contrib(c, args, OptionKey::Timeout)
        + dup_contrib(c, args, OptionKey::MaxShrinkTime) + dup_contrib(
        c,
        args,
        OptionKey::MaxShrinkIters,
    ) + dup_contrib(c, args, OptionKey::Verbose)
}

proof fn lemma_dup_contrib_step(c: ProptestConfig, args: Seq<DirectiveArgV>, k: OptionKey)
    requires
        args.len() > 0,
    ensures
        dup_contrib(c, args, k) == dup_contrib(apply_arg_trans(c, args[0]).0, args.drop_first(), k)
            + (if arg_sets(args[0], k) && c.get(k) is Some {
            1nat
        } else {
            0nat
        }),
{
    let a = args[0];
    let c1 = apply_arg_trans(c, a).0;
    match a {
        DirectiveArgV::Meta(d) => {
            match classify_key(d.key) {
                Option::Some(k0) => {
                    match d.value {
                        Option::Some(v) => {
                            if value_matches(v, key_kind(k0)) && c.get(k0) is None {
                                lemma_set_get(c, k0, k, v);
                            }
                        },
                        Option::None => {},
                    }
                },
                Option::None => {},
            }
        },
        DirectiveArgV::Lit { .. } => {},
    }
}

/// LAW: duplicates are diagnosed one for one. A pass reports exactly one
/// duplicate-key diagnostic for every well-formed setting of an option
/// beyond the option's first write.
pub proof fn lemma_duplicates_diagnosed(c: ProptestConfig, args: Seq<DirectiveArgV>)
    ensures
        count_kind(apply_args_trans(c, args).1, DiagnosticKind::DuplicateKey) == dup_total(c, args),
    decreases args.len(),
{
    if args.len() > 0 {
        let a = args[0];
        let head = apply_arg_trans(c, a);
        let rest = apply_args_trans(head.0, args.drop_first());
        lemma_duplicates_diagnosed(head.0, args.drop_first());
        lemma_count_kind_concat(opt_err_seq(head.1), rest.1, DiagnosticKind::DuplicateKey);
        lemma_dup_contrib_step(c, args, OptionKey::Cases);
        lemma_dup_contrib_step(c, args, OptionKey::MaxLocalRejects);
        lemma_dup_contrib_step(c, args, OptionKey::MaxGlobalRejects);
        lemma_dup_contrib_step(c, args, OptionKey::MaxFlatMapRegens);
        lemma_dup_contrib_step(c, args, OptionKey::Fork);
        lemma_dup_contrib_step(c, args, OptionKey::Timeout);
        lemma_dup_contrib_step(c, args, OptionKey::MaxShrinkTime);
        lemma_dup_contrib_step(c, args, OptionKey::MaxShrinkIters);
        lemma_dup_contrib_step(c, args, OptionKey::Verbose);
        lemma_count_kind_opt(head.1, DiagnosticKind::DuplicateKey);
        match a {
            DirectiveArgV::Meta(d) => {
                match classify_key(d.key) {
                    Option::Some(k0) => {
                        match d.value {
                            Option::Some(v) => {
                                if value_matches(v, key_kind(k0)) {
                                    assert(arg_sets(a, k0));
                                    assert(forall|k2: OptionKey|
                                        k2 != k0 ==> !arg_sets(a, k2));
                                    if c.get(k0) is Some {
                                        assert(count_kind(
                                            opt_err_seq(head.1),
                                            DiagnosticKind::DuplicateKey,
                                        ) == 1);
                                    } else {
                                        assert(count_kind(
                                            opt_err_seq(head.1),
                                            DiagnosticKind::DuplicateKey,
                                        ) == 0);
                                    }
                                } else {
                                    assert(forall|k2: OptionKey| !arg_sets(a, k2));
                                }
                            },
                            Option::None => {
                                assert(forall|k2: OptionKey| !arg_sets(a, k2));
                            },
                        }
                    },
                    Option::None => {
                        assert(forall|k2: OptionKey| !arg_sets(a, k2));
                    },
                }
            },
            DirectiveArgV::Lit { .. } => {
                assert(forall|k2: OptionKey| !arg_sets(a, k2));
            },
        }
        assert(count_kind(opt_err_seq(head.1), DiagnosticKind::DuplicateKey) == dup_total(c, args)
            - dup_total(head.0, args.drop_first()));
    }
}

/// LAW: a repeated key yields exactly one duplicate diagnostic and keeps the
/// first value. If one option is set twice by well-formed directives and no
/// other option more than once, a pass over an empty record reports exactly
/// one duplicate-key diagnostic, and the record holds the first-seen value.
pub proof fn lemma_duplicate_key_reported(args: Seq<DirectiveArgV>, k: OptionKey)
    requires
        count_sets(args, k) == 2,
        forall|k2: OptionKey| k2 != k ==> count_sets(args, k2) <= 1,
    ensures
        count_kind(
            apply_args_trans(ProptestConfig::spec_empty(), args).1,
            DiagnosticKind::DuplicateKey,
        ) == 1,
        apply_args_trans(ProptestConfig::spec_empty(), args).0.get(k) == first_set(args, k),
        first_set(args, k) is Some,
{
    let c = ProptestConfig::spec_empty();
    lemma_duplicates_diagnosed(c, args);
    lemma_first_write_wins(c, args, k);
    assert(c.get(k) is None);
    assert(dup_contrib(c, args, k) == 1);
    assert(forall|k2: OptionKey| k2 != k ==> dup_contrib(c, args, k2) == 0);
    assert(dup_total(c, args) == 1);
    lemma_first_set_some(args, k);
}

proof fn lemma_first_set_some(args: Seq<DirectiveArgV>, k: OptionKey)
    requires
        count_sets(args, k) >= 1,
    ensures
        first_set(args, k) is Some,
    decreases args.len(),
{
    if args.len() > 0 && !arg_sets(args[0], k) {
        lemma_first_set_some(args.drop_first(), k);
    }
}

// ---
// Executable helpers
// ---

/// Requires a directive to be in `key = value` form and hands out its value.
pub fn name_value<'a>(meta: &'a Directive) -> (r: Result<&'a DirectiveValue, Error>)
    ensures
        match r {
            Ok(v) => meta@.value == Option::Some(v@),
            Err(e) => meta@.value is None && e == (Error {
                kind: DiagnosticKind::MalformedDirective,
                span: meta.span,
            }),
        },
{
    match &meta.value {
        Some(v) => Ok(v),
        None => Err(Error::new(meta.span, DiagnosticKind::MalformedDirective)),
    }
}

/// Reads a boolean directive value.
pub fn read_bool(meta: &Directive) -> (r: Result<bool, Error>)
    ensures
        r == read_bool_spec(meta@),
{
    match name_value(meta) {
        Err(e) => Err(e),
        Ok(v) => match v {
            DirectiveValue::Bool(b) => Ok(*b),
            _ => Err(Error::new(meta.span, DiagnosticKind::WrongType)),
        },
    }
}

/// Reads an unsigned integer directive value.
pub fn read_u32(meta: &Directive) -> (r: Result<u32, Error>)
    ensures
        r == read_u32_spec(meta@),
{
    match name_value(meta) {
        Err(e) => Err(e),
        Ok(v) => match v {
            DirectiveValue::Uint(u) => Ok(*u),
            _ => Err(Error::new(meta.span, DiagnosticKind::WrongType)),
        },
    }
}

/// Reads a generator expression directive value.
pub fn read_expr(meta: &Directive) -> (r: Result<String, Error>)
    ensures
        match r {
            Ok(s) => read_expr_spec(meta@) == Result::<Seq<char>, Error>::Ok(s@),
            Err(e) => read_expr_spec(meta@) == Result::<Seq<char>, Error>::Err(e),
        },
{
    match name_value(meta) {
        Err(e) => Err(e),
        Ok(v) => match v {
            DirectiveValue::Text(t) => Ok(t.clone()),
            _ => Err(Error::new(meta.span, DiagnosticKind::WrongType)),
        },
    }
}

/// Writes a value into an unset slot; a second write is a duplicate-key
/// error and the original value is kept.
pub fn replace_empty<T>(span: u64, dest: &mut Option<T>, val: T) -> (r: Result<(), Error>)
    ensures
        match *old(dest) {
            Some(_) => r == Result::<(), Error>::Err(
                Error { kind: DiagnosticKind::DuplicateKey, span },
            ) && *final(dest) == *old(dest),
            None => r == Result::<(), Error>::Ok(()) && *final(dest) == Option::Some(val),
        },
{
    if dest.is_some() {
        Err(Error::new(span, DiagnosticKind::DuplicateKey))
    } else {
        *dest = Some(val);
        Ok(())
    }
}

/// What applying one unsigned-integer directive does to its slot.
pub open spec fn apply_uint_trans(dest: Option<u32>, d: DirectiveV) -> (
    Option<u32>,
    Option<Error>,
) {
    match read_u32_spec(d) {
        Result::Err(e) => (dest, Option::Some(e)),
        Result::Ok(v) => match dest {
            Option::Some(_) => (
                dest,
                Option::Some(Error { kind: DiagnosticKind::DuplicateKey, span: d.span }),
            ),
            Option::None => (Option::Some(v), Option::None),
        },
    }
}

/// What applying one boolean directive does to its slot.
pub open spec fn apply_bool_trans(dest: Option<bool>, d: DirectiveV) -> (
    Option<bool>,
    Option<Error>,
) {
    match read_bool_spec(d) {
        Result::Err(e) => (dest, Option::Some(e)),
        Result::Ok(v) => match dest {
            Option::Some(_) => (
                dest,
                Option::Some(Error { kind: DiagnosticKind::DuplicateKey, span: d.span }),
            ),
            Option::None => (Option::Some(v), Option::None),
        },
    }
}

fn apply_uint_key(meta: &Directive, dest: &mut Option<u32>, errors: &mut ErrorList)
    ensures
        *final(dest) == apply_uint_trans(*old(dest), meta@).0,
        final(errors)@ == old(errors)@ + opt_err_seq(apply_uint_trans(*old(dest), meta@).1),
{
    match read_u32(meta) {
        Ok(v) => {
            let r = replace_empty(meta.span, dest, v);
            errors.combine_result(r);
        },
        Err(e) => {
            errors.combine(e);
        },
    }
    proof {
        assert(final(errors)@ =~= old(errors)@ + opt_err_seq(
            apply_uint_trans(*old(dest), meta@).1,
        ));
    }
}

fn apply_bool_key(meta: &Directive, dest: &mut Option<bool>, errors: &mut ErrorList)
    ensures
        *final(dest) == apply_bool_trans(*old(dest), meta@).0,
        final(errors)@ == old(errors)@ + opt_err_seq(apply_bool_trans(*old(dest), meta@).1),
{
    match read_bool(meta) {
        Ok(v) => {
            let r = replace_empty(meta.span, dest, v);
            errors.combine_result(r);
        },
        Err(e) => {
            errors.combine(e);
        },
    }
    proof {
        assert(final(errors)@ =~= old(errors)@ + opt_err_seq(
            apply_bool_trans(*old(dest), meta@).1,
        ));
    }
}

// ---
// The function-level configuration builder
// ---

/// Builder for the configuration of one fuzz target.
#[derive(Debug)]
pub struct PropfuzzConfigBuilder {
    pub proptest: ProptestConfig,
}

impl Default for PropfuzzConfigBuilder {
    /// A builder with every option unset.
    fn default() -> (r: PropfuzzConfigBuilder)
        ensures
            r.proptest == ProptestConfig::spec_empty(),
    {
        PropfuzzConfigBuilder { proptest: ProptestConfig::default() }
    }
}

impl PropfuzzConfigBuilder {
    /// Applies a single directive, in source order.
    pub fn apply_meta(&mut self, meta: &Directive, errors: &mut ErrorList)
        ensures
            final(self).proptest == apply_meta_trans(old(self).proptest, meta@).0,
            final(errors)@ == old(errors)@ + opt_err_seq(
                apply_meta_trans(old(self).proptest, meta@).1,
            ),
    {
        let key = meta.key.as_str();
        if str_eq(key, "cases") {
            apply_uint_key(meta, &mut self.proptest.cases, errors);
        } else if str_eq(key, "max_local_rejects") {
            apply_uint_key(meta, &mut self.proptest.max_local_rejects, errors);
        } else if str_eq(key, "max_global_rejects") {
            apply_uint_key(meta, &mut self.proptest.max_global_rejects, errors);
        } else if str_eq(key, "max_flat_map_regens") {
            apply_uint_key(meta, &mut self.proptest.max_flat_map_regens, errors);
        } else if str_eq(key, "fork") {
            apply_bool_key(meta, &mut self.proptest.fork, errors);
        } else if str_eq(key, "timeout") {
            apply_uint_key(meta, &mut self.proptest.timeout, errors);
        } else if str_eq(key, "max_shrink_time") {
            apply_uint_key(meta, &mut self.proptest.max_shrink_time, errors);
        } else if str_eq(key, "max_shrink_iters") {
            apply_uint_key(meta, &mut self.proptest.max_shrink_iters, errors);
        } else if str_eq(key, "verbose") {
            apply_uint_key(meta, &mut self.proptest.verbose, errors);
        } else {
            errors.combine(Error::new(meta.span, DiagnosticKind::UnrecognizedKey));
            proof {
                assert(final(errors)@ =~= old(errors)@ + opt_err_seq(
                    apply_meta_trans(old(self).proptest, meta@).1,
                ));
            }
        }
    }

    /// Applies a single annotation argument.
    pub fn apply_arg(&mut self, arg: &DirectiveArg, errors: &mut ErrorList)
        ensures
            final(self).proptest == apply_arg_trans(old(self).proptest, arg@).0,
            final(errors)@ == old(errors)@ + opt_err_seq(
                apply_arg_trans(old(self).proptest, arg@).1,
            ),
    {
        match arg {
            DirectiveArg::Meta(meta) => {
                self.apply_meta(meta, errors);
            },
            DirectiveArg::Lit { span } => {
                errors.combine(Error::new(*span, DiagnosticKind::MalformedDirective));
                proof {
                    assert(final(errors)@ =~= old(errors)@ + opt_err_seq(
                        apply_arg_trans(old(self).proptest, arg@).1,
                    ));
                }
            },
        }
    }

    /// Applies every argument of one annotation, in source order.
    pub fn apply_args(&mut self, args: &Vec<DirectiveArg>, errors: &mut ErrorList)
        ensures
            final(self).proptest == apply_args_trans(old(self).proptest, args.deep_view()).0,
            final(errors)@ == old(errors)@ + apply_args_trans(old(self).proptest, args.deep_view()).1,
    {
        let ghost dv = args.deep_view();
        let n = args.len();
        let mut i: usize = 0;
        proof {
            assert(dv.take(0) =~= Seq::<DirectiveArgV>::empty());
            assert(old(errors)@ + apply_args_trans(old(self).proptest, dv.take(0)).1 =~= old(
                errors,
            )@);
        }
        while i < n
            invariant
                n == args@.len(),
                dv == args.deep_view(),
                dv.len() == n,
                forall|k: int| 0 <= k < n ==> dv[k] == args@[k]@,
                i <= n,
                self.proptest == apply_args_trans(old(self).proptest, dv.take(i as int)).0,
                errors@ == old(errors)@ + apply_args_trans(old(self).proptest, dv.take(i as int)).1,
            decreases n - i,
        {
            self.apply_arg(&args[i], errors);
            proof {
                assert(dv.take(i + 1) =~= dv.take(i as int).push(dv[i as int]));
                lemma_apply_args_snoc(old(self).proptest, dv.take(i as int), dv[i as int]);
                assert(errors@ =~= old(errors)@ + apply_args_trans(
                    old(self).proptest,
                    dv.take(i + 1),
                ).1);
            }
            i = i + 1;
        }
        proof {
            assert(dv.take(n as int) =~= dv);
        }
    }

    /// Completes building and returns the target's configuration.
    pub fn finish(self) -> (r: PropfuzzConfig)
        ensures
            r.proptest == self.proptest,
    {
        PropfuzzConfig { proptest: self.proptest }
    }
}

/// Overall configuration of a single fuzz target, fully built.
#[derive(Debug, Clone, Copy)]
pub struct PropfuzzConfig {
    pub proptest: ProptestConfig,
}

// ---
// Configuration for parameters
// ---

/// The generation strategy resolved for one parameter: either the canonical
/// default generator for the parameter's declared type, deferred until build
/// time, or a user-supplied generator expression evaluated by the property
/// engine.
#[derive(Debug)]
pub enum StrategyExpr {
    DefaultFor { ty: String },
    Custom { expr: String },
}

/// Mathematical model of a resolved strategy.
pub enum StrategyExprV {
    DefaultFor { ty: Seq<char> },
    Custom { expr: Seq<char> },
}

impl View for StrategyExpr {
    type V = StrategyExprV;

    open spec fn view(&self) -> StrategyExprV {
        match self {
            StrategyExpr::DefaultFor { ty } => StrategyExprV::DefaultFor { ty: ty@ },
            StrategyExpr::Custom { expr } => StrategyExprV::Custom { expr: expr@ },
        }
    }
}

impl DeepView for StrategyExpr {
    type V = StrategyExprV;

    open spec fn deep_view(&self) -> StrategyExprV {
        self.view()
    }
}

impl Clone for StrategyExpr {
    fn clone(&self) -> (r: Self)
        ensures
            r == *self,
    {
        match self {
            StrategyExpr::DefaultFor { ty } => StrategyExpr::DefaultFor { ty: ty.clone() },
            StrategyExpr::Custom { expr } => StrategyExpr::Custom { expr: expr.clone() },
        }
    }
}

pub open spec fn str_opt_view(o: Option<String>) -> Option<Seq<char>> {
    match o {
        Option::Some(s) => Option::Some(s@),
        Option::None => Option::None,
    }
}

/// What one directive does to a parameter's strategy slot. Only the
/// `strategy` key is recognized in the parameter namespace; a second strategy
/// on the same parameter is a duplicate and the first one is kept.
pub open spec fn param_apply_meta_trans(s: Option<Seq<char>>, d: DirectiveV) -> (
    Option<Seq<char>>,
    Option<Error>,
) {
    if d.key == "strategy"@ {
        match read_expr_spec(d) {
            Result::Err(e) => (s, Option::Some(e)),
            Result::Ok(t) => match s {
                Option::Some(_) => (
                    s,
                    Option::Some(Error { kind: DiagnosticKind::DuplicateKey, span: d.span }),
                ),
                Option::None => (Option::Some(t), Option::None),
            },
        }
    } else {
        (s, Option::Some(Error { kind: DiagnosticKind::UnrecognizedKey, span: d.span }))
    }
}

/// What one annotation argument does to a parameter's strategy slot.
pub open spec fn param_apply_arg_trans(s: Option<Seq<char>>, a: DirectiveArgV) -> (
    Option<Seq<char>>,
    Option<Error>,
) {
    match a {
        DirectiveArgV::Meta(d) => param_apply_meta_trans(s, d),
        DirectiveArgV::Lit { span } => (
            s,
            Option::Some(Error { kind: DiagnosticKind::MalformedDirective, span }),
        ),
    }
}

/// What a whole argument list does to a parameter's strategy slot.
pub open spec fn param_apply_args_trans(s: Option<Seq<char>>, args: Seq<DirectiveArgV>) -> (
    Option<Seq<char>>,
    Seq<Error>,
)
    decreases args.len(),
{
    if args.len() == 0 {
        (s, Seq::empty())
    } else {
        let head = param_apply_arg_trans(s, args[0]);
        let rest = param_apply_args_trans(head.0, args.drop_first());
        (rest.0, opt_err_seq(head.1) + rest.1)
    }
}

pub proof fn lemma_param_apply_args_snoc(
    s0: Option<Seq<char>>,
    s: Seq<DirectiveArgV>,
    x: DirectiveArgV,
)
    ensures
        param_apply_args_trans(s0, s.push(x)).0 == param_apply_arg_trans(
            param_apply_args_trans(s0, s).0,
            x,
        ).0,
        param_apply_args_trans(s0, s.push(x)).1 == param_apply_args_trans(s0, s).1 + opt_err_seq(
            param_apply_arg_trans(param_apply_args_trans(s0, s).0, x).1,
        ),
    decreases s.len(),
{
    let p = s.push(x);
    assert(p.len() == s.len() + 1);
    if s.len() == 0 {
        assert(p[0] == x);
        assert(p.drop_first() =~= Seq::<DirectiveArgV>::empty());
        let head = param_apply_arg_trans(s0, x);
        assert(param_apply_args_trans(head.0, Seq::<DirectiveArgV>::empty()) == (
            head.0,
            Seq::<Error>::empty(),
        ));
        assert(param_apply_args_trans(s0, p) == (
            head.0,
            opt_err_seq(head.1) + Seq::<Error>::empty(),
        ));
        assert(param_apply_args_trans(s0, s) == (s0, Seq::<Error>::empty()));
        assert(opt_err_seq(head.1) + Seq::<Error>::empty() =~= Seq::<Error>::empty() + opt_err_seq(
            head.1,
        ));
    } else {
        assert(p[0] == s[0]);
        assert(p.drop_first() =~= s.drop_first().push(x));
        let head = param_apply_arg_trans(s0, s[0]);
        lemma_param_apply_args_snoc(head.0, s.drop_first(), x);
        let rest = param_apply_args_trans(head.0, s.drop_first());
        let restp = param_apply_args_trans(head.0, s.drop_first().push(x));
        assert(param_apply_args_trans(s0, p) == (restp.0, opt_err_seq(head.1) + restp.1));
        assert(param_apply_args_trans(s0, s) == (rest.0, opt_err_seq(head.1) + rest.1));
        assert(opt_err_seq(head.1) + (rest.1 + opt_err_seq(
            param_apply_arg_trans(rest.0, x).1,
        )) =~= (opt_err_seq(head.1) + rest.1) + opt_err_seq(param_apply_arg_trans(rest.0, x).1));
    }
}

/// Builder for one parameter's generation strategy.
#[derive(Debug)]
pub struct ParamConfigBuilder {
    pub ty: String,
    pub strategy: Option<String>,
}

impl ParamConfigBuilder {
    /// A builder for a parameter of the given declared type, with no
    /// strategy directive seen yet.
    pub fn new(ty: &String) -> (r: ParamConfigBuilder)
        ensures
            r.ty@ == ty@,
            r.strategy is None,
    {
        ParamConfigBuilder { ty: ty.clone(), strategy: None }
    }

    /// Applies a single directive from the parameter's namespace.
    pub fn apply_meta(&mut self, meta: &Directive, errors: &mut ErrorList)
        ensures
            final(self).ty == old(self).ty,
            str_opt_view(final(self).strategy) == param_apply_meta_trans(
                str_opt_view(old(self).strategy),
                meta@,
            ).0,
            final(errors)@ == old(errors)@ + opt_err_seq(
                param_apply_meta_trans(str_opt_view(old(self).strategy), meta@).1,
            ),
    {
        let key = meta.key.as_str();
        if str_eq(key, "strategy") {
            match read_expr(meta) {
                Ok(expr) => {
                    let r = replace_empty(meta.span, &mut self.strategy, expr);
                    errors.combine_result(r);
                },
                Err(e) => {
                    errors.combine(e);
                },
            }
        } else {
            errors.combine(Error::new(meta.span, DiagnosticKind::UnrecognizedKey));
        }
        proof {
            assert(final(errors)@ =~= old(errors)@ + opt_err_seq(
                param_apply_meta_trans(str_opt_view(old(self).strategy), meta@).1,
            ));
        }
    }

    /// Applies a single annotation argument.
    pub fn apply_arg(&mut self, arg: &DirectiveArg, errors: &mut ErrorList)
        ensures
            final(self).ty == old(self).ty,
            str_opt_view(final(self).strategy) == param_apply_arg_trans(
                str_opt_view(old(self).strategy),
                arg@,
            ).0,
            final(errors)@ == old(errors)@ + opt_err_seq(
                param_apply_arg_trans(str_opt_view(old(self).strategy), arg@).1,
            ),
    {
        match arg {
            DirectiveArg::Meta(meta) => {
                self.apply_meta(meta, errors);
            },
            DirectiveArg::Lit { span } => {
                errors.combine(Error::new(*span, DiagnosticKind::MalformedDirective));
                proof {
                    assert(final(errors)@ =~= old(errors)@ + opt_err_seq(
                        param_apply_arg_trans(str_opt_view(old(self).strategy), arg@).1,
                    ));
                }
            },
        }
    }

    /// Applies every argument of one annotation, in source order.
    pub fn apply_args(&mut self, args: &Vec<DirectiveArg>, errors: &mut ErrorList)
        ensures
            final(self).ty == old(self).ty,
            str_opt_view(final(self).strategy) == param_apply_args_trans(
                str_opt_view(old(self).strategy),
                args.deep_view(),
            ).0,
            final(errors)@ == old(errors)@ + param_apply_args_trans(
                str_opt_view(old(self).strategy),
                args.deep_view(),
            ).1,
    {
        let ghost s0 = str_opt_view(old(self).strategy);
        let ghost dv = args.deep_view();
        let n = args.len();
        let mut i: usize = 0;
        proof {
            assert(dv.take(0) =~= Seq::<DirectiveArgV>::empty());
            assert(old(errors)@ + param_apply_args_trans(s0, dv.take(0)).1 =~= old(errors)@);
        }
        while i < n
            invariant
                n == args@.len(),
                dv == args.deep_view(),
                dv.len() == n,
                forall|k: int| 0 <= k < n ==> dv[k] == args@[k]@,
                i <= n,
                self.ty == old(self).ty,
                str_opt_view(self.strategy) == param_apply_args_trans(s0, dv.take(i as int)).0,
                errors@ == old(errors)@ + param_apply_args_trans(s0, dv.take(i as int)).1,
            decreases n - i,
        {
            self.apply_arg(&args[i], errors);
            proof {
                assert(dv.take(i + 1) =~= dv.take(i as int).push(dv[i as int]));
                lemma_param_apply_args_snoc(s0, dv.take(i as int), dv[i as int]);
                assert(errors@ =~= old(errors)@ + param_apply_args_trans(s0, dv.take(i + 1)).1);
            }
            i = i + 1;
        }
        proof {
            assert(dv.take(n as int) =~= dv);
        }
    }

    /// Completes building: an explicit strategy expression is kept, and a
    /// parameter without one falls back to the canonical default generator
    /// for its declared type.
    pub fn finish(self) -> (r: ParamConfig)
        ensures
            r.strategy@ == match str_opt_view(self.strategy) {
                Option::Some(e) => StrategyExprV::Custom { expr: e },
                Option::None => StrategyExprV::DefaultFor { ty: self.ty@ },
            },
    {
        let strategy = match self.strategy {
            Some(expr) => StrategyExpr::Custom { expr },
            None => StrategyExpr::DefaultFor { ty: self.ty },
        };
        ParamConfig { strategy }
    }
}

/// The resolved generation strategy of one parameter.
#[derive(Debug)]
pub struct ParamConfig {
    pub strategy: StrategyExpr,
}

impl ParamConfig {
    /// The resolved strategy expression.
    pub fn strategy(&self) -> (r: &StrategyExpr)
        ensures
            r == &self.strategy,
    {
        &self.strategy
    }
}

// ---
// Finalizing against the engine defaults
// ---

/// A fully defaulted configuration record, ready to hand to the engine.
#[derive(Debug, Clone, Copy, PartialEq, Eq)]
pub struct ResolvedConfig {
    pub cases: u32,
    pub max_local_rejects: u32,
    pub max_global_rejects: u32,
    pub max_flat_map_regens: u32,
    pub fork: bool,
    pub timeout: u32,
    pub max_shrink_time: u32,
    pub max_shrink_iters: u32,
    pub verbose: u32,
}

pub open spec fn u32_or(o: Option<u32>, d: u32) -> u32 {
    match o {
        Option::Some(v) => v,
        Option::None => d,
    }
}

pub open spec fn bool_or(o: Option<bool>, d: bool) -> bool {
    match o {
        Option::Some(v) => v,
        Option::None => d,
    }
}

impl ProptestConfig {
    /// The record with every unset option replaced by the engine's default.
    pub open spec fn spec_resolve(self, d: ResolvedConfig) -> ResolvedConfig {
        ResolvedConfig {
            cases: u32_or(self.cases, d.cases),
            max_local_rejects: u32_or(self.max_local_rejects, d.max_local_rejects),
            max_global_rejects: u32_or(self.max_global_rejects, d.max_global_rejects),
            max_flat_map_regens: u32_or(self.max_flat_map_regens, d.max_flat_map_regens),
            fork: bool_or(self.fork, d.fork),
            timeout: u32_or(self.timeout, d.timeout),
            max_shrink_time: u32_or(self.max_shrink_time, d.max_shrink_time),
            max_shrink_iters: u32_or(self.max_shrink_iters, d.max_shrink_iters),
            verbose: u32_or(self.verbose, d.verbose),
        }
    }

    /// Replaces every unset option by the engine's default; options that were
    /// set keep their value.
    pub fn resolve(&self, defaults: &ResolvedConfig) -> (r: ResolvedConfig)
        ensures
            r == self.spec_resolve(*defaults),
    {
        ResolvedConfig {
            cases: match self.cases {
                Some(v) => v,
                None => defaults.cases,
            },
            max_local_rejects: match self.max_local_rejects {
                Some(v) => v,
                None => defaults.max_local_rejects,
            },
            max_global_rejects: match self.max_global_rejects {
                Some(v) => v,
                None => defaults.max_global_rejects,
            },
            max_flat_map_regens: match self.max_flat_map_regens {
                Some(v) => v,
                None => defaults.max_flat_map_regens,
            },
            fork: match self.fork {
                Some(v) => v,
                None => defaults.fork,
            },
            timeout: match self.timeout {
                Some(v) => v,
                None => defaults.timeout,
            },
            max_shrink_time: match self.max_shrink_time {
                Some(v) => v,
                None => defaults.max_shrink_time,
            },
            max_shrink_iters: match self.max_shrink_iters {
                Some(v) => v,
                None => defaults.max_shrink_iters,
            },
            verbose: match self.verbose {
                Some(v) => v,
                None => defaults.verbose,
            },
        }
    }
}

} // verus!
