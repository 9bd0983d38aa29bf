//! Building a target specification from an annotated function.
//!
//! The input is a structured descriptor of one function: its name, its
//! attributes (documentation lines, fuzzing annotations, anything else) and
//! its parameter list. Resolution merges every annotation into one
//! configuration, resolves a generation strategy for every parameter, and
//! assembles the immutable target specification — or reports every problem
//! found across the whole pass at once.

use vstd::prelude::*;

use crate::config::{
    apply_args_trans, count_kind, dup_total, first_set, lemma_apply_args_concat,
    lemma_count_kind_concat, lemma_count_kind_opt, lemma_duplicates_diagnosed,
    lemma_first_write_wins, opt_err_seq, param_apply_args_trans, str_opt_view, DirectiveArg,
    DirectiveArgV, OptionKey, ParamConfig, ParamConfigBuilder, PropfuzzConfig,
    PropfuzzConfigBuilder, ProptestConfig, StrategyExprV,
};
use crate::errors::{DiagnosticKind, Error, ErrorList};
use crate::text::{join_lines, join_with_newlines, trim, trim_spec};

verus! {

// ---
// The function descriptor
// ---

/// One attribute attached to a function or parameter: a documentation line,
/// a fuzzing annotation carrying directives, or something else entirely.
#[derive(Debug)]
pub enum Attr {
    Doc { text: String, span: u64 },
    Propfuzz { args: Vec<DirectiveArg>, span: u64 },
    Other { span: u64 },
}

/// Mathematical model of an attribute.
pub enum AttrV {
    Doc { text: Seq<char>, span: u64 },
    Propfuzz { args: Seq<DirectiveArgV>, span: u64 },
    Other { span: u64 },
}

impl View for Attr {
    type V = AttrV;

    open spec fn view(&self) -> AttrV {
        match self {
            Attr::Doc { text, span } => AttrV::Doc { text: text@, span: *span },
            Attr::Propfuzz { args, span } => AttrV::Propfuzz {
                args: args.deep_view(),
                span: *span,
            },
            Attr::Other { span } => AttrV::Other { span: *span },
        }
    }
}

impl DeepView for Attr {
    type V = AttrV;

    open spec fn deep_view(&self) -> AttrV {
        self.view()
    }
}

/// A typed parameter: its binding pattern, declared type, and attributes.
#[derive(Debug)]
pub struct PatType {
    pub pat: String,
    pub ty: String,
    pub attrs: Vec<Attr>,
    pub span: u64,
}

/// Mathematical model of a typed parameter.
pub struct PatTypeV {
    pub pat: Seq<char>,
    pub ty: Seq<char>,
    pub attrs: Seq<AttrV>,
    pub span: u64,
}

impl View for PatType {
    type V = PatTypeV;

    open spec fn view(&self) -> PatTypeV {
        PatTypeV { pat: self.pat@, ty: self.ty@, attrs: self.attrs.deep_view(), span: self.span }
    }
}

impl DeepView for PatType {
    type V = PatTypeV;

    open spec fn deep_view(&self) -> PatTypeV {
        self.view()
    }
}

/// One entry of a function's parameter list: a receiver (`self`-style)
/// binding, or an ordinary typed parameter.
#[derive(Debug)]
pub enum FnArg {
    Receiver { span: u64 },
    Typed(PatType),
}

/// Mathematical model of a parameter-list entry.
pub enum FnArgV {
    Receiver { span: u64 },
    Typed(PatTypeV),
}

impl View for FnArg {
    type V = FnArgV;

    open spec fn view(&self) -> FnArgV {
        match self {
            FnArg::Receiver { span } => FnArgV::Receiver { span: *span },
            FnArg::Typed(p) => FnArgV::Typed(p@),
        }
    }
}

impl DeepView for FnArg {
    type V = FnArgV;

    open spec fn deep_view(&self) -> FnArgV {
        self.view()
    }
}

/// A structured descriptor of one annotated function.
#[derive(Debug)]
pub struct FnDecl {
    pub module: String,
    pub name: String,
    pub attrs: Vec<Attr>,
    pub inputs: Vec<FnArg>,
    pub span: u64,
}

/// Mathematical model of a function descriptor.
pub struct FnDeclV {
    pub module: Seq<char>,
    pub name: Seq<char>,
    pub attrs: Seq<AttrV>,
    pub inputs: Seq<FnArgV>,
    pub span: u64,
}

impl View for FnDecl {
    type V = FnDeclV;

    open spec fn view(&self) -> FnDeclV {
        FnDeclV {
            module: self.module@,
            name: self.name@,
            attrs: self.attrs.deep_view(),
            inputs: self.inputs.deep_view(),
            span: self.span,
        }
    }
}

impl DeepView for FnDecl {
    type V = FnDeclV;

    open spec fn deep_view(&self) -> FnDeclV {
        self.view()
    }
}

// ---
// Applying whole annotations to the function-level configuration
// ---

/// What a list of attributes does to the configuration record: every fuzzing
/// annotation's arguments are applied in source order, other attributes are
/// passed over.
pub open spec fn apply_attrs_trans(c: ProptestConfig, attrs: Seq<AttrV>) -> (
    ProptestConfig,
    Seq<Error>,
)
    decreases attrs.len(),
{
    if attrs.len() == 0 {
        (c, Seq::empty())
    } else {
        let head = match attrs[0] {
            AttrV::Propfuzz { args, .. } => apply_args_trans(c, args),
            _ => (c, Seq::<Error>::empty()),
        };
        let rest = apply_attrs_trans(head.0, attrs.drop_first());
        (rest.0, head.1 + rest.1)
    }
}

pub proof fn lemma_apply_attrs_snoc(c: ProptestConfig, s: Seq<AttrV>, x: AttrV)
    ensures
        ({
            let prev = apply_attrs_trans(c, s);
            let step = match x {
                AttrV::Propfuzz { args, .. } => apply_args_trans(prev.0, args),
                _ => (prev.0, Seq::<Error>::empty()),
            };
            apply_attrs_trans(c, s.push(x)) == (step.0, prev.1 + step.1)
        }),
    decreases s.len(),
{
    let p = s.push(x);
    assert(p.len() == s.len() + 1);
    let prev = apply_attrs_trans(c, s);
    let step = match x {
        AttrV::Propfuzz { args, .. } => apply_args_trans(prev.0, args),
        _ => (prev.0, Seq::<Error>::empty()),
    };
    if s.len() == 0 {
        assert(p[0] == x);
        assert(p.drop_first() =~= Seq::<AttrV>::empty());
        let head = match p[0] {
            AttrV::Propfuzz { args, .. } => apply_args_trans(c, args),
            _ => (c, Seq::<Error>::empty()),
        };
        assert(apply_attrs_trans(head.0, Seq::<AttrV>::empty()) == (
            head.0,
            Seq::<Error>::empty(),
        ));
        assert(apply_attrs_trans(c, p) == (head.0, head.1 + Seq::<Error>::empty()));
        assert(head.1 + Seq::<Error>::empty() =~= Seq::<Error>::empty() + head.1);
    } else {
        assert(p[0] == s[0]);
        assert(p.drop_first() =~= s.drop_first().push(x));
        let head = match s[0] {
            AttrV::Propfuzz { args, .. } => apply_args_trans(c, args),
            _ => (c, Seq::<Error>::empty()),
        };
        lemma_apply_attrs_snoc(head.0, s.drop_first(), x);
        let rest = apply_attrs_trans(head.0, s.drop_first());
        let step2 = match x {
            AttrV::Propfuzz { args, .. } => apply_args_trans(rest.0, args),
            _ => (rest.0, Seq::<Error>::empty()),
        };
        assert(apply_attrs_trans(c, p) == (step2.0, head.1 + (rest.1 + step2.1)));
        assert(head.1 + (rest.1 + step2.1) =~= (head.1 + rest.1) + step2.1);
    }
}

impl PropfuzzConfigBuilder {
    /// Applies the arguments of every fuzzing annotation in the list, in
    /// source order; other attributes are passed over.
    pub fn apply_attrs(&mut self, attrs: &Vec<Attr>, errors: &mut ErrorList)
        ensures
            final(self).proptest == apply_attrs_trans(old(self).proptest, attrs.deep_view()).0,
            final(errors)@ == old(errors)@ + apply_attrs_trans(
                old(self).proptest,
                attrs.deep_view(),
            ).1,
    {
        let ghost dv = attrs.deep_view();
        let n = attrs.len();
        let mut i: usize = 0;
        proof {
            assert(dv.take(0) =~= Seq::<AttrV>::empty());
            assert(old(errors)@ + apply_attrs_trans(old(self).proptest, dv.take(0)).1 =~= old(
                errors,
            )@);
        }
        while i < n
            invariant
                n == attrs@.len(),
                dv == attrs.deep_view(),
                dv.len() == n,
                forall|k: int| 0 <= k < n ==> dv[k] == attrs@[k]@,
                i <= n,
                self.proptest == apply_attrs_trans(old(self).proptest, dv.take(i as int)).0,
                errors@ == old(errors)@ + apply_attrs_trans(
                    old(self).proptest,
                    dv.take(i as int),
                ).1,
            decreases n - i,
        {
            match &attrs[i] {
                Attr::Propfuzz { args, .. } => {
                    self.apply_args(args, errors);
                },
                _ => {},
            }
            proof {
                assert(dv.take(i + 1) =~= dv.take(i as int).push(dv[i as int]));
                lemma_apply_attrs_snoc(old(self).proptest, dv.take(i as int), dv[i as int]);
                assert(errors@ =~= old(errors)@ + apply_attrs_trans(
                    old(self).proptest,
                    dv.take(i + 1),
                ).1);
            }
            i = i + 1;
        }
        proof {
            assert(dv.take(n as int) =~= dv);
        }
    }
}

// ---
// Resolving one parameter
// ---

/// What a list of attributes does to a parameter's strategy slot: every
/// fuzzing annotation's arguments are applied in source order, other
/// attributes are passed over here and reported separately.
pub open spec fn param_apply_attrs_trans(s: Option<Seq<char>>, attrs: Seq<AttrV>) -> (
    Option<Seq<char>>,
    Seq<Error>,
)
    decreases attrs.len(),
{
    if attrs.len() == 0 {
        (s, Seq::empty())
    } else {
        let head = match attrs[0] {
            AttrV::Propfuzz { args, .. } => param_apply_args_trans(s, args),
            _ => (s, Seq::<Error>::empty()),
        };
        let rest = param_apply_attrs_trans(head.0, attrs.drop_first());
        (rest.0, head.1 + rest.1)
    }
}

pub proof fn lemma_param_apply_attrs_snoc(s0: Option<Seq<char>>, s: Seq<AttrV>, x: AttrV)
    ensures
        ({
            let prev = param_apply_attrs_trans(s0, s);
            let step = match x {
                AttrV::Propfuzz { args, .. } => param_apply_args_trans(prev.0, args),
                _ => (prev.0, Seq::<Error>::empty()),
            };
            param_apply_attrs_trans(s0, s.push(x)) == (step.0, prev.1 + step.1)
        }),
    decreases s.len(),
{
    let p = s.push(x);
    assert(p.len() == s.len() + 1);
    if s.len() == 0 {
        assert(p[0] == x);
        assert(p.drop_first() =~= Seq::<AttrV>::empty());
        let head = match p[0] {
            AttrV::Propfuzz { args, .. } => param_apply_args_trans(s0, args),
            _ => (s0, Seq::<Error>::empty()),
        };
        assert(param_apply_attrs_trans(head.0, Seq::<AttrV>::empty()) == (
            head.0,
            Seq::<Error>::empty(),
        ));
        assert(param_apply_attrs_trans(s0, p) == (head.0, head.1 + Seq::<Error>::empty()));
        assert(head.1 + Seq::<Error>::empty() =~= Seq::<Error>::empty() + head.1);
    } else {
        assert(p[0] == s[0]);
        assert(p.drop_first() =~= s.drop_first().push(x));
        let head = match s[0] {
            AttrV::Propfuzz { args, .. } => param_apply_args_trans(s0, args),
            _ => (s0, Seq::<Error>::empty()),
        };
        lemma_param_apply_attrs_snoc(head.0, s.drop_first(), x);
        let rest = param_apply_attrs_trans(head.0, s.drop_first());
        let step2 = match x {
            AttrV::Propfuzz { args, .. } => param_apply_args_trans(rest.0, args),
            _ => (rest.0, Seq::<Error>::empty()),
        };
        assert(param_apply_attrs_trans(s0, p) == (step2.0, head.1 + (rest.1 + step2.1)));
        assert(head.1 + (rest.1 + step2.1) =~= (head.1 + rest.1) + step2.1);
    }
}

/// One unsupported-context diagnostic for every attribute on a parameter
/// that is not a fuzzing annotation: there is nowhere for them to go.
pub open spec fn unsupported_attr_errors(attrs: Seq<AttrV>) -> Seq<Error>
    decreases attrs.len(),
{
    if attrs.len() == 0 {
        Seq::empty()
    } else {
        let head: Seq<Error> = match attrs[0] {
            AttrV::Propfuzz { .. } => Seq::empty(),
            AttrV::Doc { span, .. } => seq![
                Error { kind: DiagnosticKind::UnsupportedContext, span },
            ],
            AttrV::Other { span } => seq![
                Error { kind: DiagnosticKind::UnsupportedContext, span },
            ],
        };
        head + unsupported_attr_errors(attrs.drop_first())
    }
}

proof fn lemma_unsupported_attr_snoc(s: Seq<AttrV>, x: AttrV)
    ensures
        ({
            let step: Seq<Error> = match x {
                AttrV::Propfuzz { .. } => Seq::empty(),
                AttrV::Doc { span, .. } => seq![
                    Error { kind: DiagnosticKind::UnsupportedContext, span },
                ],
                AttrV::Other { span } => seq![
                    Error { kind: DiagnosticKind::UnsupportedContext, span },
                ],
            };
            unsupported_attr_errors(s.push(x)) == unsupported_attr_errors(s) + step
        }),
    decreases s.len(),
{
    let p = s.push(x);
    let step: Seq<Error> = match x {
        AttrV::Propfuzz { .. } => Seq::empty(),
        AttrV::Doc { span, .. } => seq![Error { kind: DiagnosticKind::UnsupportedContext, span }],
        AttrV::Other { span } => seq![Error { kind: DiagnosticKind::UnsupportedContext, span }],
    };
    if s.len() == 0 {
        assert(p[0] == x);
        assert(p.drop_first() =~= Seq::<AttrV>::empty());
        assert(unsupported_attr_errors(Seq::<AttrV>::empty()) == Seq::<Error>::empty());
        assert(unsupported_attr_errors(p) == step + Seq::<Error>::empty());
        assert(step + Seq::<Error>::empty() =~= Seq::<Error>::empty() + step);
    } else {
        assert(p[0] == s[0]);
        assert(p.drop_first() =~= s.drop_first().push(x));
        lemma_unsupported_attr_snoc(s.drop_first(), x);
        let head: Seq<Error> = match s[0] {
            AttrV::Propfuzz { .. } => Seq::empty(),
            AttrV::Doc { span, .. } => seq![
                Error { kind: DiagnosticKind::UnsupportedContext, span },
            ],
            AttrV::Other { span } => seq![
                Error { kind: DiagnosticKind::UnsupportedContext, span },
            ],
        };
        assert(head + (unsupported_attr_errors(s.drop_first()) + step) =~= (head
            + unsupported_attr_errors(s.drop_first())) + step);
    }
}

/// A resolved parameter: its binding pattern, declared type, and the
/// strategy that will generate its values.
pub struct PropfuzzParamV {
    pub name_pat: Seq<char>,
    pub ty: Seq<char>,
    pub strategy: StrategyExprV,
}

/// What resolving one typed parameter yields: the resolved parameter, or
/// every problem found on it. Strategy directives are applied first, then
/// each foreign attribute is reported; the parameter resolves only when
/// both steps were clean.
pub open spec fn param_new_trans(p: PatTypeV) -> Result<PropfuzzParamV, Seq<Error>> {
    let fold = param_apply_attrs_trans(Option::None, p.attrs);
    let errs = fold.1 + unsupported_attr_errors(p.attrs);
    if errs.len() == 0 {
        Result::Ok(
            PropfuzzParamV {
                name_pat: p.pat,
                ty: p.ty,
                strategy: match fold.0 {
                    Option::Some(e) => StrategyExprV::Custom { expr: e },
                    Option::None => StrategyExprV::DefaultFor { ty: p.ty },
                },
            },
        )
    } else {
        Result::Err(errs)
    }
}

/// A fuzzing input parameter: a random instance of a specific type, and the
/// strategy used to generate that instance.
#[derive(Debug)]
pub struct PropfuzzParam {
    pub name_pat: String,
    pub ty: String,
    pub config: ParamConfig,
}

impl View for PropfuzzParam {
    type V = PropfuzzParamV;

    open spec fn view(&self) -> PropfuzzParamV {
        PropfuzzParamV {
            name_pat: self.name_pat@,
            ty: self.ty@,
            strategy: self.config.strategy@,
        }
    }
}

impl DeepView for PropfuzzParam {
    type V = PropfuzzParamV;

    open spec fn deep_view(&self) -> PropfuzzParamV {
        self.view()
    }
}

impl PropfuzzParam {
    /// Resolves one typed parameter, collecting every problem found on it.
    pub fn new(param: &PatType) -> (r: Result<PropfuzzParam, Vec<Error>>)
        ensures
            match r {
                Ok(pp) => param_new_trans(param@) == Result::<PropfuzzParamV, Seq<Error>>::Ok(pp@),
                Err(es) => param_new_trans(param@) == Result::<PropfuzzParamV, Seq<Error>>::Err(
                    es@,
                ) && es@.len() > 0,
            },
    {
        let ghost dv = param.attrs.deep_view();
        let mut errors = ErrorList::new();
        let mut config_builder = ParamConfigBuilder::new(&param.ty);
        let n = param.attrs.len();

        // Strategy directives first, in source order.
        let mut i: usize = 0;
        proof {
            assert(dv.take(0) =~= Seq::<AttrV>::empty());
            assert(param_apply_attrs_trans(Option::None, dv.take(0)).1
                =~= Seq::<Error>::empty());
        }
        while i < n
            invariant
                n == param.attrs@.len(),
                dv == param.attrs.deep_view(),
                dv.len() == n,
                forall|k: int| 0 <= k < n ==> dv[k] == param.attrs@[k]@,
                i <= n,
                config_builder.ty@ == param.ty@,
                str_opt_view(config_builder.strategy) == param_apply_attrs_trans(
                    Option::None,
                    dv.take(i as int),
                ).0,
                errors@ == param_apply_attrs_trans(Option::None, dv.take(i as int)).1,
            decreases n - i,
        {
            match &param.attrs[i] {
                Attr::Propfuzz { args, .. } => {
                    config_builder.apply_args(args, &mut errors);
                },
                _ => {},
            }
            proof {
                assert(dv.take(i + 1) =~= dv.take(i as int).push(dv[i as int]));
                lemma_param_apply_attrs_snoc(Option::None, dv.take(i as int), dv[i as int]);
            }
            i = i + 1;
        }
        proof {
            assert(dv.take(n as int) =~= dv);
        }

        // Foreign attributes on a parameter have nowhere to go.
        let ghost fold_errs = errors@;
        let mut j: usize = 0;
        proof {
            assert(dv.take(0) =~= Seq::<AttrV>::empty());
            assert(errors@ =~= fold_errs + unsupported_attr_errors(dv.take(0)));
        }
        while j < n
            invariant
                n == param.attrs@.len(),
                dv == param.attrs.deep_view(),
                dv.len() == n,
                forall|k: int| 0 <= k < n ==> dv[k] == param.attrs@[k]@,
                j <= n,
                errors@ == fold_errs + unsupported_attr_errors(dv.take(j as int)),
            decreases n - j,
        {
            match &param.attrs[j] {
                Attr::Propfuzz { .. } => {},
                Attr::Doc { span, .. } => {
                    errors.combine(Error::new(*span, DiagnosticKind::UnsupportedContext));
                },
                Attr::Other { span } => {
                    errors.combine(Error::new(*span, DiagnosticKind::UnsupportedContext));
                },
            }
            proof {
                assert(dv.take(j + 1) =~= dv.take(j as int).push(dv[j as int]));
                lemma_unsupported_attr_snoc(dv.take(j as int), dv[j as int]);
                assert(errors@ =~= fold_errs + unsupported_attr_errors(dv.take(j + 1)));
            }
            j = j + 1;
        }
        proof {
            assert(dv.take(n as int) =~= dv);
        }

        match errors.finish() {
            Err(es) => Err(es),
            Ok(()) => {
                let config = config_builder.finish();
                Ok(PropfuzzParam { name_pat: param.pat.clone(), ty: param.ty.clone(), config })
            },
        }
    }
}

// ---
// Description resolution
// ---

/// The trimmed text of every documentation attribute, in source order.
pub open spec fn doc_lines(attrs: Seq<AttrV>) -> Seq<Seq<char>>
    decreases attrs.len(),
{
    if attrs.len() == 0 {
        Seq::empty()
    } else {
        let head: Seq<Seq<char>> = match attrs[0] {
            AttrV::Doc { text, .. } => seq![trim_spec(text)],
            _ => Seq::empty(),
        };
        head + doc_lines(attrs.drop_first())
    }
}

/// A target's description: its documentation lines, trimmed and joined with
/// newlines in source order.
pub open spec fn description_of(attrs: Seq<AttrV>) -> Seq<char> {
    join_lines(doc_lines(attrs))
}

proof fn lemma_doc_lines_snoc(s: Seq<AttrV>, x: AttrV)
    ensures
        ({
            let step: Seq<Seq<char>> = match x {
                AttrV::Doc { text, .. } => seq![trim_spec(text)],
                _ => Seq::empty(),
            };
            doc_lines(s.push(x)) == doc_lines(s) + step
        }),
    decreases s.len(),
{
    let p = s.push(x);
    let step: Seq<Seq<char>> = match x {
        AttrV::Doc { text, .. } => seq![trim_spec(text)],
        _ => Seq::empty(),
    };
    if s.len() == 0 {
        assert(p[0] == x);
        assert(p.drop_first() =~= Seq::<AttrV>::empty());
        assert(doc_lines(Seq::<AttrV>::empty()) == Seq::<Seq<char>>::empty());
        assert(doc_lines(p) == step + Seq::<Seq<char>>::empty());
        assert(step + Seq::<Seq<char>>::empty() =~= Seq::<Seq<char>>::empty() + step);
    } else {
        assert(p[0] == s[0]);
        assert(p.drop_first() =~= s.drop_first().push(x));
        lemma_doc_lines_snoc(s.drop_first(), x);
        let head: Seq<Seq<char>> = match s[0] {
            AttrV::Doc { text, .. } => seq![trim_spec(text)],
            _ => Seq::empty(),
        };
        assert(head + (doc_lines(s.drop_first()) + step) =~= (head + doc_lines(s.drop_first()))
            + step);
    }
}

// ---
// Resolving the parameter list
// ---

/// A resolved parameter list together with every problem found along the
/// way: receiver-style bindings are unsupported, typed parameters resolve
/// through [`PropfuzzParam`], and resolution continues past failures.
pub open spec fn params_fold(inputs: Seq<FnArgV>) -> (Seq<PropfuzzParamV>, Seq<Error>)
    decreases inputs.len(),
{
    if inputs.len() == 0 {
        (Seq::empty(), Seq::empty())
    } else {
        let head: (Seq<PropfuzzParamV>, Seq<Error>) = match inputs[0] {
            FnArgV::Receiver { span } => (
                Seq::empty(),
                seq![Error { kind: DiagnosticKind::UnsupportedContext, span }],
            ),
            FnArgV::Typed(p) => match param_new_trans(p) {
                Result::Ok(pp) => (seq![pp], Seq::empty()),
                Result::Err(es) => (Seq::empty(), es),
            },
        };
        let rest = params_fold(inputs.drop_first());
        (head.0 + rest.0, head.1 + rest.1)
    }
}

proof fn lemma_params_fold_snoc(s: Seq<FnArgV>, x: FnArgV)
    ensures
        ({
            let step: (Seq<PropfuzzParamV>, Seq<Error>) = match x {
                FnArgV::Receiver { span } => (
                    Seq::empty(),
                    seq![Error { kind: DiagnosticKind::UnsupportedContext, span }],
                ),
                FnArgV::Typed(p) => match param_new_trans(p) {
                    Result::Ok(pp) => (seq![pp], Seq::empty()),
                    Result::Err(es) => (Seq::empty(), es),
                },
            };
            params_fold(s.push(x)) == (
                params_fold(s).0 + step.0,
                params_fold(s).1 + step.1,
            )
        }),
    decreases s.len(),
{
    let p = s.push(x);
    let step: (Seq<PropfuzzParamV>, Seq<Error>) = match x {
        FnArgV::Receiver { span } => (
            Seq::empty(),
            seq![Error { kind: DiagnosticKind::UnsupportedContext, span }],
        ),
        FnArgV::Typed(pt) => match param_new_trans(pt) {
            Result::Ok(pp) => (seq![pp], Seq::empty()),
            Result::Err(es) => (Seq::empty(), es),
        },
    };
    if s.len() == 0 {
        assert(p[0] == x);
        assert(p.drop_first() =~= Seq::<FnArgV>::empty());
        assert(params_fold(Seq::<FnArgV>::empty()) == (
            Seq::<PropfuzzParamV>::empty(),
            Seq::<Error>::empty(),
        ));
        assert(params_fold(p) == (
            step.0 + Seq::<PropfuzzParamV>::empty(),
            step.1 + Seq::<Error>::empty(),
        ));
        assert(step.0 + Seq::<PropfuzzParamV>::empty() =~= Seq::<PropfuzzParamV>::empty()
            + step.0);
        assert(step.1 + Seq::<Error>::empty() =~= Seq::<Error>::empty() + step.1);
    } else {
        assert(p[0] == s[0]);
        assert(p.drop_first() =~= s.drop_first().push(x));
        lemma_params_fold_snoc(s.drop_first(), x);
        let head: (Seq<PropfuzzParamV>, Seq<Error>) = match s[0] {
            FnArgV::Receiver { span } => (
                Seq::empty(),
                seq![Error { kind: DiagnosticKind::UnsupportedContext, span }],
            ),
            FnArgV::Typed(pt) => match param_new_trans(pt) {
                Result::Ok(pp) => (seq![pp], Seq::empty()),
                Result::Err(es) => (Seq::empty(), es),
            },
        };
        let rest = params_fold(s.drop_first());
        assert(head.0 + (rest.0 + step.0) =~= (head.0 + rest.0) + step.0);
        assert(head.1 + (rest.1 + step.1) =~= (head.1 + rest.1) + step.1);
    }
}

/// What resolving a parameter list yields: the resolved parameters, or every
/// problem found across all of them. A function with no parameters cannot
/// become a target at all; that is the one fatal structural error.
pub open spec fn body_new_trans(inputs: Seq<FnArgV>, sig_span: u64) -> Result<
    Seq<PropfuzzParamV>,
    Seq<Error>,
> {
    if inputs.len() == 0 {
        Result::Err(seq![Error { kind: DiagnosticKind::EmptyParameterList, span: sig_span }])
    } else {
        let f = params_fold(inputs);
        if f.1.len() == 0 {
            Result::Ok(f.0)
        } else {
            Result::Err(f.1)
        }
    }
}

/// The resolved parameter list of a fuzz target.
#[derive(Debug)]
pub struct PropfuzzFnBody {
    pub params: Vec<PropfuzzParam>,
}

impl View for PropfuzzFnBody {
    type V = Seq<PropfuzzParamV>;

    open spec fn view(&self) -> Seq<PropfuzzParamV> {
        self.params.deep_view()
    }
}

impl PropfuzzFnBody {
    /// Resolves the whole parameter list, reporting every problem across all
    /// parameters in one pass. A function without parameters is rejected
    /// with a single empty-parameter-list diagnostic.
    pub fn new(inputs: &Vec<FnArg>, sig_span: u64) -> (r: Result<PropfuzzFnBody, Vec<Error>>)
        ensures
            match r {
                Ok(b) => body_new_trans(inputs.deep_view(), sig_span) == Result::<
                    Seq<PropfuzzParamV>,
                    Seq<Error>,
                >::Ok(b@),
                Err(es) => body_new_trans(inputs.deep_view(), sig_span) == Result::<
                    Seq<PropfuzzParamV>,
                    Seq<Error>,
                >::Err(es@) && es@.len() > 0,
            },
    {
        let ghost dv = inputs.deep_view();
        if inputs.len() == 0 {
            let mut es: Vec<Error> = Vec::new();
            es.push(Error::new(sig_span, DiagnosticKind::EmptyParameterList));
            proof {
                assert(es@ =~= seq![
                    Error { kind: DiagnosticKind::EmptyParameterList, span: sig_span },
                ]);
            }
            return Err(es);
        }

        let mut errors = ErrorList::new();
        let mut params: Vec<PropfuzzParam> = Vec::new();
        let n = inputs.len();
        let mut i: usize = 0;
        proof {
            assert(dv.take(0) =~= Seq::<FnArgV>::empty());
        }
        while i < n
            invariant
                n == inputs@.len(),
                dv == inputs.deep_view(),
                dv.len() == n,
                forall|k: int| 0 <= k < n ==> dv[k] == inputs@[k]@,
                i <= n,
                params.deep_view() == params_fold(dv.take(i as int)).0,
                errors@ == params_fold(dv.take(i as int)).1,
            decreases n - i,
        {
            match &inputs[i] {
                FnArg::Receiver { span } => {
                    errors.combine(Error::new(*span, DiagnosticKind::UnsupportedContext));
                },
                FnArg::Typed(p) => {
                    match PropfuzzParam::new(p) {
                        Ok(pp) => {
                            params.push(pp);
                        },
                        Err(es) => {
                            errors.combine_all(es);
                        },
                    }
                },
            }
            proof {
                assert(dv.take(i + 1) =~= dv.take(i as int).push(dv[i as int]));
                lemma_params_fold_snoc(dv.take(i as int), dv[i as int]);
                assert(params.deep_view() =~= params_fold(dv.take(i + 1)).0);
                assert(errors@ =~= params_fold(dv.take(i + 1)).1);
            }
            i = i + 1;
        }
        proof {
            assert(dv.take(n as int) =~= dv);
        }

        match errors.finish() {
            Err(es) => Err(es),
            Ok(()) => Ok(PropfuzzFnBody { params }),
        }
    }

    /// How many parameters the target takes.
    pub fn num_params(&self) -> (r: usize)
        ensures
            r == self@.len(),
    {
        self.params.len()
    }
}

// ---
// The target specification
// ---

/// A fully resolved target specification.
pub struct PropfuzzFnV {
    pub name: Seq<char>,
    pub module: Seq<char>,
    pub description: Seq<char>,
    pub config: ProptestConfig,
    pub struct_name: Seq<char>,
    pub params: Seq<PropfuzzParamV>,
}

/// What resolving a whole annotated function yields. In order, the pass
/// collects: problems in the arguments of the leading annotation, a missing
/// description if the function has no documentation, problems in the
/// remaining annotations, and problems across the parameter list. A
/// specification is built only when the pass found nothing at all.
pub open spec fn propfuzz_fn_trans(attr: Seq<DirectiveArgV>, item: FnDeclV) -> Result<
    PropfuzzFnV,
    Seq<Error>,
> {
    let a = apply_args_trans(ProptestConfig::spec_empty(), attr);
    let desc_errs: Seq<Error> = if doc_lines(item.attrs).len() == 0 {
        seq![Error { kind: DiagnosticKind::MissingDescription, span: item.span }]
    } else {
        Seq::empty()
    };
    let b = apply_attrs_trans(a.0, item.attrs);
    let pre = a.1 + desc_errs + b.1;
    match body_new_trans(item.inputs, item.span) {
        Result::Err(be) => Result::Err(pre + be),
        Result::Ok(params) => if pre.len() == 0 {
            Result::Ok(
                PropfuzzFnV {
                    name: item.name,
                    module: item.module,
                    description: description_of(item.attrs),
                    config: b.0,
                    struct_name: "__PROPFUZZ__"@ + item.name,
                    params,
                },
            )
        } else {
            Result::Err(pre)
        },
    }
}

/// A fully resolved target specification: identity, description,
/// configuration, and the ordered resolved parameters.
#[derive(Debug)]
pub struct PropfuzzFn {
    pub name: String,
    pub module: String,
    pub description: String,
    pub config: PropfuzzConfig,
    pub struct_name: String,
    pub body: PropfuzzFnBody,
}

impl View for PropfuzzFn {
    type V = PropfuzzFnV;

    open spec fn view(&self) -> PropfuzzFnV {
        PropfuzzFnV {
            name: self.name@,
            module: self.module@,
            description: self.description@,
            config: self.config.proptest,
            struct_name: self.struct_name@,
            params: self.body@,
        }
    }
}

impl PropfuzzFn {
    /// Resolves one annotated function into a target specification,
    /// reporting every problem of the whole pass at once if anything is
    /// wrong.
    pub fn new(attr: &Vec<DirectiveArg>, item: &FnDecl) -> (r: Result<PropfuzzFn, Vec<Error>>)
        ensures
            match r {
                Ok(pf) => propfuzz_fn_trans(attr.deep_view(), item@) == Result::<
                    PropfuzzFnV,
                    Seq<Error>,
                >::Ok(pf@),
                Err(es) => propfuzz_fn_trans(attr.deep_view(), item@) == Result::<
                    PropfuzzFnV,
                    Seq<Error>,
                >::Err(es@) && es@.len() > 0,
            },
    {
        let ghost adv = attr.deep_view();
        let ghost idv = item@;
        let mut errors = ErrorList::new();
        let mut config_builder = PropfuzzConfigBuilder::default();

        // Apply the arguments of the leading annotation.
        config_builder.apply_args(attr, &mut errors);
        let ghost a1 = apply_args_trans(ProptestConfig::spec_empty(), adv).1;
        proof {
            assert(errors@ =~= a1);
        }

        // Read the description from the documentation lines.
        let ghost attrs_dv = item.attrs.deep_view();
        let mut docs: Vec<String> = Vec::new();
        let n = item.attrs.len();
        let mut i: usize = 0;
        proof {
            assert(attrs_dv.take(0) =~= Seq::<AttrV>::empty());
            assert(doc_lines(Seq::<AttrV>::empty()) == Seq::<Seq<char>>::empty());
            assert(docs.deep_view() =~= Seq::<Seq<char>>::empty());
        }
        while i < n
            invariant
                n == item.attrs@.len(),
                attrs_dv == item.attrs.deep_view(),
                attrs_dv.len() == n,
                forall|k: int| 0 <= k < n ==> attrs_dv[k] == item.attrs@[k]@,
                i <= n,
                docs.deep_view() == doc_lines(attrs_dv.take(i as int)),
            decreases n - i,
        {
            match &item.attrs[i] {
                Attr::Doc { text, .. } => {
                    let line = trim(text.as_str());
                    docs.push(line);
                },
                _ => {},
            }
            proof {
                assert(attrs_dv.take(i + 1) =~= attrs_dv.take(i as int).push(
                    attrs_dv[i as int],
                ));
                lemma_doc_lines_snoc(attrs_dv.take(i as int), attrs_dv[i as int]);
                assert(docs.deep_view() =~= doc_lines(attrs_dv.take(i + 1)));
            }
            i = i + 1;
        }
        proof {
            assert(attrs_dv.take(n as int) =~= attrs_dv);
        }
        let ghost desc_errs: Seq<Error> = if doc_lines(idv.attrs).len() == 0 {
            seq![Error { kind: DiagnosticKind::MissingDescription, span: idv.span }]
        } else {
            Seq::<Error>::empty()
        };
        proof {
            assert(docs.deep_view().len() == docs@.len());
            assert(docs@.len() == 0 <==> doc_lines(idv.attrs).len() == 0);
        }
        if docs.len() == 0 {
            errors.combine(Error::new(item.span, DiagnosticKind::MissingDescription));
        }
        proof {
            assert(errors@ =~= a1 + desc_errs);
        }
        let description = join_with_newlines(&docs);

        // Read directives from the function's own annotations.
        config_builder.apply_attrs(&item.attrs, &mut errors);
        let ghost b = apply_attrs_trans(
            apply_args_trans(ProptestConfig::spec_empty(), adv).0,
            idv.attrs,
        );
        let ghost pre = a1 + desc_errs + b.1;
        proof {
            assert(errors@ =~= pre);
            assert(config_builder.proptest == b.0);
        }

        // Resolve the parameter list; a structurally broken list ends the
        // pass with everything found so far.
        let body = match PropfuzzFnBody::new(&item.inputs, item.span) {
            Ok(body) => body,
            Err(be) => {
                errors.combine_all(be);
                return Err(errors.into_vec());
            },
        };

        let struct_name = String::from_str("__PROPFUZZ__").concat(item.name.as_str());

        // If any errors were collected, return them.
        match errors.finish() {
            Err(es) => Err(es),
            Ok(()) => {
                let result = PropfuzzFn {
                    name: item.name.clone(),
                    module: item.module.clone(),
                    description,
                    config: config_builder.finish(),
                    struct_name,
                    body,
                };
                proof {
                    assert(pre.len() == 0);
                    assert(result@.description == description_of(idv.attrs));
                    assert(result@.struct_name == "__PROPFUZZ__"@ + idv.name);
                    assert(result@.config == b.0);
                    assert(propfuzz_fn_trans(adv, idv) == Result::<
                        PropfuzzFnV,
                        Seq<Error>,
                    >::Ok(result@));
                }
                Ok(result)
            },
        }
    }

    /// The stable fully-qualified identity of the target, used for test-name
    /// reporting and seed-file keys.
    pub fn qualified_name(&self) -> (r: String)
        ensures
            r@ == self.module@ + "::"@ + self.name@,
    {
        self.module.clone().concat("::").concat(self.name.as_str())
    }
}

// ---
// Views of the resolved parameter list
// ---

pub open spec fn param_types(ps: Seq<PropfuzzParamV>) -> Seq<Seq<char>> {
    ps.map_values(|p: PropfuzzParamV| p.ty)
}

pub open spec fn param_strategies(ps: Seq<PropfuzzParamV>) -> Seq<StrategyExprV> {
    ps.map_values(|p: PropfuzzParamV| p.strategy)
}

pub open spec fn param_name_pats(ps: Seq<PropfuzzParamV>) -> Seq<Seq<char>> {
    ps.map_values(|p: PropfuzzParamV| p.name_pat)
}

impl PropfuzzFnBody {
    /// The declared type of every parameter, in declaration order.
    pub fn types(&self) -> (v: Vec<String>)
        ensures
            v.deep_view() == param_types(self@),
    {
        let mut v: Vec<String> = Vec::new();
        let n = self.params.len();
        let mut i: usize = 0;
        while i < n
            invariant
                n == self.params@.len(),
                i <= n,
                v@.len() == i,
                forall|k: int| 0 <= k < i ==> v@[k]@ == self@[k].ty,
            decreases n - i,
        {
            v.push(self.params[i].ty.clone());
            i = i + 1;
        }
        proof {
            assert(v.deep_view() =~= param_types(self@));
        }
        v
    }

    /// The resolved strategy of every parameter, in declaration order.
    pub fn strategies(&self) -> (v: Vec<crate::config::StrategyExpr>)
        ensures
            v.deep_view() == param_strategies(self@),
    {
        let mut v: Vec<crate::config::StrategyExpr> = Vec::new();
        let n = self.params.len();
        let mut i: usize = 0;
        while i < n
            invariant
                n == self.params@.len(),
                i <= n,
                v@.len() == i,
                forall|k: int| 0 <= k < i ==> v@[k]@ == self@[k].strategy,
            decreases n - i,
        {
            v.push(self.params[i].config.strategy.clone());
            i = i + 1;
        }
        proof {
            assert(v.deep_view() =~= param_strategies(self@));
        }
        v
    }

    /// The binding pattern of every parameter, in declaration order.
    pub fn name_pats(&self) -> (v: Vec<String>)
        ensures
            v.deep_view() == param_name_pats(self@),
    {
        let mut v: Vec<String> = Vec::new();
        let n = self.params.len();
        let mut i: usize = 0;
        while i < n
            invariant
                n == self.params@.len(),
                i <= n,
                v@.len() == i,
                forall|k: int| 0 <= k < i ==> v@[k]@ == self@[k].name_pat,
            decreases n - i,
        {
            v.push(self.params[i].name_pat.clone());
            i = i + 1;
        }
        proof {
            assert(v.deep_view() =~= param_name_pats(self@));
        }
        v
    }
}

// ---
// Laws of the whole pass
// ---

proof fn lemma_args_trans_structural_free(
    c: ProptestConfig,
    args: Seq<DirectiveArgV>,
    k: DiagnosticKind,
)
    requires
        k == DiagnosticKind::EmptyParameterList || k == DiagnosticKind::MissingDescription || k
            == DiagnosticKind::UnsupportedContext,
    ensures
        count_kind(apply_args_trans(c, args).1, k) == 0,
    decreases args.len(),
{
    if args.len() > 0 {
        let head = crate::config::apply_arg_trans(c, args[0]);
        let rest = apply_args_trans(head.0, args.drop_first());
        lemma_args_trans_structural_free(head.0, args.drop_first(), k);
        lemma_count_kind_concat(opt_err_seq(head.1), rest.1, k);
        lemma_count_kind_opt(head.1, k);
    }
}

proof fn lemma_attrs_trans_structural_free(c: ProptestConfig, attrs: Seq<AttrV>, k: DiagnosticKind)
    requires
        k == DiagnosticKind::EmptyParameterList || k == DiagnosticKind::MissingDescription || k
            == DiagnosticKind::UnsupportedContext,
    ensures
        count_kind(apply_attrs_trans(c, attrs).1, k) == 0,
    decreases attrs.len(),
{
    if attrs.len() > 0 {
        let head = match attrs[0] {
            AttrV::Propfuzz { args, .. } => apply_args_trans(c, args),
            _ => (c, Seq::<Error>::empty()),
        };
        let rest = apply_attrs_trans(head.0, attrs.drop_first());
        lemma_attrs_trans_structural_free(head.0, attrs.drop_first(), k);
        lemma_count_kind_concat(head.1, rest.1, k);
        match attrs[0] {
            AttrV::Propfuzz { args, .. } => {
                lemma_args_trans_structural_free(c, args, k);
            },
            _ => {},
        }
    }
}

/// LAW: a function with no parameters is rejected. Whatever else its
/// annotations hold, resolution fails, no specification is produced, and the
/// report carries exactly one empty-parameter-list diagnostic.
pub proof fn lemma_empty_parameter_list_rejected(attr: Seq<DirectiveArgV>, item: FnDeclV)
    requires
        item.inputs.len() == 0,
    ensures
        propfuzz_fn_trans(attr, item) is Err,
        match propfuzz_fn_trans(attr, item) {
            Result::Err(es) => count_kind(es, DiagnosticKind::EmptyParameterList) == 1,
            Result::Ok(_) => false,
        },
{
    let a = apply_args_trans(ProptestConfig::spec_empty(), attr);
    let desc_errs: Seq<Error> = if doc_lines(item.attrs).len() == 0 {
        seq![Error { kind: DiagnosticKind::MissingDescription, span: item.span }]
    } else {
        Seq::empty()
    };
    let b = apply_attrs_trans(a.0, item.attrs);
    let pre = a.1 + desc_errs + b.1;
    let be = seq![Error { kind: DiagnosticKind::EmptyParameterList, span: item.span }];
    assert(body_new_trans(item.inputs, item.span) == Result::<
        Seq<PropfuzzParamV>,
        Seq<Error>,
    >::Err(be));
    lemma_args_trans_structural_free(
        ProptestConfig::spec_empty(),
        attr,
        DiagnosticKind::EmptyParameterList,
    );
    lemma_attrs_trans_structural_free(a.0, item.attrs, DiagnosticKind::EmptyParameterList);
    assert(desc_errs.len() <= 1);
    if desc_errs.len() == 1 {
        assert(desc_errs[0].kind == DiagnosticKind::MissingDescription);
        assert(desc_errs.drop_first() =~= Seq::<Error>::empty());
        assert(count_kind(Seq::<Error>::empty(), DiagnosticKind::EmptyParameterList) == 0);
        assert(count_kind(desc_errs, DiagnosticKind::EmptyParameterList) == 0);
    }
    lemma_count_kind_concat(a.1, desc_errs, DiagnosticKind::EmptyParameterList);
    lemma_count_kind_concat(a.1 + desc_errs, b.1, DiagnosticKind::EmptyParameterList);
    lemma_count_kind_concat(pre, be, DiagnosticKind::EmptyParameterList);
    assert(be.drop_first() =~= Seq::<Error>::empty());
    assert(count_kind(be, DiagnosticKind::EmptyParameterList) == 1);
}

/// Every directive of every fuzzing annotation in the list, flattened in
/// source order.
pub open spec fn flatten_attr_args(attrs: Seq<AttrV>) -> Seq<DirectiveArgV>
    decreases attrs.len(),
{
    if attrs.len() == 0 {
        Seq::empty()
    } else {
        let head: Seq<DirectiveArgV> = match attrs[0] {
            AttrV::Propfuzz { args, .. } => args,
            _ => Seq::empty(),
        };
        head + flatten_attr_args(attrs.drop_first())
    }
}

/// Applying a list of attributes is the same as applying their flattened
/// directives: annotation boundaries do not matter to resolution.
pub proof fn lemma_attrs_trans_is_flat(c: ProptestConfig, attrs: Seq<AttrV>)
    ensures
        apply_attrs_trans(c, attrs) == apply_args_trans(c, flatten_attr_args(attrs)),
    decreases attrs.len(),
{
    if attrs.len() == 0 {
        assert(apply_args_trans(c, Seq::<DirectiveArgV>::empty()) == (c, Seq::<Error>::empty()));
    } else {
        let h: Seq<DirectiveArgV> = match attrs[0] {
            AttrV::Propfuzz { args, .. } => args,
            _ => Seq::empty(),
        };
        let head = match attrs[0] {
            AttrV::Propfuzz { args, .. } => apply_args_trans(c, args),
            _ => (c, Seq::<Error>::empty()),
        };
        assert(apply_args_trans(c, Seq::<DirectiveArgV>::empty()) == (c, Seq::<Error>::empty()));
        assert(head == apply_args_trans(c, h));
        lemma_apply_args_concat(c, h, flatten_attr_args(attrs.drop_first()));
        lemma_attrs_trans_is_flat(head.0, attrs.drop_first());
    }
}

/// LAW: first write wins across every annotation of one function. The value
/// an option holds after a whole pass is the first well-formed setting of it
/// anywhere in the annotations, in source order; an annotation boundary
/// between two settings changes nothing.
pub proof fn lemma_attrs_first_write_wins(c: ProptestConfig, attrs: Seq<AttrV>, k: OptionKey)
    ensures
        apply_attrs_trans(c, attrs).0.get(k) == if c.get(k) is Some {
            c.get(k)
        } else {
            first_set(flatten_attr_args(attrs), k)
        },
{
    lemma_attrs_trans_is_flat(c, attrs);
    lemma_first_write_wins(c, flatten_attr_args(attrs), k);
}

/// LAW: duplicates are diagnosed across annotations. A whole pass over a
/// function's annotations reports exactly one duplicate-key diagnostic for
/// every well-formed setting of an option beyond the option's first write,
/// wherever the settings sit.
pub proof fn lemma_attrs_duplicates_diagnosed(c: ProptestConfig, attrs: Seq<AttrV>)
    ensures
        count_kind(apply_attrs_trans(c, attrs).1, DiagnosticKind::DuplicateKey) == dup_total(
            c,
            flatten_attr_args(attrs),
        ),
{
    lemma_attrs_trans_is_flat(c, attrs);
    lemma_duplicates_diagnosed(c, flatten_attr_args(attrs));
}

/// LAW: the configuration of a resolved target holds, for each option, the
/// first well-formed setting across the leading annotation's arguments and
/// every annotation on the function, in source order.
pub proof fn lemma_target_config_first_write_wins(
    attr: Seq<DirectiveArgV>,
    item: FnDeclV,
    k: OptionKey,
)
    ensures
        match propfuzz_fn_trans(attr, item) {
            Result::Ok(pf) => pf.config.get(k) == first_set(
                attr + flatten_attr_args(item.attrs),
                k,
            ),
            Result::Err(_) => true,
        },
{
    let c0 = ProptestConfig::spec_empty();
    let a = apply_args_trans(c0, attr);
    lemma_attrs_trans_is_flat(a.0, item.attrs);
    lemma_apply_args_concat(c0, attr, flatten_attr_args(item.attrs));
    lemma_first_write_wins(c0, attr + flatten_attr_args(item.attrs), k);
    assert(c0.get(k) is None);
}

/// A parameter in plain value position, carrying no attributes of its own.
pub open spec fn is_plain_param(a: FnArgV) -> bool {
    match a {
        FnArgV::Typed(p) => p.attrs.len() == 0,
        FnArgV::Receiver { .. } => false,
    }
}

pub open spec fn plain_param(a: FnArgV) -> PatTypeV {
    match a {
        FnArgV::Typed(p) => p,
        FnArgV::Receiver { .. } => arbitrary(),
    }
}

proof fn lemma_attrs_trans_no_propfuzz(c: ProptestConfig, attrs: Seq<AttrV>)
    requires
        forall|i: int| 0 <= i < attrs.len() ==> !(attrs[i] is Propfuzz),
    ensures
        apply_attrs_trans(c, attrs).0 == c,
        apply_attrs_trans(c, attrs).1 == Seq::<Error>::empty(),
    decreases attrs.len(),
{
    if attrs.len() > 0 {
        let t = attrs.drop_first();
        assert(forall|i: int| 0 <= i < t.len() ==> !(#[trigger] t[i] is Propfuzz));
        lemma_attrs_trans_no_propfuzz(c, t);
        assert(Seq::<Error>::empty() + Seq::<Error>::empty() =~= Seq::<Error>::empty());
    }
}

proof fn lemma_params_fold_plain(inputs: Seq<FnArgV>)
    requires
        forall|i: int| 0 <= i < inputs.len() ==> is_plain_param(#[trigger] inputs[i]),
    ensures
        params_fold(inputs).1 == Seq::<Error>::empty(),
        params_fold(inputs).0.len() == inputs.len(),
        forall|j: int|
            0 <= j < inputs.len() ==> params_fold(inputs).0[j] == (PropfuzzParamV {
                name_pat: plain_param(#[trigger] inputs[j]).pat,
                ty: plain_param(inputs[j]).ty,
                strategy: StrategyExprV::DefaultFor { ty: plain_param(inputs[j]).ty },
            }),
    decreases inputs.len(),
{
    if inputs.len() > 0 {
        let p = plain_param(inputs[0]);
        assert(param_apply_attrs_trans(Option::None, p.attrs) == (
            Option::<Seq<char>>::None,
            Seq::<Error>::empty(),
        ));
        assert(unsupported_attr_errors(p.attrs) == Seq::<Error>::empty());
        assert(Seq::<Error>::empty() + Seq::<Error>::empty() =~= Seq::<Error>::empty());
        let pp = PropfuzzParamV {
            name_pat: p.pat,
            ty: p.ty,
            strategy: StrategyExprV::DefaultFor { ty: p.ty },
        };
        assert(param_new_trans(p) == Result::<PropfuzzParamV, Seq<Error>>::Ok(pp));
        let t = inputs.drop_first();
        assert(forall|i: int| 0 <= i < t.len() ==> is_plain_param(#[trigger] t[i]));
        lemma_params_fold_plain(t);
        let rest = params_fold(t);
        assert(params_fold(inputs) == (seq![pp] + rest.0, Seq::<Error>::empty() + rest.1));
        assert(Seq::<Error>::empty() + rest.1 =~= Seq::<Error>::empty());
        assert forall|j: int| 0 <= j < inputs.len() implies params_fold(inputs).0[j]
            == (PropfuzzParamV {
            name_pat: plain_param(inputs[j]).pat,
            ty: plain_param(inputs[j]).ty,
            strategy: StrategyExprV::DefaultFor { ty: plain_param(inputs[j]).ty },
        }) by {
            if j == 0 {
                assert(params_fold(inputs).0[0] == pp);
            } else {
                assert(params_fold(inputs).0[j] == rest.0[j - 1]);
                assert(t[j - 1] == inputs[j]);
            }
        }
    }
}

/// LAW: a documented function with parameters and no directives resolves,
/// with every option left to the engine's defaults and every parameter given
/// the canonical default generator for its declared type.
pub proof fn lemma_no_directives_resolves(attr: Seq<DirectiveArgV>, item: FnDeclV)
    requires
        attr.len() == 0,
        item.inputs.len() >= 1,
        doc_lines(item.attrs).len() > 0,
        forall|i: int| 0 <= i < item.attrs.len() ==> !(#[trigger] item.attrs[i] is Propfuzz),
        forall|i: int| 0 <= i < item.inputs.len() ==> is_plain_param(#[trigger] item.inputs[i]),
    ensures
        propfuzz_fn_trans(attr, item) is Ok,
        match propfuzz_fn_trans(attr, item) {
            Result::Ok(pf) => {
                &&& pf.config == ProptestConfig::spec_empty()
                &&& pf.params.len() == item.inputs.len()
                &&& forall|j: int|
                    0 <= j < item.inputs.len() ==> (#[trigger] pf.params[j]).strategy
                        == StrategyExprV::DefaultFor { ty: plain_param(item.inputs[j]).ty }
            },
            Result::Err(_) => false,
        },
{
    assert(apply_args_trans(ProptestConfig::spec_empty(), attr) == (
        ProptestConfig::spec_empty(),
        Seq::<Error>::empty(),
    ));
    lemma_attrs_trans_no_propfuzz(ProptestConfig::spec_empty(), item.attrs);
    lemma_params_fold_plain(item.inputs);
    let pre = Seq::<Error>::empty() + Seq::<Error>::empty() + Seq::<Error>::empty();
    assert(pre =~= Seq::<Error>::empty());
    assert(params_fold(item.inputs).1.len() == 0);
    assert(body_new_trans(item.inputs, item.span) == Result::<
        Seq<PropfuzzParamV>,
        Seq<Error>,
    >::Ok(params_fold(item.inputs).0));
}

} // verus!

