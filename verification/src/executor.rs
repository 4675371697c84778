//! The renderer: walks a token sequence, resolves each placeholder against
//! the registry, decorates the value with prefix, suffix and style, and
//! concatenates everything in token order. Templates with at most one
//! placeholder are rendered in one pass; others go through a slot array
//! with write-once result cells, so that each placeholder's work is
//! independent and the output order never depends on completion order.

use vstd::prelude::*;

use crate::cache::GitInfo;
use crate::cache::spec_assoc_lookup;
use crate::detector::DetectionContext;
use crate::error::ErrorV;
use crate::error::PromptError;
use crate::module_trait::CtxV;
use crate::module_trait::ModuleContext;
use crate::modules::bun::BunModule;
use crate::modules::deno::DenoModule;
use crate::modules::env::EnvModule;
use crate::modules::fail::FailModule;
use crate::modules::git::GitModule;
use crate::modules::go::GoModule;
use crate::modules::node::NodeModule;
use crate::modules::ok::OkModule;
use crate::modules::path::PathModule;
use crate::modules::python::PythonModule;
use crate::modules::rust::RustModule;
use crate::modules::time::TimeModule;
use crate::modules::time::TimeParts;
use crate::parser::Params;
use crate::parser::ParamsV;
use crate::parser::Token;
use crate::parser::TokenV;
use crate::parser::parse;
use crate::parser::spec_parse;
use crate::registry::ModuleRegistry;
use crate::registry::Provider;
use crate::registry::ProviderV;
use crate::registry::spec_provider_render;
use crate::style::AnsiStyle;
use crate::style::Shell;
use crate::style::spec_apply_style;
use crate::style::spec_parse_style;

verus! {

/// How large an output buffer to pre-size for a template: its length plus
/// half again and a fixed margin, to absorb styling bytes without
/// reallocation.
pub(crate) fn estimate_output_size(template_len: usize) -> (r: usize) {
    let padded = if template_len <= usize::MAX / 2 {
        template_len + template_len / 2
    } else {
        template_len
    };
    if padded <= usize::MAX - 128 {
        padded + 128
    } else {
        padded
    }
}

/// What one placeholder contributes once its provider has answered: nothing
/// for an absent value, and nothing for an empty value with empty prefix
/// and suffix; otherwise prefix, value and suffix folded into one segment,
/// wrapped in the style's codes unless styling is off or the style field is
/// empty. A style that does not parse is a fatal error naming the module.
pub open spec fn spec_render_segment(
    params: ParamsV,
    value: Option<Seq<char>>,
    sh: Shell,
    no_color: bool,
) -> Result<Option<Seq<char>>, ErrorV> {
    match value {
        None => Ok(None),
        Some(text) => {
            if text.len() == 0 && params.prefix.len() == 0 && params.suffix.len() == 0 {
                Ok(None)
            } else {
                let segment = params.prefix + text + params.suffix;
                if params.style.len() == 0 || no_color {
                    Ok(Some(segment))
                } else {
                    match spec_parse_style(params.style) {
                        Err(e) => Err(ErrorV::StyleError { module: params.module, error: e }),
                        Ok(st) => Ok(Some(spec_apply_style(st, segment, sh))),
                    }
                }
            }
        },
    }
}

/// An absent or empty contribution leaves no residue, and a present one is
/// exactly prefix, value and suffix: a placeholder whose provider yields no
/// value, or an empty value with empty prefix and suffix, contributes zero
/// bytes to the output; one whose provider yields a value, or that has a
/// non-empty prefix or suffix, contributes prefix + value + suffix, wrapped
/// in its style's codes when styling applies.
pub proof fn lemma_segment_contribution(
    params: ParamsV,
    value: Option<Seq<char>>,
    sh: Shell,
    no_color: bool,
)
    ensures
        value is None ==> spec_render_segment(params, value, sh, no_color) == Ok::<
            Option<Seq<char>>,
            ErrorV,
        >(None),
        (value == Some(Seq::<char>::empty()) && params.prefix.len() == 0 && params.suffix.len()
            == 0) ==> spec_render_segment(params, value, sh, no_color) == Ok::<
            Option<Seq<char>>,
            ErrorV,
        >(None),
        (value is Some && (value->0.len() > 0 || params.prefix.len() > 0 || params.suffix.len()
            > 0) && (params.style.len() == 0 || no_color)) ==> spec_render_segment(
            params,
            value,
            sh,
            no_color,
        ) == Ok::<Option<Seq<char>>, ErrorV>(Some(params.prefix + value->0 + params.suffix)),
        (value is Some && (value->0.len() > 0 || params.prefix.len() > 0 || params.suffix.len()
            > 0) && params.style.len() > 0 && !no_color && spec_parse_style(params.style) is Ok)
            ==> spec_render_segment(params, value, sh, no_color) == Ok::<
            Option<Seq<char>>,
            ErrorV,
        >(
            Some(
                spec_apply_style(
                    spec_parse_style(params.style)->Ok_0,
                    params.prefix + value->0 + params.suffix,
                    sh,
                ),
            ),
        ),
{
}

/// What one placeholder contributes: its provider's answer for the format
/// field, decorated as `spec_render_segment` says.
pub open spec fn spec_render_placeholder(
    p: ProviderV,
    params: ParamsV,
    ctx: CtxV,
    no_color: bool,
) -> Result<Option<Seq<char>>, ErrorV> {
    match spec_provider_render(p, params.format, ctx) {
        Err(e) => Err(e),
        Ok(v) => spec_render_segment(params, v, ctx.shell, no_color),
    }
}

/// The sequential render of the tokens from position `i` on: text tokens
/// pass through, placeholders contribute as `spec_render_placeholder`
/// says, and the first failure — an unresolved module name or a
/// placeholder error — aborts the walk.
pub open spec fn spec_render_from(
    tokens: Seq<TokenV>,
    reg: Seq<(Seq<char>, ProviderV)>,
    ctx: CtxV,
    no_color: bool,
    i: int,
) -> Result<Seq<char>, ErrorV>
    decreases tokens.len() - i,
    when 0 <= i <= tokens.len()
{
    if i >= tokens.len() {
        Ok(Seq::empty())
    } else {
        match tokens[i] {
            TokenV::Text(t) => match spec_render_from(tokens, reg, ctx, no_color, i + 1) {
                Ok(r) => Ok(t + r),
                Err(e) => Err(e),
            },
            TokenV::Placeholder(params) => match spec_assoc_lookup(reg, params.module) {
                None => Err(ErrorV::UnknownModule(params.module)),
                Some(p) => match spec_render_placeholder(p, params, ctx, no_color) {
                    Err(e) => Err(e),
                    Ok(None) => spec_render_from(tokens, reg, ctx, no_color, i + 1),
                    Ok(Some(seg)) => match spec_render_from(tokens, reg, ctx, no_color, i + 1) {
                        Ok(r) => Ok(seg + r),
                        Err(e) => Err(e),
                    },
                },
            },
        }
    }
}

/// The sequential render of a whole token sequence.
pub open spec fn spec_render_tokens(
    tokens: Seq<TokenV>,
    reg: Seq<(Seq<char>, ProviderV)>,
    ctx: CtxV,
    no_color: bool,
) -> Result<Seq<char>, ErrorV> {
    spec_render_from(tokens, reg, ctx, no_color, 0)
}

/// The first unresolved module name from position `i` on, if any.
pub open spec fn spec_check_from(
    tokens: Seq<TokenV>,
    reg: Seq<(Seq<char>, ProviderV)>,
    i: int,
) -> Option<ErrorV>
    decreases tokens.len() - i,
    when 0 <= i <= tokens.len()
{
    if i >= tokens.len() {
        None
    } else {
        match tokens[i] {
            TokenV::Text(_) => spec_check_from(tokens, reg, i + 1),
            TokenV::Placeholder(params) => match spec_assoc_lookup(reg, params.module) {
                None => Some(ErrorV::UnknownModule(params.module)),
                Some(_) => spec_check_from(tokens, reg, i + 1),
            },
        }
    }
}

/// The slot-based render: every module name is resolved up front, so an
/// unresolved name surfaces before any placeholder is evaluated; after
/// that the outcome is the sequential render's.
pub open spec fn spec_render_slots(
    tokens: Seq<TokenV>,
    reg: Seq<(Seq<char>, ProviderV)>,
    ctx: CtxV,
    no_color: bool,
) -> Result<Seq<char>, ErrorV> {
    match spec_check_from(tokens, reg, 0) {
        Some(e) => Err(e),
        None => spec_render_tokens(tokens, reg, ctx, no_color),
    }
}

proof fn lemma_check_some_render_err(
    tokens: Seq<TokenV>,
    reg: Seq<(Seq<char>, ProviderV)>,
    ctx: CtxV,
    no_color: bool,
    i: int,
)
    requires
        0 <= i <= tokens.len(),
        spec_check_from(tokens, reg, i) is Some,
    ensures
        spec_render_from(tokens, reg, ctx, no_color, i) is Err,
    decreases tokens.len() - i,
{
    if i < tokens.len() {
        match tokens[i] {
            TokenV::Text(_) => {
                lemma_check_some_render_err(tokens, reg, ctx, no_color, i + 1);
            },
            TokenV::Placeholder(params) => {
                if spec_assoc_lookup(reg, params.module) is Some {
                    lemma_check_some_render_err(tokens, reg, ctx, no_color, i + 1);
                }
            },
        }
    }
}

/// Rendering is order-preserving across strategies: the sequential walk
/// and the slot-based two-pass evaluation succeed on exactly the same
/// inputs, and then produce the same bytes; they can differ only in which
/// error they surface first.
pub proof fn lemma_render_strategies_agree(
    tokens: Seq<TokenV>,
    reg: Seq<(Seq<char>, ProviderV)>,
    ctx: CtxV,
    no_color: bool,
)
    ensures
        spec_render_tokens(tokens, reg, ctx, no_color) is Ok <==> spec_render_slots(
            tokens,
            reg,
            ctx,
            no_color,
        ) is Ok,
        spec_render_tokens(tokens, reg, ctx, no_color) is Ok ==> spec_render_tokens(
            tokens,
            reg,
            ctx,
            no_color,
        ) == spec_render_slots(tokens, reg, ctx, no_color),
{
    if spec_check_from(tokens, reg, 0) is Some {
        lemma_check_some_render_err(tokens, reg, ctx, no_color, 0);
    }
}

/// The number of placeholder tokens from position `i` on.
pub open spec fn spec_count_placeholders(tokens: Seq<TokenV>, i: int) -> nat
    decreases tokens.len() - i,
    when 0 <= i <= tokens.len()
{
    if i >= tokens.len() {
        0
    } else {
        match tokens[i] {
            TokenV::Placeholder(_) => 1 + spec_count_placeholders(tokens, i + 1),
            TokenV::Text(_) => spec_count_placeholders(tokens, i + 1),
        }
    }
}

fn count_placeholders(tokens: &Vec<Token>) -> (r: usize)
    ensures
        r as nat == spec_count_placeholders(tokens.deep_view(), 0),
{
    let n = tokens.len();
    let mut r: usize = 0;
    let mut i: usize = 0;
    while i < n
        invariant
            i <= n,
            n == tokens.len(),
            r <= i,
            r as nat + spec_count_placeholders(tokens.deep_view(), i as int)
                == spec_count_placeholders(tokens.deep_view(), 0),
        decreases n - i,
    {
        proof {
            assert(tokens.deep_view()[i as int] == tokens[i as int].deep_view());
        }
        match &tokens[i] {
            Token::Placeholder(_) => {
                r = r + 1;
            },
            Token::Text(_) => (),
        }
        i = i + 1;
    }
    r
}

/// Evaluates one placeholder: provider answer, then prefix, suffix and
/// styling, as `spec_render_placeholder` says.
fn render_placeholder(
    module: &Provider,
    params: &Params,
    context: &ModuleContext,
    no_color: bool,
) -> (r: Result<Option<String>, PromptError>)
    ensures
        match r {
            Ok(v) => spec_render_placeholder(module@, params@, context@, no_color) == Ok::<
                Option<Seq<char>>,
                ErrorV,
            >(v.deep_view()),
            Err(e) => spec_render_placeholder(module@, params@, context@, no_color) == Err::<
                Option<Seq<char>>,
                ErrorV,
            >(e@),
        },
{
    let text = match module.render(params.format.as_str(), context) {
        Err(e) => {
            return Err(e);
        },
        Ok(None) => {
            return Ok(None);
        },
        Ok(Some(text)) => text,
    };
    if text.as_str().unicode_len() == 0 && params.prefix.as_str().unicode_len() == 0
        && params.suffix.as_str().unicode_len() == 0 {
        return Ok(None);
    }
    let mut segment = String::new();
    segment.append(params.prefix.as_str());
    segment.append(text.as_str());
    segment.append(params.suffix.as_str());
    proof {
        assert(segment@ =~= params@.prefix + text@ + params@.suffix);
    }
    if params.style.as_str().unicode_len() == 0 || no_color {
        return Ok(Some(segment));
    }
    match AnsiStyle::parse(params.style.as_str()) {
        Err(error) => Err(
            PromptError::StyleError { module: params.module.clone(), error },
        ),
        Ok(style) => {
            let styled = style.apply_with_shell(segment.as_str(), context.shell);
            Ok(Some(styled))
        },
    }
}

pub(crate) fn render_tokens_sequential(
    tokens: &Vec<Token>,
    registry: &ModuleRegistry,
    context: &ModuleContext,
    no_color: bool,
    template_len: usize,
) -> (r: Result<String, PromptError>)
    ensures
        match r {
            Ok(s) => spec_render_tokens(tokens.deep_view(), registry@, context@, no_color) == Ok::<
                Seq<char>,
                ErrorV,
            >(s@),
            Err(e) => spec_render_tokens(tokens.deep_view(), registry@, context@, no_color)
                == Err::<Seq<char>, ErrorV>(e@),
        },
{
    let ghost tv = tokens.deep_view();
    let ghost whole = spec_render_from(tv, registry@, context@, no_color, 0);
    let n = tokens.len();
    let mut output = crate::chars::string_with_capacity(estimate_output_size(template_len));
    let mut i: usize = 0;
    proof {
        if whole is Ok {
            assert(output@ + whole->Ok_0 =~= whole->Ok_0);
        }
    }
    while i < n
        invariant
            i <= n,
            n == tokens.len(),
            tv == tokens.deep_view(),
            whole == spec_render_from(tv, registry@, context@, no_color, 0),
            match spec_render_from(tv, registry@, context@, no_color, i as int) {
                Ok(rest) => whole == Ok::<Seq<char>, ErrorV>(output@ + rest),
                Err(e) => whole == Err::<Seq<char>, ErrorV>(e),
            },
        decreases n - i,
    {
        proof {
            assert(tv[i as int] == tokens[i as int].deep_view());
        }
        match &tokens[i] {
            Token::Text(text) => {
                let ghost before = output@;
                output.append(text.as_str());
                proof {
                    let after = spec_render_from(tv, registry@, context@, no_color, i as int + 1);
                    if after is Ok {
                        assert(output@ + after->Ok_0 =~= before + (text@ + after->Ok_0));
                    }
                }
            },
            Token::Placeholder(params) => {
                let module = match registry.get(params.module.as_str()) {
                    Some(module) => module,
                    None => {
                        return Err(PromptError::UnknownModule(params.module.clone()));
                    },
                };
                match render_placeholder(module, params, context, no_color) {
                    Err(e) => {
                        return Err(e);
                    },
                    Ok(None) => (),
                    Ok(Some(value)) => {
                        let ghost before = output@;
                        output.append(value.as_str());
                        proof {
                            let after = spec_render_from(
                                tv,
                                registry@,
                                context@,
                                no_color,
                                i as int + 1,
                            );
                            if after is Ok {
                                assert(output@ + after->Ok_0 =~= before + (value@ + after->Ok_0));
                            }
                        }
                    },
                }
            },
        }
        i = i + 1;
    }
    proof {
        assert(output@ + Seq::<char>::empty() =~= output@);
    }
    Ok(output)
}

/// A write-once result cell: one placeholder's value is stored here exactly
/// once, and a second write is refused outright.
struct SlotCell {
    value: Option<Option<String>>,
}

impl SlotCell {
    /// Whether a value has been written.
    spec fn is_set(&self) -> bool {
        self.value is Some
    }

    /// The written value, if any.
    spec fn spec_value(&self) -> Option<Option<Seq<char>>> {
        self.value.deep_view()
    }

    fn empty() -> (r: Self)
        ensures
            !r.is_set(),
    {
        SlotCell { value: None }
    }

    fn set(&mut self, v: Option<String>)
        requires
            !old(self).is_set(),
        ensures
            final(self).spec_value() == Some(v.deep_view()),
    {
        self.value = Some(v);
    }
}

/// Whether a token's placeholder renders successfully; text tokens count as
/// successful.
pub open spec fn spec_token_renders_ok(
    token: TokenV,
    reg: Seq<(Seq<char>, ProviderV)>,
    ctx: CtxV,
    no_color: bool,
) -> bool {
    match token {
        TokenV::Text(_) => true,
        TokenV::Placeholder(params) => match spec_assoc_lookup(reg, params.module) {
            None => false,
            Some(p) => spec_render_placeholder(p, params, ctx, no_color) is Ok,
        },
    }
}

proof fn lemma_render_first_error(
    tokens: Seq<TokenV>,
    reg: Seq<(Seq<char>, ProviderV)>,
    ctx: CtxV,
    no_color: bool,
    i: int,
    m: int,
    e: ErrorV,
)
    requires
        0 <= i <= m < tokens.len(),
        forall|k: int| i <= k < m ==> spec_token_renders_ok(#[trigger] tokens[k], reg, ctx, no_color),
        tokens[m] is Placeholder,
        match spec_assoc_lookup(reg, tokens[m]->Placeholder_0.module) {
            Some(p) => spec_render_placeholder(p, tokens[m]->Placeholder_0, ctx, no_color)
                == Err::<Option<Seq<char>>, ErrorV>(e),
            None => false,
        },
    ensures
        spec_render_from(tokens, reg, ctx, no_color, i) == Err::<Seq<char>, ErrorV>(e),
    decreases m - i,
{
    if i < m {
        assert(spec_token_renders_ok(tokens[i], reg, ctx, no_color));
        lemma_render_first_error(tokens, reg, ctx, no_color, i + 1, m, e);
    }
}

proof fn lemma_render_all_ok(
    tokens: Seq<TokenV>,
    reg: Seq<(Seq<char>, ProviderV)>,
    ctx: CtxV,
    no_color: bool,
    i: int,
)
    requires
        0 <= i <= tokens.len(),
        forall|k: int|
            i <= k < tokens.len() ==> spec_token_renders_ok(
                #[trigger] tokens[k],
                reg,
                ctx,
                no_color,
            ),
    ensures
        spec_render_from(tokens, reg, ctx, no_color, i) is Ok,
    decreases tokens.len() - i,
{
    if i < tokens.len() {
        assert(spec_token_renders_ok(tokens[i], reg, ctx, no_color));
        lemma_render_all_ok(tokens, reg, ctx, no_color, i + 1);
    }
}

fn render_tokens_parallel(
    tokens: &Vec<Token>,
    registry: &ModuleRegistry,
    context: &ModuleContext,
    no_color: bool,
) -> (r: Result<String, PromptError>)
    ensures
        match r {
            Ok(s) => spec_render_slots(tokens.deep_view(), registry@, context@, no_color) == Ok::<
                Seq<char>,
                ErrorV,
            >(s@),
            Err(e) => spec_render_slots(tokens.deep_view(), registry@, context@, no_color) == Err::<
                Seq<char>,
                ErrorV,
            >(e@),
        },
{
    let ghost tv = tokens.deep_view();
    let n = tokens.len();
    // First pass: resolve every module name, and record where the dynamic
    // slots stand; an unresolved name aborts before any evaluation.
    let mut dynamic_indices: Vec<usize> = Vec::new();
    let mut i: usize = 0;
    while i < n
        invariant
            i <= n,
            n == tokens.len(),
            tv == tokens.deep_view(),
            spec_check_from(tv, registry@, 0) == spec_check_from(tv, registry@, i as int),
            forall|d: int|
                0 <= d < dynamic_indices@.len() ==> dynamic_indices@[d] < i && tv[#[trigger] dynamic_indices@[d] as int] is Placeholder,
            forall|d1: int, d2: int|
                0 <= d1 < d2 < dynamic_indices@.len() ==> #[trigger] dynamic_indices@[d1]
                    < #[trigger] dynamic_indices@[d2],
            forall|k: int|
                0 <= k < i && #[trigger] tv[k] is Placeholder ==> dynamic_indices@.contains(
                    k as usize,
                ),
        decreases n - i,
    {
        proof {
            assert(tv[i as int] == tokens[i as int].deep_view());
        }
        match &tokens[i] {
            Token::Text(_) => (),
            Token::Placeholder(params) => {
                match registry.get(params.module.as_str()) {
                    Some(_) => {
                        let ghost before = dynamic_indices@;
                        dynamic_indices.push(i);
                        proof {
                            assert(dynamic_indices@ == before.push(i));
                            assert(dynamic_indices@.last() == i);
                            assert forall|k: int|
                                0 <= k < i + 1 && #[trigger] tv[k] is Placeholder implies dynamic_indices@.contains(
                                k as usize,
                            ) by {
                                if k < i {
                                    assert(before.contains(k as usize));
                                    let d = choose|d: int|
                                        0 <= d < before.len() && #[trigger] before[d] == k as usize;
                                    assert(dynamic_indices@[d] == k as usize);
                                } else {
                                    assert(dynamic_indices@[dynamic_indices@.len() - 1]
                                        == i as usize);
                                }
                            }
                        }
                    },
                    None => {
                        return Err(PromptError::UnknownModule(params.module.clone()));
                    },
                }
            },
        }
        i = i + 1;
    }
    let ghost dv = dynamic_indices@;
    proof {
        assert(spec_check_from(tv, registry@, n as int) is None);
    }
    // One write-once cell per slot.
    let mut cells: Vec<SlotCell> = Vec::new();
    while cells.len() < n
        invariant
            cells.len() <= n,
            forall|k: int| 0 <= k < cells.len() ==> !(#[trigger] cells@[k]).is_set(),
        decreases n - cells.len(),
    {
        cells.push(SlotCell::empty());
    }
    // Second pass: each dynamic slot's value is computed independently of
    // every other and written once; a worker pool may fan these out, since
    // order is restored from slot positions at assembly.
    let m = dynamic_indices.len();
    let mut d: usize = 0;
    while d < m
        invariant
            d <= m,
            m == dynamic_indices.len(),
            dv == dynamic_indices@,
            n == tokens.len(),
            tv == tokens.deep_view(),
            cells.len() == n,
            spec_check_from(tv, registry@, 0) is None,
            forall|dd: int|
                0 <= dd < dv.len() ==> dv[dd] < n && tv[#[trigger] dv[dd] as int] is Placeholder,
            forall|d1: int, d2: int| 0 <= d1 < d2 < dv.len() ==> #[trigger] dv[d1]
                < #[trigger] dv[d2],
            forall|k: int|
                0 <= k < n && #[trigger] tv[k] is Placeholder ==> dv.contains(k as usize),
            forall|k: int|
                0 <= k < n ==> ((#[trigger] cells@[k]).is_set() <==> dv.take(d as int).contains(
                    k as usize,
                )),
            forall|k: int|
                0 <= k < n && (#[trigger] cells@[k]).is_set() ==> tv[k] is Placeholder && match spec_assoc_lookup(
                    registry@,
                    tv[k]->Placeholder_0.module,
                ) {
                    Some(p) => spec_render_placeholder(
                        p,
                        tv[k]->Placeholder_0,
                        context@,
                        no_color,
                    ) == Ok::<Option<Seq<char>>, ErrorV>(cells@[k].spec_value()->Some_0),
                    None => false,
                },
        decreases m - d,
    {
        let idx = dynamic_indices[d];
        proof {
            assert(dv[d as int] == idx);
            assert(tv[idx as int] is Placeholder);
            assert(tv[idx as int] == tokens[idx as int].deep_view());
        }
        let params = match &tokens[idx] {
            Token::Placeholder(params) => params,
            Token::Text(_) => vstd::pervasive::unreached(),
        };
        let module = match registry.get(params.module.as_str()) {
            Some(module) => module,
            None => {
                proof {
                    lemma_check_none_lookup(tv, registry@, 0, idx as int);
                }
                vstd::pervasive::unreached()
            },
        };
        let ghost before_cells = cells@;
        match render_placeholder(module, params, context, no_color) {
            Err(e) => {
                proof {
                    assert forall|k: int|
                        0 <= k < idx as int implies spec_token_renders_ok(
                        #[trigger] tv[k],
                        registry@,
                        context@,
                        no_color,
                    ) by {
                        if tv[k] is Placeholder {
                            assert(dv.contains(k as usize));
                            let dd = choose|dd: int|
                                0 <= dd < dv.len() && #[trigger] dv[dd] == k as usize;
                            assert(dd < d) by {
                                if dd >= d as int {
                                    if dd > d as int {
                                        assert(dv[d as int] < dv[dd]);
                                    }
                                }
                            }
                            assert(dv.take(d as int)[dd] == k as usize);
                            assert(dv.take(d as int).contains(k as usize));
                            assert(cells@[k].is_set());
                        }
                    }
                    lemma_render_first_error(
                        tv,
                        registry@,
                        context@,
                        no_color,
                        0,
                        idx as int,
                        e@,
                    );
                }
                return Err(e);
            },
            Ok(value) => {
                let mut cell = cells.remove(idx);
                proof {
                    assert(!cell.is_set()) by {
                        if dv.take(d as int).contains(idx) {
                            let dd = choose|dd: int|
                                0 <= dd < d as int && #[trigger] dv.take(d as int)[dd] == idx;
                            assert(dv[dd] == dv[d as int]);
                            assert(dv[dd] < dv[d as int]);
                        }
                    }
                }
                cell.set(value);
                cells.insert(idx, cell);
                proof {
                    assert(cells@ =~= before_cells.update(idx as int, cell));
                    assert forall|k: int|
                        0 <= k < n implies ((#[trigger] cells@[k]).is_set() <==> dv.take(
                        d as int + 1,
                    ).contains(k as usize)) by {
                        if k == idx as int {
                            assert(dv.take(d as int + 1)[d as int] == idx);
                        } else {
                            assert(cells@[k] == before_cells[k]);
                            if dv.take(d as int + 1).contains(k as usize) {
                                let dd = choose|dd: int|
                                    0 <= dd < d as int + 1 && #[trigger] dv.take(d as int + 1)[dd]
                                        == k as usize;
                                assert(dd != d as int);
                                assert(dv.take(d as int)[dd] == k as usize);
                            } else {
                                if dv.take(d as int).contains(k as usize) {
                                    let dd = choose|dd: int|
                                        0 <= dd < d as int && #[trigger] dv.take(d as int)[dd]
                                            == k as usize;
                                    assert(dv.take(d as int + 1)[dd] == k as usize);
                                }
                            }
                        }
                    }
                }
            },
        }
        d = d + 1;
    }
    // Assembly: slot order is token order, whatever order the values were
    // computed in.
    proof {
        assert(dv.take(m as int) =~= dv);
        assert forall|k: int|
            0 <= k < n implies spec_token_renders_ok(
            #[trigger] tv[k],
            registry@,
            context@,
            no_color,
        ) by {
            if tv[k] is Placeholder {
                assert(dv.contains(k as usize));
                let dd = choose|dd: int| 0 <= dd < dv.len() && #[trigger] dv[dd] == k as usize;
                assert(dv.take(m as int)[dd] == k as usize);
                assert(cells@[k].is_set());
            }
        }
        lemma_render_all_ok(tv, registry@, context@, no_color, 0);
    }
    let ghost whole = spec_render_from(tv, registry@, context@, no_color, 0);
    // Size the output from what the slots resolved to.
    let mut total_len: usize = 0;
    let mut k: usize = 0;
    while k < n
        invariant
            k <= n,
            n == tokens.len(),
            cells.len() == n,
        decreases n - k,
    {
        let slot_len = match &tokens[k] {
            Token::Text(text) => text.as_str().len(),
            Token::Placeholder(_) => match &cells[k].value {
                Some(Some(text)) => text.as_str().len(),
                _ => 0,
            },
        };
        if slot_len <= usize::MAX - total_len {
            total_len = total_len + slot_len;
        }
        k = k + 1;
    }
    let mut output = crate::chars::string_with_capacity(total_len);
    let mut i: usize = 0;
    proof {
        assert(output@ + whole->Ok_0 =~= whole->Ok_0);
    }
    while i < n
        invariant
            i <= n,
            n == tokens.len(),
            tv == tokens.deep_view(),
            cells.len() == n,
            whole == spec_render_from(tv, registry@, context@, no_color, 0),
            whole is Ok,
            forall|k: int|
                0 <= k < n && #[trigger] tv[k] is Placeholder ==> cells@[k].is_set(),
            forall|k: int|
                0 <= k < n && (#[trigger] cells@[k]).is_set() ==> tv[k] is Placeholder && match spec_assoc_lookup(
                    registry@,
                    tv[k]->Placeholder_0.module,
                ) {
                    Some(p) => spec_render_placeholder(
                        p,
                        tv[k]->Placeholder_0,
                        context@,
                        no_color,
                    ) == Ok::<Option<Seq<char>>, ErrorV>(cells@[k].spec_value()->Some_0),
                    None => false,
                },
            spec_render_from(tv, registry@, context@, no_color, i as int) is Ok,
            whole->Ok_0 == output@ + spec_render_from(
                tv,
                registry@,
                context@,
                no_color,
                i as int,
            )->Ok_0,
        decreases n - i,
    {
        let ghost rest_after = spec_render_from(tv, registry@, context@, no_color, i as int + 1);
        proof {
            assert(tv[i as int] == tokens[i as int].deep_view());
        }
        match &tokens[i] {
            Token::Text(text) => {
                let ghost before = output@;
                output.append(text.as_str());
                proof {
                    assert(output@ + rest_after->Ok_0 =~= before + (text@ + rest_after->Ok_0));
                }
            },
            Token::Placeholder(_) => {
                proof {
                    assert(cells@[i as int].is_set());
                }
                match &cells[i].value {
                    Some(Some(text)) => {
                        let ghost before = output@;
                        output.append(text.as_str());
                        proof {
                            assert(output@ + rest_after->Ok_0 =~= before + (text@
                                + rest_after->Ok_0));
                        }
                    },
                    Some(None) => (),
                    None => {
                        proof {
                            assert(false);
                        }
                    },
                }
            },
        }
        i = i + 1;
    }
    proof {
        assert(output@ + Seq::<char>::empty() =~= output@);
        assert(output@ == whole->Ok_0);
    }
    Ok(output)
}

proof fn lemma_check_none_lookup(
    tokens: Seq<TokenV>,
    reg: Seq<(Seq<char>, ProviderV)>,
    i: int,
    k: int,
)
    requires
        0 <= i <= k < tokens.len(),
        spec_check_from(tokens, reg, i) is None,
        tokens[k] is Placeholder,
    ensures
        spec_assoc_lookup(reg, tokens[k]->Placeholder_0.module) is Some,
    decreases k - i,
{
    if i < k {
        lemma_check_none_lookup(tokens, reg, i + 1, k);
    }
}

/// Renders a token sequence against a registry and context: one pass when
/// the template has at most one placeholder, the slot-based strategy
/// otherwise. Both strategies produce the same bytes whenever they succeed.
fn render_tokens(
    tokens: &Vec<Token>,
    registry: &ModuleRegistry,
    context: &ModuleContext,
    no_color: bool,
    template_len: usize,
    placeholder_count: usize,
) -> (r: Result<String, PromptError>)
    requires
        placeholder_count as nat == spec_count_placeholders(tokens.deep_view(), 0),
    ensures
        match r {
            Ok(s) => spec_render_tokens(tokens.deep_view(), registry@, context@, no_color) == Ok::<
                Seq<char>,
                ErrorV,
            >(s@) && spec_render_slots(tokens.deep_view(), registry@, context@, no_color) == Ok::<
                Seq<char>,
                ErrorV,
            >(s@),
            Err(e) => if spec_count_placeholders(tokens.deep_view(), 0) <= 1 {
                spec_render_tokens(tokens.deep_view(), registry@, context@, no_color) == Err::<
                    Seq<char>,
                    ErrorV,
                >(e@)
            } else {
                spec_render_slots(tokens.deep_view(), registry@, context@, no_color) == Err::<
                    Seq<char>,
                    ErrorV,
                >(e@)
            },
        },
{
    proof {
        lemma_render_strategies_agree(tokens.deep_view(), registry@, context@, no_color);
    }
    if placeholder_count <= 1 {
        render_tokens_sequential(tokens, registry, context, no_color, template_len)
    } else {
        render_tokens_parallel(tokens, registry, context, no_color)
    }
}

/// Parses and renders a template against a caller-supplied registry and
/// context. On success the output is the sequential render of the parsed
/// tokens; a failure carries the first error of the strategy chosen by the
/// placeholder count.
pub fn render_template(
    template: &str,
    registry: &ModuleRegistry,
    context: &ModuleContext,
    no_color: bool,
) -> (r: Result<String, PromptError>)
    ensures
        match r {
            Ok(s) => spec_render_tokens(spec_parse(template@), registry@, context@, no_color)
                == Ok::<Seq<char>, ErrorV>(s@),
            Err(e) => if spec_count_placeholders(spec_parse(template@), 0) <= 1 {
                spec_render_tokens(spec_parse(template@), registry@, context@, no_color) == Err::<
                    Seq<char>,
                    ErrorV,
                >(e@)
            } else {
                spec_render_slots(spec_parse(template@), registry@, context@, no_color) == Err::<
                    Seq<char>,
                    ErrorV,
                >(e@)
            },
        },
{
    let tokens = parse(template);
    let placeholder_count = count_placeholders(&tokens);
    render_tokens(&tokens, registry, context, no_color, template.len(), placeholder_count)
}

/// Everything the providers may need from the operating environment,
/// gathered once before a render as plain values: directories, an
/// environment-variable snapshot, repository metadata, tool versions, the
/// clock, and the filesystem markers found up the directory tree.
pub struct SystemProbe {
    pub current_dir: Option<String>,
    pub home_dir: Option<String>,
    pub env_values: Vec<(String, String)>,
    pub git: Option<GitInfo>,
    pub rust_version: Option<String>,
    pub node_version: Option<String>,
    pub python_version: Option<String>,
    pub go_version: Option<String>,
    pub deno_version: Option<String>,
    pub bun_version: Option<String>,
    pub time: Option<TimeParts>,
    pub markers: Vec<(String, String)>,
}

/// The mathematical value of a `SystemProbe`.
#[verifier::ext_equal]
pub struct ProbeV {
    pub current_dir: Option<Seq<char>>,
    pub home_dir: Option<Seq<char>>,
    pub env_values: Seq<(Seq<char>, Seq<char>)>,
    pub git: Option<crate::cache::GitInfoV>,
    pub rust_version: Option<Seq<char>>,
    pub node_version: Option<Seq<char>>,
    pub python_version: Option<Seq<char>>,
    pub go_version: Option<Seq<char>>,
    pub deno_version: Option<Seq<char>>,
    pub bun_version: Option<Seq<char>>,
    pub time: Option<TimeParts>,
    pub markers: Seq<(Seq<char>, Seq<char>)>,
}

impl View for SystemProbe {
    type V = ProbeV;

    open spec fn view(&self) -> ProbeV {
        ProbeV {
            current_dir: self.current_dir.deep_view(),
            home_dir: self.home_dir.deep_view(),
            env_values: self.env_values.deep_view(),
            git: match self.git {
                Some(ref g) => Some(g@),
                None => None,
            },
            rust_version: self.rust_version.deep_view(),
            node_version: self.node_version.deep_view(),
            python_version: self.python_version.deep_view(),
            go_version: self.go_version.deep_view(),
            deno_version: self.deno_version.deep_view(),
            bun_version: self.bun_version.deep_view(),
            time: self.time,
            markers: self.markers.deep_view(),
        }
    }
}

/// The value of a probe that found nothing.
pub open spec fn spec_empty_probe() -> ProbeV {
    ProbeV {
        current_dir: None,
        home_dir: None,
        env_values: Seq::empty(),
        git: None,
        rust_version: None,
        node_version: None,
        python_version: None,
        go_version: None,
        deno_version: None,
        bun_version: None,
        time: None,
        markers: Seq::empty(),
    }
}

impl SystemProbe {
    /// A probe that found nothing: every provider renders as not
    /// applicable.
    pub fn empty() -> (r: Self)
        ensures
            r@ == spec_empty_probe(),
            r@.current_dir is None,
            r@.home_dir is None,
            r@.env_values == Seq::<(Seq<char>, Seq<char>)>::empty(),
            r@.git is None,
            r@.rust_version is None,
            r@.node_version is None,
            r@.python_version is None,
            r@.go_version is None,
            r@.deno_version is None,
            r@.bun_version is None,
            r@.time is None,
            r@.markers == Seq::<(Seq<char>, Seq<char>)>::empty(),
    {
        let r = SystemProbe {
            current_dir: None,
            home_dir: None,
            env_values: Vec::new(),
            git: None,
            rust_version: None,
            node_version: None,
            python_version: None,
            go_version: None,
            deno_version: None,
            bun_version: None,
            time: None,
            markers: Vec::new(),
        };
        proof {
            assert(r@.env_values =~= Seq::<(Seq<char>, Seq<char>)>::empty());
            assert(r@.markers =~= Seq::<(Seq<char>, Seq<char>)>::empty());
            assert(r@ =~~= spec_empty_probe());
        }
        r
    }
}

fn clone_opt_string(v: &Option<String>) -> (r: Option<String>)
    ensures
        r.deep_view() == v.deep_view(),
{
    match v {
        Some(s) => Some(s.clone()),
        None => None,
    }
}

fn clone_pairs(v: &Vec<(String, String)>) -> (r: Vec<(String, String)>)
    ensures
        r.deep_view() == v.deep_view(),
{
    let n = v.len();
    let mut out: Vec<(String, String)> = Vec::new();
    let mut i: usize = 0;
    while i < n
        invariant
            i <= n,
            n == v.len(),
            out.len() == i,
            forall|k: int| 0 <= k < i ==> out.deep_view()[k] == v.deep_view()[k],
        decreases n - i,
    {
        out.push((v[i].0.clone(), v[i].1.clone()));
        proof {
            assert(out.deep_view()[i as int] == v.deep_view()[i as int]);
        }
        i = i + 1;
    }
    proof {
        assert(out.deep_view() =~= v.deep_view());
    }
    out
}

fn clone_git_info(v: &Option<GitInfo>) -> (r: Option<GitInfo>)
    ensures
        match (&r, v) {
            (Some(a), Some(b)) => a@ == b@,
            (None, None) => true,
            _ => false,
        },
{
    match v {
        Some(info) => Some(
            GitInfo {
                branch: info.branch.clone(),
                has_changes: info.has_changes,
                has_staged: info.has_staged,
                has_untracked: info.has_untracked,
            },
        ),
        None => None,
    }
}

/// The provider a module name selects, built from the probe's data; `None`
/// for a name outside the known set.
pub open spec fn spec_instantiate(name: Seq<char>, probe: ProbeV) -> Option<ProviderV> {
    if name == "path"@ {
        Some(
            ProviderV::Path(
                crate::modules::path::PathModuleV {
                    current_dir: probe.current_dir,
                    home_dir: probe.home_dir,
                },
            ),
        )
    } else if name == "git"@ {
        Some(ProviderV::Git(probe.git))
    } else if name == "env"@ {
        Some(ProviderV::Env(probe.env_values))
    } else if name == "ok"@ {
        Some(ProviderV::Okay)
    } else if name == "fail"@ {
        Some(ProviderV::Fail)
    } else if name == "rust"@ {
        Some(ProviderV::Rust(probe.rust_version))
    } else if name == "node"@ {
        Some(ProviderV::Node(probe.node_version))
    } else if name == "python"@ {
        Some(ProviderV::Python(probe.python_version))
    } else if name == "go"@ {
        Some(ProviderV::Go(probe.go_version))
    } else if name == "deno"@ {
        Some(ProviderV::Deno(probe.deno_version))
    } else if name == "bun"@ {
        Some(ProviderV::Bun(probe.bun_version))
    } else if name == "time"@ {
        Some(ProviderV::Time(probe.time))
    } else {
        None
    }
}

fn instantiate_module(name: &str, probe: &SystemProbe) -> (r: Option<Provider>)
    ensures
        match r {
            Some(p) => spec_instantiate(name@, probe@) == Some(p@),
            None => spec_instantiate(name@, probe@) is None,
        },
{
    if crate::chars::str_eq(name, "path") {
        Some(
            Provider::Path(
                PathModule::with_dirs(
                    clone_opt_string(&probe.current_dir),
                    clone_opt_string(&probe.home_dir),
                ),
            ),
        )
    } else if crate::chars::str_eq(name, "git") {
        Some(Provider::Git(GitModule::with_info(clone_git_info(&probe.git))))
    } else if crate::chars::str_eq(name, "env") {
        Some(Provider::Env(EnvModule::with_values(clone_pairs(&probe.env_values))))
    } else if crate::chars::str_eq(name, "ok") {
        Some(Provider::Okay(OkModule::new()))
    } else if crate::chars::str_eq(name, "fail") {
        Some(Provider::Fail(FailModule::new()))
    } else if crate::chars::str_eq(name, "rust") {
        Some(Provider::Rust(RustModule::with_version(clone_opt_string(&probe.rust_version))))
    } else if crate::chars::str_eq(name, "node") {
        Some(Provider::Node(NodeModule::with_version(clone_opt_string(&probe.node_version))))
    } else if crate::chars::str_eq(name, "python") {
        Some(
            Provider::Python(PythonModule::with_version(clone_opt_string(&probe.python_version))),
        )
    } else if crate::chars::str_eq(name, "go") {
        Some(Provider::Go(GoModule::with_version(clone_opt_string(&probe.go_version))))
    } else if crate::chars::str_eq(name, "deno") {
        Some(Provider::Deno(DenoModule::with_version(clone_opt_string(&probe.deno_version))))
    } else if crate::chars::str_eq(name, "bun") {
        Some(Provider::Bun(BunModule::with_version(clone_opt_string(&probe.bun_version))))
    } else if crate::chars::str_eq(name, "time") {
        Some(Provider::Time(TimeModule::new(probe.time)))
    } else {
        None
    }
}

/// The registry the template's distinct module names build, walking the
/// tokens from position `i` with the registrations made so far: the first
/// name with no provider is an error, and a name already registered is not
/// instantiated again.
pub open spec fn spec_build_registry(
    tokens: Seq<TokenV>,
    probe: ProbeV,
    i: int,
    acc: Seq<(Seq<char>, ProviderV)>,
) -> Result<Seq<(Seq<char>, ProviderV)>, ErrorV>
    decreases tokens.len() - i,
    when 0 <= i <= tokens.len()
{
    if i >= tokens.len() {
        Ok(acc)
    } else {
        match tokens[i] {
            TokenV::Text(_) => spec_build_registry(tokens, probe, i + 1, acc),
            TokenV::Placeholder(params) => {
                if spec_assoc_lookup(acc, params.module) is Some {
                    spec_build_registry(tokens, probe, i + 1, acc)
                } else {
                    match spec_instantiate(params.module, probe) {
                        None => Err(ErrorV::UnknownModule(params.module)),
                        Some(pv) => spec_build_registry(
                            tokens,
                            probe,
                            i + 1,
                            seq![(params.module, pv)] + acc,
                        ),
                    }
                }
            },
        }
    }
}

fn build_registry(tokens: &Vec<Token>, probe: &SystemProbe) -> (r: Result<
    (ModuleRegistry, usize),
    PromptError,
>)
    ensures
        match r {
            Ok(pair) => spec_build_registry(
                tokens.deep_view(),
                probe@,
                0,
                Seq::empty(),
            ) == Ok::<Seq<(Seq<char>, ProviderV)>, ErrorV>(pair.0@) && pair.1 as nat
                == spec_count_placeholders(tokens.deep_view(), 0),
            Err(e) => spec_build_registry(tokens.deep_view(), probe@, 0, Seq::empty()) == Err::<
                Seq<(Seq<char>, ProviderV)>,
                ErrorV,
            >(e@),
        },
{
    let ghost tv = tokens.deep_view();
    let mut registry = ModuleRegistry::new();
    let n = tokens.len();
    let mut placeholder_count: usize = 0;
    let mut i: usize = 0;
    proof {
        assert(registry@ =~= Seq::<(Seq<char>, ProviderV)>::empty());
    }
    while i < n
        invariant
            i <= n,
            n == tokens.len(),
            tv == tokens.deep_view(),
            placeholder_count <= i,
            placeholder_count as nat + spec_count_placeholders(tv, i as int)
                == spec_count_placeholders(tv, 0),
            spec_build_registry(tv, probe@, 0, Seq::empty()) == spec_build_registry(
                tv,
                probe@,
                i as int,
                registry@,
            ),
        decreases n - i,
    {
        proof {
            assert(tv[i as int] == tokens[i as int].deep_view());
        }
        match &tokens[i] {
            Token::Text(_) => (),
            Token::Placeholder(params) => {
                placeholder_count = placeholder_count + 1;
                let already = match registry.get(params.module.as_str()) {
                    Some(_) => true,
                    None => false,
                };
                if !already {
                    match instantiate_module(params.module.as_str(), probe) {
                        None => {
                            return Err(PromptError::UnknownModule(params.module.clone()));
                        },
                        Some(module) => {
                            registry.register(params.module.clone(), module);
                        },
                    }
                }
            },
        }
        i = i + 1;
    }
    Ok((registry, placeholder_count))
}

/// What a whole invocation renders: the template's tokens, against the
/// registry its module names build from the probe and a context carrying
/// the flags, the shell, and the probe's markers (none when no registered
/// provider wants any). The strategy is picked by placeholder count, as in
/// `render_template`.
pub open spec fn spec_execute(
    template: Seq<char>,
    no_version: bool,
    exit_code: Option<i32>,
    no_color: bool,
    shell: Shell,
    probe: ProbeV,
) -> Result<Seq<char>, ErrorV> {
    let tokens = spec_parse(template);
    match spec_build_registry(tokens, probe, 0, Seq::empty()) {
        Err(e) => Err(e),
        Ok(reg) => {
            let markers = if crate::registry::spec_registry_markers(reg) == Set::<
                Seq<char>,
            >::empty() {
                Seq::<(Seq<char>, Seq<char>)>::empty()
            } else {
                probe.markers
            };
            let ctx = CtxV { no_version, exit_code, markers, shell };
            if spec_count_placeholders(tokens, 0) <= 1 {
                spec_render_tokens(tokens, reg, ctx, no_color)
            } else {
                spec_render_slots(tokens, reg, ctx, no_color)
            }
        },
    }
}

/// Parses a template, builds the registry its module names ask for,
/// gathers the marker snapshot, and renders — as `spec_execute` says, with
/// escape sequences wrapped for the given shell.
pub fn execute_with_shell(
    format_str: &str,
    no_version: bool,
    exit_code: Option<i32>,
    no_color: bool,
    shell: Shell,
    probe: &SystemProbe,
) -> (r: Result<String, PromptError>)
    ensures
        match r {
            Ok(s) => spec_execute(format_str@, no_version, exit_code, no_color, shell, probe@)
                == Ok::<Seq<char>, ErrorV>(s@),
            Err(e) => spec_execute(format_str@, no_version, exit_code, no_color, shell, probe@)
                == Err::<Seq<char>, ErrorV>(e@),
        },
{
    let tokens = parse(format_str);
    let (registry, placeholder_count) = match build_registry(&tokens, probe) {
        Ok(pair) => pair,
        Err(e) => {
            return Err(e);
        },
    };
    let required_markers = registry.required_markers();
    let detection = if required_markers.is_empty() {
        proof {
            assert(required_markers.deep_view() =~= Seq::<Seq<char>>::empty());
            assert forall|x: Seq<char>| !crate::registry::spec_registry_markers(
                registry@,
            ).contains(x) by {
                assert(!required_markers.deep_view().contains(x));
            }
            assert(crate::registry::spec_registry_markers(registry@) =~= Set::<
                Seq<char>,
            >::empty());
        }
        DetectionContext::empty()
    } else {
        proof {
            assert(required_markers.deep_view().contains(required_markers.deep_view()[0]));
            assert(crate::registry::spec_registry_markers(registry@) != Set::<
                Seq<char>,
            >::empty()) by {
                assert(crate::registry::spec_registry_markers(registry@).contains(
                    required_markers.deep_view()[0],
                ));
            }
        }
        DetectionContext::from_pairs(clone_pairs(&probe.markers))
    };
    let context = ModuleContext { no_version, exit_code, detection, shell };
    render_tokens(&tokens, &registry, &context, no_color, format_str.len(), placeholder_count)
}

/// `execute_with_shell` with no shell delimiters.
pub fn execute(
    format_str: &str,
    no_version: bool,
    exit_code: Option<i32>,
    no_color: bool,
    probe: &SystemProbe,
) -> (r: Result<String, PromptError>)
    ensures
        match r {
            Ok(s) => spec_execute(
                format_str@,
                no_version,
                exit_code,
                no_color,
                Shell::Plain,
                probe@,
            ) == Ok::<Seq<char>, ErrorV>(s@),
            Err(e) => spec_execute(
                format_str@,
                no_version,
                exit_code,
                no_color,
                Shell::Plain,
                probe@,
            ) == Err::<Seq<char>, ErrorV>(e@),
        },
{
    execute_with_shell(format_str, no_version, exit_code, no_color, Shell::Plain, probe)
}

/// The filesystem markers a template's providers want pre-resolved, so the
/// directory walk can happen once before the probe is filled; a template
/// whose modules cannot all be resolved reports no markers.
pub fn template_markers(template: &str) -> (r: Vec<String>)
    ensures
        match spec_build_registry(spec_parse(template@), spec_empty_probe(), 0, Seq::empty()) {
            Ok(reg) => r.deep_view().to_set() == crate::registry::spec_registry_markers(reg)
                && r.deep_view().no_duplicates(),
            Err(_) => r.deep_view() == Seq::<Seq<char>>::empty(),
        },
{
    let probe = SystemProbe::empty();
    let tokens = parse(template);
    match build_registry(&tokens, &probe) {
        Ok((registry, _)) => registry.required_markers(),
        Err(_) => {
            let r: Vec<String> = Vec::new();
            proof {
                assert(r.deep_view() =~= Seq::<Seq<char>>::empty());
            }
            r
        },
    }
}

} // verus!
