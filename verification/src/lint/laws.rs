//! Where calls to `with-stacking` are found: form by form, and what is said of them.

use crate::lint::ast::{
    findings, is_about, Annotation, AnnotationKind, ClarityVersion,
    ContractAnalysis, Diagnostic, DiagnosticView, Level, Span, SymbolicExpression,
    SymbolicExpressionType, WarningKind,
};
use crate::lint::renamed_with_stacking::{
    calls_in, calls_in_allowances, calls_in_each, calls_in_values, calls_in_values_of,
    check_renamed_with_stacking, defines,
    findings_on, is_allow, is_allowed, is_call_of, is_definition_of, law_one_finding_for_each_call,
    lemma_report_append, renamed, report, RenamedWithStacking,
};
use vstd::prelude::*;

verus! {

/// The names of the forms differ in length or in their first letter.
proof fn lemma_form_names()
    ensures
        "define-private"@.len() == 14 && "define-private"@[7] == 'p' && "define-private"@[8] == 'r',
        "define-public"@.len() == 13 && "define-public"@[0] == 'd',
        "define-read-only"@.len() == 16 && "define-read-only"@[0] == 'd',
        "define-trait"@.len() == 12 && "define-trait"@[0] == 'd',
        "let"@.len() == 3,
        "tuple"@.len() == 5,
        "as-contract?"@.len() == 12 && "as-contract?"@[0] == 'a',
        "restrict-assets?"@.len() == 16 && "restrict-assets?"@[0] == 'r',
        "with-stacking"@.len() == 13 && "with-stacking"@[0] == 'w',
{
    reveal_strlit("define-private");
    reveal_strlit("define-public");
    reveal_strlit("define-read-only");
    reveal_strlit("define-trait");
    reveal_strlit("let");
    reveal_strlit("tuple");
    reveal_strlit("as-contract?");
    reveal_strlit("restrict-assets?");
    reveal_strlit("with-stacking");
}

/// The items of a list.
pub open spec fn items_of(expr: SymbolicExpression) -> Seq<SymbolicExpression> {
    match expr.expr {
        SymbolicExpressionType::List(list) => list@,
        _ => Seq::empty(),
    }
}

/// How often a call at `span` is found in an expression.
pub open spec fn found(expr: SymbolicExpression, span: Span) -> nat {
    calls_in(expr).to_multiset().count(span)
}

/// How often a call at `span` is found in the first `count` of `exprs` together.
pub open spec fn found_in_first(exprs: Seq<SymbolicExpression>, count: nat, span: Span) -> nat
    decreases count,
{
    if count == 0 {
        0
    } else {
        found_in_first(exprs, (count - 1) as nat, span) + found(exprs[count - 1], span)
    }
}

proof fn lemma_count_append(a: Seq<Span>, b: Seq<Span>, span: Span)
    ensures
        (a + b).to_multiset().count(span) == a.to_multiset().count(span)
            + b.to_multiset().count(span),
{
    vstd::seq_lib::lemma_multiset_commutative(a, b);
}

proof fn lemma_count_empty(span: Span)
    ensures
        Seq::<Span>::empty().to_multiset().count(span) == 0,
{
    broadcast use vstd::seq_lib::group_to_multiset_ensures;

}

/// In a list of expressions a call is found as often as in the expressions together.
proof fn lemma_found_in_each(exprs: Seq<SymbolicExpression>, from: nat, span: Span)
    requires
        from <= exprs.len(),
    ensures
        calls_in_each(exprs.skip(from as int)).to_multiset().count(span) + found_in_first(
            exprs,
            from,
            span,
        ) == found_in_first(exprs, exprs.len(), span),
    decreases exprs.len() - from,
{
    lemma_each_count(exprs.skip(from as int), span);
    lemma_first_split(exprs, from, (exprs.len() - from) as nat, span);
}

proof fn lemma_each_count(exprs: Seq<SymbolicExpression>, span: Span)
    ensures
        calls_in_each(exprs).to_multiset().count(span) == found_in_first(
            exprs,
            exprs.len(),
            span,
        ),
    decreases exprs.len(),
{
    if exprs.len() == 0 {
        lemma_count_empty(span);
    } else {
        let rest = exprs.drop_last();
        lemma_each_count(rest, span);
        lemma_count_append(calls_in_each(rest), calls_in(exprs.last()), span);
        lemma_first_same(exprs, rest, rest.len(), span);
    }
}

proof fn lemma_first_same(
    a: Seq<SymbolicExpression>,
    b: Seq<SymbolicExpression>,
    count: nat,
    span: Span,
)
    requires
        count <= a.len(),
        count <= b.len(),
        forall|i: int| 0 <= i < count ==> #[trigger] a[i] == b[i],
    ensures
        found_in_first(a, count, span) == found_in_first(b, count, span),
    decreases count,
{
    if count > 0 {
        lemma_first_same(a, b, (count - 1) as nat, span);
        assert(a[count - 1] == b[count - 1]);
    }
}

proof fn lemma_first_split(exprs: Seq<SymbolicExpression>, from: nat, count: nat, span: Span)
    requires
        from + count <= exprs.len(),
    ensures
        found_in_first(exprs.skip(from as int), count, span) + found_in_first(exprs, from, span)
            == found_in_first(exprs, from + count, span),
    decreases count,
{
    if count > 0 {
        lemma_first_split(exprs, from, (count - 1) as nat, span);
        assert(exprs.skip(from as int)[count - 1] == exprs[from + count - 1]);
    }
}

/// A call of `with-stacking` is found where it stands, once more than in its arguments
/// together; in a call of another function, and in a form that is cut short, a call is
/// found as often as in the arguments together.
pub proof fn law_calls_are_found(expr: SymbolicExpression, name: Seq<char>, span: Span)
    requires
        is_call_of(expr, name),
        name != "define-private"@ && name != "define-public"@ && name != "define-read-only"@,
        name != "define-trait"@ && name != "tuple"@,
        name == "let"@ || name == "as-contract?"@ ==> items_of(expr).len() <= 1,
        name == "restrict-assets?"@ ==> items_of(expr).len() <= 2,
    ensures
        ({
            let list = items_of(expr);
            let own: nat = if name == "with-stacking"@ && span == expr.span {
                1
            } else {
                0
            };
            found(expr, span) + found_in_first(list, 1, span) == found_in_first(
                list,
                list.len(),
                span,
            ) + own
        }),
{
    broadcast use vstd::seq_lib::group_to_multiset_ensures;

    let list = items_of(expr);
    lemma_found_in_each(list, 1, span);
    lemma_form_names();
    if name == "with-stacking"@ {
        assert(calls_in(expr) == calls_in_each(list.skip(1)).push(expr.span));
    }
}

/// One more expression at the end of a call, or of the body of a `let`, an
/// `as-contract?` or a `restrict-assets?`, adds its own calls behind those before it. The
/// call of `with-stacking` itself comes behind those in its arguments.
pub proof fn law_one_more_expression_is_searched(
    shorter: SymbolicExpression,
    longer: SymbolicExpression,
    name: Seq<char>,
    more: SymbolicExpression,
)
    requires
        is_call_of(shorter, name),
        longer.expr is List,
        items_of(longer) == items_of(shorter).push(more),
        name != "define-private"@ && name != "define-public"@ && name != "define-read-only"@,
        name != "define-trait"@ && name != "tuple"@,
        name == "let"@ || name == "as-contract?"@ ==> items_of(shorter).len() >= 2,
        name == "restrict-assets?"@ ==> items_of(shorter).len() >= 3,
    ensures
        name != "with-stacking"@ ==> calls_in(longer) == calls_in(shorter) + calls_in(more),
        name == "with-stacking"@ ==> {
            &&& calls_in(shorter).len() > 0 && calls_in(shorter).last() == shorter.span
            &&& calls_in(longer) == (calls_in(shorter).drop_last() + calls_in(more)).push(
                longer.span,
            )
        },
{
    lemma_form_names();
    let list = items_of(shorter);
    let all = items_of(longer);
    assert(all[0] == list[0]);
    assert forall|from: int| 0 <= from <= list.len() implies calls_in_each(
        #[trigger] all.skip(from),
    ) == calls_in_each(list.skip(from)) + calls_in(more) by {
        assert(all.skip(from).drop_last() =~= list.skip(from));
        assert(all.skip(from).last() == more);
    }
    if name == "let"@ {
        assert(all[1] == list[1]);
        assert(calls_in_each(all.skip(2)) == calls_in_each(list.skip(2)) + calls_in(more));
        assert(calls_in(longer) =~= calls_in(shorter) + calls_in(more));
    } else if name == "as-contract?"@ {
        assert(all[1] == list[1]);
        assert(calls_in_each(all.skip(2)) == calls_in_each(list.skip(2)) + calls_in(more));
        assert(calls_in(longer) =~= calls_in(shorter) + calls_in(more));
    } else if name == "restrict-assets?"@ {
        assert(all[1] == list[1] && all[2] == list[2]);
        assert(calls_in_each(all.skip(3)) == calls_in_each(list.skip(3)) + calls_in(more));
        assert(calls_in(longer) =~= calls_in(shorter) + calls_in(more));
    } else {
        assert(calls_in_each(all.skip(1)) == calls_in_each(list.skip(1)) + calls_in(more));
        if name == "with-stacking"@ {
            assert(calls_in(shorter).drop_last() =~= calls_in_each(list.skip(1)));
        }
    }
}

/// A name, a literal and an empty list hold no calls, nor does a list that does not
/// start with a name.
pub proof fn law_nothing_is_found_outside_calls(expr: SymbolicExpression)
    requires
        !(expr.expr is List) || items_of(expr).len() == 0 || !(items_of(expr)[0].expr is Atom),
    ensures
        calls_in(expr).len() == 0,
{
}

/// In a definition of a function the calls are those of its body; its signature has none.
pub proof fn law_calls_of_a_function_are_those_of_its_body(expr: SymbolicExpression)
    requires
        is_call_of(expr, "define-private"@) || is_call_of(expr, "define-public"@) || is_call_of(
            expr,
            "define-read-only"@,
        ),
    ensures
        items_of(expr).len() > 2 ==> calls_in(expr) == calls_in(items_of(expr)[2]),
        items_of(expr).len() <= 2 ==> calls_in(expr).len() == 0,
{
}

/// A trait has no calls.
pub proof fn law_trait_has_no_calls(expr: SymbolicExpression)
    requires
        is_call_of(expr, "define-trait"@),
    ensures
        calls_in(expr).len() == 0,
{
    lemma_form_names();
}

/// In a `let` a call is found as often as in the values of its bindings and in all the
/// expressions of its body together.
pub proof fn law_calls_of_a_let(expr: SymbolicExpression, span: Span)
    requires
        is_call_of(expr, "let"@),
        items_of(expr).len() > 1,
    ensures
        ({
            let list = items_of(expr);
            found(expr, span) + found_in_first(list, 2, span) == found_in_first(
                list,
                list.len(),
                span,
            ) + found_in_values(items_of(list[1]), items_of(list[1]).len(), span)
        }),
{
    let list = items_of(expr);
    lemma_form_names();
    lemma_found_in_each(list, 2, span);
    lemma_count_append(calls_in_values_of(list[1]), calls_in_each(list.skip(2)), span);
    lemma_values_count(items_of(list[1]), span);
    lemma_values_of(list[1]);
    assert(calls_in(expr) == calls_in_values_of(list[1]) + calls_in_each(list.skip(2)));
}

/// Whatever is found in an expression of the body of a `let` is found in the `let`.
pub proof fn law_body_of_a_let_is_searched(expr: SymbolicExpression, k: int, span: Span)
    requires
        is_call_of(expr, "let"@),
        2 <= k < items_of(expr).len(),
        calls_in(items_of(expr)[k]).contains(span),
    ensures
        calls_in(expr).contains(span),
{
    let list = items_of(expr);
    lemma_form_names();
    lemma_each_contains(list.skip(2), k - 2, span);
    let values = calls_in_values_of(list[1]);
    let body = calls_in_each(list.skip(2));
    assert(calls_in(expr) == values + body);
    let i = choose|i: int| 0 <= i < body.len() && body[i] == span;
    assert(calls_in(expr)[values.len() + i] == span);
}

proof fn lemma_each_contains(exprs: Seq<SymbolicExpression>, at: int, span: Span)
    requires
        0 <= at < exprs.len(),
        calls_in(exprs[at]).contains(span),
    ensures
        calls_in_each(exprs).contains(span),
    decreases exprs.len(),
{
    let before = calls_in_each(exprs.drop_last());
    let last = calls_in(exprs.last());
    if at == exprs.len() - 1 {
        let i = choose|i: int| 0 <= i < last.len() && last[i] == span;
        assert((before + last)[before.len() + i] == span);
    } else {
        lemma_each_contains(exprs.drop_last(), at, span);
        let i = choose|i: int| 0 <= i < before.len() && before[i] == span;
        assert((before + last)[i] == span);
    }
}

/// How often a call at `span` is found in the value of a pair; what is no pair has none.
pub open spec fn found_in_value(pair: SymbolicExpression, span: Span) -> nat {
    if items_of(pair).len() == 2 {
        found(items_of(pair)[1], span)
    } else {
        0
    }
}

/// How often a call at `span` is found in the values of the first `count` of `pairs`.
pub open spec fn found_in_values(pairs: Seq<SymbolicExpression>, count: nat, span: Span) -> nat
    decreases count,
{
    if count == 0 {
        0
    } else {
        found_in_values(pairs, (count - 1) as nat, span) + found_in_value(pairs[count - 1], span)
    }
}

proof fn lemma_values_of(expr: SymbolicExpression)
    ensures
        calls_in_values_of(expr) == calls_in_values(items_of(expr)),
{
    assert(calls_in_values(Seq::empty()) =~= Seq::empty());
}

proof fn lemma_values_count(pairs: Seq<SymbolicExpression>, span: Span)
    ensures
        calls_in_values(pairs).to_multiset().count(span) == found_in_values(
            pairs,
            pairs.len(),
            span,
        ),
    decreases pairs.len(),
{
    lemma_count_empty(span);
    if pairs.len() > 0 {
        let rest = pairs.drop_last();
        lemma_values_count(rest, span);
        lemma_values_same(pairs, rest, rest.len(), span);
        let last = if items_of(pairs.last()).len() == 2 {
            calls_in(items_of(pairs.last())[1])
        } else {
            Seq::empty()
        };
        assert(calls_in_values(pairs) == calls_in_values(rest) + last);
        lemma_count_append(calls_in_values(rest), last, span);
    }
}

proof fn lemma_values_same(
    a: Seq<SymbolicExpression>,
    b: Seq<SymbolicExpression>,
    count: nat,
    span: Span,
)
    requires
        count <= a.len(),
        count <= b.len(),
        forall|i: int| 0 <= i < count ==> #[trigger] a[i] == b[i],
    ensures
        found_in_values(a, count, span) == found_in_values(b, count, span),
    decreases count,
{
    if count > 0 {
        lemma_values_same(a, b, (count - 1) as nat, span);
        assert(a[count - 1] == b[count - 1]);
    }
}

/// In a tuple a call is found as often as in the values of its fields together.
pub proof fn law_calls_of_a_tuple(expr: SymbolicExpression, span: Span)
    requires
        is_call_of(expr, "tuple"@),
    ensures
        ({
            let list = items_of(expr);
            found(expr, span) == found_in_values(list.skip(1), (list.len() - 1) as nat, span)
        }),
{
    lemma_form_names();
    lemma_values_count(items_of(expr).skip(1), span);
    assert(calls_in(expr) == calls_in_values(items_of(expr).skip(1)));
}

/// In an `as-contract?` a call is found as often as in its allowances and in all the
/// expressions of its body together.
pub proof fn law_calls_of_as_contract(expr: SymbolicExpression, span: Span)
    requires
        is_call_of(expr, "as-contract?"@),
        items_of(expr).len() > 1,
    ensures
        ({
            let list = items_of(expr);
            let allowances = items_of(list[1]);
            found(expr, span) + found_in_first(list, 2, span) == found_in_first(
                list,
                list.len(),
                span,
            ) + found_in_first(allowances, allowances.len(), span)
        }),
{
    let list = items_of(expr);
    lemma_form_names();
    lemma_found_in_each(list, 2, span);
    lemma_allowances(list[1]);
    lemma_each_count(items_of(list[1]), span);
    lemma_count_append(calls_in_allowances(list[1]), calls_in_each(list.skip(2)), span);
    assert(calls_in(expr) == calls_in_allowances(list[1]) + calls_in_each(list.skip(2)));
}

/// In a `restrict-assets?` a call is found as often as in the owner, in its allowances
/// and in all the expressions of its body together.
pub proof fn law_calls_of_restrict_assets(expr: SymbolicExpression, span: Span)
    requires
        is_call_of(expr, "restrict-assets?"@),
        items_of(expr).len() > 2,
    ensures
        ({
            let list = items_of(expr);
            let allowances = items_of(list[2]);
            found(expr, span) + found_in_first(list, 3, span) == found_in_first(
                list,
                list.len(),
                span,
            ) + found(list[1], span) + found_in_first(allowances, allowances.len(), span)
        }),
{
    let list = items_of(expr);
    lemma_form_names();
    lemma_found_in_each(list, 3, span);
    lemma_allowances(list[2]);
    lemma_each_count(items_of(list[2]), span);
    let owner = calls_in(list[1]);
    let allowed = calls_in_allowances(list[2]);
    let body = calls_in_each(list.skip(3));
    lemma_count_append(owner, allowed, span);
    lemma_count_append(owner + allowed, body, span);
    assert(calls_in(expr) == owner + allowed + body);
}

proof fn lemma_allowances(expr: SymbolicExpression)
    ensures
        calls_in_allowances(expr) == calls_in_each(items_of(expr)),
{
    assert(calls_in_each(Seq::empty()) =~= Seq::empty());
}

/// In a contract a call is found as often as in its expressions together; without
/// annotations it is reported as often, at its own place and at the level asked for.
pub proof fn law_contract_is_searched_in_full(
    exprs: Seq<SymbolicExpression>,
    level: Level,
    span: Span,
)
    requires
        !defines(exprs, "with-stacking"@),
    ensures
        ({
            let told = findings_on(exprs, ClarityVersion::Clarity6, Seq::empty(), level);
            &&& told.len() == calls_in_each(exprs).len()
            &&& forall|i: int|
                0 <= i < told.len() ==> (#[trigger] told[i]).level == level && told[i].spans
                    == seq![calls_in_each(exprs)[i]]
            &&& calls_in_each(exprs).to_multiset().count(span) == found_in_first(
                exprs,
                exprs.len(),
                span,
            )
        }),
{
    lemma_each_count(exprs, span);
    law_one_finding_for_each_call(exprs, level);
}

/// The findings on a contract come one expression after the other.
pub proof fn law_findings_come_in_order(
    first: Seq<SymbolicExpression>,
    second: Seq<SymbolicExpression>,
    annotations: Seq<Annotation>,
    level: Level,
)
    requires
        !defines(first + second, "with-stacking"@),
    ensures
        findings_on(first + second, ClarityVersion::Clarity6, annotations, level) == findings_on(
            first,
            ClarityVersion::Clarity6,
            annotations,
            level,
        ) + findings_on(second, ClarityVersion::Clarity6, annotations, level),
{
    let name = "with-stacking"@;
    let all = first + second;
    assert(!defines(first, name)) by {
        if defines(first, name) {
            let i = choose|i: int|
                0 <= i < first.len()
                    && is_definition_of(first[i], name);
            assert(all[i] == first[i]);
        }
    }
    assert(!defines(second, name)) by {
        if defines(second, name) {
            let i = choose|i: int|
                0 <= i < second.len()
                    && is_definition_of(second[i], name);
            assert(all[first.len() + i] == second[i]);
        }
    }
    lemma_each_append(first, second);
    lemma_report_append(calls_in_each(first), calls_in_each(second), annotations, level);
}

proof fn lemma_each_append(first: Seq<SymbolicExpression>, second: Seq<SymbolicExpression>)
    ensures
        calls_in_each(first + second) == calls_in_each(first) + calls_in_each(second),
    decreases second.len(),
{
    if second.len() == 0 {
        assert(first + second =~= first);
        assert(calls_in_each(first) + calls_in_each(second) =~= calls_in_each(first));
    } else {
        lemma_each_append(first, second.drop_last());
        assert((first + second).drop_last() =~= first + second.drop_last());
        assert(calls_in_each(first + second) =~= calls_in_each(first) + calls_in_each(second));
    }
}

/// A contract defines a function of its own where one of its expressions is a list of a
/// word that defines functions and a list that starts with the name.
pub proof fn law_own_function_is_told_by_its_definition(
    exprs: Seq<SymbolicExpression>,
    at: int,
    name: Seq<char>,
)
    requires
        0 <= at < exprs.len(),
        is_call_of(exprs[at], "define-private"@) || is_call_of(exprs[at], "define-public"@)
            || is_call_of(exprs[at], "define-read-only"@),
        items_of(exprs[at]).len() > 1,
        is_call_of(items_of(exprs[at])[1], name),
    ensures
        defines(exprs, name),
{
    assert(is_definition_of(exprs[at], name));
}

/// A function counts as the contract's own only where some expression defines it.
pub proof fn law_calls_alone_define_nothing(
    exprs: Seq<SymbolicExpression>,
    name: Seq<char>,
)
    requires
        defines(exprs, name),
    ensures
        exists|at: int|
            {
                &&& 0 <= at < exprs.len()
                &&& is_call_of(#[trigger] exprs[at], "define-private"@) || is_call_of(
                    exprs[at],
                    "define-public"@,
                ) || is_call_of(exprs[at], "define-read-only"@)
                &&& items_of(exprs[at]).len() > 1
                &&& is_call_of(items_of(exprs[at])[1], name)
            },
{
    let at = choose|at: int|
        0 <= at < exprs.len() && is_definition_of(
            exprs[at],
            name,
        );
    assert(is_call_of(items_of(exprs[at])[1], name));
}

/// An annotation that allows the lint covers what starts on the line below it, and that
/// line alone; one that allows other warnings, or nothing, does not.
pub proof fn law_annotation_covers_the_next_line(annotation: Annotation, span: Span)
    ensures
        is_allowed(seq![annotation], span) <==> {
            &&& annotation.span.start_line + 1 == span.start_line
            &&& annotation.kind matches AnnotationKind::Allow(kinds) && exists|i: int|
                0 <= i < kinds@.len() && #[trigger] kinds@[i] == WarningKind::RenamedWithStacking
        },
        !is_allowed(Seq::empty(), span),
{
    let list = seq![annotation];
    assert(list[0] == annotation);
    if is_about(annotation, span) && is_allow(annotation) {
        assert(is_about(list[0], span));
        assert(is_allowed(list, span));
    }
}

/// Of the annotations on one line the first decides.
pub proof fn law_first_annotation_decides(
    before: Seq<Annotation>,
    annotation: Annotation,
    after: Seq<Annotation>,
    span: Span,
)
    requires
        annotation.span.start_line + 1 == span.start_line,
        forall|i: int|
            0 <= i < before.len() ==> (#[trigger] before[i]).span.start_line + 1
                != span.start_line,
    ensures
        is_allowed(before + seq![annotation] + after, span) <==> is_allowed(
            seq![annotation],
            span,
        ),
{
    let all = before + seq![annotation] + after;
    let at = before.len() as int;
    assert(all[at] == annotation);
    assert(is_about(all[at], span));
    let one = seq![annotation];
    assert(one[0] == annotation);
    assert forall|i: int| 0 <= i < at implies !is_about(#[trigger] all[i], span) by {
        assert(all[i] == before[i]);
    }
    if is_allowed(all, span) {
        let i = choose|i: int|
            {
                &&& 0 <= i < all.len()
                &&& is_about(#[trigger] all[i], span)
                &&& is_allow(all[i])
                &&& forall|k: int| 0 <= k < i ==> !is_about(#[trigger] all[k], span)
            };
        assert(i == at);
        assert(is_about(one[0], span));
        assert(is_allowed(one, span));
    }
    if is_allowed(one, span) {
        assert(is_allow(annotation));
        assert(is_allowed(all, span));
    }
}

/// A finding says what the call is now named, at its own place.
pub proof fn law_finding_names_the_new_call(level: Level, span: Span)
    ensures
        ({
            let told: DiagnosticView = renamed(level, span);
            &&& told.level == level
            &&& told.spans == seq![span]
            &&& told.message
                == "`with-stacking` was renamed to `with-staking` in Clarity 6. Replace this call with `with-staking`."@
            &&& told.suggestion == Some("Replace `with-stacking` with `with-staking`."@)
        }),
{
}

/// A call that is allowed is not reported, and one that is not is, whatever else is.
pub proof fn law_each_call_is_reported_by_itself(
    before: Seq<Span>,
    span: Span,
    after: Seq<Span>,
    annotations: Seq<Annotation>,
    level: Level,
)
    ensures
        report(before + seq![span] + after, annotations, level) == report(
            before,
            annotations,
            level,
        ) + (if is_allowed(annotations, span) {
            Seq::empty()
        } else {
            seq![renamed(level, span)]
        }) + report(after, annotations, level),
{
    lemma_report_append(before + seq![span], after, annotations, level);
    lemma_report_append(before, seq![span], annotations, level);
    assert(seq![span].drop_last() =~= Seq::empty());
    reveal_with_fuel(report, 2);
    assert(report(seq![span], annotations, level) =~= if is_allowed(annotations, span) {
        Seq::empty()
    } else {
        seq![renamed(level, span)]
    });
}

/// A finding stands for what it says.
pub proof fn law_findings_are_taken_as_they_are(list: Seq<Diagnostic>)
    ensures
        findings(list).len() == list.len(),
        forall|i: int|
            0 <= i < list.len() ==> {
                let told = #[trigger] findings(list)[i];
                &&& told.level == list[i].level
                &&& told.message == list[i].message@
                &&& told.spans == list[i].spans@
                &&& told.suggestion is Some == list[i].suggestion is Some
                &&& list[i].suggestion is Some ==> told.suggestion->0 == list[i].suggestion->0@
            },
{
}

/// The lint looks at contracts of Clarity 6 that have no function of that name, and at
/// those alone.
pub proof fn law_when_the_lint_applies(
    exprs: Seq<SymbolicExpression>,
    version: ClarityVersion,
    annotations: Seq<Annotation>,
    level: Level,
)
    ensures
        version == ClarityVersion::Clarity6 && !defines(exprs, "with-stacking"@) ==> findings_on(
            exprs,
            version,
            annotations,
            level,
        ) == report(calls_in_each(exprs), annotations, level),
        version != ClarityVersion::Clarity6 || defines(exprs, "with-stacking"@) ==> findings_on(
            exprs,
            version,
            annotations,
            level,
        ).len() == 0,
{
}

/// What is reported of a contract: without annotations one finding for each call, with
/// its message at its own place, in Clarity 6; nothing in older versions, and nothing
/// where the contract has a function of that name.
pub proof fn law_contract_is_reported_on(
    exprs: Vec<SymbolicExpression>,
    version: ClarityVersion,
    annotations: &[Annotation],
    level: Level,
    told: Vec<Diagnostic>,
)
    requires
        call_ensures(check_renamed_with_stacking, (&exprs, version, annotations, level), told),
    ensures
        version != ClarityVersion::Clarity6 || defines(exprs@, "with-stacking"@) ==> told@.len()
            == 0,
        version == ClarityVersion::Clarity6 && !defines(exprs@, "with-stacking"@)
            && annotations@.len() == 0 ==> {
            let calls = calls_in_each(exprs@);
            &&& told@.len() == calls.len()
            &&& forall|i: int|
                0 <= i < calls.len() ==> (#[trigger] told@[i]).level == level && told@[i].spans@
                    == seq![calls[i]]
        },
        findings(told@) == findings_on(exprs@, version, annotations@, level),
{
    assert(findings(told@).len() == told@.len());
    if version == ClarityVersion::Clarity6 && !defines(exprs@, "with-stacking"@)
        && annotations@.len() == 0 {
        assert(annotations@ =~= Seq::empty());
        law_one_finding_for_each_call(exprs@, level);
        let calls = calls_in_each(exprs@);
        assert forall|i: int| 0 <= i < calls.len() implies (#[trigger] told@[i]).level == level
            && told@[i].spans@ == seq![calls[i]] by {
            assert(findings(told@)[i] == told@[i]@);
            assert(findings(told@)[i] == renamed(level, calls[i]));
        }
    }
}

/// The pass over a contract reports the same as the check of its expressions, in the
/// version that the contract is written in.
pub proof fn law_pass_reports_what_the_check_does(
    contract: ContractAnalysis,
    annotations: &[Annotation],
    level: Level,
    passed: Vec<Diagnostic>,
    checked: Vec<Diagnostic>,
)
    requires
        call_ensures(RenamedWithStacking::run_pass, (&contract, annotations, level), passed),
        call_ensures(
            check_renamed_with_stacking,
            (&contract.expressions, contract.clarity_version, annotations, level),
            checked,
        ),
    ensures
        findings(passed@) == findings(checked@),
{
}

} // verus!
