//! The lint that explains that `with-stacking` was renamed to `with-staking` in
//! Clarity 6.

use crate::lint::ast::{
    findings, get_index_of_span, is_about, Annotation, AnnotationKind, ClarityVersion,
    ContractAnalysis, Diagnostic, DiagnosticView, Level, LintName, Span, SymbolicExpression,
    SymbolicExpressionType, WarningKind,
};
use crate::text::same_text;
use vstd::prelude::*;

verus! {

/// Whether an expression is the atom `name`.
pub open spec fn is_atom(expr: SymbolicExpression, name: Seq<char>) -> bool {
    expr.expr matches SymbolicExpressionType::Atom(atom) && atom@ == name
}

/// Whether a name defines a function.
pub open spec fn defines_function(name: Seq<char>) -> bool {
    name == "define-private"@ || name == "define-public"@ || name == "define-read-only"@
}

/// Whether an expression defines the function `name`.
pub open spec fn is_definition_of(expr: SymbolicExpression, name: Seq<char>) -> bool {
    &&& expr.expr matches SymbolicExpressionType::List(list)
    &&& list@.len() > 1
    &&& list@[0].expr matches SymbolicExpressionType::Atom(define)
    &&& defines_function(define@)
    &&& list@[1].expr matches SymbolicExpressionType::List(signature)
    &&& signature@.len() > 0
    &&& is_atom(signature@[0], name)
}

/// Whether a contract defines the function `name` itself.
pub open spec fn defines(exprs: Seq<SymbolicExpression>, name: Seq<char>) -> bool {
    exists|i: int| 0 <= i < exprs.len() && is_definition_of(#[trigger] exprs[i], name)
}

/// Where `with-stacking` is called in an expression; an inner call comes before the
/// call around it. Only what is evaluated counts: neither the signature of a function
/// nor a trait has calls in it, and of a binding or of a field of a tuple only the
/// value does. The allowances of `as-contract?` and of `restrict-assets?` are
/// evaluated.
pub open spec fn calls_in(expr: SymbolicExpression) -> Seq<Span>
    decreases expr,
{
    match expr.expr {
        SymbolicExpressionType::List(list) => if list@.len() == 0 {
            Seq::empty()
        } else {
            match list@[0].expr {
                SymbolicExpressionType::Atom(name) => if defines_function(name@) {
                    if list@.len() > 2 {
                        calls_in(list@[2])
                    } else {
                        Seq::empty()
                    }
                } else if name@ == "define-trait"@ {
                    Seq::empty()
                } else if name@ == "let"@ && list@.len() > 1 {
                    calls_in_values_of(list@[1]) + calls_in_each(list@.skip(2))
                } else if name@ == "tuple"@ {
                    calls_in_values(list@.skip(1))
                } else if name@ == "as-contract?"@ && list@.len() > 1 {
                    calls_in_allowances(list@[1]) + calls_in_each(list@.skip(2))
                } else if name@ == "restrict-assets?"@ && list@.len() > 2 {
                    calls_in(list@[1]) + calls_in_allowances(list@[2]) + calls_in_each(
                        list@.skip(3),
                    )
                } else if name@ == "with-stacking"@ {
                    calls_in_each(list@.skip(1)).push(expr.span)
                } else {
                    calls_in_each(list@.skip(1))
                },
                _ => Seq::empty(),
            }
        },
        _ => Seq::empty(),
    }
}

/// Where `with-stacking` is called in each of `exprs`.
pub open spec fn calls_in_each(exprs: Seq<SymbolicExpression>) -> Seq<Span>
    decreases exprs,
{
    if exprs.len() == 0 {
        Seq::empty()
    } else {
        calls_in_each(exprs.drop_last()) + calls_in(exprs.last())
    }
}

/// Where `with-stacking` is called in a list of allowances.
pub open spec fn calls_in_allowances(expr: SymbolicExpression) -> Seq<Span>
    decreases expr,
{
    match expr.expr {
        SymbolicExpressionType::List(list) => calls_in_each(list@),
        _ => Seq::empty(),
    }
}

/// Where `with-stacking` is called in the values of a list of bindings.
pub open spec fn calls_in_values_of(expr: SymbolicExpression) -> Seq<Span>
    decreases expr,
{
    match expr.expr {
        SymbolicExpressionType::List(list) => calls_in_values(list@),
        _ => Seq::empty(),
    }
}

/// Where `with-stacking` is called in the values of `pairs`.
pub open spec fn calls_in_values(pairs: Seq<SymbolicExpression>) -> Seq<Span>
    decreases pairs,
{
    if pairs.len() == 0 {
        Seq::empty()
    } else {
        calls_in_values(pairs.drop_last()) + match pairs.last().expr {
            SymbolicExpressionType::List(pair) => if pair@.len() == 2 {
                calls_in(pair@[1])
            } else {
                Seq::empty()
            },
            _ => Seq::empty(),
        }
    }
}

/// Whether an annotation switches this lint off.
pub open spec fn is_allow(annotation: Annotation) -> bool {
    annotation.kind matches AnnotationKind::Allow(kinds) && kinds@.contains(
        WarningKind::RenamedWithStacking,
    )
}

/// Whether the lint is switched off for what stands at `span`: the first annotation
/// about it does so.
pub open spec fn is_allowed(annotations: Seq<Annotation>, span: Span) -> bool {
    exists|i: int|
        {
            &&& 0 <= i < annotations.len()
            &&& is_about(#[trigger] annotations[i], span)
            &&& is_allow(annotations[i])
            &&& forall|k: int| 0 <= k < i ==> !is_about(#[trigger] annotations[k], span)
        }
}

/// The finding on a call at `span`.
pub open spec fn renamed(level: Level, span: Span) -> DiagnosticView {
    DiagnosticView {
        level,
        message:
            "`with-stacking` was renamed to `with-staking` in Clarity 6. Replace this call with `with-staking`."@,
        spans: seq![span],
        suggestion: Some("Replace `with-stacking` with `with-staking`."@),
    }
}

/// The findings on calls at `spans`: one for each that is not allowed.
pub open spec fn report(spans: Seq<Span>, annotations: Seq<Annotation>, level: Level) -> Seq<
    DiagnosticView,
>
    decreases spans.len(),
{
    if spans.len() == 0 {
        Seq::empty()
    } else {
        let before = report(spans.drop_last(), annotations, level);
        if is_allowed(annotations, spans.last()) {
            before
        } else {
            before.push(renamed(level, spans.last()))
        }
    }
}

/// Whether the lint looks at a contract: `with-stacking` is gone from its version of
/// the language, and it has no function of its own of that name.
pub open spec fn applies(version: ClarityVersion, exprs: Seq<SymbolicExpression>) -> bool {
    version == ClarityVersion::Clarity6 && !defines(exprs, "with-stacking"@)
}

/// The findings on a contract.
pub open spec fn findings_on(
    exprs: Seq<SymbolicExpression>,
    version: ClarityVersion,
    annotations: Seq<Annotation>,
    level: Level,
) -> Seq<DiagnosticView> {
    if applies(version, exprs) {
        report(calls_in_each(exprs), annotations, level)
    } else {
        Seq::empty()
    }
}

/// The findings on two groups of calls are those on the first and then those on the
/// second.
pub proof fn lemma_report_append(
    first: Seq<Span>,
    second: Seq<Span>,
    annotations: Seq<Annotation>,
    level: Level,
)
    ensures
        report(first + second, annotations, level) == report(first, annotations, level) + report(
            second,
            annotations,
            level,
        ),
    decreases second.len(),
{
    if second.len() == 0 {
        assert(first + second =~= first);
    } else {
        lemma_report_append(first, second.drop_last(), annotations, level);
        assert((first + second).drop_last() =~= first + second.drop_last());
    }
}

/// The checker, on its way through a contract.
#[derive(Debug, PartialEq)]
pub struct RenamedWithStacking<'a> {
    pub clarity_version: ClarityVersion,
    pub diagnostics: Vec<Diagnostic>,
    pub annotations: &'a [Annotation],
    pub level: Level,
}

/// The atom that an expression is.
fn atom_of(expr: &SymbolicExpression) -> (atom: Option<&String>)
    ensures
        match atom {
            Some(name) => expr.expr == SymbolicExpressionType::Atom(*name),
            None => !(expr.expr is Atom),
        },
{
    match &expr.expr {
        SymbolicExpressionType::Atom(name) => Some(name),
        _ => None,
    }
}

/// Whether a name defines a function.
fn is_define(name: &str) -> (defines: bool)
    ensures
        defines == defines_function(name@),
{
    same_text(name, "define-private") || same_text(name, "define-public") || same_text(
        name,
        "define-read-only",
    )
}

/// Whether an expression defines the function `name`.
fn is_definition(expr: &SymbolicExpression, name: &str) -> (definition: bool)
    ensures
        definition == is_definition_of(*expr, name@),
{
    if let SymbolicExpressionType::List(list) = &expr.expr {
        if list.len() > 1 {
            if let Some(define) = atom_of(&list[0]) {
                if is_define(define.as_str()) {
                    if let SymbolicExpressionType::List(signature) = &list[1].expr {
                        if signature.len() > 0 {
                            if let Some(atom) = atom_of(&signature[0]) {
                                return same_text(atom.as_str(), name);
                            }
                        }
                    }
                }
            }
        }
    }
    false
}

/// Whether a contract defines the function `name` itself.
pub fn defines_own(exprs: &Vec<SymbolicExpression>, name: &str) -> (own: bool)
    ensures
        own == defines(exprs@, name@),
{
    for i in 0..exprs.len()
        invariant
            forall|k: int| 0 <= k < i ==> !is_definition_of(#[trigger] exprs@[k], name@),
    {
        if is_definition(&exprs[i], name) {
            assert(is_definition_of(exprs@[i as int], name@));
            return true;
        }
    }
    false
}

/// Whether a version is older than Clarity 6.
fn before_clarity6(version: ClarityVersion) -> (before: bool)
    ensures
        before == (version != ClarityVersion::Clarity6),
{
    match version {
        ClarityVersion::Clarity6 => false,
        _ => true,
    }
}

impl<'a> RenamedWithStacking<'a> {
    /// A checker that has found nothing yet.
    pub fn new(clarity_version: ClarityVersion, annotations: &'a [Annotation], level: Level) -> (
        checker: Self)
        ensures
            checker.clarity_version == clarity_version,
            checker.diagnostics@.len() == 0,
            checker.annotations == annotations,
            checker.level == level,
    {
        RenamedWithStacking { clarity_version, diagnostics: Vec::new(), annotations, level }
    }

    /// The name of the lint.
    pub fn get_name() -> (name: LintName)
        ensures
            name == LintName::RenamedWithStacking,
    {
        LintName::RenamedWithStacking
    }

    /// The version of the language that the contract is written in.
    pub fn get_clarity_version(&self) -> (version: &ClarityVersion)
        ensures
            *version == self.clarity_version,
    {
        &self.clarity_version
    }

    /// Whether an annotation switches this lint off.
    pub fn match_allow_annotation(annotation: &Annotation) -> (allow: bool)
        ensures
            allow == is_allow(*annotation),
    {
        match &annotation.kind {
            AnnotationKind::Allow(kinds) => {
                for i in 0..kinds.len()
                    invariant
                        annotation.kind == AnnotationKind::Allow(*kinds),
                        forall|k: int|
                            0 <= k < i ==> kinds@[k] != WarningKind::RenamedWithStacking,
                {
                    if kinds[i] == WarningKind::RenamedWithStacking {
                        assert(kinds@[i as int] == WarningKind::RenamedWithStacking);
                        return true;
                    }
                }
                false
            },
            _ => false,
        }
    }

    /// Whether the lint is switched off for what stands at `span`.
    pub fn allow(&self, span: &Span) -> (allowed: bool)
        ensures
            allowed == is_allowed(self.annotations@, *span),
    {
        match get_index_of_span(self.annotations, span) {
            Some(index) => {
                let allowed = Self::match_allow_annotation(&self.annotations[index]);
                assert(is_about(self.annotations@[index as int], *span));
                allowed
            },
            None => false,
        }
    }

    /// Whether `later` is this checker with the findings on calls at `spans` added.
    pub open spec fn saw(self, later: Self, spans: Seq<Span>) -> bool {
        &&& later.clarity_version == self.clarity_version
        &&& later.annotations == self.annotations
        &&& later.level == self.level
        &&& findings(later.diagnostics@) == findings(self.diagnostics@) + report(
            spans,
            self.annotations@,
            self.level,
        )
    }

    /// Looks at a call at `span` to a function that is not part of the language.
    pub fn visit_call_user_defined(&mut self, span: &Span, name: &str)
        ensures
            old(self).saw(
                *final(self),
                if name@ == "with-stacking"@ {
                    seq![*span]
                } else {
                    Seq::empty()
                },
            ),
    {
        proof {
            let empty = Seq::<Span>::empty();
            assert(findings(self.diagnostics@) + report(empty, self.annotations@, self.level)
                =~= findings(self.diagnostics@));
            assert(seq![*span].drop_last() =~= empty);
            assert(report(seq![*span], self.annotations@, self.level) =~= if is_allowed(
                self.annotations@,
                *span,
            ) {
                Seq::empty()
            } else {
                seq![renamed(self.level, *span)]
            });
        }
        if !same_text(name, "with-stacking") {
            return ;
        }
        if self.allow(span) {
            assert(findings(self.diagnostics@) + Seq::empty() =~= findings(self.diagnostics@));
            return ;
        }
        let ghost before = self.diagnostics@;
        let mut spans: Vec<Span> = Vec::new();
        spans.push(*span);
        assert(spans@ =~= seq![*span]);
        let diagnostic = Diagnostic {
            level: self.level,
            message:
                "`with-stacking` was renamed to `with-staking` in Clarity 6. Replace this call with `with-staking`.".to_owned(),
            spans,
            suggestion: Some("Replace `with-stacking` with `with-staking`.".to_owned()),
        };
        self.diagnostics.push(diagnostic);
        assert(findings(self.diagnostics@) =~= findings(before).push(diagnostic@));
        assert(findings(before) + seq![diagnostic@] =~= findings(before).push(diagnostic@));
    }

    /// Two groups of calls, one seen after the other.
    proof fn lemma_saw_both(
        first: Self,
        second: Self,
        third: Self,
        before: Seq<Span>,
        after: Seq<Span>,
    )
        requires
            first.saw(second, before),
            second.saw(third, after),
        ensures
            first.saw(third, before + after),
    {
        lemma_report_append(before, after, first.annotations@, first.level);
        assert(findings(first.diagnostics@) + (report(before, first.annotations@, first.level)
            + report(after, first.annotations@, first.level)) =~= findings(first.diagnostics@)
            + report(before, first.annotations@, first.level) + report(
            after,
            first.annotations@,
            first.level,
        ));
    }

    /// No calls, nothing seen.
    proof fn lemma_saw_nothing(self)
        ensures
            self.saw(self, Seq::empty()),
    {
        assert(findings(self.diagnostics@) + report(Seq::empty(), self.annotations@, self.level)
            =~= findings(self.diagnostics@));
    }

    /// Goes through an expression.
    pub fn traverse_expr(&mut self, expr: &SymbolicExpression)
        ensures
            old(self).saw(*final(self), calls_in(*expr)),
        decreases expr,
    {
        proof {
            self.lemma_saw_nothing();
        }
        let list = match &expr.expr {
            SymbolicExpressionType::List(list) => list,
            _ => {
                return ;
            },
        };
        if list.len() == 0 {
            return ;
        }
        let name = match atom_of(&list[0]) {
            Some(name) => name,
            None => {
                return ;
            },
        };
        let ghost first = *self;
        if is_define(name.as_str()) {
            if list.len() > 2 {
                self.traverse_expr(&list[2]);
            }
        } else if same_text(name.as_str(), "define-trait") {
        } else if same_text(name.as_str(), "let") && list.len() > 1 {
            self.traverse_values_of(&list[1]);
            let ghost second = *self;
            self.traverse_from(list, 2);
            proof {
                Self::lemma_saw_both(
                    first,
                    second,
                    *self,
                    calls_in_values_of(list@[1]),
                    calls_in_each(list@.skip(2)),
                );
            }
        } else if same_text(name.as_str(), "tuple") {
            self.traverse_values(list, 1);
        } else if same_text(name.as_str(), "as-contract?") && list.len() > 1 {
            self.traverse_allowances(&list[1]);
            let ghost second = *self;
            self.traverse_from(list, 2);
            proof {
                Self::lemma_saw_both(
                    first,
                    second,
                    *self,
                    calls_in_allowances(list@[1]),
                    calls_in_each(list@.skip(2)),
                );
            }
        } else if same_text(name.as_str(), "restrict-assets?") && list.len() > 2 {
            self.traverse_expr(&list[1]);
            let ghost second = *self;
            self.traverse_allowances(&list[2]);
            let ghost third = *self;
            self.traverse_from(list, 3);
            proof {
                Self::lemma_saw_both(
                    first,
                    second,
                    third,
                    calls_in(list@[1]),
                    calls_in_allowances(list@[2]),
                );
                Self::lemma_saw_both(
                    first,
                    third,
                    *self,
                    calls_in(list@[1]) + calls_in_allowances(list@[2]),
                    calls_in_each(list@.skip(3)),
                );
            }
        } else {
            self.traverse_from(list, 1);
            let ghost second = *self;
            self.visit_call_user_defined(&expr.span, name.as_str());
            proof {
                let args = calls_in_each(list@.skip(1));
                let own = if name@ == "with-stacking"@ {
                    seq![expr.span]
                } else {
                    Seq::empty()
                };
                Self::lemma_saw_both(first, second, *self, args, own);
                assert(args + Seq::empty() =~= args);
                assert(args + seq![expr.span] =~= args.push(expr.span));
            }
        }
    }

    /// Goes through the expressions of a list from position `from` on.
    fn traverse_from(&mut self, list: &Vec<SymbolicExpression>, from: usize)
        requires
            from <= list@.len(),
        ensures
            old(self).saw(*final(self), calls_in_each(list@.skip(from as int))),
        decreases list,
    {
        let ghost first = *self;
        let ghost all = list@.skip(from as int);
        proof {
            self.lemma_saw_nothing();
        }
        for i in from..list.len()
            invariant
                from <= i <= list@.len(),
                all == list@.skip(from as int),
                first.saw(*self, calls_in_each(all.take(i - from))),
        {
            let ghost second = *self;
            self.traverse_expr(&list[i]);
            proof {
                Self::lemma_saw_both(
                    first,
                    second,
                    *self,
                    calls_in_each(all.take(i - from)),
                    calls_in(list@[i as int]),
                );
                assert(all.take(i + 1 - from).drop_last() =~= all.take(i - from));
            }
        }
        assert(all.take(all.len() as int) =~= all);
    }

    /// Goes through a list of allowances.
    fn traverse_allowances(&mut self, expr: &SymbolicExpression)
        ensures
            old(self).saw(*final(self), calls_in_allowances(*expr)),
        decreases expr,
    {
        match &expr.expr {
            SymbolicExpressionType::List(list) => {
                assert(list@.skip(0) =~= list@);
                self.traverse_from(list, 0);
            },
            _ => {
                proof {
                    self.lemma_saw_nothing();
                }
            },
        }
    }

    /// Goes through the values of a list of bindings.
    fn traverse_values_of(&mut self, expr: &SymbolicExpression)
        ensures
            old(self).saw(*final(self), calls_in_values_of(*expr)),
        decreases expr,
    {
        match &expr.expr {
            SymbolicExpressionType::List(list) => {
                assert(list@.skip(0) =~= list@);
                self.traverse_values(list, 0);
            },
            _ => {
                proof {
                    self.lemma_saw_nothing();
                }
            },
        }
    }

    /// Goes through the values of the pairs in a list from position `from` on.
    fn traverse_values(&mut self, list: &Vec<SymbolicExpression>, from: usize)
        requires
            from <= list@.len(),
        ensures
            old(self).saw(*final(self), calls_in_values(list@.skip(from as int))),
        decreases list,
    {
        let ghost first = *self;
        let ghost all = list@.skip(from as int);
        proof {
            self.lemma_saw_nothing();
        }
        for i in from..list.len()
            invariant
                from <= i <= list@.len(),
                all == list@.skip(from as int),
                first.saw(*self, calls_in_values(all.take(i - from))),
        {
            let ghost second = *self;
            let ghost calls = match list@[i as int].expr {
                SymbolicExpressionType::List(pair) => if pair@.len() == 2 {
                    calls_in(pair@[1])
                } else {
                    Seq::empty()
                },
                _ => Seq::empty(),
            };
            proof {
                self.lemma_saw_nothing();
            }
            if let SymbolicExpressionType::List(pair) = &list[i].expr {
                if pair.len() == 2 {
                    self.traverse_expr(&pair[1]);
                }
            }
            proof {
                Self::lemma_saw_both(
                    first,
                    second,
                    *self,
                    calls_in_values(all.take(i - from)),
                    calls,
                );
                assert(all.take(i + 1 - from).drop_last() =~= all.take(i - from));
            }
        }
        assert(all.take(all.len() as int) =~= all);
    }

    /// Checks the expressions of a contract.
    pub fn run_expressions(self, expressions: &Vec<SymbolicExpression>) -> (diagnostics: Vec<
        Diagnostic,
    >)
        ensures
            findings(diagnostics@) == findings(self.diagnostics@) + findings_on(
                expressions@,
                self.clarity_version,
                self.annotations@,
                self.level,
            ),
    {
        let mut checker = self;
        if before_clarity6(checker.clarity_version) || defines_own(expressions, "with-stacking") {
            assert(findings(self.diagnostics@) + Seq::empty() =~= findings(self.diagnostics@));
            return checker.diagnostics;
        }
        assert(expressions@.skip(0) =~= expressions@);
        checker.traverse_from(expressions, 0);
        checker.diagnostics
    }

    /// Checks a contract of the version that the checker is for.
    fn run(self, contract_analysis: &ContractAnalysis) -> (diagnostics: Vec<Diagnostic>)
        requires
            self.clarity_version == contract_analysis.clarity_version,
        ensures
            findings(diagnostics@) == findings(self.diagnostics@) + findings_on(
                contract_analysis.expressions@,
                contract_analysis.clarity_version,
                self.annotations@,
                self.level,
            ),
    {
        self.run_expressions(&contract_analysis.expressions)
    }

    /// Runs the lint as a pass over a contract.
    pub fn run_pass(
        contract_analysis: &ContractAnalysis,
        annotations: &'a [Annotation],
        level: Level,
    ) -> (diagnostics: Vec<Diagnostic>)
        ensures
            findings(diagnostics@) == findings_on(
                contract_analysis.expressions@,
                contract_analysis.clarity_version,
                annotations@,
                level,
            ),
    {
        let checker = RenamedWithStacking::new(
            contract_analysis.clarity_version,
            annotations,
            level,
        );
        let diagnostics = checker.run(contract_analysis);
        assert(findings(diagnostics@) =~= findings_on(
            contract_analysis.expressions@,
            contract_analysis.clarity_version,
            annotations@,
            level,
        ));
        diagnostics
    }
}

/// Checks the expressions of a contract for calls to `with-stacking`.
pub fn check_renamed_with_stacking(
    expressions: &Vec<SymbolicExpression>,
    clarity_version: ClarityVersion,
    annotations: &[Annotation],
    level: Level,
) -> (diagnostics: Vec<Diagnostic>)
    ensures
        findings(diagnostics@) == findings_on(expressions@, clarity_version, annotations@, level),
{
    let checker = RenamedWithStacking::new(clarity_version, annotations, level);
    let diagnostics = checker.run_expressions(expressions);
    assert(findings(diagnostics@) =~= findings_on(
        expressions@,
        clarity_version,
        annotations@,
        level,
    ));
    diagnostics
}

/// A contract of a version before Clarity 6 is not told that anything was renamed.
pub proof fn law_silent_before_clarity6(
    exprs: Seq<SymbolicExpression>,
    version: ClarityVersion,
    annotations: Seq<Annotation>,
    level: Level,
)
    requires
        version != ClarityVersion::Clarity6,
    ensures
        findings_on(exprs, version, annotations, level).len() == 0,
{
}

/// A contract that defines a function `with-stacking` may call it.
pub proof fn law_silent_on_an_own_function(
    exprs: Seq<SymbolicExpression>,
    version: ClarityVersion,
    annotations: Seq<Annotation>,
    level: Level,
)
    requires
        defines(exprs, "with-stacking"@),
    ensures
        findings_on(exprs, version, annotations, level).len() == 0,
{
}

/// The findings are those on the calls that are not allowed: each such call is
/// reported, and nothing else is.
pub proof fn law_calls_are_reported_unless_allowed(
    exprs: Seq<SymbolicExpression>,
    annotations: Seq<Annotation>,
    level: Level,
)
    requires
        !defines(exprs, "with-stacking"@),
    ensures
        ({
            let found = findings_on(exprs, ClarityVersion::Clarity6, annotations, level);
            let calls = calls_in_each(exprs);
            &&& forall|k: int|
                0 <= k < calls.len() && !is_allowed(annotations, #[trigger] calls[k])
                    ==> found.contains(renamed(level, calls[k]))
            &&& forall|i: int|
                0 <= i < found.len() ==> exists|k: int|
                    {
                        &&& 0 <= k < calls.len()
                        &&& !is_allowed(annotations, #[trigger] calls[k])
                        &&& #[trigger] found[i] == renamed(level, calls[k])
                    }
            &&& found.len() <= calls.len()
        }),
{
    lemma_report(calls_in_each(exprs), annotations, level);
}

proof fn lemma_report(calls: Seq<Span>, annotations: Seq<Annotation>, level: Level)
    ensures
        ({
            let found = report(calls, annotations, level);
            &&& forall|k: int|
                0 <= k < calls.len() && !is_allowed(annotations, #[trigger] calls[k])
                    ==> found.contains(renamed(level, calls[k]))
            &&& forall|i: int|
                0 <= i < found.len() ==> exists|k: int|
                    {
                        &&& 0 <= k < calls.len()
                        &&& !is_allowed(annotations, #[trigger] calls[k])
                        &&& #[trigger] found[i] == renamed(level, calls[k])
                    }
            &&& found.len() <= calls.len()
        }),
    decreases calls.len(),
{
    if calls.len() > 0 {
        let rest = calls.drop_last();
        let found = report(calls, annotations, level);
        let before = report(rest, annotations, level);
        lemma_report(rest, annotations, level);
        assert forall|k: int|
            0 <= k < calls.len() && !is_allowed(
                annotations,
                #[trigger] calls[k],
            ) implies found.contains(renamed(level, calls[k])) by {
            if k < rest.len() {
                assert(rest[k] == calls[k]);
                assert(before.contains(renamed(level, rest[k])));
                let i = choose|i: int|
                    0 <= i < before.len() && before[i] == renamed(level, rest[k]);
                assert(found[i] == before[i]);
            } else {
                assert(found[found.len() - 1] == renamed(level, calls[k]));
            }
        }
        assert forall|i: int| 0 <= i < found.len() implies exists|k: int|
            {
                &&& 0 <= k < calls.len()
                &&& !is_allowed(annotations, #[trigger] calls[k])
                &&& #[trigger] found[i] == renamed(level, calls[k])
            } by {
            if i < before.len() {
                assert(found[i] == before[i]);
                let k = choose|k: int|
                    {
                        &&& 0 <= k < rest.len()
                        &&& !is_allowed(annotations, #[trigger] rest[k])
                        &&& before[i] == renamed(level, rest[k])
                    };
                assert(calls[k] == rest[k]);
            } else {
                assert(!is_allowed(annotations, calls[calls.len() - 1]));
            }
        }
    }
}

/// Without annotations every call is reported, one finding each, in order.
pub proof fn law_one_finding_for_each_call(exprs: Seq<SymbolicExpression>, level: Level)
    requires
        !defines(exprs, "with-stacking"@),
    ensures
        findings_on(exprs, ClarityVersion::Clarity6, Seq::empty(), level) == calls_in_each(
            exprs,
        ).map_values(|span: Span| renamed(level, span)),
{
    lemma_report_all(calls_in_each(exprs), level);
}

proof fn lemma_report_all(calls: Seq<Span>, level: Level)
    ensures
        report(calls, Seq::empty(), level) == calls.map_values(|span: Span| renamed(level, span)),
    decreases calls.len(),
{
    if calls.len() > 0 {
        lemma_report_all(calls.drop_last(), level);
        assert(!is_allowed(Seq::empty(), calls.last()));
    }
    assert(report(calls, Seq::empty(), level) =~= calls.map_values(
        |span: Span| renamed(level, span),
    ));
}

/// A call to `with-stacking` is found as an allowance of `as-contract?` and as one of
/// `restrict-assets?`.
pub proof fn law_allowances_are_searched(
    expr: SymbolicExpression,
    allowances: Seq<SymbolicExpression>,
    at: int,
)
    requires
        0 <= at < allowances.len(),
        is_call_of(allowances[at], "with-stacking"@),
        expr.expr matches SymbolicExpressionType::List(list) && {
            ||| list@.len() > 1 && is_atom(list@[0], "as-contract?"@) && is_list(
                list@[1],
                allowances,
            )
            ||| list@.len() > 2 && is_atom(list@[0], "restrict-assets?"@) && is_list(
                list@[2],
                allowances,
            )
        },
    ensures
        calls_in(expr).contains(allowances[at].span),
{
    reveal_strlit("as-contract?");
    reveal_strlit("restrict-assets?");
    reveal_strlit("with-stacking");
    reveal_strlit("define-private");
    reveal_strlit("define-public");
    reveal_strlit("define-read-only");
    reveal_strlit("define-trait");
    reveal_strlit("let");
    reveal_strlit("tuple");
    let span = allowances[at].span;
    let call = allowances[at];
    let args = call.expr->List_0@;
    assert("with-stacking"@[0] == 'w');
    assert("as-contract?"@[0] == 'a' && "restrict-assets?"@[0] == 'r');
    assert("define-private"@[0] == 'd' && "define-public"@[0] == 'd' && "define-read-only"@[0]
        == 'd' && "define-trait"@[0] == 'd');
    assert("let"@[0] == 'l' && "tuple"@[0] == 't');
    assert(calls_in(call) == calls_in_each(args.skip(1)).push(span));
    assert(calls_in(call)[calls_in(call).len() - 1] == span);
    lemma_calls_in_each(allowances, at, span);
    let list = expr.expr->List_0@;
    let found = calls_in_each(allowances);
    let i = choose|i: int| 0 <= i < found.len() && found[i] == span;
    if is_atom(list[0], "as-contract?"@) {
        assert(calls_in_allowances(list[1]) == found);
        assert(calls_in(expr) == found + calls_in_each(list.skip(2)));
        assert(calls_in(expr)[i] == span);
    } else {
        let owner = calls_in(list[1]);
        assert(calls_in_allowances(list[2]) == found);
        assert(calls_in(expr) == owner + found + calls_in_each(list.skip(3)));
        assert(calls_in(expr)[owner.len() + i] == span);
    }
}

/// Whether an expression is a call of the function `name`.
pub open spec fn is_call_of(expr: SymbolicExpression, name: Seq<char>) -> bool {
    &&& expr.expr matches SymbolicExpressionType::List(list)
    &&& list@.len() > 0
    &&& is_atom(list@[0], name)
}

/// Whether an expression is the list of `items`.
pub open spec fn is_list(expr: SymbolicExpression, items: Seq<SymbolicExpression>) -> bool {
    expr.expr matches SymbolicExpressionType::List(list) && list@ == items
}

proof fn lemma_calls_in_each(exprs: Seq<SymbolicExpression>, at: int, span: Span)
    requires
        0 <= at < exprs.len(),
        calls_in(exprs[at]).contains(span),
    ensures
        calls_in_each(exprs).contains(span),
    decreases exprs.len(),
{
    let before = calls_in_each(exprs.drop_last());
    let last = calls_in(exprs.last());
    if at == exprs.len() - 1 {
        let i = choose|i: int| 0 <= i < last.len() && last[i] == span;
        assert((before + last)[before.len() + i] == span);
    } else {
        lemma_calls_in_each(exprs.drop_last(), at, span);
        let i = choose|i: int| 0 <= i < before.len() && before[i] == span;
        assert((before + last)[i] == span);
    }
}

} // verus!
