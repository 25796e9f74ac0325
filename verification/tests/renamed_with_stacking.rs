//! The lint on `with-stacking`, on contracts written out in full.

use clarinet_tooling::lint::ast::{
    get_index_of_span, Annotation, AnnotationKind, ClarityVersion, ContractAnalysis, Diagnostic,
    Level, LintName, Span, SymbolicExpression, SymbolicExpressionType, WarningKind,
};
use clarinet_tooling::lint::renamed_with_stacking::{
    check_renamed_with_stacking, RenamedWithStacking,
};

/// Reads the expressions of a contract, and the annotations in its comments.
struct Reader {
    chars: Vec<char>,
    at: usize,
    line: u32,
    column: u32,
    annotations: Vec<Annotation>,
}

impl Reader {
    fn peek(&self) -> Option<char> {
        self.chars.get(self.at).copied()
    }

    fn advance(&mut self) {
        if self.chars[self.at] == '\n' {
            self.line += 1;
            self.column = 1;
        } else {
            self.column += 1;
        }
        self.at += 1;
    }

    fn comment(&mut self) {
        let (line, column) = (self.line, self.column);
        let mut text = String::new();
        while let Some(c) = self.peek() {
            if c == '\n' {
                break;
            }
            text.push(c);
            self.advance();
        }
        if let Some(start) = text.find("#[allow(") {
            let names = &text[start + 8..];
            let names = &names[..names.find(')').expect("unclosed annotation")];
            let kinds = names
                .split(',')
                .map(|name| match name.trim() {
                    "renamed_with_stacking" => WarningKind::RenamedWithStacking,
                    _ => WarningKind::Other,
                })
                .collect();
            self.annotations.push(Annotation {
                kind: AnnotationKind::Allow(kinds),
                span: Span {
                    start_line: line,
                    start_column: column,
                    end_line: line,
                    end_column: self.column,
                },
            });
        }
    }

    fn expressions(&mut self) -> Vec<SymbolicExpression> {
        let mut list = Vec::new();
        while let Some(c) = self.peek() {
            if c == ')' {
                break;
            } else if c == ';' {
                self.comment();
            } else if c.is_whitespace() {
                self.advance();
            } else {
                list.push(self.expression());
            }
        }
        list
    }

    fn expression(&mut self) -> SymbolicExpression {
        let (start_line, start_column) = (self.line, self.column);
        let expr = if self.peek() == Some('(') {
            self.advance();
            let list = self.expressions();
            assert_eq!(self.peek(), Some(')'), "unclosed list");
            self.advance();
            SymbolicExpressionType::List(list)
        } else {
            let mut word = String::new();
            while let Some(c) = self.peek() {
                if c == '(' || c == ')' || c.is_whitespace() {
                    break;
                }
                word.push(c);
                self.advance();
            }
            let mut letters = word.chars();
            let first = letters.next().unwrap_or('0');
            let unsigned = first == 'u' && word.len() > 1 && letters.all(|c| c.is_ascii_digit());
            if unsigned || first.is_ascii_digit() {
                SymbolicExpressionType::Other
            } else {
                SymbolicExpressionType::Atom(word)
            }
        };
        SymbolicExpression {
            expr,
            span: Span { start_line, start_column, end_line: self.line, end_column: self.column },
        }
    }
}

fn read(source: &str) -> (Vec<SymbolicExpression>, Vec<Annotation>) {
    let mut reader = Reader {
        chars: source.chars().collect(),
        at: 0,
        line: 1,
        column: 1,
        annotations: Vec::new(),
    };
    let expressions = reader.expressions();
    assert_eq!(reader.at, reader.chars.len(), "text behind the last expression");
    (expressions, reader.annotations)
}

/// Runs the lint over the bare expressions of `snippet`.
fn lint_ast_at(snippet: &str, clarity_version: ClarityVersion) -> Vec<Diagnostic> {
    let (expressions, _) = read(snippet);
    check_renamed_with_stacking(&expressions, clarity_version, &[], Level::Warning)
}

fn lint_ast(snippet: &str) -> Vec<Diagnostic> {
    lint_ast_at(snippet, ClarityVersion::Clarity6)
}

/// Runs the lint as a pass over `snippet` as a Clarity 6 contract.
fn run_snippet(snippet: &str) -> Vec<Diagnostic> {
    let (expressions, annotations) = read(snippet);
    let analysis = ContractAnalysis { clarity_version: ClarityVersion::Clarity6, expressions };
    RenamedWithStacking::run_pass(&analysis, &annotations, Level::Warning)
}

const AS_CONTRACT: &str =
    "(define-public (test)\n    (as-contract? ((with-stacking u1)) true))\n";

#[test]
fn warn_with_stacking_usage_in_clarity6() {
    let diagnostics = run_snippet(AS_CONTRACT);
    assert!(diagnostics.iter().any(|diagnostic| diagnostic.message.contains("with-staking")));
}

#[test]
fn check_pre_analysis_directly() {
    let diagnostics = lint_ast(AS_CONTRACT);
    assert_eq!(diagnostics.len(), 1);
    assert!(diagnostics[0].message.contains("with-staking"));
}

#[test]
fn no_warning_in_clarity5() {
    let diagnostics = lint_ast_at(AS_CONTRACT, ClarityVersion::Clarity5);
    assert!(diagnostics.is_empty(), "`with-stacking` is valid in Clarity 5; got {diagnostics:?}");
}

#[test]
fn no_warning_before_with_stacking_was_introduced() {
    let snippet = "(define-public (test)\n    (ok (with-stacking u1)))\n";
    let diagnostics = lint_ast_at(snippet, ClarityVersion::Clarity3);
    assert!(diagnostics.is_empty(), "nothing was renamed in Clarity 3; got {diagnostics:?}");
}

#[test]
fn warn_with_stacking_in_restrict_assets() {
    let snippet =
        "(define-public (test)\n    (restrict-assets? tx-sender ((with-stacking u1)) (ok true)))\n";
    let diagnostics = lint_ast(snippet);
    assert_eq!(diagnostics.len(), 1, "the allowance was not found; got {diagnostics:?}");
}

const OWN_FUNCTION: &str = "(define-private (with-stacking (amount uint))\n    amount)\n\
                            (define-public (test)\n    (ok (with-stacking u1)))\n";

#[test]
fn no_warning_for_user_defined_with_stacking() {
    let diagnostics = lint_ast(OWN_FUNCTION);
    assert!(diagnostics.is_empty(), "an own function was reported; got {diagnostics:?}");
}

#[test]
fn no_warning_for_user_defined_with_stacking_end_to_end() {
    let diagnostics = run_snippet(OWN_FUNCTION);
    let renamed: Vec<&str> = diagnostics
        .iter()
        .map(|diagnostic| diagnostic.message.as_str())
        .filter(|message| message.contains("was renamed to `with-staking`"))
        .collect();
    assert!(renamed.is_empty(), "an own function was reported; got {renamed:?}");
}

#[test]
fn allow_with_annotation() {
    let snippet = "(define-public (test)\n    ;; #[allow(renamed_with_stacking)]\n    \
                   (as-contract? ((with-stacking u1)) true))\n";
    let diagnostics = run_snippet(snippet);
    assert!(!diagnostics
        .iter()
        .any(|diagnostic| diagnostic.message.contains("was renamed to `with-staking`")));
}

#[test]
fn an_annotation_for_another_lint_does_not_allow() {
    let snippet = "(define-public (test)\n    ;; #[allow(unchecked_data)]\n    \
                   (as-contract? ((with-stacking u1)) true))\n";
    assert_eq!(run_snippet(snippet).len(), 1);
}

#[test]
fn an_annotation_is_about_the_next_line_only() {
    let snippet = ";; #[allow(renamed_with_stacking)]\n(define-public (test)\n    \
                   (as-contract? ((with-stacking u1)) true))\n";
    assert_eq!(run_snippet(snippet).len(), 1);
}

#[test]
fn a_finding_is_complete() {
    let diagnostics = lint_ast(AS_CONTRACT);
    assert_eq!(
        diagnostics,
        vec![Diagnostic {
            level: Level::Warning,
            message: "`with-stacking` was renamed to `with-staking` in Clarity 6. Replace this call \
                      with `with-staking`."
                .to_string(),
            spans: vec![Span { start_line: 2, start_column: 20, end_line: 2, end_column: 38 }],
            suggestion: Some("Replace `with-stacking` with `with-staking`.".to_string()),
        }]
    );
}

#[test]
fn every_call_is_reported_and_inner_ones_first() {
    let snippet = "(define-private (one) (with-stacking (with-stacking u1)))\n\
                   (define-read-only (two) (begin (with-stacking u2) (with-stacking u3)))\n";
    let columns: Vec<(u32, u32)> = lint_ast(snippet)
        .iter()
        .map(|diagnostic| (diagnostic.spans[0].start_line, diagnostic.spans[0].start_column))
        .collect();
    assert_eq!(columns, vec![(1, 38), (1, 23), (2, 32), (2, 51)]);
}

#[test]
fn names_that_are_not_called_are_not_reported() {
    let snippet = "(define-trait t ((with-stacking (uint) (response bool uint))))\n\
                   (define-public (test (with-stacking uint))\n  \
                     (let ((with-stacking u1)) (ok (tuple (with-stacking u2)))))\n\
                   (define-constant with-stacking u1)\n";
    assert!(lint_ast(snippet).is_empty());
}

#[test]
fn values_of_bindings_and_fields_are_searched() {
    let snippet = "(define-public (test)\n  (let ((a (with-stacking u1)))\n    \
                   (ok (tuple (b (with-stacking u2))))))\n";
    let lines: Vec<u32> =
        lint_ast(snippet).iter().map(|diagnostic| diagnostic.spans[0].start_line).collect();
    assert_eq!(lines, vec![2, 3]);
}

#[test]
fn an_allowed_call_stands_beside_one_that_is_reported() {
    let snippet = "(define-public (test)\n  (begin\n    ;; #[allow(renamed_with_stacking)]\n    \
                   (with-stacking u1)\n    (with-stacking u2)))\n";
    let lines: Vec<u32> =
        run_snippet(snippet).iter().map(|diagnostic| diagnostic.spans[0].start_line).collect();
    assert_eq!(lines, vec![5]);
}

#[test]
fn the_checker_keeps_to_the_version_of_the_contract() {
    let (expressions, _) = read(AS_CONTRACT);
    let old = ContractAnalysis { clarity_version: ClarityVersion::Clarity4, expressions };
    assert!(RenamedWithStacking::run_pass(&old, &[], Level::Error).is_empty());
    let checker = RenamedWithStacking::new(ClarityVersion::Clarity6, &[], Level::Error);
    assert_eq!(checker.get_clarity_version(), &ClarityVersion::Clarity6);
    assert_eq!(RenamedWithStacking::get_name(), LintName::RenamedWithStacking);
}

#[test]
fn the_level_is_the_one_that_was_asked_for() {
    let (expressions, _) = read(AS_CONTRACT);
    let diagnostics =
        check_renamed_with_stacking(&expressions, ClarityVersion::Clarity6, &[], Level::Error);
    assert_eq!(diagnostics[0].level, Level::Error);
}

#[test]
fn the_first_annotation_about_a_line_is_found() {
    let at = |line: u32| Span { start_line: line, start_column: 1, end_line: line, end_column: 9 };
    let annotations = vec![
        Annotation { kind: AnnotationKind::Other, span: at(1) },
        Annotation { kind: AnnotationKind::Other, span: at(4) },
        Annotation { kind: AnnotationKind::Allow(Vec::new()), span: at(4) },
    ];
    assert_eq!(get_index_of_span(&annotations, &at(5)), Some(1));
    assert_eq!(get_index_of_span(&annotations, &at(2)), Some(0));
    assert_eq!(get_index_of_span(&annotations, &at(4)), None);
    assert!(!RenamedWithStacking::match_allow_annotation(&annotations[1]));
    assert!(!RenamedWithStacking::match_allow_annotation(&annotations[2]));
}
