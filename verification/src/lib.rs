//! Lint rules for JavaScript, checked over a syntax tree that tree-sitter
//! builds.
//!
//! Each rule is a [`Rule`]: it visits one node of a [`SyntaxTree`] at a time
//! and states, as a specification, exactly which reports it makes there.
pub mod diagnostic;
pub mod directives;
pub mod fixer;
pub mod helpers;
pub mod linter;
pub mod parse;
pub mod precision;
pub mod rule;
pub mod text;
pub mod tree;

pub mod brace_style;
pub mod complexity;
pub mod constructor_super;
pub mod curly;
pub mod default_case_last;
pub mod eqeqeq;
pub mod for_direction;
pub mod func_names;
pub mod getter_return;
pub mod guard_for_in;
pub mod handle_callback_err;
pub mod max_depth;
pub mod max_params;
pub mod max_statements;
pub mod no_async_promise_executor;
pub mod no_bitwise;
pub mod no_buffer_constructor;
pub mod no_case_declarations;
pub mod no_constant_binary_expression;
pub mod no_constant_condition;
pub mod no_control_regex;
pub mod no_debugger;
pub mod no_dupe_class_members;
pub mod no_dupe_else_if;
pub mod no_dupe_keys;
pub mod no_duplicate_case;
pub mod no_duplicate_imports;
pub mod no_empty;
pub mod no_empty_character_class;
pub mod no_empty_function;
pub mod no_empty_pattern;
pub mod no_empty_static_block;
pub mod no_extra_bind;
pub mod no_extra_boolean_cast;
pub mod no_extra_label;
pub mod no_fallthrough;
pub mod no_inner_declarations;
pub mod no_invalid_regexp;
pub mod no_irregular_whitespace;
pub mod no_lonely_if;
pub mod no_magic_numbers;
pub mod no_misleading_character_class;
pub mod no_multi_assign;
pub mod no_negated_condition;
pub mod no_negated_in_lhs;
pub mod no_new;
pub mod no_new_object;
pub mod no_object_constructor;
pub mod no_octal_escape;
pub mod no_path_concat;
pub mod no_plusplus;
pub mod no_prototype_builtins;
pub mod no_restricted_syntax;
pub mod no_self_assign;
pub mod no_undef_init;
pub mod no_unexpected_multiline;
pub mod no_unneeded_ternary;

pub use diagnostic::{Diagnostic, Fix, Report, RuleContext, Severity, Span};
pub use helpers::{has_fallthrough_comment, is_terminal, unwrap_parens};
pub use fixer::{apply_fixes, collect_fixes, lint_and_fix, FixResult};
pub use directives::{is_suppressed, line_at_exec};
pub use linter::{drop_suppressed, lint, lint_tree, run_rule};
pub use parse::parse;
pub use precision::{is_radix_literal, loses_precision, strip_underscores};
pub use no_empty_character_class::is_escaped;
pub use rule::Rule;
pub use tree::{SyntaxNode, SyntaxTree};
pub use brace_style::BraceStyle;
pub use complexity::Complexity;
pub use constructor_super::ConstructorSuper;
pub use curly::Curly;
pub use default_case_last::DefaultCaseLast;
pub use eqeqeq::Eqeqeq;
pub use for_direction::ForDirection;
pub use func_names::FuncNames;
pub use getter_return::GetterReturn;
pub use guard_for_in::GuardForIn;
pub use handle_callback_err::HandleCallbackErr;
pub use max_depth::MaxDepth;
pub use max_params::MaxParams;
pub use max_statements::MaxStatements;
pub use no_async_promise_executor::NoAsyncPromiseExecutor;
pub use no_bitwise::NoBitwise;
pub use no_buffer_constructor::NoBufferConstructor;
pub use no_case_declarations::NoCaseDeclarations;
pub use no_constant_binary_expression::NoConstantBinaryExpression;
pub use no_constant_condition::NoConstantCondition;
pub use no_control_regex::NoControlRegex;
pub use no_debugger::NoDebugger;
pub use no_dupe_class_members::NoDupeClassMembers;
pub use no_dupe_else_if::NoDupeElseIf;
pub use no_dupe_keys::NoDupeKeys;
pub use no_duplicate_case::NoDuplicateCase;
pub use no_duplicate_imports::NoDuplicateImports;
pub use no_empty::NoEmpty;
pub use no_empty_character_class::NoEmptyCharacterClass;
pub use no_empty_function::NoEmptyFunction;
pub use no_empty_pattern::NoEmptyPattern;
pub use no_empty_static_block::NoEmptyStaticBlock;
pub use no_extra_bind::NoExtraBind;
pub use no_extra_boolean_cast::NoExtraBooleanCast;
pub use no_extra_label::NoExtraLabel;
pub use no_fallthrough::NoFallthrough;
pub use no_inner_declarations::NoInnerDeclarations;
pub use no_invalid_regexp::NoInvalidRegexp;
pub use no_irregular_whitespace::NoIrregularWhitespace;
pub use no_lonely_if::NoLonelyIf;
pub use no_magic_numbers::NoMagicNumbers;
pub use no_misleading_character_class::NoMisleadingCharacterClass;
pub use no_multi_assign::NoMultiAssign;
pub use no_negated_condition::NoNegatedCondition;
pub use no_negated_in_lhs::NoNegatedInLhs;
pub use no_new::NoNew;
pub use no_new_object::NoNewObject;
pub use no_object_constructor::NoObjectConstructor;
pub use no_octal_escape::NoOctalEscape;
pub use no_path_concat::NoPathConcat;
pub use no_plusplus::NoPlusplus;
pub use no_prototype_builtins::NoPrototypeBuiltins;
pub use no_restricted_syntax::NoRestrictedSyntax;
pub use no_self_assign::NoSelfAssign;
pub use no_undef_init::NoUndefInit;
pub use no_unexpected_multiline::NoUnexpectedMultiline;
pub use no_unneeded_ternary::NoUnneededTernary;
