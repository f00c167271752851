use minic::lexer_regex::{lex_with_regex, Token};
use minic::parser::ast::{ExternalDeclaration, TranslationUnit};
use minic::parser::Parser;
use minic::scope::{ScopeAnalyzer, ScopeError};
use minic::type_checker::{TypeChecker, TypeChkError};

fn front_end(source: &str) -> (TranslationUnit, Vec<ScopeError>, Vec<TypeChkError>) {
    let tokens: Vec<Token> = lex_with_regex(source);
    let unit = Parser::new(tokens).parse().unwrap();
    let mut analyzer = ScopeAnalyzer::new();
    let scope_errors = match analyzer.analyze_translation_unit(&unit) {
        Ok(()) => Vec::new(),
        Err(errors) => errors,
    };
    let lines = source.lines().map(|l| l.to_string()).collect();
    let mut checker = TypeChecker::new(analyzer, lines);
    let type_errors = match checker.check_translation_unit(&unit) {
        Ok(()) => Vec::new(),
        Err(errors) => errors.iter().map(|e| e.error).collect(),
    };
    (unit, scope_errors, type_errors)
}

#[test]
fn a_well_formed_program_passes_every_stage() {
    let source = "#include <stdio.h>\n\
                  int limit = 10;\n\
                  int square(int n) { return n * n; }\n\
                  void main() {\n\
                      int i = 0;\n\
                      while (i < limit) { i = i + square(2); }\n\
                      for (int j = 0; j < 3; j = j + 1) { if (j == 1) break; }\n\
                      printf();\n\
                  }\n";
    let (unit, scope_errors, type_errors) = front_end(source);
    assert_eq!(unit.preprocessor_list.len(), 1);
    assert_eq!(unit.external_declarations.len(), 3);
    assert!(matches!(unit.external_declarations[0], ExternalDeclaration::Variable(_)));
    assert!(matches!(unit.external_declarations[1], ExternalDeclaration::Function(_)));
    assert!(scope_errors.is_empty(), "{:?}", scope_errors);
    assert!(type_errors.is_empty(), "{:?}", type_errors);
}

#[test]
fn an_inner_declaration_shadows_an_outer_one() {
    let (_, scope_errors, type_errors) =
        front_end("void f() { int x; { float x; x = 1.5; } x = 2; }");
    assert!(scope_errors.is_empty());
    assert!(type_errors.is_empty());
}

#[test]
fn declaring_a_name_twice_in_one_block_is_a_redefinition() {
    let (_, scope_errors, _) = front_end("void f() { int x; { int y; float y; } }");
    assert_eq!(scope_errors.len(), 1);
    assert!(matches!(scope_errors[0], ScopeError::VariableRedefinition(ref n) if n == "y"));
}

#[test]
fn assigning_to_an_undeclared_name_is_reported() {
    let (_, scope_errors, type_errors) = front_end("void f() { y = 1; }");
    assert_eq!(scope_errors.len(), 1);
    assert!(matches!(scope_errors[0], ScopeError::UndeclaredVariable(ref n) if n == "y"));
    assert!(type_errors.is_empty());
}

#[test]
fn calling_an_undeclared_function_is_reported_once() {
    let (_, scope_errors, type_errors) = front_end("void f() { int x = g(1) + 2; }");
    assert_eq!(scope_errors.len(), 1);
    assert!(matches!(scope_errors[0], ScopeError::UndefinedFunctionCalled(ref n) if n == "g"));
    assert!(type_errors.is_empty());
}

#[test]
fn errors_of_every_stage_are_collected() {
    let source = "int f(int a) { }\n\
                  void g() { break; f(); if (f(1)) { } return 5; }\n";
    let (_, scope_errors, type_errors) = front_end(source);
    assert!(scope_errors.is_empty());
    assert_eq!(
        type_errors,
        vec![
            TypeChkError::ReturnStmtNotFound,
            TypeChkError::ErroneousBreak,
            TypeChkError::FnCallParamCount,
            TypeChkError::NonBooleanCondStmt,
            TypeChkError::ErroneousReturnType,
        ]
    );
}

#[test]
fn a_prototype_and_its_definition_collide() {
    let (_, scope_errors, _) = front_end("int f(int a); int f(int a) { return a; }");
    assert_eq!(scope_errors.len(), 1);
    assert!(matches!(scope_errors[0], ScopeError::FunctionPrototypeRedefinition(ref n) if n == "f"));
}
