use rubrs::interpreter::Interpreter;
use rubrs::machine::{Action, Arithmetic, Event, Request};
use rubrs::number::Number;
use rubrs::syntax::{Expr, Literal, LogicalOperator, Stmt};
use rubrs::token::{Token, TokenType};
use rubrs::value::Output;

/// Answers a request as a host does, with the clock fixed.
fn answer(request: Request) -> Event {
    let value = match request {
        Request::Parse(digits) => digits.parse::<f64>().unwrap(),
        Request::Arithmetic { operator, left, right } => {
            let a = f64::from_bits(left.bits);
            let b = f64::from_bits(right.bits);
            match operator {
                Arithmetic::Add => a + b,
                Arithmetic::Subtract => a - b,
                Arithmetic::Multiply => a * b,
                Arithmetic::Divide => a / b,
            }
        }
        Request::Clock => 1234.5,
    };
    Event::Number(Number { bits: value.to_bits() })
}

/// Steps the interpreter until the loaded program ends. Returns the lines
/// printed and the runtime error, if there was one.
fn drive(interpreter: &mut Interpreter) -> (Vec<String>, Option<String>) {
    let mut lines = Vec::new();
    let mut event = Event::Resume;
    let mut steps = 0u64;
    loop {
        steps += 1;
        assert!(steps < 10_000_000);
        match interpreter.step(event) {
            Action::Continue => event = Event::Resume,
            Action::Request(request) => event = answer(request),
            Action::Print(Output::Text(text)) => {
                lines.push(text);
                event = Event::Resume;
            }
            Action::Print(Output::Number(n)) => {
                lines.push(format!("{}", f64::from_bits(n.bits)));
                event = Event::Resume;
            }
            Action::Finished => return (lines, None),
            Action::Failed(message) => return (lines, Some(message)),
        }
    }
}

/// Runs a program on a fresh interpreter.
fn run(source: &str) -> (Vec<String>, Option<String>) {
    let mut interpreter = Interpreter::new();
    match interpreter.parse_and_run(source) {
        Ok(()) => drive(&mut interpreter),
        Err(message) => (Vec::new(), Some(message)),
    }
}

fn prints(source: &str) -> Vec<String> {
    let (lines, error) = run(source);
    assert_eq!(error, None);
    lines
}

fn fails(source: &str) -> String {
    let (_, error) = run(source);
    error.unwrap()
}

#[test]
fn arithmetic_follows_precedence() {
    assert_eq!(prints("print 1 + 2 * 3;"), vec!["7"]);
}

#[test]
fn block_shadows_and_restores() {
    assert_eq!(prints("var a = 1; { var a = 2; print a; } print a;"), vec!["2", "1"]);
}

#[test]
fn for_loop_counts() {
    assert_eq!(prints("for (var i = 0; i < 3; i = i + 1) print i;"), vec!["0", "1", "2"]);
}

#[test]
fn function_returns_sum() {
    assert_eq!(prints("fun add(a,b){ return a+b; } print add(2,3);"), vec!["5"]);
}

#[test]
fn closure_counts_calls() {
    assert_eq!(
        prints(
            "fun mk(){ var n = 0; fun inc(){ n = n + 1; return n; } return inc; } var c = mk(); print c(); print c();"
        ),
        vec!["1", "2"]
    );
}

#[test]
fn or_returns_left_operand_uncoerced() {
    assert_eq!(prints("print \"hi\" or 2;"), vec!["hi"]);
}

#[test]
fn closure_law_successive_calls() {
    let lines = prints(
        "fun f() { var c = 0; fun g(){ c = c+1; return c; } return g; } var g = f(); \
         print g(); print g(); print g(); print g(); print g();",
    );
    assert_eq!(lines, vec!["1", "2", "3", "4", "5"]);
}

#[test]
fn closures_from_separate_calls_do_not_share() {
    let lines = prints(
        "fun f() { var c = 0; fun g(){ c = c+1; return c; } return g; } var a = f(); var b = f(); \
         print a(); print a(); print b();",
    );
    assert_eq!(lines, vec!["1", "2", "1"]);
}

#[test]
fn or_skips_right_operand() {
    assert_eq!(prints("print true or missing;"), vec!["true"]);
    assert_eq!(prints("var a = 1; true or (a = 2); print a;"), vec!["1"]);
}

#[test]
fn and_skips_right_operand() {
    assert_eq!(prints("print false and missing;"), vec!["false"]);
    assert_eq!(prints("print nil and missing;"), vec!["nil"]);
    assert_eq!(prints("var a = 1; nil and (a = 2); print a;"), vec!["1"]);
}

#[test]
fn logical_evaluates_right_operand_when_undecided() {
    assert_eq!(prints("print false or 2;"), vec!["2"]);
    assert_eq!(prints("print 1 and 2;"), vec!["2"]);
    assert_eq!(fails("print false or missing;"), "Undefined variable 'missing'.");
    assert_eq!(fails("print true and missing;"), "Undefined variable 'missing'.");
}

#[test]
fn evaluation_is_repeatable() {
    let source = "var a = 0; while (a < 4) { a = a + 1; print a * a; } print clock();";
    assert_eq!(run(source), run(source));
    assert_eq!(prints(source), vec!["1", "4", "9", "16", "1234.5"]);
}

#[test]
fn assignment_writes_to_declaring_scope() {
    let lines = prints("var x = 1; { { x = 2; } print x; } print x;");
    assert_eq!(lines, vec!["2", "2"]);
    let lines = prints("var x = 1; { var x = 5; { x = 2; } print x; } print x;");
    assert_eq!(lines, vec!["2", "1"]);
}

#[test]
fn assignment_yields_assigned_value() {
    assert_eq!(prints("var a; var b; a = b = 3; print a; print b;"), vec!["3", "3"]);
    assert_eq!(prints("var a = 1; print a = 2;"), vec!["2"]);
}

#[test]
fn assignment_to_undefined_fails() {
    assert_eq!(fails("x = 1;"), "Undefined variable 'x'.");
}

#[test]
fn reading_undefined_variable_fails() {
    assert_eq!(fails("print x;"), "Undefined variable 'x'.");
}

#[test]
fn calling_non_function_fails() {
    assert_eq!(fails("var a = 1; a();"), "Can only call functions and classes.");
    assert_eq!(fails("\"text\"(1);"), "Can only call functions and classes.");
    assert_eq!(fails("nil();"), "Can only call functions and classes.");
}

#[test]
fn arity_mismatch_reports_counts() {
    assert_eq!(fails("fun f(a, b) {} f(1);"), "Expected 2 arguments but got 1.");
    assert_eq!(fails("fun f() {} f(1, 2, 3);"), "Expected 0 arguments but got 3.");
    assert_eq!(fails("clock(1);"), "Expected 0 arguments but got 1.");
    let mut call = String::from("fun f(a) {} f(");
    for i in 0..12 {
        if i > 0 {
            call.push(',');
        }
        call.push('1');
    }
    call.push_str(");");
    assert_eq!(fails(&call), "Expected 1 arguments but got 12.");
}

#[test]
fn callee_and_arguments_are_evaluated_before_the_call_is_checked() {
    let (lines, error) = run("fun show(x) { print x; return x; } var a = 1; a(show(1), show(2));");
    assert_eq!(lines, vec!["1", "2"]);
    assert_eq!(error.unwrap(), "Can only call functions and classes.");
}

#[test]
fn arguments_are_evaluated_left_to_right() {
    let lines = prints(
        "fun show(x) { print x; return x; } fun sub(a, b, c) { return a - b - c; } \
         print sub(show(10), show(3), show(2));",
    );
    assert_eq!(lines, vec!["10", "3", "2", "5"]);
}

#[test]
fn operands_are_evaluated_left_to_right() {
    let lines = prints("fun show(x) { print x; return x; } print show(1) - show(2);");
    assert_eq!(lines, vec!["1", "2", "-1"]);
}

#[test]
fn return_at_top_level_fails() {
    assert_eq!(fails("return 1;"), "return from top-level");
    assert_eq!(fails("{ return; }"), "return from top-level");
}

#[test]
fn return_unwinds_nested_statements() {
    let lines = prints(
        "fun find() { var i = 0; while (true) { { if (i == 3) { return i; } } i = i + 1; } } \
         print find(); print \"after\";",
    );
    assert_eq!(lines, vec!["3", "after"]);
}

#[test]
fn return_restores_callers_scope() {
    let lines = prints("var a = 1; fun f() { var a = 2; { var a = 3; return a; } } print f(); print a;");
    assert_eq!(lines, vec!["3", "1"]);
}

#[test]
fn function_without_return_yields_nil() {
    assert_eq!(prints("fun f() { 1 + 2; } print f();"), vec!["nil"]);
    assert_eq!(prints("fun f() { return; } print f();"), vec!["nil"]);
}

#[test]
fn function_runs_in_its_closure_not_the_callers_scope() {
    let lines = prints(
        "var a = \"global\"; fun show() { print a; } { var a = \"local\"; show(); }",
    );
    assert_eq!(lines, vec!["global"]);
}

#[test]
fn closure_sees_later_definitions_in_captured_scope() {
    let lines = prints("fun show() { print later; } var later = 7; show();");
    assert_eq!(lines, vec!["7"]);
}

#[test]
fn recursion_works() {
    let lines = prints(
        "fun fib(n) { if (n < 2) return n; return fib(n - 1) + fib(n - 2); } print fib(15);",
    );
    assert_eq!(lines, vec!["610"]);
}

#[test]
fn parameters_are_bound_in_order() {
    assert_eq!(prints("fun f(a, b, c) { print a; print b; print c; } f(1, 2, 3);"), vec!["1", "2", "3"]);
    assert_eq!(prints("fun f(a, a) { print a; } f(1, 2);"), vec!["2"]);
}

#[test]
fn truthiness() {
    assert_eq!(prints("if (0) print \"yes\"; else print \"no\";"), vec!["yes"]);
    assert_eq!(prints("if (\"\") print \"yes\"; else print \"no\";"), vec!["yes"]);
    assert_eq!(prints("if (nil) print \"yes\"; else print \"no\";"), vec!["no"]);
    assert_eq!(prints("if (false) print \"yes\"; else print \"no\";"), vec!["no"]);
    assert_eq!(prints("fun f() {} if (f) print \"yes\";"), vec!["yes"]);
    assert_eq!(prints("if (false) print \"yes\";"), Vec::<String>::new());
    assert_eq!(prints("print !0; print !nil; print !\"\"; print !false; print !true;"),
        vec!["false", "true", "false", "true", "false"]);
}

#[test]
fn equality_of_values() {
    assert_eq!(prints("print nil == nil;"), vec!["true"]);
    assert_eq!(prints("print 1 == 1; print 1 == 2; print 1 != 2;"), vec!["true", "false", "true"]);
    assert_eq!(prints("print \"a\" == \"a\"; print \"a\" == \"b\";"), vec!["true", "false"]);
    assert_eq!(prints("print 1 == \"1\"; print nil == false; print 0 == false;"), vec!["false", "false", "false"]);
    assert_eq!(prints("print true == true; print true != false;"), vec!["true", "true"]);
    assert_eq!(prints("var nan = 0 / 0; print nan == nan; print nan != nan;"), vec!["false", "true"]);
    assert_eq!(prints("print 0 == -0;"), vec!["true"]);
    assert_eq!(prints("print clock == clock;"), vec!["true"]);
    assert_eq!(prints("fun f() {} fun g() {} print f == f; print f == g; print f == clock;"),
        vec!["true", "false", "false"]);
}

#[test]
fn functions_are_equal_by_name() {
    let lines = prints("fun f() { return 1; } var first = f; { fun f() { return 2; } print first == f; }");
    assert_eq!(lines, vec!["true"]);
}

#[test]
fn comparison_of_numbers() {
    assert_eq!(prints("print 1 < 2; print 2 < 1; print 1 < 1;"), vec!["true", "false", "false"]);
    assert_eq!(prints("print 1 <= 2; print 2 <= 1; print 1 <= 1;"), vec!["true", "false", "true"]);
    assert_eq!(prints("print 1 > 2; print 2 > 1; print 1 > 1;"), vec!["false", "true", "false"]);
    assert_eq!(prints("print 1 >= 2; print 2 >= 1; print 1 >= 1;"), vec!["false", "true", "true"]);
    assert_eq!(prints("print -1 < 0; print -2 < -1; print -1 < -2; print 0.5 < 0.25;"),
        vec!["true", "true", "false", "false"]);
    assert_eq!(prints("var nan = 0 / 0; print nan < 1; print nan >= 1; print 1 <= nan; print nan > nan;"),
        vec!["false", "false", "false", "false"]);
    assert_eq!(prints("print -0 < 0; print -0 >= 0; print 1 / 0 > 1;"), vec!["false", "true", "true"]);
}

#[test]
fn comparison_needs_numbers() {
    assert_eq!(fails("print \"a\" < 1;"), "Cannot convert string to number.");
    assert_eq!(fails("print 1 < nil;"), "Cannot convert nil to number.");
    assert_eq!(fails("print true >= 1;"), "Cannot convert boolean to number.");
    assert_eq!(fails("fun f() {} print 1 > f;"), "Cannot convert function to number.");
    assert_eq!(fails("print clock <= 1;"), "Cannot convert native function to number.");
}

#[test]
fn arithmetic_on_numbers() {
    assert_eq!(prints("print 7 - 2; print 3 * 4; print 9 / 2; print 0.1 + 0.2;"),
        vec!["5", "12", "4.5", "0.30000000000000004"]);
    assert_eq!(prints("print -(3); print --3; print -0.5;"), vec!["-3", "3", "-0.5"]);
    assert_eq!(prints("print (1 + 2) * 3;"), vec!["9"]);
    assert_eq!(prints("print 10 - 4 - 3; print 24 / 4 / 2;"), vec!["3", "3"]);
}

#[test]
fn division_by_zero_is_no_error() {
    assert_eq!(prints("print 1 / 0; print -1 / 0; print 0 / 0;"), vec!["inf", "-inf", "NaN"]);
}

#[test]
fn arithmetic_needs_numbers() {
    assert_eq!(fails("print 1 - \"a\";"), "Cannot convert string to number.");
    assert_eq!(fails("print nil * 2;"), "Cannot convert nil to number.");
    assert_eq!(fails("print true / 2;"), "Cannot convert boolean to number.");
    assert_eq!(fails("print -\"a\";"), "Cannot convert string to number.");
    assert_eq!(fails("print -nil;"), "Cannot convert nil to number.");
    assert_eq!(fails("print nil - \"a\";"), "Cannot convert nil to number.");
}

#[test]
fn plus_joins_two_strings() {
    assert_eq!(prints("print \"ab\" + \"cd\";"), vec!["abcd"]);
    assert_eq!(prints("print \"\" + \"\";"), vec![""]);
    assert_eq!(prints("print \"a\" + \"b\" + \"c\";"), vec!["abc"]);
}

#[test]
fn plus_rejects_mixed_operands() {
    assert_eq!(fails("print \"a\" + 1;"), "Cannot convert string to number.");
    assert_eq!(fails("print 1 + \"a\";"), "Cannot convert string to number.");
    assert_eq!(fails("print nil + 1;"), "Cannot convert nil to number.");
    assert_eq!(fails("print true + true;"), "Cannot convert boolean to number.");
    assert_eq!(fails("print \"a\" + nil;"), "Cannot convert string to number.");
}

#[test]
fn stringification() {
    assert_eq!(prints("print nil; print true; print false;"), vec!["nil", "true", "false"]);
    assert_eq!(prints("print 3; print 3.0; print 2.5; print 100000; print 0.001;"),
        vec!["3", "3", "2.5", "100000", "0.001"]);
    assert_eq!(prints("print \"raw text\";"), vec!["raw text"]);
    assert_eq!(prints("fun add(a, b) {} print add;"), vec!["<fn add>"]);
    assert_eq!(prints("print clock;"), vec!["<native fn Clock>"]);
}

#[test]
fn clock_is_a_number_from_the_host() {
    assert_eq!(prints("print clock();"), vec!["1234.5"]);
    assert_eq!(prints("print clock() + 1;"), vec!["1235.5"]);
}

#[test]
fn while_loop_retests_its_condition() {
    assert_eq!(prints("var i = 3; while (i > 0) { print i; i = i - 1; }"), vec!["3", "2", "1"]);
    assert_eq!(prints("while (false) print 1; print 2;"), vec!["2"]);
}

#[test]
fn for_loop_variants() {
    assert_eq!(prints("var i = 0; for (; i < 2; i = i + 1) print i;"), vec!["0", "1"]);
    assert_eq!(prints("var i; for (i = 1; i < 3;) { print i; i = i + 1; }"), vec!["1", "2"]);
    assert_eq!(
        prints("fun f() { for (;;) { return \"out\"; } } print f();"),
        vec!["out"]
    );
    assert_eq!(prints("for (var i = 0; i < 2; i = i + 1) { var j = i * 10; print j; } "), vec!["0", "10"]);
}

#[test]
fn for_loop_variable_is_scoped_to_the_loop() {
    assert_eq!(fails("for (var i = 0; i < 1; i = i + 1) {} print i;"), "Undefined variable 'i'.");
}

#[test]
fn var_without_initializer_is_nil() {
    assert_eq!(prints("var a; print a;"), vec!["nil"]);
}

#[test]
fn redefinition_overwrites() {
    assert_eq!(prints("var a = 1; var a = 2; print a;"), vec!["2"]);
}

#[test]
fn native_can_be_shadowed_at_top_level() {
    assert_eq!(prints("var clock = 3; print clock;"), vec!["3"]);
}

#[test]
fn grouping_and_string_literals() {
    assert_eq!(prints("print (\"a\");"), vec!["a"]);
    assert_eq!(prints("print \"two\nlines\";"), vec!["two\nlines"]);
}

#[test]
fn lexical_error_is_reported() {
    assert_eq!(fails("print \"open;"), "Unterminated string at line 1");
    assert_eq!(fails("var a = 1;\nvar b = @;"), "Unexpected character at line 2");
}

#[test]
fn syntax_error_is_reported() {
    assert_eq!(fails("print 1"), "Expect ';' after value. at end");
    assert_eq!(fails("1 + 2 print 3;"), "Expect ';' after expression. at 'print'");
}

#[test]
fn errors_load_nothing() {
    let mut interpreter = Interpreter::new();
    assert!(interpreter.parse_and_run("print 1").is_err());
    assert_eq!(interpreter.step(Event::Resume), Action::Finished);
    assert!(interpreter.parse_and_run("print \"x").is_err());
    assert_eq!(interpreter.step(Event::Resume), Action::Finished);
}

#[test]
fn output_before_a_runtime_error_is_kept() {
    let (lines, error) = run("print 1; print x; print 2;");
    assert_eq!(lines, vec!["1"]);
    assert_eq!(error.unwrap(), "Undefined variable 'x'.");
}

#[test]
fn top_level_persists_across_programs() {
    let mut interpreter = Interpreter::new();
    interpreter.parse_and_run("var a = 1; fun next() { a = a + 1; return a; }").unwrap();
    assert_eq!(drive(&mut interpreter), (vec![], None));
    interpreter.parse_and_run("print next(); print next();").unwrap();
    assert_eq!(drive(&mut interpreter), (vec!["2".to_string(), "3".to_string()], None));
    interpreter.parse_and_run("print a;").unwrap();
    assert_eq!(drive(&mut interpreter), (vec!["3".to_string()], None));
}

#[test]
fn runtime_error_keeps_globals_and_resets_scope() {
    let mut interpreter = Interpreter::new();
    interpreter
        .parse_and_run("var a = 1; fun f() { var a = 2; { var b = 3; print missing; } } f();")
        .unwrap();
    let (lines, error) = drive(&mut interpreter);
    assert_eq!(lines, Vec::<String>::new());
    assert_eq!(error.unwrap(), "Undefined variable 'missing'.");
    assert_eq!(interpreter.step(Event::Resume), Action::Finished);
    interpreter.parse_and_run("print a;").unwrap();
    assert_eq!(drive(&mut interpreter), (vec!["1".to_string()], None));
    interpreter.parse_and_run("print b;").unwrap();
    let (_, error) = drive(&mut interpreter);
    assert_eq!(error.unwrap(), "Undefined variable 'b'.");
}

#[test]
fn idle_interpreter_is_finished() {
    let mut interpreter = Interpreter::new();
    assert_eq!(interpreter.step(Event::Resume), Action::Finished);
    assert_eq!(interpreter.step(Event::Number(Number { bits: 0 })), Action::Finished);
    interpreter.parse_and_run("").unwrap();
    assert_eq!(drive(&mut interpreter), (vec![], None));
}

#[test]
fn number_literal_is_asked_of_the_host() {
    let mut interpreter = Interpreter::new();
    interpreter.parse_and_run("print 12.50;").unwrap();
    let mut event = Event::Resume;
    let mut asked = None;
    for _ in 0..10 {
        match interpreter.step(event) {
            Action::Request(request) => {
                asked = Some(request);
                break;
            }
            Action::Continue => event = Event::Resume,
            other => panic!("unexpected action {:?}", other),
        }
    }
    assert_eq!(asked, Some(Request::Parse("12.50".to_string())));
    // A step without the answer repeats the request.
    assert_eq!(interpreter.step(Event::Resume), Action::Request(Request::Parse("12.50".to_string())));
    let answer = Number { bits: 12.5f64.to_bits() };
    assert_eq!(interpreter.step(Event::Number(answer)), Action::Continue);
    assert_eq!(interpreter.step(Event::Resume), Action::Print(Output::Number(answer)));
}

#[test]
fn arithmetic_is_asked_of_the_host() {
    let mut interpreter = Interpreter::new();
    interpreter.parse_and_run("print 6 / 3;").unwrap();
    let mut event = Event::Resume;
    let mut requests = Vec::new();
    loop {
        match interpreter.step(event) {
            Action::Request(request) => {
                requests.push(request.clone());
                event = answer(request);
            }
            Action::Continue | Action::Print(_) => event = Event::Resume,
            Action::Finished => break,
            Action::Failed(message) => panic!("{}", message),
        }
    }
    assert_eq!(
        requests,
        vec![
            Request::Parse("6".to_string()),
            Request::Parse("3".to_string()),
            Request::Arithmetic {
                operator: Arithmetic::Divide,
                left: Number { bits: 6f64.to_bits() },
                right: Number { bits: 3f64.to_bits() },
            },
        ]
    );
}

#[test]
fn loading_drops_what_was_running() {
    let mut interpreter = Interpreter::new();
    interpreter.parse_and_run("print \"first\"; print \"second\";").unwrap();
    let mut seen = Vec::new();
    while seen.is_empty() {
        if let Action::Print(Output::Text(text)) = interpreter.step(Event::Resume) {
            seen.push(text);
        }
    }
    assert_eq!(seen, vec!["first"]);
    interpreter.parse_and_run("print \"third\";").unwrap();
    assert_eq!(drive(&mut interpreter), (vec!["third".to_string()], None));
}

fn text(s: &str) -> Expr {
    Expr::Literal(Literal::String(s.to_string()))
}

#[test]
fn run_loads_statements_built_by_hand() {
    let mut interpreter = Interpreter::new();
    interpreter.run(vec![Stmt::Print(text("one")), Stmt::Print(text("two"))]);
    assert_eq!(drive(&mut interpreter), (vec!["one".to_string(), "two".to_string()], None));
    interpreter.run(vec![]);
    assert_eq!(drive(&mut interpreter), (vec![], None));
}

#[test]
fn statement_takes_its_first_step_on_the_interpreter() {
    let mut interpreter = Interpreter::new();
    assert_eq!(Stmt::Print(text("x")).evaluate(&mut interpreter), Action::Continue);
    assert_eq!(drive(&mut interpreter), (vec!["x".to_string()], None));
    let name = Token::new(TokenType::Identifier("v".to_string()), "v".to_string(), 1);
    let declare = Stmt::Var { name: name.clone(), initializer: None };
    assert_eq!(declare.evaluate(&mut interpreter), Action::Continue);
    assert_eq!(drive(&mut interpreter), (vec![], None));
    interpreter.run(vec![Stmt::Print(Expr::Variable(name))]);
    assert_eq!(drive(&mut interpreter), (vec!["nil".to_string()], None));
}

#[test]
fn expression_takes_its_first_step_on_the_interpreter() {
    let mut interpreter = Interpreter::new();
    let missing = Token::new(TokenType::Identifier("m".to_string()), "m".to_string(), 1);
    assert_eq!(
        Expr::Variable(missing).evaluate(&mut interpreter),
        Action::Failed("Undefined variable 'm'.".to_string())
    );
    assert_eq!(
        Expr::Literal(Literal::Number("4".to_string())).evaluate(&mut interpreter),
        Action::Request(Request::Parse("4".to_string()))
    );
    interpreter.run(vec![]);
    let either = Expr::Logical {
        left: Box::new(text("left")),
        operator: LogicalOperator::And,
        right: Box::new(text("right")),
    };
    assert_eq!(either.evaluate(&mut interpreter), Action::Continue);
    // The value of the expression has nowhere to go; the machine ends.
    assert_eq!(drive(&mut interpreter), (vec![], None));
}

#[test]
fn long_loop_runs_to_its_end() {
    let lines = prints("var i = 0; var sum = 0; while (i < 20000) { i = i + 1; sum = sum + i; } print sum;");
    assert_eq!(lines, vec!["200010000"]);
}
