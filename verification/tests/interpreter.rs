use yaliir::error::RuntimeError;
use yaliir::host::LoxHost;
use yaliir::interpreter::{Control, Interpreter};
use yaliir::lox::scan_and_parse;

struct DoubleHost;

impl LoxHost for DoubleHost {
    fn num_parse(&self, text: &str) -> Option<u64> {
        text.parse::<f64>().ok().map(f64::to_bits)
    }

    fn num_neg(&self, a: u64) -> u64 {
        (-f64::from_bits(a)).to_bits()
    }

    fn num_add(&self, a: u64, b: u64) -> u64 {
        (f64::from_bits(a) + f64::from_bits(b)).to_bits()
    }

    fn num_sub(&self, a: u64, b: u64) -> u64 {
        (f64::from_bits(a) - f64::from_bits(b)).to_bits()
    }

    fn num_mul(&self, a: u64, b: u64) -> u64 {
        (f64::from_bits(a) * f64::from_bits(b)).to_bits()
    }

    fn num_div(&self, a: u64, b: u64) -> u64 {
        (f64::from_bits(a) / f64::from_bits(b)).to_bits()
    }

    fn num_eq(&self, a: u64, b: u64) -> bool {
        f64::from_bits(a) == f64::from_bits(b)
    }

    fn num_gt(&self, a: u64, b: u64) -> bool {
        f64::from_bits(a) > f64::from_bits(b)
    }

    fn num_ge(&self, a: u64, b: u64) -> bool {
        f64::from_bits(a) >= f64::from_bits(b)
    }

    fn num_lt(&self, a: u64, b: u64) -> bool {
        f64::from_bits(a) < f64::from_bits(b)
    }

    fn num_le(&self, a: u64, b: u64) -> bool {
        f64::from_bits(a) <= f64::from_bits(b)
    }

    fn num_to_text(&self, a: u64) -> String {
        format!("{}", f64::from_bits(a))
    }

    fn clock(&self) -> u64 {
        4096.5f64.to_bits()
    }
}

fn run(source: &str) -> Result<Vec<String>, RuntimeError> {
    let (statements, diagnostics) = scan_and_parse(source);
    assert!(diagnostics.is_empty(), "unexpected diagnostics in {:?}", source);
    let mut interpreter = Interpreter::new(DoubleHost);
    match interpreter.interpret(&statements) {
        Ok(Control::Normal) => Ok(interpreter.take_output()),
        Ok(Control::Return(_)) => panic!("unexpected top-level return"),
        Err(e) => Err(e),
    }
}

fn run_ok(source: &str) -> Vec<String> {
    run(source).expect("program should run")
}

fn run_err(source: &str) -> RuntimeError {
    let (statements, diagnostics) = scan_and_parse(source);
    assert!(diagnostics.is_empty(), "unexpected diagnostics in {:?}", source);
    let mut interpreter = Interpreter::new(DoubleHost);
    match interpreter.interpret(&statements) {
        Err(e) => e,
        _ => panic!("program should fail at runtime"),
    }
}

#[test]
fn arithmetic_follows_doubles() {
    assert_eq!(run_ok("print 1 + 2;"), vec!["3"]);
    assert_eq!(run_ok("print 5 - 0.5;"), vec!["4.5"]);
    assert_eq!(run_ok("print 3 * 4;"), vec!["12"]);
    assert_eq!(run_ok("print 7 / 2;"), vec!["3.5"]);
    // double rounding, exactly as IEEE-754 has it
    assert_eq!(run_ok("print 0.1 + 0.2;"), vec!["0.30000000000000004"]);
    assert_eq!(run_ok("print 1 / 0;"), vec!["inf"]);
    assert_eq!(run_ok("print -123;"), vec!["-123"]);
}

#[test]
fn plus_concatenates_strings_only_with_strings() {
    assert_eq!(run_ok("print \"foo\" + \"bar\";"), vec!["foobar"]);
    let e = run_err("print \"foo\" + 1;");
    assert_eq!(e.message, "Operands must be two numbers or two strings.");
    let e = run_err("print 1 + \"foo\";");
    assert_eq!(e.message, "Operands must be two numbers or two strings.");
}

#[test]
fn equality_never_crosses_kinds() {
    assert_eq!(run_ok("print nil == nil;"), vec!["true"]);
    assert_eq!(run_ok("print nil == false;"), vec!["false"]);
    assert_eq!(run_ok("print 0 == \"0\";"), vec!["false"]);
    assert_eq!(run_ok("print \"a\" == \"a\";"), vec!["true"]);
    assert_eq!(run_ok("print 1 != 2;"), vec!["true"]);
    assert_eq!(run_ok("print 2 == 2;"), vec!["true"]);
}

#[test]
fn truthiness() {
    assert_eq!(run_ok("print !nil;"), vec!["true"]);
    assert_eq!(run_ok("print !0;"), vec!["false"]);
    assert_eq!(run_ok("print !\"\";"), vec!["false"]);
    assert_eq!(run_ok("print !false;"), vec!["true"]);
}

#[test]
fn block_shadowing_does_not_leak() {
    assert_eq!(run_ok("var x = 1; { var x = 2; } print x;"), vec!["1"]);
    assert_eq!(
        run_ok("var x = 1; { var x = 2; print x; } print x;"),
        vec!["2", "1"]
    );
}

#[test]
fn closures_observe_their_captured_scope() {
    let source = "\
fun makeCounter() {
  var i = 0;
  fun count() {
    i = i + 1;
    print i;
  }
  return count;
}
var counter = makeCounter();
counter();
counter();
";
    assert_eq!(run_ok(source), vec!["1", "2"]);
}

#[test]
fn two_closures_share_one_upvalue() {
    let source = "\
fun makePair() {
  var shared = 0;
  fun bump() { shared = shared + 1; }
  fun read() { print shared; }
  bump();
  bump();
  read();
}
makePair();
";
    assert_eq!(run_ok(source), vec!["2"]);
}

#[test]
fn arity_is_checked_exactly() {
    let e = run_err("fun f(a, b) { print a; } f(1);");
    assert_eq!(e.message, "Expected 2 arguments but got 1.");
    let e = run_err("fun f(a, b) { print a; } f(1, 2, 3);");
    assert_eq!(e.message, "Expected 2 arguments but got 3.");
    assert_eq!(run_ok("fun f(a, b) { print a + b; } f(1, 2);"), vec!["3"]);
}

#[test]
fn for_loop_prints_each_index() {
    assert_eq!(
        run_ok("for (var i = 0; i < 3; i = i + 1) print i;"),
        vec!["0", "1", "2"]
    );
}

#[test]
fn while_loop_and_if_control_flow() {
    assert_eq!(
        run_ok("var i = 0; while (i < 2) { print i; i = i + 1; }"),
        vec!["0", "1"]
    );
    assert_eq!(
        run_ok("if (1 > 2) print \"then\"; else print \"else\";"),
        vec!["else"]
    );
}

#[test]
fn logical_operators_return_the_deciding_operand() {
    assert_eq!(run_ok("print \"hi\" or 2;"), vec!["hi"]);
    assert_eq!(run_ok("print nil or \"yes\";"), vec!["yes"]);
    assert_eq!(run_ok("print nil and \"no\";"), vec!["nil"]);
    assert_eq!(run_ok("print 1 and 2;"), vec!["2"]);
    // the right side must not run when the left decides
    assert_eq!(run_ok("var x = 1; false and (x = 2); print x;"), vec!["1"]);
}

#[test]
fn functions_return_values_and_default_to_nil() {
    assert_eq!(run_ok("fun f() { return 7; } print f();"), vec!["7"]);
    assert_eq!(run_ok("fun f() { } print f();"), vec!["nil"]);
    assert_eq!(run_ok("fun f() { return; } print f();"), vec!["nil"]);
    assert_eq!(
        run_ok("fun f() { while (true) { return 9; } } print f();"),
        vec!["9"]
    );
}

#[test]
fn runtime_errors_name_the_failure() {
    let e = run_err("print -\"abc\";");
    assert_eq!(e.message, "Operand must be a number.");
    let e = run_err("print 1 < \"two\";");
    assert_eq!(e.message, "Operand must be a number.");
    let e = run_err("print missing;");
    assert_eq!(e.message, "Undefined variable 'missing'.");
    let e = run_err("missing = 1;");
    assert_eq!(e.message, "Undefined variable 'missing'.");
    let e = run_err("var x = 1; x();");
    assert_eq!(e.message, "Can only call functions and classes.");
}

#[test]
fn assignment_is_an_expression_and_writes_outward() {
    assert_eq!(run_ok("var x = 1; print x = 2;"), vec!["2"]);
    assert_eq!(
        run_ok("var x = 1; { x = 3; } print x;"),
        vec!["3"]
    );
}

#[test]
fn evaluation_stops_at_the_first_runtime_error() {
    let (statements, diagnostics) = scan_and_parse("print 1; print missing; print 2;");
    assert!(diagnostics.is_empty());
    let mut interpreter = Interpreter::new(DoubleHost);
    let result = interpreter.interpret(&statements);
    assert!(result.is_err());
    // the first statement still printed before the failure
    assert_eq!(interpreter.take_output(), vec!["1"]);
}

#[test]
fn native_clock_comes_from_the_host() {
    assert_eq!(run_ok("print clock();"), vec!["4096.5"]);
    let e = run_err("print clock(1);");
    assert_eq!(e.message, "Expected 0 arguments but got 1.");
}

#[test]
fn print_renders_every_kind_of_value() {
    assert_eq!(run_ok("print nil;"), vec!["nil"]);
    assert_eq!(run_ok("print true;"), vec!["true"]);
    assert_eq!(run_ok("print \"text\";"), vec!["text"]);
    assert_eq!(run_ok("fun f() { } print f;"), vec!["<fn f>"]);
    assert_eq!(run_ok("print clock;"), vec!["<native fn>"]);
}

#[test]
fn call_errors_carry_the_closing_paren_line() {
    let e = run_err("var x = 1;\n\nx();");
    assert_eq!(e.token.line, 3);
}

#[test]
fn recursion_works_through_the_environment() {
    let source = "\
fun fib(n) {
  if (n < 2) return n;
  return fib(n - 1) + fib(n - 2);
}
print fib(10);
";
    assert_eq!(run_ok(source), vec!["55"]);
}

#[test]
fn callee_is_checked_before_arguments_run() {
    let (first, diagnostics) = scan_and_parse("var x = 1; 1(x = 2);");
    assert!(diagnostics.is_empty());
    let mut interpreter = Interpreter::new(DoubleHost);
    match interpreter.interpret(&first) {
        Err(e) => assert_eq!(e.message, "Can only call functions and classes."),
        _ => panic!("calling a number must fail"),
    }
    // the argument expression never ran: x is still 1
    let (second, diagnostics) = scan_and_parse("print x;");
    assert!(diagnostics.is_empty());
    match interpreter.interpret(&second) {
        Ok(Control::Normal) => {}
        _ => panic!("the follow-up run should complete"),
    }
    assert_eq!(interpreter.take_output(), vec!["1"]);
}
