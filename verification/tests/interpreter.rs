use aprn::environment::{Environment, RuntimeError, Value};
use aprn::expr::{BinOpType, Expr, Literal, Numeral, Stmt, Symbol};
use aprn::interpreter::{interpret, Interpreter, Printed, Request, Stop};
use aprn::parser::parse;
use aprn::scanner::scan;

fn text(bytes: &[u8]) -> String {
    String::from_utf8(bytes.to_vec()).unwrap()
}

fn host(request: &Request) -> u64 {
    match request {
        Request::Convert(Numeral::Integer(n)) => (*n as f64).to_bits(),
        Request::Convert(Numeral::Decimal(d)) => {
            let numeral = format!("{}.{}", text(&d.whole), text(&d.fraction));
            numeral.parse::<f64>().unwrap().to_bits()
        }
        Request::Compute(op, a, b) => {
            let (a, b) = (f64::from_bits(*a), f64::from_bits(*b));
            let r = match op {
                BinOpType::Add => a + b,
                BinOpType::Sub => a - b,
                BinOpType::Mult => a * b,
                BinOpType::Div => a / b,
                other => panic!("not arithmetic: {:?}", other),
            };
            r.to_bits()
        }
    }
}

fn program(source: &str) -> Vec<Stmt> {
    parse(scan(source.to_string()).unwrap()).unwrap()
}

fn lines(output: &[Printed]) -> Vec<String> {
    output
        .iter()
        .map(|line| match line {
            Printed::Text(s) => s.clone(),
            Printed::Number(bits) => format!("{}", f64::from_bits(*bits)),
        })
        .collect()
}

fn run(source: &str) -> (Vec<String>, Result<(), RuntimeError>) {
    let stmts = program(source);
    let mut answers: Vec<u64> = Vec::new();
    loop {
        let run = interpret(&stmts, &answers);
        match run.result {
            Ok(()) => return (lines(&run.output), Ok(())),
            Err(Stop::Failed(e)) => return (lines(&run.output), Err(e)),
            Err(Stop::Waiting(request)) => answers.push(host(&request)),
        }
    }
}

fn evaluate(source: &str) -> Result<Value, RuntimeError> {
    let stmts = program(source);
    let expr = match &stmts[0] {
        Stmt::Expression(e) => e.clone(),
        other => panic!("not an expression: {:?}", other),
    };
    let mut answers: Vec<u64> = Vec::new();
    loop {
        let mut interpreter = Interpreter::new(&answers);
        match interpreter.interpret_expr(&expr) {
            Ok(v) => return Ok(v),
            Err(Stop::Failed(e)) => return Err(e),
            Err(Stop::Waiting(request)) => answers.push(host(&request)),
        }
    }
}

fn number(source: &str) -> f64 {
    match evaluate(source) {
        Ok(Value::Number(bits)) => f64::from_bits(bits),
        other => panic!("not a number: {:?}", other),
    }
}

fn boolean(source: &str) -> bool {
    match evaluate(source) {
        Ok(Value::Bool(b)) => b,
        other => panic!("not a boolean: {:?}", other),
    }
}

fn printed(source: &str) -> Vec<String> {
    let (output, result) = run(source);
    assert!(result.is_ok(), "{:?}", result);
    output
}

#[test]
fn precedence() {
    assert_eq!(number("1 + 2 * 3;"), 7.0);
}

#[test]
fn left_associativity() {
    assert_eq!(number("1 - 2 - 3;"), -4.0);
    assert_eq!(number("8 / 4 / 2;"), 1.0);
}

#[test]
fn arithmetic() {
    assert_eq!(number("2.5 * 4;"), 10.0);
    assert_eq!(number("1 / 4;"), 0.25);
    assert_eq!(number("0.1 + 0.2;"), 0.1 + 0.2);
    assert_eq!(number("-(3 - 5);"), 2.0);
    assert_eq!(number("--3;"), 3.0);
    assert_eq!(number("(1 + 2) * 3;"), 9.0);
}

#[test]
fn division_by_zero() {
    match evaluate("1 / 0;") {
        Err(RuntimeError::DivisionByZero { line, column }) => assert_eq!((line, column), (1, 2)),
        other => panic!("wrong result: {:?}", other),
    }
    match evaluate("1 / -0;") {
        Err(RuntimeError::DivisionByZero { .. }) => {}
        other => panic!("wrong result: {:?}", other),
    }
    match evaluate("1 / (2 - 2);") {
        Err(RuntimeError::DivisionByZero { line, column }) => assert_eq!((line, column), (1, 2)),
        other => panic!("wrong result: {:?}", other),
    }
    let (output, result) = run("print 1;\nprint 1 / 0;\nprint 2;");
    assert_eq!(output, vec!["1"]);
    match result {
        Err(e) => assert_eq!(e.message(), "[line: 2 Column: 9] Can't divide by zero"),
        Ok(()) => panic!("no error"),
    }
}

#[test]
fn undefined_variable() {
    let (output, result) = run("var x; print x;");
    assert!(output.is_empty());
    match result {
        Err(RuntimeError::UndefinedVariable { name }) => assert_eq!(name, "x"),
        other => panic!("wrong result: {:?}", other),
    }
    match run("print y;").1 {
        Err(e) => assert_eq!(e.message(), "Undefined variable y"),
        Ok(()) => panic!("no error"),
    }
}

#[test]
fn variable_lifecycle() {
    assert_eq!(printed("var x = 1; x = 2; print x;"), vec!["2"]);
    assert_eq!(printed("var x; x = 3; print x;"), vec!["3"]);
    assert_eq!(printed("var x = 1; var x = \"again\"; print x;"), vec!["again"]);
}

#[test]
fn assignment_never_declares() {
    let (output, result) = run("print 1; x = 2; print 3;");
    assert_eq!(output, vec!["1"]);
    match result {
        Err(RuntimeError::UndefinedTarget { name, line, column }) => {
            assert_eq!(name, "x");
            assert_eq!((line, column), (1, 9));
        }
        other => panic!("wrong result: {:?}", other),
    }
    match run("x = 2;").1 {
        Err(e) => assert_eq!(e.message(), "attempted to assign to an undefined variable"),
        Ok(()) => panic!("no error"),
    }
}

#[test]
fn assignment_yields_the_value() {
    assert_eq!(printed("var a; var b; a = b = 4; print a; print b;"), vec!["4", "4"]);
    assert_eq!(printed("var a; print (a = 2) + 1; print a;"), vec!["3", "2"]);
}

#[test]
fn string_concatenation() {
    match evaluate("\"a\" + \"b\";") {
        Ok(Value::String(s)) => assert_eq!(s, "ab"),
        other => panic!("wrong result: {:?}", other),
    }
}

#[test]
fn mismatched_addition() {
    match evaluate("\"a\" + 1;") {
        Err(RuntimeError::UnsupportedOperands { op, line, column }) => {
            assert_eq!(op, BinOpType::Add);
            assert_eq!((line, column), (1, 4));
        }
        other => panic!("wrong result: {:?}", other),
    }
    match evaluate("1 + \"a\";") {
        Err(e) => assert_eq!(e.message(), "[line: 1 Column: 2] Unsupported operands for +"),
        other => panic!("wrong result: {:?}", other),
    }
    for source in ["\"a\" - \"b\";", "true < false;", "null * 2;", "\"a\" / 1;", "1 >= \"1\";"] {
        match evaluate(source) {
            Err(RuntimeError::UnsupportedOperands { .. }) => {}
            other => panic!("wrong result for {}: {:?}", source, other),
        }
    }
}

#[test]
fn grouping_changes_nothing() {
    assert_eq!(number("(7);"), number("7;"));
    assert_eq!(number("((1 + 2));"), number("1 + 2;"));
    match (evaluate("(\"a\" + 1);"), evaluate(" \"a\" + 1;")) {
        (Err(a), Err(b)) => assert_eq!(a.message(), b.message()),
        other => panic!("wrong results: {:?}", other),
    }
    assert_eq!(printed("var x; print (x = 2); print x;"), vec!["2", "2"]);
}

#[test]
fn unary_operators() {
    assert_eq!(number("-2;"), -2.0);
    assert!(!boolean("!true;"));
    assert!(boolean("!false;"));
    assert!(boolean("!!true;"));
    match evaluate("-true;") {
        Err(RuntimeError::NotANumber { line, column }) => assert_eq!((line, column), (1, 0)),
        other => panic!("wrong result: {:?}", other),
    }
    match evaluate("!1;") {
        Err(RuntimeError::NotABoolean { line, column }) => assert_eq!((line, column), (1, 0)),
        other => panic!("wrong result: {:?}", other),
    }
    match evaluate("!null;") {
        Err(e) => assert_eq!(e.message(), "Not a boolean"),
        other => panic!("wrong result: {:?}", other),
    }
    match evaluate("-\"a\";") {
        Err(e) => assert_eq!(e.message(), "NaN"),
        other => panic!("wrong result: {:?}", other),
    }
}

#[test]
fn relations() {
    assert!(boolean("1 < 2;"));
    assert!(!boolean("2 < 2;"));
    assert!(boolean("2 <= 2;"));
    assert!(!boolean("3 <= 2;"));
    assert!(boolean("3 > 2;"));
    assert!(!boolean("2 > 2;"));
    assert!(boolean("2 >= 2;"));
    assert!(!boolean("1 >= 2;"));
    assert!(boolean("-1 < 0;"));
    assert!(boolean("-2 < -1;"));
    assert!(!boolean("0 < -0;"));
    assert!(boolean("0 <= -0;"));
    assert!(boolean("0.5 < 0.75;"));
}

#[test]
fn equality() {
    assert!(boolean("1 == 1;"));
    assert!(!boolean("1 == 2;"));
    assert!(boolean("0.1 + 0.2 == 0.3;"));
    assert!(!boolean("1 == 1.000001;"));
    assert!(boolean("\"a\" == \"a\";"));
    assert!(!boolean("\"a\" == \"b\";"));
    assert!(boolean("true == true;"));
    assert!(!boolean("true == false;"));
    assert!(boolean("null == null;"));
    assert!(!boolean("1 == \"1\";"));
    assert!(!boolean("null == false;"));
}

#[test]
fn inequality_computes_the_same_boolean_as_equality() {
    assert!(boolean("1 != 1;"));
    assert!(!boolean("1 != 2;"));
    assert!(boolean("\"a\" != \"a\";"));
    assert!(!boolean("1 != \"1\";"));
}

#[test]
fn printing() {
    assert_eq!(
        printed("print 1.5; print \"text\"; print true; print false; print null; print 3;"),
        vec!["1.5", "text", "true", "false", "null", "3"]
    );
}

#[test]
fn expression_statements_print_nothing() {
    assert_eq!(printed("1 + 2; \"a\"; true;"), Vec::<String>::new());
}

#[test]
fn a_run_waits_for_the_first_missing_answer() {
    let stmts = program("print 2 * 3;");
    let run = interpret(&stmts, &vec![]);
    match run.result {
        Err(Stop::Waiting(Request::Convert(Numeral::Integer(2)))) => {}
        other => panic!("wrong result: {:?}", other),
    }
    let two = 2f64.to_bits();
    let three = 3f64.to_bits();
    let run = interpret(&stmts, &vec![two]);
    match run.result {
        Err(Stop::Waiting(Request::Convert(Numeral::Integer(3)))) => {}
        other => panic!("wrong result: {:?}", other),
    }
    let run = interpret(&stmts, &vec![two, three]);
    match run.result {
        Err(Stop::Waiting(Request::Compute(BinOpType::Mult, a, b))) => {
            assert_eq!((a, b), (two, three))
        }
        other => panic!("wrong result: {:?}", other),
    }
    assert!(run.output.is_empty());
    let run = interpret(&stmts, &vec![two, three, 6f64.to_bits()]);
    assert!(run.result.is_ok());
    assert_eq!(lines(&run.output), vec!["6"]);
    let run = interpret(&stmts, &vec![two, three, 6f64.to_bits(), 0]);
    assert!(run.result.is_ok());
    assert_eq!(lines(&run.output), vec!["6"]);
}

#[test]
fn an_interpreter_keeps_its_variables() {
    let answers = vec![1f64.to_bits()];
    let mut interpreter = Interpreter::new(&answers);
    assert!(interpreter.interpret(&program("var x = 1;")).is_ok());
    match interpreter.interpret_expr(&Expr::Variable(Symbol {
        name: "x".to_string(),
        line: 1,
        column: 0,
    })) {
        Ok(Value::Number(bits)) => assert_eq!(f64::from_bits(bits), 1.0),
        other => panic!("wrong result: {:?}", other),
    }
    assert!(interpreter.execute(&Stmt::Expression(Expr::Literal(Literal::Null))).is_ok());
}

#[test]
fn environment() {
    let x = || Symbol { name: "x".to_string(), line: 1, column: 0 };
    let mut env = Environment::default();
    assert!(env.get(&"x".to_string()).is_err());
    assert!(env.assign(x(), &Value::Null).is_err());
    env.define(x(), None);
    assert!(env.get(&"x".to_string()).is_err());
    assert!(env.assign(x(), &Value::Bool(true)).is_ok());
    match env.get(&"x".to_string()) {
        Ok(Value::Bool(true)) => {}
        other => panic!("wrong result: {:?}", other),
    }
    env.define(x(), Some(Value::String("s".to_string())));
    match env.get(&"x".to_string()) {
        Ok(Value::String(s)) => assert_eq!(s, "s"),
        other => panic!("wrong result: {:?}", other),
    }
}

#[test]
fn equals_reads_the_gap_of_numbers_only() {
    let one = Value::Number(1f64.to_bits());
    assert!(Interpreter::equals(&one, &one, 0f64.to_bits()));
    assert!(Interpreter::equals(&one, &one, (-1e-17f64).to_bits()));
    assert!(!Interpreter::equals(&one, &one, f64::EPSILON.to_bits()));
    assert!(!Interpreter::equals(&one, &one, f64::NAN.to_bits()));
    assert!(Interpreter::equals(&Value::Null, &Value::Null, f64::NAN.to_bits()));
    assert!(!Interpreter::equals(&Value::Null, &one, 0));
}
