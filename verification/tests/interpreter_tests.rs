use scriptlang::interpreter::{
    clone_variable, clone_variables, evaluate, interpret, Function, RuntimeError, Value, Variable,
    MAX_CALL_DEPTH,
};
use scriptlang::lexer::tokenizer;
use scriptlang::parser::{clone_node, clone_nodes, parse, Comparator, Node, Operator};

fn text(s: &str) -> Node {
    Node::String(s.to_string())
}

fn print_node(s: &str) -> Node {
    Node::FunctionCall { name: "print".to_string(), args: vec![text(s)] }
}

fn call(name: &str) -> Node {
    Node::FunctionCall { name: name.to_string(), args: vec![] }
}

fn binary(op: Operator, a: i64, b: i64) -> Node {
    Node::BinaryExpr { op, lhs: Box::new(Node::Int(a)), rhs: Box::new(Node::Int(b)) }
}

fn int_var(name: &str, num: i64) -> Variable {
    Variable::Int { name: name.to_string(), num }
}

fn str_var(name: &str, value: &str) -> Variable {
    Variable::String { name: name.to_string(), str: value.to_string() }
}

struct Run {
    result: Result<(), RuntimeError>,
    variables: Vec<Variable>,
    functions: Vec<Function>,
    output: Vec<String>,
}

fn run(nodes: Vec<Node>) -> Run {
    let mut variables: Vec<Variable> = Vec::new();
    let mut functions: Vec<Function> = Vec::new();
    let mut output: Vec<String> = Vec::new();
    let result = interpret(nodes, &mut variables, &mut functions, &mut output);
    Run { result, variables, functions, output }
}

fn run_source(source: &str) -> Run {
    run(parse(tokenizer(source.to_string())).unwrap())
}

fn fails_with(run: &Run, message: &str) -> bool {
    run.result == Err(RuntimeError::new(message.to_string()))
}

#[test]
fn test_print() {
    let tokens = tokenizer("print(\"abc\")".to_string());

    let instructions = parse(tokens).unwrap();

    let mut variables: Vec<Variable> = Vec::new();
    let mut functions: Vec<Function> = Vec::new();
    let mut output: Vec<String> = Vec::new();
    interpret(instructions, &mut variables, &mut functions, &mut output).unwrap();
    assert_eq!(output, vec!["abc".to_string()]);
}

#[test]
fn runtime_error_new_keeps_the_message() {
    assert_eq!(RuntimeError::new("boom".to_string()).message, "boom");
}

#[test]
fn arithmetic_statement_has_no_effect() {
    let ran = run_source("3+4;");
    assert_eq!(ran.result, Ok(()));
    assert!(ran.output.is_empty());
    assert!(ran.variables.is_empty());
    assert!(ran.functions.is_empty());
}

#[test]
fn literal_statements_have_no_effect() {
    let ran = run(vec![
        Node::Int(1),
        text("s"),
        Node::Bool(true),
        Node::UnaryExpr { op: Operator::Divide, child: Box::new(text("x")) },
        binary(Operator::Divide, 1, 0),
        Node::CombineStr { lhs: Box::new(Node::Int(1)), rhs: Box::new(Node::Int(2)) },
    ]);
    assert_eq!(ran.result, Ok(()));
    assert!(ran.output.is_empty());
}

#[test]
fn repeat_prints_three_times() {
    let ran = run_source("repeat(3) { print(\"x\") }");
    assert_eq!(ran.result, Ok(()));
    assert_eq!(ran.output, vec!["x".to_string(), "x".to_string(), "x".to_string()]);
}

#[test]
fn repeat_with_count_zero_or_less_does_nothing() {
    let ran = run(vec![
        Node::Repeat { count: 0, body: vec![print_node("never")] },
        Node::Repeat { count: -4, body: vec![print_node("never")] },
        Node::Repeat { count: i64::MIN, body: vec![call("missing")] },
    ]);
    assert_eq!(ran.result, Ok(()));
    assert!(ran.output.is_empty());
}

#[test]
fn repeat_stops_at_the_first_failure() {
    let ran = run(vec![
        Node::Repeat { count: 5, body: vec![print_node("once"), call("missing"), print_node("no")] },
        print_node("after"),
    ]);
    assert!(fails_with(&ran, "Function not found"));
    assert_eq!(ran.output, vec!["once".to_string()]);
}

#[test]
fn nested_repeat_runs_in_order() {
    let ran = run_source("repeat(2) { print(\"a\") repeat(2) { print(\"b\") } }");
    assert_eq!(ran.output, vec!["a", "b", "b", "a", "b", "b"]);
}

#[test]
fn eof_ends_the_pass() {
    let ran = run(vec![print_node("one"), Node::Eof, print_node("two")]);
    assert_eq!(ran.result, Ok(()));
    assert_eq!(ran.output, vec!["one".to_string()]);
    let nested = run(vec![
        Node::Repeat { count: 2, body: vec![print_node("in"), Node::Eof, print_node("skipped")] },
        print_node("out"),
    ]);
    assert_eq!(nested.output, vec!["in", "in", "out"]);
}

#[test]
fn set_variable_records_and_overwrites() {
    let ran = run_source("\"a\" = \"1\"; \"b\" = \"2\"; \"a\" = \"3\";");
    assert_eq!(ran.result, Ok(()));
    assert_eq!(ran.variables, vec![str_var("a", "3"), str_var("b", "2")]);
}

#[test]
fn set_variable_evaluates_its_value() {
    let ran = run(vec![
        Node::SetVariable { name: "n".to_string(), value: Box::new(binary(Operator::Multiply, 6, 7)) },
        Node::SetVariable {
            name: "s".to_string(),
            value: Box::new(Node::CombineStr { lhs: Box::new(text("ab")), rhs: Box::new(text("cd")) }),
        },
    ]);
    assert_eq!(ran.result, Ok(()));
    assert_eq!(ran.variables, vec![int_var("n", 42), str_var("s", "abcd")]);
}

#[test]
fn set_variable_rejects_a_boolean_and_a_failing_value() {
    let ran = run(vec![Node::SetVariable { name: "b".to_string(), value: Box::new(Node::Bool(true)) }]);
    assert!(fails_with(&ran, "That cannot be stored as a variable"));
    assert!(ran.variables.is_empty());
    let bad = run(vec![Node::SetVariable {
        name: "b".to_string(),
        value: Box::new(binary(Operator::Divide, 1, 0)),
    }]);
    assert!(fails_with(&bad, "Division by zero"));
    let none = run(vec![Node::SetVariable { name: "b".to_string(), value: Box::new(Node::Eof) }]);
    assert!(fails_with(&none, "Expected an expression"));
}

#[test]
fn store_replaces_the_first_of_its_name() {
    let mut variables = vec![int_var("x", 1), str_var("y", "old"), int_var("x", 2)];
    Variable::store(&mut variables, str_var("x", "new"));
    assert_eq!(variables, vec![str_var("x", "new"), str_var("y", "old"), int_var("x", 2)]);
    Variable::store(&mut variables, int_var("z", 9));
    assert_eq!(variables.len(), 4);
    assert_eq!(variables[3], int_var("z", 9));
    Variable::store(&mut variables, Variable::Null);
    assert_eq!(variables.len(), 4);
}

#[test]
fn get_variable_returns_the_first_match() {
    let variables = vec![int_var("x", 1), str_var("y", "s"), int_var("x", 2)];
    assert_eq!(Variable::get_variable(clone_variables(&variables), "x".to_string()), Ok(int_var("x", 1)));
    assert_eq!(
        Variable::get_variable(clone_variables(&variables), "y".to_string()),
        Ok(str_var("y", "s"))
    );
    assert_eq!(Variable::get_variable(variables, "z".to_string()), Ok(Variable::Null));
    assert_eq!(Variable::get_variable(Vec::new(), "x".to_string()), Ok(Variable::Null));
}

#[test]
fn get_variable_fails_on_a_stored_null() {
    let message = "Null variable has been saved to variable storage";
    for variables in [
        vec![Variable::Null],
        vec![Variable::Null, int_var("x", 1)],
        vec![int_var("x", 1), Variable::Null],
    ] {
        assert_eq!(
            Variable::get_variable(variables, "x".to_string()),
            Err(RuntimeError::new(message.to_string()))
        );
    }
}

#[test]
fn lookups_after_assignments_never_give_a_stored_null() {
    let ran = run_source("\"a\" = \"1\"; \"b\" = \"2\"; \"a\" = \"3\"; \"c\" = \"4\";");
    for name in ["a", "b", "c"] {
        let found = Variable::get_variable(clone_variables(&ran.variables), name.to_string()).unwrap();
        assert_ne!(found, Variable::Null);
    }
    assert_eq!(
        Variable::get_variable(clone_variables(&ran.variables), "a".to_string()),
        Ok(str_var("a", "3"))
    );
    assert_eq!(Variable::get_variable(ran.variables, "d".to_string()), Ok(Variable::Null));
}

#[test]
fn function_not_found() {
    let ran = run(vec![call("missing")]);
    assert!(fails_with(&ran, "Function not found"));
    let mut functions: Vec<Function> = Vec::new();
    let mut output: Vec<String> = Vec::new();
    let result = Function::run_function(&mut functions, "missing".to_string(), &mut output);
    assert_eq!(result.unwrap_err().message.to_lowercase(), "function not found");
    Function::create_function(&mut functions, "other".to_string(), vec![], vec![]);
    assert_eq!(
        Function::run_function(&mut functions, "missing".to_string(), &mut output),
        Err(RuntimeError::new("Function not found".to_string()))
    );
    assert_eq!(
        Function::run_function(&mut functions, "null".to_string(), &mut output),
        Err(RuntimeError::new("Function not found".to_string()))
    );
    assert!(output.is_empty());
    assert_eq!(functions.len(), 1);
}

#[test]
fn function_lookup() {
    let functions = || {
        vec![
            Function::new("f".to_string(), vec![Node::Int(1)], vec![]),
            Function::new("g".to_string(), vec![], vec![int_var("p", 1)]),
            Function::new("f".to_string(), vec![Node::Int(2)], vec![]),
        ]
    };
    assert_eq!(
        Function::get_function(functions(), "f".to_string()),
        Function::new("f".to_string(), vec![Node::Int(1)], vec![])
    );
    assert_eq!(
        Function::get_function(functions(), "g".to_string()),
        Function::new("g".to_string(), vec![], vec![int_var("p", 1)])
    );
    assert_eq!(Function::get_function(functions(), "h".to_string()), Function::null());
    assert_eq!(Function::null(), Function::new("null".to_string(), vec![], vec![]));
}

#[test]
fn create_function_registers_and_overwrites() {
    let mut functions: Vec<Function> = Vec::new();
    Function::create_function(&mut functions, "f".to_string(), vec![Node::Int(1)], vec![]);
    Function::create_function(&mut functions, "g".to_string(), vec![], vec![]);
    Function::create_function(&mut functions, "f".to_string(), vec![Node::Int(2)], vec![int_var("a", 1)]);
    assert_eq!(
        functions,
        vec![
            Function::new("f".to_string(), vec![Node::Int(2)], vec![int_var("a", 1)]),
            Function::new("g".to_string(), vec![], vec![]),
        ]
    );
}

#[test]
fn defined_function_runs_with_its_parameters() {
    let ran = run(vec![
        Node::SetVariable { name: "mine".to_string(), value: Box::new(text("kept")) },
        Node::FunctionDefinition {
            name: "f".to_string(),
            body: vec![
                print_node("in f"),
                Node::SetVariable { name: "local".to_string(), value: Box::new(Node::Int(1)) },
                Node::FunctionDefinition { name: "inner".to_string(), body: vec![], params: vec![] },
            ],
            params: vec![int_var("p", 5)],
        },
        call("f"),
        call("inner"),
        print_node("done"),
    ]);
    assert_eq!(ran.result, Ok(()));
    assert_eq!(ran.output, vec!["in f", "done"]);
    assert_eq!(ran.variables, vec![str_var("mine", "kept")]);
    assert_eq!(ran.functions.len(), 2);
    assert_eq!(ran.functions[1], Function::new("inner".to_string(), vec![], vec![]));
}

#[test]
fn run_function_counts_calls_as_a_program_does() {
    let mut functions: Vec<Function> = Vec::new();
    let mut output: Vec<String> = Vec::new();
    Function::create_function(
        &mut functions,
        "loop".to_string(),
        vec![print_node("x"), call("loop")],
        vec![],
    );
    let result = Function::run_function(&mut functions, "loop".to_string(), &mut output);
    assert_eq!(result, Err(RuntimeError::new("Call depth limit exceeded".to_string())));
    assert_eq!(output.len() as u64, MAX_CALL_DEPTH);
}

#[test]
fn run_function_runs_the_body() {
    let mut functions: Vec<Function> = Vec::new();
    let mut output: Vec<String> = Vec::new();
    Function::create_function(
        &mut functions,
        "hello".to_string(),
        vec![print_node("hi"), call("missing"), print_node("no")],
        vec![],
    );
    let result = Function::run_function(&mut functions, "hello".to_string(), &mut output);
    assert_eq!(result, Err(RuntimeError::new("Function not found".to_string())));
    assert_eq!(output, vec!["hi".to_string()]);
}

#[test]
fn defining_null_is_refused() {
    let ran = run(vec![Node::FunctionDefinition { name: "null".to_string(), body: vec![], params: vec![] }]);
    assert!(fails_with(&ran, "null is a reserved function name"));
    assert!(ran.functions.is_empty());
}

#[test]
fn endless_recursion_is_stopped() {
    let ran = run(vec![
        Node::FunctionDefinition {
            name: "loop".to_string(),
            body: vec![print_node("x"), call("loop")],
            params: vec![],
        },
        call("loop"),
    ]);
    assert!(fails_with(&ran, "Call depth limit exceeded"));
    assert_eq!(ran.output.len() as u64, MAX_CALL_DEPTH);
}

#[test]
fn print_needs_one_string() {
    assert!(fails_with(&run(vec![call("print")]), "print expects one string argument"));
    let number =
        run(vec![Node::FunctionCall { name: "print".to_string(), args: vec![Node::Int(1)] }]);
    assert!(fails_with(&number, "print expects one string argument"));
    let two = run(vec![Node::FunctionCall {
        name: "print".to_string(),
        args: vec![text("a"), text("b")],
    }]);
    assert!(fails_with(&two, "print expects one string argument"));
    let joined = run(vec![Node::FunctionCall {
        name: "print".to_string(),
        args: vec![Node::CombineStr { lhs: Box::new(text("ab")), rhs: Box::new(text("cd")) }],
    }]);
    assert_eq!(joined.output, vec!["abcd".to_string()]);
    let failing = run(vec![Node::FunctionCall {
        name: "print".to_string(),
        args: vec![Node::CombineStr { lhs: Box::new(text("ab")), rhs: Box::new(Node::Int(1)) }],
    }]);
    assert!(fails_with(&failing, "Type mismatch in concatenation"));
}

#[test]
fn lone_else_fails() {
    let ran = run(vec![print_node("before"), Node::Else { body: vec![] }, print_node("after")]);
    assert!(fails_with(&ran, "Else node found in unexpected location"));
    assert_eq!(ran.output, vec!["before".to_string()]);
    let after_plain_if = run(vec![
        Node::IfUnaryCompare { expected_bool: true, actual: Box::new(Node::Bool(true)), body: vec![] },
        Node::Else { body: vec![] },
    ]);
    assert!(fails_with(&after_plain_if, "Else node found in unexpected location"));
}

#[test]
fn conditional_without_its_else_fails() {
    let ran = run(vec![Node::IfElseUnaryCompare {
        expected_bool: true,
        actual: Box::new(Node::Bool(true)),
        body: vec![print_node("x")],
    }]);
    assert!(fails_with(&ran, "Else block missing after conditional"));
    assert!(ran.output.is_empty());
}

#[test]
fn unary_conditionals() {
    let ran = run_source(
        "if (true) { print(\"a\") } if (false) { print(\"b\") } if (false) { print(\"c\") } else { print(\"d\") } if (true) { print(\"e\") } else { print(\"f\") } print(\"g\")",
    );
    assert_eq!(ran.result, Ok(()));
    assert_eq!(ran.output, vec!["a", "d", "e", "g"]);
    let expected_false = run(vec![Node::IfUnaryCompare {
        expected_bool: false,
        actual: Box::new(Node::Bool(false)),
        body: vec![print_node("yes")],
    }]);
    assert_eq!(expected_false.output, vec!["yes".to_string()]);
    let not_boolean = run(vec![Node::IfUnaryCompare {
        expected_bool: true,
        actual: Box::new(Node::Int(1)),
        body: vec![],
    }]);
    assert!(fails_with(&not_boolean, "Guard is not a boolean"));
}

fn holds(comparator: Comparator, lhs: Node, rhs: Node) -> Result<bool, RuntimeError> {
    let ran = run(vec![
        Node::IfElseBinaryCompare {
            comparator,
            lhs: Box::new(lhs),
            rhs: Box::new(rhs),
            body: vec![print_node("yes")],
        },
        Node::Else { body: vec![print_node("no")] },
    ]);
    ran.result.map(|_| ran.output == vec!["yes".to_string()])
}

#[test]
fn binary_conditionals_on_integers() {
    for (comparator, less, same, more) in [
        (Comparator::Equal, false, true, false),
        (Comparator::NotEqual, true, false, true),
        (Comparator::More, false, false, true),
        (Comparator::Less, true, false, false),
        (Comparator::EqualMore, false, true, true),
        (Comparator::EqualLess, true, true, false),
    ] {
        assert_eq!(holds(comparator, Node::Int(-1), Node::Int(2)), Ok(less));
        assert_eq!(holds(comparator, Node::Int(2), Node::Int(2)), Ok(same));
        assert_eq!(holds(comparator, Node::Int(3), Node::Int(2)), Ok(more));
    }
    assert_eq!(holds(Comparator::Equal, binary(Operator::Plus, 3, 4), Node::Int(7)), Ok(true));
}

#[test]
fn binary_conditionals_on_strings_and_booleans() {
    let mismatch = Err(RuntimeError::new("Type mismatch in comparison".to_string()));
    assert_eq!(holds(Comparator::Equal, text("a"), text("a")), Ok(true));
    assert_eq!(holds(Comparator::Equal, text("a"), text("b")), Ok(false));
    assert_eq!(holds(Comparator::NotEqual, text("a"), text("b")), Ok(true));
    assert_eq!(holds(Comparator::Less, text("a"), text("b")), mismatch);
    assert_eq!(holds(Comparator::Equal, Node::Bool(true), Node::Bool(true)), Ok(true));
    assert_eq!(holds(Comparator::NotEqual, Node::Bool(true), Node::Bool(true)), Ok(false));
    assert_eq!(holds(Comparator::EqualMore, Node::Bool(true), Node::Bool(true)), mismatch);
    assert_eq!(holds(Comparator::Equal, Node::Int(1), text("1")), mismatch);
    assert_eq!(holds(Comparator::Equal, Node::Bool(true), Node::Int(1)), mismatch);
    assert_eq!(
        holds(Comparator::Equal, binary(Operator::Divide, 1, 0), text("1")),
        Err(RuntimeError::new("Division by zero".to_string()))
    );
}

#[test]
fn plain_binary_conditional() {
    let ran = run(vec![
        Node::IfBinaryCompare {
            comparator: Comparator::Less,
            lhs: Box::new(Node::Int(1)),
            rhs: Box::new(Node::Int(2)),
            body: vec![print_node("less")],
        },
        Node::IfBinaryCompare {
            comparator: Comparator::More,
            lhs: Box::new(Node::Int(1)),
            rhs: Box::new(Node::Int(2)),
            body: vec![print_node("more")],
        },
    ]);
    assert_eq!(ran.output, vec!["less".to_string()]);
}

fn value(node: Node) -> Result<Value, RuntimeError> {
    evaluate(&node)
}

fn error(message: &str) -> Result<Value, RuntimeError> {
    Err(RuntimeError::new(message.to_string()))
}

#[test]
fn evaluate_arithmetic() {
    assert_eq!(value(binary(Operator::Plus, 3, 4)), Ok(Value::Int(7)));
    assert_eq!(value(binary(Operator::Minus, 3, 4)), Ok(Value::Int(-1)));
    assert_eq!(value(binary(Operator::Multiply, 3, 4)), Ok(Value::Int(12)));
    assert_eq!(value(binary(Operator::Divide, 7, 2)), Ok(Value::Int(3)));
    assert_eq!(value(binary(Operator::Divide, -7, 2)), Ok(Value::Int(-3)));
    assert_eq!(value(binary(Operator::Divide, 7, -2)), Ok(Value::Int(-3)));
    assert_eq!(value(binary(Operator::Divide, -7, -2)), Ok(Value::Int(3)));
    assert_eq!(value(binary(Operator::Divide, 0, -2)), Ok(Value::Int(0)));
    assert_eq!(value(binary(Operator::Divide, 1, 0)), error("Division by zero"));
    assert_eq!(value(binary(Operator::Divide, i64::MIN, -1)), error("Arithmetic overflow"));
    assert_eq!(value(binary(Operator::Plus, i64::MAX, 1)), error("Arithmetic overflow"));
    assert_eq!(value(binary(Operator::Minus, i64::MIN, 1)), error("Arithmetic overflow"));
    assert_eq!(value(binary(Operator::Multiply, i64::MAX, 2)), error("Arithmetic overflow"));
    assert_eq!(value(binary(Operator::Plus, i64::MAX, 0)), Ok(Value::Int(i64::MAX)));
}

#[test]
fn evaluate_unary_and_nested() {
    let unary = |op, child| Node::UnaryExpr { op, child: Box::new(child) };
    assert_eq!(value(unary(Operator::Minus, Node::Int(5))), Ok(Value::Int(-5)));
    assert_eq!(value(unary(Operator::Plus, Node::Int(5))), Ok(Value::Int(5)));
    assert_eq!(value(unary(Operator::Minus, Node::Int(i64::MIN))), error("Arithmetic overflow"));
    assert_eq!(value(unary(Operator::Multiply, Node::Int(5))), error("Type mismatch in arithmetic"));
    assert_eq!(value(unary(Operator::Minus, text("5"))), error("Type mismatch in arithmetic"));
    let nested = Node::BinaryExpr {
        op: Operator::Multiply,
        lhs: Box::new(binary(Operator::Plus, 1, 2)),
        rhs: Box::new(unary(Operator::Minus, Node::Int(4))),
    };
    assert_eq!(value(nested), Ok(Value::Int(-12)));
    let left_first = Node::BinaryExpr {
        op: Operator::Plus,
        lhs: Box::new(binary(Operator::Divide, 1, 0)),
        rhs: Box::new(Node::Eof),
    };
    assert_eq!(value(left_first), error("Division by zero"));
    assert_eq!(
        value(Node::BinaryExpr {
            op: Operator::Plus,
            lhs: Box::new(Node::Int(1)),
            rhs: Box::new(Node::Bool(true))
        }),
        error("Type mismatch in arithmetic")
    );
}

#[test]
fn evaluate_literals_and_concatenation() {
    assert_eq!(value(Node::Int(3)), Ok(Value::Int(3)));
    assert_eq!(value(text("s")), Ok(Value::Str("s".to_string())));
    assert_eq!(value(Node::Bool(false)), Ok(Value::Bool(false)));
    assert_eq!(
        value(Node::CombineStr { lhs: Box::new(text("ab")), rhs: Box::new(text("cd")) }),
        Ok(Value::Str("abcd".to_string()))
    );
    assert_eq!(
        value(Node::CombineStr { lhs: Box::new(text("ab")), rhs: Box::new(Node::Int(1)) }),
        error("Type mismatch in concatenation")
    );
    assert_eq!(value(Node::Eof), error("Expected an expression"));
    assert_eq!(value(Node::Repeat { count: 1, body: vec![] }), error("Expected an expression"));
}

#[test]
fn copies_are_equal() {
    let node = Node::FunctionDefinition {
        name: "f".to_string(),
        body: vec![
            Node::Repeat { count: 2, body: vec![print_node("x"), binary(Operator::Plus, 1, 2)] },
            Node::IfElseBinaryCompare {
                comparator: Comparator::Less,
                lhs: Box::new(Node::Int(1)),
                rhs: Box::new(text("t")),
                body: vec![Node::Bool(true)],
            },
            Node::Else { body: vec![Node::Eof] },
        ],
        params: vec![int_var("a", 1), str_var("b", "c"), Variable::Null],
    };
    assert_eq!(clone_node(&node), node);
    let block = vec![clone_node(&node), Node::Int(4)];
    assert_eq!(clone_nodes(&block), block);
    assert_eq!(clone_variable(&str_var("b", "c")), str_var("b", "c"));
}

#[test]
fn interpret_threads_the_callers_collections() {
    let mut variables = vec![int_var("x", 1)];
    let mut functions = vec![Function::new("f".to_string(), vec![print_node("f")], vec![])];
    let mut output = vec!["earlier".to_string()];
    let program = vec![
        Node::SetVariable { name: "x".to_string(), value: Box::new(Node::Int(2)) },
        call("f"),
        Node::Eof,
    ];
    assert_eq!(interpret(program, &mut variables, &mut functions, &mut output), Ok(()));
    assert_eq!(variables, vec![int_var("x", 2)]);
    assert_eq!(functions.len(), 1);
    assert_eq!(output, vec!["earlier", "f"]);
}
