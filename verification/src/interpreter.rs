//! The tree-walking interpreter: variables, functions and execution.

use vstd::prelude::*;
use crate::lexer::reads;
use crate::parser::{
    Comparator, Node, Operator, SpecNode, clone_nodes, nodes_view, takes_else,
};

verus! {

/// A named value held in a variable environment. `Null` stands for "absent" and is
/// never a stored value.
#[derive(Debug, PartialEq)]
pub enum Variable {
    Int { name: String, num: i64 },
    String { name: String, str: String },
    Null,
}

/// The mathematical value of a [`Variable`].
pub enum SpecVariable {
    Int { name: Seq<char>, num: i64 },
    String { name: Seq<char>, str: Seq<char> },
    Null,
}

impl View for Variable {
    type V = SpecVariable;

    open spec fn view(&self) -> SpecVariable {
        match self {
            Variable::Int { name, num } => SpecVariable::Int { name: name@, num: *num },
            Variable::String { name, str } => SpecVariable::String { name: name@, str: str@ },
            Variable::Null => SpecVariable::Null,
        }
    }
}

impl Clone for Variable {
    fn clone(&self) -> (copy: Self)
        ensures
            copy@ == self@,
    {
        clone_variable(self)
    }
}

/// The view of a variable environment, entry by entry.
pub open spec fn variables_view(variables: Seq<Variable>) -> Seq<SpecVariable> {
    variables.map_values(|v: Variable| v@)
}

/// A failure while a program runs.
#[derive(Debug, PartialEq)]
pub struct RuntimeError {
    pub message: String,
}

/// The mathematical value of a [`RuntimeError`].
pub struct SpecRuntimeError {
    pub message: Seq<char>,
}

impl View for RuntimeError {
    type V = SpecRuntimeError;

    open spec fn view(&self) -> SpecRuntimeError {
        SpecRuntimeError { message: self.message@ }
    }
}

impl RuntimeError {
    /// The failure with `message`.
    pub fn new(message: String) -> (error: Self)
        ensures
            error.message == message,
    {
        RuntimeError { message }
    }
}

fn runtime_error(message: &str) -> (error: RuntimeError)
    ensures
        error@.message == message@,
{
    RuntimeError::new(message.to_owned())
}

/// The name that a variable is stored under; the `Null` marker has none.
pub open spec fn name_of(variable: SpecVariable) -> Option<Seq<char>> {
    match variable {
        SpecVariable::Int { name, .. } => Some(name),
        SpecVariable::String { name, .. } => Some(name),
        SpecVariable::Null => None,
    }
}

/// The position of the first variable called `name` at or after `from`, or the length
/// of the environment where there is none.
pub open spec fn variable_position(variables: Seq<SpecVariable>, name: Seq<char>, from: int) -> int
    decreases variables.len() - from,
{
    if from < 0 || from >= variables.len() {
        variables.len() as int
    } else if name_of(variables[from]) == Some(name) {
        from
    } else {
        variable_position(variables, name, from + 1)
    }
}

/// Whether the `Null` marker stands somewhere in the environment.
pub open spec fn has_null(variables: Seq<SpecVariable>) -> bool {
    exists|i: int| 0 <= i < variables.len() && #[trigger] variables[i] is Null
}

/// What a lookup of `name` gives: an error where the `Null` marker is stored, else the
/// first variable of that name, else the `Null` marker for "absent".
pub open spec fn get_variable_spec(
    variables: Seq<SpecVariable>,
    name: Seq<char>,
) -> Result<SpecVariable, SpecRuntimeError> {
    if has_null(variables) {
        Err(SpecRuntimeError { message: "Null variable has been saved to variable storage"@ })
    } else {
        let at = variable_position(variables, name, 0);
        if at < variables.len() {
            Ok(variables[at])
        } else {
            Ok(SpecVariable::Null)
        }
    }
}

/// The environment after `variable` is recorded: it takes the place of the first
/// variable of its name, or comes last where there is none. The `Null` marker is
/// never recorded.
pub open spec fn store_spec(
    variables: Seq<SpecVariable>,
    variable: SpecVariable,
) -> Seq<SpecVariable> {
    match name_of(variable) {
        Some(name) => {
            let at = variable_position(variables, name, 0);
            if at < variables.len() {
                variables.update(at, variable)
            } else {
                variables.push(variable)
            }
        },
        None => variables,
    }
}

/// The position found is inside the environment or at its end, nothing before it has
/// the name, and what stands there has it.
pub proof fn lemma_variable_position(variables: Seq<SpecVariable>, name: Seq<char>, from: int)
    requires
        0 <= from <= variables.len(),
    ensures
        from <= variable_position(variables, name, from) <= variables.len(),
        forall|i: int|
            from <= i < variable_position(variables, name, from) ==> name_of(
                #[trigger] variables[i],
            ) != Some(name),
        variable_position(variables, name, from) < variables.len() ==> name_of(
            variables[variable_position(variables, name, from)],
        ) == Some(name),
    decreases variables.len() - from,
{
    if from < variables.len() && name_of(variables[from]) != Some(name) {
        lemma_variable_position(variables, name, from + 1);
    }
}

/// A copy of `variable` with the same view.
pub fn clone_variable(variable: &Variable) -> (copy: Variable)
    ensures
        copy@ == variable@,
{
    match variable {
        Variable::Int { name, num } => Variable::Int { name: name.clone(), num: *num },
        Variable::String { name, str } => Variable::String { name: name.clone(), str: str.clone() },
        Variable::Null => Variable::Null,
    }
}

/// A copy of an environment with the same view.
pub fn clone_variables(variables: &Vec<Variable>) -> (copy: Vec<Variable>)
    ensures
        variables_view(copy@) == variables_view(variables@),
{
    let mut copy: Vec<Variable> = Vec::new();
    let mut i: usize = 0;
    while i < variables.len()
        invariant
            i <= variables.len(),
            copy.len() == i,
            forall|j: int| 0 <= j < i ==> copy@[j]@ == variables@[j]@,
        decreases variables.len() - i,
    {
        copy.push(clone_variable(&variables[i]));
        i = i + 1;
    }
    assert(variables_view(copy@) =~= variables_view(variables@));
    copy
}

/// Whether the variable is called `name`.
fn is_called(variable: &Variable, name: &String) -> (called: bool)
    ensures
        called == (name_of(variable@) == Some(name@)),
{
    match variable {
        Variable::Int { name: own, .. } => *own == *name,
        Variable::String { name: own, .. } => *own == *name,
        Variable::Null => false,
    }
}

/// The position of the first variable called `name`, or the length of the
/// environment.
fn find_variable(variables: &Vec<Variable>, name: &String) -> (at: usize)
    ensures
        at == variable_position(variables_view(variables@), name@, 0),
        at <= variables.len(),
{
    let mut at: usize = 0;
    while at < variables.len() && !is_called(&variables[at], name)
        invariant
            at <= variables.len(),
            variable_position(variables_view(variables@), name@, at as int) == variable_position(
                variables_view(variables@),
                name@,
                0,
            ),
        decreases variables.len() - at,
    {
        at = at + 1;
    }
    at
}

fn contains_null(variables: &Vec<Variable>) -> (found: bool)
    ensures
        found == has_null(variables_view(variables@)),
{
    let mut i: usize = 0;
    while i < variables.len()
        invariant
            i <= variables.len(),
            forall|j: int| 0 <= j < i ==> !(#[trigger] variables_view(variables@)[j] is Null),
        decreases variables.len() - i,
    {
        if let Variable::Null = &variables[i] {
            assert(variables_view(variables@)[i as int] is Null);
            return true;
        }
        i = i + 1;
    }
    false
}

impl Variable {
    /// Looks `find_name` up. The `Null` marker anywhere in the environment is an error;
    /// otherwise the first variable of that name is returned, or the `Null` marker
    /// where there is none.
    pub fn get_variable(
        variables: Vec<Variable>,
        find_name: String,
    ) -> (result: Result<Variable, RuntimeError>)
        ensures
            match result {
                Ok(variable) => get_variable_spec(variables_view(variables@), find_name@) == Ok::<
                    _,
                    SpecRuntimeError,
                >(variable@),
                Err(error) => get_variable_spec(variables_view(variables@), find_name@) == Err::<
                    SpecVariable,
                    _,
                >(error@),
            },
    {
        if contains_null(&variables) {
            return Err(runtime_error("Null variable has been saved to variable storage"));
        }
        let at = find_variable(&variables, &find_name);
        if at < variables.len() {
            Ok(clone_variable(&variables[at]))
        } else {
            Ok(Variable::Null)
        }
    }

    /// Records `variable`: it takes the place of the first variable of its name, or
    /// comes last where there is none. The `Null` marker is not recorded.
    pub fn store(variables: &mut Vec<Variable>, variable: Variable)
        ensures
            variables_view(final(variables)@) == store_spec(variables_view(old(variables)@), variable@),
    {
        let at = match &variable {
            Variable::Int { name, .. } => find_variable(variables, name),
            Variable::String { name, .. } => find_variable(variables, name),
            Variable::Null => {
                return ;
            },
        };
        if at < variables.len() {
            variables.set(at, variable);
            assert(variables_view(variables@) =~= variables_view(old(variables)@).update(
                at as int,
                variable@,
            ));
        } else {
            variables.push(variable);
            assert(variables_view(variables@) =~= variables_view(old(variables)@).push(variable@));
        }
    }
}

/// A user-defined function: its name, its body, and the variables that the body
/// starts with. The name `"null"` marks "not found" and is no function's name.
#[derive(Debug, PartialEq)]
pub struct Function {
    pub name: String,
    pub body: Vec<Node>,
    pub parameters: Vec<Variable>,
}

/// The mathematical value of a [`Function`].
pub struct SpecFunction {
    pub name: Seq<char>,
    pub body: Seq<SpecNode>,
    pub parameters: Seq<SpecVariable>,
}

impl View for Function {
    type V = SpecFunction;

    open spec fn view(&self) -> SpecFunction {
        SpecFunction {
            name: self.name@,
            body: nodes_view(self.body@),
            parameters: variables_view(self.parameters@),
        }
    }
}

impl Clone for Function {
    fn clone(&self) -> (copy: Self)
        ensures
            copy@ == self@,
    {
        Function {
            name: self.name.clone(),
            body: clone_nodes(&self.body),
            parameters: clone_variables(&self.parameters),
        }
    }
}

/// The view of a function table, entry by entry.
pub open spec fn functions_view(functions: Seq<Function>) -> Seq<SpecFunction> {
    functions.map_values(|f: Function| f@)
}

/// The marker for "not found": the function called `"null"`, with nothing in it.
pub open spec fn null_function() -> SpecFunction {
    SpecFunction { name: "null"@, body: Seq::empty(), parameters: Seq::empty() }
}

/// The position of the first function called `name` at or after `from`, or the length
/// of the table where there is none.
pub open spec fn function_position(functions: Seq<SpecFunction>, name: Seq<char>, from: int) -> int
    decreases functions.len() - from,
{
    if from < 0 || from >= functions.len() {
        functions.len() as int
    } else if functions[from].name == name {
        from
    } else {
        function_position(functions, name, from + 1)
    }
}

/// The first function called `name`, or the marker for "not found".
pub open spec fn get_function_spec(functions: Seq<SpecFunction>, name: Seq<char>) -> SpecFunction {
    let at = function_position(functions, name, 0);
    if at < functions.len() {
        functions[at]
    } else {
        null_function()
    }
}

/// The table after `function` is registered: it takes the place of the first function
/// of its name, or comes last where there is none.
pub open spec fn define_spec(
    functions: Seq<SpecFunction>,
    function: SpecFunction,
) -> Seq<SpecFunction> {
    let at = function_position(functions, function.name, 0);
    if at < functions.len() {
        functions.update(at, function)
    } else {
        functions.push(function)
    }
}

/// The position found is inside the table or at its end, nothing before it has the
/// name, and what stands there has it.
pub proof fn lemma_function_position(functions: Seq<SpecFunction>, name: Seq<char>, from: int)
    requires
        0 <= from <= functions.len(),
    ensures
        from <= function_position(functions, name, from) <= functions.len(),
        forall|i: int|
            from <= i < function_position(functions, name, from) ==> (
            #[trigger] functions[i]).name != name,
        function_position(functions, name, from) < functions.len() ==> functions[function_position(
            functions,
            name,
            from,
        )].name == name,
    decreases functions.len() - from,
{
    if from < functions.len() && functions[from].name != name {
        lemma_function_position(functions, name, from + 1);
    }
}

/// The position of the first function called `name`, or the length of the table.
fn find_function(functions: &Vec<Function>, name: &String) -> (at: usize)
    ensures
        at == function_position(functions_view(functions@), name@, 0),
        at <= functions.len(),
{
    let mut at: usize = 0;
    while at < functions.len() && !(functions[at].name == *name)
        invariant
            at <= functions.len(),
            function_position(functions_view(functions@), name@, at as int) == function_position(
                functions_view(functions@),
                name@,
                0,
            ),
        decreases functions.len() - at,
    {
        at = at + 1;
    }
    at
}

/// What an expression comes to.
#[derive(Debug, PartialEq)]
pub enum Value {
    Int(i64),
    Str(String),
    Bool(bool),
}

/// The mathematical value of a [`Value`].
pub enum SpecValue {
    Int(i64),
    Str(Seq<char>),
    Bool(bool),
}

impl View for Value {
    type V = SpecValue;

    open spec fn view(&self) -> SpecValue {
        match self {
            Value::Int(n) => SpecValue::Int(*n),
            Value::Str(text) => SpecValue::Str(text@),
            Value::Bool(b) => SpecValue::Bool(*b),
        }
    }
}

/// What evaluating gives: the value, or the message of the failure.
pub type Evaluated = Result<SpecValue, Seq<char>>;

/// The quotient of `a` by `b`, rounded toward zero. `b` is not zero.
pub open spec fn quotient(a: int, b: int) -> int {
    if a == 0 {
        0
    } else if a > 0 && b > 0 {
        a / b
    } else if a < 0 && b < 0 {
        (a * -1) / (b * -1)
    } else if a < 0 {
        ((a * -1) / b) * -1
    } else {
        (a / (b * -1)) * -1
    }
}

/// The result of `op` on two integers: division by zero and a result outside 64 bits
/// are failures.
pub open spec fn arithmetic_spec(op: Operator, a: i64, b: i64) -> Evaluated {
    if op == Operator::Divide && b == 0 {
        Err("Division by zero"@)
    } else {
        let exact = match op {
            Operator::Plus => a + b,
            Operator::Minus => a - b,
            Operator::Multiply => a * b,
            Operator::Divide => quotient(a as int, b as int),
        };
        if i64::MIN <= exact <= i64::MAX {
            Ok(SpecValue::Int(exact as i64))
        } else {
            Err("Arithmetic overflow"@)
        }
    }
}

/// The result of a one-operand expression: `+` leaves the integer, `-` negates it, and
/// no other operator takes one operand.
pub open spec fn unary_spec(op: Operator, a: i64) -> Evaluated {
    match op {
        Operator::Plus => Ok(SpecValue::Int(a)),
        Operator::Minus => if a == i64::MIN {
            Err("Arithmetic overflow"@)
        } else {
            Ok(SpecValue::Int((-a) as i64))
        },
        _ => Err("Type mismatch in arithmetic"@),
    }
}

/// What an expression comes to. Literals stand for themselves; arithmetic takes
/// integers only, concatenation strings only; a node that is no expression has no
/// value. The left operand's failure comes before the right operand's.
pub open spec fn evaluate_spec(node: SpecNode) -> Evaluated
    decreases node,
{
    match node {
        SpecNode::Int(n) => Ok(SpecValue::Int(n)),
        SpecNode::String(text) => Ok(SpecValue::Str(text)),
        SpecNode::Bool(b) => Ok(SpecValue::Bool(b)),
        SpecNode::UnaryExpr { op, child } => match evaluate_spec(*child) {
            Ok(SpecValue::Int(a)) => unary_spec(op, a),
            Ok(_) => Err("Type mismatch in arithmetic"@),
            Err(message) => Err(message),
        },
        SpecNode::BinaryExpr { op, lhs, rhs } => match evaluate_spec(*lhs) {
            Err(message) => Err(message),
            Ok(left) => match evaluate_spec(*rhs) {
                Err(message) => Err(message),
                Ok(right) => match (left, right) {
                    (SpecValue::Int(a), SpecValue::Int(b)) => arithmetic_spec(op, a, b),
                    _ => Err("Type mismatch in arithmetic"@),
                },
            },
        },
        SpecNode::CombineStr { lhs, rhs } => match evaluate_spec(*lhs) {
            Err(message) => Err(message),
            Ok(left) => match evaluate_spec(*rhs) {
                Err(message) => Err(message),
                Ok(right) => match (left, right) {
                    (SpecValue::Str(a), SpecValue::Str(b)) => Ok(SpecValue::Str(a + b)),
                    _ => Err("Type mismatch in concatenation"@),
                },
            },
        },
        _ => Err("Expected an expression"@),
    }
}

/// Whether `comparator` holds of two integers.
pub open spec fn ordered(comparator: Comparator, a: int, b: int) -> bool {
    match comparator {
        Comparator::Equal => a == b,
        Comparator::NotEqual => a != b,
        Comparator::More => a > b,
        Comparator::Less => a < b,
        Comparator::EqualMore => a >= b,
        Comparator::EqualLess => a <= b,
    }
}

/// Whether `comparator` holds of two values: integers are compared by their order,
/// strings and booleans for equality only, and values of two kinds not at all.
pub open spec fn compare_spec(
    comparator: Comparator,
    left: SpecValue,
    right: SpecValue,
) -> Result<bool, Seq<char>> {
    match (left, right) {
        (SpecValue::Int(a), SpecValue::Int(b)) => Ok(ordered(comparator, a as int, b as int)),
        (SpecValue::Str(a), SpecValue::Str(b)) => match comparator {
            Comparator::Equal => Ok(a == b),
            Comparator::NotEqual => Ok(a != b),
            _ => Err("Type mismatch in comparison"@),
        },
        (SpecValue::Bool(a), SpecValue::Bool(b)) => match comparator {
            Comparator::Equal => Ok(a == b),
            Comparator::NotEqual => Ok(a != b),
            _ => Err("Type mismatch in comparison"@),
        },
        _ => Err("Type mismatch in comparison"@),
    }
}

/// Whether the guard of two operands holds.
pub open spec fn binary_guard_spec(
    comparator: Comparator,
    lhs: SpecNode,
    rhs: SpecNode,
) -> Result<bool, Seq<char>> {
    match evaluate_spec(lhs) {
        Err(message) => Err(message),
        Ok(left) => match evaluate_spec(rhs) {
            Err(message) => Err(message),
            Ok(right) => compare_spec(comparator, left, right),
        },
    }
}

/// Whether the guard of one operand holds: the operand comes to a boolean, and that is
/// the expected one.
pub open spec fn unary_guard_spec(
    expected_bool: bool,
    actual: SpecNode,
) -> Result<bool, Seq<char>> {
    match evaluate_spec(actual) {
        Err(message) => Err(message),
        Ok(SpecValue::Bool(b)) => Ok(b == expected_bool),
        Ok(_) => Err("Guard is not a boolean"@),
    }
}

/// Whether the guard of a conditional node holds.
pub open spec fn guard_holds_spec(node: SpecNode) -> Result<bool, Seq<char>> {
    match node {
        SpecNode::IfBinaryCompare { comparator, lhs, rhs, .. } => binary_guard_spec(
            comparator,
            *lhs,
            *rhs,
        ),
        SpecNode::IfElseBinaryCompare { comparator, lhs, rhs, .. } => binary_guard_spec(
            comparator,
            *lhs,
            *rhs,
        ),
        SpecNode::IfUnaryCompare { expected_bool, actual, .. } => unary_guard_spec(
            expected_bool,
            *actual,
        ),
        SpecNode::IfElseUnaryCompare { expected_bool, actual, .. } => unary_guard_spec(
            expected_bool,
            *actual,
        ),
        _ => Err("Guard is not a boolean"@),
    }
}

fn arithmetic(op: Operator, a: i64, b: i64) -> (result: Result<Value, RuntimeError>)
    ensures
        evaluated(result, arithmetic_spec(op, a, b)),
{
    let exact = match op {
        Operator::Plus => a.checked_add(b),
        Operator::Minus => a.checked_sub(b),
        Operator::Multiply => a.checked_mul(b),
        Operator::Divide => {
            if b == 0 {
                return Err(runtime_error("Division by zero"));
            }
            a.checked_div(b)
        },
    };
    match exact {
        Some(value) => Ok(Value::Int(value)),
        None => Err(runtime_error("Arithmetic overflow")),
    }
}

/// Whether what evaluating returned is what `expected` says.
pub open spec fn evaluated(result: Result<Value, RuntimeError>, expected: Evaluated) -> bool {
    match result {
        Ok(value) => expected == Ok::<_, Seq<char>>(value@),
        Err(error) => expected == Err::<SpecValue, _>(error@.message),
    }
}

/// Whether what testing a guard returned is what `expected` says.
pub open spec fn tested(
    result: Result<bool, RuntimeError>,
    expected: Result<bool, Seq<char>>,
) -> bool {
    match result {
        Ok(holds) => expected == Ok::<_, Seq<char>>(holds),
        Err(error) => expected == Err::<bool, _>(error@.message),
    }
}

/// Evaluates an expression.
pub fn evaluate(node: &Node) -> (result: Result<Value, RuntimeError>)
    ensures
        evaluated(result, evaluate_spec(node@)),
    decreases node,
{
    match node {
        Node::Int(n) => Ok(Value::Int(*n)),
        Node::String(text) => Ok(Value::Str(text.clone())),
        Node::Bool(b) => Ok(Value::Bool(*b)),
        Node::UnaryExpr { op, child } => match evaluate(child) {
            Ok(Value::Int(a)) => match op {
                Operator::Plus => Ok(Value::Int(a)),
                Operator::Minus => match 0i64.checked_sub(a) {
                    Some(value) => Ok(Value::Int(value)),
                    None => Err(runtime_error("Arithmetic overflow")),
                },
                _ => Err(runtime_error("Type mismatch in arithmetic")),
            },
            Ok(_) => Err(runtime_error("Type mismatch in arithmetic")),
            Err(error) => Err(error),
        },
        Node::BinaryExpr { op, lhs, rhs } => {
            let left = match evaluate(lhs) {
                Ok(value) => value,
                Err(error) => {
                    return Err(error);
                },
            };
            let right = match evaluate(rhs) {
                Ok(value) => value,
                Err(error) => {
                    return Err(error);
                },
            };
            match (left, right) {
                (Value::Int(a), Value::Int(b)) => arithmetic(*op, a, b),
                _ => Err(runtime_error("Type mismatch in arithmetic")),
            }
        },
        Node::CombineStr { lhs, rhs } => {
            let left = match evaluate(lhs) {
                Ok(value) => value,
                Err(error) => {
                    return Err(error);
                },
            };
            let right = match evaluate(rhs) {
                Ok(value) => value,
                Err(error) => {
                    return Err(error);
                },
            };
            match (left, right) {
                (Value::Str(a), Value::Str(b)) => Ok(Value::Str(a.concat(b.as_str()))),
                _ => Err(runtime_error("Type mismatch in concatenation")),
            }
        },
        _ => Err(runtime_error("Expected an expression")),
    }
}

fn compare(
    comparator: Comparator,
    left: &Value,
    right: &Value,
) -> (result: Result<bool, RuntimeError>)
    ensures
        tested(result, compare_spec(comparator, left@, right@)),
{
    match (left, right) {
        (Value::Int(a), Value::Int(b)) => Ok(
            match comparator {
                Comparator::Equal => *a == *b,
                Comparator::NotEqual => *a != *b,
                Comparator::More => *a > *b,
                Comparator::Less => *a < *b,
                Comparator::EqualMore => *a >= *b,
                Comparator::EqualLess => *a <= *b,
            },
        ),
        (Value::Str(a), Value::Str(b)) => match comparator {
            Comparator::Equal => Ok(*a == *b),
            Comparator::NotEqual => Ok(!(*a == *b)),
            _ => Err(runtime_error("Type mismatch in comparison")),
        },
        (Value::Bool(a), Value::Bool(b)) => match comparator {
            Comparator::Equal => Ok(*a == *b),
            Comparator::NotEqual => Ok(*a != *b),
            _ => Err(runtime_error("Type mismatch in comparison")),
        },
        _ => Err(runtime_error("Type mismatch in comparison")),
    }
}

fn binary_guard(
    comparator: Comparator,
    lhs: &Node,
    rhs: &Node,
) -> (result: Result<bool, RuntimeError>)
    ensures
        tested(result, binary_guard_spec(comparator, lhs@, rhs@)),
{
    let left = match evaluate(lhs) {
        Ok(value) => value,
        Err(error) => {
            return Err(error);
        },
    };
    let right = match evaluate(rhs) {
        Ok(value) => value,
        Err(error) => {
            return Err(error);
        },
    };
    compare(comparator, &left, &right)
}

fn unary_guard(expected_bool: bool, actual: &Node) -> (result: Result<bool, RuntimeError>)
    ensures
        tested(result, unary_guard_spec(expected_bool, actual@)),
{
    match evaluate(actual) {
        Err(error) => Err(error),
        Ok(Value::Bool(b)) => Ok(b == expected_bool),
        Ok(_) => Err(runtime_error("Guard is not a boolean")),
    }
}

/// How many function calls may be open at once.
pub const MAX_CALL_DEPTH: u64 = 64;

/// What a running program has: its variables, the function table, and the lines it
/// has printed so far.
pub struct State {
    pub variables: Seq<SpecVariable>,
    pub functions: Seq<SpecFunction>,
    pub output: Seq<Seq<char>>,
}

/// How a run ended: the state it reached, and the message of the failure that stopped
/// it, where one did. What was printed before a failure stays printed.
pub struct Outcome {
    pub state: State,
    pub error: Option<Seq<char>>,
}

/// The view of printed lines, line by line.
pub open spec fn lines_view(lines: Seq<String>) -> Seq<Seq<char>> {
    lines.map_values(|line: String| line@)
}

/// The state that the three collections stand for.
pub open spec fn state_of(
    variables: Seq<Variable>,
    functions: Seq<Function>,
    output: Seq<String>,
) -> State {
    State {
        variables: variables_view(variables),
        functions: functions_view(functions),
        output: lines_view(output),
    }
}

/// A run that went through.
pub open spec fn finished(state: State) -> Outcome {
    Outcome { state, error: None }
}

/// A run that `message` stopped.
pub open spec fn failed(state: State, message: &str) -> Outcome {
    Outcome { state, error: Some(message@) }
}

/// The state after a call has returned: the caller keeps its variables; the function
/// table and the printed lines are the ones that the call left.
pub open spec fn returned(caller: State, callee: Outcome) -> Outcome {
    Outcome {
        state: State {
            variables: caller.variables,
            functions: callee.state.functions,
            output: callee.state.output,
        },
        error: callee.error,
    }
}

/// Runs the nodes of a block from `index` on, one after another. The end marker ends
/// the run at once; a failure ends it with the state reached. A conditional of the
/// kind that takes an `Else` is run together with the `Else` node after it: one of
/// the two bodies runs, and the run goes on behind the pair.
pub open spec fn run_from(nodes: Seq<SpecNode>, index: int, state: State, depth: nat) -> Outcome
    decreases depth, nodes, 0int, nodes.len() - index,
{
    if index < 0 || index >= nodes.len() {
        finished(state)
    } else if nodes[index] is Eof {
        finished(state)
    } else if takes_else(nodes[index]) && index + 1 < nodes.len() && nodes[index + 1] is Else {
        match guard_holds_spec(nodes[index]) {
            Err(message) => Outcome { state, error: Some(message) },
            Ok(holds) => {
                let branch = if holds {
                    match nodes[index] {
                        SpecNode::IfElseBinaryCompare { body, .. } => run_from(body, 0, state, depth),
                        SpecNode::IfElseUnaryCompare { body, .. } => run_from(body, 0, state, depth),
                        _ => finished(state),
                    }
                } else {
                    match nodes[index + 1] {
                        SpecNode::Else { body } => run_from(body, 0, state, depth),
                        _ => finished(state),
                    }
                };
                if branch.error is Some {
                    branch
                } else {
                    run_from(nodes, index + 2, branch.state, depth)
                }
            },
        }
    } else {
        let after = run_node(nodes[index], state, depth);
        if after.error is Some {
            after
        } else {
            run_from(nodes, index + 1, after.state, depth)
        }
    }
}

/// Runs one node.
///
/// - A loop runs its body as often as its count says, not at all for a count of zero
///   or less.
/// - An assignment evaluates its value and records the variable; only integers and
///   strings can be stored.
/// - A call of `print` with one argument that comes to a string adds that string to
///   the printed lines. Any other call looks the function up, fails where it is not
///   found or where too many calls are open, and else runs the function's body with
///   the function's parameters as its variables.
/// - A definition registers the function; `"null"` names none.
/// - A conditional runs its body where its guard holds.
/// - A literal or an expression by itself does nothing.
/// - An `Else` node that follows no conditional is a failure, and so is a conditional
///   that takes an `Else` and has none behind it.
pub open spec fn run_node(node: SpecNode, state: State, depth: nat) -> Outcome
    decreases depth, node, 0int, 0int,
{
    match node {
        SpecNode::Repeat { count, body } => run_repeat(body, count as int, state, depth),
        SpecNode::SetVariable { name, value } => match evaluate_spec(*value) {
            Ok(SpecValue::Int(num)) => finished(
                State {
                    variables: store_spec(state.variables, SpecVariable::Int { name, num }),
                    ..state
                },
            ),
            Ok(SpecValue::Str(str)) => finished(
                State {
                    variables: store_spec(state.variables, SpecVariable::String { name, str }),
                    ..state
                },
            ),
            Ok(SpecValue::Bool(_)) => failed(state, "That cannot be stored as a variable"),
            Err(message) => Outcome { state, error: Some(message) },
        },
        SpecNode::FunctionCall { name, args } => if name == "print"@ {
            if args.len() != 1 {
                failed(state, "print expects one string argument")
            } else {
                match evaluate_spec(args[0]) {
                    Ok(SpecValue::Str(line)) => finished(
                        State { output: state.output.push(line), ..state },
                    ),
                    Ok(_) => failed(state, "print expects one string argument"),
                    Err(message) => Outcome { state, error: Some(message) },
                }
            }
        } else {
            let function = get_function_spec(state.functions, name);
            if function.name == "null"@ {
                failed(state, "Function not found")
            } else if depth == 0 {
                failed(state, "Call depth limit exceeded")
            } else {
                returned(
                    state,
                    run_from(
                        function.body,
                        0,
                        State { variables: function.parameters, ..state },
                        (depth - 1) as nat,
                    ),
                )
            }
        },
        SpecNode::FunctionDefinition { name, body, params } => if name == "null"@ {
            failed(state, "null is a reserved function name")
        } else {
            finished(
                State {
                    functions: define_spec(
                        state.functions,
                        SpecFunction { name, body, parameters: params },
                    ),
                    ..state
                },
            )
        },
        SpecNode::IfBinaryCompare { body, .. } => match guard_holds_spec(node) {
            Err(message) => Outcome { state, error: Some(message) },
            Ok(holds) => if holds {
                run_from(body, 0, state, depth)
            } else {
                finished(state)
            },
        },
        SpecNode::IfUnaryCompare { body, .. } => match guard_holds_spec(node) {
            Err(message) => Outcome { state, error: Some(message) },
            Ok(holds) => if holds {
                run_from(body, 0, state, depth)
            } else {
                finished(state)
            },
        },
        SpecNode::IfElseBinaryCompare { .. } => failed(state, "Else block missing after conditional"),
        SpecNode::IfElseUnaryCompare { .. } => failed(state, "Else block missing after conditional"),
        SpecNode::Else { .. } => failed(state, "Else node found in unexpected location"),
        _ => finished(state),
    }
}

/// Runs a loop's body `remaining` times, or until a failure.
pub open spec fn run_repeat(
    body: Seq<SpecNode>,
    remaining: int,
    state: State,
    depth: nat,
) -> Outcome
    decreases depth, body, 1int, remaining,
{
    if remaining <= 0 {
        finished(state)
    } else {
        let after = run_from(body, 0, state, depth);
        if after.error is Some {
            after
        } else {
            run_repeat(body, remaining - 1, after.state, depth)
        }
    }
}

/// Calls the function `name` with `depth` further calls allowed: fails where it is not
/// found or where `depth` is zero, and else runs the function's body with the
/// function's parameters as its variables.
pub open spec fn run_function_spec(name: Seq<char>, state: State, depth: nat) -> Outcome {
    let function = get_function_spec(state.functions, name);
    if function.name == "null"@ {
        failed(state, "Function not found")
    } else if depth == 0 {
        failed(state, "Call depth limit exceeded")
    } else {
        returned(
            state,
            run_from(
                function.body,
                0,
                State { variables: function.parameters, ..state },
                (depth - 1) as nat,
            ),
        )
    }
}

/// Whether a run's result and the collections it left are what `outcome` says.
pub open spec fn ran(
    result: Result<(), RuntimeError>,
    variables: Seq<Variable>,
    functions: Seq<Function>,
    output: Seq<String>,
    outcome: Outcome,
) -> bool {
    &&& state_of(variables, functions, output) == outcome.state
    &&& match result {
        Ok(()) => outcome.error is None,
        Err(error) => outcome.error == Some(error@.message),
    }
}

fn guard_holds(node: &Node) -> (result: Result<bool, RuntimeError>)
    ensures
        tested(result, guard_holds_spec(node@)),
{
    match node {
        Node::IfBinaryCompare { comparator, lhs, rhs, .. } => binary_guard(*comparator, lhs, rhs),
        Node::IfElseBinaryCompare { comparator, lhs, rhs, .. } => binary_guard(
            *comparator,
            lhs,
            rhs,
        ),
        Node::IfUnaryCompare { expected_bool, actual, .. } => unary_guard(*expected_bool, actual),
        Node::IfElseUnaryCompare { expected_bool, actual, .. } => unary_guard(
            *expected_bool,
            actual,
        ),
        _ => Err(runtime_error("Guard is not a boolean")),
    }
}

/// Adds a line to the printed lines.
fn print_line(output: &mut Vec<String>, line: String)
    ensures
        lines_view(final(output)@) == lines_view(old(output)@).push(line@),
{
    output.push(line);
    assert(lines_view(output@) =~= lines_view(old(output)@).push(line@));
}

/// Copies of the body and the parameters of the function called `name`, or `None`
/// where the lookup gives the marker for "not found".
fn fetch_function(
    functions: &Vec<Function>,
    name: &String,
) -> (found: Option<(Vec<Node>, Vec<Variable>)>)
    ensures
        match found {
            Some((body, parameters)) => {
                let function = get_function_spec(functions_view(functions@), name@);
                &&& function.name != "null"@
                &&& nodes_view(body@) == function.body
                &&& variables_view(parameters@) == function.parameters
            },
            None => get_function_spec(functions_view(functions@), name@).name == "null"@,
        },
{
    let at = find_function(functions, name);
    if at >= functions.len() {
        return None;
    }
    if reads(&functions[at].name, "null") {
        return None;
    }
    Some((clone_nodes(&functions[at].body), clone_variables(&functions[at].parameters)))
}

impl Function {
    /// The function called `name` with the body `nodes` and the parameters `args`.
    pub fn new(name: String, nodes: Vec<Node>, args: Vec<Variable>) -> (function: Function)
        ensures
            function.name == name,
            function.body == nodes,
            function.parameters == args,
    {
        Function { name, body: nodes, parameters: args }
    }

    /// The marker for "not found".
    pub fn null() -> (function: Function)
        ensures
            function@ == null_function(),
    {
        let nodes: Vec<Node> = Vec::new();
        let args: Vec<Variable> = Vec::new();
        assert(nodes_view(nodes@) =~= Seq::<SpecNode>::empty());
        assert(variables_view(args@) =~= Seq::<SpecVariable>::empty());
        Function { name: "null".to_owned(), body: nodes, parameters: args }
    }

    /// Looks `find_name` up: the first function of that name, or the marker for "not
    /// found". The caller tests for the marker.
    pub fn get_function(functions: Vec<Function>, find_name: String) -> (function: Function)
        ensures
            function@ == get_function_spec(functions_view(functions@), find_name@),
    {
        let at = find_function(&functions, &find_name);
        if at < functions.len() {
            functions[at].clone()
        } else {
            Function::null()
        }
    }

    /// Calls the function `function_name` as a program's top level would: fails where
    /// the lookup gives the marker for "not found", and else runs the function's body
    /// with the function's parameters as its variables. What the body defines and
    /// prints stays in `functions` and `output`, also where the body fails.
    pub fn run_function(
        functions: &mut Vec<Function>,
        function_name: String,
        output: &mut Vec<String>,
    ) -> (result: Result<(), RuntimeError>)
        ensures
            ({
                let outcome = run_function_spec(
                    function_name@,
                    State {
                        variables: Seq::empty(),
                        functions: functions_view(old(functions)@),
                        output: lines_view(old(output)@),
                    },
                    MAX_CALL_DEPTH as nat,
                );
                &&& functions_view(final(functions)@) == outcome.state.functions
                &&& lines_view(final(output)@) == outcome.state.output
                &&& match result {
                    Ok(()) => outcome.error is None,
                    Err(error) => outcome.error == Some(error@.message),
                }
            }),
    {
        match fetch_function(functions, &function_name) {
            None => Err(runtime_error("Function not found")),
            Some((body, parameters)) => {
                let mut variables = parameters;
                execute_block(&body, &mut variables, functions, output, MAX_CALL_DEPTH - 1)
            },
        }
    }

    /// Registers a function: it takes the place of the first function of its name, or
    /// comes last where there is none.
    pub fn create_function(
        functions: &mut Vec<Function>,
        function_name: String,
        function_nodes: Vec<Node>,
        args: Vec<Variable>,
    )
        requires
            function_name@ != "null"@,
        ensures
            functions_view(final(functions)@) == define_spec(
                functions_view(old(functions)@),
                SpecFunction {
                    name: function_name@,
                    body: nodes_view(function_nodes@),
                    parameters: variables_view(args@),
                },
            ),
    {
        let at = find_function(functions, &function_name);
        let function = Function { name: function_name, body: function_nodes, parameters: args };
        if at < functions.len() {
            functions.set(at, function);
            assert(functions_view(functions@) =~= functions_view(old(functions)@).update(
                at as int,
                function@,
            ));
        } else {
            functions.push(function);
            assert(functions_view(functions@) =~= functions_view(old(functions)@).push(function@));
        }
    }
}

/// Runs a block: see [`run_from`].
#[verifier::loop_isolation(false)]
fn execute_block(
    nodes: &Vec<Node>,
    variables: &mut Vec<Variable>,
    functions: &mut Vec<Function>,
    output: &mut Vec<String>,
    depth: u64,
) -> (result: Result<(), RuntimeError>)
    ensures
        ran(
            result,
            final(variables)@,
            final(functions)@,
            final(output)@,
            run_from(
                nodes_view(nodes@),
                0,
                state_of(old(variables)@, old(functions)@, old(output)@),
                depth as nat,
            ),
        ),
    decreases depth, nodes,
{
    let mut i: usize = 0;
    let ghost view = nodes_view(nodes@);
    let ghost start = state_of(variables@, functions@, output@);
    while i < nodes.len()
        invariant
            i <= nodes.len(),
            view == nodes_view(nodes@),
            run_from(view, 0, start, depth as nat) == run_from(
                view,
                i as int,
                state_of(variables@, functions@, output@),
                depth as nat,
            ),
        decreases nodes.len() - i,
    {
        let node = &nodes[i];
        if let Node::Eof = node {
            return Ok(());
        }
        let own: Option<&Vec<Node>> = match node {
            Node::IfElseBinaryCompare { body, .. } => Some(body),
            Node::IfElseUnaryCompare { body, .. } => Some(body),
            _ => None,
        };
        let follower: Option<&Vec<Node>> = if i + 1 < nodes.len() {
            match &nodes[i + 1] {
                Node::Else { body } => Some(body),
                _ => None,
            }
        } else {
            None
        };
        match (own, follower) {
            (Some(body), Some(else_body)) => {
                let holds = match guard_holds(node) {
                    Ok(holds) => holds,
                    Err(error) => {
                        return Err(error);
                    },
                };
                let branch = if holds {
                    body
                } else {
                    else_body
                };
                match execute_block(branch, variables, functions, output, depth) {
                    Ok(()) => {},
                    Err(error) => {
                        return Err(error);
                    },
                }
                i = i + 2;
            },
            _ => {
                match execute_node(node, variables, functions, output, depth) {
                    Ok(()) => {},
                    Err(error) => {
                        return Err(error);
                    },
                }
                i = i + 1;
            },
        }
    }
    Ok(())
}

/// Runs one node: see [`run_node`].
#[verifier::loop_isolation(false)]
fn execute_node(
    node: &Node,
    variables: &mut Vec<Variable>,
    functions: &mut Vec<Function>,
    output: &mut Vec<String>,
    depth: u64,
) -> (result: Result<(), RuntimeError>)
    ensures
        ran(
            result,
            final(variables)@,
            final(functions)@,
            final(output)@,
            run_node(node@, state_of(old(variables)@, old(functions)@, old(output)@), depth as nat),
        ),
    decreases depth, node,
{
    match node {
        Node::Repeat { count, body } => {
            let mut remaining: i64 = *count;
            let ghost view = nodes_view(body@);
            let ghost start = state_of(variables@, functions@, output@);
            while remaining > 0
                invariant
                    view == nodes_view(body@),
                    run_repeat(view, *count as int, start, depth as nat) == run_repeat(
                        view,
                        remaining as int,
                        state_of(variables@, functions@, output@),
                        depth as nat,
                    ),
                decreases remaining,
            {
                match execute_block(body, variables, functions, output, depth) {
                    Ok(()) => {},
                    Err(error) => {
                        return Err(error);
                    },
                }
                remaining = remaining - 1;
            }
            Ok(())
        },
        Node::SetVariable { name, value } => match evaluate(value) {
            Ok(Value::Int(num)) => {
                Variable::store(variables, Variable::Int { name: name.clone(), num });
                Ok(())
            },
            Ok(Value::Str(str)) => {
                Variable::store(variables, Variable::String { name: name.clone(), str });
                Ok(())
            },
            Ok(Value::Bool(_)) => Err(runtime_error("That cannot be stored as a variable")),
            Err(error) => Err(error),
        },
        Node::FunctionCall { name, args } => {
            assert(nodes_view(args@).len() == args@.len());
            if reads(name, "print") {
                if args.len() != 1 {
                    return Err(runtime_error("print expects one string argument"));
                }
                assert(nodes_view(args@)[0] == args@[0]@);
                match evaluate(&args[0]) {
                    Ok(Value::Str(line)) => {
                        print_line(output, line);
                        Ok(())
                    },
                    Ok(_) => Err(runtime_error("print expects one string argument")),
                    Err(error) => Err(error),
                }
            } else {
                match fetch_function(functions, name) {
                    None => Err(runtime_error("Function not found")),
                    Some((body, parameters)) => {
                        if depth == 0 {
                            return Err(runtime_error("Call depth limit exceeded"));
                        }
                        let mut locals = parameters;
                        execute_block(&body, &mut locals, functions, output, depth - 1)
                    },
                }
            }
        },
        Node::FunctionDefinition { name, body, params } => {
            if reads(name, "null") {
                return Err(runtime_error("null is a reserved function name"));
            }
            Function::create_function(
                functions,
                name.clone(),
                clone_nodes(body),
                clone_variables(params),
            );
            Ok(())
        },
        Node::IfBinaryCompare { body, .. } => match guard_holds(node) {
            Err(error) => Err(error),
            Ok(holds) => if holds {
                execute_block(body, variables, functions, output, depth)
            } else {
                Ok(())
            },
        },
        Node::IfUnaryCompare { body, .. } => match guard_holds(node) {
            Err(error) => Err(error),
            Ok(holds) => if holds {
                execute_block(body, variables, functions, output, depth)
            } else {
                Ok(())
            },
        },
        Node::IfElseBinaryCompare { .. } => Err(
            runtime_error("Else block missing after conditional"),
        ),
        Node::IfElseUnaryCompare { .. } => Err(runtime_error("Else block missing after conditional")),
        Node::Else { .. } => Err(runtime_error("Else node found in unexpected location")),
        _ => Ok(()),
    }
}

/// Runs a program against the caller's variables, function table and printed lines.
/// Nested blocks, loop bodies and function bodies work on the same function table and
/// printed lines; a function body has variables of its own. The first failure stops
/// the run, and what was done before it stays done.
pub fn interpret(
    instructions: Vec<Node>,
    variables: &mut Vec<Variable>,
    functions: &mut Vec<Function>,
    output: &mut Vec<String>,
) -> (result: Result<(), RuntimeError>)
    ensures
        ran(
            result,
            final(variables)@,
            final(functions)@,
            final(output)@,
            run_from(
                nodes_view(instructions@),
                0,
                state_of(old(variables)@, old(functions)@, old(output)@),
                MAX_CALL_DEPTH as nat,
            ),
        ),
{
    execute_block(&instructions, variables, functions, output, MAX_CALL_DEPTH)
}

/// Recording a variable never brings the `Null` marker into an environment.
pub proof fn lemma_store_keeps_null_out(variables: Seq<SpecVariable>, variable: SpecVariable)
    requires
        !has_null(variables),
    ensures
        !has_null(store_spec(variables, variable)),
{
    let after = store_spec(variables, variable);
    assert forall|i: int| 0 <= i < after.len() implies !(#[trigger] after[i] is Null) by {
        if let Some(name) = name_of(variable) {
            lemma_variable_position(variables, name, 0);
            let at = variable_position(variables, name, 0);
            if i != at {
                assert(!(variables[i] is Null));
            }
        } else {
            assert(!(variables[i] is Null));
        }
    }
}

/// The environment after `values` are recorded one after another.
pub open spec fn store_all(
    variables: Seq<SpecVariable>,
    values: Seq<SpecVariable>,
) -> Seq<SpecVariable>
    decreases values.len(),
{
    if values.len() == 0 {
        variables
    } else {
        store_all(store_spec(variables, values[0]), values.drop_first())
    }
}

/// Whatever is recorded, and in whatever order, into an environment that holds no
/// `Null` marker, the environment holds none afterwards, every lookup succeeds, and a
/// lookup gives the marker exactly for a name that no stored variable has.
pub proof fn lookup_after_stores(
    variables: Seq<SpecVariable>,
    values: Seq<SpecVariable>,
    name: Seq<char>,
)
    requires
        !has_null(variables),
    ensures
        !has_null(store_all(variables, values)),
        get_variable_spec(store_all(variables, values), name) is Ok,
        get_variable_spec(store_all(variables, values), name)->Ok_0 is Null <==> (forall|i: int|
            0 <= i < store_all(variables, values).len() ==> name_of(
                #[trigger] store_all(variables, values)[i],
            ) != Some(name)),
    decreases values.len(),
{
    if values.len() == 0 {
        lemma_variable_position(variables, name, 0);
        let at = variable_position(variables, name, 0);
        if at < variables.len() {
            assert(!(variables[at] is Null));
            assert(name_of(variables[at]) == Some(name));
        }
    } else {
        lemma_store_keeps_null_out(variables, values[0]);
        lookup_after_stores(store_spec(variables, values[0]), values.drop_first(), name);
    }
}

/// The position that holds the first variable called `name` at or after `from` is the
/// one that a lookup from `from` finds.
pub proof fn lemma_first_variable(
    variables: Seq<SpecVariable>,
    name: Seq<char>,
    from: int,
    first: int,
)
    requires
        0 <= from <= first <= variables.len(),
        forall|i: int| from <= i < first ==> name_of(#[trigger] variables[i]) != Some(name),
        first < variables.len() ==> name_of(variables[first]) == Some(name),
    ensures
        variable_position(variables, name, from) == first,
    decreases first - from,
{
    if from < first {
        lemma_first_variable(variables, name, from + 1, first);
    }
}

/// Last write wins: after a variable is recorded, a lookup of its name gives it, and
/// a lookup of any other name gives what it gave before.
pub proof fn lookup_after_store(
    variables: Seq<SpecVariable>,
    variable: SpecVariable,
    name: Seq<char>,
)
    requires
        !has_null(variables),
        !(variable is Null),
    ensures
        get_variable_spec(store_spec(variables, variable), name) == if name_of(variable) == Some(
            name,
        ) {
            Ok::<_, SpecRuntimeError>(variable)
        } else {
            get_variable_spec(variables, name)
        },
{
    let own = name_of(variable)->0;
    let at = variable_position(variables, own, 0);
    let after = store_spec(variables, variable);
    lemma_store_keeps_null_out(variables, variable);
    lemma_variable_position(variables, own, 0);
    if own == name {
        lemma_first_variable(after, name, 0, at);
    } else {
        lemma_variable_position(variables, name, 0);
        let found = variable_position(variables, name, 0);
        if found < variables.len() {
            lemma_first_variable(after, name, 0, found);
        } else {
            lemma_first_variable(after, name, 0, after.len() as int);
        }
    }
}

/// Whether no two variables of the environment have one name.
pub open spec fn unique_variables(variables: Seq<SpecVariable>) -> bool {
    forall|i: int, j: int|
        0 <= i < j < variables.len() && name_of(#[trigger] variables[i]) is Some ==> name_of(
            variables[i],
        ) != name_of(#[trigger] variables[j])
}

/// Recording a variable keeps the names of an environment apart.
pub proof fn store_keeps_names_apart(variables: Seq<SpecVariable>, variable: SpecVariable)
    requires
        unique_variables(variables),
    ensures
        unique_variables(store_spec(variables, variable)),
{
    if let Some(own) = name_of(variable) {
        let at = variable_position(variables, own, 0);
        let after = store_spec(variables, variable);
        lemma_variable_position(variables, own, 0);
        assert forall|i: int, j: int|
            0 <= i < j < after.len() && name_of(#[trigger] after[i]) is Some implies name_of(
            after[i],
        ) != name_of(#[trigger] after[j]) by {
            if at < variables.len() {
                if i == at {
                    assert(name_of(variables[i]) != name_of(variables[j]));
                } else if j == at {
                    assert(name_of(variables[i]) != name_of(variables[j]));
                } else {
                    assert(name_of(variables[i]) != name_of(variables[j]));
                }
            } else if j < variables.len() {
                assert(name_of(variables[i]) != name_of(variables[j]));
            }
        }
    }
}

/// The position that holds the first function called `name` at or after `from` is the
/// one that a lookup from `from` finds.
pub proof fn lemma_first_function(
    functions: Seq<SpecFunction>,
    name: Seq<char>,
    from: int,
    first: int,
)
    requires
        0 <= from <= first <= functions.len(),
        forall|i: int| from <= i < first ==> (#[trigger] functions[i]).name != name,
        first < functions.len() ==> functions[first].name == name,
    ensures
        function_position(functions, name, from) == first,
    decreases first - from,
{
    if from < first {
        lemma_first_function(functions, name, from + 1, first);
    }
}

/// Redefinition overwrites: after a function is registered, a lookup of its name gives
/// it, and a lookup of any other name gives what it gave before.
pub proof fn lookup_after_define(
    functions: Seq<SpecFunction>,
    function: SpecFunction,
    name: Seq<char>,
)
    ensures
        get_function_spec(define_spec(functions, function), name) == if function.name == name {
            function
        } else {
            get_function_spec(functions, name)
        },
{
    let at = function_position(functions, function.name, 0);
    let after = define_spec(functions, function);
    lemma_function_position(functions, function.name, 0);
    if function.name == name {
        lemma_first_function(after, name, 0, at);
    } else {
        lemma_function_position(functions, name, 0);
        let found = function_position(functions, name, 0);
        if found < functions.len() {
            lemma_first_function(after, name, 0, found);
        } else {
            lemma_first_function(after, name, 0, after.len() as int);
        }
    }
}

/// Whether no two functions of the table have one name.
pub open spec fn unique_functions(functions: Seq<SpecFunction>) -> bool {
    forall|i: int, j: int|
        0 <= i < j < functions.len() ==> (#[trigger] functions[i]).name != (
        #[trigger] functions[j]).name
}

/// Registering a function keeps the names of a table apart.
pub proof fn define_keeps_names_apart(functions: Seq<SpecFunction>, function: SpecFunction)
    requires
        unique_functions(functions),
    ensures
        unique_functions(define_spec(functions, function)),
{
    let at = function_position(functions, function.name, 0);
    let after = define_spec(functions, function);
    lemma_function_position(functions, function.name, 0);
    assert forall|i: int, j: int| 0 <= i < j < after.len() implies (#[trigger] after[i]).name != (
    #[trigger] after[j]).name by {
        if at < functions.len() {
            assert(functions[i].name != functions[j].name);
        } else if j < functions.len() {
            assert(functions[i].name != functions[j].name);
        }
    }
}

/// Where the `Null` marker stands in an environment, every lookup fails.
pub proof fn lookup_fails_on_null(variables: Seq<SpecVariable>, name: Seq<char>)
    requires
        has_null(variables),
    ensures
        get_variable_spec(variables, name) is Err,
{
}

/// Running a block never brings the `Null` marker into the variables.
pub proof fn run_from_keeps_null_out(nodes: Seq<SpecNode>, index: int, state: State, depth: nat)
    requires
        !has_null(state.variables),
    ensures
        !has_null(run_from(nodes, index, state, depth).state.variables),
    decreases depth, nodes, 0int, nodes.len() - index,
{
    if index < 0 || index >= nodes.len() {
    } else if nodes[index] is Eof {
    } else if takes_else(nodes[index]) && index + 1 < nodes.len() && nodes[index + 1] is Else {
        if let Ok(holds) = guard_holds_spec(nodes[index]) {
            let branch = if holds {
                match nodes[index] {
                    SpecNode::IfElseBinaryCompare { body, .. } => {
                        run_from_keeps_null_out(body, 0, state, depth);
                        run_from(body, 0, state, depth)
                    },
                    SpecNode::IfElseUnaryCompare { body, .. } => {
                        run_from_keeps_null_out(body, 0, state, depth);
                        run_from(body, 0, state, depth)
                    },
                    _ => finished(state),
                }
            } else {
                match nodes[index + 1] {
                    SpecNode::Else { body } => {
                        run_from_keeps_null_out(body, 0, state, depth);
                        run_from(body, 0, state, depth)
                    },
                    _ => finished(state),
                }
            };
            if branch.error is None {
                run_from_keeps_null_out(nodes, index + 2, branch.state, depth);
            }
        }
    } else {
        run_node_keeps_null_out(nodes[index], state, depth);
        let after = run_node(nodes[index], state, depth);
        if after.error is None {
            run_from_keeps_null_out(nodes, index + 1, after.state, depth);
        }
    }
}

/// Running a node never brings the `Null` marker into the variables.
pub proof fn run_node_keeps_null_out(node: SpecNode, state: State, depth: nat)
    requires
        !has_null(state.variables),
    ensures
        !has_null(run_node(node, state, depth).state.variables),
    decreases depth, node, 0int, 0int,
{
    match node {
        SpecNode::Repeat { count, body } => {
            run_repeat_keeps_null_out(body, count as int, state, depth);
        },
        SpecNode::SetVariable { name, value } => {
            match evaluate_spec(*value) {
                Ok(SpecValue::Int(num)) => {
                    lemma_store_keeps_null_out(state.variables, SpecVariable::Int { name, num });
                },
                Ok(SpecValue::Str(str)) => {
                    lemma_store_keeps_null_out(state.variables, SpecVariable::String { name, str });
                },
                _ => {},
            }
        },
        SpecNode::IfBinaryCompare { body, .. } => {
            run_from_keeps_null_out(body, 0, state, depth);
        },
        SpecNode::IfUnaryCompare { body, .. } => {
            run_from_keeps_null_out(body, 0, state, depth);
        },
        _ => {},
    }
}

/// Running a loop never brings the `Null` marker into the variables.
pub proof fn run_repeat_keeps_null_out(
    body: Seq<SpecNode>,
    remaining: int,
    state: State,
    depth: nat,
)
    requires
        !has_null(state.variables),
    ensures
        !has_null(run_repeat(body, remaining, state, depth).state.variables),
    decreases depth, body, 1int, remaining,
{
    if remaining > 0 {
        run_from_keeps_null_out(body, 0, state, depth);
        let after = run_from(body, 0, state, depth);
        if after.error is None {
            run_repeat_keeps_null_out(body, remaining - 1, after.state, depth);
        }
    }
}

/// A call node whose name is not `print` does what calling the function of that name
/// does, whatever its arguments.
pub proof fn call_runs_the_function(name: Seq<char>, args: Seq<SpecNode>, state: State, depth: nat)
    requires
        name != "print"@,
    ensures
        run_node(SpecNode::FunctionCall { name, args }, state, depth) == run_function_spec(
            name,
            state,
            depth,
        ),
{
}

/// A call of a function that the table does not hold fails with "Function not found"
/// and changes nothing, whatever the arguments and however many calls are open.
pub proof fn unknown_function_is_not_found(
    name: Seq<char>,
    args: Seq<SpecNode>,
    state: State,
    depth: nat,
)
    requires
        forall|i: int| 0 <= i < state.functions.len() ==> (#[trigger] state.functions[i]).name != name,
    ensures
        run_function_spec(name, state, depth) == failed(state, "Function not found"),
        name != "print"@ ==> run_node(SpecNode::FunctionCall { name, args }, state, depth) == failed(
            state,
            "Function not found",
        ),
{
    lemma_function_position(state.functions, name, 0);
}

/// The call that prints `line`.
pub open spec fn print_call(line: Seq<char>) -> SpecNode {
    SpecNode::FunctionCall { name: "print"@, args: seq![SpecNode::String(line)] }
}

/// `count` copies of `line`; none for a count of zero or less.
pub open spec fn copies(line: Seq<char>, count: int) -> Seq<Seq<char>> {
    Seq::new(
        if count > 0 {
            count as nat
        } else {
            0
        },
        |i: int| line,
    )
}

/// A loop around one `print` prints its line once for each round, in order, changes
/// nothing else and does not fail.
pub proof fn repeat_prints_each_round(line: Seq<char>, count: i64, state: State, depth: nat)
    ensures
        run_node(SpecNode::Repeat { count, body: seq![print_call(line)] }, state, depth)
            == finished(State { output: state.output + copies(line, count as int), ..state }),
{
    lemma_rounds_print(line, count as int, state, depth);
}

/// What the rounds that are left of a loop around one `print` add to the output.
proof fn lemma_rounds_print(line: Seq<char>, remaining: int, state: State, depth: nat)
    ensures
        run_repeat(seq![print_call(line)], remaining, state, depth) == finished(
            State { output: state.output + copies(line, remaining), ..state },
        ),
    decreases remaining,
{
    let body = seq![print_call(line)];
    if remaining > 0 {
        let after = State { output: state.output.push(line), ..state };
        assert(evaluate_spec(SpecNode::String(line)) == Ok::<_, Seq<char>>(SpecValue::Str(line)));
        assert(run_node(body[0], state, depth) == finished(after));
        assert(run_from(body, 1, after, depth) == finished(after));
        assert(run_from(body, 0, state, depth) == finished(after));
        lemma_rounds_print(line, remaining - 1, after, depth);
        assert(state.output.push(line) + copies(line, remaining - 1) =~= state.output + copies(
            line,
            remaining,
        ));
    } else {
        assert(state.output + copies(line, remaining) =~= state.output);
    }
}

/// Whether the node is a literal or an expression.
pub open spec fn is_expression(node: SpecNode) -> bool {
    node is Int || node is String || node is Bool || node is UnaryExpr || node is BinaryExpr
        || node is CombineStr
}

/// A literal or an expression that stands as a statement does nothing and does not
/// fail, whatever it would come to.
pub proof fn expression_statement_does_nothing(node: SpecNode, state: State, depth: nat)
    requires
        is_expression(node),
    ensures
        run_node(node, state, depth) == finished(state),
        run_from(seq![node], 0, state, depth) == finished(state),
{
    let nodes = seq![node];
    assert(nodes[0] == node);
    assert(run_from(nodes, 1, state, depth) == finished(state));
}

} // verus!
