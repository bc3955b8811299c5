//! The tree-walking evaluator: expressions to values, statements to printed
//! lines and environment changes. The first runtime error ends a run.
use vstd::prelude::*;

use crate::ast::expr::Expr;
use crate::ast::stmt::Stmt;
use crate::environment::Environment;
use crate::errors::{Fault, RLoxError};
use crate::number::{
    equal, float_add, float_div, float_mul, float_sub, float_difference, float_eq, float_lt, float_neg, float_product,
    float_quotient, float_sum, less, negate, number_text, number_to_text,
};
use crate::tokens::{Object, Token, TokenType, Value};

verus! {

/// `nil` and `false` are falsy; every other value is truthy, zero and the
/// empty string included.
pub open spec fn truthy(v: Value) -> bool {
    match v {
        Value::Nil => false,
        Value::Boolean(b) => b,
        _ => true,
    }
}

/// Equality across the four variants: values of different variants are
/// unequal (never an error); numbers compare as IEEE-754 values.
pub open spec fn values_equal(a: Value, b: Value) -> bool {
    match (a, b) {
        (Value::Nil, Value::Nil) => true,
        (Value::Boolean(x), Value::Boolean(y)) => x == y,
        (Value::Number(x), Value::Number(y)) => float_eq(x, y),
        (Value::Str(x), Value::Str(y)) => x == y,
        _ => false,
    }
}

pub open spec fn operand_message() -> Seq<char> {
    "Operand must be a number."@
}

pub open spec fn operands_message() -> Seq<char> {
    "Operands must be numbers."@
}

pub open spec fn plus_message() -> Seq<char> {
    "Operands must be two numbers or two strings."@
}

/// The value of a unary operator applied to `v`.
pub open spec fn unary_result(operator: Token, v: Value) -> Result<Value, Fault> {
    if operator.token_type == TokenType::Bang {
        Ok(Value::Boolean(!truthy(v)))
    } else if operator.token_type == TokenType::Minus {
        match v {
            Value::Number(n) => Ok(Value::Number(float_neg(n))),
            _ => Err(Fault::TypeMismatch(operator, operand_message())),
        }
    } else {
        Err(Fault::UnknownOperator(operator))
    }
}

/// The value of a binary operator applied to `l` and `r`.
pub open spec fn binary_result(operator: Token, l: Value, r: Value) -> Result<Value, Fault> {
    let t = operator.token_type;
    if t == TokenType::EqualEqual {
        Ok(Value::Boolean(values_equal(l, r)))
    } else if t == TokenType::BangEqual {
        Ok(Value::Boolean(!values_equal(l, r)))
    } else if t == TokenType::Plus {
        match (l, r) {
            (Value::Number(a), Value::Number(b)) => Ok(Value::Number(float_sum(a, b))),
            (Value::Str(a), Value::Str(b)) => Ok(Value::Str(a + b)),
            _ => Err(Fault::TypeMismatch(operator, plus_message())),
        }
    } else if t == TokenType::Minus || t == TokenType::Star || t == TokenType::Slash || t
        == TokenType::Greater || t == TokenType::GreaterEqual || t == TokenType::Less || t
        == TokenType::LessEqual {
        match (l, r) {
            (Value::Number(a), Value::Number(b)) => Ok(
                if t == TokenType::Minus {
                    Value::Number(float_difference(a, b))
                } else if t == TokenType::Star {
                    Value::Number(float_product(a, b))
                } else if t == TokenType::Slash {
                    Value::Number(float_quotient(a, b))
                } else if t == TokenType::Greater {
                    Value::Boolean(float_lt(b, a))
                } else if t == TokenType::GreaterEqual {
                    Value::Boolean(float_lt(b, a) || float_eq(a, b))
                } else if t == TokenType::Less {
                    Value::Boolean(float_lt(a, b))
                } else {
                    Value::Boolean(float_lt(a, b) || float_eq(a, b))
                },
            ),
            _ => Err(Fault::TypeMismatch(operator, operands_message())),
        }
    } else {
        Err(Fault::UnknownOperator(operator))
    }
}

/// The value of `e` in the bindings `env`: operands left before right,
/// the first error wins.
pub open spec fn eval(e: Expr, env: Map<Seq<char>, Value>) -> Result<Value, Fault>
    decreases e,
{
    match e {
        Expr::Literal { value } => Ok(value@),
        Expr::Grouping { expression } => eval(*expression, env),
        Expr::Variable { name } => if env.contains_key(name.lexeme@) {
            Ok(env[name.lexeme@])
        } else {
            Err(Fault::UndefinedVariable(name))
        },
        Expr::Unary { operator, right } => match eval(*right, env) {
            Ok(v) => unary_result(operator, v),
            Err(f) => Err(f),
        },
        Expr::Binary { left, operator, right } => match eval(*left, env) {
            Ok(l) => match eval(*right, env) {
                Ok(r) => binary_result(operator, l, r),
                Err(f) => Err(f),
            },
            Err(f) => Err(f),
        },
    }
}

/// The display form of a value, as `print` writes it.
pub open spec fn display(v: Value) -> Seq<char> {
    match v {
        Value::Nil => Seq::empty(),
        Value::Boolean(b) => if b {
            "true"@
        } else {
            "false"@
        },
        Value::Number(n) => number_text(n),
        Value::Str(s) => s,
    }
}

/// The model of a run's outcome: the bindings at its end, the lines
/// printed, and the error that stopped it, if any.
pub struct RunModel {
    pub env: Map<Seq<char>, Value>,
    pub printed: Seq<Seq<char>>,
    pub fault: Option<Fault>,
}

/// Runs `stmts` in order from the bindings `env`, stopping at the first
/// runtime error.
pub open spec fn run(stmts: Seq<Stmt>, env: Map<Seq<char>, Value>) -> RunModel
    decreases stmts.len(),
{
    if stmts.len() == 0 {
        RunModel { env, printed: Seq::empty(), fault: None }
    } else {
        let (e, target) = match stmts[0] {
            Stmt::Expression { expression } => (expression, 0int),
            Stmt::Print { expression } => (expression, 1int),
            Stmt::Var { initializer, .. } => (initializer, 2int),
        };
        match eval(e, env) {
            Err(f) => RunModel { env, printed: Seq::empty(), fault: Some(f) },
            Ok(v) => {
                let env1 = match stmts[0] {
                    Stmt::Var { name, .. } => env.insert(name.lexeme@, v),
                    _ => env,
                };
                let out: Seq<Seq<char>> = if target == 1 {
                    seq![display(v)]
                } else {
                    Seq::empty()
                };
                let rest = run(stmts.drop_first(), env1);
                RunModel { env: rest.env, printed: out + rest.printed, fault: rest.fault }
            },
        }
    }
}

/// The characters of each string.
pub open spec fn texts(v: Seq<String>) -> Seq<Seq<char>> {
    v.map_values(|s: String| s@)
}

/// Declaring a variable and then printing it writes the display form of
/// the initializer's value, whatever the variable held before.
pub proof fn lemma_declare_then_print(
    name: Token,
    initializer: Expr,
    used: Token,
    env: Map<Seq<char>, Value>,
)
    requires
        eval(initializer, env) is Ok,
        used.lexeme@ == name.lexeme@,
    ensures
        ({
            let program = seq![
                Stmt::Var { name, initializer },
                Stmt::Print { expression: Expr::Variable { name: used } },
            ];
            let model = run(program, env);
            &&& model.printed == seq![display(eval(initializer, env)->Ok_0)]
            &&& model.fault is None
        }),
{
    let program = seq![
        Stmt::Var { name, initializer },
        Stmt::Print { expression: Expr::Variable { name: used } },
    ];
    let env1 = env.insert(name.lexeme@, eval(initializer, env)->Ok_0);
    assert(program.drop_first() =~= seq![Stmt::Print { expression: Expr::Variable { name: used } }]);
    assert(program.drop_first().drop_first() =~= Seq::<Stmt>::empty());
    assert(env1.contains_key(used.lexeme@));
    assert(eval(Expr::Variable { name: used }, env1) == Ok::<Value, Fault>(env1[used.lexeme@]));
    let after = run(program.drop_first().drop_first(), env1);
    assert(after.printed.len() == 0 && after.fault is None);
    assert(run(program.drop_first(), env1).printed =~= seq![display(env1[used.lexeme@])]);
    assert(run(program, env).printed =~= seq![display(eval(initializer, env)->Ok_0)]);
}

/// Printing a variable that has no binding stops the run with an
/// undefined-variable error and prints nothing.
pub proof fn lemma_print_undefined(used: Token, env: Map<Seq<char>, Value>)
    requires
        !env.contains_key(used.lexeme@),
    ensures
        ({
            let model = run(seq![Stmt::Print { expression: Expr::Variable { name: used } }], env);
            &&& model.printed.len() == 0
            &&& model.fault == Some(Fault::UndefinedVariable(used))
        }),
{
}

/// A second declaration of a name replaces the first: printing the name
/// afterwards writes the second initializer's value.
pub proof fn lemma_redeclaration_overwrites(
    first: Token,
    a: Expr,
    second: Token,
    b: Expr,
    used: Token,
    env: Map<Seq<char>, Value>,
)
    requires
        eval(a, env) is Ok,
        eval(b, env.insert(first.lexeme@, eval(a, env)->Ok_0)) is Ok,
        second.lexeme@ == first.lexeme@,
        used.lexeme@ == first.lexeme@,
    ensures
        ({
            let env1 = env.insert(first.lexeme@, eval(a, env)->Ok_0);
            let program = seq![
                Stmt::Var { name: first, initializer: a },
                Stmt::Var { name: second, initializer: b },
                Stmt::Print { expression: Expr::Variable { name: used } },
            ];
            let model = run(program, env);
            &&& model.printed == seq![display(eval(b, env1)->Ok_0)]
            &&& model.fault is None
        }),
{
    let env1 = env.insert(first.lexeme@, eval(a, env)->Ok_0);
    let program = seq![
        Stmt::Var { name: first, initializer: a },
        Stmt::Var { name: second, initializer: b },
        Stmt::Print { expression: Expr::Variable { name: used } },
    ];
    assert(program.drop_first() =~= seq![
        Stmt::Var { name: second, initializer: b },
        Stmt::Print { expression: Expr::Variable { name: used } },
    ]);
    lemma_declare_then_print(second, b, used, env1);
    assert(run(program, env).printed =~= run(program.drop_first(), env1).printed);
}

pub open spec fn outcome_view(r: Result<Object, RLoxError>) -> Result<Value, Fault> {
    match r {
        Ok(v) => Ok(v@),
        Err(e) => Err(e@),
    }
}

fn type_mismatch(operator: &Token, message: &str) -> (r: RLoxError)
    ensures
        r@ == Fault::TypeMismatch(*operator, message@),
{
    RLoxError::TypeMismatch(operator.duplicate(), String::from_str(message))
}

/// Truthiness of a value.
pub fn is_truthy(v: &Object) -> (r: bool)
    ensures
        r == truthy(v@),
{
    match v {
        Object::Nil => false,
        Object::Boolean(b) => *b,
        _ => true,
    }
}

/// Equality of two values; values of different variants are unequal.
pub fn is_equal(a: &Object, b: &Object) -> (r: bool)
    ensures
        r == values_equal(a@, b@),
{
    match (a, b) {
        (Object::Nil, Object::Nil) => true,
        (Object::Boolean(x), Object::Boolean(y)) => *x == *y,
        (Object::Number(x), Object::Number(y)) => equal(*x, *y),
        (Object::String(x), Object::String(y)) => *x == *y,
        _ => false,
    }
}

/// Applies a unary operator to a value.
pub fn unary_value(operator: &Token, v: Object) -> (r: Result<Object, RLoxError>)
    ensures
        outcome_view(r) == unary_result(*operator, v@),
{
    if operator.token_type == TokenType::Bang {
        Ok(Object::Boolean(!is_truthy(&v)))
    } else if operator.token_type == TokenType::Minus {
        match v {
            Object::Number(n) => Ok(Object::Number(negate(n))),
            _ => Err(type_mismatch(operator, "Operand must be a number.")),
        }
    } else {
        Err(RLoxError::UnknownOperator(operator.duplicate()))
    }
}

/// Applies a binary operator to two values.
pub fn binary_value(operator: &Token, l: Object, r: Object) -> (res: Result<Object, RLoxError>)
    ensures
        outcome_view(res) == binary_result(*operator, l@, r@),
{
    let t = operator.token_type;
    if t == TokenType::EqualEqual {
        return Ok(Object::Boolean(is_equal(&l, &r)));
    }
    if t == TokenType::BangEqual {
        return Ok(Object::Boolean(!is_equal(&l, &r)));
    }
    if t == TokenType::Plus {
        return match (l, r) {
            (Object::Number(a), Object::Number(b)) => Ok(Object::Number(float_add(a, b))),
            (Object::String(a), Object::String(b)) => Ok(Object::String(a.concat(b.as_str()))),
            _ => Err(type_mismatch(operator, "Operands must be two numbers or two strings.")),
        };
    }
    if t == TokenType::Minus || t == TokenType::Star || t == TokenType::Slash || t
        == TokenType::Greater || t == TokenType::GreaterEqual || t == TokenType::Less || t
        == TokenType::LessEqual {
        let (a, b) = match (l, r) {
            (Object::Number(a), Object::Number(b)) => (a, b),
            _ => return Err(type_mismatch(operator, "Operands must be numbers.")),
        };
        let value = if t == TokenType::Minus {
            Object::Number(float_sub(a, b))
        } else if t == TokenType::Star {
            Object::Number(float_mul(a, b))
        } else if t == TokenType::Slash {
            Object::Number(float_div(a, b))
        } else if t == TokenType::Greater {
            Object::Boolean(less(b, a))
        } else if t == TokenType::GreaterEqual {
            Object::Boolean(less(b, a) || equal(a, b))
        } else if t == TokenType::Less {
            Object::Boolean(less(a, b))
        } else {
            Object::Boolean(less(a, b) || equal(a, b))
        };
        return Ok(value);
    }
    Err(RLoxError::UnknownOperator(operator.duplicate()))
}

/// The display form of a value.
pub fn display_value(v: &Object) -> (r: String)
    ensures
        r@ == display(v@),
{
    match v {
        Object::Nil => String::new(),
        Object::Boolean(b) => if *b {
            String::from_str("true")
        } else {
            String::from_str("false")
        },
        Object::Number(n) => number_to_text(*n),
        Object::String(s) => s.clone(),
    }
}

/// An interpreter holding the environment of one run.
pub struct Interpreter {
    pub environment: Environment,
}

impl Interpreter {
    /// An interpreter with no bindings.
    pub fn new() -> (r: Interpreter)
        ensures
            r.environment.wf(),
            r.environment@ == Map::<Seq<char>, Value>::empty(),
    {
        Interpreter { environment: Environment::new() }
    }

    /// The value of `expr` in the current bindings.
    pub fn evaluate(&self, expr: &Expr) -> (r: Result<Object, RLoxError>)
        requires
            self.environment.wf(),
        ensures
            outcome_view(r) == eval(*expr, self.environment@),
        decreases expr,
    {
        match expr {
            Expr::Literal { value } => Ok(value.duplicate()),
            Expr::Grouping { expression } => self.evaluate(expression),
            Expr::Variable { name } => self.environment.get(name),
            Expr::Unary { operator, right } => {
                let v = match self.evaluate(right) {
                    Ok(v) => v,
                    Err(e) => return Err(e),
                };
                unary_value(operator, v)
            },
            Expr::Binary { left, operator, right } => {
                let l = match self.evaluate(left) {
                    Ok(v) => v,
                    Err(e) => return Err(e),
                };
                let r = match self.evaluate(right) {
                    Ok(v) => v,
                    Err(e) => return Err(e),
                };
                binary_value(operator, l, r)
            },
        }
    }

    /// Executes `statements` in order: returns the lines that `print`
    /// wrote, and the runtime error that stopped the run, if any.
    pub fn interpret(&mut self, statements: &Vec<Stmt>) -> (r: (Vec<String>, Result<(), RLoxError>))
        requires
            old(self).environment.wf(),
        ensures
            final(self).environment.wf(),
            ({
                let model = run(statements@, old(self).environment@);
                &&& texts(r.0@) == model.printed
                &&& final(self).environment@ == model.env
                &&& match r.1 {
                    Ok(_) => model.fault is None,
                    Err(e) => model.fault == Some(e@),
                }
            }),
    {
        let ghost env0 = self.environment@;
        let mut output: Vec<String> = Vec::new();
        let mut i: usize = 0;
        assert(statements@.skip(0) =~= statements@);
        assert(texts(output@) + run(statements@, env0).printed =~= run(
            statements@,
            env0,
        ).printed);
        while i < statements.len()
            invariant
                self.environment.wf(),
                env0 == old(self).environment@,
                i <= statements@.len(),
                ({
                    let now = run(statements@.skip(i as int), self.environment@);
                    let all = run(statements@, env0);
                    &&& texts(output@) + now.printed == all.printed
                    &&& now.env == all.env
                    &&& now.fault == all.fault
                }),
            decreases statements@.len() - i,
        {
            let ghost before = texts(output@);
            let ghost env = self.environment@;
            let ghost rest = statements@.skip(i as int);
            assert(rest.drop_first() =~= statements@.skip(i + 1));
            assert(rest[0] == statements@[i as int]);
            match &statements[i] {
                Stmt::Expression { expression } => {
                    match self.evaluate(expression) {
                        Ok(_) => {},
                        Err(e) => {
                            assert(before + run(rest, env).printed =~= before);
                            return (output, Err(e));
                        },
                    }
                },
                Stmt::Print { expression } => {
                    let v = match self.evaluate(expression) {
                        Ok(v) => v,
                        Err(e) => {
                            assert(before + run(rest, env).printed =~= before);
                            return (output, Err(e));
                        },
                    };
                    output.push(display_value(&v));
                    assert(texts(output@) =~= before.push(display(v@)));
                    assert(before + run(rest, env).printed =~= texts(output@)
                        + run(statements@.skip(i + 1), env).printed);
                },
                Stmt::Var { name, initializer } => {
                    let v = match self.evaluate(initializer) {
                        Ok(v) => v,
                        Err(e) => {
                            assert(before + run(rest, env).printed =~= before);
                            return (output, Err(e));
                        },
                    };
                    self.environment.define(name.lexeme.clone(), v);
                },
            }
            i = i + 1;
        }
        proof {
            assert(statements@.skip(i as int).len() == 0);
            assert(texts(output@) + Seq::<Seq<char>>::empty()
                =~= texts(output@));
        }
        (output, Ok(()))
    }
}

} // verus!
