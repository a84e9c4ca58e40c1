use bytecode_interpreter::{
    evaluate, ByteCode, ByteCodeInterpreter, Environment, EvalError, Operator, DEFAULT_STACK_LIMIT,
};

fn lit(value: i32) -> Box<ByteCode> {
    Box::new(ByteCode::LoadVal(value))
}

fn read(name: char) -> Box<ByteCode> {
    Box::new(ByteCode::ReadVar { var: name })
}

fn write(name: char, value: Box<ByteCode>) -> ByteCode {
    ByteCode::WriteVar { lhs: name, val: value }
}

fn binary(op: Operator, lhs: Box<ByteCode>, rhs: Box<ByteCode>) -> ByteCode {
    ByteCode::BinaryExpression { op, lhs, rhs }
}

fn counted(counter: char, from: i32, to: i32, step: i32, body: Vec<ByteCode>) -> ByteCode {
    ByteCode::Loop { counter, from: lit(from), to: lit(to), increment_by: lit(step), body }
}

fn nested(levels: usize) -> ByteCode {
    let mut node = ByteCode::LoadVal(1);
    let mut level = 1;
    while level < levels {
        node = ByteCode::ReturnValue { node: Box::new(node) };
        level += 1;
    }
    node
}

#[test]
fn literal_yields_its_value() {
    let mut env = Environment::new();
    assert_eq!(evaluate(&ByteCode::LoadVal(-42), &mut env), Ok(-42));
}

#[test]
fn division_of_literals_truncates_toward_zero() {
    let cases = [(7, 2, 3), (-7, 2, -3), (7, -2, -3), (-7, -2, 3), (0, 5, 0), (6, 3, 2), (1, i32::MAX, 0)];
    for (a, b, expected) in cases {
        let mut env = Environment::new();
        assert_eq!(evaluate(&binary(Operator::Divide, lit(a), lit(b)), &mut env), Ok(expected));
        assert_eq!(expected, a / b);
    }
}

#[test]
fn division_by_zero_fails() {
    let mut env = Environment::new();
    let node = binary(Operator::Divide, lit(1), lit(0));
    assert_eq!(evaluate(&node, &mut env), Err(EvalError::DivisionByZero));
    let node = binary(Operator::Divide, lit(0), lit(0));
    assert_eq!(evaluate(&node, &mut env), Err(EvalError::DivisionByZero));
}

#[test]
fn division_of_the_least_value_by_minus_one_wraps() {
    let mut env = Environment::new();
    let node = binary(Operator::Divide, lit(i32::MIN), lit(-1));
    assert_eq!(evaluate(&node, &mut env), Ok(i32::MIN));
}

#[test]
fn arithmetic_is_exact_where_it_fits() {
    let mut env = Environment::new();
    assert_eq!(evaluate(&binary(Operator::Add, lit(40), lit(2)), &mut env), Ok(42));
    assert_eq!(evaluate(&binary(Operator::Subtract, lit(40), lit(2)), &mut env), Ok(38));
    assert_eq!(evaluate(&binary(Operator::Multiply, lit(-6), lit(7)), &mut env), Ok(-42));
}

#[test]
fn arithmetic_wraps_around() {
    let mut env = Environment::new();
    assert_eq!(evaluate(&binary(Operator::Add, lit(i32::MAX), lit(1)), &mut env), Ok(i32::MIN));
    assert_eq!(evaluate(&binary(Operator::Subtract, lit(i32::MIN), lit(1)), &mut env), Ok(i32::MAX));
    assert_eq!(evaluate(&binary(Operator::Multiply, lit(65536), lit(65536)), &mut env), Ok(0));
    assert_eq!(evaluate(&binary(Operator::Multiply, lit(i32::MAX), lit(2)), &mut env), Ok(-2));
}

#[test]
fn operator_apply_matches_the_evaluator() {
    assert_eq!(Operator::Add.apply(2, 3), Ok(5));
    assert_eq!(Operator::Subtract.apply(2, 3), Ok(-1));
    assert_eq!(Operator::Multiply.apply(2, 3), Ok(6));
    assert_eq!(Operator::Divide.apply(-9, 2), Ok(-4));
    assert_eq!(Operator::Divide.apply(9, 0), Err(EvalError::DivisionByZero));
}

#[test]
fn assignment_is_visible_to_a_later_read() {
    let mut env = Environment::new();
    assert_eq!(evaluate(&write('x', lit(5)), &mut env), Ok(5));
    assert_eq!(evaluate(&read('x'), &mut env), Ok(5));
    assert_eq!(env.get('x'), Ok(5));
}

#[test]
fn assignment_overwrites() {
    let mut env = Environment::new();
    assert_eq!(evaluate(&write('x', lit(5)), &mut env), Ok(5));
    assert_eq!(evaluate(&write('y', lit(6)), &mut env), Ok(6));
    assert_eq!(evaluate(&write('x', lit(7)), &mut env), Ok(7));
    assert_eq!(evaluate(&read('x'), &mut env), Ok(7));
    assert_eq!(evaluate(&read('y'), &mut env), Ok(6));
}

#[test]
fn names_are_case_sensitive() {
    let mut env = Environment::new();
    env.set('x', 1);
    assert_eq!(evaluate(&read('X'), &mut env), Err(EvalError::UnboundVariable('X')));
}

#[test]
fn read_of_an_unbound_variable_fails() {
    let mut env = Environment::new();
    assert_eq!(evaluate(&read('x'), &mut env), Err(EvalError::UnboundVariable('x')));
    assert_eq!(env.get('x'), Err(EvalError::UnboundVariable('x')));
}

#[test]
fn environment_set_and_get() {
    let mut env = Environment::new();
    env.set('a', 1);
    env.set('b', 2);
    env.set('a', 3);
    assert_eq!(env.get('a'), Ok(3));
    assert_eq!(env.get('b'), Ok(2));
    assert_eq!(env.get('c'), Err(EvalError::UnboundVariable('c')));
}

#[test]
fn a_failed_assignment_binds_nothing() {
    let mut env = Environment::new();
    let node = write('x', Box::new(binary(Operator::Divide, lit(1), lit(0))));
    assert_eq!(evaluate(&node, &mut env), Err(EvalError::DivisionByZero));
    assert_eq!(env.get('x'), Err(EvalError::UnboundVariable('x')));
}

#[test]
fn operands_are_evaluated_left_to_right() {
    let mut env = Environment::new();
    let node = binary(
        Operator::Subtract,
        Box::new(write('x', lit(10))),
        Box::new(binary(Operator::Multiply, read('x'), lit(3))),
    );
    assert_eq!(evaluate(&node, &mut env), Ok(-20));
    let mut env = Environment::new();
    let node = binary(Operator::Add, read('x'), Box::new(write('x', lit(1))));
    assert_eq!(evaluate(&node, &mut env), Err(EvalError::UnboundVariable('x')));
    assert_eq!(env.get('x'), Err(EvalError::UnboundVariable('x')));
}

#[test]
fn loop_binds_the_counter_and_keeps_the_last_value() {
    let mut env = Environment::new();
    let node = counted('i', 0, 10, 3, vec![write('l', read('i'))]);
    assert_eq!(evaluate(&node, &mut env), Ok(9));
    assert_eq!(evaluate(&read('l'), &mut env), Ok(9));
    assert_eq!(evaluate(&read('i'), &mut env), Ok(9));
}

#[test]
fn loop_excludes_its_upper_bound() {
    let mut env = Environment::new();
    let node = counted('i', 0, 9, 3, vec![write('l', read('i'))]);
    assert_eq!(evaluate(&node, &mut env), Ok(6));
    assert_eq!(env.get('l'), Ok(6));
}

#[test]
fn loop_ends_at_the_last_counter_below_its_bound() {
    let cases =
        [(2, 11, 4, 10), (2, 10, 4, 6), (-5, 5, 5, 0), (-7, -6, 3, -7), (0, 1, 1, 0), (3, 100, 1000, 3)];
    for (from, to, step, expected) in cases {
        let mut env = Environment::new();
        let node = counted('i', from, to, step, vec![write('l', read('i'))]);
        assert_eq!(evaluate(&node, &mut env), Ok(expected));
        assert_eq!(env.get('l'), Ok(expected));
        assert_eq!(env.get('i'), Ok(expected));
        assert_eq!(expected, from + step * ((to - 1 - from) / step));
    }
}

#[test]
fn loop_without_a_body_yields_the_last_counter() {
    let mut env = Environment::new();
    assert_eq!(evaluate(&counted('i', 0, 10, 3, vec![]), &mut env), Ok(9));
    assert_eq!(env.get('i'), Ok(9));
}

#[test]
fn loop_with_no_iteration_yields_zero_and_changes_nothing() {
    let mut env = Environment::new();
    env.set('l', 77);
    let node = counted('i', 5, 5, 1, vec![write('l', read('i'))]);
    assert_eq!(evaluate(&node, &mut env), Ok(0));
    assert_eq!(env.get('l'), Ok(77));
    assert_eq!(env.get('i'), Err(EvalError::UnboundVariable('i')));
    let node = counted('i', 5, -5, 2, vec![write('l', read('i'))]);
    assert_eq!(evaluate(&node, &mut env), Ok(0));
    assert_eq!(env.get('l'), Ok(77));
}

#[test]
fn loop_with_a_step_that_is_not_positive_fails() {
    let mut env = Environment::new();
    assert_eq!(evaluate(&counted('i', 0, 10, 0, vec![]), &mut env), Err(EvalError::InvalidStep));
    assert_eq!(evaluate(&counted('i', 0, 10, -1, vec![]), &mut env), Err(EvalError::InvalidStep));
    assert_eq!(evaluate(&counted('i', 5, 5, 0, vec![]), &mut env), Err(EvalError::InvalidStep));
    assert_eq!(env.get('i'), Err(EvalError::UnboundVariable('i')));
}

#[test]
fn loop_body_accumulates_across_iterations() {
    let mut env = Environment::new();
    env.set('s', 0);
    let body = vec![write('s', Box::new(binary(Operator::Add, read('s'), read('i'))))];
    assert_eq!(evaluate(&counted('i', 1, 5, 1, body), &mut env), Ok(10));
    assert_eq!(env.get('s'), Ok(10));
}

#[test]
fn loop_runs_its_statements_in_order() {
    let mut env = Environment::new();
    let body = vec![
        write('a', read('i')),
        write('b', Box::new(binary(Operator::Multiply, read('a'), lit(2)))),
    ];
    assert_eq!(evaluate(&counted('i', 0, 4, 1, body), &mut env), Ok(6));
    assert_eq!(env.get('a'), Ok(3));
    assert_eq!(env.get('b'), Ok(6));
}

#[test]
fn loop_evaluates_its_bounds_once() {
    let mut env = Environment::new();
    env.set('n', 3);
    env.set('c', 0);
    let node = ByteCode::Loop {
        counter: 'i',
        from: lit(0),
        to: read('n'),
        increment_by: lit(1),
        body: vec![
            write('n', lit(100)),
            write('c', Box::new(binary(Operator::Add, read('c'), lit(1)))),
        ],
    };
    assert_eq!(evaluate(&node, &mut env), Ok(3));
    assert_eq!(env.get('c'), Ok(3));
}

#[test]
fn loop_rebinds_the_counter_whatever_the_body_assigns() {
    let mut env = Environment::new();
    env.set('c', 0);
    let body = vec![
        write('i', lit(1000)),
        write('c', Box::new(binary(Operator::Add, read('c'), lit(1)))),
    ];
    assert_eq!(evaluate(&counted('i', 0, 3, 1, body), &mut env), Ok(3));
}

#[test]
fn loop_stops_where_the_counter_would_leave_the_integers() {
    let mut env = Environment::new();
    env.set('c', 0);
    let body = vec![write('c', Box::new(binary(Operator::Add, read('c'), lit(1))))];
    let node = counted('i', i32::MAX - 1, i32::MAX, i32::MAX, body);
    assert_eq!(evaluate(&node, &mut env), Ok(1));
    assert_eq!(env.get('i'), Ok(i32::MAX - 1));
    let node = counted('i', i32::MIN, i32::MAX, i32::MAX, vec![]);
    assert_eq!(evaluate(&node, &mut env), Ok(i32::MAX - 1));
}

#[test]
fn loop_passes_on_the_failure_of_its_body() {
    let mut env = Environment::new();
    let body = vec![write('x', Box::new(binary(Operator::Divide, lit(6), read('i'))))];
    assert_eq!(evaluate(&counted('i', -2, 3, 1, body), &mut env), Err(EvalError::DivisionByZero));
    assert_eq!(env.get('x'), Ok(-6));
    assert_eq!(env.get('i'), Ok(0));
}

#[test]
fn return_yields_its_value() {
    let mut env = Environment::new();
    let node = ByteCode::ReturnValue { node: lit(8) };
    assert_eq!(evaluate(&node, &mut env), Ok(8));
}

#[test]
fn return_leaves_the_loop_at_once() {
    let mut env = Environment::new();
    let body = vec![
        write('a', read('i')),
        ByteCode::ReturnValue { node: Box::new(binary(Operator::Add, read('i'), lit(100))) },
        write('b', lit(1)),
    ];
    assert_eq!(evaluate(&counted('i', 4, 10, 1, body), &mut env), Ok(104));
    assert_eq!(env.get('a'), Ok(4));
    assert_eq!(env.get('b'), Err(EvalError::UnboundVariable('b')));
}

#[test]
fn return_ends_the_whole_run() {
    let mut env = Environment::new();
    let inner = counted('j', 0, 3, 1, vec![ByteCode::ReturnValue { node: lit(7) }]);
    let outer = counted('i', 0, 3, 1, vec![inner, write('x', lit(1))]);
    let node = binary(Operator::Add, Box::new(outer), Box::new(write('y', lit(1))));
    assert_eq!(evaluate(&node, &mut env), Ok(7));
    assert_eq!(env.get('i'), Ok(0));
    assert_eq!(env.get('j'), Ok(0));
    assert_eq!(env.get('x'), Err(EvalError::UnboundVariable('x')));
    assert_eq!(env.get('y'), Err(EvalError::UnboundVariable('y')));
}

#[test]
fn return_skips_the_assignment_around_it() {
    let mut env = Environment::new();
    let node = write('x', Box::new(ByteCode::ReturnValue { node: lit(3) }));
    assert_eq!(evaluate(&node, &mut env), Ok(3));
    assert_eq!(env.get('x'), Err(EvalError::UnboundVariable('x')));
}

#[test]
fn an_error_in_a_return_is_the_error() {
    let mut env = Environment::new();
    let node = ByteCode::ReturnValue { node: read('q') };
    assert_eq!(evaluate(&node, &mut env), Err(EvalError::UnboundVariable('q')));
}

#[test]
fn nesting_is_bounded_by_the_stack_limit() {
    let mut env = Environment::new();
    assert_eq!(evaluate(&nested(DEFAULT_STACK_LIMIT), &mut env), Ok(1));
    assert_eq!(evaluate(&nested(DEFAULT_STACK_LIMIT + 1), &mut env), Err(EvalError::StackLimitExceeded));
}

#[test]
fn the_stack_limit_can_be_chosen() {
    let mut env = Environment::new();
    let shallow = ByteCodeInterpreter::with_stack_limit(2);
    assert_eq!(shallow.stack_limit(), 2);
    assert_eq!(shallow.interpret_operations(&nested(2), &mut env), Ok(1));
    assert_eq!(shallow.interpret_operations(&nested(3), &mut env), Err(EvalError::StackLimitExceeded));
    let none = ByteCodeInterpreter::with_stack_limit(0);
    assert_eq!(none.interpret_operations(&nested(1), &mut env), Err(EvalError::StackLimitExceeded));
    let standard = ByteCodeInterpreter::new();
    assert_eq!(standard.stack_limit(), DEFAULT_STACK_LIMIT);
    assert_eq!(standard.interpret_operations(&nested(3), &mut env), Ok(1));
}

#[test]
fn statements_of_a_body_are_one_level_below_their_loop() {
    let mut env = Environment::new();
    let interpreter = ByteCodeInterpreter::with_stack_limit(2);
    let node = counted('i', 0, 1, 1, vec![ByteCode::LoadVal(5)]);
    assert_eq!(interpreter.interpret_operations(&node, &mut env), Ok(5));
    let node = counted('i', 0, 1, 1, vec![write('x', lit(5))]);
    assert_eq!(interpreter.interpret_operations(&node, &mut env), Err(EvalError::StackLimitExceeded));
    assert_eq!(env.get('i'), Ok(0));
}

#[test]
fn interpret_operations_keeps_the_environment_between_calls() {
    let interpreter = ByteCodeInterpreter::new();
    let mut env = Environment::new();
    assert_eq!(interpreter.interpret_operations(&write('x', lit(2)), &mut env), Ok(2));
    let node = binary(Operator::Multiply, read('x'), read('x'));
    assert_eq!(interpreter.interpret_operations(&node, &mut env), Ok(4));
}

#[test]
fn defaults_are_fresh() {
    let mut env = Environment::default();
    assert_eq!(env.get('x'), Err(EvalError::UnboundVariable('x')));
    let interpreter = ByteCodeInterpreter::default();
    assert_eq!(interpreter.stack_limit(), DEFAULT_STACK_LIMIT);
    let node = ByteCode::Recv { channel: 0 };
    assert_eq!(interpreter.interpret_operations(&node, &mut env), Err(EvalError::UnknownChannel(0)));
}
