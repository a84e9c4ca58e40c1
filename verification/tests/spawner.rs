use bytecode_interpreter::{
    new_channel, spawn, ByteCode, ByteCodeInterpreter, Channel, Channels, EvalError, Operator, Task,
    Turns,
};

fn lit(value: i32) -> ByteCode {
    ByteCode::LoadVal(value)
}

fn send(channel: usize, values: Vec<i32>) -> ByteCode {
    ByteCode::Send { channel, values: values.into_iter().map(lit).collect() }
}

fn recv(channel: usize) -> ByteCode {
    ByteCode::Recv { channel }
}

fn binary(op: Operator, lhs: ByteCode, rhs: ByteCode) -> ByteCode {
    ByteCode::BinaryExpression { op, lhs: Box::new(lhs), rhs: Box::new(rhs) }
}

fn read(name: char) -> ByteCode {
    ByteCode::ReadVar { var: name }
}

fn write(name: char, value: ByteCode) -> ByteCode {
    ByteCode::WriteVar { lhs: name, val: Box::new(value) }
}

fn counted(counter: char, from: i32, to: i32, body: Vec<ByteCode>) -> ByteCode {
    ByteCode::Loop {
        counter,
        from: Box::new(lit(from)),
        to: Box::new(lit(to)),
        increment_by: Box::new(lit(1)),
        body,
    }
}

/// Receives three values and yields them as the digits of one number.
fn three_receives(channel: usize) -> ByteCode {
    binary(
        Operator::Add,
        binary(Operator::Multiply, recv(channel), lit(100)),
        binary(Operator::Add, binary(Operator::Multiply, recv(channel), lit(10)), recv(channel)),
    )
}

fn failed(error: EvalError) -> Result<i32, EvalError> {
    Err(EvalError::TaskFailure(Box::new(error)))
}

#[test]
fn a_value_sent_by_one_task_reaches_the_other() {
    let mut channels: Vec<Channel> = vec![new_channel(None)];
    let (a, b) = spawn(send(0, vec![42]), recv(0), &mut channels);
    assert_eq!(a.join(), Ok(42));
    assert_eq!(b.join(), Ok(42));
    assert!(channels[0].is_closed());
    assert_eq!(channels[0].len(), 0);
}

#[test]
fn the_receiver_may_come_first() {
    let mut channels: Vec<Channel> = vec![new_channel(None)];
    let (a, b) = spawn(recv(0), send(0, vec![42]), &mut channels);
    assert_eq!(a.join(), Ok(42));
    assert_eq!(b.join(), Ok(42));
    assert!(channels[0].is_closed());
}

#[test]
fn three_values_arrive_in_the_order_sent() {
    let mut channels: Vec<Channel> = vec![new_channel(None)];
    let (a, b) = spawn(send(0, vec![1, 2, 3]), three_receives(0), &mut channels);
    assert_eq!(a.join(), Ok(3));
    assert_eq!(b.join(), Ok(123));
    let mut channels: Vec<Channel> = vec![new_channel(None)];
    let (b, a) = spawn(three_receives(0), send(0, vec![1, 2, 3]), &mut channels);
    assert_eq!(a.join(), Ok(3));
    assert_eq!(b.join(), Ok(123));
}

#[test]
fn values_sent_one_by_one_arrive_in_order() {
    let sender = counted('i', 1, 4, vec![ByteCode::Send { channel: 0, values: vec![read('i')] }]);
    let mut channels: Vec<Channel> = vec![new_channel(None)];
    let (b, a) = spawn(three_receives(0), sender, &mut channels);
    assert_eq!(a.join(), Ok(3));
    assert_eq!(b.join(), Ok(123));
}

#[test]
fn a_bounded_channel_makes_the_sender_wait() {
    let sender = counted('i', 1, 4, vec![ByteCode::Send { channel: 0, values: vec![read('i')] }]);
    let mut channels: Vec<Channel> = vec![new_channel(Some(1))];
    let (a, b) = spawn(sender, three_receives(0), &mut channels);
    assert_eq!(a.join(), Ok(3));
    assert_eq!(b.join(), Ok(123));
    assert_eq!(channels[0].len(), 0);
}

#[test]
fn tasks_answer_each_other() {
    let asker = binary(
        Operator::Add,
        ByteCode::Send { channel: 0, values: vec![lit(20)] },
        recv(1),
    );
    let doubler = ByteCode::Send {
        channel: 1,
        values: vec![binary(Operator::Multiply, recv(0), lit(2))],
    };
    let mut channels: Vec<Channel> = vec![new_channel(None), new_channel(None)];
    let (a, b) = spawn(asker, doubler, &mut channels);
    assert_eq!(a.join(), Ok(60));
    assert_eq!(b.join(), Ok(40));
}

#[test]
fn variables_survive_a_wait() {
    let program = binary(
        Operator::Add,
        write('x', lit(5)),
        binary(Operator::Add, recv(0), binary(Operator::Multiply, read('x'), recv(0))),
    );
    let feeder = counted('i', 0, 2, vec![ByteCode::Send { channel: 0, values: vec![lit(3)] }]);
    let mut channels: Vec<Channel> = vec![new_channel(Some(1))];
    let (a, b) = spawn(program, feeder, &mut channels);
    assert_eq!(a.join(), Ok(5 + 3 + 5 * 3));
    assert_eq!(b.join(), Ok(3));
}

#[test]
fn tasks_share_no_variables() {
    let mut channels: Vec<Channel> = vec![];
    let (a, b) = spawn(write('x', lit(1)), read('x'), &mut channels);
    assert_eq!(a.join(), Ok(1));
    assert_eq!(b.join(), failed(EvalError::UnboundVariable('x')));
}

#[test]
fn a_task_without_channel_operations_ends_by_itself() {
    let mut channels: Vec<Channel> = vec![new_channel(None)];
    let (a, b) = spawn(binary(Operator::Add, lit(1), lit(2)), lit(7), &mut channels);
    assert_eq!(a.join(), Ok(3));
    assert_eq!(b.join(), Ok(7));
    assert!(channels[0].is_closed());
}

#[test]
fn a_failure_shows_when_the_task_is_joined() {
    let mut channels: Vec<Channel> = vec![new_channel(None)];
    let failing = binary(Operator::Divide, lit(1), lit(0));
    let (a, b) = spawn(failing, lit(7), &mut channels);
    assert_eq!(a.join(), failed(EvalError::DivisionByZero));
    assert_eq!(b.join(), Ok(7));
}

#[test]
fn a_failure_leaves_the_sibling_to_itself() {
    let mut channels: Vec<Channel> = vec![new_channel(None)];
    let failing = binary(Operator::Add, send(0, vec![9]), read('q'));
    let (a, b) = spawn(failing, recv(0), &mut channels);
    assert_eq!(a.join(), failed(EvalError::UnboundVariable('q')));
    assert_eq!(b.join(), Ok(9));
}

#[test]
fn tasks_that_wait_for_each_other_fail_with_a_closed_channel() {
    let mut channels: Vec<Channel> = vec![new_channel(None), new_channel(None)];
    let (a, b) = spawn(recv(0), recv(1), &mut channels);
    assert_eq!(a.join(), failed(EvalError::ChannelClosed));
    assert_eq!(b.join(), failed(EvalError::ChannelClosed));
    assert!(channels[0].is_closed());
    assert!(channels[1].is_closed());
}

#[test]
fn a_task_that_waits_for_an_ended_sibling_fails_with_a_closed_channel() {
    let mut channels: Vec<Channel> = vec![new_channel(None)];
    let (a, b) = spawn(binary(Operator::Add, recv(0), recv(0)), send(0, vec![1]), &mut channels);
    assert_eq!(a.join(), failed(EvalError::ChannelClosed));
    assert_eq!(b.join(), Ok(1));
}

#[test]
fn a_send_that_never_fits_fails_with_a_closed_channel() {
    let mut channels: Vec<Channel> = vec![new_channel(Some(1))];
    let (a, b) = spawn(send(0, vec![1, 2]), recv(0), &mut channels);
    assert_eq!(a.join(), failed(EvalError::ChannelClosed));
    assert_eq!(b.join(), failed(EvalError::ChannelClosed));
}

#[test]
fn what_was_sent_and_not_received_stays_in_the_closed_channel() {
    let mut channels: Vec<Channel> = vec![new_channel(None)];
    let (a, b) = spawn(send(0, vec![1, 2, 3]), recv(0), &mut channels);
    assert_eq!(a.join(), Ok(3));
    assert_eq!(b.join(), Ok(1));
    assert!(channels[0].is_closed());
    assert_eq!(channels[0].recv(), Ok(2));
    assert_eq!(channels[0].recv(), Ok(3));
    assert_eq!(channels[0].recv(), Err(bytecode_interpreter::ChannelError::Closed));
}

#[test]
fn tasks_meet_channels_that_hold_values_already() {
    let mut first: Channel = new_channel(None);
    assert_eq!(first.send(vec![5]), Ok(()));
    let mut channels = vec![first];
    let (a, b) = spawn(recv(0), recv(0), &mut channels);
    assert_eq!(a.join(), Ok(5));
    assert_eq!(b.join(), failed(EvalError::ChannelClosed));
}

#[test]
fn a_reference_to_no_channel_fails_the_task() {
    let mut channels: Vec<Channel> = vec![];
    let (a, b) = spawn(recv(0), send(2, vec![1]), &mut channels);
    assert_eq!(a.join(), failed(EvalError::UnknownChannel(0)));
    assert_eq!(b.join(), failed(EvalError::UnknownChannel(2)));
}

#[test]
fn the_interpreter_spawns_with_its_own_stack_limit() {
    let shallow = ByteCodeInterpreter::with_stack_limit(1);
    let mut channels: Vec<Channel> = vec![new_channel(None)];
    let (a, b) = <ByteCodeInterpreter as Channels<i32>>::spawn(
        &shallow,
        Box::new(recv(0)),
        Box::new(send(0, vec![4])),
        &mut channels,
    );
    assert_eq!(a.join(), failed(EvalError::ChannelClosed));
    assert_eq!(b.join(), failed(EvalError::StackLimitExceeded));
    let standard = ByteCodeInterpreter::new();
    let mut channels: Vec<Channel> = vec![new_channel(None)];
    let (a, b) = <ByteCodeInterpreter as Channels<i32>>::spawn(
        &standard,
        Box::new(recv(0)),
        Box::new(send(0, vec![4])),
        &mut channels,
    );
    assert_eq!(a.join(), Ok(4));
    assert_eq!(b.join(), Ok(4));
}

#[test]
fn a_task_is_taken_up_where_it_waited() {
    let interpreter = ByteCodeInterpreter::new();
    let mut channels: Vec<Channel> = vec![new_channel(None)];
    let mut task = Task::new(three_receives(0));
    assert!(!task.is_finished());
    assert!(!task.resume(&interpreter, &mut channels));
    assert_eq!(task.completed(), 0);
    assert_eq!(channels[0].send(vec![1, 2]), Ok(()));
    assert!(!task.resume(&interpreter, &mut channels));
    assert_eq!(task.completed(), 2);
    assert_eq!(channels[0].len(), 0);
    assert!(!task.resume(&interpreter, &mut channels));
    assert_eq!(task.completed(), 2);
    assert_eq!(channels[0].send(vec![3, 4]), Ok(()));
    assert!(task.resume(&interpreter, &mut channels));
    assert!(task.is_finished());
    assert_eq!(task.completed(), 3);
    assert_eq!(channels[0].len(), 1);
    assert!(task.resume(&interpreter, &mut channels));
    assert_eq!(channels[0].len(), 1);
    assert_eq!(task.into_handle().join(), Ok(123));
}

#[test]
fn a_task_sends_each_value_once() {
    let interpreter = ByteCodeInterpreter::new();
    let mut channels: Vec<Channel> = vec![new_channel(None), new_channel(None)];
    let program = binary(Operator::Add, send(0, vec![8]), recv(1));
    let mut task = Task::new(program);
    assert!(!task.resume(&interpreter, &mut channels));
    assert!(!task.resume(&interpreter, &mut channels));
    assert_eq!(channels[0].len(), 1);
    assert_eq!(channels[1].send(vec![2]), Ok(()));
    assert!(task.resume(&interpreter, &mut channels));
    assert_eq!(channels[0].len(), 1);
    assert_eq!(task.into_handle().join(), Ok(10));
}

#[test]
fn an_abandoned_task_fails_with_a_closed_channel() {
    let interpreter = ByteCodeInterpreter::new();
    let mut channels: Vec<Channel> = vec![new_channel(None)];
    let mut waiting = Task::new(recv(0));
    assert!(!waiting.resume(&interpreter, &mut channels));
    waiting.abandon();
    assert!(waiting.is_finished());
    assert_eq!(waiting.into_handle().join(), failed(EvalError::ChannelClosed));
    let mut closed = Task::new(recv(0));
    assert!(!closed.resume(&interpreter, &mut channels));
    channels[0].close();
    assert!(closed.resume(&interpreter, &mut channels));
    assert_eq!(closed.into_handle().join(), failed(EvalError::ChannelClosed));
    let unfinished = Task::new(recv(0));
    assert_eq!(unfinished.into_handle().join(), failed(EvalError::ChannelClosed));
    let mut done = Task::new(lit(1));
    assert!(done.resume(&interpreter, &mut channels));
    done.abandon();
    assert_eq!(done.into_handle().join(), Ok(1));
}

#[test]
fn turns_tell_a_standstill() {
    let mut turns = Turns::new(2);
    assert_eq!(turns.running(), 2);
    assert_eq!(turns.round(), 0);
    assert!(!turns.at_standstill());
    // The first task waits, the second completes an operation and waits.
    assert!(!turns.record(false, false));
    assert!(!turns.record(false, true));
    assert_eq!(turns.round(), 1);
    // The first task is taken up, completes nothing and waits: all wait.
    assert!(turns.record(false, false));
    assert!(turns.at_standstill());
    assert_eq!(turns.running(), 2);
}

#[test]
fn turns_count_down_to_the_end() {
    let mut turns = Turns::new(2);
    assert!(!turns.record(false, false));
    assert!(!turns.record(true, true));
    assert_eq!(turns.running(), 1);
    assert_eq!(turns.round(), 1);
    assert!(!turns.record(true, true));
    assert_eq!(turns.running(), 0);
    assert_eq!(turns.round(), 2);
    assert!(!turns.record(true, false));
    assert_eq!(turns.running(), 0);
    assert!(!turns.at_standstill());
}

#[test]
fn turns_tell_a_task_that_waits_alone() {
    let mut turns = Turns::new(2);
    assert!(!turns.record(false, false));
    assert!(turns.record(true, false));
    assert_eq!(turns.running(), 1);
    let mut turns = Turns::new(2);
    assert!(!turns.record(true, false));
    assert!(turns.record(false, true));
}
