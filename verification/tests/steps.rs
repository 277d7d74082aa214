use sctp::steps::{
    after_connect_call, after_detailed_read, after_send, after_wait_call, connect_result,
    received_len, recv_gate, sent_len, CallOutcome, ConnectNext, ConnectResult, ErrorCodes, Next,
    RecvGate, SendNext, NOTIFICATION_HANDLED,
};

const CODES: ErrorCodes = ErrorCodes { would_block: 11, in_progress: 115 };

#[test]
fn send_decisions() {
    assert_eq!(after_send(false, CallOutcome::Done, CODES), (false, SendNext::Finish));
    assert_eq!(after_send(false, CallOutcome::Failed(Some(11)), CODES), (false, SendNext::Retry));
    assert_eq!(after_send(false, CallOutcome::Failed(Some(32)), CODES), (true, SendNext::GiveUp));
    assert_eq!(after_send(false, CallOutcome::Failed(None), CODES), (true, SendNext::GiveUp));
    assert_eq!(after_send(true, CallOutcome::Done, CODES), (true, SendNext::Finish));
}

#[test]
fn failed_connection_reads_end_of_stream() {
    let (failed, next) = after_send(false, CallOutcome::Failed(Some(104)), CODES);
    assert_eq!(next, SendNext::GiveUp);
    assert_eq!(recv_gate(failed), RecvGate::EndOfStream);
    let (still, _) = after_send(failed, CallOutcome::Done, CODES);
    assert!(still);
    assert_eq!(recv_gate(false), RecvGate::Receive);
}

#[test]
fn wait_call_decisions() {
    assert_eq!(after_wait_call(CallOutcome::Failed(Some(11)), CODES), Next::Retry);
    assert_eq!(after_wait_call(CallOutcome::Failed(Some(4)), CODES), Next::Finish);
    assert_eq!(after_wait_call(CallOutcome::Failed(None), CODES), Next::Finish);
    assert_eq!(after_wait_call(CallOutcome::Done, CODES), Next::Finish);
}

#[test]
fn connect_decisions() {
    assert_eq!(after_connect_call(CallOutcome::Done, CODES), ConnectNext::AwaitResult);
    assert_eq!(after_connect_call(CallOutcome::Failed(Some(115)), CODES), ConnectNext::AwaitResult);
    assert_eq!(after_connect_call(CallOutcome::Failed(Some(111)), CODES), ConnectNext::Fail);
    assert_eq!(after_connect_call(CallOutcome::Failed(None), CODES), ConnectNext::Fail);
    assert_eq!(connect_result(0, 0), ConnectResult::Connected);
    assert_eq!(connect_result(0, 111), ConnectResult::OsError(111));
    assert_eq!(connect_result(-1, 111), ConnectResult::LastOsError);
    assert_eq!(connect_result(-1, 0), ConnectResult::LastOsError);
}

#[test]
fn detailed_read_retries_only_after_notification() {
    assert_eq!(after_detailed_read(Some(NOTIFICATION_HANDLED)), Next::Retry);
    assert_eq!(NOTIFICATION_HANDLED, 0x9999_9999);
    assert_eq!(after_detailed_read(Some(10)), Next::Finish);
    assert_eq!(after_detailed_read(Some(0)), Next::Finish);
    assert_eq!(after_detailed_read(None), Next::Finish);
}

#[test]
fn lengths_from_return_values() {
    assert_eq!(sent_len(-1, 10), None);
    assert_eq!(sent_len(4, 10), Some(10));
    assert_eq!(sent_len(0, 0), Some(0));
    assert_eq!(received_len(-1), None);
    assert_eq!(received_len(0), Some(0));
    assert_eq!(received_len(123), Some(123));
}
