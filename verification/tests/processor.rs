use freertos_rs::patterns::processor::{
    check_reply_queue_size, Message, ProcessorInner, ReplyableMessage,
};
use freertos_rs::FreeRtosError;

#[test]
fn message_values() {
    assert_eq!(5, Message::request(5u32).get_val());
    assert_eq!(6, Message::request_with_reply(6u32, 3).get_val());
    assert_eq!(7, Message::reply(7u32).get_val());
}

#[test]
fn message_reply_targets() {
    assert_eq!(None, Message::request(5u32).reply_to_client_id());
    assert_eq!(Some(3), Message::request_with_reply(6u32, 3).reply_to_client_id());
    assert_eq!(None, Message::reply(7u32).reply_to_client_id());
}

#[test]
fn registry_hands_out_ids_from_one() {
    let mut p: ProcessorInner<&str> = ProcessorInner::new();
    assert_eq!(1, p.next_client_id());
    assert_eq!(1, p.add_client("a"));
    assert_eq!(2, p.add_client("b"));
    assert_eq!(3, p.next_client_id());
    assert_eq!(Some(&"a"), p.find_client(1));
    assert_eq!(Some(&"b"), p.find_client(2));
    assert_eq!(None, p.find_client(3));
    assert_eq!(None, p.find_client(0));
}

#[test]
fn registry_removal_keeps_the_others() {
    let mut p: ProcessorInner<u32> = ProcessorInner::new();
    p.add_client(10);
    p.add_client(20);
    p.add_client(30);
    p.remove_client_reply(2);
    assert_eq!(None, p.find_client(2));
    assert_eq!(Some(&10), p.find_client(1));
    assert_eq!(Some(&30), p.find_client(3));
    p.remove_client_reply(2);
    assert_eq!(Some(&10), p.find_client(1));
    assert_eq!(4, p.add_client(40));
    assert_eq!(Some(&40), p.find_client(4));
}

#[test]
fn reply_reaches_the_client_that_asked() {
    let mut p: ProcessorInner<&str> = ProcessorInner::new();
    let first = p.add_client("first client");
    let second = p.add_client("second client");
    let request = Message::request_with_reply(2usize, second);
    let target = request.reply_to_client_id().and_then(|id| p.find_client(id));
    assert_eq!(Some(&"second client"), target);
    let request = Message::request_with_reply(1usize, first);
    let target = request.reply_to_client_id().and_then(|id| p.find_client(id));
    assert_eq!(Some(&"first client"), target);
    let processed = Message::reply(request.get_val() + 1);
    assert_eq!(2, processed.get_val());
    assert_eq!(None, Message::request(1usize).reply_to_client_id());
}

#[test]
fn reply_queue_size_must_not_be_zero() {
    assert_eq!(Err(FreeRtosError::InvalidQueueSize), check_reply_queue_size(0));
    assert_eq!(Ok(()), check_reply_queue_size(1));
}

use freertos_rs::patterns::processor::{
    new_client_after_lock, new_client_after_queue, new_client_first, reply_after_lookup,
    reply_after_send, reply_first, NewClientStep, ReplyStep,
};

#[test]
fn reply_steps() {
    assert_eq!(ReplyStep::Done(Ok(false)), reply_first(None));
    assert_eq!(ReplyStep::LockAndFind { client_id: 4 }, reply_first(Some(4)));
    assert_eq!(
        ReplyStep::Done(Err(FreeRtosError::MutexTimeout)),
        reply_after_lookup(Err(FreeRtosError::MutexTimeout), true)
    );
    assert_eq!(ReplyStep::Done(Ok(false)), reply_after_lookup(Ok(()), false));
    assert_eq!(ReplyStep::Send, reply_after_lookup(Ok(()), true));
    assert_eq!(ReplyStep::Done(Ok(true)), reply_after_send(Ok(())));
    assert_eq!(
        ReplyStep::Done(Err(FreeRtosError::QueueSendTimeout)),
        reply_after_send(Err(FreeRtosError::QueueSendTimeout))
    );
}

#[test]
fn new_client_steps() {
    assert_eq!(NewClientStep::Failed(FreeRtosError::InvalidQueueSize), new_client_first(0));
    assert_eq!(NewClientStep::Lock, new_client_first(1));
    assert_eq!(
        NewClientStep::Failed(FreeRtosError::MutexTimeout),
        new_client_after_lock(Err(FreeRtosError::MutexTimeout))
    );
    assert_eq!(NewClientStep::CreateQueue, new_client_after_lock(Ok(())));
    assert_eq!(
        NewClientStep::Failed(FreeRtosError::OutOfMemory),
        new_client_after_queue(Err(FreeRtosError::OutOfMemory))
    );
    assert_eq!(NewClientStep::Register, new_client_after_queue(Ok(())));
}

use freertos_rs::patterns::processor::send_target;

#[test]
fn send_after_shutdown_fails() {
    assert_eq!(Ok(()), send_target(true));
    assert_eq!(Err(FreeRtosError::ProcessorHasShutDown), send_target(false));
}
