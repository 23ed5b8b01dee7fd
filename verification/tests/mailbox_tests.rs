use lit_bit_core::actor::inbox::{extend_batch, fill_batch};
use lit_bit_core::actor::backpressure::embedded;
use lit_bit_core::actor::backpressure::SendError;
use lit_bit_core::actor::mailbox::{collect_batch, create_mailbox, Mailbox, DEFAULT_MAILBOX_CAPACITY};

#[test]
fn static_mailbox_macro_works() {
    let mut mailbox = create_mailbox::<u32, 4>();

    assert!(mailbox.enqueue(42).is_ok());
    assert_eq!(mailbox.dequeue(), Some(42));
    assert_eq!(mailbox.dequeue(), None);
}

#[test]
fn static_mailbox_multiple_instances() {
    let mut mailbox_one = create_mailbox::<u32, 4>();
    let mut mailbox_two = create_mailbox::<i32, 8>();

    assert!(mailbox_one.enqueue(123).is_ok());
    assert!(mailbox_two.enqueue(456).is_ok());

    assert_eq!(mailbox_one.dequeue(), Some(123));
    assert_eq!(mailbox_two.dequeue(), Some(456));

    assert_eq!(mailbox_one.dequeue(), None);
    assert_eq!(mailbox_two.dequeue(), None);
}

#[test]
fn static_mailbox_zero_allocation() {
    let mut mailbox = create_mailbox::<u32, 16>();

    assert!(mailbox.enqueue(42).is_ok());
    assert!(mailbox.enqueue(43).is_ok());

    assert_eq!(mailbox.dequeue(), Some(42));
    assert_eq!(mailbox.dequeue(), Some(43));
    assert_eq!(mailbox.dequeue(), None);

    assert!(mailbox.enqueue(44).is_ok());
    assert_eq!(mailbox.dequeue(), Some(44));
}

#[test]
fn static_mailbox_capacity_limits() {
    // A mailbox with size parameter 2 holds one message.
    let mut mailbox = create_mailbox::<u32, 2>();

    assert!(mailbox.enqueue(1).is_ok());
    assert!(mailbox.enqueue(2).is_err());

    assert_eq!(mailbox.dequeue(), Some(1));
    assert!(mailbox.enqueue(2).is_ok());
}

#[test]
fn static_mailbox_multiple_independent() {
    let mut m1 = create_mailbox::<u32, 4>();
    let mut m2 = create_mailbox::<u32, 4>();

    assert!(m1.enqueue(1).is_ok());
    assert!(m2.enqueue(100).is_ok());

    assert_eq!(m1.dequeue(), Some(1));
    assert_eq!(m2.dequeue(), Some(100));

    assert_eq!(m1.dequeue(), None);
    assert_eq!(m2.dequeue(), None);
}

#[test]
fn embedded_backpressure_fail_fast() {
    let mut outbox: Mailbox<u32, 2> = create_mailbox();

    assert!(embedded::try_send::<u32, 2>(&mut outbox, 1).is_ok());
    assert!(matches!(
        embedded::try_send::<u32, 2>(&mut outbox, 2),
        Err(SendError::Full(2))
    ));

    assert_eq!(embedded::capacity::<u32, 2>(&outbox), 1);
    assert!(embedded::is_full::<u32, 2>(&outbox));
}

#[test]
fn test_capacity_fixed() {
    let outbox: Mailbox<u32, 4> = create_mailbox();
    let our_capacity = embedded::capacity::<u32, 4>(&outbox);
    let actual_capacity = outbox.capacity();
    assert_eq!(our_capacity, 3);
    assert_eq!(actual_capacity, 3);
    assert_eq!(our_capacity, actual_capacity);
}

#[derive(Debug, Clone, PartialEq, Eq)]
enum TestEvent {
    Increment,
    SetValue(u32),
    Stop,
}

#[test]
fn embedded_mailbox_integration() {
    let mut mailbox: Mailbox<TestEvent, 4> = create_mailbox();

    assert!(embedded::try_send::<TestEvent, 4>(&mut mailbox, TestEvent::Increment).is_ok());
    assert!(embedded::try_send::<TestEvent, 4>(&mut mailbox, TestEvent::SetValue(42)).is_ok());

    assert_eq!(embedded::try_recv::<TestEvent, 4>(&mut mailbox), Some(TestEvent::Increment));
    assert_eq!(embedded::try_recv::<TestEvent, 4>(&mut mailbox), Some(TestEvent::SetValue(42)));
    assert_eq!(embedded::try_recv::<TestEvent, 4>(&mut mailbox), None);

    for i in 0..3 {
        assert!(embedded::try_send::<TestEvent, 4>(&mut mailbox, TestEvent::SetValue(i)).is_ok());
    }

    assert!(matches!(
        embedded::try_send::<TestEvent, 4>(&mut mailbox, TestEvent::Stop),
        Err(SendError::Full(TestEvent::Stop))
    ));
}

#[test]
fn mailbox_length_queries_follow_contents() {
    let mut mailbox: Mailbox<u8, 4> = create_mailbox();
    assert!(embedded::is_empty(&mailbox));
    assert_eq!(embedded::inbox_len(&mailbox), 0);
    assert!(mailbox.ready());
    embedded::try_send(&mut mailbox, 7).unwrap();
    embedded::try_send(&mut mailbox, 8).unwrap();
    assert_eq!(embedded::len(&mailbox), 2);
    assert!(!embedded::is_full(&mailbox));
    embedded::try_send(&mut mailbox, 9).unwrap();
    assert!(embedded::is_full(&mailbox));
    assert!(!mailbox.ready());
    assert_eq!(mailbox.len(), 3);
    assert_eq!(embedded::try_send(&mut mailbox, 10), Err(SendError::Full(10)));
    assert_eq!(embedded::try_recv(&mut mailbox), Some(7));
    assert_eq!(embedded::try_recv(&mut mailbox), Some(8));
    assert_eq!(embedded::try_recv(&mut mailbox), Some(9));
    assert!(mailbox.is_empty());
}

#[test]
fn mailbox_preserves_fifo_order_law() {
    let mut mailbox: Mailbox<u32, 8> = create_mailbox();
    for v in [5, 1, 4, 2] {
        mailbox.enqueue(v).unwrap();
    }
    let mut out = Vec::new();
    while let Some(v) = mailbox.dequeue() {
        out.push(v);
    }
    assert_eq!(out, vec![5, 1, 4, 2]);
}

#[test]
fn default_mailbox_capacity_is_sixteen() {
    assert_eq!(DEFAULT_MAILBOX_CAPACITY, 16);
    let mailbox: Mailbox<u32, DEFAULT_MAILBOX_CAPACITY> = create_mailbox();
    assert_eq!(mailbox.capacity(), 15);
}

#[test]
fn collect_batch_takes_first_and_waiting_messages_up_to_limit() {
    let mut inbox: Mailbox<u32, 16> = create_mailbox();
    for v in 10..15 {
        inbox.enqueue(v).unwrap();
    }
    let batch = collect_batch(&mut inbox, 1, 3);
    assert_eq!(batch, vec![1, 10, 11]);
    assert_eq!(inbox.len(), 3);
    let batch = collect_batch(&mut inbox, 2, 100);
    assert_eq!(batch, vec![2, 12, 13, 14]);
    assert!(inbox.is_empty());
    let batch = collect_batch(&mut inbox, 3, 0);
    assert_eq!(batch, vec![3]);
}

#[test]
fn collect_batch_is_capped_at_sixty_four() {
    let mut inbox: Mailbox<u32, 128> = create_mailbox();
    for v in 0..100 {
        inbox.enqueue(v).unwrap();
    }
    let batch = collect_batch(&mut inbox, 1000, 500);
    assert_eq!(batch.len(), 64);
    assert_eq!(batch[0], 1000);
    assert_eq!(batch[63], 62);
    assert_eq!(inbox.len(), 37);
}

#[test]
fn fill_batch_takes_waiting_messages_up_to_limit() {
    let (tx, mut rx) = tokio::sync::mpsc::channel::<u32>(10);
    for m in [2, 3, 4, 5] {
        tx.try_send(m).unwrap();
    }
    assert_eq!(fill_batch(&mut rx, 1, 3), vec![1, 2, 3]);
    assert_eq!(fill_batch(&mut rx, 9, 0), vec![9]);
    assert_eq!(fill_batch(&mut rx, 7, 10), vec![7, 4, 5]);
}

#[test]
fn extend_batch_appends_taken_message() {
    let mut batch = vec![1u32];
    assert!(extend_batch(&mut batch, Some(2), 3));
    assert_eq!(batch, vec![1, 2]);
    assert!(!extend_batch(&mut batch, Some(3), 3));
    assert_eq!(batch, vec![1, 2, 3]);
    assert!(!extend_batch(&mut batch, None, 10));
    assert_eq!(batch, vec![1, 2, 3]);
}
