use libafl_core::{Error, LlmpReceiver, LlmpSender};

#[test]
fn messages_arrive_in_order_across_pages() {
    let mut sender = LlmpSender::new(8);
    assert_eq!(sender.send(1, vec![1, 1, 1]), Ok(0));
    assert_eq!(sender.send(2, vec![2, 2, 2]), Ok(1));
    assert_eq!(sender.send(3, vec![3, 3, 3]), Ok(2));
    let mut reader = LlmpReceiver::new();
    for k in 0..3u64 {
        let m = reader.recv(&sender).unwrap();
        assert_eq!(m.seq, k);
        assert_eq!(m.tag, k as u32 + 1);
        assert_eq!(m.buf, vec![k as u8 + 1; 3]);
    }
    assert!(reader.recv(&sender).is_none());
    assert_eq!(sender.send(4, vec![4; 8]), Ok(3));
    let m = reader.recv(&sender).unwrap();
    assert_eq!((m.tag, m.seq), (4, 3));
    assert!(reader.recv(&sender).is_none());
}

#[test]
fn oversized_messages_are_refused() {
    let mut sender = LlmpSender::new(4);
    assert_eq!(sender.send(1, vec![0; 5]), Err(Error::IllegalArgument));
    assert_eq!(sender.send(1, vec![0; 4]), Ok(0));
    assert_eq!(sender.send(1, vec![]), Ok(1));
}

#[test]
fn a_reader_keeps_up_while_the_sender_appends() {
    let mut sender = LlmpSender::new(5);
    let mut reader = LlmpReceiver::new();
    let mut seen = vec![];
    for i in 0..20u8 {
        sender.send(7, vec![i; (i % 4) as usize]).unwrap();
        if i % 3 == 0 {
            while let Some(m) = reader.recv(&sender) {
                seen.push(m.seq);
            }
        }
    }
    while let Some(m) = reader.recv(&sender) {
        seen.push(m.seq);
    }
    assert_eq!(seen, (0..20u64).collect::<Vec<u64>>());
    let mut late = LlmpReceiver::new();
    let mut count = 0;
    while late.recv(&sender).is_some() {
        count += 1;
    }
    assert_eq!(count, 20);
}
