use libafl_core::{Error, InMemoryCorpus, QueueScheduler, Testcase};

#[test]
fn ids_follow_insertion_order() {
    let mut c: InMemoryCorpus<u32> = InMemoryCorpus::new();
    assert_eq!(c.count(), 0);
    assert_eq!(c.add(Testcase::new(10)), 0);
    assert_eq!(c.add(Testcase::new(20)), 1);
    assert_eq!(c.count(), 2);
    assert_eq!(c.get(1).unwrap().input, 20);
    assert_eq!(c.get(2).unwrap_err(), Error::IllegalArgument);
}

#[test]
fn set_current_checks_the_id() {
    let mut c: InMemoryCorpus<u32> = InMemoryCorpus::new();
    c.add(Testcase::new(1));
    assert_eq!(c.current(), None);
    assert_eq!(c.set_current(0), Ok(()));
    assert_eq!(c.current(), Some(0));
    assert_eq!(c.set_current(1), Err(Error::IllegalArgument));
    assert_eq!(c.current(), Some(0));
}

#[test]
fn queue_goes_round_robin() {
    let s = QueueScheduler::new();
    let mut c: InMemoryCorpus<u32> = InMemoryCorpus::new();
    assert_eq!(s.next(&mut c), Err(Error::Empty));
    for i in 0..3 {
        let id = c.add(Testcase::new(i));
        s.on_add(&c, id);
    }
    let picked: Vec<usize> = (0..5).map(|_| s.next(&mut c).unwrap()).collect();
    assert_eq!(picked, vec![0, 1, 2, 0, 1]);
    assert_eq!(c.current(), Some(1));
}
