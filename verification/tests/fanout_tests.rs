use domo::fanout::{FanOut, Step};

#[test]
fn zero_limit_admits_no_batch() {
    assert!(FanOut::new(5, 0).is_none());
    assert!(FanOut::new(0, 0).is_none());
    assert!(FanOut::new(0, 1).is_some());
}

#[test]
fn empty_batch_is_done_at_once() {
    let mut batch = FanOut::new(0, 3).unwrap();
    assert_eq!(batch.next_step(), Step::Done);
    assert!(!batch.complete());
    assert_eq!(batch.requests_in_flight(), 0);
}

#[test]
fn launches_stop_at_the_limit() {
    let mut batch = FanOut::new(5, 2).unwrap();
    assert_eq!(batch.next_step(), Step::Launch(0));
    assert_eq!(batch.next_step(), Step::Launch(1));
    assert_eq!(batch.requests_in_flight(), 2);
    assert_eq!(batch.next_step(), Step::Wait);
    assert_eq!(batch.next_step(), Step::Wait);
    assert!(batch.complete());
    assert_eq!(batch.requests_in_flight(), 1);
    assert_eq!(batch.next_step(), Step::Launch(2));
    assert_eq!(batch.next_step(), Step::Wait);
    assert!(batch.complete());
    assert!(batch.complete());
    assert!(!batch.complete());
    assert_eq!(batch.next_step(), Step::Launch(3));
    assert_eq!(batch.next_step(), Step::Launch(4));
    assert_eq!(batch.next_step(), Step::Wait);
    assert!(batch.complete());
    assert_eq!(batch.next_step(), Step::Wait);
    assert!(batch.complete());
    assert_eq!(batch.next_step(), Step::Done);
    assert_eq!(batch.next_step(), Step::Done);
}

#[test]
fn never_more_in_flight_than_the_limit() {
    for (total, limit) in [(50usize, 20usize), (7, 10), (100, 1), (33, 3)] {
        let mut batch = FanOut::new(total, limit).unwrap();
        let mut launched: Vec<usize> = Vec::new();
        let mut in_flight = 0usize;
        let mut most = 0usize;
        let mut steps = 0usize;
        loop {
            steps += 1;
            assert!(steps < 10 * total + 10);
            match batch.next_step() {
                Step::Launch(index) => {
                    launched.push(index);
                    in_flight += 1;
                },
                Step::Wait => {
                    assert!(in_flight > 0);
                    assert!(batch.complete());
                    in_flight -= 1;
                },
                Step::Done => break,
            }
            assert_eq!(batch.requests_in_flight(), in_flight);
            assert!(in_flight <= limit);
            if in_flight > most {
                most = in_flight;
            }
        }
        assert_eq!(in_flight, 0);
        assert_eq!(launched, (0..total).collect::<Vec<usize>>());
        assert_eq!(most, if total < limit { total } else { limit });
    }
}
