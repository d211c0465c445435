use ler_datagen::token_bucket::{AwaitInTokenBucket, TokenBucket};

#[test]
fn returns_all_results() {
    let mut bucket = TokenBucket::new(3).unwrap();

    for i in 0..6 {
        bucket.send(i);
    }

    // Consuming the bucket closes the sending side; the iterator then
    // delivers every accepted unit's result. Collect the results and
    // ensure we got all the values we sent.
    let mut it = bucket.into_iter();
    let mut results: Vec<i32> = Vec::new();
    while let Some(v) = it.next() {
        results.push(v);
    }
    results.sort_unstable();
    assert_eq!(results, (0..6).collect::<Vec<_>>());
}

#[test]
fn respects_concurrency_limit() {
    // Use 2 tokens and submit 5 tasks. Close the sending side, let the
    // bridge spawn every task and admission grant what permits it has:
    // exactly 2 may be in their active region at once.
    let mut bucket = TokenBucket::new(2).unwrap();

    let total_tasks = 5usize;
    for i in 0..total_tasks {
        bucket.send(i);
    }
    bucket.close();

    while bucket.spawn_next() {}
    while bucket.try_admit() {}

    let started_count = bucket.running_count();
    assert_eq!(
        started_count, 2,
        "expected exactly 2 tasks to have started concurrently"
    );

    // Ensure we still eventually receive all results.
    let mut it = bucket.into_iter();
    let mut results: Vec<usize> = Vec::new();
    while let Some(v) = it.next() {
        results.push(v);
    }
    assert_eq!(results.len(), total_tasks);
    // Results should match 0..total_tasks (order not guaranteed)
    let mut sorted = results;
    sorted.sort_unstable();
    assert_eq!(sorted, (0..total_tasks).collect::<Vec<_>>());
}

#[test]
fn close_with_zero_submissions_is_exhausted() {
    let bucket = TokenBucket::<u32>::new(1).unwrap();
    let mut it = bucket.into_iter();
    assert!(it.next().is_none());
    assert!(it.next().is_none());
}

#[test]
fn completion_order_reversed_still_yields_all() {
    // Submit 0..6 and complete the activities in reverse submission
    // order — the model's stand-in for "unit i sleeps proportionally to
    // (M - i)". The full set still comes out.
    let m = 6usize;
    let mut bucket = TokenBucket::new(m).unwrap();
    for i in 0..m {
        bucket.send(i);
    }
    bucket.close();
    while bucket.spawn_next() {}
    while bucket.try_admit() {}
    assert_eq!(bucket.running_count(), m);
    for k in (0..m).rev() {
        bucket.complete(k);
    }
    let mut results: Vec<usize> = Vec::new();
    let mut it = bucket.into_iter();
    while let Some(v) = it.next() {
        results.push(v);
    }
    // Delivery follows completion order, not submission order.
    assert_eq!(results, vec![5, 4, 3, 2, 1, 0]);
    results.sort_unstable();
    assert_eq!(results, (0..m).collect::<Vec<_>>());
}

#[test]
fn squares_scenario() {
    let mut bucket = TokenBucket::new(3).unwrap();
    for i in 0..6u64 {
        bucket.send(i * i);
    }
    let mut it = bucket.into_iter();
    let mut results: Vec<u64> = Vec::new();
    while let Some(v) = it.next() {
        results.push(v);
    }
    results.sort_unstable();
    assert_eq!(results, vec![0, 1, 4, 9, 16, 25]);
}

#[test]
fn zero_capacity_is_rejected() {
    assert!(TokenBucket::<u8>::new(0).is_err());
    assert!(TokenBucket::<u8>::new(1).is_ok());
}

#[test]
fn recv_pulls_in_submission_order_when_driven_alone() {
    let mut bucket = TokenBucket::new(2).unwrap();
    bucket.send("first");
    bucket.send("second");
    assert_eq!(bucket.recv().unwrap(), "first");
    // The bucket is still open: more work may arrive.
    bucket.send("third");
    assert_eq!(bucket.recv().unwrap(), "second");
    assert_eq!(bucket.recv().unwrap(), "third");
    bucket.close();
    assert!(bucket.recv().is_err());
}

#[test]
fn send_after_close_is_discarded() {
    let mut bucket = TokenBucket::new(4).unwrap();
    bucket.send(1u8);
    bucket.close();
    bucket.send(2u8);
    let mut it = bucket.into_iter();
    assert_eq!(it.next(), Some(1));
    assert_eq!(it.next(), None);
}

#[test]
fn out_of_order_completion_mid_stream() {
    let mut bucket = TokenBucket::new(3).unwrap();
    assert_eq!(bucket.tokens(), 3);
    for i in 0..5 {
        bucket.send(i);
    }
    while bucket.spawn_next() {}
    while bucket.try_admit() {}
    // Units 0, 1, 2 run; 3 and 4 wait for a permit.
    assert_eq!(bucket.running_count(), 3);

    // Unit 1 finishes first: its result arrives ahead of unit 0's.
    bucket.complete(1);
    assert_eq!(bucket.recv().unwrap(), 1);

    // The freed permit admits unit 3, which finishes next.
    assert!(bucket.try_admit());
    assert_eq!(bucket.running_count(), 3);
    bucket.complete(2);
    assert_eq!(bucket.recv().unwrap(), 3);

    bucket.close();
    let mut rest: Vec<i32> = Vec::new();
    let mut it = bucket.into_iter();
    while let Some(v) = it.next() {
        rest.push(v);
    }
    assert_eq!(rest, vec![0, 2, 4]);
}

#[test]
fn adapter_preloads_and_closes() {
    let units: Vec<u64> = vec![3, 1, 2];
    let mut it = units.await_in_token_bucket(2).unwrap();
    let mut results: Vec<u64> = Vec::new();
    while let Some(v) = it.next() {
        results.push(v);
    }
    results.sort_unstable();
    assert_eq!(results, vec![1, 2, 3]);

    let empty: Vec<u64> = Vec::new();
    let mut it = empty.await_in_token_bucket(7).unwrap();
    assert!(it.next().is_none());

    let units: Vec<u64> = vec![9];
    assert!(units.await_in_token_bucket(0).is_err());
}
