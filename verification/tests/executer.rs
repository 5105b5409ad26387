use statusbar::executer::{Executer, Step};
use statusbar::schedule::Schedule;

const SEC: u128 = 1_000_000_000;

fn expect_update(step: Step<u32>) -> (usize, usize, u32, String) {
    match step {
        Step::Update { slot, index, component, output } => (slot, index, component, output),
        Step::Publish(text) => panic!("unexpected publication {:?}", text),
        Step::Wait => panic!("unexpected wait"),
    }
}

fn expect_publish(step: Step<u32>) -> String {
    match step {
        Step::Publish(text) => text,
        _ => panic!("expected a publication"),
    }
}

fn is_wait(step: &Step<u32>) -> bool {
    matches!(step, Step::Wait)
}

#[test]
fn updates_earliest_due_then_publishes() {
    let mut ex: Executer<u32> = Executer::new();
    ex.add_static("CPU".to_string())
        .add_timed(Schedule::every().secs(2), 7, 1000)
        .add_timed(Schedule::every().sec(), 8, 500);

    assert!(is_wait(&ex.poll(400)));

    let (slot, index, component, output) = expect_update(ex.poll(500));
    assert_eq!((slot, index, component, output.as_str()), (1, 2, 8, ""));
    ex.complete(slot, component, "b".to_string(), 500);

    assert_eq!(expect_publish(ex.poll(600)), "CPU  b ");
    assert!(is_wait(&ex.poll(700)));

    let (slot, index, component, output) = expect_update(ex.poll(1000));
    assert_eq!((slot, index, component, output.as_str()), (0, 1, 7, ""));
    ex.complete(slot, component, "a".to_string(), 1000);
    assert_eq!(expect_publish(ex.poll(1001)), "CPU a b ");

    // the one-second entry was rescheduled to the next whole second
    assert!(is_wait(&ex.poll(SEC - 1)));
    let (slot, index, component, output) = expect_update(ex.poll(SEC));
    assert_eq!((slot, index, component, output.as_str()), (1, 2, 8, "b"));
    let mut out = output;
    out.push('b');
    ex.complete(slot, component, out, SEC);
    assert_eq!(expect_publish(ex.poll(SEC)), "CPU a bb ");

    // the two-second entry is due at 2 s, the one-second one at 2 s too:
    // the earlier slot goes first
    let (slot, index, _, _) = expect_update(ex.poll(2 * SEC));
    assert_eq!((slot, index), (0, 1));
}

#[test]
fn empty_executer_waits() {
    let mut ex: Executer<u32> = Executer::new();
    assert!(is_wait(&ex.poll(0)));
    assert!(is_wait(&ex.poll(u128::MAX)));
}

#[test]
fn static_outputs_publish_only_after_a_change() {
    let mut ex: Executer<u32> = Executer::new();
    ex.add_static("x".to_string()).add_static("y".to_string());
    assert!(is_wait(&ex.poll(5)));
    ex.add_timed(Schedule::every().millis(3), 1, 10);
    let (slot, _, c, out) = expect_update(ex.poll(10));
    assert_eq!(out, "");
    ex.complete(slot, c, "z".to_string(), 10);
    assert_eq!(expect_publish(ex.poll(11)), "x y z ");
    // rescheduled to the next multiple of 3 ms after 10 ns
    let (_, _, c, out) = expect_update(ex.poll(3_000_000));
    assert_eq!((c, out.as_str()), (1, "z"));
}

#[test]
fn handing_back_unchanged_keeps_outputs() {
    let mut ex: Executer<u32> = Executer::new();
    ex.add_static("s".to_string()).add_timed(Schedule::every().sec(), 3, 0);
    let (slot, _, c, out) = expect_update(ex.poll(0));
    ex.complete(slot, c, format!("{}v", out), 0);
    assert_eq!(expect_publish(ex.poll(1)), "s v ");
    let (slot, index, c, out) = expect_update(ex.poll(SEC));
    assert_eq!((index, c, out.as_str()), (1, 3, "v"));
    ex.complete(slot, c, out, SEC);
    // the publication after an unchanged update shows the same text
    assert_eq!(expect_publish(ex.poll(SEC + 1)), "s v ");
    assert!(is_wait(&ex.poll(SEC + 2)));
}

#[test]
fn rescheduled_time_is_strictly_after_now_at_the_end_of_the_clock() {
    // one second before the last second that the system clock can hold
    let last = (i64::MAX as u128) * SEC;
    let now = last - SEC;
    let mut ex: Executer<u32> = Executer::new();
    ex.add_timed(Schedule::every().sec(), 4, now);
    let (slot, _, c, out) = expect_update(ex.poll(now));
    assert!(ex.can_complete(slot, now));
    ex.complete(slot, c, out, now);
    assert_eq!(expect_publish(ex.poll(now)), " ");
    assert!(is_wait(&ex.poll(last - 1)));
    let (slot, index, c, _) = expect_update(ex.poll(last));
    assert_eq!((index, c), (0, 4));
    // from the last second itself the next one is out of the clock's range
    assert!(!ex.can_complete(slot, last));
}

#[test]
fn rescheduling_past_the_clock_range_is_refused() {
    let last = (i64::MAX as u128) * SEC;
    let mut ex: Executer<u32> = Executer::new();
    ex.add_timed(Schedule::every().secs(u64::MAX), 4, 0);
    let (slot, _, _, _) = expect_update(ex.poll(last));
    // the next multiple lies at u64::MAX seconds, past what the clock holds
    assert!(!ex.can_complete(slot, last));
    assert!(!ex.can_complete(slot, 0));
}
