use positional_io::engine::best_effort_read_over;
use positional_io::engine::exact_read_over;
use positional_io::engine::exact_write_over;
use positional_io::engine::next_offset;
use positional_io::engine::read_step;
use positional_io::engine::write_step;
use positional_io::types::Event;
use positional_io::types::PioError;
use positional_io::types::ReadStep;
use positional_io::types::WriteStep;

type Ev = Event<u32>;

#[test]
fn exact_read_full_transfers() {
    let trace: Vec<Ev> = vec![
        Event::Transferred(4),
        Event::Transferred(3),
        Event::Transferred(3),
    ];
    assert_eq!(exact_read_over(10, trace), Ok(()));
}

#[test]
fn exact_write_full_transfers() {
    let trace: Vec<Ev> = vec![
        Event::Transferred(4),
        Event::Transferred(3),
        Event::Transferred(3),
    ];
    assert_eq!(exact_write_over(10, trace), Ok(()));
}

#[test]
fn best_effort_read_full_transfers() {
    let trace: Vec<Ev> = vec![
        Event::Transferred(4),
        Event::Transferred(3),
        Event::Transferred(3),
    ];
    assert_eq!(best_effort_read_over(10, trace), Ok(10));
}

#[test]
fn interrupted_calls_are_retried_transparently() {
    let plain: Vec<Ev> = vec![
        Event::Transferred(4),
        Event::Transferred(3),
        Event::Transferred(3),
    ];
    let interrupted: Vec<Ev> = vec![
        Event::Interrupted,
        Event::Transferred(4),
        Event::Interrupted,
        Event::Transferred(3),
        Event::Transferred(3),
        Event::Interrupted,
    ];
    assert_eq!(exact_read_over(10, plain.clone()), Ok(()));
    assert_eq!(exact_read_over(10, interrupted.clone()), Ok(()));
    assert_eq!(exact_write_over(10, plain.clone()), Ok(()));
    assert_eq!(exact_write_over(10, interrupted.clone()), Ok(()));
    assert_eq!(best_effort_read_over(10, plain), Ok(10));
    assert_eq!(best_effort_read_over(10, interrupted), Ok(10));
}

#[test]
fn exact_read_fails_on_early_eof() {
    let trace: Vec<Ev> = vec![Event::Transferred(4), Event::Transferred(0)];
    assert_eq!(exact_read_over(10, trace), Err(PioError::UnexpectedEof));
}

#[test]
fn best_effort_read_returns_short_count_on_eof() {
    let trace: Vec<Ev> = vec![Event::Transferred(4), Event::Transferred(0)];
    assert_eq!(best_effort_read_over(10, trace), Ok(4));
    let at_once: Vec<Ev> = vec![Event::Transferred(0)];
    assert_eq!(best_effort_read_over(10, at_once), Ok(0));
}

#[test]
fn exact_write_fails_on_zero_progress() {
    let trace: Vec<Ev> = vec![Event::Transferred(4), Event::Transferred(0)];
    assert_eq!(exact_write_over(10, trace), Err(PioError::WriteZero));
    let at_once: Vec<Ev> = vec![Event::Transferred(0)];
    assert_eq!(exact_write_over(5, at_once), Err(PioError::WriteZero));
}

#[test]
fn zero_length_requests_succeed_without_events() {
    let empty: Vec<Ev> = vec![];
    assert_eq!(exact_read_over(0, empty.clone()), Ok(()));
    assert_eq!(best_effort_read_over(0, empty.clone()), Ok(0));
    assert_eq!(exact_write_over(0, empty), Ok(()));
}

#[test]
fn underlying_errors_propagate_unchanged() {
    let read_trace: Vec<Ev> = vec![Event::Transferred(2), Event::Failed(7)];
    assert_eq!(exact_read_over(4, read_trace), Err(PioError::Underlying(7)));
    let best_trace: Vec<Ev> = vec![Event::Transferred(2), Event::Failed(7)];
    assert_eq!(
        best_effort_read_over(4, best_trace),
        Err(PioError::Underlying(7))
    );
    let write_trace: Vec<Ev> = vec![Event::Transferred(2), Event::Failed(9)];
    assert_eq!(exact_write_over(4, write_trace), Err(PioError::Underlying(9)));
}

#[test]
fn exact_read_of_ten_bytes_at_offset_100_issues_three_calls() {
    // The underlying primitive transfers 4, then 3, then 3 bytes with no
    // interruption: the host loop must issue exactly three calls, at
    // offsets 100, 104 and 107, and end with the buffer full.
    let len: usize = 10;
    let offset: u64 = 100;
    let transfers: Vec<usize> = vec![4, 3, 3];
    let mut total: usize = 0;
    let mut offsets: Vec<u64> = vec![];
    for n in transfers {
        assert!(total < len);
        offsets.push(next_offset(offset, total));
        match read_step::<u32>(len, total, Event::Transferred(n)) {
            ReadStep::Advanced(t) => total = t,
            other => panic!("unexpected step decision: {:?}", other),
        }
    }
    assert_eq!(offsets, vec![100, 104, 107]);
    assert_eq!(total, len);
}

#[test]
fn exact_write_of_five_bytes_with_one_interruption() {
    // The underlying primitive reports Interrupted, then writes 5 bytes:
    // the operation succeeds with exactly one effective byte-transferring
    // call.
    let trace: Vec<Ev> = vec![Event::Interrupted, Event::Transferred(5)];
    let effective = trace
        .iter()
        .filter(|ev| matches!(ev, Event::Transferred(n) if *n > 0))
        .count();
    assert_eq!(effective, 1);
    assert_eq!(write_step::<u32>(5, 0, Event::Interrupted), WriteStep::Retry);
    assert_eq!(
        write_step::<u32>(5, 0, Event::Transferred(5)),
        WriteStep::Advanced(5)
    );
    assert_eq!(exact_write_over(5, trace), Ok(()));
}

#[test]
fn read_step_decisions() {
    assert_eq!(
        read_step::<u32>(8, 3, Event::Transferred(2)),
        ReadStep::Advanced(5)
    );
    assert_eq!(read_step::<u32>(8, 3, Event::Transferred(0)), ReadStep::Eof);
    assert_eq!(read_step::<u32>(8, 3, Event::Interrupted), ReadStep::Retry);
    assert_eq!(read_step::<u32>(8, 3, Event::Failed(11)), ReadStep::Abort(11));
}

#[test]
fn write_step_decisions() {
    assert_eq!(
        write_step::<u32>(8, 3, Event::Transferred(2)),
        WriteStep::Advanced(5)
    );
    assert_eq!(
        write_step::<u32>(8, 3, Event::Transferred(0)),
        WriteStep::ZeroProgress
    );
    assert_eq!(write_step::<u32>(8, 3, Event::Interrupted), WriteStep::Retry);
    assert_eq!(
        write_step::<u32>(8, 3, Event::Failed(11)),
        WriteStep::Abort(11)
    );
}

#[test]
fn next_offset_advances_by_accumulated_bytes() {
    assert_eq!(next_offset(0, 0), 0);
    assert_eq!(next_offset(100, 4), 104);
    assert_eq!(next_offset(u64::MAX - 5, 5), u64::MAX);
}
