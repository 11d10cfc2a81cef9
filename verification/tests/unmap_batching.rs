use dax_cache_req::failure::TransportFailure;
use dax_cache_req::handler::{CacheRequestHandler, FsCacheReqHandler, Transport};
use dax_cache_req::message::{Slot, WireMessage, ENTRIES_PER_MESSAGE};
use dax_cache_req::unmap::{RemovemappingOne, UnmapAction, UnmapRun};

/// A transport that keeps what it is given and fails on the attempt it is
/// told to fail on (counted from 1).
struct Recorder {
    unmaps: Vec<WireMessage>,
    maps: Vec<(WireMessage, i32)>,
    attempts: usize,
    fail_on: Option<usize>,
}

impl Recorder {
    fn new(fail_on: Option<usize>) -> Recorder {
        Recorder { unmaps: Vec::new(), maps: Vec::new(), attempts: 0, fail_on }
    }

    fn answer(&mut self) -> Result<(), TransportFailure> {
        self.attempts += 1;
        if self.fail_on == Some(self.attempts) {
            Err(TransportFailure {
                cause: std::io::Error::new(
                    std::io::ErrorKind::Other,
                    format!("refused attempt {}", self.attempts),
                ),
            })
        } else {
            Ok(())
        }
    }
}

impl Transport for Recorder {
    fn send_map_message(&mut self, msg: &WireMessage, fd: i32) -> Result<(), TransportFailure> {
        self.maps.push((*msg, fd));
        self.answer()
    }

    fn send_unmap_message(&mut self, msg: &WireMessage) -> Result<(), TransportFailure> {
        self.unmaps.push(*msg);
        self.answer()
    }
}

fn requests(n: u64) -> Vec<RemovemappingOne> {
    let mut v = Vec::new();
    for p in 0..n {
        v.push(RemovemappingOne { moffset: 0x1000 * (p + 1), len: 0x10 + p });
    }
    v
}

fn removal(p: u64) -> Slot {
    Slot { fd_offset: 0, cache_offset: 0x1000 * (p + 1), len: 0x10 + p, flags: 0 }
}

const ZERO: Slot = Slot { fd_offset: 0, cache_offset: 0, len: 0, flags: 0 };

#[test]
fn capacity_is_eight() {
    assert_eq!(ENTRIES_PER_MESSAGE, 8);
}

#[test]
fn eight_requests_fill_one_message() {
    let mut t = CacheRequestHandler::new(Recorder::new(None));
    assert!(t.unmap(requests(8)).is_ok());
    assert_eq!(t.transport().attempts, 1);
    assert_eq!(t.transport().unmaps.len(), 1);
    for k in 0..8 {
        assert_eq!(t.transport().unmaps[0].slot(k), removal(k as u64));
    }
    assert!(t.transport().maps.is_empty());
}

#[test]
fn nine_requests_take_two_messages() {
    let mut t = CacheRequestHandler::new(Recorder::new(None));
    assert!(t.unmap(requests(9)).is_ok());
    assert_eq!(t.transport().unmaps.len(), 2);
    for k in 0..8 {
        assert_eq!(t.transport().unmaps[0].slot(k), removal(k as u64));
    }
    assert_eq!(t.transport().unmaps[1].slot(0), removal(8));
    for k in 1..8 {
        assert_eq!(t.transport().unmaps[1].slot(k), ZERO);
    }
}

#[test]
fn no_request_sends_one_empty_message() {
    let mut t = CacheRequestHandler::new(Recorder::new(None));
    assert!(t.unmap(Vec::new()).is_ok());
    assert_eq!(t.transport().attempts, 1);
    assert_eq!(t.transport().unmaps.len(), 1);
    assert_eq!(t.transport().unmaps[0], WireMessage::new());
    for k in 0..8 {
        assert_eq!(t.transport().unmaps[0].slot(k), ZERO);
    }
}

#[test]
fn failure_on_second_of_three_stops_after_two_attempts() {
    let mut t = CacheRequestHandler::new(Recorder::new(Some(2)));
    let r = t.unmap(requests(20));
    match r {
        Err(f) => {
            assert_eq!(f.cause.kind(), std::io::ErrorKind::Other);
            assert_eq!(format!("{}", f.cause), "refused attempt 2");
        }
        Ok(()) => panic!("the failure was lost"),
    }
    assert_eq!(t.transport().attempts, 2);
    assert_eq!(t.transport().unmaps.len(), 2);
    assert_eq!(t.transport().unmaps[0].slot(0), removal(0));
    assert_eq!(t.transport().unmaps[1].slot(0), removal(8));
    assert_eq!(t.transport().unmaps[1].slot(7), removal(15));
}

#[test]
fn failure_on_first_message_stops_at_once() {
    let mut t = CacheRequestHandler::new(Recorder::new(Some(1)));
    assert!(t.unmap(requests(20)).is_err());
    assert_eq!(t.transport().attempts, 1);
}

#[test]
fn failure_on_last_partial_message_is_reported() {
    let mut t = CacheRequestHandler::new(Recorder::new(Some(3)));
    let r = t.unmap(requests(20));
    match r {
        Err(f) => assert_eq!(format!("{}", f.cause), "refused attempt 3"),
        Ok(()) => panic!("the failure was lost"),
    }
    assert_eq!(t.transport().attempts, 3);
    assert_eq!(t.transport().unmaps[2].slot(3), removal(19));
    assert_eq!(t.transport().unmaps[2].slot(4), ZERO);
}

#[test]
fn failure_on_empty_input_message_is_reported() {
    let mut t = CacheRequestHandler::new(Recorder::new(Some(1)));
    assert!(t.unmap(Vec::new()).is_err());
    assert_eq!(t.transport().attempts, 1);
}

#[test]
fn message_count_is_requests_over_capacity_rounded_up() {
    let cases: [(u64, usize); 9] =
        [(1, 1), (7, 1), (8, 1), (9, 2), (15, 2), (16, 2), (17, 3), (64, 8), (100, 13)];
    for (n, expected) in cases {
        let mut t = CacheRequestHandler::new(Recorder::new(None));
        assert!(t.unmap(requests(n)).is_ok());
        assert_eq!(t.transport().unmaps.len(), expected, "for {} requests", n);
        assert_eq!(t.transport().attempts, expected);
    }
}

#[test]
fn slots_past_the_last_request_are_zero() {
    let mut t = CacheRequestHandler::new(Recorder::new(None));
    assert!(t.unmap(requests(11)).is_ok());
    assert_eq!(t.transport().unmaps.len(), 2);
    for k in 0..3 {
        assert_eq!(t.transport().unmaps[1].slot(k), removal(8 + k as u64));
    }
    for k in 3..8 {
        assert_eq!(t.transport().unmaps[1].slot(k), ZERO);
        assert_eq!(t.transport().unmaps[1].cache_offset[k], 0);
        assert_eq!(t.transport().unmaps[1].len[k], 0);
    }
}

#[test]
fn requests_keep_their_order_across_messages() {
    let n: usize = 29;
    let mut t = CacheRequestHandler::new(Recorder::new(None));
    assert!(t.unmap(requests(n as u64)).is_ok());
    assert_eq!(t.transport().unmaps.len(), 4);
    for p in 0..n {
        assert_eq!(t.transport().unmaps[p / 8].slot(p % 8), removal(p as u64));
    }
}

#[test]
fn removal_messages_carry_no_file_offset_and_no_flags() {
    let mut t = CacheRequestHandler::new(Recorder::new(None));
    assert!(t.unmap(requests(10)).is_ok());
    for m in &t.transport().unmaps {
        assert_eq!(m.fd_offset, [0u64; 8]);
        assert_eq!(m.flags, [0u64; 8]);
    }
}

#[test]
fn extreme_values_pass_through_removal() {
    let mut t = CacheRequestHandler::new(Recorder::new(None));
    let reqs = vec![RemovemappingOne { moffset: u64::MAX, len: u64::MAX }];
    assert!(t.unmap(reqs).is_ok());
    assert_eq!(
        t.transport().unmaps[0].slot(0),
        Slot { fd_offset: 0, cache_offset: u64::MAX, len: u64::MAX, flags: 0 }
    );
}

#[test]
fn two_calls_do_not_share_a_buffer() {
    let mut t = CacheRequestHandler::new(Recorder::new(None));
    assert!(t.unmap(requests(7)).is_ok());
    assert!(t.unmap(requests(2)).is_ok());
    assert_eq!(t.transport().unmaps.len(), 2);
    assert_eq!(t.transport().unmaps[1].slot(1), removal(1));
    for k in 2..8 {
        assert_eq!(t.transport().unmaps[1].slot(k), ZERO);
    }
}

#[test]
fn run_hands_out_messages_one_by_one() {
    let mut run = UnmapRun::new(requests(9));
    let first = match run.begin() {
        UnmapAction::Dispatch(m) => m,
        UnmapAction::Finished(_) => panic!("nothing was sent"),
    };
    assert_eq!(first.slot(7), removal(7));
    let second = match run.step(Ok(())) {
        UnmapAction::Dispatch(m) => m,
        UnmapAction::Finished(_) => panic!("the ninth request was dropped"),
    };
    assert_eq!(second.slot(0), removal(8));
    assert_eq!(second.slot(1), ZERO);
    match run.step(Ok(())) {
        UnmapAction::Finished(Ok(())) => {}
        _ => panic!("the run did not end"),
    }
    match run.step(Ok(())) {
        UnmapAction::Finished(Ok(())) => {}
        _ => panic!("a finished run went on"),
    }
}

#[test]
fn run_over_a_full_message_ends_without_an_empty_one() {
    let mut run = UnmapRun::new(requests(16));
    assert!(matches!(run.begin(), UnmapAction::Dispatch(_)));
    assert!(matches!(run.step(Ok(())), UnmapAction::Dispatch(_)));
    assert!(matches!(run.step(Ok(())), UnmapAction::Finished(Ok(()))));
}

#[test]
fn run_ends_with_the_failure_it_is_told() {
    let mut run = UnmapRun::new(requests(30));
    assert!(matches!(run.begin(), UnmapAction::Dispatch(_)));
    let failure = TransportFailure {
        cause: std::io::Error::new(std::io::ErrorKind::BrokenPipe, "gone"),
    };
    match run.step(Err(failure)) {
        UnmapAction::Finished(Err(f)) => {
            assert_eq!(f.cause.kind(), std::io::ErrorKind::BrokenPipe);
            assert_eq!(format!("{}", f.cause), "gone");
        }
        _ => panic!("the failure did not end the run"),
    }
}
