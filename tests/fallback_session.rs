use dag_network::message::{AttemptResult, Message, PeerId, RpcError};
use dag_network::session::{DispatchError, FallbackSession, Poll};

#[derive(Clone, Copy)]
enum PeerBehavior {
    SucceedAfter(u64),
    FailAfter(u64),
}

const REQUEST_KIND: u32 = 1;
const ACK_KIND: u32 = 2;

fn peers(n: u64) -> Vec<PeerId> {
    (0..n).map(|i| PeerId { id: 100 + i }).collect()
}

fn request(payload: Vec<u8>) -> Message {
    Message { kind: REQUEST_KIND, payload }
}

/// What a simulated peer replies: an acknowledgement that echoes the payload
/// and names the peer in its last byte.
fn reply_of(peer: PeerId, message: &Message) -> Message {
    let mut payload = message.payload.clone();
    payload.push(peer.id as u8);
    Message { kind: ACK_KIND, payload }
}

struct Run {
    results: Vec<AttemptResult>,
    launch_order: Vec<usize>,
    launch_times: Vec<u64>,
    ended_exhausted: bool,
}

/// Drives a session on a virtual clock until it is exhausted or `max_pulls`
/// results have been taken; returns the session too when it was not drained.
fn drive(
    behaviors: &[PeerBehavior],
    cadence: u64,
    max_pulls: usize,
) -> (Run, Option<FallbackSession>) {
    let n = behaviors.len() as u64;
    let message = request(vec![42; 4]);
    let mut session =
        FallbackSession::send_rpc_with_fallbacks(peers(n), message, cadence).unwrap();
    let mut now: u64 = 0;
    // (completion time, index, result)
    let mut in_flight: Vec<(u64, usize, AttemptResult)> = Vec::new();
    let mut timer: Option<u64> = Some(now + cadence);
    let mut run = Run {
        results: Vec::new(),
        launch_order: Vec::new(),
        launch_times: Vec::new(),
        ended_exhausted: false,
    };
    let launch = |i: usize,
                  now: u64,
                  session: &FallbackSession,
                  in_flight: &mut Vec<(u64, usize, AttemptResult)>,
                  run: &mut Run| {
        let peer = session.candidate(i);
        let (delay, result) = match behaviors[i] {
            PeerBehavior::SucceedAfter(d) => (d, Ok(reply_of(peer, session.message()))),
            PeerBehavior::FailAfter(d) => (d, Err(RpcError::Transport("failed to respond".to_string()))),
        };
        in_flight.push((now + delay, i, result));
        run.launch_order.push(i);
        run.launch_times.push(now);
    };
    launch(0, now, &session, &mut in_flight, &mut run);
    loop {
        if run.results.len() == max_pulls {
            return (run, Some(session));
        }
        match session.poll_next() {
            Poll::Ready(r) => run.results.push(r),
            Poll::Exhausted => {
                run.ended_exhausted = true;
                return (run, None);
            },
            Poll::Launch(i) => {
                launch(i, now, &session, &mut in_flight, &mut run);
                timer = Some(now + cadence);
            },
            Poll::Pending => {
                let next_done = in_flight.iter().map(|e| e.0).min();
                let next = match (next_done, timer) {
                    (Some(a), Some(b)) => a.min(b),
                    (Some(a), None) => a,
                    (None, Some(b)) => b,
                    (None, None) => panic!("a pending session with nothing to wait for"),
                };
                now = next;
                let mut k = 0;
                while k < in_flight.len() {
                    if in_flight[k].0 <= now {
                        let (_, i, r) = in_flight.remove(k);
                        assert!(session.on_resolved(i, r));
                    } else {
                        k += 1;
                    }
                }
                if timer == Some(now) {
                    match session.on_timer() {
                        Some(i) => {
                            launch(i, now, &session, &mut in_flight, &mut run);
                            timer = Some(now + cadence);
                        },
                        None => timer = None,
                    }
                }
            },
        }
    }
}

#[test]
fn test_send_rpc_with_fallback() {
    let behaviors = [
        PeerBehavior::SucceedAfter(0),
        PeerBehavior::FailAfter(1000),
        PeerBehavior::SucceedAfter(5000),
        PeerBehavior::FailAfter(3000),
        PeerBehavior::SucceedAfter(2000),
    ];
    let (run, _) = drive(&behaviors, 100, usize::MAX);
    assert_eq!(run.results.len(), 5);
    assert!(run.results[0].is_ok());
    assert!(run.results[1].is_err());
    assert!(run.results[2].is_ok());
    assert!(run.results[3].is_err());
    assert!(run.results[4].is_ok());
    assert!(run.ended_exhausted);
}

#[test]
fn scenario_results_keep_candidate_order() {
    let behaviors = [
        PeerBehavior::SucceedAfter(0),
        PeerBehavior::FailAfter(1000),
        PeerBehavior::SucceedAfter(5000),
        PeerBehavior::FailAfter(3000),
        PeerBehavior::SucceedAfter(2000),
    ];
    let (run, _) = drive(&behaviors, 100, usize::MAX);
    let message = request(vec![42; 4]);
    for (i, r) in run.results.iter().enumerate() {
        match r {
            Ok(m) => assert_eq!(*m, reply_of(PeerId { id: 100 + i as u64 }, &message)),
            Err(e) => assert_eq!(*e, RpcError::Transport("failed to respond".to_string())),
        }
    }
    // candidate 0 answers at once and the escalation stops; the pull for
    // position 1 launches candidate 1, then the cadence launches the rest
    assert_eq!(run.launch_order, vec![0, 1, 2, 3, 4]);
    assert_eq!(run.launch_times, vec![0, 0, 100, 200, 300]);
}

#[test]
fn scenario_single_candidate_success() {
    let (run, _) = drive(&[PeerBehavior::SucceedAfter(0)], 100, usize::MAX);
    assert_eq!(run.results.len(), 1);
    assert!(run.results[0].is_ok());
    assert!(run.ended_exhausted);
}

#[test]
fn scenario_single_candidate_instant_failure() {
    let (run, _) = drive(&[PeerBehavior::FailAfter(0)], 100, usize::MAX);
    assert_eq!(run.results.len(), 1);
    assert!(run.results[0].is_err());
    assert!(run.ended_exhausted);
    assert_eq!(run.launch_order, vec![0]);

    let mut session =
        FallbackSession::send_rpc_with_fallbacks(peers(1), request(vec![1]), 100).unwrap();
    assert!(session.on_resolved(0, Err(RpcError::Transport("reset".to_string()))));
    assert_eq!(session.on_timer(), None);
    assert!(!session.timer_armed());
    assert!(matches!(session.poll_next(), Poll::Ready(Err(_))));
    assert!(matches!(session.poll_next(), Poll::Exhausted));
    assert!(matches!(session.poll_next(), Poll::Exhausted));
}

#[test]
fn scenario_cancel_after_partial_drain() {
    let behaviors = [
        PeerBehavior::SucceedAfter(0),
        PeerBehavior::SucceedAfter(250),
        PeerBehavior::SucceedAfter(10_000),
        PeerBehavior::FailAfter(10_000),
        PeerBehavior::SucceedAfter(10),
    ];
    let (run, session) = drive(&behaviors, 100, 2);
    assert_eq!(run.results.len(), 2);
    let session = session.unwrap();
    let to_cancel = session.cancel();
    // candidates 2 and 3 were launched and have not answered; 4 was never launched
    assert_eq!(to_cancel, vec![2, 3]);
    assert_eq!(run.launch_order, vec![0, 1, 2, 3]);
}

#[test]
fn cancel_leaves_out_resolved_but_undelivered() {
    let mut session =
        FallbackSession::send_rpc_with_fallbacks(peers(3), request(vec![]), 10).unwrap();
    assert_eq!(session.on_timer(), Some(1));
    assert_eq!(session.on_timer(), Some(2));
    assert!(session.on_resolved(1, Err(RpcError::Timeout)));
    assert_eq!(session.cancel(), vec![0, 2]);
}

#[test]
fn sessions_from_same_inputs_are_independent() {
    let message = request(vec![7, 7]);
    let mut a = FallbackSession::send_rpc_with_fallbacks(peers(2), message.clone(), 10).unwrap();
    let mut b = FallbackSession::send_rpc_with_fallbacks(peers(2), message.clone(), 10).unwrap();
    assert_eq!(a.on_timer(), Some(1));
    assert!(a.on_resolved(0, Ok(reply_of(PeerId { id: 100 }, &message))));
    assert!(a.on_resolved(1, Err(RpcError::Timeout)));
    // b has seen none of that
    assert!(matches!(b.poll_next(), Poll::Pending));
    assert!(!b.on_resolved(1, Ok(reply_of(PeerId { id: 101 }, &message))));
    assert!(b.on_resolved(0, Err(RpcError::Timeout)));
    assert!(matches!(a.poll_next(), Poll::Ready(Ok(_))));
    assert!(matches!(b.poll_next(), Poll::Ready(Err(RpcError::Timeout))));
    assert!(matches!(a.poll_next(), Poll::Ready(Err(RpcError::Timeout))));
    assert!(matches!(b.poll_next(), Poll::Launch(1)));
}

#[test]
fn empty_candidate_list_is_refused() {
    let r = FallbackSession::send_rpc_with_fallbacks(Vec::new(), request(vec![1]), 100);
    assert!(matches!(r, Err(DispatchError::NoCandidates)));
}

#[test]
fn new_session_launches_only_the_first_candidate() {
    let s = FallbackSession::send_rpc_with_fallbacks(peers(4), request(vec![9]), 250).unwrap();
    assert_eq!(s.num_candidates(), 4);
    assert_eq!(s.candidate(2), PeerId { id: 102 });
    assert_eq!(*s.message(), request(vec![9]));
    assert_eq!(s.cadence_ms(), 250);
    assert!(s.timer_armed());
    assert_eq!(s.cancel(), vec![0]);
}

#[test]
fn reports_for_unlaunched_or_resolved_positions_are_ignored() {
    let mut s = FallbackSession::send_rpc_with_fallbacks(peers(3), request(vec![]), 10).unwrap();
    assert!(!s.on_resolved(1, Err(RpcError::Timeout)));
    assert!(!s.on_resolved(5, Err(RpcError::Timeout)));
    assert!(s.on_resolved(0, Ok(request(vec![1]))));
    assert!(!s.on_resolved(0, Err(RpcError::Timeout)));
    assert!(matches!(s.poll_next(), Poll::Ready(Ok(m)) if m == request(vec![1])));
    assert!(!s.on_resolved(0, Err(RpcError::Timeout)));
}

#[test]
fn timer_escalates_only_while_something_is_unresolved() {
    let mut s = FallbackSession::send_rpc_with_fallbacks(peers(3), request(vec![]), 10).unwrap();
    assert_eq!(s.on_timer(), Some(1));
    assert!(s.on_resolved(0, Err(RpcError::Timeout)));
    assert!(s.on_resolved(1, Err(RpcError::Timeout)));
    assert_eq!(s.on_timer(), None);
    assert!(!s.timer_armed());
    assert!(matches!(s.poll_next(), Poll::Ready(Err(_))));
    assert!(matches!(s.poll_next(), Poll::Ready(Err(_))));
    assert!(matches!(s.poll_next(), Poll::Launch(2)));
    assert!(s.timer_armed());
    assert!(matches!(s.poll_next(), Poll::Pending));
    assert_eq!(s.on_timer(), None);
    assert!(s.on_resolved(2, Ok(request(vec![3]))));
    assert!(matches!(s.poll_next(), Poll::Ready(Ok(_))));
    assert!(matches!(s.poll_next(), Poll::Exhausted));
}

#[test]
fn every_list_length_yields_that_many_results() {
    for n in 1..8usize {
        let behaviors: Vec<PeerBehavior> = (0..n)
            .map(|i| {
                if i % 2 == 0 {
                    PeerBehavior::SucceedAfter((n - i) as u64 * 70)
                } else {
                    PeerBehavior::FailAfter(i as u64 * 30)
                }
            })
            .collect();
        let (run, _) = drive(&behaviors, 50, usize::MAX);
        assert_eq!(run.results.len(), n);
        assert!(run.ended_exhausted);
        assert_eq!(run.launch_order, (0..n).collect::<Vec<usize>>());
        for (i, r) in run.results.iter().enumerate() {
            assert_eq!(r.is_ok(), i % 2 == 0);
        }
    }
}
