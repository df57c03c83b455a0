use pocket_runtime::duration::Duration;
use pocket_runtime::error::{ErrorMessage, RuntimeError};
use pocket_runtime::protocol::{
    classify_protocol, receive_hello, receive_ready, receive_terminal, Exit, FrameBuffer,
    FrameError, FrameHeader, FrameLimits, FrameSection, FrameStep, FrameStop, Hello, ReadEvent,
    Ready, WorkloadMessage, READ_CHUNK,
};

const LIMITS: FrameLimits = FrameLimits {
    header_len: 16,
    max_payload: 65_536,
};

fn exit_frame() -> Vec<u8> {
    let mut frame = vec![2; 16];
    frame.extend_from_slice(b"exit");
    frame
}

const HEADER: FrameHeader = FrameHeader {
    sequence: 2,
    payload_len: 4,
};

#[test]
fn a_partial_frame_is_kept_for_the_next_wait() {
    let frame = exit_frame();
    let mut buffer = FrameBuffer::new();
    assert_eq!(
        buffer.step(LIMITS, HEADER, 2),
        Ok(FrameStep::Read { count: 16 })
    );
    buffer.accept(&frame[..10]);
    assert_eq!(buffer.header_bytes(LIMITS), None);
    // The wait ends here; the next one goes on with the missing bytes.
    assert_eq!(
        buffer.step(LIMITS, HEADER, 2),
        Ok(FrameStep::Read { count: 6 })
    );
    buffer.accept(&frame[10..16]);
    assert_eq!(buffer.header_bytes(LIMITS), Some(frame[..16].to_vec()));
    assert_eq!(
        buffer.step(LIMITS, HEADER, 2),
        Ok(FrameStep::Read { count: 4 })
    );
    buffer.accept(&frame[16..]);
    assert_eq!(buffer.step(LIMITS, HEADER, 2), Ok(FrameStep::Complete));
    assert_eq!(buffer.take(), frame);
    assert_eq!(
        buffer.step(LIMITS, HEADER, 3),
        Ok(FrameStep::Read { count: 16 })
    );
}

#[test]
fn no_split_and_no_pause_loses_a_byte_of_a_frame() {
    let frame = exit_frame();
    for piece in 1..=frame.len() {
        let mut buffer = FrameBuffer::new();
        let mut sent = 0;
        while sent < frame.len() {
            let wanted = match buffer.step(LIMITS, HEADER, 2) {
                Ok(FrameStep::Read { count }) => count,
                other => panic!("{other:?} after {sent} bytes"),
            };
            assert!(0 < wanted && wanted <= frame.len() - sent);
            assert_eq!(
                buffer.receive(ReadEvent::TimedOut, LIMITS, HEADER),
                Some(FrameStop::TimedOut)
            );
            assert_eq!(buffer.receive(ReadEvent::Interrupted, LIMITS, HEADER), None);
            let count = wanted.min(piece);
            let bytes = frame[sent..sent + count].to_vec();
            assert_eq!(buffer.receive(ReadEvent::Arrived { bytes }, LIMITS, HEADER), None);
            sent += count;
        }
        assert_eq!(buffer.step(LIMITS, HEADER, 2), Ok(FrameStep::Complete));
        assert_eq!(buffer.take(), frame);
    }
    let mut buffer = FrameBuffer::new();
    buffer.accept(&frame[..3]);
    assert_eq!(
        buffer.receive(ReadEvent::Ended, LIMITS, HEADER),
        Some(FrameStop::Refused(FrameError::UnexpectedEof {
            section: FrameSection::Header,
            expected: 16,
            received: 3,
        }))
    );
}

#[test]
fn frames_out_of_turn_or_cut_short_are_refused() {
    let mut buffer = FrameBuffer::new();
    assert_eq!(
        buffer.end(LIMITS, HEADER),
        FrameError::UnexpectedEof {
            section: FrameSection::Header,
            expected: 16,
            received: 0,
        }
    );
    buffer.accept(&exit_frame()[..18]);
    assert_eq!(
        buffer.step(LIMITS, HEADER, 5),
        Err(FrameError::SequenceMismatch {
            wanted: 5,
            found: 2,
        })
    );
    assert_eq!(
        buffer.end(LIMITS, HEADER),
        FrameError::UnexpectedEof {
            section: FrameSection::Payload,
            expected: 4,
            received: 2,
        }
    );
    let short = FrameHeader {
        sequence: 2,
        payload_len: 1,
    };
    assert_eq!(
        buffer.step(LIMITS, short, 2),
        Err(FrameError::TrailingData { remaining: 1 })
    );
    let long = FrameHeader {
        sequence: 2,
        payload_len: 1_000_000,
    };
    assert_eq!(
        buffer.step(LIMITS, long, 2),
        Ok(FrameStep::Read { count: READ_CHUNK })
    );
}

fn hello() -> Hello {
    Hello {
        guest_contract_id: "11".repeat(32),
        init_build_id: "22".repeat(32),
        kernel_build_id: "33".repeat(32),
        host_elf_machine: 62,
        guest_uts_machine: "x86_64".to_owned(),
        guest_page_size: 4096,
        cpu_state_hwcap_policy: "native-x86_64-v1".to_owned(),
        features: vec!["generation-marker-v3".to_owned()],
        online_cpus: 1,
        accepted_physmem_bytes: 256 * 1024 * 1024,
        guest_capability_policy: "fixed-capabilities-v1".to_owned(),
    }
}

#[test]
fn each_message_is_taken_in_its_own_place() {
    let exit = Exit {
        code: None,
        signal: Some(9),
        elapsed_ns: 42,
        filesystem_clean: true,
    };
    let ready = Ready {
        guest_pid: 2,
        effective_uid: 0,
        effective_gid: 0,
        cwd: "/".to_owned(),
    };
    assert_eq!(
        receive_hello(WorkloadMessage::Hello(hello()), "")
            .expect("HELLO")
            .guest_contract_id,
        "11".repeat(32)
    );
    assert_eq!(
        receive_ready(WorkloadMessage::Ready(ready.clone()), "")
            .expect("READY")
            .guest_pid,
        2
    );
    assert_eq!(
        receive_terminal(WorkloadMessage::Exit(exit), "").expect("EXIT"),
        exit
    );
    assert!(matches!(
        receive_hello(WorkloadMessage::Ready(ready), "message kind mismatch"),
        Err(RuntimeError::Protocol { reason }) if reason == "message kind mismatch"
    ));
    assert!(receive_terminal(WorkloadMessage::Other, "kind").is_err());
    let refusal = || ErrorMessage::new("exec", "not-found", Some(2), "no such file");
    for failed in [
        receive_hello(WorkloadMessage::Error(refusal()), "").err(),
        receive_ready(WorkloadMessage::Error(refusal()), "").err(),
        receive_terminal(WorkloadMessage::Error(refusal()), "").err(),
    ] {
        assert!(matches!(
            failed,
            Some(RuntimeError::Guest { message, .. }) if message.errno == Some(2)
        ));
    }
}

#[test]
fn only_a_deadline_is_a_timeout() {
    let timeout = Duration::from_secs(2);
    assert!(matches!(
        classify_protocol(true, "deadline elapsed", "EXIT", timeout),
        RuntimeError::Timeout { stage: "EXIT", .. }
    ));
    assert!(matches!(
        classify_protocol(false, "reset", "EXIT", timeout),
        RuntimeError::Protocol { reason } if reason == "reset"
    ));
}
