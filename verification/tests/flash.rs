use cardos::chainload::{FlashAction, FlashError, FlashEvent, FlashSession, Phase, FLASH_MAGIC};
use cardos::progress::{percent_of, progress_percent, ProgressThrottle};

fn ok(status: i32) -> bool {
    status == 0
}

#[test]
fn oversize_image_fails_closed() {
    // a 10 MB image against a 4 MB partition: no primitive is ever demanded
    let mut s = FlashSession::new(Some(10_000_000));
    assert!(matches!(s.phase, Phase::Opened));
    assert_eq!(s.next_action(), FlashAction::QueryPartition);
    s.step(FlashEvent::PartitionInfo { capacity: Some(4 * 1024 * 1024) });
    assert!(matches!(s.phase, Phase::PartitionResolved));
    assert_eq!(s.next_action(), FlashAction::ValidateSize);
    s.step(FlashEvent::CheckSize);
    match &s.phase {
        Phase::Failed(FlashError::FileTooLarge { total, part_size }) => {
            assert_eq!(*total, 10_000_000);
            assert_eq!(*part_size, 4 * 1024 * 1024);
        },
        other => panic!("unexpected phase {:?}", other),
    }
    assert_eq!(s.written, 0);
    assert_eq!(s.next_action(), FlashAction::Halt);
}

#[test]
fn valid_image_streams_to_boot_committed() {
    // a valid 2 MB image against an 8 MB partition, no faults injected
    let total: u64 = 2_000_000;
    let mut s = FlashSession::new(Some(total));
    s.step(FlashEvent::PartitionInfo { capacity: Some(8 * 1024 * 1024) });
    assert!(matches!(s.phase, Phase::PartitionResolved));
    s.step(FlashEvent::CheckSize);
    assert_eq!(s.next_action(), FlashAction::ReadHeader);
    s.step(FlashEvent::HeaderRead { len: 4096, first: Some(FLASH_MAGIC) });
    assert!(matches!(s.phase, Phase::HeaderValidated));
    assert_eq!(s.next_action(), FlashAction::Begin);
    s.step(FlashEvent::BeginResult { status: 0 });
    assert!(matches!(s.phase, Phase::Begun));
    let mut remaining = total;
    loop {
        match s.next_action() {
            FlashAction::Write { len } => {
                assert!(len <= remaining);
                remaining -= len;
                s.step(FlashEvent::WriteResult { status: 0 });
            },
            FlashAction::ReadChunk => {
                let n = remaining.min(4096);
                s.step(FlashEvent::ChunkRead { len: n });
            },
            FlashAction::End => break,
            other => panic!("unexpected action {:?}", other),
        }
    }
    assert_eq!(s.written, total);
    s.step(FlashEvent::EndResult { status: 0 });
    assert!(matches!(s.phase, Phase::Finalized));
    assert_eq!(s.next_action(), FlashAction::SetBoot);
    s.step(FlashEvent::SetBootResult { status: 0 });
    assert!(matches!(s.phase, Phase::BootCommitted));
    assert_eq!(s.next_action(), FlashAction::Restart);
    s.step(FlashEvent::RestartIssued);
    assert!(matches!(s.phase, Phase::Restarting));
    assert_eq!(s.next_action(), FlashAction::Halt);
}

#[test]
fn bad_magic_never_reaches_begin() {
    let mut s = FlashSession::new(Some(1024));
    s.step(FlashEvent::PartitionInfo { capacity: Some(1 << 20) });
    s.step(FlashEvent::CheckSize);
    s.step(FlashEvent::HeaderRead { len: 1024, first: Some(0x42) });
    assert!(matches!(s.phase, Phase::Failed(FlashError::InvalidMagic)));
    assert_eq!(s.written, 0);
    assert_eq!(s.next_action(), FlashAction::Halt);
}

#[test]
fn empty_image_is_rejected() {
    let mut s = FlashSession::new(Some(0));
    s.step(FlashEvent::PartitionInfo { capacity: Some(1 << 20) });
    s.step(FlashEvent::CheckSize);
    s.step(FlashEvent::HeaderRead { len: 0, first: None });
    assert!(matches!(s.phase, Phase::Failed(FlashError::EmptyFile)));
    assert_eq!(s.next_action(), FlashAction::Halt);
}

#[test]
fn missing_partition_is_reported() {
    let mut s = FlashSession::new(None);
    s.step(FlashEvent::PartitionInfo { capacity: None });
    assert!(matches!(s.phase, Phase::Failed(FlashError::NoOtaPartition)));
}

#[test]
fn device_failures_carry_status_codes() {
    let mut s = FlashSession::new(Some(100));
    s.step(FlashEvent::PartitionInfo { capacity: Some(1 << 20) });
    s.step(FlashEvent::CheckSize);
    s.step(FlashEvent::HeaderRead { len: 100, first: Some(FLASH_MAGIC) });
    s.step(FlashEvent::BeginResult { status: -262 });
    assert!(matches!(s.phase, Phase::Failed(FlashError::OtaBegin(-262))));

    let mut s = FlashSession::new(Some(100));
    s.step(FlashEvent::PartitionInfo { capacity: Some(1 << 20) });
    s.step(FlashEvent::CheckSize);
    s.step(FlashEvent::HeaderRead { len: 100, first: Some(FLASH_MAGIC) });
    s.step(FlashEvent::BeginResult { status: 0 });
    s.step(FlashEvent::WriteResult { status: 7 });
    assert!(matches!(s.phase, Phase::Failed(FlashError::OtaWrite(7))));

    let mut s = FlashSession::new(Some(100));
    s.step(FlashEvent::PartitionInfo { capacity: Some(1 << 20) });
    s.step(FlashEvent::CheckSize);
    s.step(FlashEvent::HeaderRead { len: 100, first: Some(FLASH_MAGIC) });
    s.step(FlashEvent::BeginResult { status: 0 });
    s.step(FlashEvent::WriteResult { status: 0 });
    s.step(FlashEvent::ChunkRead { len: 0 });
    s.step(FlashEvent::EndResult { status: 3 });
    assert!(matches!(s.phase, Phase::Failed(FlashError::OtaEnd(3))));

    let mut s = FlashSession::new(Some(100));
    s.step(FlashEvent::PartitionInfo { capacity: Some(1 << 20) });
    s.step(FlashEvent::CheckSize);
    s.step(FlashEvent::HeaderRead { len: 100, first: Some(FLASH_MAGIC) });
    s.step(FlashEvent::BeginResult { status: 0 });
    s.step(FlashEvent::WriteResult { status: 0 });
    s.step(FlashEvent::ChunkRead { len: 0 });
    s.step(FlashEvent::EndResult { status: 0 });
    s.step(FlashEvent::SetBootResult { status: -1 });
    assert!(matches!(s.phase, Phase::Failed(FlashError::OtaSetBoot(-1))));
}

#[test]
fn read_failure_aborts_streaming() {
    let mut s = FlashSession::new(None);
    s.step(FlashEvent::PartitionInfo { capacity: Some(1 << 20) });
    s.step(FlashEvent::CheckSize);
    s.step(FlashEvent::HeaderRead { len: 4096, first: Some(FLASH_MAGIC) });
    s.step(FlashEvent::BeginResult { status: 0 });
    s.step(FlashEvent::WriteResult { status: 0 });
    s.step(FlashEvent::ReadFailed { message: "card gone".to_string() });
    match &s.phase {
        Phase::Failed(FlashError::Read(msg)) => assert_eq!(msg, "card gone"),
        other => panic!("unexpected phase {:?}", other),
    }
}

#[test]
fn error_lines_name_the_failure() {
    assert_eq!(
        FlashError::FileTooLarge { total: 10, part_size: 4 }.to_lines(),
        vec!["File too large: 10 bytes".to_string(), "Partition size: 4 bytes".to_string()]
    );
    assert_eq!(
        FlashError::NoOtaPartition.to_lines(),
        vec!["No OTA partition available.".to_string(), "Check partitions.csv.".to_string()]
    );
    assert_eq!(FlashError::OtaBegin(-3).to_lines(), vec!["OTA begin failed: -3".to_string()]);
    assert_eq!(FlashError::OtaWrite(12).to_lines(), vec!["OTA write failed: 12".to_string()]);
    assert_eq!(FlashError::OtaEnd(0).to_lines(), vec!["OTA end failed: 0".to_string()]);
    assert_eq!(FlashError::OtaSetBoot(-1).to_lines(), vec!["Set boot failed: -1".to_string()]);
    assert_eq!(
        FlashError::Open("no such file".to_string()).to_lines(),
        vec!["Open failed: no such file".to_string()]
    );
    assert_eq!(
        FlashError::Read("timeout".to_string()).to_lines(),
        vec!["Read failed: timeout".to_string()]
    );
    assert_eq!(FlashError::EmptyFile.to_lines(), vec!["Image file is empty.".to_string()]);
    assert_eq!(FlashError::InvalidMagic.to_lines(), vec!["Invalid image header.".to_string()]);
}

#[test]
fn written_counter_is_monotone_and_exact() {
    let mut s = FlashSession::new(None);
    s.step(FlashEvent::PartitionInfo { capacity: Some(1 << 20) });
    s.step(FlashEvent::CheckSize);
    s.step(FlashEvent::HeaderRead { len: 4096, first: Some(FLASH_MAGIC) });
    s.step(FlashEvent::BeginResult { status: 0 });
    let mut last = s.written;
    let chunks = [4096u64, 4096, 100, 0];
    for n in chunks {
        match s.next_action() {
            FlashAction::Write { .. } => {},
            FlashAction::ReadChunk => s.step(FlashEvent::ChunkRead { len: n }),
            other => panic!("unexpected action {:?}", other),
        }
        if let FlashAction::Write { .. } = s.next_action() {
            s.step(FlashEvent::WriteResult { status: 0 });
        }
        assert!(s.written >= last);
        last = s.written;
    }
    assert_eq!(s.written, 4096 + 4096 + 100);
    assert_eq!(s.next_action(), FlashAction::End);
    assert!(ok(0));
}

#[test]
fn percent_is_rounded_and_capped() {
    assert_eq!(percent_of(0, 200), 0);
    assert_eq!(percent_of(50, 200), 25);
    assert_eq!(percent_of(199, 200), 99);
    assert_eq!(percent_of(200, 200), 100);
    assert_eq!(percent_of(500, 200), 100);
    assert_eq!(progress_percent(10, None), None);
    assert_eq!(progress_percent(10, Some(0)), None);
    assert_eq!(progress_percent(10, Some(40)), Some(25));
}

#[test]
fn percent_never_regresses() {
    let total = 2_000_000u64;
    let mut last = 0u64;
    let mut written = 0u64;
    while written < total {
        written = (written + 4096).min(total);
        let pct = percent_of(written, total);
        assert!(pct >= last);
        last = pct;
    }
    assert_eq!(last, 100);
}

#[test]
fn throttle_redraws_on_percent_change_only() {
    let mut t = ProgressThrottle::new(0);
    let total = Some(1000u64);
    assert!(t.should_render(0, total, 10));
    assert!(!t.should_render(5, total, 20));
    assert!(t.should_render(10, total, 30));
    assert!(!t.should_render(12, total, 40));
    // a stale screen redraws even at the same percentage
    assert!(t.should_render(12, total, 200));
}

#[test]
fn throttle_uses_interval_when_total_unknown() {
    let mut t = ProgressThrottle::new(0);
    assert!(!t.should_render(100, None, 100));
    assert!(!t.should_render(200, None, 150));
    assert!(t.should_render(300, None, 151));
    // the clock was noted at the redraw
    assert!(!t.should_render(400, None, 300));
    assert!(t.should_render(500, None, 302));
}
