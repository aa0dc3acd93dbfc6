//! The chainload/flash state machine. It validates, streams and commits a
//! firmware image into the alternate boot region, crash-safely: the current
//! boot target is untouched until the final set-boot step.
//!
//! The machine itself never touches a device. A driver loop outside the
//! core asks `next_action` what to do, performs the storage read or
//! boot-service call, and feeds the outcome back through `step`. Every
//! transition is a pure function of the session and the event, so the
//! ordering guarantees below hold for all execution traces.
use vstd::prelude::*;
use vstd::string::*;

use crate::textfmt::{fmt_i32, fmt_u64, spec_i32_text, spec_texts, spec_u64_text};

verus! {

/// First byte every installable image must carry.
pub const FLASH_MAGIC: u8 = 0xE9;

/// Bytes streamed per chunk from the source file to the partition.
pub const FLASH_CHUNK_SIZE: usize = 4096;

/// Why a flash attempt failed. Device errors carry the boot service's
/// status code; read errors carry the storage layer's message.
#[derive(Clone, Debug)]
pub enum FlashError {
    Open(String),
    Read(String),
    NoOtaPartition,
    FileTooLarge { total: u64, part_size: u64 },
    EmptyFile,
    InvalidMagic,
    OtaBegin(i32),
    OtaWrite(i32),
    OtaEnd(i32),
    OtaSetBoot(i32),
}

/// Where the session stands. Every state is terminal-safe: the currently
/// bootable target stays selected until `BootCommitted`.
#[derive(Clone, Debug)]
pub enum Phase {
    Opened,
    PartitionResolved,
    HeaderValidated,
    Begun,
    Streaming,
    Finalized,
    BootCommitted,
    Restarting,
    Failed(FlashError),
}

/// The outcome of one outside call, fed back into the machine.
#[derive(Clone, Debug)]
pub enum FlashEvent {
    PartitionInfo { capacity: Option<u64> },
    CheckSize,
    HeaderRead { len: u64, first: Option<u8> },
    ReadFailed { message: String },
    BeginResult { status: i32 },
    ChunkRead { len: u64 },
    WriteResult { status: i32 },
    EndResult { status: i32 },
    SetBootResult { status: i32 },
    RestartIssued,
}

/// What the driver must do next.
#[derive(Clone, Copy, Debug, PartialEq, Eq, Structural)]
pub enum FlashAction {
    QueryPartition,
    ValidateSize,
    ReadHeader,
    Begin,
    Write { len: u64 },
    ReadChunk,
    End,
    SetBoot,
    Restart,
    Halt,
}

/// One flash attempt: source size if known, target capacity, progress
/// counters, and the current phase.
#[derive(Clone, Debug)]
pub struct FlashSession {
    pub phase: Phase,
    pub total: Option<u64>,
    pub capacity: u64,
    pub size_checked: bool,
    pub written: u64,
    pub pending: u64,
    pub eof: bool,
}

/// A fresh session over an opened source whose size, when the storage
/// layer knows it, is `total`.
pub open spec fn spec_new_session(total: Option<u64>) -> FlashSession {
    FlashSession {
        phase: Phase::Opened,
        total,
        capacity: 0,
        size_checked: false,
        written: 0,
        pending: 0,
        eof: false,
    }
}

/// The session, failed with `e`.
pub open spec fn spec_fail(s: FlashSession, e: FlashError) -> FlashSession {
    FlashSession { phase: Phase::Failed(e), ..s }
}

/// Addition on byte counters that pegs at the top instead of wrapping.
pub open spec fn spec_sat_add(a: u64, b: u64) -> u64 {
    if a + b > u64::MAX {
        u64::MAX
    } else {
        (a + b) as u64
    }
}

/// Obtaining the next-update partition: none configured fails the attempt,
/// otherwise its capacity is recorded.
pub open spec fn spec_on_partition_info(s: FlashSession, capacity: Option<u64>) -> FlashSession {
    if s.phase is Opened {
        match capacity {
            None => spec_fail(s, FlashError::NoOtaPartition),
            Some(c) => FlashSession { phase: Phase::PartitionResolved, capacity: c, ..s },
        }
    } else {
        s
    }
}

/// The size gate: a known total larger than the partition fails closed,
/// before any primitive is issued.
pub open spec fn spec_on_check_size(s: FlashSession) -> FlashSession {
    if s.phase is PartitionResolved && !s.size_checked {
        match s.total {
            Some(t) => if t > s.capacity {
                spec_fail(s, FlashError::FileTooLarge { total: t, part_size: s.capacity })
            } else {
                FlashSession { size_checked: true, ..s }
            },
            None => FlashSession { size_checked: true, ..s },
        }
    } else {
        s
    }
}

/// The header gate: the first chunk must exist and start with the magic
/// byte; the chunk then waits as the first pending write.
pub open spec fn spec_on_header_read(s: FlashSession, len: u64, first: Option<u8>) -> FlashSession {
    if s.phase is PartitionResolved && s.size_checked {
        if len == 0 {
            spec_fail(s, FlashError::EmptyFile)
        } else {
            match first {
                Some(b) => if b == FLASH_MAGIC {
                    FlashSession { phase: Phase::HeaderValidated, pending: len, ..s }
                } else {
                    spec_fail(s, FlashError::InvalidMagic)
                },
                None => spec_fail(s, FlashError::InvalidMagic),
            }
        }
    } else {
        s
    }
}

/// A failed source read, while reading the header or streaming.
pub open spec fn spec_on_read_failed(s: FlashSession, message: String) -> FlashSession {
    if (s.phase is PartitionResolved && s.size_checked) || (s.phase is Streaming && s.pending == 0
        && !s.eof) {
        spec_fail(s, FlashError::Read(message))
    } else {
        s
    }
}

/// The begin primitive's outcome (this is where the target is erased).
pub open spec fn spec_on_begin_result(s: FlashSession, status: i32) -> FlashSession {
    if s.phase is HeaderValidated {
        if status == 0 {
            FlashSession { phase: Phase::Begun, ..s }
        } else {
            spec_fail(s, FlashError::OtaBegin(status))
        }
    } else {
        s
    }
}

/// One source chunk read while streaming: zero bytes means end-of-data,
/// otherwise the chunk waits as the pending write.
pub open spec fn spec_on_chunk_read(s: FlashSession, len: u64) -> FlashSession {
    if s.phase is Streaming && s.pending == 0 && !s.eof {
        if len == 0 {
            FlashSession { eof: true, ..s }
        } else {
            FlashSession { pending: len, ..s }
        }
    } else {
        s
    }
}

/// The write primitive's outcome: on success the pending bytes count as
/// written and streaming continues.
pub open spec fn spec_on_write_result(s: FlashSession, status: i32) -> FlashSession {
    if (s.phase is Begun || s.phase is Streaming) && s.pending > 0 {
        if status == 0 {
            FlashSession {
                phase: Phase::Streaming,
                written: spec_sat_add(s.written, s.pending),
                pending: 0,
                ..s
            }
        } else {
            spec_fail(s, FlashError::OtaWrite(status))
        }
    } else {
        s
    }
}

/// The end primitive's outcome, once all bytes are written and the source
/// reported end-of-data.
pub open spec fn spec_on_end_result(s: FlashSession, status: i32) -> FlashSession {
    if s.phase is Streaming && s.eof && s.pending == 0 {
        if status == 0 {
            FlashSession { phase: Phase::Finalized, ..s }
        } else {
            spec_fail(s, FlashError::OtaEnd(status))
        }
    } else {
        s
    }
}

/// The set-boot primitive's outcome: the single commit point.
pub open spec fn spec_on_set_boot_result(s: FlashSession, status: i32) -> FlashSession {
    if s.phase is Finalized {
        if status == 0 {
            FlashSession { phase: Phase::BootCommitted, ..s }
        } else {
            spec_fail(s, FlashError::OtaSetBoot(status))
        }
    } else {
        s
    }
}

/// The restart was issued; the session is terminal.
pub open spec fn spec_on_restart_issued(s: FlashSession) -> FlashSession {
    if s.phase is BootCommitted {
        FlashSession { phase: Phase::Restarting, ..s }
    } else {
        s
    }
}

/// The whole transition function: events out of place leave the session
/// unchanged.
pub open spec fn spec_step(s: FlashSession, ev: FlashEvent) -> FlashSession {
    match ev {
        FlashEvent::PartitionInfo { capacity } => spec_on_partition_info(s, capacity),
        FlashEvent::CheckSize => spec_on_check_size(s),
        FlashEvent::HeaderRead { len, first } => spec_on_header_read(s, len, first),
        FlashEvent::ReadFailed { message } => spec_on_read_failed(s, message),
        FlashEvent::BeginResult { status } => spec_on_begin_result(s, status),
        FlashEvent::ChunkRead { len } => spec_on_chunk_read(s, len),
        FlashEvent::WriteResult { status } => spec_on_write_result(s, status),
        FlashEvent::EndResult { status } => spec_on_end_result(s, status),
        FlashEvent::SetBootResult { status } => spec_on_set_boot_result(s, status),
        FlashEvent::RestartIssued => spec_on_restart_issued(s),
    }
}

/// What the driver must do in each state.
pub open spec fn spec_next_action(s: FlashSession) -> FlashAction {
    match s.phase {
        Phase::Opened => FlashAction::QueryPartition,
        Phase::PartitionResolved => if !s.size_checked {
            FlashAction::ValidateSize
        } else {
            FlashAction::ReadHeader
        },
        Phase::HeaderValidated => FlashAction::Begin,
        Phase::Begun => if s.pending > 0 {
            FlashAction::Write { len: s.pending }
        } else {
            FlashAction::ReadChunk
        },
        Phase::Streaming => if s.pending > 0 {
            FlashAction::Write { len: s.pending }
        } else if s.eof {
            FlashAction::End
        } else {
            FlashAction::ReadChunk
        },
        Phase::Finalized => FlashAction::SetBoot,
        Phase::BootCommitted => FlashAction::Restart,
        Phase::Restarting => FlashAction::Halt,
        Phase::Failed(_) => FlashAction::Halt,
    }
}

impl FlashSession {
    /// Opens a session over a source of (possibly unknown) size `total`.
    pub fn new(total: Option<u64>) -> (s: Self)
        ensures
            s == spec_new_session(total),
    {
        FlashSession {
            phase: Phase::Opened,
            total,
            capacity: 0,
            size_checked: false,
            written: 0,
            pending: 0,
            eof: false,
        }
    }

    /// Feeds one outside outcome into the machine.
    pub fn step(&mut self, event: FlashEvent)
        ensures
            *final(self) == spec_step(*old(self), event),
    {
        match event {
            FlashEvent::PartitionInfo { capacity } => {
                if matches!(self.phase, Phase::Opened) {
                    match capacity {
                        None => {
                            self.phase = Phase::Failed(FlashError::NoOtaPartition);
                        },
                        Some(c) => {
                            self.phase = Phase::PartitionResolved;
                            self.capacity = c;
                        },
                    }
                }
            },
            FlashEvent::CheckSize => {
                if matches!(self.phase, Phase::PartitionResolved) && !self.size_checked {
                    let oversize = match self.total {
                        Some(t) => t > self.capacity,
                        None => false,
                    };
                    if oversize {
                        let t = match self.total {
                            Some(t) => t,
                            None => 0,
                        };
                        self.phase = Phase::Failed(
                            FlashError::FileTooLarge { total: t, part_size: self.capacity },
                        );
                    } else {
                        self.size_checked = true;
                    }
                }
            },
            FlashEvent::HeaderRead { len, first } => {
                if matches!(self.phase, Phase::PartitionResolved) && self.size_checked {
                    if len == 0 {
                        self.phase = Phase::Failed(FlashError::EmptyFile);
                    } else {
                        match first {
                            Some(b) => {
                                if b == FLASH_MAGIC {
                                    self.phase = Phase::HeaderValidated;
                                    self.pending = len;
                                } else {
                                    self.phase = Phase::Failed(FlashError::InvalidMagic);
                                }
                            },
                            None => {
                                self.phase = Phase::Failed(FlashError::InvalidMagic);
                            },
                        }
                    }
                }
            },
            FlashEvent::ReadFailed { message } => {
                let reading_header = matches!(self.phase, Phase::PartitionResolved)
                    && self.size_checked;
                let reading_chunk = matches!(self.phase, Phase::Streaming) && self.pending == 0
                    && !self.eof;
                if reading_header || reading_chunk {
                    self.phase = Phase::Failed(FlashError::Read(message));
                }
            },
            FlashEvent::BeginResult { status } => {
                if matches!(self.phase, Phase::HeaderValidated) {
                    if status == 0 {
                        self.phase = Phase::Begun;
                    } else {
                        self.phase = Phase::Failed(FlashError::OtaBegin(status));
                    }
                }
            },
            FlashEvent::ChunkRead { len } => {
                if matches!(self.phase, Phase::Streaming) && self.pending == 0 && !self.eof {
                    if len == 0 {
                        self.eof = true;
                    } else {
                        self.pending = len;
                    }
                }
            },
            FlashEvent::WriteResult { status } => {
                let writing = matches!(self.phase, Phase::Begun) || matches!(
                    self.phase,
                    Phase::Streaming,
                );
                if writing && self.pending > 0 {
                    if status == 0 {
                        self.phase = Phase::Streaming;
                        self.written = if self.pending > u64::MAX - self.written {
                            u64::MAX
                        } else {
                            self.written + self.pending
                        };
                        self.pending = 0;
                    } else {
                        self.phase = Phase::Failed(FlashError::OtaWrite(status));
                    }
                }
            },
            FlashEvent::EndResult { status } => {
                if matches!(self.phase, Phase::Streaming) && self.eof && self.pending == 0 {
                    if status == 0 {
                        self.phase = Phase::Finalized;
                    } else {
                        self.phase = Phase::Failed(FlashError::OtaEnd(status));
                    }
                }
            },
            FlashEvent::SetBootResult { status } => {
                if matches!(self.phase, Phase::Finalized) {
                    if status == 0 {
                        self.phase = Phase::BootCommitted;
                    } else {
                        self.phase = Phase::Failed(FlashError::OtaSetBoot(status));
                    }
                }
            },
            FlashEvent::RestartIssued => {
                if matches!(self.phase, Phase::BootCommitted) {
                    self.phase = Phase::Restarting;
                }
            },
        }
    }

    /// Tells the driver what to do next.
    pub fn next_action(&self) -> (a: FlashAction)
        ensures
            a == spec_next_action(*self),
    {
        match &self.phase {
            Phase::Opened => FlashAction::QueryPartition,
            Phase::PartitionResolved => {
                if !self.size_checked {
                    FlashAction::ValidateSize
                } else {
                    FlashAction::ReadHeader
                }
            },
            Phase::HeaderValidated => FlashAction::Begin,
            Phase::Begun => {
                if self.pending > 0 {
                    FlashAction::Write { len: self.pending }
                } else {
                    FlashAction::ReadChunk
                }
            },
            Phase::Streaming => {
                if self.pending > 0 {
                    FlashAction::Write { len: self.pending }
                } else if self.eof {
                    FlashAction::End
                } else {
                    FlashAction::ReadChunk
                }
            },
            Phase::Finalized => FlashAction::SetBoot,
            Phase::BootCommitted => FlashAction::Restart,
            Phase::Restarting => FlashAction::Halt,
            Phase::Failed(_) => FlashAction::Halt,
        }
    }
}

/// The message lines shown to the user for each failure.
pub open spec fn spec_error_lines(e: FlashError) -> Seq<Seq<char>> {
    match e {
        FlashError::Open(msg) => seq!["Open failed: "@ + msg@],
        FlashError::Read(msg) => seq!["Read failed: "@ + msg@],
        FlashError::NoOtaPartition => seq![
            "No OTA partition available."@,
            "Check partitions.csv."@,
        ],
        FlashError::FileTooLarge { total, part_size } => seq![
            "File too large: "@ + spec_u64_text(total as int) + " bytes"@,
            "Partition size: "@ + spec_u64_text(part_size as int) + " bytes"@,
        ],
        FlashError::EmptyFile => seq!["Image file is empty."@],
        FlashError::InvalidMagic => seq!["Invalid image header."@],
        FlashError::OtaBegin(code) => seq!["OTA begin failed: "@ + spec_i32_text(code as int)],
        FlashError::OtaWrite(code) => seq!["OTA write failed: "@ + spec_i32_text(code as int)],
        FlashError::OtaEnd(code) => seq!["OTA end failed: "@ + spec_i32_text(code as int)],
        FlashError::OtaSetBoot(code) => seq!["Set boot failed: "@ + spec_i32_text(code as int)],
    }
}

impl FlashError {
    /// Renders the failure as message lines for the status screen.
    pub fn to_lines(&self) -> (r: Vec<String>)
        ensures
            spec_texts(r@) == spec_error_lines(*self),
    {
        let mut r: Vec<String> = Vec::new();
        match self {
            FlashError::Open(msg) => {
                r.push(String::from_str("Open failed: ").concat(msg.as_str()));
                proof {
                    reveal_strlit("Open failed: ");
                }
            },
            FlashError::Read(msg) => {
                r.push(String::from_str("Read failed: ").concat(msg.as_str()));
                proof {
                    reveal_strlit("Read failed: ");
                }
            },
            FlashError::NoOtaPartition => {
                r.push(String::from_str("No OTA partition available."));
                r.push(String::from_str("Check partitions.csv."));
            },
            FlashError::FileTooLarge { total, part_size } => {
                r.push(
                    String::from_str("File too large: ").concat(fmt_u64(*total).as_str()).concat(
                        " bytes",
                    ),
                );
                r.push(
                    String::from_str("Partition size: ").concat(
                        fmt_u64(*part_size).as_str(),
                    ).concat(" bytes"),
                );
                proof {
                    reveal_strlit("File too large: ");
                    reveal_strlit("Partition size: ");
                    reveal_strlit(" bytes");
                }
            },
            FlashError::EmptyFile => {
                r.push(String::from_str("Image file is empty."));
            },
            FlashError::InvalidMagic => {
                r.push(String::from_str("Invalid image header."));
            },
            FlashError::OtaBegin(code) => {
                r.push(String::from_str("OTA begin failed: ").concat(fmt_i32(*code).as_str()));
                proof {
                    reveal_strlit("OTA begin failed: ");
                }
            },
            FlashError::OtaWrite(code) => {
                r.push(String::from_str("OTA write failed: ").concat(fmt_i32(*code).as_str()));
                proof {
                    reveal_strlit("OTA write failed: ");
                }
            },
            FlashError::OtaEnd(code) => {
                r.push(String::from_str("OTA end failed: ").concat(fmt_i32(*code).as_str()));
                proof {
                    reveal_strlit("OTA end failed: ");
                }
            },
            FlashError::OtaSetBoot(code) => {
                r.push(String::from_str("Set boot failed: ").concat(fmt_i32(*code).as_str()));
                proof {
                    reveal_strlit("Set boot failed: ");
                }
            },
        }
        proof {
            assert(spec_texts(r@) =~= spec_error_lines(*self));
        }
        r
    }
}

/// The session a run of events leads to, folding `spec_step` from `init`.
pub open spec fn spec_run(init: FlashSession, events: Seq<FlashEvent>) -> FlashSession
    decreases events.len(),
{
    if events.len() == 0 {
        init
    } else {
        spec_step(spec_run(init, events.drop_last()), events.last())
    }
}

/// The actions that invoke a boot-service flash primitive.
pub open spec fn spec_is_flash_primitive(a: FlashAction) -> bool {
    a is Begin || a is Write || a is End || a is SetBoot
}

/// The phases only reachable after the begin primitive succeeded.
pub open spec fn spec_post_begin(p: Phase) -> bool {
    p is Begun || p is Streaming || p is Finalized || p is BootCommitted || p is Restarting
}

/// The phases only reachable after the end primitive succeeded.
pub open spec fn spec_post_end(p: Phase) -> bool {
    p is Finalized || p is BootCommitted || p is Restarting
}

proof fn lemma_order_invariant(init: FlashSession, events: Seq<FlashEvent>)
    requires
        init.phase is Opened,
    ensures
        spec_post_begin(spec_run(init, events).phase) ==> exists|j: int|
            0 <= j < events.len() && events[j] == (FlashEvent::BeginResult { status: 0i32 }),
        spec_post_end(spec_run(init, events).phase) ==> exists|j: int|
            0 <= j < events.len() && events[j] == (FlashEvent::EndResult { status: 0i32 }),
    decreases events.len(),
{
    if events.len() > 0 {
        let prefix = events.drop_last();
        lemma_order_invariant(init, prefix);
        let prev = spec_run(init, prefix);
        let cur = spec_run(init, events);
        let n = events.len() as int;
        if spec_post_begin(cur.phase) {
            if spec_post_begin(prev.phase) {
                let j = choose|j: int|
                    0 <= j < prefix.len() && prefix[j] == (FlashEvent::BeginResult {
                        status: 0i32,
                    });
                assert(events[j] == prefix[j]);
            } else {
                assert(events[n - 1] == events.last());
                assert(events[n - 1] == (FlashEvent::BeginResult { status: 0i32 }));
            }
        }
        if spec_post_end(cur.phase) {
            if spec_post_end(prev.phase) {
                let j = choose|j: int|
                    0 <= j < prefix.len() && prefix[j] == (FlashEvent::EndResult { status: 0i32 });
                assert(events[j] == prefix[j]);
            } else {
                assert(events[n - 1] == events.last());
                assert(events[n - 1] == (FlashEvent::EndResult { status: 0i32 }));
            }
        }
    }
}

/// Law: in any run of the machine, the driver is told to write only after
/// an event reported begin success, and told to set the boot partition
/// only after an event reported end success.
pub proof fn lemma_primitive_order(total: Option<u64>, events: Seq<FlashEvent>)
    ensures
        (spec_next_action(spec_run(spec_new_session(total), events)) is Write) ==> exists|j: int|
            0 <= j < events.len() && events[j] == (FlashEvent::BeginResult { status: 0i32 }),
        (spec_next_action(spec_run(spec_new_session(total), events)) is SetBoot) ==> exists|
            j: int,
        |
            0 <= j < events.len() && events[j] == (FlashEvent::EndResult { status: 0i32 }),
{
    lemma_order_invariant(spec_new_session(total), events);
}

/// In a run where the image is larger than every partition offered,
/// nothing beyond the size gate is ever reached.
pub open spec fn spec_oversize_event(total: u64, ev: FlashEvent) -> bool {
    match ev {
        FlashEvent::PartitionInfo { capacity } => match capacity {
            Some(c) => total > c,
            None => true,
        },
        _ => true,
    }
}

proof fn lemma_oversize_invariant(total: u64, events: Seq<FlashEvent>)
    requires
        forall|k: int| 0 <= k < events.len() ==> spec_oversize_event(total, #[trigger] events[k]),
    ensures
        ({
            let s = spec_run(spec_new_session(Some(total)), events);
            &&& s.total == Some(total)
            &&& !s.size_checked
            &&& s.written == 0
            &&& s.pending == 0
            &&& (s.phase is PartitionResolved ==> total > s.capacity)
            &&& (s.phase is Opened || s.phase is PartitionResolved || s.phase is Failed)
            &&& (match s.phase {
                Phase::Failed(e) => e is FileTooLarge || e is NoOtaPartition,
                _ => true,
            })
        }),
    decreases events.len(),
{
    if events.len() > 0 {
        let prefix = events.drop_last();
        assert forall|k: int| 0 <= k < prefix.len() implies spec_oversize_event(
            total,
            #[trigger] prefix[k],
        ) by {
            assert(prefix[k] == events[k]);
        }
        lemma_oversize_invariant(total, prefix);
        assert(spec_oversize_event(total, events.last()));
    }
}

/// Law: when the known image size exceeds the partition capacity, no
/// begin/write/end/set-boot primitive is ever demanded, nothing is
/// written, and the only way the session fails is the size check (or a
/// missing partition).
pub proof fn lemma_oversize_never_flashes(total: u64, events: Seq<FlashEvent>, i: int)
    requires
        forall|k: int| 0 <= k < events.len() ==> spec_oversize_event(total, #[trigger] events[k]),
        0 <= i <= events.len(),
    ensures
        ({
            let s = spec_run(spec_new_session(Some(total)), events.take(i));
            &&& !spec_is_flash_primitive(spec_next_action(s))
            &&& s.written == 0
            &&& (match s.phase {
                Phase::Failed(e) => e is FileTooLarge || e is NoOtaPartition,
                _ => true,
            })
        }),
{
    let prefix = events.take(i);
    assert forall|k: int| 0 <= k < prefix.len() implies spec_oversize_event(
        total,
        #[trigger] prefix[k],
    ) by {
        assert(prefix[k] == events[k]);
    }
    lemma_oversize_invariant(total, prefix);
}

/// In a run where no header ever starts with the magic byte, nothing
/// beyond the header gate is ever reached.
pub open spec fn spec_bad_magic_event(ev: FlashEvent) -> bool {
    match ev {
        FlashEvent::HeaderRead { len, first } => first != Some(FLASH_MAGIC),
        _ => true,
    }
}

proof fn lemma_bad_magic_invariant(total: Option<u64>, events: Seq<FlashEvent>)
    requires
        forall|k: int| 0 <= k < events.len() ==> spec_bad_magic_event(#[trigger] events[k]),
    ensures
        ({
            let s = spec_run(spec_new_session(total), events);
            &&& s.written == 0
            &&& s.pending == 0
            &&& (s.phase is Opened || s.phase is PartitionResolved || s.phase is Failed)
        }),
    decreases events.len(),
{
    if events.len() > 0 {
        let prefix = events.drop_last();
        assert forall|k: int| 0 <= k < prefix.len() implies spec_bad_magic_event(
            #[trigger] prefix[k],
        ) by {
            assert(prefix[k] == events[k]);
        }
        lemma_bad_magic_invariant(total, prefix);
        assert(spec_bad_magic_event(events.last()));
    }
}

/// Law: when the first byte read is never the magic byte, no
/// begin/write/end/set-boot primitive is ever demanded and nothing is
/// written.
pub proof fn lemma_bad_magic_never_flashes(total: Option<u64>, events: Seq<FlashEvent>, i: int)
    requires
        forall|k: int| 0 <= k < events.len() ==> spec_bad_magic_event(#[trigger] events[k]),
        0 <= i <= events.len(),
    ensures
        !spec_is_flash_primitive(spec_next_action(spec_run(spec_new_session(total), events.take(i)))),
        spec_run(spec_new_session(total), events.take(i)).written == 0,
{
    let prefix = events.take(i);
    assert forall|k: int| 0 <= k < prefix.len() implies spec_bad_magic_event(
        #[trigger] prefix[k],
    ) by {
        assert(prefix[k] == events[k]);
    }
    lemma_bad_magic_invariant(total, prefix);
}

proof fn lemma_step_written_monotonic(s: FlashSession, ev: FlashEvent)
    ensures
        spec_step(s, ev).written >= s.written,
{
}

/// How far along a phase is; a failure counts as final.
pub open spec fn spec_phase_rank(p: Phase) -> int {
    match p {
        Phase::Opened => 0,
        Phase::PartitionResolved => 1,
        Phase::HeaderValidated => 2,
        Phase::Begun => 3,
        Phase::Streaming => 4,
        Phase::Finalized => 5,
        Phase::BootCommitted => 6,
        Phase::Restarting => 7,
        Phase::Failed(_) => 8,
    }
}

/// Law: the machine never steps backwards — each event either holds the
/// phase, advances it, or fails it; a terminal session never changes; and
/// the set-boot commit is demanded only in `Finalized`.
pub proof fn lemma_phase_progress(s: FlashSession, ev: FlashEvent)
    ensures
        spec_phase_rank(spec_step(s, ev).phase) >= spec_phase_rank(s.phase),
        (s.phase is Restarting || s.phase is Failed) ==> spec_step(s, ev) == s,
        (spec_next_action(s) is SetBoot) ==> s.phase is Finalized,
{
}

/// Law: across any run, the written counter never decreases.
pub proof fn lemma_written_monotonic(init: FlashSession, events: Seq<FlashEvent>, i: int, j: int)
    requires
        0 <= i <= j <= events.len(),
    ensures
        spec_run(init, events.take(i)).written <= spec_run(init, events.take(j)).written,
    decreases j - i,
{
    if i < j {
        lemma_written_monotonic(init, events, i, j - 1);
        assert(events.take(j).drop_last() =~= events.take(j - 1));
        let prev = spec_run(init, events.take(j - 1));
        lemma_step_written_monotonic(prev, events.take(j).last());
    }
}

} // verus!
