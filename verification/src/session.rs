use vstd::prelude::*;

use crate::lines::contains_terminator;
use crate::lines::extract_lines;
use crate::lines::lines_after;
use crate::lines::rest_after;

verus! {

/// Shortest wait, in milliseconds, before retrying when nothing new is
/// available; also the value the wait resets to after a successful read.
pub const BACKOFF_MIN_MS: u64 = 100;

/// Longest wait, in milliseconds, that the backoff policy ever asks for.
pub const BACKOFF_MAX_MS: u64 = 10000;

/// The mathematical state of one tailing session.
#[verifier::ext_equal]
pub ghost struct Model {
    /// Whether a readable handle for the path is currently held.
    pub open: bool,
    /// Whether any open has ever succeeded in this session.
    pub first_open_done: bool,
    /// Whether the path was found absent before the first successful open;
    /// content of a file that appears only then is new, not historical.
    pub start_absent: bool,
    /// Identifies which physical file the held handle reads.
    pub identity: u64,
    /// Byte offset of the next unread position in the open file.
    pub cursor: int,
    /// Bytes of the current unfinished line, carried across reads.
    pub pending: Seq<u8>,
    /// The current retry wait in milliseconds.
    pub backoff_ms: int,
    /// Whether a fatal read error has ended the session.
    pub failed: bool,
}

/// What the driver observed while carrying out the last requested action.
pub enum TailEvent {
    /// Opening the path succeeded; the file has this identity and size.
    Opened { identity: u64, size: u64 },
    /// The path does not exist or is not yet readable: a transient condition.
    OpenMissing,
    /// A read from the open handle returned these bytes; empty means the
    /// session has caught up with the end of the file.
    ReadData { bytes: Vec<u8> },
    /// The open handle reported an unrecoverable error: fatal.
    ReadFailed,
    /// Re-resolving the path found a file with this identity and size.
    Observed { identity: u64, size: u64 },
    /// Re-resolving the path found nothing there at the moment.
    ObserveMissing,
    /// The requested wait has elapsed.
    Waited,
}

/// The mathematical image of a `TailEvent`.
pub ghost enum Ev {
    Opened { identity: u64, size: int },
    OpenMissing,
    ReadData { bytes: Seq<u8> },
    ReadFailed,
    Observed { identity: u64, size: int },
    ObserveMissing,
    Waited,
}

impl View for TailEvent {
    type V = Ev;

    open spec fn view(&self) -> Ev {
        match self {
            TailEvent::Opened { identity, size } => Ev::Opened {
                identity: *identity,
                size: *size as int,
            },
            TailEvent::OpenMissing => Ev::OpenMissing,
            TailEvent::ReadData { bytes } => Ev::ReadData { bytes: bytes@ },
            TailEvent::ReadFailed => Ev::ReadFailed,
            TailEvent::Observed { identity, size } => Ev::Observed {
                identity: *identity,
                size: *size as int,
            },
            TailEvent::ObserveMissing => Ev::ObserveMissing,
            TailEvent::Waited => Ev::Waited,
        }
    }
}

/// What the session asks its driver to do next.
#[derive(Clone, Copy, Debug, PartialEq, Eq, Structural)]
pub enum TailAction {
    /// Try to open the watched path.
    Open,
    /// Read whatever is available from the open handle at the cursor.
    Read,
    /// Re-resolve the path to its current identity and size.
    Probe,
    /// Sleep this many milliseconds, then report `Waited`.
    Wait { millis: u64 },
    /// The session has failed; stop driving it.
    Fail,
}

/// What holds of the image of every real event: observed sizes are byte
/// counts and cannot be negative.
pub open spec fn wf_event(e: Ev) -> bool {
    match e {
        Ev::Opened { size, .. } => size >= 0,
        Ev::Observed { size, .. } => size >= 0,
        _ => true,
    }
}

/// The next wait after one more fruitless round: the interval doubles until
/// it reaches the cap.
pub open spec fn grown_backoff(b: int) -> int {
    if 2 * b >= BACKOFF_MAX_MS { BACKOFF_MAX_MS as int } else { 2 * b }
}

/// Every state of a live session satisfies this: the wait stays between its
/// bounds, the buffered fragment holds no terminator (it is the prefix of a
/// line still being written), nothing is buffered while no file is open, the
/// cursor never precedes the start of the file, and a handle can only be
/// held once some open has succeeded.
pub open spec fn wf_model(m: Model) -> bool {
    &&& BACKOFF_MIN_MS <= m.backoff_ms <= BACKOFF_MAX_MS
    &&& !contains_terminator(m.pending)
    &&& !m.open ==> m.pending.len() == 0 && m.cursor == 0
    &&& 0 <= m.cursor
    &&& m.open ==> m.first_open_done
}

/// The state of a session that has just been constructed: nothing open,
/// nothing buffered, the wait at its minimum.
pub open spec fn init_model() -> Model {
    Model {
        open: false,
        first_open_done: false,
        start_absent: false,
        identity: 0,
        cursor: 0,
        pending: Seq::empty(),
        backoff_ms: BACKOFF_MIN_MS as int,
        failed: false,
    }
}

/// The action that resumes progress from a quiescent state: report the
/// failure, or obtain a handle, or read from the one held.
pub open spec fn resume_action(m: Model) -> TailAction {
    if m.failed {
        TailAction::Fail
    } else if !m.open {
        TailAction::Open
    } else {
        TailAction::Read
    }
}

/// The session state after the event `e` arrives in state `m`.
///
/// An event that does not answer the session's current situation (an open
/// result while a handle is held, a read result while none is) leaves the
/// state unchanged.
pub open spec fn next_state(m: Model, e: Ev) -> Model {
    match e {
        Ev::Opened { identity, size } => if m.open {
            m
        } else {
            Model {
                open: true,
                first_open_done: true,
                identity,
                // Only content already present when the session began is
                // historical and skipped; a file first seen after an absence
                // arose during the session, so it is read from its start, as
                // is any file opened after a rotation.
                cursor: if !m.first_open_done && !m.start_absent {
                    size
                } else {
                    0
                },
                ..m
            }
        },
        Ev::OpenMissing => if m.open {
            m
        } else {
            Model {
                start_absent: m.start_absent || !m.first_open_done,
                backoff_ms: grown_backoff(m.backoff_ms),
                ..m
            }
        },
        Ev::ReadData { bytes } => if !m.open || bytes.len() == 0 {
            m
        } else {
            Model {
                cursor: m.cursor + bytes.len(),
                pending: rest_after(m.pending, bytes),
                backoff_ms: BACKOFF_MIN_MS as int,
                ..m
            }
        },
        Ev::ReadFailed => if m.open {
            Model { failed: true, ..m }
        } else {
            m
        },
        Ev::Observed { identity, size } => if !m.open {
            m
        } else if identity != m.identity {
            // Rotation: the name now resolves to a different physical file.
            // The old file's unfinished fragment can never be completed and
            // is dropped; the new file will be read from its start.
            Model { open: false, pending: Seq::empty(), cursor: 0, ..m }
        } else if size < m.cursor {
            // Truncation: same file, shorter than what was already read.
            // Start over at the beginning of the rewritten content.
            Model { cursor: 0, pending: Seq::empty(), ..m }
        } else {
            Model { backoff_ms: grown_backoff(m.backoff_ms), ..m }
        },
        Ev::ObserveMissing => if !m.open {
            m
        } else {
            Model { open: false, pending: Seq::empty(), cursor: 0, ..m }
        },
        Ev::Waited => m,
    }
}

/// The complete lines the session emits when the event `e` arrives in state
/// `m`: only fresh bytes read from the open handle produce lines.
pub open spec fn emitted(m: Model, e: Ev) -> Seq<Seq<u8>> {
    match e {
        Ev::ReadData { bytes } => if m.open && bytes.len() > 0 {
            lines_after(m.pending, bytes)
        } else {
            Seq::empty()
        },
        _ => Seq::empty(),
    }
}

/// The action the session requests after the event `e` arrives in state `m`.
pub open spec fn next_action(m: Model, e: Ev) -> TailAction {
    match e {
        Ev::Opened { .. } => if m.open {
            resume_action(m)
        } else {
            TailAction::Read
        },
        Ev::OpenMissing => if m.open {
            resume_action(m)
        } else {
            TailAction::Wait { millis: m.backoff_ms as u64 }
        },
        Ev::ReadData { bytes } => if !m.open {
            resume_action(m)
        } else if bytes.len() == 0 {
            TailAction::Probe
        } else {
            TailAction::Read
        },
        Ev::ReadFailed => if m.open {
            TailAction::Fail
        } else {
            resume_action(m)
        },
        Ev::Observed { identity, size } => if !m.open {
            resume_action(m)
        } else if identity != m.identity {
            TailAction::Open
        } else if size < m.cursor {
            TailAction::Read
        } else {
            TailAction::Wait { millis: m.backoff_ms as u64 }
        },
        Ev::ObserveMissing => if !m.open {
            resume_action(m)
        } else {
            TailAction::Open
        },
        Ev::Waited => resume_action(m),
    }
}

/// The cursor never moves backwards except to zero, and to zero only in
/// the step that detects a replacement of the file: a new identity under
/// the path, the path gone, or the same file shortened below the cursor.
pub proof fn law_cursor_regresses_only_on_replacement(m: Model, e: Ev)
    requires
        wf_model(m),
        wf_event(e),
    ensures
        next_state(m, e).cursor < m.cursor ==> {
            &&& next_state(m, e).cursor == 0
            &&& {
                ||| e matches Ev::Observed { identity, size } && (identity != m.identity || size
                    < m.cursor)
                ||| e matches Ev::ObserveMissing
            }
        },
{
}

/// Ordering: however appended bytes are chunked across two reads, the
/// session emits exactly the lines terminated in the concatenation of the
/// bytes, in file-content order, and buffers the same unfinished fragment.
pub proof fn law_ordering(m: Model, a: Seq<u8>, b: Seq<u8>)
    requires
        m.open,
    ensures
        emitted(m, Ev::ReadData { bytes: a }) + emitted(
            next_state(m, Ev::ReadData { bytes: a }),
            Ev::ReadData { bytes: b },
        ) == lines_after(m.pending, a + b),
        next_state(next_state(m, Ev::ReadData { bytes: a }), Ev::ReadData { bytes: b }).pending
            == rest_after(m.pending, a + b),
{
    crate::lines::lemma_lines_split(m.pending, a, b);
    if a.len() == 0 {
        assert(a + b =~= b);
        assert(Seq::<Seq<u8>>::empty() + emitted(m, Ev::ReadData { bytes: b }) =~= emitted(
            m,
            Ev::ReadData { bytes: b },
        ));
        if b.len() == 0 {
            crate::lines::lemma_no_terminator(m.pending, b);
            assert(m.pending + b =~= m.pending);
        }
    } else if b.len() == 0 {
        assert(a + b =~= a);
        crate::lines::lemma_no_terminator(rest_after(m.pending, a), b);
        assert(rest_after(m.pending, a) + b =~= rest_after(m.pending, a));
        assert(emitted(m, Ev::ReadData { bytes: a }) + Seq::<Seq<u8>>::empty() =~= emitted(
            m,
            Ev::ReadData { bytes: a },
        ));
    }
}

/// Every byte read from the open file is accounted for exactly once: the
/// lines a read emits, with their terminators restored, followed by what
/// stays buffered, are exactly the bytes that were buffered and the bytes
/// read — none skipped, none delivered twice.
pub proof fn law_every_byte_accounted(m: Model, bytes: Seq<u8>)
    requires
        m.open,
    ensures
        crate::lines::rejoin(emitted(m, Ev::ReadData { bytes })) + next_state(
            m,
            Ev::ReadData { bytes },
        ).pending == m.pending + bytes,
{
    if bytes.len() == 0 {
        assert(crate::lines::rejoin(Seq::<Seq<u8>>::empty()) + m.pending =~= m.pending + bytes);
    } else {
        crate::lines::lemma_every_byte_accounted(m.pending, bytes);
    }
}

/// No duplication: once the session has caught up with the end of the file,
/// a whole further polling round — an empty read, an unchanged observation
/// of the path, the wait it asks for — emits no line and moves neither the
/// cursor nor the buffered fragment.
pub proof fn law_no_duplication(m: Model, size: int)
    requires
        m.open,
        !m.failed,
        size >= m.cursor,
    ensures
        ({
            let e1 = Ev::ReadData { bytes: Seq::empty() };
            let e2 = Ev::Observed { identity: m.identity, size };
            let m1 = next_state(m, e1);
            let m2 = next_state(m1, e2);
            let m3 = next_state(m2, Ev::Waited);
            &&& emitted(m, e1) == Seq::<Seq<u8>>::empty()
            &&& emitted(m1, e2) == Seq::<Seq<u8>>::empty()
            &&& emitted(m2, Ev::Waited) == Seq::<Seq<u8>>::empty()
            &&& m1 == m
            &&& next_action(m, e1) == TailAction::Probe
            &&& next_action(m1, e2) == (TailAction::Wait { millis: m.backoff_ms as u64 })
            &&& m3.cursor == m.cursor && m3.pending == m.pending && m3.open && !m3.failed
            &&& next_action(m2, Ev::Waited) == TailAction::Read
        }),
{
}

/// Rotation correctness: a line read before the path comes to name a new
/// physical file is emitted before the session reopens; the reopened file is
/// read from its very start with nothing buffered, so the first line written
/// to it is emitted next, and nothing of the old file is replayed.
pub proof fn law_rotation(m: Model, l1: Seq<u8>, l2: Seq<u8>, new_identity: u64, size: int)
    requires
        wf_model(m),
        m.open,
        !m.failed,
        !contains_terminator(l1),
        !contains_terminator(l2),
        new_identity != m.identity,
    ensures
        ({
            let e1 = Ev::ReadData { bytes: l1.push(crate::lines::LINE_TERMINATOR) };
            let m1 = next_state(m, e1);
            let e2 = Ev::Observed { identity: new_identity, size: m1.cursor };
            let m2 = next_state(m1, e2);
            let e3 = Ev::Opened { identity: new_identity, size };
            let m3 = next_state(m2, e3);
            let e4 = Ev::ReadData { bytes: l2.push(crate::lines::LINE_TERMINATOR) };
            &&& emitted(m, e1) == seq![m.pending + l1]
            &&& emitted(m1, e2) == Seq::<Seq<u8>>::empty()
            &&& next_action(m1, e2) == TailAction::Open
            &&& emitted(m2, e3) == Seq::<Seq<u8>>::empty()
            &&& m3.cursor == 0 && m3.pending == Seq::<u8>::empty() && m3.identity
                == new_identity
            &&& emitted(m3, e4) == seq![l2]
        }),
{
    crate::lines::lemma_one_line(m.pending, l1);
    let e1 = Ev::ReadData { bytes: l1.push(crate::lines::LINE_TERMINATOR) };
    let m1 = next_state(m, e1);
    let e2 = Ev::Observed { identity: new_identity, size: m1.cursor };
    let m2 = next_state(m1, e2);
    let e3 = Ev::Opened { identity: new_identity, size };
    let m3 = next_state(m2, e3);
    crate::lines::lemma_one_line(m3.pending, l2);
    assert(Seq::<u8>::empty() + l2 =~= l2);
}

/// Truncation correctness: when the same file is observed shorter than what
/// was already read, the session starts over at offset zero with nothing
/// buffered, emits nothing for the event itself, and the next line written
/// to the truncated file is emitted alone — nothing before the truncation
/// point is replayed.
pub proof fn law_truncation(m: Model, size: int, l: Seq<u8>)
    requires
        wf_model(m),
        m.open,
        !m.failed,
        size < m.cursor,
        !contains_terminator(l),
    ensures
        ({
            let e1 = Ev::Observed { identity: m.identity, size };
            let m1 = next_state(m, e1);
            let e2 = Ev::ReadData { bytes: l.push(crate::lines::LINE_TERMINATOR) };
            &&& emitted(m, e1) == Seq::<Seq<u8>>::empty()
            &&& m1.cursor == 0 && m1.pending == Seq::<u8>::empty() && m1.open
            &&& next_action(m, e1) == TailAction::Read
            &&& emitted(m1, e2) == seq![l]
        }),
{
    let e1 = Ev::Observed { identity: m.identity, size };
    let m1 = next_state(m, e1);
    crate::lines::lemma_one_line(m1.pending, l);
    assert(Seq::<u8>::empty() + l =~= l);
}

/// Absence tolerance: a session built over a path that does not exist yet
/// does not fail; it waits, retries the open, and once the file appears it
/// is read from its start, so the first line written to it is emitted.
pub proof fn law_absence(identity: u64, size: int, l: Seq<u8>)
    requires
        !contains_terminator(l),
    ensures
        ({
            let m = init_model();
            let m1 = next_state(m, Ev::OpenMissing);
            let m2 = next_state(m1, Ev::Waited);
            let e3 = Ev::Opened { identity, size };
            let m3 = next_state(m2, e3);
            let e4 = Ev::ReadData { bytes: l.push(crate::lines::LINE_TERMINATOR) };
            &&& !m1.failed && next_action(m, Ev::OpenMissing) == (TailAction::Wait {
                millis: BACKOFF_MIN_MS,
            })
            &&& emitted(m, Ev::OpenMissing) == Seq::<Seq<u8>>::empty()
            &&& next_action(m1, Ev::Waited) == TailAction::Open
            &&& m3.open && m3.cursor == 0 && !m3.failed
            &&& emitted(m3, e4) == seq![l]
        }),
{
    let m = init_model();
    let m1 = next_state(m, Ev::OpenMissing);
    let m2 = next_state(m1, Ev::Waited);
    let e3 = Ev::Opened { identity, size };
    let m3 = next_state(m2, e3);
    crate::lines::lemma_one_line(m3.pending, l);
    assert(Seq::<u8>::empty() + l =~= l);
}

/// A live tailing session over one file path.
///
/// The session makes every decision of the follow operation — where the
/// cursor stands, which lines are complete, whether the file was rotated or
/// truncated, how long to wait — but touches no file itself.  A driver loop
/// owns the path and the handle: it performs each requested `TailAction`
/// and reports the outcome as a `TailEvent`, and the session hands back the
/// completed lines.
pub struct TailSession {
    open: bool,
    first_open_done: bool,
    start_absent: bool,
    identity: u64,
    cursor: u64,
    pending: Vec<u8>,
    backoff_ms: u64,
    failed: bool,
}

impl View for TailSession {
    type V = Model;

    closed spec fn view(&self) -> Model {
        Model {
            open: self.open,
            first_open_done: self.first_open_done,
            start_absent: self.start_absent,
            identity: self.identity,
            cursor: self.cursor as int,
            pending: self.pending@,
            backoff_ms: self.backoff_ms as int,
            failed: self.failed,
        }
    }
}

impl TailSession {
    /// Begins a session over a path.  The driver should perform the action
    /// `current_action` reports — at this point, an open attempt.
    pub fn new() -> (s: TailSession)
        ensures
            s@ == init_model(),
            wf_model(s@),
    {
        TailSession {
            open: false,
            first_open_done: false,
            start_absent: false,
            identity: 0,
            cursor: 0,
            pending: Vec::new(),
            backoff_ms: BACKOFF_MIN_MS,
            failed: false,
        }
    }

    /// The action that resumes the session without a new event: useful to
    /// the driver at the start and after delivering emitted lines.
    pub fn current_action(&self) -> (a: TailAction)
        ensures
            a == resume_action(self@),
    {
        if self.failed {
            TailAction::Fail
        } else if !self.open {
            TailAction::Open
        } else {
            TailAction::Read
        }
    }

    /// Byte offset of the next unread position in the currently open file.
    pub fn cursor(&self) -> (c: u64)
        ensures
            c as int == self@.cursor,
    {
        self.cursor
    }

    /// Whether a fatal read error has ended the session.
    pub fn is_failed(&self) -> (b: bool)
        ensures
            b == self@.failed,
    {
        self.failed
    }

    /// Whether a handle to the watched path is currently held.
    pub fn is_open(&self) -> (b: bool)
        ensures
            b == self@.open,
    {
        self.open
    }

    /// Number of bytes buffered from the current unfinished line.
    pub fn pending_len(&self) -> (n: usize)
        ensures
            n as int == self@.pending.len(),
    {
        self.pending.len()
    }

    /// Advances the session by one observation: `event` reports the outcome
    /// of the last requested action.  Returns the lines the event completed,
    /// in the order their terminators appear, and the next action for the
    /// driver to perform.
    pub fn step(&mut self, event: TailEvent) -> (r: (Vec<Vec<u8>>, TailAction))
        requires
            wf_model(old(self)@),
            !old(self)@.failed,
            event@ matches Ev::ReadData { bytes } ==> old(self)@.cursor + bytes.len() <= u64::MAX,
        ensures
            final(self)@ == next_state(old(self)@, event@),
            wf_model(final(self)@),
            r.0.deep_view() == emitted(old(self)@, event@),
            r.1 == next_action(old(self)@, event@),
    {
        let ghost m = self@;
        let ghost e = event@;
        let no_lines: Vec<Vec<u8>> = Vec::new();
        proof {
            assert(no_lines.deep_view() =~~= Seq::<Seq<u8>>::empty());
        }
        match event {
            TailEvent::Opened { identity, size } => {
                if self.open {
                    (no_lines, self.current_action())
                } else {
                    self.identity = identity;
                    self.cursor = if !self.first_open_done && !self.start_absent {
                        size
                    } else {
                        0
                    };
                    self.open = true;
                    self.first_open_done = true;
                    proof {
                        assert(self@ =~= next_state(m, e));
                    }
                    (no_lines, TailAction::Read)
                }
            },
            TailEvent::OpenMissing => {
                if self.open {
                    (no_lines, self.current_action())
                } else {
                    if !self.first_open_done {
                        self.start_absent = true;
                    }
                    let wait = TailAction::Wait { millis: self.backoff_ms };
                    self.backoff_ms = if self.backoff_ms >= BACKOFF_MAX_MS / 2 {
                        BACKOFF_MAX_MS
                    } else {
                        2 * self.backoff_ms
                    };
                    proof {
                        assert(self@ =~= next_state(m, e));
                    }
                    (no_lines, wait)
                }
            },
            TailEvent::ReadData { bytes } => {
                if !self.open {
                    (no_lines, self.current_action())
                } else if bytes.len() == 0 {
                    (no_lines, TailAction::Probe)
                } else {
                    self.cursor = self.cursor + bytes.len() as u64;
                    let lines = extract_lines(&mut self.pending, bytes.as_slice());
                    self.backoff_ms = BACKOFF_MIN_MS;
                    proof {
                        crate::lines::lemma_rest_no_terminator(m.pending, bytes@);
                        assert(self@ =~= next_state(m, e));
                    }
                    (lines, TailAction::Read)
                }
            },
            TailEvent::ReadFailed => {
                if self.open {
                    self.failed = true;
                    proof {
                        assert(self@ =~= next_state(m, e));
                    }
                    (no_lines, TailAction::Fail)
                } else {
                    (no_lines, self.current_action())
                }
            },
            TailEvent::Observed { identity, size } => {
                if !self.open {
                    (no_lines, self.current_action())
                } else if identity != self.identity {
                    self.open = false;
                    self.pending.clear();
                    self.cursor = 0;
                    proof {
                        assert(self@ =~= next_state(m, e));
                    }
                    (no_lines, TailAction::Open)
                } else if size < self.cursor {
                    self.cursor = 0;
                    self.pending.clear();
                    proof {
                        assert(self@ =~= next_state(m, e));
                    }
                    (no_lines, TailAction::Read)
                } else {
                    let wait = TailAction::Wait { millis: self.backoff_ms };
                    self.backoff_ms = if self.backoff_ms >= BACKOFF_MAX_MS / 2 {
                        BACKOFF_MAX_MS
                    } else {
                        2 * self.backoff_ms
                    };
                    proof {
                        assert(self@ =~= next_state(m, e));
                    }
                    (no_lines, wait)
                }
            },
            TailEvent::ObserveMissing => {
                if !self.open {
                    (no_lines, self.current_action())
                } else {
                    self.open = false;
                    self.pending.clear();
                    self.cursor = 0;
                    proof {
                        assert(self@ =~= next_state(m, e));
                    }
                    (no_lines, TailAction::Open)
                }
            },
            TailEvent::Waited => (no_lines, self.current_action()),
        }
    }
}

} // verus!
