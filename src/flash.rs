//! The flash sequence: unmount, raw write, sync, optional read-back check.
use vstd::prelude::*;
use crate::text::{chars_contain, chars_of, contains, push_str};

verus! {

/// Where a flash stands.
#[derive(Clone, Copy, Debug, PartialEq, Eq, Structural)]
pub enum FlashPhase {
    Idle,
    Unmounting,
    Writing,
    Syncing,
    Verifying,
    Done,
    Failed,
    Cancelled,
}

/// Why a flash failed.
#[derive(Clone, Copy, Debug, PartialEq, Eq, Structural)]
pub enum FlashFailure {
    /// A volume of the device could not be unmounted.
    Unmount,
    /// The user declined or dismissed the privilege prompt.
    Denied,
    /// Writing to or reading from the device failed.
    Io,
    /// The device does not hold what the image holds.
    Mismatch,
}

/// What the I/O around a flash reports back to it.
#[derive(Clone, Copy, Debug, PartialEq, Eq, Structural)]
pub enum FlashEvent {
    Start { image_size: u64, verify: bool },
    Unmounted,
    UnmountFailed,
    /// `len` more bytes reached the device.
    Wrote { len: u64 },
    Written,
    WriteFailed { denied: bool },
    Synced,
    /// `len` more bytes were read back and matched.
    Checked { len: u64 },
    Verified,
    VerifyMismatch,
    VerifyReadFailed,
    Cancel,
}

/// The state of one flash.
#[derive(Clone, Copy, Debug, PartialEq, Eq, Structural)]
pub struct FlashSession {
    pub phase: FlashPhase,
    pub verify: bool,
    pub total_bytes: u64,
    pub written_bytes: u64,
    pub verified_bytes: u64,
    pub failure: Option<FlashFailure>,
}

pub open spec fn flash_terminal(p: FlashPhase) -> bool {
    p == FlashPhase::Done || p == FlashPhase::Failed || p == FlashPhase::Cancelled
}

pub open spec fn sat_add(a: u64, b: u64) -> u64 {
    if a + b > u64::MAX {
        u64::MAX
    } else {
        (a + b) as u64
    }
}

impl FlashSession {
    /// A flash only checks the device when asked to, and only a failed flash
    /// carries a failure.
    pub open spec fn wf(self) -> bool {
        &&& self.phase == FlashPhase::Verifying ==> self.verify
        &&& self.failure is Some <==> self.phase == FlashPhase::Failed
    }

    /// A flash that has not started.
    pub fn idle() -> (r: FlashSession)
        ensures
            r == FlashSession::idle_spec(),
            r.wf(),
    {
        FlashSession {
            phase: FlashPhase::Idle,
            verify: false,
            total_bytes: 0,
            written_bytes: 0,
            verified_bytes: 0,
            failure: None,
        }
    }
}

fn failed(s: &mut FlashSession, why: FlashFailure)
    ensures
        *final(s) == (FlashSession { phase: FlashPhase::Failed, failure: Some(why), ..*old(s) }),
{
    s.phase = FlashPhase::Failed;
    s.failure = Some(why);
}

/// One transition of a flash.
pub open spec fn flash_next(s: FlashSession, e: FlashEvent) -> FlashSession {
    if flash_terminal(s.phase) {
        s
    } else {
        match (s.phase, e) {
            (FlashPhase::Idle, FlashEvent::Start { image_size, verify }) => FlashSession {
                phase: FlashPhase::Unmounting,
                verify,
                total_bytes: image_size,
                written_bytes: 0,
                verified_bytes: 0,
                failure: None,
            },
            (FlashPhase::Idle, _) => s,
            (_, FlashEvent::Cancel) => FlashSession { phase: FlashPhase::Cancelled, ..s },
            (FlashPhase::Unmounting, FlashEvent::Unmounted) => FlashSession {
                phase: FlashPhase::Writing,
                ..s
            },
            (FlashPhase::Unmounting, FlashEvent::UnmountFailed) => FlashSession {
                phase: FlashPhase::Failed,
                failure: Some(FlashFailure::Unmount),
                ..s
            },
            (FlashPhase::Writing, FlashEvent::Wrote { len }) => FlashSession {
                written_bytes: sat_add(s.written_bytes, len),
                ..s
            },
            (FlashPhase::Writing, FlashEvent::Written) => FlashSession {
                phase: FlashPhase::Syncing,
                ..s
            },
            (FlashPhase::Writing, FlashEvent::WriteFailed { denied }) => FlashSession {
                phase: FlashPhase::Failed,
                failure: Some(
                    if denied {
                        FlashFailure::Denied
                    } else {
                        FlashFailure::Io
                    },
                ),
                ..s
            },
            (FlashPhase::Syncing, FlashEvent::Synced) => FlashSession {
                phase: if s.verify {
                    FlashPhase::Verifying
                } else {
                    FlashPhase::Done
                },
                ..s
            },
            (FlashPhase::Verifying, FlashEvent::Checked { len }) => FlashSession {
                verified_bytes: sat_add(s.verified_bytes, len),
                ..s
            },
            (FlashPhase::Verifying, FlashEvent::Verified) => FlashSession {
                phase: FlashPhase::Done,
                ..s
            },
            (FlashPhase::Verifying, FlashEvent::VerifyMismatch) => FlashSession {
                phase: FlashPhase::Failed,
                failure: Some(FlashFailure::Mismatch),
                ..s
            },
            (FlashPhase::Verifying, FlashEvent::VerifyReadFailed) => FlashSession {
                phase: FlashPhase::Failed,
                failure: Some(FlashFailure::Io),
                ..s
            },
            _ => s,
        }
    }
}

impl FlashSession {
    pub fn is_terminal(&self) -> (r: bool)
        ensures
            r == flash_terminal(self.phase),
    {
        match self.phase {
            FlashPhase::Done | FlashPhase::Failed | FlashPhase::Cancelled => true,
            _ => false,
        }
    }

    /// Takes one event; the new phase says what to do next.
    pub fn handle(&mut self, e: FlashEvent)
        ensures
            *final(self) == flash_next(*old(self), e),
    {
        if self.is_terminal() {
            return;
        }
        match (self.phase, e) {
            (FlashPhase::Idle, FlashEvent::Start { image_size, verify }) => {
                *self = FlashSession {
                    phase: FlashPhase::Unmounting,
                    verify,
                    total_bytes: image_size,
                    written_bytes: 0,
                    verified_bytes: 0,
                    failure: None,
                };
            },
            (FlashPhase::Idle, _) => {},
            (_, FlashEvent::Cancel) => {
                self.phase = FlashPhase::Cancelled;
            },
            (FlashPhase::Unmounting, FlashEvent::Unmounted) => {
                self.phase = FlashPhase::Writing;
            },
            (FlashPhase::Unmounting, FlashEvent::UnmountFailed) => {
                failed(self, FlashFailure::Unmount);
            },
            (FlashPhase::Writing, FlashEvent::Wrote { len }) => {
                self.written_bytes = self.written_bytes.saturating_add(len);
            },
            (FlashPhase::Writing, FlashEvent::Written) => {
                self.phase = FlashPhase::Syncing;
            },
            (FlashPhase::Writing, FlashEvent::WriteFailed { denied }) => {
                failed(
                    self,
                    if denied {
                        FlashFailure::Denied
                    } else {
                        FlashFailure::Io
                    },
                );
            },
            (FlashPhase::Syncing, FlashEvent::Synced) => {
                self.phase = if self.verify {
                    FlashPhase::Verifying
                } else {
                    FlashPhase::Done
                };
            },
            (FlashPhase::Verifying, FlashEvent::Checked { len }) => {
                self.verified_bytes = self.verified_bytes.saturating_add(len);
            },
            (FlashPhase::Verifying, FlashEvent::Verified) => {
                self.phase = FlashPhase::Done;
            },
            (FlashPhase::Verifying, FlashEvent::VerifyMismatch) => {
                failed(self, FlashFailure::Mismatch);
            },
            (FlashPhase::Verifying, FlashEvent::VerifyReadFailed) => {
                failed(self, FlashFailure::Io);
            },
            _ => {},
        }
    }
}

/// Every transition keeps a flash well formed.
pub proof fn lemma_flash_next_wf(s: FlashSession, e: FlashEvent)
    requires
        s.wf(),
    ensures
        flash_next(s, e).wf(),
{
}

/// A flash without verification goes Unmounting, Writing, Syncing, Done, and
/// no event ever takes it to Verifying.
pub proof fn lemma_flash_without_verify(image_size: u64, e: FlashEvent, s: FlashSession)
    requires
        s.wf(),
        !s.verify,
        s.phase != FlashPhase::Idle,
    ensures
        ({
            let a = flash_next(FlashSession::idle_spec(), FlashEvent::Start { image_size, verify: false });
            let b = flash_next(a, FlashEvent::Unmounted);
            let c = flash_next(b, FlashEvent::Written);
            let d = flash_next(c, FlashEvent::Synced);
            &&& a.phase == FlashPhase::Unmounting
            &&& b.phase == FlashPhase::Writing
            &&& c.phase == FlashPhase::Syncing
            &&& d.phase == FlashPhase::Done
        }),
        flash_next(s, e).phase != FlashPhase::Verifying,
        !flash_next(s, e).verify,
{
}

/// With verification, a read-back that differs ends the flash as Failed with
/// a mismatch, never as Done.
pub proof fn lemma_flash_mismatch_fails(s: FlashSession)
    requires
        s.wf(),
        s.phase == FlashPhase::Verifying,
    ensures
        flash_next(s, FlashEvent::VerifyMismatch).phase == FlashPhase::Failed,
        flash_next(s, FlashEvent::VerifyMismatch).failure == Some(FlashFailure::Mismatch),
        flash_next(flash_next(s, FlashEvent::VerifyMismatch), FlashEvent::Verified).phase
            == FlashPhase::Failed,
{
}

impl FlashSession {
    pub open spec fn idle_spec() -> FlashSession {
        FlashSession {
            phase: FlashPhase::Idle,
            verify: false,
            total_bytes: 0,
            written_bytes: 0,
            verified_bytes: 0,
            failure: None,
        }
    }
}


pub open spec fn dismissed_text() -> Seq<char> {
    seq!['d', 'i', 's', 'm', 'i', 's', 's', 'e', 'd']
}

pub open spec fn not_authorized_text() -> Seq<char> {
    seq!['N', 'o', 't', ' ', 'a', 'u', 't', 'h', 'o', 'r', 'i', 'z', 'e', 'd']
}

/// The privilege helper's error output says that the user declined.
pub open spec fn denied_text(stderr: Seq<char>) -> bool {
    contains(stderr, dismissed_text()) || contains(stderr, not_authorized_text())
}

/// Reads the error output of a failed privileged write: whether the user
/// declined the prompt, and the message to report.
pub fn classify_write_failure(stderr: &str) -> (r: (bool, String))
    ensures
        r.0 == denied_text(stderr@),
        r.0 ==> r.1@ == "Operation cancelled by user"@,
        !r.0 ==> r.1@ == "Flash failed: "@ + stderr@,
{
    let cs = chars_of(stderr);
    let d = vec!['d', 'i', 's', 'm', 'i', 's', 's', 'e', 'd'];
    let n = vec!['N', 'o', 't', ' ', 'a', 'u', 't', 'h', 'o', 'r', 'i', 'z', 'e', 'd'];
    assert(d@ =~= dismissed_text());
    assert(n@ =~= not_authorized_text());
    if chars_contain(&cs, &d) || chars_contain(&cs, &n) {
        (true, String::from_str("Operation cancelled by user"))
    } else {
        let mut m = String::new();
        push_str(&mut m, "Flash failed: ");
        push_str(&mut m, stderr);
        (false, m)
    }
}

/// Whether a block read back from the device equals the image's block.
pub fn blocks_match(image: &[u8], device: &[u8]) -> (r: bool)
    ensures
        r == (image@ == device@),
{
    if image.len() != device.len() {
        return false;
    }
    let mut i: usize = 0;
    while i < image.len()
        invariant
            image@.len() == device@.len(),
            i <= image@.len(),
            forall|j: int| 0 <= j < i ==> image@[j] == device@[j],
        decreases image@.len() - i,
    {
        if image[i] != device[i] {
            return false;
        }
        i += 1;
    }
    assert(image@ =~= device@);
    true
}

} // verus!
