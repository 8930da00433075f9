//! The progress registers of the two operations, read by whoever polls them.
use vstd::prelude::*;
use crate::download::{DownloadPhase, DownloadSession};
use crate::flash::{FlashPhase, FlashSession};

verus! {

/// What a poller sees of the running download or decompression.
pub struct DownloadState {
    pub total_bytes: u64,
    pub downloaded_bytes: u64,
    pub is_verifying_sha: bool,
    pub is_decompressing: bool,
    pub is_cancelled: bool,
    pub error: Option<String>,
    pub output_path: Option<String>,
}

impl DownloadState {
    /// At most one phase flag is set.
    pub open spec fn wf(&self) -> bool {
        !(self.is_verifying_sha && self.is_decompressing)
    }

    /// Zeroed counters, no flags, no result.
    pub fn new() -> (r: DownloadState)
        ensures
            r.wf(),
            r.total_bytes == 0 && r.downloaded_bytes == 0,
            !r.is_verifying_sha && !r.is_decompressing && !r.is_cancelled,
            r.error is None && r.output_path is None,
    {
        DownloadState {
            total_bytes: 0,
            downloaded_bytes: 0,
            is_verifying_sha: false,
            is_decompressing: false,
            is_cancelled: false,
            error: None,
            output_path: None,
        }
    }

    /// Zeroes the counters and clears the flags before a new operation.
    pub fn reset(&mut self)
        ensures
            final(self).wf(),
            final(self).total_bytes == 0 && final(self).downloaded_bytes == 0,
            !final(self).is_verifying_sha && !final(self).is_decompressing,
            !final(self).is_cancelled,
            final(self).error == old(self).error,
            final(self).output_path == old(self).output_path,
    {
        self.total_bytes = 0;
        self.downloaded_bytes = 0;
        self.is_verifying_sha = false;
        self.is_decompressing = false;
        self.is_cancelled = false;
    }

    /// Publishes where a session stands.
    pub fn observe(&mut self, s: &DownloadSession)
        ensures
            final(self).wf(),
            final(self).total_bytes == s.total_bytes,
            final(self).downloaded_bytes == s.received_bytes,
            final(self).is_verifying_sha == (s.phase == DownloadPhase::Verifying),
            final(self).is_decompressing == (s.phase == DownloadPhase::Decompressing),
            final(self).is_cancelled == old(self).is_cancelled,
            final(self).error == old(self).error,
            final(self).output_path == old(self).output_path,
    {
        self.total_bytes = s.total_bytes;
        self.downloaded_bytes = s.received_bytes;
        self.is_verifying_sha = match s.phase {
            DownloadPhase::Verifying => true,
            _ => false,
        };
        self.is_decompressing = match s.phase {
            DownloadPhase::Decompressing => true,
            _ => false,
        };
    }
}

/// What a poller sees of the running flash.
pub struct FlashState {
    pub total_bytes: u64,
    pub written_bytes: u64,
    pub verified_bytes: u64,
    pub is_verifying: bool,
    pub is_cancelled: bool,
    pub error: Option<String>,
}

impl FlashState {
    pub fn new() -> (r: FlashState)
        ensures
            r.total_bytes == 0 && r.written_bytes == 0 && r.verified_bytes == 0,
            !r.is_verifying && !r.is_cancelled,
            r.error is None,
    {
        FlashState {
            total_bytes: 0,
            written_bytes: 0,
            verified_bytes: 0,
            is_verifying: false,
            is_cancelled: false,
            error: None,
        }
    }

    /// Zeroes the counters and clears the flags before a new flash.
    pub fn reset(&mut self)
        ensures
            final(self).total_bytes == 0 && final(self).written_bytes == 0,
            final(self).verified_bytes == 0,
            !final(self).is_verifying && !final(self).is_cancelled,
            final(self).error == old(self).error,
    {
        self.total_bytes = 0;
        self.written_bytes = 0;
        self.verified_bytes = 0;
        self.is_verifying = false;
        self.is_cancelled = false;
    }

    /// Publishes where a flash stands.
    pub fn observe(&mut self, s: &FlashSession)
        ensures
            final(self).total_bytes == s.total_bytes,
            final(self).written_bytes == s.written_bytes,
            final(self).verified_bytes == s.verified_bytes,
            final(self).is_verifying == (s.phase == FlashPhase::Verifying),
            final(self).is_cancelled == old(self).is_cancelled,
            final(self).error == old(self).error,
    {
        self.total_bytes = s.total_bytes;
        self.written_bytes = s.written_bytes;
        self.verified_bytes = s.verified_bytes;
        self.is_verifying = match s.phase {
            FlashPhase::Verifying => true,
            _ => false,
        };
    }
}

} // verus!
