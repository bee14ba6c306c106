//! HLS error types and the recovery that each calls for.
use crate::text::{push_str, string_of};
use vstd::prelude::*;

verus! {

/// Categories of HLS errors, for recovery handling.
#[derive(Clone, Copy, Debug, PartialEq, Eq, Structural)]
pub enum ErrorCategory {
    /// Network-related errors (retryable)
    Network,
    /// Media/codec errors
    Media,
    /// Manifest/playlist parsing errors
    Manifest,
    /// Internal errors
    Internal,
    /// Browser/platform capability errors
    Capability,
}

/// Severity of an error.
#[derive(Clone, Copy, Debug, PartialEq, Eq, Structural)]
pub enum ErrorSeverity {
    /// Playback may continue
    Warning,
    /// A recovery action is required
    Error,
    /// Playback cannot continue
    Fatal,
}

/// Error codes for specific error types.
#[derive(Clone, Copy, Debug, PartialEq, Eq, Structural)]
pub enum ErrorCode {
    NetworkError,
    ManifestLoadError,
    ManifestLoadTimeout,
    ManifestParsingError,
    LevelLoadError,
    LevelLoadTimeout,
    FragLoadError,
    FragLoadTimeout,
    FragParsingError,
    KeyLoadError,
    KeyLoadTimeout,
    MediaAppendError,
    MediaDecodeError,
    MediaSourceError,
    BufferAppendError,
    BufferRemoveError,
    BufferFullError,
    BufferStalledError,
    ManifestIncompatible,
    LevelSwitchError,
    NoLevelFound,
    InvalidLevelIndex,
    PlaylistUnchanged,
    InternalError,
    InternalException,
    MseNotSupported,
    CodecNotSupported,
    DrmNotSupported,
}

/// The numeric value of each error code: network codes in the 100s, media in
/// the 200s, manifest/level in the 300s, internal in the 400s, capability in the 500s.
pub open spec fn code_number(code: ErrorCode) -> u32 {
    match code {
        ErrorCode::NetworkError => 100,
        ErrorCode::ManifestLoadError => 101,
        ErrorCode::ManifestLoadTimeout => 102,
        ErrorCode::ManifestParsingError => 103,
        ErrorCode::LevelLoadError => 110,
        ErrorCode::LevelLoadTimeout => 111,
        ErrorCode::FragLoadError => 120,
        ErrorCode::FragLoadTimeout => 121,
        ErrorCode::FragParsingError => 122,
        ErrorCode::KeyLoadError => 130,
        ErrorCode::KeyLoadTimeout => 131,
        ErrorCode::MediaAppendError => 200,
        ErrorCode::MediaDecodeError => 201,
        ErrorCode::MediaSourceError => 202,
        ErrorCode::BufferAppendError => 210,
        ErrorCode::BufferRemoveError => 211,
        ErrorCode::BufferFullError => 212,
        ErrorCode::BufferStalledError => 213,
        ErrorCode::ManifestIncompatible => 300,
        ErrorCode::LevelSwitchError => 301,
        ErrorCode::NoLevelFound => 302,
        ErrorCode::InvalidLevelIndex => 303,
        ErrorCode::PlaylistUnchanged => 304,
        ErrorCode::InternalError => 400,
        ErrorCode::InternalException => 401,
        ErrorCode::MseNotSupported => 500,
        ErrorCode::CodecNotSupported => 501,
        ErrorCode::DrmNotSupported => 502,
    }
}

impl ErrorCode {
    /// The numeric value of this code.
    pub fn number(&self) -> (r: u32)
        ensures
            r == code_number(*self),
    {
        match self {
            ErrorCode::NetworkError => 100,
            ErrorCode::ManifestLoadError => 101,
            ErrorCode::ManifestLoadTimeout => 102,
            ErrorCode::ManifestParsingError => 103,
            ErrorCode::LevelLoadError => 110,
            ErrorCode::LevelLoadTimeout => 111,
            ErrorCode::FragLoadError => 120,
            ErrorCode::FragLoadTimeout => 121,
            ErrorCode::FragParsingError => 122,
            ErrorCode::KeyLoadError => 130,
            ErrorCode::KeyLoadTimeout => 131,
            ErrorCode::MediaAppendError => 200,
            ErrorCode::MediaDecodeError => 201,
            ErrorCode::MediaSourceError => 202,
            ErrorCode::BufferAppendError => 210,
            ErrorCode::BufferRemoveError => 211,
            ErrorCode::BufferFullError => 212,
            ErrorCode::BufferStalledError => 213,
            ErrorCode::ManifestIncompatible => 300,
            ErrorCode::LevelSwitchError => 301,
            ErrorCode::NoLevelFound => 302,
            ErrorCode::InvalidLevelIndex => 303,
            ErrorCode::PlaylistUnchanged => 304,
            ErrorCode::InternalError => 400,
            ErrorCode::InternalException => 401,
            ErrorCode::MseNotSupported => 500,
            ErrorCode::CodecNotSupported => 501,
            ErrorCode::DrmNotSupported => 502,
        }
    }

    /// The name of this code, as its `Debug` form writes it.
    pub fn name(&self) -> (r: &'static str)
        ensures
            r@ == code_name(*self)@,
    {
        match self {
            ErrorCode::NetworkError => "NetworkError",
            ErrorCode::ManifestLoadError => "ManifestLoadError",
            ErrorCode::ManifestLoadTimeout => "ManifestLoadTimeout",
            ErrorCode::ManifestParsingError => "ManifestParsingError",
            ErrorCode::LevelLoadError => "LevelLoadError",
            ErrorCode::LevelLoadTimeout => "LevelLoadTimeout",
            ErrorCode::FragLoadError => "FragLoadError",
            ErrorCode::FragLoadTimeout => "FragLoadTimeout",
            ErrorCode::FragParsingError => "FragParsingError",
            ErrorCode::KeyLoadError => "KeyLoadError",
            ErrorCode::KeyLoadTimeout => "KeyLoadTimeout",
            ErrorCode::MediaAppendError => "MediaAppendError",
            ErrorCode::MediaDecodeError => "MediaDecodeError",
            ErrorCode::MediaSourceError => "MediaSourceError",
            ErrorCode::BufferAppendError => "BufferAppendError",
            ErrorCode::BufferRemoveError => "BufferRemoveError",
            ErrorCode::BufferFullError => "BufferFullError",
            ErrorCode::BufferStalledError => "BufferStalledError",
            ErrorCode::ManifestIncompatible => "ManifestIncompatible",
            ErrorCode::LevelSwitchError => "LevelSwitchError",
            ErrorCode::NoLevelFound => "NoLevelFound",
            ErrorCode::InvalidLevelIndex => "InvalidLevelIndex",
            ErrorCode::PlaylistUnchanged => "PlaylistUnchanged",
            ErrorCode::InternalError => "InternalError",
            ErrorCode::InternalException => "InternalException",
            ErrorCode::MseNotSupported => "MseNotSupported",
            ErrorCode::CodecNotSupported => "CodecNotSupported",
            ErrorCode::DrmNotSupported => "DrmNotSupported",
        }
    }
}

/// The name of each error code.
pub open spec fn code_name(code: ErrorCode) -> &'static str {
    match code {
        ErrorCode::NetworkError => "NetworkError",
        ErrorCode::ManifestLoadError => "ManifestLoadError",
        ErrorCode::ManifestLoadTimeout => "ManifestLoadTimeout",
        ErrorCode::ManifestParsingError => "ManifestParsingError",
        ErrorCode::LevelLoadError => "LevelLoadError",
        ErrorCode::LevelLoadTimeout => "LevelLoadTimeout",
        ErrorCode::FragLoadError => "FragLoadError",
        ErrorCode::FragLoadTimeout => "FragLoadTimeout",
        ErrorCode::FragParsingError => "FragParsingError",
        ErrorCode::KeyLoadError => "KeyLoadError",
        ErrorCode::KeyLoadTimeout => "KeyLoadTimeout",
        ErrorCode::MediaAppendError => "MediaAppendError",
        ErrorCode::MediaDecodeError => "MediaDecodeError",
        ErrorCode::MediaSourceError => "MediaSourceError",
        ErrorCode::BufferAppendError => "BufferAppendError",
        ErrorCode::BufferRemoveError => "BufferRemoveError",
        ErrorCode::BufferFullError => "BufferFullError",
        ErrorCode::BufferStalledError => "BufferStalledError",
        ErrorCode::ManifestIncompatible => "ManifestIncompatible",
        ErrorCode::LevelSwitchError => "LevelSwitchError",
        ErrorCode::NoLevelFound => "NoLevelFound",
        ErrorCode::InvalidLevelIndex => "InvalidLevelIndex",
        ErrorCode::PlaylistUnchanged => "PlaylistUnchanged",
        ErrorCode::InternalError => "InternalError",
        ErrorCode::InternalException => "InternalException",
        ErrorCode::MseNotSupported => "MseNotSupported",
        ErrorCode::CodecNotSupported => "CodecNotSupported",
        ErrorCode::DrmNotSupported => "DrmNotSupported",
    }
}

/// An HLS error.
#[derive(Clone, Debug)]
pub struct HlsError {
    /// Error category
    pub category: ErrorCategory,
    /// Error severity
    pub severity: ErrorSeverity,
    /// Error code for identification
    pub code: ErrorCode,
    /// Human-readable message
    pub message: String,
    /// Additional details
    pub details: Option<String>,
    /// Whether this error is fatal
    pub fatal: bool,
    /// Number of retry attempts made
    pub retry_count: u32,
}

/// Result type for HLS operations.
pub type HlsResult<T> = Result<T, HlsError>;

/// The recovery action to take for an error.
#[derive(Clone, Copy, Debug, PartialEq, Eq, Structural)]
pub enum RecoveryAction {
    /// No recovery needed
    NoRecovery,
    /// Retry the failed operation
    Retry,
    /// Switch to a different quality level (-1 for automatic)
    SwitchLevel(i32),
    /// Seek to recover from a stall
    SeekToRecover,
    /// Reset and restart playback
    ResetPlayback,
    /// Reload the manifest
    ReloadManifest,
    /// Destroy and recreate the media source
    RecreateMediaSource,
}

/// The error categories from which playback can recover.
pub open spec fn recoverable_category(c: ErrorCategory) -> bool {
    c == ErrorCategory::Network || c == ErrorCategory::Media
}

/// The recovery action that an error with `code` and fatality `fatal` calls for.
pub open spec fn recovery_for(code: ErrorCode, fatal: bool) -> RecoveryAction {
    if (code == ErrorCode::FragLoadError || code == ErrorCode::FragLoadTimeout) && !fatal {
        RecoveryAction::Retry
    } else if (code == ErrorCode::LevelLoadError || code == ErrorCode::LevelLoadTimeout) && !fatal {
        RecoveryAction::SwitchLevel(-1i32)
    } else if (code == ErrorCode::ManifestLoadError || code == ErrorCode::ManifestLoadTimeout)
        && !fatal {
        RecoveryAction::ReloadManifest
    } else if code == ErrorCode::BufferStalledError {
        RecoveryAction::SeekToRecover
    } else if code == ErrorCode::MediaDecodeError || code == ErrorCode::MediaAppendError {
        RecoveryAction::RecreateMediaSource
    } else if code == ErrorCode::BufferFullError {
        RecoveryAction::SwitchLevel(-1i32)
    } else if fatal {
        RecoveryAction::NoRecovery
    } else {
        RecoveryAction::Retry
    }
}

/// A fatal error is never answered by retrying the load or reloading the
/// manifest, and is neither recoverable nor retried.
pub proof fn law_fatal_errors_not_retried(e: HlsError, max_retries: u32)
    requires
        e.fatal,
    ensures
        recovery_for(e.code, e.fatal) != RecoveryAction::Retry,
        recovery_for(e.code, e.fatal) != RecoveryAction::ReloadManifest,
        !(!e.fatal && recoverable_category(e.category)),
        !(!e.fatal && recoverable_category(e.category) && e.retry_count < max_retries),
{
}

/// The recovery each kind of error is answered with, fatal or not: media
/// decode and append errors recreate the media source; a stalled buffer
/// seeks; a full buffer lets the level be chosen again; a fragment, level or
/// manifest load error (or timeout) is retried, answered by choosing the
/// level again, or by reloading the manifest when it is not fatal, and gets
/// no recovery when it is; any other error is retried unless fatal, and gets
/// no recovery when fatal.
pub proof fn law_recovery_by_kind(e: HlsError)
    ensures
        (e.code == ErrorCode::MediaDecodeError || e.code == ErrorCode::MediaAppendError)
            ==> recovery_for(e.code, e.fatal) == RecoveryAction::RecreateMediaSource,
        e.code == ErrorCode::BufferStalledError ==> recovery_for(e.code, e.fatal)
            == RecoveryAction::SeekToRecover,
        e.code == ErrorCode::BufferFullError ==> recovery_for(e.code, e.fatal)
            == RecoveryAction::SwitchLevel(-1i32),
        (e.code == ErrorCode::FragLoadError || e.code == ErrorCode::FragLoadTimeout) ==> recovery_for(
            e.code,
            e.fatal,
        ) == if e.fatal {
            RecoveryAction::NoRecovery
        } else {
            RecoveryAction::Retry
        },
        (e.code == ErrorCode::LevelLoadError || e.code == ErrorCode::LevelLoadTimeout)
            ==> recovery_for(e.code, e.fatal) == if e.fatal {
            RecoveryAction::NoRecovery
        } else {
            RecoveryAction::SwitchLevel(-1i32)
        },
        (e.code == ErrorCode::ManifestLoadError || e.code == ErrorCode::ManifestLoadTimeout)
            ==> recovery_for(e.code, e.fatal) == if e.fatal {
            RecoveryAction::NoRecovery
        } else {
            RecoveryAction::ReloadManifest
        },
        !(e.code == ErrorCode::MediaDecodeError || e.code == ErrorCode::MediaAppendError
            || e.code == ErrorCode::BufferStalledError || e.code == ErrorCode::BufferFullError
            || e.code == ErrorCode::FragLoadError || e.code == ErrorCode::FragLoadTimeout
            || e.code == ErrorCode::LevelLoadError || e.code == ErrorCode::LevelLoadTimeout
            || e.code == ErrorCode::ManifestLoadError || e.code == ErrorCode::ManifestLoadTimeout)
            ==> recovery_for(e.code, e.fatal) == if e.fatal {
            RecoveryAction::NoRecovery
        } else {
            RecoveryAction::Retry
        },
{
}

impl HlsError {
    /// An error of `category` that is not fatal, has severity `Error`, no details and no retries.
    pub open spec fn plain(
        self,
        category: ErrorCategory,
        code: ErrorCode,
        message: Seq<char>,
    ) -> bool {
        &&& self.category == category
        &&& self.severity == ErrorSeverity::Error
        &&& self.code == code
        &&& self.message@ == message
        &&& self.details is None
        &&& !self.fatal
        &&& self.retry_count == 0
    }

    /// A new network error.
    pub fn network(code: ErrorCode, message: &str) -> (r: Self)
        ensures
            r.plain(ErrorCategory::Network, code, message@),
    {
        HlsError {
            category: ErrorCategory::Network,
            severity: ErrorSeverity::Error,
            code,
            message: message.to_owned(),
            details: None,
            fatal: false,
            retry_count: 0,
        }
    }

    /// A new media error.
    pub fn media(code: ErrorCode, message: &str) -> (r: Self)
        ensures
            r.plain(ErrorCategory::Media, code, message@),
    {
        HlsError {
            category: ErrorCategory::Media,
            severity: ErrorSeverity::Error,
            code,
            message: message.to_owned(),
            details: None,
            fatal: false,
            retry_count: 0,
        }
    }

    /// A new manifest error.
    pub fn manifest(code: ErrorCode, message: &str) -> (r: Self)
        ensures
            r.plain(ErrorCategory::Manifest, code, message@),
    {
        HlsError {
            category: ErrorCategory::Manifest,
            severity: ErrorSeverity::Error,
            code,
            message: message.to_owned(),
            details: None,
            fatal: false,
            retry_count: 0,
        }
    }

    /// A new capability error; these are fatal.
    pub fn capability(code: ErrorCode, message: &str) -> (r: Self)
        ensures
            r.category == ErrorCategory::Capability,
            r.severity == ErrorSeverity::Fatal,
            r.code == code,
            r.message@ == message@,
            r.details is None,
            r.fatal,
            r.retry_count == 0,
    {
        HlsError {
            category: ErrorCategory::Capability,
            severity: ErrorSeverity::Fatal,
            code,
            message: message.to_owned(),
            details: None,
            fatal: true,
            retry_count: 0,
        }
    }

    /// A new internal error, with code `InternalError`.
    pub fn internal(message: &str) -> (r: Self)
        ensures
            r.plain(ErrorCategory::Internal, ErrorCode::InternalError, message@),
    {
        HlsError {
            category: ErrorCategory::Internal,
            severity: ErrorSeverity::Error,
            code: ErrorCode::InternalError,
            message: message.to_owned(),
            details: None,
            fatal: false,
            retry_count: 0,
        }
    }

    /// Marks the error fatal or not; marking it fatal also raises its severity to `Fatal`.
    pub fn with_fatal(self, fatal: bool) -> (r: Self)
        ensures
            r.fatal == fatal,
            r.severity == (if fatal {
                ErrorSeverity::Fatal
            } else {
                self.severity
            }),
            r.category == self.category,
            r.code == self.code,
            r.message == self.message,
            r.details == self.details,
            r.retry_count == self.retry_count,
    {
        let mut e = self;
        e.fatal = fatal;
        if fatal {
            e.severity = ErrorSeverity::Fatal;
        }
        e
    }

    /// Adds details to the error.
    pub fn with_details(self, details: &str) -> (r: Self)
        ensures
            r.details.deep_view() == Some(details@),
            r.category == self.category,
            r.severity == self.severity,
            r.code == self.code,
            r.message == self.message,
            r.fatal == self.fatal,
            r.retry_count == self.retry_count,
    {
        let mut e = self;
        e.details = Some(details.to_owned());
        e
    }

    /// Sets the retry count.
    pub fn with_retry_count(self, count: u32) -> (r: Self)
        ensures
            r.retry_count == count,
            r.category == self.category,
            r.severity == self.severity,
            r.code == self.code,
            r.message == self.message,
            r.details == self.details,
            r.fatal == self.fatal,
    {
        let mut e = self;
        e.retry_count = count;
        e
    }

    /// Whether playback can recover from the error: it is not fatal, and it is a
    /// network or media error.
    pub fn is_recoverable(&self) -> (r: bool)
        ensures
            r == (!self.fatal && recoverable_category(self.category)),
    {
        !self.fatal && (match self.category {
            ErrorCategory::Network => true,
            ErrorCategory::Media => true,
            _ => false,
        })
    }

    /// Whether the failed operation should be tried again: the error is
    /// recoverable and fewer than `max_retries` retries were made.
    pub fn should_retry(&self, max_retries: u32) -> (r: bool)
        ensures
            r == (!self.fatal && recoverable_category(self.category) && self.retry_count
                < max_retries),
    {
        self.is_recoverable() && self.retry_count < max_retries
    }

    /// The recovery action recommended for this error.
    pub fn recommended_recovery(&self) -> (r: RecoveryAction)
        ensures
            r == recovery_for(self.code, self.fatal),
    {
        let code = self.code;
        let fatal = self.fatal;
        if (code == ErrorCode::FragLoadError || code == ErrorCode::FragLoadTimeout) && !fatal {
            RecoveryAction::Retry
        } else if (code == ErrorCode::LevelLoadError || code == ErrorCode::LevelLoadTimeout)
            && !fatal {
            RecoveryAction::SwitchLevel(-1)
        } else if (code == ErrorCode::ManifestLoadError || code == ErrorCode::ManifestLoadTimeout)
            && !fatal {
            RecoveryAction::ReloadManifest
        } else if code == ErrorCode::BufferStalledError {
            RecoveryAction::SeekToRecover
        } else if code == ErrorCode::MediaDecodeError || code == ErrorCode::MediaAppendError {
            RecoveryAction::RecreateMediaSource
        } else if code == ErrorCode::BufferFullError {
            RecoveryAction::SwitchLevel(-1)
        } else if fatal {
            RecoveryAction::NoRecovery
        } else {
            RecoveryAction::Retry
        }
    }

    /// The text that the error's `Display` form writes: `[HLS <code>] <message>`,
    /// followed by ` (<details>)` when there are details.
    pub fn to_display_string(&self) -> (r: String)
        ensures
            r@ == (match self.details {
                Some(d) => "[HLS "@ + code_name(self.code)@ + "] "@ + self.message@ + " ("@ + d@
                    + ")"@,
                None => "[HLS "@ + code_name(self.code)@ + "] "@ + self.message@,
            }),
    {
        let mut out: Vec<char> = Vec::new();
        push_str(&mut out, "[HLS ");
        push_str(&mut out, self.code.name());
        push_str(&mut out, "] ");
        push_str(&mut out, self.message.as_str());
        match &self.details {
            Some(d) => {
                push_str(&mut out, " (");
                push_str(&mut out, d.as_str());
                push_str(&mut out, ")");
            },
            None => {},
        }
        string_of(out.as_slice())
    }
}

} // verus!
