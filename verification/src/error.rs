//! The unified error type of the driver.
use vstd::prelude::*;

use core::convert::Infallible;

use crate::frame::FrameError;
use crate::text::{buffer_too_small_text, invalid_length_text, push_buffer_too_small, push_invalid_length};

verus! {

/// The unified error type for all `led-strip` operations.
///
/// Three variants cover structural issues (index, length, capacity); the
/// fourth (`Operation`) wraps backend- or codec-specific errors via the
/// generic `E` parameter.
#[derive(Debug, Clone, Copy, PartialEq, Eq)]
#[non_exhaustive]
pub enum LedStripError<E> {
    /// Pixel index out of range.
    InvalidIndex,
    /// Pixel slice length does not match the configured strip length.
    InvalidLength { expected: usize, actual: usize },
    /// Buffer capacity exceeded. Check `MAX_LEDS` or `TX_CAPACITY`.
    BufferTooSmall { required: usize, capacity: usize },
    /// Backend- or codec-specific error.
    Operation(E),
}

/// Convenience alias for `Result<T, LedStripError<E>>`.
pub type LedStripResult<T, E> = Result<T, LedStripError<E>>;

/// Whether `wide` carries the same structural variant, with the same fields,
/// as `narrow`; an `Operation` of `narrow` is matched by any `Operation`.
pub open spec fn same_structure<E, E2>(narrow: LedStripError<E>, wide: LedStripError<E2>) -> bool {
    match narrow {
        LedStripError::InvalidIndex => wide is InvalidIndex,
        LedStripError::InvalidLength { expected, actual } => wide == LedStripError::<
            E2,
        >::InvalidLength { expected, actual },
        LedStripError::BufferTooSmall { required, capacity } => wide == LedStripError::<
            E2,
        >::BufferTooSmall { required, capacity },
        LedStripError::Operation(_) => wide is Operation,
    }
}

impl<E> From<E> for LedStripError<E> {
    fn from(error: E) -> (e: Self) {
        Self::Operation(error)
    }
}

impl<E> vstd::std_specs::convert::FromSpecImpl<E> for LedStripError<E> {
    open spec fn obeys_from_spec() -> bool {
        true
    }

    open spec fn from_spec(v: E) -> Self {
        LedStripError::Operation(v)
    }
}

impl From<FrameError> for LedStripError<Infallible> {
    fn from(e: FrameError) -> (r: Self) {
        match e {
            FrameError::InvalidIndex => Self::InvalidIndex,
            FrameError::InvalidLength { expected, actual } => Self::InvalidLength { expected, actual },
            FrameError::BufferTooSmall { required, capacity } => Self::BufferTooSmall {
                required,
                capacity,
            },
        }
    }
}

impl vstd::std_specs::convert::FromSpecImpl<FrameError> for LedStripError<Infallible> {
    open spec fn obeys_from_spec() -> bool {
        true
    }

    open spec fn from_spec(v: FrameError) -> Self {
        match v {
            FrameError::InvalidIndex => LedStripError::InvalidIndex,
            FrameError::InvalidLength { expected, actual } => LedStripError::InvalidLength {
                expected,
                actual,
            },
            FrameError::BufferTooSmall { required, capacity } => LedStripError::BufferTooSmall {
                required,
                capacity,
            },
        }
    }
}

impl<E> LedStripError<E> {
    /// Maps the `Operation` variant's error through `f`, leaving the
    /// structural variants unchanged.
    pub fn map_operation<F, E2>(self, f: F) -> (r: LedStripError<E2>) where F: FnOnce(E) -> E2
        requires
            self matches LedStripError::Operation(e) ==> call_requires(f, (e,)),
        ensures
            same_structure(self, r),
            self matches LedStripError::Operation(e) ==> (r matches LedStripError::Operation(
                e2,
            ) && call_ensures(f, (e,), e2)),
    {
        match self {
            Self::InvalidIndex => LedStripError::InvalidIndex,
            Self::InvalidLength { expected, actual } => LedStripError::InvalidLength {
                expected,
                actual,
            },
            Self::BufferTooSmall { required, capacity } => LedStripError::BufferTooSmall {
                required,
                capacity,
            },
            Self::Operation(e) => LedStripError::Operation(f(e)),
        }
    }

    /// The message of a structural variant; for `Operation`, the message
    /// around the wrapped error's own text `inner`.
    pub open spec fn text(self, inner: Seq<char>) -> Seq<char> {
        match self {
            LedStripError::InvalidIndex => "invalid pixel index"@,
            LedStripError::InvalidLength { expected, actual } => invalid_length_text(expected, actual),
            LedStripError::BufferTooSmall { required, capacity } => buffer_too_small_text(
                required,
                capacity,
            ),
            LedStripError::Operation(_) => "operation error: "@ + inner,
        }
    }

    /// Renders the error as a message, e.g. "invalid pixel index"; an
    /// `Operation` error shows the wrapped error's `Display` text.
    pub fn to_string(&self) -> (s: String) where E: core::fmt::Display
        ensures
            !(self is Operation) ==> s@ == self.text(Seq::empty()),
            self matches LedStripError::Operation(inner) ==> exists|t: String|
                vstd::string::to_string_from_display_ensures::<E>(&inner, t) && s@ == self.text(t@),
    {
        let mut s = String::new();
        match self {
            LedStripError::InvalidIndex => s.append("invalid pixel index"),
            LedStripError::InvalidLength { expected, actual } => push_invalid_length(&mut s, *expected, *actual),
            LedStripError::BufferTooSmall { required, capacity } => push_buffer_too_small(
                &mut s,
                *required,
                *capacity,
            ),
            LedStripError::Operation(inner) => {
                let t = inner.to_string();
                s.append("operation error: ");
                s.append(t.as_str());
            },
        }
        s
    }

    /// The wrapped backend or codec error, for the `Operation` variant only.
    pub fn source(&self) -> (s: Option<&E>)
        ensures
            match *self {
                LedStripError::Operation(e) => s == Some(&e),
                _ => s is None,
            },
    {
        match self {
            Self::Operation(inner) => Some(inner),
            _ => None,
        }
    }
}

impl LedStripError<Infallible> {
    /// Widens an error that carries no operation error into `LedStripError<E>`.
    /// The `Operation` branch cannot occur: `Infallible` has no values, which
    /// the `requires` records for Verus.
    pub fn convert<E>(self) -> (r: LedStripError<E>)
        requires
            !(self is Operation),
        ensures
            same_structure(self, r),
            !(r is Operation),
    {
        match self {
            Self::InvalidIndex => LedStripError::InvalidIndex,
            Self::InvalidLength { expected, actual } => LedStripError::InvalidLength {
                expected,
                actual,
            },
            Self::BufferTooSmall { required, capacity } => LedStripError::BufferTooSmall {
                required,
                capacity,
            },
            Self::Operation(_) => vstd::pervasive::unreached(),
        }
    }
}

} // verus!
