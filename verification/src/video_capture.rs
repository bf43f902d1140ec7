//! Capture stage support: frame timing, the empty-frame limit, and the
//! decision how to open a video source.
//!
//! The capture loop itself owns the capture device and performs I/O; this
//! module holds its decisions. `CaptureTimer` turns the declared frame rate
//! into per-frame stream timestamps and counts consecutive empty frames up to
//! the stop limit; `resolve_video_source` decides whether a configured source
//! is a stream URI or a local device index.

use vstd::prelude::*;

verus! {

/// The capture loop stops after this many consecutive empty frames.
pub const EMPTY_FRAMES_LIMIT: u16 = 60;

/// Upper bound on accumulated whole stream seconds: large enough for any
/// real stream, small enough that millisecond arithmetic stays in 64 bits.
pub const MAX_STREAM_SECONDS: u64 = 0x4000_0000_0000;

/// A frame envelope: the image buffer with its stream timestamps, created
/// once per decoded non-empty frame and never mutated afterwards.
#[derive(Debug)]
pub struct ThreadedFrame {
    pub frame: Vec<u8>,
    /// Whole seconds elapsed since stream start.
    pub overall_seconds: u64,
    /// Fractional stream time including the current second, in milliseconds.
    pub current_second_millis: u64,
}

/// Per-frame timing derived from the declared frame rate, plus the
/// consecutive-empty-frame counter.
#[derive(Clone, Copy, Debug, PartialEq, Eq, Structural)]
pub struct CaptureTimer {
    pub fps: u32,
    pub frames_counter: u32,
    pub total_seconds: u64,
    pub empty_frames: u16,
}

impl CaptureTimer {
    pub open spec fn wf(self) -> bool {
        &&& 1 <= self.fps
        &&& self.frames_counter < self.fps
        &&& self.total_seconds <= MAX_STREAM_SECONDS
        &&& self.empty_frames <= EMPTY_FRAMES_LIMIT
    }

    pub fn new(fps: u32) -> (r: CaptureTimer)
        requires
            1 <= fps,
        ensures
            r == (CaptureTimer { fps, frames_counter: 0, total_seconds: 0, empty_frames: 0 }),
            r.wf(),
    {
        CaptureTimer { fps, frames_counter: 0, total_seconds: 0, empty_frames: 0 }
    }

    /// Records one empty frame; returns whether the consecutive-empty-frame
    /// limit is reached and the capture loop must stop.
    pub fn on_empty_frame(&mut self) -> (stop: bool)
        requires
            old(self).wf(),
            old(self).empty_frames < EMPTY_FRAMES_LIMIT,
        ensures
            final(self).wf(),
            *final(self) == (CaptureTimer {
                empty_frames: (old(self).empty_frames + 1) as u16,
                ..*old(self)
            }),
            stop == (final(self).empty_frames >= EMPTY_FRAMES_LIMIT),
    {
        self.empty_frames = self.empty_frames + 1;
        self.empty_frames >= EMPTY_FRAMES_LIMIT
    }

    /// Advances the timer over one successfully decoded frame and returns its
    /// timestamps: whole seconds since stream start, and fractional stream
    /// time in milliseconds. Counting a full second of frames rolls the
    /// frame counter over into `total_seconds`; a good frame also resets the
    /// consecutive-empty-frame count.
    pub fn on_frame(&mut self) -> (r: (u64, u64))
        requires
            old(self).wf(),
            old(self).total_seconds < MAX_STREAM_SECONDS,
        ensures
            final(self).wf(),
            final(self).fps == old(self).fps,
            final(self).empty_frames == 0,
            final(self).frames_counter == (if old(self).frames_counter + 1 == old(self).fps {
                0int
            } else {
                old(self).frames_counter + 1
            }),
            final(self).total_seconds == old(self).total_seconds + (if old(self).frames_counter
                + 1 == old(self).fps {
                1int
            } else {
                0int
            }),
            r.0 == final(self).total_seconds,
            r.1 == old(self).total_seconds * 1000 + ((old(self).frames_counter + 1) * 1000)
                / (old(self).fps as int),
    {
        let counted = self.frames_counter + 1;
        let millis = self.total_seconds * 1000 + (counted as u64 * 1000) / (self.fps as u64);
        if counted >= self.fps {
            self.total_seconds = self.total_seconds + 1;
            self.frames_counter = 0;
        } else {
            self.frames_counter = counted;
        }
        self.empty_frames = 0;
        (self.total_seconds, millis)
    }
}

/// How a configured video source is to be opened.
#[derive(Clone, Copy, Debug, PartialEq, Eq, Structural)]
pub enum VideoSourceKind {
    /// A network stream, opened from the URI as given.
    Stream,
    /// A local device, opened by its numeric index.
    Device(i32),
}

/// Capture-stage failure descriptor.
#[derive(Clone, Copy, Debug, PartialEq, Eq, Structural)]
pub struct VideoCaptureInternalError {
    pub typ: i16,
}

impl VideoCaptureInternalError {
    pub fn message(&self) -> (r: String)
        ensures
            self.typ == 1 ==> r@ == "Invalid device identifier"@,
            self.typ != 1 ==> r@ == "Undefined VideoCapture error"@,
    {
        if self.typ == 1 {
            "Invalid device identifier".to_owned()
        } else {
            "Undefined VideoCapture error".to_owned()
        }
    }
}

/// Capture-stage errors. Failures of the capture backend itself surface in
/// the capture loop, outside this library.
#[derive(Clone, Copy, Debug)]
pub enum VideoCaptureError {
    VideoError(VideoCaptureInternalError),
}

impl VideoCaptureError {
    pub fn message(&self) -> (r: String)
        ensures
            self matches VideoCaptureError::VideoError(e) && e.typ == 1 ==> r@
                == "Invalid device identifier"@,
            self matches VideoCaptureError::VideoError(e) && e.typ != 1 ==> r@
                == "Undefined VideoCapture error"@,
    {
        match self {
            VideoCaptureError::VideoError(e) => e.message(),
        }
    }
}

pub open spec fn is_ascii_digit(c: char) -> bool {
    '0' <= c && c <= '9'
}

pub open spec fn digit_val(c: char) -> int {
    c as int - '0' as int
}

/// The numeric value of a digit string, most significant digit first.
pub open spec fn digits_val(s: Seq<char>) -> int
    decreases s.len(),
{
    if s.len() == 0 {
        0
    } else {
        digits_val(s.drop_last()) * 10 + digit_val(s.last())
    }
}

/// The digit part of a decimal string: everything after an optional single
/// leading sign.
pub open spec fn decimal_body(s: Seq<char>) -> Seq<char> {
    if s.len() > 0 && (s[0] == '+' || s[0] == '-') {
        s.drop_first()
    } else {
        s
    }
}

pub open spec fn decimal_negative(s: Seq<char>) -> bool {
    s.len() > 0 && s[0] == '-'
}

/// The string is a decimal integer representation that fits an i32: an
/// optional sign, then one or more digits, with the signed value in range.
pub open spec fn valid_i32_str(s: Seq<char>) -> bool {
    let body = decimal_body(s);
    &&& body.len() > 0
    &&& forall|i: int| 0 <= i < body.len() ==> is_ascii_digit(#[trigger] body[i])
    &&& if decimal_negative(s) {
        digits_val(body) <= 0x8000_0000
    } else {
        digits_val(body) <= 0x7fff_ffff
    }
}

pub open spec fn i32_str_val(s: Seq<char>) -> int {
    if decimal_negative(s) {
        -digits_val(decimal_body(s))
    } else {
        digits_val(decimal_body(s))
    }
}

/// Parses a decimal i32 exactly when the string is a valid representation.
pub fn parse_i32(s: &str) -> (r: Result<i32, ()>)
    ensures
        valid_i32_str(s@) ==> (r matches Ok(v) && v == i32_str_val(s@)),
        !valid_i32_str(s@) ==> r is Err,
{
    let n = s.unicode_len();
    let ghost sv = s@;
    if n == 0 {
        return Err(());
    }
    let first = s.get_char(0);
    let negative = first == '-';
    let start: usize = if first == '-' || first == '+' {
        1
    } else {
        0
    };
    let ghost body = decimal_body(sv);
    proof {
        assert(body.len() == sv.len() - start);
        assert(forall|k: int| 0 <= k < body.len() ==> body[k] == sv[k + start]);
    }
    if start == n {
        return Err(());
    }
    // accumulate; values beyond 2^32 are only tracked as "too large"
    let mut acc: u64 = 0;
    let mut i: usize = start;
    while i < n
        invariant
            sv == s@,
            start <= i <= n,
            n == sv.len(),
            body == decimal_body(sv),
            body.len() == sv.len() - start,
            forall|k: int| 0 <= k < body.len() ==> body[k] == sv[k + start],
            forall|k: int| 0 <= k < i - start ==> is_ascii_digit(#[trigger] body[k]),
            digits_val(body.take(i - start)) <= 0xffff_ffff ==> acc == digits_val(
                body.take(i - start),
            ),
            digits_val(body.take(i - start)) > 0xffff_ffff ==> acc > 0xffff_ffff,
            acc <= 0xffff_ffff * 10 + 9,
        decreases n - i,
    {
        let c = s.get_char(i);
        let cv: u32 = c as u32;
        if cv < 48 || cv > 57 {
            proof {
                assert(body[i - start] == sv[i as int]);
                assert(!is_ascii_digit(body[i - start]));
            }
            return Err(());
        }
        let d: u64 = (cv - 48) as u64;
        proof {
            assert(body.take(i + 1 - start).drop_last() =~= body.take(i - start));
            assert(body.take(i + 1 - start).last() == sv[i as int]);
            assert(digit_val(sv[i as int]) == d);
        }
        if acc > 0xffff_ffff {
            proof {
                let pre = digits_val(body.take(i - start));
                assert(digits_val(body.take(i + 1 - start)) == pre * 10 + d);
                assert(pre * 10 >= pre) by (nonlinear_arith)
                    requires
                        pre > 0xffff_ffff,
                ;
            }
        } else {
            acc = acc * 10 + d;
        }
        i = i + 1;
    }
    proof {
        assert(body.take(n - start) =~= body);
    }
    if negative {
        if acc > 0x8000_0000 {
            return Err(());
        }
        if acc == 0x8000_0000 {
            return Ok(i32::MIN);
        }
        Ok(-(acc as i32))
    } else {
        if acc > 0x7fff_ffff {
            return Err(());
        }
        Ok(acc as i32)
    }
}

/// Decides how the configured source is opened: the stream type keeps its
/// URI; anything else must be a numeric local device index.
pub fn resolve_video_source(video_src: &str, typ: &str) -> (r: Result<
    VideoSourceKind,
    VideoCaptureError,
>)
    ensures
        typ@ == "rtsp"@ ==> r == Ok::<VideoSourceKind, VideoCaptureError>(VideoSourceKind::Stream),
        typ@ != "rtsp"@ && valid_i32_str(video_src@) ==> (r matches Ok(k) && k
            == VideoSourceKind::Device(i32_str_val(video_src@) as i32)),
        typ@ != "rtsp"@ && !valid_i32_str(video_src@) ==> (r matches Err(e) && e matches
            VideoCaptureError::VideoError(ie) && ie.typ == 1),
{
    if str_eq(typ, "rtsp") {
        return Ok(VideoSourceKind::Stream);
    }
    match parse_i32(video_src) {
        Ok(device_id) => Ok(VideoSourceKind::Device(device_id)),
        Err(_) => Err(VideoCaptureError::VideoError(VideoCaptureInternalError { typ: 1 })),
    }
}

/// Character-wise string equality.
fn str_eq(a: &str, b: &str) -> (r: bool)
    ensures
        r == (a@ == b@),
{
    let na = a.unicode_len();
    let nb = b.unicode_len();
    if na != nb {
        return false;
    }
    let mut i: usize = 0;
    while i < na
        invariant
            i <= na,
            na == a@.len(),
            na == b@.len(),
            forall|j: int| 0 <= j < i ==> a@[j] == b@[j],
        decreases na - i,
    {
        if a.get_char(i) != b.get_char(i) {
            return false;
        }
        i = i + 1;
    }
    proof {
        assert(a@ =~= b@);
    }
    true
}

} // verus!
