//! Stack backtraces by frame-pointer walking.
//!
//! A stack frame is a saved frame pointer and a return address. Unwinding
//! follows the frame-pointer chain upward while it stays plausible: aligned,
//! inside the stack's address range, with a return address inside the text
//! range, and never jumping more than a plausible stack's height at once.
//!
//! Reading raw memory is the surrounding runtime's business: the walk here
//! runs over a stack image, an explicit table of the frame records readable
//! at each address. Symbolization (names and source lines) is not available
//! in this build; a captured backtrace is the bare frame list.

use vstd::prelude::*;

verus! {

/// The alignment a frame pointer must have, in bytes.
pub const WORD_ALIGN: usize = 8;

/// How far a single step up the stack may move the frame pointer before the
/// chain is considered corrupt, in bytes.
pub const MAX_STACK_STEP: usize = 0x80_0000;

/// A single stack frame.
#[derive(Debug, PartialEq, Eq, PartialOrd, Ord, Clone, Copy, Structural)]
pub struct Frame {
    /// The frame pointer of the previous stack frame.
    pub fp: usize,
    /// The instruction pointer (program counter) after the function call.
    pub ip: usize,
}

impl Frame {
    /// The address to symbolize: one before the return address, so that the
    /// call itself, not the instruction after it, is looked up. Wraps at
    /// zero.
    pub fn adjust_ip(&self) -> (r: usize)
        ensures
            self.ip > 0 ==> r == self.ip - 1,
            self.ip == 0 ==> r == usize::MAX,
    {
        if self.ip == 0 {
            usize::MAX
        } else {
            self.ip - 1
        }
    }
}

/// The frame records readable on the stack: at each address, the frame
/// stored there. The surrounding runtime builds one from raw memory; the
/// walk consumes it.
pub struct StackImage {
    /// Address/frame pairs; the first pair holding an address decides what
    /// is read there.
    pub words: Vec<(usize, Frame)>,
}

/// The frame stored at `addr`, if one is: the first record for the address.
pub open spec fn spec_frame_at(words: Seq<(usize, Frame)>, addr: usize) -> Option<Frame>
    decreases words.len(),
{
    if words.len() == 0 {
        None
    } else if words[0].0 == addr {
        Some(words[0].1)
    } else {
        spec_frame_at(words.skip(1), addr)
    }
}

impl StackImage {
    /// Reads the frame stored at `addr`, if one is.
    pub fn frame_at(&self, addr: usize) -> (r: Option<Frame>)
        ensures
            r == spec_frame_at(self.words@, addr),
    {
        proof {
            assert(self.words@.skip(0) =~= self.words@);
        }
        let n = self.words.len();
        let mut i: usize = 0;
        while i < n
            invariant
                n == self.words@.len(),
                0 <= i <= n,
                spec_frame_at(self.words@, addr) == spec_frame_at(self.words@.skip(i as int), addr),
            decreases n - i,
        {
            let (a, f) = self.words[i];
            if a == addr {
                proof {
                    assert(self.words@.skip(i as int)[0] == self.words@[i as int]);
                }
                return Some(f);
            }
            proof {
                assert(self.words@.skip(i as int).skip(1) =~= self.words@.skip(i + 1));
            }
            i = i + 1;
        }
        proof {
            assert(self.words@.skip(n as int).len() == 0);
        }
        None
    }
}

/// One step of the walk is admissible: the frame pointer is nonzero,
/// aligned, and inside the stack range.
pub open spec fn fp_plausible(fp: usize, fp_lo: usize, fp_hi: usize) -> bool {
    fp > 0 && fp % WORD_ALIGN == 0 && fp_lo <= fp < fp_hi
}

/// The frames the walk collects: follow the chain from `fp` while the frame
/// pointer stays plausible, the stored return address lies in the text
/// range, the chain does not jump more than [`MAX_STACK_STEP`] at once, and
/// at most `max` frames are taken.
pub open spec fn spec_unwind(
    words: Seq<(usize, Frame)>,
    fp: usize,
    ip_lo: usize,
    ip_hi: usize,
    fp_lo: usize,
    fp_hi: usize,
    max: nat,
) -> Seq<Frame>
    decreases max,
{
    if max == 0 || !fp_plausible(fp, fp_lo, fp_hi) {
        Seq::empty()
    } else {
        match spec_frame_at(words, fp) {
            None => Seq::empty(),
            Some(frame) => {
                if !(ip_lo <= frame.ip < ip_hi) {
                    Seq::empty()
                } else if fp + MAX_STACK_STEP <= usize::MAX && frame.fp >= fp + MAX_STACK_STEP {
                    seq![frame]
                } else {
                    seq![frame] + spec_unwind(
                        words,
                        frame.fp,
                        ip_lo,
                        ip_hi,
                        fp_lo,
                        fp_hi,
                        (max - 1) as nat,
                    )
                }
            },
        }
    }
}

/// The walk never collects more frames than its bound.
pub proof fn lemma_spec_unwind_len(
    words: Seq<(usize, Frame)>,
    fp: usize,
    ip_lo: usize,
    ip_hi: usize,
    fp_lo: usize,
    fp_hi: usize,
    max: nat,
)
    ensures
        spec_unwind(words, fp, ip_lo, ip_hi, fp_lo, fp_hi, max).len() <= max,
    decreases max,
{
    if max > 0 && fp_plausible(fp, fp_lo, fp_hi) {
        match spec_frame_at(words, fp) {
            None => {},
            Some(frame) => {
                lemma_spec_unwind_len(words, frame.fp, ip_lo, ip_hi, fp_lo, fp_hi, (max - 1) as nat);
            },
        }
    }
}

/// Walks the frame-pointer chain of `image` upward from `fp`, collecting at
/// most `max_frames` frames; see [`spec_unwind`] for exactly which frames
/// come back. `ip_range` bounds valid return addresses (the text section),
/// `fp_range` bounds valid frame pointers (the stack).
pub fn unwind_stack(
    image: &StackImage,
    fp: usize,
    ip_range: (usize, usize),
    fp_range: (usize, usize),
    max_frames: usize,
) -> (r: Vec<Frame>)
    ensures
        r@ == spec_unwind(
            image.words@,
            fp,
            ip_range.0,
            ip_range.1,
            fp_range.0,
            fp_range.1,
            max_frames as nat,
        ),
        r@.len() <= max_frames,
{
    let (ip_lo, ip_hi) = ip_range;
    let (fp_lo, fp_hi) = fp_range;
    let mut frames: Vec<Frame> = Vec::new();
    let mut cur = fp;
    let mut left = max_frames;
    loop
        invariant_except_break
            frames@.len() == max_frames - left,
            spec_unwind(
                image.words@,
                fp,
                ip_lo,
                ip_hi,
                fp_lo,
                fp_hi,
                max_frames as nat,
            ) == frames@ + spec_unwind(
                image.words@,
                cur,
                ip_lo,
                ip_hi,
                fp_lo,
                fp_hi,
                left as nat,
            ),
        invariant
            left <= max_frames,
        ensures
            frames@ == spec_unwind(
                image.words@,
                fp,
                ip_lo,
                ip_hi,
                fp_lo,
                fp_hi,
                max_frames as nat,
            ),
        decreases left,
    {
        let ghost before = frames@;
        if left == 0 || !(cur > 0 && cur % WORD_ALIGN == 0 && fp_lo <= cur && cur < fp_hi) {
            proof {
                assert(spec_unwind(image.words@, cur, ip_lo, ip_hi, fp_lo, fp_hi, left as nat)
                    =~= Seq::<Frame>::empty());
                assert(frames@ + Seq::<Frame>::empty() =~= frames@);
            }
            break ;
        }
        let frame = match image.frame_at(cur) {
            Some(f) => f,
            None => {
                proof {
                    assert(frames@ + Seq::<Frame>::empty() =~= frames@);
                }
                break ;
            },
        };
        if !(ip_lo <= frame.ip && frame.ip < ip_hi) {
            proof {
                assert(frames@ + Seq::<Frame>::empty() =~= frames@);
            }
            break ;
        }
        if cur <= usize::MAX - MAX_STACK_STEP && frame.fp >= cur + MAX_STACK_STEP {
            frames.push(frame);
            proof {
                assert(spec_unwind(image.words@, cur, ip_lo, ip_hi, fp_lo, fp_hi, left as nat)
                    =~= seq![frame]);
                assert(before + seq![frame] =~= frames@);
            }
            break ;
        }
        frames.push(frame);
        proof {
            assert(before + (seq![frame] + spec_unwind(
                image.words@,
                frame.fp,
                ip_lo,
                ip_hi,
                fp_lo,
                fp_hi,
                (left - 1) as nat,
            )) =~= frames@ + spec_unwind(
                image.words@,
                frame.fp,
                ip_lo,
                ip_hi,
                fp_lo,
                fp_hi,
                (left - 1) as nat,
            ));
        }
        cur = frame.fp;
        left = left - 1;
    }
    proof {
        lemma_spec_unwind_len(
            image.words@,
            fp,
            ip_range.0,
            ip_range.1,
            fp_range.0,
            fp_range.1,
            max_frames as nat,
        );
    }
    frames
}

/// Backtrace configuration, constructed once at initialization.
pub struct BacktraceConfig {
    /// The maximum number of frames one capture takes.
    pub max_depth: usize,
}

/// Prepares the backtrace subsystem: symbolization is not available in this
/// build, so initialization amounts to the default configuration.
pub fn init() -> (r: BacktraceConfig)
    ensures
        r.max_depth == 16,
{
    BacktraceConfig { max_depth: 16 }
}

/// Sets the maximum depth for stack unwinding; zero is refused and leaves
/// the depth unchanged.
pub fn set_max_depth(config: &mut BacktraceConfig, depth: usize)
    ensures
        final(config).max_depth == if depth > 0 {
            depth
        } else {
            old(config).max_depth
        },
{
    if depth > 0 {
        config.max_depth = depth;
    }
}

/// Returns the maximum depth for stack unwinding.
pub fn max_depth(config: &BacktraceConfig) -> (r: usize)
    ensures
        r == config.max_depth,
{
    config.max_depth
}

/// Returns whether symbolized backtraces are available in this build. They
/// are not: captures carry bare frames.
pub fn is_enabled() -> (r: bool)
    ensures
        r == false,
{
    false
}

/// What a backtrace holds.
enum Inner {
    /// Unwinding is not supported on this machine.
    Unsupported,
    /// Backtrace capture is disabled.
    Disabled,
    /// A captured frame list.
    Captured(Vec<Frame>),
}

/// A captured task stack backtrace.
pub struct Backtrace {
    inner: Inner,
}

impl Backtrace {
    /// The captured frames, or `None` when nothing was captured.
    pub closed spec fn spec_frames(self) -> Option<Seq<Frame>> {
        match self.inner {
            Inner::Captured(frames) => Some(frames@),
            Inner::Unsupported => None,
            Inner::Disabled => None,
        }
    }

    /// Captures the current stack. With no way to read the machine's frame
    /// pointer from here, capture is disabled: a dummy backtrace comes back,
    /// as [`is_enabled`] announces.
    pub fn capture() -> (r: Backtrace)
        ensures
            r.spec_frames() is None,
    {
        Backtrace { inner: Inner::Disabled }
    }

    /// Captures a backtrace from a stack image and the frame pointer the
    /// runtime read, walking at most the configured depth.
    pub fn capture_from(
        image: &StackImage,
        fp: usize,
        ip_range: (usize, usize),
        fp_range: (usize, usize),
        config: &BacktraceConfig,
    ) -> (r: Backtrace)
        ensures
            r.spec_frames() == Some(
                spec_unwind(
                    image.words@,
                    fp,
                    ip_range.0,
                    ip_range.1,
                    fp_range.0,
                    fp_range.1,
                    config.max_depth as nat,
                ),
            ),
    {
        let frames = unwind_stack(image, fp, ip_range, fp_range, config.max_depth);
        Backtrace { inner: Inner::Captured(frames) }
    }

    /// The captured frames in order, or `None` when the backtrace was not
    /// captured.
    pub fn frames(&self) -> (r: Option<&Vec<Frame>>)
        ensures
            match r {
                Some(v) => self.spec_frames() == Some(v@),
                None => self.spec_frames() is None,
            },
    {
        match &self.inner {
            Inner::Captured(frames) => Some(frames),
            Inner::Unsupported => None,
            Inner::Disabled => None,
        }
    }
}

} // verus!
