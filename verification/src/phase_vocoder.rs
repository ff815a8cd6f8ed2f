use crate::short_time_fourier::{
    lemma_unread_tail_is_short, spec_frame_span, spec_is_schedule, spec_total_frames,
    FramePlacement, ShortTimeAnalyser, ShortTimeSynthesiser,
};
use vstd::prelude::*;

verus! {

/// Number of frames that are batched per logical processor.
pub const FRAMES_PER_PROCESSOR: usize = 64;

/// Asks `num_cpus::get` for the number of logical processors that this
/// process may use. The count differs from machine to machine; the contract
/// keeps only what the function documents of every answer: it is at least 1.
#[verifier::external_body]
fn logical_processors() -> (count: usize)
    ensures
        count >= 1,
{
    num_cpus::get()
}

/// The batch size for a machine with `processors` logical processors: 64
/// frames for each of them, or the largest number there is where that
/// product does not fit.
pub open spec fn spec_chunk_size(processors: nat) -> nat {
    if processors * 64 <= usize::MAX {
        processors * 64
    } else {
        usize::MAX as nat
    }
}

/// Number of frames to process in one batch on a machine with `processors`
/// logical processors.
pub fn chunk_size_for(processors: usize) -> (size: usize)
    ensures
        size == spec_chunk_size(processors as nat),
        processors >= 1 ==> size >= 1,
{
    if processors > usize::MAX / FRAMES_PER_PROCESSOR {
        usize::MAX
    } else {
        processors * FRAMES_PER_PROCESSOR
    }
}

/// Number of frames to process in one batch on this machine. The result
/// follows the machine's processor count and is never zero.
pub fn chunk_size() -> (size: usize)
    ensures
        size >= 1,
        exists|processors: nat| processors >= 1 && size == spec_chunk_size(processors),
{
    let processors = logical_processors();
    let size = chunk_size_for(processors);
    assert(processors as nat >= 1 && size == spec_chunk_size(processors as nat));
    size
}

/// The even number next to `multiplier`, away from zero: `multiplier`
/// itself where it is even.
pub open spec fn spec_circular_multiplier(multiplier: int) -> int {
    if multiplier % 2 == 0 {
        multiplier
    } else if multiplier > 0 {
        multiplier + 1
    } else {
        multiplier - 1
    }
}

/// Rounds a count of half turns to a count that is whole turns.
///
/// A phase of `multiplier` half turns and a rest is brought back into one
/// turn around zero by taking away this many half turns: an odd count is
/// pushed one further from zero, so that only whole turns are taken away.
pub fn circular_multiplier(multiplier: i64) -> (even: i64)
    requires
        multiplier < i64::MAX,
    ensures
        even == spec_circular_multiplier(multiplier as int),
        even % 2 == 0,
{
    let odd: i64 = multiplier & 1;
    assert(odd == 0 || odd == 1) by (bit_vector)
        requires
            odd == multiplier & 1,
    ;
    assert((odd == 0) == (multiplier % 2 == 0)) by (bit_vector)
        requires
            odd == multiplier & 1,
    ;
    if multiplier >= 0 {
        multiplier + odd
    } else {
        multiplier - odd
    }
}

/// Only whole turns are taken away, at most half a turn more or less than
/// the phase holds. A phase of whole turns is taken away entirely, so that
/// nothing is left of it, and taking away a second time changes nothing.
pub proof fn lemma_circular_multiplier_settles(multiplier: int)
    ensures
        spec_circular_multiplier(multiplier) % 2 == 0,
        -1 <= spec_circular_multiplier(multiplier) - multiplier <= 1,
        multiplier % 2 == 0 ==> spec_circular_multiplier(multiplier) == multiplier,
        spec_circular_multiplier(spec_circular_multiplier(multiplier)) == spec_circular_multiplier(
            multiplier,
        ),
        spec_circular_multiplier(-multiplier) == -spec_circular_multiplier(multiplier),
{
}

/// The bin that a pitch shift moves a component to, where the shifted
/// index `target` names a bin of the spectrum; a component that is shifted
/// out of the spectrum is dropped.
pub fn shifted_bin(target: i64, bin_count: usize) -> (bin: Option<usize>)
    ensures
        bin is Some <==> 0 <= target < bin_count,
        bin matches Some(index) ==> index == target,
{
    if target < 0 {
        None
    } else {
        let index = target as u64;
        if index < bin_count as u64 {
            Some(index as usize)
        } else {
            None
        }
    }
}

/// Where the frame before a frame is found while a batch is processed.
#[derive(Debug, Clone, Copy, PartialEq, Eq, Structural)]
pub enum PreviousFrame {
    /// There is no frame before the first frame of the signal: it is
    /// compared with silence.
    Silence,
    /// The last frame of the batch before, carried over.
    Carried,
    /// The frame at this position of the same batch.
    Within(usize),
}

/// Number of the frame before frame `position` of a batch that starts with
/// frame `first_frame` of the signal, or `None` for the very first frame.
pub open spec fn spec_frame_before(first_frame: nat, position: nat) -> Option<nat> {
    if first_frame + position == 0 {
        None
    } else {
        Some((first_frame + position - 1) as nat)
    }
}

/// Finds the frame that precedes frame `position` of a batch that starts
/// with frame `first_frame` of the signal.
///
/// Whatever the batch size, the frame found is the one just before in the
/// signal.
pub fn previous_frame(first_frame: usize, position: usize) -> (previous: PreviousFrame)
    ensures
        match previous {
            PreviousFrame::Silence => spec_frame_before(first_frame as nat, position as nat)
                is None,
            PreviousFrame::Carried => position == 0 && spec_frame_before(
                first_frame as nat,
                position as nat,
            ) == Some((first_frame - 1) as nat),
            PreviousFrame::Within(before) => before + 1 == position && spec_frame_before(
                first_frame as nat,
                position as nat,
            ) == Some((first_frame + before) as nat),
        },
{
    if position > 0 {
        PreviousFrame::Within(position - 1)
    } else if first_frame > 0 {
        PreviousFrame::Carried
    } else {
        PreviousFrame::Silence
    }
}

/// Number of samples that are complete, and so emitted, once `frames`
/// frames have been added: all that the frames cover but the last window.
pub open spec fn spec_emitted(window_width: nat, overlap: nat, frames: nat) -> nat {
    let filled = frames * (window_width - overlap);
    if filled > window_width {
        (filled - window_width) as nat
    } else {
        0
    }
}

/// Number of samples that the whole run puts out: the leading overlap and
/// one frame spacing per frame.
pub open spec fn spec_output_length(signal_length: nat, window_width: nat, overlap: nat) -> nat {
    (overlap + spec_total_frames(signal_length, window_width, overlap) * (window_width
        - overlap)) as nat
}

/// The output is never longer than the signal, and shorter by less than
/// one frame spacing.
pub proof fn lemma_output_covers_signal(signal_length: nat, window_width: nat, overlap: nat)
    requires
        overlap < window_width <= signal_length,
    ensures
        signal_length - (window_width - overlap) < spec_output_length(
            signal_length,
            window_width,
            overlap,
        ) <= signal_length,
{
    lemma_unread_tail_is_short(signal_length, window_width, overlap);
    let total = spec_total_frames(signal_length, window_width, overlap);
    let spacing = window_width - overlap;
    assert((total - 1) * spacing + spacing == total * spacing) by (nonlinear_arith);
}

/// Every placement of `rounds` puts its frame where the analysis read it:
/// counted from the start of the output, with the `emitted` samples that
/// have left the buffer, the frame at `frame_index` of a batch that starts
/// with frame `first_frame` begins at the start of that frame's span.
pub open spec fn spec_returns_frames(
    rounds: Seq<Vec<FramePlacement>>,
    first_frame: nat,
    emitted: nat,
    window_width: nat,
    overlap: nat,
) -> bool {
    forall|level: int, position: int|
        0 <= level < rounds.len() && 0 <= position < rounds[level]@.len() ==> emitted + (
        #[trigger] rounds[level]@[position]).start == spec_frame_span(
            window_width,
            overlap,
            first_frame + rounds[level]@[position].frame_index as nat,
        ).0
}

/// One batch of consecutive frames and what to do with it.
pub struct ChunkStep {
    /// The first frame of the batch.
    pub first_frame: usize,
    /// The frame after the last frame of the batch.
    pub end_frame: usize,
    /// Where the frames of the batch are added into the output buffer,
    /// each named by its position in the batch.
    pub rounds: Vec<Vec<FramePlacement>>,
    /// How many samples to take from the front of the buffer once the
    /// frames have been added.
    pub ready: usize,
}

/// Leads a signal through analysis, processing and synthesis in batches of
/// frames.
///
/// The plan holds no sample. It deals out the batches in frame order, keeps
/// the books of the output buffer, and counts what has been emitted.
pub struct SignalPlan {
    analyser: ShortTimeAnalyser,
    synthesiser: ShortTimeSynthesiser,
    chunk_size: usize,
    next_frame: usize,
    emitted: usize,
}

impl SignalPlan {
    /// Length of the signal.
    pub closed spec fn signal_length(&self) -> nat {
        self.analyser.signal_length()
    }

    /// Width of the window.
    pub closed spec fn window_width(&self) -> nat {
        self.analyser.window_width()
    }

    /// Number of samples that consecutive frames share.
    pub closed spec fn overlap(&self) -> nat {
        self.analyser.overlap()
    }

    /// Largest number of frames in one batch.
    pub closed spec fn chunk_size(&self) -> nat {
        self.chunk_size as nat
    }

    /// Number of frames dealt out so far.
    pub closed spec fn frames_done(&self) -> nat {
        self.next_frame as nat
    }

    /// Number of samples emitted so far.
    pub closed spec fn emitted(&self) -> nat {
        self.emitted as nat
    }

    /// Number of samples in the output buffer.
    pub closed spec fn buffered(&self) -> nat {
        self.synthesiser.buffered()
    }

    /// Number of frames of the signal.
    pub open spec fn total_frames(&self) -> nat {
        spec_total_frames(self.signal_length(), self.window_width(), self.overlap())
    }

    /// Number of samples between the starts of consecutive frames.
    pub open spec fn frame_spacing(&self) -> nat {
        (self.window_width() - self.overlap()) as nat
    }

    /// Same signal, window, overlap and batch size as `other`.
    pub open spec fn same_setup(&self, other: &Self) -> bool {
        &&& self.signal_length() == other.signal_length()
        &&& self.window_width() == other.window_width()
        &&& self.overlap() == other.overlap()
        &&& self.chunk_size() == other.chunk_size()
    }

    /// The books are in order: what has been emitted and what is buffered
    /// follow from the number of frames dealt out alone.
    pub closed spec fn well_formed(&self) -> bool {
        &&& self.analyser.well_formed()
        &&& self.synthesiser.well_formed()
        &&& self.synthesiser.window_width() == self.analyser.window_width()
        &&& self.synthesiser.overlap() == self.analyser.overlap()
        &&& self.chunk_size >= 1
        &&& self.next_frame <= self.total_frames()
        &&& self.emitted == spec_emitted(self.window_width(), self.overlap(), self.frames_done())
        &&& self.synthesiser.buffered() + self.emitted == self.overlap() + self.frames_done()
            * self.frame_spacing()
    }

    /// The books of a plan follow from the number of frames dealt out alone:
    /// however the frames were batched, as many samples have been emitted
    /// and as many are buffered.
    pub proof fn lemma_books_follow_frames(&self)
        requires
            self.well_formed(),
        ensures
            self.overlap() < self.window_width() <= self.signal_length(),
            self.chunk_size() >= 1,
            self.frames_done() <= self.total_frames(),
            self.emitted() == spec_emitted(self.window_width(), self.overlap(), self.frames_done()),
            self.buffered() + self.emitted() == self.overlap() + self.frames_done()
                * self.frame_spacing(),
    {
        self.analyser.lemma_setup();
    }

    /// Plans the run over a signal of `signal_length` samples, with a window
    /// of `window_width` samples, `overlap` samples shared between
    /// consecutive frames, and at most `chunk_size` frames per batch.
    pub fn new(signal_length: usize, overlap: usize, window_width: usize, chunk_size: usize) -> (plan:
        Self)
        requires
            overlap < window_width,
            window_width <= signal_length,
            chunk_size >= 1,
        ensures
            plan.well_formed(),
            plan.signal_length() == signal_length,
            plan.window_width() == window_width,
            plan.overlap() == overlap,
            plan.chunk_size() == chunk_size,
            plan.frames_done() == 0,
            plan.emitted() == 0,
            plan.buffered() == overlap,
    {
        let analyser = ShortTimeAnalyser::new(signal_length, overlap, window_width);
        let synthesiser = ShortTimeSynthesiser::new(overlap, window_width);
        SignalPlan { analyser, synthesiser, chunk_size, next_frame: 0, emitted: 0 }
    }

    /// Number of frames of the signal.
    pub fn frame_count(&self) -> (frames: usize)
        requires
            self.well_formed(),
        ensures
            frames == self.total_frames(),
    {
        self.analyser.total_frames()
    }

    /// Deals out the next batch of frames, or `None` once every frame has
    /// been dealt out.
    ///
    /// A batch runs from the first frame not yet dealt out over at most one
    /// batch size of frames. What is emitted after it depends only on how
    /// many frames have been added by then, not on how they were batched.
    pub fn next_chunk(&mut self) -> (step: Option<ChunkStep>)
        requires
            old(self).well_formed(),
        ensures
            final(self).well_formed(),
            final(self).same_setup(old(self)),
            step is None <==> old(self).frames_done() == old(self).total_frames(),
            step is None ==> *final(self) == *old(self),
            step matches Some(chunk) ==> {
                &&& chunk.first_frame == old(self).frames_done()
                &&& chunk.end_frame == if old(self).frames_done() + old(self).chunk_size() < old(
                    self,
                ).total_frames() {
                    old(self).frames_done() + old(self).chunk_size()
                } else {
                    old(self).total_frames()
                }
                &&& chunk.first_frame < chunk.end_frame <= chunk.first_frame + old(
                    self,
                ).chunk_size()
                &&& final(self).frames_done() == chunk.end_frame
                &&& spec_is_schedule(
                    chunk.rounds@,
                    (chunk.end_frame - chunk.first_frame) as nat,
                    old(self).window_width(),
                    old(self).overlap(),
                    (old(self).buffered() - old(self).overlap()) as nat,
                )
                &&& spec_returns_frames(
                    chunk.rounds@,
                    chunk.first_frame as nat,
                    old(self).emitted(),
                    old(self).window_width(),
                    old(self).overlap(),
                )
                &&& chunk.ready == spec_emitted(
                    old(self).window_width(),
                    old(self).overlap(),
                    chunk.end_frame as nat,
                ) - old(self).emitted()
                &&& final(self).emitted() == old(self).emitted() + chunk.ready
                &&& final(self).buffered() + chunk.ready == old(self).buffered() + (chunk.end_frame
                    - chunk.first_frame) * old(self).frame_spacing()
                &&& final(self).buffered() <= old(self).window_width() + old(self).overlap()
            },
    {
        let total = self.analyser.total_frames();
        let first_frame = self.next_frame;
        if first_frame >= total {
            return None;
        }
        let end_frame = if total - first_frame > self.chunk_size {
            first_frame + self.chunk_size
        } else {
            total
        };
        let frame_count = end_frame - first_frame;
        proof {
            self.analyser.lemma_setup();
            let n = self.signal_length();
            let w = self.window_width();
            let o = self.overlap();
            let s = w - o;
            lemma_output_covers_signal(n, w, o);
            assert(end_frame * s <= total * s) by (nonlinear_arith)
                requires
                    end_frame <= total,
                    s > 0,
            ;
            assert(end_frame * s == first_frame * s + frame_count * s) by (nonlinear_arith)
                requires
                    end_frame == first_frame + frame_count,
            ;
            self.synthesiser.lemma_setup();
            assert(self.synthesiser.spec_frame_spacing() == s);
            assert(self.synthesiser.buffered() + self.emitted + frame_count * s <= n);
            assert(self.synthesiser.spec_frame_spacing() * frame_count == frame_count * s)
                by (nonlinear_arith)
                requires
                    self.synthesiser.spec_frame_spacing() == s,
            ;
        }
        let ghost before = *self;
        let rounds = self.synthesiser.push_frames(frame_count);
        let ready = self.synthesiser.flush_ready();
        proof {
            let s = before.window_width() - before.overlap();
            assert(ready <= before.synthesiser.buffered() + frame_count * s);
            assert forall|level: int, position: int|
                0 <= level < rounds@.len() && 0 <= position < rounds@[level]@.len()
                    implies before.emitted() + (#[trigger] rounds@[level]@[position]).start
                    == spec_frame_span(
                    before.window_width(),
                    before.overlap(),
                    first_frame as nat + rounds@[level]@[position].frame_index as nat,
                ).0 by {
                let index = rounds@[level]@[position].frame_index as int;
                assert((first_frame + index) * s == first_frame * s + index * s)
                    by (nonlinear_arith);
            }
        }
        self.next_frame = end_frame;
        self.emitted = self.emitted + ready;
        Some(ChunkStep { first_frame, end_frame, rounds, ready })
    }

    /// Ends the run and returns how many samples are left in the buffer:
    /// all of them are emitted.
    ///
    /// Once every frame has been dealt out, what was emitted before and
    /// what is left make up the whole output, whatever the batch size was.
    pub fn finish(self) -> (remaining: usize)
        requires
            self.well_formed(),
        ensures
            remaining == self.buffered(),
            self.frames_done() == self.total_frames() ==> self.emitted() + remaining
                == spec_output_length(self.signal_length(), self.window_width(), self.overlap()),
    {
        proof {
            self.analyser.lemma_setup();
        }
        self.synthesiser.flush_all()
    }
}

/// The frame after the last frame of a batch that starts with frame
/// `first_frame`: one batch size on, or the end of the signal's frames.
pub open spec fn spec_chunk_end(first_frame: nat, chunk_size: nat, total_frames: nat) -> nat {
    if first_frame + chunk_size < total_frames {
        first_frame + chunk_size
    } else {
        total_frames
    }
}

/// `step` is the batch that starts with frame `first_frame` of the run
/// over a signal: it ends one batch size on or with the signal, places its
/// frames behind what is complete in the buffer, each where the analysis
/// read it, and then frees what has become complete.
pub open spec fn spec_is_step(
    step: ChunkStep,
    first_frame: nat,
    signal_length: nat,
    window_width: nat,
    overlap: nat,
    chunk_size: nat,
) -> bool {
    let total = spec_total_frames(signal_length, window_width, overlap);
    let emitted = spec_emitted(window_width, overlap, first_frame);
    let complete_end = first_frame * (window_width - overlap) - emitted;
    &&& step.first_frame == first_frame
    &&& step.end_frame == spec_chunk_end(first_frame, chunk_size, total)
    &&& spec_is_schedule(
        step.rounds@,
        (step.end_frame - step.first_frame) as nat,
        window_width,
        overlap,
        complete_end as nat,
    )
    &&& spec_returns_frames(step.rounds@, first_frame, emitted, window_width, overlap)
    &&& step.ready == spec_emitted(window_width, overlap, step.end_frame as nat) - emitted
}

/// A whole run over a signal: its batches in order, and what is left in the
/// buffer after the last.
pub struct SignalRun {
    /// The batches, in frame order.
    pub steps: Vec<ChunkStep>,
    /// How many samples to take from the buffer at the end: all of them.
    pub remaining: usize,
}

/// Plans the run of a signal of `signal_length` samples through the
/// vocoder, with a window of `window_width` samples, `overlap` samples
/// shared between consecutive frames, and batches of `chunk_size` frames.
///
/// The batches follow one another without a gap from the first frame to
/// the last. What they free and what is left at the end add up to the
/// output: the leading overlap and one frame spacing per frame.
pub fn process_signal(
    signal_length: usize,
    overlap: usize,
    window_width: usize,
    chunk_size: usize,
) -> (run: SignalRun)
    requires
        overlap < window_width,
        window_width <= signal_length,
        chunk_size >= 1,
    ensures
        (run.steps@.len() - 1) * chunk_size < spec_total_frames(
            signal_length as nat,
            window_width as nat,
            overlap as nat,
        ) <= run.steps@.len() * chunk_size,
        forall|batch: int|
            0 <= batch < run.steps@.len() ==> spec_is_step(
                #[trigger] run.steps@[batch],
                (batch * chunk_size) as nat,
                signal_length as nat,
                window_width as nat,
                overlap as nat,
                chunk_size as nat,
            ),
        run.remaining + spec_emitted(
            window_width as nat,
            overlap as nat,
            spec_total_frames(signal_length as nat, window_width as nat, overlap as nat),
        ) == spec_output_length(signal_length as nat, window_width as nat, overlap as nat),
{
    let mut plan = SignalPlan::new(signal_length, overlap, window_width, chunk_size);
    let total = plan.frame_count();
    let mut steps: Vec<ChunkStep> = Vec::new();
    let mut frames_done: usize = 0;
    while frames_done < total
        invariant
            plan.well_formed(),
            plan.signal_length() == signal_length,
            plan.window_width() == window_width,
            plan.overlap() == overlap,
            plan.chunk_size() == chunk_size,
            plan.frames_done() == frames_done,
            overlap < window_width <= signal_length,
            chunk_size >= 1,
            total == spec_total_frames(signal_length as nat, window_width as nat, overlap as nat),
            frames_done <= total,
            frames_done < total ==> frames_done == steps@.len() * chunk_size,
            frames_done == total ==> (steps@.len() - 1) * chunk_size < total <= steps@.len()
                * chunk_size,
            forall|batch: int|
                0 <= batch < steps@.len() ==> spec_is_step(
                    #[trigger] steps@[batch],
                    (batch * chunk_size) as nat,
                    signal_length as nat,
                    window_width as nat,
                    overlap as nat,
                    chunk_size as nat,
                ),
        decreases total - frames_done,
    {
        let ghost batch = steps@.len() as int;
        proof {
            plan.lemma_books_follow_frames();
            assert((batch + 1) * chunk_size == batch * chunk_size + chunk_size)
                by (nonlinear_arith);
        }
        match plan.next_chunk() {
            Some(step) => {
                frames_done = step.end_frame;
                steps.push(step);
            },
            None => {
                proof {
                    assert(false);
                }
            },
        }
    }
    let remaining = plan.finish();
    SignalRun { steps, remaining }
}

} // verus!
