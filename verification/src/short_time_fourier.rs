use vstd::prelude::*;

verus! {

/// The stretch of a signal that one analysis frame reads: the samples from
/// `start` up to, but not including, `end`.
#[derive(Debug, Clone, Copy, PartialEq, Eq, Structural)]
pub struct FrameSpan {
    pub start: usize,
    pub end: usize,
}

/// Number of frames that fit a signal: one at the start, and one more for
/// every whole frame spacing by which the signal is longer than the window.
pub open spec fn spec_total_frames(signal_length: nat, window_width: nat, overlap: nat) -> nat
    recommends
        overlap < window_width <= signal_length,
{
    ((signal_length - window_width) / (window_width - overlap)) as nat + 1
}

/// The span of frame `frame_index`: a full window, starting one frame
/// spacing after the frame before it.
pub open spec fn spec_frame_span(window_width: nat, overlap: nat, frame_index: nat) -> (int, int) {
    let start = frame_index * (window_width - overlap);
    (start, start + window_width)
}

/// A product of a count below a floored quotient stays within the dividend.
pub proof fn lemma_steps_fit(room: nat, step: nat, count: nat)
    requires
        step > 0,
        count <= room / step,
    ensures
        count * step <= room,
{
    assert(count * step <= (room / step) * step) by (nonlinear_arith)
        requires
            count <= room / step,
            step > 0,
    ;
    assert((room / step) * step <= room) by (nonlinear_arith)
        requires
            step > 0,
    ;
}

/// Every frame that an analysis counts lies wholly inside the signal, so no
/// frame is ever a shortened tail that would need zero extension.
pub proof fn lemma_frames_are_full(
    signal_length: nat,
    window_width: nat,
    overlap: nat,
    frame_index: nat,
)
    requires
        overlap < window_width <= signal_length,
        frame_index < spec_total_frames(signal_length, window_width, overlap),
    ensures
        spec_frame_span(window_width, overlap, frame_index).1 <= signal_length,
{
    lemma_steps_fit(
        (signal_length - window_width) as nat,
        (window_width - overlap) as nat,
        frame_index,
    );
}

/// The samples that no frame reads are fewer than one frame spacing, and
/// they all lie at the very end of the signal.
pub proof fn lemma_unread_tail_is_short(signal_length: nat, window_width: nat, overlap: nat)
    requires
        overlap < window_width <= signal_length,
    ensures
        ({
            let last = (spec_total_frames(signal_length, window_width, overlap) - 1) as nat;
            let end = spec_frame_span(window_width, overlap, last).1;
            signal_length - (window_width - overlap) < end <= signal_length
        }),
{
    let room = (signal_length - window_width) as nat;
    let step = (window_width - overlap) as nat;
    lemma_steps_fit(room, step, room / step);
    assert(room < (room / step) * step + step) by (nonlinear_arith)
        requires
            step > 0,
    ;
}

/// Cuts a signal into overlapping frames of one window width each.
///
/// The analyser knows the signal by its length only; it says which samples
/// each frame covers.
#[derive(Debug, Clone, Copy)]
pub struct ShortTimeAnalyser {
    signal_length: usize,
    window_width: usize,
    frame_spacing: usize,
    loop_frame_count: usize,
}

impl ShortTimeAnalyser {
    /// Length of the analysed signal.
    pub closed spec fn signal_length(&self) -> nat {
        self.signal_length as nat
    }

    /// Width of the analysis window.
    pub closed spec fn window_width(&self) -> nat {
        self.window_width as nat
    }

    /// Number of samples that consecutive frames share.
    pub closed spec fn overlap(&self) -> nat {
        (self.window_width - self.frame_spacing) as nat
    }

    /// The fields agree with one another.
    pub closed spec fn well_formed(&self) -> bool {
        &&& 0 < self.frame_spacing <= self.window_width <= self.signal_length
        &&& self.loop_frame_count == (self.signal_length - self.window_width)
            / self.frame_spacing as int
    }

    /// Number of frames of this analysis.
    pub open spec fn spec_frames(&self) -> nat {
        spec_total_frames(self.signal_length(), self.window_width(), self.overlap())
    }

    /// What holds of a well-formed analyser, for callers that see only its
    /// public side.
    pub proof fn lemma_setup(&self)
        requires
            self.well_formed(),
        ensures
            self.overlap() < self.window_width() <= self.signal_length() <= usize::MAX,
    {
    }

    /// Prepares the analysis of a signal of `signal_length` samples with a
    /// window of `window_width` samples, where consecutive frames share
    /// `overlap` samples.
    pub fn new(signal_length: usize, overlap: usize, window_width: usize) -> (analyser: Self)
        requires
            overlap < window_width,
            window_width <= signal_length,
        ensures
            analyser.well_formed(),
            analyser.signal_length() == signal_length,
            analyser.window_width() == window_width,
            analyser.overlap() == overlap,
    {
        let frame_spacing = window_width - overlap;
        ShortTimeAnalyser {
            signal_length,
            window_width,
            frame_spacing,
            loop_frame_count: (signal_length - window_width) / frame_spacing,
        }
    }

    /// Number of samples between the starts of consecutive frames.
    pub fn frame_spacing(&self) -> (spacing: usize)
        requires
            self.well_formed(),
        ensures
            spacing == self.window_width() - self.overlap(),
            spacing > 0,
    {
        self.frame_spacing
    }

    /// Number of frames in the analysis.
    pub fn total_frames(&self) -> (frames: usize)
        requires
            self.well_formed(),
        ensures
            frames == self.spec_frames(),
            frames >= 1,
    {
        self.loop_frame_count + 1
    }

    /// The samples that frame `frame_index` covers.
    pub fn calculate_frame(&self, frame_index: usize) -> (span: FrameSpan)
        requires
            self.well_formed(),
            frame_index < self.spec_frames(),
        ensures
            (span.start as int, span.end as int) == spec_frame_span(
                self.window_width(),
                self.overlap(),
                frame_index as nat,
            ),
            span.end <= self.signal_length(),
    {
        proof {
            lemma_steps_fit(
                (self.signal_length - self.window_width) as nat,
                self.frame_spacing as nat,
                frame_index as nat,
            );
        }
        let start = frame_index * self.frame_spacing;
        FrameSpan { start, end: start + self.window_width }
    }

    /// The spans of all frames, in frame order.
    pub fn calculate_all(&self) -> (spans: Vec<FrameSpan>)
        requires
            self.well_formed(),
        ensures
            spans@.len() == self.spec_frames(),
            forall|i: int|
                0 <= i < spans@.len() ==> {
                    &&& (#[trigger] spans@[i].start as int, spans@[i].end as int)
                        == spec_frame_span(self.window_width(), self.overlap(), i as nat)
                    &&& spans@[i].end <= self.signal_length()
                },
    {
        let total = self.total_frames();
        let mut spans: Vec<FrameSpan> = Vec::new();
        let mut frame_index: usize = 0;
        while frame_index < total
            invariant
                self.well_formed(),
                total == self.spec_frames(),
                frame_index <= total,
                spans@.len() == frame_index,
                forall|i: int|
                    0 <= i < spans@.len() ==> {
                        &&& (#[trigger] spans@[i].start as int, spans@[i].end as int)
                            == spec_frame_span(self.window_width(), self.overlap(), i as nat)
                        &&& spans@[i].end <= self.signal_length()
                    },
            decreases total - frame_index,
        {
            spans.push(self.calculate_frame(frame_index));
            frame_index += 1;
        }
        spans
    }
}

/// Where one synthesised frame is added into the output buffer: frame
/// `frame_index` of the pushed batch covers one window width of buffered
/// samples from position `start` on.
#[derive(Debug, Clone, Copy, PartialEq, Eq, Structural)]
pub struct FramePlacement {
    pub frame_index: usize,
    pub start: usize,
    /// Number of samples between the end of the frame before this one in
    /// its round, or the front of the buffer for the first of a round, and
    /// `start`. Going by the gaps, a round cuts the buffer into stretches
    /// that can be handed out to be written at the same time.
    pub gap: usize,
}

/// The gap in front of the frame at `position` of `round`.
pub open spec fn spec_gap(round: Seq<FramePlacement>, position: int, window_width: nat) -> int {
    if position == 0 {
        round[position].start as int
    } else {
        round[position].start - (round[position - 1].start + window_width)
    }
}

/// Number of frames that can touch one output sample: the window width
/// divided by the frame spacing, rounded up.
pub open spec fn spec_overlapping_frames(window_width: nat, overlap: nat) -> nat
    recommends
        overlap < window_width,
{
    let spacing = window_width - overlap;
    ((window_width + spacing - 1) / spacing) as nat
}

/// Number of frames of a batch that fall into round `level`, when every
/// `rounds`-th frame belongs to the same round.
pub open spec fn spec_level_size(frame_count: nat, rounds: nat, level: nat) -> nat
    recommends
        level < rounds,
{
    ((frame_count + rounds - level - 1) / (rounds as int)) as nat
}

/// The round that frame `frame_index` of a batch falls into.
pub open spec fn spec_frame_level(rounds: nat, frame_index: nat) -> int {
    frame_index as int % rounds as int
}

/// The position of frame `frame_index` of a batch within its round.
pub open spec fn spec_frame_position(rounds: nat, frame_index: nat) -> int {
    frame_index as int / rounds as int
}

/// The frame that stands at `position` in round `level`.
pub open spec fn spec_slot_frame(rounds: nat, level: nat, position: nat) -> nat {
    level + position * rounds
}

/// A whole number of steps fits a room exactly when it is at most the
/// floored quotient.
pub proof fn lemma_quotient_bounds(room: int, step: int, count: int)
    requires
        room >= 0,
        step > 0,
        count >= 0,
    ensures
        count * step <= room <==> count <= room / step,
{
    if count <= room / step {
        lemma_steps_fit(room as nat, step as nat, count as nat);
    } else {
        assert(room < (room / step) * step + step) by (nonlinear_arith)
            requires
                step > 0,
        ;
        assert((room / step + 1) * step <= count * step) by (nonlinear_arith)
            requires
                room / step + 1 <= count,
                step > 0,
        ;
        assert((room / step + 1) * step == (room / step) * step + step) by (nonlinear_arith);
    }
}

/// The rounds times the spacing span at least one window, so two frames of
/// the same round never cover a common sample.
pub proof fn lemma_rounds_span_window(window_width: nat, overlap: nat)
    requires
        overlap < window_width,
    ensures
        spec_overlapping_frames(window_width, overlap) * (window_width - overlap) >= window_width,
        spec_overlapping_frames(window_width, overlap) >= 1,
{
    let spacing = window_width - overlap;
    let rounds = (window_width + spacing - 1) / spacing;
    assert(window_width + spacing - 1 < rounds * spacing + spacing) by (nonlinear_arith)
        requires
            spacing > 0,
            rounds == (window_width + spacing - 1) / spacing,
    ;
    lemma_quotient_bounds(window_width + spacing - 1, spacing, 1);
}

/// Each frame of a batch falls into exactly one round, at one position.
pub proof fn lemma_frame_has_one_slot(frame_count: nat, rounds: nat, frame_index: nat)
    requires
        rounds > 0,
        frame_index < frame_count,
    ensures
        frame_index % rounds < rounds,
        frame_index / rounds < spec_level_size(frame_count, rounds, frame_index % rounds),
        frame_index == spec_slot_frame(rounds, frame_index % rounds, frame_index / rounds),
        forall|level: nat, position: nat|
            level < rounds && frame_index == #[trigger] spec_slot_frame(rounds, level, position)
                ==> level == frame_index % rounds && position == frame_index / rounds,
{
    let level = frame_index % rounds;
    let position = frame_index / rounds;
    assert(frame_index == rounds * position + level && 0 <= level < rounds) by (nonlinear_arith)
        requires
            rounds > 0,
            level == frame_index % rounds,
            position == frame_index / rounds,
    ;
    assert(rounds * position == position * rounds) by (nonlinear_arith);
    assert((position + 1) * rounds == position * rounds + rounds) by (nonlinear_arith);
    lemma_quotient_bounds(
        frame_count + rounds - level - 1,
        rounds as int,
        position as int + 1,
    );
    assert forall|other: nat, place: nat|
        other < rounds && frame_index == #[trigger] spec_slot_frame(
            rounds,
            other,
            place,
        ) implies other == level && place == position by {
        vstd::arithmetic::div_mod::lemma_fundamental_div_mod_converse(
            frame_index as int,
            rounds as int,
            place as int,
            other as int,
        );
        assert(rounds * place == place * rounds) by (nonlinear_arith);
    }
}

/// `rounds` places `frame_count` frames of one batch behind position
/// `complete_end` of the buffer: round `level` holds the frames `level`,
/// `level + rounds`, `level + 2 * rounds`, and so on, each one frame spacing
/// further into the buffer per frame index.
pub open spec fn spec_is_schedule(
    rounds: Seq<Vec<FramePlacement>>,
    frame_count: nat,
    window_width: nat,
    overlap: nat,
    complete_end: nat,
) -> bool {
    let round_count = spec_overlapping_frames(window_width, overlap);
    &&& rounds.len() == round_count
    &&& forall|level: int|
        0 <= level < rounds.len() ==> (#[trigger] rounds[level])@.len() == spec_level_size(
            frame_count,
            round_count,
            level as nat,
        )
    &&& forall|level: int, position: int|
        0 <= level < rounds.len() && 0 <= position < rounds[level]@.len() ==> {
            let placement = #[trigger] rounds[level]@[position];
            &&& placement.frame_index == spec_slot_frame(
                round_count,
                level as nat,
                position as nat,
            )
            &&& placement.frame_index < frame_count
            &&& placement.start == complete_end + placement.frame_index * (window_width
                - overlap)
            &&& placement.start + window_width <= complete_end + overlap + frame_count * (
            window_width - overlap)
            &&& placement.gap == spec_gap(rounds[level]@, position, window_width)
        }
}

/// Adds synthesised frames into an output buffer by overlapping addition.
///
/// The synthesiser knows the buffer by its length only. It says where each
/// pushed frame is added and how many samples at the front of the buffer are
/// complete.
#[derive(Debug, Clone, Copy)]
pub struct ShortTimeSynthesiser {
    buffered: usize,
    window_width: usize,
    overlap: usize,
    frame_spacing: usize,
    overlapping_frames_count: usize,
}

impl ShortTimeSynthesiser {
    /// Number of samples that the output buffer holds.
    pub closed spec fn buffered(&self) -> nat {
        self.buffered as nat
    }

    /// Width of the synthesis window.
    pub closed spec fn window_width(&self) -> nat {
        self.window_width as nat
    }

    /// Number of samples that consecutive frames share.
    pub closed spec fn overlap(&self) -> nat {
        self.overlap as nat
    }

    /// The fields agree with one another, and the buffer always keeps the
    /// samples that the next frame will overlap.
    pub closed spec fn well_formed(&self) -> bool {
        &&& self.overlap < self.window_width
        &&& self.frame_spacing == self.window_width - self.overlap
        &&& self.overlapping_frames_count == spec_overlapping_frames(
            self.window_width as nat,
            self.overlap as nat,
        )
        &&& self.buffered >= self.overlap
    }

    /// Number of samples between the starts of consecutive frames.
    pub open spec fn spec_frame_spacing(&self) -> nat {
        (self.window_width() - self.overlap()) as nat
    }

    /// Number of rounds that a batch of frames is added in.
    pub open spec fn spec_rounds(&self) -> nat {
        spec_overlapping_frames(self.window_width(), self.overlap())
    }

    /// Position in the buffer at which the next pushed frame starts.
    pub open spec fn spec_complete_end(&self) -> nat {
        (self.buffered() - self.overlap()) as nat
    }

    /// Same window and overlap as `other`.
    pub open spec fn same_setup(&self, other: &Self) -> bool {
        self.window_width() == other.window_width() && self.overlap() == other.overlap()
    }

    /// What holds of a well-formed synthesiser, for callers that see only
    /// its public side.
    pub proof fn lemma_setup(&self)
        requires
            self.well_formed(),
        ensures
            self.overlap() < self.window_width(),
            self.overlap() <= self.buffered(),
    {
    }

    /// Starts a synthesis whose buffer holds `overlap` leading zero samples.
    pub fn new(overlap: usize, window_width: usize) -> (synthesiser: Self)
        requires
            overlap < window_width,
        ensures
            synthesiser.well_formed(),
            synthesiser.window_width() == window_width,
            synthesiser.overlap() == overlap,
            synthesiser.buffered() == overlap,
    {
        let frame_spacing = window_width - overlap;
        let whole = window_width / frame_spacing;
        proof {
            let w = window_width as int;
            let s = frame_spacing as int;
            assert(w % s != 0 ==> w / s < w) by (nonlinear_arith)
                requires
                    s > 0,
                    w > 0,
            ;
        }
        let overlapping_frames_count = if window_width % frame_spacing != 0 {
            whole + 1
        } else {
            whole
        };
        proof {
            let w = window_width as int;
            let s = frame_spacing as int;
            assert((w + s - 1) / s == if w % s != 0 {
                w / s + 1
            } else {
                w / s
            }) by (nonlinear_arith)
                requires
                    s > 0,
                    w >= 0,
            ;
        }
        ShortTimeSynthesiser {
            buffered: overlap,
            window_width,
            overlap,
            frame_spacing,
            overlapping_frames_count,
        }
    }

    /// Number of samples in the buffer.
    pub fn buffered_samples(&self) -> (length: usize)
        ensures
            length == self.buffered(),
    {
        self.buffered
    }

    /// Number of samples between the starts of consecutive frames.
    pub fn frame_spacing(&self) -> (spacing: usize)
        requires
            self.well_formed(),
        ensures
            spacing == self.spec_frame_spacing(),
            spacing > 0,
    {
        self.frame_spacing
    }

    /// Extends the buffer for `frame_count` further frames and says where
    /// each of them is added.
    ///
    /// The placements come in rounds. The frames of one round cover
    /// pairwise disjoint stretches of the buffer, so they may be added in
    /// any order or at the same time; the rounds follow one another.
    pub fn push_frames(&mut self, frame_count: usize) -> (rounds: Vec<Vec<FramePlacement>>)
        requires
            old(self).well_formed(),
            old(self).buffered() + old(self).spec_frame_spacing() * frame_count <= usize::MAX,
        ensures
            final(self).well_formed(),
            final(self).same_setup(old(self)),
            final(self).buffered() == old(self).buffered() + old(self).spec_frame_spacing()
                * frame_count,
            spec_is_schedule(
                rounds@,
                frame_count as nat,
                old(self).window_width(),
                old(self).overlap(),
                old(self).spec_complete_end(),
            ),
    {
        let complete_end = self.buffered - self.overlap;
        let spacing = self.frame_spacing;
        let width = self.window_width;
        let count = self.overlapping_frames_count;
        let ghost before = *self;
        proof {
            lemma_rounds_span_window(self.window_width as nat, self.overlap as nat);
            assert(spacing * frame_count >= 0) by (nonlinear_arith)
                requires
                    spacing >= 0,
                    frame_count >= 0,
            ;
        }
        let grown = spacing * frame_count;
        self.buffered = self.buffered + grown;
        let buffered = self.buffered;
        let mut rounds: Vec<Vec<FramePlacement>> = Vec::new();
        let mut level: usize = 0;
        while level < count
            invariant
                level <= count,
                count >= 1,
                spacing > 0,
                count == before.spec_rounds(),
                spacing == before.spec_frame_spacing(),
                width == before.window_width(),
                width == spacing + before.overlap(),
                complete_end == before.spec_complete_end(),
                buffered == complete_end + before.overlap() + spacing * frame_count,
                buffered <= usize::MAX,
                rounds@.len() == level,
                forall|l: int|
                    0 <= l < rounds@.len() ==> (#[trigger] rounds@[l])@.len() == spec_level_size(
                        frame_count as nat,
                        count as nat,
                        l as nat,
                    ),
                forall|l: int, position: int|
                    0 <= l < rounds@.len() && 0 <= position < rounds@[l]@.len() ==> {
                        let placement = #[trigger] rounds@[l]@[position];
                        &&& placement.frame_index == l + position * count
                        &&& placement.frame_index < frame_count
                        &&& placement.start == complete_end + placement.frame_index * spacing
                        &&& placement.start + width <= buffered
                        &&& placement.gap == spec_gap(rounds@[l]@, position, width as nat)
                    },
            decreases count - level,
        {
            let level_size = if level < frame_count {
                (frame_count - level - 1) / count + 1
            } else {
                0
            };
            proof {
                let n = frame_count as int;
                let c = count as int;
                let l = level as int;
                assert((n + c - l - 1) / c == if l < n {
                    (n - l - 1) / c + 1
                } else {
                    0
                }) by (nonlinear_arith)
                    requires
                        c > 0,
                        0 <= l < c,
                        n >= 0,
                ;
            }
            let mut placements: Vec<FramePlacement> = Vec::new();
            let mut position: usize = 0;
            while position < level_size
                invariant
                    position <= level_size,
                    level < count,
                    spacing > 0,
                    count == spec_overlapping_frames(width as nat, before.overlap()),
                    width == spacing + before.overlap(),
                    buffered == complete_end + before.overlap() + spacing * frame_count,
                    buffered <= usize::MAX,
                    level_size == spec_level_size(
                        frame_count as nat,
                        count as nat,
                        level as nat,
                    ),
                    placements@.len() == position,
                    forall|p: int|
                        0 <= p < placements@.len() ==> {
                            let placement = #[trigger] placements@[p];
                            &&& placement.frame_index == level + p * count
                            &&& placement.frame_index < frame_count
                            &&& placement.start == complete_end + placement.frame_index * spacing
                            &&& placement.start + width <= buffered
                            &&& placement.gap == spec_gap(placements@, p, width as nat)
                        },
                decreases level_size - position,
            {
                proof {
                    let n = frame_count as int;
                    let c = count as int;
                    let l = level as int;
                    let p = position as int;
                    lemma_quotient_bounds(n + c - l - 1, c, p + 1);
                    assert((p + 1) * c == p * c + c) by (nonlinear_arith);
                    assert(l + p * c < n);
                    assert(0 <= p * c) by (nonlinear_arith)
                        requires
                            p >= 0,
                            c >= 0,
                    ;
                    let f = l + p * c;
                    assert(f * spacing + spacing <= spacing * n) by (nonlinear_arith)
                        requires
                            0 <= f < n,
                            spacing > 0,
                    ;
                    assert(f * spacing >= 0) by (nonlinear_arith)
                        requires
                            f >= 0,
                            spacing > 0,
                    ;
                }
                let frame_index = level + position * count;
                let start = complete_end + frame_index * spacing;
                let gap = if position == 0 {
                    start
                } else {
                    proof {
                        lemma_round_frames_disjoint(
                            width as nat,
                            before.overlap(),
                            complete_end as nat,
                            level as nat,
                            (position - 1) as nat,
                            position as nat,
                        );
                    }
                    start - (placements[position - 1].start + width)
                };
                let ghost filled = placements@;
                placements.push(FramePlacement { frame_index, start, gap });
                proof {
                    assert forall|p: int| 0 <= p < placements@.len() implies (
                    #[trigger] placements@[p]).gap == spec_gap(placements@, p, width as nat) by {
                        if p < filled.len() {
                            assert(placements@[p] == filled[p]);
                            assert(filled[p].gap == spec_gap(filled, p, width as nat));
                            if p > 0 {
                                assert(placements@[p - 1] == filled[p - 1]);
                            }
                        }
                    }
                }
                position += 1;
            }
            rounds.push(placements);
            level += 1;
        }
        proof {
            assert(spacing * frame_count == frame_count * spacing) by (nonlinear_arith);
        }
        rounds
    }

    /// Removes samples from the front of the buffer until one window and the
    /// overlap are left, and returns how many they are. None of them lies
    /// where a later frame is added, and the place of the next frame moves
    /// to the front with what is left.
    pub fn flush_ready(&mut self) -> (ready: usize)
        requires
            old(self).well_formed(),
        ensures
            final(self).well_formed(),
            final(self).same_setup(old(self)),
            ready == if old(self).buffered() > old(self).window_width() + old(self).overlap() {
                old(self).buffered() - old(self).window_width() - old(self).overlap()
            } else {
                0
            },
            final(self).buffered() == old(self).buffered() - ready,
            final(self).buffered() <= old(self).window_width() + old(self).overlap(),
            ready <= old(self).spec_complete_end(),
            final(self).spec_complete_end() == old(self).spec_complete_end() - ready,
    {
        let pending = self.buffered - self.overlap;
        if pending > self.window_width {
            let ready = pending - self.window_width;
            self.buffered = self.buffered - ready;
            ready
        } else {
            0
        }
    }

    /// Ends the synthesis and returns how many samples are left in the
    /// buffer: all of them are emitted.
    pub fn flush_all(self) -> (remaining: usize)
        ensures
            remaining == self.buffered(),
    {
        self.buffered
    }
}

/// Two different frames of one round never share a sample of the buffer.
pub proof fn lemma_round_frames_disjoint(
    window_width: nat,
    overlap: nat,
    complete_end: nat,
    level: nat,
    earlier: nat,
    later: nat,
)
    requires
        overlap < window_width,
        earlier < later,
    ensures
        ({
            let rounds = spec_overlapping_frames(window_width, overlap);
            let spacing = window_width - overlap;
            complete_end + (level + earlier * rounds) * spacing + window_width <= complete_end + (
            level + later * rounds) * spacing
        }),
{
    let rounds = spec_overlapping_frames(window_width, overlap) as int;
    let spacing = window_width - overlap;
    lemma_rounds_span_window(window_width, overlap);
    assert((level + later * rounds) * spacing - (level + earlier * rounds) * spacing == (later
        - earlier) * (rounds * spacing)) by (nonlinear_arith);
    assert((later - earlier) * (rounds * spacing) >= rounds * spacing) by (nonlinear_arith)
        requires
            later - earlier >= 1,
            rounds * spacing >= 0,
    ;
}

/// A schedule places every frame of the batch, places none twice, and puts
/// the frames of one round on stretches of the buffer that follow one
/// another without a common sample.
pub proof fn lemma_schedule_places_each_frame_once(
    rounds: Seq<Vec<FramePlacement>>,
    frame_count: nat,
    window_width: nat,
    overlap: nat,
    complete_end: nat,
)
    requires
        overlap < window_width,
        spec_is_schedule(rounds, frame_count, window_width, overlap, complete_end),
    ensures
        forall|frame_index: nat|
            frame_index < frame_count ==> {
                &&& 0 <= #[trigger] spec_frame_level(rounds.len(), frame_index) < rounds.len()
                &&& 0 <= spec_frame_position(rounds.len(), frame_index) < rounds[spec_frame_level(
                    rounds.len(),
                    frame_index,
                )]@.len()
                &&& rounds[spec_frame_level(rounds.len(), frame_index)]@[spec_frame_position(
                    rounds.len(),
                    frame_index,
                )].frame_index == frame_index
            },
        forall|level: int, position: int, other_level: int, other_position: int|
            0 <= level < rounds.len() && 0 <= position < rounds[level]@.len() && 0 <= other_level
                < rounds.len() && 0 <= other_position < rounds[other_level]@.len() && (
            #[trigger] rounds[level]@[position]).frame_index == (
            #[trigger] rounds[other_level]@[other_position]).frame_index ==> level == other_level
                && position == other_position,
        forall|level: int, earlier: int, later: int|
            0 <= level < rounds.len() && 0 <= earlier < later < rounds[level]@.len() ==> (
            #[trigger] rounds[level]@[earlier]).start + window_width <= (
            #[trigger] rounds[level]@[later]).start,
{
    let round_count = spec_overlapping_frames(window_width, overlap);
    lemma_rounds_span_window(window_width, overlap);
    assert forall|frame_index: nat| frame_index < frame_count implies {
        &&& 0 <= #[trigger] spec_frame_level(rounds.len(), frame_index) < rounds.len()
        &&& 0 <= spec_frame_position(rounds.len(), frame_index) < rounds[spec_frame_level(
            rounds.len(),
            frame_index,
        )]@.len()
        &&& rounds[spec_frame_level(rounds.len(), frame_index)]@[spec_frame_position(
            rounds.len(),
            frame_index,
        )].frame_index == frame_index
    } by {
        lemma_frame_has_one_slot(frame_count, round_count, frame_index);
        let level = (frame_index % round_count) as int;
        let position = (frame_index / round_count) as int;
        assert(rounds[level]@.len() == spec_level_size(frame_count, round_count, level as nat));
        assert(rounds[level]@[position].frame_index == spec_slot_frame(
            round_count,
            level as nat,
            position as nat,
        ));
    }
    assert forall|level: int, position: int, other_level: int, other_position: int|
        0 <= level < rounds.len() && 0 <= position < rounds[level]@.len() && 0 <= other_level
            < rounds.len() && 0 <= other_position < rounds[other_level]@.len() && (
        #[trigger] rounds[level]@[position]).frame_index == (
        #[trigger] rounds[other_level]@[other_position]).frame_index implies level
        == other_level && position == other_position by {
        let frame_index = rounds[level]@[position].frame_index as nat;
        lemma_frame_has_one_slot(frame_count, round_count, frame_index);
        assert(frame_index == spec_slot_frame(round_count, level as nat, position as nat));
        assert(frame_index == spec_slot_frame(
            round_count,
            other_level as nat,
            other_position as nat,
        ));
    }
    assert forall|level: int, earlier: int, later: int|
        0 <= level < rounds.len() && 0 <= earlier < later < rounds[level]@.len() implies (
    #[trigger] rounds[level]@[earlier]).start + window_width <= (
    #[trigger] rounds[level]@[later]).start by {
        lemma_round_frames_disjoint(
            window_width,
            overlap,
            complete_end,
            level as nat,
            earlier as nat,
            later as nat,
        );
    }
}

/// Whether frame `frame_index` covers position `position` of the signal.
pub open spec fn spec_covers(
    window_width: nat,
    overlap: nat,
    frame_index: nat,
    position: nat,
) -> bool {
    let span = spec_frame_span(window_width, overlap, frame_index);
    span.0 <= position < span.1
}

/// Where the frame spacing divides the window width, every position behind
/// the leading overlap and before the start of the frame after the last is
/// covered by the same number of frames: the window width divided by the
/// frame spacing. They are the frames that end the run up to the one that
/// the position falls into by its spacing.
///
/// This is why weights divided by that number add up to unity gain.
pub proof fn lemma_interior_is_covered_evenly(
    window_width: nat,
    overlap: nat,
    frames: nat,
    position: nat,
)
    requires
        overlap < window_width,
        window_width % ((window_width - overlap) as nat) == 0,
        overlap <= position < frames * (window_width - overlap),
    ensures
        ({
            let spacing = (window_width - overlap) as nat;
            let factor = window_width / spacing;
            let last = position / spacing;
            &&& factor >= 1
            &&& factor - 1 <= last < frames
            &&& forall|frame_index: nat|
                #[trigger] spec_covers(window_width, overlap, frame_index, position) <==> last
                    - (factor - 1) <= frame_index <= last
        }),
{
    let spacing = (window_width - overlap) as int;
    let width = window_width as int;
    let factor = width / spacing;
    let last = position as int / spacing;
    let place = position as int;
    assert(width == factor * spacing) by (nonlinear_arith)
        requires
            spacing > 0,
            width % spacing == 0,
            factor == width / spacing,
    ;
    assert(factor >= 1) by (nonlinear_arith)
        requires
            width == factor * spacing,
            width > 0,
            spacing > 0,
    ;
    assert(last * spacing <= place < last * spacing + spacing) by (nonlinear_arith)
        requires
            spacing > 0,
            place >= 0,
            last == place / spacing,
    ;
    assert(last < frames) by (nonlinear_arith)
        requires
            last * spacing <= place,
            place < frames * spacing,
            spacing > 0,
    ;
    assert(factor - 1 <= last) by (nonlinear_arith)
        requires
            width == factor * spacing,
            width - spacing <= place,
            place < last * spacing + spacing,
            spacing > 0,
    ;
    assert forall|frame_index: nat| #[trigger]
        spec_covers(window_width, overlap, frame_index, position) <==> last - (factor - 1)
            <= frame_index <= last by {
        let index = frame_index as int;
        let start = index * spacing;
        if index > last {
            assert(start > place) by (nonlinear_arith)
                requires
                    index >= last + 1,
                    start == index * spacing,
                    place < last * spacing + spacing,
                    spacing > 0,
            ;
        } else if index < last - (factor - 1) {
            assert(start + width <= place) by (nonlinear_arith)
                requires
                    index + factor <= last,
                    start == index * spacing,
                    width == factor * spacing,
                    last * spacing <= place,
                    spacing > 0,
            ;
        } else {
            assert(start <= place < start + width) by (nonlinear_arith)
                requires
                    last - (factor - 1) <= index <= last,
                    start == index * spacing,
                    width == factor * spacing,
                    last * spacing <= place < last * spacing + spacing,
                    spacing > 0,
            ;
        }
    }
}

} // verus!
