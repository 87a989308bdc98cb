//! Sample blocks: the layouts that audio moves between, and the queue that
//! carries it from a capture stream to a playback stream.
//!
//! Nothing here looks at a sample's value, so every function works on any
//! sample type; silence is whatever the caller says it is.

use std::collections::VecDeque;
use vstd::arithmetic::div_mod::{lemma_fundamental_div_mod, lemma_fundamental_div_mod_converse};
use vstd::prelude::*;

verus! {

// ── Plain blocks ────────────────────────────────────────────────────────────

/// A block of `n` equal samples.
pub open spec fn constant<T>(n: nat, x: T) -> Seq<T> {
    Seq::new(n, |i: int| x)
}

/// `s` cut or lengthened to `n` samples; what is added is `x`.
pub open spec fn resized<T>(s: Seq<T>, n: nat, x: T) -> Seq<T> {
    Seq::new(n, |i: int| if i < s.len() { s[i] } else { x })
}

/// A new block of `n` equal samples.
pub fn filled<T: Copy>(n: usize, x: T) -> (r: Vec<T>)
    ensures
        r@ == constant(n as nat, x),
{
    let mut out: Vec<T> = Vec::new();
    let mut i: usize = 0;
    while i < n
        invariant
            i <= n,
            out@ == constant(i as nat, x),
        decreases n - i,
    {
        out.push(x);
        assert(out@ =~= constant((i + 1) as nat, x));
        i = i + 1;
    }
    out
}

/// Sets every sample of a block to `x`.
pub fn fill<T: Copy>(out: &mut [T], x: T)
    ensures
        final(out)@ == constant(old(out)@.len(), x),
{
    let n: usize = out.len();
    let mut i: usize = 0;
    while i < n
        invariant
            n == out@.len(),
            n == old(out)@.len(),
            i <= n,
            forall|j: int| 0 <= j < i ==> out@[j] == x,
        decreases n - i,
    {
        out[i] = x;
        i = i + 1;
    }
    assert(out@ =~= constant(old(out)@.len(), x));
}

/// Cuts or lengthens a block to `n` samples; what is added is `x`.
pub fn resize<T: Copy>(buf: &mut Vec<T>, n: usize, x: T)
    ensures
        final(buf)@ == resized(old(buf)@, n as nat, x),
{
    if n <= buf.len() {
        buf.truncate(n);
        assert(buf@ =~= resized(old(buf)@, n as nat, x));
    } else {
        while buf.len() < n
            invariant
                old(buf)@.len() <= buf@.len() <= n,
                buf@ == resized(old(buf)@, buf@.len(), x),
            decreases n - buf.len(),
        {
            let ghost m = buf@.len();
            buf.push(x);
            assert(buf@ =~= resized(old(buf)@, m + 1, x));
        }
    }
}

// ── Interleaved and per-channel layouts ─────────────────────────────────────

/// A per-channel block of `size` samples that holds the first `channels`
/// channels of `frames` frames of the interleaved block `input`.
///
/// Channel `c` stands at `c * capacity`, frame after frame; what the input
/// does not reach is `silence`. The input has `width` samples a frame.
pub open spec fn planar<T>(
    input: Seq<T>,
    width: int,
    channels: int,
    capacity: int,
    frames: int,
    size: nat,
    silence: T,
) -> Seq<T> {
    Seq::new(
        size,
        |k: int|
            if k / capacity < channels && k % capacity < frames {
                input[(k % capacity) * width + k / capacity]
            } else {
                silence
            },
    )
}

/// Where the sample of frame `frame` and output channel `channel` stands in a
/// per-channel block: channels that the block lacks repeat its first one.
pub open spec fn source_index(frame: int, channel: int, channels: int, capacity: int) -> int {
    (if channel < channels {
        channel
    } else {
        0
    }) * capacity + frame
}

/// An interleaved block: `output` with its first `frames` frames of `width`
/// samples taken from the per-channel block `planes`.
pub open spec fn interleaved<T>(
    planes: Seq<T>,
    channels: int,
    capacity: int,
    frames: int,
    width: int,
    output: Seq<T>,
    silence: T,
) -> Seq<T> {
    Seq::new(
        output.len(),
        |k: int|
            if k / width < frames {
                let i = source_index(k / width, k % width, channels, capacity);
                if i < planes.len() {
                    planes[i]
                } else {
                    silence
                }
            } else {
                output[k]
            },
    )
}

proof fn lemma_position(row: int, column: int, width: int, k: int)
    requires
        0 <= column < width,
        0 <= row,
        k == row * width + column,
    ensures
        k / width == row,
        k % width == column,
{
    lemma_fundamental_div_mod_converse(k, width, row, column);
}

proof fn lemma_row_fits(row: int, rows: int, column: int, width: int)
    requires
        0 <= row < rows,
        0 <= column < width,
    ensures
        0 <= row * width + column < rows * width,
        0 <= row * width <= (rows - 1) * width,
{
    assert(row * width + width <= rows * width && 0 <= row * width) by (nonlinear_arith)
        requires
            0 <= row < rows,
            0 < width,
    ;
    assert(rows * width - width == (rows - 1) * width) by (nonlinear_arith);
}

/// Spreads an interleaved block into a per-channel one.
///
/// `buf` is silent before the call.
pub fn deinterleave<T: Copy>(
    input: &[T],
    width: usize,
    channels: usize,
    capacity: usize,
    frames: usize,
    buf: &mut Vec<T>,
    silence: T,
)
    requires
        old(buf)@ == constant(old(buf)@.len(), silence),
        channels <= width,
        0 < capacity,
        frames <= capacity,
        frames * width <= input@.len(),
        channels * capacity <= old(buf)@.len(),
    ensures
        final(buf)@ == planar(
            input@,
            width as int,
            channels as int,
            capacity as int,
            frames as int,
            old(buf)@.len(),
            silence,
        ),
{
    let ghost size = buf@.len();
    let available: usize = input.len();
    let room: usize = buf.len();
    let mut frame: usize = 0;
    assert forall|k: int| 0 <= k < size implies #[trigger] buf@[k] == silence && k % (
    capacity as int) >= 0 by {
        lemma_fundamental_div_mod(k, capacity as int);
    }
    while frame < frames
        invariant
            frame <= frames <= capacity,
            channels <= width,
            0 < capacity,
            frames * width <= available,
            available == input@.len(),
            channels * capacity <= room,
            room == size,
            buf@.len() == size,
            forall|k: int|
                0 <= k < size ==> #[trigger] buf@[k] == (if k / (capacity as int) < channels && k
                    % (capacity as int) < frame {
                    input@[(k % (capacity as int)) * width + k / (capacity as int)]
                } else {
                    silence
                }),
        decreases frames - frame,
    {
        let mut ch: usize = 0;
        while ch < channels
            invariant
                frame < frames <= capacity,
                ch <= channels <= width,
                0 < capacity,
                frames * width <= available,
                available == input@.len(),
                channels * capacity <= room,
                room == size,
                buf@.len() == size,
                forall|k: int|
                    0 <= k < size ==> #[trigger] buf@[k] == (if (k / (capacity as int) < channels
                        && k % (capacity as int) < frame) || (k / (capacity as int) < ch && k
                        % (capacity as int) == frame) {
                        input@[(k % (capacity as int)) * width + k / (capacity as int)]
                    } else {
                        silence
                    }),
            decreases channels - ch,
        {
            proof {
                lemma_row_fits(frame as int, frames as int, ch as int, width as int);
                lemma_row_fits(ch as int, channels as int, frame as int, capacity as int);
            }
            let from: usize = frame * width + ch;
            let to: usize = ch * capacity + frame;
            let ghost previous = buf@;
            buf[to] = input[from];
            proof {
                lemma_position(ch as int, frame as int, capacity as int, to as int);
                assert forall|k: int| 0 <= k < size implies #[trigger] buf@[k] == (if (k / (
                capacity as int) < channels && k % (capacity as int) < frame) || (k / (
                capacity as int) < ch + 1 && k % (capacity as int) == frame) {
                    input@[(k % (capacity as int)) * width + k / (capacity as int)]
                } else {
                    silence
                }) by {
                    if k != to {
                        assert(buf@[k] == previous[k]);
                        lemma_fundamental_div_mod(k, capacity as int);
                        if k % (capacity as int) == frame && k / (capacity as int) == ch {
                            assert(capacity * (k / (capacity as int)) == ch * capacity)
                                by (nonlinear_arith)
                                requires
                                    k / (capacity as int) == ch,
                            ;
                        }
                    }
                }
            }
            ch = ch + 1;
        }
        frame = frame + 1;
    }
    assert(buf@ =~= planar(
        input@,
        width as int,
        channels as int,
        capacity as int,
        frames as int,
        size,
        silence,
    ));
}

/// Gathers a per-channel block into an interleaved one.
pub fn interleave<T: Copy>(
    planes: &Vec<T>,
    channels: usize,
    capacity: usize,
    frames: usize,
    width: usize,
    output: &mut [T],
    silence: T,
)
    requires
        0 < width,
        frames <= capacity,
        channels * capacity <= planes@.len(),
        frames * width <= usize::MAX,
    ensures
        final(output)@ == interleaved(
            planes@,
            channels as int,
            capacity as int,
            frames as int,
            width as int,
            old(output)@,
            silence,
        ),
{
    let ghost size = output@.len();
    let held: usize = planes.len();
    let mut frame: usize = 0;
    let ghost w = width as int;
    let ghost goal = interleaved(
        planes@,
        channels as int,
        capacity as int,
        frames as int,
        w,
        output@,
        silence,
    );
    while frame < frames
        invariant
            frame <= frames <= capacity,
            0 < width,
            w == width,
            channels * capacity <= held,
            held == planes@.len(),
            frames * width <= usize::MAX,
            output@.len() == size,
            size == old(output)@.len(),
            goal == interleaved(
                planes@,
                channels as int,
                capacity as int,
                frames as int,
                w,
                old(output)@,
                silence,
            ),
            forall|k: int|
                0 <= k < size ==> #[trigger] output@[k] == (if k / w < frame {
                    goal[k]
                } else {
                    old(output)@[k]
                }),
        decreases frames - frame,
    {
        let mut ch: usize = 0;
        while ch < width
            invariant_except_break
                forall|k: int|
                    0 <= k < size ==> #[trigger] output@[k] == (if k / w < frame || (k / w == frame
                        && k % w < ch) {
                        goal[k]
                    } else {
                        old(output)@[k]
                    }),
            invariant
                frame < frames <= capacity,
                ch <= width,
                0 < width,
                w == width,
                channels * capacity <= held,
            held == planes@.len(),
                frames * width <= usize::MAX,
                output@.len() == size,
                size == old(output)@.len(),
                goal == interleaved(
                    planes@,
                    channels as int,
                    capacity as int,
                    frames as int,
                    w,
                    old(output)@,
                    silence,
                ),
            ensures
                forall|k: int|
                    0 <= k < size ==> #[trigger] output@[k] == (if k / w < frame + 1 {
                        goal[k]
                    } else {
                        old(output)@[k]
                    }),
            decreases width - ch,
        {
            proof {
                lemma_row_fits(frame as int, frames as int, ch as int, w);
            }
            let to: usize = frame * width + ch;
            proof {
                lemma_position(frame as int, ch as int, w, to as int);
            }
            if to >= output.len() {
                proof {
                    assert forall|k: int| 0 <= k < size implies #[trigger] output@[k] == (if k / w
                        < frame + 1 {
                        goal[k]
                    } else {
                        old(output)@[k]
                    }) by {
                        lemma_fundamental_div_mod(k, w);
                        if k / w == frame && k % w >= ch {
                            assert(w * (k / w) == frame * width) by (nonlinear_arith)
                                requires
                                    k / w == frame,
                                    w == width,
                            ;
                        }
                    }
                }
                break;
            }
            let source: usize = if ch < channels {
                ch
            } else {
                0
            };
            proof {
                if ch < channels {
                    lemma_row_fits(ch as int, channels as int, frame as int, capacity as int);
                } else {
                    assert(0 * capacity == 0) by (nonlinear_arith);
                }
            }
            let from: usize = source * capacity + frame;
            let sample: T = if from < planes.len() {
                planes[from]
            } else {
                silence
            };
            let ghost previous = output@;
            output[to] = sample;
            proof {
                assert(goal[to as int] == sample);
                assert forall|k: int| 0 <= k < size implies #[trigger] output@[k] == (if k / w
                    < frame || (k / w == frame && k % w < ch + 1) {
                    goal[k]
                } else {
                    old(output)@[k]
                }) by {
                    if k != to {
                        assert(output@[k] == previous[k]);
                        lemma_fundamental_div_mod(k, w);
                        if k / w == frame && k % w == ch {
                            assert(w * (k / w) == frame * width) by (nonlinear_arith)
                                requires
                                    k / w == frame,
                                    w == width,
                            ;
                        }
                    }
                }
            }
            ch = ch + 1;
        }
        frame = frame + 1;
    }
    assert(output@ =~= goal);
}

/// Spreading an interleaved block over all its channels and gathering it
/// again gives back every sample of it.
pub proof fn law_layouts_round_trip<T>(
    input: Seq<T>,
    width: int,
    capacity: int,
    frames: int,
    size: nat,
    output: Seq<T>,
    silence: T,
)
    requires
        0 < width,
        0 <= frames <= capacity,
        frames * width <= input.len(),
        frames * width <= output.len(),
        width * capacity <= size,
    ensures
        interleaved(
            planar(input, width, width, capacity, frames, size, silence),
            width,
            capacity,
            frames,
            width,
            output,
            silence,
        ).take(frames * width) == input.take(frames * width),
{
    let planes = planar(input, width, width, capacity, frames, size, silence);
    let back = interleaved(planes, width, capacity, frames, width, output, silence);
    assert(0 <= frames * width) by (nonlinear_arith)
        requires
            0 <= frames,
            0 < width,
    ;
    assert forall|k: int| 0 <= k < frames * width implies back[k] == input[k] by {
        lemma_fundamental_div_mod(k, width);
        let f = k / width;
        let c = k % width;
        assert(0 <= f < frames) by (nonlinear_arith)
            requires
                k == width * f + c,
                0 <= c < width,
                0 <= k < frames * width,
        ;
        lemma_row_fits(c, width, f, capacity);
        lemma_position(c, f, capacity, c * capacity + f);
        assert(f * width == width * f) by (nonlinear_arith);
    }
    assert(back.take(frames * width) =~= input.take(frames * width));
}

// ── The capture queue ───────────────────────────────────────────────────────

/// How many of `n` samples a queue of `len` samples takes before it holds
/// `max_fill`.
pub open spec fn accepted(len: nat, n: nat, max_fill: nat) -> nat {
    if len >= max_fill {
        0
    } else if n <= max_fill - len {
        n
    } else {
        (max_fill - len) as nat
    }
}

/// A queue after it has been offered `data`.
pub open spec fn fed<T>(queue: Seq<T>, data: Seq<T>, max_fill: nat) -> Seq<T> {
    queue + data.take(accepted(queue.len(), data.len(), max_fill) as int)
}

/// The `n` samples that a queue hands out: its own, then silence.
pub open spec fn handed_out<T>(queue: Seq<T>, n: nat, silence: T) -> Seq<T> {
    resized(queue, n, silence)
}

/// A queue after it has handed out `n` samples.
pub open spec fn left_over<T>(queue: Seq<T>, n: nat) -> Seq<T> {
    if n <= queue.len() {
        queue.skip(n as int)
    } else {
        Seq::empty()
    }
}

/// A first-in first-out queue of samples that refuses what would take it over
/// `max_fill`.
pub struct SampleQueue<T> {
    samples: VecDeque<T>,
    max_fill: usize,
}

impl<T> View for SampleQueue<T> {
    type V = Seq<T>;

    closed spec fn view(&self) -> Seq<T> {
        self.samples@
    }
}

impl<T: Copy> SampleQueue<T> {
    /// The number of samples that the queue may hold.
    pub closed spec fn limit(&self) -> nat {
        self.max_fill as nat
    }

    /// A queue never holds more than its limit.
    pub open spec fn wf(&self) -> bool {
        self@.len() <= self.limit()
    }

    /// An empty queue that may hold `max_fill` samples.
    pub fn new(max_fill: usize) -> (r: Self)
        ensures
            r@ == Seq::<T>::empty(),
            r.limit() == max_fill,
            r.wf(),
    {
        SampleQueue { samples: VecDeque::with_capacity(max_fill), max_fill }
    }

    /// Offers captured samples; those that do not fit are dropped.
    pub fn feed(&mut self, data: &[T])
        ensures
            final(self)@ == fed(old(self)@, data@, old(self).limit()),
            final(self).limit() == old(self).limit(),
            old(self).wf() ==> final(self).wf(),
    {
        let n: usize = data.len();
        let mut i: usize = 0;
        assert(data@.take(0) =~= Seq::<T>::empty());
        assert(self.samples@ =~= old(self).samples@ + Seq::<T>::empty());
        while i < n
            invariant
                n == data@.len(),
                i <= n,
                self.max_fill == old(self).max_fill,
                self.samples@ == old(self).samples@ + data@.take(
                    accepted(old(self).samples@.len(), i as nat, self.max_fill as nat) as int,
                ),
            decreases n - i,
        {
            if self.samples.len() < self.max_fill {
                self.samples.push_back(data[i]);
                assert(data@.take(i + 1) =~= data@.take(i as int).push(data@[i as int]));
                assert(self.samples@ =~= old(self).samples@ + data@.take(i + 1));
            }
            i = i + 1;
        }
    }

    /// Fills a playback block from the front of the queue, and with silence
    /// once the queue is empty.
    pub fn drain_into(&mut self, out: &mut [T], silence: T)
        ensures
            final(out)@ == handed_out(old(self)@, old(out)@.len(), silence),
            final(self)@ == left_over(old(self)@, old(out)@.len()),
            final(self).limit() == old(self).limit(),
            old(self).wf() ==> final(self).wf(),
    {
        let n: usize = out.len();
        let ghost start = self.samples@;
        let mut i: usize = 0;
        assert(start.skip(0) =~= start);
        while i < n
            invariant
                n == out@.len(),
                n == old(out)@.len(),
                i <= n,
                start == old(self).samples@,
                self.max_fill == old(self).max_fill,
                self.samples@ == left_over(start, i as nat),
                forall|j: int|
                    0 <= j < i ==> out@[j] == (if j < start.len() {
                        start[j]
                    } else {
                        silence
                    }),
            decreases n - i,
        {
            let sample: T = match self.samples.pop_front() {
                Some(x) => x,
                None => silence,
            };
            out[i] = sample;
            assert(self.samples@ =~= left_over(start, (i + 1) as nat));
            i = i + 1;
        }
        assert(out@ =~= handed_out(start, n as nat, silence));
    }
}

/// What fits into the queue comes out again, in the order in which it went in
/// and behind what was there before.
pub proof fn law_queue_is_first_in_first_out<T>(
    queue: Seq<T>,
    data: Seq<T>,
    max_fill: nat,
    silence: T,
)
    requires
        queue.len() + data.len() <= max_fill,
    ensures
        handed_out(fed(queue, data, max_fill), queue.len() + data.len(), silence) == queue + data,
        left_over(fed(queue, data, max_fill), queue.len() + data.len()) == Seq::<T>::empty(),
{
    let q = fed(queue, data, max_fill);
    if queue.len() == max_fill {
        assert(data =~= Seq::<T>::empty());
    }
    assert(data.take(data.len() as int) =~= data);
    assert(q =~= queue + data);
    assert(handed_out(q, queue.len() + data.len(), silence) =~= queue + data);
    assert(q.skip(q.len() as int) =~= Seq::<T>::empty());
}

/// Offering two blocks one after the other is the same as offering them as
/// one.
pub proof fn law_queue_takes_blocks_as_one<T>(
    queue: Seq<T>,
    first: Seq<T>,
    second: Seq<T>,
    max_fill: nat,
)
    ensures
        fed(fed(queue, first, max_fill), second, max_fill) == fed(
            queue,
            first + second,
            max_fill,
        ),
{
    let once = fed(queue, first, max_fill);
    let n1 = accepted(queue.len(), first.len(), max_fill) as int;
    let n2 = accepted(once.len(), second.len(), max_fill) as int;
    let n = accepted(queue.len(), (first + second).len(), max_fill) as int;
    assert((first + second).take(n) =~= first.take(n1) + second.take(n2));
    assert(fed(once, second, max_fill) =~= fed(queue, first + second, max_fill));
}

/// Draining a block takes the oldest samples, as many as the block holds, and
/// leaves the others in their order; where there are fewer, all of them come
/// first, then silence, and nothing is left.
pub proof fn law_draining_takes_the_oldest<T>(queue: Seq<T>, n: nat, silence: T)
    ensures
        handed_out(queue, n, silence).len() == n,
        n <= queue.len() ==> handed_out(queue, n, silence) == queue.take(n as int),
        n <= queue.len() ==> left_over(queue, n) == queue.skip(n as int),
        n >= queue.len() ==> handed_out(queue, n, silence) == queue + Seq::new(
            (n - queue.len()) as nat,
            |i: int| silence,
        ),
        n >= queue.len() ==> left_over(queue, n).len() == 0,
{
    if n <= queue.len() {
        assert(handed_out(queue, n, silence) =~= queue.take(n as int));
        assert(left_over(queue, n) =~= queue.skip(n as int));
    }
    if n >= queue.len() {
        assert(handed_out(queue, n, silence) =~= queue + Seq::new(
            (n - queue.len()) as nat,
            |i: int| silence,
        ));
    }
}

/// Draining two blocks one after the other is the same as draining one as long
/// as both.
pub proof fn law_drained_blocks_join<T>(queue: Seq<T>, a: nat, b: nat, silence: T)
    ensures
        handed_out(queue, a + b, silence) == handed_out(queue, a, silence) + handed_out(
            left_over(queue, a),
            b,
            silence,
        ),
        left_over(queue, a + b) == left_over(left_over(queue, a), b),
{
    assert(handed_out(queue, a + b, silence) =~= handed_out(queue, a, silence) + handed_out(
        left_over(queue, a),
        b,
        silence,
    ));
    assert(left_over(queue, a + b) =~= left_over(left_over(queue, a), b));
}

/// What is in the queue stays at its front; of what is offered, the first
/// samples are taken, in order, until the queue is full.
pub proof fn law_feeding_appends_until_full<T>(queue: Seq<T>, data: Seq<T>, max_fill: nat)
    requires
        queue.len() <= max_fill,
    ensures
        fed(queue, data, max_fill).take(queue.len() as int) == queue,
        queue.len() + data.len() <= max_fill ==> fed(queue, data, max_fill) == queue + data,
        queue.len() + data.len() >= max_fill ==> fed(queue, data, max_fill) == (queue + data).take(
            max_fill as int,
        ),
{
    let now = fed(queue, data, max_fill);
    assert(now.take(queue.len() as int) =~= queue);
    if queue.len() + data.len() <= max_fill {
        assert(data.take(data.len() as int) =~= data);
        assert(now =~= queue + data);
    }
    if queue.len() + data.len() >= max_fill {
        assert(now =~= (queue + data).take(max_fill as int));
    }
}

/// A queue that is already over its limit takes nothing.
pub proof fn law_full_queue_takes_nothing<T>(queue: Seq<T>, data: Seq<T>, max_fill: nat)
    requires
        queue.len() >= max_fill,
    ensures
        fed(queue, data, max_fill) == queue,
{
    assert(fed(queue, data, max_fill) =~= queue);
}

/// Resizing keeps the samples that still have room, and adds the given one
/// behind them.
pub proof fn law_resizing_keeps_the_front<T>(s: Seq<T>, n: nat, x: T)
    ensures
        resized(s, n, x).len() == n,
        forall|i: int| 0 <= i < n && i < s.len() ==> #[trigger] resized(s, n, x)[i] == s[i],
        forall|i: int| s.len() <= i < n ==> #[trigger] resized(s, n, x)[i] == x,
        constant(n, x).len() == n,
        forall|i: int| 0 <= i < n ==> #[trigger] constant(n, x)[i] == x,
{
}

/// In a per-channel block, the sample of a frame and channel is the one that
/// stands at that frame and channel of the interleaved block; every place that
/// no frame and channel reaches is silent.
pub proof fn law_planes_hold_the_channels<T>(
    input: Seq<T>,
    width: int,
    channels: int,
    capacity: int,
    frames: int,
    size: nat,
    silence: T,
    frame: int,
    channel: int,
)
    requires
        0 <= frame < capacity,
        0 <= channel,
        channel * capacity + frame < size,
    ensures
        ({
            let sample = planar(input, width, channels, capacity, frames, size, silence)[channel
                * capacity + frame];
            if channel < channels && frame < frames {
                sample == input[frame * width + channel]
            } else {
                sample == silence
            }
        }),
        planar(input, width, channels, capacity, frames, size, silence).len() == size,
{
    lemma_position(channel, frame, capacity, channel * capacity + frame);
    assert(0 <= channel * capacity) by (nonlinear_arith)
        requires
            0 <= channel,
            0 < capacity,
    ;
}

/// In an interleaved block, the sample of a frame and channel is the one of
/// that channel and frame of the per-channel block, or of its first channel
/// where it has no such channel. Samples behind the last frame stay.
pub proof fn law_frames_hold_the_channels<T>(
    planes: Seq<T>,
    channels: int,
    capacity: int,
    frames: int,
    width: int,
    output: Seq<T>,
    silence: T,
    frame: int,
    channel: int,
)
    requires
        0 <= channel < width,
        0 <= frame,
        0 <= frames <= capacity,
        0 < channels,
        channels * capacity <= planes.len(),
        frame * width + channel < output.len(),
    ensures
        interleaved(planes, channels, capacity, frames, width, output, silence).len()
            == output.len(),
        ({
            let sample = interleaved(
                planes,
                channels,
                capacity,
                frames,
                width,
                output,
                silence,
            )[frame * width + channel];
            if frame >= frames {
                sample == output[frame * width + channel]
            } else if channel < channels {
                sample == planes[channel * capacity + frame]
            } else {
                sample == planes[frame]
            }
        }),
{
    lemma_position(frame, channel, width, frame * width + channel);
    assert(0 <= frame * width) by (nonlinear_arith)
        requires
            0 <= frame,
            0 < width,
    ;
    if frame < frames {
        let c = if channel < channels {
            channel
        } else {
            0
        };
        lemma_row_fits(c, channels, frame, capacity);
        assert(0 * capacity == 0);
    }
}

} // verus!
