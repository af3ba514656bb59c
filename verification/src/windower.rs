//! Assembly of an audio stream into fixed-size analysis windows.
//!
//! Samples arrive in chunks of any size. The windower cuts the stream into
//! consecutive windows of `window_size` samples with no overlap and no gap:
//! every sample belongs to exactly one window. What does not fill a window yet
//! is carried over to the next chunk.

use vstd::arithmetic::div_mod::lemma_fundamental_div_mod;
use vstd::arithmetic::div_mod::lemma_fundamental_div_mod_converse;
use vstd::prelude::*;

verus! {

/// The complete windows of `window_size` samples at the front of `stream`.
pub open spec fn complete_windows<T>(stream: Seq<T>, window_size: nat) -> Seq<Seq<T>> {
    Seq::new(
        stream.len() / window_size,
        |i: int| stream.subrange(i * window_size, i * window_size + window_size),
    )
}

/// The samples of `stream` behind its last complete window.
pub open spec fn leftover<T>(stream: Seq<T>, window_size: nat) -> Seq<T> {
    stream.subrange(((stream.len() / window_size) * window_size) as int, stream.len() as int)
}

/// The sequences of `parts` laid end to end.
pub open spec fn concat<T>(parts: Seq<Seq<T>>) -> Seq<T>
    decreases parts.len(),
{
    if parts.len() == 0 {
        Seq::empty()
    } else {
        concat(parts.drop_last()) + parts.last()
    }
}

/// The contents of each vector of `windows`.
pub open spec fn window_views<T>(windows: Seq<Vec<T>>) -> Seq<Seq<T>> {
    Seq::new(windows.len(), |i: int| windows[i]@)
}

/// Whether `result` is what a call of `on_window` on a window holding
/// `samples` returned.
pub open spec fn returned_for<T, R, F: Fn(&Vec<T>) -> R>(
    on_window: F,
    samples: Seq<T>,
    result: R,
) -> bool {
    exists|window: Vec<T>|
        #[trigger] window@ == samples && call_ensures(on_window, (&window,), result)
}

/// What a [`Windower`] holds, as mathematical values.
pub struct WindowerView<T> {
    /// Number of samples per window.
    pub window_size: nat,
    /// The samples received since the last complete window.
    pub pending: Seq<T>,
}

impl<T> WindowerView<T> {
    /// Windows are not empty, and a full window never stays pending.
    pub open spec fn wf(self) -> bool {
        self.window_size >= 1 && self.pending.len() < self.window_size
    }

    /// The windows completed by feeding `chunk`, in stream order.
    pub open spec fn emitted(self, chunk: Seq<T>) -> Seq<Seq<T>> {
        complete_windows(self.pending + chunk, self.window_size)
    }

    /// The state after feeding `chunk`.
    pub open spec fn feed(self, chunk: Seq<T>) -> WindowerView<T> {
        WindowerView { pending: leftover(self.pending + chunk, self.window_size), ..self }
    }

    /// The state after feeding each chunk of `chunks`, in order.
    pub open spec fn feed_all(self, chunks: Seq<Seq<T>>) -> WindowerView<T>
        decreases chunks.len(),
    {
        if chunks.len() == 0 {
            self
        } else {
            self.feed_all(chunks.drop_last()).feed(chunks.last())
        }
    }

    /// The windows completed while feeding each chunk of `chunks`, in order.
    pub open spec fn emitted_all(self, chunks: Seq<Seq<T>>) -> Seq<Seq<T>>
        decreases chunks.len(),
    {
        if chunks.len() == 0 {
            Seq::empty()
        } else {
            self.emitted_all(chunks.drop_last()) + self.feed_all(chunks.drop_last()).emitted(
                chunks.last(),
            )
        }
    }
}

/// Window `i` of `count` lies inside the first `count` windows' span.
proof fn lemma_window_span(i: int, count: int, size: int)
    requires
        0 <= i < count,
        0 <= size,
    ensures
        0 <= i * size,
        i * size + size <= count * size,
{
    assert(0 <= i * size && i * size + size <= count * size) by (nonlinear_arith)
        requires
            0 <= i < count,
            0 <= size,
    ;
}

/// The complete windows of a stream followed by its leftover are the stream:
/// the windows have `window_size` samples each, and together with the
/// leftover they hold every sample once, in order.
pub proof fn lemma_windows_partition<T>(stream: Seq<T>, window_size: nat)
    requires
        window_size >= 1,
    ensures
        complete_windows(stream, window_size).len() == stream.len() / window_size,
        forall|i: int|
            0 <= i < complete_windows(stream, window_size).len() ==> (#[trigger] complete_windows(
                stream,
                window_size,
            )[i]).len() == window_size,
        leftover(stream, window_size).len() == stream.len() % window_size,
        concat(complete_windows(stream, window_size)) + leftover(stream, window_size) == stream,
{
    let n = window_size as int;
    let count = stream.len() as int / n;
    lemma_fundamental_div_mod(stream.len() as int, n);
    assert(n * count == count * n) by (nonlinear_arith);
    let windows = complete_windows(stream, window_size);
    assert forall|i: int| 0 <= i < windows.len() implies (#[trigger] windows[i]).len() == n by {
        lemma_window_span(i, count, n);
    }
    lemma_windows_prefix(stream, window_size, count);
    assert(windows.take(count) =~= windows);
    assert(stream.subrange(0, count * n) + leftover(stream, window_size) =~= stream);
}

/// The first `upto` complete windows, laid end to end, are the first
/// `upto * window_size` samples of the stream.
proof fn lemma_windows_prefix<T>(stream: Seq<T>, window_size: nat, upto: int)
    requires
        window_size >= 1,
        0 <= upto <= stream.len() / window_size,
    ensures
        0 <= upto * window_size <= stream.len(),
        concat(complete_windows(stream, window_size).take(upto)) == stream.subrange(
            0,
            upto * window_size,
        ),
    decreases upto,
{
    let n = window_size as int;
    let count = stream.len() as int / n;
    let windows = complete_windows(stream, window_size);
    lemma_fundamental_div_mod(stream.len() as int, n);
    assert(n * count == count * n) by (nonlinear_arith);
    if upto == 0 {
        assert(upto * n == 0) by (nonlinear_arith)
            requires
                upto == 0,
        ;
        assert(windows.take(0) =~= Seq::<Seq<T>>::empty());
        assert(concat(windows.take(0)) =~= stream.subrange(0, 0));
    } else {
        lemma_windows_prefix(stream, window_size, upto - 1);
        lemma_window_span(upto - 1, count, n);
        assert((upto - 1) * n + n == upto * n) by (nonlinear_arith);
        assert(upto * n <= stream.len());
        let head = windows.take(upto);
        assert(head.drop_last() =~= windows.take(upto - 1));
        assert(head.last() == stream.subrange((upto - 1) * n, (upto - 1) * n + n));
        assert(concat(head) =~= stream.subrange(0, upto * n));
    }
}

/// Feeding a chunk leaves less than a window pending.
pub proof fn lemma_feed_wf<T>(view: WindowerView<T>, chunk: Seq<T>)
    requires
        view.wf(),
    ensures
        view.feed(chunk).wf(),
        view.feed(chunk).window_size == view.window_size,
{
    lemma_windows_partition(view.pending + chunk, view.window_size);
}

/// Feeding two chunks one after the other completes the same windows, and
/// leaves the same samples pending, as feeding them joined into one chunk.
pub proof fn lemma_feed_split<T>(view: WindowerView<T>, first: Seq<T>, second: Seq<T>)
    requires
        view.wf(),
    ensures
        view.feed(first).wf(),
        view.emitted(first) + view.feed(first).emitted(second) == view.emitted(first + second),
        view.feed(first).feed(second) == view.feed(first + second),
{
    let n = view.window_size as int;
    let early = view.pending + first;
    let whole = view.pending + (first + second);
    let k = early.len() as int / n;
    let rest = leftover(early, view.window_size);
    let late = rest + second;
    let m = late.len() as int / n;
    lemma_fundamental_div_mod(early.len() as int, n);
    lemma_fundamental_div_mod(late.len() as int, n);
    assert(n * k == k * n) by (nonlinear_arith);
    assert(n * m == m * n) by (nonlinear_arith);
    assert((k + m) * n == k * n + m * n) by (nonlinear_arith);
    assert(rest.len() == early.len() as int % n);
    lemma_fundamental_div_mod_converse(whole.len() as int, n, k + m, late.len() as int % n);
    assert(whole =~= early + second);
    assert forall|t: int| 0 <= t < late.len() implies late[t] == whole[k * n + t] by {}
    let joined = view.emitted(first) + view.feed(first).emitted(second);
    let direct = view.emitted(first + second);
    assert(joined.len() == direct.len());
    assert forall|i: int| 0 <= i < direct.len() implies joined[i] == direct[i] by {
        if i < k {
            lemma_window_span(i, k, n);
            assert(joined[i] =~= direct[i]);
        } else {
            lemma_window_span(i - k, m, n);
            assert((i - k) * n == i * n - k * n) by (nonlinear_arith);
            assert(joined[i] == late.subrange((i - k) * n, (i - k) * n + n));
            assert(joined[i] =~= direct[i]);
        }
    }
    assert(joined =~= direct);
    assert(view.feed(first).feed(second).pending =~= view.feed(first + second).pending);
}

/// However a stream is cut into chunks, feeding the chunks one by one
/// completes the same windows, and leaves the same samples pending, as
/// feeding the whole stream as a single chunk.
pub proof fn lemma_chunking_is_irrelevant<T>(view: WindowerView<T>, chunks: Seq<Seq<T>>)
    requires
        view.wf(),
    ensures
        view.feed_all(chunks).wf(),
        view.emitted_all(chunks) == view.emitted(concat(chunks)),
        view.feed_all(chunks) == view.feed(concat(chunks)),
    decreases chunks.len(),
{
    if chunks.len() == 0 {
        assert(view.pending + concat(chunks) =~= view.pending);
        lemma_fundamental_div_mod_converse(
            view.pending.len() as int,
            view.window_size as int,
            0,
            view.pending.len() as int,
        );
        assert(view.emitted(concat(chunks)) =~= Seq::<Seq<T>>::empty());
        assert(view.feed(concat(chunks)).pending =~= view.pending);
    } else {
        lemma_chunking_is_irrelevant(view, chunks.drop_last());
        lemma_feed_split(view, concat(chunks.drop_last()), chunks.last());
        lemma_feed_wf(view, concat(chunks));
    }
}

/// When the chunk sizes add up to a multiple of the window size, a windower
/// that starts empty completes exactly `total / window_size` windows, each of
/// `window_size` samples, and the windows laid end to end are the chunks laid
/// end to end: no sample is dropped, repeated or moved. Nothing stays pending.
pub proof fn lemma_whole_windows<T>(window_size: nat, chunks: Seq<Seq<T>>)
    requires
        window_size >= 1,
        concat(chunks).len() % window_size == 0,
    ensures
        ({
            let fresh = WindowerView::<T> { window_size, pending: Seq::empty() };
            let windows = fresh.emitted_all(chunks);
            &&& windows.len() == concat(chunks).len() / window_size
            &&& forall|i: int| 0 <= i < windows.len() ==> (#[trigger] windows[i]).len() == window_size
            &&& concat(windows) == concat(chunks)
            &&& fresh.feed_all(chunks).pending == Seq::<T>::empty()
        }),
{
    let fresh = WindowerView::<T> { window_size, pending: Seq::empty() };
    let stream = concat(chunks);
    lemma_chunking_is_irrelevant(fresh, chunks);
    assert(fresh.pending + stream =~= stream);
    lemma_windows_partition(stream, window_size);
    assert(leftover(stream, window_size) =~= Seq::<T>::empty());
    assert(concat(complete_windows(stream, window_size)) + Seq::<T>::empty() =~= concat(
        complete_windows(stream, window_size),
    ));
}

/// Accumulates samples into consecutive windows of a fixed size.
pub struct Windower<T> {
    window_size: usize,
    buffer: Vec<T>,
}

impl<T> View for Windower<T> {
    type V = WindowerView<T>;

    closed spec fn view(&self) -> WindowerView<T> {
        WindowerView { window_size: self.window_size as nat, pending: self.buffer@ }
    }
}

impl<T: Copy> Windower<T> {
    /// Creates a windower with nothing pending.
    pub fn new(window_size: usize) -> (windower: Self)
        requires
            window_size >= 1,
        ensures
            windower@ == (WindowerView::<T> { window_size: window_size as nat, pending: Seq::empty() }),
            windower@.wf(),
    {
        Windower { window_size, buffer: Vec::new() }
    }

    /// Number of samples per window.
    pub fn window_size(&self) -> (n: usize)
        ensures
            n == self@.window_size,
    {
        self.window_size
    }

    /// Number of samples waiting for their window to fill.
    pub fn pending_len(&self) -> (n: usize)
        ensures
            n == self@.pending.len(),
    {
        self.buffer.len()
    }

    /// Takes in one chunk and hands out the windows it completes, in stream
    /// order. A chunk may complete no window, one, or several.
    pub fn feed(&mut self, chunk: &[T]) -> (windows: Vec<Vec<T>>)
        requires
            old(self)@.wf(),
        ensures
            window_views(windows@) == old(self)@.emitted(chunk@),
            final(self)@ == old(self)@.feed(chunk@),
            final(self)@.wf(),
    {
        let ghost before = self@;
        let mut windows: Vec<Vec<T>> = Vec::new();
        let mut i: usize = 0;
        proof {
            assert(chunk@.take(0) =~= Seq::<T>::empty());
            lemma_chunking_is_irrelevant(before, Seq::<Seq<T>>::empty());
        }
        while i < chunk.len()
            invariant
                i <= chunk.len(),
                before.wf(),
                self@.window_size == before.window_size,
                window_views(windows@) == before.emitted(chunk@.take(i as int)),
                self@ == before.feed(chunk@.take(i as int)),
                self@.wf(),
            decreases chunk.len() - i,
        {
            let sample: T = chunk[i];
            let ghost carried = self@;
            let ghost done = window_views(windows@);
            proof {
                lemma_feed_split(before, chunk@.take(i as int), seq![sample]);
                assert(chunk@.take(i as int) + seq![sample] =~= chunk@.take(i + 1));
                lemma_single_sample(carried, sample);
            }
            self.buffer.push(sample);
            if self.buffer.len() == self.window_size {
                let mut window: Vec<T> = Vec::new();
                std::mem::swap(&mut self.buffer, &mut window);
                windows.push(window);
                assert(window_views(windows@) =~= done + seq![carried.pending.push(sample)]);
            } else {
                assert(window_views(windows@) =~= done + Seq::<Seq<T>>::empty());
            }
            i += 1;
        }
        assert(chunk@.take(chunk@.len() as int) =~= chunk@);
        windows
    }

    /// Takes in one chunk and calls `on_window` once on each window it
    /// completes, in stream order, before returning. The results of the calls
    /// are handed back in the same order.
    pub fn feed_with<R, F: Fn(&Vec<T>) -> R>(&mut self, chunk: &[T], on_window: F) -> (results:
        Vec<R>)
        requires
            old(self)@.wf(),
            forall|window: Vec<T>|
                window@.len() == old(self)@.window_size ==> call_requires(on_window, (&window,)),
        ensures
            final(self)@ == old(self)@.feed(chunk@),
            final(self)@.wf(),
            results@.len() == old(self)@.emitted(chunk@).len(),
            forall|i: int|
                0 <= i < results@.len() ==> returned_for(
                    on_window,
                    old(self)@.emitted(chunk@)[i],
                    #[trigger] results@[i],
                ),
    {
        let ghost before = self@;
        let windows: Vec<Vec<T>> = self.feed(chunk);
        proof {
            lemma_windows_partition(before.pending + chunk@, before.window_size);
        }
        let mut results: Vec<R> = Vec::new();
        let mut i: usize = 0;
        while i < windows.len()
            invariant
                i <= windows.len(),
                results@.len() == i,
                window_views(windows@) == before.emitted(chunk@),
                forall|j: int|
                    0 <= j < windows@.len() ==> (#[trigger] before.emitted(chunk@)[j]).len()
                        == before.window_size,
                forall|window: Vec<T>|
                    window@.len() == before.window_size ==> call_requires(on_window, (&window,)),
                forall|j: int|
                    0 <= j < i ==> returned_for(
                        on_window,
                        before.emitted(chunk@)[j],
                        #[trigger] results@[j],
                    ),
            decreases windows.len() - i,
        {
            assert(window_views(windows@)[i as int] == windows@[i as int]@);
            let result: R = on_window(&windows[i]);
            assert(returned_for(on_window, before.emitted(chunk@)[i as int], result));
            results.push(result);
            i += 1;
        }
        results
    }
}

/// One more sample completes a window exactly when it is the last one
/// missing, and is carried over otherwise.
proof fn lemma_single_sample<T>(view: WindowerView<T>, sample: T)
    requires
        view.wf(),
    ensures
        view.pending.len() + 1 == view.window_size ==> {
            &&& view.emitted(seq![sample]) == seq![view.pending.push(sample)]
            &&& view.feed(seq![sample]).pending == Seq::<T>::empty()
        },
        view.pending.len() + 1 < view.window_size ==> {
            &&& view.emitted(seq![sample]) == Seq::<Seq<T>>::empty()
            &&& view.feed(seq![sample]).pending == view.pending.push(sample)
        },
{
    let n = view.window_size as int;
    let stream = view.pending + seq![sample];
    assert(stream =~= view.pending.push(sample));
    if view.pending.len() + 1 == view.window_size {
        lemma_fundamental_div_mod_converse(stream.len() as int, n, 1, 0);
        assert(0 * n == 0) by (nonlinear_arith);
        assert(stream.subrange(0 * n, 0 * n + n) =~= stream);
        assert(view.emitted(seq![sample]) =~= seq![view.pending.push(sample)]);
        assert(view.feed(seq![sample]).pending =~= Seq::<T>::empty());
    } else {
        lemma_fundamental_div_mod_converse(stream.len() as int, n, 0, stream.len() as int);
        assert(view.emitted(seq![sample]) =~= Seq::<Seq<T>>::empty());
        assert(view.feed(seq![sample]).pending =~= view.pending.push(sample));
    }
}

} // verus!
