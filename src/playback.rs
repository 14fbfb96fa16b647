//! The buffer that a real-time output callback reads from: fixed data and a
//! cursor that only moves forward.

use vstd::prelude::*;

verus! {

/// Cursor after one callback that asks for `k` samples, starting at `c` in a
/// buffer of `n` samples.
pub open spec fn advance(c: nat, n: nat, k: nat) -> nat {
    if c + k <= n { c + k } else { n }
}

/// Cursor after `m` callbacks of `k` samples each, starting from zero.
pub open spec fn cursor_after(n: nat, k: nat, m: nat) -> nat
    decreases m,
{
    if m == 0 { 0 } else { advance(cursor_after(n, k, (m - 1) as nat), n, k) }
}

/// What one callback writes: `k` samples read from `cursor` onwards, with
/// `silence` in every slot past the end of the data.
pub open spec fn fill_spec<T>(data: Seq<T>, cursor: nat, k: nat, silence: T) -> Seq<T> {
    Seq::new(k, |i: int| if cursor + i < data.len() { data[cursor + i] } else { silence })
}

/// Number of callbacks of `k` samples that a buffer of `n` samples lasts:
/// `ceil(n / k)`.
pub open spec fn callbacks_to_drain(n: nat, k: nat) -> nat {
    ((n + k - 1) / k as int) as nat
}

/// Adapted samples for one device and the read position of its stream.
pub struct PlaybackBuffer<T> {
    data: Vec<T>,
    cursor: usize,
}

impl<T: Copy> PlaybackBuffer<T> {
    pub closed spec fn data_view(&self) -> Seq<T> {
        self.data@
    }

    pub closed spec fn cursor_view(&self) -> nat {
        self.cursor as nat
    }

    /// The cursor never passes the end of the data.
    pub open spec fn wf(&self) -> bool {
        self.cursor_view() <= self.data_view().len()
    }

    /// A buffer over `data` with its cursor at the start.
    pub fn new(data: Vec<T>) -> (r: Self)
        ensures
            r.wf(),
            r.data_view() == data@,
            r.cursor_view() == 0,
    {
        PlaybackBuffer { data, cursor: 0 }
    }

    pub fn cursor(&self) -> (r: usize)
        ensures
            r == self.cursor_view(),
    {
        self.cursor
    }

    pub fn len(&self) -> (r: usize)
        ensures
            r == self.data_view().len(),
    {
        self.data.len()
    }

    /// True once every sample has been handed out.
    pub fn is_drained(&self) -> (r: bool)
        requires
            self.wf(),
        ensures
            r == (self.cursor_view() == self.data_view().len()),
    {
        self.cursor == self.data.len()
    }

    /// One callback: writes the next `out.len()` samples into `out`, pads
    /// with `silence` past the end of the data, and moves the cursor by the
    /// number of samples taken from the data.
    pub fn fill(&mut self, out: &mut [T], silence: T)
        requires
            old(self).wf(),
        ensures
            final(self).wf(),
            final(self).data_view() == old(self).data_view(),
            final(self).cursor_view() >= old(self).cursor_view(),
            final(self).cursor_view() == advance(
                old(self).cursor_view(),
                old(self).data_view().len(),
                old(out)@.len(),
            ),
            final(out)@ == fill_spec(
                old(self).data_view(),
                old(self).cursor_view(),
                old(out)@.len(),
                silence,
            ),
    {
        let ghost c0 = self.cursor as nat;
        let ghost expected = fill_spec(self.data@, c0, out@.len(), silence);
        let n: usize = self.data.len();
        let k: usize = out.len();
        let mut idx: usize = self.cursor;
        let mut i: usize = 0;
        while i < k
            invariant
                n == self.data@.len(),
                k == out@.len(),
                c0 <= n,
                expected == fill_spec(self.data@, c0, k as nat, silence),
                i <= k,
                idx as nat == advance(c0, n as nat, i as nat),
                forall|j: int| 0 <= j < i ==> out@[j] == expected[j],
            decreases k - i,
        {
            if idx < n {
                out[i] = self.data[idx];
                idx = idx + 1;
            } else {
                out[i] = silence;
            }
            i = i + 1;
        }
        assert(out@ =~= expected);
        self.cursor = idx;
    }
}

/// Callbacks of `k > 0` samples each drain a buffer of `n` samples after
/// `ceil(n / k)` calls: the cursor then stands at `n`, stays there for every
/// later call, and every later call writes only silence.
pub proof fn lemma_playback_drains<T>(data: Seq<T>, k: nat, silence: T)
    requires
        k > 0,
    ensures
        cursor_after(data.len(), k, callbacks_to_drain(data.len(), k)) == data.len(),
        forall|m: nat|
            m >= callbacks_to_drain(data.len(), k) ==> #[trigger] cursor_after(data.len(), k, m)
                == data.len(),
        forall|i: int|
            0 <= i < k ==> #[trigger] fill_spec(data, data.len(), k, silence)[i] == silence,
{
    let n = data.len();
    assert forall|m: nat| #[trigger] cursor_after(n, k, m) == if m * k <= n { m * k } else { n } by {
        lemma_cursor_after(n, k, m);
    }
    let d = callbacks_to_drain(n, k);
    assert(d * k >= n) by (nonlinear_arith)
        requires d == (n + k - 1) / k as int, k > 0;
    assert forall|m: nat| m >= d implies #[trigger] cursor_after(n, k, m) == n by {
        assert(m * k >= d * k) by (nonlinear_arith)
            requires m >= d, k > 0;
    }
}

proof fn lemma_cursor_after(n: nat, k: nat, m: nat)
    ensures
        cursor_after(n, k, m) == if m * k <= n { m * k } else { n },
    decreases m,
{
    if m > 0 {
        let pm = (m - 1) as nat;
        lemma_cursor_after(n, k, pm);
        assert(pm * k + k == m * k) by (nonlinear_arith)
            requires pm + 1 == m;
        assert(cursor_after(n, k, m) == advance(cursor_after(n, k, pm), n, k));
    } else {
        assert(m * k == 0) by (nonlinear_arith)
            requires m == 0;
    }
}

} // verus!
