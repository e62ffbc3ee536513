//! The frame reader: multiplexes several byte streams into whole frames.
//!
//! Each input owns an accumulating buffer of one frame's capacity. The host
//! polls the inputs and feeds what it read into this state machine, one
//! pass per poll; the machine decides which input wins the next frame, when
//! partial frames are discarded, and when the stream ends. No caller ever
//! observes a torn frame: a frame leaves only when its buffer is full.

use vstd::prelude::*;

verus! {

/// When the reader reports the end of the stream.
#[derive(Copy, Clone, Debug, PartialEq, Eq, Structural)]
pub enum ExitCondition {
    /// Never: keep waiting even with every input closed.
    Never,
    /// As soon as any input has closed and no frame is ready.
    OneClosed,
    /// Only when every input has closed.
    AllClosed,
}

/// The total number of bytes waiting in a list of buffers.
pub open spec fn sum_lens(bufs: Seq<Seq<u8>>) -> int
    decreases bufs.len(),
{
    if bufs.len() == 0 {
        0
    } else {
        sum_lens(bufs.drop_last()) + bufs.last().len()
    }
}

/// Updating one buffer moves the total by the difference of that buffer.
proof fn lemma_sum_lens_update(bufs: Seq<Seq<u8>>, i: int, v: Seq<u8>)
    requires
        0 <= i < bufs.len(),
    ensures
        sum_lens(bufs.update(i, v)) == sum_lens(bufs) - bufs[i].len() + v.len(),
    decreases bufs.len(),
{
    let updated = bufs.update(i, v);
    if i == bufs.len() - 1 {
        assert(updated.drop_last() =~= bufs.drop_last());
        assert(updated.last() == v);
    } else {
        assert(updated.drop_last() =~= bufs.drop_last().update(i, v));
        assert(updated.last() == bufs.last());
        lemma_sum_lens_update(bufs.drop_last(), i, v);
    }
}

/// A list of empty buffers holds no bytes.
proof fn lemma_sum_lens_empty(bufs: Seq<Seq<u8>>)
    requires
        forall|i: int| 0 <= i < bufs.len() ==> (#[trigger] bufs[i]).len() == 0,
    ensures
        sum_lens(bufs) == 0,
    decreases bufs.len(),
{
    if bufs.len() > 0 {
        lemma_sum_lens_empty(bufs.drop_last());
    }
}

/// The reader's state between passes.
pub struct Reader {
    exit_condition: ExitCondition,
    /// The number of bytes that make one frame.
    switch_after: usize,
    /// One accumulating buffer per input.
    buffers: Vec<Vec<u8>>,
    /// Milliseconds after which a partially received frame is discarded.
    clear_timeout: Option<u64>,
    /// How many inputs this pass still counts as open.
    num_open: usize,
    /// The input whose buffer filled first in this pass, if any.
    winner: Option<usize>,
    /// How many bytes the inputs have delivered and not been cleared.
    delivered: Ghost<int>,
    /// How many whole frames have left the reader.
    taken: Ghost<int>,
}

/// The byte sequences held by a list of buffers.
pub open spec fn views_of(bufs: Seq<Vec<u8>>) -> Seq<Seq<u8>> {
    Seq::new(bufs.len(), |i: int| bufs[i]@)
}

impl Reader {
    /// The per-input buffers.
    pub closed spec fn spec_buffers(&self) -> Seq<Seq<u8>> {
        views_of(self.buffers@)
    }

    /// The frame size.
    pub closed spec fn spec_switch_after(&self) -> int {
        self.switch_after as int
    }

    /// The configured exit condition.
    pub closed spec fn spec_exit_condition(&self) -> ExitCondition {
        self.exit_condition
    }

    /// The configured clear timeout, in milliseconds.
    pub closed spec fn spec_clear_timeout(&self) -> Option<u64> {
        self.clear_timeout
    }

    /// How many inputs this pass still counts as open.
    pub closed spec fn spec_num_open(&self) -> int {
        self.num_open as int
    }

    /// The winning input of this pass, if one filled its buffer.
    pub closed spec fn spec_winner(&self) -> Option<usize> {
        self.winner
    }

    /// Bytes delivered by the inputs since the last clear.
    pub closed spec fn spec_delivered(&self) -> int {
        self.delivered@
    }

    /// Whole frames the reader has produced.
    pub closed spec fn spec_taken(&self) -> int {
        self.taken@
    }

    /// The reader's invariant: at least one input, a positive frame size,
    /// no buffer beyond one frame, a winner only with a full buffer — and
    /// conservation: every delivered byte is in a produced frame or still
    /// buffered.
    pub open spec fn wf(&self) -> bool {
        &&& self.spec_buffers().len() >= 1
        &&& self.spec_switch_after() >= 1
        &&& self.spec_num_open() <= self.spec_buffers().len()
        &&& forall|i: int|
            0 <= i < self.spec_buffers().len() ==> (#[trigger] self.spec_buffers()[i]).len()
                <= self.spec_switch_after()
        &&& (self.spec_winner() matches Some(w) ==> w < self.spec_buffers().len()
            && self.spec_buffers()[w as int].len() == self.spec_switch_after())
        &&& self.spec_taken() >= 0
        &&& self.spec_delivered() == self.spec_taken() * self.spec_switch_after() + sum_lens(
            self.spec_buffers(),
        )
    }

    /// A reader over `num_inputs` streams producing frames of
    /// `switch_after` bytes.
    pub fn from(
        num_inputs: usize,
        switch_after: usize,
        exit_condition: ExitCondition,
        clear_timeout: Option<u64>,
    ) -> (r: Reader)
        requires
            num_inputs >= 1,
            switch_after >= 1,
        ensures
            r.wf(),
            r.spec_buffers().len() == num_inputs,
            forall|i: int| 0 <= i < num_inputs ==> (#[trigger] r.spec_buffers()[i]).len() == 0,
            r.spec_switch_after() == switch_after,
            r.spec_exit_condition() == exit_condition,
            r.spec_clear_timeout() == clear_timeout,
            r.spec_delivered() == 0,
            r.spec_taken() == 0,
            r.spec_winner() is None,
    {
        let mut buffers: Vec<Vec<u8>> = Vec::new();
        let mut i: usize = 0;
        while i < num_inputs
            invariant
                i <= num_inputs,
                buffers@.len() == i,
                forall|m: int| 0 <= m < i ==> (#[trigger] buffers@[m])@.len() == 0,
            decreases num_inputs - i,
        {
            buffers.push(Vec::new());
            i += 1;
        }
        let r = Reader {
            exit_condition,
            switch_after,
            buffers,
            clear_timeout,
            num_open: num_inputs,
            winner: None,
            delivered: Ghost(0),
            taken: Ghost(0),
        };
        proof {
            lemma_sum_lens_empty(r.spec_buffers());
        }
        r
    }

    /// The number of inputs.
    pub fn num_inputs(&self) -> (n: usize)
        ensures
            n == self.spec_buffers().len(),
    {
        self.buffers.len()
    }

    /// Start a poll pass: every input counts as open again, and no winner
    /// has been found.
    pub fn begin_pass(&mut self)
        requires
            old(self).wf(),
        ensures
            final(self).wf(),
            final(self).spec_buffers() == old(self).spec_buffers(),
            final(self).spec_switch_after() == old(self).spec_switch_after(),
            final(self).spec_exit_condition() == old(self).spec_exit_condition(),
            final(self).spec_clear_timeout() == old(self).spec_clear_timeout(),
            final(self).spec_num_open() == final(self).spec_buffers().len(),
            final(self).spec_winner() is None,
            final(self).spec_delivered() == old(self).spec_delivered(),
            final(self).spec_taken() == old(self).spec_taken(),
    {
        self.num_open = self.buffers.len();
        self.winner = None;
    }

    /// The poll timed out: every partially received frame is discarded, so
    /// no caller ever sees bytes of a torn frame.
    pub fn on_timeout(&mut self)
        requires
            old(self).wf(),
        ensures
            final(self).wf(),
            final(self).spec_buffers().len() == old(self).spec_buffers().len(),
            forall|i: int|
                #![trigger final(self).spec_buffers()[i]]
                0 <= i < final(self).spec_buffers().len() ==> final(self).spec_buffers()[i].len()
                    == 0,
            final(self).spec_switch_after() == old(self).spec_switch_after(),
            final(self).spec_exit_condition() == old(self).spec_exit_condition(),
            final(self).spec_num_open() == old(self).spec_num_open(),
            final(self).spec_winner() is None,
            final(self).spec_taken() == old(self).spec_taken(),
    {
        let n = self.buffers.len();
        let mut i: usize = 0;
        while i < n
            invariant
                i <= n,
                self.buffers@.len() == n,
                forall|m: int| 0 <= m < i ==> (#[trigger] self.buffers@[m])@.len() == 0,
                self.switch_after == old(self).switch_after,
                self.exit_condition == old(self).exit_condition,
                self.clear_timeout == old(self).clear_timeout,
                self.num_open == old(self).num_open,
                self.taken == old(self).taken,
            decreases n - i,
        {
            self.buffers[i].clear();
            i += 1;
        }
        self.winner = None;
        proof {
            lemma_sum_lens_empty(self.spec_buffers());
        }
        self.delivered = Ghost(self.taken@ * self.spec_switch_after());
    }

    /// How many more bytes input `i` may deliver before its frame is full.
    pub fn capacity_remaining(&self, i: usize) -> (n: usize)
        requires
            self.wf(),
            i < self.spec_buffers().len(),
        ensures
            n == self.spec_switch_after() - self.spec_buffers()[i as int].len(),
    {
        proof {
            assert(self.spec_buffers()[i as int] == self.buffers@[i as int]@);
        }
        self.switch_after - self.buffers[i].len()
    }

    /// Input `i` delivered bytes: append them to its buffer. When the
    /// buffer reaches a whole frame, that input wins the pass.
    pub fn on_data(&mut self, i: usize, data: &Vec<u8>) -> (won: bool)
        requires
            old(self).wf(),
            i < old(self).spec_buffers().len(),
            old(self).spec_winner() is None,
            data@.len() <= old(self).spec_switch_after() - old(self).spec_buffers()[
                i as int
            ].len(),
        ensures
            final(self).wf(),
            final(self).spec_buffers() == old(self).spec_buffers().update(
                i as int,
                old(self).spec_buffers()[i as int] + data@,
            ),
            final(self).spec_switch_after() == old(self).spec_switch_after(),
            final(self).spec_exit_condition() == old(self).spec_exit_condition(),
            final(self).spec_num_open() == old(self).spec_num_open(),
            final(self).spec_taken() == old(self).spec_taken(),
            final(self).spec_delivered() == old(self).spec_delivered() + data@.len(),
            won <==> final(self).spec_buffers()[i as int].len()
                == final(self).spec_switch_after(),
            won ==> final(self).spec_winner() == Some(i),
            !won ==> final(self).spec_winner() is None,
    {
        let ghost before = self.spec_buffers();
        let mut k: usize = 0;
        let add = data.len();
        while k < add
            invariant
                k <= add,
                add == data@.len(),
                i < self.buffers@.len(),
                before.len() == self.buffers@.len(),
                before[i as int].len() + add <= self.switch_after,
                self.spec_buffers() == before.update(i as int, before[i as int] + data@.subrange(
                    0,
                    k as int,
                )),
                self.switch_after == old(self).switch_after,
                self.exit_condition == old(self).exit_condition,
                self.clear_timeout == old(self).clear_timeout,
                self.num_open == old(self).num_open,
                self.winner == old(self).winner,
                self.taken == old(self).taken,
                self.delivered == old(self).delivered,
            decreases add - k,
        {
            let b = data[k];
            let ghost head = self.buffers@;
            self.buffers[i].push(b);
            proof {
                let target = before.update(
                    i as int,
                    before[i as int] + data@.subrange(0, k as int + 1),
                );
                assert(views_of(head) == before.update(
                    i as int,
                    before[i as int] + data@.subrange(0, k as int),
                ));
                assert(self.buffers@[i as int]@ == head[i as int]@.push(b));
                assert forall|m: int| 0 <= m < self.buffers@.len() implies views_of(
                    self.buffers@,
                )[m] == target[m] by {
                    if m == i {
                        assert(head[m]@ == views_of(head)[m]);
                        assert(head[m]@.push(b) =~= before[i as int] + data@.subrange(
                            0,
                            k as int + 1,
                        ));
                    } else {
                        assert(self.buffers@[m] == head[m]);
                        assert(views_of(head)[m] == head[m]@);
                    }
                }
                assert(self.spec_buffers() =~= target);
            }
            k += 1;
        }
        proof {
            assert(data@.subrange(0, add as int) =~= data@);
            lemma_sum_lens_update(before, i as int, before[i as int] + data@);
        }
        self.delivered = Ghost(self.delivered@ + add as int);
        let won = self.buffers[i].len() == self.switch_after;
        if won {
            self.winner = Some(i);
        }
        won
    }

    /// An input reported end of stream, an error or a hangup this pass:
    /// one slot fewer counts as open.
    pub fn on_closed(&mut self)
        requires
            old(self).wf(),
            old(self).spec_num_open() >= 1,
        ensures
            final(self).wf(),
            final(self).spec_buffers() == old(self).spec_buffers(),
            final(self).spec_switch_after() == old(self).spec_switch_after(),
            final(self).spec_exit_condition() == old(self).spec_exit_condition(),
            final(self).spec_num_open() == old(self).spec_num_open() - 1,
            final(self).spec_winner() == old(self).spec_winner(),
            final(self).spec_taken() == old(self).spec_taken(),
            final(self).spec_delivered() == old(self).spec_delivered(),
    {
        self.num_open = self.num_open - 1;
    }

    /// Whether the pass that just ended closes the stream: never under
    /// `Never`; under `OneClosed` once an input has closed and no frame is
    /// ready; under `AllClosed` once every input has closed.
    pub fn should_close(&self) -> (r: bool)
        requires
            self.wf(),
        ensures
            self.spec_exit_condition() == ExitCondition::Never ==> !r,
            self.spec_exit_condition() == ExitCondition::OneClosed ==> (r <==> (
            self.spec_num_open() < self.spec_buffers().len() && self.spec_winner() is None)),
            self.spec_exit_condition() == ExitCondition::AllClosed ==> (r <==> self.spec_num_open()
                == 0),
    {
        match self.exit_condition {
            ExitCondition::Never => false,
            ExitCondition::OneClosed => self.num_open < self.buffers.len()
                && self.winner.is_none(),
            ExitCondition::AllClosed => self.num_open == 0,
        }
    }

    /// How many inputs this pass still counts as open.
    pub fn open_count(&self) -> (n: usize)
        ensures
            n == self.spec_num_open(),
    {
        self.num_open
    }

    /// Whether this pass found a winner.
    pub fn has_winner(&self) -> (r: bool)
        ensures
            r <==> self.spec_winner() is Some,
    {
        self.winner.is_some()
    }

    /// The wait before the next pass when no input was ready: the clear
    /// timeout, or ten milliseconds.
    pub fn retry_wait_ms(&self) -> (r: u64)
        ensures
            self.spec_clear_timeout() matches Some(t) ==> r == t,
            self.spec_clear_timeout() is None ==> r == 10,
    {
        match self.clear_timeout {
            Some(t) => t,
            None => 10,
        }
    }

    /// Take the finished frame from the winning input: exactly one frame
    /// of bytes, in the order that input delivered them; its buffer starts
    /// empty again.
    pub fn take_frame(&mut self) -> (frame: Vec<u8>)
        requires
            old(self).wf(),
            old(self).spec_winner() is Some,
        ensures
            final(self).wf(),
            frame@ == old(self).spec_buffers()[old(self).spec_winner()->Some_0 as int],
            frame@.len() == old(self).spec_switch_after(),
            final(self).spec_buffers() == old(self).spec_buffers().update(
                old(self).spec_winner()->Some_0 as int,
                Seq::<u8>::empty(),
            ),
            final(self).spec_switch_after() == old(self).spec_switch_after(),
            final(self).spec_exit_condition() == old(self).spec_exit_condition(),
            final(self).spec_num_open() == old(self).spec_num_open(),
            final(self).spec_winner() is None,
            final(self).spec_taken() == old(self).spec_taken() + 1,
            final(self).spec_delivered() == old(self).spec_delivered(),
    {
        let i = match self.winner {
            Some(i) => i,
            None => 0,  // unreachable under the precondition
        };
        let ghost head = self.buffers@;
        let mut frame: Vec<u8> = Vec::new();
        core::mem::swap(&mut frame, &mut self.buffers[i]);
        self.winner = None;
        proof {
            let target = old(self).spec_buffers().update(i as int, Seq::<u8>::empty());
            assert(frame@ == head[i as int]@);
            assert(self.buffers@[i as int]@ =~= Seq::<u8>::empty());
            assert forall|m: int| 0 <= m < self.buffers@.len() implies views_of(
                self.buffers@,
            )[m] == target[m] by {
                if m != i {
                    assert(self.buffers@[m] == head[m]);
                    assert(views_of(head)[m] == head[m]@);
                }
            }
            assert(self.spec_buffers() =~= target);
            lemma_sum_lens_update(
                old(self).spec_buffers(),
                i as int,
                Seq::<u8>::empty(),
            );
            assert(views_of(head)[i as int] == head[i as int]@);
            let t0 = old(self).spec_taken();
            let s0 = old(self).spec_switch_after();
            assert((t0 + 1) * s0 == t0 * s0 + s0) by (nonlinear_arith);
        }
        self.taken = Ghost(self.taken@ + 1);
        frame
    }
}

/// Conservation: once the inputs have delivered `k` whole frames of bytes
/// and nothing is left buffered, exactly `k` frames have come out.
pub proof fn lemma_frame_conservation(r: &Reader, k: int)
    requires
        r.wf(),
        r.spec_delivered() == k * r.spec_switch_after(),
        sum_lens(r.spec_buffers()) == 0,
    ensures
        r.spec_taken() == k,
{
    assert(r.spec_taken() * r.spec_switch_after() == k * r.spec_switch_after());
    assert(r.spec_taken() == k) by (nonlinear_arith)
        requires
            r.spec_taken() * r.spec_switch_after() == k * r.spec_switch_after(),
            r.spec_switch_after() >= 1,
    {}
}

} // verus!
