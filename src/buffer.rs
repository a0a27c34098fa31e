use vstd::prelude::*;

verus! {

/// What one side observed: functions, then values, then fields, then bytes.
pub type Frames = Seq<Seq<Seq<Seq<u8>>>>;

/// The buffer after one more scalar field was appended to the pending value.
pub open spec fn with_field(b: Frames, data: Seq<u8>) -> Frames {
    let f = b.last();
    b.update(b.len() - 1, f.update(f.len() - 1, f.last().push(data)))
}

/// The buffer after the pending value was closed and an empty one opened.
pub open spec fn with_value_closed(b: Frames) -> Frames {
    b.update(b.len() - 1, b.last().push(Seq::empty()))
}

/// The buffer after the pending (empty) value was dropped and a new function
/// frame, holding one pending value, was opened.
pub open spec fn with_func_closed(b: Frames) -> Frames {
    b.update(b.len() - 1, b.last().drop_last()).push(seq![Seq::empty()])
}

/// A buffer in which one side of a test records every value it passes or
/// receives, field by field.
pub struct WriteBuffer {
    funcs: Vec<Vec<Vec<Vec<u8>>>>,
}

impl View for WriteBuffer {
    type V = Frames;

    closed spec fn view(&self) -> Frames {
        self.funcs.deep_view()
    }
}

/// The frames of a buffer that holds only the pending function and value.
fn fresh_frames() -> (r: Vec<Vec<Vec<Vec<u8>>>>)
    ensures
        r.deep_view() == fresh(),
{
    let mut vals: Vec<Vec<Vec<u8>>> = Vec::new();
    vals.push(Vec::new());
    let mut funcs: Vec<Vec<Vec<Vec<u8>>>> = Vec::new();
    funcs.push(vals);
    assert(funcs.deep_view() =~~= fresh());
    funcs
}

impl WriteBuffer {
    /// A buffer always holds a pending function, and inside it a pending
    /// value.
    #[verifier::type_invariant]
    spec fn ready(&self) -> bool {
        self@.len() > 0 && self@.last().len() > 0
    }

    /// An empty buffer with the first function and value already pending.
    pub fn new() -> (r: WriteBuffer)
        ensures
            r@ == fresh(),
    {
        WriteBuffer { funcs: fresh_frames() }
    }

    /// Appends the bytes of one scalar field to the pending value.
    pub fn write_field(&mut self, data: Vec<u8>)
        ensures
            old(self)@.len() > 0 && old(self)@.last().len() > 0,
            final(self)@ == with_field(old(self)@, data@),
    {
        proof {
            use_type_invariant(&*self);
        }
        let ghost b = self@;
        let mut funcs = fresh_frames();
        std::mem::swap(&mut funcs, &mut self.funcs);
        let mut func = funcs.pop().unwrap();
        let mut val = func.pop().unwrap();
        val.push(data);
        func.push(val);
        funcs.push(func);
        assert(funcs.deep_view() =~~= with_field(b, data@));
        self.funcs = funcs;
    }

    /// Closes the pending value and opens an empty successor.
    pub fn finished_val(&mut self)
        ensures
            old(self)@.len() > 0 && old(self)@.last().len() > 0,
            final(self)@ == with_value_closed(old(self)@),
    {
        proof {
            use_type_invariant(&*self);
        }
        let ghost b = self@;
        let mut funcs = fresh_frames();
        std::mem::swap(&mut funcs, &mut self.funcs);
        let mut func = funcs.pop().unwrap();
        func.push(Vec::new());
        funcs.push(func);
        assert(funcs.deep_view() =~~= with_value_closed(b));
        self.funcs = funcs;
    }

    /// Drops the pending value and opens a fresh function frame.
    pub fn finished_func(&mut self)
        ensures
            old(self)@.len() > 0 && old(self)@.last().len() > 0,
            final(self)@ == with_func_closed(old(self)@),
    {
        proof {
            use_type_invariant(&*self);
        }
        let ghost b = self@;
        let mut funcs = fresh_frames();
        std::mem::swap(&mut funcs, &mut self.funcs);
        let mut func = funcs.pop().unwrap();
        let _ = func.pop();
        funcs.push(func);
        let mut vals: Vec<Vec<Vec<u8>>> = Vec::new();
        vals.push(Vec::new());
        funcs.push(vals);
        assert(funcs.deep_view() =~~= with_func_closed(b));
        self.funcs = funcs;
    }

    /// Removes the pending function and hands back the completed frames.
    pub fn finish_tests(self) -> (r: Vec<Vec<Vec<Vec<u8>>>>)
        ensures
            self@.len() > 0 && self@.last().len() > 0,
            r.deep_view() == self@.drop_last(),
    {
        proof {
            use_type_invariant(&self);
        }
        let ghost b = self@;
        let mut funcs = self.funcs;
        let _ = funcs.pop();
        assert(funcs.deep_view() =~~= b.drop_last());
        funcs
    }
}

/// One call of the write-back protocol on a buffer.
pub enum Event {
    /// `write_field` with these bytes.
    Field(Seq<u8>),
    /// `finished_val`.
    ValueDone,
    /// `finished_func`.
    FuncDone,
}

pub open spec fn step(b: Frames, e: Event) -> Frames {
    match e {
        Event::Field(d) => with_field(b, d),
        Event::ValueDone => with_value_closed(b),
        Event::FuncDone => with_func_closed(b),
    }
}

/// The buffer after a sequence of protocol calls, in order.
pub open spec fn replay(b: Frames, evs: Seq<Event>) -> Frames
    decreases evs.len(),
{
    if evs.len() == 0 {
        b
    } else {
        step(replay(b, evs.drop_last()), evs.last())
    }
}

/// How many of the calls close a function.
pub open spec fn funcs_closed(evs: Seq<Event>) -> nat
    decreases evs.len(),
{
    if evs.len() == 0 {
        0
    } else {
        funcs_closed(evs.drop_last()) + if evs.last() is FuncDone { 1nat } else { 0nat }
    }
}

/// A buffer as `WriteBuffer::new` makes it.
pub open spec fn fresh() -> Frames {
    seq![seq![Seq::<Seq<u8>>::empty()]]
}

/// Whatever the sequence of protocol calls made on a fresh buffer, it still
/// ends with a pending function holding a pending value, and once the
/// pending function is removed it holds exactly one frame per
/// `finished_func` call.
pub proof fn lemma_frames_match_finished_funcs(evs: Seq<Event>)
    ensures
        replay(fresh(), evs).len() > 0,
        replay(fresh(), evs).last().len() > 0,
        replay(fresh(), evs).drop_last().len() == funcs_closed(evs),
    decreases evs.len(),
{
    if evs.len() > 0 {
        lemma_frames_match_finished_funcs(evs.drop_last());
    }
}

} // verus!
