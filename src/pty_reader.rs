use vstd::prelude::*;

verus! {

/// One token of the framed PTY output. `S` is the text: a `String` in running code.
#[derive(Debug, Clone, PartialEq)]
pub enum TermOut<S> {
    Text(S),
    NewLine,
    CarriageReturn,
    Backspace,
}

pub type TerminalOutput = TermOut<String>;

impl View for TermOut<String> {
    type V = TermOut<Seq<char>>;

    open spec fn view(&self) -> TermOut<Seq<char>> {
        match *self {
            TermOut::Text(s) => TermOut::Text(s@),
            TermOut::NewLine => TermOut::NewLine,
            TermOut::CarriageReturn => TermOut::CarriageReturn,
            TermOut::Backspace => TermOut::Backspace,
        }
    }
}

/// The text that lossy UTF-8 decoding makes of some bytes.
pub uninterp spec fn utf8_lossy(b: Seq<u8>) -> Seq<char>;

/// Relies on `String::from_utf8_lossy`: decodes the bytes, putting U+FFFD for invalid sequences;
/// the result depends on the bytes alone. Valid UTF-8 comes back unchanged, so no bytes give the
/// empty text and ASCII bytes give the same characters.
#[verifier::external_body]
fn decode_lossy(bytes: &[u8]) -> (r: String)
    ensures
        r@ == utf8_lossy(bytes@),
        bytes@.len() == 0 ==> r@.len() == 0,
        (forall|i: int| 0 <= i < bytes@.len() ==> #[trigger] bytes@[i] < 0x80) ==> r@ == Seq::new(
            bytes@.len(),
            |i: int| bytes@[i] as char,
        ),
{
    String::from_utf8_lossy(bytes).into_owned()
}

pub open spec fn is_control(x: u8) -> bool {
    x == 0x08 || x == 0x0a || x == 0x0d
}

pub open spec fn control_token(x: u8) -> TermOut<Seq<u8>> {
    if x == 0x08 {
        TermOut::Backspace
    } else if x == 0x0a {
        TermOut::NewLine
    } else {
        TermOut::CarriageReturn
    }
}

/// Framing a byte prefix: the tokens emitted so far and the pending text run.
pub open spec fn frame_acc(b: Seq<u8>) -> (Seq<TermOut<Seq<u8>>>, Seq<u8>)
    decreases b.len(),
{
    if b.len() == 0 {
        (Seq::empty(), Seq::empty())
    } else {
        let (toks, run) = frame_acc(b.drop_last());
        let x = b.last();
        if is_control(x) {
            let flushed = if run.len() > 0 {
                toks.push(TermOut::Text(run))
            } else {
                toks
            };
            (flushed.push(control_token(x)), Seq::empty())
        } else {
            (toks, run.push(x))
        }
    }
}

/// The tokens of a batch: control bytes split the text, and the trailing run, empty or not,
/// comes last.
pub open spec fn framed(b: Seq<u8>) -> Seq<TermOut<Seq<u8>>> {
    frame_acc(b).0.push(TermOut::Text(frame_acc(b).1))
}

pub open spec fn decoded(t: TermOut<Seq<u8>>) -> TermOut<Seq<char>> {
    match t {
        TermOut::Text(b) => TermOut::Text(utf8_lossy(b)),
        TermOut::NewLine => TermOut::NewLine,
        TermOut::CarriageReturn => TermOut::CarriageReturn,
        TermOut::Backspace => TermOut::Backspace,
    }
}

pub open spec fn views_of(v: Seq<TerminalOutput>) -> Seq<TermOut<Seq<char>>> {
    Seq::new(v.len(), |k: int| v[k]@)
}

/// What one read of the PTY found: more may follow, or nothing was available.
#[derive(Debug, Clone, Copy, PartialEq, Eq, Structural)]
pub enum PtyReaderResult {
    MoreLeft,
    EndOfInput,
}

/// Accumulates bytes read from the PTY and frames them into tokens.
pub struct PtyReader {
    pub buffer: Vec<u8>,
}

impl PtyReader {
    pub fn new() -> (r: Self)
        ensures
            r.buffer@ == Seq::<u8>::empty(),
    {
        PtyReader { buffer: Vec::new() }
    }

    /// Appends a chunk that was read.
    pub fn extend(&mut self, chunk: &[u8])
        ensures
            final(self).buffer@ == old(self).buffer@ + chunk@,
    {
        let mut i: usize = 0;
        while i < chunk.len()
            invariant
                i <= chunk@.len(),
                self.buffer@ == old(self).buffer@ + chunk@.subrange(0, i as int),
            decreases chunk@.len() - i,
        {
            self.buffer.push(chunk[i]);
            i = i + 1;
            assert(self.buffer@ =~= old(self).buffer@ + chunk@.subrange(0, i as int));
        }
        assert(chunk@.subrange(0, chunk@.len() as int) =~= chunk@);
    }

    /// Frames and empties the accumulated bytes; `None` when there are none.
    pub fn process_buffer(&mut self) -> (r: Option<Vec<TerminalOutput>>)
        ensures
            final(self).buffer@ == Seq::<u8>::empty(),
            old(self).buffer@.len() == 0 ==> r is None,
            old(self).buffer@.len() > 0 ==> r is Some && views_of(r->0@) == framed(old(self).buffer@).map_values(
                |t: TermOut<Seq<u8>>| decoded(t),
            ),
    {
        if self.buffer.len() == 0 {
            return None;
        }
        let ghost b = self.buffer@;
        let mut run: Vec<u8> = Vec::new();
        let mut output: Vec<TerminalOutput> = Vec::new();
        let mut i: usize = 0;
        while i < self.buffer.len()
            invariant
                self.buffer@ == b,
                i <= b.len(),
                views_of(output@) == frame_acc(b.subrange(0, i as int)).0.map_values(|t: TermOut<Seq<u8>>| decoded(t)),
                run@ == frame_acc(b.subrange(0, i as int)).1,
            decreases b.len() - i,
        {
            proof {
                assert(b.subrange(0, i + 1).drop_last() =~= b.subrange(0, i as int));
            }
            let x = self.buffer[i];
            let ghost before = views_of(output@);
            if x == 0x08 || x == 0x0a || x == 0x0d {
                if run.len() > 0 {
                    let s = decode_lossy(run.as_slice());
                    output.push(TermOut::Text(s));
                    assert(views_of(output@) =~= before.push(TermOut::Text(utf8_lossy(run@))));
                    run = Vec::new();
                }
                let ghost mid = views_of(output@);
                let tok = if x == 0x08 {
                    TermOut::Backspace
                } else if x == 0x0a {
                    TermOut::NewLine
                } else {
                    TermOut::CarriageReturn
                };
                output.push(tok);
                assert(views_of(output@) =~= mid.push(decoded(control_token(x))));
            } else {
                run.push(x);
            }
            i = i + 1;
            proof {
                let (toks, prev_run) = frame_acc(b.subrange(0, i - 1));
                if is_control(x) {
                    let flushed = if prev_run.len() > 0 {
                        toks.push(TermOut::Text(prev_run))
                    } else {
                        toks
                    };
                    let f = |t: TermOut<Seq<u8>>| decoded(t);
                    assert(toks.push(TermOut::Text(prev_run)).map_values(f) =~= toks.map_values(f).push(f(TermOut::Text(prev_run))));
                    assert(flushed.push(control_token(x)).map_values(f) =~= flushed.map_values(f).push(f(control_token(x))));
                    assert(views_of(output@) =~= flushed.push(control_token(x)).map_values(f));
                } else {
                    assert(views_of(output@) =~= before);
                }
            }
        }
        let ghost before = views_of(output@);
        let s = decode_lossy(run.as_slice());
        output.push(TermOut::Text(s));
        proof {
            let f = |t: TermOut<Seq<u8>>| decoded(t);
            assert(views_of(output@) =~= before.push(TermOut::Text(utf8_lossy(run@))));
            assert(frame_acc(b).0.push(TermOut::Text(frame_acc(b).1)).map_values(f) =~= frame_acc(b).0.map_values(f).push(f(TermOut::Text(frame_acc(b).1))));
            assert(b.subrange(0, b.len() as int) =~= b);
            assert(views_of(output@) =~= framed(b).map_values(|t: TermOut<Seq<u8>>| decoded(t)));
        }
        self.buffer = Vec::new();
        Some(output)
    }
}

} // verus!
