//! Framed transport: extracts discrete payloads from an unbounded raw byte
//! stream using fixed start/stop sentinel sequences, and wraps outgoing
//! payloads in the same sentinels.
//!
//! The scanner is fed one byte at a time, so the raw I/O loop that owns the
//! transport can stop whenever the handle reports that no byte is
//! available, and resume later with the scanner state retained.

use vstd::prelude::*;

verus! {

/// First byte of the start sentinel.
pub const FRAME_START_0: u8 = 0xAE;

/// Second byte of the start sentinel.
pub const FRAME_START_1: u8 = 0xEA;

/// First byte of the stop sentinel.
pub const FRAME_STOP_0: u8 = 0xCA;

/// Second byte of the stop sentinel.
pub const FRAME_STOP_1: u8 = 0xAC;

/// Safety valve: a scratch buffer may hold at most this many bytes beyond
/// which one more buffered byte makes the stream malformed.
pub const MAX_BUFFERED: usize = 64;

/// Failure of the framing layer.
#[derive(Debug, Clone, Copy, PartialEq, Eq, Structural)]
pub enum FrameError {
    /// More than `MAX_BUFFERED` bytes accumulated without completing a
    /// frame: the stream is treated as malformed data.
    Malformed,
}

/// Mathematical model of the scanner: the scratch buffer and whether a
/// start sentinel has been seen and its frame not yet completed.
#[verifier::ext_equal]
pub struct ScannerView {
    pub buf: Seq<u8>,
    pub in_frame: bool,
}

impl ScannerView {
    /// The scanner's starting state: empty scratch buffer, outside any frame.
    pub open spec fn init() -> ScannerView {
        ScannerView { buf: Seq::empty(), in_frame: false }
    }
}

/// What one scanned byte does to the scanner.
pub enum ScanEffect {
    /// The byte was absorbed; scanning continues from the new state.
    Scanning(ScannerView),
    /// The byte completed a frame with this payload.
    Frame(Seq<u8>),
    /// The safety valve tripped: too many bytes without a complete frame.
    Malformed,
}

/// One step of the sentinel scan. Outside a frame, a buffered `AE`
/// followed by `EA` enters a frame and discards everything buffered so
/// far (the sentinel is not retained). Inside a frame, a buffered `CA`
/// followed by `AC` completes the frame; the payload is the buffer with
/// the buffered stop byte stripped. Otherwise the byte is buffered,
/// unless the buffer already exceeds `MAX_BUFFERED` bytes.
pub open spec fn scan_step(s: ScannerView, byte: u8) -> ScanEffect {
    if !s.in_frame && s.buf.len() > 0 && s.buf.last() == FRAME_START_0 && byte == FRAME_START_1 {
        ScanEffect::Scanning(ScannerView { buf: Seq::empty(), in_frame: true })
    } else if s.in_frame && s.buf.len() > 0 && s.buf.last() == FRAME_STOP_0 && byte
        == FRAME_STOP_1 {
        ScanEffect::Frame(s.buf.drop_last())
    } else if s.buf.len() > MAX_BUFFERED {
        ScanEffect::Malformed
    } else {
        ScanEffect::Scanning(ScannerView { buf: s.buf.push(byte), in_frame: s.in_frame })
    }
}

/// The scan of a whole byte sequence: steps through the bytes and stops
/// early at the first completed frame or at the safety valve.
pub open spec fn scan(s: ScannerView, bytes: Seq<u8>) -> ScanEffect
    decreases bytes.len(),
{
    if bytes.len() == 0 {
        ScanEffect::Scanning(s)
    } else {
        match scan_step(s, bytes.first()) {
            ScanEffect::Scanning(s2) => scan(s2, bytes.drop_first()),
            ScanEffect::Frame(p) => ScanEffect::Frame(p),
            ScanEffect::Malformed => ScanEffect::Malformed,
        }
    }
}

/// No two adjacent bytes form the stop sentinel.
pub open spec fn no_stop_sentinel(b: Seq<u8>) -> bool {
    forall|i: int|
        0 <= i && i + 1 < b.len() ==> !((#[trigger] b[i]) == FRAME_STOP_0 && b[i + 1]
            == FRAME_STOP_1)
}

/// No two adjacent bytes form the start sentinel.
pub open spec fn no_start_sentinel(b: Seq<u8>) -> bool {
    forall|i: int|
        0 <= i && i + 1 < b.len() ==> !((#[trigger] b[i]) == FRAME_START_0 && b[i + 1]
            == FRAME_START_1)
}

/// A payload wrapped in the start and stop sentinels, as it travels on
/// the wire.
pub open spec fn spec_frame(p: Seq<u8>) -> Seq<u8> {
    seq![FRAME_START_0, FRAME_START_1] + p + seq![FRAME_STOP_0, FRAME_STOP_1]
}

/// Wraps an outgoing payload in the start and stop sentinels.
pub fn frame_payload(payload: &[u8]) -> (r: Vec<u8>)
    ensures
        r@ == spec_frame(payload@),
{
    let mut r: Vec<u8> = Vec::new();
    r.push(FRAME_START_0);
    r.push(FRAME_START_1);
    let mut i: usize = 0;
    while i < payload.len()
        invariant
            i <= payload@.len(),
            r@ == seq![FRAME_START_0, FRAME_START_1] + payload@.take(i as int),
        decreases payload@.len() - i,
    {
        r.push(payload[i]);
        proof {
            assert(payload@.take(i + 1 as int) =~= payload@.take(i as int).push(payload@[i as int]));
            assert(r@ =~= seq![FRAME_START_0, FRAME_START_1] + payload@.take(i + 1 as int));
        }
        i = i + 1;
    }
    r.push(FRAME_STOP_0);
    r.push(FRAME_STOP_1);
    proof {
        assert(payload@.take(payload@.len() as int) =~= payload@);
        assert(r@ =~= spec_frame(payload@));
    }
    r
}

/// Incremental sentinel scanner over a raw byte stream.
pub struct FrameScanner {
    buf: Vec<u8>,
    in_frame: bool,
}

impl View for FrameScanner {
    type V = ScannerView;

    closed spec fn view(&self) -> ScannerView {
        ScannerView { buf: self.buf@, in_frame: self.in_frame }
    }
}

impl FrameScanner {
    pub fn new() -> (s: FrameScanner)
        ensures
            s@ == ScannerView::init(),
    {
        let s = FrameScanner { buf: Vec::new(), in_frame: false };
        proof {
            assert(s@ =~= ScannerView::init());
        }
        s
    }

    /// Feeds one byte from the raw stream into the scanner. Returns the
    /// completed payload if this byte finished a frame, the malformed-data
    /// error if the safety valve tripped (the scanner then starts over),
    /// and nothing otherwise.
    pub fn push_byte(&mut self, byte: u8) -> (r: Result<Option<Vec<u8>>, FrameError>)
        ensures
            (scan_step(old(self)@, byte) matches ScanEffect::Scanning(s2) ==> final(self)@ == s2
                && r matches Ok(None)),
            (scan_step(old(self)@, byte) matches ScanEffect::Frame(p) ==> final(self)@
                == ScannerView::init() && (r matches Ok(Some(f)) && f@ == p)),
            (scan_step(old(self)@, byte) is Malformed ==> final(self)@ == ScannerView::init()
                && r == Err::<Option<Vec<u8>>, FrameError>(FrameError::Malformed)),
    {
        if !self.in_frame {
            if self.buf.len() > 0 && self.buf[self.buf.len() - 1] == FRAME_START_0 && byte
                == FRAME_START_1 {
                self.buf.clear();
                self.in_frame = true;
                return Ok(None);
            }
        } else {
            if self.buf.len() > 0 && self.buf[self.buf.len() - 1] == FRAME_STOP_0 && byte
                == FRAME_STOP_1 {
                self.in_frame = false;
                let mut payload: Vec<u8> = Vec::new();
                core::mem::swap(&mut payload, &mut self.buf);
                payload.pop();
                proof {
                    assert(final(self)@ =~= ScannerView::init());
                }
                return Ok(Some(payload));
            }
        }
        if self.buf.len() > MAX_BUFFERED {
            self.buf.clear();
            self.in_frame = false;
            proof {
                assert(final(self)@ =~= ScannerView::init());
            }
            return Err(FrameError::Malformed);
        }
        self.buf.push(byte);
        Ok(None)
    }

    /// Feeds a run of bytes into the scanner, stopping at the first
    /// completed frame or at the malformed-data error.
    pub fn push_bytes(&mut self, bytes: &[u8]) -> (r: Result<Option<Vec<u8>>, FrameError>)
        ensures
            (scan(old(self)@, bytes@) matches ScanEffect::Scanning(s2) ==> final(self)@ == s2
                && r matches Ok(None)),
            (scan(old(self)@, bytes@) matches ScanEffect::Frame(p) ==> final(self)@
                == ScannerView::init() && (r matches Ok(Some(f)) && f@ == p)),
            (scan(old(self)@, bytes@) is Malformed ==> final(self)@ == ScannerView::init() && r
                == Err::<Option<Vec<u8>>, FrameError>(FrameError::Malformed)),
    {
        let mut i: usize = 0;
        proof {
            assert(bytes@.skip(0) =~= bytes@);
        }
        while i < bytes.len()
            invariant
                i <= bytes@.len(),
                scan(old(self)@, bytes@) == scan(self@, bytes@.skip(i as int)),
            decreases bytes@.len() - i,
        {
            let ghost pre = self@;
            let ghost rest = bytes@.skip(i as int);
            proof {
                assert(rest.len() > 0);
                assert(rest.first() == bytes@[i as int]);
                assert(rest.drop_first() =~= bytes@.skip(i + 1 as int));
            }
            match self.push_byte(bytes[i]) {
                Ok(None) => {},
                Ok(Some(f)) => {
                    return Ok(Some(f));
                },
                Err(e) => {
                    return Err(e);
                },
            }
            i = i + 1;
        }
        proof {
            assert(bytes@.skip(bytes@.len() as int) =~= Seq::<u8>::empty());
        }
        Ok(None)
    }
}

/// While inside a frame, scanning bytes that contain no stop sentinel
/// just accumulates them, provided the safety valve is not reached.
proof fn lemma_scan_in_frame(s: ScannerView, p: Seq<u8>, rest: Seq<u8>)
    requires
        s.in_frame,
        no_stop_sentinel(s.buf + p),
        s.buf.len() + p.len() <= MAX_BUFFERED + 1,
    ensures
        scan(s, p + rest) == scan(ScannerView { buf: s.buf + p, in_frame: true }, rest),
    decreases p.len(),
{
    if p.len() == 0 {
        assert(s.buf + p =~= s.buf);
        assert(p + rest =~= rest);
        assert(ScannerView { buf: s.buf + p, in_frame: true } =~= s);
    } else {
        let b0 = p.first();
        if s.buf.len() > 0 && s.buf.last() == FRAME_STOP_0 && b0 == FRAME_STOP_1 {
            assert((s.buf + p)[s.buf.len() - 1] == FRAME_STOP_0);
            assert((s.buf + p)[s.buf.len() as int] == FRAME_STOP_1);
            assert(false);
        }
        let s2 = ScannerView { buf: s.buf.push(b0), in_frame: true };
        assert(scan_step(s, b0) == ScanEffect::Scanning(s2));
        assert((p + rest).first() == b0);
        assert((p + rest).drop_first() =~= p.drop_first() + rest);
        assert(s2.buf + p.drop_first() =~= s.buf + p);
        lemma_scan_in_frame(s2, p.drop_first(), rest);
        assert(ScannerView { buf: s2.buf + p.drop_first(), in_frame: true } == ScannerView {
            buf: s.buf + p,
            in_frame: true,
        });
    }
}

/// While outside a frame, scanning bytes that contain no start sentinel
/// just accumulates them, provided the safety valve is not reached.
proof fn lemma_scan_awaiting_start(s: ScannerView, p: Seq<u8>, rest: Seq<u8>)
    requires
        !s.in_frame,
        no_start_sentinel(s.buf + p),
        s.buf.len() + p.len() <= MAX_BUFFERED + 1,
    ensures
        scan(s, p + rest) == scan(ScannerView { buf: s.buf + p, in_frame: false }, rest),
    decreases p.len(),
{
    if p.len() == 0 {
        assert(s.buf + p =~= s.buf);
        assert(p + rest =~= rest);
        assert(ScannerView { buf: s.buf + p, in_frame: false } =~= s);
    } else {
        let b0 = p.first();
        if s.buf.len() > 0 && s.buf.last() == FRAME_START_0 && b0 == FRAME_START_1 {
            assert((s.buf + p)[s.buf.len() - 1] == FRAME_START_0);
            assert((s.buf + p)[s.buf.len() as int] == FRAME_START_1);
            assert(false);
        }
        let s2 = ScannerView { buf: s.buf.push(b0), in_frame: false };
        assert(scan_step(s, b0) == ScanEffect::Scanning(s2));
        assert((p + rest).first() == b0);
        assert((p + rest).drop_first() =~= p.drop_first() + rest);
        assert(s2.buf + p.drop_first() =~= s.buf + p);
        lemma_scan_awaiting_start(s2, p.drop_first(), rest);
    }
}

/// From just inside a fresh frame, scanning the payload followed by the
/// stop sentinel completes the frame with exactly that payload.
proof fn lemma_scan_frame_body(p: Seq<u8>)
    requires
        p.len() <= MAX_BUFFERED,
        no_stop_sentinel(p),
    ensures
        scan(
            ScannerView { buf: Seq::empty(), in_frame: true },
            p + seq![FRAME_STOP_0, FRAME_STOP_1],
        ) == ScanEffect::Frame(p),
{
    let s = ScannerView { buf: Seq::empty(), in_frame: true };
    let stop = seq![FRAME_STOP_0, FRAME_STOP_1];
    assert(Seq::empty() + p =~= p);
    lemma_scan_in_frame(s, p, stop);
    let s3 = ScannerView { buf: p, in_frame: true };
    assert(scan(s, p + stop) == scan(s3, stop));

    // First stop byte: not a completed stop sentinel, so it is buffered.
    let s4 = ScannerView { buf: p.push(FRAME_STOP_0), in_frame: true };
    assert(stop.first() == FRAME_STOP_0);
    assert(scan_step(s3, FRAME_STOP_0) == ScanEffect::Scanning(s4));
    assert(stop.drop_first() =~= seq![FRAME_STOP_1]);

    // Second stop byte: the buffered `CA` and incoming `AC` complete the
    // frame; the buffered stop byte is stripped.
    assert(s4.buf.last() == FRAME_STOP_0);
    assert(s4.buf.drop_last() =~= p);
    assert(scan_step(s4, FRAME_STOP_1) == ScanEffect::Frame(p));
    assert(scan(s4, seq![FRAME_STOP_1]) == ScanEffect::Frame(p));
}

/// Round trip through the wire: scanning a payload wrapped in sentinels
/// from the starting state yields exactly that payload, for any payload
/// that fits the safety valve and does not itself contain the stop
/// sentinel.
pub proof fn lemma_frame_round_trip(p: Seq<u8>)
    requires
        p.len() <= MAX_BUFFERED,
        no_stop_sentinel(p),
    ensures
        scan(ScannerView::init(), spec_frame(p)) == ScanEffect::Frame(p),
{
    let s0 = ScannerView::init();
    let stream = spec_frame(p);
    let body = p + seq![FRAME_STOP_0, FRAME_STOP_1];

    // First start byte is buffered.
    let s1 = ScannerView { buf: seq![FRAME_START_0], in_frame: false };
    assert(stream.first() == FRAME_START_0);
    assert(s0.buf.push(FRAME_START_0) =~= s1.buf);
    assert(scan_step(s0, FRAME_START_0) == ScanEffect::Scanning(s1));

    // Second start byte completes the start sentinel: the scratch buffer
    // is discarded and scanning enters the frame.
    let s2 = ScannerView { buf: Seq::empty(), in_frame: true };
    let stream1 = stream.drop_first();
    assert(stream1.first() == FRAME_START_1);
    assert(scan_step(s1, FRAME_START_1) == ScanEffect::Scanning(s2));
    assert(stream1.drop_first() =~= body);

    assert(scan(s0, stream) == scan(s1, stream1));
    assert(scan(s1, stream1) == scan(s2, body));
    lemma_scan_frame_body(p);
}

/// Bytes arriving before a start sentinel are discarded: they do not show
/// up in the extracted payload.
pub proof fn lemma_leading_bytes_discarded(junk: Seq<u8>, p: Seq<u8>)
    requires
        junk.len() <= MAX_BUFFERED,
        no_start_sentinel(junk),
        p.len() <= MAX_BUFFERED,
        no_stop_sentinel(p),
    ensures
        scan(ScannerView::init(), junk + spec_frame(p)) == ScanEffect::Frame(p),
{
    let s0 = ScannerView::init();
    let stream = junk + spec_frame(p);
    let body = p + seq![FRAME_STOP_0, FRAME_STOP_1];

    // The junk accumulates in the scratch buffer without starting a frame.
    assert(s0.buf + junk =~= junk);
    lemma_scan_awaiting_start(s0, junk, spec_frame(p));
    let s1 = ScannerView { buf: junk, in_frame: false };
    assert(scan(s0, junk + spec_frame(p)) == scan(s1, spec_frame(p)));

    // The first start byte is buffered on top of the junk...
    let s2 = ScannerView { buf: junk.push(FRAME_START_0), in_frame: false };
    assert(spec_frame(p).first() == FRAME_START_0);
    if junk.len() > 0 && junk.last() == FRAME_START_0 && FRAME_START_0 == FRAME_START_1 {
        assert(false);
    }
    assert(scan_step(s1, FRAME_START_0) == ScanEffect::Scanning(s2));

    // ...and the second start byte discards junk and sentinel alike.
    let s3 = ScannerView { buf: Seq::empty(), in_frame: true };
    let stream1 = spec_frame(p).drop_first();
    assert(stream1.first() == FRAME_START_1);
    assert(s2.buf.last() == FRAME_START_0);
    assert(scan_step(s2, FRAME_START_1) == ScanEffect::Scanning(s3));
    assert(stream1.drop_first() =~= body);

    assert(scan(s1, spec_frame(p)) == scan(s2, stream1));
    assert(scan(s2, stream1) == scan(s3, body));
    lemma_scan_frame_body(p);
}

/// The safety valve: a frame whose payload runs past the buffer bound
/// without a stop sentinel makes the scan fail with malformed data.
pub proof fn lemma_overlong_frame_malformed(p: Seq<u8>)
    requires
        p.len() > MAX_BUFFERED + 1,
        no_stop_sentinel(p),
    ensures
        scan(ScannerView::init(), seq![FRAME_START_0, FRAME_START_1] + p) == ScanEffect::Malformed,
{
    let s0 = ScannerView::init();
    let stream = seq![FRAME_START_0, FRAME_START_1] + p;

    let s1 = ScannerView { buf: seq![FRAME_START_0], in_frame: false };
    assert(stream.first() == FRAME_START_0);
    assert(s0.buf.push(FRAME_START_0) =~= s1.buf);
    assert(scan_step(s0, FRAME_START_0) == ScanEffect::Scanning(s1));

    let s2 = ScannerView { buf: Seq::empty(), in_frame: true };
    let stream1 = stream.drop_first();
    assert(stream1.first() == FRAME_START_1);
    assert(scan_step(s1, FRAME_START_1) == ScanEffect::Scanning(s2));
    assert(stream1.drop_first() =~= p);
    assert(scan(s0, stream) == scan(s1, stream1));
    assert(scan(s1, stream1) == scan(s2, p));

    // The first bound-plus-one payload bytes all fit the scratch buffer.
    let head = p.take(MAX_BUFFERED + 1 as int);
    let tail = p.skip(MAX_BUFFERED + 1 as int);
    assert(head + tail =~= p);
    assert(s2.buf + head =~= head);
    assert(no_stop_sentinel(head));
    lemma_scan_in_frame(s2, head, tail);
    let s3 = ScannerView { buf: head, in_frame: true };
    assert(scan(s2, head + tail) == scan(s3, tail));
    assert(scan(s2, p) == scan(s3, tail));

    // The next byte neither completes a stop sentinel nor fits the buffer.
    assert(tail.len() > 0);
    let b = tail.first();
    if s3.buf.last() == FRAME_STOP_0 && b == FRAME_STOP_1 {
        assert(p[MAX_BUFFERED as int] == FRAME_STOP_0);
        assert(p[MAX_BUFFERED + 1 as int] == FRAME_STOP_1);
        assert(false);
    }
    assert(s3.buf.len() > MAX_BUFFERED);
    assert(scan_step(s3, b) == ScanEffect::Malformed);
    assert(scan(s3, tail) == ScanEffect::Malformed);
}

} // verus!
