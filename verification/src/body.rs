//! Bookkeeping of HTTP bodies: `Content-Length` accounting, size hints and
//! the choice of what a body task does with the body it is given.

use crate::request::{scheme_of_name, Method, MethodModel, Scheme, SchemeModel};
use vstd::prelude::*;
use vstd::string::StringExecFns;
use crate::cli::{decimal_chars, push_decimal};

verus! {

/// The `wasi:http` error codes that body handling produces.
#[derive(Clone, Copy, Debug, PartialEq, Eq, Structural)]
pub enum ErrorCode {
    HttpRequestBodySize(Option<u64>),
    HttpResponseBodySize(Option<u64>),
    HttpProtocolError,
    HttpRequestUriInvalid,
    ConnectionReadTimeout,
}

/// Whether the body is a request or response body.
#[derive(Clone, Copy, Debug, PartialEq, Eq, Structural)]
pub enum BodyContext {
    /// The body is a request body.
    Request,
    /// The body is a response body.
    Response,
}

/// The body-size error of the given context, carrying `size`.
pub open spec fn body_size_error(cx: BodyContext, size: u64) -> ErrorCode {
    match cx {
        BodyContext::Request => ErrorCode::HttpRequestBodySize(Some(size)),
        BodyContext::Response => ErrorCode::HttpResponseBodySize(Some(size)),
    }
}

impl BodyContext {
    /// Constructs the body size error that fits this context.
    pub fn as_body_size_error(&self, size: u64) -> (r: ErrorCode)
        ensures
            r == body_size_error(*self, size),
    {
        match self {
            BodyContext::Request => ErrorCode::HttpRequestBodySize(Some(size)),
            BodyContext::Response => ErrorCode::HttpResponseBodySize(Some(size)),
        }
    }
}

/// A `Content-Length` limit and the number of bytes sent against it.
#[derive(Clone, Copy, Debug, PartialEq, Eq, Structural)]
pub struct ContentLength {
    /// Limit of bytes to be sent.
    pub limit: u64,
    /// Number of bytes sent.
    pub sent: u64,
}

impl ContentLength {
    /// A limit of `limit` bytes, none of them sent yet.
    pub fn new(limit: u64) -> (r: Self)
        ensures
            r == (ContentLength { limit, sent: 0 }),
    {
        ContentLength { limit, sent: 0 }
    }
}

/// What became of one of the streams of a guest body.
pub enum MaybeTombstone<T> {
    /// The value is available.
    Present(T),
    /// The value was taken into a body task that has finished; it can no
    /// longer be read.
    Tombstone,
    /// The guest provided no value.
    Absent,
}

impl<T> MaybeTombstone<T> {
    /// Which of the three cases this is, without its payload.
    pub fn presence(&self) -> (r: Presence)
        ensures
            r == match self {
                MaybeTombstone::Present(_) => Presence::Present,
                MaybeTombstone::Tombstone => Presence::Tombstone,
                MaybeTombstone::Absent => Presence::Absent,
            },
    {
        match self {
            MaybeTombstone::Present(_) => Presence::Present,
            MaybeTombstone::Tombstone => Presence::Tombstone,
            MaybeTombstone::Absent => Presence::Absent,
        }
    }
}

/// The case of a `MaybeTombstone`, without its payload.
#[derive(Clone, Copy, Debug, PartialEq, Eq, Structural)]
pub enum Presence {
    Present,
    Tombstone,
    Absent,
}

/// The `Content-Length` accounting of a chunk of `len` bytes of an outgoing
/// body: the new count of bytes sent, or the size to report, none when the
/// count would overflow and the new count when it passes the limit.
pub open spec fn chunk_outcome(cl: ContentLength, len: int) -> Result<u64, Option<u64>> {
    if cl.sent + len > u64::MAX {
        Err(None)
    } else if cl.sent + len > cl.limit {
        Err(Some((cl.sent + len) as u64))
    } else {
        Ok((cl.sent + len) as u64)
    }
}

/// Counts a chunk of `len` bytes of an outgoing body against its
/// `Content-Length`, if it has one. Fails, leaving the count as it was, when
/// the total would overflow (no size) or exceed the limit (the total).
pub fn record_outgoing_chunk(content_length: &mut Option<ContentLength>, len: usize) -> (r: Result<
    (),
    ErrorCode,
>)
    ensures
        match *old(content_length) {
            None => r is Ok && *final(content_length) == *old(content_length),
            Some(cl) => match chunk_outcome(cl, len as int) {
                Ok(sent) => r is Ok && *final(content_length) == Some(
                    ContentLength { limit: cl.limit, sent },
                ),
                Err(size) => r == Err::<(), ErrorCode>(ErrorCode::HttpRequestBodySize(size))
                    && *final(content_length) == *old(content_length),
            },
        },
{
    match content_length {
        None => Ok(()),
        Some(cl) => {
            let n = len as u64;
            let total = match cl.sent.checked_add(n) {
                Some(t) => t,
                None => return Err(ErrorCode::HttpRequestBodySize(None)),
            };
            if total > cl.limit {
                return Err(ErrorCode::HttpRequestBodySize(Some(total)));
            }
            cl.sent = total;
            Ok(())
        },
    }
}

/// Checks, when an outgoing body ends, that exactly the announced number of
/// bytes was sent.
pub fn finish_outgoing(content_length: Option<ContentLength>) -> (r: Result<(), ErrorCode>)
    ensures
        r == match content_length {
            Some(cl) => if cl.limit != cl.sent {
                Err(ErrorCode::HttpRequestBodySize(Some(cl.sent)))
            } else {
                Ok(())
            },
            None => Ok::<(), ErrorCode>(()),
        },
{
    match content_length {
        Some(cl) => {
            if cl.limit != cl.sent {
                Err(ErrorCode::HttpRequestBodySize(Some(cl.sent)))
            } else {
                Ok(())
            }
        },
        None => Ok(()),
    }
}

/// Bounds on the number of bytes a body has left to produce.
#[derive(Clone, Copy, Debug, PartialEq, Eq, Structural)]
pub struct SizeHint {
    lower: u64,
    upper: Option<u64>,
}

impl SizeHint {
    /// The lower bound.
    pub closed spec fn lo(&self) -> u64 {
        self.lower
    }

    /// The upper bound, if any.
    pub closed spec fn hi(&self) -> Option<u64> {
        self.upper
    }

    /// The upper bound is never below the lower one.
    pub closed spec fn wf(&self) -> bool {
        self.upper matches Some(u) ==> self.lower <= u
    }

    /// No information: at least 0 bytes, no upper bound.
    pub fn unknown() -> (r: Self)
        ensures
            r.wf(),
            r.lo() == 0,
            r.hi() is None,
    {
        SizeHint { lower: 0, upper: None }
    }

    /// Exactly `n` bytes.
    pub fn with_exact(n: u64) -> (r: Self)
        ensures
            r.wf(),
            r.lo() == n,
            r.hi() == Some(n),
    {
        SizeHint { lower: n, upper: Some(n) }
    }

    /// A hint with the given bounds, when they are consistent.
    pub fn with_bounds(lower: u64, upper: Option<u64>) -> (r: Option<Self>)
        ensures
            match r {
                Some(h) => h.wf() && h.lo() == lower && h.hi() == upper,
                None => upper matches Some(u) && u < lower,
            },
    {
        match upper {
            Some(u) => if u < lower {
                None
            } else {
                Some(SizeHint { lower, upper })
            },
            None => Some(SizeHint { lower, upper }),
        }
    }

    /// The lower bound.
    pub fn lower(&self) -> (r: u64)
        ensures
            r == self.lo(),
    {
        self.lower
    }

    /// The upper bound, if any.
    pub fn upper(&self) -> (r: Option<u64>)
        ensures
            r == self.hi(),
    {
        self.upper
    }
}

/// The size hint of a guest-produced outgoing body.
pub fn outgoing_size_hint(content_length: Option<ContentLength>) -> (r: SizeHint)
    ensures
        r.wf(),
        match content_length {
            Some(cl) => {
                let left = if cl.sent <= cl.limit {
                    (cl.limit - cl.sent) as u64
                } else {
                    0u64
                };
                r.lo() == left && r.hi() == Some(left)
            },
            None => r.lo() == 0 && r.hi() is None,
        },
{
    match content_length {
        Some(cl) => SizeHint::with_exact(cl.limit.saturating_sub(cl.sent)),
        None => SizeHint::unknown(),
    }
}

/// The size hint of a body checked against a `Content-Length`: the inner
/// body's hint, narrowed to the bytes the limit leaves.
pub open spec fn narrowed_hint(lower: u64, upper: Option<u64>, left: u64) -> (u64, Option<u64>) {
    if lower >= left {
        (left, Some(left))
    } else {
        match upper {
            Some(max) => (lower, Some(if left <= max { left } else { max })),
            None => (lower, Some(left)),
        }
    }
}

/// Narrows the size hint of an inner body to what its `Content-Length`
/// still allows.
pub fn checked_size_hint(inner: SizeHint, content_length: Option<ContentLength>) -> (r: SizeHint)
    requires
        inner.wf(),
    ensures
        r.wf(),
        match content_length {
            Some(cl) => {
                let left = if cl.sent <= cl.limit {
                    (cl.limit - cl.sent) as u64
                } else {
                    0u64
                };
                (r.lo(), r.hi()) == narrowed_hint(inner.lo(), inner.hi(), left)
            },
            None => r == inner,
        },
{
    match content_length {
        None => inner,
        Some(cl) => {
            let left = cl.limit.saturating_sub(cl.sent);
            if inner.lower >= left {
                SizeHint { lower: left, upper: Some(left) }
            } else {
                match inner.upper {
                    Some(max) => {
                        let u = if left <= max {
                            left
                        } else {
                            max
                        };
                        SizeHint { lower: inner.lower, upper: Some(u) }
                    },
                    None => SizeHint { lower: inner.lower, upper: Some(left) },
                }
            }
        },
    }
}

/// What polling the inner body of a length-checked body produced.
#[derive(Clone, Copy, Debug, PartialEq, Eq, Structural)]
pub enum Polled {
    /// A data frame of the given length.
    Data(u64),
    /// A frame that carries no data (trailers).
    Other,
    /// An error from the inner body.
    Error,
    /// The end of the inner body.
    End,
}

/// What a length-checked body yields for a polled frame.
#[derive(Clone, Copy, Debug, PartialEq, Eq, Structural)]
pub enum Verdict {
    /// Yield what the inner body produced, unchanged.
    Forward,
    /// Yield an error: more bytes than announced, this many so far.
    TooLong(u64),
    /// Yield an error: the body ended after this many bytes, fewer than
    /// announced.
    TooShort(u64),
}

/// A body checked against the `Content-Length` announced in its headers. Once
/// a mismatch has been reported, the body ends.
pub struct LengthCheck {
    content_length: Option<ContentLength>,
    body_length_mismatch: bool,
}

impl LengthCheck {
    /// The limit and count, if a `Content-Length` was announced.
    pub closed spec fn limit(&self) -> Option<ContentLength> {
        self.content_length
    }

    /// Whether a mismatch has been reported.
    pub closed spec fn mismatched(&self) -> bool {
        self.body_length_mismatch
    }

    /// Starts checking against `content_length`, with nothing yet counted
    /// beyond what it says was sent.
    pub fn new(content_length: Option<ContentLength>) -> (r: Self)
        ensures
            r.limit() == content_length,
            !r.mismatched(),
    {
        LengthCheck { content_length, body_length_mismatch: false }
    }

    /// Whether the body has ended because of a reported mismatch; the inner
    /// body is not polled any more then.
    pub fn is_stopped(&self) -> (r: bool)
        ensures
            r == self.mismatched(),
    {
        self.body_length_mismatch
    }

    /// Accounts for what polling the inner body produced. Data frames count
    /// towards the limit (saturating); passing the limit, or ending short of
    /// it, is reported once and stops the body.
    pub fn observe(&mut self, polled: Polled) -> (r: Verdict)
        requires
            !old(self).mismatched(),
        ensures
            match old(self).limit() {
                None => r == Verdict::Forward && final(self).limit() == old(self).limit()
                    && !final(self).mismatched(),
                Some(cl) => match polled {
                    Polled::Data(n) => {
                        let sent = if cl.sent + n > u64::MAX {
                            u64::MAX
                        } else {
                            (cl.sent + n) as u64
                        };
                        &&& final(self).limit() == Some(ContentLength { limit: cl.limit, sent })
                        &&& if sent > cl.limit {
                            r == Verdict::TooLong(sent) && final(self).mismatched()
                        } else {
                            r == Verdict::Forward && !final(self).mismatched()
                        }
                    },
                    Polled::End => {
                        &&& final(self).limit() == old(self).limit()
                        &&& if cl.sent != cl.limit {
                            r == Verdict::TooShort(cl.sent) && final(self).mismatched()
                        } else {
                            r == Verdict::Forward && !final(self).mismatched()
                        }
                    },
                    _ => r == Verdict::Forward && final(self).limit() == old(self).limit()
                        && !final(self).mismatched(),
                },
            },
    {
        match &mut self.content_length {
            None => Verdict::Forward,
            Some(cl) => match polled {
                Polled::Data(n) => {
                    cl.sent = cl.sent.saturating_add(n);
                    if cl.sent > cl.limit {
                        let sent = cl.sent;
                        self.body_length_mismatch = true;
                        Verdict::TooLong(sent)
                    } else {
                        Verdict::Forward
                    }
                },
                Polled::End => {
                    if cl.sent != cl.limit {
                        let sent = cl.sent;
                        self.body_length_mismatch = true;
                        Verdict::TooShort(sent)
                    } else {
                        Verdict::Forward
                    }
                },
                _ => Verdict::Forward,
            },
        }
    }
}

/// One step of a length check with limit and count `cl`: the verdict on
/// `p`, and the limit and count after it.
pub open spec fn length_step(cl: Option<ContentLength>, p: Polled) -> (Verdict, Option<ContentLength>) {
    match cl {
        None => (Verdict::Forward, None),
        Some(c) => match p {
            Polled::Data(n) => {
                let sent = if c.sent + n > u64::MAX {
                    u64::MAX
                } else {
                    (c.sent + n) as u64
                };
                (
                    if sent > c.limit {
                        Verdict::TooLong(sent)
                    } else {
                        Verdict::Forward
                    },
                    Some(ContentLength { limit: c.limit, sent }),
                )
            },
            Polled::End => (
                if c.sent != c.limit {
                    Verdict::TooShort(c.sent)
                } else {
                    Verdict::Forward
                },
                cl,
            ),
            _ => (Verdict::Forward, cl),
        },
    }
}

/// The verdicts of a length check on a sequence of polls, up to and
/// including the first mismatch, after which the body is not polled again.
pub open spec fn length_verdicts(cl: Option<ContentLength>, polls: Seq<Polled>) -> Seq<Verdict>
    decreases polls.len(),
{
    if polls.len() == 0 {
        Seq::empty()
    } else {
        let (v, next) = length_step(cl, polls[0]);
        if v != Verdict::Forward {
            seq![v]
        } else {
            seq![v] + length_verdicts(next, polls.skip(1))
        }
    }
}

impl LengthCheck {
    /// Checks each poll in turn, stopping at the first mismatch, and
    /// returns the verdicts.
    pub fn observe_all(&mut self, polls: &Vec<Polled>) -> (r: Vec<Verdict>)
        requires
            !old(self).mismatched(),
        ensures
            r@ == length_verdicts(old(self).limit(), polls@),
    {
        let mut out: Vec<Verdict> = Vec::new();
        let mut i: usize = 0;
        proof {
            assert(polls@.skip(0) =~= polls@);
            assert(out@ + length_verdicts(self.limit(), polls@) =~= length_verdicts(
                self.limit(),
                polls@,
            ));
        }
        while i < polls.len()
            invariant
                i <= polls@.len(),
                !self.mismatched(),
                length_verdicts(old(self).limit(), polls@) == out@ + length_verdicts(
                    self.limit(),
                    polls@.skip(i as int),
                ),
            decreases polls@.len() - i,
        {
            let ghost cl = self.limit();
            let ghost rest = polls@.skip(i as int);
            proof {
                assert(rest[0] == polls@[i as int]);
                assert(rest.skip(1) =~= polls@.skip(i + 1));
            }
            let v = self.observe(polls[i]);
            proof {
                assert(v == length_step(cl, polls@[i as int]).0);
            }
            out.push(v);
            if self.is_stopped() {
                proof {
                    assert(length_verdicts(cl, rest) =~= seq![v]);
                }
                return out;
            }
            proof {
                assert(self.limit() == length_step(cl, polls@[i as int]).1);
                assert(length_verdicts(cl, rest) =~= seq![v] + length_verdicts(
                    self.limit(),
                    polls@.skip(i + 1),
                ));
            }
            i = i + 1;
        }
        proof {
            assert(polls@.skip(i as int) =~= Seq::<Polled>::empty());
        }
        out
    }
}

/// The limit and count of a length check after its first `i` polls.
pub open spec fn length_after(cl: Option<ContentLength>, polls: Seq<Polled>, i: nat) -> Option<
    ContentLength,
>
    decreases i,
{
    if i == 0 {
        cl
    } else {
        length_step(length_after(cl, polls, (i - 1) as nat), polls[i - 1]).1
    }
}

proof fn lemma_length_after_shift(cl: Option<ContentLength>, polls: Seq<Polled>, i: nat)
    requires
        0 < polls.len(),
        i < polls.len(),
    ensures
        length_after(cl, polls, i + 1) == length_after(
            length_step(cl, polls[0]).1,
            polls.skip(1),
            i,
        ),
    decreases i,
{
    if i > 0 {
        lemma_length_after_shift(cl, polls, (i - 1) as nat);
        assert(polls.skip(1)[i - 1] == polls[i as int]);
        assert(length_after(cl, polls, i + 1) == length_step(length_after(cl, polls, i), polls[i as int]).1);
        assert(length_after(length_step(cl, polls[0]).1, polls.skip(1), i) == length_step(
            length_after(length_step(cl, polls[0]).1, polls.skip(1), (i - 1) as nat),
            polls.skip(1)[i - 1],
        ).1);
    } else {
        assert(length_after(cl, polls, 0) == cl);
        assert(length_after(cl, polls, 1) == length_step(length_after(cl, polls, 0), polls[0]).1);
        assert(length_after(length_step(cl, polls[0]).1, polls.skip(1), 0) == length_step(cl, polls[0]).1);
    }
}

/// The law of a length-checked body, over any sequence of polls: each
/// verdict is that of its poll against the count so far (data passes while
/// the count stays within the limit; the data that takes it past the limit
/// is reported too long, with the count; an end short of the limit is
/// reported too short, with the count); only the last verdict can be an
/// error, so a mismatch is reported once; and the check stops after it.
/// Without a `Content-Length` every poll is forwarded.
pub proof fn lemma_length_check_law(cl: Option<ContentLength>, polls: Seq<Polled>)
    ensures
        length_verdicts(cl, polls).len() <= polls.len(),
        polls.len() > 0 ==> length_verdicts(cl, polls).len() > 0,
        forall|i: int|
            0 <= i < length_verdicts(cl, polls).len() ==> #[trigger] length_verdicts(cl, polls)[i]
                == length_step(length_after(cl, polls, i as nat), polls[i]).0,
        forall|i: int|
            0 <= i < length_verdicts(cl, polls).len() - 1 ==> #[trigger] length_verdicts(
                cl,
                polls,
            )[i] == Verdict::Forward,
        length_verdicts(cl, polls).len() < polls.len() ==> length_verdicts(cl, polls).last()
            != Verdict::Forward,
        cl is None ==> length_verdicts(cl, polls).len() == polls.len(),
    decreases polls.len(),
{
    if polls.len() > 0 {
        let (v, next) = length_step(cl, polls[0]);
        let rest = polls.skip(1);
        lemma_length_check_law(next, rest);
        let tail = length_verdicts(next, rest);
        let all = length_verdicts(cl, polls);
        if v != Verdict::Forward {
            assert(all =~= seq![v]);
        } else {
            assert(all =~= seq![v] + tail);
            assert forall|i: int| 0 <= i < all.len() implies #[trigger] all[i] == length_step(
                length_after(cl, polls, i as nat),
                polls[i],
            ).0 by {
                if i > 0 {
                    lemma_length_after_shift(cl, polls, (i - 1) as nat);
                    assert(all[i] == tail[i - 1]);
                    assert(rest[i - 1] == polls[i]);
                }
            }
            assert forall|i: int| 0 <= i < all.len() - 1 implies #[trigger] all[i]
                == Verdict::Forward by {
                if i > 0 {
                    assert(all[i] == tail[i - 1]);
                }
            }
            if all.len() < polls.len() {
                assert(all.last() == tail.last());
            }
        }
    }
}

/// The bytes the data polls carry.
pub open spec fn data_total(polls: Seq<Polled>) -> int
    decreases polls.len(),
{
    if polls.len() == 0 {
        0
    } else {
        (match polls[0] {
            Polled::Data(n) => n as int,
            _ => 0,
        }) + data_total(polls.skip(1))
    }
}

/// A body whose data frames add up to exactly the length announced, and
/// which then ends, passes its length check unchanged: every poll is
/// forwarded.
pub proof fn lemma_exact_body_forwarded(cl: ContentLength, polls: Seq<Polled>)
    requires
        polls.len() > 0,
        polls.last() == Polled::End,
        forall|i: int| 0 <= i < polls.len() - 1 ==> #[trigger] polls[i] is Data,
        cl.sent + data_total(polls) == cl.limit,
    ensures
        length_verdicts(Some(cl), polls).len() == polls.len(),
        forall|i: int|
            0 <= i < polls.len() ==> #[trigger] length_verdicts(Some(cl), polls)[i]
                == Verdict::Forward,
    decreases polls.len(),
{
    if polls.len() == 1 {
        assert(polls[0] == Polled::End);
        assert(polls.skip(1) =~= Seq::<Polled>::empty());
        assert(data_total(polls.skip(1)) == 0);
        assert(data_total(polls) == 0);
        assert(length_verdicts(Some(cl), polls.skip(1)) =~= Seq::<Verdict>::empty());
        assert(length_verdicts(Some(cl), polls) =~= seq![Verdict::Forward] + Seq::<Verdict>::empty());
    } else {
        let rest = polls.skip(1);
        assert(polls[0] is Data);
        let n = polls[0]->Data_0;
        assert(rest.last() == polls.last());
        assert forall|i: int| 0 <= i < rest.len() - 1 implies #[trigger] rest[i] is Data by {
            assert(rest[i] == polls[i + 1]);
        }
        lemma_data_total_nonneg(rest);
        let next = ContentLength { limit: cl.limit, sent: (cl.sent + n) as u64 };
        lemma_exact_body_forwarded(next, rest);
        let tail = length_verdicts(Some(next), rest);
        assert(length_verdicts(Some(cl), polls) =~= seq![Verdict::Forward] + tail);
        assert forall|i: int| 0 <= i < polls.len() implies #[trigger] length_verdicts(
            Some(cl),
            polls,
        )[i] == Verdict::Forward by {
            if i > 0 {
                assert(length_verdicts(Some(cl), polls)[i] == tail[i - 1]);
            }
        }
    }
}

proof fn lemma_data_total_nonneg(polls: Seq<Polled>)
    ensures
        data_total(polls) >= 0,
    decreases polls.len(),
{
    if polls.len() > 0 {
        lemma_data_total_nonneg(polls.skip(1));
    }
}

/// The error that a length-checked request body reports for a mismatch.
pub fn length_error(verdict: Verdict) -> (r: Option<ErrorCode>)
    ensures
        r == match verdict {
            Verdict::Forward => None,
            Verdict::TooLong(n) => Some(ErrorCode::HttpRequestBodySize(Some(n))),
            Verdict::TooShort(n) => Some(ErrorCode::HttpRequestBodySize(Some(n))),
        },
{
    match verdict {
        Verdict::Forward => None,
        Verdict::TooLong(n) => Some(ErrorCode::HttpRequestBodySize(Some(n))),
        Verdict::TooShort(n) => Some(ErrorCode::HttpRequestBodySize(Some(n))),
    }
}

/// What a body holds in its one-frame buffer.
#[derive(Clone, Copy, Debug, PartialEq, Eq, Structural)]
pub enum Buffered {
    /// Nothing is buffered.
    Nothing,
    /// A data frame is buffered.
    Data,
    /// Trailers are buffered, and they are `Ok(None)`: no trailers.
    NoTrailers,
    /// Trailer fields are buffered: `Ok(Some(..))`.
    TrailerFields,
    /// An error is buffered in place of trailers.
    TrailerError,
}

/// Whether a trailers result (of any kind) is buffered.
pub open spec fn holds_trailers(b: Buffered) -> bool {
    b == Buffered::NoTrailers || b == Buffered::TrailerFields || b == Buffered::TrailerError
}

/// The parts of a body that decide what a body task does with it.
#[derive(Clone, Copy, Debug, PartialEq, Eq, Structural)]
pub enum BodyShape {
    /// A body constructed by the guest.
    Guest {
        contents: Presence,
        trailers: Presence,
        buffer: Buffered,
        content_length: Option<ContentLength>,
    },
    /// A body constructed by the host.
    Host { has_stream: bool, buffer: Buffered },
    /// A body that was already fully consumed.
    Consumed,
}

/// What a body task does with the body it takes.
#[derive(Clone, Copy, Debug, PartialEq, Eq, Structural)]
pub enum BodyPlan {
    /// Report a body-size error with this count to both the transmission
    /// result and the trailers.
    SizeError(u64),
    /// Wait for the guest's trailers and forward them.
    ForwardGuestTrailers,
    /// Forward the trailers already buffered from the guest.
    ForwardBufferedTrailers,
    /// Stream the guest contents, after first writing out a buffered data
    /// frame if `resume` holds.
    StreamGuest { resume: bool },
    /// Stream the host body, after first writing out a buffered data frame
    /// if `resume` holds.
    StreamHost { resume: bool },
    /// Forward the trailers already buffered from the host body.
    ForwardHostTrailers,
    /// The guest body is in a state that cannot arise.
    CorruptedGuest,
    /// The host body is in a state that cannot arise.
    CorruptedHost,
    /// The body was already consumed.
    Consumed,
}

/// The plan for a body of the given shape, the first of these that applies.
pub open spec fn body_plan(shape: BodyShape) -> BodyPlan {
    match shape {
        BodyShape::Guest { contents, trailers, buffer, content_length } => {
            if contents == Presence::Absent && (buffer == Buffered::NoTrailers || buffer
                == Buffered::Nothing) && content_length is Some && content_length->0.limit
                != content_length->0.sent {
                BodyPlan::SizeError(content_length->0.sent)
            } else if contents == Presence::Absent && trailers == Presence::Present && buffer
                == Buffered::Nothing && content_length is None {
                BodyPlan::ForwardGuestTrailers
            } else if contents == Presence::Absent && trailers == Presence::Absent && holds_trailers(
                buffer,
            ) && content_length is None {
                BodyPlan::ForwardBufferedTrailers
            } else if contents == Presence::Present && trailers == Presence::Present && (buffer
                == Buffered::Nothing || buffer == Buffered::Data) {
                BodyPlan::StreamGuest { resume: buffer == Buffered::Data }
            } else {
                BodyPlan::CorruptedGuest
            }
        },
        BodyShape::Host { has_stream, buffer } => {
            if has_stream && (buffer == Buffered::Nothing || buffer == Buffered::Data) {
                BodyPlan::StreamHost { resume: buffer == Buffered::Data }
            } else if !has_stream && holds_trailers(buffer) {
                BodyPlan::ForwardHostTrailers
            } else {
                BodyPlan::CorruptedHost
            }
        },
        BodyShape::Consumed => BodyPlan::Consumed,
    }
}

/// Decides what a body task does with a body of the given shape.
pub fn plan_body_task(shape: BodyShape) -> (r: BodyPlan)
    ensures
        r == body_plan(shape),
{
    match shape {
        BodyShape::Guest { contents, trailers, buffer, content_length } => {
            let no_contents = matches!(contents, Presence::Absent);
            let buffer_empty_or_no_trailers = matches!(buffer, Buffered::NoTrailers)
                || matches!(buffer, Buffered::Nothing);
            if no_contents && buffer_empty_or_no_trailers {
                if let Some(cl) = content_length {
                    if cl.limit != cl.sent {
                        return BodyPlan::SizeError(cl.sent);
                    }
                }
            }
            let no_limit = content_length.is_none();
            if no_contents && matches!(trailers, Presence::Present) && matches!(
                buffer,
                Buffered::Nothing
            ) && no_limit {
                BodyPlan::ForwardGuestTrailers
            } else if no_contents && matches!(trailers, Presence::Absent) && !matches!(
                buffer,
                Buffered::Nothing
            ) && !matches!(buffer, Buffered::Data) && no_limit {
                BodyPlan::ForwardBufferedTrailers
            } else if matches!(contents, Presence::Present) && matches!(
                trailers,
                Presence::Present
            ) && (matches!(buffer, Buffered::Nothing) || matches!(buffer, Buffered::Data)) {
                BodyPlan::StreamGuest { resume: matches!(buffer, Buffered::Data) }
            } else {
                BodyPlan::CorruptedGuest
            }
        },
        BodyShape::Host { has_stream, buffer } => {
            if has_stream && (matches!(buffer, Buffered::Nothing) || matches!(
                buffer,
                Buffered::Data
            )) {
                BodyPlan::StreamHost { resume: matches!(buffer, Buffered::Data) }
            } else if !has_stream && !matches!(buffer, Buffered::Nothing) && !matches!(
                buffer,
                Buffered::Data
            ) {
                BodyPlan::ForwardHostTrailers
            } else {
                BodyPlan::CorruptedHost
            }
        },
        BodyShape::Consumed => BodyPlan::Consumed,
    }
}

impl BodyPlan {
    /// Whether the body task closes the contents stream at once, without
    /// writing any data: for a size error and for trailers only.
    pub fn closes_contents_at_once(&self) -> (r: bool)
        ensures
            r == (*self is SizeError || *self is ForwardGuestTrailers
                || *self is ForwardBufferedTrailers || *self is ForwardHostTrailers),
    {
        match self {
            BodyPlan::SizeError(_) | BodyPlan::ForwardGuestTrailers
            | BodyPlan::ForwardBufferedTrailers | BodyPlan::ForwardHostTrailers => true,
            _ => false,
        }
    }

    /// Whether the body task may put a body back in its slot: only when a
    /// write to the contents stream or the trailers could not complete. A
    /// size error reports and leaves the slot `Consumed`.
    pub fn may_restore_body(&self) -> (r: bool)
        ensures
            r == !(*self is SizeError || *self is CorruptedGuest || *self is CorruptedHost
                || *self is Consumed),
    {
        match self {
            BodyPlan::SizeError(_) | BodyPlan::CorruptedGuest | BodyPlan::CorruptedHost
            | BodyPlan::Consumed => false,
            _ => true,
        }
    }
}

/// The body task takes the body out of its slot, leaving it `Consumed`.
pub fn take_body_shape(slot: &mut BodyShape) -> (r: BodyShape)
    ensures
        r == *old(slot),
        *final(slot) == BodyShape::Consumed,
{
    let r = *slot;
    *slot = BodyShape::Consumed;
    r
}

/// A frame of a host body's stream, as the body task receives it.
#[derive(Clone, Debug)]
pub enum HostFrame {
    /// A data frame.
    Data(Vec<u8>),
    /// Trailer fields, pushed as the resource with this handle.
    Trailers(u32),
    /// A frame that is neither data nor trailers.
    Unknown,
    /// The stream failed with this error.
    Failed(ErrorCode),
    /// The stream ended.
    End,
}

/// What the trailers future receives when a host body's stream stops with
/// a frame other than data.
pub open spec fn host_trailers(frame: HostFrame) -> Result<Option<u32>, ErrorCode> {
    match frame {
        HostFrame::Trailers(h) => Ok(Some(h)),
        HostFrame::Unknown => Err(ErrorCode::HttpProtocolError),
        HostFrame::Failed(e) => Err(e),
        _ => Ok(None),
    }
}

/// What a body task forwards from the frames of a host body's stream, while
/// the contents reader keeps reading: the bytes of the data frames, in
/// order, to the contents stream, until the first frame that is not data;
/// that frame closes the contents stream and decides what the trailers
/// future receives (none at the end of the stream, the fields, or the
/// error). With no such frame yet, the trailers are still to come (`None`).
pub open spec fn host_forwarded(frames: Seq<HostFrame>) -> (Seq<u8>, Option<Result<Option<u32>, ErrorCode>>)
    decreases frames.len(),
{
    if frames.len() == 0 {
        (Seq::empty(), None)
    } else {
        match frames[0] {
            HostFrame::Data(b) => {
                let rest = host_forwarded(frames.skip(1));
                (b@ + rest.0, rest.1)
            },
            other => (Seq::empty(), Some(host_trailers(other))),
        }
    }
}

/// Forwards the frames of a host body's stream as the body task does: data
/// to the contents stream, then the trailers result at the first frame that
/// is not data.
pub fn forward_host_frames(frames: &Vec<HostFrame>) -> (r: (Vec<u8>, Option<Result<Option<u32>, ErrorCode>>))
    ensures
        r.0@ == host_forwarded(frames@).0,
        r.1 == host_forwarded(frames@).1,
{
    let mut contents: Vec<u8> = Vec::new();
    let mut i: usize = 0;
    proof {
        assert(frames@.skip(0) =~= frames@);
        assert(contents@ + host_forwarded(frames@).0 =~= host_forwarded(frames@).0);
    }
    while i < frames.len()
        invariant
            i <= frames@.len(),
            host_forwarded(frames@) == (
                contents@ + host_forwarded(frames@.skip(i as int)).0,
                host_forwarded(frames@.skip(i as int)).1,
            ),
        decreases frames@.len() - i,
    {
        proof {
            assert(frames@.skip(i as int)[0] == frames@[i as int]);
            assert(frames@.skip(i as int).skip(1) =~= frames@.skip(i + 1));
        }
        let trailers = match &frames[i] {
            HostFrame::Data(b) => {
                let ghost before = contents@;
                let mut k: usize = 0;
                while k < b.len()
                    invariant
                        k <= b@.len(),
                        contents@ == before + b@.take(k as int),
                    decreases b@.len() - k,
                {
                    contents.push(b[k]);
                    proof {
                        assert(b@.take(k + 1) =~= b@.take(k as int).push(b@[k as int]));
                    }
                    k = k + 1;
                }
                proof {
                    assert(b@.take(b@.len() as int) =~= b@);
                    let rest = host_forwarded(frames@.skip(i + 1));
                    assert(before + (b@ + rest.0) =~= contents@ + rest.0);
                }
                None
            },
            HostFrame::Trailers(h) => Some(Ok(Some(*h))),
            HostFrame::Unknown => Some(Err(ErrorCode::HttpProtocolError)),
            HostFrame::Failed(e) => Some(Err(*e)),
            HostFrame::End => Some(Ok(None)),
        };
        if let Some(t) = trailers {
            proof {
                assert(contents@ + Seq::<u8>::empty() =~= contents@);
            }
            return (contents, Some(t));
        }
        i = i + 1;
    }
    proof {
        assert(frames@.skip(i as int) =~= Seq::<HostFrame>::empty());
        assert(contents@ + Seq::<u8>::empty() =~= contents@);
    }
    (contents, None)
}

/// A body task streams a host body exactly when the body still has its
/// stream and at most a data frame buffered, and a guest body exactly when
/// its contents and trailers are both still to be read and at most a data
/// frame is buffered; either way it writes out a buffered frame first
/// exactly when a data frame is buffered.
pub proof fn lemma_body_task_resumes_only_buffered_data(shape: BodyShape)
    ensures
        body_plan(shape) matches BodyPlan::StreamHost { resume } ==> (shape matches BodyShape::Host {
            has_stream,
            buffer,
        } && has_stream && resume == (buffer == Buffered::Data)),
        body_plan(shape) matches BodyPlan::StreamGuest { resume } ==> (shape matches BodyShape::Guest {
            contents,
            trailers,
            buffer,
            ..
        } && contents == Presence::Present && trailers == Presence::Present && resume == (buffer
            == Buffered::Data)),
        shape matches BodyShape::Host { has_stream, buffer } && has_stream && (buffer
            == Buffered::Nothing || buffer == Buffered::Data) ==> body_plan(shape) is StreamHost,
        shape matches BodyShape::Guest { contents, trailers, buffer, .. } && contents
            == Presence::Present && trailers == Presence::Present && (buffer == Buffered::Nothing
            || buffer == Buffered::Data) ==> body_plan(shape) is StreamGuest,
{
}

/// A body task reports a size error exactly for a guest body that has no
/// contents left to read, no trailer fields or error buffered, and a
/// `Content-Length` whose count of bytes sent differs from its limit; the
/// error carries that count.
pub proof fn lemma_body_task_size_error(shape: BodyShape)
    ensures
        (body_plan(shape) is SizeError) <==> guest_length_mismatch(shape),
        body_plan(shape) matches BodyPlan::SizeError(n) ==> n == guest_limit(shape).sent,
        (body_plan(shape) is Consumed) <==> (shape is Consumed),
{
}

/// What the outgoing handler does with the body of a request it sends.
#[derive(Clone, Copy, Debug, PartialEq, Eq, Structural)]
pub enum SendPlan {
    /// Refuse the request with a request-body-size error carrying this
    /// count, which is also reported to the guest as the transmission
    /// result.
    SizeError(u64),
    /// Send an empty body; for a guest body (`guest`) the transmission
    /// result is reported to the guest.
    Empty { guest: bool },
    /// Send an empty body followed by the buffered trailer fields.
    BufferedTrailers { guest: bool },
    /// Refuse the request with the buffered error (reported to the guest
    /// too for a guest body).
    BufferedError { guest: bool },
    /// Send an empty body whose trailers the guest is still to provide.
    GuestTrailers,
    /// Send the guest contents as they are read, starting with a buffered
    /// data frame if `resume` holds.
    StreamGuest { resume: bool },
    /// Send the host body, starting with a buffered data frame if `resume`
    /// holds.
    StreamHost { resume: bool },
    /// The guest body is in a state that cannot arise.
    CorruptedGuest,
    /// The host body is in a state that cannot arise.
    CorruptedHost,
}

/// The plan for sending a body of the given shape, the first of these that
/// applies.
pub open spec fn send_plan(shape: BodyShape) -> SendPlan {
    match shape {
        BodyShape::Guest { contents, trailers, buffer, content_length } => {
            if contents == Presence::Absent && (buffer == Buffered::NoTrailers || buffer
                == Buffered::Nothing) && content_length is Some && content_length->0.limit
                != content_length->0.sent {
                SendPlan::SizeError(content_length->0.sent)
            } else if contents == Presence::Absent && trailers == Presence::Absent
                && content_length is None && holds_trailers(buffer) {
                if buffer == Buffered::NoTrailers {
                    SendPlan::Empty { guest: true }
                } else if buffer == Buffered::TrailerFields {
                    SendPlan::BufferedTrailers { guest: true }
                } else {
                    SendPlan::BufferedError { guest: true }
                }
            } else if contents == Presence::Absent && trailers == Presence::Present && buffer
                == Buffered::Nothing && content_length is None {
                SendPlan::GuestTrailers
            } else if contents == Presence::Present && trailers == Presence::Present && (buffer
                == Buffered::Nothing || buffer == Buffered::Data) {
                SendPlan::StreamGuest { resume: buffer == Buffered::Data }
            } else {
                SendPlan::CorruptedGuest
            }
        },
        BodyShape::Host { has_stream, buffer } => {
            if has_stream && (buffer == Buffered::Nothing || buffer == Buffered::Data) {
                SendPlan::StreamHost { resume: buffer == Buffered::Data }
            } else if !has_stream && buffer == Buffered::TrailerFields {
                SendPlan::BufferedTrailers { guest: false }
            } else if !has_stream && buffer == Buffered::NoTrailers {
                SendPlan::Empty { guest: false }
            } else if !has_stream && buffer == Buffered::TrailerError {
                SendPlan::BufferedError { guest: false }
            } else {
                SendPlan::CorruptedHost
            }
        },
        BodyShape::Consumed => SendPlan::Empty { guest: false },
    }
}

/// The outgoing handler streams a host body exactly when the body still has
/// its stream and at most a data frame buffered, and a guest body exactly
/// when its contents and trailers are both still to be read and at most a
/// data frame is buffered; either way it sends a buffered frame first
/// exactly when a data frame is buffered.
pub proof fn lemma_send_resumes_only_buffered_data(shape: BodyShape)
    ensures
        send_plan(shape) matches SendPlan::StreamHost { resume } ==> (shape matches BodyShape::Host {
            has_stream,
            buffer,
        } && has_stream && resume == (buffer == Buffered::Data)),
        send_plan(shape) matches SendPlan::StreamGuest { resume } ==> (shape matches BodyShape::Guest {
            contents,
            trailers,
            buffer,
            ..
        } && contents == Presence::Present && trailers == Presence::Present && resume == (buffer
            == Buffered::Data)),
        shape matches BodyShape::Host { has_stream, buffer } && has_stream && (buffer
            == Buffered::Nothing || buffer == Buffered::Data) ==> send_plan(shape) is StreamHost,
        shape matches BodyShape::Guest { contents, trailers, buffer, .. } && contents
            == Presence::Present && trailers == Presence::Present && (buffer == Buffered::Nothing
            || buffer == Buffered::Data) ==> send_plan(shape) is StreamGuest,
{
}

/// Whether only a buffered trailers result is left of a body: a host body
/// without its stream, or a guest body with no contents, trailers or limit.
pub open spec fn trailers_only(shape: BodyShape) -> bool {
    match shape {
        BodyShape::Host { has_stream, buffer } => !has_stream && holds_trailers(buffer),
        BodyShape::Guest { contents, trailers, buffer, content_length } => contents
            == Presence::Absent && trailers == Presence::Absent && content_length is None
            && holds_trailers(buffer),
        BodyShape::Consumed => false,
    }
}

/// What a body holds in its buffer.
pub open spec fn buffered_of(shape: BodyShape) -> Buffered {
    match shape {
        BodyShape::Host { buffer, .. } => buffer,
        BodyShape::Guest { buffer, .. } => buffer,
        BodyShape::Consumed => Buffered::Nothing,
    }
}

/// Whether a guest body has nothing left to read and a count of bytes sent
/// that differs from its limit.
pub open spec fn guest_length_mismatch(shape: BodyShape) -> bool {
    match shape {
        BodyShape::Guest { contents, buffer, content_length: Some(cl), .. } => contents
            == Presence::Absent && (buffer == Buffered::Nothing || buffer == Buffered::NoTrailers)
            && cl.sent != cl.limit,
        _ => false,
    }
}

/// The limit and count of a guest body with a `Content-Length`.
pub open spec fn guest_limit(shape: BodyShape) -> ContentLength {
    match shape {
        BodyShape::Guest { content_length: Some(cl), .. } => cl,
        _ => ContentLength { limit: 0, sent: 0 },
    }
}

/// What a send makes of a buffered trailers result: an empty body for "no
/// trailers", the fields after an empty body, or a refusal with the error.
pub open spec fn send_of_trailers(buffer: Buffered, guest: bool) -> SendPlan {
    if buffer == Buffered::NoTrailers {
        SendPlan::Empty { guest }
    } else if buffer == Buffered::TrailerFields {
        SendPlan::BufferedTrailers { guest }
    } else {
        SendPlan::BufferedError { guest }
    }
}

/// What a response makes of a buffered trailers result.
pub open spec fn response_of_trailers(buffer: Buffered, guest: bool) -> ResponsePlan {
    if buffer == Buffered::NoTrailers {
        ResponsePlan::Empty { guest }
    } else if buffer == Buffered::TrailerFields {
        ResponsePlan::BufferedTrailers { guest }
    } else {
        ResponsePlan::BufferedError { guest }
    }
}

/// A send of a body of which only a buffered trailers result is left makes
/// of that result what `send_of_trailers` says, flagged `guest` exactly for
/// a guest body; a guest body whose count of bytes sent differs from its
/// limit, with nothing left to read, is refused with that count.
pub proof fn lemma_send_buffered_trailers(shape: BodyShape)
    ensures
        trailers_only(shape) ==> send_plan(shape) == send_of_trailers(
            buffered_of(shape),
            shape is Guest,
        ),
        guest_length_mismatch(shape) ==> send_plan(shape) == SendPlan::SizeError(
            guest_limit(shape).sent,
        ),
{
}

/// Decides how the outgoing handler sends a body of the given shape.
pub fn plan_send(shape: BodyShape) -> (r: SendPlan)
    ensures
        r == send_plan(shape),
{
    match shape {
        BodyShape::Guest { contents, trailers, buffer, content_length } => {
            let no_contents = matches!(contents, Presence::Absent);
            if no_contents && (matches!(buffer, Buffered::NoTrailers) || matches!(
                buffer,
                Buffered::Nothing
            )) {
                if let Some(cl) = content_length {
                    if cl.limit != cl.sent {
                        return SendPlan::SizeError(cl.sent);
                    }
                }
            }
            let no_limit = content_length.is_none();
            if no_contents && matches!(trailers, Presence::Absent) && no_limit {
                match buffer {
                    Buffered::NoTrailers => return SendPlan::Empty { guest: true },
                    Buffered::TrailerFields => return SendPlan::BufferedTrailers { guest: true },
                    Buffered::TrailerError => return SendPlan::BufferedError { guest: true },
                    _ => {},
                }
            }
            if no_contents && matches!(trailers, Presence::Present) && matches!(
                buffer,
                Buffered::Nothing
            ) && no_limit {
                SendPlan::GuestTrailers
            } else if matches!(contents, Presence::Present) && matches!(
                trailers,
                Presence::Present
            ) && (matches!(buffer, Buffered::Nothing) || matches!(buffer, Buffered::Data)) {
                SendPlan::StreamGuest { resume: matches!(buffer, Buffered::Data) }
            } else {
                SendPlan::CorruptedGuest
            }
        },
        BodyShape::Host { has_stream, buffer } => {
            if has_stream {
                match buffer {
                    Buffered::Nothing => SendPlan::StreamHost { resume: false },
                    Buffered::Data => SendPlan::StreamHost { resume: true },
                    _ => SendPlan::CorruptedHost,
                }
            } else {
                match buffer {
                    Buffered::TrailerFields => SendPlan::BufferedTrailers { guest: false },
                    Buffered::NoTrailers => SendPlan::Empty { guest: false },
                    Buffered::TrailerError => SendPlan::BufferedError { guest: false },
                    _ => SendPlan::CorruptedHost,
                }
            }
        },
        BodyShape::Consumed => SendPlan::Empty { guest: false },
    }
}

/// How a response produced by the guest is turned into an HTTP response
/// for the host.
#[derive(Clone, Copy, Debug, PartialEq, Eq, Structural)]
pub enum ResponsePlan {
    /// The guest body ended with a count of bytes other than its announced
    /// `Content-Length`: the conversion fails.
    LengthMismatch { limit: u64, sent: u64 },
    /// An empty body; for a guest body (`guest`) the transmission result is
    /// still reported to the guest.
    Empty { guest: bool },
    /// An empty body followed by the buffered trailer fields.
    BufferedTrailers { guest: bool },
    /// An empty body whose trailers are the buffered error.
    BufferedError { guest: bool },
    /// An empty body whose trailers the guest is still to provide.
    GuestTrailers,
    /// The guest contents as they are read, starting with a buffered data
    /// frame if `resume` holds.
    StreamGuest { resume: bool },
    /// The host body, starting with a buffered data frame if `resume` holds.
    StreamHost { resume: bool },
    /// The guest body is in a state that cannot arise: the conversion fails.
    CorruptedGuest,
    /// The host body is in a state that cannot arise: the conversion fails.
    CorruptedHost,
}

/// The message with which converting a guest response fails when its body
/// ended with `sent` bytes against a `Content-Length` of `limit`.
pub fn length_mismatch_message(limit: u64, sent: u64) -> (r: String)
    ensures
        r@ == "guest response Content-Length mismatch, limit: "@ + decimal_chars(limit as nat)
            + ", sent: "@ + decimal_chars(sent as nat),
{
    let mut s = String::from_str("guest response Content-Length mismatch, limit: ");
    push_decimal(&mut s, limit);
    s.append(", sent: ");
    push_decimal(&mut s, sent);
    s
}

/// The plan for a response body of the given shape, the first of these
/// that applies.
pub open spec fn response_plan(shape: BodyShape) -> ResponsePlan {
    match shape {
        BodyShape::Guest { contents, trailers, buffer, content_length } => {
            if contents == Presence::Absent && (buffer == Buffered::NoTrailers || buffer
                == Buffered::Nothing) && content_length is Some && content_length->0.limit
                != content_length->0.sent {
                ResponsePlan::LengthMismatch {
                    limit: content_length->0.limit,
                    sent: content_length->0.sent,
                }
            } else if contents == Presence::Absent && trailers == Presence::Absent
                && holds_trailers(buffer) {
                if buffer == Buffered::NoTrailers {
                    ResponsePlan::Empty { guest: true }
                } else if buffer == Buffered::TrailerFields {
                    ResponsePlan::BufferedTrailers { guest: true }
                } else {
                    ResponsePlan::BufferedError { guest: true }
                }
            } else if contents == Presence::Absent && trailers == Presence::Present && buffer
                == Buffered::Nothing {
                ResponsePlan::GuestTrailers
            } else if contents == Presence::Present && trailers == Presence::Present && (buffer
                == Buffered::Nothing || buffer == Buffered::Data) {
                ResponsePlan::StreamGuest { resume: buffer == Buffered::Data }
            } else {
                ResponsePlan::CorruptedGuest
            }
        },
        BodyShape::Host { has_stream, buffer } => {
            if has_stream && (buffer == Buffered::Nothing || buffer == Buffered::Data) {
                ResponsePlan::StreamHost { resume: buffer == Buffered::Data }
            } else if !has_stream && buffer == Buffered::NoTrailers {
                ResponsePlan::Empty { guest: false }
            } else if !has_stream && buffer == Buffered::TrailerFields {
                ResponsePlan::BufferedTrailers { guest: false }
            } else if !has_stream && buffer == Buffered::TrailerError {
                ResponsePlan::BufferedError { guest: false }
            } else {
                ResponsePlan::CorruptedHost
            }
        },
        BodyShape::Consumed => ResponsePlan::Empty { guest: false },
    }
}

/// A response body is handed over as a host stream exactly when the body
/// still has its stream and at most a data frame buffered, and as the
/// guest's contents exactly when its contents and trailers are both still
/// to be read and at most a data frame is buffered; either way a buffered
/// frame comes first exactly when a data frame is buffered.
pub proof fn lemma_response_resumes_only_buffered_data(shape: BodyShape)
    ensures
        response_plan(shape) matches ResponsePlan::StreamHost { resume } ==> (shape matches BodyShape::Host {
            has_stream,
            buffer,
        } && has_stream && resume == (buffer == Buffered::Data)),
        response_plan(shape) matches ResponsePlan::StreamGuest { resume } ==> (shape matches BodyShape::Guest {
            contents,
            trailers,
            buffer,
            ..
        } && contents == Presence::Present && trailers == Presence::Present && resume == (buffer
            == Buffered::Data)),
        shape matches BodyShape::Host { has_stream, buffer } && has_stream && (buffer
            == Buffered::Nothing || buffer == Buffered::Data) ==> response_plan(shape) is StreamHost,
        shape matches BodyShape::Guest { contents, trailers, buffer, .. } && contents
            == Presence::Present && trailers == Presence::Present && (buffer == Buffered::Nothing
            || buffer == Buffered::Data) ==> response_plan(shape) is StreamGuest,
{
}

/// A response whose body has only a buffered trailers result left makes of
/// that result what `response_of_trailers` says, flagged `guest` exactly for
/// a guest body; a guest body whose count of bytes sent differs from its
/// limit, with nothing left to read, is refused with the limit and count.
pub proof fn lemma_response_buffered_trailers(shape: BodyShape)
    ensures
        trailers_only(shape) ==> response_plan(shape) == response_of_trailers(
            buffered_of(shape),
            shape is Guest,
        ),
        guest_length_mismatch(shape) ==> response_plan(shape) == (ResponsePlan::LengthMismatch {
            limit: guest_limit(shape).limit,
            sent: guest_limit(shape).sent,
        }),
{
}

/// Decides how a response body of the given shape is handed to the host.
pub fn plan_response(shape: BodyShape) -> (r: ResponsePlan)
    ensures
        r == response_plan(shape),
{
    match shape {
        BodyShape::Guest { contents, trailers, buffer, content_length } => {
            let no_contents = matches!(contents, Presence::Absent);
            if no_contents && (matches!(buffer, Buffered::NoTrailers) || matches!(
                buffer,
                Buffered::Nothing
            )) {
                if let Some(cl) = content_length {
                    if cl.limit != cl.sent {
                        return ResponsePlan::LengthMismatch { limit: cl.limit, sent: cl.sent };
                    }
                }
            }
            if no_contents && matches!(trailers, Presence::Absent) {
                match buffer {
                    Buffered::NoTrailers => return ResponsePlan::Empty { guest: true },
                    Buffered::TrailerFields => return ResponsePlan::BufferedTrailers {
                        guest: true,
                    },
                    Buffered::TrailerError => return ResponsePlan::BufferedError { guest: true },
                    _ => {},
                }
            }
            if no_contents && matches!(trailers, Presence::Present) && matches!(
                buffer,
                Buffered::Nothing
            ) {
                ResponsePlan::GuestTrailers
            } else if matches!(contents, Presence::Present) && matches!(
                trailers,
                Presence::Present
            ) && (matches!(buffer, Buffered::Nothing) || matches!(buffer, Buffered::Data)) {
                ResponsePlan::StreamGuest { resume: matches!(buffer, Buffered::Data) }
            } else {
                ResponsePlan::CorruptedGuest
            }
        },
        BodyShape::Host { has_stream, buffer } => {
            if has_stream {
                match buffer {
                    Buffered::Nothing => ResponsePlan::StreamHost { resume: false },
                    Buffered::Data => ResponsePlan::StreamHost { resume: true },
                    _ => ResponsePlan::CorruptedHost,
                }
            } else {
                match buffer {
                    Buffered::NoTrailers => ResponsePlan::Empty { guest: false },
                    Buffered::TrailerFields => ResponsePlan::BufferedTrailers { guest: false },
                    Buffered::TrailerError => ResponsePlan::BufferedError { guest: false },
                    _ => ResponsePlan::CorruptedHost,
                }
            }
        },
        BodyShape::Consumed => ResponsePlan::Empty { guest: false },
    }
}

/// The scheme of an outgoing request: the client's default when none is
/// given, the given one if the client supports it, otherwise the
/// protocol-error answer to the guest (inner error). With no scheme and no
/// default the call traps (outer error, carrying the protocol-error code).
pub fn outgoing_scheme<S>(scheme: Option<S>, default_scheme: Option<S>, supported: bool) -> (r: Result<
    Result<S, ErrorCode>,
    ErrorCode,
>)
    ensures
        match scheme {
            None => match default_scheme {
                Some(d) => r == Ok::<Result<S, ErrorCode>, ErrorCode>(Ok(d)),
                None => r == Err::<Result<S, ErrorCode>, ErrorCode>(ErrorCode::HttpProtocolError),
            },
            Some(s) => if supported {
                r == Ok::<Result<S, ErrorCode>, ErrorCode>(Ok(s))
            } else {
                r == Ok::<Result<S, ErrorCode>, ErrorCode>(Err(ErrorCode::HttpProtocolError))
            },
        },
{
    match scheme {
        None => match default_scheme {
            Some(d) => Ok(Ok(d)),
            None => Err(ErrorCode::HttpProtocolError),
        },
        Some(s) => if supported {
            Ok(Ok(s))
        } else {
            Ok(Err(ErrorCode::HttpProtocolError))
        },
    }
}

/// The text of the URI that `http::Uri::builder` builds from a scheme name,
/// an authority and a path with query (each part only if given), if the
/// parts make a valid URI.
pub uninterp spec fn built_uri_of(
    scheme: Seq<u8>,
    authority: Option<Seq<char>>,
    path_with_query: Option<Seq<char>>,
) -> Option<Seq<char>>;

/// `http::Uri::builder` with the scheme, then the authority and the path
/// with query where given, then `build`; the URI built as text.
#[verifier::external_body]
fn build_uri(scheme: &[u8], authority: Option<&str>, path_with_query: Option<&str>) -> (r: Option<
    String,
>)
    ensures
        match r {
            Some(u) => built_uri_of(
                scheme@,
                match authority {
                    Some(a) => Some(a@),
                    None => None,
                },
                match path_with_query {
                    Some(p) => Some(p@),
                    None => None,
                },
            ) == Some(u@),
            None => built_uri_of(
                scheme@,
                match authority {
                    Some(a) => Some(a@),
                    None => None,
                },
                match path_with_query {
                    Some(p) => Some(p@),
                    None => None,
                },
            ) is None,
        },
{
    let mut uri = http::Uri::builder().scheme(scheme);
    if let Some(a) = authority {
        uri = uri.authority(a);
    }
    if let Some(p) = path_with_query {
        uri = uri.path_and_query(p);
    }
    uri.build().ok().map(|u| u.to_string())
}

/// The name of a scheme.
pub open spec fn scheme_name(s: SchemeModel) -> Seq<u8> {
    match s {
        SchemeModel::Http => seq![104u8, 116, 116, 112],
        SchemeModel::Https => seq![104u8, 116, 116, 112, 115],
        SchemeModel::Other(n) => n,
    }
}

/// Reading a scheme by its name keeps the name: the scheme read from any
/// name is named by it; and `http` and `https` are read back from their own
/// names as themselves, not as other schemes.
pub proof fn lemma_scheme_names_roundtrip(s: Seq<u8>, m: SchemeModel)
    ensures
        scheme_name(scheme_of_name(s)) == s,
        !(m is Other) ==> scheme_of_name(scheme_name(m)) == m,
{
    assert(seq![104u8, 116, 116, 112] != seq![104u8, 116, 116, 112, 115]) by {
        assert(seq![104u8, 116, 116, 112].len() != seq![104u8, 116, 116, 112, 115].len());
    }
}

/// Writes out the name of a scheme.
pub fn scheme_name_bytes(s: &Scheme) -> (r: Vec<u8>)
    ensures
        r@ == scheme_name(s@),
{
    match s {
        Scheme::Http => {
            let v: Vec<u8> = vec![104u8, 116, 116, 112];
            proof {
                assert(v@ =~= scheme_name(s@));
            }
            v
        },
        Scheme::Https => {
            let v: Vec<u8> = vec![104u8, 116, 116, 112, 115];
            proof {
                assert(v@ =~= scheme_name(s@));
            }
            v
        },
        Scheme::Other(n) => crate::fields::copy_bytes(n.as_slice()),
    }
}

/// The method and URI of the `http::Request` an outgoing request is sent
/// as.
#[derive(Debug)]
pub struct OutgoingHead {
    pub method: Method,
    pub uri: String,
}

/// The optional view of an optional text.
pub open spec fn opt_text(t: Option<&str>) -> Option<Seq<char>> {
    match t {
        Some(a) => Some(a@),
        None => None,
    }
}

/// The head of an outgoing request: its method as given, and its URI built
/// from the scheme chosen by `outgoing_scheme`, the authority and the path
/// with query. The guest is answered `HttpRequestUriInvalid` when those
/// parts make no valid URI; a missing scheme with no default traps (outer
/// error).
pub fn outgoing_head(
    method: Method,
    scheme: Option<Scheme>,
    default_scheme: Option<Scheme>,
    supported: bool,
    authority: Option<&str>,
    path_with_query: Option<&str>,
) -> (r: Result<Result<OutgoingHead, ErrorCode>, ErrorCode>)
    ensures
        ({
            let chosen: Option<Scheme> = match scheme {
                Some(s) => if supported {
                    Some(s)
                } else {
                    None
                },
                None => default_scheme,
            };
            match scheme {
                Some(_) if !supported => r matches Ok(x) && x == Err::<OutgoingHead, ErrorCode>(
                    ErrorCode::HttpProtocolError,
                ),
                None if default_scheme is None => r == Err::<
                    Result<OutgoingHead, ErrorCode>,
                    ErrorCode,
                >(ErrorCode::HttpProtocolError),
                _ => match built_uri_of(
                    scheme_name(chosen->0@),
                    opt_text(authority),
                    opt_text(path_with_query),
                ) {
                    Some(u) => r matches Ok(Ok(h)) && h.method@ == method@ && h.uri@ == u,
                    None => r matches Ok(x) && x == Err::<OutgoingHead, ErrorCode>(
                        ErrorCode::HttpRequestUriInvalid,
                    ),
                },
            }
        }),
{
    let s = match outgoing_scheme(scheme, default_scheme, supported) {
        Err(e) => return Err(e),
        Ok(Err(e)) => return Ok(Err(e)),
        Ok(Ok(s)) => s,
    };
    let name = scheme_name_bytes(&s);
    match build_uri(name.as_slice(), authority, path_with_query) {
        Some(uri) => Ok(Ok(OutgoingHead { method, uri })),
        None => Ok(Err(ErrorCode::HttpRequestUriInvalid)),
    }
}

/// A copy of the result that a guest body's trailers future resolves to: the
/// handle of the trailer fields (a new owned handle to the same resource),
/// none, or the error.
pub fn clone_trailer_result(res: &Result<Option<u32>, ErrorCode>) -> (r: Result<Option<u32>, ErrorCode>)
    ensures
        r == *res,
{
    match res {
        Ok(None) => Ok(None),
        Ok(Some(trailers)) => Ok(Some(*trailers)),
        Err(err) => Err(*err),
    }
}

/// The outcome of counting a chunk of `len` bytes read from a guest body
/// stream against the body's `Content-Length`: the new count, or the size to
/// report, `u64::MAX` when the count would overflow.
pub open spec fn guest_chunk_outcome(cl: ContentLength, len: int) -> Result<u64, u64> {
    if cl.sent + len > u64::MAX {
        Err(u64::MAX)
    } else if cl.sent + len > cl.limit {
        Err((cl.sent + len) as u64)
    } else {
        Ok((cl.sent + len) as u64)
    }
}

/// Counts a chunk of `len` bytes read from the guest against the body's
/// `Content-Length`, if any; on failure returns the body-size error for the
/// given context, leaving the count unchanged.
pub fn record_guest_chunk(
    cx: BodyContext,
    content_length: &mut Option<ContentLength>,
    len: usize,
) -> (r: Result<(), ErrorCode>)
    ensures
        match *old(content_length) {
            None => r is Ok && *final(content_length) == *old(content_length),
            Some(cl) => match guest_chunk_outcome(cl, len as int) {
                Ok(sent) => r is Ok && *final(content_length) == Some(
                    ContentLength { limit: cl.limit, sent },
                ),
                Err(size) => r == Err::<(), ErrorCode>(body_size_error(cx, size))
                    && *final(content_length) == *old(content_length),
            },
        },
{
    match content_length {
        None => Ok(()),
        Some(cl) => {
            let n = len as u64;
            match cl.sent.checked_add(n) {
                None => Err(cx.as_body_size_error(u64::MAX)),
                Some(total) => {
                    if total > cl.limit {
                        Err(cx.as_body_size_error(total))
                    } else {
                        cl.sent = total;
                        Ok(())
                    }
                },
            }
        },
    }
}

/// Checks, when the guest closes its body stream, that it sent as many bytes
/// as announced; otherwise returns the body-size error for the context.
pub fn finish_guest_body(cx: BodyContext, content_length: Option<ContentLength>) -> (r: Result<
    (),
    ErrorCode,
>)
    ensures
        r == match content_length {
            Some(cl) => if cl.limit != cl.sent {
                Err(body_size_error(cx, cl.sent))
            } else {
                Ok(())
            },
            None => Ok::<(), ErrorCode>(()),
        },
{
    match content_length {
        Some(cl) => {
            if cl.limit != cl.sent {
                Err(cx.as_body_size_error(cl.sent))
            } else {
                Ok(())
            }
        },
        None => Ok(()),
    }
}

/// Chunks that fit the limit leave the count equal to the bytes accepted:
/// feeding chunks one by one accepts exactly when their running total stays
/// within the limit, and the count then equals that total.
pub proof fn lemma_chunks_add_up(cl: ContentLength, a: u64, b: u64)
    requires
        cl.sent + a + b <= cl.limit,
    ensures
        chunk_outcome(cl, a as int) == Ok::<u64, Option<u64>>((cl.sent + a) as u64),
        chunk_outcome(
            ContentLength { limit: cl.limit, sent: (cl.sent + a) as u64 },
            b as int,
        ) == Ok::<u64, Option<u64>>((cl.sent + a + b) as u64),
{
}

} // verus!
