use vstd::prelude::*;

use crate::error::{DisplayError, XError};

verus! {

/// The bytes of `buf` before its first NUL byte (all of `buf` if it holds none).
pub open spec fn before_nul(buf: Seq<u8>) -> Seq<u8>
    decreases buf.len(),
{
    if buf.len() == 0 || buf[0] == 0 {
        Seq::empty()
    } else {
        seq![buf[0]].add(before_nul(buf.subrange(1, buf.len() as int)))
    }
}

/// What `String::from_utf8_lossy` makes of a byte sequence.
pub uninterp spec fn lossy_text_of(bytes: Seq<u8>) -> Seq<char>;

/// Relies on `String::from_utf8_lossy`: the text depends on the bytes alone,
/// and since every invalid sequence becomes U+FFFD, non-empty bytes give
/// non-empty text.
#[verifier::external_body]
fn lossy_text(bytes: &[u8]) -> (r: String)
    ensures
        r@ == lossy_text_of(bytes@),
        bytes@.len() > 0 ==> r@.len() > 0,
{
    String::from_utf8_lossy(bytes).into_owned()
}

proof fn lemma_before_nul_prefix(buf: Seq<u8>, k: int)
    requires
        0 <= k <= buf.len(),
        forall|j: int| 0 <= j < k ==> buf[j] != 0,
        k == buf.len() || buf[k] == 0,
    ensures
        before_nul(buf) == buf.subrange(0, k),
    decreases k,
{
    if k == 0 {
        assert(buf.subrange(0, 0) =~= Seq::<u8>::empty());
    } else {
        let tail = buf.subrange(1, buf.len() as int);
        assert forall|j: int| 0 <= j < k - 1 implies tail[j] != 0 by {
            assert(tail[j] == buf[j + 1]);
        }
        if k < buf.len() {
            assert(tail[k - 1] == buf[k]);
        }
        lemma_before_nul_prefix(tail, k - 1);
        assert(seq![buf[0]].add(tail.subrange(0, k - 1)) =~= buf.subrange(0, k));
    }
}

/// Copies the text of a NUL-terminated buffer, as filled by the native
/// error-text lookup, up to its terminator.
pub fn text_before_nul(buf: &[u8]) -> (r: Vec<u8>)
    ensures
        r@ == before_nul(buf@),
{
    let mut out: Vec<u8> = Vec::new();
    let mut i: usize = 0;
    while i < buf.len() && buf[i] != 0
        invariant
            0 <= i <= buf@.len(),
            out@ == buf@.subrange(0, i as int),
            forall|j: int| 0 <= j < i ==> buf@[j] != 0,
        decreases buf@.len() - i,
    {
        out.push(buf[i]);
        i = i + 1;
        assert(out@ =~= buf@.subrange(0, i as int));
    }
    proof {
        lemma_before_nul_prefix(buf@, i as int);
    }
    out
}

/// The description a fault carries for a given text buffer.
pub open spec fn description_of(buf: Seq<u8>) -> Seq<char> {
    lossy_text_of(before_nul(buf))
}

impl XError {
    /// Builds the structured fault from the native event's codes and the
    /// NUL-terminated text that the native lookup wrote for its error code.
    /// Bytes that are not valid UTF-8 are replaced rather than rejected.
    pub fn from_event(text: &[u8], error_code: u8, request_code: u8, minor_code: u8) -> (r: XError)
        ensures
            built_from_event(r, text@, error_code, request_code, minor_code),
            before_nul(text@).len() > 0 ==> r.description@.len() > 0,
    {
        let bytes = text_before_nul(text);
        let description = lossy_text(bytes.as_slice());
        XError { description, error_code, request_code, minor_code }
    }
}

/// What checking for a fault reports, given what the slot held.
pub open spec fn check_result(pending: Option<XError>) -> Result<(), DisplayError> {
    match pending {
        Some(e) => Err(DisplayError::Protocol(e)),
        None => Ok(()),
    }
}

/// A check of the slot: it reports what was pending and empties the slot.
pub open spec fn check_step(
    before: Option<XError>,
    after: Option<XError>,
    r: Result<(), DisplayError>,
) -> bool {
    &&& after is None
    &&& r == check_result(before)
}

/// Ignoring errors: the slot is emptied whatever it held.
pub open spec fn ignore_step(before: Option<XError>, after: Option<XError>) -> bool {
    after is None
}

/// Recording fault `e`: it replaces whatever the slot held.
pub open spec fn fault_step(before: Option<XError>, after: Option<XError>, e: XError) -> bool {
    after == Some(e)
}

/// `e` is the fault built from an event with these codes whose error
/// text lookup filled `text`.
pub open spec fn built_from_event(e: XError, text: Seq<u8>, error_code: u8, request_code: u8, minor_code: u8) -> bool {
    &&& e.description@ == description_of(text)
    &&& e.error_code == error_code
    &&& e.request_code == request_code
    &&& e.minor_code == minor_code
}

/// The process-wide cell holding the latest unconsumed protocol fault.
/// A new fault overwrites the previous one: the last fault wins.
pub struct ErrorSlot {
    latest: Option<XError>,
}

impl ErrorSlot {
    pub closed spec fn view(&self) -> Option<XError> {
        self.latest
    }

    pub fn new() -> (r: ErrorSlot)
        ensures
            r@ is None,
    {
        ErrorSlot { latest: None }
    }

    /// Stores a fault, replacing whatever was there.
    pub fn record(&mut self, e: XError)
        ensures
            fault_step(old(self)@, final(self)@, e),
    {
        self.latest = Some(e);
    }

    /// Removes and returns the stored fault, leaving the cell empty.
    pub fn take(&mut self) -> (r: Option<XError>)
        ensures
            r == old(self)@,
            final(self)@ is None,
    {
        self.latest.take()
    }

    /// Empties the cell without looking at it.
    pub fn clear(&mut self)
        ensures
            final(self)@ is None,
    {
        self.latest = None;
    }

    /// Whether a fault is waiting.
    pub fn is_pending(&self) -> (r: bool)
        ensures
            r == self@ is Some,
    {
        self.latest.is_some()
    }
}

/// The error callbacks that were installed before ours, in the order they
/// were found. Each identity is kept once, and our own callback is never
/// recorded, so forwarding can never loop back into it.
pub struct HandlerChain {
    own: usize,
    previous: Vec<usize>,
}

impl HandlerChain {
    pub closed spec fn view(&self) -> Seq<usize> {
        self.previous@
    }

    pub closed spec fn own_spec(&self) -> usize {
        self.own
    }

    pub open spec fn wf(&self) -> bool {
        &&& !self@.contains(self.own_spec())
        &&& self@.no_duplicates()
    }

    /// A chain for the callback identified by `own`.
    pub fn new(own: usize) -> (r: HandlerChain)
        ensures
            r.wf(),
            r@ == Seq::<usize>::empty(),
            r.own_spec() == own,
    {
        HandlerChain { own, previous: Vec::new() }
    }

    /// A copy of the chain, so that a fault can be handled without holding
    /// the lock over the shared chain.
    pub fn snapshot(&self) -> (r: HandlerChain)
        ensures
            r@ == self@,
            r.own_spec() == self.own_spec(),
            self.wf() ==> r.wf(),
    {
        let mut previous: Vec<usize> = Vec::new();
        let mut i: usize = 0;
        while i < self.previous.len()
            invariant
                0 <= i <= self@.len(),
                previous@ == self@.subrange(0, i as int),
            decreases self@.len() - i,
        {
            previous.push(self.previous[i]);
            i = i + 1;
            assert(previous@ =~= self@.subrange(0, i as int));
        }
        assert(previous@ =~= self@);
        HandlerChain { own: self.own, previous }
    }

    /// The identity of the callback this chain belongs to.
    pub fn own(&self) -> (r: usize)
        ensures
            r == self.own_spec(),
    {
        self.own
    }

    /// Whether `h` is already recorded.
    pub fn contains(&self, h: usize) -> (r: bool)
        ensures
            r == self@.contains(h),
    {
        let mut i: usize = 0;
        while i < self.previous.len()
            invariant
                0 <= i <= self@.len(),
                forall|j: int| 0 <= j < i ==> self@[j] != h,
            decreases self@.len() - i,
        {
            if self.previous[i] == h {
                return true;
            }
            i = i + 1;
        }
        false
    }

    /// Records the callback that was installed when ours replaced it.
    /// Nothing is recorded when there was none, when it is our own, or when
    /// it is already known.
    pub fn install(&mut self, replaced: Option<usize>)
        requires
            old(self).wf(),
        ensures
            final(self).wf(),
            final(self).own_spec() == old(self).own_spec(),
            final(self)@ == (match replaced {
                Some(h) => if h != old(self).own_spec() && !old(self)@.contains(h) {
                    old(self)@.push(h)
                } else {
                    old(self)@
                },
                None => old(self)@,
            }),
    {
        if let Some(h) = replaced {
            if h != self.own && !self.contains(h) {
                self.previous.push(h);
                proof {
                    assert(self@.last() == h);
                    assert forall|i: int, j: int| 0 <= i < j < self@.len() implies self@[i] != self@[j] by {
                        if j < self@.len() - 1 {
                            assert(old(self)@[i] != old(self)@[j]);
                        } else {
                            assert(old(self)@.contains(old(self)@[i]));
                        }
                    }
                    assert forall|i: int| 0 <= i < self@.len() implies self@[i] != self.own by {
                        if i < self@.len() - 1 {
                            assert(old(self)@.contains(old(self)@[i]));
                        }
                    }
                }
            }
        }
    }

    /// The recorded callbacks in forwarding order: the most recently
    /// recorded first, the earliest last.
    pub fn forward_order(&self) -> (r: Vec<usize>)
        ensures
            r@ == self@.reverse(),
    {
        let mut out: Vec<usize> = Vec::new();
        let mut i: usize = self.previous.len();
        while i > 0
            invariant
                0 <= i <= self@.len(),
                out@.len() == self@.len() - i,
                forall|k: int| 0 <= k < out@.len() ==> out@[k] == self@[self@.len() - 1 - k],
            decreases i,
        {
            i = i - 1;
            out.push(self.previous[i]);
        }
        assert(out@ =~= self@.reverse());
        out
    }
}

/// Handles one native fault event: the fault is built, stored in the
/// slot over any unconsumed one, and the previously installed callbacks that
/// the event must be forwarded to are returned, most recent first.
pub fn on_fault(
    slot: &mut ErrorSlot,
    chain: &HandlerChain,
    text: &[u8],
    error_code: u8,
    request_code: u8,
    minor_code: u8,
) -> (forward: Vec<usize>)
    ensures
        final(slot)@ matches Some(e) && fault_step(old(slot)@, final(slot)@, e) && built_from_event(
            e,
            text@,
            error_code,
            request_code,
            minor_code,
        ) && (before_nul(text@).len() > 0 ==> e.description@.len() > 0),
        forward@ == chain@.reverse(),
{
    let e = XError::from_event(text, error_code, request_code, minor_code);
    slot.record(e);
    chain.forward_order()
}

/// Guards the native thread-enablement call so that it is made once only.
pub struct ThreadInit {
    done: bool,
}

impl ThreadInit {
    pub closed spec fn view(&self) -> bool {
        self.done
    }

    pub fn new() -> (r: ThreadInit)
        ensures
            !r@,
    {
        ThreadInit { done: false }
    }

    /// Returns true exactly when the call has not been made yet; from then
    /// on it counts as made.
    pub fn begin(&mut self) -> (first: bool)
        ensures
            first == !old(self)@,
            final(self)@,
    {
        let first = !self.done;
        self.done = true;
        first
    }
}

} // verus!
