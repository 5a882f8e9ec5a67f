//! Completion bookkeeping of the control-operation reactor.
//!
//! Each submitted request gets a token. When the device answers a post at
//! once (success or failure) the answer is delivered and the request's
//! container released right away; when it answers "IO pending" the token is
//! parked until the completion facility hands it back, and is then delivered
//! and released. A token is delivered at most once: a completion for a token
//! that is not parked, or under another completion key, is ignored.
use vstd::prelude::*;

verus! {

/// Completion key the device handle is bound to.
pub const COMPLETION_KEY_IOCTL: usize = 1;

/// Last-error value meaning the operation continues asynchronously.
pub const ERROR_IO_PENDING: u32 = 997;

/// What to hand to a request's reply endpoint.
#[derive(Clone, Copy, Debug, PartialEq, Eq, Structural)]
pub enum Delivery {
    /// Success: the output buffer cut to `len` bytes.
    Bytes { len: u32 },
    /// Failure with the platform error code.
    Error { code: u32 },
}

/// What to do after posting a request.
#[derive(Clone, Copy, Debug, PartialEq, Eq, Structural)]
pub enum PostAction {
    /// Deliver, then release the request's container.
    Deliver(Delivery),
    /// Keep the container alive until its completion arrives.
    Park,
}

/// What to do with a packet from the completion facility.
#[derive(Clone, Copy, Debug, PartialEq, Eq, Structural)]
pub enum CompletionAction {
    /// Deliver, then release the request's container.
    Deliver(Delivery),
    /// Not one of ours, or already delivered: leave it.
    Ignore,
}

/// Outcome of posting `token`: the call's return value, the byte count it
/// reported and the last-error value.
pub open spec fn post_step(parked: Set<u64>, token: u64, ok: bool, bytes: u32, last_error: u32) -> (
    Set<u64>,
    PostAction,
) {
    if ok {
        (parked, PostAction::Deliver(Delivery::Bytes { len: bytes }))
    } else if last_error == ERROR_IO_PENDING {
        (parked.insert(token), PostAction::Park)
    } else {
        (parked, PostAction::Deliver(Delivery::Error { code: last_error }))
    }
}

/// Outcome of a completion packet (`token` is `None` when the wait returned
/// no packet).
pub open spec fn completion_step(
    parked: Set<u64>,
    key: usize,
    token: Option<u64>,
    ok: bool,
    bytes: u32,
    last_error: u32,
) -> (Set<u64>, CompletionAction) {
    match token {
        Some(t) => if key == COMPLETION_KEY_IOCTL && parked.contains(t) {
            (
                parked.remove(t),
                CompletionAction::Deliver(
                    if ok {
                        Delivery::Bytes { len: bytes }
                    } else {
                        Delivery::Error { code: last_error }
                    },
                ),
            )
        } else {
            (parked, CompletionAction::Ignore)
        },
        None => (parked, CompletionAction::Ignore),
    }
}

/// A request answered at once is delivered once and never again: its
/// container is released, the parked set is unchanged, and any later packet
/// for its token is ignored.
pub proof fn lemma_immediate_answer_delivered_once(
    parked: Set<u64>,
    token: u64,
    ok: bool,
    bytes: u32,
    last_error: u32,
    key: usize,
    ok2: bool,
    bytes2: u32,
    last_error2: u32,
)
    requires
        !parked.contains(token),
        ok || last_error != ERROR_IO_PENDING,
    ensures
        post_step(parked, token, ok, bytes, last_error).0 == parked,
        post_step(parked, token, ok, bytes, last_error).1 is Deliver,
        completion_step(parked, key, Some(token), ok2, bytes2, last_error2).1 == CompletionAction::Ignore,
{
}

/// A pending request is parked, delivered by the first packet that carries its
/// token under the reactor's key (with that packet's bytes or error), and any
/// packet after that is ignored.
pub proof fn lemma_pending_delivered_once(
    parked: Set<u64>,
    token: u64,
    bytes: u32,
    ok2: bool,
    bytes2: u32,
    last_error2: u32,
    key3: usize,
    ok3: bool,
    bytes3: u32,
    last_error3: u32,
)
    requires
        !parked.contains(token),
    ensures
        ({
            let (s1, a1) = post_step(parked, token, false, bytes, ERROR_IO_PENDING);
            let (s2, a2) = completion_step(s1, COMPLETION_KEY_IOCTL, Some(token), ok2, bytes2, last_error2);
            let (s3, a3) = completion_step(s2, key3, Some(token), ok3, bytes3, last_error3);
            &&& a1 == PostAction::Park
            &&& a2 == CompletionAction::Deliver(
                if ok2 {
                    Delivery::Bytes { len: bytes2 }
                } else {
                    Delivery::Error { code: last_error2 }
                },
            )
            &&& s2 == parked
            &&& a3 == CompletionAction::Ignore
        }),
{
    assert(parked.insert(token).remove(token) =~= parked);
}

/// The parked set after a run of posts that were all answered at once.
pub open spec fn after_immediate_posts(parked: Set<u64>, tokens: Seq<u64>, oks: Seq<bool>, errors: Seq<u32>) -> Set<
    u64,
>
    decreases tokens.len(),
{
    if tokens.len() == 0 || oks.len() == 0 || errors.len() == 0 {
        parked
    } else {
        after_immediate_posts(
            post_step(parked, tokens[0], oks[0], 0, errors[0]).0,
            tokens.drop_first(),
            oks.drop_first(),
            errors.drop_first(),
        )
    }
}

/// Any number of requests answered at once (success, or a failure other than
/// "IO pending") leave the parked set as it was: no container outlives its
/// post.
pub proof fn lemma_immediate_posts_keep_nothing(parked: Set<u64>, tokens: Seq<u64>, oks: Seq<bool>, errors: Seq<u32>)
    requires
        oks.len() == tokens.len(),
        errors.len() == tokens.len(),
        forall|i: int| 0 <= i < tokens.len() ==> #[trigger] oks[i] || errors[i] != ERROR_IO_PENDING,
    ensures
        after_immediate_posts(parked, tokens, oks, errors) == parked,
    decreases tokens.len(),
{
    if tokens.len() > 0 {
        assert(oks[0] || errors[0] != ERROR_IO_PENDING);
        let (o, e) = (oks.drop_first(), errors.drop_first());
        assert forall|i: int| 0 <= i < tokens.len() - 1 implies #[trigger] o[i] || e[i] != ERROR_IO_PENDING by {
            assert(oks[i + 1] || errors[i + 1] != ERROR_IO_PENDING);
        }
        lemma_immediate_posts_keep_nothing(parked, tokens.drop_first(), o, e);
    }
}

/// Once nothing is parked (as after shutdown drains the table, or before any
/// post), no packet leads to a delivery.
pub proof fn lemma_nothing_parked_nothing_delivered(
    key: usize,
    token: Option<u64>,
    ok: bool,
    bytes: u32,
    last_error: u32,
)
    ensures
        completion_step(Set::<u64>::empty(), key, token, ok, bytes, last_error).1 == CompletionAction::Ignore,
{
}

/// Tokens handed out, and the ones whose container the completion facility
/// holds.
pub struct InflightTable {
    next_token: u64,
    parked: Vec<u64>,
}

impl InflightTable {
    pub closed spec fn wf(&self) -> bool {
        &&& self.parked@.no_duplicates()
        &&& forall|i: int| 0 <= i < self.parked@.len() ==> #[trigger] self.parked@[i] < self.next_token
    }

    /// Tokens whose completion is still awaited.
    pub closed spec fn parked(&self) -> Set<u64> {
        self.parked@.to_set()
    }

    /// Tokens already handed out are all below this bound.
    pub closed spec fn issued_below(&self) -> nat {
        self.next_token as nat
    }

    pub fn new() -> (r: InflightTable)
        ensures
            r.wf(),
            r.parked() == Set::<u64>::empty(),
    {
        let r = InflightTable { next_token: 0, parked: Vec::new() };
        assert(r.parked@.to_set() =~= Set::<u64>::empty());
        r
    }

    /// A token never handed out before (`None` once the 64-bit space is used up).
    pub fn issue(&mut self) -> (r: Option<u64>)
        requires
            old(self).wf(),
        ensures
            final(self).wf(),
            final(self).parked() == old(self).parked(),
            r matches Some(t) ==> t >= old(self).issued_below() && t < final(self).issued_below()
                && !final(self).parked().contains(t),
            r is None ==> old(self).issued_below() == u64::MAX,
    {
        if self.next_token == u64::MAX {
            return None;
        }
        let t = self.next_token;
        self.next_token = t + 1;
        assert forall|i: int| 0 <= i < self.parked@.len() implies #[trigger] self.parked@[i] < self.next_token by {}
        proof {
            if self.parked@.to_set().contains(t) {
                let i = self.parked@.index_of(t);
                assert(self.parked@[i] < t);
            }
        }
        Some(t)
    }

    /// Number of requests whose completion is still awaited.
    pub fn parked_len(&self) -> (r: usize)
        requires
            self.wf(),
        ensures
            r == self.parked().len(),
    {
        proof {
            self.parked@.unique_seq_to_set();
        }
        self.parked.len()
    }

    fn position(&self, token: u64) -> (r: Option<usize>)
        ensures
            r matches Some(i) ==> i < self.parked@.len() && self.parked@[i as int] == token,
            r is None ==> !self.parked@.contains(token),
    {
        let mut i: usize = 0;
        while i < self.parked.len()
            invariant
                i <= self.parked@.len(),
                forall|j: int| 0 <= j < i ==> self.parked@[j] != token,
            decreases self.parked@.len() - i,
        {
            if self.parked[i] == token {
                return Some(i);
            }
            i = i + 1;
        }
        None
    }

    /// Decides what follows a post of `token` from the call's return value,
    /// the byte count it reported and the last-error value.
    pub fn on_posted(&mut self, token: u64, ok: bool, bytes: u32, last_error: u32) -> (r: PostAction)
        requires
            old(self).wf(),
            (token as nat) < old(self).issued_below(),
            !old(self).parked().contains(token),
        ensures
            final(self).wf(),
            final(self).issued_below() == old(self).issued_below(),
            (final(self).parked(), r) == post_step(old(self).parked(), token, ok, bytes, last_error),
    {
        if ok {
            return PostAction::Deliver(Delivery::Bytes { len: bytes });
        }
        if last_error == ERROR_IO_PENDING {
            let ghost prev = self.parked@;
            self.parked.push(token);
            proof {
                assert(self.parked@ == prev.push(token));
                assert forall|x: u64| #[trigger] self.parked@.contains(x) <==> (prev.contains(x) || x == token) by {
                    if prev.contains(x) {
                        let j = prev.index_of(x);
                        assert(self.parked@[j] == x);
                    }
                    if x == token {
                        assert(self.parked@[prev.len() as int] == x);
                    }
                    if self.parked@.contains(x) {
                        let j = self.parked@.index_of(x);
                        if j < prev.len() {
                            assert(prev[j] == x);
                        }
                    }
                }
                assert(self.parked@.to_set() =~= prev.to_set().insert(token));
                assert forall|i: int, j: int|
                    0 <= i < self.parked@.len() && 0 <= j < self.parked@.len() && i != j implies self.parked@[i]
                    != self.parked@[j] by {
                    if i < prev.len() && j < prev.len() {
                    } else if i < prev.len() {
                        assert(prev.contains(prev[i]));
                    } else {
                        assert(prev.contains(prev[j]));
                    }
                }
            }
            return PostAction::Park;
        }
        PostAction::Deliver(Delivery::Error { code: last_error })
    }

    /// Decides what to do with a packet from the completion facility:
    /// deliver and release a parked request, or ignore the packet.
    pub fn on_completion(&mut self, key: usize, token: Option<u64>, ok: bool, bytes: u32, last_error: u32) -> (r:
        CompletionAction)
        requires
            old(self).wf(),
        ensures
            final(self).wf(),
            final(self).issued_below() == old(self).issued_below(),
            (final(self).parked(), r) == completion_step(
                old(self).parked(),
                key,
                token,
                ok,
                bytes,
                last_error,
            ),
    {
        let t = match token {
            Some(t) => t,
            None => {
                return CompletionAction::Ignore;
            },
        };
        if key != COMPLETION_KEY_IOCTL {
            return CompletionAction::Ignore;
        }
        match self.position(t) {
            None => CompletionAction::Ignore,
            Some(i) => {
                let ghost prev = self.parked@;
                self.parked.swap_remove(i);
                proof {
                    assert(prev.to_set().contains(t));
                    assert forall|x: u64| #[trigger] self.parked@.contains(x) <==> prev.to_set().remove(t).contains(x) by {
                        if prev.contains(x) && x != t {
                            let j = prev.index_of(x);
                            if j == prev.len() - 1 {
                                assert(self.parked@[i as int] == x);
                            } else {
                                assert(self.parked@[j] == x);
                            }
                        }
                        if self.parked@.contains(x) {
                            let j = self.parked@.index_of(x);
                            if j == i {
                                assert(x == prev[prev.len() - 1]);
                            } else {
                                assert(x == prev[j]);
                            }
                        }
                    }
                    assert(self.parked@.to_set() =~= prev.to_set().remove(t));
                    assert forall|a: int, b: int|
                        0 <= a < self.parked@.len() && 0 <= b < self.parked@.len() && a != b implies self.parked@[a]
                        != self.parked@[b] by {
                        let pa = if a == i { prev.len() - 1 } else { a };
                        let pb = if b == i { prev.len() - 1 } else { b };
                        assert(self.parked@[a] == prev[pa]);
                        assert(self.parked@[b] == prev[pb]);
                    }
                    assert forall|a: int| 0 <= a < self.parked@.len() implies #[trigger] self.parked@[a] < self.next_token by {
                        let pa = if a == i { prev.len() - 1 } else { a };
                        assert(self.parked@[a] == prev[pa]);
                    }
                }
                CompletionAction::Deliver(
                    if ok {
                        Delivery::Bytes { len: bytes }
                    } else {
                        Delivery::Error { code: last_error }
                    },
                )
            },
        }
    }
}

} // verus!
