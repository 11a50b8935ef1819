//! The delivery of one message: what is sent, and what follows from the answer.
use vstd::arithmetic::power2::pow2;
use vstd::prelude::*;
use vstd::string::*;

use crate::numerals::decimal_u64;
use crate::text::joined;

verus! {

/// A message to an address.
#[derive(Debug, Clone)]
pub struct WebhookTask {
    pub url: String,
    pub payload: String,
    pub headers: Vec<HttpHeader>,
    pub hook_id: i64,
}

/// A header of an HTTP request.
#[derive(Debug, Clone)]
pub struct HttpHeader {
    pub key: String,
    pub value: String,
}

/// A header as a pair of texts.
pub open spec fn header_view(h: HttpHeader) -> (Seq<char>, Seq<char>) {
    (h.key@, h.value@)
}

/// The views of a list of headers.
pub open spec fn header_views(list: Seq<HttpHeader>) -> Seq<(Seq<char>, Seq<char>)> {
    list.map_values(|h: HttpHeader| header_view(h))
}

/// The headers that go with a message: the type of its body, then its own.
pub fn request_headers(task: &WebhookTask) -> (r: Vec<HttpHeader>)
    ensures
        header_views(r@) == seq![("Content-Type"@, "application/json"@)] + header_views(
            task.headers@,
        ),
{
    let mut out: Vec<HttpHeader> = Vec::new();
    out.push(
        HttpHeader { key: "Content-Type".to_owned(), value: "application/json".to_owned() },
    );
    let ghost first = seq![("Content-Type"@, "application/json"@)];
    assert(header_views(out@) == first + header_views(task.headers@).take(0));
    for i in 0..task.headers.len()
        invariant
            header_views(out@) == first + header_views(task.headers@).take(i as int),
    {
        let ghost before = out@;
        let h = HttpHeader {
            key: task.headers[i].key.clone(),
            value: task.headers[i].value.clone(),
        };
        out.push(h);
        proof {
            let own = header_views(task.headers@);
            assert(header_views(out@) == header_views(before).push(header_view(h)));
            assert(own[i as int] == header_view(h));
            assert(own.take(i + 1) == own.take(i as int).push(own[i as int]));
        }
    }
    assert(header_views(task.headers@).take(task.headers@.len() as int) == header_views(
        task.headers@,
    ));
    out
}

/// Whether the answer with this status code means that the message was taken: a success or a
/// redirection.
pub open spec fn is_taken(status: u16) -> bool {
    200 <= status < 400
}

/// What an answer with this status code means: the code where the message was taken, a text that
/// tells the code where it was not.
pub open spec fn answer_meaning(status: u16) -> Result<u16, Seq<char>> {
    if is_taken(status) {
        Ok(status)
    } else {
        Err("HTTP "@ + crate::numerals::decimal(status as nat))
    }
}

/// What an answer means: its status where the message was taken, the reason why not otherwise.
pub fn answer_to_delivery(status: u16) -> (r: Result<u16, String>)
    ensures
        r is Ok <==> 200 <= status < 400,
        answer_meaning(status) == (match r {
            Ok(s) => Ok::<u16, Seq<char>>(s),
            Err(text) => Err::<u16, Seq<char>>(text@),
        }),
        match r {
            Ok(s) => is_taken(status) && s == status,
            Err(text) => !is_taken(status) && text@ == "HTTP "@ + crate::numerals::decimal(
                status as nat,
            ),
        },
{
    if 200 <= status && status < 400 {
        Ok(status)
    } else {
        Err(joined("HTTP ", decimal_u64(status as u64).as_str()))
    }
}

/// The reason why a message was not taken where there was no answer at all.
pub fn no_answer(cause: &str) -> (r: String)
    ensures
        r@ == "network error: "@ + cause@,
{
    joined("network error: ", cause)
}

/// What follows an attempt at a delivery.
#[derive(Debug, Clone, Copy, PartialEq, Eq)]
pub enum DeliveryStep {
    /// The message was taken.
    Done,
    /// Another attempt is to be made after so many milliseconds.
    RetryAfterMs(u64),
    /// There are no attempts left.
    GiveUp,
}

/// The longest pause between two attempts, in milliseconds.
pub const MAX_PAUSE_MS: u64 = 60_000;

/// The pause after the attempt with this number, counted from zero: it doubles each time, up to
/// a minute.
pub open spec fn pause_after(base_delay_ms: int, attempt: nat) -> int {
    let pause = base_delay_ms * pow2(attempt);
    if pause < MAX_PAUSE_MS {
        pause
    } else {
        MAX_PAUSE_MS as int
    }
}

/// Whether the pause after the attempt can be computed: before it is cut down to a minute, its
/// factor has to fit in 32 bits and its seconds in 64.
pub open spec fn has_pause(base_delay_ms: int, attempt: int) -> bool {
    attempt < 32 && (base_delay_ms * pow2(attempt as nat)) / 1000 <= u64::MAX
}

/// What follows an attempt.
pub open spec fn step_after(
    max_retries: int,
    base_delay_ms: int,
    attempt: int,
    delivered: bool,
) -> DeliveryStep {
    if delivered {
        DeliveryStep::Done
    } else if attempt < max_retries {
        DeliveryStep::RetryAfterMs(pause_after(base_delay_ms, attempt as nat) as u64)
    } else {
        DeliveryStep::GiveUp
    }
}

/// The pause after an attempt.
pub fn backoff_ms(base_delay_ms: u64, attempt: usize) -> (r: u64)
    requires
        has_pause(base_delay_ms as int, attempt as int),
    ensures
        r == pause_after(base_delay_ms as int, attempt as nat),
{
    let mut pause: u128 = base_delay_ms as u128;
    let mut i: usize = 0;
    proof {
        vstd::arithmetic::power2::lemma2_to64();
        assert(base_delay_ms * 1 == base_delay_ms) by (nonlinear_arith);
    }
    while i < attempt
        invariant
            0 <= i <= attempt < 32,
            pause == base_delay_ms * pow2(i as nat),
            pause <= u64::MAX * pow2(i as nat),
        decreases attempt - i,
    {
        proof {
            vstd::arithmetic::power2::lemma_pow2_unfold((i + 1) as nat);
            vstd::arithmetic::power2::lemma_pow2_strictly_increases(i as nat, 32);
            vstd::arithmetic::power2::lemma2_to64();
            let p = pow2(i as nat) as int;
            assert(base_delay_ms * (2 * p) == 2 * (base_delay_ms * p)) by (nonlinear_arith);
            assert(u64::MAX * (2 * p) == 2 * (u64::MAX * p)) by (nonlinear_arith);
            assert(u64::MAX * p <= u64::MAX * 0x1_0000_0000) by (nonlinear_arith)
                requires
                    0 <= p <= 0x1_0000_0000,
            ;
        }
        pause = pause * 2;
        i = i + 1;
    }
    if pause < MAX_PAUSE_MS as u128 {
        pause as u64
    } else {
        MAX_PAUSE_MS
    }
}

/// A delivery under way.
#[derive(Debug, Clone)]
pub struct Delivery {
    max_retries: usize,
    base_delay_ms: u64,
    attempt: usize,
}

impl Delivery {
    /// The attempts that are made after the first one, at most.
    pub closed spec fn max_retries(&self) -> int {
        self.max_retries as int
    }

    /// The pause after the first attempt, in milliseconds.
    pub closed spec fn base_delay_ms(&self) -> int {
        self.base_delay_ms as int
    }

    /// The number of the attempt that is made, counted from zero.
    pub closed spec fn attempt(&self) -> int {
        self.attempt as int
    }

    /// A delivery before its first attempt.
    pub fn new(max_retries: usize, base_delay_ms: u64) -> (r: Self)
        ensures
            r.max_retries() == max_retries,
            r.base_delay_ms() == base_delay_ms,
            r.attempt() == 0,
    {
        Delivery { max_retries, base_delay_ms, attempt: 0 }
    }

    /// The number of the attempt that is made, counted from zero.
    pub fn attempt_number(&self) -> (r: usize)
        ensures
            r == self.attempt(),
    {
        self.attempt
    }

    /// What follows, now that the attempt was made.
    pub fn on_attempt(&mut self, delivered: bool) -> (r: DeliveryStep)
        requires
            !delivered && old(self).attempt() < old(self).max_retries() ==> has_pause(
                old(self).base_delay_ms(),
                old(self).attempt(),
            ),
        ensures
            r == step_after(
                old(self).max_retries(),
                old(self).base_delay_ms(),
                old(self).attempt(),
                delivered,
            ),
            final(self).max_retries() == old(self).max_retries(),
            final(self).base_delay_ms() == old(self).base_delay_ms(),
            final(self).attempt() == (if r is RetryAfterMs {
                old(self).attempt() + 1
            } else {
                old(self).attempt()
            }),
    {
        if delivered {
            DeliveryStep::Done
        } else if self.attempt < self.max_retries {
            let pause: u64 = backoff_ms(self.base_delay_ms, self.attempt);
            self.attempt = self.attempt + 1;
            DeliveryStep::RetryAfterMs(pause)
        } else {
            DeliveryStep::GiveUp
        }
    }
}

/// Pauses do not get shorter, and none is longer than a minute.
pub proof fn pauses_grow_to_a_minute(base_delay_ms: int, attempt: nat)
    requires
        base_delay_ms >= 0,
    ensures
        0 <= pause_after(base_delay_ms, attempt) <= pause_after(base_delay_ms, attempt + 1)
            <= MAX_PAUSE_MS,
{
    vstd::arithmetic::power2::lemma_pow2_unfold(attempt + 1);
    vstd::arithmetic::power2::lemma_pow2_pos(attempt);
    let p = pow2(attempt) as int;
    assert(base_delay_ms * (2 * p) >= base_delay_ms * p >= 0) by (nonlinear_arith)
        requires
            base_delay_ms >= 0,
            p > 0,
    ;
}

/// The steps of a delivery from an attempt on, where `taken` says of each attempt whether it
/// succeeds if it is made.
pub open spec fn delivery_steps(
    max_retries: int,
    base_delay_ms: int,
    taken: spec_fn(int) -> bool,
    attempt: int,
) -> Seq<DeliveryStep>
    decreases max_retries - attempt,
{
    let step = step_after(max_retries, base_delay_ms, attempt, taken(attempt));
    if step is RetryAfterMs && attempt < max_retries {
        seq![step] + delivery_steps(max_retries, base_delay_ms, taken, attempt + 1)
    } else {
        seq![step]
    }
}

/// The number of the last attempt that is made, from an attempt on: the first one that succeeds,
/// or the one after which no retry is left.
pub open spec fn last_attempt(max_retries: int, taken: spec_fn(int) -> bool, attempt: int) -> int
    decreases max_retries - attempt,
{
    if taken(attempt) || attempt >= max_retries {
        attempt
    } else {
        last_attempt(max_retries, taken, attempt + 1)
    }
}

/// No attempt before the last one succeeds, and it is the last retry where it does not succeed
/// either.
pub proof fn last_attempt_is_the_first_success(
    max_retries: int,
    taken: spec_fn(int) -> bool,
    attempt: int,
)
    requires
        attempt <= max_retries,
    ensures
        attempt <= last_attempt(max_retries, taken, attempt) <= max_retries,
        forall|i: int|
            attempt <= i < last_attempt(max_retries, taken, attempt) ==> !(#[trigger] taken(i)),
        !taken(last_attempt(max_retries, taken, attempt)) ==> last_attempt(
            max_retries,
            taken,
            attempt,
        ) == max_retries,
    decreases max_retries - attempt,
{
    if !taken(attempt) && attempt < max_retries {
        last_attempt_is_the_first_success(max_retries, taken, attempt + 1);
    }
}

/// A delivery is tried again, after the pause for each attempt, up to the first attempt that
/// succeeds or up to the last retry; it ends with that attempt, as done where it succeeds and
/// given up where it does not.
pub proof fn delivery_ends_with_success_or_the_last_retry(
    max_retries: int,
    base_delay_ms: int,
    taken: spec_fn(int) -> bool,
    attempt: int,
)
    requires
        attempt <= max_retries,
    ensures
        ({
            let steps = delivery_steps(max_retries, base_delay_ms, taken, attempt);
            let end = last_attempt(max_retries, taken, attempt);
            &&& steps.len() == end - attempt + 1
            &&& steps.last() == (if taken(end) {
                DeliveryStep::Done
            } else {
                DeliveryStep::GiveUp
            })
            &&& forall|i: int|
                0 <= i < steps.len() - 1 ==> #[trigger] steps[i] == DeliveryStep::RetryAfterMs(
                    pause_after(base_delay_ms, (attempt + i) as nat) as u64,
                )
        }),
    decreases max_retries - attempt,
{
    let steps = delivery_steps(max_retries, base_delay_ms, taken, attempt);
    if !taken(attempt) && attempt < max_retries {
        let rest = delivery_steps(max_retries, base_delay_ms, taken, attempt + 1);
        delivery_ends_with_success_or_the_last_retry(
            max_retries,
            base_delay_ms,
            taken,
            attempt + 1,
        );
        assert(steps.last() == rest.last());
        assert forall|i: int| 0 <= i < steps.len() - 1 implies #[trigger] steps[i]
            == DeliveryStep::RetryAfterMs(
            pause_after(base_delay_ms, (attempt + i) as nat) as u64,
        ) by {
            if i > 0 {
                assert(steps[i] == rest[i - 1]);
            }
        }
    }
}

/// An answer means that the message was taken exactly where its status is from 200 to 399; every
/// status from 400 on is a failure, and every one below 200. A failure tells its status, so two
/// statuses that fail are told apart.
pub proof fn statuses_from_200_to_399_are_taken(status: u16, other: u16)
    ensures
        answer_meaning(status) is Ok <==> 200 <= status < 400,
        status >= 400 ==> answer_meaning(status) is Err,
        status < 200 ==> answer_meaning(status) is Err,
        answer_meaning(status) matches Ok(told) ==> told == status,
        answer_meaning(status) matches Err(text) ==> "HTTP "@.is_prefix_of(text)
            && crate::numerals::value_of(text.skip(5), 10) == status,
        answer_meaning(status) == answer_meaning(other) ==> status == other,
{
    statuses_are_told(status);
    statuses_are_told(other);
}

proof fn statuses_are_told(status: u16)
    ensures
        answer_meaning(status) is Ok <==> 200 <= status < 400,
        answer_meaning(status) matches Ok(told) ==> told == status,
        answer_meaning(status) matches Err(text) ==> "HTTP "@.is_prefix_of(text)
            && crate::numerals::value_of(text.skip(5), 10) == status,
{
    reveal_strlit("HTTP ");
    crate::numerals::numeral_reads_as_its_number(status as nat, 10);
    let digits = crate::numerals::decimal(status as nat);
    let text = "HTTP "@ + digits;
    assert(text.subrange(0, 5) == "HTTP "@);
    assert(text.skip(5) == digits);
}

/// The first pause is as long as it was set to be, and each one is twice as long as the one
/// before; but none is longer than sixty seconds.
pub proof fn pauses_double_up_to_sixty_seconds(base_delay_ms: int, attempt: nat)
    requires
        base_delay_ms >= 0,
    ensures
        pause_after(base_delay_ms, 0) == (if base_delay_ms < 60_000 {
            base_delay_ms
        } else {
            60_000
        }),
        pause_after(base_delay_ms, attempt + 1) == (if 2 * pause_after(base_delay_ms, attempt)
            < 60_000 {
            2 * pause_after(base_delay_ms, attempt)
        } else {
            60_000
        }),
{
    vstd::arithmetic::power2::lemma2_to64();
    vstd::arithmetic::power2::lemma_pow2_unfold(attempt + 1);
    let p = pow2(attempt) as int;
    assert(base_delay_ms * 1 == base_delay_ms);
    assert(base_delay_ms * (2 * p) == 2 * (base_delay_ms * p)) by (nonlinear_arith);
}

/// There is a pause after each of the first thirty-two attempts, and after no other, where the
/// first one is shorter than about fifty days.
pub proof fn thirty_two_attempts_have_a_pause(base_delay_ms: int, attempt: int)
    requires
        0 <= base_delay_ms <= 0xffff_ffff,
        0 <= attempt,
    ensures
        has_pause(base_delay_ms, attempt) <==> attempt < 32,
{
    if attempt < 32 {
        vstd::arithmetic::power2::lemma2_to64();
        if attempt < 31 {
            vstd::arithmetic::power2::lemma_pow2_strictly_increases(attempt as nat, 31);
        }
        let p = pow2(attempt as nat) as int;
        assert(base_delay_ms * p <= 0xffff_ffff * 0x8000_0000) by (nonlinear_arith)
            requires
                0 <= base_delay_ms <= 0xffff_ffff,
                0 <= p <= 0x8000_0000,
        ;
    }
}

/// A message that was taken is not sent again. One that was not is sent again exactly where there
/// are retries left, and not before the pause is over.
pub proof fn only_what_was_not_taken_is_sent_again(
    max_retries: int,
    base_delay_ms: int,
    attempt: int,
)
    requires
        0 <= base_delay_ms,
        0 <= attempt,
    ensures
        step_after(max_retries, base_delay_ms, attempt, true) == DeliveryStep::Done,
        attempt >= max_retries ==> step_after(max_retries, base_delay_ms, attempt, false)
            == DeliveryStep::GiveUp,
        attempt < max_retries ==> (step_after(max_retries, base_delay_ms, attempt, false) matches
            DeliveryStep::RetryAfterMs(pause) && pause <= 60_000 && pause == pause_after(
            base_delay_ms,
            attempt as nat,
        )),
{
    pauses_grow_to_a_minute(base_delay_ms, attempt as nat);
}

/// Headers are seen one by one, each with its own key and value.
pub proof fn headers_are_seen_one_by_one(list: Seq<HttpHeader>, i: int)
    requires
        0 <= i < list.len(),
    ensures
        header_views(list).len() == list.len(),
        header_views(list)[i].0 == list[i].key@,
        header_views(list)[i].1 == list[i].value@,
{
}

} // verus!
