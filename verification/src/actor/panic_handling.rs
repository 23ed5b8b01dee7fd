//! Panic information for supervision: extracting and bounding panic
//! messages, and building the `ActorError::Panic` values that supervisors
//! receive.

use crate::actor::ActorError;
use vstd::prelude::*;
use vstd::string::StringSliceAdditionalSpecFns;
use vstd::utf8::is_char_boundary;

verus! {

/// Maximum length in bytes of panic messages and actor identifiers.
pub const PANIC_TEXT_CAPACITY: usize = 128;

/// Number of bytes in the UTF-8 encoding of `c`.
pub open spec fn utf8_width(c: char) -> nat {
    if (c as u32) < 0x80 {
        1
    } else if (c as u32) < 0x800 {
        2
    } else if (c as u32) < 0x10000 {
        3
    } else {
        4
    }
}

/// Number of UTF-8 bytes of the characters `cs`.
pub open spec fn utf8_size(cs: Seq<char>) -> nat
    decreases cs.len(),
{
    if cs.len() == 0 {
        0
    } else {
        utf8_width(cs[0]) + utf8_size(cs.drop_first())
    }
}

/// How many leading characters of `text` fit when appended to a string of
/// `used` bytes with room for `capacity` bytes. Characters are taken one by
/// one; a character is taken only if it fits, and, when another character
/// follows it, only if that next character would fit after it too.
pub open spec fn kept_chars(text: Seq<char>, used: nat, capacity: nat) -> nat
    decreases text.len(),
{
    if text.len() == 0 {
        0
    } else {
        let w = utf8_width(text[0]);
        if used + w > capacity || (text.len() > 1 && used + w + utf8_width(text[1]) > capacity) {
            0
        } else {
            1 + kept_chars(text.drop_first(), used + w, capacity)
        }
    }
}

/// Bytes taken by the first `k` characters when they start after `used` bytes.
pub open spec fn bytes_after(text: Seq<char>, used: nat, k: nat) -> nat
    decreases k,
{
    if k == 0 || text.len() == 0 {
        used
    } else {
        bytes_after(text.drop_first(), used + utf8_width(text[0]), (k - 1) as nat)
    }
}

/// `text` bounded to `PANIC_TEXT_CAPACITY` bytes on a character boundary.
pub open spec fn bounded_text(text: Seq<char>) -> Seq<char> {
    text.take(kept_chars(text, 0, PANIC_TEXT_CAPACITY as nat) as int)
}

/// Number of bytes in the UTF-8 encoding of `c`.
fn char_width(c: char) -> (r: usize)
    ensures
        r == utf8_width(c),
{
    let v = c as u32;
    if v < 0x80 {
        1
    } else if v < 0x800 {
        2
    } else if v < 0x10000 {
        3
    } else {
        4
    }
}

/// The kept characters never take more bytes than the capacity.
pub proof fn lemma_kept_chars_fit(text: Seq<char>, used: nat, capacity: nat)
    requires
        used <= capacity,
    ensures
        kept_chars(text, used, capacity) <= text.len(),
        bytes_after(text, used, kept_chars(text, used, capacity)) <= capacity,
    decreases text.len(),
{
    if text.len() > 0 {
        let w = utf8_width(text[0]);
        if !(used + w > capacity || (text.len() > 1 && used + w + utf8_width(text[1]) > capacity)) {
            lemma_kept_chars_fit(text.drop_first(), used + w, capacity);
        }
    }
}

/// Number of leading characters of `text` that fit after `used` bytes in
/// a string with room for `capacity` bytes (see [`kept_chars`]).
pub fn fitting_char_count(text: &str, used: usize, capacity: usize) -> (r: usize)
    ensures
        r == kept_chars(text@, used as nat, capacity as nat),
        r <= text@.len(),
{
    let n = text.unicode_len();
    let ghost t = text@;
    let mut i: usize = 0;
    let mut current: usize = used;
    proof {
        assert(t.skip(0) =~= t);
    }
    while i < n
        invariant
            n == t.len(),
            t == text@,
            i <= n,
            current <= capacity || i == 0,
            current as nat + 0 == bytes_after(t, used as nat, i as nat),
            kept_chars(t, used as nat, capacity as nat) == i + kept_chars(t.skip(i as int), current as nat, capacity as nat),
        ensures
            i == kept_chars(t, used as nat, capacity as nat),
        decreases n - i,
    {
        let c = text.get_char(i);
        let w = char_width(c);
        let ghost rest = t.skip(i as int);
        proof {
            assert(rest[0] == c);
        }
        if current >= capacity || w > capacity - current {
            proof {
                assert(kept_chars(rest, current as nat, capacity as nat) == 0);
            }
            break;
        }
        if i + 1 < n {
            let next = text.get_char(i + 1);
            let w2 = char_width(next);
            proof {
                assert(rest[1] == next);
            }
            if w2 > capacity - current - w {
                proof {
                    assert(kept_chars(rest, current as nat, capacity as nat) == 0);
                }
                break;
            }
        }
        proof {
            assert(rest.drop_first() =~= t.skip(i + 1));
            assert(kept_chars(rest, current as nat, capacity as nat) == 1 + kept_chars(t.skip(i + 1), (current + w) as nat, capacity as nat));
            lemma_bytes_after_step(t, used as nat, i as nat);
        }
        current = current + w;
        i = i + 1;
    }
    proof {
        if i == n {
            assert(t.skip(i as int).len() == 0);
        }
    }
    i
}

/// Bytes taken by the first `k` characters after `used` bytes are `used`
/// plus the UTF-8 size of those characters.
proof fn lemma_bytes_after_size(text: Seq<char>, used: nat, k: nat)
    requires
        k <= text.len(),
    ensures
        bytes_after(text, used, k) == used + utf8_size(text.take(k as int)),
    decreases k,
{
    if k > 0 {
        lemma_bytes_after_size(text.drop_first(), used + utf8_width(text[0]), (k - 1) as nat);
        assert(text.take(k as int).drop_first() =~= text.drop_first().take(k - 1));
    } else {
        assert(text.take(0) =~= Seq::<char>::empty());
    }
}

/// A bounded panic text is a prefix of the given text, never longer
/// than `PANIC_TEXT_CAPACITY` bytes in UTF-8, and the whole text when the
/// whole text fits.
pub proof fn lemma_bounded_text(text: Seq<char>)
    ensures
        bounded_text(text).len() <= text.len(),
        bounded_text(text) == text.take(bounded_text(text).len() as int),
        utf8_size(bounded_text(text)) <= PANIC_TEXT_CAPACITY,
        utf8_size(text) <= PANIC_TEXT_CAPACITY ==> bounded_text(text) == text,
{
    let k = kept_chars(text, 0, PANIC_TEXT_CAPACITY as nat);
    lemma_kept_chars_fit(text, 0, PANIC_TEXT_CAPACITY as nat);
    lemma_bytes_after_size(text, 0, k);
    if utf8_size(text) <= PANIC_TEXT_CAPACITY {
        lemma_kept_chars_all(text, 0, PANIC_TEXT_CAPACITY as nat);
        assert(text.take(text.len() as int) =~= text);
    }
}

/// A text that fits after `used` bytes is kept whole.
proof fn lemma_kept_chars_all(text: Seq<char>, used: nat, capacity: nat)
    requires
        used + utf8_size(text) <= capacity,
    ensures
        kept_chars(text, used, capacity) == text.len(),
    decreases text.len(),
{
    if text.len() > 0 {
        let rest = text.drop_first();
        if text.len() > 1 {
            assert(rest[0] == text[1]);
            assert(utf8_size(rest) == utf8_width(rest[0]) + utf8_size(rest.drop_first()));
        }
        lemma_kept_chars_all(rest, used + utf8_width(text[0]), capacity);
    }
}

proof fn lemma_bytes_after_step(text: Seq<char>, used: nat, k: nat)
    requires
        k < text.len(),
    ensures
        bytes_after(text, used, k + 1) == bytes_after(text, used, k) + utf8_width(text[k as int]),
    decreases k,
{
    let rest = text.drop_first();
    let u = used + utf8_width(text[0]);
    if k > 0 {
        lemma_bytes_after_step(rest, u, (k - 1) as nat);
        assert(rest[(k - 1) as int] == text[k as int]);
        assert(bytes_after(text, used, k + 1) == bytes_after(rest, u, k));
        assert(bytes_after(text, used, k) == bytes_after(rest, u, (k - 1) as nat));
    } else {
        assert(bytes_after(rest, u, 0) == u);
        assert(bytes_after(text, used, 1) == bytes_after(rest, u, 0));
        assert(bytes_after(text, used, 0) == used);
    }
}

/// `text` bounded to `PANIC_TEXT_CAPACITY` bytes without splitting a
/// character (see [`kept_chars`]).
pub fn bounded_panic_text(text: &str) -> (r: String)
    ensures
        r@ == bounded_text(text@),
{
    let k = fitting_char_count(text, 0, PANIC_TEXT_CAPACITY);
    String::from_str(text.substring_char(0, k))
}

/// Largest character boundary of `s` at or below `max_bytes`: the whole
/// length when `s` fits, otherwise the last boundary not past `max_bytes`.
pub fn find_truncation_boundary(s: &str, max_bytes: usize) -> (r: usize)
    requires
        s.spec_bytes().len() <= usize::MAX,
    ensures
        s.spec_bytes().len() <= max_bytes ==> r == s.spec_bytes().len(),
        s.spec_bytes().len() > max_bytes ==> {
            &&& r <= max_bytes
            &&& (r == 0 || is_char_boundary(s.spec_bytes(), r as int))
            &&& forall|k: int| r < k <= max_bytes ==> !is_char_boundary(s.spec_bytes(), k)
        },
{
    let total = s.len();
    let target_len = if total < max_bytes { total } else { max_bytes };
    if target_len == total {
        return target_len;
    }
    let mut len = target_len;
    while len > 0 && !s.is_char_boundary(len)
        invariant
            len <= target_len,
            target_len == max_bytes,
            forall|k: int| len < k <= max_bytes ==> !is_char_boundary(s.spec_bytes(), k),
        decreases len,
    {
        len = len - 1;
    }
    len
}

/// The panic message a supervisor reports: the payload's text when the
/// payload was a string, otherwise a fixed description.
pub fn panic_message_from_payload(payload_text: Option<String>) -> (r: String)
    ensures
        r@ == match payload_text {
            Some(t) => t@,
            None => "panic occurred (payload type unknown)"@,
        },
{
    match payload_text {
        Some(t) => t,
        None => String::from_str("panic occurred (payload type unknown)"),
    }
}

/// An `ActorError::Panic` carrying `message` and `actor_id` as given.
pub fn panic_error(message: String, actor_id: Option<String>) -> (r: ActorError)
    ensures
        r == (ActorError::Panic { message: Some(message), actor_id }),
{
    ActorError::Panic { message: Some(message), actor_id }
}

/// The error a finished-with-failure task stands for: a panic becomes
/// `ActorError::Panic` with the payload's message (see
/// [`panic_message_from_payload`]) and `actor_id`; a task that was cancelled
/// or aborted instead becomes `ActorError::ShutdownFailure`.
pub fn task_failure_error(was_panic: bool, payload_text: Option<String>, actor_id: Option<String>) -> (r: ActorError)
    ensures
        was_panic ==> (r matches ActorError::Panic { message: Some(m), actor_id: id } && id == actor_id && m@ == match payload_text {
            Some(t) => t@,
            None => "panic occurred (payload type unknown)"@,
        }),
        !was_panic ==> r == ActorError::ShutdownFailure,
{
    if was_panic {
        panic_error(panic_message_from_payload(payload_text), actor_id)
    } else {
        ActorError::ShutdownFailure
    }
}

/// A controlled failure that supervision treats like a panic. The message
/// and the actor identifier are bounded to `PANIC_TEXT_CAPACITY` bytes
/// without splitting a character.
pub fn create_controlled_failure(message: &str, actor_id: Option<&str>) -> (r: ActorError)
    ensures
        r matches ActorError::Panic { message: Some(m), actor_id: id } && m@ == bounded_text(message@) && match actor_id {
            Some(a) => id matches Some(i) && i@ == bounded_text(a@),
            None => id is None,
        },
{
    let panic_message = bounded_panic_text(message);
    let id = match actor_id {
        Some(a) => Some(bounded_panic_text(a)),
        None => None,
    };
    ActorError::Panic { message: Some(panic_message), actor_id: id }
}

/// A panic-like error for runtimes without unwinding, carrying `message`.
pub fn simulate_panic_for_testing(message: &str) -> (r: ActorError)
    ensures
        r matches ActorError::Panic { message: Some(m), actor_id: id } && m@ == message@ && id is None,
{
    ActorError::Panic { message: Some(String::from_str(message)), actor_id: None }
}

/// A panic-like error carrying `message` and the actor identifier.
pub fn simulate_panic_with_id(message: &str, actor_id: &str) -> (r: ActorError)
    ensures
        r matches ActorError::Panic { message: Some(m), actor_id: Some(i) } && m@ == message@ && i@ == actor_id@,
{
    ActorError::Panic { message: Some(String::from_str(message)), actor_id: Some(String::from_str(actor_id)) }
}

} // verus!
