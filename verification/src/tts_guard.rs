//! A guard that smooths streamed LLM text before it is fed to realtime
//! text-to-speech: tiny chunks are merged, and text is flushed at a
//! sentence or phrase boundary once enough of it has gathered, when too
//! much has gathered, or when it has waited too long.
//!
//! Text is held as its sequence of `char`s. Byte positions, where the
//! logic needs them, are UTF-8 lengths of prefixes.

use std::time::Duration;
use tokio::time::Instant;
use vstd::prelude::*;

verus! {

/// Bytes of the UTF-8 encoding of `c` (as `char::len_utf8`).
pub open spec fn char_len_utf8(c: char) -> nat {
    if (c as u32) < 0x80 {
        1
    } else if (c as u32) < 0x800 {
        2
    } else if (c as u32) < 0x10000 {
        3
    } else {
        4
    }
}

/// `c` has the Unicode White_Space property (as `char::is_whitespace`).
pub open spec fn is_white_space(c: char) -> bool {
    let u = c as u32;
    ||| 0x9 <= u <= 0xD
    ||| u == 0x20
    ||| u == 0x85
    ||| u == 0xA0
    ||| u == 0x1680
    ||| 0x2000 <= u <= 0x200A
    ||| u == 0x2028
    ||| u == 0x2029
    ||| u == 0x202F
    ||| u == 0x205F
    ||| u == 0x3000
}

/// `s` without its trailing white space (as `str::trim_end`).
pub open spec fn trim_end(s: Seq<char>) -> Seq<char>
    decreases s.len(),
{
    if s.len() > 0 && is_white_space(s.last()) {
        trim_end(s.drop_last())
    } else {
        s
    }
}

/// `s` without its leading white space (as `str::trim_start`).
pub open spec fn trim_start(s: Seq<char>) -> Seq<char>
    decreases s.len(),
{
    if s.len() > 0 && is_white_space(s[0]) {
        trim_start(s.drop_first())
    } else {
        s
    }
}

/// `s` without leading and trailing white space (as `str::trim`).
pub open spec fn trim(s: Seq<char>) -> Seq<char> {
    trim_end(trim_start(s))
}

/// `s` holds nothing but white space (as `str::trim(..).is_empty()`).
pub open spec fn is_blank(s: Seq<char>) -> bool {
    forall|i: int| 0 <= i < s.len() ==> is_white_space(#[trigger] s[i])
}

/// A character that closes a sentence.
pub open spec fn is_sentence_end(c: char) -> bool {
    c == '.' || c == '?' || c == '!' || c == '\n'
}

/// A character after which a phrase may be cut: `, : ;` or a space.
pub open spec fn is_phrase_end(c: char) -> bool {
    c == ',' || c == ':' || c == ';' || c == ' '
}

/// After trailing white space is dropped, `s` ends with a sentence or
/// phrase boundary.
pub open spec fn spec_ends_with_boundary(s: Seq<char>) -> bool {
    let t = trim_end(s);
    t.len() > 0 && (is_sentence_end(t.last()) || is_phrase_end(t.last()))
}

/// Size in bytes of the search window at the end of the text.
pub const BOUNDARY_WINDOW_BYTES: usize = 320;

/// The char index where the last `n` bytes of `s` begin: `Some(0)` when
/// `s` has at most `n` bytes, `None` when byte `len - n` falls inside a
/// character.
pub open spec fn tail_start(s: Seq<char>, n: nat) -> Option<nat>
    decreases s.len(),
{
    if n == 0 {
        Some(s.len())
    } else if s.len() == 0 {
        Some(0)
    } else if char_len_utf8(s.last()) > n {
        None
    } else {
        tail_start(s.drop_last(), (n - char_len_utf8(s.last())) as nat)
    }
}

/// The search window of `s` starts on a character (slicing there cannot
/// fail).
pub open spec fn window_ok(s: Seq<char>) -> bool {
    tail_start(s, BOUNDARY_WINDOW_BYTES as nat) is Some
}

/// The index of the last character at or after `lo` that closes a
/// sentence (`sentence`) or a phrase (`!sentence`).
pub open spec fn last_end_from(s: Seq<char>, lo: int, sentence: bool) -> Option<int>
    decreases s.len(),
{
    if s.len() <= lo || s.len() == 0 {
        None
    } else if (if sentence {
        is_sentence_end(s.last())
    } else {
        is_phrase_end(s.last())
    }) {
        Some(s.len() - 1)
    } else {
        last_end_from(s.drop_last(), lo, sentence)
    }
}

/// Where to cut `s`: just after the last sentence end in the window at the
/// end of the text, else just after its last phrase end, else nowhere.
/// The cut is a number of characters.
pub open spec fn boundary_cut(s: Seq<char>) -> Option<nat> {
    match tail_start(s, BOUNDARY_WINDOW_BYTES as nat) {
        None => None,
        Some(k0) => match last_end_from(s, k0 as int, true) {
            Some(j) => Some((j + 1) as nat),
            None => match last_end_from(s, k0 as int, false) {
                Some(j) => Some((j + 1) as nat),
                None => None,
            },
        },
    }
}

proof fn lemma_last_end_bounds(s: Seq<char>, lo: int, sentence: bool)
    ensures
        last_end_from(s, lo, sentence) matches Some(j) ==> 0 <= j && lo <= j < s.len() && (if sentence {
            is_sentence_end(s[j])
        } else {
            is_phrase_end(s[j])
        }),
    decreases s.len(),
{
    if s.len() > lo && s.len() > 0 {
        lemma_last_end_bounds(s.drop_last(), lo, sentence);
        if let Some(j) = last_end_from(s.drop_last(), lo, sentence) {
            assert(s.drop_last()[j] == s[j]);
        }
    }
}

proof fn lemma_tail_start_bound(s: Seq<char>, n: nat)
    ensures
        tail_start(s, n) matches Some(k) ==> k <= s.len(),
    decreases s.len(),
{
    if n != 0 && s.len() != 0 && char_len_utf8(s.last()) <= n {
        lemma_tail_start_bound(s.drop_last(), (n - char_len_utf8(s.last())) as nat);
    }
}

/// The cut, when there is one, falls inside the text.
pub proof fn lemma_boundary_cut_bound(s: Seq<char>)
    ensures
        boundary_cut(s) matches Some(k) ==> 0 < k <= s.len(),
{
    lemma_tail_start_bound(s, BOUNDARY_WINDOW_BYTES as nat);
    if let Some(k0) = tail_start(s, BOUNDARY_WINDOW_BYTES as nat) {
        lemma_last_end_bounds(s, k0 as int, true);
        lemma_last_end_bounds(s, k0 as int, false);
    }
}

fn char_len(c: char) -> (n: usize)
    ensures
        n == char_len_utf8(c),
{
    let u = c as u32;
    if u < 0x80 {
        1
    } else if u < 0x800 {
        2
    } else if u < 0x10000 {
        3
    } else {
        4
    }
}

fn white_space(c: char) -> (b: bool)
    ensures
        b == is_white_space(c),
{
    let u = c as u32;
    (0x9 <= u && u <= 0xD) || u == 0x20 || u == 0x85 || u == 0xA0 || u == 0x1680 || (0x2000 <= u
        && u <= 0x200A) || u == 0x2028 || u == 0x2029 || u == 0x202F || u == 0x205F || u == 0x3000
}

/// Whether `s`, once trailing white space is dropped, ends with one of
/// `. ? ! \n , : ;`.
pub fn ends_with_boundary(s: &[char]) -> (b: bool)
    ensures
        b == spec_ends_with_boundary(s@),
{
    let mut k: usize = s.len();
    assert(s@.take(k as int) =~= s@);
    while k > 0 && white_space(s[k - 1])
        invariant
            k <= s@.len(),
            trim_end(s@.take(k as int)) == trim_end(s@),
        decreases k,
    {
        assert(s@.take(k as int).drop_last() =~= s@.take(k - 1));
        k = k - 1;
    }
    if k == 0 {
        assert(s@.take(0) =~= Seq::<char>::empty());
        return false;
    }
    let c = s[k - 1];
    assert(s@.take(k as int).last() == c);
    c == '.' || c == '?' || c == '!' || c == '\n' || c == ',' || c == ':' || c == ';'
}

/// Whether `s` holds nothing but white space.
pub fn is_blank_text(s: &[char]) -> (b: bool)
    ensures
        b == is_blank(s@),
{
    let mut k: usize = 0;
    while k < s.len()
        invariant
            k <= s@.len(),
            is_blank(s@.take(k as int)),
        decreases s@.len() - k,
    {
        if !white_space(s[k]) {
            return false;
        }
        assert(s@.take(k + 1).drop_last() =~= s@.take(k as int));
        k = k + 1;
    }
    assert(s@.take(k as int) =~= s@);
    true
}

/// The bounds `(a, b)` such that `s[a..b]` is `s` trimmed of white space
/// at both ends.
pub fn trim_bounds(s: &[char]) -> (r: (usize, usize))
    ensures
        r.0 <= r.1 <= s@.len(),
        s@.subrange(r.0 as int, r.1 as int) == trim(s@),
{
    let mut a: usize = 0;
    assert(s@.skip(0) =~= s@);
    while a < s.len() && white_space(s[a])
        invariant
            a <= s@.len(),
            trim_start(s@.skip(a as int)) == trim_start(s@),
        decreases s@.len() - a,
    {
        assert(s@.skip(a as int).drop_first() =~= s@.skip(a + 1));
        a = a + 1;
    }
    let mut b: usize = s.len();
    assert(s@.subrange(a as int, b as int) =~= s@.skip(a as int));
    while b > a && white_space(s[b - 1])
        invariant
            a <= b <= s@.len(),
            trim_end(s@.subrange(a as int, b as int)) == trim(s@),
        decreases b,
    {
        assert(s@.subrange(a as int, b as int).drop_last() =~= s@.subrange(a as int, b - 1));
        b = b - 1;
    }
    (a, b)
}

/// The characters of `s`, in order.
pub fn chars_of(s: &str) -> (out: Vec<char>)
    ensures
        out@ == s@,
{
    let mut out: Vec<char> = Vec::new();
    for c in it: s.chars()
        invariant
            out@ == it.seq().take(it.index() as int),
    {
        out.push(c);
    }
    out
}

/// `String::from_iter` over a slice of `char`s: the string of exactly
/// those characters.
#[verifier::external_body]
pub(crate) fn string_of(chars: &[char]) -> (s: String)
    ensures
        s@ == chars@,
{
    chars.iter().collect()
}

fn window_tail(s: &[char]) -> (r: Option<usize>)
    ensures
        match tail_start(s@, BOUNDARY_WINDOW_BYTES as nat) {
            Some(k) => r == Some(k as usize),
            None => r is None,
        },
{
    let mut k: usize = s.len();
    let mut rem: usize = BOUNDARY_WINDOW_BYTES;
    assert(s@.take(k as int) =~= s@);
    while rem > 0 && k > 0
        invariant
            k <= s@.len(),
            rem <= BOUNDARY_WINDOW_BYTES,
            tail_start(s@.take(k as int), rem as nat) == tail_start(
                s@,
                BOUNDARY_WINDOW_BYTES as nat,
            ),
        decreases k,
    {
        let l = char_len(s[k - 1]);
        assert(s@.take(k as int).last() == s@[k - 1]);
        assert(s@.take(k as int).drop_last() =~= s@.take(k - 1));
        if l > rem {
            return None;
        }
        rem = rem - l;
        k = k - 1;
    }
    Some(k)
}

/// Whether the search window of `s` starts on a character.
pub fn window_is_ok(s: &[char]) -> (b: bool)
    ensures
        b == window_ok(s@),
{
    window_tail(s).is_some()
}

fn window_start(s: &[char]) -> (k: usize)
    requires
        window_ok(s@),
    ensures
        tail_start(s@, BOUNDARY_WINDOW_BYTES as nat) == Some(k as nat),
{
    proof {
        lemma_tail_start_bound(s@, BOUNDARY_WINDOW_BYTES as nat);
    }
    assert(s@.len() == s.len());
    match window_tail(s) {
        Some(k) => k,
        None => 0,
    }
}

fn last_end(s: &[char], lo: usize, sentence: bool) -> (r: Option<usize>)
    requires
        lo <= s@.len(),
    ensures
        match last_end_from(s@, lo as int, sentence) {
            Some(j) => r == Some(j as usize),
            None => r is None,
        },
{
    let mut k: usize = s.len();
    assert(s@.take(k as int) =~= s@);
    while k > lo
        invariant
            lo <= k <= s@.len(),
            last_end_from(s@.take(k as int), lo as int, sentence) == last_end_from(
                s@,
                lo as int,
                sentence,
            ),
        decreases k,
    {
        let c = s[k - 1];
        assert(s@.take(k as int).last() == c);
        assert(s@.take(k as int).drop_last() =~= s@.take(k - 1));
        let hit = if sentence {
            c == '.' || c == '?' || c == '!' || c == '\n'
        } else {
            c == ',' || c == ':' || c == ';' || c == ' '
        };
        if hit {
            return Some(k - 1);
        }
        k = k - 1;
    }
    None
}

/// The number of leading characters of `s` to flush: up to and including
/// the last sentence end in the window of the last 320 bytes, else the
/// last phrase end there, else `None`. The window must start on a
/// character.
fn boundary_cut_chars(s: &[char]) -> (r: Option<usize>)
    requires
        window_ok(s@),
    ensures
        match boundary_cut(s@) {
            Some(k) => r == Some(k as usize),
            None => r is None,
        },
{
    let k0 = window_start(s);
    assert(s@.len() == s.len());
    proof {
        lemma_tail_start_bound(s@, BOUNDARY_WINDOW_BYTES as nat);
        lemma_last_end_bounds(s@, k0 as int, true);
        lemma_last_end_bounds(s@, k0 as int, false);
    }
    match last_end(s, k0, true) {
        Some(j) => Some(j + 1),
        None => match last_end(s, k0, false) {
            Some(j) => Some(j + 1),
            None => None,
        },
    }
}



/// Bytes of the UTF-8 encoding of `s`.
pub open spec fn utf8_len(s: Seq<char>) -> nat
    decreases s.len(),
{
    if s.len() == 0 {
        0
    } else {
        char_len_utf8(s[0]) + utf8_len(s.drop_first())
    }
}

proof fn lemma_utf8_len_append(a: Seq<char>, b: Seq<char>)
    ensures
        utf8_len(a + b) == utf8_len(a) + utf8_len(b),
    decreases a.len(),
{
    if a.len() > 0 {
        assert((a + b).drop_first() =~= a.drop_first() + b);
        lemma_utf8_len_append(a.drop_first(), b);
    } else {
        assert(a + b =~= b);
    }
}

proof fn lemma_utf8_len_encoding(s: Seq<char>)
    ensures
        utf8_len(s) == vstd::utf8::encode_utf8(s).len(),
    decreases s.len(),
{
    if s.len() > 0 {
        vstd::utf8::char_is_scalar(s[0]);
        lemma_utf8_len_encoding(s.drop_first());
    }
}

/// The byte index in `s` just after its boundary: the UTF-8 length of the
/// characters up to and including the last sentence end in the window of
/// the last 320 bytes, else the last phrase end there (`, : ;` or a
/// space), else `None`. The window must start on a character; the text's
/// byte length is a `usize`.
pub fn find_last_reasonable_boundary(s: &str) -> (r: Option<usize>)
    requires
        window_ok(s@),
        vstd::utf8::encode_utf8(s@).len() <= usize::MAX,
    ensures
        match boundary_cut(s@) {
            Some(k) => r == Some(utf8_len(s@.take(k as int)) as usize),
            None => r is None,
        },
{
    let chars = chars_of(s);
    match boundary_cut_chars(chars.as_slice()) {
        None => None,
        Some(k) => {
            proof {
                lemma_utf8_len_encoding(s@);
                lemma_boundary_cut_bound(s@);
            }
            let mut i: usize = 0;
            let mut b: usize = 0;
            assert(chars@.take(0) =~= Seq::<char>::empty());
            while i < k
                invariant
                    chars@ == s@,
                    i <= k <= chars@.len(),
                    b == utf8_len(chars@.take(i as int)),
                    utf8_len(chars@) <= usize::MAX,
                decreases k - i,
            {
                let ghost t = chars@.take(i as int);
                proof {
                    lemma_utf8_len_append(t, seq![chars@[i as int]]);
                    assert(seq![chars@[i as int]].drop_first() =~= Seq::<char>::empty());
                    assert(utf8_len(Seq::<char>::empty()) == 0);
                    assert(utf8_len(seq![chars@[i as int]]) == char_len_utf8(chars@[i as int]));
                    assert(t + seq![chars@[i as int]] =~= chars@.take(i + 1));
                    lemma_utf8_len_append(chars@.take(i + 1), chars@.skip(i + 1));
                    assert(chars@.take(i + 1) + chars@.skip(i + 1) =~= chars@);
                }
                b = b + char_len(chars[i]);
                i = i + 1;
            }
            Some(b)
        },
    }
}

/// `tokio::time::Instant`, the moment of the guard's last flush.
#[verifier::external_type_specification]
#[verifier::external_body]
pub struct ExInstant(Instant);

/// `tokio::time::Instant::now` returns the current instant; as it depends
/// on the clock, nothing is stated of it.
pub assume_specification[ Instant::now ]() -> Instant;

/// `tokio::time::Instant::elapsed` returns the time since `i` (zero if `i`
/// lies in the future); as it depends on the clock, nothing is stated of it.
pub assume_specification[ Instant::elapsed ](i: &Instant) -> Duration;

/// The whole length of a duration in nanoseconds, as
/// `std::time::Duration::as_nanos` gives it.
pub uninterp spec fn duration_nanos(d: Duration) -> u128;

/// `std::time::Duration::as_nanos`: the whole duration in nanoseconds (a
/// `u128` holds every duration exactly), a function of the duration alone.
pub assume_specification[ Duration::as_nanos ](d: &Duration) -> (n: u128)
    ensures
        n == duration_nanos(*d),
;

/// At least the wait limit has passed.
pub open spec fn waited_enough(elapsed_ns: u128, limit_ns: u128) -> bool {
    elapsed_ns >= limit_ns
}

/// `s` cut at its boundary: the text to flush and the text that stays; with
/// no boundary, everything is flushed.
pub open spec fn split_at_boundary(s: Seq<char>) -> (Seq<char>, Seq<char>) {
    match boundary_cut(s) {
        Some(k) => (s.take(k as int), s.skip(k as int)),
        None => (s, Seq::empty()),
    }
}

/// What pushing `chunk` onto the buffered text `buf` does, given whether
/// the guard has waited at least its maximum wait since the last flush:
/// the text flushed, if any, and the text left buffered.
pub open spec fn push_outcome(
    buf: Seq<char>,
    chunk: Seq<char>,
    min_chars: nat,
    max_chars: nat,
    waited: bool,
) -> (Option<Seq<char>>, Seq<char>) {
    if chunk.len() == 0 {
        (None, buf)
    } else {
        let s = buf + chunk;
        if s.len() >= max_chars || (waited && s.len() >= min_chars) {
            (Some(split_at_boundary(s).0), split_at_boundary(s).1)
        } else if s.len() >= min_chars && spec_ends_with_boundary(s) {
            (Some(s), Seq::empty())
        } else {
            (None, s)
        }
    }
}

/// `new_buf` and `flushed` are what `push_outcome` gives.
pub open spec fn push_matches(
    buf: Seq<char>,
    chunk: Seq<char>,
    min_chars: nat,
    max_chars: nat,
    waited: bool,
    new_buf: Seq<char>,
    flushed: Option<Seq<char>>,
) -> bool {
    push_outcome(buf, chunk, min_chars, max_chars, waited) == (flushed, new_buf)
}

/// The text of an optional string.
pub open spec fn text_of(r: Option<String>) -> Option<Seq<char>> {
    match r {
        Some(t) => Some(t@),
        None => None,
    }
}

/// The push can be carried out: when it cuts the text at a boundary, the
/// search window of the text starts on a character.
pub open spec fn push_defined(
    buf: Seq<char>,
    chunk: Seq<char>,
    min_chars: nat,
    max_chars: nat,
    waited: bool,
) -> bool {
    let s = buf + chunk;
    (chunk.len() > 0 && (s.len() >= max_chars || (waited && s.len() >= min_chars))) ==> window_ok(
        s,
    )
}

/// Buffers incoming text chunks and hands out chunks fit for speech: it
/// avoids per-token appends and giant paragraphs and keeps the cadence
/// even.
#[derive(Debug)]
pub struct TtsChunkGuard {
    buf: Vec<char>,
    last_flush: Instant,
    min_chars: usize,
    max_chars: usize,
    max_wait_ns: u128,
}

impl TtsChunkGuard {
    /// The buffered text.
    pub closed spec fn buffered(self) -> Seq<char> {
        self.buf@
    }

    /// Flush at a boundary once this many characters are buffered.
    pub closed spec fn min_len(self) -> nat {
        self.min_chars as nat
    }

    /// Flush regardless once this many characters are buffered.
    pub closed spec fn max_len(self) -> nat {
        self.max_chars as nat
    }

    /// Flush at a boundary once this many nanoseconds have passed since the
    /// last flush and enough characters are buffered.
    pub closed spec fn wait_limit_ns(self) -> u128 {
        self.max_wait_ns
    }

    /// The moment of the last flush (or of creation).
    pub closed spec fn last_flush_at(self) -> Instant {
        self.last_flush
    }

    /// Whether pushing `chunk`, with `waited` telling whether the wait limit passed, is
    /// defined (see `push_defined`); with `waited` true it covers `push`.
    pub fn push_is_defined(&self, chunk: &str, waited: bool) -> (b: bool)
        ensures
            b == push_defined(self.buffered(), chunk@, self.min_len(), self.max_len(), waited),
    {
        if chunk.is_empty() {
            return true;
        }
        let mut all = vstd::slice::slice_to_vec(self.buf.as_slice());
        let mut incoming = chars_of(chunk);
        all.append(&mut incoming);
        let len = all.len();
        if len >= self.max_chars || (waited && len >= self.min_chars) {
            window_is_ok(all.as_slice())
        } else {
            true
        }
    }

    /// A guard with the defaults: boundary flush from 90 characters, forced
    /// flush at 260, wait limit 320 ms.
    pub fn new() -> (g: Self)
        ensures
            g.buffered() == Seq::<char>::empty(),
            g.min_len() == 90,
            g.max_len() == 260,
            g.wait_limit_ns() == 320_000_000,
    {
        TtsChunkGuard {
            buf: Vec::new(),
            last_flush: Instant::now(),
            min_chars: 90,
            max_chars: 260,
            max_wait_ns: 320_000_000,
        }
    }

    /// A guard with the given limits; the wait limit is held as
    /// `max_wait.as_nanos()`.
    pub fn with_limits(min_chars: usize, max_chars: usize, max_wait: Duration) -> (g: Self)
        ensures
            g.buffered() == Seq::<char>::empty(),
            g.min_len() == min_chars,
            g.max_len() == max_chars,
            g.wait_limit_ns() == duration_nanos(max_wait),
    {
        TtsChunkGuard {
            buf: Vec::new(),
            last_flush: Instant::now(),
            min_chars,
            max_chars,
            max_wait_ns: max_wait.as_nanos(),
        }
    }

    /// Pushes a chunk, `elapsed_ns` nanoseconds after the last flush. The
    /// wait limit counts when `elapsed_ns` reaches it; the text to speak is
    /// returned when it is a good time to flush (see `push_outcome`). An
    /// empty chunk changes nothing, and the moment of the last flush moves
    /// only when text is flushed.
    pub fn push_after(&mut self, chunk: &str, elapsed_ns: u128) -> (r: Option<String>)
        requires
            push_defined(
                old(self).buffered(),
                chunk@,
                old(self).min_len(),
                old(self).max_len(),
                waited_enough(elapsed_ns, old(self).wait_limit_ns()),
            ),
        ensures
            push_matches(
                old(self).buffered(),
                chunk@,
                old(self).min_len(),
                old(self).max_len(),
                waited_enough(elapsed_ns, old(self).wait_limit_ns()),
                final(self).buffered(),
                text_of(r),
            ),
            chunk@.len() == 0 ==> *final(self) == *old(self),
            r is None ==> final(self).last_flush_at() == old(self).last_flush_at(),
            final(self).min_len() == old(self).min_len(),
            final(self).max_len() == old(self).max_len(),
            final(self).wait_limit_ns() == old(self).wait_limit_ns(),
    {
        if chunk.is_empty() {
            return None;
        }
        let waited = elapsed_ns >= self.max_wait_ns;
        let mut incoming = chars_of(chunk);
        self.buf.append(&mut incoming);
        let len = self.buf.len();
        if len >= self.max_chars || (waited && len >= self.min_chars) {
            let out = self.flush_at_best_boundary_or_hard();
            self.last_flush = Instant::now();
            return Some(out);
        }
        if len >= self.min_chars && ends_with_boundary(self.buf.as_slice()) {
            let out = string_of(self.buf.as_slice());
            self.buf = Vec::new();
            self.last_flush = Instant::now();
            return Some(out);
        }
        None
    }

    /// Pushes an incoming LLM chunk, the time since the last flush read from
    /// the clock: the outcome is that of `push_after` for some elapsed time,
    /// which depends on the clock.
    pub fn push(&mut self, chunk: &str) -> (r: Option<String>)
        requires
            push_defined(old(self).buffered(), chunk@, old(self).min_len(), old(self).max_len(), true),
        ensures
            exists|elapsed_ns: u128|
                #[trigger] push_matches(
                    old(self).buffered(),
                    chunk@,
                    old(self).min_len(),
                    old(self).max_len(),
                    waited_enough(elapsed_ns, old(self).wait_limit_ns()),
                    final(self).buffered(),
                    text_of(r),
                ),
            chunk@.len() == 0 ==> *final(self) == *old(self),
            r is None ==> final(self).last_flush_at() == old(self).last_flush_at(),
            final(self).min_len() == old(self).min_len(),
            final(self).max_len() == old(self).max_len(),
            final(self).wait_limit_ns() == old(self).wait_limit_ns(),
    {
        let elapsed_ns = self.last_flush.elapsed().as_nanos();
        self.push_after(chunk, elapsed_ns)
    }

    /// Flushes the remaining text at the end of a turn: nothing when it is
    /// blank (and it is dropped), else all of it.
    pub fn finish(&mut self) -> (r: Option<String>)
        ensures
            final(self).buffered() == Seq::<char>::empty(),
            is_blank(old(self).buffered()) ==> r is None,
            !is_blank(old(self).buffered()) ==> (r matches Some(t) && t@ == old(self).buffered()),
            final(self).min_len() == old(self).min_len(),
            final(self).max_len() == old(self).max_len(),
            final(self).wait_limit_ns() == old(self).wait_limit_ns(),
            r is None ==> final(self).last_flush_at() == old(self).last_flush_at(),
    {
        if is_blank_text(self.buf.as_slice()) {
            self.buf = Vec::new();
            return None;
        }
        self.last_flush = Instant::now();
        let out = string_of(self.buf.as_slice());
        self.buf = Vec::new();
        Some(out)
    }

    fn flush_at_best_boundary_or_hard(&mut self) -> (out: String)
        requires
            window_ok(old(self).buf@),
        ensures
            out@ == split_at_boundary(old(self).buf@).0,
            final(self).buf@ == split_at_boundary(old(self).buf@).1,
            final(self).min_chars == old(self).min_chars,
            final(self).max_chars == old(self).max_chars,
            final(self).max_wait_ns == old(self).max_wait_ns,
            final(self).last_flush == old(self).last_flush,
    {
        proof {
            lemma_boundary_cut_bound(self.buf@);
        }
        match boundary_cut_chars(self.buf.as_slice()) {
            Some(idx) => {
                let out = string_of(&self.buf.as_slice()[0..idx]);
                let remain = vstd::slice::slice_to_vec(&self.buf.as_slice()[idx..self.buf.len()]);
                self.buf = remain;
                out
            },
            None => {
                let out = string_of(self.buf.as_slice());
                self.buf = Vec::new();
                out
            },
        }
    }
}

impl Default for TtsChunkGuard {
    fn default() -> (g: Self)
        ensures
            g.buffered() == Seq::<char>::empty(),
            g.min_len() == 90,
            g.max_len() == 260,
            g.wait_limit_ns() == 320_000_000,
    {
        Self::new()
    }
}


/// The text without its trailing white space is empty or ends with a
/// character that is not white space.
proof fn lemma_trim_end_last(s: Seq<char>)
    ensures
        trim_end(s).len() > 0 ==> !is_white_space(trim_end(s).last()),
    decreases s.len(),
{
    if s.len() > 0 && is_white_space(s.last()) {
        lemma_trim_end_last(s.drop_last());
    }
}

/// A text ends with a boundary exactly when, once its trailing white space
/// is dropped, it ends with one of `. ? ! , : ;` (a line break or a space
/// is white space, so it never ends the trimmed text); in particular a
/// text whose last character is one of these ends with a boundary.
pub proof fn lemma_boundary_chars(s: Seq<char>)
    ensures
        spec_ends_with_boundary(s) <==> (trim_end(s).len() > 0 && {
            let c = trim_end(s).last();
            c == '.' || c == '?' || c == '!' || c == ',' || c == ':' || c == ';'
        }),
        (s.len() > 0 && {
            let c = s.last();
            c == '.' || c == '?' || c == '!' || c == ',' || c == ':' || c == ';'
        }) ==> spec_ends_with_boundary(s),
{
    lemma_trim_end_last(s);
    assert(is_white_space('\n'));
    assert(is_white_space(' '));
    if s.len() > 0 {
        let c = s.last();
        if c == '.' || c == '?' || c == '!' || c == ',' || c == ':' || c == ';' {
            assert(!is_white_space(c));
            assert(trim_end(s) == s);
        }
    }
}

/// A push below the hard limit, before the wait limit, that brings the
/// text to at least the boundary minimum flushes the whole text, and
/// leaves nothing buffered, when the text (trailing white space dropped)
/// ends with one of `. ? ! , : ;`; otherwise it flushes nothing and keeps
/// the whole text.
pub proof fn lemma_push_flushes_at_boundary(
    buf: Seq<char>,
    chunk: Seq<char>,
    min_chars: nat,
    max_chars: nat,
)
    requires
        chunk.len() > 0,
        (buf + chunk).len() >= min_chars,
        (buf + chunk).len() < max_chars,
    ensures
        ({
            let t = trim_end(buf + chunk);
            t.len() > 0 && {
                let c = t.last();
                c == '.' || c == '?' || c == '!' || c == ',' || c == ':' || c == ';'
            }
        }) ==> push_outcome(buf, chunk, min_chars, max_chars, false) == (
            Some(buf + chunk),
            Seq::<char>::empty(),
        ),
        !({
            let t = trim_end(buf + chunk);
            t.len() > 0 && {
                let c = t.last();
                c == '.' || c == '?' || c == '!' || c == ',' || c == ':' || c == ';'
            }
        }) ==> push_outcome(buf, chunk, min_chars, max_chars, false) == (
            None::<Seq<char>>,
            buf + chunk,
        ),
{
    lemma_boundary_chars(buf + chunk);
}

/// Cutting the text at its boundary loses and reorders nothing: the
/// flushed text followed by the kept text is the text; when a boundary is
/// found the flushed text is not empty and ends with it.
pub proof fn lemma_split_keeps_text(s: Seq<char>)
    ensures
        split_at_boundary(s).0 + split_at_boundary(s).1 == s,
        boundary_cut(s) is Some ==> split_at_boundary(s).0.len() > 0 && (is_sentence_end(
            split_at_boundary(s).0.last(),
        ) || is_phrase_end(split_at_boundary(s).0.last())),
{
    lemma_boundary_cut_bound(s);
    lemma_tail_start_bound(s, BOUNDARY_WINDOW_BYTES as nat);
    match boundary_cut(s) {
        Some(k) => {
            assert(s.take(k as int) + s.skip(k as int) =~= s);
            let k0 = tail_start(s, BOUNDARY_WINDOW_BYTES as nat)->0;
            lemma_last_end_bounds(s, k0 as int, true);
            lemma_last_end_bounds(s, k0 as int, false);
            assert(s.take(k as int).last() == s[k - 1]);
        },
        None => {
            assert(s + Seq::<char>::empty() =~= s);
        },
    }
}

/// Pushing loses and reorders no text: whatever is flushed, followed by
/// what stays buffered, is the buffered text followed by the chunk; what is
/// flushed is never empty, and only a non-empty chunk flushes.
pub proof fn lemma_push_keeps_text(
    buf: Seq<char>,
    chunk: Seq<char>,
    min_chars: nat,
    max_chars: nat,
    waited: bool,
)
    ensures
        ({
            let o = push_outcome(buf, chunk, min_chars, max_chars, waited);
            &&& match o.0 {
                Some(t) => t + o.1 == buf + chunk && t.len() > 0 && chunk.len() > 0,
                None => o.1 == buf + chunk,
            }
        }),
{
    let s = buf + chunk;
    lemma_split_keeps_text(s);
    lemma_boundary_cut_bound(s);
    if chunk.len() == 0 {
        assert(buf + chunk =~= buf);
    }
    assert(s + Seq::<char>::empty() =~= s);
}


/// All characters of `s` are ASCII.
pub open spec fn is_ascii_text(s: Seq<char>) -> bool {
    forall|i: int| 0 <= i < s.len() ==> (#[trigger] s[i] as u32) < 0x80
}

proof fn lemma_ascii_tail_start(s: Seq<char>, n: nat)
    requires
        is_ascii_text(s),
    ensures
        tail_start(s, n) is Some,
    decreases s.len(),
{
    if n != 0 && s.len() != 0 {
        assert((s.last() as u32) < 0x80);
        assert forall|i: int| 0 <= i < s.drop_last().len() implies (#[trigger] s.drop_last()[i] as u32)
            < 0x80 by {
            assert(s.drop_last()[i] == s[i]);
        }
        lemma_ascii_tail_start(s.drop_last(), (n - 1) as nat);
    }
}

/// ASCII text always has a search window that starts on a character, so
/// cutting it at a boundary is always defined.
pub proof fn lemma_ascii_window_ok(s: Seq<char>)
    requires
        is_ascii_text(s),
    ensures
        window_ok(s),
{
    lemma_ascii_tail_start(s, BOUNDARY_WINDOW_BYTES as nat);
}

} // verus!
