//! Pointer strings: splitting on `/`, unescaping `~1` and `~0`, and telling
//! array indices from object keys.

use vstd::prelude::*;
use vstd::string::StringExecFns;
use crate::errors::{ErrorKind, Failure, SonicError};
use crate::limits::MAX_POINTER_SEGMENTS;
use crate::text::{chars_of, decimal_text, digit_char, push_decimal, string_of};

verus! {

/// One step of a path, as contracts see it.
pub enum Step {
    /// The member of an object with this name, already unescaped.
    Key(Seq<char>),
    /// The element of an array at this position.
    Index(nat),
}

/// One step of a path: an object key or an array index.
#[derive(Debug)]
pub enum PathSegment {
    Key(String),
    Index(u64),
}

impl View for PathSegment {
    type V = Step;

    open spec fn view(&self) -> Step {
        match self {
            PathSegment::Key(k) => Step::Key(k@),
            PathSegment::Index(i) => Step::Index(*i as nat),
        }
    }
}

impl Clone for PathSegment {
    fn clone(&self) -> (r: Self)
        ensures
            r == *self,
    {
        match self {
            PathSegment::Key(k) => PathSegment::Key(k.clone()),
            PathSegment::Index(i) => PathSegment::Index(*i),
        }
    }
}

/// The steps that a vector of segments stands for.
pub open spec fn steps_of(path: Seq<PathSegment>) -> Seq<Step> {
    path.map_values(|s: PathSegment| s@)
}

/// The position of the first `/` in `s`, or the length of `s` where it holds none.
pub open spec fn first_slash(s: Seq<char>) -> int
    decreases s.len(),
{
    if s.len() == 0 || s[0] == '/' {
        0
    } else {
        1 + first_slash(s.skip(1))
    }
}

/// The parts of `s` between its `/` characters: one more part than there are slashes.
pub open spec fn split_slash(s: Seq<char>) -> Seq<Seq<char>>
    decreases s.len(),
{
    let i = first_slash(s);
    if 0 <= i < s.len() {
        seq![s.take(i)] + split_slash(s.skip(i + 1))
    } else {
        seq![s]
    }
}

/// The number of `/` characters in `s`.
pub open spec fn count_slash(s: Seq<char>) -> nat
    decreases s.len(),
{
    if s.len() == 0 {
        0
    } else {
        count_slash(s.skip(1)) + if s[0] == '/' {
            1nat
        } else {
            0nat
        }
    }
}

/// `s` with every `~` that is followed by `code` replaced, from left to right, by `plain`.
pub open spec fn replace_escape(s: Seq<char>, code: char, plain: char) -> Seq<char>
    decreases s.len(),
{
    if s.len() == 0 {
        s
    } else if s.len() >= 2 && s[0] == '~' && s[1] == code {
        seq![plain] + replace_escape(s.skip(2), code, plain)
    } else {
        seq![s[0]] + replace_escape(s.skip(1), code, plain)
    }
}

/// A segment with its escapes undone: first every `~1` becomes `/`, then every `~0` becomes `~`.
pub open spec fn unescape(s: Seq<char>) -> Seq<char> {
    replace_escape(replace_escape(s, '1', '/'), '0', '~')
}

/// Whether `c` is one of the ten decimal digits.
pub open spec fn is_digit(c: char) -> bool {
    '0' <= c <= '9'
}

/// The number that a string of digits writes in base ten.
pub open spec fn digits_value(s: Seq<char>) -> nat
    decreases s.len(),
{
    if s.len() == 0 {
        0
    } else {
        (digits_value(s.drop_last()) * 10 + (s.last() as nat - '0' as nat)) as nat
    }
}

/// The index that `s` writes, where `s` is a plain unsigned decimal numeral: digits
/// only, at least one, no leading zero but for `0` itself, and no more than `u64::MAX`.
pub open spec fn plain_index(s: Seq<char>) -> Option<nat> {
    if s.len() > 0 && (forall|i: int| 0 <= i < s.len() ==> is_digit(#[trigger] s[i])) && (s.len()
        == 1 || s[0] != '0') && digits_value(s) <= u64::MAX {
        Some(digits_value(s))
    } else {
        None
    }
}

/// The step for an unescaped segment: an index where it is a plain numeral, else a key.
pub open spec fn classify(s: Seq<char>) -> Step {
    match plain_index(s) {
        Some(n) => Step::Index(n),
        None => Step::Key(s),
    }
}

/// The step for one raw segment of a pointer.
pub open spec fn segment_step(raw: Seq<char>) -> Step {
    classify(unescape(raw))
}

/// Whether `ptr` has the shape of a pointer: empty, or starting with `/`.
pub open spec fn well_formed_pointer(ptr: Seq<char>) -> bool {
    ptr.len() == 0 || ptr[0] == '/'
}

/// The steps that a well-formed pointer names: none for the empty pointer, else one
/// for each part after the leading `/`.
pub open spec fn pointer_steps(ptr: Seq<char>) -> Seq<Step> {
    if ptr.len() == 0 {
        Seq::empty()
    } else {
        split_slash(ptr.skip(1)).map_values(|raw: Seq<char>| segment_step(raw))
    }
}

/// The failure for a pointer that is neither empty nor starts with `/`.
pub open spec fn bad_start() -> Failure {
    Failure { kind: ErrorKind::InvalidPointer, text: "Pointer must start with '/' or be empty"@ }
}

/// The failure for a pointer of `n` segments, more than [`MAX_POINTER_SEGMENTS`].
pub open spec fn too_many_segments(n: nat) -> Failure {
    Failure {
        kind: ErrorKind::InvalidPointer,
        text: "Pointer has too many segments ("@ + decimal_text(n) + ", max "@ + decimal_text(
            MAX_POINTER_SEGMENTS as nat,
        ) + ")"@,
    }
}

/// What parsing a pointer string gives: its steps, or why it is refused.
pub open spec fn parsed_pointer(ptr: Seq<char>) -> Result<Seq<Step>, Failure> {
    if !well_formed_pointer(ptr) {
        Err(bad_start())
    } else if pointer_steps(ptr).len() > MAX_POINTER_SEGMENTS {
        Err(too_many_segments(pointer_steps(ptr).len()))
    } else {
        Ok(pointer_steps(ptr))
    }
}

/// `first_slash` finds position `i` where nothing before `i` is a `/` and `i` is one,
/// or the end.
pub proof fn lemma_first_slash(t: Seq<char>, i: int)
    requires
        0 <= i <= t.len(),
        forall|k: int| 0 <= k < i ==> t[k] != '/',
        i < t.len() ==> t[i] == '/',
    ensures
        first_slash(t) == i,
    decreases i,
{
    if i > 0 {
        let u = t.skip(1);
        assert forall|k: int| 0 <= k < i - 1 implies u[k] != '/' by {
            assert(u[k] == t[k + 1]);
        }
        lemma_first_slash(u, i - 1);
    }
}

proof fn lemma_first_slash_bounds(s: Seq<char>)
    ensures
        0 <= first_slash(s) <= s.len(),
        forall|k: int| 0 <= k < first_slash(s) ==> s[k] != '/',
        first_slash(s) < s.len() ==> s[first_slash(s)] == '/',
    decreases s.len(),
{
    if s.len() == 0 || s[0] == '/' {
    } else {
        let u = s.skip(1);
        lemma_first_slash_bounds(u);
        assert forall|k: int| 0 <= k < first_slash(s) implies s[k] != '/' by {
            if k > 0 {
                assert(u[k - 1] == s[k]);
            }
        }
    }
}

/// Where `s[i]` is the first `/` at or after `from`, the parts from `from` on are
/// `s[from..i]` and then the parts after `i`.
pub proof fn lemma_split_at_slash(s: Seq<char>, from: int, i: int)
    requires
        0 <= from <= i < s.len(),
        s[i] == '/',
        forall|k: int| from <= k < i ==> s[k] != '/',
    ensures
        split_slash(s.skip(from)) == seq![s.subrange(from, i)] + split_slash(s.skip(i + 1)),
{
    let t = s.skip(from);
    lemma_first_slash(t, i - from);
    assert(t.take(i - from) == s.subrange(from, i));
    assert(t.skip(i - from + 1) == s.skip(i + 1));
}

/// Where no `/` stands at or after `from`, the rest of `s` is one part.
pub proof fn lemma_split_no_slash(s: Seq<char>, from: int)
    requires
        0 <= from <= s.len(),
        forall|k: int| from <= k < s.len() ==> s[k] != '/',
    ensures
        split_slash(s.skip(from)) == seq![s.skip(from)],
{
    let t = s.skip(from);
    lemma_first_slash(t, t.len() as int);
}

proof fn lemma_count_no_slash(s: Seq<char>)
    requires
        forall|k: int| 0 <= k < s.len() ==> s[k] != '/',
    ensures
        count_slash(s) == 0,
    decreases s.len(),
{
    if s.len() > 0 {
        let u = s.skip(1);
        assert forall|k: int| 0 <= k < u.len() implies u[k] != '/' by {
            assert(u[k] == s[k + 1]);
        }
        lemma_count_no_slash(u);
    }
}

proof fn lemma_count_skip(s: Seq<char>, i: int)
    requires
        0 <= i < s.len(),
        forall|k: int| 0 <= k < i ==> s[k] != '/',
        s[i] == '/',
    ensures
        count_slash(s) == 1 + count_slash(s.skip(i + 1)),
    decreases i,
{
    if i > 0 {
        let u = s.skip(1);
        assert forall|k: int| 0 <= k < i - 1 implies u[k] != '/' by {
            assert(u[k] == s[k + 1]);
        }
        lemma_count_skip(u, i - 1);
        assert(u.skip(i) == s.skip(i + 1));
    } else {
        assert(s.skip(1) == s.skip(i + 1));
    }
}

/// A string has one more part than it has slashes.
pub proof fn lemma_split_len(s: Seq<char>)
    ensures
        split_slash(s).len() == count_slash(s) + 1,
    decreases s.len(),
{
    lemma_first_slash_bounds(s);
    let i = first_slash(s);
    if 0 <= i < s.len() {
        lemma_split_len(s.skip(i + 1));
        lemma_count_skip(s, i);
    } else {
        lemma_count_no_slash(s);
    }
}

/// The number of `/` characters in `chars[from..]`.
fn count_slashes(chars: &Vec<char>, from: usize) -> (n: usize)
    requires
        from <= chars.len(),
    ensures
        n == count_slash(chars@.skip(from as int)),
        n <= chars.len() - from,
{
    let mut n: usize = 0;
    let mut i: usize = from;
    while i < chars.len()
        invariant
            from <= i <= chars.len(),
            count_slash(chars@.skip(from as int)) == n + count_slash(chars@.skip(i as int)),
            n <= i - from,
        decreases chars.len() - i,
    {
        proof {
            let rest = chars@.skip(i as int);
            assert(rest[0] == chars@[i as int]);
            assert(rest.skip(1) == chars@.skip(i + 1));
        }
        if chars[i] == '/' {
            n = n + 1;
        }
        i = i + 1;
    }
    n
}

/// One pass of unescaping over `src`.
fn replace_in(src: &Vec<char>, code: char, plain: char) -> (out: Vec<char>)
    ensures
        out@ == replace_escape(src@, code, plain),
{
    let mut out: Vec<char> = Vec::new();
    let mut i: usize = 0;
    assert(src@.skip(0) == src@);
    while i < src.len()
        invariant
            i <= src.len(),
            replace_escape(src@, code, plain) == out@ + replace_escape(
                src@.skip(i as int),
                code,
                plain,
            ),
        decreases src.len() - i,
    {
        let ghost rest = src@.skip(i as int);
        if src[i] == '~' && i + 1 < src.len() && src[i + 1] == code {
            proof {
                assert(rest[0] == src@[i as int] && rest[1] == src@[i + 1]);
                assert(rest.skip(2) == src@.skip(i + 2));
            }
            out.push(plain);
            i = i + 2;
        } else {
            proof {
                assert(rest[0] == src@[i as int]);
                if rest.len() >= 2 {
                    assert(rest[1] == src@[i + 1]);
                }
                assert(rest.skip(1) == src@.skip(i + 1));
            }
            out.push(src[i]);
            i = i + 1;
        }
    }
    out
}

/// Undoes the escapes of one raw segment.
pub fn unescape_segment(raw: &Vec<char>) -> (out: Vec<char>)
    ensures
        out@ == unescape(raw@),
{
    let first = replace_in(raw, '1', '/');
    replace_in(&first, '0', '~')
}

fn digit_of(c: char) -> (d: Option<u64>)
    ensures
        is_digit(c) ==> d == Some((c as nat - '0' as nat) as u64),
        !is_digit(c) ==> d is None,
{
    if c == '0' {
        Some(0)
    } else if c == '1' {
        Some(1)
    } else if c == '2' {
        Some(2)
    } else if c == '3' {
        Some(3)
    } else if c == '4' {
        Some(4)
    } else if c == '5' {
        Some(5)
    } else if c == '6' {
        Some(6)
    } else if c == '7' {
        Some(7)
    } else if c == '8' {
        Some(8)
    } else if c == '9' {
        Some(9)
    } else {
        None
    }
}

proof fn lemma_digits_value_grows(s: Seq<char>, n: int)
    requires
        0 <= n <= s.len(),
        forall|i: int| 0 <= i < s.len() ==> is_digit(#[trigger] s[i]),
    ensures
        digits_value(s.take(n)) <= digits_value(s),
    decreases s.len() - n,
{
    if n < s.len() {
        lemma_digits_value_grows(s, n + 1);
        assert(s.take(n + 1).drop_last() == s.take(n));
    } else {
        assert(s.take(n) == s);
    }
}

/// The index that `text` writes, if it is a plain unsigned decimal numeral.
pub fn parse_index(text: &Vec<char>) -> (r: Option<u64>)
    ensures
        plain_index(text@) matches Some(n) ==> r == Some(n as u64),
        plain_index(text@) is None ==> r is None,
{
    let len = text.len();
    if len == 0 {
        return None;
    }
    if len > 1 && text[0] == '0' {
        return None;
    }
    let mut acc: u64 = 0;
    let mut i: usize = 0;
    assert(text@.take(0).len() == 0);
    while i < len
        invariant
            i <= len == text.len(),
            forall|k: int| 0 <= k < i ==> is_digit(#[trigger] text@[k]),
            acc == digits_value(text@.take(i as int)),
        decreases len - i,
    {
        let ghost next = text@.take(i + 1);
        proof {
            assert(next.drop_last() == text@.take(i as int));
            assert(next.last() == text@[i as int]);
        }
        match digit_of(text[i]) {
            None => {
                return None;
            },
            Some(d) => {
                if acc > (u64::MAX - d) / 10 {
                    proof {
                        assert(acc * 10 + d > u64::MAX);
                        if forall|k: int| 0 <= k < text@.len() ==> is_digit(#[trigger] text@[k]) {
                            lemma_digits_value_grows(text@, i + 1);
                        }
                    }
                    return None;
                }
                acc = acc * 10 + d;
            },
        }
        i = i + 1;
    }
    assert(text@.take(i as int) == text@);
    Some(acc)
}

/// The segment for one unescaped part of a pointer.
pub fn classify_segment(text: &Vec<char>) -> (seg: PathSegment)
    ensures
        seg@ == classify(text@),
{
    match parse_index(text) {
        Some(n) => PathSegment::Index(n),
        None => {
            let key = string_of(text, 0, text.len());
            assert(text@.subrange(0, text@.len() as int) == text@);
            PathSegment::Key(key)
        },
    }
}

fn segment_at(chars: &Vec<char>, from: usize, to: usize) -> (seg: PathSegment)
    requires
        from <= to <= chars.len(),
    ensures
        seg@ == segment_step(chars@.subrange(from as int, to as int)),
{
    let mut raw: Vec<char> = Vec::new();
    let mut i: usize = from;
    while i < to
        invariant
            from <= i <= to <= chars.len(),
            raw@ == chars@.subrange(from as int, i as int),
        decreases to - i,
    {
        raw.push(chars[i]);
        i = i + 1;
    }
    let text = unescape_segment(&raw);
    classify_segment(&text)
}

/// The segments of a pointer that starts with `/`, given as its characters.
pub(crate) fn segments_of(chars: &Vec<char>) -> (out: Vec<PathSegment>)
    requires
        chars.len() > 0,
        chars[0] == '/',
    ensures
        steps_of(out@) == pointer_steps(chars@),
{
    let n = chars.len();
    let mut out: Vec<PathSegment> = Vec::new();
    let mut start: usize = 1;
    let mut i: usize = 1;
    let ghost all = split_slash(chars@.skip(1));
    assert(steps_of(out@) == Seq::<Step>::empty());
    while i < n
        invariant
            1 <= start <= i <= n == chars.len(),
            all == split_slash(chars@.skip(1)),
            forall|k: int| start <= k < i ==> chars@[k] != '/',
            all.map_values(|raw: Seq<char>| segment_step(raw)) == steps_of(out@) + split_slash(
                chars@.skip(start as int),
            ).map_values(|raw: Seq<char>| segment_step(raw)),
        decreases n - i,
    {
        if chars[i] == '/' {
            let seg = segment_at(chars, start, i);
            proof {
                lemma_split_at_slash(chars@, start as int, i as int);
                let head = seq![chars@.subrange(start as int, i as int)];
                let tail = split_slash(chars@.skip(i + 1));
                let f = |raw: Seq<char>| segment_step(raw);
                assert((head + tail).map_values(f) == head.map_values(f) + tail.map_values(f));
                assert(head.map_values(f) == seq![seg@]);
                assert(steps_of(out@.push(seg)) == steps_of(out@) + seq![seg@]);
            }
            out.push(seg);
            start = i + 1;
        }
        i = i + 1;
    }
    let seg = segment_at(chars, start, n);
    proof {
        lemma_split_no_slash(chars@, start as int);
        assert(chars@.subrange(start as int, n as int) == chars@.skip(start as int));
        let f = |raw: Seq<char>| segment_step(raw);
        assert(seq![chars@.skip(start as int)].map_values(f) == seq![seg@]);
        assert(steps_of(out@.push(seg)) == steps_of(out@) + seq![seg@]);
    }
    out.push(seg);
    out
}

/// The number of segments of a pointer that starts with `/`, given as its characters.
pub(crate) fn segment_count(chars: &Vec<char>) -> (n: usize)
    requires
        chars.len() > 0,
        chars[0] == '/',
    ensures
        n == pointer_steps(chars@).len(),
        1 <= n <= chars.len(),
{
    proof {
        lemma_split_len(chars@.skip(1));
    }
    count_slashes(chars, 1) + 1
}

/// The error for a pointer that is neither empty nor starts with `/`.
pub fn bad_start_error() -> (e: SonicError)
    ensures
        e@ == bad_start(),
{
    SonicError::InvalidPointer(String::from_str("Pointer must start with '/' or be empty"))
}

/// Parses a pointer string into path segments.
///
/// The empty string gives no segment. Any other pointer must start with `/`; each
/// part after it is unescaped and becomes an index where it is a plain unsigned
/// numeral, else a key. A pointer of more than [`MAX_POINTER_SEGMENTS`] parts is refused.
pub fn parse_pointer(ptr: &str) -> (r: Result<Vec<PathSegment>, SonicError>)
    ensures
        match r {
            Ok(path) => parsed_pointer(ptr@) == Ok::<Seq<Step>, Failure>(steps_of(path@)),
            Err(e) => parsed_pointer(ptr@) == Err::<Seq<Step>, Failure>(e@),
        },
{
    let chars = chars_of(ptr);
    if chars.len() == 0 {
        let path: Vec<PathSegment> = Vec::new();
        assert(steps_of(path@) == pointer_steps(ptr@));
        return Ok(path);
    }
    if chars[0] != '/' {
        return Err(bad_start_error());
    }
    let n = segment_count(&chars);
    if n > MAX_POINTER_SEGMENTS {
        let mut m = String::from_str("Pointer has too many segments (");
        push_decimal(&mut m, n as u64);
        m.append(", max ");
        push_decimal(&mut m, MAX_POINTER_SEGMENTS as u64);
        m.append(")");
        return Err(SonicError::InvalidPointer(m));
    }
    Ok(segments_of(&chars))
}

/// A key as a pointer segment writes it: every `~` as `~0`, every `/` as `~1`.
pub open spec fn escape(key: Seq<char>) -> Seq<char>
    decreases key.len(),
{
    if key.len() == 0 {
        key
    } else if key[0] == '~' {
        seq!['~', '0'] + escape(key.skip(1))
    } else if key[0] == '/' {
        seq!['~', '1'] + escape(key.skip(1))
    } else {
        seq![key[0]] + escape(key.skip(1))
    }
}

/// A key with every `~` written as `~0` and nothing else changed: what the first pass
/// of unescaping leaves of an escaped key.
pub open spec fn escape_tilde(key: Seq<char>) -> Seq<char>
    decreases key.len(),
{
    if key.len() == 0 {
        key
    } else if key[0] == '~' {
        seq!['~', '0'] + escape_tilde(key.skip(1))
    } else {
        seq![key[0]] + escape_tilde(key.skip(1))
    }
}

/// An escaped key holds no `/`.
pub proof fn lemma_escape_no_slash(key: Seq<char>)
    ensures
        forall|i: int| 0 <= i < escape(key).len() ==> escape(key)[i] != '/',
    decreases key.len(),
{
    if key.len() > 0 {
        let rest = escape(key.skip(1));
        lemma_escape_no_slash(key.skip(1));
        let head = escape(key).len() - rest.len();
        assert forall|i: int| 0 <= i < escape(key).len() implies escape(key)[i] != '/' by {
            if i >= head {
                assert(escape(key)[i] == rest[i - head]);
            }
        }
    }
}

proof fn lemma_first_pass(key: Seq<char>)
    ensures
        replace_escape(escape(key), '1', '/') == escape_tilde(key),
    decreases key.len(),
{
    if key.len() > 0 {
        let rest = escape(key.skip(1));
        let s = escape(key);
        lemma_first_pass(key.skip(1));
        if key[0] == '~' {
            let t = seq!['0'] + rest;
            assert(s.skip(1) =~= t);
            assert(t.skip(1) =~= rest);
            assert(replace_escape(t, '1', '/') == seq!['0'] + replace_escape(rest, '1', '/'));
            assert(seq!['~'] + (seq!['0'] + escape_tilde(key.skip(1))) =~= seq!['~', '0']
                + escape_tilde(key.skip(1)));
        } else if key[0] == '/' {
            assert(s.skip(2) =~= rest);
        } else {
            assert(s.skip(1) =~= rest);
        }
    }
}

proof fn lemma_second_pass(key: Seq<char>)
    ensures
        replace_escape(escape_tilde(key), '0', '~') == key,
    decreases key.len(),
{
    if key.len() > 0 {
        let rest = escape_tilde(key.skip(1));
        let s = escape_tilde(key);
        lemma_second_pass(key.skip(1));
        if key[0] == '~' {
            assert(s.skip(2) =~= rest);
        } else {
            assert(s.skip(1) =~= rest);
        }
        assert(seq![key[0]] + key.skip(1) =~= key);
    }
}

/// Unescaping undoes escaping.
pub proof fn lemma_unescape_escape(key: Seq<char>)
    ensures
        unescape(escape(key)) == key,
{
    lemma_first_pass(key);
    lemma_second_pass(key);
}

/// A string without `~` is its own unescaping, pass by pass.
pub proof fn lemma_replace_without_tilde(s: Seq<char>, code: char, plain: char)
    requires
        forall|i: int| 0 <= i < s.len() ==> s[i] != '~',
    ensures
        replace_escape(s, code, plain) == s,
    decreases s.len(),
{
    if s.len() > 0 {
        let rest = s.skip(1);
        assert forall|i: int| 0 <= i < rest.len() implies rest[i] != '~' by {
            assert(rest[i] == s[i + 1]);
        }
        lemma_replace_without_tilde(rest, code, plain);
        assert(seq![s[0]] + rest =~= s);
    }
}

/// The parts of two strings joined by a `/` are the parts of the first, then those of
/// the second.
pub proof fn lemma_split_concat(s: Seq<char>, t: Seq<char>)
    ensures
        split_slash(s + seq!['/'] + t) == split_slash(s) + split_slash(t),
    decreases s.len(),
{
    let w = s + seq!['/'] + t;
    lemma_first_slash_bounds(s);
    let i = first_slash(s);
    assert forall|k: int| 0 <= k < i implies w[k] != '/' by {
        assert(w[k] == s[k]);
    }
    if i < s.len() {
        assert(w[i] == s[i]);
        lemma_first_slash(w, i);
        assert(w.take(i) =~= s.take(i));
        assert(w.skip(i + 1) =~= s.skip(i + 1) + seq!['/'] + t);
        lemma_split_concat(s.skip(i + 1), t);
        assert(seq![s.take(i)] + (split_slash(s.skip(i + 1)) + split_slash(t)) =~= (seq![
            s.take(i),
        ] + split_slash(s.skip(i + 1))) + split_slash(t));
    } else {
        assert(w[i] == '/');
        lemma_first_slash(w, i);
        assert(w.take(i) =~= s);
        assert(w.skip(i + 1) =~= t);
    }
}

/// The steps of two pointers written one after the other are the steps of the first,
/// then those of the second.
pub proof fn lemma_pointer_concat(p: Seq<char>, q: Seq<char>)
    requires
        well_formed_pointer(p),
        well_formed_pointer(q),
    ensures
        well_formed_pointer(p + q),
        pointer_steps(p + q) == pointer_steps(p) + pointer_steps(q),
{
    if p.len() == 0 {
        assert(p + q =~= q);
        assert(pointer_steps(p) + pointer_steps(q) =~= pointer_steps(q));
    } else if q.len() == 0 {
        assert(p + q =~= p);
        assert(pointer_steps(p) + pointer_steps(q) =~= pointer_steps(p));
    } else {
        let f = |raw: Seq<char>| segment_step(raw);
        assert((p + q).skip(1) =~= p.skip(1) + seq!['/'] + q.skip(1));
        lemma_split_concat(p.skip(1), q.skip(1));
        let a = split_slash(p.skip(1));
        let b = split_slash(q.skip(1));
        assert((a + b).map_values(f) =~= a.map_values(f) + b.map_values(f));
    }
}

/// A pointer of one segment that is an escaped key, and no numeral, has one step: the key.
pub proof fn lemma_key_pointer(key: Seq<char>)
    requires
        plain_index(key) is None,
    ensures
        pointer_steps(seq!['/'] + escape(key)) == seq![Step::Key(key)],
{
    let ptr = seq!['/'] + escape(key);
    assert(ptr.skip(1) =~= escape(key));
    lemma_escape_no_slash(key);
    assert(escape(key).skip(0) =~= escape(key));
    lemma_split_no_slash(escape(key), 0);
    lemma_unescape_escape(key);
    let f = |raw: Seq<char>| segment_step(raw);
    assert(seq![escape(key)].map_values(f) =~= seq![segment_step(escape(key))]);
}

proof fn lemma_digit_char(d: nat)
    requires
        d < 10,
    ensures
        is_digit(digit_char(d)),
        digit_char(d) as nat - '0' as nat == d,
{
}

/// What the decimal numeral of `n` is made of: digits, at least one, the first of
/// them no zero unless `n` is zero, and together they write `n`.
pub proof fn lemma_decimal_text(n: nat)
    ensures
        decimal_text(n).len() > 0,
        forall|i: int| 0 <= i < decimal_text(n).len() ==> is_digit(#[trigger] decimal_text(n)[i]),
        n > 0 ==> decimal_text(n)[0] != '0',
        n < 10 ==> decimal_text(n).len() == 1,
        digits_value(decimal_text(n)) == n,
    decreases n,
{
    let d = decimal_text(n);
    if n < 10 {
        lemma_digit_char(n);
        assert(d.drop_last().len() == 0);
        assert(d.last() == digit_char(n));
        assert(digits_value(d.drop_last()) == 0);
    } else {
        lemma_decimal_text(n / 10);
        lemma_digit_char(n % 10);
        let head = decimal_text(n / 10);
        assert(d.drop_last() =~= head);
        assert(d.last() == digit_char(n % 10));
        assert(digits_value(d) == digits_value(head) * 10 + n % 10);
        assert(d[0] == head[0]);
        assert forall|i: int| 0 <= i < d.len() implies is_digit(#[trigger] d[i]) by {
            if i < head.len() {
                assert(d[i] == head[i]);
            }
        }
    }
}

/// A pointer of one segment that is the decimal numeral of an index has one step: the
/// index.
pub proof fn lemma_index_pointer(n: nat)
    requires
        n <= u64::MAX,
    ensures
        pointer_steps(seq!['/'] + decimal_text(n)) == seq![Step::Index(n)],
{
    let d = decimal_text(n);
    let ptr = seq!['/'] + d;
    lemma_decimal_text(n);
    assert(ptr.skip(1) =~= d);
    assert(d.skip(0) =~= d);
    assert forall|k: int| 0 <= k < d.len() implies d[k] != '/' && d[k] != '~' by {
        assert(is_digit(d[k]));
    }
    lemma_split_no_slash(d, 0);
    lemma_replace_without_tilde(d, '1', '/');
    lemma_replace_without_tilde(d, '0', '~');
    let f = |raw: Seq<char>| segment_step(raw);
    assert(seq![d].map_values(f) =~= seq![segment_step(d)]);
}

} // verus!
