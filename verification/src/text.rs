//! Text primitives: whitespace trimming, prefixes, line splitting, decimal
//! numbers and the decoding of bytes received from a peer.

use vstd::prelude::*;
use vstd::string::*;
use vstd::utf8::{decode_utf8, decode_utf8_encode_utf8, encode_utf8, valid_utf8};

verus! {

/// Unicode `White_Space`.
pub open spec fn is_white(c: char) -> bool {
    let n = c as u32;
    ||| 0x09 <= n <= 0x0d
    ||| n == 0x20
    ||| n == 0x85
    ||| n == 0xa0
    ||| n == 0x1680
    ||| 0x2000 <= n <= 0x200a
    ||| n == 0x2028
    ||| n == 0x2029
    ||| n == 0x202f
    ||| n == 0x205f
    ||| n == 0x3000
}

/// `s` without its leading whitespace.
pub open spec fn trimmed_start(s: Seq<char>) -> Seq<char>
    decreases s.len(),
{
    if s.len() > 0 && is_white(s.first()) {
        trimmed_start(s.drop_first())
    } else {
        s
    }
}

/// `s` without its trailing whitespace.
pub open spec fn trimmed_end(s: Seq<char>) -> Seq<char>
    decreases s.len(),
{
    if s.len() > 0 && is_white(s.last()) {
        trimmed_end(s.drop_last())
    } else {
        s
    }
}

/// `s` without leading and trailing whitespace.
pub open spec fn trimmed(s: Seq<char>) -> Seq<char> {
    trimmed_end(trimmed_start(s))
}

/// The ASCII lower-case form of one character.
pub open spec fn ascii_lower(c: char) -> char {
    if 'A' <= c && c <= 'Z' {
        ((c as u32) + 32) as char
    } else {
        c
    }
}

/// `s` with every ASCII letter in lower case.
pub open spec fn ascii_lowered(s: Seq<char>) -> Seq<char> {
    s.map_values(|c: char| ascii_lower(c))
}

/// The digit character of `d`, for `d` below ten.
pub open spec fn digit(d: nat) -> char {
    (d + 48) as char
}

/// `n` in decimal, without leading zeros.
pub open spec fn decimal(n: nat) -> Seq<char>
    decreases n,
{
    if n < 10 {
        seq![digit(n)]
    } else {
        decimal(n / 10).push(digit(n % 10))
    }
}

/// The text of an optional string.
pub open spec fn opt_text(s: Option<String>) -> Option<Seq<char>> {
    match s {
        Some(text) => Some(text@),
        None => None,
    }
}

/// Every text there is, the empty one too, is seen as it is.
pub proof fn law_texts_are_seen_as_they_are(s: Option<String>, lines: Seq<String>)
    ensures
        opt_text(s) is Some <==> s is Some,
        s is Some ==> opt_text(s)->0 == s->0@,
        texts(lines).len() == lines.len(),
        forall|i: int| 0 <= i < lines.len() ==> #[trigger] texts(lines)[i] == lines[i]@,
{
}

/// What `String::push` does: the character goes to the end of the string.
pub assume_specification[ String::push ](s: &mut String, c: char)
    ensures
        final(s)@ == old(s)@.push(c),
;

/// Whether `c` is whitespace.
pub fn whitespace(c: char) -> (r: bool)
    ensures
        r == is_white(c),
{
    let n = c as u32;
    (0x09 <= n && n <= 0x0d) || n == 0x20 || n == 0x85 || n == 0xa0 || n == 0x1680 || (0x2000 <= n
        && n <= 0x200a) || n == 0x2028 || n == 0x2029 || n == 0x202f || n == 0x205f || n == 0x3000
}

proof fn lemma_trimmed_start_skips(s: Seq<char>, n: int)
    requires
        0 <= n <= s.len(),
        forall|i: int| 0 <= i < n ==> is_white(#[trigger] s[i]),
        n < s.len() ==> !is_white(s[n]),
    ensures
        trimmed_start(s) == s.skip(n),
    decreases n,
{
    if n == 0 {
        assert(s.skip(0) == s);
    } else {
        assert(is_white(s[0]));
        lemma_trimmed_start_skips(s.drop_first(), n - 1);
        assert(s.drop_first().skip(n - 1) == s.skip(n));
    }
}

proof fn lemma_trimmed_end_takes(s: Seq<char>, n: int)
    requires
        0 <= n <= s.len(),
        forall|i: int| n <= i < s.len() ==> is_white(#[trigger] s[i]),
        n > 0 ==> !is_white(s[n - 1]),
    ensures
        trimmed_end(s) == s.take(n),
    decreases s.len() - n,
{
    if n == s.len() {
        assert(s.take(n) == s);
    } else {
        assert(is_white(s[s.len() - 1]));
        lemma_trimmed_end_takes(s.drop_last(), n);
        assert(s.drop_last().take(n) == s.take(n));
    }
}

proof fn lemma_trimmed_start_cut(s: Seq<char>) -> (n: int)
    ensures
        0 <= n <= s.len(),
        forall|i: int| 0 <= i < n ==> is_white(#[trigger] s[i]),
        n < s.len() ==> !is_white(s[n]),
        trimmed_start(s) == s.skip(n),
    decreases s.len(),
{
    if s.len() > 0 && is_white(s.first()) {
        let rest = s.drop_first();
        let n = lemma_trimmed_start_cut(rest) + 1;
        assert forall|i: int| 0 <= i < n implies is_white(#[trigger] s[i]) by {
            if i > 0 {
                assert(s[i] == rest[i - 1]);
            }
        }
        assert(rest.skip(n - 1) == s.skip(n));
        n
    } else {
        assert(s.skip(0) == s);
        0
    }
}

proof fn lemma_trimmed_end_cut(s: Seq<char>) -> (n: int)
    ensures
        0 <= n <= s.len(),
        forall|i: int| n <= i < s.len() ==> is_white(#[trigger] s[i]),
        n > 0 ==> !is_white(s[n - 1]),
        trimmed_end(s) == s.take(n),
    decreases s.len(),
{
    if s.len() > 0 && is_white(s.last()) {
        let rest = s.drop_last();
        let n = lemma_trimmed_end_cut(rest);
        assert forall|i: int| n <= i < s.len() implies is_white(#[trigger] s[i]) by {
            if i < rest.len() {
                assert(s[i] == rest[i]);
            }
        }
        assert(rest.take(n) == s.take(n));
        n
    } else {
        assert(s.take(s.len() as int) == s);
        s.len() as int
    }
}

/// Trimming cuts whitespace off both ends and nothing else: what is left
/// neither begins nor ends with whitespace, and trimming it again changes
/// nothing.
pub proof fn law_trimming_cuts_whitespace(s: Seq<char>)
    ensures
        exists|a: int, b: int|
            {
                &&& 0 <= a <= b <= s.len()
                &&& trimmed(s) == #[trigger] s.subrange(a, b)
                &&& forall|i: int| 0 <= i < a || b <= i < s.len() ==> is_white(#[trigger] s[i])
            },
        trimmed(s).len() > 0 ==> !is_white(trimmed(s).first()) && !is_white(trimmed(s).last()),
        trimmed(trimmed(s)) == trimmed(s),
{
    let a = lemma_trimmed_start_cut(s);
    let rest = s.skip(a);
    let n = lemma_trimmed_end_cut(rest);
    let b = a + n;
    assert(rest.take(n) == s.subrange(a, b));
    assert forall|i: int| 0 <= i < a || b <= i < s.len() implies is_white(#[trigger] s[i]) by {
        if i >= b {
            assert(s[i] == rest[i - a]);
        }
    }
    if n > 0 {
        assert(s[a] == trimmed(s).first());
        assert(rest[0] == s[a]);
    }
    let t = trimmed(s);
    lemma_trimmed_start_skips(t, 0);
    assert(t.skip(0) == t);
    lemma_trimmed_end_takes(t, t.len() as int);
    assert(t.take(t.len() as int) == t);
}

/// Whitespace around a text that neither begins nor ends with whitespace is what
/// trimming takes off: all of it, on both sides, and nothing of the text.
pub proof fn law_padding_is_trimmed(before: Seq<char>, core: Seq<char>, after: Seq<char>)
    requires
        forall|i: int| 0 <= i < before.len() ==> is_white(#[trigger] before[i]),
        forall|i: int| 0 <= i < after.len() ==> is_white(#[trigger] after[i]),
        core.len() > 0 ==> !is_white(core.first()) && !is_white(core.last()),
    ensures
        trimmed(before + core + after) == core,
{
    let s = before + core + after;
    if core.len() == 0 {
        let n = s.len() as int;
        lemma_trimmed_start_skips(s, n);
        lemma_trimmed_end_takes(s.skip(n), 0);
        assert(s.skip(n).take(0) == core);
    } else {
        let a = before.len() as int;
        let n = core.len() as int;
        assert(s[a] == core.first());
        lemma_trimmed_start_skips(s, a);
        let rest = s.skip(a);
        assert(rest == core + after);
        assert(rest[n - 1] == core.last());
        lemma_trimmed_end_takes(rest, n);
        assert(rest.take(n) == core);
    }
}

/// Trimming the start takes off all leading whitespace and nothing else.
pub proof fn law_leading_whitespace_is_trimmed(before: Seq<char>, rest: Seq<char>)
    requires
        forall|i: int| 0 <= i < before.len() ==> is_white(#[trigger] before[i]),
        rest.len() > 0 ==> !is_white(rest.first()),
    ensures
        trimmed_start(before + rest) == rest,
{
    let s = before + rest;
    let n = before.len() as int;
    assert(n < s.len() ==> s[n] == rest.first());
    lemma_trimmed_start_skips(s, n);
    assert(s.skip(n) == rest);
}

/// Every text is some whitespace and what trimming its start leaves of it.
pub proof fn law_trimmed_start_is_the_rest(s: Seq<char>)
    ensures
        exists|n: int|
            {
                &&& 0 <= n <= s.len()
                &&& trimmed_start(s) == #[trigger] s.skip(n)
                &&& forall|i: int| 0 <= i < n ==> is_white(#[trigger] s[i])
            },
        trimmed_start(s).len() > 0 ==> !is_white(trimmed_start(s).first()),
{
    let n = lemma_trimmed_start_cut(s);
    assert(s.skip(n).len() > 0 ==> s.skip(n).first() == s[n]);
}

/// Lowering puts for each of the letters `A` to `Z` the letter at the same place
/// from `a` to `z`, and leaves every other character as it is.
pub proof fn law_lowering_keeps_the_letter(s: Seq<char>)
    ensures
        ascii_lowered(s).len() == s.len(),
        forall|i: int|
            0 <= i < s.len() ==> {
                let c = s[i];
                let l = #[trigger] ascii_lowered(s)[i];
                if 'A' <= c && c <= 'Z' {
                    'a' <= l && l <= 'z' && l as int - 'a' as int == c as int - 'A' as int
                } else {
                    l == c
                }
            },
{
}

/// The number that a text of digits writes in decimal.
pub open spec fn value_of(digits: Seq<char>) -> int
    decreases digits.len(),
{
    if digits.len() == 0 {
        0
    } else {
        10 * value_of(digits.drop_last()) + (digits.last() as int - '0' as int)
    }
}

/// A number in decimal is made of digits, reads back as the number, and has no
/// leading zero unless it is the digit zero.
pub proof fn law_decimal_reads_back(n: nat)
    ensures
        value_of(decimal(n)) == n,
        decimal(n).len() > 0,
        forall|i: int|
            0 <= i < decimal(n).len() ==> '0' <= #[trigger] decimal(n)[i] && decimal(n)[i] <= '9',
        decimal(n).first() == '0' ==> decimal(n).len() == 1,
    decreases n,
{
    if n < 10 {
        assert(decimal(n).drop_last() == Seq::<char>::empty());
        reveal_with_fuel(value_of, 2);
    } else {
        law_decimal_reads_back(n / 10);
        assert(decimal(n).drop_last() == decimal(n / 10));
        assert(decimal(n).first() == decimal(n / 10).first());
        if decimal(n / 10).first() == '0' {
            assert(value_of(decimal(n / 10)) == 0) by {
                reveal_with_fuel(value_of, 2);
                assert(decimal(n / 10).drop_last() == Seq::<char>::empty());
            }
        }
    }
}

/// `s` without leading and trailing whitespace.
pub fn trim(s: &str) -> (r: &str)
    ensures
        r@ == trimmed(s@),
{
    let len = s.unicode_len();
    let mut start: usize = 0;
    let mut end: usize = 0;
    let mut index: usize = 0;
    for c in it: s.chars()
        invariant
            it.seq() == s@,
            len == s@.len(),
            index == it.index(),
            start <= end <= index <= len,
            start == end ==> start == 0,
            start == end ==> forall|i: int| 0 <= i < index ==> is_white(#[trigger] s@[i]),
            start < end ==> forall|i: int| 0 <= i < start ==> is_white(#[trigger] s@[i]),
            start < end ==> !is_white(s@[start as int]) && !is_white(s@[end - 1]),
            start < end ==> forall|i: int| end <= i < index ==> is_white(#[trigger] s@[i]),
    {
        if !whitespace(c) {
            if start == end {
                start = index;
            }
            end = index + 1;
        }
        index = index + 1;
    }
    proof {
        if start == end {
            lemma_trimmed_start_skips(s@, len as int);
            lemma_trimmed_end_takes(s@.skip(len as int), 0);
            assert(s@.subrange(0, 0) == s@.skip(len as int).take(0));
        } else {
            lemma_trimmed_start_skips(s@, start as int);
            lemma_trimmed_end_takes(s@.skip(start as int), end - start);
            assert(s@.skip(start as int).take(end - start) == s@.subrange(
                start as int,
                end as int,
            ));
        }
    }
    s.substring_char(start, end)
}

/// `s` without leading whitespace.
pub fn trim_start(s: &str) -> (r: &str)
    ensures
        r@ == trimmed_start(s@),
{
    let len = s.unicode_len();
    let mut start: usize = 0;
    let mut leading = true;
    for c in it: s.chars()
        invariant
            it.seq() == s@,
            len == s@.len(),
            start <= it.index() <= len,
            leading ==> start == it.index(),
            !leading ==> start < len && !is_white(s@[start as int]),
            forall|i: int| 0 <= i < start ==> is_white(#[trigger] s@[i]),
    {
        if leading {
            if whitespace(c) {
                start = start + 1;
            } else {
                leading = false;
            }
        }
    }
    proof {
        lemma_trimmed_start_skips(s@, start as int);
        assert(s@.subrange(start as int, len as int) == s@.skip(start as int));
    }
    s.substring_char(start, len)
}

/// Whether two texts are equal.
pub fn same_text(a: &str, b: &str) -> (r: bool)
    ensures
        r == (a@ == b@),
{
    a.to_owned() == b.to_owned()
}

/// Whether `s` begins with `prefix`.
pub fn starts_with(s: &str, prefix: &str) -> (r: bool)
    ensures
        r == prefix@.is_prefix_of(s@),
{
    let n = prefix.unicode_len();
    if n <= s.unicode_len() {
        same_text(s.substring_char(0, n), prefix)
    } else {
        false
    }
}

/// What follows `prefix` in `s`, if `s` begins with it.
pub fn strip_prefix<'a>(s: &'a str, prefix: &str) -> (r: Option<&'a str>)
    ensures
        match r {
            Some(rest) => s@ == prefix@ + rest@,
            None => !prefix@.is_prefix_of(s@),
        },
{
    if starts_with(s, prefix) {
        let n = prefix.unicode_len();
        let len = s.unicode_len();
        let rest = s.substring_char(n, len);
        assert(s@ == prefix@ + rest@);
        Some(rest)
    } else {
        None
    }
}

/// Whether `wanted` occurs in `s`.
pub fn contains_char(s: &str, wanted: char) -> (r: bool)
    ensures
        r == s@.contains(wanted),
{
    let mut found = false;
    for c in it: s.chars()
        invariant
            it.seq() == s@,
            found == s@.take(it.index() as int).contains(wanted),
    {
        proof {
            let i = it.index() as int;
            let prev = s@.take(i);
            let next = s@.take(i + 1);
            assert(next == prev.push(c));
            assert(next[i] == c);
            if prev.contains(wanted) {
                let k = choose|k: int| 0 <= k < prev.len() && prev[k] == wanted;
                assert(next[k] == wanted);
            }
        }
        if c == wanted {
            found = true;
        }
    }
    assert(s@.take(s@.len() as int) == s@);
    found
}

fn lower(c: char) -> (r: char)
    ensures
        r == ascii_lower(c),
{
    if 'A' <= c && c <= 'Z' {
        ((c as u8) + 32) as char
    } else {
        c
    }
}

/// `s` with every ASCII letter in lower case.
pub fn to_ascii_lowercase(s: &str) -> (r: String)
    ensures
        r@ == ascii_lowered(s@),
{
    let mut out = String::new();
    for c in it: s.chars()
        invariant
            it.seq() == s@,
            out@ == ascii_lowered(s@.take(it.index() as int)),
    {
        out.push(lower(c));
        assert(s@.take(it.index() + 1) == s@.take(it.index() as int).push(c));
    }
    assert(s@.take(s@.len() as int) == s@);
    out
}

fn digit_char(d: u64) -> (c: char)
    requires
        d < 10,
    ensures
        c == digit(d as nat),
{
    (d as u8 + 48) as char
}

/// `n` in decimal.
pub fn decimal_text(n: u64) -> (r: String)
    ensures
        r@ == decimal(n as nat),
    decreases n,
{
    if n < 10 {
        let mut out = String::new();
        out.push(digit_char(n));
        out
    } else {
        let mut out = decimal_text(n / 10);
        out.push(digit_char(n % 10));
        out
    }
}

/// The pieces of `s` between its line feeds. There is always at least one.
pub open spec fn segments(s: Seq<char>) -> Seq<Seq<char>>
    decreases s.len(),
{
    if s.len() == 0 {
        seq![Seq::empty()]
    } else {
        let init = segments(s.drop_last());
        if s.last() == '\n' {
            init.push(Seq::empty())
        } else {
            init.drop_last().push(init.last().push(s.last()))
        }
    }
}

/// The trimmed pieces that are not blank, in order.
pub open spec fn nonblank(pieces: Seq<Seq<char>>) -> Seq<Seq<char>>
    decreases pieces.len(),
{
    if pieces.len() == 0 {
        Seq::empty()
    } else {
        let init = nonblank(pieces.drop_last());
        let line = trimmed(pieces.last());
        if line.len() == 0 {
            init
        } else {
            init.push(line)
        }
    }
}

/// The lines of `text`, each without surrounding whitespace, blank ones left
/// out. A carriage return before a line feed is whitespace, so either line
/// ending gives the same lines.
pub open spec fn entry_lines(text: Seq<char>) -> Seq<Seq<char>> {
    nonblank(segments(text))
}

/// The text of each string of `lines`.
pub open spec fn texts(lines: Seq<String>) -> Seq<Seq<char>> {
    lines.map_values(|line: String| line@)
}

fn push_entry(out: &mut Vec<String>, piece: &str)
    ensures
        texts(final(out)@) == (if trimmed(piece@).len() == 0 {
            texts(old(out)@)
        } else {
            texts(old(out)@).push(trimmed(piece@))
        }),
{
    let line = trim(piece);
    if !line.is_empty() {
        out.push(line.to_owned());
        assert(texts(out@) == texts(old(out)@).push(trimmed(piece@)));
    }
}

/// The lines of `text`, trimmed, without the blank ones.
pub fn nonblank_lines(text: &str) -> (r: Vec<String>)
    ensures
        texts(r@) == entry_lines(text@),
{
    let mut out: Vec<String> = Vec::new();
    let mut piece = String::new();
    assert(texts(out@) == Seq::<Seq<char>>::empty());
    assert(segments(text@.take(0)).drop_last() == Seq::<Seq<char>>::empty());
    for c in it: text.chars()
        invariant
            it.seq() == text@,
            segments(text@.take(it.index() as int)).len() > 0,
            piece@ == segments(text@.take(it.index() as int)).last(),
            texts(out@) == nonblank(segments(text@.take(it.index() as int)).drop_last()),
    {
        proof {
            let i = it.index() as int;
            assert(text@.take(i + 1).drop_last() == text@.take(i));
            let init = segments(text@.take(i));
            assert(init.push(Seq::empty()).drop_last() == init);
            assert(init.drop_last().push(init.last().push(c)).drop_last() == init.drop_last());
        }
        if c == '\n' {
            push_entry(&mut out, piece.as_str());
            piece = String::new();
        } else {
            piece.push(c);
        }
    }
    assert(text@.take(text@.len() as int) == text@);
    push_entry(&mut out, piece.as_str());
    out
}

/// One line as it is appended to a file: the text and a line feed.
pub open spec fn framed(line: Seq<char>) -> Seq<char> {
    line.push('\n')
}

proof fn lemma_segments_nonempty(s: Seq<char>)
    ensures
        segments(s).len() > 0,
    decreases s.len(),
{
    if s.len() > 0 {
        lemma_segments_nonempty(s.drop_last());
    }
}

pub proof fn lemma_segments_extend(a: Seq<char>, b: Seq<char>)
    requires
        !b.contains('\n'),
    ensures
        segments(a).len() > 0,
        segments(a + b) == segments(a).drop_last().push(segments(a).last() + b),
    decreases b.len(),
{
    lemma_segments_nonempty(a);
    if b.len() == 0 {
        assert(a + b == a);
        assert(segments(a).last() + b == segments(a).last());
        assert(segments(a).drop_last().push(segments(a).last()) == segments(a));
    } else {
        let init = b.drop_last();
        assert forall|i: int| 0 <= i < init.len() implies init[i] != '\n' by {
            assert(b.contains(b[i]));
        }
        lemma_segments_extend(a, init);
        assert((a + b).drop_last() == a + init);
        assert(b.contains(b.last()));
        let before = segments(a + init);
        assert(before.drop_last() == segments(a).drop_last());
        assert((segments(a).last() + init).push(b.last()) == segments(a).last() + b);
    }
}

/// Appending a framed line to a text of whole lines adds exactly that line's
/// trimmed content to the lines read back, and nothing if the line is blank.
pub proof fn law_append_line(text: Seq<char>, line: Seq<char>)
    requires
        text.len() == 0 || text.last() == '\n',
        !line.contains('\n'),
    ensures
        trimmed(line).len() > 0 ==> entry_lines(text + framed(line)) == entry_lines(text).push(
            trimmed(line),
        ),
        trimmed(line).len() == 0 ==> entry_lines(text + framed(line)) == entry_lines(text),
{
    lemma_segments_extend(text, line);
    let all = text + framed(line);
    assert(all.drop_last() == text + line);
    let whole = segments(text + line);
    assert(segments(all) == whole.push(Seq::empty()));
    assert(segments(all).drop_last() == whole);
    let empty = Seq::<char>::empty();
    assert(trimmed(empty) == empty);
    assert(segments(text).last() == empty);
    assert(empty + line == line);
    assert(whole.drop_last() == segments(text).drop_last());
    assert(entry_lines(all) == nonblank(whole));
    assert(entry_lines(text) == nonblank(segments(text).drop_last()));
}

/// A framed line is the line and one line feed.
pub proof fn law_framing_adds_a_line_feed(line: Seq<char>)
    ensures
        framed(line).len() == line.len() + 1,
        line.is_prefix_of(framed(line)),
        framed(line).last() == '\n',
{
    assert(framed(line).take(line.len() as int) == line);
}

/// A text without characters has no lines, and a last line counts whether or not
/// a line feed ends it.
pub proof fn law_unfinished_line_counts(text: Seq<char>, line: Seq<char>)
    requires
        text.len() == 0 || text.last() == '\n',
        !line.contains('\n'),
    ensures
        entry_lines(Seq::empty()) == Seq::<Seq<char>>::empty(),
        trimmed(line).len() > 0 ==> entry_lines(text + line) == entry_lines(text).push(
            trimmed(line),
        ),
        trimmed(line).len() == 0 ==> entry_lines(text + line) == entry_lines(text),
{
    let empty = Seq::<char>::empty();
    assert(trimmed(empty) == empty);
    assert(segments(empty).drop_last() == Seq::<Seq<char>>::empty());
    reveal_with_fuel(nonblank, 2);
    law_append_line(text, line);
    let all = text + framed(line);
    assert(all.drop_last() == text + line);
    assert(segments(all).drop_last() == segments(text + line));
    assert(segments(all).last() == empty);
}

/// The bytes of two texts one after the other are those of the first and then
/// those of the second.
pub proof fn lemma_encode_concat(a: Seq<char>, b: Seq<char>)
    ensures
        encode_utf8(a + b) == encode_utf8(a) + encode_utf8(b),
    decreases a.len(),
{
    if a.len() == 0 {
        assert(a + b == b);
    } else {
        lemma_encode_concat(a.drop_first(), b);
        assert((a + b).drop_first() == a.drop_first() + b);
    }
}

/// What decoding makes of bytes that are not UTF-8: the text in which the
/// ill-formed parts are replaced.
pub uninterp spec fn utf8_repaired(bytes: Seq<u8>) -> Seq<char>;

/// The text that received bytes stand for.
pub open spec fn received_text(bytes: Seq<u8>) -> Seq<char> {
    if valid_utf8(bytes) {
        decode_utf8(bytes)
    } else {
        utf8_repaired(bytes)
    }
}

/// Bytes that are UTF-8 are received as the text whose encoding they are. Only
/// others are repaired.
pub proof fn law_received_text_encodes_to_the_bytes(bytes: Seq<u8>)
    ensures
        valid_utf8(bytes) ==> encode_utf8(received_text(bytes)) == bytes,
        !valid_utf8(bytes) ==> received_text(bytes) == utf8_repaired(bytes),
{
    if valid_utf8(bytes) {
        decode_utf8_encode_utf8(bytes);
    }
}

/// `String::from_utf8_lossy`: bytes that are UTF-8 give the text they encode.
/// For other bytes the result, which has replacement characters in it, is
/// given a name and nothing more is said of it.
#[verifier::external_body]
pub(crate) fn from_utf8_lossy(bytes: &[u8]) -> (r: String)
    ensures
        r@ == (if valid_utf8(bytes@) {
            decode_utf8(bytes@)
        } else {
            utf8_repaired(bytes@)
        }),
{
    String::from_utf8_lossy(bytes).into_owned()
}

} // verus!
