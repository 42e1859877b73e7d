//! Runs of characters: white space, padding, trimming and joining lines.

use vstd::prelude::*;

verus! {

/// Lines of text, each without its line feed.
pub type Lines = Seq<Seq<char>>;

/// Whether `c` is a Unicode white space character.
pub open spec fn is_whitespace(c: char) -> bool {
    let n = c as u32;
    ||| 0x09 <= n <= 0x0D
    ||| n == 0x20
    ||| n == 0x85
    ||| n == 0xA0
    ||| n == 0x1680
    ||| 0x2000 <= n <= 0x200A
    ||| n == 0x2028
    ||| n == 0x2029
    ||| n == 0x202F
    ||| n == 0x205F
    ||| n == 0x3000
}

/// Whether `s` consists of white space only.
pub open spec fn all_whitespace(s: Seq<char>) -> bool {
    forall|i: int| 0 <= i < s.len() ==> is_whitespace(#[trigger] s[i])
}

/// `n` copies of `c`.
pub open spec fn repeated(c: char, n: nat) -> Seq<char> {
    Seq::new(n, |i: int| c)
}

/// `s`, followed by as many spaces as it takes to reach `width` characters.
/// A text that is already that long stays as it is.
pub open spec fn pad_right(s: Seq<char>, width: nat) -> Seq<char> {
    if s.len() >= width {
        s
    } else {
        s + repeated(' ', (width - s.len()) as nat)
    }
}

/// The length of `s` without its trailing white space.
pub open spec fn trimmed_len(s: Seq<char>) -> nat
    decreases s.len(),
{
    if s.len() == 0 {
        0
    } else if is_whitespace(s.last()) {
        trimmed_len(s.drop_last())
    } else {
        s.len()
    }
}

/// `s` without its trailing white space.
pub open spec fn trim_end(s: Seq<char>) -> Seq<char> {
    s.take(trimmed_len(s) as int)
}

/// Whether `s` neither starts nor ends with white space.
pub open spec fn is_trimmed(s: Seq<char>) -> bool {
    s.len() > 0 ==> !is_whitespace(s.first()) && !is_whitespace(s.last())
}

/// The part of `s` from position `from` up to, but without, position `to`. A
/// text that ends before `to` gives what it has of that part.
pub open spec fn part_between(s: Seq<char>, from: int, to: int) -> Seq<char> {
    if s.len() <= from {
        Seq::empty()
    } else if s.len() <= to {
        s.skip(from)
    } else {
        s.subrange(from, to)
    }
}

/// The text that holds each of `lines` in turn, each followed by a line feed.
pub open spec fn join_lines(lines: Lines) -> Seq<char> {
    lines.map_values(|line: Seq<char>| line + seq!['\n']).flatten()
}

/// What `trimmed_len` cuts off is white space, and what it keeps does not end
/// in any.
pub proof fn lemma_trimmed_len(s: Seq<char>)
    ensures
        trimmed_len(s) <= s.len(),
        all_whitespace(s.skip(trimmed_len(s) as int)),
        trimmed_len(s) > 0 ==> !is_whitespace(s[trimmed_len(s) - 1]),
    decreases s.len(),
{
    if s.len() > 0 && is_whitespace(s.last()) {
        lemma_trimmed_len(s.drop_last());
        let k = trimmed_len(s) as int;
        let tail = s.skip(k);
        let shorter = s.drop_last().skip(k);
        assert forall|i: int| 0 <= i < tail.len() implies is_whitespace(#[trigger] tail[i]) by {
            if i < shorter.len() {
                assert(tail[i] == shorter[i]);
            }
        }
    }
}

/// White space added at the end of a text does not change what trimming keeps.
pub proof fn lemma_trim_end_ignores_trailing_whitespace(s: Seq<char>, tail: Seq<char>)
    requires
        all_whitespace(tail),
    ensures
        trimmed_len(s + tail) == trimmed_len(s),
        trim_end(s + tail) == trim_end(s),
    decreases tail.len(),
{
    if tail.len() == 0 {
        assert(s + tail =~= s);
    } else {
        let whole = s + tail;
        assert(whole.last() == tail.last());
        assert(whole.drop_last() =~= s + tail.drop_last());
        lemma_trim_end_ignores_trailing_whitespace(s, tail.drop_last());
        lemma_trimmed_len(s);
        assert(trim_end(whole) =~= trim_end(s));
    }
}

/// Trimming a text takes nothing but white space from the end of any part of
/// it: a part of the trimmed text and the same part of the whole text are equal
/// once trimmed.
pub proof fn lemma_trim_end_keeps_parts(s: Seq<char>, from: int, to: int)
    requires
        0 <= from <= to <= s.len(),
    ensures
        trim_end(part_between(trim_end(s), from, to)) == trim_end(s.subrange(from, to)),
{
    lemma_trimmed_len(s);
    let kept = trimmed_len(s) as int;
    let whole_part = s.subrange(from, to);
    let part = part_between(trim_end(s), from, to);
    let cut = if kept <= from {
        0
    } else if kept <= to {
        kept - from
    } else {
        to - from
    };
    let rest = whole_part.skip(cut);
    let tail = s.skip(kept);
    assert(part =~= whole_part.take(cut));
    assert(whole_part =~= part + rest);
    assert forall|i: int| 0 <= i < rest.len() implies is_whitespace(#[trigger] rest[i]) by {
        assert(rest[i] == tail[from + cut + i - kept]);
    }
    lemma_trim_end_ignores_trailing_whitespace(part, rest);
}

/// A text that does not end in white space is left whole by trimming.
pub proof fn lemma_trim_end_of_trimmed(s: Seq<char>)
    requires
        is_trimmed(s),
    ensures
        trim_end(s) == s,
{
    assert(s.take(s.len() as int) =~= s);
}

/// Adding one more line adds that line and a line feed to the joined text.
pub proof fn lemma_join_lines_push(lines: Lines, line: Seq<char>)
    ensures
        join_lines(lines.push(line)) == join_lines(lines) + line + seq!['\n'],
{
    let ended = |l: Seq<char>| l + seq!['\n'];
    assert(lines.push(line).map_values(ended) =~= lines.map_values(ended).push(ended(line)));
    lines.map_values(ended).lemma_flatten_push(ended(line));
    assert(join_lines(lines) + (line + seq!['\n']) =~= join_lines(lines) + line + seq!['\n']);
}

/// Tells whether `c` is a Unicode white space character.
pub fn char_is_whitespace(c: char) -> (r: bool)
    ensures
        r == is_whitespace(c),
{
    let n: u32 = c as u32;
    (0x09 <= n && n <= 0x0D) || n == 0x20 || n == 0x85 || n == 0xA0 || n == 0x1680 || (0x2000 <= n
        && n <= 0x200A) || n == 0x2028 || n == 0x2029 || n == 0x202F || n == 0x205F || n == 0x3000
}

/// Counts the characters of `s` that are left once its trailing white space is
/// cut off.
pub fn trimmed_length(s: &str) -> (k: usize)
    ensures
        k == trimmed_len(s@),
{
    broadcast use vstd::string::group_string_axioms;

    // The length bounds the position below, which then cannot overflow.
    let n = s.unicode_len();
    let mut k: usize = 0;
    let mut i: usize = 0;
    for c in it: s.chars()
        invariant
            n == s@.len(),
            i == it.index(),
            it.seq() == s@,
            k == trimmed_len(s@.take(i as int)),
    {
        assert(s@.take(i + 1).drop_last() =~= s@.take(i as int));
        i = i + 1;
        if !char_is_whitespace(c) {
            k = i;
        }
    }
    assert(s@.take(i as int) =~= s@);
    k
}

/// Appends `s` without its trailing white space to `out`.
pub fn push_trimmed(out: &mut String, s: &str)
    ensures
        final(out)@ == old(out)@ + trim_end(s@),
{
    let k = trimmed_length(s);
    proof {
        lemma_trimmed_len(s@);
    }
    out.append(s.substring_char(0, k));
}

/// Appends `n` copies of the one character that `glyph` holds to `out`.
pub(crate) fn push_repeated(out: &mut String, glyph: &str, n: usize)
    requires
        glyph@.len() == 1,
    ensures
        final(out)@ == old(out)@ + repeated(glyph@[0], n as nat),
{
    let mut i: usize = 0;
    while i < n
        invariant
            i <= n,
            glyph@.len() == 1,
            out@ == old(out)@ + repeated(glyph@[0], i as nat),
        decreases n - i,
    {
        out.append(glyph);
        i = i + 1;
        assert(out@ =~= old(out)@ + repeated(glyph@[0], i as nat));
    }
}

/// Appends `s` to `out` and fills up with spaces to `width` characters.
pub fn push_padded(out: &mut String, s: &str, width: usize)
    ensures
        final(out)@ == old(out)@ + pad_right(s@, width as nat),
{
    let len = s.unicode_len();
    out.append(s);
    if len < width {
        proof {
            reveal_strlit(" ");
        }
        push_repeated(out, " ", width - len);
        assert(out@ =~= old(out)@ + pad_right(s@, width as nat));
    }
}

} // verus!
