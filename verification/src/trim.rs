//! White space and the trimming of a line of input.

use vstd::prelude::*;

verus! {

/// Whether `c` is white space: one of the code points that carry the Unicode
/// property White_Space. Line terminators are among them.
pub open spec fn is_space(c: char) -> bool {
    let u = c as u32;
    ||| 0x09 <= u <= 0x0D
    ||| u == 0x20
    ||| u == 0x85
    ||| u == 0xA0
    ||| u == 0x1680
    ||| 0x2000 <= u <= 0x200A
    ||| u == 0x2028
    ||| u == 0x2029
    ||| u == 0x202F
    ||| u == 0x205F
    ||| u == 0x3000
}

/// `s` without the white space it starts with.
pub open spec fn trim_start(s: Seq<char>) -> Seq<char>
    decreases s.len(),
{
    if s.len() > 0 && is_space(s.first()) {
        trim_start(s.drop_first())
    } else {
        s
    }
}

/// `s` without the white space it ends with.
pub open spec fn trim_end(s: Seq<char>) -> Seq<char>
    decreases s.len(),
{
    if s.len() > 0 && is_space(s.last()) {
        trim_end(s.drop_last())
    } else {
        s
    }
}

/// `s` without the white space around it.
pub open spec fn trimmed(s: Seq<char>) -> Seq<char> {
    trim_end(trim_start(s))
}

/// Whether every character of `s` from index `from` up to `to` is white space.
pub open spec fn all_space(s: Seq<char>, from: int, to: int) -> bool {
    forall|i: int| from <= i < to ==> is_space(#[trigger] s[i])
}

/// Decides `is_space`.
pub fn is_white_space(c: char) -> (b: bool)
    ensures
        b == is_space(c),
{
    let u: u32 = c as u32;
    (0x09 <= u && u <= 0x0D) || u == 0x20 || u == 0x85 || u == 0xA0 || u == 0x1680 || (0x2000 <= u
        && u <= 0x200A) || u == 0x2028 || u == 0x2029 || u == 0x202F || u == 0x205F || u == 0x3000
}

/// Dropping `a` leading white-space characters leaves what `trim_start` leaves,
/// provided the character after them, if any, is none.
pub proof fn lemma_trim_start_at(s: Seq<char>, a: int)
    requires
        0 <= a <= s.len(),
        all_space(s, 0, a),
        a < s.len() ==> !is_space(s[a]),
    ensures
        trim_start(s) == s.subrange(a, s.len() as int),
    decreases a,
{
    if a == 0 {
        assert(s.subrange(0, s.len() as int) =~= s);
    } else {
        let rest = s.drop_first();
        lemma_trim_start_at(rest, a - 1);
        assert(rest.subrange(a - 1, rest.len() as int) =~= s.subrange(a, s.len() as int));
    }
}

/// Dropping the white space after index `b` leaves what `trim_end` leaves,
/// provided the character before `b`, if any, is none.
pub proof fn lemma_trim_end_at(s: Seq<char>, b: int)
    requires
        0 <= b <= s.len(),
        all_space(s, b, s.len() as int),
        0 < b ==> !is_space(s[b - 1]),
    ensures
        trim_end(s) == s.subrange(0, b),
    decreases s.len() - b,
{
    if b == s.len() {
        assert(s.subrange(0, b) =~= s);
    } else {
        let rest = s.drop_last();
        lemma_trim_end_at(rest, b);
        assert(rest.subrange(0, b) =~= s.subrange(0, b));
    }
}

/// The trimmed text is the stretch from the first character that is no white
/// space to the last one; of a line of nothing but white space, any empty stretch.
pub proof fn lemma_trimmed_is_stretch(s: Seq<char>, a: int, b: int)
    requires
        0 <= a <= b <= s.len(),
        all_space(s, 0, a),
        all_space(s, b, s.len() as int),
        a < b ==> !is_space(s[a]) && !is_space(s[b - 1]),
    ensures
        trimmed(s) == s.subrange(a, b),
{
    if a < b {
        lemma_trim_start_at(s, a);
        let tail = s.subrange(a, s.len() as int);
        lemma_trim_end_at(tail, b - a);
        assert(tail.subrange(0, b - a) =~= s.subrange(a, b));
    } else {
        lemma_trim_start_at(s, s.len() as int);
        assert(s.subrange(a, b) =~= s.subrange(s.len() as int, s.len() as int));
    }
}

/// What `trim_start` leaves is the end of `s`, begins with no white space, and
/// has only white space before it.
pub proof fn lemma_trim_start_shape(s: Seq<char>)
    ensures
        trim_start(s).len() <= s.len(),
        trim_start(s) == s.subrange(s.len() - trim_start(s).len(), s.len() as int),
        all_space(s, 0, s.len() - trim_start(s).len()),
        trim_start(s).len() > 0 ==> !is_space(trim_start(s).first()),
    decreases s.len(),
{
    if s.len() > 0 && is_space(s.first()) {
        let rest = s.drop_first();
        lemma_trim_start_shape(rest);
        let skipped = rest.len() - trim_start(rest).len();
        assert(rest.subrange(skipped, rest.len() as int) =~= s.subrange(
            skipped + 1,
            s.len() as int,
        ));
        assert forall|i: int| 0 <= i < skipped + 1 implies is_space(#[trigger] s[i]) by {
            if i > 0 {
                assert(s[i] == rest[i - 1]);
            }
        }
    } else {
        assert(s.subrange(0, s.len() as int) =~= s);
    }
}

/// What `trim_end` leaves is the start of `s`, ends with no white space, and has
/// only white space after it.
pub proof fn lemma_trim_end_shape(s: Seq<char>)
    ensures
        trim_end(s).len() <= s.len(),
        trim_end(s) == s.subrange(0, trim_end(s).len() as int),
        all_space(s, trim_end(s).len() as int, s.len() as int),
        trim_end(s).len() > 0 ==> !is_space(trim_end(s).last()),
    decreases s.len(),
{
    if s.len() > 0 && is_space(s.last()) {
        let rest = s.drop_last();
        lemma_trim_end_shape(rest);
        let kept = trim_end(rest).len() as int;
        assert(rest.subrange(0, kept) =~= s.subrange(0, kept));
        assert forall|i: int| kept <= i < s.len() implies is_space(#[trigger] s[i]) by {
            if i < rest.len() {
                assert(s[i] == rest[i]);
            }
        }
    } else {
        assert(s.subrange(0, s.len() as int) =~= s);
    }
}

/// Every text has its stretch: the bounds between which the trimmed text lies.
pub proof fn lemma_trimmed_shape(s: Seq<char>) -> (bounds: (int, int))
    ensures
        0 <= bounds.0 <= bounds.1 <= s.len(),
        trimmed(s) == s.subrange(bounds.0, bounds.1),
        all_space(s, 0, bounds.0),
        all_space(s, bounds.1, s.len() as int),
        bounds.0 < bounds.1 ==> !is_space(s[bounds.0]) && !is_space(s[bounds.1 - 1]),
{
    lemma_trim_start_shape(s);
    let tail = trim_start(s);
    lemma_trim_end_shape(tail);
    let a = s.len() - tail.len();
    let b = a + trimmed(s).len();
    assert(tail.subrange(0, b - a) =~= s.subrange(a, b));
    assert forall|i: int| b <= i < s.len() implies is_space(#[trigger] s[i]) by {
        assert(s[i] == tail[i - a]);
    }
    (a, b)
}

/// The trimmed text neither begins nor ends with white space.
pub proof fn lemma_trimmed_edges(s: Seq<char>)
    ensures
        trimmed(s).len() > 0 ==> !is_space(trimmed(s).first()) && !is_space(trimmed(s).last()),
{
    lemma_trimmed_shape(s);
}

/// Trimming a second time changes nothing.
pub proof fn lemma_trimmed_twice(s: Seq<char>)
    ensures
        trimmed(trimmed(s)) == trimmed(s),
{
    let t = trimmed(s);
    lemma_trimmed_edges(s);
    lemma_trimmed_is_stretch(t, 0, t.len() as int);
    assert(t.subrange(0, t.len() as int) =~= t);
}

/// White space put before and after a text does not change what trimming leaves.
pub proof fn lemma_trimmed_ignores_padding(before: Seq<char>, s: Seq<char>, after: Seq<char>)
    requires
        all_space(before, 0, before.len() as int),
        all_space(after, 0, after.len() as int),
    ensures
        trimmed(before + s + after) == trimmed(s),
{
    let padded = before + s + after;
    let (a, b) = lemma_trimmed_shape(s);
    let shift = before.len() as int;
    assert forall|i: int| 0 <= i < padded.len() implies padded[i] == (if i < shift {
        before[i]
    } else if i < shift + s.len() {
        s[i - shift]
    } else {
        after[i - shift - s.len()]
    }) by {}
    if a < b {
        lemma_trimmed_is_stretch(padded, shift + a, shift + b);
        assert(padded.subrange(shift + a, shift + b) =~= s.subrange(a, b));
    } else {
        lemma_trimmed_is_stretch(padded, 0, 0);
        assert(padded.subrange(0, 0) =~= s.subrange(a, b));
    }
}

/// The line without the white space around it.
pub fn trim(line: &str) -> (text: &str)
    ensures
        text@ == trimmed(line@),
{
    // Counting first bounds the characters to come, so that `seen` cannot overflow.
    let count: usize = line.unicode_len();
    let mut start: usize = 0;
    let mut end: usize = 0;
    let mut seen: usize = 0;
    let chars = line.chars();
    for c in it: chars
        invariant
            it.seq() == line@,
            count == line@.len(),
            seen == it.index(),
            start <= end <= seen,
            all_space(line@, 0, start as int),
            all_space(line@, end as int, seen as int),
            start < end ==> !is_space(line@[start as int]) && !is_space(line@[end - 1]),
            start == end ==> start == 0,
    {
        if !is_white_space(c) {
            if end == 0 {
                start = seen;
            }
            end = seen + 1;
        }
        seen = seen + 1;
    }
    proof {
        lemma_trimmed_is_stretch(line@, start as int, end as int);
    }
    line.substring_char(start, end)
}

} // verus!
