//! Trimming text.
use vstd::prelude::*;
use vstd::string::*;

use crate::text::chars_of;

verus! {

// ---------------------------------------------------------------------------------------------
// Trimming

/// `s` without the characters at its end that `cut` holds of.
pub open spec fn trim_end(s: Seq<char>, cut: spec_fn(char) -> bool) -> Seq<char>
    decreases s.len(),
{
    if s.len() > 0 && cut(s.last()) {
        trim_end(s.drop_last(), cut)
    } else {
        s
    }
}

/// `s` without the characters at its start that `cut` holds of.
pub open spec fn trim_start(s: Seq<char>, cut: spec_fn(char) -> bool) -> Seq<char>
    decreases s.len(),
{
    if s.len() > 0 && cut(s[0]) {
        trim_start(s.drop_first(), cut)
    } else {
        s
    }
}

/// `s` without the characters at both its ends that `cut` holds of.
pub open spec fn trim(s: Seq<char>, cut: spec_fn(char) -> bool) -> Seq<char> {
    trim_start(trim_end(s, cut), cut)
}

/// Holds of `c` alone.
pub open spec fn only(c: char) -> spec_fn(char) -> bool {
    |x: char| x == c
}

/// Trimming the end keeps a prefix, cuts nothing but what it may cut, and stops only there.
pub proof fn lemma_trim_end(s: Seq<char>, cut: spec_fn(char) -> bool)
    ensures
        trim_end(s, cut).len() <= s.len(),
        trim_end(s, cut) == s.take(trim_end(s, cut).len() as int),
        forall|i: int| trim_end(s, cut).len() <= i < s.len() ==> cut(#[trigger] s[i]),
        trim_end(s, cut).len() > 0 ==> !cut(trim_end(s, cut).last()),
    decreases s.len(),
{
    if s.len() > 0 && cut(s.last()) {
        let init = s.drop_last();
        lemma_trim_end(init, cut);
        let n = trim_end(init, cut).len() as int;
        assert(init.take(n) =~= s.take(n));
        assert forall|i: int| n <= i < s.len() implies cut(#[trigger] s[i]) by {
            if i < init.len() {
                assert(init[i] == s[i]);
            }
        }
    } else {
        assert(s.take(s.len() as int) =~= s);
    }
}

/// Trimming the start keeps a suffix, cuts nothing but what it may cut, and stops only there.
pub proof fn lemma_trim_start(s: Seq<char>, cut: spec_fn(char) -> bool)
    ensures
        trim_start(s, cut).len() <= s.len(),
        trim_start(s, cut) == s.skip(s.len() - trim_start(s, cut).len()),
        forall|i: int| 0 <= i < s.len() - trim_start(s, cut).len() ==> cut(#[trigger] s[i]),
        trim_start(s, cut).len() > 0 ==> !cut(trim_start(s, cut)[0]),
    decreases s.len(),
{
    if s.len() > 0 && cut(s[0]) {
        let rest = s.drop_first();
        lemma_trim_start(rest, cut);
        let n = rest.len() - trim_start(rest, cut).len();
        assert(rest.skip(n) =~= s.skip(n + 1));
        assert forall|i: int| 0 <= i < n + 1 implies cut(#[trigger] s[i]) by {
            if i > 0 {
                assert(rest[i - 1] == s[i]);
            }
        }
    } else {
        assert(s.skip(0) =~= s);
    }
}

/// What is left after trimming both ends stands together in `s`, and has nothing to cut at
/// either end.
pub proof fn lemma_trim(s: Seq<char>, cut: spec_fn(char) -> bool)
    ensures
        exists|from: int, to: int|
            0 <= from <= to <= s.len() && trim(s, cut) == #[trigger] s.subrange(from, to),
        trim(s, cut).len() > 0 ==> !cut(trim(s, cut)[0]) && !cut(trim(s, cut).last()),
{
    let ended = trim_end(s, cut);
    lemma_trim_end(s, cut);
    lemma_trim_start(ended, cut);
    let from = ended.len() - trim(s, cut).len();
    assert(trim(s, cut) =~= s.subrange(from, ended.len() as int));
    if trim(s, cut).len() > 0 {
        assert(trim(s, cut).last() == ended.last());
    }
}

/// Text with nothing to cut at either end is trimmed already.
pub proof fn lemma_trim_nothing(s: Seq<char>, cut: spec_fn(char) -> bool)
    requires
        s.len() > 0 ==> !cut(s[0]) && !cut(s.last()),
    ensures
        trim(s, cut) == s,
        trim_end(s, cut) == s,
{
}

/// If characters up to `n` are kept, and those from `n` on are cut, `n` is where trimming the
/// end stops.
proof fn lemma_trim_end_at(s: Seq<char>, cut: spec_fn(char) -> bool, n: int)
    requires
        0 <= n <= s.len(),
        forall|i: int| n <= i < s.len() ==> cut(#[trigger] s[i]),
        n > 0 ==> !cut(s[n - 1]),
    ensures
        trim_end(s, cut) == s.take(n),
    decreases s.len(),
{
    if n == s.len() {
        assert(s.take(n) =~= s);
    } else {
        assert(cut(s[s.len() - 1]));
        let init = s.drop_last();
        assert forall|i: int| n <= i < init.len() implies cut(#[trigger] init[i]) by {
            assert(init[i] == s[i]);
        }
        lemma_trim_end_at(init, cut, n);
        assert(init.take(n) =~= s.take(n));
    }
}

/// If characters from `n` on are kept, and those before `n` are cut, `n` is where trimming the
/// start stops.
proof fn lemma_trim_start_at(s: Seq<char>, cut: spec_fn(char) -> bool, n: int)
    requires
        0 <= n <= s.len(),
        forall|i: int| 0 <= i < n ==> cut(#[trigger] s[i]),
        n < s.len() ==> !cut(s[n]),
    ensures
        trim_start(s, cut) == s.skip(n),
    decreases s.len(),
{
    if n == 0 {
        assert(s.skip(n) =~= s);
    } else {
        assert(cut(s[0]));
        let rest = s.drop_first();
        assert forall|i: int| 0 <= i < n - 1 implies cut(#[trigger] rest[i]) by {
            assert(rest[i] == s[i + 1]);
        }
        lemma_trim_start_at(rest, cut, n - 1);
        assert(rest.skip(n - 1) =~= s.skip(n));
    }
}

/// `s` without the `c`s at its end.
pub fn trim_end_of<'a>(s: &'a str, c: char) -> (r: &'a str)
    ensures
        r@ == trim_end(s@, only(c)),
{
    let chars = chars_of(s);
    let mut end: usize = chars.len();
    while end > 0 && chars[end - 1] == c
        invariant
            chars@ == s@,
            end <= chars.len(),
            forall|i: int| end <= i < s@.len() ==> only(c)(#[trigger] s@[i]),
        decreases end,
    {
        end = end - 1;
    }
    proof {
        lemma_trim_end_at(s@, only(c), end as int);
        assert(s@.subrange(0, end as int) =~= s@.take(end as int));
    }
    s.substring_char(0, end)
}

/// `s` without the `c`s at both its ends.
pub fn trim_of<'a>(s: &'a str, c: char) -> (r: &'a str)
    ensures
        r@ == trim(s@, only(c)),
{
    let ended = trim_end_of(s, c);
    let chars = chars_of(ended);
    let mut start: usize = 0;
    while start < chars.len() && chars[start] == c
        invariant
            chars@ == ended@,
            start <= chars.len(),
            forall|i: int| 0 <= i < start ==> only(c)(#[trigger] ended@[i]),
        decreases chars.len() - start,
    {
        start = start + 1;
    }
    proof {
        lemma_trim_start_at(ended@, only(c), start as int);
        assert(ended@.subrange(start as int, ended@.len() as int) =~= ended@.skip(start as int));
    }
    ended.substring_char(start, chars.len())
}

// ---------------------------------------------------------------------------------------------
// Whitespace

/// The characters with the Unicode property `White_Space`.
pub open spec fn white(c: char) -> bool {
    let code = c as u32;
    ||| 0x9 <= code <= 0xd
    ||| code == 0x20
    ||| code == 0x85
    ||| code == 0xa0
    ||| code == 0x1680
    ||| 0x2000 <= code <= 0x200a
    ||| code == 0x2028
    ||| code == 0x2029
    ||| code == 0x202f
    ||| code == 0x205f
    ||| code == 0x3000
}

/// Whether `c` has the Unicode property `White_Space`.
pub fn is_white(c: char) -> (r: bool)
    ensures
        r == white(c),
{
    let code: u32 = c as u32;
    (0x9 <= code && code <= 0xd) || code == 0x20 || code == 0x85 || code == 0xa0 || code == 0x1680
        || (0x2000 <= code && code <= 0x200a) || code == 0x2028 || code == 0x2029 || code == 0x202f
        || code == 0x205f || code == 0x3000
}

/// `s` without the whitespace at both its ends.
pub open spec fn trim_white(s: Seq<char>) -> Seq<char> {
    trim(s, |c: char| white(c))
}

/// `s` without the whitespace at both its ends.
pub fn trim_white_of<'a>(s: &'a str) -> (r: &'a str)
    ensures
        r@ == trim_white(s@),
{
    let ghost cut = |c: char| white(c);
    let chars = chars_of(s);
    let mut end: usize = chars.len();
    while end > 0 && is_white(chars[end - 1])
        invariant
            chars@ == s@,
            end <= chars.len(),
            forall|i: int| end <= i < s@.len() ==> white(#[trigger] s@[i]),
        decreases end,
    {
        end = end - 1;
    }
    let mut start: usize = 0;
    while start < end && is_white(chars[start])
        invariant
            chars@ == s@,
            start <= end <= chars.len(),
            forall|i: int| 0 <= i < start ==> white(#[trigger] s@[i]),
        decreases end - start,
    {
        start = start + 1;
    }
    proof {
        lemma_trim_end_at(s@, cut, end as int);
        lemma_trim_start_at(s@.take(end as int), cut, start as int);
        assert(s@.subrange(start as int, end as int) =~= s@.take(end as int).skip(start as int));
    }
    s.substring_char(start, end)
}

} // verus!
