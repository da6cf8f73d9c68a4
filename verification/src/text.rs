//! Text as sequences of characters: comparing, ordering and measuring it.
//!
//! The functions here work on `&str` and are stated over `Seq<char>`, the view of a string.
use vstd::prelude::*;
use vstd::std_specs::iter::IteratorSpec;
use vstd::string::*;
use vstd::utf8::*;

verus! {

/// Specifies `String::push`, which appends one character to the end of the string.
pub assume_specification[ String::push ](s: &mut String, c: char)
    ensures
        final(s)@ == old(s)@.push(c),
;

/// The characters of `s`, in order.
pub fn chars_of(s: &str) -> (chars: Vec<char>)
    ensures
        chars@ == s@,
{
    let mut chars: Vec<char> = Vec::new();
    for c in it: s.chars()
        invariant
            it.seq() == s@,
            chars@ == s@.take(it.index() as int),
    {
        chars.push(c);
        assert(s@.take(it.index() + 1) == s@.take(it.index() as int).push(c));
    }
    assert(s@.take(s@.len() as int) == s@);
    chars
}

/// The string whose characters are `chars`.
pub fn string_of(chars: &Vec<char>) -> (s: String)
    ensures
        s@ == chars@,
{
    let mut s = String::new();
    let mut i: usize = 0;
    while i < chars.len()
        invariant
            i <= chars.len(),
            s@ == chars@.take(i as int),
        decreases chars.len() - i,
    {
        s.push(chars[i]);
        assert(chars@.take(i + 1) == chars@.take(i as int).push(chars@[i as int]));
        i = i + 1;
    }
    assert(chars@.take(chars.len() as int) == chars@);
    s
}

/// Whether two strings hold the same characters.
pub fn same_text(a: &str, b: &str) -> (same: bool)
    ensures
        same == (a@ == b@),
{
    let mut x = a.chars();
    let mut y = b.chars();
    loop
        invariant
            x.decrease() is Some,
            (a@ == b@) == (x.remaining() == y.remaining()),
        decreases x.decrease()->0,
    {
        let ghost before_x = x.remaining();
        let ghost before_y = y.remaining();
        match (x.next(), y.next()) {
            (None, None) => {
                assert(before_x =~= before_y);
                return true;
            },
            (Some(c), Some(d)) => {
                if c != d {
                    assert(before_x[0] != before_y[0]);
                    return false;
                }
                proof {
                    assert(before_x =~= seq![c] + x.remaining());
                    assert(before_y =~= seq![d] + y.remaining());
                }
            },
            (_, _) => {
                assert(before_x.len() != before_y.len());
                return false;
            },
        }
    }
}

/// The text of an optional string, borrowed.
pub fn borrowed(text: &Option<String>) -> (r: Option<&str>)
    ensures
        r.deep_view() == text.deep_view(),
{
    match text {
        Some(s) => Some(s.as_str()),
        None => None,
    }
}

/// A copy of an optional string.
pub fn owned(text: Option<&str>) -> (r: Option<String>)
    ensures
        r.deep_view() == text.deep_view(),
{
    match text {
        Some(s) => Some(s.to_owned()),
        None => None,
    }
}

// ---------------------------------------------------------------------------------------------
// Order

/// The order of strings: character by character, by code point. A proper prefix comes first.
pub open spec fn text_lt(a: Seq<char>, b: Seq<char>) -> bool
    decreases a.len(),
{
    if b.len() == 0 {
        false
    } else if a.len() == 0 {
        true
    } else if a[0] != b[0] {
        a[0] < b[0]
    } else {
        text_lt(a.drop_first(), b.drop_first())
    }
}

/// Whether `a` comes before `b`.
pub fn text_less(a: &str, b: &str) -> (less: bool)
    ensures
        less == text_lt(a@, b@),
{
    let mut x = a.chars();
    let mut y = b.chars();
    loop
        invariant
            x.decrease() is Some,
            text_lt(a@, b@) == text_lt(x.remaining(), y.remaining()),
        decreases x.decrease()->0,
    {
        match (x.next(), y.next()) {
            (_, None) => {
                return false;
            },
            (None, Some(_)) => {
                return true;
            },
            (Some(c), Some(d)) => {
                if c != d {
                    return c < d;
                }
            },
        }
    }
}

/// No string comes before itself.
pub broadcast proof fn lemma_text_lt_irreflexive(a: Seq<char>)
    ensures
        !#[trigger] text_lt(a, a),
    decreases a.len(),
{
    if a.len() > 0 {
        lemma_text_lt_irreflexive(a.drop_first());
    }
}

/// The order of strings is transitive.
pub broadcast proof fn lemma_text_lt_transitive(a: Seq<char>, b: Seq<char>, c: Seq<char>)
    requires
        #[trigger] text_lt(a, b),
        #[trigger] text_lt(b, c),
    ensures
        text_lt(a, c),
    decreases a.len(),
{
    if a.len() > 0 && a[0] == b[0] && b[0] == c[0] {
        lemma_text_lt_transitive(a.drop_first(), b.drop_first(), c.drop_first());
    }
}

/// Of two different strings one comes before the other.
pub broadcast proof fn lemma_text_lt_total(a: Seq<char>, b: Seq<char>)
    ensures
        #[trigger] text_lt(a, b) || text_lt(b, a) || a == b,
    decreases a.len(),
{
    if a.len() == 0 {
        assert(b.len() == 0 ==> a =~= b);
    } else if b.len() > 0 && a[0] == b[0] {
        lemma_text_lt_total(a.drop_first(), b.drop_first());
        if a.drop_first() == b.drop_first() {
            assert(a =~= seq![a[0]] + a.drop_first());
            assert(b =~= seq![b[0]] + b.drop_first());
        }
    }
}

/// The order of strings is a strict total order.
pub broadcast group group_text_order {
    lemma_text_lt_irreflexive,
    lemma_text_lt_transitive,
    lemma_text_lt_total,
}

// ---------------------------------------------------------------------------------------------
// Length in bytes

/// The length of `s` in bytes, encoded as UTF-8.
pub open spec fn byte_len(s: Seq<char>) -> nat {
    encode_utf8(s).len()
}

/// The number of bytes that UTF-8 takes for `c`.
pub open spec fn char_width(c: char) -> nat {
    if c as u32 <= 0x7f {
        1
    } else if c as u32 <= 0x7ff {
        2
    } else if c as u32 <= 0xffff {
        3
    } else {
        4
    }
}

/// Appending a character appends its encoding.
pub proof fn lemma_byte_len_push(s: Seq<char>, c: char)
    ensures
        byte_len(s.push(c)) == byte_len(s) + char_width(c),
    decreases s.len(),
{
    reveal_with_fuel(encode_utf8, 2);
    if s.len() == 0 {
        assert(s.push(c).drop_first() =~= Seq::<char>::empty());
    } else {
        assert(s.push(c).drop_first() =~= s.drop_first().push(c));
        lemma_byte_len_push(s.drop_first(), c);
    }
}

/// The encoding of a concatenation is as long as its two parts.
pub proof fn lemma_byte_len_concat(a: Seq<char>, b: Seq<char>)
    ensures
        byte_len(a + b) == byte_len(a) + byte_len(b),
    decreases b.len(),
{
    if b.len() == 0 {
        assert(a + b =~= a);
    } else {
        lemma_byte_len_concat(a, b.drop_last());
        lemma_byte_len_push(a + b.drop_last(), b.last());
        lemma_byte_len_push(b.drop_last(), b.last());
        assert((a + b.drop_last()).push(b.last()) =~= a + b);
        assert(b.drop_last().push(b.last()) =~= b);
    }
}

/// Text takes at least one byte for each character.
pub proof fn lemma_byte_len_bounds(s: Seq<char>)
    ensures
        s.len() <= byte_len(s) <= 4 * s.len(),
    decreases s.len(),
{
    if s.len() > 0 {
        lemma_byte_len_bounds(s.drop_last());
        lemma_byte_len_push(s.drop_last(), s.last());
        assert(s.drop_last().push(s.last()) =~= s);
    }
}

/// The length of a string in bytes.
pub fn byte_count(s: &str) -> (n: usize)
    ensures
        n == byte_len(s@),
        n == encode_utf8(s@).len(),
{
    s.as_bytes().len()
}

/// The number of bytes that UTF-8 takes for `c`.
pub fn width_of(c: char) -> (n: usize)
    ensures
        n == char_width(c),
{
    let code: u32 = c as u32;
    if code <= 0x7f {
        1
    } else if code <= 0x7ff {
        2
    } else if code <= 0xffff {
        3
    } else {
        4
    }
}

/// How many characters of `s`, from its start, fit into `limit` bytes.
pub open spec fn fitting(s: Seq<char>, limit: int) -> int
    decreases s.len(),
{
    if s.len() == 0 {
        0
    } else if byte_len(s) <= limit {
        s.len() as int
    } else {
        fitting(s.drop_last(), limit)
    }
}

/// `fitting` is the longest prefix that fits: it fits, and one character more would not.
pub proof fn lemma_fitting_is_longest(s: Seq<char>, limit: int)
    requires
        0 <= limit,
    ensures
        0 <= fitting(s, limit) <= s.len(),
        byte_len(s.take(fitting(s, limit))) <= limit,
        forall|k: int|
            fitting(s, limit) < k <= s.len() ==> byte_len(#[trigger] s.take(k)) > limit,
    decreases s.len(),
{
    if s.len() == 0 {
        assert(s.take(0) =~= s);
    } else if byte_len(s) <= limit {
        assert(s.take(s.len() as int) =~= s);
    } else {
        let init = s.drop_last();
        lemma_fitting_is_longest(init, limit);
        assert(init.take(fitting(init, limit)) =~= s.take(fitting(init, limit)));
        assert forall|k: int| fitting(s, limit) < k <= s.len() implies byte_len(
            #[trigger] s.take(k),
        ) > limit by {
            if k == s.len() {
                assert(s.take(k) =~= s);
            } else {
                assert(s.take(k) =~= init.take(k));
            }
        }
    }
}

/// Nothing but the longest fitting prefix is `fitting`.
pub proof fn lemma_fitting_unique(s: Seq<char>, limit: int, n: int)
    requires
        0 <= limit,
        0 <= n <= s.len(),
        byte_len(s.take(n)) <= limit,
        n < s.len() ==> byte_len(s.take(n + 1)) > limit,
    ensures
        fitting(s, limit) == n,
{
    lemma_fitting_is_longest(s, limit);
    let f = fitting(s, limit);
    if f > n {
        lemma_byte_len_concat(s.take(n + 1), s.subrange(n + 1, f));
        assert(s.take(n + 1) + s.subrange(n + 1, f) =~= s.take(f));
    }
}

/// The longest prefix of `s` that fits into `limit` bytes.
pub fn fitting_prefix(s: &str, limit: usize) -> (prefix: String)
    ensures
        prefix@ == s@.take(fitting(s@, limit as int)),
{
    let chars = chars_of(s);
    let mut prefix = String::new();
    let mut used: usize = 0;
    let mut i: usize = 0;
    proof {
        assert(s@.take(0) =~= Seq::<char>::empty());
    }
    while i < chars.len()
        invariant
            chars@ == s@,
            i <= chars.len(),
            prefix@ == s@.take(i as int),
            used == byte_len(s@.take(i as int)),
            used <= limit,
        decreases chars.len() - i,
    {
        let c = chars[i];
        let width = width_of(c);
        proof {
            lemma_byte_len_push(s@.take(i as int), c);
            assert(s@.take(i + 1) =~= s@.take(i as int).push(c));
        }
        if width > limit - used {
            proof {
                lemma_fitting_unique(s@, limit as int, i as int);
            }
            return prefix;
        }
        prefix.push(c);
        used = used + width;
        i = i + 1;
    }
    proof {
        lemma_fitting_unique(s@, limit as int, i as int);
    }
    prefix
}

// ---------------------------------------------------------------------------------------------
// Laws

/// One text comes before another exactly if, behind what both start with alike, it ends first or
/// has the lesser character.
pub proof fn law_the_first_difference_orders_texts(a: Seq<char>, b: Seq<char>)
    ensures
        text_lt(a, b) <==> exists|k: int|
            0 <= k <= a.len() && k < b.len() && #[trigger] a.take(k) == b.take(k) && (k == a.len()
                || a[k] < b[k]),
    decreases a.len(),
{
    if a.len() == 0 {
        if b.len() > 0 {
            assert(a.take(0) =~= b.take(0));
        }
    } else if b.len() > 0 {
        let rest_a = a.drop_first();
        let rest_b = b.drop_first();
        if a[0] == b[0] {
            law_the_first_difference_orders_texts(rest_a, rest_b);
            if text_lt(a, b) {
                let k = choose|k: int|
                    0 <= k <= rest_a.len() && k < rest_b.len() && #[trigger] rest_a.take(k)
                        == rest_b.take(k) && (k == rest_a.len() || rest_a[k] < rest_b[k]);
                assert(a.take(k + 1) =~= seq![a[0]] + rest_a.take(k));
                assert(b.take(k + 1) =~= seq![b[0]] + rest_b.take(k));
                assert(a.take(k + 1) == b.take(k + 1));
            }
            if exists|k: int|
                0 <= k <= a.len() && k < b.len() && #[trigger] a.take(k) == b.take(k) && (k
                    == a.len() || a[k] < b[k]) {
                let k = choose|k: int|
                    0 <= k <= a.len() && k < b.len() && #[trigger] a.take(k) == b.take(k) && (k
                        == a.len() || a[k] < b[k]);
                assert(k > 0);
                assert(rest_a.take(k - 1) =~= a.take(k).drop_first());
                assert(rest_b.take(k - 1) =~= b.take(k).drop_first());
                assert(rest_a.take(k - 1) == rest_b.take(k - 1));
            }
        } else {
            assert(a.take(0) =~= b.take(0));
            if exists|k: int|
                0 <= k <= a.len() && k < b.len() && #[trigger] a.take(k) == b.take(k) && (k
                    == a.len() || a[k] < b[k]) {
                let k = choose|k: int|
                    0 <= k <= a.len() && k < b.len() && #[trigger] a.take(k) == b.take(k) && (k
                        == a.len() || a[k] < b[k]);
                if k > 0 {
                    assert(a.take(k)[0] == a[0]);
                    assert(b.take(k)[0] == b[0]);
                }
            }
        }
    }
}

} // verus!
