//! Text as words: folding every stretch of whitespace into one space.
use vstd::prelude::*;
use vstd::string::*;

use crate::text::chars_of;
use crate::trim::{is_white, white};

verus! {

/// The words of `s`: its longest stretches without whitespace, in order.
pub open spec fn words(s: Seq<char>) -> Seq<Seq<char>>
    decreases s.len(),
{
    if s.len() == 0 {
        seq![]
    } else {
        let before = words(s.drop_last());
        let c = s.last();
        if white(c) {
            before
        } else if s.len() >= 2 && !white(s[s.len() - 2]) {
            before.drop_last().push(before.last().push(c))
        } else {
            before.push(seq![c])
        }
    }
}

/// Words put one behind the other, with one space between two.
pub open spec fn joined(ws: Seq<Seq<char>>) -> Seq<char>
    decreases ws.len(),
{
    if ws.len() == 0 {
        seq![]
    } else if ws.len() == 1 {
        ws[0]
    } else {
        joined(ws.drop_last()).push(' ') + ws.last()
    }
}

/// A word has characters, and none of them is whitespace.
pub open spec fn is_word(w: Seq<char>) -> bool {
    &&& w.len() > 0
    &&& forall|i: int| 0 <= i < w.len() ==> !white(#[trigger] w[i])
}

/// The words of `s` on one line: whitespace at the ends is gone, and every other stretch of it is
/// one space.
pub open spec fn folded(s: Seq<char>) -> Seq<char> {
    joined(words(s))
}

/// Text whose only whitespace is the plain space.
pub open spec fn plainly_spaced(s: Seq<char>) -> bool {
    forall|i: int| 0 <= i < s.len() && white(#[trigger] s[i]) ==> s[i] == ' '
}

/// The characters that Unicode breaks a line at: line feed, vertical tab, form feed, carriage
/// return, next line, line separator and paragraph separator.
pub open spec fn line_break(c: char) -> bool {
    let code = c as u32;
    0xa <= code <= 0xd || code == 0x85 || code == 0x2028 || code == 0x2029
}

/// Text without a line break.
pub open spec fn one_line(s: Seq<char>) -> bool {
    forall|i: int| 0 <= i < s.len() ==> !line_break(#[trigger] s[i])
}

/// `words` gives words, and text that ends in no whitespace has a last one.
pub proof fn lemma_words(s: Seq<char>)
    ensures
        forall|k: int| 0 <= k < words(s).len() ==> is_word(#[trigger] words(s)[k]),
        s.len() > 0 && !white(s.last()) ==> words(s).len() > 0,
        words(s).len() == 0 <==> (forall|i: int| 0 <= i < s.len() ==> white(#[trigger] s[i])),
    decreases s.len(),
{
    if s.len() > 0 {
        let init = s.drop_last();
        lemma_words(init);
        let before = words(init);
        let c = s.last();
        if s.len() >= 2 {
            assert(init.last() == s[s.len() - 2]);
        }
        if !white(c) && s.len() >= 2 && !white(s[s.len() - 2]) {
            let w = before.last().push(c);
            assert(is_word(before[before.len() - 1]));
            assert forall|i: int| 0 <= i < w.len() implies !white(#[trigger] w[i]) by {
                if i < w.len() - 1 {
                    assert(w[i] == before.last()[i]);
                }
            }
            assert(is_word(w));
        } else if !white(c) {
            assert(is_word(seq![c]));
        }
        assert forall|k: int| 0 <= k < words(s).len() implies is_word(#[trigger] words(s)[k]) by {
            if k < before.len() {
                assert(is_word(before[k]));
            }
        }
        if words(s).len() == 0 {
            assert forall|i: int| 0 <= i < s.len() implies white(#[trigger] s[i]) by {
                if i < init.len() {
                    assert(init[i] == s[i]);
                }
            }
        } else if forall|i: int| 0 <= i < s.len() ==> white(#[trigger] s[i]) {
            assert(white(s[s.len() - 1]));
            assert forall|i: int| 0 <= i < init.len() implies white(#[trigger] init[i]) by {
                assert(init[i] == s[i]);
            }
        }
    }
}

/// Only no words at all make an empty line.
proof fn lemma_joined_empty(ws: Seq<Seq<char>>)
    requires
        forall|k: int| 0 <= k < ws.len() ==> is_word(#[trigger] ws[k]),
    ensures
        joined(ws).len() == 0 <==> ws.len() == 0,
{
    if ws.len() > 0 {
        assert(is_word(ws[ws.len() - 1]));
    }
}

/// A character more on the last word is a character more at the end of the line.
proof fn lemma_joined_extend(ws: Seq<Seq<char>>, c: char)
    requires
        ws.len() > 0,
    ensures
        joined(ws.drop_last().push(ws.last().push(c))) == joined(ws).push(c),
{
    let longer = ws.drop_last().push(ws.last().push(c));
    if ws.len() > 1 {
        assert(longer.drop_last() =~= ws.drop_last());
        assert(joined(ws.drop_last()).push(' ') + ws.last().push(c) =~= (joined(
            ws.drop_last(),
        ).push(' ') + ws.last()).push(c));
    }
}

/// The words of `s`, with one space between two.
pub fn fold_whitespace(s: &str) -> (line: String)
    ensures
        line@ == folded(s@),
{
    let chars = chars_of(s);
    let mut line = String::new();
    let mut in_word: bool = false;
    let mut i: usize = 0;
    proof {
        assert(s@.take(0) =~= Seq::<char>::empty());
    }
    while i < chars.len()
        invariant
            chars@ == s@,
            i <= chars.len(),
            line@ == folded(s@.take(i as int)),
            in_word == (i > 0 && !white(s@[i - 1])),
        decreases chars.len() - i,
    {
        let c = chars[i];
        let ghost seen = s@.take(i as int);
        let ghost next = s@.take(i + 1);
        proof {
            assert(next.drop_last() =~= seen);
            assert(next.last() == c);
            lemma_words(seen);
            lemma_joined_empty(words(seen));
        }
        if is_white(c) {
            in_word = false;
        } else {
            if in_word {
                proof {
                    assert(seen.last() == s@[i - 1]);
                    assert(next[next.len() - 2] == s@[i - 1]);
                    lemma_joined_extend(words(seen), c);
                }
            } else {
                if !line.as_str().is_empty() {
                    line.push(' ');
                }
                proof {
                    let ws = words(seen);
                    if next.len() >= 2 {
                        assert(next[next.len() - 2] == s@[i - 1]);
                    }
                    assert(words(next) == ws.push(seq![c]));
                    assert(ws.push(seq![c]).drop_last() =~= ws);
                    if ws.len() > 0 {
                        assert(joined(ws).push(' ') + seq![c] =~= joined(ws).push(' ').push(c));
                    } else {
                        assert(line@.push(c) =~= seq![c]);
                    }
                }
            }
            line.push(c);
            in_word = true;
        }
        i = i + 1;
    }
    assert(s@.take(s@.len() as int) =~= s@);
    line
}

/// A word behind whitespace, or at the start, is one word more.
proof fn lemma_words_append(s: Seq<char>, w: Seq<char>)
    requires
        is_word(w),
        s.len() > 0 ==> white(s.last()),
    ensures
        words(s + w) == words(s).push(w),
    decreases w.len(),
{
    let c = w.last();
    let init = w.drop_last();
    assert(!white(w[w.len() - 1]));
    assert((s + w).drop_last() =~= s + init);
    assert((s + w).last() == c);
    if init.len() == 0 {
        assert(s + init =~= s);
        if s.len() > 0 {
            assert((s + w)[(s + w).len() - 2] == s.last());
        }
        assert(w =~= seq![c]);
    } else {
        assert forall|i: int| 0 <= i < init.len() implies !white(#[trigger] init[i]) by {
            assert(init[i] == w[i]);
        }
        lemma_words_append(s, init);
        assert((s + w)[(s + w).len() - 2] == w[w.len() - 2]);
        assert(words(s).push(init).drop_last() =~= words(s));
        assert(init.push(c) =~= w);
    }
}

/// A line made of words reads back as those words.
pub proof fn lemma_words_of_joined(ws: Seq<Seq<char>>)
    requires
        forall|k: int| 0 <= k < ws.len() ==> is_word(#[trigger] ws[k]),
    ensures
        words(joined(ws)) == ws,
    decreases ws.len(),
{
    if ws.len() == 0 {
        assert(words(joined(ws)) =~= ws);
    } else {
        let init = ws.drop_last();
        assert(is_word(ws[ws.len() - 1]));
        assert forall|k: int| 0 <= k < init.len() implies is_word(#[trigger] init[k]) by {
            assert(init[k] == ws[k]);
        }
        assert(init.push(ws.last()) =~= ws);
        if ws.len() == 1 {
            assert(Seq::<char>::empty() + ws[0] =~= ws[0]);
            lemma_words_append(Seq::empty(), ws[0]);
            assert(words(Seq::<char>::empty()).push(ws[0]) =~= ws);
        } else {
            lemma_words_of_joined(init);
            let spaced = joined(init).push(' ');
            assert(spaced.drop_last() =~= joined(init));
            assert(white(' '));
            assert(words(spaced) == words(joined(init)));
            lemma_words_append(spaced, ws.last());
        }
    }
}

/// Folding keeps the words of a text, and folding what is folded changes nothing.
pub proof fn law_folding_keeps_the_words(s: Seq<char>)
    ensures
        words(folded(s)) == words(s),
        folded(folded(s)) == folded(s),
{
    lemma_words(s);
    lemma_words_of_joined(words(s));
}

/// Words joined have nothing but plain spaces between them.
proof fn lemma_joined_plainly_spaced(ws: Seq<Seq<char>>)
    requires
        forall|k: int| 0 <= k < ws.len() ==> is_word(#[trigger] ws[k]),
    ensures
        plainly_spaced(joined(ws)),
    decreases ws.len(),
{
    if ws.len() > 0 {
        let init = ws.drop_last();
        let last = ws.last();
        assert(is_word(ws[ws.len() - 1]));
        assert forall|k: int| 0 <= k < init.len() implies is_word(#[trigger] init[k]) by {
            assert(init[k] == ws[k]);
        }
        lemma_joined_plainly_spaced(init);
        let line = joined(ws);
        assert forall|i: int| 0 <= i < line.len() && white(#[trigger] line[i]) implies line[i]
            == ' ' by {
            if ws.len() == 1 {
                assert(line[i] == last[i]);
            } else {
                let start = joined(init);
                if i < start.len() {
                    assert(line[i] == start[i]);
                } else if i > start.len() {
                    assert(line[i] == last[i - start.len() - 1]);
                }
            }
        }
    }
}

/// Folded text is one line, its only whitespace is the plain space, and it is empty only if the
/// text has nothing but whitespace.
pub proof fn law_folded_text_is_one_line(s: Seq<char>)
    ensures
        one_line(folded(s)),
        plainly_spaced(folded(s)),
        folded(s).len() == 0 <==> (forall|i: int| 0 <= i < s.len() ==> white(#[trigger] s[i])),
{
    lemma_words(s);
    lemma_joined_plainly_spaced(words(s));
    lemma_joined_empty(words(s));
}

/// Two texts of one line make one line.
pub proof fn lemma_one_line_concat(a: Seq<char>, b: Seq<char>)
    requires
        one_line(a),
        one_line(b),
    ensures
        one_line(a + b),
{
    let ab = a + b;
    assert forall|i: int| 0 <= i < ab.len() implies !line_break(#[trigger] ab[i]) by {
        if i < a.len() {
            assert(ab[i] == a[i]);
        } else {
            assert(ab[i] == b[i - a.len()]);
        }
    }
}

/// The words of two texts with whitespace between them are the words of the first and then those
/// of the second.
proof fn lemma_words_split(a: Seq<char>, c: char, b: Seq<char>)
    requires
        white(c),
    ensures
        words(a.push(c) + b) == words(a) + words(b),
    decreases b.len(),
{
    let all = a.push(c) + b;
    if b.len() == 0 {
        assert(all =~= a.push(c));
        assert(a.push(c).drop_last() =~= a);
        assert(words(a) + words(b) =~= words(a));
    } else {
        let init = b.drop_last();
        let d = b.last();
        lemma_words_split(a, c, init);
        lemma_words(init);
        assert(all.drop_last() =~= a.push(c) + init);
        assert(all.last() == d);
        if b.len() >= 2 {
            assert(all[all.len() - 2] == b[b.len() - 2]);
            assert(init.last() == b[b.len() - 2]);
        } else {
            assert(all[all.len() - 2] == c);
        }
        let before = words(a) + words(init);
        if !white(d) && b.len() >= 2 && !white(b[b.len() - 2]) {
            assert(before.last() == words(init).last());
            assert(before.drop_last().push(before.last().push(d)) =~= words(a) + words(
                init,
            ).drop_last().push(words(init).last().push(d)));
        } else if !white(d) {
            assert(before.push(seq![d]) =~= words(a) + words(init).push(seq![d]));
        }
    }
}

proof fn lemma_joined_concat(x: Seq<Seq<char>>, y: Seq<Seq<char>>)
    requires
        x.len() > 0,
        y.len() > 0,
    ensures
        joined(x + y) == joined(x).push(' ') + joined(y),
    decreases y.len(),
{
    let all = x + y;
    assert(all.last() == y.last());
    if y.len() == 1 {
        assert(all.drop_last() =~= x);
    } else {
        assert(all.drop_last() =~= x + y.drop_last());
        lemma_joined_concat(x, y.drop_last());
        assert((joined(x).push(' ') + joined(y.drop_last())).push(' ') + y.last() =~= joined(
            x,
        ).push(' ') + (joined(y.drop_last()).push(' ') + y.last()));
    }
}

proof fn lemma_words_of_a_word(s: Seq<char>)
    requires
        forall|i: int| 0 <= i < s.len() ==> !white(#[trigger] s[i]),
    ensures
        folded(s) == s,
{
    if s.len() > 0 {
        assert(is_word(s));
        lemma_words_append(Seq::empty(), s);
        assert(Seq::<char>::empty() + s =~= s);
        assert(words(Seq::<char>::empty()).push(s) =~= seq![s]);
    }
}

/// Text without whitespace is folded as it is. Whitespace between two texts is a space between
/// what they are folded to, or nothing where one of them has no words.
pub proof fn law_folding_goes_by_whitespace(a: Seq<char>, c: char, b: Seq<char>)
    ensures
        (forall|i: int| 0 <= i < a.len() ==> !white(#[trigger] a[i])) ==> folded(a) == a,
        white(c) && folded(a).len() == 0 ==> folded(a.push(c) + b) == folded(b),
        white(c) && folded(b).len() == 0 ==> folded(a.push(c) + b) == folded(a),
        white(c) && folded(a).len() > 0 && folded(b).len() > 0 ==> folded(a.push(c) + b) == folded(
            a,
        ) + " "@ + folded(b),
{
    if forall|i: int| 0 <= i < a.len() ==> !white(#[trigger] a[i]) {
        lemma_words_of_a_word(a);
    }
    if white(c) {
        reveal_strlit(" ");
        lemma_words_split(a, c, b);
        lemma_words(a);
        lemma_words(b);
        lemma_joined_empty(words(a));
        lemma_joined_empty(words(b));
        if words(a).len() == 0 {
            assert(words(a) + words(b) =~= words(b));
        } else if words(b).len() == 0 {
            assert(words(a) + words(b) =~= words(a));
        } else {
            lemma_joined_concat(words(a), words(b));
            assert(folded(a).push(' ') + folded(b) =~= folded(a) + " "@ + folded(b));
        }
    }
}

} // verus!
