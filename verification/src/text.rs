//! White space in text: what it is, trimming it off and splitting at it.

use vstd::prelude::*;

verus! {

/// Whether `c` has the Unicode property `White_Space`.
pub open spec fn white_space(c: char) -> bool {
    let u = c as u32;
    ||| 0x09 <= u <= 0x0d
    ||| u == 0x20
    ||| u == 0x85
    ||| u == 0xa0
    ||| u == 0x1680
    ||| 0x2000 <= u <= 0x200a
    ||| u == 0x2028
    ||| u == 0x2029
    ||| u == 0x202f
    ||| u == 0x205f
    ||| u == 0x3000
}

/// `s` without the white space it begins with.
pub open spec fn trim_start(s: Seq<char>) -> Seq<char>
    decreases s.len(),
{
    if s.len() > 0 && white_space(s[0]) {
        trim_start(s.skip(1))
    } else {
        s
    }
}

/// `s` without the white space it ends with.
pub open spec fn trim_end(s: Seq<char>) -> Seq<char>
    decreases s.len(),
{
    if s.len() > 0 && white_space(s.last()) {
        trim_end(s.drop_last())
    } else {
        s
    }
}

/// `s` without the white space at either end.
pub open spec fn trim(s: Seq<char>) -> Seq<char> {
    trim_end(trim_start(s))
}

/// The length of the run of characters other than white space that `s` begins
/// with.
pub open spec fn word_len(s: Seq<char>) -> nat
    decreases s.len(),
{
    if s.len() == 0 || white_space(s[0]) {
        0
    } else {
        1 + word_len(s.skip(1))
    }
}

/// The words of `s`, which are its longest runs of characters other than white
/// space, in the order in which they stand there.
pub open spec fn words(s: Seq<char>) -> Seq<Seq<char>>
    decreases s.len() via words_decreases
{
    if s.len() == 0 {
        Seq::empty()
    } else if white_space(s[0]) {
        words(s.skip(1))
    } else {
        seq![s.take(word_len(s) as int)] + words(s.skip(word_len(s) as int))
    }
}

#[via_fn]
proof fn words_decreases(s: Seq<char>) {
    lemma_word_len(s);
}

/// What each string of `v` holds.
pub open spec fn texts(v: Seq<String>) -> Seq<Seq<char>> {
    v.map_values(|w: String| w@)
}

/// A run at the start of a text is no longer than the text, and holds no white
/// space.
proof fn lemma_word_len(s: Seq<char>)
    ensures
        word_len(s) <= s.len(),
        forall|k: int| 0 <= k < word_len(s) ==> !white_space(#[trigger] s[k]),
        word_len(s) < s.len() ==> white_space(s[word_len(s) as int]),
    decreases s.len(),
{
    if s.len() > 0 && !white_space(s[0]) {
        let rest = s.skip(1);
        lemma_word_len(rest);
        assert forall|k: int| 0 <= k < word_len(s) implies !white_space(#[trigger] s[k]) by {
            if k > 0 {
                assert(s[k] == rest[k - 1]);
            }
        }
        if word_len(s) < s.len() {
            assert(s[word_len(s) as int] == rest[word_len(rest) as int]);
        }
    }
}

/// The characters of `s`.
fn chars_of(s: &str) -> (r: Vec<char>)
    ensures
        r@ == s@,
{
    let mut r: Vec<char> = Vec::new();
    for c in it: s.chars()
        invariant
            r@ == it.seq().take(it.index() as int),
            it.seq() == s@,
    {
        r.push(c);
    }
    r
}

/// Whether `c` is white space.
pub fn is_white_space(c: char) -> (r: bool)
    ensures
        r == white_space(c),
{
    let u: u32 = c as u32;
    (0x09 <= u && u <= 0x0d) || u == 0x20 || u == 0x85 || u == 0xa0 || u == 0x1680 || (0x2000 <= u
        && u <= 0x200a) || u == 0x2028 || u == 0x2029 || u == 0x202f || u == 0x205f || u == 0x3000
}

/// `s` without the white space at either end.
pub fn trimmed(s: &str) -> (r: &str)
    ensures
        r@ == trim(s@),
{
    let chars = chars_of(s);
    let mut from: usize = 0;
    assert(s@.skip(0) =~= s@);
    while from < chars.len() && is_white_space(chars[from])
        invariant
            chars@ == s@,
            from <= chars.len(),
            trim_start(s@) == trim_start(s@.skip(from as int)),
        decreases chars.len() - from,
    {
        assert(s@.skip(from as int).skip(1) =~= s@.skip(from as int + 1));
        from = from + 1;
    }
    assert(trim_start(s@) == s@.skip(from as int));
    let mut to: usize = chars.len();
    assert(s@.skip(from as int) =~= s@.subrange(from as int, to as int));
    while from < to && is_white_space(chars[to - 1])
        invariant
            chars@ == s@,
            from <= to <= chars.len(),
            trim(s@) == trim_end(s@.subrange(from as int, to as int)),
        decreases to - from,
    {
        assert(s@.subrange(from as int, to as int).drop_last() =~= s@.subrange(
            from as int,
            to - 1,
        ));
        to = to - 1;
    }
    s.substring_char(from, to)
}

/// The words of `s`.
pub fn split_words(s: &str) -> (r: Vec<String>)
    ensures
        texts(r@) == words(s@),
{
    let chars = chars_of(s);
    let mut r: Vec<String> = Vec::new();
    let mut i: usize = 0;
    assert(texts(r@) + words(s@.skip(0)) =~= words(s@)) by {
        assert(s@.skip(0) =~= s@);
    }
    while i < chars.len()
        invariant
            chars@ == s@,
            i <= chars.len(),
            texts(r@) + words(s@.skip(i as int)) == words(s@),
        decreases chars.len() - i,
    {
        let ghost rest = s@.skip(i as int);
        if is_white_space(chars[i]) {
            assert(rest.skip(1) =~= s@.skip(i as int + 1));
            i = i + 1;
        } else {
            let mut j: usize = i;
            while j < chars.len() && !is_white_space(chars[j])
                invariant
                    chars@ == s@,
                    i <= j <= chars.len(),
                    rest == s@.skip(i as int),
                    word_len(rest) == (j - i) + word_len(s@.skip(j as int)),
                decreases chars.len() - j,
            {
                assert(s@.skip(j as int).skip(1) =~= s@.skip(j as int + 1));
                j = j + 1;
            }
            proof {
                lemma_word_len(rest);
                assert(rest.take(j - i) =~= s@.subrange(i as int, j as int));
                assert(rest.skip(j - i) =~= s@.skip(j as int));
            }
            let ghost before = r@;
            r.push(s.substring_char(i, j).to_owned());
            assert(texts(r@) =~= texts(before).push(rest.take(j - i)));
            assert(texts(r@) + words(s@.skip(j as int)) =~= texts(before) + words(rest));
            i = j;
        }
    }
    assert(texts(r@) + words(s@.skip(i as int)) =~= texts(r@));
    r
}

/// Whether `w` could be a word: it is not empty and holds no white space.
pub open spec fn is_word(w: Seq<char>) -> bool {
    &&& w.len() > 0
    &&& forall|k: int| 0 <= k < w.len() ==> !white_space(#[trigger] w[k])
}

/// No word is empty, and no word holds white space.
pub proof fn law_words_are_words(s: Seq<char>)
    ensures
        forall|i: int| 0 <= i < words(s).len() ==> is_word(#[trigger] words(s)[i]),
    decreases s.len(),
{
    if s.len() > 0 {
        if white_space(s[0]) {
            law_words_are_words(s.skip(1));
            assert(words(s) == words(s.skip(1)));
        } else {
            lemma_word_len(s);
            let n = word_len(s) as int;
            law_words_are_words(s.skip(n));
            assert forall|i: int| 0 <= i < words(s).len() implies is_word(
                #[trigger] words(s)[i],
            ) by {
                if i > 0 {
                    assert(words(s)[i] == words(s.skip(n))[i - 1]);
                } else {
                    assert(words(s)[i] == s.take(n));
                }
            }
        }
    } else {
        assert(words(s).len() == 0);
    }
}

/// The words of a text, one after the other, are the text without its white
/// space: nothing else is lost, and the order stays.
pub proof fn law_words_keep_all_but_white_space(s: Seq<char>)
    ensures
        words(s).flatten() == s.filter(|c: char| !white_space(c)),
    decreases s.len(),
{
    let keep = |c: char| !white_space(c);
    if s.len() == 0 {
        reveal(Seq::filter);
        assert(words(s) =~= Seq::empty());
    } else {
        let first = seq![s[0]];
        assert(s =~= first + s.skip(1));
        if white_space(s[0]) {
            law_words_keep_all_but_white_space(s.skip(1));
            Seq::filter_distributes_over_add(first, s.skip(1), keep);
            reveal_with_fuel(Seq::filter, 2);
            assert(first.filter(keep) =~= Seq::empty());
            assert(s.filter(keep) =~= s.skip(1).filter(keep));
        } else {
            lemma_word_len(s);
            let n = word_len(s) as int;
            let head = s.take(n);
            let tail = s.skip(n);
            law_words_keep_all_but_white_space(tail);
            assert(s =~= head + tail);
            Seq::filter_distributes_over_add(head, tail, keep);
            lemma_filter_keeps_all(head, keep);
            assert(words(s) =~= seq![head] + words(tail));
            assert((seq![head] + words(tail)).drop_first() =~= words(tail));
            assert(words(s).flatten() =~= head + words(tail).flatten());
        }
    }
}

proof fn lemma_filter_keeps_all(s: Seq<char>, keep: spec_fn(char) -> bool)
    requires
        forall|k: int| 0 <= k < s.len() ==> keep(#[trigger] s[k]),
    ensures
        s.filter(keep) == s,
    decreases s.len(),
{
    reveal(Seq::filter);
    if s.len() > 0 {
        assert forall|k: int| 0 <= k < s.drop_last().len() implies keep(
            #[trigger] s.drop_last()[k],
        ) by {
            assert(s.drop_last()[k] == s[k]);
        }
        lemma_filter_keeps_all(s.drop_last(), keep);
        assert(keep(s[s.len() - 1]));
        assert(s =~= s.drop_last().push(s.last()));
    }
}

/// Trimming a text leaves its words as they are.
pub proof fn law_trim_keeps_words(s: Seq<char>)
    ensures
        words(trim(s)) == words(s),
{
    lemma_trim_start_keeps_words(s);
    lemma_trim_end_keeps_words(trim_start(s));
}

proof fn lemma_trim_start_keeps_words(s: Seq<char>)
    ensures
        words(trim_start(s)) == words(s),
    decreases s.len(),
{
    if s.len() > 0 && white_space(s[0]) {
        lemma_trim_start_keeps_words(s.skip(1));
    }
}

proof fn lemma_trim_end_keeps_words(s: Seq<char>)
    ensures
        words(trim_end(s)) == words(s),
    decreases s.len(),
{
    if s.len() > 0 && white_space(s.last()) {
        lemma_trim_end_keeps_words(s.drop_last());
        lemma_words_of_push(s.drop_last(), s.last());
        assert(s =~= s.drop_last().push(s.last()));
    }
}

proof fn lemma_words_of_push(s: Seq<char>, c: char)
    requires
        white_space(c),
    ensures
        words(s.push(c)) == words(s),
    decreases s.len(),
{
    let t = s.push(c);
    if s.len() == 0 {
        assert(t.skip(1) =~= Seq::empty());
        assert(words(t.skip(1)) =~= words(s));
    } else if white_space(s[0]) {
        assert(t.skip(1) =~= s.skip(1).push(c));
        lemma_words_of_push(s.skip(1), c);
    } else {
        lemma_word_len(s);
        lemma_word_len_of_push(s, c);
        let n = word_len(s) as int;
        assert(t.take(n) =~= s.take(n));
        assert(t.skip(n) =~= s.skip(n).push(c));
        lemma_words_of_push(s.skip(n), c);
    }
}

proof fn lemma_word_len_of_push(s: Seq<char>, c: char)
    requires
        white_space(c),
    ensures
        word_len(s.push(c)) == word_len(s),
    decreases s.len(),
{
    if s.len() > 0 && !white_space(s[0]) {
        assert(s.push(c).skip(1) =~= s.skip(1).push(c));
        lemma_word_len_of_push(s.skip(1), c);
    }
}

/// A trimmed text neither begins nor ends with white space.
pub proof fn law_trim_leaves_no_outer_white_space(s: Seq<char>)
    ensures
        trim(s).len() > 0 ==> !white_space(trim(s)[0]) && !white_space(trim(s).last()),
{
    lemma_trim_start(s);
    lemma_trim_end(trim_start(s));
}

proof fn lemma_trim_start(s: Seq<char>)
    ensures
        trim_start(s).len() > 0 ==> !white_space(trim_start(s)[0]),
    decreases s.len(),
{
    if s.len() > 0 && white_space(s[0]) {
        lemma_trim_start(s.skip(1));
    }
}

proof fn lemma_trim_end(s: Seq<char>)
    ensures
        trim_end(s).len() > 0 ==> trim_end(s)[0] == s[0] && !white_space(trim_end(s).last()),
    decreases s.len(),
{
    if s.len() > 0 && white_space(s.last()) {
        lemma_trim_end(s.drop_last());
    }
}

/// A text has a word exactly where trimming leaves something of it.
pub proof fn law_trim_is_empty_without_words(s: Seq<char>)
    ensures
        trim(s).len() == 0 <==> words(s).len() == 0,
{
    law_trim_keeps_words(s);
    law_trim_leaves_no_outer_white_space(s);
    if trim(s).len() > 0 {
        assert(words(trim(s)).len() > 0);
    }
}

/// A text without white space that is not empty is its own one word, and an
/// empty text has none.
pub proof fn law_a_word_is_one_word(w: Seq<char>)
    requires
        forall|k: int| 0 <= k < w.len() ==> !white_space(#[trigger] w[k]),
    ensures
        w.len() > 0 ==> words(w) == seq![w],
        w.len() == 0 ==> words(w) == Seq::<Seq<char>>::empty(),
{
    if w.len() > 0 {
        lemma_word_len(w);
        let n = word_len(w) as int;
        assert(n == w.len());
        assert(w.take(n) =~= w);
        assert(w.skip(n) =~= Seq::empty());
        assert(words(w.skip(n)) =~= Seq::empty());
        assert(words(w) =~= seq![w]);
    }
}

/// White space parts words: the words of two texts with white space between them
/// are the words of the one and then the words of the other.
pub proof fn law_white_space_parts_words(a: Seq<char>, c: char, b: Seq<char>)
    requires
        white_space(c),
    ensures
        words(a.push(c) + b) == words(a) + words(b),
    decreases a.len(),
{
    let all = a.push(c) + b;
    if a.len() == 0 {
        assert(all[0] == c);
        assert(all.skip(1) =~= b);
        assert(words(a) + words(b) =~= words(b));
    } else if white_space(a[0]) {
        assert(all[0] == a[0]);
        assert(all.skip(1) =~= a.skip(1).push(c) + b);
        law_white_space_parts_words(a.skip(1), c, b);
    } else {
        assert(all[0] == a[0]);
        lemma_word_len(a);
        lemma_word_len_of_more(a, c, b);
        let n = word_len(a) as int;
        assert(all.take(n) =~= a.take(n));
        assert(all.skip(n) =~= a.skip(n).push(c) + b);
        law_white_space_parts_words(a.skip(n), c, b);
        assert(words(all) =~= words(a) + words(b));
    }
}

proof fn lemma_word_len_of_more(a: Seq<char>, c: char, b: Seq<char>)
    requires
        white_space(c),
    ensures
        word_len(a.push(c) + b) == word_len(a),
    decreases a.len(),
{
    let all = a.push(c) + b;
    if a.len() == 0 {
        assert(all[0] == c);
    } else {
        assert(all[0] == a[0]);
        if !white_space(a[0]) {
            assert(all.skip(1) =~= a.skip(1).push(c) + b);
            lemma_word_len_of_more(a.skip(1), c, b);
        }
    }
}

/// Trimming takes off the white space at both ends and nothing else: what is left
/// is the part of the text from the first to the last character that is none.
pub proof fn law_trim_takes_off_the_ends(s: Seq<char>, from: int, to: int)
    requires
        0 <= from <= to <= s.len(),
        forall|k: int| 0 <= k < from ==> white_space(#[trigger] s[k]),
        forall|k: int| to <= k < s.len() ==> white_space(#[trigger] s[k]),
        from < to ==> !white_space(s[from]) && !white_space(s[to - 1]),
    ensures
        trim(s) == s.subrange(from, to),
    decreases s.len(),
{
    if s.len() > 0 && white_space(s[0]) {
        let rest = s.skip(1);
        if from == 0 {
            assert(to == 0);
            assert forall|k: int| 0 <= k < rest.len() implies white_space(#[trigger] rest[k]) by {
                assert(rest[k] == s[k + 1]);
            }
            law_trim_takes_off_the_ends(rest, 0, 0);
            assert(rest.subrange(0, 0) =~= s.subrange(from, to));
        } else {
            assert forall|k: int| 0 <= k < from - 1 implies white_space(#[trigger] rest[k]) by {
                assert(rest[k] == s[k + 1]);
            }
            assert forall|k: int| to - 1 <= k < rest.len() implies white_space(
                #[trigger] rest[k],
            ) by {
                assert(rest[k] == s[k + 1]);
            }
            law_trim_takes_off_the_ends(rest, from - 1, to - 1);
            assert(rest.subrange(from - 1, to - 1) =~= s.subrange(from, to));
        }
    } else {
        if from > 0 {
            assert(white_space(s[0]));
        }
        lemma_trim_end_at(s, to);
        assert(s.take(to) =~= s.subrange(from, to));
    }
}

proof fn lemma_trim_end_at(s: Seq<char>, to: int)
    requires
        0 <= to <= s.len(),
        forall|k: int| to <= k < s.len() ==> white_space(#[trigger] s[k]),
        to > 0 ==> !white_space(s[to - 1]),
    ensures
        trim_end(s) == s.take(to),
    decreases s.len(),
{
    if to < s.len() {
        let rest = s.drop_last();
        assert(white_space(s[s.len() - 1]));
        assert forall|k: int| to <= k < rest.len() implies white_space(#[trigger] rest[k]) by {
            assert(rest[k] == s[k]);
        }
        lemma_trim_end_at(rest, to);
        assert(rest.take(to) =~= s.take(to));
    } else {
        assert(s.take(to) =~= s);
    }
}

/// The texts of strings are as many, and each is what its string holds.
pub proof fn law_texts_are_what_the_strings_hold(v: Seq<String>, i: int)
    ensures
        texts(v).len() == v.len(),
        0 <= i < v.len() ==> texts(v)[i] == v[i]@,
{
}

} // verus!
