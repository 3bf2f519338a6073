//! Text as sequences of characters: white space, words, search and replacement.
use vstd::prelude::*;

verus! {

/// `String::push` appends one character to the end of the string.
pub assume_specification[ String::push ](s: &mut String, c: char)
    ensures
        final(s)@ == old(s)@.push(c),
;

/// Tells whether `c` has the Unicode property `White_Space`.
pub open spec fn white_space(c: char) -> bool {
    ||| '\u{9}' <= c <= '\u{d}'
    ||| c == ' '
    ||| c == '\u{85}'
    ||| c == '\u{a0}'
    ||| c == '\u{1680}'
    ||| '\u{2000}' <= c <= '\u{200a}'
    ||| '\u{2028}' <= c <= '\u{2029}'
    ||| c == '\u{202f}'
    ||| c == '\u{205f}'
    ||| c == '\u{3000}'
}

/// Tells whether every character of `s` is white space.
pub open spec fn blank(s: Seq<char>) -> bool {
    forall|i: int| 0 <= i < s.len() ==> white_space(#[trigger] s[i])
}

/// `s` without the white space that it starts with.
pub open spec fn trimmed_start(s: Seq<char>) -> Seq<char>
    decreases s.len(),
{
    if s.len() > 0 && white_space(s[0]) {
        trimmed_start(s.drop_first())
    } else {
        s
    }
}

/// `s` without the white space that it ends with.
pub open spec fn trimmed_end(s: Seq<char>) -> Seq<char>
    decreases s.len(),
{
    if s.len() > 0 && white_space(s.last()) {
        trimmed_end(s.drop_last())
    } else {
        s
    }
}

/// `s` without white space at either end.
pub open spec fn trimmed(s: Seq<char>) -> Seq<char> {
    trimmed_end(trimmed_start(s))
}

/// The number of characters before the first white space of `s`.
pub open spec fn word_len(s: Seq<char>) -> nat
    decreases s.len(),
{
    if s.len() == 0 || white_space(s[0]) {
        0
    } else {
        1 + word_len(s.drop_first())
    }
}

/// The longest runs of `s` without white space, in order.
pub open spec fn words(s: Seq<char>) -> Seq<Seq<char>>
    decreases s.len(),
    via words_decreases
{
    if s.len() == 0 {
        seq![]
    } else if white_space(s[0]) {
        words(s.drop_first())
    } else {
        seq![s.take(word_len(s) as int)] + words(s.skip(word_len(s) as int))
    }
}

#[via_fn]
proof fn words_decreases(s: Seq<char>) {
    lemma_word_len(s);
}

/// `needle` stands in `hay` at position `i`.
pub open spec fn occurs_at(hay: Seq<char>, needle: Seq<char>, i: int) -> bool {
    &&& 0 <= i <= hay.len() - needle.len()
    &&& hay.subrange(i, i + needle.len()) == needle
}

/// `s` with `with` in place of each `c`.
pub open spec fn replaced(s: Seq<char>, c: char, with: Seq<char>) -> Seq<char>
    decreases s.len(),
{
    if s.len() == 0 {
        seq![]
    } else if s.last() == c {
        replaced(s.drop_last(), c, with) + with
    } else {
        replaced(s.drop_last(), c, with).push(s.last())
    }
}

/// The parts in one sequence, with `sep` between each two.
pub open spec fn joined(parts: Seq<Seq<char>>, sep: Seq<char>) -> Seq<char>
    decreases parts.len(),
{
    if parts.len() == 0 {
        seq![]
    } else if parts.len() == 1 {
        parts[0]
    } else {
        joined(parts.drop_last(), sep) + sep + parts.last()
    }
}

/// What `parts` hold as sequences.
pub open spec fn views(parts: Seq<Vec<char>>) -> Seq<Seq<char>> {
    parts.map_values(|part: Vec<char>| part@)
}

/// `a` comes before `b` in the order of their characters' code points, the first difference
/// deciding and a proper prefix coming first.
pub open spec fn text_less(a: Seq<char>, b: Seq<char>) -> bool
    decreases a.len(),
{
    if b.len() == 0 {
        false
    } else if a.len() == 0 {
        true
    } else if a[0] != b[0] {
        a[0] < b[0]
    } else {
        text_less(a.drop_first(), b.drop_first())
    }
}

proof fn lemma_word_len(s: Seq<char>)
    ensures
        word_len(s) <= s.len(),
        forall|i: int| 0 <= i < word_len(s) ==> !white_space(#[trigger] s[i]),
        word_len(s) < s.len() ==> white_space(s[word_len(s) as int]),
        s.len() > 0 && !white_space(s[0]) ==> word_len(s) > 0,
    decreases s.len(),
{
    if s.len() > 0 && !white_space(s[0]) {
        let rest = s.drop_first();
        lemma_word_len(rest);
        assert forall|i: int| 0 <= i < word_len(s) implies !white_space(#[trigger] s[i]) by {
            if i > 0 {
                assert(s[i] == rest[i - 1]);
            }
        }
    }
}

/// A text has words exactly where it is not blank.
pub proof fn blank_text_has_no_words(s: Seq<char>)
    ensures
        words(s).len() == 0 <==> blank(s),
    decreases s.len(),
{
    if s.len() > 0 {
        if white_space(s[0]) {
            let rest = s.drop_first();
            blank_text_has_no_words(rest);
            if blank(rest) {
                assert forall|i: int| 0 <= i < s.len() implies white_space(#[trigger] s[i]) by {
                    if i > 0 {
                        assert(s[i] == rest[i - 1]);
                    }
                }
            }
            if blank(s) {
                assert forall|i: int| 0 <= i < rest.len() implies white_space(
                    #[trigger] rest[i],
                ) by {
                    assert(rest[i] == s[i + 1]);
                }
            }
        } else {
            assert(!white_space(s[0]));
        }
    }
}

/// A text is blank exactly where trimming leaves nothing of it.
pub proof fn blank_text_trims_to_nothing(s: Seq<char>)
    ensures
        trimmed(s).len() == 0 <==> blank(s),
    decreases s.len(),
{
    if blank(s) {
        assert(s.take(s.len() as int) == s);
        lemma_trimmed_start(s, s.len() as int);
    } else if white_space(s[0]) {
        let rest = s.drop_first();
        if blank(rest) {
            assert forall|i: int| 0 <= i < s.len() implies white_space(#[trigger] s[i]) by {
                if i > 0 {
                    assert(s[i] == rest[i - 1]);
                }
            }
        }
        blank_text_trims_to_nothing(rest);
    } else {
        lemma_trimmed_end_keeps(s);
    }
}

proof fn lemma_trimmed_end_keeps(s: Seq<char>)
    requires
        s.len() > 0,
        !white_space(s[0]),
    ensures
        trimmed_end(s).len() > 0,
    decreases s.len(),
{
    if white_space(s.last()) {
        lemma_trimmed_end_keeps(s.drop_last());
    }
}

/// The words of a text hold no character that the text does not hold.
pub(crate) proof fn lemma_words_within(s: Seq<char>, i: int, c: char)
    requires
        0 <= i < words(s).len(),
        !s.contains(c),
    ensures
        !words(s)[i].contains(c),
    decreases s.len(),
{
    lemma_word_len(s);
    if s.len() > 0 {
        if white_space(s[0]) {
            let rest = s.drop_first();
            if rest.contains(c) {
                assert(s[rest.index_of(c) + 1] == c);
            }
            lemma_words_within(rest, i, c);
        } else {
            let n = word_len(s) as int;
            if i == 0 {
                if s.take(n).contains(c) {
                    assert(s[s.take(n).index_of(c)] == c);
                }
            } else {
                let rest = s.skip(n);
                if rest.contains(c) {
                    assert(s[rest.index_of(c) + n] == c);
                }
                lemma_words_within(rest, i - 1, c);
            }
        }
    }
}

/// Tells whether `c` is white space.
pub fn is_white_space(c: char) -> (r: bool)
    ensures
        r == white_space(c),
{
    ('\u{9}' <= c && c <= '\u{d}') || c == ' ' || c == '\u{85}' || c == '\u{a0}' || c
        == '\u{1680}' || ('\u{2000}' <= c && c <= '\u{200a}') || ('\u{2028}' <= c && c
        <= '\u{2029}') || c == '\u{202f}' || c == '\u{205f}' || c == '\u{3000}'
}

/// The characters of `s`, in order.
pub(crate) fn to_chars(s: &str) -> (r: Vec<char>)
    ensures
        r@ == s@,
{
    let mut r: Vec<char> = Vec::new();
    for c in it: s.chars()
        invariant
            it.seq() == s@,
            r@ == s@.take(it.index() as int),
    {
        r.push(c);
    }
    r
}

/// The string of the characters in `chars`, in order.
pub(crate) fn from_chars(chars: &Vec<char>) -> (r: String)
    ensures
        r@ == chars@,
{
    let mut r = String::new();
    for i in 0..chars.len()
        invariant
            r@ == chars@.take(i as int),
    {
        r.push(chars[i]);
    }
    assert(chars@.take(chars.len() as int) == chars@);
    r
}

/// Appends `tail` to `out`.
pub(crate) fn append_chars(out: &mut Vec<char>, tail: &Vec<char>)
    ensures
        final(out)@ == old(out)@ + tail@,
{
    let ghost start = out@;
    for i in 0..tail.len()
        invariant
            out@ == start + tail@.take(i as int),
    {
        out.push(tail[i]);
        assert(tail@.take(i + 1) == tail@.take(i as int).push(tail@[i as int]));
    }
    assert(tail@.take(tail.len() as int) == tail@);
}

/// Tells whether two sequences hold the same characters.
pub(crate) fn same_chars(a: &Vec<char>, b: &Vec<char>) -> (r: bool)
    ensures
        r == (a@ == b@),
{
    proof {
        if a@.len() == b@.len() {
            assert(a@.subrange(0, b@.len() as int) == a@);
        }
    }
    a.len() == b.len() && occurs_here(a, b, 0)
}

/// Tells whether `needle` stands in `hay` at position `i`.
pub(crate) fn occurs_here(hay: &Vec<char>, needle: &Vec<char>, i: usize) -> (r: bool)
    ensures
        r == occurs_at(hay@, needle@, i as int),
{
    if needle.len() > hay.len() || i > hay.len() - needle.len() {
        return false;
    }
    for k in 0..needle.len()
        invariant
            i <= hay.len() - needle.len(),
            forall|j: int| 0 <= j < k ==> hay@[i + j] == #[trigger] needle@[j],
    {
        if hay[i + k] != needle[k] {
            assert(hay@.subrange(i as int, i + needle@.len())[k as int] != needle@[k as int]);
            return false;
        }
    }
    assert(hay@.subrange(i as int, i + needle@.len()) == needle@);
    true
}

/// Tells whether `s` holds nothing but white space.
pub fn is_blank(s: &str) -> (r: bool)
    ensures
        r == blank(s@),
{
    for c in it: s.chars()
        invariant
            it.seq() == s@,
            blank(s@.take(it.index() as int)),
    {
        if !is_white_space(c) {
            assert(s@[it.index() as int] == c);
            return false;
        }
        assert forall|i: int| 0 <= i < it.index() + 1 implies white_space(
            #[trigger] s@.take(it.index() + 1)[i],
        ) by {
            if i < it.index() {
                assert(s@.take(it.index() as int)[i] == s@[i]);
            }
        }
    }
    assert(s@.take(s@.len() as int) == s@);
    true
}

proof fn lemma_trimmed_start(s: Seq<char>, i: int)
    requires
        0 <= i <= s.len(),
        blank(s.take(i)),
        i == s.len() || !white_space(s[i]),
    ensures
        trimmed_start(s) == s.skip(i),
    decreases s.len(),
{
    if i == 0 {
        assert(s.skip(0) == s);
    } else {
        assert(s.take(i)[0] == s[0]);
        let rest = s.drop_first();
        assert forall|k: int| 0 <= k < i - 1 implies white_space(#[trigger] rest.take(i - 1)[k]) by {
            assert(rest.take(i - 1)[k] == s.take(i)[k + 1]);
        }
        lemma_trimmed_start(rest, i - 1);
        assert(rest.skip(i - 1) == s.skip(i));
    }
}

proof fn lemma_trimmed_end(s: Seq<char>, i: int)
    requires
        0 <= i <= s.len(),
        blank(s.skip(i)),
        i == 0 || !white_space(s[i - 1]),
    ensures
        trimmed_end(s) == s.take(i),
    decreases s.len(),
{
    if i == s.len() {
        assert(s.take(i) == s);
    } else {
        assert(s.skip(i).last() == s.last());
        let rest = s.drop_last();
        assert forall|k: int| 0 <= k < rest.skip(i).len() implies white_space(
            #[trigger] rest.skip(i)[k],
        ) by {
            assert(rest.skip(i)[k] == s.skip(i)[k]);
        }
        lemma_trimmed_end(rest, i);
        assert(rest.take(i) == s.take(i));
    }
}

/// `s` without white space at either end.
pub(crate) fn trim_chars(s: &Vec<char>) -> (r: Vec<char>)
    ensures
        r@ == trimmed(s@),
{
    let mut start: usize = 0;
    while start < s.len() && is_white_space(s[start])
        invariant
            start <= s.len(),
            forall|k: int| 0 <= k < start ==> white_space(#[trigger] s@[k]),
        ensures
            start <= s.len(),
            forall|k: int| 0 <= k < start ==> white_space(#[trigger] s@[k]),
            start == s.len() || !white_space(s@[start as int]),
        decreases s.len() - start,
    {
        start = start + 1;
    }
    let mut end: usize = s.len();
    while end > start && is_white_space(s[end - 1])
        invariant
            start <= end <= s.len(),
            forall|k: int| end <= k < s.len() ==> white_space(#[trigger] s@[k]),
        ensures
            start <= end <= s.len(),
            forall|k: int| end <= k < s.len() ==> white_space(#[trigger] s@[k]),
            end == start || !white_space(s@[end - 1]),
        decreases end,
    {
        end = end - 1;
    }
    let mut r: Vec<char> = Vec::new();
    for i in start..end
        invariant
            start <= end <= s.len(),
            r@ == s@.subrange(start as int, i as int),
    {
        r.push(s[i]);
    }
    proof {
        lemma_trimmed_start(s@, start as int);
        let rest = s@.skip(start as int);
        assert(rest.take(end - start) == r@);
        lemma_trimmed_end(rest, end - start);
    }
    r
}

/// The words of `s`, in order.
pub(crate) fn split_words(s: &Vec<char>) -> (r: Vec<Vec<char>>)
    ensures
        views(r@) == words(s@),
{
    let mut r: Vec<Vec<char>> = Vec::new();
    let mut i: usize = 0;
    proof {
        assert(s@.skip(0) == s@);
        assert(views(r@) + words(s@) == words(s@));
    }
    while i < s.len()
        invariant
            i <= s.len(),
            views(r@) + words(s@.skip(i as int)) == words(s@),
        decreases s.len() - i,
    {
        let ghost rest = s@.skip(i as int);
        if is_white_space(s[i]) {
            i = i + 1;
            assert(rest.drop_first() == s@.skip(i as int));
        } else {
            let start: usize = i;
            let mut word: Vec<char> = Vec::new();
            proof {
                lemma_word_len(rest);
            }
            while i < s.len() && !is_white_space(s[i])
                invariant
                    start <= i <= s.len(),
                    rest == s@.skip(start as int),
                    word@ == s@.subrange(start as int, i as int),
                    i - start <= word_len(rest),
                    word_len(rest) <= rest.len(),
                    word_len(rest) < rest.len() ==> white_space(rest[word_len(rest) as int]),
                    forall|k: int| 0 <= k < word_len(rest) ==> !white_space(#[trigger] rest[k]),
                ensures
                    start <= i <= s.len(),
                    word@ == s@.subrange(start as int, i as int),
                    i - start <= word_len(rest),
                    i == s.len() || white_space(s@[i as int]),
                decreases s.len() - i,
            {
                assert(rest[i - start] == s@[i as int]);
                word.push(s[i]);
                i = i + 1;
            }
            let ghost before = r@;
            assert(i < s.len() ==> rest[i - start] == s@[i as int]);
            assert(i - start == word_len(rest));
            assert(rest.take(word_len(rest) as int) == word@);
            assert(rest.skip(word_len(rest) as int) == s@.skip(i as int));
            r.push(word);
            assert(views(r@) == views(before).push(word@));
            assert(views(r@) + words(s@.skip(i as int)) == views(before) + (seq![word@] + words(
                s@.skip(i as int),
            )));
        }
    }
    assert(words(s@.skip(i as int)) == Seq::<Seq<char>>::empty());
    assert(views(r@) == words(s@));
    r
}

/// `s` with `with` in place of each `c`.
pub(crate) fn replace_char(s: &Vec<char>, c: char, with: &Vec<char>) -> (r: Vec<char>)
    ensures
        r@ == replaced(s@, c, with@),
{
    let mut r: Vec<char> = Vec::new();
    for i in 0..s.len()
        invariant
            r@ == replaced(s@.take(i as int), c, with@),
    {
        assert(s@.take(i + 1).drop_last() == s@.take(i as int));
        if s[i] == c {
            append_chars(&mut r, with);
        } else {
            r.push(s[i]);
        }
    }
    assert(s@.take(s.len() as int) == s@);
    r
}

/// The parts in one sequence, with `sep` between each two.
pub(crate) fn join_chars(parts: &Vec<Vec<char>>, sep: char) -> (r: Vec<char>)
    ensures
        r@ == joined(views(parts@), seq![sep]),
{
    let mut r: Vec<char> = Vec::new();
    let ghost all = views(parts@);
    for i in 0..parts.len()
        invariant
            all == views(parts@),
            r@ == joined(all.take(i as int), seq![sep]),
    {
        assert(all.take(i + 1).drop_last() == all.take(i as int));
        assert(all[i as int] == parts@[i as int]@);
        if i > 0 {
            r.push(sep);
        }
        append_chars(&mut r, &parts[i]);
    }
    assert(all.take(parts.len() as int) == all);
    r
}

/// White space is what Unicode says it is: these characters and no others.
pub proof fn white_space_is_that_of_unicode(c: char)
    ensures
        white_space(c) <==> set![
            0x9u32, 0xa, 0xb, 0xc, 0xd, 0x20, 0x85, 0xa0, 0x1680, 0x2000, 0x2001, 0x2002, 0x2003,
            0x2004, 0x2005, 0x2006, 0x2007, 0x2008, 0x2009, 0x200a, 0x2028, 0x2029, 0x202f, 0x205f,
            0x3000,
        ].contains(c as u32),
{
}

/// A text stands in another at a place exactly where the other is that many characters, the text,
/// and whatever comes behind it.
pub proof fn found_text_stands_between_the_rest(hay: Seq<char>, needle: Seq<char>, i: int)
    ensures
        occurs_at(hay, needle, i) <==> exists|before: Seq<char>, behind: Seq<char>|
            hay == #[trigger] (before + needle + behind) && before.len() == i,
{
    if occurs_at(hay, needle, i) {
        let before = hay.take(i);
        let behind = hay.skip(i + needle.len());
        assert(hay =~= before + hay.subrange(i, i + needle.len()) + behind);
        assert(hay == before + needle + behind);
    }
    if exists|before: Seq<char>, behind: Seq<char>|
        hay == #[trigger] (before + needle + behind) && before.len() == i {
        let (before, behind) = choose|before: Seq<char>, behind: Seq<char>|
            hay == #[trigger] (before + needle + behind) && before.len() == i;
        assert((before + needle + behind).subrange(i, i + needle.len()) =~= needle);
    }
}

/// Trimming takes white space off both ends, and all of it: what it takes off is blank, and what it
/// leaves neither starts nor ends with white space.
pub proof fn trimming_takes_white_space_off_the_ends(s: Seq<char>)
    ensures
        exists|before: Seq<char>, behind: Seq<char>|
            s == #[trigger] (before + trimmed(s) + behind) && blank(before) && blank(behind),
        trimmed(s).len() > 0 ==> !white_space(trimmed(s)[0]) && !white_space(trimmed(s).last()),
{
    let before = lemma_trimmed_start_rest(s);
    let rest = trimmed_start(s);
    let behind = lemma_trimmed_end_rest(rest);
    assert(s =~= before + trimmed(s) + behind);
    if trimmed(s).len() > 0 {
        assert(rest[0] == trimmed(s)[0]);
    }
}

proof fn lemma_trimmed_start_rest(s: Seq<char>) -> (before: Seq<char>)
    ensures
        s == before + trimmed_start(s),
        blank(before),
        trimmed_start(s).len() > 0 ==> !white_space(trimmed_start(s)[0]),
    decreases s.len(),
{
    if s.len() > 0 && white_space(s[0]) {
        let before = lemma_trimmed_start_rest(s.drop_first());
        assert(s =~= seq![s[0]] + s.drop_first());
        assert(s =~= seq![s[0]] + before + trimmed_start(s));
        seq![s[0]] + before
    } else {
        assert(s =~= Seq::<char>::empty() + s);
        Seq::empty()
    }
}

proof fn lemma_trimmed_end_rest(s: Seq<char>) -> (behind: Seq<char>)
    ensures
        s == trimmed_end(s) + behind,
        blank(behind),
        trimmed_end(s).len() > 0 ==> !white_space(trimmed_end(s).last()),
    decreases s.len(),
{
    if s.len() > 0 && white_space(s.last()) {
        let behind = lemma_trimmed_end_rest(s.drop_last());
        assert(s =~= s.drop_last().push(s.last()));
        assert(s =~= trimmed_end(s) + behind.push(s.last()));
        behind.push(s.last())
    } else {
        assert(s =~= s + Seq::<char>::empty());
        Seq::empty()
    }
}

/// The words of a text are what stands between its white space: white space parts the words before
/// it from those behind it, a text without any is one word, and a blank text has none.
pub proof fn white_space_parts_words(a: Seq<char>, c: char, b: Seq<char>)
    ensures
        white_space(c) ==> words(a + seq![c] + b) == words(a) + words(b),
        a.len() > 0 && (forall|i: int| 0 <= i < a.len() ==> !white_space(#[trigger] a[i]))
            ==> words(a) == seq![a],
        blank(a) ==> words(a) == Seq::<Seq<char>>::empty(),
{
    if white_space(c) {
        lemma_words_parted(a, c, b);
    }
    if a.len() > 0 && (forall|i: int| 0 <= i < a.len() ==> !white_space(#[trigger] a[i])) {
        lemma_word_len(a);
        assert(word_len(a) == a.len());
        assert(a.take(a.len() as int) =~= a);
        assert(words(a.skip(a.len() as int)) =~= Seq::<Seq<char>>::empty());
        assert(words(a) =~= seq![a]);
    }
    blank_text_has_no_words(a);
}

proof fn lemma_words_parted(a: Seq<char>, c: char, b: Seq<char>)
    requires
        white_space(c),
    ensures
        words(a + seq![c] + b) == words(a) + words(b),
    decreases a.len(),
{
    let s = a + seq![c] + b;
    if a.len() == 0 {
        assert(s.drop_first() =~= b);
        assert(words(a) + words(b) =~= words(b));
    } else if white_space(a[0]) {
        assert(s.drop_first() =~= a.drop_first() + seq![c] + b);
        lemma_words_parted(a.drop_first(), c, b);
    } else {
        let n = word_len(a) as int;
        lemma_word_len(a);
        lemma_word_len(s);
        assert(word_len(s) == n) by {
            assert(n < a.len() ==> s[n] == a[n]);
            assert(n == a.len() ==> s[n] == c);
            if word_len(s) < n {
                assert(s[word_len(s) as int] == a[word_len(s) as int]);
            }
        }
        assert(s.take(n) =~= a.take(n));
        assert(s.skip(n) =~= a.skip(n) + seq![c] + b);
        lemma_words_parted(a.skip(n), c, b);
        assert(words(s) =~= words(a) + words(b));
    }
}

/// Replacing goes through a text character by character.
pub proof fn replacing_goes_by_characters(
    a: Seq<char>,
    b: Seq<char>,
    x: char,
    c: char,
    with: Seq<char>,
)
    ensures
        replaced(a + b, c, with) == replaced(a, c, with) + replaced(b, c, with),
        replaced(seq![x], c, with) == if x == c {
            with
        } else {
            seq![x]
        },
        replaced(seq![], c, with) == Seq::<char>::empty(),
{
    lemma_replaced_concat(a, b, c, with);
    lemma_replaced_one(x, c, with);
}

pub(crate) proof fn lemma_replaced_concat(a: Seq<char>, b: Seq<char>, c: char, with: Seq<char>)
    ensures
        replaced(a + b, c, with) == replaced(a, c, with) + replaced(b, c, with),
    decreases b.len(),
{
    if b.len() == 0 {
        assert(a + b == a);
        assert(replaced(b, c, with) == Seq::<char>::empty());
        assert(replaced(a, c, with) + replaced(b, c, with) == replaced(a, c, with));
    } else {
        assert((a + b).drop_last() == a + b.drop_last());
        lemma_replaced_concat(a, b.drop_last(), c, with);
        assert((a + b).last() == b.last());
        assert(replaced(a + b, c, with) =~= replaced(a, c, with) + replaced(b, c, with));
    }
}

pub(crate) proof fn lemma_replaced_one(x: char, c: char, with: Seq<char>)
    ensures
        replaced(seq![x], c, with) == if x == c {
            with
        } else {
            seq![x]
        },
{
    reveal_with_fuel(replaced, 2);
    assert(seq![x].drop_last() == Seq::<char>::empty());
    assert(Seq::<char>::empty() + with == with);
    assert(Seq::<char>::empty().push(x) == seq![x]);
}


/// `is_white_space` finds white space, and `is_blank` finds the texts of nothing else.
pub proof fn blank_texts_hold_white_space_alone(c: char, white: bool, s: &str, r: bool)
    requires
        call_ensures(is_white_space, (c,), white),
        call_ensures(is_blank, (s,), r),
    ensures
        white <==> white_space(c),
        r <==> forall|i: int| 0 <= i < s@.len() ==> white_space(#[trigger] s@[i]),
        r <==> trimmed(s@).len() == 0,
{
    blank_text_trims_to_nothing(s@);
}


} // verus!
