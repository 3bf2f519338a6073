//! The pattern that a file search hands to the system's metadata query, and what it matches.
use vstd::prelude::*;

use crate::text::{
    append_chars, blank, blank_text_has_no_words, from_chars, join_chars, joined,
    lemma_replaced_concat, lemma_replaced_one, lemma_words_within, occurs_at, replace_char,
    replaced, split_words, to_chars, views, white_space, white_space_parts_words, words,
};

verus! {

/// `token` with a backslash before each wildcard, so that it stands for itself in a pattern.
pub open spec fn escaped(token: Seq<char>) -> Seq<char> {
    replaced(replaced(token, '*', seq!['\\', '*']), '?', seq!['\\', '?'])
}

/// The tokens, each escaped.
pub open spec fn all_escaped(tokens: Seq<Seq<char>>) -> Seq<Seq<char>> {
    tokens.map_values(|token: Seq<char>| escaped(token))
}

/// The pattern of a search: its words in order, anything before, between and behind them.
pub open spec fn search_pattern(search: Seq<char>) -> Seq<char> {
    seq!['*'] + joined(all_escaped(words(search)), seq!['*']) + seq!['*']
}

/// `dir` with the home directory in place of each tilde.
pub open spec fn expanded(dir: Seq<char>, home: Seq<char>) -> Seq<char> {
    replaced(dir, '~', home)
}

/// What a metadata query is set up with.
#[derive(Debug)]
pub struct MetadataSearch {
    /// What the names of the files have to match.
    pub pattern: String,
    /// The directories that are searched.
    pub scopes: Vec<String>,
}

/// `token` with a backslash before each wildcard.
fn escape(token: &Vec<char>) -> (r: Vec<char>)
    ensures
        r@ == escaped(token@),
{
    let star = vec!['\\', '*'];
    let mark = vec!['\\', '?'];
    assert(star@ == seq!['\\', '*']);
    assert(mark@ == seq!['\\', '?']);
    replace_char(&replace_char(token, '*', &star), '?', &mark)
}

/// The pattern of the search for `search_text`.
pub fn metadata_pattern(search_text: &str) -> (r: String)
    requires
        !blank(search_text@),
    ensures
        r@ == search_pattern(search_text@),
{
    let found = split_words(&to_chars(search_text));
    let mut tokens: Vec<Vec<char>> = Vec::new();
    for i in 0..found.len()
        invariant
            views(tokens@) == all_escaped(views(found@)).take(i as int),
    {
        let ghost before = tokens@;
        let token = escape(&found[i]);
        assert(all_escaped(views(found@))[i as int] == token@);
        tokens.push(token);
        assert(views(tokens@) == views(before).push(token@));
    }
    assert(views(tokens@) == all_escaped(views(found@)));
    let mut pattern: Vec<char> = Vec::new();
    pattern.push('*');
    append_chars(&mut pattern, &join_chars(&tokens, '*'));
    pattern.push('*');
    assert(pattern@ == search_pattern(search_text@));
    from_chars(&pattern)
}

/// The directories in `dirs`, each with `home_dir` in place of a tilde.
pub fn search_scopes(dirs: &Vec<String>, home_dir: &str) -> (r: Vec<String>)
    ensures
        r.len() == dirs.len(),
        forall|i: int|
            0 <= i < r.len() ==> (#[trigger] r@[i])@ == expanded(dirs@[i]@, home_dir@),
{
    let home = to_chars(home_dir);
    let mut r: Vec<String> = Vec::new();
    for i in 0..dirs.len()
        invariant
            home@ == home_dir@,
            r.len() == i,
            forall|j: int| 0 <= j < i ==> (#[trigger] r@[j])@ == expanded(dirs@[j]@, home_dir@),
    {
        let dir = to_chars(dirs[i].as_str());
        r.push(from_chars(&replace_char(&dir, '~', &home)));
    }
    r
}

/// `search` looks for `search_text` in `dirs`, for the user whose home directory is `home`.
pub open spec fn configures(
    search: MetadataSearch,
    search_text: Seq<char>,
    dirs: Seq<String>,
    home: Seq<char>,
) -> bool {
    &&& search.pattern@ == search_pattern(search_text)
    &&& search.scopes@.len() == dirs.len()
    &&& forall|i: int|
        0 <= i < dirs.len() ==> (#[trigger] search.scopes@[i])@ == expanded(dirs[i]@, home)
}

/// What a metadata query for `search_text` in `dirs` is set up with.
pub fn configure_metadata_query(
    search_text: &str,
    dirs: &Vec<String>,
    home_dir: &str,
) -> (r: MetadataSearch)
    requires
        !blank(search_text@),
        home_dir@.len() > 0,
    ensures
        configures(r, search_text@, dirs@, home_dir@),
{
    MetadataSearch {
        pattern: metadata_pattern(search_text),
        scopes: search_scopes(dirs, home_dir),
    }
}

/// `name` matches `pattern`: `*` stands for any characters, `?` for one, and a character behind a
/// backslash for itself, as every other character does. Characters are compared exactly here; the
/// system's query also takes letters for equal that differ only in case or in diacritics.
pub open spec fn like(pattern: Seq<char>, name: Seq<char>) -> bool
    decreases pattern.len(), name.len(),
{
    if pattern.len() == 0 {
        name.len() == 0
    } else if pattern[0] == '*' {
        like(pattern.drop_first(), name) || (name.len() > 0 && like(pattern, name.drop_first()))
    } else if pattern[0] == '?' {
        name.len() > 0 && like(pattern.drop_first(), name.drop_first())
    } else if pattern[0] == '\\' && pattern.len() > 1 {
        name.len() > 0 && name[0] == pattern[1] && like(pattern.skip(2), name.drop_first())
    } else {
        name.len() > 0 && name[0] == pattern[0] && like(pattern.drop_first(), name.drop_first())
    }
}

/// The tokens stand in `name` one behind the other, without overlap.
pub open spec fn in_order(tokens: Seq<Seq<char>>, name: Seq<char>) -> bool
    decreases tokens.len(),
{
    tokens.len() == 0 || exists|i: int| #[trigger]
        occurs_at(name, tokens[0], i) && in_order(
            tokens.drop_first(),
            name.skip(i + tokens[0].len()),
        )
}

/// One character of a token, escaped.
spec fn escaped_one(x: char) -> Seq<char> {
    if x == '*' || x == '?' {
        seq!['\\', x]
    } else {
        seq![x]
    }
}

proof fn lemma_escaped_front(token: Seq<char>)
    requires
        token.len() > 0,
    ensures
        escaped(token) == escaped_one(token[0]) + escaped(token.drop_first()),
{
    let x = token[0];
    let rest = token.drop_first();
    let star = seq!['\\', '*'];
    let mark = seq!['\\', '?'];
    assert(token == seq![x] + rest);
    lemma_replaced_concat(seq![x], rest, '*', star);
    lemma_replaced_one(x, '*', star);
    let head = replaced(seq![x], '*', star);
    lemma_replaced_concat(head, replaced(rest, '*', star), '?', mark);
    lemma_replaced_one(x, '?', mark);
    if x == '*' {
        assert(star == seq!['\\'] + seq!['*']);
        lemma_replaced_concat(seq!['\\'], seq!['*'], '?', mark);
        lemma_replaced_one('\\', '?', mark);
        lemma_replaced_one('*', '?', mark);
    }
}

/// An escaped token without a backslash matches itself alone.
proof fn lemma_like_token(token: Seq<char>, rest: Seq<char>, name: Seq<char>)
    requires
        !token.contains('\\'),
    ensures
        like(escaped(token) + rest, name) <==> occurs_at(name, token, 0) && like(
            rest,
            name.skip(token.len() as int),
        ),
    decreases token.len(),
{
    if token.len() == 0 {
        assert(escaped(token) == Seq::<char>::empty()) by {
            reveal_with_fuel(replaced, 1);
        }
        assert(escaped(token) + rest == rest);
        assert(name.skip(0) == name);
        assert(name.subrange(0, 0) == token);
    } else {
        let x = token[0];
        let tail = token.drop_first();
        let pattern = escaped(token) + rest;
        assert(x != '\\') by {
            assert(token.contains(token[0]));
        }
        assert(!tail.contains('\\')) by {
            if tail.contains('\\') {
                assert(token[tail.index_of('\\') + 1] == '\\');
            }
        }
        lemma_escaped_front(token);
        assert(pattern == escaped_one(x) + (escaped(tail) + rest));
        if name.len() > 0 {
            lemma_like_token(tail, rest, name.drop_first());
            if token.len() <= name.len() {
                assert(name.drop_first().skip(tail.len() as int) == name.skip(token.len() as int));
            }
            if occurs_at(name, token, 0) {
                assert(name[0] == name.subrange(0, token.len() as int)[0]);
                assert(name.drop_first().subrange(0, tail.len() as int) == name.subrange(
                    0,
                    token.len() as int,
                ).drop_first());
            }
            if name[0] == x && occurs_at(name.drop_first(), tail, 0) {
                assert(name.subrange(0, token.len() as int) =~= seq![x] + name.drop_first().subrange(
                    0,
                    tail.len() as int,
                ));
                assert(token =~= seq![x] + tail);
            }
        }
        if x == '*' || x == '?' {
            assert(pattern.skip(2) == escaped(tail) + rest);
        } else {
            assert(pattern.drop_first() == escaped(tail) + rest);
        }
    }
}

/// A star matches as many characters as the rest of the pattern needs it to.
proof fn lemma_like_star(rest: Seq<char>, name: Seq<char>)
    ensures
        like(seq!['*'] + rest, name) <==> exists|i: int|
            0 <= i <= name.len() && like(rest, #[trigger] name.skip(i)),
    decreases name.len(),
{
    let pattern = seq!['*'] + rest;
    assert(pattern.drop_first() == rest);
    assert(name.skip(0) == name);
    if name.len() > 0 {
        let tail = name.drop_first();
        lemma_like_star(rest, tail);
        assert(forall|i: int|
            0 <= i <= tail.len() ==> #[trigger] tail.skip(i) == name.skip(i + 1));
        if like(pattern, tail) {
            let i = choose|i: int| 0 <= i <= tail.len() && like(rest, #[trigger] tail.skip(i));
            assert(like(rest, name.skip(i + 1)));
        }
        if exists|i: int| 0 <= i <= name.len() && like(rest, #[trigger] name.skip(i)) {
            let i = choose|i: int| 0 <= i <= name.len() && like(rest, #[trigger] name.skip(i));
            if i > 0 {
                assert(like(rest, tail.skip(i - 1)));
            }
        }
    }
}

/// The pattern of the tokens, read from the front.
spec fn tokens_pattern(tokens: Seq<Seq<char>>) -> Seq<char>
    decreases tokens.len(),
{
    if tokens.len() == 0 {
        seq!['*']
    } else {
        seq!['*'] + (escaped(tokens[0]) + tokens_pattern(tokens.drop_first()))
    }
}

proof fn lemma_tokens_pattern_back(tokens: Seq<Seq<char>>)
    requires
        tokens.len() > 0,
    ensures
        tokens_pattern(tokens) == tokens_pattern(tokens.drop_last()) + escaped(tokens.last())
            + seq!['*'],
    decreases tokens.len(),
{
    if tokens.len() == 1 {
        assert(tokens.drop_first() == Seq::<Seq<char>>::empty());
        assert(tokens.drop_last() == Seq::<Seq<char>>::empty());
        assert(tokens_pattern(tokens.drop_first()) == seq!['*']);
        assert(tokens_pattern(tokens.drop_last()) == seq!['*']);
        assert(tokens[0] == tokens.last());
        assert(tokens_pattern(tokens) =~= seq!['*'] + escaped(tokens.last()) + seq!['*']);
    } else {
        let rest = tokens.drop_first();
        lemma_tokens_pattern_back(rest);
        assert(rest.drop_last() == tokens.drop_last().drop_first());
        assert(tokens_pattern(tokens) =~= tokens_pattern(tokens.drop_last()) + escaped(
            tokens.last(),
        ) + seq!['*']);
    }
}

proof fn lemma_tokens_pattern(tokens: Seq<Seq<char>>)
    requires
        tokens.len() > 0,
    ensures
        tokens_pattern(tokens) == seq!['*'] + joined(all_escaped(tokens), seq!['*']) + seq!['*'],
    decreases tokens.len(),
{
    lemma_tokens_pattern_back(tokens);
    let parts = all_escaped(tokens);
    if tokens.len() == 1 {
        assert(tokens.drop_last() == Seq::<Seq<char>>::empty());
    } else {
        lemma_tokens_pattern(tokens.drop_last());
        assert(parts.drop_last() == all_escaped(tokens.drop_last()));
        assert(tokens_pattern(tokens) =~= seq!['*'] + joined(parts, seq!['*']) + seq!['*']);
    }
}

proof fn lemma_like_tokens(tokens: Seq<Seq<char>>, name: Seq<char>)
    requires
        forall|i: int| 0 <= i < tokens.len() ==> !(#[trigger] tokens[i]).contains('\\'),
    ensures
        like(tokens_pattern(tokens), name) <==> in_order(tokens, name),
    decreases tokens.len(),
{
    if tokens.len() == 0 {
        lemma_like_star(seq![], name);
        assert(seq!['*'] + Seq::<char>::empty() == seq!['*']);
        assert(name.skip(name.len() as int) == Seq::<char>::empty());
        assert(like(seq![], name.skip(name.len() as int)));
    } else {
        let token = tokens[0];
        let rest = tokens.drop_first();
        let tail = escaped(token) + tokens_pattern(rest);
        lemma_like_star(tail, name);
        assert forall|i: int| 0 <= i <= name.len() implies (like(tail, #[trigger] name.skip(i))
            <==> occurs_at(name, token, i) && in_order(rest, name.skip(i + token.len()))) by {
            lemma_like_token(token, tokens_pattern(rest), name.skip(i));
            if i + token.len() <= name.len() {
                assert(name.skip(i).skip(token.len() as int) == name.skip(i + token.len()));
                assert(name.skip(i).subrange(0, token.len() as int) == name.subrange(
                    i,
                    i + token.len(),
                ));
                lemma_like_tokens(rest, name.skip(i + token.len()));
            }
        }
        if in_order(tokens, name) {
            let i = choose|i: int| #[trigger]
                occurs_at(name, token, i) && in_order(rest, name.skip(i + token.len()));
            assert(like(tail, name.skip(i)));
        }
    }
}

/// The words of a search without a backslash, put into a pattern, match the names that hold them
/// one behind the other, and no others, where characters are compared exactly. The system's query
/// also finds names that differ from these only in case or in diacritics.
pub proof fn search_pattern_matches_words_in_order(search: Seq<char>, name: Seq<char>)
    requires
        !blank(search),
        !search.contains('\\'),
    ensures
        like(search_pattern(search), name) <==> in_order(words(search), name),
{
    let tokens = words(search);
    blank_text_has_no_words(search);
    lemma_tokens_pattern(tokens);
    assert forall|i: int| 0 <= i < tokens.len() implies !(#[trigger] tokens[i]).contains('\\') by {
        lemma_words_within(search, i, '\\');
    }
    lemma_like_tokens(tokens, name);
}

/// A directory without a tilde is searched as it is.
pub proof fn plain_directories_stay(dir: Seq<char>, home: Seq<char>)
    requires
        !dir.contains('~'),
    ensures
        expanded(dir, home) == dir,
    decreases dir.len(),
{
    if dir.len() > 0 {
        let rest = dir.drop_last();
        if rest.contains('~') {
            assert(dir[rest.index_of('~')] == '~');
        }
        plain_directories_stay(rest, home);
        assert(dir.contains(dir.last()));
        assert(dir =~= rest.push(dir.last()));
    } else {
        assert(expanded(dir, home) =~= dir);
    }
}

/// Each tilde of a directory becomes the home directory, and what stands before and behind it is
/// treated alike.
pub proof fn tildes_become_the_home_directory(a: Seq<char>, b: Seq<char>, home: Seq<char>)
    ensures
        expanded(a + seq!['~'] + b, home) == expanded(a, home) + home + expanded(b, home),
{
    lemma_replaced_concat(a + seq!['~'], b, '~', home);
    lemma_replaced_concat(a, seq!['~'], '~', home);
    lemma_replaced_one('~', '~', home);
}

/// In a pattern each wildcard of a word gets a backslash before it, and nothing else does.
pub proof fn wildcards_get_a_backslash(a: Seq<char>, b: Seq<char>, x: char)
    ensures
        escaped(a + b) == escaped(a) + escaped(b),
        escaped(seq![x]) == if x == '*' || x == '?' {
            seq!['\\', x]
        } else {
            seq![x]
        },
        escaped(seq![]) == Seq::<char>::empty(),
{
    let star = seq!['\\', '*'];
    let mark = seq!['\\', '?'];
    lemma_replaced_concat(a, b, '*', star);
    lemma_replaced_concat(replaced(a, '*', star), replaced(b, '*', star), '?', mark);
    lemma_escaped_front(seq![x]);
    assert(seq![x].drop_first() =~= Seq::<char>::empty());
    assert(escaped(seq![]) =~= Seq::<char>::empty()) by {
        reveal_with_fuel(replaced, 1);
    }
    assert(escaped_one(x) + Seq::<char>::empty() =~= escaped_one(x));
}

/// A pattern is made of the words of the search, in order. The pattern of one word is that word
/// between stars, and where white space parts a search, the patterns of its two parts stand one
/// behind the other and share the star between them.
pub proof fn patterns_hold_the_words_in_order(a: Seq<char>, c: char, b: Seq<char>)
    requires
        !blank(a),
        !blank(b),
    ensures
        white_space(c) ==> search_pattern(a + seq![c] + b) == search_pattern(a)
            + search_pattern(b).drop_first(),
        white_space(c) ==> search_pattern(seq![c] + b) == search_pattern(b)
            && search_pattern(b + seq![c]) == search_pattern(b),
        (forall|i: int| 0 <= i < a.len() ==> !white_space(#[trigger] a[i])) ==> search_pattern(a)
            == seq!['*'] + escaped(a) + seq!['*'],
{
    blank_text_has_no_words(a);
    blank_text_has_no_words(b);
    white_space_parts_words(a, c, b);
    if white_space(c) {
        lemma_tokens_pattern(words(a));
        lemma_tokens_pattern(words(b));
        lemma_tokens_pattern(words(a) + words(b));
        lemma_tokens_pattern_parted(words(a), words(b));
        white_space_parts_words(seq![], c, b);
        white_space_parts_words(b, c, seq![]);
        assert(Seq::<char>::empty() + seq![c] + b =~= seq![c] + b);
        assert(b + seq![c] + Seq::<char>::empty() =~= b + seq![c]);
        assert(Seq::<Seq<char>>::empty() + words(b) =~= words(b));
        assert(words(b) + Seq::<Seq<char>>::empty() =~= words(b));
    }
    if forall|i: int| 0 <= i < a.len() ==> !white_space(#[trigger] a[i]) {
        assert(all_escaped(seq![a]) =~= seq![escaped(a)]);
    }
}

proof fn lemma_tokens_pattern_parted(first: Seq<Seq<char>>, second: Seq<Seq<char>>)
    ensures
        tokens_pattern(first + second) == tokens_pattern(first)
            + tokens_pattern(second).drop_first(),
    decreases first.len(),
{
    let all = first + second;
    if first.len() == 0 {
        assert(all =~= second);
        assert(tokens_pattern(second) =~= seq!['*'] + tokens_pattern(second).drop_first());
    } else {
        lemma_tokens_pattern_parted(first.drop_first(), second);
        assert(all.drop_first() =~= first.drop_first() + second);
        assert(tokens_pattern(all) =~= tokens_pattern(first)
            + tokens_pattern(second).drop_first());
    }
}

/// What a metadata query is set up with comes from what is searched: the pattern from the text, and
/// the directories from `dirs`, one for each and in order, with the home directory where a tilde
/// stands.
pub proof fn a_query_is_set_up_from_the_search(
    search_text: &str,
    dirs: &Vec<String>,
    home_dir: &str,
    r: MetadataSearch,
)
    requires
        call_ensures(configure_metadata_query, (search_text, dirs, home_dir), r),
    ensures
        r.pattern@ == search_pattern(search_text@),
        r.scopes@.len() == dirs@.len(),
        forall|i: int|
            0 <= i < dirs@.len() ==> (#[trigger] r.scopes@[i])@ == expanded(
                dirs@[i]@,
                home_dir@,
            ),
        forall|i: int|
            0 <= i < dirs@.len() && !dirs@[i]@.contains('~') ==> (#[trigger] r.scopes@[i])@
                == dirs@[i]@,
        forall|i: int, a: Seq<char>, b: Seq<char>|
            0 <= i < dirs@.len() && dirs@[i]@ == a + seq!['~'] + b && !a.contains('~')
                && !b.contains('~') ==> (#[trigger] r.scopes@[i])@ == #[trigger] (a + home_dir@
                + b),
{
    a_search_looks_in_its_directories(r, search_text@, dirs@, home_dir@);
}

/// A search that is set up for `dirs` looks in these directories and no others, one for each and in
/// order, with the home directory where a tilde stands.
pub proof fn a_search_looks_in_its_directories(
    search: MetadataSearch,
    search_text: Seq<char>,
    dirs: Seq<String>,
    home: Seq<char>,
)
    requires
        configures(search, search_text, dirs, home),
    ensures
        search.pattern@ == search_pattern(search_text),
        search.scopes@.len() == dirs.len(),
        forall|i: int|
            0 <= i < dirs.len() ==> (#[trigger] search.scopes@[i])@ == expanded(dirs[i]@, home),
        forall|i: int|
            0 <= i < dirs.len() && !dirs[i]@.contains('~') ==> (#[trigger] search.scopes@[i])@
                == dirs[i]@,
        forall|i: int, a: Seq<char>, b: Seq<char>|
            0 <= i < dirs.len() && dirs[i]@ == a + seq!['~'] + b && !a.contains('~')
                && !b.contains('~') ==> (#[trigger] search.scopes@[i])@ == #[trigger] (a + home
                + b),
{
    assert forall|i: int|
        0 <= i < dirs.len() && !dirs[i]@.contains('~') implies (#[trigger] search.scopes@[i])@
        == dirs[i]@ by {
        plain_directories_stay(dirs[i]@, home);
    }
    assert forall|i: int, a: Seq<char>, b: Seq<char>|
        0 <= i < dirs.len() && dirs[i]@ == a + seq!['~'] + b && !a.contains('~') && !b.contains(
            '~',
        ) implies (#[trigger] search.scopes@[i])@ == #[trigger] (a + home + b) by {
        tildes_become_the_home_directory(a, b, home);
        plain_directories_stay(a, home);
        plain_directories_stay(b, home);
    }
}

/// `metadata_pattern` and `search_scopes` give what a metadata query is set up with.
pub proof fn patterns_and_scopes_make_up_a_search(
    search_text: &str,
    dirs: &Vec<String>,
    home_dir: &str,
    pattern: String,
    scopes: Vec<String>,
)
    requires
        call_ensures(metadata_pattern, (search_text,), pattern),
        call_ensures(search_scopes, (dirs, home_dir), scopes),
    ensures
        configures((MetadataSearch { pattern, scopes }), search_text@, dirs@, home_dir@),
{
}

/// Every text with some word can be searched for, in any directories, once there is a home
/// directory.
pub proof fn every_text_with_a_word_can_be_searched(
    search_text: &str,
    dirs: &Vec<String>,
    home_dir: &str,
)
    requires
        words(search_text@).len() > 0,
    ensures
        call_requires(metadata_pattern, (search_text,)),
        call_requires(search_scopes, (dirs, home_dir)),
        home_dir@.len() > 0 ==> call_requires(
            configure_metadata_query,
            (search_text, dirs, home_dir),
        ),
{
    blank_text_has_no_words(search_text@);
}


} // verus!
