use vstd::prelude::*;

verus! {

/// The Unicode `White_Space` property, the set that `char::is_whitespace` tests.
pub open spec fn is_whitespace(c: char) -> bool {
    ||| ('\u{9}' <= c && c <= '\u{d}')
    ||| c == ' '
    ||| c == '\u{85}'
    ||| c == '\u{a0}'
    ||| c == '\u{1680}'
    ||| ('\u{2000}' <= c && c <= '\u{200a}')
    ||| c == '\u{2028}'
    ||| c == '\u{2029}'
    ||| c == '\u{202f}'
    ||| c == '\u{205f}'
    ||| c == '\u{3000}'
}

/// Whether `c` is white space.
pub fn char_is_whitespace(c: char) -> (r: bool)
    ensures
        r == is_whitespace(c),
{
    ('\u{9}' <= c && c <= '\u{d}') || c == ' ' || c == '\u{85}' || c == '\u{a0}' || c
        == '\u{1680}' || ('\u{2000}' <= c && c <= '\u{200a}') || c == '\u{2028}' || c == '\u{2029}'
        || c == '\u{202f}' || c == '\u{205f}' || c == '\u{3000}'
}

/// Scanning `s` from the left: the words completed so far and the word still open.
pub open spec fn split_state(s: Seq<char>) -> (Seq<Seq<char>>, Seq<char>)
    decreases s.len(),
{
    if s.len() == 0 {
        (seq![], seq![])
    } else {
        let (done, open) = split_state(s.drop_last());
        let c = s.last();
        if is_whitespace(c) {
            if open.len() > 0 {
                (done.push(open), seq![])
            } else {
                (done, open)
            }
        } else {
            (done, open.push(c))
        }
    }
}

/// The maximal runs of non-white characters of `s`, left to right.
pub open spec fn words(s: Seq<char>) -> Seq<Seq<char>> {
    let (done, open) = split_state(s);
    if open.len() > 0 {
        done.push(open)
    } else {
        done
    }
}

/// The character sequences of a list of strings.
pub open spec fn string_views(v: Seq<String>) -> Seq<Seq<char>> {
    v.map_values(|t: String| t@)
}

/// `token` added to `target`, with one space between them when `target` is not empty.
pub open spec fn appended(target: Seq<char>, token: Seq<char>) -> Seq<char> {
    if target.len() == 0 {
        token
    } else {
        target + seq![' '] + token
    }
}

/// Words added one after the other to an empty text, as `push_token` adds them.
pub open spec fn joined(ws: Seq<Seq<char>>) -> Seq<char>
    decreases ws.len(),
{
    if ws.len() == 0 {
        seq![]
    } else {
        appended(joined(ws.drop_last()), ws.last())
    }
}

/// The first index at or after `from` that holds `word`, or the length when none does.
pub open spec fn find_word(ws: Seq<Seq<char>>, from: int, word: Seq<char>) -> int
    decreases ws.len() - from,
{
    if from >= ws.len() {
        ws.len() as int
    } else if ws[from] == word {
        from
    } else {
        find_word(ws, from + 1, word)
    }
}

/// `find_word` lies between `from` and the length.
pub proof fn lemma_find_word_bounds(ws: Seq<Seq<char>>, from: int, word: Seq<char>)
    requires
        0 <= from <= ws.len(),
    ensures
        from <= find_word(ws, from, word) <= ws.len(),
    decreases ws.len() - from,
{
    if from < ws.len() && ws[from] != word {
        lemma_find_word_bounds(ws, from + 1, word);
    }
}

/// `find_word` stops at the first index that holds the word.
pub proof fn lemma_find_word_at(ws: Seq<Seq<char>>, from: int, k: int, word: Seq<char>)
    requires
        0 <= from <= k < ws.len(),
        ws[k] == word,
        forall|j: int| from <= j < k ==> #[trigger] ws[j] != word,
    ensures
        find_word(ws, from, word) == k,
    decreases k - from,
{
    if from < k {
        lemma_find_word_at(ws, from + 1, k, word);
    }
}

/// A word: at least one character, and no white space.
pub open spec fn is_word(w: Seq<char>) -> bool {
    w.len() > 0 && forall|i: int| 0 <= i < w.len() ==> !is_whitespace(#[trigger] w[i])
}

proof fn lemma_split_state_wellformed(s: Seq<char>)
    ensures
        forall|i: int| 0 <= i < split_state(s).0.len() ==> is_word(#[trigger] split_state(s).0[i]),
        forall|i: int| 0 <= i < split_state(s).1.len() ==> !is_whitespace(#[trigger] split_state(s).1[i]),
    decreases s.len(),
{
    if s.len() > 0 {
        lemma_split_state_wellformed(s.drop_last());
        let (done, open) = split_state(s.drop_last());
        let c = s.last();
        if is_whitespace(c) {
            if open.len() > 0 {
                assert(is_word(open));
                assert forall|i: int| 0 <= i < done.push(open).len() implies is_word(#[trigger] done.push(open)[i]) by {
                    if i < done.len() {
                        assert(done.push(open)[i] == done[i]);
                    }
                }
            }
        } else {
            assert forall|i: int| 0 <= i < open.push(c).len() implies !is_whitespace(#[trigger] open.push(c)[i]) by {
                if i < open.len() {
                    assert(open.push(c)[i] == open[i]);
                }
            }
        }
    }
}

/// The words of a text are non-empty and hold no white space.
pub proof fn lemma_words_are_words(s: Seq<char>)
    ensures
        forall|i: int| 0 <= i < words(s).len() ==> is_word(#[trigger] words(s)[i]),
{
    lemma_split_state_wellformed(s);
}

/// Characters without white space extend the open word.
proof fn lemma_split_state_extend(s: Seq<char>, w: Seq<char>)
    requires
        forall|i: int| 0 <= i < w.len() ==> !is_whitespace(#[trigger] w[i]),
    ensures
        split_state(s + w) == (split_state(s).0, split_state(s).1 + w),
    decreases w.len(),
{
    if w.len() == 0 {
        assert(s + w == s);
        assert(split_state(s).1 + w == split_state(s).1);
    } else {
        lemma_split_state_extend(s, w.drop_last());
        assert((s + w).drop_last() == s + w.drop_last());
        assert((s + w).last() == w.last());
        assert(split_state(s).1 + w.drop_last() + seq![w.last()] == split_state(s).1 + w);
        assert((split_state(s).1 + w.drop_last()).push(w.last()) == split_state(s).1 + w);
    }
}

proof fn lemma_split_state_of_joined(ws: Seq<Seq<char>>)
    requires
        ws.len() > 0,
        forall|i: int| 0 <= i < ws.len() ==> is_word(#[trigger] ws[i]),
    ensures
        split_state(joined(ws)) == (ws.drop_last(), ws.last()),
        joined(ws).len() > 0,
    decreases ws.len(),
{
    let w = ws.last();
    assert(is_word(ws[ws.len() - 1]));
    if ws.len() == 1 {
        assert(joined(ws.drop_last()) == Seq::<char>::empty());
        lemma_split_state_extend(Seq::<char>::empty(), w);
        assert(Seq::<char>::empty() + w == w);
        assert(split_state(Seq::<char>::empty()) == (Seq::<Seq<char>>::empty(), Seq::<char>::empty()));
        assert(ws.drop_last() == Seq::<Seq<char>>::empty());
    } else {
        let rest = ws.drop_last();
        assert forall|i: int| 0 <= i < rest.len() implies is_word(#[trigger] rest[i]) by {
            assert(rest[i] == ws[i]);
        }
        lemma_split_state_of_joined(rest);
        let j = joined(rest);
        assert(is_word(rest[rest.len() - 1]));
        let spaced = j.push(' ');
        assert(spaced.drop_last() == j);
        assert(split_state(spaced) == (rest.drop_last().push(rest.last()), Seq::<char>::empty()));
        assert(rest.drop_last().push(rest.last()) == rest);
        lemma_split_state_extend(spaced, w);
        assert(joined(ws) == j + seq![' '] + w);
        assert(j + seq![' '] == spaced);
        assert(Seq::<char>::empty() + w == w);
    }
}

/// Words joined with single spaces split back into the same words: a name or
/// value that `setoption` joins is the text those words came from.
pub proof fn lemma_words_of_joined(ws: Seq<Seq<char>>)
    requires
        forall|i: int| 0 <= i < ws.len() ==> is_word(#[trigger] ws[i]),
    ensures
        words(joined(ws)) == ws,
{
    if ws.len() == 0 {
        assert(split_state(Seq::<char>::empty()) == (Seq::<Seq<char>>::empty(), Seq::<char>::empty()));
    } else {
        lemma_split_state_of_joined(ws);
        assert(is_word(ws[ws.len() - 1]));
        assert(ws.drop_last().push(ws.last()) == ws);
    }
}

/// Appends one character to a string (`String::push`).
#[verifier::external_body]
pub(crate) fn push_char(s: &mut String, c: char)
    ensures
        final(s)@ == old(s)@.push(c),
{
    s.push(c)
}

/// Compares two string slices (`<str as PartialEq>::eq`).
#[verifier::external_body]
pub(crate) fn str_eq(a: &str, b: &str) -> (r: bool)
    ensures
        r == (a@ == b@),
{
    a == b
}

/// The characters of `s`, in order.
pub fn chars_of(s: &str) -> (r: Vec<char>)
    ensures
        r@ == s@,
{
    let mut out: Vec<char> = Vec::new();
    for c in it: s.chars()
        invariant
            out@ == it.seq().take(it.index() as int),
    {
        out.push(c);
    }
    out
}

/// Splits `line` into its words, as `str::split_whitespace` does.
pub fn split_words(line: &str) -> (r: Vec<String>)
    ensures
        string_views(r@) == words(line@),
{
    let chars = chars_of(line);
    let mut done: Vec<String> = Vec::new();
    let mut open = String::new();
    let mut i: usize = 0;
    while i < chars.len()
        invariant
            i <= chars.len(),
            chars@ == line@,
            split_state(chars@.take(i as int)) == (string_views(done@), open@),
        decreases chars.len() - i,
    {
        let c = chars[i];
        let ghost prefix = chars@.take(i + 1);
        assert(prefix.drop_last() == chars@.take(i as int));
        assert(prefix.last() == c);
        if char_is_whitespace(c) {
            if !open.as_str().is_empty() {
                let ghost before = done@;
                done.push(open);
                open = String::new();
                assert(string_views(done@) == string_views(before).push(
                    split_state(chars@.take(i as int)).1,
                ));
            }
        } else {
            push_char(&mut open, c);
        }
        i += 1;
    }
    assert(chars@.take(i as int) == line@);
    if !open.as_str().is_empty() {
        let ghost before = done@;
        done.push(open);
        assert(string_views(done@) == string_views(before).push(split_state(line@).1));
    }
    done
}

/// Adds `token` to `target`, with one space between them when `target` already holds text.
pub fn push_token(target: &mut String, token: &str)
    ensures
        final(target)@ == appended(old(target)@, token@),
{
    if !target.as_str().is_empty() {
        push_char(target, ' ');
    }
    target.append(token);
}

/// The words `tokens[from..to]` joined by `push_token`.
pub fn join_range(tokens: &Vec<String>, from: usize, to: usize) -> (r: String)
    requires
        from <= to <= tokens.len(),
    ensures
        r@ == joined(string_views(tokens@).subrange(from as int, to as int)),
{
    let mut out = String::new();
    let mut i = from;
    while i < to
        invariant
            from <= i <= to <= tokens.len(),
            out@ == joined(string_views(tokens@).subrange(from as int, i as int)),
        decreases to - i,
    {
        let ghost ws = string_views(tokens@);
        assert(ws.subrange(from as int, i + 1).drop_last() == ws.subrange(from as int, i as int));
        push_token(&mut out, tokens[i].as_str());
        i += 1;
    }
    out
}

/// The words from `from` to the end, joined by `push_token`.
pub fn join_rest(tokens: &Vec<String>, from: usize) -> (r: String)
    requires
        from <= tokens.len(),
    ensures
        r@ == joined(string_views(tokens@).subrange(from as int, tokens@.len() as int)),
{
    join_range(tokens, from, tokens.len())
}

/// The first index at or after `from` whose word is `word`, or the number of words.
pub fn find_token(tokens: &Vec<String>, from: usize, word: &str) -> (r: usize)
    requires
        from <= tokens.len(),
    ensures
        r == find_word(string_views(tokens@), from as int, word@),
        from <= r <= tokens.len(),
{
    proof { lemma_find_word_bounds(string_views(tokens@), from as int, word@); }
    let mut i = from;
    while i < tokens.len()
        invariant
            from <= i <= tokens.len(),
            find_word(string_views(tokens@), i as int, word@) == find_word(
                string_views(tokens@),
                from as int,
                word@,
            ),
        decreases tokens.len() - i,
    {
        if str_eq(tokens[i].as_str(), word) {
            return i;
        }
        i += 1;
    }
    i
}

} // verus!
