//! Tag extraction: a free-text description becomes an ordered list of
//! keywords.

use crate::text::{
    chars_of, is_whitespace, lower, lowercase, punctuation, string_of, to_lowercase, uppercase,
    whitespace,
};
use human_regex::{one_or_more, punctuation as punctuation_class};
use vstd::prelude::*;

verus! {

/// `s` without its punctuation characters.
pub open spec fn without_punctuation(s: Seq<char>) -> Seq<char> {
    s.filter(|c: char| !punctuation(c))
}

/// Length of the longest prefix of `s` that holds no white space.
pub open spec fn word_len(s: Seq<char>) -> nat
    decreases s.len(),
{
    if s.len() == 0 || whitespace(s[0]) {
        0
    } else {
        1 + word_len(s.drop_first())
    }
}

/// The words of `s`: its maximal runs of characters that are not white
/// space, from left to right.
pub open spec fn words(s: Seq<char>) -> Seq<Seq<char>>
    decreases s.len(),
    via words_terminates
{
    if s.len() == 0 {
        Seq::empty()
    } else if whitespace(s[0]) {
        words(s.drop_first())
    } else {
        let n = word_len(s) as int;
        seq![s.subrange(0, n)] + words(s.subrange(n, s.len() as int))
    }
}

#[via_fn]
proof fn words_terminates(s: Seq<char>) {
    lemma_word_len_bounds(s);
}

/// The first word's extent lies within the text, holds no white space and
/// ends at white space or at the end of the text.
pub proof fn lemma_word_len_bounds(s: Seq<char>)
    ensures
        word_len(s) <= s.len(),
        s.len() > 0 && !whitespace(s[0]) ==> word_len(s) >= 1,
        forall|i: int| 0 <= i < word_len(s) ==> !whitespace(#[trigger] s[i]),
        word_len(s) < s.len() ==> whitespace(s[word_len(s) as int]),
    decreases s.len(),
{
    if s.len() == 0 || whitespace(s[0]) {
    } else {
        let rest = s.drop_first();
        lemma_word_len_bounds(rest);
        assert forall|i: int| 0 <= i < word_len(s) implies !whitespace(#[trigger] s[i]) by {
            if i > 0 {
                assert(s[i] == rest[i - 1]);
            }
        }
        if word_len(s) < s.len() {
            assert(s[word_len(s) as int] == rest[word_len(rest) as int]);
        }
    }
}

/// A run that holds no white space and ends at white space or at the end
/// of the text is the first word's extent.
pub proof fn lemma_word_len_is(s: Seq<char>, n: int)
    requires
        0 <= n <= s.len(),
        forall|i: int| 0 <= i < n ==> !whitespace(#[trigger] s[i]),
        n < s.len() ==> whitespace(s[n]),
    ensures
        word_len(s) == n,
    decreases n,
{
    if n == 0 {
    } else {
        let rest = s.drop_first();
        assert forall|i: int| 0 <= i < n - 1 implies !whitespace(#[trigger] rest[i]) by {
            assert(rest[i] == s[i + 1]);
        }
        lemma_word_len_is(rest, n - 1);
    }
}

/// The words of `s`, in order.
pub fn split_words(s: &str) -> (found: Vec<String>)
    ensures
        found.deep_view() == words(s@),
{
    let chars = chars_of(s);
    let mut found: Vec<String> = Vec::new();
    let mut i: usize = 0;
    assert(s@.subrange(0, s@.len() as int) == s@);
    while i < chars.len()
        invariant
            i <= chars.len(),
            chars@ == s@,
            words(s@) == found.deep_view() + words(s@.subrange(i as int, s@.len() as int)),
        decreases chars.len() - i,
    {
        let ghost rest = s@.subrange(i as int, s@.len() as int);
        assert(rest[0] == s@[i as int]);
        if is_whitespace(chars[i]) {
            assert(rest.drop_first() == s@.subrange(i + 1, s@.len() as int));
            i += 1;
        } else {
            let start = i;
            while i < chars.len() && !is_whitespace(chars[i])
                invariant
                    start <= i <= chars.len(),
                    chars@ == s@,
                    forall|k: int| start <= k < i ==> !whitespace(#[trigger] s@[k]),
                decreases chars.len() - i,
            {
                i += 1;
            }
            let word = string_of(&chars, start, i);
            proof {
                let n = i - start;
                assert forall|k: int| 0 <= k < n implies !whitespace(#[trigger] rest[k]) by {
                    assert(rest[k] == s@[start + k]);
                }
                lemma_word_len_is(rest, n);
                assert(rest.subrange(0, n) == s@.subrange(start as int, i as int));
                assert(rest.subrange(n, rest.len() as int) == s@.subrange(
                    i as int,
                    s@.len() as int,
                ));
                assert(found.deep_view().push(word@) == found.deep_view() + seq![word@]);
            }
            let ghost before = found.deep_view();
            found.push(word);
            assert(found.deep_view() == before.push(word@));
        }
    }
    assert(s@.subrange(i as int, s@.len() as int).len() == 0);
    found
}

/// What `extract_tags` makes of a description: the words of the text, once
/// it is folded to lower case and rid of punctuation, that are not stop
/// words. Order and repetitions are kept.
pub open spec fn tags_of(text: Seq<char>, stop_words: Set<Seq<char>>) -> Seq<Seq<char>> {
    words(without_punctuation(lowercase(text))).filter(|w: Seq<char>| !stop_words.contains(w))
}

/// Removes the punctuation from `text` as `regex` does it for the pattern
/// that `human_regex` builds from `one_or_more(punctuation())`, which is
/// `(?:[[:punct:]])+`: every maximal run of ASCII punctuation is replaced by
/// the empty string, so exactly the characters that are not ASCII punctuation
/// stay, in their order.
#[verifier::external_body]
fn strip_punctuation(text: &str) -> (stripped: String)
    ensures
        stripped@ == without_punctuation(text@),
{
    one_or_more(punctuation_class()).to_regex().replace_all(text, "").into_owned()
}

/// The English stop words of the `stop_words` crate (`stop_words::get`), each
/// copied into a `String`. Nothing is claimed of which words these are.
#[verifier::external_body]
pub(crate) fn english_stop_words() -> (list: Vec<String>) {
    stop_words::get(stop_words::Language::English).iter().map(|word| word.to_string()).collect()
}

/// Whether `word` is one of `list`.
pub fn is_stop_word(list: &Vec<String>, word: &String) -> (found: bool)
    ensures
        found == list.deep_view().to_set().contains(word@),
{
    let mut i: usize = 0;
    while i < list.len()
        invariant
            i <= list.len(),
            forall|k: int| 0 <= k < i ==> list.deep_view()[k] != word@,
        decreases list.len() - i,
    {
        if list[i] == *word {
            assert(list.deep_view()[i as int] == word@);
            return true;
        }
        i += 1;
    }
    false
}

/// The tags of a description: see [`tags_of`].
pub fn extract_tags(text: &str, stop_words: &Vec<String>) -> (tags: Vec<String>)
    ensures
        tags.deep_view() == tags_of(text@, stop_words.deep_view().to_set()),
        forall|i: int|
            0 <= i < tags.len() ==> !stop_words.deep_view().contains(#[trigger] tags.deep_view()[i]),
{
    let folded = to_lowercase(text);
    let stripped = strip_punctuation(folded.as_str());
    let found = split_words(stripped.as_str());
    let ghost stop = stop_words.deep_view().to_set();
    let ghost keep = |w: Seq<char>| !stop.contains(w);
    let mut tags: Vec<String> = Vec::new();
    let mut i: usize = 0;
    proof {
        reveal(Seq::filter);
        assert(found.deep_view().take(0) == Seq::<Seq<char>>::empty());
    }
    while i < found.len()
        invariant
            i <= found.len(),
            stop == stop_words.deep_view().to_set(),
            keep == |w: Seq<char>| !stop.contains(w),
            tags.deep_view() == found.deep_view().take(i as int).filter(keep),
        decreases found.len() - i,
    {
        let ghost before = tags.deep_view();
        let ghost seen = found.deep_view().take(i as int);
        let ghost next = found.deep_view().take(i + 1);
        proof {
            reveal(Seq::filter);
            assert(next.drop_last() == seen);
            assert(next.last() == found[i as int]@);
        }
        if !is_stop_word(stop_words, &found[i]) {
            let word = found[i].clone();
            tags.push(word);
            assert(tags.deep_view() == before.push(found[i as int]@));
        }
        i += 1;
    }
    proof {
        assert(found.deep_view().take(found.len() as int) == found.deep_view());
        lemma_tags_exclude_stop_words(text@, stop);
        assert forall|i: int| 0 <= i < tags.len() implies !stop_words.deep_view().contains(
            #[trigger] tags.deep_view()[i],
        ) by {
            assert(!stop.contains(tags.deep_view()[i]));
        }
    }
    tags
}

/// No tag is a stop word.
pub proof fn lemma_tags_exclude_stop_words(text: Seq<char>, stop_words: Set<Seq<char>>)
    ensures
        forall|i: int|
            0 <= i < tags_of(text, stop_words).len() ==> !stop_words.contains(
                #[trigger] tags_of(text, stop_words)[i],
            ),
{
    let found = words(without_punctuation(lowercase(text)));
    let keep = |w: Seq<char>| !stop_words.contains(w);
    assert forall|i: int| 0 <= i < found.filter(keep).len() implies keep(
        #[trigger] found.filter(keep)[i],
    ) by {
        found.lemma_filter_pred(keep, i);
    }
}

/// The words `list`, written one after the other with a single space
/// between neighbours.
pub open spec fn join_words(list: Seq<Seq<char>>) -> Seq<char>
    decreases list.len(),
{
    if list.len() == 0 {
        Seq::empty()
    } else if list.len() == 1 {
        list[0]
    } else {
        list[0] + seq![' '] + join_words(list.drop_first())
    }
}

/// A word as tag extraction leaves it: not empty, and free of white space,
/// of punctuation and of ASCII capital letters.
pub open spec fn normalized_word(w: Seq<char>) -> bool {
    &&& w.len() > 0
    &&& forall|j: int|
        0 <= j < w.len() ==> !whitespace(#[trigger] w[j]) && !punctuation(w[j]) && !uppercase(w[j])
}

/// A filter keeps a sequence whole when every element passes.
proof fn lemma_filter_keeps_all<A>(s: Seq<A>, pred: spec_fn(A) -> bool)
    requires
        forall|i: int| 0 <= i < s.len() ==> pred(#[trigger] s[i]),
    ensures
        s.filter(pred) == s,
    decreases s.len(),
{
    reveal(Seq::filter);
    if s.len() > 0 {
        lemma_filter_keeps_all(s.drop_last(), pred);
        assert(s.drop_last().push(s.last()) == s);
    }
}

/// Every word of `s` is a non-empty run of characters of `s` without white
/// space.
proof fn lemma_words_are_runs(s: Seq<char>)
    ensures
        forall|i: int|
            0 <= i < words(s).len() ==> {
                &&& (#[trigger] words(s)[i]).len() > 0
                &&& forall|j: int|
                    0 <= j < words(s)[i].len() ==> !whitespace(#[trigger] words(s)[i][j])
                        && s.contains(words(s)[i][j])
            },
    decreases s.len(),
{
    if s.len() == 0 {
    } else if whitespace(s[0]) {
        let rest = s.drop_first();
        lemma_words_are_runs(rest);
        assert forall|i: int| 0 <= i < words(s).len() implies {
            &&& (#[trigger] words(s)[i]).len() > 0
            &&& forall|j: int|
                0 <= j < words(s)[i].len() ==> !whitespace(#[trigger] words(s)[i][j])
                    && s.contains(words(s)[i][j])
        } by {
            let w = words(rest)[i];
            assert forall|j: int| 0 <= j < w.len() implies s.contains(#[trigger] w[j]) by {
                let k = choose|k: int| 0 <= k < rest.len() && rest[k] == w[j];
                assert(s[k + 1] == w[j]);
            }
        }
    } else {
        lemma_word_len_bounds(s);
        let n = word_len(s) as int;
        let first = s.subrange(0, n);
        let rest = s.subrange(n, s.len() as int);
        lemma_words_are_runs(rest);
        assert forall|i: int| 0 <= i < words(s).len() implies {
            &&& (#[trigger] words(s)[i]).len() > 0
            &&& forall|j: int|
                0 <= j < words(s)[i].len() ==> !whitespace(#[trigger] words(s)[i][j])
                    && s.contains(words(s)[i][j])
        } by {
            if i == 0 {
                assert(words(s)[0] == first);
                assert forall|j: int| 0 <= j < first.len() implies !whitespace(#[trigger] first[j])
                    && s.contains(first[j]) by {
                    assert(first[j] == s[j]);
                }
            } else {
                let w = words(rest)[i - 1];
                assert(words(s)[i] == w);
                assert forall|j: int| 0 <= j < w.len() implies s.contains(#[trigger] w[j]) by {
                    let k = choose|k: int| 0 <= k < rest.len() && rest[k] == w[j];
                    assert(s[k + n] == w[j]);
                }
            }
        }
    }
}

/// Every tag is a normalized word.
pub proof fn lemma_tags_are_normalized(text: Seq<char>, stop_words: Set<Seq<char>>)
    ensures
        forall|i: int|
            0 <= i < tags_of(text, stop_words).len() ==> normalized_word(
                #[trigger] tags_of(text, stop_words)[i],
            ),
{
    let folded = lowercase(text);
    let stripped = without_punctuation(folded);
    let found = words(stripped);
    let keep = |w: Seq<char>| !stop_words.contains(w);
    let tags = found.filter(keep);
    let no_punctuation = |c: char| !punctuation(c);
    lemma_words_are_runs(stripped);
    assert forall|k: int| 0 <= k < stripped.len() implies !punctuation(#[trigger] stripped[k])
        && !uppercase(stripped[k]) by {
        folded.lemma_filter_pred(no_punctuation, k);
        assert(stripped.contains(stripped[k]));
        folded.lemma_filter_contains_rev(no_punctuation, stripped[k]);
        let m = choose|m: int| 0 <= m < folded.len() && folded[m] == stripped[k];
        assert(folded[m] == lower(text[m]));
    }
    assert forall|i: int| 0 <= i < tags.len() implies normalized_word(#[trigger] tags[i]) by {
        assert(tags.contains(tags[i]));
        found.lemma_filter_contains_rev(keep, tags[i]);
        let m = choose|m: int| 0 <= m < found.len() && found[m] == tags[i];
        let w = found[m];
        assert forall|j: int| 0 <= j < w.len() implies !whitespace(#[trigger] w[j]) && !punctuation(
            w[j],
        ) && !uppercase(w[j]) by {
            assert(stripped.contains(w[j]));
            let k = choose|k: int| 0 <= k < stripped.len() && stripped[k] == w[j];
        }
    }
}

/// The characters of joined normalized words are neither punctuation nor
/// capital letters.
proof fn lemma_join_is_plain(list: Seq<Seq<char>>)
    requires
        forall|i: int| 0 <= i < list.len() ==> normalized_word(#[trigger] list[i]),
    ensures
        forall|k: int|
            0 <= k < join_words(list).len() ==> !punctuation(#[trigger] join_words(list)[k])
                && !uppercase(join_words(list)[k]),
    decreases list.len(),
{
    if list.len() >= 2 {
        let rest = list.drop_first();
        assert forall|i: int| 0 <= i < rest.len() implies normalized_word(#[trigger] rest[i]) by {
            assert(rest[i] == list[i + 1]);
        }
        lemma_join_is_plain(rest);
        let joined = join_words(list);
        let head = list[0];
        assert(normalized_word(head));
        assert forall|k: int| 0 <= k < joined.len() implies !punctuation(#[trigger] joined[k])
            && !uppercase(joined[k]) by {
            if k < head.len() {
                assert(joined[k] == head[k]);
            } else if k == head.len() {
                assert(joined[k] == ' ');
            } else {
                assert(joined[k] == join_words(rest)[k - head.len() - 1]);
            }
        }
    } else if list.len() == 1 {
        assert(normalized_word(list[0]));
    }
}

/// Splitting joined normalized words gives the words back.
pub proof fn lemma_words_of_join(list: Seq<Seq<char>>)
    requires
        forall|i: int| 0 <= i < list.len() ==> normalized_word(#[trigger] list[i]),
    ensures
        words(join_words(list)) == list,
    decreases list.len(),
{
    let joined = join_words(list);
    if list.len() == 0 {
        assert(words(joined) =~= list);
    } else {
        let head = list[0];
        let n = head.len() as int;
        assert(normalized_word(head));
        if list.len() == 1 {
            lemma_word_len_is(joined, n);
            assert(!whitespace(joined[0]));
            assert(joined.subrange(0, n) == head);
            assert(words(joined.subrange(n, n)) == Seq::<Seq<char>>::empty());
            assert(words(joined) =~= list);
        } else {
            let rest = list.drop_first();
            assert forall|i: int| 0 <= i < rest.len() implies normalized_word(#[trigger] rest[i]) by {
                assert(rest[i] == list[i + 1]);
            }
            lemma_words_of_join(rest);
            assert forall|k: int| 0 <= k < n implies !whitespace(#[trigger] joined[k]) by {
                assert(joined[k] == head[k]);
            }
            assert(joined[n] == ' ');
            assert(!whitespace(joined[0]));
            lemma_word_len_is(joined, n);
            let tail = joined.subrange(n, joined.len() as int);
            assert(joined.subrange(0, n) == head);
            assert(tail == seq![' '] + join_words(rest));
            assert(tail[0] == ' ');
            assert(tail.drop_first() == join_words(rest));
            assert(words(tail) == rest);
            assert(words(joined) =~= list);
        }
    }
}

/// Extracting tags from the tags of a text, joined by single spaces, gives
/// the same tags again.
pub proof fn lemma_extraction_is_idempotent(text: Seq<char>, stop_words: Set<Seq<char>>)
    ensures
        tags_of(join_words(tags_of(text, stop_words)), stop_words) == tags_of(text, stop_words),
{
    let tags = tags_of(text, stop_words);
    let joined = join_words(tags);
    let keep = |w: Seq<char>| !stop_words.contains(w);
    let no_punctuation = |c: char| !punctuation(c);
    lemma_tags_are_normalized(text, stop_words);
    lemma_tags_exclude_stop_words(text, stop_words);
    lemma_join_is_plain(tags);
    assert(lowercase(joined) =~= joined);
    lemma_filter_keeps_all(joined, no_punctuation);
    lemma_words_of_join(tags);
    lemma_filter_keeps_all(tags, keep);
}

} // verus!
