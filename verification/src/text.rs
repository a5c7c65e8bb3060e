//! Sequences of characters: splitting into words and joining with terminators.

use vstd::prelude::*;

verus! {

/// Index of the first occurrence of `x` in `s`, or `s.len()` when there is none.
pub open spec fn first_position<A>(s: Seq<A>, x: A) -> nat
    decreases s.len(),
{
    if s.len() == 0 {
        0
    } else if s[0] == x {
        0
    } else {
        1 + first_position(s.drop_first(), x)
    }
}

/// The maximal runs of non-space characters of `s`, in order: what
/// splitting on `' '` and dropping the empty pieces yields.
pub open spec fn words(s: Seq<char>) -> Seq<Seq<char>>
    decreases s.len(),
{
    if s.len() == 0 {
        seq![]
    } else {
        let k = first_position(s, ' ');
        let head: Seq<Seq<char>> = if k == 0 { seq![] } else { seq![s.take(k as int)] };
        if k < s.len() {
            head + words(s.skip(k + 1 as int))
        } else {
            head
        }
    }
}

/// Each item followed by `sep`, all concatenated.
pub open spec fn terminated(items: Seq<Seq<char>>, sep: char) -> Seq<char>
    decreases items.len(),
{
    if items.len() == 0 {
        seq![]
    } else {
        terminated(items.drop_last(), sep) + items.last() + seq![sep]
    }
}

/// `x` does not occur in `s`.
pub open spec fn free_of(s: Seq<char>, x: char) -> bool {
    forall|i: int| 0 <= i < s.len() ==> s[i] != x
}

/// A word as the list protocol carries it: not empty and free of spaces.
pub open spec fn is_word(s: Seq<char>) -> bool {
    s.len() > 0 && free_of(s, ' ')
}

pub proof fn lemma_first_position_bound<A>(s: Seq<A>, x: A)
    ensures
        first_position(s, x) <= s.len(),
        first_position(s, x) < s.len() ==> s[first_position(s, x) as int] == x,
        forall|i: int| 0 <= i < first_position(s, x) ==> s[i] != x,
    decreases s.len(),
{
    if s.len() > 0 && s[0] != x {
        lemma_first_position_bound(s.drop_first(), x);
        assert forall|i: int| 0 <= i < first_position(s, x) implies s[i] != x by {
            if i > 0 {
                assert(s[i] == s.drop_first()[i - 1]);
            }
        }
    }
}

/// The first `x` of `s` is at `j` when `s[j]` is `x` (or `j` is the end)
/// and no `x` comes before it.
pub proof fn lemma_first_position_at<A>(s: Seq<A>, x: A, j: int)
    requires
        0 <= j <= s.len(),
        j < s.len() ==> s[j] == x,
        forall|i: int| 0 <= i < j ==> s[i] != x,
    ensures
        first_position(s, x) == j,
    decreases j,
{
    if j > 0 {
        assert(s[0] != x);
        let t = s.drop_first();
        assert forall|i: int| 0 <= i < j - 1 implies t[i] != x by {
            assert(t[i] == s[i + 1]);
        }
        if j - 1 < t.len() {
            assert(t[j - 1] == s[j]);
        }
        lemma_first_position_at(t, x, j - 1);
    }
}

/// Splits `s` at a space at `j` with no space before it.
pub proof fn lemma_words_split(s: Seq<char>, j: int)
    requires
        0 <= j < s.len(),
        s[j] == ' ',
        forall|i: int| 0 <= i < j ==> s[i] != ' ',
    ensures
        words(s) == (if j == 0 { Seq::<Seq<char>>::empty() } else { seq![s.take(j)] }) + words(
            s.skip(j + 1),
        ),
{
    lemma_first_position_at(s, ' ', j);
}

/// A space-free `s` is one word, or none when it is empty.
pub proof fn lemma_words_single(s: Seq<char>)
    requires
        free_of(s, ' '),
    ensures
        words(s) == (if s.len() == 0 { Seq::<Seq<char>>::empty() } else { seq![s] }),
{
    if s.len() > 0 {
        lemma_first_position_at(s, ' ', s.len() as int);
        assert(s.take(s.len() as int) =~= s);
    }
}

/// `terminated` seen from the front.
pub proof fn lemma_terminated_front(items: Seq<Seq<char>>, sep: char)
    requires
        items.len() > 0,
    ensures
        terminated(items, sep) == items[0] + seq![sep] + terminated(items.drop_first(), sep),
    decreases items.len(),
{
    if items.len() == 1 {
        assert(items.drop_last() =~= Seq::<Seq<char>>::empty());
        assert(items.drop_first() =~= Seq::<Seq<char>>::empty());
        assert(terminated(items, sep) =~= items[0] + seq![sep]);
    } else {
        lemma_terminated_front(items.drop_last(), sep);
        assert(items.drop_last().drop_first() =~= items.drop_first().drop_last());
        assert(items.drop_first().last() == items.last());
        assert(terminated(items, sep) =~= items[0] + seq![sep] + terminated(items.drop_first(), sep));
    }
}

/// Splitting words each followed by a space gives the words back.
pub proof fn lemma_words_of_terminated(items: Seq<Seq<char>>)
    requires
        forall|i: int| 0 <= i < items.len() ==> is_word(#[trigger] items[i]),
    ensures
        words(terminated(items, ' ')) == items,
    decreases items.len(),
{
    if items.len() == 0 {
        assert(terminated(items, ' ') =~= Seq::<char>::empty());
    } else {
        let s = terminated(items, ' ');
        let w = items[0];
        let rest = items.drop_first();
        lemma_terminated_front(items, ' ');
        assert(is_word(w));
        let j = w.len() as int;
        assert(s[j] == ' ');
        assert forall|i: int| 0 <= i < j implies s[i] != ' ' by {
            assert(s[i] == w[i]);
        }
        lemma_words_split(s, j);
        assert(s.take(j) =~= w);
        assert(s.skip(j + 1) =~= terminated(rest, ' '));
        assert forall|i: int| 0 <= i < rest.len() implies is_word(#[trigger] rest[i]) by {
            assert(rest[i] == items[i + 1]);
        }
        lemma_words_of_terminated(rest);
        assert(seq![w] + rest =~= items);
    }
}

/// Splitting `a + " " + b` where `a` is a word.
pub proof fn lemma_words_prefix(a: Seq<char>, b: Seq<char>)
    requires
        is_word(a),
    ensures
        words(a + seq![' '] + b) == seq![a] + words(b),
{
    let s = a + seq![' '] + b;
    let j = a.len() as int;
    assert(s[j] == ' ');
    assert forall|i: int| 0 <= i < j implies s[i] != ' ' by {
        assert(s[i] == a[i]);
    }
    lemma_words_split(s, j);
    assert(s.take(j) =~= a);
    assert(s.skip(j + 1) =~= b);
}

/// Every piece that `words` yields is a word: not empty, without spaces.
pub proof fn law_words_are_words(s: Seq<char>)
    ensures
        forall|i: int| 0 <= i < words(s).len() ==> is_word(#[trigger] words(s)[i]),
    decreases s.len(),
{
    if s.len() > 0 {
        let k = first_position(s, ' ');
        lemma_first_position_bound(s, ' ');
        let head: Seq<Seq<char>> = if k == 0 { seq![] } else { seq![s.take(k as int)] };
        assert(forall|i: int| 0 <= i < head.len() ==> is_word(#[trigger] head[i])) by {
            if k > 0 {
                assert(is_word(s.take(k as int)));
            }
        }
        if k < s.len() {
            law_words_are_words(s.skip(k + 1 as int));
            let rest = words(s.skip(k + 1 as int));
            assert forall|i: int| 0 <= i < words(s).len() implies is_word(#[trigger] words(s)[i]) by {
                if i >= head.len() {
                    assert(words(s)[i] == rest[i - head.len()]);
                } else {
                    assert(words(s)[i] == head[i]);
                }
            }
        }
    }
}

} // verus!
