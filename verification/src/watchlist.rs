//! The watch-list protocol: the text exchanged with the list service and the
//! edits made to a list.

use vstd::prelude::*;
use vstd::multiset::Multiset;
use vstd::string::*;

use crate::text::{first_position, lemma_first_position_at, lemma_first_position_bound, is_word, lemma_words_of_terminated, lemma_words_prefix, lemma_words_single, lemma_words_split, terminated, words};

verus! {

/// What the list service's answer to a `GET` request means: no list when the
/// answer is empty, else the space-separated symbols of the answer.
pub open spec fn spec_parse_list_response(s: Seq<char>) -> Option<Seq<Seq<char>>> {
    if s.len() == 0 {
        None
    } else {
        Some(words(s))
    }
}

/// Reads the list service's answer: `None` for an empty answer, else the
/// symbols it names, split on spaces with empty pieces dropped.
pub fn parse_list_response(s: &str) -> (r: Option<Vec<String>>)
    ensures
        r matches Some(v) ==> spec_parse_list_response(s@) == Some(v.deep_view()),
        r is None ==> spec_parse_list_response(s@) is None,
{
    let n = s.unicode_len();
    if n == 0 {
        return None;
    }
    let mut out: Vec<String> = Vec::new();
    let mut start: usize = 0;
    let mut i: usize = 0;
    assert(s@.skip(0) =~= s@);
    assert(out.deep_view() =~= Seq::<Seq<char>>::empty());
    while i < n
        invariant
            n == s@.len(),
            start <= i <= n,
            forall|k: int| start <= k < i ==> s@[k] != ' ',
            words(s@) == out.deep_view() + words(s@.skip(start as int)),
        decreases n - i,
    {
        let c = s.get_char(i);
        if c == ' ' {
            let ghost t = s@.skip(start as int);
            proof {
                assert forall|k: int| 0 <= k < i - start implies t[k] != ' ' by {
                    assert(t[k] == s@[start + k]);
                }
                lemma_words_split(t, i - start);
                assert(t.skip(i - start + 1) =~= s@.skip(i + 1));
                assert(t.take(i - start) =~= s@.subrange(start as int, i as int));
            }
            if start < i {
                let piece = s.substring_char(start, i).to_owned();
                let ghost before = out.deep_view();
                out.push(piece);
                assert(out.deep_view() =~= before.push(piece@));
            } else {
                assert(Seq::<Seq<char>>::empty() + words(t.skip(1)) =~= words(t.skip(1)));
            }
            start = i + 1;
        }
        i = i + 1;
    }
    let ghost t = s@.skip(start as int);
    proof {
        assert forall|k: int| 0 <= k < t.len() implies t[k] != ' ' by {
            assert(t[k] == s@[start + k]);
        }
        lemma_words_single(t);
    }
    if start < n {
        let piece = s.substring_char(start, n).to_owned();
        assert(piece@ =~= t);
        let ghost before = out.deep_view();
        out.push(piece);
        assert(out.deep_view() =~= before.push(piece@));
    } else {
        assert(out.deep_view() + Seq::<Seq<char>>::empty() =~= out.deep_view());
    }
    Some(out)
}


/// Appends each of `items` followed by the one-character separator `sep`.
pub fn append_terminated(out: &mut String, items: &Vec<String>, sep: &str)
    requires
        sep@.len() == 1,
    ensures
        final(out)@ == old(out)@ + terminated(items.deep_view(), sep@[0]),
{
    let ghost start = out@;
    let ghost all = items.deep_view();
    let mut i: usize = 0;
    assert(all.take(0) =~= Seq::<Seq<char>>::empty());
    assert(start + Seq::<char>::empty() =~= start);
    while i < items.len()
        invariant
            i <= items.len(),
            all == items.deep_view(),
            sep@.len() == 1,
            out@ == start + terminated(all.take(i as int), sep@[0]),
        decreases items.len() - i,
    {
        out.append(items[i].as_str());
        out.append(sep);
        proof {
            assert(all.take(i + 1).drop_last() =~= all.take(i as int));
            assert(all.take(i + 1).last() == items[i as int]@);
            assert(sep@ =~= seq![sep@[0]]);
        }
        assert(out@ =~= start + terminated(all.take(i + 1), sep@[0]));
        i = i + 1;
    }
    assert(all.take(items.len() as int) =~= all);
}

/// The text of the request that adds symbols to a list: `"POST "`, the list's
/// name, a space, then each symbol followed by a space.
pub open spec fn spec_post_request(name: Seq<char>, symbols: Seq<Seq<char>>) -> Seq<char> {
    "POST "@ + name + " "@ + terminated(symbols, ' ')
}

/// The text of the request that asks for a list: `"GET "` and the list's name.
pub open spec fn spec_get_request(name: Seq<char>) -> Seq<char> {
    "GET "@ + name
}

/// Builds the request that appends `symbols` to the list `name`.
pub fn post_request(symbols: &Vec<String>, name: &str) -> (r: String)
    ensures
        r@ == spec_post_request(name@, symbols.deep_view()),
{
    let mut message = "POST ".to_owned();
    message.append(name);
    message.append(" ");
    proof {
        reveal_strlit(" ");
    }
    append_terminated(&mut message, symbols, " ");
    message
}

/// The text of the request that makes the list `name` hold exactly
/// `symbols`: `"PUT "`, the name, a space, then each symbol followed by a
/// space. With no symbols it creates (or empties) the list.
pub open spec fn spec_put_request(name: Seq<char>, symbols: Seq<Seq<char>>) -> Seq<char> {
    "PUT "@ + name + " "@ + terminated(symbols, ' ')
}

/// The text of the request that deletes the list `name`: `"DELETE "` and
/// the name.
pub open spec fn spec_delete_request(name: Seq<char>) -> Seq<char> {
    "DELETE "@ + name
}

/// Builds the request that makes the list `name` hold exactly `symbols`.
pub fn put_request(symbols: &Vec<String>, name: &str) -> (r: String)
    ensures
        r@ == spec_put_request(name@, symbols.deep_view()),
{
    let mut message = "PUT ".to_owned();
    message.append(name);
    message.append(" ");
    proof {
        reveal_strlit(" ");
    }
    append_terminated(&mut message, symbols, " ");
    message
}

/// Builds the request that deletes the list `name`.
pub fn delete_request(name: &str) -> (r: String)
    ensures
        r@ == spec_delete_request(name@),
{
    let mut message = "DELETE ".to_owned();
    message.append(name);
    message
}

/// Builds the request that reads the list `name`.
pub fn get_request(name: &str) -> (r: String)
    ensures
        r@ == spec_get_request(name@),
{
    let mut message = "GET ".to_owned();
    message.append(name);
    message
}

/// The text of a list as the list file holds it: each symbol followed by a tab.
pub open spec fn spec_list_file_text(symbols: Seq<Seq<char>>) -> Seq<char> {
    terminated(symbols, '\t')
}

/// Writes a list in the list-file form: each symbol followed by a tab.
pub fn list_file_text(symbols: &Vec<String>) -> (r: String)
    ensures
        r@ == spec_list_file_text(symbols.deep_view()),
{
    let mut out = String::new();
    proof {
        reveal_strlit("\t");
    }
    append_terminated(&mut out, symbols, "\t");
    assert(out@ =~= terminated(symbols.deep_view(), '\t'));
    out
}

/// `l` with its first occurrence of `x` taken out the way `Vec::swap_remove`
/// does it (the last item moves into the gap); `l` itself when `x` is absent.
pub open spec fn remove_first<A>(l: Seq<A>, x: A) -> Seq<A> {
    let k = first_position(l, x);
    if k < l.len() {
        l.update(k as int, l.last()).drop_last()
    } else {
        l
    }
}

/// `l` after taking out each of `xs` in turn with `remove_first`.
pub open spec fn remove_each<A>(l: Seq<A>, xs: Seq<A>) -> Seq<A>
    decreases xs.len(),
{
    if xs.len() == 0 {
        l
    } else {
        remove_first(remove_each(l, xs.drop_last()), xs.last())
    }
}

/// Takes the first occurrence of `symbol` out of `list`, moving the last
/// symbol into its place; leaves `list` alone when `symbol` is not in it.
pub fn remove_symbol(list: &mut Vec<String>, symbol: &String)
    ensures
        final(list).deep_view() == remove_first(old(list).deep_view(), symbol@),
{
    let ghost orig = list.deep_view();
    let mut i: usize = 0;
    let mut done = false;
    while i < list.len()
        invariant
            i <= list.len(),
            !done ==> list.deep_view() == orig,
            !done ==> forall|j: int| 0 <= j < i ==> orig[j] != symbol@,
            done ==> list.deep_view() == remove_first(orig, symbol@) && i == list.len(),
        decreases list.len() - i,
    {
        if list[i] == *symbol {
            proof {
                lemma_first_position_at(orig, symbol@, i as int);
            }
            list.swap_remove(i);
            assert(list.deep_view() =~= orig.update(i as int, orig.last()).drop_last());
            done = true;
            i = list.len();
        } else {
            i = i + 1;
        }
    }
    if !done {
        proof {
            lemma_first_position_at(orig, symbol@, orig.len() as int);
        }
    }
}

/// The list after an edit that drops `symbols`: `None` when there was no list,
/// else the list with each symbol taken out in turn by `remove_symbol`.
pub fn edited_list(current: Option<Vec<String>>, symbols: Vec<String>) -> (r: Option<Vec<String>>)
    ensures
        current is None ==> r is None,
        current matches Some(l) ==> r matches Some(m) && m.deep_view() == remove_each(
            l.deep_view(),
            symbols.deep_view(),
        ),
{
    match current {
        None => None,
        Some(mut list) => {
            let ghost orig = list.deep_view();
            let ghost dels = symbols.deep_view();
            let mut i: usize = 0;
            assert(dels.take(0) =~= Seq::<Seq<char>>::empty());
            while i < symbols.len()
                invariant
                    i <= symbols.len(),
                    dels == symbols.deep_view(),
                    list.deep_view() == remove_each(orig, dels.take(i as int)),
                decreases symbols.len() - i,
            {
                remove_symbol(&mut list, &symbols[i]);
                assert(dels.take(i + 1).drop_last() =~= dels.take(i as int));
                i = i + 1;
            }
            assert(dels.take(symbols.len() as int) =~= dels);
            Some(list)
        },
    }
}

/// The record kept in the current-list file for the list `name`: the name
/// with `.txt` appended.
pub fn current_list_record(name: String) -> (r: String)
    ensures
        r@ == name@ + ".txt"@,
{
    let mut name = name;
    name.append(".txt");
    name
}

/// The request that tells the list service to stop.
pub const EXIT_REQUEST: &'static str = "EXIT";

/// The list used when no current-list file exists yet.
pub const DEFAULT_LIST_FILE: &'static str = "list.txt";

/// Where the current-list file lives, under the chosen base directory.
pub const CURRENT_LIST_PATH: &'static str = ".charts-rs/current_list.txt";

/// The name of the current list, given what the current-list file held
/// (`None` when there is no such file), and whether the default record must
/// be written out.
pub fn current_list_from(record: Option<String>) -> (r: (String, bool))
    ensures
        record matches Some(s) ==> r.0@ == s@ && !r.1,
        record is None ==> r.0@ == DEFAULT_LIST_FILE@ && r.1,
{
    match record {
        Some(s) => (s, false),
        None => (DEFAULT_LIST_FILE.to_owned(), true),
    }
}

/// The base directory for the current-list file: the configuration directory
/// when there is one, else the home directory.
pub fn config_base<T>(config: Option<T>, home: Option<T>) -> (r: Option<T>)
    ensures
        r == (if config is Some { config } else { home }),
{
    match config {
        Some(c) => Some(c),
        None => home,
    }
}

/// Taking a symbol out removes exactly one copy of it from the list's
/// multiset of symbols (none when it is absent).
pub proof fn law_remove_first_multiset<A>(l: Seq<A>, x: A)
    ensures
        remove_first(l, x).to_multiset() == l.to_multiset().remove(x),
        remove_first(l, x).len() == (if l.contains(x) { l.len() - 1 } else { l.len() as int }),
{
    broadcast use vstd::seq_lib::group_to_multiset_ensures;
    broadcast use vstd::multiset::group_multiset_axioms;

    lemma_first_position_bound(l, x);
    let k = first_position(l, x) as int;
    if k < l.len() {
        let n = l.len() - 1;
        let u = l.update(k, l.last());
        assert(u.drop_last() =~= u.remove(n));
        assert(u.to_multiset() =~= l.to_multiset().insert(l.last()).remove(x));
        assert(u[n] == l.last());
        assert(remove_first(l, x).to_multiset() =~= l.to_multiset().remove(x));
    } else {
        assert(!l.contains(x));
        assert(l.to_multiset().count(x) == 0);
        assert(l.to_multiset().remove(x) =~= l.to_multiset());
    }
}

/// Each symbol that an edit drops leaves the list's multiset one copy
/// poorer (or unchanged when no copy is left): the edited list is the old
/// multiset with the dropped symbols removed one by one.
pub proof fn law_remove_each_multiset<A>(l: Seq<A>, xs: Seq<A>)
    ensures
        remove_each(l, xs).to_multiset() == remove_each_multiset(l.to_multiset(), xs),
    decreases xs.len(),
{
    if xs.len() > 0 {
        law_remove_each_multiset(l, xs.drop_last());
        law_remove_first_multiset(remove_each(l, xs.drop_last()), xs.last());
    }
}

/// The multiset `m` with one copy of each of `xs` removed in turn.
pub open spec fn remove_each_multiset<A>(m: Multiset<A>, xs: Seq<A>) -> Multiset<A>
    decreases xs.len(),
{
    if xs.len() == 0 {
        m
    } else {
        remove_each_multiset(m, xs.drop_last()).remove(xs.last())
    }
}

/// A list of words written as the service sends it (each word followed by a
/// space) is read back as the same list.
pub proof fn law_list_response_round_trip(symbols: Seq<Seq<char>>)
    requires
        symbols.len() > 0,
        forall|i: int| 0 <= i < symbols.len() ==> is_word(#[trigger] symbols[i]),
    ensures
        spec_parse_list_response(terminated(symbols, ' ')) == Some(symbols),
{
    lemma_words_of_terminated(symbols);
    let s = terminated(symbols, ' ');
    crate::text::lemma_terminated_front(symbols, ' ');
    assert(s.len() > 0);
}

/// Splitting `verb + " " + name + " " + symbols each followed by a space`
/// on spaces gives the verb, the name and the symbols.
pub proof fn lemma_request_words(verb: Seq<char>, name: Seq<char>, symbols: Seq<Seq<char>>)
    requires
        is_word(verb),
        is_word(name),
        forall|i: int| 0 <= i < symbols.len() ==> is_word(#[trigger] symbols[i]),
    ensures
        words(verb + seq![' '] + name + seq![' '] + terminated(symbols, ' ')) == seq![verb, name]
            + symbols,
{
    let rest = name + seq![' '] + terminated(symbols, ' ');
    assert(verb + seq![' '] + name + seq![' '] + terminated(symbols, ' ') =~= verb + seq![' ']
        + rest);
    lemma_words_prefix(verb, rest);
    lemma_words_prefix(name, terminated(symbols, ' '));
    lemma_words_of_terminated(symbols);
    assert(seq![verb] + (seq![name] + symbols) =~= seq![verb, name] + symbols);
}

/// Splitting an append request on spaces gives `POST`, the list's name and
/// the symbols, in order.
pub proof fn law_post_request_words(name: Seq<char>, symbols: Seq<Seq<char>>)
    requires
        is_word(name),
        forall|i: int| 0 <= i < symbols.len() ==> is_word(#[trigger] symbols[i]),
    ensures
        words(spec_post_request(name, symbols)) == seq!["POST"@, name] + symbols,
{
    reveal_strlit("POST ");
    reveal_strlit("POST");
    reveal_strlit(" ");
    assert(is_word("POST"@));
    assert(spec_post_request(name, symbols) =~= "POST"@ + seq![' '] + name + seq![' '] + terminated(symbols, ' '));
    lemma_request_words("POST"@, name, symbols);
}

/// Splitting a replace request on spaces gives `PUT`, the list's name and
/// the symbols, in order: the service is sent exactly the list it is to
/// hold. For the list left by an edit, that is `remove_each` of the old list.
pub proof fn law_put_request_words(name: Seq<char>, symbols: Seq<Seq<char>>)
    requires
        is_word(name),
        forall|i: int| 0 <= i < symbols.len() ==> is_word(#[trigger] symbols[i]),
    ensures
        words(spec_put_request(name, symbols)) == seq!["PUT"@, name] + symbols,
{
    reveal_strlit("PUT ");
    reveal_strlit("PUT");
    reveal_strlit(" ");
    assert(is_word("PUT"@));
    assert(spec_put_request(name, symbols) =~= "PUT"@ + seq![' '] + name + seq![' '] + terminated(symbols, ' '));
    lemma_request_words("PUT"@, name, symbols);
}

/// Splitting a delete request on spaces gives `DELETE` and the list's name.
pub proof fn law_delete_request_words(name: Seq<char>)
    requires
        is_word(name),
    ensures
        words(spec_delete_request(name)) == seq!["DELETE"@, name],
{
    reveal_strlit("DELETE ");
    reveal_strlit("DELETE");
    assert(is_word("DELETE"@));
    assert(spec_delete_request(name) =~= "DELETE"@ + seq![' '] + name);
    lemma_words_prefix("DELETE"@, name);
    lemma_words_single(name);
    assert(seq!["DELETE"@] + seq![name] =~= seq!["DELETE"@, name]);
}

/// Splitting a read request on spaces gives `GET` and the list's name: the
/// request reads exactly the list it is given.
pub proof fn law_get_request_words(name: Seq<char>)
    requires
        is_word(name),
    ensures
        words(spec_get_request(name)) == seq!["GET"@, name],
{
    reveal_strlit("GET ");
    reveal_strlit("GET");
    assert(is_word("GET"@));
    assert(spec_get_request(name) =~= "GET"@ + seq![' '] + name);
    lemma_words_prefix("GET"@, name);
    lemma_words_single(name);
    assert(seq!["GET"@] + seq![name] =~= seq!["GET"@, name]);
}

/// Read requests for different lists differ: the name can be read back from
/// the request, as all of it after `"GET "`.
pub proof fn law_get_request_names_list(a: Seq<char>, b: Seq<char>)
    ensures
        spec_get_request(a).skip(4) == a,
        spec_get_request(a) == spec_get_request(b) ==> a == b,
{
    reveal_strlit("GET ");
    assert(spec_get_request(a).skip(4) =~= a);
    assert(spec_get_request(b).skip(4) =~= b);
}

} // verus!
