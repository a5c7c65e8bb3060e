//! Alpha Vantage "Global Quote" data and the table row made from it.

use vstd::prelude::*;
use vstd::string::*;
use vstd::utf8::encode_utf8;

verus! {

/// The "Global Quote" object of an Alpha Vantage answer: its fields as
/// (name, value) pairs. Read from a JSON object, it is `well_formed` (no
/// name repeats); lookups take the first pair with a name either way.
#[derive(Debug)]
pub struct StockJsonAlphavantage {
    pub quote: Vec<(String, String)>,
}

impl View for StockJsonAlphavantage {
    type V = Seq<(Seq<char>, Seq<char>)>;

    open spec fn view(&self) -> Seq<(Seq<char>, Seq<char>)> {
        self.quote.deep_view()
    }
}

impl StockJsonAlphavantage {
    /// No field name occurs twice.
    pub open spec fn well_formed(&self) -> bool {
        names_distinct(self@)
    }

    /// A quote with no fields.
    pub fn empty() -> (r: StockJsonAlphavantage)
        ensures
            r@ == Seq::<(Seq<char>, Seq<char>)>::empty(),
            r.well_formed(),
    {
        let r = StockJsonAlphavantage { quote: Vec::new() };
        assert(r@ =~= Seq::<(Seq<char>, Seq<char>)>::empty());
        r
    }
}

/// No two pairs of `fields` share a name.
pub open spec fn names_distinct(fields: Seq<(Seq<char>, Seq<char>)>) -> bool {
    forall|i: int, j: int| 0 <= i < j < fields.len() ==> fields[i].0 != fields[j].0
}

/// The quote read from an answer, or an empty quote when the answer could
/// not be read as one.
pub fn quote_or_empty(parsed: Option<StockJsonAlphavantage>) -> (r: StockJsonAlphavantage)
    ensures
        parsed matches Some(q) ==> r == q,
        parsed is None ==> r@ == Seq::<(Seq<char>, Seq<char>)>::empty(),
{
    match parsed {
        Some(q) => q,
        None => StockJsonAlphavantage::empty(),
    }
}

/// In a well-formed quote, a lookup finds `v` under `key` exactly when the
/// pair `(key, v)` is among the fields.
pub proof fn law_lookup_well_formed(
    fields: Seq<(Seq<char>, Seq<char>)>,
    key: Seq<char>,
    v: Seq<char>,
)
    requires
        names_distinct(fields),
    ensures
        quote_lookup(fields, key) == Some(v) <==> fields.contains((key, v)),
    decreases fields.len(),
{
    if fields.len() > 0 {
        let rest = fields.drop_first();
        assert forall|i: int, j: int| 0 <= i < j < rest.len() implies rest[i].0 != rest[j].0 by {
            assert(rest[i] == fields[i + 1] && rest[j] == fields[j + 1]);
        }
        law_lookup_well_formed(rest, key, v);
        if fields.contains((key, v)) {
            let k = choose|k: int| 0 <= k < fields.len() && fields[k] == (key, v);
            if k > 0 {
                assert(rest[k - 1] == fields[k]);
            }
        }
        if rest.contains((key, v)) {
            let k = choose|k: int| 0 <= k < rest.len() && rest[k] == (key, v);
            assert(fields[k + 1] == rest[k]);
        }
    }
}

/// The value stored under `key`: that of the first pair named `key`.
pub open spec fn quote_lookup(fields: Seq<(Seq<char>, Seq<char>)>, key: Seq<char>) -> Option<
    Seq<char>,
>
    decreases fields.len(),
{
    if fields.len() == 0 {
        None
    } else if fields[0].0 == key {
        Some(fields[0].1)
    } else {
        quote_lookup(fields.drop_first(), key)
    }
}

/// The quote field shown in column `k` of the table.
pub open spec fn alpha_key(k: int) -> Seq<char> {
    if k == 0 {
        "01. symbol"@
    } else if k == 1 {
        "05. price"@
    } else if k == 2 {
        "08. previous close"@
    } else if k == 3 {
        "09. change"@
    } else {
        "10. change percent"@
    }
}

/// The last index `j <= upto` with `h[j] == x`, or -1.
pub open spec fn last_match(h: Seq<Seq<char>>, x: Seq<char>, upto: int) -> int
    decreases upto + 1,
{
    if upto < 0 {
        -1
    } else if h[upto] == x {
        upto
    } else {
        last_match(h, x, upto - 1)
    }
}

/// The column whose field header `i` names: headers map to fields by
/// position, and when a header repeats its last position counts.
pub open spec fn key_slot(h: Seq<Seq<char>>, i: int) -> int {
    last_match(h, h[i], 4)
}

/// The byte count that `str::len` reports for a string holding `s`: the
/// length of its UTF-8 encoding.
pub open spec fn utf8_len(s: Seq<char>) -> usize {
    encode_utf8(s).len() as usize
}

/// `n` spaces.
pub open spec fn spaces(n: nat) -> Seq<char> {
    Seq::new(n, |i: int| ' ')
}

/// `v` without its last `n` characters (empty when it has fewer).
pub open spec fn drop_tail(v: Seq<char>, n: nat) -> Seq<char> {
    if v.len() >= n {
        v.take(v.len() - n)
    } else {
        seq![]
    }
}

/// The text shown in column `i` for the field value `v`: prices and the
/// change lose their last two characters, the percentage loses its last three
/// and gains a `%`.
pub open spec fn trim_value(v: Seq<char>, i: int) -> Seq<char> {
    if 0 < i < 4 {
        drop_tail(v, 2)
    } else if i == 4 {
        drop_tail(v, 3) + "%"@
    } else {
        v
    }
}

/// One cell: a space, the text, spaces up to seven bytes of text, a tab.
pub open spec fn cell(t: Seq<char>) -> Seq<char> {
    let pad: nat = if utf8_len(t) < 7 { (7 - utf8_len(t)) as nat } else { 0 };
    " "@ + t + spaces(pad) + "\t"@
}

/// The value of column `i`: the field named by header `i`, or `N/A`.
pub open spec fn column_value(q: Seq<(Seq<char>, Seq<char>)>, h: Seq<Seq<char>>, i: int) -> Seq<
    char,
> {
    match quote_lookup(q, alpha_key(key_slot(h, i))) {
        Some(v) => v,
        None => "N/A"@,
    }
}

/// A tab followed by the first `n` cells of the row.
pub open spec fn alpha_cells(q: Seq<(Seq<char>, Seq<char>)>, h: Seq<Seq<char>>, n: nat) -> Seq<
    char,
>
    decreases n,
{
    if n == 0 {
        "\t"@
    } else {
        alpha_cells(q, h, (n - 1) as nat) + cell(
            trim_value(column_value(q, h, n - 1), n - 1),
        )
    }
}

/// The table row for an Alpha Vantage quote under the five `headers`.
pub open spec fn spec_format_alpha(q: Seq<(Seq<char>, Seq<char>)>, h: Seq<Seq<char>>) -> Seq<char> {
    alpha_cells(q, h, 5)
}

/// The headers taken by their characters.
pub open spec fn header_view(headers: [&str; 5]) -> Seq<Seq<char>> {
    headers@.map_values(|s: &str| s@)
}

/// Looks up the value stored under `key`.
pub fn quote_get(stock: &StockJsonAlphavantage, key: &String) -> (r: Option<String>)
    ensures
        r matches Some(v) ==> quote_lookup(stock@, key@) == Some(v@),
        r is None ==> quote_lookup(stock@, key@) is None,
{
    let ghost q = stock@;
    let mut i: usize = 0;
    assert(q.skip(0) =~= q);
    while i < stock.quote.len()
        invariant
            q == stock@,
            i <= q.len(),
            quote_lookup(q, key@) == quote_lookup(q.skip(i as int), key@),
        decreases stock.quote.len() - i,
    {
        let ghost t = q.skip(i as int);
        assert(t[0] == q[i as int]);
        assert(t.drop_first() =~= q.skip(i + 1));
        if stock.quote[i].0 == *key {
            return Some(stock.quote[i].1.clone());
        }
        i = i + 1;
    }
    None
}

/// Finds the last position `j` with `headers[j] == headers[i]`.
fn header_slot(headers: &[&str; 5], i: usize) -> (k: usize)
    requires
        i < 5,
    ensures
        k as int == key_slot(header_view(*headers), i as int),
        k < 5,
{
    let ghost h = header_view(*headers);
    let target = headers[i].to_owned();
    let mut k: usize = i;
    let mut j: usize = 0;
    while j < 5
        invariant
            i < 5,
            j <= 5,
            h == header_view(*headers),
            target@ == h[i as int],
            k < 5,
            j > i ==> k as int == last_match(h, h[i as int], j - 1),
        decreases 5 - j,
    {
        if headers[j].to_owned() == target {
            k = j;
        }
        j = j + 1;
    }
    k
}

/// `s` with `n` spaces appended.
fn append_spaces(s: &mut String, n: usize)
    ensures
        final(s)@ == old(s)@ + spaces(n as nat),
{
    let mut i: usize = 0;
    while i < n
        invariant
            i <= n,
            s@ == old(s)@ + spaces(i as nat),
        decreases n - i,
    {
        let ghost prev = s@;
        s.append(" ");
        proof {
            reveal_strlit(" ");
        }
        assert(" "@ =~= seq![' ']);
        assert(s@ =~= prev + seq![' ']);
        assert(spaces((i + 1) as nat) =~= spaces(i as nat).push(' '));
        assert(s@ =~= old(s)@ + spaces((i + 1) as nat));
        i = i + 1;
    }
}

/// The field name for column `k`.
fn alpha_key_text(k: usize) -> (r: &'static str)
    requires
        k < 5,
    ensures
        r@ == alpha_key(k as int),
{
    if k == 0 {
        "01. symbol"
    } else if k == 1 {
        "05. price"
    } else if k == 2 {
        "08. previous close"
    } else if k == 3 {
        "09. change"
    } else {
        "10. change percent"
    }
}

/// `v` without its last `n` characters (empty when it has fewer).
fn without_tail(v: String, n: usize) -> (r: String)
    ensures
        r@ == drop_tail(v@, n as nat),
{
    let len = v.as_str().unicode_len();
    let keep = if len >= n { len - n } else { 0 };
    let r = v.as_str().substring_char(0, keep).to_owned();
    assert(len < n ==> r@ =~= Seq::<char>::empty());
    r
}

/// The cell of column `i`.
fn alpha_cell(stock: &StockJsonAlphavantage, headers: &[&str; 5], i: usize) -> (r: String)
    requires
        i < 5,
    ensures
        r@ == cell(trim_value(column_value(stock@, header_view(*headers), i as int), i as int)),
{
    let ghost h = header_view(*headers);
    proof {
        reveal_strlit(" ");
        reveal_strlit("%");
    }
    let k = header_slot(headers, i);
    let key = alpha_key_text(k).to_owned();
    let mut value = match quote_get(stock, &key) {
        Some(v) => v,
        None => "N/A".to_owned(),
    };
    assert(value@ == column_value(stock@, h, i as int));
    if i > 0 && i < 4 {
        value = without_tail(value, 2);
    }
    if i == 4 {
        value = without_tail(value, 3);
        value.append("%");
    }
    let ghost t = value@;
    assert(t =~= trim_value(column_value(stock@, h, i as int), i as int));
    let mut s = " ".to_owned();
    s.append(value.as_str());
    let len = value.as_str().len();
    assert(len == utf8_len(t));
    if len < 7 {
        append_spaces(&mut s, 7 - len);
    } else {
        assert(s@ =~= s@ + spaces(0));
    }
    s.append("\t");
    s
}

/// Formats a table row from an Alpha Vantage quote: for each of the five
/// headers, the field it names (or `N/A`), trimmed as `trim_value` says and
/// padded to seven bytes, each cell opened by a space and closed by a tab.
pub fn format_alpha(stock: &StockJsonAlphavantage, headers: &[&str; 5]) -> (r: String)
    ensures
        r@ == spec_format_alpha(stock@, header_view(*headers)),
{
    let mut s = "\t".to_owned();
    let mut i: usize = 0;
    while i < 5
        invariant
            i <= 5,
            s@ == alpha_cells(stock@, header_view(*headers), i as nat),
        decreases 5 - i,
    {
        let c = alpha_cell(stock, headers, i);
        s.append(c.as_str());
        i = i + 1;
    }
    s
}

/// One of the five field names that the row shows.
pub open spec fn is_alpha_key(k: Seq<char>) -> bool {
    k == alpha_key(0) || k == alpha_key(1) || k == alpha_key(2) || k == alpha_key(3) || k
        == alpha_key(4)
}

/// A lookup finds nothing exactly when no pair has the name.
pub proof fn lemma_lookup_none(fields: Seq<(Seq<char>, Seq<char>)>, key: Seq<char>)
    ensures
        quote_lookup(fields, key) is None <==> forall|i: int|
            0 <= i < fields.len() ==> #[trigger] fields[i].0 != key,
    decreases fields.len(),
{
    if fields.len() > 0 {
        let rest = fields.drop_first();
        lemma_lookup_none(rest, key);
        if fields[0].0 != key && forall|i: int| 0 <= i < rest.len() ==> #[trigger] rest[i].0 != key {
            assert forall|i: int| 0 <= i < fields.len() implies #[trigger] fields[i].0 != key by {
                if i > 0 {
                    assert(fields[i] == rest[i - 1]);
                }
            }
        } else if fields[0].0 != key {
            let i = choose|i: int| 0 <= i < rest.len() && rest[i].0 == key;
            assert(fields[i + 1] == rest[i]);
        }
    }
}

/// Rows agree when the two quotes agree on the five fields shown.
proof fn lemma_cells_agree(
    q1: Seq<(Seq<char>, Seq<char>)>,
    q2: Seq<(Seq<char>, Seq<char>)>,
    h: Seq<Seq<char>>,
    n: nat,
)
    requires
        forall|k: int| #[trigger] quote_lookup(q1, alpha_key(k)) == quote_lookup(q2, alpha_key(k)),
    ensures
        alpha_cells(q1, h, n) == alpha_cells(q2, h, n),
    decreases n,
{
    if n > 0 {
        lemma_cells_agree(q1, q2, h, (n - 1) as nat);
        let k = key_slot(h, n - 1);
        assert(quote_lookup(q1, alpha_key(k)) == quote_lookup(q2, alpha_key(k)));
    }
}

/// Fields under names other than the five shown do not change a row: two
/// well-formed quotes that hold the same pairs, except for pairs whose
/// names the row does not show, give the same row.
pub proof fn law_other_fields_keep_row(
    q1: Seq<(Seq<char>, Seq<char>)>,
    q2: Seq<(Seq<char>, Seq<char>)>,
    h: Seq<Seq<char>>,
)
    requires
        names_distinct(q1),
        names_distinct(q2),
        forall|i: int| 0 <= i < q1.len() ==> q2.contains(#[trigger] q1[i]),
        forall|i: int|
            0 <= i < q2.len() ==> q1.contains(#[trigger] q2[i]) || !is_alpha_key(q2[i].0),
    ensures
        spec_format_alpha(q1, h) == spec_format_alpha(q2, h),
{
    assert forall|k: int| #[trigger] quote_lookup(q1, alpha_key(k)) == quote_lookup(
        q2,
        alpha_key(k),
    ) by {
        let key = alpha_key(k);
        assert(is_alpha_key(key));
        match quote_lookup(q1, key) {
            Some(v) => {
                law_lookup_well_formed(q1, key, v);
                let i = choose|i: int| 0 <= i < q1.len() && q1[i] == (key, v);
                assert(q2.contains(q1[i]));
                law_lookup_well_formed(q2, key, v);
            },
            None => {
                lemma_lookup_none(q1, key);
                match quote_lookup(q2, key) {
                    Some(v) => {
                        law_lookup_well_formed(q2, key, v);
                        let i = choose|i: int| 0 <= i < q2.len() && q2[i] == (key, v);
                        assert(q1.contains(q2[i]));
                        let j = choose|j: int| 0 <= j < q1.len() && q1[j] == q2[i];
                        assert(q1[j].0 == key);
                    },
                    None => {},
                }
            },
        }
    }
    lemma_cells_agree(q1, q2, h, 5);
}

/// The value of the quote field `name`, or `N/A` when the quote lacks it.
pub open spec fn field_or_na(q: Seq<(Seq<char>, Seq<char>)>, name: Seq<char>) -> Seq<char> {
    match quote_lookup(q, name) {
        Some(v) => v,
        None => "N/A"@,
    }
}

/// The first `v.len() - n` characters of `v` (none when `v` is shorter).
pub open spec fn leading(v: Seq<char>, n: nat) -> Seq<char> {
    if v.len() >= n {
        v.subrange(0, v.len() - n)
    } else {
        Seq::empty()
    }
}

/// A table cell holding `t`: a space, `t`, blanks up to seven bytes, a tab.
pub open spec fn padded(t: Seq<char>) -> Seq<char> {
    let bytes = encode_utf8(t).len() as usize;
    " "@ + t + Seq::new(if bytes < 7 { (7 - bytes) as nat } else { 0 }, |k: int| ' ') + "\t"@
}

/// The row for quote `q`, field by field: the symbol as it is; price,
/// previous close and change each without their last two characters;
/// the change percent without its last three, then `%`.
pub open spec fn row_layout(q: Seq<(Seq<char>, Seq<char>)>) -> Seq<char> {
    "\t"@ + padded(field_or_na(q, "01. symbol"@)) + padded(leading(field_or_na(q, "05. price"@), 2))
        + padded(leading(field_or_na(q, "08. previous close"@), 2)) + padded(
        leading(field_or_na(q, "09. change"@), 2),
    ) + padded(leading(field_or_na(q, "10. change percent"@), 3) + "%"@)
}

/// Five headers, none repeated.
pub open spec fn distinct_headers(h: Seq<Seq<char>>) -> bool {
    h.len() == 5 && forall|i: int, j: int| 0 <= i < j < 5 ==> h[i] != h[j]
}

proof fn lemma_last_match_distinct(h: Seq<Seq<char>>, i: int, upto: int)
    requires
        distinct_headers(h),
        0 <= i <= upto < 5,
    ensures
        last_match(h, h[i], upto) == i,
    decreases upto,
{
    if upto > i {
        assert(h[upto] != h[i]);
        lemma_last_match_distinct(h, i, upto - 1);
    }
}

/// Under five distinct headers, column `k` shows field `k` in header order,
/// whatever the headers say: the row is `row_layout` of the quote. In
/// particular each of price, previous close and change is its field value
/// with exactly its last two characters cut, and the rest kept as it is.
pub proof fn law_row_layout(q: Seq<(Seq<char>, Seq<char>)>, h: Seq<Seq<char>>)
    requires
        distinct_headers(h),
    ensures
        spec_format_alpha(q, h) == row_layout(q),
{
    lemma_last_match_distinct(h, 0, 4);
    lemma_last_match_distinct(h, 1, 4);
    lemma_last_match_distinct(h, 2, 4);
    lemma_last_match_distinct(h, 3, 4);
    lemma_last_match_distinct(h, 4, 4);
    assert(column_value(q, h, 0) == field_or_na(q, "01. symbol"@));
    assert(column_value(q, h, 1) == field_or_na(q, "05. price"@));
    assert(column_value(q, h, 2) == field_or_na(q, "08. previous close"@));
    assert(column_value(q, h, 3) == field_or_na(q, "09. change"@));
    assert(column_value(q, h, 4) == field_or_na(q, "10. change percent"@));
    assert forall|t: Seq<char>| #[trigger] cell(t) == padded(t) by {
        let bytes = encode_utf8(t).len() as usize;
        assert(spaces(if utf8_len(t) < 7 { (7 - utf8_len(t)) as nat } else { 0 }) =~= Seq::new(
            if bytes < 7 { (7 - bytes) as nat } else { 0 },
            |k: int| ' ',
        ));
    }
    assert forall|v: Seq<char>, n: nat| #[trigger] drop_tail(v, n) == leading(v, n) by {
        if v.len() >= n {
            assert(v.take(v.len() - n) =~= v.subrange(0, v.len() - n));
        }
    }
    let c0 = cell(trim_value(column_value(q, h, 0), 0));
    let c1 = cell(trim_value(column_value(q, h, 1), 1));
    let c2 = cell(trim_value(column_value(q, h, 2), 2));
    let c3 = cell(trim_value(column_value(q, h, 3), 3));
    let c4 = cell(trim_value(column_value(q, h, 4), 4));
    assert(alpha_cells(q, h, 0) == "\t"@);
    assert(alpha_cells(q, h, 1) == "\t"@ + c0);
    assert(alpha_cells(q, h, 2) == "\t"@ + c0 + c1);
    assert(alpha_cells(q, h, 3) == "\t"@ + c0 + c1 + c2);
    assert(alpha_cells(q, h, 4) == "\t"@ + c0 + c1 + c2 + c3);
    assert(alpha_cells(q, h, 5) == "\t"@ + c0 + c1 + c2 + c3 + c4);
    assert(c1 == padded(leading(field_or_na(q, "05. price"@), 2)));
    assert(c3 == padded(leading(field_or_na(q, "09. change"@), 2)));
    assert(c4 == padded(leading(field_or_na(q, "10. change percent"@), 3) + "%"@));
}

} // verus!
