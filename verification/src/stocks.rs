//! The stocks being shown: which service each symbol is fetched from, the
//! results gathered, and the table made of them.

use vstd::prelude::*;
use vstd::string::*;

use crate::quote::{
    distinct_headers, format_alpha, header_view, law_row_layout, row_layout, spec_format_alpha,
    utf8_len, StockJsonAlphavantage,
};

verus! {

/// Alpha Vantage quote address up to the symbol.
pub const ALPHASNIP0: &'static str = "https://www.alphavantage.co/query?function=GLOBAL_QUOTE&symbol=";

/// Alpha Vantage quote address after the symbol (the API key).
pub const ALPHASNIP1: &'static str = "&apikey=1FGPYOV8MJGHJ1IC";

/// The address of the Alpha Vantage quote for `symbol`.
pub fn alpha_url(symbol: &str) -> (r: String)
    ensures
        r@ == ALPHASNIP0@ + symbol@ + ALPHASNIP1@,
{
    let mut url = ALPHASNIP0.to_owned();
    url.append(symbol);
    url.append(ALPHASNIP1);
    url
}

/// What one service answered for a symbol.
#[derive(Debug)]
pub enum Json {
    /// An MS Finance answer as JSON text (`None` before the fetch).
    MsFinance(Option<String>),
    /// An Alpha Vantage quote (`None` before the fetch).
    Alphavantage(Option<StockJsonAlphavantage>),
    /// No answer: the fetch failed.
    Empty,
}

impl Json {
    /// The result of an Alpha Vantage fetch: the quote, or `Empty` when the
    /// fetch failed.
    pub fn from_alpha(quote: Option<StockJsonAlphavantage>) -> (r: Json)
        ensures
            quote matches Some(q) ==> r == Json::Alphavantage(Some(q)),
            quote is None ==> r == Json::Empty,
    {
        match quote {
            Some(q) => Json::Alphavantage(Some(q)),
            None => Json::Empty,
        }
    }

    /// The result of an MS Finance fetch: the answer, or `Empty` when the
    /// fetch failed.
    pub fn from_ms(answer: Option<String>) -> (r: Json)
        ensures
            answer matches Some(v) ==> r == Json::MsFinance(Some(v)),
            answer is None ==> r == Json::Empty,
    {
        match answer {
            Some(v) => Json::MsFinance(Some(v)),
            None => Json::Empty,
        }
    }
}

/// The services that quotes come from.
#[derive(PartialEq, Eq, Structural, Clone, Copy, Debug)]
pub enum Api {
    Alphavantage,
    MsFinance,
}

/// How many symbols are fetched from Alpha Vantage, which takes five
/// requests a minute; the rest go to MS Finance.
pub const ALPHA_LIMIT: usize = 5;

/// The service that the symbol at position `c` is fetched from.
pub open spec fn api_for(c: int) -> Api {
    if c < ALPHA_LIMIT {
        Api::Alphavantage
    } else {
        Api::MsFinance
    }
}

/// The progress mark shown before fetching the symbol at position `c`.
pub open spec fn marker_for(c: int) -> Seq<char> {
    if c == 0 {
        "Loading["@
    } else {
        "="@
    }
}

/// Shown after the last fetch.
pub const PROGRESS_END: &'static str = "]\n\n\n";

/// The next fetch to make.
#[derive(Debug)]
pub struct Fetch {
    pub symbol: String,
    pub api: Api,
    pub marker: &'static str,
}

/// Symbols, the results fetched for them so far (all displays together, in
/// order), and the position of the next symbol to fetch in the current
/// display.
pub struct Stocks {
    symbols: Vec<String>,
    json: Vec<Json>,
    position: usize,
}

/// `Stocks` taken by its symbols' characters, its results and its position.
pub struct StocksView {
    pub symbols: Seq<Seq<char>>,
    pub results: Seq<Json>,
    pub position: nat,
}

impl View for Stocks {
    type V = StocksView;

    closed spec fn view(&self) -> StocksView {
        StocksView {
            symbols: self.symbols.deep_view(),
            results: self.json@,
            position: self.position as nat,
        }
    }
}

/// The fetch that `v` offers: the symbol at its position, the service for
/// that position and the progress mark; none once the position has passed
/// the last symbol.
pub open spec fn spec_fetch(v: StocksView) -> Option<(Seq<char>, Api, Seq<char>)> {
    if v.position < v.symbols.len() {
        Some(
            (
                v.symbols[v.position as int],
                api_for(v.position as int),
                marker_for(v.position as int),
            ),
        )
    } else {
        None
    }
}

/// Whether `d` can be what the service `api` gave: an answer of that
/// service, or `Empty` when the fetch failed.
pub open spec fn fits(d: Json, api: Api) -> bool {
    match d {
        Json::Empty => true,
        Json::Alphavantage(Some(_)) => api == Api::Alphavantage,
        Json::MsFinance(Some(_)) => api == Api::MsFinance,
        _ => false,
    }
}

/// `v` at the start of a display: back at the first symbol.
pub open spec fn spec_start(v: StocksView) -> StocksView {
    StocksView { symbols: v.symbols, results: v.results, position: 0 }
}

/// `v` after the result `d` of its fetch is stored.
pub open spec fn spec_record(v: StocksView, d: Json) -> StocksView {
    StocksView { symbols: v.symbols, results: v.results.push(d), position: v.position + 1 }
}

/// `v` after each of `outs` is stored in turn.
pub open spec fn run(v: StocksView, outs: Seq<Json>) -> StocksView
    decreases outs.len(),
{
    if outs.len() == 0 {
        v
    } else {
        spec_record(run(v, outs.drop_last()), outs.last())
    }
}

/// `v` after a whole display whose fetches gave `outs`.
pub open spec fn display(v: StocksView, outs: Seq<Json>) -> StocksView {
    run(spec_start(v), outs)
}

/// `v` after one display for each of `runs`, in turn.
pub open spec fn displays(v: StocksView, runs: Seq<Seq<Json>>) -> StocksView
    decreases runs.len(),
{
    if runs.len() == 0 {
        v
    } else {
        display(displays(v, runs.drop_last()), runs.last())
    }
}

/// The progress marks shown over the first `n` fetches of a display.
pub open spec fn progress(n: nat) -> Seq<char>
    decreases n,
{
    if n == 0 {
        seq![]
    } else {
        progress((n - 1) as nat) + marker_for(n - 1)
    }
}

/// Storing results keeps the symbols, appends the results and moves the
/// position on by one each.
pub proof fn lemma_run(v: StocksView, outs: Seq<Json>)
    ensures
        run(v, outs).symbols == v.symbols,
        run(v, outs).results == v.results + outs,
        run(v, outs).position == v.position + outs.len(),
    decreases outs.len(),
{
    if outs.len() == 0 {
        assert(v.results + outs =~= v.results);
    } else {
        lemma_run(v, outs.drop_last());
        assert(v.results + outs.drop_last() + seq![outs.last()] =~= v.results + outs);
    }
}

/// Each display, whatever came before, fetches every symbol once, in order:
/// the fetch at step `i` is symbol `i` from `api_for(i)` with mark
/// `marker_for(i)`; after the last one no fetch is offered, and the results
/// have grown by exactly the display's outcomes.
pub proof fn law_display_fetches_each_symbol(v: StocksView, outs: Seq<Json>)
    requires
        outs.len() == v.symbols.len(),
    ensures
        forall|i: int|
            0 <= i < outs.len() ==> #[trigger] spec_fetch(run(spec_start(v), outs.take(i)))
                == Some((v.symbols[i], api_for(i), marker_for(i))),
        display(v, outs).symbols == v.symbols,
        display(v, outs).results == v.results + outs,
        spec_fetch(display(v, outs)) is None,
{
    assert forall|i: int| 0 <= i < outs.len() implies #[trigger] spec_fetch(
        run(spec_start(v), outs.take(i)),
    ) == Some((v.symbols[i], api_for(i), marker_for(i))) by {
        lemma_run(spec_start(v), outs.take(i));
    }
    lemma_run(spec_start(v), outs);
}

/// After `k` displays of `n` symbols the results have grown by `k * n`.
pub proof fn law_displays_grow_results(v: StocksView, runs: Seq<Seq<Json>>)
    requires
        forall|j: int| 0 <= j < runs.len() ==> (#[trigger] runs[j]).len() == v.symbols.len(),
    ensures
        displays(v, runs).symbols == v.symbols,
        displays(v, runs).results.len() == v.results.len() + runs.len() * v.symbols.len(),
    decreases runs.len(),
{
    if runs.len() > 0 {
        let prefix = runs.drop_last();
        assert forall|j: int| 0 <= j < prefix.len() implies (#[trigger] prefix[j]).len()
            == v.symbols.len() by {
            assert(prefix[j] == runs[j]);
        }
        law_displays_grow_results(v, prefix);
        let w = displays(v, prefix);
        assert(runs.last() == runs[runs.len() - 1]);
        law_display_fetches_each_symbol(w, runs.last());
        let k = prefix.len();
        let n = v.symbols.len();
        assert(k * n + n == (k + 1) * n) by (nonlinear_arith);
    }
}

/// Over any number of whole displays from fresh stocks, each result stored
/// fits the service chosen for its position in its display: result `j` is
/// an Alpha Vantage answer or `Empty` when `j % n < 5`, an MS Finance answer
/// or `Empty` otherwise.
pub proof fn law_displays_results_fit(v: StocksView, runs: Seq<Seq<Json>>)
    requires
        v.results.len() == 0,
        forall|j: int| 0 <= j < runs.len() ==> (#[trigger] runs[j]).len() == v.symbols.len(),
        forall|j: int, i: int|
            0 <= j < runs.len() && 0 <= i < runs[j].len() ==> fits(#[trigger] runs[j][i], api_for(i)),
    ensures
        forall|j: int|
            0 <= j < displays(v, runs).results.len() ==> fits(
                #[trigger] displays(v, runs).results[j],
                api_for(j % (v.symbols.len() as int)),
            ),
    decreases runs.len(),
{
    if runs.len() > 0 {
        let prefix = runs.drop_last();
        let n = v.symbols.len() as int;
        assert forall|j: int| 0 <= j < prefix.len() implies (#[trigger] prefix[j]).len()
            == v.symbols.len() by {
            assert(prefix[j] == runs[j]);
        }
        assert forall|j: int, i: int|
            0 <= j < prefix.len() && 0 <= i < prefix[j].len() implies fits(
            #[trigger] prefix[j][i],
            api_for(i),
        ) by {
            assert(prefix[j] == runs[j]);
        }
        law_displays_results_fit(v, prefix);
        law_displays_grow_results(v, prefix);
        let w = displays(v, prefix);
        let last = runs[runs.len() - 1];
        assert(runs.last() == last);
        law_display_fetches_each_symbol(w, last);
        let k = prefix.len() as int;
        let all = displays(v, runs).results;
        assert(all == w.results + last);
        assert(w.results.len() == k * n);
        assert forall|j: int| 0 <= j < all.len() implies fits(#[trigger] all[j], api_for(j % n)) by {
            if j < w.results.len() {
                assert(all[j] == w.results[j]);
            } else {
                let i = j - k * n;
                assert(all[j] == last[i]);
                assert(fits(runs[runs.len() - 1][i], api_for(i)));
                vstd::arithmetic::div_mod::lemma_fundamental_div_mod_converse(j, n, k, i);
            }
        }
    }
}

/// The marks shown over a display of `n` symbols: `Loading[` then `n - 1`
/// times `=`, nothing when there are no symbols.
pub proof fn law_progress_marks(n: nat)
    ensures
        progress(n) == if n == 0 {
            Seq::<char>::empty()
        } else {
            "Loading["@ + Seq::new((n - 1) as nat, |i: int| '=')
        },
    decreases n,
{
    reveal_strlit("=");
    if n == 1 {
        assert(progress(0) =~= Seq::<char>::empty());
        assert(progress(1) =~= "Loading["@ + Seq::new(0, |i: int| '='));
    } else if n > 1 {
        law_progress_marks((n - 1) as nat);
        assert(progress(n) =~= "Loading["@ + Seq::new((n - 1) as nat, |i: int| '='));
    }
}

/// The row shown for one result.
pub open spec fn row_text(j: Json) -> Seq<char> {
    match j {
        Json::Alphavantage(Some(d)) => spec_format_alpha(d@, table_headers()),
        Json::MsFinance(Some(_)) => MS_ROW@,
        _ => EMPTY_ROW@,
    }
}

/// The row shown for an MS Finance answer.
pub const MS_ROW: &'static str = "MsFinance got";

/// The row shown when there is no answer.
pub const EMPTY_ROW: &'static str = "---------------------------------------------------";

pub const SYMBOL_HEADER: &'static str = " Symbol ";
pub const PRICE_HEADER: &'static str = " Price  ";
pub const PREV_HEADER: &'static str = " Prev   ";
pub const CHANGE_HEADER: &'static str = " Change ";
pub const PCT_HEADER: &'static str = " Pct %  ";

/// The table's column headers.
pub open spec fn table_headers() -> Seq<Seq<char>> {
    seq![SYMBOL_HEADER@, PRICE_HEADER@, PREV_HEADER@, CHANGE_HEADER@, PCT_HEADER@]
}

/// The column headers, in order.
pub fn headers() -> (h: [&'static str; 5])
    ensures
        header_view(h) == table_headers(),
{
    let h = [SYMBOL_HEADER, PRICE_HEADER, PREV_HEADER, CHANGE_HEADER, PCT_HEADER];
    assert(header_view(h) =~= table_headers());
    h
}

/// `n` dashes.
pub open spec fn dashes(n: nat) -> Seq<char> {
    Seq::new(n, |i: int| '-')
}

/// The header line: a tab before each header, then a newline.
pub open spec fn header_line(h: Seq<Seq<char>>) -> Seq<char> {
    "\t"@ + h[0] + "\t"@ + h[1] + "\t"@ + h[2] + "\t"@ + h[3] + "\t"@ + h[4] + "\n"@
}

/// The underline for the first `n` headers: a tab, then as many dashes as
/// the header has bytes, for each.
pub open spec fn underline(h: Seq<Seq<char>>, n: nat) -> Seq<char>
    decreases n,
{
    if n == 0 {
        seq![]
    } else {
        underline(h, (n - 1) as nat) + "\t"@ + dashes(utf8_len(h[n - 1]) as nat)
    }
}

/// The rows for `results`, each followed by an empty line.
pub open spec fn rows(results: Seq<Json>) -> Seq<char>
    decreases results.len(),
{
    if results.len() == 0 {
        seq![]
    } else {
        rows(results.drop_last()) + row_text(results.last()) + "\n\n"@
    }
}

/// The whole table: header line, underline, rows.
pub open spec fn spec_table(results: Seq<Json>) -> Seq<char> {
    let h = table_headers();
    header_line(h) + underline(h, 5) + "\n"@ + rows(results)
}

/// The total number of fetches from Alpha Vantage when `n` symbols are shown.
pub open spec fn alpha_fetches(n: nat) -> nat
    decreases n,
{
    if n == 0 {
        0
    } else {
        alpha_fetches((n - 1) as nat) + if api_for(n - 1) == Api::Alphavantage { 1nat } else { 0 }
    }
}

/// However many symbols are shown, at most five quotes are asked of Alpha
/// Vantage: exactly `min(n, 5)`.
pub proof fn law_alpha_fetches_capped(n: nat)
    ensures
        alpha_fetches(n) == if n < ALPHA_LIMIT { n } else { ALPHA_LIMIT as nat },
    decreases n,
{
    if n > 0 {
        law_alpha_fetches_capped((n - 1) as nat);
    }
}

/// Appends `n` dashes.
fn append_dashes(s: &mut String, n: usize)
    ensures
        final(s)@ == old(s)@ + dashes(n as nat),
{
    let mut i: usize = 0;
    while i < n
        invariant
            i <= n,
            s@ == old(s)@ + dashes(i as nat),
        decreases n - i,
    {
        let ghost prev = s@;
        s.append("-");
        proof {
            reveal_strlit("-");
        }
        assert(s@ =~= prev + seq!['-']);
        assert(dashes((i + 1) as nat) =~= dashes(i as nat).push('-'));
        i = i + 1;
    }
}

/// The row text for one result.
fn row(j: &Json) -> (r: String)
    ensures
        r@ == row_text(*j),
{
    match j {
        Json::Alphavantage(Some(data)) => {
            let h = headers();
            format_alpha(data, &h)
        },
        Json::MsFinance(Some(_)) => MS_ROW.to_owned(),
        _ => EMPTY_ROW.to_owned(),
    }
}

impl Stocks {
    /// Stocks for the symbols `items`, with nothing fetched yet.
    pub fn from(items: Vec<String>) -> (r: Stocks)
        ensures
            r@.symbols == items.deep_view(),
            r@.results == Seq::<Json>::empty(),
            r@.position == 0,
    {
        Stocks { symbols: items, json: Vec::new(), position: 0 }
    }

    /// Begins a display: the next fetch is for the first symbol again. The
    /// results of earlier displays stay.
    pub fn start_display(&mut self)
        ensures
            final(self)@ == spec_start(old(self)@),
    {
        self.position = 0;
    }

    /// The fetch at the current position of the display: the symbol there,
    /// the service (Alpha Vantage for the first five positions, MS Finance
    /// after) and the progress mark to show. `None` once the display has
    /// passed the last symbol.
    pub fn next_fetch(&self) -> (r: Option<Fetch>)
        ensures
            r is None <==> spec_fetch(self@) is None,
            r matches Some(f) ==> spec_fetch(self@) == Some((f.symbol@, f.api, f.marker@)),
    {
        let c = self.position;
        if c < self.symbols.len() {
            let symbol = self.symbols[c].clone();
            let api = if c < ALPHA_LIMIT {
                Api::Alphavantage
            } else {
                Api::MsFinance
            };
            let marker = if c == 0 {
                "Loading["
            } else {
                "="
            };
            Some(Fetch { symbol, api, marker })
        } else {
            None
        }
    }

    /// Stores the result of the fetch that `next_fetch` offered (an answer
    /// of the service it named, or `Empty`), and moves on to the next symbol.
    pub fn record(&mut self, data: Json)
        requires
            spec_fetch(old(self)@) is Some,
            fits(data, api_for(old(self)@.position as int)),
        ensures
            final(self)@ == spec_record(old(self)@, data),
    {
        let n = self.symbols.len();
        assert(self.position < n);
        self.json.push(data);
        self.position = self.position + 1;
    }

    /// The table for the results so far: the header line, the underline, then
    /// each result's row followed by an empty line.
    pub fn table_text(&self) -> (r: String)
        ensures
            r@ == spec_table(self@.results),
    {
        let h = headers();
        let ghost hv = table_headers();
        proof {
            reveal_strlit("\t");
            reveal_strlit("\n");
            reveal_strlit("\n\n");
        }
        let mut s = "\t".to_owned();
        s.append(h[0]);
        s.append("\t");
        s.append(h[1]);
        s.append("\t");
        s.append(h[2]);
        s.append("\t");
        s.append(h[3]);
        s.append("\t");
        s.append(h[4]);
        s.append("\n");
        assert(s@ =~= header_line(hv));
        let mut k: usize = 0;
        while k < 5
            invariant
                k <= 5,
                header_view(h) == hv,
                hv == table_headers(),
                s@ == header_line(hv) + underline(hv, k as nat),
            decreases 5 - k,
        {
            s.append("\t");
            let n = h[k].len();
            assert(n == utf8_len(hv[k as int]));
            append_dashes(&mut s, n);
            k = k + 1;
        }
        s.append("\n");
        let ghost results = self.json@;
        let mut i: usize = 0;
        assert(results.take(0) =~= Seq::<Json>::empty());
        while i < self.json.len()
            invariant
                i <= self.json.len(),
                results == self.json@,
                hv == table_headers(),
                s@ == header_line(hv) + underline(hv, 5) + "\n"@ + rows(results.take(i as int)),
            decreases self.json.len() - i,
        {
            let text = row(&self.json[i]);
            s.append(text.as_str());
            s.append("\n\n");
            assert(results.take(i + 1).drop_last() =~= results.take(i as int));
            i = i + 1;
        }
        assert(results.take(self.json.len() as int) =~= results);
        s
    }
}

/// The table's headers are five distinct texts.
pub proof fn lemma_table_headers_distinct()
    ensures
        distinct_headers(table_headers()),
{
    reveal_strlit(" Symbol ");
    reveal_strlit(" Price  ");
    reveal_strlit(" Prev   ");
    reveal_strlit(" Change ");
    reveal_strlit(" Pct %  ");
    let h = table_headers();
    assert(h[0][1] == 'S' && h[1][1] == 'P' && h[2][1] == 'P' && h[3][1] == 'C' && h[4][1] == 'P');
    assert(h[1][2] == 'r' && h[2][2] == 'r' && h[4][2] == 'c');
    assert(h[1][3] == 'i' && h[2][3] == 'e');
}

/// The table row of an Alpha Vantage quote shows, under Symbol, Price, Prev,
/// Change and Pct %, the fields `01. symbol`, `05. price`, `08. previous
/// close`, `09. change` and `10. change percent`, trimmed as `row_layout`
/// says.
pub proof fn law_alpha_row_fields(d: StockJsonAlphavantage)
    ensures
        row_text(Json::Alphavantage(Some(d))) == row_layout(d@),
{
    lemma_table_headers_distinct();
    law_row_layout(d@, table_headers());
}

/// Storing one more result adds exactly its row, followed by an empty line,
/// to the end of the table.
pub proof fn law_table_grows_by_row(results: Seq<Json>, j: Json)
    ensures
        spec_table(results.push(j)) == spec_table(results) + row_text(j) + "\n\n"@,
{
    assert(results.push(j).drop_last() =~= results);
    assert(spec_table(results.push(j)) =~= spec_table(results) + row_text(j) + "\n\n"@);
}

} // verus!
