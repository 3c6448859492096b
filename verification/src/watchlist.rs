//! The watchlist registry: a keyed collection of symbol sessions shared by
//! the refresh scheduler and the render pass, plus the fixed-cadence
//! refresh policy.
//!
//! Keys are unique. Every mutating operation touches exactly the session
//! it names and leaves every other session as it was, so completions that
//! arrive interleaved and out of order across symbols cannot disturb one
//! another; a completion for a symbol no longer present is dropped.

use vstd::prelude::*;
use vstd::pervasive::VecAdditionalExecFns;
use vstd::string::StrSliceExecFns;
use crate::order::{OrderRequest, OrderRequestModel, OrderStatus};
use crate::series::{SeriesModel, TimeSeries};
use crate::session::{
    begun_order_session,
    cancelled_session,
    confirmed_session,
    fresh_session,
    session_wf,
    toggled_session,
    ChartKind,
    QuoteSnapshot,
    Stock,
    StockModel,
};

verus! {

/// Index of the first session keyed by `sym`, or `-1` when none is.
pub open spec fn find_symbol(ss: Seq<StockModel>, sym: Seq<char>) -> int
    decreases ss.len(),
{
    if ss.len() == 0 {
        -1
    } else if ss[0].symbol == sym {
        0
    } else {
        let r = find_symbol(ss.subrange(1, ss.len() as int), sym);
        if r == -1 {
            -1
        } else {
            r + 1
        }
    }
}

pub open spec fn contains_symbol(ss: Seq<StockModel>, sym: Seq<char>) -> bool {
    find_symbol(ss, sym) >= 0
}

/// What `find_symbol` finds: the first match, with nothing matching
/// before it.
pub proof fn lemma_find_symbol(ss: Seq<StockModel>, sym: Seq<char>)
    ensures
        find_symbol(ss, sym) >= -1,
        find_symbol(ss, sym) == -1 ==> (forall|k: int|
            0 <= k < ss.len() ==> (#[trigger] ss[k]).symbol != sym),
        find_symbol(ss, sym) >= 0 ==> find_symbol(ss, sym) < ss.len() && ss[find_symbol(
            ss,
            sym,
        )].symbol == sym && (forall|k: int|
            0 <= k < find_symbol(ss, sym) ==> (#[trigger] ss[k]).symbol != sym),
    decreases ss.len(),
{
    if ss.len() != 0 && ss[0].symbol != sym {
        let tail = ss.subrange(1, ss.len() as int);
        lemma_find_symbol(tail, sym);
        assert forall|k: int| 1 <= k < ss.len() implies tail[k - 1] == ss[k] by {}
    }
}

/// `find_symbol` returns `i` when `i` is a match and nothing before it is.
pub proof fn lemma_find_symbol_at(ss: Seq<StockModel>, sym: Seq<char>, i: int)
    requires
        0 <= i < ss.len(),
        ss[i].symbol == sym,
        forall|k: int| 0 <= k < i ==> (#[trigger] ss[k]).symbol != sym,
    ensures
        find_symbol(ss, sym) == i,
    decreases ss.len(),
{
    if i > 0 {
        let tail = ss.subrange(1, ss.len() as int);
        assert(ss[0].symbol != sym);
        assert forall|k: int| 0 <= k < i - 1 implies (#[trigger] tail[k]).symbol != sym by {
            assert(tail[k] == ss[k + 1]);
        }
        lemma_find_symbol_at(tail, sym, i - 1);
    }
}

/// `find_symbol` returns `-1` when nothing matches.
pub proof fn lemma_find_symbol_none(ss: Seq<StockModel>, sym: Seq<char>)
    requires
        forall|k: int| 0 <= k < ss.len() ==> (#[trigger] ss[k]).symbol != sym,
    ensures
        find_symbol(ss, sym) == -1,
    decreases ss.len(),
{
    if ss.len() != 0 {
        let tail = ss.subrange(1, ss.len() as int);
        assert forall|k: int| 0 <= k < tail.len() implies (#[trigger] tail[k]).symbol != sym by {
            assert(tail[k] == ss[k + 1]);
        }
        lemma_find_symbol_none(tail, sym);
    }
}

/// Adding a symbol installs a fresh default session under that key: over
/// an existing session it replaces it, else it appends.
pub open spec fn spec_add(ss: Seq<StockModel>, sym: Seq<char>) -> Seq<StockModel> {
    let i = find_symbol(ss, sym);
    if i >= 0 {
        ss.update(i, fresh_session(sym))
    } else {
        ss.push(fresh_session(sym))
    }
}

/// Removing a symbol drops its session; absent keys change nothing.
pub open spec fn spec_remove(ss: Seq<StockModel>, sym: Seq<char>) -> Seq<StockModel> {
    let i = find_symbol(ss, sym);
    if i >= 0 {
        ss.remove(i)
    } else {
        ss
    }
}

/// The session a lookup returns.
pub open spec fn spec_lookup(ss: Seq<StockModel>, sym: Seq<char>) -> Option<StockModel> {
    let i = find_symbol(ss, sym);
    if i >= 0 {
        Some(ss[i])
    } else {
        None
    }
}

/// A session after a refresh completion: the whole series replaced and the
/// refresh instant recorded; everything else untouched.
pub open spec fn refreshed_session(m: StockModel, series: SeriesModel, now_ms: i64) -> StockModel {
    StockModel { series, last_refresh_ms: now_ms, ..m }
}

/// A refresh completion lands only on the session it names; for an absent
/// symbol it is dropped and nothing changes.
pub open spec fn spec_apply_refresh(
    ss: Seq<StockModel>,
    sym: Seq<char>,
    series: SeriesModel,
    now_ms: i64,
) -> Seq<StockModel> {
    let i = find_symbol(ss, sym);
    if i >= 0 {
        ss.update(i, refreshed_session(ss[i], series, now_ms))
    } else {
        ss
    }
}

/// Registry well-formedness: keys unique and every session well-formed.
pub open spec fn registry_wf(ss: Seq<StockModel>) -> bool {
    &&& forall|i: int, j: int|
        0 <= i < j < ss.len() ==> (#[trigger] ss[i]).symbol != (#[trigger] ss[j]).symbol
    &&& forall|i: int| 0 <= i < ss.len() ==> session_wf(#[trigger] ss[i])
}

/// The refresh cadence: a tick at `now_ms` is due once the configured
/// interval has passed since the last refresh.
pub open spec fn refresh_due(last_refresh_ms: i64, interval_ms: i64, now_ms: i64) -> bool {
    now_ms - last_refresh_ms >= interval_ms
}

/// Replacing one session with one of the same symbol, well-formed, keeps
/// the registry well-formed.
proof fn lemma_wf_after_session_update(pre: Seq<StockModel>, post: Seq<StockModel>, i: int)
    requires
        registry_wf(pre),
        0 <= i < pre.len(),
        post.len() == pre.len(),
        forall|j: int| 0 <= j < pre.len() && j != i ==> post[j] == pre[j],
        post[i].symbol == pre[i].symbol,
        session_wf(post[i]),
    ensures
        registry_wf(post),
{
    assert forall|j: int| 0 <= j < post.len() implies (#[trigger] post[j]).symbol
        == pre[j].symbol by {}
}

/// Character-by-character string equality.
pub fn str_eq(a: &str, b: &str) -> (r: bool)
    ensures
        r == (a@ == b@),
{
    let na = a.unicode_len();
    let nb = b.unicode_len();
    if na != nb {
        return false;
    }
    let mut i: usize = 0;
    while i < na
        invariant
            0 <= i <= na,
            na == a@.len(),
            na == b@.len(),
            forall|k: int| 0 <= k < i ==> a@[k] == b@[k],
        decreases na - i,
    {
        if a.get_char(i) != b.get_char(i) {
            return false;
        }
        i = i + 1;
    }
    proof {
        assert(a@ =~= b@);
    }
    true
}

/// The watchlist: sessions keyed by symbol, with the refresh cadence the
/// scheduler runs on.
pub struct Watchlist {
    entries: Vec<Stock>,
    last_refresh_ms: i64,
    interval_ms: i64,
}

impl View for Watchlist {
    type V = Seq<StockModel>;

    closed spec fn view(&self) -> Seq<StockModel> {
        Seq::new(self.entries@.len(), |i: int| self.entries@[i]@)
    }
}

impl Watchlist {
    pub open spec fn wf(&self) -> bool {
        registry_wf(self@)
    }

    pub closed spec fn spec_last_refresh_ms(&self) -> i64 {
        self.last_refresh_ms
    }

    pub closed spec fn spec_interval_ms(&self) -> i64 {
        self.interval_ms
    }

    /// An empty watchlist that will first be due `interval_ms` after
    /// `now_ms`.
    pub fn new(interval_ms: i64, now_ms: i64) -> (r: Watchlist)
        ensures
            r@ == Seq::<StockModel>::empty(),
            r.wf(),
            r.spec_last_refresh_ms() == now_ms,
            r.spec_interval_ms() == interval_ms,
    {
        let r = Watchlist { entries: Vec::new(), last_refresh_ms: now_ms, interval_ms };
        proof {
            assert(r@ =~= Seq::<StockModel>::empty());
        }
        r
    }

    pub fn len(&self) -> (r: usize)
        ensures
            r == self@.len(),
    {
        self.entries.len()
    }

    pub fn is_empty(&self) -> (r: bool)
        ensures
            r == (self@.len() == 0),
    {
        self.entries.len() == 0
    }

    pub fn last_refresh_ms(&self) -> (r: i64)
        ensures
            r == self.spec_last_refresh_ms(),
    {
        self.last_refresh_ms
    }

    pub fn interval_ms(&self) -> (r: i64)
        ensures
            r == self.spec_interval_ms(),
    {
        self.interval_ms
    }

    /// Index of the session keyed by `symbol`.
    fn index_of(&self, symbol: &str) -> (r: Option<usize>)
        ensures
            match r {
                Some(i) => i < self@.len() && find_symbol(self@, symbol@) == i as int,
                None => find_symbol(self@, symbol@) == -1,
            },
    {
        let n = self.entries.len();
        let mut i: usize = 0;
        while i < n
            invariant
                0 <= i <= n,
                n == self@.len(),
                n == self.entries@.len(),
                forall|k: int| 0 <= k < i ==> (#[trigger] self@[k]).symbol != symbol@,
            decreases n - i,
        {
            if str_eq(self.entries[i].symbol().as_str(), symbol) {
                proof {
                    lemma_find_symbol_at(self@, symbol@, i as int);
                }
                return Some(i);
            }
            i = i + 1;
        }
        proof {
            lemma_find_symbol_none(self@, symbol@);
        }
        None
    }

    pub fn contains(&self, symbol: &str) -> (r: bool)
        ensures
            r == contains_symbol(self@, symbol@),
    {
        self.index_of(symbol).is_some()
    }

    /// The session keyed by `symbol`, for the render pass to read.
    pub fn lookup(&self, symbol: &str) -> (r: Option<&Stock>)
        ensures
            match r {
                Some(s) => contains_symbol(self@, symbol@) && Some(s@) == spec_lookup(
                    self@,
                    symbol@,
                ),
                None => !contains_symbol(self@, symbol@),
            },
    {
        match self.index_of(symbol) {
            Some(i) => Some(&self.entries[i]),
            None => None,
        }
    }

    /// Adds `symbol` to the watchlist with a fresh default session,
    /// replacing any session already under that key.
    pub fn add(&mut self, symbol: &str)
        requires
            old(self).wf(),
        ensures
            final(self).wf(),
            final(self)@ == spec_add(old(self)@, symbol@),
            final(self).spec_last_refresh_ms() == old(self).spec_last_refresh_ms(),
            final(self).spec_interval_ms() == old(self).spec_interval_ms(),
    {
        proof {
            lemma_find_symbol(old(self)@, symbol@);
        }
        match self.index_of(symbol) {
            Some(i) => {
                self.entries.set(i, Stock::default(symbol));
                proof {
                    assert(self@ =~= spec_add(old(self)@, symbol@));
                }
            },
            None => {
                self.entries.push(Stock::default(symbol));
                proof {
                    assert(self@ =~= spec_add(old(self)@, symbol@));
                }
            },
        }
    }

    /// Removes `symbol`'s session; says whether one was there.
    pub fn remove(&mut self, symbol: &str) -> (removed: bool)
        requires
            old(self).wf(),
        ensures
            final(self).wf(),
            removed == contains_symbol(old(self)@, symbol@),
            final(self)@ == spec_remove(old(self)@, symbol@),
            final(self).spec_last_refresh_ms() == old(self).spec_last_refresh_ms(),
            final(self).spec_interval_ms() == old(self).spec_interval_ms(),
    {
        match self.index_of(symbol) {
            Some(i) => {
                self.entries.remove(i);
                proof {
                    assert(self@ =~= spec_remove(old(self)@, symbol@));
                }
                true
            },
            None => false,
        }
    }

    /// Every watched symbol, in registry order, for the scheduler to fan
    /// requests out over.
    pub fn symbols(&self) -> (r: Vec<String>)
        ensures
            r@.len() == self@.len(),
            forall|i: int| 0 <= i < self@.len() ==> (#[trigger] r@[i])@ == self@[i].symbol,
    {
        let n = self.entries.len();
        let mut r: Vec<String> = Vec::new();
        let mut i: usize = 0;
        while i < n
            invariant
                0 <= i <= n,
                n == self@.len(),
                n == self.entries@.len(),
                r@.len() == i,
                forall|k: int| 0 <= k < i ==> (#[trigger] r@[k])@ == self@[k].symbol,
            decreases n - i,
        {
            r.push(self.entries[i].symbol().clone());
            i = i + 1;
        }
        r
    }

    /// One scheduler tick. When the interval has passed since the last
    /// refresh, marks the refresh as happening now and returns every
    /// watched symbol, one outbound request each; otherwise returns no
    /// work. Sessions are never touched.
    pub fn poll_refresh(&mut self, now_ms: i64) -> (due: Vec<String>)
        ensures
            final(self)@ == old(self)@,
            final(self).wf() == old(self).wf(),
            final(self).spec_interval_ms() == old(self).spec_interval_ms(),
            refresh_due(old(self).spec_last_refresh_ms(), old(self).spec_interval_ms(), now_ms)
                ==> final(self).spec_last_refresh_ms() == now_ms && due@.len() == old(self)@.len()
                && (forall|i: int|
                0 <= i < old(self)@.len() ==> (#[trigger] due@[i])@ == old(self)@[i].symbol),
            !refresh_due(old(self).spec_last_refresh_ms(), old(self).spec_interval_ms(), now_ms)
                ==> final(self).spec_last_refresh_ms() == old(self).spec_last_refresh_ms()
                && due@.len() == 0,
    {
        let elapsed_ok = (now_ms as i128) - (self.last_refresh_ms as i128) >= (
        self.interval_ms as i128);
        if elapsed_ok {
            self.last_refresh_ms = now_ms;
            self.symbols()
        } else {
            Vec::new()
        }
    }

    /// Delivers a refresh completion: replaces the named session's whole
    /// series and records the refresh instant. A completion for an absent
    /// symbol — removed while the request was in flight — is dropped.
    pub fn apply_refresh(&mut self, symbol: &str, series: TimeSeries, now_ms: i64) -> (applied:
        bool)
        requires
            old(self).wf(),
        ensures
            final(self).wf(),
            applied == contains_symbol(old(self)@, symbol@),
            final(self)@ == spec_apply_refresh(old(self)@, symbol@, series@, now_ms),
            final(self).spec_last_refresh_ms() == old(self).spec_last_refresh_ms(),
            final(self).spec_interval_ms() == old(self).spec_interval_ms(),
    {
        match self.index_of(symbol) {
            Some(i) => {
                let st = &mut self.entries[i];
                st.set_time_series(series);
                st.mark_refreshed(now_ms);
                proof {
                    assert(self@ =~= spec_apply_refresh(old(self)@, symbol@, series@, now_ms));
                }
                true
            },
            None => false,
        }
    }

    /// Replaces the named session's quote snapshot in one step.
    pub fn update_quote(&mut self, symbol: &str, quote: QuoteSnapshot) -> (updated: bool)
        requires
            old(self).wf(),
        ensures
            final(self).wf(),
            updated == contains_symbol(old(self)@, symbol@),
            updated ==> final(self)@ == old(self)@.update(
                find_symbol(old(self)@, symbol@),
                (StockModel { quote, ..old(self)@[find_symbol(old(self)@, symbol@)] }),
            ),
            !updated ==> final(self)@ == old(self)@,
            final(self).spec_last_refresh_ms() == old(self).spec_last_refresh_ms(),
            final(self).spec_interval_ms() == old(self).spec_interval_ms(),
    {
        match self.index_of(symbol) {
            Some(i) => {
                self.entries[i].update_quote_snapshot(quote);
                proof {
                    assert(self@ =~= old(self)@.update(
                        i as int,
                        (StockModel { quote, ..old(self)@[i as int] }),
                    ));
                }
                true
            },
            None => false,
        }
    }

    /// Flips one chart layer of the named session.
    pub fn toggle(&mut self, symbol: &str, kind: ChartKind) -> (toggled: bool)
        requires
            old(self).wf(),
        ensures
            final(self).wf(),
            toggled == contains_symbol(old(self)@, symbol@),
            !toggled ==> final(self)@ == old(self)@,
            toggled ==> final(self)@ == old(self)@.update(
                find_symbol(old(self)@, symbol@),
                toggled_session(old(self)@[find_symbol(old(self)@, symbol@)], kind),
            ),
            final(self).spec_last_refresh_ms() == old(self).spec_last_refresh_ms(),
            final(self).spec_interval_ms() == old(self).spec_interval_ms(),
    {
        match self.index_of(symbol) {
            Some(i) => {
                self.entries[i].toggle(kind);
                proof {
                    assert(self@ =~= old(self)@.update(
                        i as int,
                        toggled_session(old(self)@[i as int], kind),
                    ));
                    lemma_wf_after_session_update(old(self)@, self@, i as int);
                }
                true
            },
            None => false,
        }
    }

    /// Opens or closes the named session's window flag.
    pub fn set_open(&mut self, symbol: &str, open: bool) -> (found: bool)
        requires
            old(self).wf(),
        ensures
            final(self).wf(),
            found == contains_symbol(old(self)@, symbol@),
            found ==> final(self)@ == old(self)@.update(
                find_symbol(old(self)@, symbol@),
                (StockModel { open, ..old(self)@[find_symbol(old(self)@, symbol@)] }),
            ),
            !found ==> final(self)@ == old(self)@,
            final(self).spec_last_refresh_ms() == old(self).spec_last_refresh_ms(),
            final(self).spec_interval_ms() == old(self).spec_interval_ms(),
    {
        match self.index_of(symbol) {
            Some(i) => {
                self.entries[i].set_open(open);
                proof {
                    assert(self@ =~= old(self)@.update(
                        i as int,
                        (StockModel { open, ..old(self)@[i as int] }),
                    ));
                }
                true
            },
            None => false,
        }
    }

    /// Begins an order on the named session; see [`Stock::begin_order`].
    pub fn begin_order(&mut self, symbol: &str, side: crate::order::OrderSide, qty_text: &str, price_text: &str) -> (accepted: bool)
        requires
            old(self).wf(),
        ensures
            final(self).wf(),
            accepted ==> contains_symbol(old(self)@, symbol@),
            contains_symbol(old(self)@, symbol@) ==> accepted == crate::order::begin_accepts(
                old(self)@[find_symbol(old(self)@, symbol@)].order,
                qty_text@,
                price_text@,
            ),
            accepted ==> final(self)@ == old(self)@.update(
                find_symbol(old(self)@, symbol@),
                begun_order_session(
                    old(self)@[find_symbol(old(self)@, symbol@)],
                    side,
                    qty_text@,
                    price_text@,
                ),
            ),
            !accepted ==> final(self)@ == old(self)@,
            final(self).spec_last_refresh_ms() == old(self).spec_last_refresh_ms(),
            final(self).spec_interval_ms() == old(self).spec_interval_ms(),
    {
        match self.index_of(symbol) {
            Some(i) => {
                let accepted = self.entries[i].begin_order(side, qty_text, price_text);
                proof {
                    if accepted {
                        assert(self@ =~= old(self)@.update(
                            i as int,
                            begun_order_session(
                                old(self)@[i as int],
                                side,
                                qty_text@,
                                price_text@,
                            ),
                        ));
                    } else {
                        assert(self@ =~= old(self)@);
                    }
                    lemma_wf_after_session_update(old(self)@, self@, i as int);
                }
                accepted
            },
            None => false,
        }
    }

    /// Confirms the named session's pending order; see
    /// [`Stock::confirm_order`].
    pub fn confirm_order(&mut self, symbol: &str) -> (r: Option<OrderRequest>)
        requires
            old(self).wf(),
        ensures
            final(self).wf(),
            r is Some <==> contains_symbol(old(self)@, symbol@) && old(self)@[find_symbol(
                old(self)@,
                symbol@,
            )].order.status == OrderStatus::PendingConfirmation,
            r is Some ==> r->0@ == (OrderRequestModel {
                symbol: old(self)@[find_symbol(old(self)@, symbol@)].symbol,
                side: old(self)@[find_symbol(old(self)@, symbol@)].order.side->0,
                qty_text: old(self)@[find_symbol(old(self)@, symbol@)].order.qty_text,
                price_text: old(self)@[find_symbol(old(self)@, symbol@)].order.price_text,
            }),
            r is Some ==> final(self)@ == old(self)@.update(
                find_symbol(old(self)@, symbol@),
                confirmed_session(old(self)@[find_symbol(old(self)@, symbol@)]),
            ),
            r is None ==> final(self)@ == old(self)@,
            final(self).spec_last_refresh_ms() == old(self).spec_last_refresh_ms(),
            final(self).spec_interval_ms() == old(self).spec_interval_ms(),
    {
        match self.index_of(symbol) {
            Some(i) => {
                let r = self.entries[i].confirm_order();
                proof {
                    if r is Some {
                        assert(self@ =~= old(self)@.update(
                            i as int,
                            confirmed_session(old(self)@[i as int]),
                        ));
                    } else {
                        assert(self@ =~= old(self)@);
                    }
                    lemma_wf_after_session_update(old(self)@, self@, i as int);
                }
                r
            },
            None => None,
        }
    }

    /// Cancels the named session's pending order; see
    /// [`Stock::cancel_order`].
    pub fn cancel_order(&mut self, symbol: &str) -> (cancelled: bool)
        requires
            old(self).wf(),
        ensures
            final(self).wf(),
            cancelled ==> contains_symbol(old(self)@, symbol@),
            contains_symbol(old(self)@, symbol@) ==> cancelled == (old(self)@[find_symbol(
                old(self)@,
                symbol@,
            )].order.status == OrderStatus::PendingConfirmation),
            cancelled ==> final(self)@ == old(self)@.update(
                find_symbol(old(self)@, symbol@),
                cancelled_session(old(self)@[find_symbol(old(self)@, symbol@)]),
            ),
            !cancelled ==> final(self)@ == old(self)@,
            final(self).spec_last_refresh_ms() == old(self).spec_last_refresh_ms(),
            final(self).spec_interval_ms() == old(self).spec_interval_ms(),
    {
        match self.index_of(symbol) {
            Some(i) => {
                let cancelled = self.entries[i].cancel_order();
                proof {
                    if cancelled {
                        assert(self@ =~= old(self)@.update(
                            i as int,
                            cancelled_session(old(self)@[i as int]),
                        ));
                    } else {
                        assert(self@ =~= old(self)@);
                    }
                    lemma_wf_after_session_update(old(self)@, self@, i as int);
                }
                cancelled
            },
            None => false,
        }
    }
}

/// A lookup immediately after `add` finds a session in the default state:
/// empty time series, zeroed quote snapshot, fresh order form.
pub proof fn lemma_add_then_lookup(ss: Seq<StockModel>, sym: Seq<char>)
    ensures
        spec_lookup(spec_add(ss, sym), sym) == Some(fresh_session(sym)),
{
    lemma_find_symbol(ss, sym);
    let i = find_symbol(ss, sym);
    if i >= 0 {
        let post = ss.update(i, fresh_session(sym));
        assert forall|k: int| 0 <= k < i implies (#[trigger] post[k]).symbol != sym by {
            assert(post[k] == ss[k]);
        }
        lemma_find_symbol_at(post, sym, i);
    } else {
        let post = ss.push(fresh_session(sym));
        assert forall|k: int| 0 <= k < ss.len() implies (#[trigger] post[k]).symbol != sym by {
            assert(post[k] == ss[k]);
        }
        assert(post[ss.len() as int].symbol == sym);
        lemma_find_symbol_at(post, sym, ss.len() as int);
    }
}

/// Registry isolation: a refresh completion for one symbol leaves every
/// session with a different symbol exactly as it was.
pub proof fn lemma_refresh_isolation(
    ss: Seq<StockModel>,
    sym: Seq<char>,
    series: SeriesModel,
    now_ms: i64,
    j: int,
)
    requires
        0 <= j < ss.len(),
        ss[j].symbol != sym,
    ensures
        spec_apply_refresh(ss, sym, series, now_ms).len() == ss.len(),
        spec_apply_refresh(ss, sym, series, now_ms)[j] == ss[j],
{
    lemma_find_symbol(ss, sym);
}

/// A removed symbol stays removed: delivering a stale in-flight refresh
/// completion for it changes nothing and does not re-insert it.
pub proof fn lemma_stale_refresh_after_remove(
    ss: Seq<StockModel>,
    sym: Seq<char>,
    series: SeriesModel,
    now_ms: i64,
)
    requires
        registry_wf(ss),
    ensures
        !contains_symbol(spec_remove(ss, sym), sym),
        spec_apply_refresh(spec_remove(ss, sym), sym, series, now_ms) == spec_remove(ss, sym),
{
    lemma_find_symbol(ss, sym);
    let i = find_symbol(ss, sym);
    if i >= 0 {
        let post = ss.remove(i);
        assert forall|k: int| 0 <= k < post.len() implies (#[trigger] post[k]).symbol != sym by {
            if k < i {
                assert(post[k] == ss[k]);
            } else {
                assert(post[k] == ss[k + 1]);
            }
        }
        lemma_find_symbol_none(post, sym);
    }
}

} // verus!
