//! One symbol's session: the time-series store, the live quote snapshot,
//! chart visibility toggles, the open/closed window flag, and the order
//! workflow, under one key. The refresh path and the render path both work
//! on a session only through these operations, so a reader always sees a
//! whole update, never a torn one.

use vstd::prelude::*;
use vstd::string::StringExecFns;
use crate::order::{
    begin_accepts,
    fresh_order_form,
    order_form_wf,
    OrderForm,
    OrderFormModel,
    OrderRequest,
    OrderRequestModel,
    OrderSide,
};
use crate::series::{Granularity, Sample, SeriesModel, TimeSeries};

verus! {

/// The live quote fields of one symbol. Prices and the daily change are
/// integer minor units; the relative daily change is basis points.
#[derive(Clone, Copy, PartialEq, Eq, Structural, Debug)]
pub struct QuoteSnapshot {
    pub last_price: i64,
    pub bid_price: i64,
    pub ask_price: i64,
    pub daily_change: i64,
    pub daily_change_bp: i64,
    pub volume: u64,
}

/// The all-zero quote a fresh session starts with.
pub open spec fn zero_quote() -> QuoteSnapshot {
    QuoteSnapshot {
        last_price: 0,
        bid_price: 0,
        ask_price: 0,
        daily_change: 0,
        daily_change_bp: 0,
        volume: 0,
    }
}

/// One chart layer a session can show or hide.
#[derive(Clone, Copy, PartialEq, Eq, Structural, Debug)]
pub enum ChartKind {
    Candle,
    Line,
    Volume,
}

/// The mathematical value of a [`Stock`] session.
pub ghost struct StockModel {
    pub symbol: Seq<char>,
    pub series: SeriesModel,
    pub last_refresh_ms: i64,
    pub candle_on: bool,
    pub line_on: bool,
    pub volume_on: bool,
    pub open: bool,
    pub quote: QuoteSnapshot,
    pub order: OrderFormModel,
}

/// The state a session is created with: empty series, zeroed quote, candle
/// and volume layers on, window open, order form fresh.
pub open spec fn fresh_session(sym: Seq<char>) -> StockModel {
    StockModel {
        symbol: sym,
        series: SeriesModel {
            granularity: Granularity::Day,
            start_ms: 0,
            end_ms: 0,
            samples: Seq::<Sample>::empty(),
        },
        last_refresh_ms: 0,
        candle_on: true,
        line_on: false,
        volume_on: true,
        open: true,
        quote: zero_quote(),
        order: fresh_order_form(),
    }
}

/// Well-formedness of a session: its order form is well-formed.
pub open spec fn session_wf(m: StockModel) -> bool {
    order_form_wf(m.order)
}

/// A session with one chart layer flipped.
pub open spec fn toggled_session(m: StockModel, kind: ChartKind) -> StockModel {
    match kind {
        ChartKind::Candle => StockModel { candle_on: !m.candle_on, ..m },
        ChartKind::Line => StockModel { line_on: !m.line_on, ..m },
        ChartKind::Volume => StockModel { volume_on: !m.volume_on, ..m },
    }
}

/// A session whose form just accepted an order: pending confirmation,
/// holding the side and the validated text.
pub open spec fn begun_order_session(
    m: StockModel,
    side: OrderSide,
    qty_text: Seq<char>,
    price_text: Seq<char>,
) -> StockModel {
    StockModel {
        order: OrderFormModel {
            status: crate::order::OrderStatus::PendingConfirmation,
            side: Some(side),
            qty_text,
            price_text,
        },
        ..m
    }
}

/// A session whose pending order was just confirmed: form fresh again.
pub open spec fn confirmed_session(m: StockModel) -> StockModel {
    StockModel { order: fresh_order_form(), ..m }
}

/// A session whose pending order was just cancelled: back to editing,
/// fields untouched.
pub open spec fn cancelled_session(m: StockModel) -> StockModel {
    StockModel {
        order: OrderFormModel { status: crate::order::OrderStatus::Editing, ..m.order },
        ..m
    }
}

/// One watched symbol's session. The symbol is fixed at creation; all
/// other state changes only through the operations below.
pub struct Stock {
    symbol: String,
    time_series: TimeSeries,
    last_refresh_ms: i64,
    candle_toggle: bool,
    line_toggle: bool,
    volume_toggle: bool,
    open: bool,
    quote: QuoteSnapshot,
    order: OrderForm,
}

impl View for Stock {
    type V = StockModel;

    closed spec fn view(&self) -> StockModel {
        StockModel {
            symbol: self.symbol@,
            series: self.time_series@,
            last_refresh_ms: self.last_refresh_ms,
            candle_on: self.candle_toggle,
            line_on: self.line_toggle,
            volume_on: self.volume_toggle,
            open: self.open,
            quote: self.quote,
            order: self.order@,
        }
    }
}

impl Stock {
    /// A new session for `stock_name`, in the default state a watchlist
    /// entry starts with.
    pub fn default(stock_name: &str) -> (r: Stock)
        ensures
            r@ == fresh_session(stock_name@),
            session_wf(r@),
    {
        Stock {
            symbol: String::from_str(stock_name),
            time_series: TimeSeries::empty(),
            last_refresh_ms: 0,
            candle_toggle: true,
            line_toggle: false,
            volume_toggle: true,
            open: true,
            quote: QuoteSnapshot {
                last_price: 0,
                bid_price: 0,
                ask_price: 0,
                daily_change: 0,
                daily_change_bp: 0,
                volume: 0,
            },
            order: OrderForm::new(),
        }
    }

    pub fn symbol(&self) -> (r: &String)
        ensures
            r@ == self@.symbol,
    {
        &self.symbol
    }

    pub fn series(&self) -> (r: &TimeSeries)
        ensures
            r@ == self@.series,
    {
        &self.time_series
    }

    pub fn last_refresh_ms(&self) -> (r: i64)
        ensures
            r == self@.last_refresh_ms,
    {
        self.last_refresh_ms
    }

    pub fn quote(&self) -> (r: QuoteSnapshot)
        ensures
            r == self@.quote,
    {
        self.quote
    }

    pub fn is_open(&self) -> (r: bool)
        ensures
            r == self@.open,
    {
        self.open
    }

    pub fn order(&self) -> (r: &OrderForm)
        ensures
            r@ == self@.order,
    {
        &self.order
    }

    pub fn shows(&self, kind: ChartKind) -> (r: bool)
        ensures
            r == match kind {
                ChartKind::Candle => self@.candle_on,
                ChartKind::Line => self@.line_on,
                ChartKind::Volume => self@.volume_on,
            },
    {
        match kind {
            ChartKind::Candle => self.candle_toggle,
            ChartKind::Line => self.line_toggle,
            ChartKind::Volume => self.volume_toggle,
        }
    }

    /// Atomically replaces the whole stored series with an incoming
    /// payload; nothing else changes.
    pub fn set_time_series(&mut self, time_series: TimeSeries)
        ensures
            final(self)@ == (StockModel { series: time_series@, ..old(self)@ }),
    {
        self.time_series = time_series;
    }

    /// Records when the session's data was last refreshed.
    pub fn mark_refreshed(&mut self, now_ms: i64)
        ensures
            final(self)@ == (StockModel { last_refresh_ms: now_ms, ..old(self)@ }),
    {
        self.last_refresh_ms = now_ms;
    }

    /// Replaces the live quote fields in one step.
    pub fn update_quote_snapshot(&mut self, quote: QuoteSnapshot)
        ensures
            final(self)@ == (StockModel { quote, ..old(self)@ }),
    {
        self.quote = quote;
    }

    /// Flips the visibility of one chart layer.
    pub fn toggle(&mut self, kind: ChartKind)
        ensures
            final(self)@ == toggled_session(old(self)@, kind),
    {
        match kind {
            ChartKind::Candle => {
                self.candle_toggle = !self.candle_toggle;
            },
            ChartKind::Line => {
                self.line_toggle = !self.line_toggle;
            },
            ChartKind::Volume => {
                self.volume_toggle = !self.volume_toggle;
            },
        }
    }

    /// Opens or closes the session's window flag.
    pub fn set_open(&mut self, open: bool)
        ensures
            final(self)@ == (StockModel { open, ..old(self)@ }),
    {
        self.open = open;
    }

    /// An immutable copy of the current samples for the render pass.
    pub fn series_snapshot(&self) -> (r: Vec<Sample>)
        ensures
            r@ == self@.series.samples,
    {
        self.time_series.snapshot()
    }

    /// Validates the order fields and moves the form to
    /// `PendingConfirmation`; see [`OrderForm::begin_order`].
    pub fn begin_order(&mut self, side: OrderSide, qty_text: &str, price_text: &str) -> (accepted:
        bool)
        ensures
            accepted == begin_accepts(old(self)@.order, qty_text@, price_text@),
            accepted ==> final(self)@ == begun_order_session(
                old(self)@,
                side,
                qty_text@,
                price_text@,
            ),
            !accepted ==> final(self)@ == old(self)@,
            session_wf(old(self)@) ==> session_wf(final(self)@),
    {
        self.order.begin_order(side, qty_text, price_text)
    }

    /// Confirms a pending order: hands back the request for the
    /// fire-and-forget submit and resets the form to editing with cleared
    /// fields; see [`OrderForm::confirm_order`].
    pub fn confirm_order(&mut self) -> (r: Option<OrderRequest>)
        requires
            session_wf(old(self)@),
        ensures
            session_wf(final(self)@),
            r is Some <==> old(self)@.order.status
                == crate::order::OrderStatus::PendingConfirmation,
            r is Some ==> r->0@ == (OrderRequestModel {
                symbol: old(self)@.symbol,
                side: old(self)@.order.side->0,
                qty_text: old(self)@.order.qty_text,
                price_text: old(self)@.order.price_text,
            }) && final(self)@ == confirmed_session(old(self)@),
            r is None ==> final(self)@ == old(self)@,
    {
        let symbol = self.symbol.clone();
        self.order.confirm_order(&symbol)
    }

    /// Cancels a pending order: back to editing, fields untouched; see
    /// [`OrderForm::cancel_order`].
    pub fn cancel_order(&mut self) -> (cancelled: bool)
        ensures
            cancelled == (old(self)@.order.status
                == crate::order::OrderStatus::PendingConfirmation),
            cancelled ==> final(self)@ == cancelled_session(old(self)@),
            !cancelled ==> final(self)@ == old(self)@,
            session_wf(old(self)@) ==> session_wf(final(self)@),
    {
        self.order.cancel_order()
    }
}

} // verus!
