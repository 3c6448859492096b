//! The order-entry workflow: a small state machine from text input through
//! a confirmation step to a fire-and-forget submit.
//!
//! `Editing` accepts new quantity/price text; valid positive numeric text
//! moves the form to `PendingConfirmation`; confirming hands an
//! [`OrderRequest`] to the transport and — since the submit is
//! fire-and-forget and its outcome only logged — returns at once to
//! `Editing` with the fields cleared, while cancelling returns to `Editing`
//! with the fields untouched.

use vstd::prelude::*;
use vstd::string::StringExecFns;
use crate::text::{valid_price_text, valid_quantity_text, validate_trade_inputs};

verus! {

/// Which way an order trades.
#[derive(Clone, Copy, PartialEq, Eq, Structural, Debug)]
pub enum OrderSide {
    Buy,
    Sell,
}

/// Where the workflow stands.
///
/// `Submitting` is the in-flight phase of a submit. The submit never
/// blocks, so `confirm_order` passes through it and lands back in
/// `Editing` within the same call; the variant names the phase for a
/// caller that tracks a hand-off of its own.
#[derive(Clone, Copy, PartialEq, Eq, Structural, Debug)]
pub enum OrderStatus {
    Editing,
    PendingConfirmation,
    Submitting,
}

/// The mathematical value of an [`OrderForm`].
pub ghost struct OrderFormModel {
    pub status: OrderStatus,
    pub side: Option<OrderSide>,
    pub qty_text: Seq<char>,
    pub price_text: Seq<char>,
}

/// The mathematical value of an [`OrderRequest`].
pub ghost struct OrderRequestModel {
    pub symbol: Seq<char>,
    pub side: OrderSide,
    pub qty_text: Seq<char>,
    pub price_text: Seq<char>,
}

/// What a confirmed order hands to the transport: symbol, side, and the
/// validated quantity and price text.
pub struct OrderRequest {
    pub symbol: String,
    pub side: OrderSide,
    pub qty_text: String,
    pub price_text: String,
}

impl View for OrderRequest {
    type V = OrderRequestModel;

    open spec fn view(&self) -> OrderRequestModel {
        OrderRequestModel {
            symbol: self.symbol@,
            side: self.side,
            qty_text: self.qty_text@,
            price_text: self.price_text@,
        }
    }
}

/// The order-entry sub-state of one symbol session.
pub struct OrderForm {
    status: OrderStatus,
    side: Option<OrderSide>,
    qty_text: String,
    price_text: String,
}

impl View for OrderForm {
    type V = OrderFormModel;

    closed spec fn view(&self) -> OrderFormModel {
        OrderFormModel {
            status: self.status,
            side: self.side,
            qty_text: self.qty_text@,
            price_text: self.price_text@,
        }
    }
}

/// A fresh form, as a new session carries it.
pub open spec fn fresh_order_form() -> OrderFormModel {
    OrderFormModel {
        status: OrderStatus::Editing,
        side: None,
        qty_text: Seq::<char>::empty(),
        price_text: Seq::<char>::empty(),
    }
}

/// Well-formedness of a form: a pending confirmation always knows its
/// side. `OrderForm::new` establishes it and every transition keeps it.
pub open spec fn order_form_wf(m: OrderFormModel) -> bool {
    m.status == OrderStatus::PendingConfirmation ==> m.side is Some
}

/// Whether `begin_order` accepts: the form is editing and both fields hold
/// valid positive numeric text.
pub open spec fn begin_accepts(
    pre: OrderFormModel,
    qty_text: Seq<char>,
    price_text: Seq<char>,
) -> bool {
    pre.status == OrderStatus::Editing && valid_quantity_text(qty_text) && valid_price_text(
        price_text,
    )
}

impl OrderForm {
    pub fn new() -> (r: OrderForm)
        ensures
            r@ == fresh_order_form(),
            order_form_wf(r@),
    {
        OrderForm {
            status: OrderStatus::Editing,
            side: None,
            qty_text: String::new(),
            price_text: String::new(),
        }
    }

    pub fn status(&self) -> (r: OrderStatus)
        ensures
            r == self@.status,
    {
        self.status
    }

    pub fn side(&self) -> (r: Option<OrderSide>)
        ensures
            r == self@.side,
    {
        self.side
    }

    pub fn qty_text(&self) -> (r: &String)
        ensures
            r@ == self@.qty_text,
    {
        &self.qty_text
    }

    pub fn price_text(&self) -> (r: &String)
        ensures
            r@ == self@.price_text,
    {
        &self.price_text
    }

    /// Validates the fields and, from `Editing` with valid input, moves to
    /// `PendingConfirmation` holding the side and the validated text.
    /// Invalid input, or any other status, changes nothing.
    pub fn begin_order(&mut self, side: OrderSide, qty_text: &str, price_text: &str) -> (accepted:
        bool)
        ensures
            accepted == begin_accepts(old(self)@, qty_text@, price_text@),
            order_form_wf(old(self)@) ==> order_form_wf(final(self)@),
            accepted ==> final(self)@ == (OrderFormModel {
                status: OrderStatus::PendingConfirmation,
                side: Some(side),
                qty_text: qty_text@,
                price_text: price_text@,
            }),
            !accepted ==> final(self)@ == old(self)@,
    {
        if !matches!(self.status, OrderStatus::Editing) {
            return false;
        }
        if !validate_trade_inputs(qty_text, price_text) {
            return false;
        }
        self.status = OrderStatus::PendingConfirmation;
        self.side = Some(side);
        self.qty_text = String::from_str(qty_text);
        self.price_text = String::from_str(price_text);
        true
    }

    /// From `PendingConfirmation`, hands back the request for the
    /// fire-and-forget submit and returns to `Editing` with the fields
    /// cleared, whatever the submit's outcome will be. Any other status
    /// changes nothing.
    pub fn confirm_order(&mut self, symbol: &String) -> (r: Option<OrderRequest>)
        requires
            order_form_wf(old(self)@),
        ensures
            order_form_wf(final(self)@),
            r is Some <==> old(self)@.status == OrderStatus::PendingConfirmation,
            r is Some ==> r->0@ == (OrderRequestModel {
                symbol: symbol@,
                side: old(self)@.side->0,
                qty_text: old(self)@.qty_text,
                price_text: old(self)@.price_text,
            }) && final(self)@ == fresh_order_form(),
            r is None ==> final(self)@ == old(self)@,
    {
        if !matches!(self.status, OrderStatus::PendingConfirmation) {
            return None;
        }
        let side = match self.side {
            Some(s) => s,
            None => {
                return None;
            },
        };
        let mut qty_text = String::new();
        let mut price_text = String::new();
        core::mem::swap(&mut qty_text, &mut self.qty_text);
        core::mem::swap(&mut price_text, &mut self.price_text);
        self.status = OrderStatus::Editing;
        self.side = None;
        Some(
            OrderRequest {
                symbol: symbol.clone(),
                side,
                qty_text,
                price_text,
            },
        )
    }

    /// From `PendingConfirmation`, returns to `Editing` with every field
    /// untouched. Any other status changes nothing.
    pub fn cancel_order(&mut self) -> (cancelled: bool)
        ensures
            cancelled == (old(self)@.status == OrderStatus::PendingConfirmation),
            order_form_wf(old(self)@) ==> order_form_wf(final(self)@),
            cancelled ==> final(self)@ == (OrderFormModel {
                status: OrderStatus::Editing,
                ..old(self)@
            }),
            !cancelled ==> final(self)@ == old(self)@,
    {
        if !matches!(self.status, OrderStatus::PendingConfirmation) {
            return false;
        }
        self.status = OrderStatus::Editing;
        true
    }
}

} // verus!
