//! Flat records of offers, for tabular export.
use vstd::prelude::*;
use crate::models::{symbol_of_currency, Offer, OfferView};
use crate::number::Amount;

verus! {

broadcast use vstd::string::group_string_axioms;

/// One offer as a flat record: the seller's fields beside the offer's, the
/// currency as its symbol.
#[derive(Debug, Clone)]
pub struct FlatOffer {
    pub offer_id: String,
    pub lot_id: String,
    pub server: String,
    pub description: String,
    pub price: Amount,
    pub currency: String,
    pub stock: u32,
    pub seller_id: String,
    pub seller_name: String,
    pub seller_rating: Amount,
    pub seller_reviews: u32,
    pub seller_online: bool,
}

/// `f` holds the fields of `o`.
pub open spec fn flattens(f: FlatOffer, o: OfferView) -> bool {
    &&& f.offer_id@ == o.offer_id
    &&& f.lot_id@ == o.lot_id
    &&& f.server@ == o.server
    &&& f.description@ == o.description
    &&& f.price@ == o.price
    &&& f.currency@ == symbol_of_currency(o.currency)
    &&& f.stock == o.stock
    &&& f.seller_id@ == o.seller.user_id
    &&& f.seller_name@ == o.seller.name
    &&& f.seller_rating@ == o.seller.rating
    &&& f.seller_reviews == o.seller.reviews
    &&& f.seller_online == o.seller.online
}

impl FlatOffer {
    /// The flat record of an offer.
    pub fn from_offer(o: &Offer) -> (res: FlatOffer)
        ensures
            flattens(res, o@),
    {
        FlatOffer {
            offer_id: o.offer_id.0.clone(),
            lot_id: o.lot_id.0.clone(),
            server: o.server.0.clone(),
            description: o.description.clone(),
            price: o.price.duplicate(),
            currency: o.currency.symbol().to_string(),
            stock: o.stock,
            seller_id: o.seller.user_id.0.clone(),
            seller_name: o.seller.name.clone(),
            seller_rating: o.seller.rating.duplicate(),
            seller_reviews: o.seller.reviews,
            seller_online: o.seller.online,
        }
    }
}

} // verus!
