//! Searching: which categories to visit, which offers to keep.
//!
//! Fetching pages is done outside the library; these functions decide what to
//! fetch and what to keep of what came back.
use vstd::prelude::*;
use crate::models::{Currency, Game, GameView, Offer, OfferView};
use crate::number::{amount_le, Amount};
use crate::text::{chars_of, concat_chars, contains, contains_chars, opt_chars, slice_of, starts_with, starts_with_chars, string_of};

verus! {

broadcast use vstd::string::group_string_axioms;

/// `str::to_lowercase` of `s` (Unicode lowercase mapping).
pub uninterp spec fn lowercase_of(s: Seq<char>) -> Seq<char>;

/// `str::to_lowercase`.
#[verifier::external_body]
pub(crate) fn to_lowercase(s: &str) -> (res: String)
    ensures
        res@ == lowercase_of(s@),
{
    s.to_lowercase()
}

/// A game matches a keyword when its lowercased name contains the lowercased
/// keyword.
pub open spec fn game_matches(g: GameView, keyword: Seq<char>) -> bool {
    contains(lowercase_of(g.name), lowercase_of(keyword))
}

/// The prefix of the URLs that game pages link to.
pub open spec fn funpay_root() -> Seq<char> {
    "https://funpay.com/"@
}

/// `url` on the server at `base_url`: a URL under `https://funpay.com/` has
/// that prefix, less its final `/`, replaced by `base_url`; any other URL is
/// kept.
pub open spec fn rebased_url(base_url: Seq<char>, url: Seq<char>) -> Seq<char> {
    if starts_with(url, funpay_root()) {
        base_url + url.skip(funpay_root().len() - 1)
    } else {
        url
    }
}

/// The category URLs of a game on the server at `base_url`: its chips URL,
/// then its lots URL, where it has them.
pub open spec fn game_urls(g: GameView, base_url: Seq<char>) -> Seq<Seq<char>> {
    (match g.chips_url {
        Some(u) => seq![rebased_url(base_url, u)],
        None => seq![],
    }) + (match g.lots_url {
        Some(u) => seq![rebased_url(base_url, u)],
        None => seq![],
    })
}

/// The category URLs to visit for `keyword` on the server at `base_url`: those
/// of each matching game, in the order of the games.
pub open spec fn search_urls(games: Seq<GameView>, keyword: Seq<char>, base_url: Seq<char>) -> Seq<Seq<char>>
    decreases games.len(),
{
    if games.len() == 0 {
        seq![]
    } else {
        let prev = search_urls(games.drop_last(), keyword, base_url);
        if game_matches(games.last(), keyword) {
            prev + game_urls(games.last(), base_url)
        } else {
            prev
        }
    }
}

/// `url` on the server at `base_url`.
pub fn rebase_url(base_url: &str, url: &str) -> (res: String)
    ensures
        res@ == rebased_url(base_url@, url@),
{
    proof {
        reveal_strlit("https://funpay.com/");
    }
    let u = chars_of(url);
    if starts_with_chars(&u, &chars_of("https://funpay.com/")) {
        let rest = slice_of(&u, 18, u.len());
        string_of(concat_chars(&chars_of(base_url), &rest).as_slice())
    } else {
        string_of(u.as_slice())
    }
}

/// Whether the lowercased name of `game` contains `keyword_lower`.
pub fn game_matches_keyword(game: &Game, keyword_lower: &Vec<char>) -> (res: bool)
    ensures
        res == contains(lowercase_of(game.name@), keyword_lower@),
{
    let name = to_lowercase(game.name.as_str());
    contains_chars(&chars_of(name.as_str()), keyword_lower)
}

/// The category URLs to visit when searching for `keyword` on the server at
/// `base_url`.
pub fn category_urls(games: &Vec<Game>, keyword: &str, base_url: &str) -> (res: Vec<String>)
    ensures
        res@.map_values(|u: String| u@) == search_urls(games@.map_values(|g: Game| g@), keyword@, base_url@),
{
    let kw = chars_of(to_lowercase(keyword).as_str());
    let ghost gs = games@.map_values(|g: Game| g@);
    let mut urls: Vec<String> = Vec::new();
    let mut i: usize = 0;
    while i < games.len()
        invariant
            i <= games.len(),
            gs == games@.map_values(|g: Game| g@),
            kw@ == lowercase_of(keyword@),
            urls@.map_values(|u: String| u@) == search_urls(gs.take(i as int), keyword@, base_url@),
        decreases games.len() - i,
    {
        assert(gs.take(i + 1).drop_last() =~= gs.take(i as int));
        assert(gs.take(i + 1).last() == games@[i as int]@);
        let ghost before = urls@.map_values(|u: String| u@);
        let g = &games[i];
        if game_matches_keyword(g, &kw) {
            match &g.chips_url {
                Some(u) => {
                    urls.push(rebase_url(base_url, u.as_str()));
                },
                None => {},
            }
            let ghost mid = urls@.map_values(|u: String| u@);
            match &g.lots_url {
                Some(u) => {
                    urls.push(rebase_url(base_url, u.as_str()));
                },
                None => {},
            }
            assert(urls@.map_values(|u: String| u@) =~= before + game_urls(g@, base_url@));
        }
        i += 1;
    }
    assert(gs.take(games.len() as int) =~= gs);
    urls
}

/// The offers of `offers` priced at most `max`, in order.
pub open spec fn within_price(offers: Seq<OfferView>, max: (nat, nat)) -> Seq<OfferView> {
    offers.filter(|o: OfferView| amount_le(o.price, max))
}

/// The offers priced at most `max_price`, in order.
pub fn filter_by_max_price(offers: Vec<Offer>, max_price: &Amount) -> (res: Vec<Offer>)
    ensures
        res@.map_values(|o: Offer| o@) == within_price(offers@.map_values(|o: Offer| o@), max_price@),
{
    let ghost os = offers@.map_values(|o: Offer| o@);
    let mut out: Vec<Offer> = Vec::new();
    let mut rest = offers;
    let mut taken: usize = 0;
    let n = rest.len();
    let mut i: usize = 0;
    let ghost all = rest@;
    while i < n
        invariant
            i <= n == all.len(),
            os == all.map_values(|o: Offer| o@),
            out@.map_values(|o: Offer| o@) == within_price(os.take(i as int), max_price@),
            rest@ == all,
        decreases n - i,
    {
        reveal_with_fuel(Seq::filter, 1);
        assert(os.take(i + 1).drop_last() =~= os.take(i as int));
        let ghost before = out@;
        if rest[i].price.le(max_price) {
            out.push(rest[i].clone_offer());
            assert(out@.map_values(|o: Offer| o@) =~= before.map_values(|o: Offer| o@).push(all[i as int]@));
        }
        i += 1;
    }
    assert(os.take(n as int) =~= os);
    out
}

/// No offer id appears twice.
pub open spec fn distinct_offer_ids(offers: Seq<OfferView>) -> bool {
    forall|i: int, j: int| 0 <= i < j < offers.len() ==> offers[i].offer_id != offers[j].offer_id
}

/// Some offer of `offers` has the id `id`.
pub open spec fn has_offer_id(offers: Seq<OfferView>, id: Seq<char>) -> bool {
    exists|i: int| 0 <= i < offers.len() && offers[i].offer_id == id
}

/// `price` is at most `max`, where there is a limit.
pub open spec fn within_limit(price: (nat, nat), max: Option<(nat, nat)>) -> bool {
    match max {
        Some(m) => amount_le(price, m),
        None => true,
    }
}

/// `results` after taking in `offers`: each offer within the price limit `max`
/// whose id is not among the results yet is appended, in order.
pub open spec fn absorb(results: Seq<OfferView>, offers: Seq<OfferView>, max: Option<(nat, nat)>) -> Seq<OfferView>
    decreases offers.len(),
{
    if offers.len() == 0 {
        results
    } else {
        let prev = absorb(results, offers.drop_last(), max);
        let o = offers.last();
        if within_limit(o.price, max) && !has_offer_id(prev, o.offer_id) {
            prev.push(o)
        } else {
            prev
        }
    }
}

/// An optional price limit, as a value.
pub open spec fn limit_view(max: &Option<Amount>) -> Option<(nat, nat)> {
    match max {
        Some(m) => Some(m@),
        None => None,
    }
}

/// The offers found by a search across categories, each offer id once.
pub struct SearchResults {
    offers: Vec<Offer>,
}

impl View for SearchResults {
    type V = Seq<OfferView>;

    closed spec fn view(&self) -> Seq<OfferView> {
        self.offers@.map_values(|o: Offer| o@)
    }
}

impl Offer {
    /// A copy of this offer.
    pub fn clone_offer(&self) -> (res: Offer)
        ensures
            res@ == self@,
    {
        let fields = self.fields.duplicate();
        Offer {
            offer_id: crate::models::OfferId(self.offer_id.0.clone()),
            lot_id: crate::models::LotId(self.lot_id.0.clone()),
            server: crate::models::Server(self.server.0.clone()),
            description: self.description.clone(),
            price: self.price.duplicate(),
            currency: self.currency,
            stock: self.stock,
            seller: crate::models::Seller {
                user_id: crate::models::UserId(self.seller.user_id.0.clone()),
                name: self.seller.name.clone(),
                rating: self.seller.rating.duplicate(),
                reviews: self.seller.reviews,
                online: self.seller.online,
            },
            fields,
        }
    }
}

impl SearchResults {
    #[verifier::type_invariant]
    spec fn ids_distinct(self) -> bool {
        distinct_offer_ids(self.offers@.map_values(|o: Offer| o@))
    }

    /// No results yet.
    pub fn new() -> (res: SearchResults)
        ensures
            res@ == Seq::<OfferView>::empty(),
    {
        let r = SearchResults { offers: Vec::new() };
        assert(r.offers@.map_values(|o: Offer| o@) =~= Seq::<OfferView>::empty());
        r
    }

    /// Whether an offer with id `id` is among the results.
    fn has_id(&self, id: &crate::models::OfferId) -> (res: bool)
        ensures
            res == has_offer_id(self@, id.0@),
    {
        let mut i: usize = 0;
        while i < self.offers.len()
            invariant
                i <= self.offers.len(),
                forall|k: int| 0 <= k < i ==> self@[k].offer_id != id.0@,
            decreases self.offers.len() - i,
        {
            if self.offers[i].offer_id.0 == id.0 {
                assert(self@[i as int].offer_id == id.0@);
                return true;
            }
            i += 1;
        }
        false
    }

    /// Takes in the offers of one category: each offer within the price limit
    /// `max_price`, if there is one, whose id is not among the results yet is
    /// appended.
    pub fn absorb(&mut self, offers: Vec<Offer>, max_price: &Option<Amount>)
        ensures
            final(self)@ == absorb(
                old(self)@,
                offers@.map_values(|o: Offer| o@),
                limit_view(max_price),
            ),
    {
        let ghost start = self@;
        let ghost os = offers@.map_values(|o: Offer| o@);
        let mut i: usize = 0;
        while i < offers.len()
            invariant
                i <= offers.len(),
                os == offers@.map_values(|o: Offer| o@),
                self@ == absorb(start, os.take(i as int), limit_view(max_price)),
            decreases offers.len() - i,
        {
            proof {
                use_type_invariant(&*self);
            }
            assert(os.take(i + 1).drop_last() =~= os.take(i as int));
            assert(os.take(i + 1).last() == offers@[i as int]@);
            let within = match max_price {
                Some(m) => offers[i].price.le(m),
                None => true,
            };
            if within && !self.has_id(&offers[i].offer_id) {
                let ghost before = self@;
                let o = offers[i].clone_offer();
                proof {
                    assert forall|a: int, b: int| 0 <= a < b < before.len() + 1 implies before.push(
                        o@,
                    )[a].offer_id != before.push(o@)[b].offer_id by {
                        if b == before.len() {
                            assert(before[a].offer_id != o@.offer_id);
                        }
                    }
                }
                self.push_unchecked(o);
                assert(self@ =~= before.push(offers@[i as int]@));
            }
            i += 1;
        }
        assert(os.take(offers.len() as int) =~= os);
    }

    /// Appends an offer whose id is not among the results.
    fn push_unchecked(&mut self, o: Offer)
        requires
            distinct_offer_ids(old(self)@.push(o@)),
        ensures
            final(self)@ == old(self)@.push(o@),
    {
        let ghost before = self.offers@;
        let mut offers = Vec::new();
        std::mem::swap(&mut offers, &mut self.offers);
        offers.push(o);
        assert(offers@.map_values(|x: Offer| x@) =~= before.map_values(|x: Offer| x@).push(o@));
        self.offers = offers;
    }

    /// The offers found, in the order they were taken in.
    pub fn into_offers(self) -> (res: Vec<Offer>)
        ensures
            res@.map_values(|o: Offer| o@) == self@,
    {
        self.offers
    }
}

/// Taking offers in never gives an offer id twice.
pub proof fn lemma_absorb_distinct(results: Seq<OfferView>, offers: Seq<OfferView>, max: Option<(nat, nat)>)
    requires
        distinct_offer_ids(results),
    ensures
        distinct_offer_ids(absorb(results, offers, max)),
    decreases offers.len(),
{
    if offers.len() > 0 {
        lemma_absorb_distinct(results, offers.drop_last(), max);
        let prev = absorb(results, offers.drop_last(), max);
        let o = offers.last();
        if within_limit(o.price, max) && !has_offer_id(prev, o.offer_id) {
            assert forall|a: int, b: int| 0 <= a < b < prev.len() + 1 implies prev.push(o)[a].offer_id
                != prev.push(o)[b].offer_id by {
                if b == prev.len() {
                    assert(prev[a].offer_id != o.offer_id);
                }
            }
        }
    }
}

/// Every offer that taking offers in adds is within the price limit `max`,
/// and the results held before stay in front.
pub proof fn lemma_absorb_within_price(results: Seq<OfferView>, offers: Seq<OfferView>, max: Option<(nat, nat)>)
    ensures
        absorb(results, offers, max).len() >= results.len(),
        absorb(results, offers, max).take(results.len() as int) == results,
        forall|i: int|
            results.len() <= i < absorb(results, offers, max).len() ==> within_limit(
                #[trigger] absorb(results, offers, max)[i].price,
                max,
            ),
    decreases offers.len(),
{
    if offers.len() > 0 {
        lemma_absorb_within_price(results, offers.drop_last(), max);
        let prev = absorb(results, offers.drop_last(), max);
        let o = offers.last();
        if within_limit(o.price, max) && !has_offer_id(prev, o.offer_id) {
            assert(prev.push(o).take(results.len() as int) =~= prev.take(results.len() as int));
        }
    } else {
        assert(results.take(results.len() as int) =~= results);
    }
}

/// A search with filters on price, currency, server, seller status and stock.
#[derive(Debug, Clone)]
pub struct SearchQuery {
    keyword: String,
    max_price: Option<Amount>,
    currency: Option<Currency>,
    server: Option<String>,
    online_only: bool,
    min_stock: Option<u32>,
}

/// What a [`SearchQuery`] asks for, as mathematical values.
pub struct QueryView {
    pub keyword: Seq<char>,
    pub max_price: Option<(nat, nat)>,
    pub currency: Option<Currency>,
    pub server: Option<Seq<char>>,
    pub online_only: bool,
    pub min_stock: Option<u32>,
}

impl View for SearchQuery {
    type V = QueryView;

    closed spec fn view(&self) -> QueryView {
        QueryView {
            keyword: self.keyword@,
            max_price: match self.max_price {
                Some(a) => Some(a@),
                None => None,
            },
            currency: self.currency,
            server: match self.server {
                Some(n) => Some(n@),
                None => None,
            },
            online_only: self.online_only,
            min_stock: self.min_stock,
        }
    }
}

/// Whether an offer passes every filter of the query `q`.
pub open spec fn query_matches(q: QueryView, o: OfferView) -> bool {
    &&& (q.max_price matches Some(m) ==> amount_le(o.price, m))
    &&& (q.currency matches Some(c) ==> o.currency == c)
    &&& (q.server matches Some(n) ==> o.server == n)
    &&& (q.online_only ==> o.seller.online)
    &&& (q.min_stock matches Some(s) ==> o.stock >= s)
}

impl SearchQuery {
    /// A search for `keyword` with no filters.
    pub fn new(keyword: &str) -> (res: SearchQuery)
        ensures
            res@ == (QueryView {
                keyword: keyword@,
                max_price: None,
                currency: None,
                server: None,
                online_only: false,
                min_stock: None,
            }),
    {
        SearchQuery {
            keyword: keyword.to_string(),
            max_price: None,
            currency: None,
            server: None,
            online_only: false,
            min_stock: None,
        }
    }

    /// Keeps only offers priced at most `price`.
    pub fn max_price(self, price: Amount) -> (res: SearchQuery)
        ensures
            res@ == (QueryView { max_price: Some(price@), ..self@ }),
    {
        SearchQuery { max_price: Some(price), ..self }
    }

    /// Keeps only offers in `currency`.
    pub fn currency(self, currency: Currency) -> (res: SearchQuery)
        ensures
            res@ == (QueryView { currency: Some(currency), ..self@ }),
    {
        SearchQuery { currency: Some(currency), ..self }
    }

    /// Keeps only offers on the server named `name`.
    pub fn server(self, name: &str) -> (res: SearchQuery)
        ensures
            res@ == (QueryView { server: Some(name@), ..self@ }),
    {
        SearchQuery { server: Some(name.to_string()), ..self }
    }

    /// Keeps only offers of sellers who are online.
    pub fn online_only(self) -> (res: SearchQuery)
        ensures
            res@ == (QueryView { online_only: true, ..self@ }),
    {
        SearchQuery { online_only: true, ..self }
    }

    /// Keeps only offers with at least `n` in stock.
    pub fn min_stock(self, n: u32) -> (res: SearchQuery)
        ensures
            res@ == (QueryView { min_stock: Some(n), ..self@ }),
    {
        SearchQuery { min_stock: Some(n), ..self }
    }

    /// The keyword searched for.
    pub fn keyword(&self) -> (res: &str)
        ensures
            res@ == self@.keyword,
    {
        self.keyword.as_str()
    }

    /// The price limit, if any.
    pub fn price_limit(&self) -> (res: Option<Amount>)
        ensures
            (match res {
                Some(a) => self@.max_price == Some(a@),
                None => self@.max_price is None,
            }),
    {
        match &self.max_price {
            Some(a) => Some(a.duplicate()),
            None => None,
        }
    }

    /// Whether an offer passes every filter of the query.
    pub fn matches(&self, offer: &Offer) -> (res: bool)
        ensures
            res == query_matches(self@, offer@),
    {
        let price_ok = match &self.max_price {
            Some(m) => offer.price.le(m),
            None => true,
        };
        let currency_ok = match self.currency {
            Some(c) => offer.currency == c,
            None => true,
        };
        let server_ok = match &self.server {
            Some(n) => offer.server.0 == *n,
            None => true,
        };
        let online_ok = !self.online_only || offer.seller.online;
        let stock_ok = match self.min_stock {
            Some(s) => offer.stock >= s,
            None => true,
        };
        price_ok && currency_ok && server_ok && online_ok && stock_ok
    }

    /// The offers that pass every filter of the query, in order.
    pub fn filter(&self, offers: Vec<Offer>) -> (res: Vec<Offer>)
        ensures
            res@.map_values(|o: Offer| o@) == query_results(self@, offers@.map_values(|o: Offer| o@)),
    {
        let ghost os = offers@.map_values(|o: Offer| o@);
        let mut out: Vec<Offer> = Vec::new();
        let mut i: usize = 0;
        while i < offers.len()
            invariant
                i <= offers.len(),
                os == offers@.map_values(|o: Offer| o@),
                out@.map_values(|o: Offer| o@) == os.take(i as int).filter(
                    |o: OfferView| query_matches(self@, o),
                ),
            decreases offers.len() - i,
        {
            reveal_with_fuel(Seq::filter, 1);
            assert(os.take(i + 1).drop_last() =~= os.take(i as int));
            let ghost before = out@;
            if self.matches(&offers[i]) {
                out.push(offers[i].clone_offer());
                assert(out@.map_values(|o: Offer| o@) =~= before.map_values(|o: Offer| o@).push(
                    offers@[i as int]@,
                ));
            }
            i += 1;
        }
        assert(os.take(offers.len() as int) =~= os);
        out
    }
}

/// The offers of `offers` that pass every filter of `q`, in order.
pub open spec fn query_results(q: QueryView, offers: Seq<OfferView>) -> Seq<OfferView> {
    offers.filter(|o: OfferView| query_matches(q, o))
}

/// Every offer that a query keeps passes all of its filters: within the price
/// limit, in the currency, on the server, from an online seller, with enough
/// stock.
pub proof fn lemma_filter_sound(q: QueryView, offers: Seq<OfferView>)
    ensures
        forall|i: int|
            0 <= i < query_results(q, offers).len() ==> query_matches(
                q,
                #[trigger] query_results(q, offers)[i],
            ),
{
    offers.filter_lemma(|o: OfferView| query_matches(q, o));
}


proof fn lemma_seq_contains_concat<A>(a: Seq<A>, b: Seq<A>, e: A)
    ensures
        (a + b).contains(e) <==> (a.contains(e) || b.contains(e)),
{
    if a.contains(e) {
        let i = choose|i: int| 0 <= i < a.len() && a[i] == e;
        assert((a + b)[i] == e);
    }
    if b.contains(e) {
        let i = choose|i: int| 0 <= i < b.len() && b[i] == e;
        assert((a + b)[a.len() + i] == e);
    }
    if (a + b).contains(e) {
        let i = choose|i: int| 0 <= i < (a + b).len() && (a + b)[i] == e;
        if i < a.len() {
            assert(a[i] == e);
        } else {
            assert(b[i - a.len()] == e);
        }
    }
}

/// The categories searched for a keyword are exactly those of the games whose
/// lowercased name contains the lowercased keyword anywhere: every URL of such
/// a game is visited, and every URL visited is one of such a game.
pub proof fn lemma_search_urls_by_name(games: Seq<GameView>, keyword: Seq<char>, base_url: Seq<char>)
    ensures
        forall|i: int, u: Seq<char>|
            0 <= i < games.len() && contains(lowercase_of(games[i].name), lowercase_of(keyword))
                && #[trigger] game_urls(games[i], base_url).contains(u) ==> search_urls(
                games,
                keyword,
                base_url,
            ).contains(u),
        forall|u: Seq<char>|
            #[trigger] search_urls(games, keyword, base_url).contains(u) ==> exists|i: int|
                0 <= i < games.len() && contains(lowercase_of(games[i].name), lowercase_of(keyword))
                    && #[trigger] game_urls(games[i], base_url).contains(u),
    decreases games.len(),
{
    if games.len() > 0 {
        let g1 = games.drop_last();
        let g = games.last();
        lemma_search_urls_by_name(g1, keyword, base_url);
        let prev = search_urls(g1, keyword, base_url);
        let all = search_urls(games, keyword, base_url);
        let hit = contains(lowercase_of(g.name), lowercase_of(keyword));
        assert forall|i: int, u: Seq<char>|
            0 <= i < games.len() && contains(lowercase_of(games[i].name), lowercase_of(keyword))
                && #[trigger] game_urls(games[i], base_url).contains(u) implies all.contains(u) by {
            lemma_seq_contains_concat(prev, game_urls(g, base_url), u);
            if i < g1.len() {
                assert(games[i] == g1[i]);
            }
        }
        assert forall|u: Seq<char>| #[trigger] all.contains(u) implies exists|i: int|
            0 <= i < games.len() && contains(lowercase_of(games[i].name), lowercase_of(keyword))
                && #[trigger] game_urls(games[i], base_url).contains(u) by {
            lemma_seq_contains_concat(prev, game_urls(g, base_url), u);
            if prev.contains(u) {
                let i = choose|i: int|
                    0 <= i < g1.len() && contains(lowercase_of(g1[i].name), lowercase_of(keyword))
                        && #[trigger] game_urls(g1[i], base_url).contains(u);
                assert(games[i] == g1[i]);
            } else {
                assert(games[games.len() - 1] == g);
            }
        }
    }
}

/// Taking offers in keeps every offer whose price is within the limit, if
/// there is one: with no limit every offer is kept, and afterwards an offer
/// with its id is among the results.
pub proof fn lemma_absorb_complete(results: Seq<OfferView>, offers: Seq<OfferView>, max: Option<(nat, nat)>)
    ensures
        forall|i: int|
            0 <= i < results.len() ==> has_offer_id(
                absorb(results, offers, max),
                #[trigger] results[i].offer_id,
            ),
        forall|i: int|
            0 <= i < offers.len() && (max matches Some(m) ==> amount_le(offers[i].price, m))
                ==> has_offer_id(absorb(results, offers, max), #[trigger] offers[i].offer_id),
    decreases offers.len(),
{
    lemma_absorb_within_price(results, offers, max);
    let out = absorb(results, offers, max);
    assert forall|i: int| 0 <= i < results.len() implies has_offer_id(
        out,
        #[trigger] results[i].offer_id,
    ) by {
        assert(out.take(results.len() as int)[i] == results[i]);
        assert(out[i] == results[i]);
    }
    if offers.len() > 0 {
        let o1 = offers.drop_last();
        let o = offers.last();
        lemma_absorb_complete(results, o1, max);
        let prev = absorb(results, o1, max);
        assert forall|j: int| 0 <= j < prev.len() implies has_offer_id(out, #[trigger] prev[j].offer_id) by {
            if within_limit(o.price, max) && !has_offer_id(prev, o.offer_id) {
                assert(out == prev.push(o));
                assert(out[j] == prev[j]);
            } else {
                assert(out == prev);
            }
        }
        assert forall|i: int|
            0 <= i < offers.len() && (max matches Some(m) ==> amount_le(offers[i].price, m))
                implies has_offer_id(out, #[trigger] offers[i].offer_id) by {
            if i < o1.len() {
                assert(offers[i] == o1[i]);
                let j = choose|j: int| 0 <= j < prev.len() && prev[j].offer_id == o1[i].offer_id;
                assert(has_offer_id(out, prev[j].offer_id));
            } else {
                assert(offers[i] == o);
                if has_offer_id(prev, o.offer_id) {
                    let j = choose|j: int| 0 <= j < prev.len() && prev[j].offer_id == o.offer_id;
                    assert(has_offer_id(out, prev[j].offer_id));
                } else {
                    assert(out == prev.push(o));
                    assert(out[prev.len() as int] == o);
                }
            }
        }
    }
}

/// A query keeps exactly the offers that pass each of its filters: a price at
/// most the limit, the currency asked for, the server asked for, an online
/// seller when asked, and at least the stock asked for.
pub proof fn lemma_query_keeps_exactly(q: QueryView, offers: Seq<OfferView>)
    ensures
        forall|o: OfferView|
            #[trigger] query_results(q, offers).contains(o) <==> (offers.contains(o) && (
            q.max_price matches Some(m) ==> amount_le(o.price, m)) && (q.currency matches Some(c)
                ==> o.currency == c) && (q.server matches Some(n) ==> o.server == n) && (
            q.online_only ==> o.seller.online) && (q.min_stock matches Some(s) ==> o.stock >= s)),
{
    let f = |o: OfferView| query_matches(q, o);
    offers.filter_lemma(f);
    assert forall|o: OfferView| #[trigger] query_results(q, offers).contains(o) <==> (
    offers.contains(o) && query_matches(q, o)) by {
        let r = query_results(q, offers);
        if r.contains(o) {
            let i = choose|i: int| 0 <= i < r.len() && r[i] == o;
            assert(f(r[i]));
            offers.lemma_filter_contains_rev(f, o);
        }
        if offers.contains(o) && query_matches(q, o) {
            let i = choose|i: int| 0 <= i < offers.len() && offers[i] == o;
            assert(f(offers[i]));
        }
    }
}

} // verus!
