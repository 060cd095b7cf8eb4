//! Reading FunPay pages.
//!
//! Each function reads a page through the questions of [`crate::html`] and
//! builds the entity from the answers. Its contract gives the result as a spec
//! function of the page text, over the names of those answers.
use vstd::prelude::*;
use chrono::Datelike;
use crate::error::ParseError;
use crate::html::{
    css_parses, html_inner_all_text, html_inner_attr, html_inner_first_text, html_match_attr,
    html_match_count, html_match_first_text, Css, Page,
};
use crate::models::{
    Fields, category_of_url, currency_of_symbol, online_word, Chat, ChatMessage, Currency, Date, Game,
    GameCategory, GameId, GameView, LotId, Offer, OfferId, OfferView, Order, Review, Seller,
    SellerView, Server, User, UserId, UserView, is_online_word,
};
use crate::number::{amount_value, parse_price, parse_u32, parse_unsigned, price_value, Amount};
use crate::text::{
    chars_of, concat_chars, contains, contains_chars, last_piece, last_piece_chars, nth_piece,
    nth_piece_chars, opt_chars, replace, replace_chars, starts_with, starts_with_chars, string_of,
    trim, trim_chars,
};

verus! {

broadcast use vstd::string::group_string_axioms;

/// What `chrono::NaiveDate::parse_from_str(s, "%d.%m.%Y")` gives for `s`.
pub uninterp spec fn chrono_dmy_date(s: Seq<char>) -> Option<Date>;

/// The serialization of `url::Url::parse(s)`, when it succeeds.
pub uninterp spec fn url_serialization(s: Seq<char>) -> Option<Seq<char>>;

/// `chrono::NaiveDate::parse_from_str(s, "%d.%m.%Y")`, as calendar fields.
#[verifier::external_body]
fn parse_dmy_date(s: &str) -> (res: Option<Date>)
    ensures
        res == chrono_dmy_date(s@),
{
    match chrono::NaiveDate::parse_from_str(s, "%d.%m.%Y") {
        Ok(d) => Some(Date { year: d.year(), month: d.month(), day: d.day() }),
        Err(_) => None,
    }
}

/// `url::Url::parse(s)`, serialized back with `Url::as_str`.
#[verifier::external_body]
fn parse_url(s: &str) -> (res: Option<String>)
    ensures
        opt_chars(res) == url_serialization(s@),
{
    match url::Url::parse(s) {
        Ok(u) => Some(u.as_str().to_string()),
        Err(_) => None,
    }
}

/// `o.unwrap_or_default()` for text.
pub open spec fn or_empty(o: Option<Seq<char>>) -> Seq<char> {
    match o {
        Some(t) => t,
        None => seq![],
    }
}

/// The trimmed first text of the first element of `src` matching `sel`.
pub open spec fn text_at(src: Seq<char>, sel: Seq<char>) -> Option<Seq<char>> {
    if css_parses(sel) {
        match html_match_first_text(src, sel, 0) {
            Some(t) => Some(trim(t)),
            None => None,
        }
    } else {
        None
    }
}

/// The untrimmed first text of the first element of `src` matching `sel`.
pub open spec fn raw_text_at(src: Seq<char>, sel: Seq<char>) -> Option<Seq<char>> {
    if css_parses(sel) {
        html_match_first_text(src, sel, 0)
    } else {
        None
    }
}

/// A `u32` read from optional text, or `default`.
pub open spec fn u32_or(t: Option<Seq<char>>, default: u32) -> u32 {
    match t {
        Some(s) => match parse_unsigned(s, u32::MAX as nat) {
            Some(v) => v as u32,
            None => default,
        },
        None => default,
    }
}

/// The price shown by the first `.tc-price` element of `src`.
pub open spec fn price_at(src: Seq<char>) -> Option<(nat, nat)> {
    match raw_text_at(src, ".tc-price"@) {
        Some(t) => price_value(t),
        None => None,
    }
}

/// The user profile that the page `src` shows, for the user `user_id`.
pub open spec fn user_of_page(src: Seq<char>, user_id: Seq<char>) -> UserView {
    UserView {
        user_id: user_id,
        username: or_empty(text_at(src, ".profile-name"@)),
        rating: match text_at(src, ".rating"@) {
            Some(t) => match amount_value(t) {
                Some(v) => v,
                None => (0nat, 0nat),
            },
            None => (0nat, 0nat),
        },
        reviews: u32_or(text_at(src, ".reviews"@), 0),
        online: text_at(src, ".online-status"@) == Some(online_word()),
        registered: match text_at(src, ".reg-date"@) {
            Some(t) => chrono_dmy_date(t),
            None => None,
        },
    }
}

/// The offer that the single-offer page `src` shows, for the offer `offer_id`.
pub open spec fn offer_of_page(src: Seq<char>, offer_id: Seq<char>) -> OfferView {
    OfferView {
        offer_id: offer_id,
        lot_id: seq![],
        server: or_empty(text_at(src, ".tc-server"@)),
        description: or_empty(text_at(src, ".tc-desc"@)),
        price: match price_at(src) {
            Some(v) => v,
            None => (0nat, 0nat),
        },
        currency: Currency::RUB,
        stock: u32_or(text_at(src, ".tc-qty"@), 0),
        seller: SellerView {
            user_id: seq![],
            name: or_empty(raw_text_at(src, ".media-user-name"@)),
            rating: (0nat, 0nat),
            reviews: 0,
            online: false,
        },
        fields: Map::empty(),
    }
}

/// The `data-offer-id` values of the first `n` elements of `src` that carry one.
pub open spec fn offer_ids_upto(src: Seq<char>, n: nat) -> Seq<Seq<char>>
    decreases n,
{
    if n == 0 {
        seq![]
    } else {
        let prev = offer_ids_upto(src, (n - 1) as nat);
        match html_match_attr(src, "[data-offer-id]"@, (n - 1) as nat, "data-offer-id"@) {
            Some(a) => prev.push(a),
            None => prev,
        }
    }
}

/// The `data-offer-id` values of the page `src`, in document order.
pub open spec fn offer_ids_of_page(src: Seq<char>) -> Seq<Seq<char>> {
    if css_parses("[data-offer-id]"@) {
        offer_ids_upto(src, html_match_count(src, "[data-offer-id]"@))
    } else {
        seq![]
    }
}

/// The selector of game links.
pub open spec fn game_link_selector() -> Seq<char> {
    "a[href*='/chips/'], a[href*='/lots/']"@
}

/// The absolute URL of a link target: itself if it starts with `http`, else
/// appended to `https://funpay.com`.
pub open spec fn absolute_url(href: Seq<char>) -> Seq<char> {
    if starts_with(href, "http"@) {
        href
    } else {
        "https://funpay.com"@ + href
    }
}

/// The game that the `k`-th game link of `src` describes, if the link has a
/// target, a text and a third `/`-separated piece in its target.
pub open spec fn game_at(src: Seq<char>, k: nat) -> Option<GameView> {
    match html_match_attr(src, game_link_selector(), k, "href"@) {
        None => None,
        Some(href) => match html_match_first_text(src, game_link_selector(), k) {
            None => None,
            Some(name) => match nth_piece(href, '/', 2) {
                None => None,
                Some(id) => {
                    let url = url_serialization(absolute_url(href));
                    Some(
                        GameView {
                            id: id,
                            name: name,
                            chips_url: if contains(href, "/chips/"@) {
                                url
                            } else {
                                None
                            },
                            lots_url: if contains(href, "/lots/"@) {
                                url
                            } else {
                                None
                            },
                            category: category_of_url(href),
                        },
                    )
                },
            },
        },
    }
}

/// The games of the first `n` game links of `src`.
pub open spec fn games_upto(src: Seq<char>, n: nat) -> Seq<GameView>
    decreases n,
{
    if n == 0 {
        seq![]
    } else {
        let prev = games_upto(src, (n - 1) as nat);
        match game_at(src, (n - 1) as nat) {
            Some(g) => prev.push(g),
            None => prev,
        }
    }
}

/// The games that the game list page `src` links to, in document order.
pub open spec fn game_list_of_page(src: Seq<char>) -> Seq<GameView> {
    if css_parses(game_link_selector()) {
        games_upto(src, html_match_count(src, game_link_selector()))
    } else {
        seq![]
    }
}

/// The selector of offer items on a listing page.
pub open spec fn item_selector() -> Seq<char> {
    "a.tc-item"@
}

/// All selectors that a listing item is read with parse.
pub open spec fn listing_selectors_parse() -> bool {
    &&& css_parses(".tc-price div"@)
    &&& css_parses(".tc-price .unit"@)
    &&& css_parses(".tc-amount"@)
    &&& css_parses(".media-user-name"@)
    &&& css_parses(".rating-mini-count"@)
    &&& css_parses(".tc-server"@)
    &&& css_parses(".tc-side"@)
    &&& css_parses(".tc-desc-text"@)
}

/// The first text of the first `inner` element within the `k`-th item.
pub open spec fn item_text(src: Seq<char>, k: nat, inner: Seq<char>) -> Option<Seq<char>> {
    match html_inner_first_text(src, item_selector(), k, inner) {
        Some(Some(t)) => Some(t),
        _ => None,
    }
}

/// The currency of the `k`-th item: the symbol in `.tc-price .unit`, RUB if
/// there is none.
pub open spec fn item_currency(src: Seq<char>, k: nat) -> Currency {
    match item_text(src, k, ".tc-price .unit"@) {
        Some(t) => currency_of_symbol(trim(t)),
        None => Currency::RUB,
    }
}

/// The stock of the `k`-th item: the `data-s` of `.tc-amount` without spaces,
/// 1 if that is not a `u32`.
pub open spec fn item_stock(src: Seq<char>, k: nat) -> u32 {
    let raw = match html_inner_attr(src, item_selector(), k, ".tc-amount"@, "data-s"@) {
        Some(Some(a)) => a,
        _ => seq![],
    };
    match parse_unsigned(replace(raw, " "@, ""@), u32::MAX as nat) {
        Some(v) => v as u32,
        None => 1,
    }
}

/// The review count of the `k`-th item: the trimmed text of
/// `.rating-mini-count` without spaces, 0 if that is not a `u32`.
pub open spec fn item_reviews(src: Seq<char>, k: nat) -> u32 {
    let raw = match item_text(src, k, ".rating-mini-count"@) {
        Some(t) => replace(trim(t), " "@, ""@),
        None => seq![],
    };
    match parse_unsigned(raw, u32::MAX as nat) {
        Some(v) => v as u32,
        None => 0,
    }
}

/// All the text of the first `inner` element within the `k`-th item, empty if
/// there is none.
pub open spec fn item_all_text(src: Seq<char>, k: nat, inner: Seq<char>) -> Seq<char> {
    or_empty(html_inner_all_text(src, item_selector(), k, inner))
}

/// The description of a listing item: its own text if any, else the server,
/// followed by ` / ` and the side when there is one.
pub open spec fn listing_description(server: Seq<char>, side: Seq<char>, desc: Seq<char>) -> Seq<char> {
    if desc.len() > 0 {
        desc
    } else if side.len() == 0 {
        server
    } else {
        server + " / "@ + side
    }
}

/// The offer that the `k`-th item of the listing page `src` shows, if it has a
/// link target, a readable price and a seller name.
pub open spec fn listing_offer_at(src: Seq<char>, k: nat) -> Option<OfferView> {
    match html_match_attr(src, item_selector(), k, "href"@) {
        None => None,
        Some(href) => match item_text(src, k, ".tc-price div"@) {
            None => None,
            Some(price_text) => match price_value(price_text) {
                None => None,
                Some(price) => match item_text(src, k, ".media-user-name"@) {
                    None => None,
                    Some(name) => {
                        let server = item_all_text(src, k, ".tc-server"@);
                        Some(
                            OfferView {
                                offer_id: last_piece(href, "id="@),
                                lot_id: seq![],
                                server: server,
                                description: listing_description(
                                    server,
                                    item_all_text(src, k, ".tc-side"@),
                                    item_all_text(src, k, ".tc-desc-text"@),
                                ),
                                price: price,
                                currency: item_currency(src, k),
                                stock: item_stock(src, k),
                                seller: SellerView {
                                    user_id: seq![],
                                    name: trim(name),
                                    rating: (0nat, 0nat),
                                    reviews: item_reviews(src, k),
                                    online: html_match_attr(src, item_selector(), k, "data-online"@)
                                        == Some("1"@),
                                },
                                fields: Map::empty(),
                            },
                        )
                    },
                },
            },
        },
    }
}

/// The offers of the first `n` items of the listing page `src`.
pub open spec fn listing_offers_upto(src: Seq<char>, n: nat) -> Seq<OfferView>
    decreases n,
{
    if n == 0 {
        seq![]
    } else {
        let prev = listing_offers_upto(src, (n - 1) as nat);
        match listing_offer_at(src, (n - 1) as nat) {
            Some(o) => prev.push(o),
            None => prev,
        }
    }
}

/// The offers of the listing page `src`, in document order.
pub open spec fn listing_offers_of_page(src: Seq<char>) -> Seq<OfferView> {
    if css_parses(item_selector()) && listing_selectors_parse() {
        listing_offers_upto(src, html_match_count(src, item_selector()))
    } else {
        seq![]
    }
}

/// The selectors that a listing item is read with.
struct ListingCss {
    item: Css,
    price: Css,
    unit: Css,
    amount: Css,
    name: Css,
    reviews: Css,
    server: Css,
    side: Css,
    desc: Css,
}

impl ListingCss {
    spec fn wf(&self) -> bool {
        &&& self.item.text() == item_selector()
        &&& self.price.text() == ".tc-price div"@
        &&& self.unit.text() == ".tc-price .unit"@
        &&& self.amount.text() == ".tc-amount"@
        &&& self.name.text() == ".media-user-name"@
        &&& self.reviews.text() == ".rating-mini-count"@
        &&& self.server.text() == ".tc-server"@
        &&& self.side.text() == ".tc-side"@
        &&& self.desc.text() == ".tc-desc-text"@
    }

    fn parse(item: Css) -> (res: Option<ListingCss>)
        requires
            item.text() == item_selector(),
        ensures
            res is Some <==> listing_selectors_parse(),
            res matches Some(l) ==> l.wf(),
    {
        let price = Css::parse(".tc-price div")?;
        let unit = Css::parse(".tc-price .unit")?;
        let amount = Css::parse(".tc-amount")?;
        let name = Css::parse(".media-user-name")?;
        let reviews = Css::parse(".rating-mini-count")?;
        let server = Css::parse(".tc-server")?;
        let side = Css::parse(".tc-side")?;
        let desc = Css::parse(".tc-desc-text")?;
        Some(ListingCss { item, price, unit, amount, name, reviews, server, side, desc })
    }
}

/// HTML parser for FunPay pages.
pub struct Parser;

/// `o.unwrap_or_default()` for text.
fn or_empty_chars(o: Option<Vec<char>>) -> (res: Vec<char>)
    ensures
        res@ == or_empty(match o {
            Some(v) => Some(v@),
            None => None,
        }),
{
    match o {
        Some(v) => v,
        None => Vec::new(),
    }
}

/// A `u32` read from optional text, or `default`.
fn u32_or_exec(t: Option<Vec<char>>, default: u32) -> (res: u32)
    ensures
        res == u32_or(
            match t {
                Some(v) => Some(v@),
                None => None,
            },
            default,
        ),
{
    match t {
        Some(v) => match parse_u32(&v) {
            Some(n) => n,
            None => default,
        },
        None => default,
    }
}

/// The characters of an optional string.
fn opt_chars_exec(o: Option<String>) -> (res: Option<Vec<char>>)
    ensures
        match res {
            Some(v) => opt_chars(o) == Some(v@),
            None => opt_chars(o) is None,
        },
{
    match o {
        Some(s) => Some(chars_of(s.as_str())),
        None => None,
    }
}

impl Parser {
    /// Creates a new parser.
    pub fn new() -> (res: Parser) {
        Parser
    }

    /// The untrimmed first text of the first element matching `selector`.
    fn raw_text(&self, page: &Page, selector: &str) -> (res: Option<Vec<char>>)
        ensures
            match res {
                Some(v) => raw_text_at(page.source(), selector@) == Some(v@),
                None => raw_text_at(page.source(), selector@) is None,
            },
    {
        match Css::parse(selector) {
            Some(css) => opt_chars_exec(page.first_text_of(&css, 0)),
            None => None,
        }
    }

    /// The trimmed first text of the first element matching `selector`.
    fn extract_text(&self, page: &Page, selector: &str) -> (res: Option<Vec<char>>)
        ensures
            match res {
                Some(v) => text_at(page.source(), selector@) == Some(v@),
                None => text_at(page.source(), selector@) is None,
            },
    {
        match self.raw_text(page, selector) {
            Some(t) => Some(trim_chars(&t)),
            None => None,
        }
    }

    /// The price shown by the first `.tc-price` element of a page.
    pub fn extract_price(&self, html: &str) -> (res: Option<Amount>)
        ensures
            match res {
                Some(a) => price_at(html@) == Some(a@),
                None => price_at(html@) is None,
            },
    {
        let page = Page::parse(html);
        match self.raw_text(&page, ".tc-price") {
            Some(t) => parse_price(&t),
            None => None,
        }
    }

    /// The seller name: the untrimmed first text of the first
    /// `.media-user-name` element.
    pub fn extract_seller_name(&self, html: &str) -> (res: Option<String>)
        ensures
            opt_chars(res) == raw_text_at(html@, ".media-user-name"@),
    {
        let page = Page::parse(html);
        match self.raw_text(&page, ".media-user-name") {
            Some(t) => Some(string_of(t.as_slice())),
            None => None,
        }
    }

    /// The stock shown by the first `.tc-qty` element of a page.
    fn extract_stock(&self, page: &Page) -> (res: Option<u32>)
        ensures
            match res {
                Some(n) => (match text_at(page.source(), ".tc-qty"@) {
                    Some(t) => parse_unsigned(t, u32::MAX as nat) == Some(n as nat),
                    None => false,
                }),
                None => (match text_at(page.source(), ".tc-qty"@) {
                    Some(t) => parse_unsigned(t, u32::MAX as nat) is None,
                    None => true,
                }),
            },
    {
        match self.extract_text(page, ".tc-qty") {
            Some(t) => parse_u32(&t),
            None => None,
        }
    }


    /// The `data-offer-id` values of the elements of a page that carry one, in
    /// document order.
    pub fn extract_offer_ids(&self, html: &str) -> (res: Vec<OfferId>)
        ensures
            res@.map_values(|o: OfferId| o.0@) == offer_ids_of_page(html@),
    {
        let page = Page::parse(html);
        let mut ids: Vec<OfferId> = Vec::new();
        let css = match Css::parse("[data-offer-id]") {
            Some(c) => c,
            None => {
                assert(ids@.map_values(|o: OfferId| o.0@) =~= seq![]);
                return ids;
            },
        };
        let n = page.count(&css);
        let mut k: usize = 0;
        while k < n
            invariant
                k <= n,
                n as nat == html_match_count(html@, "[data-offer-id]"@),
                page.source() == html@,
                css.text() == "[data-offer-id]"@,
                ids@.map_values(|o: OfferId| o.0@) == offer_ids_upto(html@, k as nat),
            decreases n - k,
        {
            let ghost before = ids@;
            match page.attr_of(&css, k, "data-offer-id") {
                Some(a) => {
                    ids.push(OfferId(a));
                    assert(ids@.map_values(|o: OfferId| o.0@) =~= before.map_values(
                        |o: OfferId| o.0@,
                    ).push(ids@.last().0@)) by {
                        assert(ids@ == before.push(ids@.last()));
                    }
                },
                None => {},
            }
            k += 1;
        }
        ids
    }

    /// The game that the `k`-th game link describes.
    fn game_at_exec(&self, page: &Page, css: &Css, k: usize) -> (res: Option<Game>)
        requires
            css.text() == game_link_selector(),
        ensures
            match res {
                Some(g) => game_at(page.source(), k as nat) == Some(g@),
                None => game_at(page.source(), k as nat) is None,
            },
    {
        let href = match page.attr_of(css, k, "href") {
            Some(h) => h,
            None => return None,
        };
        let name = match page.first_text_of(css, k) {
            Some(t) => t,
            None => return None,
        };
        let h = chars_of(href.as_str());
        let id = match nth_piece_chars(&h, '/', 2) {
            Some(id) => id,
            None => return None,
        };
        let full = if starts_with_chars(&h, &chars_of("http")) {
            h.clone()
        } else {
            concat_chars(&chars_of("https://funpay.com"), &h)
        };
        assert(full@ == absolute_url(h@));
        let url = parse_url(string_of(full.as_slice()).as_str());
        let chips_url = if contains_chars(&h, &chars_of("/chips/")) {
            url.clone()
        } else {
            None
        };
        let lots_url = if contains_chars(&h, &chars_of("/lots/")) {
            url
        } else {
            None
        };
        let game = Game {
            id: GameId(string_of(id.as_slice())),
            name,
            chips_url,
            lots_url,
            category: GameCategory::from_url_chars(&h),
        };
        Some(game)
    }

    /// Parses a game list page: one [`Game`] for each link whose target
    /// contains `/chips/` or `/lots/` and which has a text and a third
    /// `/`-separated piece in its target, in document order.
    pub fn parse_game_list(&self, html: &str) -> (res: Vec<Game>)
        ensures
            res@.map_values(|g: Game| g@) == game_list_of_page(html@),
    {
        let page = Page::parse(html);
        let mut games: Vec<Game> = Vec::new();
        let css = match Css::parse("a[href*='/chips/'], a[href*='/lots/']") {
            Some(c) => c,
            None => {
                assert(games@.map_values(|g: Game| g@) =~= seq![]);
                return games;
            },
        };
        let n = page.count(&css);
        let mut k: usize = 0;
        while k < n
            invariant
                k <= n,
                n as nat == html_match_count(html@, game_link_selector()),
                page.source() == html@,
                css.text() == game_link_selector(),
                games@.map_values(|g: Game| g@) == games_upto(html@, k as nat),
            decreases n - k,
        {
            let ghost before = games@;
            match self.game_at_exec(&page, &css, k) {
                Some(g) => {
                    games.push(g);
                    assert(games@.map_values(|g: Game| g@) =~= before.map_values(|g: Game| g@).push(
                        games@.last()@,
                    )) by {
                        assert(games@ == before.push(games@.last()));
                    }
                },
                None => {},
            }
            k += 1;
        }
        games
    }


    /// The first text of the first `inner` element within the `k`-th item.
    fn item_text_exec(page: &Page, item: &Css, k: usize, inner: &Css) -> (res: Option<Vec<char>>)
        requires
            item.text() == item_selector(),
        ensures
            match res {
                Some(v) => item_text(page.source(), k as nat, inner.text()) == Some(v@),
                None => item_text(page.source(), k as nat, inner.text()) is None,
            },
    {
        match page.inner_first_text(item, k, inner) {
            Some(Some(t)) => Some(chars_of(t.as_str())),
            _ => None,
        }
    }

    /// All the text of the first `inner` element within the `k`-th item.
    fn item_all_text_exec(page: &Page, item: &Css, k: usize, inner: &Css) -> (res: Vec<char>)
        requires
            item.text() == item_selector(),
        ensures
            res@ == item_all_text(page.source(), k as nat, inner.text()),
    {
        match page.inner_all_text(item, k, inner) {
            Some(t) => chars_of(t.as_str()),
            None => Vec::new(),
        }
    }

    /// `s` without its spaces.
    fn without_spaces(s: &Vec<char>) -> (res: Vec<char>)
        ensures
            res@ == replace(s@, " "@, ""@),
    {
        proof {
            reveal_strlit(" ");
        }
        replace_chars(s, &chars_of(" "), &chars_of(""))
    }

    /// The stock of the `k`-th item.
    fn item_stock_exec(page: &Page, css: &ListingCss, k: usize) -> (res: u32)
        requires
            css.wf(),
        ensures
            res == item_stock(page.source(), k as nat),
    {
        let raw = match page.inner_attr(&css.item, k, &css.amount, "data-s") {
            Some(Some(a)) => chars_of(a.as_str()),
            _ => Vec::new(),
        };
        match parse_u32(&Self::without_spaces(&raw)) {
            Some(v) => v,
            None => 1,
        }
    }

    /// The review count of the `k`-th item.
    fn item_reviews_exec(page: &Page, css: &ListingCss, k: usize) -> (res: u32)
        requires
            css.wf(),
        ensures
            res == item_reviews(page.source(), k as nat),
    {
        let raw = match Self::item_text_exec(page, &css.item, k, &css.reviews) {
            Some(t) => Self::without_spaces(&trim_chars(&t)),
            None => Vec::new(),
        };
        match parse_u32(&raw) {
            Some(v) => v,
            None => 0,
        }
    }

    /// The currency of the `k`-th item.
    fn item_currency_exec(page: &Page, css: &ListingCss, k: usize) -> (res: Currency)
        requires
            css.wf(),
        ensures
            res == item_currency(page.source(), k as nat),
    {
        match Self::item_text_exec(page, &css.item, k, &css.unit) {
            Some(t) => Currency::from_symbol_chars(&trim_chars(&t)),
            None => Currency::RUB,
        }
    }

    /// The description of a listing item.
    fn listing_description_exec(server: &Vec<char>, side: &Vec<char>, desc: &Vec<char>) -> (res: Vec<char>)
        ensures
            res@ == listing_description(server@, side@, desc@),
    {
        if desc.len() > 0 {
            desc.clone()
        } else if side.len() == 0 {
            server.clone()
        } else {
            concat_chars(&concat_chars(server, &chars_of(" / ")), side)
        }
    }

    /// Whether the `k`-th item is marked online (`data-online="1"`).
    fn item_online_exec(page: &Page, css: &ListingCss, k: usize) -> (res: bool)
        requires
            css.wf(),
        ensures
            res == (html_match_attr(page.source(), item_selector(), k as nat, "data-online"@) == Some("1"@)),
    {
        proof {
            reveal_strlit("1");
        }
        match page.attr_of(&css.item, k, "data-online") {
            Some(a) => {
                let v = chars_of(a.as_str());
                if v.len() == 1 && v[0] == '1' {
                    assert(v@ =~= "1"@);
                    true
                } else {
                    assert(v@ != "1"@) by {
                        if v@ == "1"@ {
                            assert(v@[0] == '1');
                        }
                    }
                    false
                }
            },
            None => false,
        }
    }

    /// The offer that the `k`-th item of a listing page shows.
    fn listing_offer_at_exec(page: &Page, css: &ListingCss, k: usize) -> (res: Option<Offer>)
        requires
            css.wf(),
        ensures
            match res {
                Some(o) => listing_offer_at(page.source(), k as nat) == Some(o@),
                None => listing_offer_at(page.source(), k as nat) is None,
            },
    {
        let href = match page.attr_of(&css.item, k, "href") {
            Some(h) => chars_of(h.as_str()),
            None => return None,
        };
        proof {
            reveal_strlit("id=");
        }
        let offer_id = last_piece_chars(&href, &chars_of("id="));
        let online = Self::item_online_exec(page, css, k);
        let price_text = match Self::item_text_exec(page, &css.item, k, &css.price) {
            Some(t) => t,
            None => return None,
        };
        let price = match parse_price(&price_text) {
            Some(p) => p,
            None => return None,
        };
        let currency = Self::item_currency_exec(page, css, k);
        let stock = Self::item_stock_exec(page, css, k);
        let name = match Self::item_text_exec(page, &css.item, k, &css.name) {
            Some(t) => trim_chars(&t),
            None => return None,
        };
        let reviews = Self::item_reviews_exec(page, css, k);
        let server = Self::item_all_text_exec(page, &css.item, k, &css.server);
        let side = Self::item_all_text_exec(page, &css.item, k, &css.side);
        let desc = Self::item_all_text_exec(page, &css.item, k, &css.desc);
        let description = Self::listing_description_exec(&server, &side, &desc);
        let fields = Fields::new();
        let offer = Offer {
            offer_id: OfferId(string_of(offer_id.as_slice())),
            lot_id: LotId(string_of(Vec::new().as_slice())),
            server: Server(string_of(server.as_slice())),
            description: string_of(description.as_slice()),
            price,
            currency,
            stock,
            seller: Seller {
                user_id: UserId(string_of(Vec::new().as_slice())),
                name: string_of(name.as_slice()),
                rating: Amount::zero(),
                reviews,
                online,
            },
            fields,
        };
        Some(offer)
    }

    /// Parses an offers listing page: one [`Offer`] for each `a.tc-item`
    /// element that has a link target, a readable price in `.tc-price div`
    /// and a seller name in `.media-user-name`, in document order.
    pub fn parse_offers_from_page(&self, html: &str) -> (res: Vec<Offer>)
        ensures
            res@.map_values(|o: Offer| o@) == listing_offers_of_page(html@),
    {
        let page = Page::parse(html);
        let mut offers: Vec<Offer> = Vec::new();
        let item = match Css::parse("a.tc-item") {
            Some(c) => c,
            None => {
                assert(offers@.map_values(|o: Offer| o@) =~= seq![]);
                return offers;
            },
        };
        let css = match ListingCss::parse(item) {
            Some(c) => c,
            None => {
                assert(offers@.map_values(|o: Offer| o@) =~= seq![]);
                return offers;
            },
        };
        let n = page.count(&css.item);
        let mut k: usize = 0;
        while k < n
            invariant
                k <= n,
                n as nat == html_match_count(html@, item_selector()),
                page.source() == html@,
                css.wf(),
                offers@.map_values(|o: Offer| o@) == listing_offers_upto(html@, k as nat),
            decreases n - k,
        {
            let ghost before = offers@;
            match Self::listing_offer_at_exec(&page, &css, k) {
                Some(o) => {
                    offers.push(o);
                    assert(offers@.map_values(|o: Offer| o@) =~= before.map_values(|o: Offer| o@).push(
                        offers@.last()@,
                    )) by {
                        assert(offers@ == before.push(offers@.last()));
                    }
                },
                None => {},
            }
            k += 1;
        }
        offers
    }

    /// Parses an orders listing page. Orders are not read yet: the result is
    /// always empty.
    pub fn parse_orders_from_page(&self, html: &str) -> (res: Vec<Order>)
        ensures
            res@.len() == 0,
    {
        Vec::new()
    }

    /// Parses a chats listing page. Chats are not read yet: the result is
    /// always empty.
    pub fn parse_chats_from_page(&self, html: &str) -> (res: Vec<Chat>)
        ensures
            res@.len() == 0,
    {
        Vec::new()
    }

    /// Parses the messages of a chat page. Messages are not read yet: the
    /// result is always empty.
    pub fn parse_chat_messages(&self, html: &str) -> (res: Vec<ChatMessage>)
        ensures
            res@.len() == 0,
    {
        Vec::new()
    }

    /// Parses the reviews of a profile page. Reviews are not read yet: the
    /// result is always empty.
    pub fn parse_reviews_from_page(&self, html: &str) -> (res: Vec<Review>)
        ensures
            res@.len() == 0,
    {
        Vec::new()
    }

    /// Parses a user profile page. It always succeeds: what the page lacks is
    /// left empty, zero or absent. The rating is read by [`amount_value`]; a
    /// rating text that it refuses (signed negative, with an exponent, `inf`,
    /// `nan`) gives a rating of zero.
    pub fn parse_user(&self, html: &str, user_id: UserId) -> (res: Result<User, ParseError>)
        ensures
            res matches Ok(u) && u@ == user_of_page(html@, user_id.0@),
            res matches Ok(u) && (u.online <==> text_at(html@, ".online-status"@) == Some("online"@)),
    {
        proof {
            lemma_user_online(html@, user_id.0@);
        }
        let page = Page::parse(html);
        let username = or_empty_chars(self.extract_text(&page, ".profile-name"));
        let rating = match self.extract_text(&page, ".rating") {
            Some(t) => match Amount::parse_decimal(&t) {
                Some(a) => a,
                None => Amount::zero(),
            },
            None => Amount::zero(),
        };
        let reviews = u32_or_exec(self.extract_text(&page, ".reviews"), 0);
        let online = match self.extract_text(&page, ".online-status") {
            Some(t) => is_online_word(&t),
            None => false,
        };
        let registered = match self.extract_text(&page, ".reg-date") {
            Some(t) => parse_dmy_date(string_of(t.as_slice()).as_str()),
            None => None,
        };
        Ok(
            User {
                user_id,
                username: string_of(username.as_slice()),
                rating,
                reviews,
                online,
                registered,
            },
        )
    }

    /// Parses a single offer page. It always succeeds: what the page lacks is
    /// left empty or zero.
    pub fn parse_offer(&self, html: &str, offer_id: OfferId) -> (res: Result<Offer, ParseError>)
        ensures
            res matches Ok(o) && o@ == offer_of_page(html@, offer_id.0@),
    {
        let page = Page::parse(html);
        let server = or_empty_chars(self.extract_text(&page, ".tc-server"));
        let description = or_empty_chars(self.extract_text(&page, ".tc-desc"));
        let price = match self.extract_price(html) {
            Some(p) => p,
            None => Amount::zero(),
        };
        let stock = match self.extract_stock(&page) {
            Some(n) => n,
            None => 0,
        };
        let name = match self.extract_seller_name(html) {
            Some(n) => n,
            None => string_of(Vec::new().as_slice()),
        };
        let fields = Fields::new();
        let offer = Offer {
            offer_id,
            lot_id: LotId(string_of(Vec::new().as_slice())),
            server: Server(string_of(server.as_slice())),
            description: string_of(description.as_slice()),
            price,
            currency: Currency::RUB,
            stock,
            seller: Seller {
                user_id: UserId(string_of(Vec::new().as_slice())),
                name,
                rating: Amount::zero(),
                reviews: 0,
                online: false,
            },
            fields,
        };
        Ok(offer)
    }
}


/// A parsed profile shows the user online exactly when the trimmed text of
/// its `.online-status` element is `online`; any other text, or none, is
/// offline.
pub proof fn lemma_user_online(src: Seq<char>, user_id: Seq<char>)
    ensures
        user_of_page(src, user_id).online <==> text_at(src, ".online-status"@) == Some("online"@),
{
    reveal_strlit("online");
    assert(online_word() =~= "online"@);
}

/// The currency of each listed offer is the one its `.tc-price .unit` symbol
/// names once trimmed: `€` is EUR, `$` is USD, and any other symbol, or none,
/// is RUB.
pub proof fn lemma_listing_currency(src: Seq<char>, k: nat)
    ensures
        listing_offer_at(src, k) matches Some(o) ==> match item_text(src, k, ".tc-price .unit"@) {
            Some(t) => if trim(t) == seq!['€'] {
                o.currency == Currency::EUR
            } else if trim(t) == seq!['$'] {
                o.currency == Currency::USD
            } else {
                o.currency == Currency::RUB
            },
            None => o.currency == Currency::RUB,
        },
{
    if let Some(o) = listing_offer_at(src, k) {
        let href = html_match_attr(src, item_selector(), k, "href"@);
        assert(href is Some);
        let price_text = item_text(src, k, ".tc-price div"@);
        assert(price_text is Some);
        assert(price_value(price_text->0) is Some);
        assert(item_text(src, k, ".media-user-name"@) is Some);
        assert(o.currency == item_currency(src, k));
        assert(seq!['€'] != seq!['$']) by {
            assert(seq!['€'][0] != seq!['$'][0]);
        }
    }
}

} // verus!
