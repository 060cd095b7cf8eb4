//! The FunPay entities: identifiers, enums and records.
//!
//! Prices and ratings are exact decimals ([`Amount`]); URLs are kept in their
//! serialized form; dates are plain calendar fields.
use vstd::prelude::*;
use crate::number::Amount;
use crate::text::{chars_of, contains, contains_chars};

verus! {

broadcast use vstd::string::group_string_axioms;

/// The identifier of an offer.
#[derive(Debug, Clone, PartialEq, Eq, Hash)]
pub struct OfferId(pub String);

/// The identifier of a lot.
#[derive(Debug, Clone, PartialEq, Eq, Hash)]
pub struct LotId(pub String);

/// The identifier of a user.
#[derive(Debug, Clone, PartialEq, Eq, Hash)]
pub struct UserId(pub String);

/// The identifier of a game.
#[derive(Debug, Clone, PartialEq, Eq, Hash)]
pub struct GameId(pub String);

/// The name of a game server.
#[derive(Debug, Clone, PartialEq, Eq, Hash)]
pub struct Server(pub String);

impl OfferId {
    /// The identifier as a string slice.
    pub fn as_str(&self) -> (res: &str)
        ensures
            res@ == self.0@,
    {
        self.0.as_str()
    }
}

impl LotId {
    /// The identifier as a string slice.
    pub fn as_str(&self) -> (res: &str)
        ensures
            res@ == self.0@,
    {
        self.0.as_str()
    }
}

impl UserId {
    /// The identifier as a string slice.
    pub fn as_str(&self) -> (res: &str)
        ensures
            res@ == self.0@,
    {
        self.0.as_str()
    }
}

impl GameId {
    /// The identifier as a string slice.
    pub fn as_str(&self) -> (res: &str)
        ensures
            res@ == self.0@,
    {
        self.0.as_str()
    }
}

impl Server {
    /// The server name as a string slice.
    pub fn as_str(&self) -> (res: &str)
        ensures
            res@ == self.0@,
    {
        self.0.as_str()
    }
}

impl From<String> for OfferId {
    /// The identifier `s`.
    fn from(s: String) -> (res: OfferId) {
        OfferId(s)
    }
}

impl vstd::std_specs::convert::FromSpecImpl<String> for OfferId {
    open spec fn obeys_from_spec() -> bool {
        true
    }

    open spec fn from_spec(s: String) -> OfferId {
        OfferId(s)
    }
}

impl<'a> From<&'a str> for OfferId {
    /// The identifier `s`, copied.
    fn from(s: &'a str) -> (res: OfferId)
        ensures
            res.0@ == s@,
    {
        OfferId(s.to_string())
    }
}

impl<'a> vstd::std_specs::convert::FromSpecImpl<&'a str> for OfferId {
    /// Two strings with the same characters are not known to be one value,
    /// so the copy is stated by the characters it holds, in `from` itself.
    open spec fn obeys_from_spec() -> bool {
        false
    }

    open spec fn from_spec(s: &'a str) -> OfferId {
        choose|r: OfferId| r.0@ == s@
    }
}

impl From<String> for LotId {
    /// The identifier `s`.
    fn from(s: String) -> (res: LotId) {
        LotId(s)
    }
}

impl vstd::std_specs::convert::FromSpecImpl<String> for LotId {
    open spec fn obeys_from_spec() -> bool {
        true
    }

    open spec fn from_spec(s: String) -> LotId {
        LotId(s)
    }
}

impl<'a> From<&'a str> for LotId {
    /// The identifier `s`, copied.
    fn from(s: &'a str) -> (res: LotId)
        ensures
            res.0@ == s@,
    {
        LotId(s.to_string())
    }
}

impl<'a> vstd::std_specs::convert::FromSpecImpl<&'a str> for LotId {
    /// Two strings with the same characters are not known to be one value,
    /// so the copy is stated by the characters it holds, in `from` itself.
    open spec fn obeys_from_spec() -> bool {
        false
    }

    open spec fn from_spec(s: &'a str) -> LotId {
        choose|r: LotId| r.0@ == s@
    }
}

impl From<String> for UserId {
    /// The identifier `s`.
    fn from(s: String) -> (res: UserId) {
        UserId(s)
    }
}

impl vstd::std_specs::convert::FromSpecImpl<String> for UserId {
    open spec fn obeys_from_spec() -> bool {
        true
    }

    open spec fn from_spec(s: String) -> UserId {
        UserId(s)
    }
}

impl<'a> From<&'a str> for UserId {
    /// The identifier `s`, copied.
    fn from(s: &'a str) -> (res: UserId)
        ensures
            res.0@ == s@,
    {
        UserId(s.to_string())
    }
}

impl<'a> vstd::std_specs::convert::FromSpecImpl<&'a str> for UserId {
    /// Two strings with the same characters are not known to be one value,
    /// so the copy is stated by the characters it holds, in `from` itself.
    open spec fn obeys_from_spec() -> bool {
        false
    }

    open spec fn from_spec(s: &'a str) -> UserId {
        choose|r: UserId| r.0@ == s@
    }
}

impl From<String> for GameId {
    /// The identifier `s`.
    fn from(s: String) -> (res: GameId) {
        GameId(s)
    }
}

impl vstd::std_specs::convert::FromSpecImpl<String> for GameId {
    open spec fn obeys_from_spec() -> bool {
        true
    }

    open spec fn from_spec(s: String) -> GameId {
        GameId(s)
    }
}

impl<'a> From<&'a str> for GameId {
    /// The identifier `s`, copied.
    fn from(s: &'a str) -> (res: GameId)
        ensures
            res.0@ == s@,
    {
        GameId(s.to_string())
    }
}

impl<'a> vstd::std_specs::convert::FromSpecImpl<&'a str> for GameId {
    /// Two strings with the same characters are not known to be one value,
    /// so the copy is stated by the characters it holds, in `from` itself.
    open spec fn obeys_from_spec() -> bool {
        false
    }

    open spec fn from_spec(s: &'a str) -> GameId {
        choose|r: GameId| r.0@ == s@
    }
}

impl From<String> for Server {
    /// The server name `s`.
    fn from(s: String) -> (res: Server) {
        Server(s)
    }
}

impl vstd::std_specs::convert::FromSpecImpl<String> for Server {
    open spec fn obeys_from_spec() -> bool {
        true
    }

    open spec fn from_spec(s: String) -> Server {
        Server(s)
    }
}

impl<'a> From<&'a str> for Server {
    /// The server name `s`, copied.
    fn from(s: &'a str) -> (res: Server)
        ensures
            res.0@ == s@,
    {
        Server(s.to_string())
    }
}

impl<'a> vstd::std_specs::convert::FromSpecImpl<&'a str> for Server {
    /// Two strings with the same characters are not known to be one value,
    /// so the copy is stated by the characters it holds, in `from` itself.
    open spec fn obeys_from_spec() -> bool {
        false
    }

    open spec fn from_spec(s: &'a str) -> Server {
        choose|r: Server| r.0@ == s@
    }
}

/// The currencies that FunPay shows prices in.
#[derive(Debug, Clone, Copy, PartialEq, Eq, Hash, Structural)]
pub enum Currency {
    RUB,
    USD,
    EUR,
}

/// The currency that a price symbol stands for: `$` is USD, `€` is EUR, and
/// anything else is RUB.
pub open spec fn currency_of_symbol(s: Seq<char>) -> Currency {
    if s == seq!['$'] {
        Currency::USD
    } else if s == seq!['€'] {
        Currency::EUR
    } else {
        Currency::RUB
    }
}

/// The symbol of a currency.
pub open spec fn symbol_of_currency(c: Currency) -> Seq<char> {
    match c {
        Currency::RUB => seq!['₽'],
        Currency::USD => seq!['$'],
        Currency::EUR => seq!['€'],
    }
}

impl Currency {
    /// Parses a currency from its symbol (`"$"`, `"€"`; anything else is RUB).
    pub fn from_symbol(symbol: &str) -> (res: Currency)
        ensures
            res == currency_of_symbol(symbol@),
    {
        let v = chars_of(symbol);
        Currency::from_symbol_chars(&v)
    }

    /// [`Currency::from_symbol`] on the characters of the symbol.
    pub fn from_symbol_chars(v: &Vec<char>) -> (res: Currency)
        ensures
            res == currency_of_symbol(v@),
    {
        if v.len() == 1 && v[0] == '$' {
            assert(v@ =~= seq!['$']);
            Currency::USD
        } else if v.len() == 1 && v[0] == '€' {
            assert(v@ =~= seq!['€']);
            Currency::EUR
        } else {
            assert(v@ != seq!['$'] && v@ != seq!['€']) by {
                if v@ == seq!['$'] {
                    assert(v@[0] == '$');
                }
                if v@ == seq!['€'] {
                    assert(v@[0] == '€');
                }
            }
            Currency::RUB
        }
    }

    /// The display symbol of this currency.
    pub fn symbol(&self) -> (res: &'static str)
        ensures
            res@ == symbol_of_currency(*self),
    {
        match self {
            Currency::RUB => {
                proof {
                    reveal_strlit("₽");
                }
                "₽"
            },
            Currency::USD => {
                proof {
                    reveal_strlit("$");
                }
                "$"
            },
            Currency::EUR => {
                proof {
                    reveal_strlit("€");
                }
                "€"
            },
        }
    }
}

/// The kind of a game listing: chips or lots.
#[derive(Debug, Clone, Copy, PartialEq, Eq, Hash, Structural)]
pub enum GameCategory {
    Chips,
    Lots,
}

/// `/chips/`.
pub open spec fn chips_marker() -> Seq<char> {
    seq!['/', 'c', 'h', 'i', 'p', 's', '/']
}

/// `/lots/`.
pub open spec fn lots_marker() -> Seq<char> {
    seq!['/', 'l', 'o', 't', 's', '/']
}

/// The category that a URL names: chips if it contains `/chips/`, else lots if
/// it contains `/lots/`.
pub open spec fn category_of_url(url: Seq<char>) -> Option<GameCategory> {
    if contains(url, chips_marker()) {
        Some(GameCategory::Chips)
    } else if contains(url, lots_marker()) {
        Some(GameCategory::Lots)
    } else {
        None
    }
}

/// `/chips/` as characters.
pub fn chips_marker_chars() -> (res: Vec<char>)
    ensures
        res@ == chips_marker(),
{
    let v = vec!['/', 'c', 'h', 'i', 'p', 's', '/'];
    assert(v@ =~= chips_marker());
    v
}

/// `/lots/` as characters.
pub fn lots_marker_chars() -> (res: Vec<char>)
    ensures
        res@ == lots_marker(),
{
    let v = vec!['/', 'l', 'o', 't', 's', '/'];
    assert(v@ =~= lots_marker());
    v
}

impl GameCategory {
    /// Parses the game category from a URL path.
    pub fn from_url(url: &str) -> (res: Option<GameCategory>)
        ensures
            res == category_of_url(url@),
    {
        let v = chars_of(url);
        GameCategory::from_url_chars(&v)
    }

    /// [`GameCategory::from_url`] on the characters of the URL.
    pub fn from_url_chars(v: &Vec<char>) -> (res: Option<GameCategory>)
        ensures
            res == category_of_url(v@),
    {
        if contains_chars(v, &chips_marker_chars()) {
            Some(GameCategory::Chips)
        } else if contains_chars(v, &lots_marker_chars()) {
            Some(GameCategory::Lots)
        } else {
            None
        }
    }

    /// The URL path segment of this category.
    pub fn as_path(&self) -> (res: &'static str)
        ensures
            res@ == (match *self {
                GameCategory::Chips => seq!['c', 'h', 'i', 'p', 's'],
                GameCategory::Lots => seq!['l', 'o', 't', 's'],
            }),
    {
        match self {
            GameCategory::Chips => {
                proof {
                    reveal_strlit("chips");
                }
                "chips"
            },
            GameCategory::Lots => {
                proof {
                    reveal_strlit("lots");
                }
                "lots"
            },
        }
    }
}

/// Whether a seller is online.
#[derive(Debug, Clone, Copy, PartialEq, Eq, Hash, Structural)]
pub enum OnlineStatus {
    Online,
    Offline,
}

/// `online`.
pub open spec fn online_word() -> Seq<char> {
    seq!['o', 'n', 'l', 'i', 'n', 'e']
}

/// `s == "online"` as characters.
pub fn is_online_word(v: &Vec<char>) -> (res: bool)
    ensures
        res == (v@ == online_word()),
{
    if v.len() == 6 && v[0] == 'o' && v[1] == 'n' && v[2] == 'l' && v[3] == 'i' && v[4] == 'n'
        && v[5] == 'e' {
        assert(v@ =~= online_word());
        true
    } else {
        assert(v@ != online_word()) by {
            if v@ == online_word() {
                assert(v@[0] == 'o' && v@[1] == 'n' && v@[2] == 'l' && v@[3] == 'i' && v@[4]
                    == 'n' && v@[5] == 'e');
            }
        }
        false
    }
}

impl OnlineStatus {
    /// `Online` for the text `"online"`, `Offline` for anything else.
    pub fn from_str(s: &str) -> (res: OnlineStatus)
        ensures
            res == (if s@ == online_word() {
                OnlineStatus::Online
            } else {
                OnlineStatus::Offline
            }),
    {
        let v = chars_of(s);
        if is_online_word(&v) {
            OnlineStatus::Online
        } else {
            OnlineStatus::Offline
        }
    }

    /// Whether the seller is online.
    pub fn is_online(&self) -> (res: bool)
        ensures
            res == (*self == OnlineStatus::Online),
    {
        match self {
            OnlineStatus::Online => true,
            OnlineStatus::Offline => false,
        }
    }
}

/// A calendar date.
#[derive(Debug, Clone, Copy, PartialEq, Eq, Hash, Structural)]
pub struct Date {
    pub year: i32,
    pub month: u32,
    pub day: u32,
}

/// A calendar date and a time of day.
#[derive(Debug, Clone, Copy, PartialEq, Eq, Hash, Structural)]
pub struct DateTime {
    pub date: Date,
    pub hour: u32,
    pub minute: u32,
    pub second: u32,
}

/// Seller profile information.
#[derive(Debug, Clone)]
pub struct Seller {
    pub user_id: UserId,
    pub name: String,
    pub rating: Amount,
    pub reviews: u32,
    pub online: bool,
}

/// A specific lot (pricing tier) within an offer.
#[derive(Debug, Clone)]
pub struct Lot {
    pub offer_id: OfferId,
    pub server: Server,
    pub description: String,
    pub price: Amount,
    pub currency: Currency,
    pub stock: u32,
    pub seller: Seller,
}

/// A game on FunPay with its category URLs (in serialized form).
#[derive(Debug, Clone)]
pub struct Game {
    pub id: GameId,
    pub name: String,
    pub chips_url: Option<String>,
    pub lots_url: Option<String>,
    pub category: Option<GameCategory>,
}

/// A FunPay user profile.
#[derive(Debug, Clone)]
pub struct User {
    pub user_id: UserId,
    pub username: String,
    pub rating: Amount,
    pub reviews: u32,
    pub online: bool,
    pub registered: Option<Date>,
}

/// Each pair of strings as a pair of character sequences.
pub open spec fn pair_views(v: Seq<(String, String)>) -> Seq<(Seq<char>, Seq<char>)> {
    v.map_values(|f: (String, String)| (f.0@, f.1@))
}

/// No key occurs twice among the pairs.
pub open spec fn distinct_keys(s: Seq<(Seq<char>, Seq<char>)>) -> bool {
    forall|i: int, j: int| 0 <= i < j < s.len() ==> s[i].0 != s[j].0
}

/// The map that the pairs `s` make, each key to its value.
pub open spec fn pairs_map(s: Seq<(Seq<char>, Seq<char>)>) -> Map<Seq<char>, Seq<char>>
    decreases s.len(),
{
    if s.len() == 0 {
        Map::empty()
    } else {
        pairs_map(s.drop_last()).insert(s.last().0, s.last().1)
    }
}

proof fn lemma_pairs_map(s: Seq<(Seq<char>, Seq<char>)>, k: Seq<char>)
    requires
        distinct_keys(s),
    ensures
        pairs_map(s).contains_key(k) <==> exists|i: int| 0 <= i < s.len() && #[trigger] s[i].0 == k,
        forall|i: int| 0 <= i < s.len() && #[trigger] s[i].0 == k ==> pairs_map(s)[k] == s[i].1,
    decreases s.len(),
{
    if s.len() > 0 {
        let s1 = s.drop_last();
        assert(distinct_keys(s1)) by {
            assert forall|i: int, j: int| 0 <= i < j < s1.len() implies s1[i].0 != s1[j].0 by {
                assert(s1[i] == s[i] && s1[j] == s[j]);
            }
        }
        lemma_pairs_map(s1, k);
        if exists|i: int| 0 <= i < s1.len() && #[trigger] s1[i].0 == k {
            let i = choose|i: int| 0 <= i < s1.len() && #[trigger] s1[i].0 == k;
            assert(s[i] == s1[i]);
        }
        if exists|i: int| 0 <= i < s.len() && #[trigger] s[i].0 == k {
            let i = choose|i: int| 0 <= i < s.len() && #[trigger] s[i].0 == k;
            if i < s1.len() {
                assert(s1[i] == s[i]);
            }
        }
        assert forall|i: int| 0 <= i < s.len() && #[trigger] s[i].0 == k implies pairs_map(s)[k]
            == s[i].1 by {
            if i < s1.len() {
                assert(s1[i] == s[i]);
                assert(s[i].0 != s[s.len() - 1].0);
            }
        }
    }
}

/// The extra fields of an offer: each key once, with its value.
#[derive(Debug)]
pub struct Fields {
    entries: Vec<(String, String)>,
}

impl View for Fields {
    type V = Map<Seq<char>, Seq<char>>;

    closed spec fn view(&self) -> Map<Seq<char>, Seq<char>> {
        pairs_map(pair_views(self.entries@))
    }
}

impl Fields {
    #[verifier::type_invariant]
    spec fn keys_distinct(self) -> bool {
        distinct_keys(pair_views(self.entries@))
    }

    /// No fields.
    pub fn new() -> (res: Fields)
        ensures
            res@ == Map::<Seq<char>, Seq<char>>::empty(),
    {
        let f = Fields { entries: Vec::new() };
        assert(pair_views(f.entries@) =~= Seq::<(Seq<char>, Seq<char>)>::empty());
        f
    }

    /// The value of the field `key`, if there is one.
    pub fn get(&self, key: &str) -> (res: Option<&str>)
        ensures
            match res {
                Some(v) => self@.contains_key(key@) && self@[key@] == v@,
                None => !self@.contains_key(key@),
            },
    {
        proof {
            use_type_invariant(self);
        }
        let k = key.to_string();
        let ghost s = pair_views(self.entries@);
        proof {
            lemma_pairs_map(s, key@);
        }
        match Fields::find_in(&self.entries, &k) {
            Some(i) => {
                assert(s[i as int].0 == key@);
                Some(self.entries[i].1.as_str())
            },
            None => {
                assert forall|i: int| 0 <= i < s.len() implies #[trigger] s[i].0 != key@ by {
                    assert(s[i].0 == self.entries@[i].0@);
                }
                None
            },
        }
    }

    /// Sets the field `key` to `value`, and gives back the value it had.
    pub fn insert(&mut self, key: String, value: String) -> (res: Option<String>)
        ensures
            final(self)@ == old(self)@.insert(key@, value@),
            match res {
                Some(v) => old(self)@.contains_key(key@) && old(self)@[key@] == v@,
                None => !old(self)@.contains_key(key@),
            },
    {
        proof {
            use_type_invariant(&*self);
        }
        let ghost s = pair_views(self.entries@);
        let ghost kv = key@;
        let ghost vv = value@;
        proof {
            lemma_pairs_map(s, kv);
        }
        let mut entries: Vec<(String, String)> = Vec::new();
        std::mem::swap(&mut entries, &mut self.entries);
        assert(pair_views(entries@) == s);
        match Fields::find_in(&entries, &key) {
            Some(i) => {
                let ghost t = s.update(i as int, (kv, vv));
                let old_value = entries[i].1.clone();
                assert(s[i as int].0 == kv);
                assert(old_value@ == s[i as int].1);
                entries.set(i, (key, value));
                assert(pair_views(entries@) =~= t);
                assert(distinct_keys(t)) by {
                    assert forall|a: int, b: int| 0 <= a < b < t.len() implies t[a].0 != t[b].0 by {
                        assert(t[a].0 == s[a].0 && t[b].0 == s[b].0);
                    }
                }
                proof {
                    assert forall|k: Seq<char>| #[trigger] pairs_map(t).contains_key(k) == pairs_map(
                        s,
                    ).insert(kv, vv).contains_key(k) && (pairs_map(t).contains_key(k)
                        ==> pairs_map(t)[k] == pairs_map(s).insert(kv, vv)[k]) by {
                        lemma_pairs_map(s, k);
                        lemma_pairs_map(t, k);
                        assert(t[i as int].0 == kv);
                        if exists|j: int| 0 <= j < s.len() && #[trigger] s[j].0 == k {
                            let j = choose|j: int| 0 <= j < s.len() && #[trigger] s[j].0 == k;
                            assert(t[j].0 == k);
                        }
                        if exists|j: int| 0 <= j < t.len() && #[trigger] t[j].0 == k {
                            let j = choose|j: int| 0 <= j < t.len() && #[trigger] t[j].0 == k;
                            assert(s[j].0 == k);
                            if j != i {
                                assert(t[j] == s[j]);
                            }
                        }
                    }
                    assert(pairs_map(t) =~= pairs_map(s).insert(kv, vv));
                }
                self.entries = entries;
                Some(old_value)
            },
            None => {
                let ghost t = s.push((kv, vv));
                entries.push((key, value));
                assert(pair_views(entries@) =~= t);
                assert(t.drop_last() =~= s);
                assert(distinct_keys(t)) by {
                    assert forall|a: int, b: int| 0 <= a < b < t.len() implies t[a].0 != t[b].0 by {
                        if b == s.len() {
                            assert(s[a].0 == entries@[a].0@);
                        } else {
                            assert(t[a] == s[a] && t[b] == s[b]);
                        }
                    }
                }
                assert(!pairs_map(s).contains_key(kv)) by {
                    assert forall|j: int| 0 <= j < s.len() implies #[trigger] s[j].0 != kv by {}
                }
                self.entries = entries;
                None
            },
        }
    }

    /// The position of the pair with key `key` in `entries`.
    fn find_in(entries: &Vec<(String, String)>, key: &String) -> (res: Option<usize>)
        ensures
            match res {
                Some(i) => i < entries.len() && entries@[i as int].0@ == key@,
                None => forall|i: int| 0 <= i < entries.len() ==> #[trigger] entries@[i].0@ != key@,
            },
    {
        let mut i: usize = 0;
        while i < entries.len()
            invariant
                i <= entries.len(),
                forall|j: int| 0 <= j < i ==> #[trigger] entries@[j].0@ != key@,
            decreases entries.len() - i,
        {
            if entries[i].0 == *key {
                return Some(i);
            }
            i += 1;
        }
        None
    }

    /// The fields as key-value pairs, each key once.
    pub fn entries(&self) -> (res: &Vec<(String, String)>)
        ensures
            distinct_keys(pair_views(res@)),
            pairs_map(pair_views(res@)) == self@,
    {
        proof {
            use_type_invariant(self);
        }
        &self.entries
    }

    /// A copy of these fields.
    pub fn duplicate(&self) -> (res: Fields)
        ensures
            res@ == self@,
    {
        proof {
            use_type_invariant(self);
        }
        let ghost all = pair_views(self.entries@);
        let mut out: Vec<(String, String)> = Vec::new();
        let mut i: usize = 0;
        while i < self.entries.len()
            invariant
                i <= self.entries.len(),
                all == pair_views(self.entries@),
                pair_views(out@) == all.take(i as int),
            decreases self.entries.len() - i,
        {
            let ghost before = out@;
            let a = self.entries[i].0.clone();
            let b = self.entries[i].1.clone();
            out.push((a, b));
            assert(out@ == before.push((a, b)));
            assert(pair_views(out@) =~= pair_views(before).push((a@, b@)));
            assert(all[i as int] == (a@, b@));
            assert(all.take(i + 1) =~= all.take(i as int).push(all[i as int]));
            i += 1;
        }
        assert(all.take(self.entries.len() as int) =~= all);
        Fields { entries: out }
    }
}

impl Clone for Fields {
    /// A copy of these fields.
    fn clone(&self) -> (res: Self)
        ensures
            res@ == self@,
    {
        self.duplicate()
    }
}

/// A sellable offer listing on FunPay.
#[derive(Debug, Clone)]
pub struct Offer {
    pub offer_id: OfferId,
    pub lot_id: LotId,
    pub server: Server,
    pub description: String,
    pub price: Amount,
    pub currency: Currency,
    pub stock: u32,
    pub seller: Seller,
    pub fields: Fields,
}

/// The status of an order.
#[derive(Debug, Clone, PartialEq, Eq)]
pub enum OrderStatus {
    Pending,
    Active,
    Completed,
    Cancelled,
    Disputed,
    Unknown(String),
}

/// An order placed on FunPay.
#[derive(Debug, Clone)]
pub struct Order {
    pub order_id: String,
    pub offer_id: OfferId,
    pub seller: Seller,
    pub buyer: Seller,
    pub price: Amount,
    pub currency: Currency,
    pub status: OrderStatus,
    pub created_at: Option<DateTime>,
    pub completed_at: Option<DateTime>,
}

/// A single message in a chat conversation.
#[derive(Debug, Clone)]
pub struct ChatMessage {
    pub message_id: String,
    pub sender_id: UserId,
    pub text: String,
    pub timestamp: Option<DateTime>,
    pub is_read: bool,
}

/// A chat conversation between two users.
#[derive(Debug, Clone)]
pub struct Chat {
    pub chat_id: String,
    pub other_user: Seller,
    pub last_message: Option<ChatMessage>,
    pub unread_count: u32,
}

/// A review left by a buyer after completing an order.
#[derive(Debug, Clone)]
pub struct Review {
    pub review_id: String,
    pub reviewer: Seller,
    pub rating: Amount,
    pub text: Option<String>,
    pub created_at: Option<DateTime>,
    pub order_id: Option<String>,
}

/// What a [`Seller`] holds, as mathematical values.
pub struct SellerView {
    pub user_id: Seq<char>,
    pub name: Seq<char>,
    pub rating: (nat, nat),
    pub reviews: u32,
    pub online: bool,
}

impl View for Seller {
    type V = SellerView;

    open spec fn view(&self) -> SellerView {
        SellerView {
            user_id: self.user_id.0@,
            name: self.name@,
            rating: self.rating@,
            reviews: self.reviews,
            online: self.online,
        }
    }
}

/// What an [`Offer`] holds, as mathematical values.
pub struct OfferView {
    pub offer_id: Seq<char>,
    pub lot_id: Seq<char>,
    pub server: Seq<char>,
    pub description: Seq<char>,
    pub price: (nat, nat),
    pub currency: Currency,
    pub stock: u32,
    pub seller: SellerView,
    pub fields: Map<Seq<char>, Seq<char>>,
}

impl View for Offer {
    type V = OfferView;

    open spec fn view(&self) -> OfferView {
        OfferView {
            offer_id: self.offer_id.0@,
            lot_id: self.lot_id.0@,
            server: self.server.0@,
            description: self.description@,
            price: self.price@,
            currency: self.currency,
            stock: self.stock,
            seller: self.seller@,
            fields: self.fields@,
        }
    }
}

/// What a [`Game`] holds, as mathematical values.
pub struct GameView {
    pub id: Seq<char>,
    pub name: Seq<char>,
    pub chips_url: Option<Seq<char>>,
    pub lots_url: Option<Seq<char>>,
    pub category: Option<GameCategory>,
}

impl View for Game {
    type V = GameView;

    open spec fn view(&self) -> GameView {
        GameView {
            id: self.id.0@,
            name: self.name@,
            chips_url: match self.chips_url {
                Some(u) => Some(u@),
                None => None,
            },
            lots_url: match self.lots_url {
                Some(u) => Some(u@),
                None => None,
            },
            category: self.category,
        }
    }
}

/// What a [`User`] holds, as mathematical values.
pub struct UserView {
    pub user_id: Seq<char>,
    pub username: Seq<char>,
    pub rating: (nat, nat),
    pub reviews: u32,
    pub online: bool,
    pub registered: Option<Date>,
}

impl View for User {
    type V = UserView;

    open spec fn view(&self) -> UserView {
        UserView {
            user_id: self.user_id.0@,
            username: self.username@,
            rating: self.rating@,
            reviews: self.reviews,
            online: self.online,
            registered: self.registered,
        }
    }
}

/// Reading the symbol of a currency gives that currency back.
pub proof fn lemma_symbol_round_trip(c: Currency)
    ensures
        currency_of_symbol(symbol_of_currency(c)) == c,
{
    assert(seq!['₽'] != seq!['$']) by {
        assert(seq!['₽'][0] != seq!['$'][0]);
    }
    assert(seq!['₽'] != seq!['€']) by {
        assert(seq!['₽'][0] != seq!['€'][0]);
    }
    assert(seq!['€'] != seq!['$']) by {
        assert(seq!['€'][0] != seq!['$'][0]);
    }
}

/// The path `/<segment>/` of a category names that category.
pub proof fn lemma_category_path_round_trip(c: GameCategory)
    ensures
        category_of_url(match c {
            GameCategory::Chips => chips_marker(),
            GameCategory::Lots => lots_marker(),
        }) == Some(c),
{
    match c {
        GameCategory::Chips => {
            assert(chips_marker().subrange(0, 7) =~= chips_marker());
        },
        GameCategory::Lots => {
            assert(lots_marker().subrange(0, 6) =~= lots_marker());
            assert(crate::text::find_from(lots_marker(), chips_marker(), 0) is None);
        },
    }
}

} // verus!
