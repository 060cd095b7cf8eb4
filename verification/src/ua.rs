//! User-Agent rotation.
use vstd::prelude::*;
use rand::seq::SliceRandom;

verus! {

broadcast use vstd::string::group_string_axioms;

/// The built-in pool of User-Agent strings.
pub open spec fn user_agent_pool() -> Seq<Seq<char>> {
    seq![
        "Mozilla/5.0 (Windows NT 10.0; Win64; x64) AppleWebKit/537.36 (KHTML, like Gecko) Chrome/126.0.0.0 Safari/537.36"@,
        "Mozilla/5.0 (Macintosh; Intel Mac OS X 10_15_7) AppleWebKit/537.36 (KHTML, like Gecko) Chrome/126.0.0.0 Safari/537.36"@,
        "Mozilla/5.0 (Windows NT 10.0; Win64; x64; rv:128.0) Gecko/20100101 Firefox/128.0"@,
        "Mozilla/5.0 (X11; Linux x86_64) AppleWebKit/537.36 (KHTML, like Gecko) Chrome/126.0.0.0 Safari/537.36"@,
        "Mozilla/5.0 (Macintosh; Intel Mac OS X 10_15_7) AppleWebKit/605.1.15 (KHTML, like Gecko) Version/17.5 Safari/605.1.15"@,
        "Mozilla/5.0 (Windows NT 10.0; Win64; x64) AppleWebKit/537.36 (KHTML, like Gecko) Chrome/125.0.0.0 Safari/537.36 Edg/125.0.0.0"@,
    ]
}

/// The built-in pool of User-Agent strings.
pub fn user_agents() -> (res: Vec<&'static str>)
    ensures
        res@.map_values(|s: &str| s@) == user_agent_pool(),
{
    let v = vec![
        "Mozilla/5.0 (Windows NT 10.0; Win64; x64) AppleWebKit/537.36 (KHTML, like Gecko) Chrome/126.0.0.0 Safari/537.36",
        "Mozilla/5.0 (Macintosh; Intel Mac OS X 10_15_7) AppleWebKit/537.36 (KHTML, like Gecko) Chrome/126.0.0.0 Safari/537.36",
        "Mozilla/5.0 (Windows NT 10.0; Win64; x64; rv:128.0) Gecko/20100101 Firefox/128.0",
        "Mozilla/5.0 (X11; Linux x86_64) AppleWebKit/537.36 (KHTML, like Gecko) Chrome/126.0.0.0 Safari/537.36",
        "Mozilla/5.0 (Macintosh; Intel Mac OS X 10_15_7) AppleWebKit/605.1.15 (KHTML, like Gecko) Version/17.5 Safari/605.1.15",
        "Mozilla/5.0 (Windows NT 10.0; Win64; x64) AppleWebKit/537.36 (KHTML, like Gecko) Chrome/125.0.0.0 Safari/537.36 Edg/125.0.0.0",
    ];
    assert(v@.map_values(|s: &str| s@) =~= user_agent_pool());
    v
}

/// `rand::seq::SliceRandom::choose` with the thread-local generator: one
/// element of `pool`, picked at random, or `None` for an empty pool. Which
/// element comes back depends on the generator; only that it is one of
/// `pool` is stated.
#[verifier::external_body]
fn choose_one(pool: &Vec<&'static str>) -> (res: Option<&'static str>)
    ensures
        res is Some <==> pool.len() > 0,
        res matches Some(s) ==> exists|i: int| 0 <= i < pool.len() && pool@[i]@ == s@,
{
    pool.as_slice().choose(&mut rand::thread_rng()).copied()
}

/// A random User-Agent string from the built-in pool.
pub fn random_ua() -> (res: &'static str)
    ensures
        exists|i: int| 0 <= i < user_agent_pool().len() && user_agent_pool()[i] == res@,
{
    let pool = user_agents();
    let ghost p = pool@.map_values(|s: &str| s@);
    assert(p.len() == pool@.len());
    assert(user_agent_pool().len() == 6);
    match choose_one(&pool) {
        Some(s) => {
            let ghost i = choose|i: int| 0 <= i < pool.len() && pool@[i]@ == s@;
            assert(p[i] == s@);
            s
        },
        None => {
            assert(p[0] == pool@[0]@);
            pool[0]
        },
    }
}

} // verus!
