use vstd::prelude::*;
use crate::address::Address;
use crate::address_set::AddressSet;
use crate::errors::FetcherError;
use crate::network::EvmNetwork;
use crate::subscription_manager::elapsed;

verus! {

/// For how long a fetched token list is served from the cache: five hours,
/// in milliseconds.
pub const CACHE_TTL_MS: u64 = 18000000;

/// How many token lists are fetched at a time.
pub const TOKEN_FETCH_CONCURRENCY: usize = 10;

/// One token of a token list.
#[derive(Debug)]
pub struct Token {
    pub address: Address,
    pub name: String,
    pub decimals: u8,
    pub chain_id: u64,
}

/// What fetching one token list gave.
#[derive(Debug)]
pub struct FetchResult {
    pub url: String,
    pub response: Result<Vec<Token>, FetcherError>,
}

struct ChainBucket {
    chain_id: u64,
    tokens: AddressSet,
}

struct CachedTokenList {
    url: String,
    fetched_at: u64,
    list: Vec<ChainBucket>,
}

/// A cached token list as a plain value.
pub struct CachedListView {
    /// When the list was fetched.
    pub fetched_at: u64,
    /// Its tokens by chain id.
    pub list: Map<u64, Set<Address>>,
}

/// The fetcher's state as a plain value.
pub struct FetcherView {
    /// What is cached, by URL.
    pub cache: Map<Seq<char>, CachedListView>,
    /// The URLs that are being fetched.
    pub in_flight: Set<Seq<char>>,
    /// For how long a cached list is served.
    pub ttl: u64,
}

/// Whether a list has to be fetched at `now`: nobody is fetching it, and the
/// cache has it not, or has had it for longer than the time to live.
pub open spec fn needs_fetch(state: FetcherView, url: Seq<char>, now: u64) -> bool {
    !state.in_flight.contains(url) && (!state.cache.contains_key(url) || elapsed(
        now,
        state.cache[url].fetched_at,
    ) > state.ttl)
}

/// Whether the list has a token on `chain`.
pub open spec fn has_chain(tokens: Seq<Token>, chain: u64) -> bool {
    exists|j: int| 0 <= j < tokens.len() && (#[trigger] tokens[j]).chain_id == chain
}

/// The addresses of the list's tokens on `chain`.
pub open spec fn tokens_on_chain(tokens: Seq<Token>, chain: u64) -> Set<Address> {
    Set::new(
        |a: Address|
            exists|j: int|
                0 <= j < tokens.len() && (#[trigger] tokens[j]).chain_id == chain
                    && tokens[j].address == a,
    )
}

/// A token list sorted into buckets by chain id.
pub open spec fn bucketed(tokens: Seq<Token>) -> Map<u64, Set<Address>> {
    Map::new(|chain: u64| has_chain(tokens, chain), |chain: u64| tokens_on_chain(tokens, chain))
}

/// The tokens that the cache holds for `url` on `chain`.
pub open spec fn cached_tokens(
    cache: Map<Seq<char>, CachedListView>,
    url: Seq<char>,
    chain: u64,
) -> Set<Address> {
    if cache.contains_key(url) && cache[url].list.contains_key(chain) {
        cache[url].list[chain]
    } else {
        Set::empty()
    }
}

/// The union, over `urls`, of the tokens that the cache holds for each on
/// `chain`.
pub open spec fn collected(
    cache: Map<Seq<char>, CachedListView>,
    urls: Seq<String>,
    chain: u64,
) -> Set<Address> {
    Set::new(
        |a: Address|
            exists|i: int|
                0 <= i < urls.len() && cached_tokens(cache, (#[trigger] urls[i])@, chain).contains(
                    a,
                ),
    )
}

/// The cache after a fetched list was stored: the list, sorted by chain and
/// with `now` as the time it was fetched, takes the place of what was cached
/// for its URL. A list without tokens is cached like any other.
pub open spec fn after_store(
    cache: Map<Seq<char>, CachedListView>,
    url: Seq<char>,
    tokens: Seq<Token>,
    now: u64,
) -> Map<Seq<char>, CachedListView> {
    cache.insert(url, CachedListView { fetched_at: now, list: bucketed(tokens) })
}

/// The URLs of a list, as a set.
pub open spec fn url_set(urls: Seq<String>) -> Set<Seq<char>> {
    Set::new(|u: Seq<char>| exists|i: int| 0 <= i < urls.len() && (#[trigger] urls[i])@ == u)
}

/// Whether the result at `i` is the first that is an error.
pub open spec fn is_first_error(results: Seq<FetchResult>, i: int) -> bool {
    &&& 0 <= i < results.len()
    &&& results[i].response is Err
    &&& forall|k: int| 0 <= k < i ==> (#[trigger] results[k]).response is Ok
}

/// The cache after the first `upto` results, all of them lists, were stored
/// in their order.
pub open spec fn stored_all(
    cache: Map<Seq<char>, CachedListView>,
    results: Seq<FetchResult>,
    upto: int,
    now: u64,
) -> Map<Seq<char>, CachedListView>
    decreases upto,
{
    if upto <= 0 {
        cache
    } else {
        after_store(
            stored_all(cache, results, upto - 1, now),
            results[upto - 1].url@,
            results[upto - 1].response->Ok_0@,
            now,
        )
    }
}

/// With one more token, the buckets are those of before, but that the
/// token's address has joined the bucket of its chain.
pub proof fn lemma_bucketed_push(tokens: Seq<Token>, t: Token)
    ensures
        bucketed(tokens.push(t)) == bucketed(tokens).insert(
            t.chain_id,
            (if has_chain(tokens, t.chain_id) {
                bucketed(tokens)[t.chain_id]
            } else {
                Set::<Address>::empty()
            }).insert(t.address),
        ),
{
    let more = tokens.push(t);
    let joined = (if has_chain(tokens, t.chain_id) {
        bucketed(tokens)[t.chain_id]
    } else {
        Set::<Address>::empty()
    }).insert(t.address);
    let goal = bucketed(tokens).insert(t.chain_id, joined);
    assert(more[tokens.len() as int] == t);
    assert forall|c: u64| has_chain(more, c) <==> has_chain(tokens, c) || c == t.chain_id by {
        if has_chain(more, c) {
            let j = choose|j: int| 0 <= j < more.len() && (#[trigger] more[j]).chain_id == c;
            if j < tokens.len() {
                assert(tokens[j].chain_id == c);
            }
        }
        if has_chain(tokens, c) {
            let j = choose|j: int| 0 <= j < tokens.len() && (#[trigger] tokens[j]).chain_id == c;
            assert(more[j].chain_id == c);
        }
    }
    assert forall|c: u64, a: Address|
        tokens_on_chain(more, c).contains(a) <==> tokens_on_chain(tokens, c).contains(a) || (c
            == t.chain_id && a == t.address) by {
        if tokens_on_chain(more, c).contains(a) {
            let j = choose|j: int|
                0 <= j < more.len() && (#[trigger] more[j]).chain_id == c && more[j].address == a;
            if j < tokens.len() {
                assert(tokens[j].chain_id == c && tokens[j].address == a);
            }
        }
        if tokens_on_chain(tokens, c).contains(a) {
            let j = choose|j: int|
                0 <= j < tokens.len() && (#[trigger] tokens[j]).chain_id == c && tokens[j].address
                    == a;
            assert(more[j].chain_id == c && more[j].address == a);
        }
    }
    assert forall|c: u64| #[trigger] bucketed(more).contains_key(c) implies bucketed(more)[c]
        == goal[c] by {
        if c == t.chain_id {
            if !has_chain(tokens, c) {
                assert forall|a: Address| !tokens_on_chain(tokens, c).contains(a) by {
                    if tokens_on_chain(tokens, c).contains(a) {
                        let j = choose|j: int|
                            0 <= j < tokens.len() && (#[trigger] tokens[j]).chain_id == c
                                && tokens[j].address == a;
                        assert(tokens[j].chain_id == c);
                    }
                }
            }
            assert(tokens_on_chain(more, c) =~= joined);
        } else {
            assert(tokens_on_chain(more, c) =~= tokens_on_chain(tokens, c));
        }
    }
    assert(bucketed(more) =~= goal);
}

/// With one more URL, what is collected is what was collected before and
/// what the cache holds for that URL.
pub proof fn lemma_collected_push(
    cache: Map<Seq<char>, CachedListView>,
    urls: Seq<String>,
    url: String,
    chain: u64,
)
    ensures
        collected(cache, urls.push(url), chain) == collected(cache, urls, chain).union(
            cached_tokens(cache, url@, chain),
        ),
{
    let more = urls.push(url);
    assert(more[urls.len() as int] == url);
    assert forall|a: Address|
        collected(cache, more, chain).contains(a) <==> collected(cache, urls, chain).union(
            cached_tokens(cache, url@, chain),
        ).contains(a) by {
        if collected(cache, more, chain).contains(a) {
            let i = choose|i: int|
                0 <= i < more.len() && cached_tokens(cache, (#[trigger] more[i])@, chain).contains(
                    a,
                );
            if i < urls.len() {
                assert(cached_tokens(cache, urls[i]@, chain).contains(a));
            }
        }
        if collected(cache, urls, chain).contains(a) {
            let i = choose|i: int|
                0 <= i < urls.len() && cached_tokens(cache, (#[trigger] urls[i])@, chain).contains(
                    a,
                );
            assert(cached_tokens(cache, more[i]@, chain).contains(a));
        }
        if cached_tokens(cache, url@, chain).contains(a) {
            assert(cached_tokens(cache, more[urls.len() as int]@, chain).contains(a));
        }
    }
    assert(collected(cache, more, chain) =~= collected(cache, urls, chain).union(
        cached_tokens(cache, url@, chain),
    ));
}

spec fn has_bucket(list: Seq<ChainBucket>, chain: u64) -> bool {
    exists|i: int| 0 <= i < list.len() && (#[trigger] list[i]).chain_id == chain
}

spec fn bucket_index(list: Seq<ChainBucket>, chain: u64) -> int {
    choose|i: int| 0 <= i < list.len() && (#[trigger] list[i]).chain_id == chain
}

spec fn bucket_map(list: Seq<ChainBucket>) -> Map<u64, Set<Address>> {
    Map::new(|c: u64| has_bucket(list, c), |c: u64| list[bucket_index(list, c)].tokens@)
}

spec fn distinct_chains(list: Seq<ChainBucket>) -> bool {
    forall|i: int, j: int|
        #![trigger list[i], list[j]]
        0 <= i < j < list.len() ==> list[i].chain_id != list[j].chain_id
}

proof fn lemma_bucket_index(list: Seq<ChainBucket>, i: int)
    requires
        distinct_chains(list),
        0 <= i < list.len(),
    ensures
        has_bucket(list, list[i].chain_id),
        bucket_index(list, list[i].chain_id) == i,
{
    let c = list[i].chain_id;
    assert(has_bucket(list, c));
    let k = bucket_index(list, c);
    if k < i {
        assert(list[k].chain_id != list[i].chain_id);
    }
    if i < k {
        assert(list[i].chain_id != list[k].chain_id);
    }
}

spec fn has_url(cache: Seq<CachedTokenList>, url: Seq<char>) -> bool {
    exists|i: int| 0 <= i < cache.len() && (#[trigger] cache[i]).url@ == url
}

spec fn url_index(cache: Seq<CachedTokenList>, url: Seq<char>) -> int {
    choose|i: int| 0 <= i < cache.len() && (#[trigger] cache[i]).url@ == url
}

spec fn cached_view(e: CachedTokenList) -> CachedListView {
    CachedListView { fetched_at: e.fetched_at, list: bucket_map(e.list@) }
}

spec fn cache_map(cache: Seq<CachedTokenList>) -> Map<Seq<char>, CachedListView> {
    Map::new(|u: Seq<char>| has_url(cache, u), |u: Seq<char>| cached_view(cache[url_index(cache, u)]))
}

spec fn distinct_urls(cache: Seq<CachedTokenList>) -> bool {
    forall|i: int, j: int|
        #![trigger cache[i], cache[j]]
        0 <= i < j < cache.len() ==> cache[i].url@ != cache[j].url@
}

spec fn buckets_distinct(cache: Seq<CachedTokenList>) -> bool {
    forall|i: int| 0 <= i < cache.len() ==> distinct_chains((#[trigger] cache[i]).list@)
}

proof fn lemma_url_index(cache: Seq<CachedTokenList>, i: int)
    requires
        distinct_urls(cache),
        0 <= i < cache.len(),
    ensures
        has_url(cache, cache[i].url@),
        url_index(cache, cache[i].url@) == i,
        cache_map(cache).contains_key(cache[i].url@),
        cache_map(cache)[cache[i].url@] == cached_view(cache[i]),
{
    let u = cache[i].url@;
    assert(has_url(cache, u));
    let k = url_index(cache, u);
    if k < i {
        assert(cache[k].url@ != cache[i].url@);
    }
    if i < k {
        assert(cache[i].url@ != cache[k].url@);
    }
}

proof fn lemma_bucket_map_insert(before: Seq<ChainBucket>, after: Seq<ChainBucket>, at: int)
    requires
        distinct_chains(before),
        0 <= at < after.len(),
        at < before.len() ==> after.len() == before.len() && before[at].chain_id
            == after[at].chain_id,
        at >= before.len() ==> at == before.len() && after.len() == before.len() + 1
            && !has_bucket(before, after[at].chain_id),
        forall|k: int| 0 <= k < before.len() && k != at ==> #[trigger] after[k] == before[k],
    ensures
        distinct_chains(after),
        bucket_map(after) == bucket_map(before).insert(after[at].chain_id, after[at].tokens@),
{
    let c = after[at].chain_id;
    assert forall|i: int, j: int|
        #![trigger after[i], after[j]]
        0 <= i < j < after.len() implies after[i].chain_id != after[j].chain_id by {
        if j < before.len() {
            assert(before[i].chain_id != before[j].chain_id);
        } else {
            assert(before[i].chain_id != c);
        }
    }
    assert forall|x: u64|
        bucket_map(after).contains_key(x) <==> #[trigger] bucket_map(before).insert(
            c,
            after[at].tokens@,
        ).contains_key(x) by {
        if has_bucket(after, x) {
            let k = bucket_index(after, x);
            if k != at {
                assert(before[k].chain_id == x);
            }
        }
        if has_bucket(before, x) {
            let k = bucket_index(before, x);
            assert(after[k].chain_id == x);
        }
        if x == c {
            assert(after[at].chain_id == x);
        }
    }
    assert forall|x: u64| #[trigger] bucket_map(after).contains_key(x) implies bucket_map(
        after,
    )[x] == bucket_map(before).insert(c, after[at].tokens@)[x] by {
        let k = bucket_index(after, x);
        lemma_bucket_index(after, k);
        if k != at {
            assert(before[k].chain_id == x);
            lemma_bucket_index(before, k);
        }
    }
    assert(bucket_map(after) =~= bucket_map(before).insert(c, after[at].tokens@));
}

proof fn lemma_cache_map_insert(
    before: Seq<CachedTokenList>,
    after: Seq<CachedTokenList>,
    at: int,
)
    requires
        distinct_urls(before),
        0 <= at < after.len(),
        at < before.len() ==> after.len() == before.len() && before[at].url@ == after[at].url@,
        at >= before.len() ==> at == before.len() && after.len() == before.len() + 1 && !has_url(
            before,
            after[at].url@,
        ),
        forall|k: int| 0 <= k < before.len() && k != at ==> #[trigger] after[k] == before[k],
    ensures
        distinct_urls(after),
        cache_map(after) == cache_map(before).insert(after[at].url@, cached_view(after[at])),
{
    let u = after[at].url@;
    assert forall|i: int, j: int|
        #![trigger after[i], after[j]]
        0 <= i < j < after.len() implies after[i].url@ != after[j].url@ by {
        if j < before.len() {
            assert(before[i].url@ != before[j].url@);
        } else {
            assert(before[i].url@ != u);
        }
    }
    assert forall|x: Seq<char>|
        cache_map(after).contains_key(x) <==> #[trigger] cache_map(before).insert(
            u,
            cached_view(after[at]),
        ).contains_key(x) by {
        if has_url(after, x) {
            let k = url_index(after, x);
            if k != at {
                assert(before[k].url@ == x);
            }
        }
        if has_url(before, x) {
            let k = url_index(before, x);
            assert(after[k].url@ == x);
        }
        if x == u {
            assert(after[at].url@ == x);
        }
    }
    assert forall|x: Seq<char>| #[trigger] cache_map(after).contains_key(x) implies cache_map(
        after,
    )[x] == cache_map(before).insert(u, cached_view(after[at]))[x] by {
        let k = url_index(after, x);
        lemma_url_index(after, k);
        if k != at {
            assert(before[k].url@ == x);
            lemma_url_index(before, k);
        }
    }
    assert(cache_map(after) =~= cache_map(before).insert(u, cached_view(after[at])));
}

spec fn flight_set(in_flight: Seq<String>) -> Set<Seq<char>> {
    Set::new(|u: Seq<char>| exists|i: int| 0 <= i < in_flight.len() && (#[trigger] in_flight[i])@ == u)
}

/// Whether `url` is one of `urls`.
fn list_contains(urls: &Vec<String>, url: &String) -> (r: bool)
    ensures
        r == url_set(urls@).contains(url@),
{
    let mut i: usize = 0;
    while i < urls.len()
        invariant
            i <= urls@.len(),
            forall|k: int| 0 <= k < i ==> (#[trigger] urls@[k])@ != url@,
        decreases urls@.len() - i,
    {
        if urls[i] == *url {
            return true;
        }
        i += 1;
    }
    false
}

fn bucket_position(list: &Vec<ChainBucket>, chain: u64) -> (r: Option<usize>)
    ensures
        match r {
            Some(i) => i < list@.len() && list@[i as int].chain_id == chain,
            None => !has_bucket(list@, chain),
        },
{
    let mut i: usize = 0;
    while i < list.len()
        invariant
            i <= list@.len(),
            forall|k: int| 0 <= k < i ==> (#[trigger] list@[k]).chain_id != chain,
        decreases list@.len() - i,
    {
        if list[i].chain_id == chain {
            return Some(i);
        }
        i += 1;
    }
    None
}

/// Sorts the tokens of a list into buckets by chain id.
fn bucket_by_chain(tokens: &Vec<Token>) -> (list: Vec<ChainBucket>)
    ensures
        distinct_chains(list@),
        bucket_map(list@) == bucketed(tokens@),
{
    let mut list: Vec<ChainBucket> = Vec::new();
    let mut i: usize = 0;
    proof {
        assert(bucket_map(list@) =~= bucketed(tokens@.subrange(0, 0)));
    }
    while i < tokens.len()
        invariant
            i <= tokens@.len(),
            distinct_chains(list@),
            bucket_map(list@) == bucketed(tokens@.subrange(0, i as int)),
        decreases tokens@.len() - i,
    {
        let ghost before = list@;
        let ghost seen = tokens@.subrange(0, i as int);
        let chain = tokens[i].chain_id;
        let address = tokens[i].address;
        proof {
            lemma_bucketed_push(seen, tokens@[i as int]);
            assert(tokens@.subrange(0, i + 1) == seen.push(tokens@[i as int]));
            assert(has_bucket(before, chain) <==> bucket_map(before).contains_key(chain));
            assert(has_chain(seen, chain) <==> bucketed(seen).contains_key(chain));
        }
        match bucket_position(&list, chain) {
            Some(p) => {
                proof {
                    lemma_bucket_index(before, p as int);
                }
                list[p].tokens.insert(address);
                proof {
                    lemma_bucket_map_insert(before, list@, p as int);
                }
            },
            None => {
                let mut tokens_of_chain = AddressSet::new();
                tokens_of_chain.insert(address);
                list.push(ChainBucket { chain_id: chain, tokens: tokens_of_chain });
                proof {
                    lemma_bucket_map_insert(before, list@, before.len() as int);
                }
            },
        }
        i += 1;
    }
    assert(tokens@.subrange(0, i as int) == tokens@);
    list
}

/// Fetched token lists, cached by URL, and the URLs that are being fetched.
pub struct TokenListFetcher {
    cache: Vec<CachedTokenList>,
    in_flight: Vec<String>,
    ttl: u64,
}

impl View for TokenListFetcher {
    type V = FetcherView;

    closed spec fn view(&self) -> FetcherView {
        FetcherView {
            cache: cache_map(self.cache@),
            in_flight: flight_set(self.in_flight@),
            ttl: self.ttl,
        }
    }
}

impl TokenListFetcher {
    #[verifier::type_invariant]
    spec fn well_formed(self) -> bool {
        distinct_urls(self.cache@) && buckets_distinct(self.cache@)
    }

    /// A fetcher with an empty cache and the default time to live.
    pub fn new() -> (f: TokenListFetcher)
        ensures
            f@.cache == Map::<Seq<char>, CachedListView>::empty(),
            f@.in_flight == Set::<Seq<char>>::empty(),
            f@.ttl == CACHE_TTL_MS,
    {
        TokenListFetcher::with_ttl(CACHE_TTL_MS)
    }

    /// A fetcher with an empty cache that serves a list for `ttl`
    /// milliseconds.
    pub fn with_ttl(ttl: u64) -> (f: TokenListFetcher)
        ensures
            f@.cache == Map::<Seq<char>, CachedListView>::empty(),
            f@.in_flight == Set::<Seq<char>>::empty(),
            f@.ttl == ttl,
    {
        let f = TokenListFetcher { cache: Vec::new(), in_flight: Vec::new(), ttl };
        assert(f@.cache =~= Map::<Seq<char>, CachedListView>::empty());
        assert(f@.in_flight =~= Set::<Seq<char>>::empty());
        f
    }

    fn cache_position(&self, url: &String) -> (r: Option<usize>)
        ensures
            match r {
                Some(i) => i < self.cache@.len() && self.cache@[i as int].url@ == url@,
                None => !has_url(self.cache@, url@),
            },
    {
        let mut i: usize = 0;
        while i < self.cache.len()
            invariant
                i <= self.cache@.len(),
                forall|k: int| 0 <= k < i ==> (#[trigger] self.cache@[k]).url@ != url@,
            decreases self.cache@.len() - i,
        {
            if self.cache[i].url == *url {
                return Some(i);
            }
            i += 1;
        }
        None
    }

    fn is_in_flight(&self, url: &String) -> (r: bool)
        ensures
            r == self@.in_flight.contains(url@),
    {
        let mut i: usize = 0;
        while i < self.in_flight.len()
            invariant
                i <= self.in_flight@.len(),
                forall|k: int| 0 <= k < i ==> (#[trigger] self.in_flight@[k])@ != url@,
            decreases self.in_flight@.len() - i,
        {
            if self.in_flight[i] == *url {
                return true;
            }
            i += 1;
        }
        false
    }

    /// Whether the list at `url` has to be fetched at `now`.
    pub fn is_uncached(&self, url: &String, now: u64) -> (r: bool)
        ensures
            r == needs_fetch(self@, url@, now),
    {
        proof {
            use_type_invariant(self);
        }
        if self.is_in_flight(url) {
            return false;
        }
        match self.cache_position(url) {
            Some(i) => {
                proof {
                    lemma_url_index(self.cache@, i as int);
                }
                let fetched_at = self.cache[i].fetched_at;
                let age = if now >= fetched_at {
                    now - fetched_at
                } else {
                    0
                };
                age > self.ttl
            },
            None => true,
        }
    }

    /// Those of `urls` that have to be fetched at `now`, in their order.
    pub fn get_uncached_urls(&self, urls: &Vec<String>, now: u64) -> (r: Vec<String>)
        ensures
            r@ == urls@.filter(|u: String| needs_fetch(self@, u@, now)),
    {
        let ghost pred = |u: String| needs_fetch(self@, u@, now);
        let mut r: Vec<String> = Vec::new();
        let mut i: usize = 0;
        proof {
            reveal(Seq::filter);
            assert(urls@.subrange(0, 0) =~= Seq::<String>::empty());
        }
        while i < urls.len()
            invariant
                i <= urls@.len(),
                pred == (|u: String| needs_fetch(self@, u@, now)),
                r@ == urls@.subrange(0, i as int).filter(pred),
            decreases urls@.len() - i,
        {
            proof {
                reveal(Seq::filter);
                assert(urls@.subrange(0, i + 1).drop_last() == urls@.subrange(0, i as int));
            }
            if self.is_uncached(&urls[i], now) {
                r.push(urls[i].clone());
            }
            i += 1;
        }
        assert(urls@.subrange(0, i as int) == urls@);
        r
    }

    /// Marks `urls` as being fetched.
    pub fn mark_in_flight(&mut self, urls: &Vec<String>)
        ensures
            final(self)@.in_flight == old(self)@.in_flight.union(url_set(urls@)),
            final(self)@.cache == old(self)@.cache,
            final(self)@.ttl == old(self)@.ttl,
    {
        proof {
            use_type_invariant(&*self);
        }
        let mut in_flight: Vec<String> = Vec::new();
        core::mem::swap(&mut in_flight, &mut self.in_flight);
        let ghost before = in_flight@;
        let mut i: usize = 0;
        while i < urls.len()
            invariant
                i <= urls@.len(),
                in_flight@ == before + urls@.subrange(0, i as int),
            decreases urls@.len() - i,
        {
            in_flight.push(urls[i].clone());
            assert(in_flight@ == before + urls@.subrange(0, i + 1));
            i += 1;
        }
        proof {
            assert(urls@.subrange(0, i as int) == urls@);
            let after = in_flight@;
            assert forall|u: Seq<char>|
                flight_set(after).contains(u) <==> flight_set(before).union(
                    url_set(urls@),
                ).contains(u) by {
                if flight_set(after).contains(u) {
                    let k = choose|k: int| 0 <= k < after.len() && (#[trigger] after[k])@ == u;
                    if k < before.len() {
                        assert(before[k]@ == u);
                    } else {
                        assert(urls@[k - before.len()]@ == u);
                    }
                }
                if flight_set(before).contains(u) {
                    let k = choose|k: int| 0 <= k < before.len() && (#[trigger] before[k])@ == u;
                    assert(after[k]@ == u);
                }
                if url_set(urls@).contains(u) {
                    let k = choose|k: int| 0 <= k < urls@.len() && (#[trigger] urls@[k])@ == u;
                    assert(after[before.len() + k]@ == u);
                }
            }
            assert(flight_set(after) =~= flight_set(before).union(url_set(urls@)));
        }
        core::mem::swap(&mut in_flight, &mut self.in_flight);
    }

    /// Marks `urls` as no longer being fetched.
    pub fn clear_in_flight(&mut self, urls: &Vec<String>)
        ensures
            final(self)@.in_flight == old(self)@.in_flight.difference(url_set(urls@)),
            final(self)@.cache == old(self)@.cache,
            final(self)@.ttl == old(self)@.ttl,
    {
        proof {
            use_type_invariant(&*self);
        }
        let mut in_flight: Vec<String> = Vec::new();
        core::mem::swap(&mut in_flight, &mut self.in_flight);
        let ghost before = in_flight@;
        let mut kept: Vec<String> = Vec::new();
        let mut i: usize = 0;
        while i < in_flight.len()
            invariant
                i <= in_flight@.len(),
                in_flight@ == before,
                forall|u: Seq<char>|
                    #![trigger flight_set(kept@).contains(u)]
                    flight_set(kept@).contains(u) <==> flight_set(
                        before.subrange(0, i as int),
                    ).contains(u) && !url_set(urls@).contains(u),
            decreases in_flight@.len() - i,
        {
            let ghost kept_before = kept@;
            let ghost seen = before.subrange(0, i as int);
            let ghost seen_next = before.subrange(0, i + 1);
            let keep = !list_contains(urls, &in_flight[i]);
            if keep {
                kept.push(in_flight[i].clone());
            }
            proof {
                let e = before[i as int]@;
                assert(seen_next == seen.push(before[i as int]));
                assert forall|u: Seq<char>|
                    #![trigger flight_set(kept@).contains(u)]
                    flight_set(kept@).contains(u) <==> flight_set(seen_next).contains(u)
                        && !url_set(urls@).contains(u) by {
                    assert(flight_set(kept_before).contains(u) <==> flight_set(seen).contains(u)
                        && !url_set(urls@).contains(u));
                    if flight_set(kept@).contains(u) {
                        let k = choose|k: int| 0 <= k < kept@.len() && (#[trigger] kept@[k])@ == u;
                        if k < kept_before.len() {
                            assert(kept_before[k]@ == u);
                        }
                    }
                    if flight_set(kept_before).contains(u) {
                        let k = choose|k: int|
                            0 <= k < kept_before.len() && (#[trigger] kept_before[k])@ == u;
                        assert(kept@[k]@ == u);
                    }
                    if flight_set(seen_next).contains(u) {
                        let k = choose|k: int|
                            0 <= k < seen_next.len() && (#[trigger] seen_next[k])@ == u;
                        if k < seen.len() {
                            assert(seen[k]@ == u);
                        }
                    }
                    if flight_set(seen).contains(u) {
                        let k = choose|k: int| 0 <= k < seen.len() && (#[trigger] seen[k])@ == u;
                        assert(seen_next[k]@ == u);
                    }
                    if u == e {
                        assert(seen_next[i as int]@ == u);
                        if keep {
                            assert(kept@[kept_before.len() as int]@ == u);
                        }
                    }
                }
            }
            i += 1;
        }
        proof {
            assert(before.subrange(0, i as int) == before);
            assert(flight_set(kept@) =~= flight_set(before).difference(url_set(urls@)));
        }
        core::mem::swap(&mut kept, &mut self.in_flight);
    }

    /// Caches a fetched list under its URL, with `now` as the time it was
    /// fetched.
    pub fn store(&mut self, url: &String, tokens: &Vec<Token>, now: u64)
        ensures
            final(self)@.cache == after_store(old(self)@.cache, url@, tokens@, now),
            final(self)@.in_flight == old(self)@.in_flight,
            final(self)@.ttl == old(self)@.ttl,
    {
        proof {
            use_type_invariant(&*self);
        }
        let list = bucket_by_chain(tokens);
        let found = self.cache_position(url);
        let mut cache: Vec<CachedTokenList> = Vec::new();
        core::mem::swap(&mut cache, &mut self.cache);
        let ghost before = cache@;
        let entry = CachedTokenList { url: url.clone(), fetched_at: now, list };
        match found {
            Some(i) => {
                cache.set(i, entry);
                proof {
                    lemma_cache_map_insert(before, cache@, i as int);
                }
            },
            None => {
                cache.push(entry);
                proof {
                    lemma_cache_map_insert(before, cache@, before.len() as int);
                }
            },
        }
        core::mem::swap(&mut cache, &mut self.cache);
    }

    /// Takes in what fetching gave. If any list failed to load, nothing is
    /// cached and the first failure is returned; otherwise every list is
    /// cached, in order, with `now` as the time it was fetched.
    pub fn cache_fetched(&mut self, results: &Vec<FetchResult>, now: u64) -> (r: Result<
        (),
        FetcherError,
    >)
        ensures
            forall|i: int| #[trigger]
                is_first_error(results@, i) ==> r is Err && r->Err_0.url_text()
                    == results@[i].response->Err_0.url_text() && r->Err_0.reason_text()
                    == results@[i].response->Err_0.reason_text() && final(self)@ == old(self)@,
            (forall|i: int| 0 <= i < results@.len() ==> (#[trigger] results@[i]).response is Ok)
                ==> r is Ok && final(self)@.cache == stored_all(
                old(self)@.cache,
                results@,
                results@.len() as int,
                now,
            ),
            final(self)@.in_flight == old(self)@.in_flight,
            final(self)@.ttl == old(self)@.ttl,
    {
        let mut i: usize = 0;
        while i < results.len()
            invariant
                i <= results@.len(),
                forall|k: int| 0 <= k < i ==> (#[trigger] results@[k]).response is Ok,
            decreases results@.len() - i,
        {
            match &results[i].response {
                Err(FetcherError::UnableToLoadList(url, reason)) => {
                    assert(is_first_error(results@, i as int));
                    assert forall|j: int| #[trigger] is_first_error(results@, j) implies j
                        == i by {
                        if j < i {
                            assert(results@[j].response is Ok);
                        }
                        if i < j {
                            assert(results@[i as int].response is Ok);
                        }
                    }
                    return Err(FetcherError::UnableToLoadList(url.clone(), reason.clone()));
                },
                Ok(_) => {},
            }
            i += 1;
        }
        assert forall|j: int| !#[trigger] is_first_error(results@, j) by {
            if 0 <= j < results@.len() {
                assert(results@[j].response is Ok);
            }
        }
        let mut j: usize = 0;
        while j < results.len()
            invariant
                j <= results@.len(),
                forall|k: int| 0 <= k < results@.len() ==> (#[trigger] results@[k]).response is Ok,
                self@.cache == stored_all(old(self)@.cache, results@, j as int, now),
                self@.in_flight == old(self)@.in_flight,
                self@.ttl == old(self)@.ttl,
            decreases results@.len() - j,
        {
            assert(results@[j as int].response is Ok);
            match &results[j].response {
                Ok(tokens) => {
                    self.store(&results[j].url, tokens, now);
                },
                Err(_) => {},
            }
            j += 1;
        }
        Ok(())
    }

    /// The tokens on `network` of the cached lists at `urls`, all together.
    pub fn collect_from_cache(&self, urls: &Vec<String>, network: EvmNetwork) -> (r: AddressSet)
        ensures
            r@ == collected(self@.cache, urls@, network.spec_chain_id()),
    {
        proof {
            use_type_invariant(self);
        }
        let chain = network.chain_id();
        let mut r = AddressSet::new();
        let mut i: usize = 0;
        proof {
            assert(r@ =~= collected(self@.cache, urls@.subrange(0, 0), chain));
        }
        while i < urls.len()
            invariant
                i <= urls@.len(),
                distinct_urls(self.cache@),
                buckets_distinct(self.cache@),
                r@ == collected(self@.cache, urls@.subrange(0, i as int), chain),
            decreases urls@.len() - i,
        {
            proof {
                lemma_collected_push(
                    self@.cache,
                    urls@.subrange(0, i as int),
                    urls@[i as int],
                    chain,
                );
                assert(urls@.subrange(0, i + 1) == urls@.subrange(0, i as int).push(
                    urls@[i as int],
                ));
            }
            let ghost r_before = r@;
            match self.cache_position(&urls[i]) {
                Some(c) => {
                    proof {
                        lemma_url_index(self.cache@, c as int);
                        assert(distinct_chains(self.cache@[c as int].list@));
                    }
                    match bucket_position(&self.cache[c].list, chain) {
                        Some(b) => {
                            proof {
                                lemma_bucket_index(self.cache@[c as int].list@, b as int);
                            }
                            r.extend(&self.cache[c].list[b].tokens);
                        },
                        None => {
                            assert(r@ =~= r_before.union(Set::<Address>::empty()));
                        },
                    }
                },
                None => {
                    assert(r@ =~= r_before.union(Set::<Address>::empty()));
                },
            }
            i += 1;
        }
        assert(urls@.subrange(0, i as int) == urls@);
        r
    }

    /// The first half of getting tokens: finds which of `urls` have to be
    /// fetched at `now` and, if there are any, marks all of `urls` as being
    /// fetched. What it returns is to be fetched.
    pub fn begin_fetch(&mut self, urls: &Vec<String>, now: u64) -> (to_fetch: Vec<String>)
        ensures
            to_fetch@ == urls@.filter(|u: String| needs_fetch(old(self)@, u@, now)),
            final(self)@.cache == old(self)@.cache,
            final(self)@.ttl == old(self)@.ttl,
            final(self)@.in_flight == (if to_fetch@.len() == 0 {
                old(self)@.in_flight
            } else {
                old(self)@.in_flight.union(url_set(urls@))
            }),
    {
        let to_fetch = self.get_uncached_urls(urls, now);
        if to_fetch.len() > 0 {
            self.mark_in_flight(urls);
        }
        to_fetch
    }

    /// The second half of getting tokens: `urls` are no longer being fetched,
    /// and what fetching gave is cached, unless a list failed to load.
    pub fn finish_fetch(&mut self, urls: &Vec<String>, results: &Vec<FetchResult>, now: u64) -> (r:
        Result<(), FetcherError>)
        ensures
            final(self)@.in_flight == old(self)@.in_flight.difference(url_set(urls@)),
            final(self)@.ttl == old(self)@.ttl,
            forall|i: int| #[trigger]
                is_first_error(results@, i) ==> r is Err && r->Err_0.url_text()
                    == results@[i].response->Err_0.url_text() && r->Err_0.reason_text()
                    == results@[i].response->Err_0.reason_text() && final(self)@.cache
                    == old(self)@.cache,
            (forall|i: int| 0 <= i < results@.len() ==> (#[trigger] results@[i]).response is Ok)
                ==> r is Ok && final(self)@.cache == stored_all(
                old(self)@.cache,
                results@,
                results@.len() as int,
                now,
            ),
    {
        self.clear_in_flight(urls);
        self.cache_fetched(results, now)
    }

    /// The tokens on `network` of the lists at `urls`, as far as the cache
    /// has them.
    pub fn get_tokens(&self, urls: &Vec<String>, network: EvmNetwork) -> (r: AddressSet)
        ensures
            r@ == collected(self@.cache, urls@, network.spec_chain_id()),
    {
        self.collect_from_cache(urls, network)
    }
}

/// A list that was cached at `stored_at` is not fetched again until it is
/// older than the time to live.
pub proof fn lemma_fresh_list_not_refetched(
    state: FetcherView,
    url: Seq<char>,
    tokens: Seq<Token>,
    stored_at: u64,
    now: u64,
)
    requires
        elapsed(now, stored_at) <= state.ttl,
    ensures
        !needs_fetch(
            FetcherView { cache: after_store(state.cache, url, tokens, stored_at), ..state },
            url,
            now,
        ),
{
}

/// After a fetch whose lists all loaded, every one of them is in the cache as
/// fetched at `now`.
pub proof fn lemma_stored_lists_are_cached(
    cache: Map<Seq<char>, CachedListView>,
    results: Seq<FetchResult>,
    upto: int,
    now: u64,
    i: int,
)
    requires
        0 <= i < upto <= results.len(),
        forall|k: int| 0 <= k < upto ==> (#[trigger] results[k]).response is Ok,
    ensures
        stored_all(cache, results, upto, now).contains_key(results[i].url@),
        stored_all(cache, results, upto, now)[results[i].url@].fetched_at == now,
    decreases upto,
{
    if i < upto - 1 {
        lemma_stored_lists_are_cached(cache, results, upto - 1, now, i);
        assert(results[upto - 1].response is Ok);
    }
}

/// Two calls back to back fetch a list once: after a fetch whose lists all
/// loaded, none of them is to be fetched again until it is older than the time
/// to live.
pub proof fn lemma_back_to_back_fetches_once(
    state: FetcherView,
    results: Seq<FetchResult>,
    now: u64,
    later: u64,
    i: int,
)
    requires
        0 <= i < results.len(),
        forall|k: int| 0 <= k < results.len() ==> (#[trigger] results[k]).response is Ok,
        elapsed(later, now) <= state.ttl,
    ensures
        !needs_fetch(
            FetcherView {
                cache: stored_all(state.cache, results, results.len() as int, now),
                ..state
            },
            results[i].url@,
            later,
        ),
{
    lemma_stored_lists_are_cached(state.cache, results, results.len() as int, now, i);
}

/// A list that one caller is fetching is not fetched by another.
pub proof fn lemma_in_flight_not_refetched(
    state: FetcherView,
    urls: Seq<String>,
    i: int,
    now: u64,
)
    requires
        0 <= i < urls.len(),
    ensures
        !needs_fetch(
            FetcherView { in_flight: state.in_flight.union(url_set(urls)), ..state },
            urls[i]@,
            now,
        ),
{
    assert(url_set(urls).contains(urls[i]@));
}

/// Where none of `urls` has to be fetched, nothing is fetched.
pub proof fn lemma_nothing_to_fetch(state: FetcherView, urls: Seq<String>, now: u64)
    requires
        forall|i: int| 0 <= i < urls.len() ==> !needs_fetch(state, (#[trigger] urls[i])@, now),
    ensures
        urls.filter(|u: String| needs_fetch(state, u@, now)) == Seq::<String>::empty(),
{
    let pred = |u: String| needs_fetch(state, u@, now);
    assert forall|u: String| urls.contains(u) implies !pred(u) by {
        let i = choose|i: int| 0 <= i < urls.len() && urls[i] == u;
        assert(!needs_fetch(state, urls[i]@, now));
    }
    urls.lemma_all_neg_filter_empty(pred);
}

} // verus!
