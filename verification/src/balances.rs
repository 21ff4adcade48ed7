use vstd::prelude::*;
use crate::address::Address;
use crate::address::lemma_rank_injective;
use crate::balance::Balance;
use crate::balance::decoded_balance;
use crate::balance_map::BalanceMap;
use crate::errors::ServiceError;
use crate::errors::missing_response;
use crate::errors::missing_response_text;
use crate::errors::subcall_failed;
use crate::errors::subcall_failed_text;
use crate::network::EvmNetwork;

verus! {

/// For whom, on which chain and through which aggregate contract balances
/// are read.
#[derive(Debug, Clone, Copy)]
pub struct BalanceCallCtx {
    pub owner: Address,
    pub network: EvmNetwork,
    pub multicall3: Address,
}

/// One sub-call of an aggregate call.
#[derive(Debug)]
pub struct Call3 {
    pub target: Address,
    pub allow_failure: bool,
    pub call_data: Vec<u8>,
}

/// What the aggregate call reports of one sub-call.
#[derive(Debug)]
pub struct CallResult {
    pub success: bool,
    pub return_data: Vec<u8>,
}

/// Each address comes before the next, so none occurs twice.
pub open spec fn strictly_sorted(s: Seq<Address>) -> bool {
    forall|i: int, j: int|
        #![trigger s[i], s[j]]
        0 <= i < j < s.len() ==> s[i].rank() < s[j].rank()
}

/// `order` lists, in ascending order and each once, the addresses of `tokens`
/// other than the native coin's.
pub open spec fn is_call_order(order: Seq<Address>, tokens: Seq<Address>, native: Address) -> bool {
    &&& strictly_sorted(order)
    &&& forall|a: Address| #[trigger] order.contains(a) <==> tokens.contains(a) && a != native
}

/// Two ascending lists with the same addresses are the same list.
pub proof fn lemma_strictly_sorted_unique(a: Seq<Address>, b: Seq<Address>)
    requires
        strictly_sorted(a),
        strictly_sorted(b),
        forall|x: Address| a.contains(x) <==> b.contains(x),
    ensures
        a == b,
    decreases a.len(),
{
    if a.len() == 0 {
        if b.len() > 0 {
            assert(b.contains(b[0]));
        }
        assert(a =~= b);
    } else {
        let top = a.last();
        assert(a.contains(top));
        assert(b.contains(top));
        let at = choose|k: int| 0 <= k < b.len() && b[k] == top;
        assert(b.contains(b.last()));
        assert(a.contains(b.last()));
        let back = choose|k: int| 0 <= k < a.len() && a[k] == b.last();
        if at < b.len() - 1 {
            assert(b[at].rank() < b[b.len() - 1].rank());
            if back < a.len() - 1 {
                assert(a[back].rank() < a[a.len() - 1].rank());
            }
        }
        assert(at == b.len() - 1);
        let a0 = a.drop_last();
        let b0 = b.drop_last();
        assert forall|x: Address| a0.contains(x) <==> b0.contains(x) by {
            if a0.contains(x) {
                let k = choose|k: int| 0 <= k < a0.len() && a0[k] == x;
                assert(a[k] == x);
                assert(a[k].rank() < a[a.len() - 1].rank());
                assert(a.contains(x));
                let j = choose|j: int| 0 <= j < b.len() && b[j] == x;
                assert(j < b.len() - 1);
                assert(b0[j] == x);
            }
            if b0.contains(x) {
                let k = choose|k: int| 0 <= k < b0.len() && b0[k] == x;
                assert(b[k] == x);
                assert(b[k].rank() < b[b.len() - 1].rank());
                assert(b.contains(x));
                let j = choose|j: int| 0 <= j < a.len() && a[j] == x;
                assert(j < a.len() - 1);
                assert(a0[j] == x);
            }
        }
        assert(strictly_sorted(a0)) by {
            assert forall|i: int, j: int|
                #![trigger a0[i], a0[j]]
                0 <= i < j < a0.len() implies a0[i].rank() < a0[j].rank() by {
                assert(a[i].rank() < a[j].rank());
            }
        }
        assert(strictly_sorted(b0)) by {
            assert forall|i: int, j: int|
                #![trigger b0[i], b0[j]]
                0 <= i < j < b0.len() implies b0[i].rank() < b0[j].rank() by {
                assert(b[i].rank() < b[j].rank());
            }
        }
        lemma_strictly_sorted_unique(a0, b0);
        assert(a =~= a0.push(top));
        assert(b =~= b0.push(top));
    }
}

/// The call order of a list of tokens is one list and no other.
pub proof fn lemma_call_order_unique(
    a: Seq<Address>,
    b: Seq<Address>,
    tokens: Seq<Address>,
    native: Address,
)
    requires
        is_call_order(a, tokens, native),
        is_call_order(b, tokens, native),
    ensures
        a == b,
{
    assert forall|x: Address| a.contains(x) <==> b.contains(x) by {
        assert(a.contains(x) <==> tokens.contains(x) && x != native);
        assert(b.contains(x) <==> tokens.contains(x) && x != native);
    }
    lemma_strictly_sorted_unique(a, b);
}

/// Where `t` belongs in a sorted list: after all that come before it.
fn insertion_point(order: &Vec<Address>, t: &Address) -> (p: usize)
    ensures
        p <= order@.len(),
        forall|k: int| 0 <= k < p ==> (#[trigger] order@[k]).rank() < t.rank(),
        p < order@.len() ==> order@[p as int].rank() >= t.rank(),
{
    let mut p: usize = 0;
    while p < order.len()
        invariant
            p <= order@.len(),
            forall|k: int| 0 <= k < p ==> (#[trigger] order@[k]).rank() < t.rank(),
        decreases order@.len() - p,
    {
        if !order[p].precedes(t) {
            return p;
        }
        p += 1;
    }
    p
}

/// Puts `t` at its place in a sorted list, unless it is there already.
fn insert_sorted(order: &mut Vec<Address>, t: Address)
    requires
        strictly_sorted(old(order)@),
    ensures
        strictly_sorted(final(order)@),
        forall|a: Address| #[trigger]
            final(order)@.contains(a) <==> old(order)@.contains(a) || a == t,
{
    let p = insertion_point(order, &t);
    let ghost before = order@;
    if p < order.len() && order[p] == t {
        assert(before.contains(t));
        return ;
    }
    order.insert(p, t);
    proof {
        let after = order@;
        assert(after == before.insert(p as int, t));
        assert(after.len() == before.len() + 1);
        assert(after[p as int] == t);
        assert(forall|k: int| 0 <= k < p ==> after[k] == before[k]);
        assert(forall|k: int| p < k < after.len() ==> after[k] == before[k - 1]);
        assert forall|k: int| p <= k < before.len() implies t.rank() < (
        #[trigger] before[k]).rank() by {
            if before[p as int].rank() == t.rank() {
                lemma_rank_injective(before[p as int], t);
            }
            if p < k {
                assert(before[p as int].rank() < before[k].rank());
            }
        }
        assert forall|i: int, j: int|
            #![trigger after[i], after[j]]
            0 <= i < j < after.len() implies after[i].rank() < after[j].rank() by {
            if j < p {
                assert(before[i].rank() < before[j].rank());
            } else if j == p {
                assert(before[i].rank() < t.rank());
            } else if i < p {
                assert(before[i].rank() < before[j - 1].rank());
            } else if i == p {
                assert(t.rank() < before[j - 1].rank());
            } else {
                assert(before[i - 1].rank() < before[j - 1].rank());
            }
        }
        assert forall|a: Address| #[trigger] after.contains(a) <==> before.contains(a) || a
            == t by {
            if after.contains(a) {
                let k = choose|k: int| 0 <= k < after.len() && after[k] == a;
                if k < p {
                    assert(before[k] == a);
                } else if k > p {
                    assert(before[k - 1] == a);
                }
            }
            if before.contains(a) {
                let k = choose|k: int| 0 <= k < before.len() && before[k] == a;
                if k < p {
                    assert(after[k] == a);
                } else {
                    assert(after[k + 1] == a);
                }
            }
            if a == t {
                assert(after[p as int] == a);
            }
        }
    }
}

/// The order in which the tokens are asked for: the addresses of `tokens`
/// other than the native coin's, ascending, each once.
pub fn erc20_call_order(tokens: &Vec<Address>, native: &Address) -> (order: Vec<Address>)
    ensures
        is_call_order(order@, tokens@, *native),
{
    let mut order: Vec<Address> = Vec::new();
    let mut i: usize = 0;
    while i < tokens.len()
        invariant
            i <= tokens@.len(),
            strictly_sorted(order@),
            forall|a: Address| #[trigger]
                order@.contains(a) <==> tokens@.subrange(0, i as int).contains(a) && a != *native,
        decreases tokens@.len() - i,
    {
        let t = tokens[i];
        let ghost seen = tokens@.subrange(0, i as int);
        let ghost seen_next = tokens@.subrange(0, i + 1);
        let ghost order_prev = order@;
        proof {
            assert(seen_next == seen.push(t));
            assert forall|a: Address| seen_next.contains(a) <==> seen.contains(a) || a == t by {
                if seen_next.contains(a) {
                    let k = choose|k: int| 0 <= k < seen_next.len() && seen_next[k] == a;
                    if k < seen.len() {
                        assert(seen[k] == a);
                    }
                }
                if seen.contains(a) {
                    let k = choose|k: int| 0 <= k < seen.len() && seen[k] == a;
                    assert(seen_next[k] == a);
                }
                if a == t {
                    assert(seen_next[seen.len() as int] == a);
                }
            }
            assert(forall|a: Address| #[trigger]
                order_prev.contains(a) <==> seen.contains(a) && a != *native);
        }
        if t != *native {
            insert_sorted(&mut order, t);
        }
        proof {
            assert forall|a: Address| #[trigger]
                order@.contains(a) <==> seen_next.contains(a) && a != *native by {
                assert(order_prev.contains(a) <==> seen.contains(a) && a != *native);
                assert(seen_next.contains(a) <==> seen.contains(a) || a == t);
            }
        }
        i += 1;
    }
    assert(tokens@.subrange(0, i as int) == tokens@);
    order
}

/// An address as one 32-byte word of call data: twelve zero bytes, then the
/// address.
pub open spec fn address_word(a: Address) -> Seq<u8> {
    Seq::new(12, |i: int| 0u8) + a.bytes@
}

/// The call data of `balanceOf(owner)` on a token contract.
pub open spec fn balance_of_call_data(owner: Address) -> Seq<u8> {
    seq![0x70u8, 0xa0u8, 0x82u8, 0x31u8] + address_word(owner)
}

/// The call data of `getEthBalance(owner)` on the aggregate contract.
pub open spec fn eth_balance_call_data(owner: Address) -> Seq<u8> {
    seq![0x4du8, 0x23u8, 0x01u8, 0xccu8] + address_word(owner)
}

/// Call data made of a four-byte selector and one address argument.
fn address_call(selector: [u8; 4], a: &Address) -> (data: Vec<u8>)
    ensures
        data@ == selector@ + address_word(*a),
{
    let mut data: Vec<u8> = Vec::new();
    data.push(selector[0]);
    data.push(selector[1]);
    data.push(selector[2]);
    data.push(selector[3]);
    assert(data@ == selector@);
    let mut i: usize = 0;
    while i < 12
        invariant
            i <= 12,
            data@ == selector@ + Seq::new(i as nat, |k: int| 0u8),
        decreases 12 - i,
    {
        data.push(0u8);
        assert(data@ == selector@ + Seq::new((i + 1) as nat, |k: int| 0u8));
        i += 1;
    }
    let mut j: usize = 0;
    while j < 20
        invariant
            j <= 20,
            data@ == selector@ + Seq::new(12, |k: int| 0u8) + a.bytes@.subrange(0, j as int),
        decreases 20 - j,
    {
        data.push(a.bytes[j]);
        assert(data@ == selector@ + Seq::new(12, |k: int| 0u8) + a.bytes@.subrange(0, j + 1));
        j += 1;
    }
    assert(a.bytes@.subrange(0, 20) == a.bytes@);
    assert(data@ == selector@ + address_word(*a));
    data
}

/// The call data of `balanceOf(owner)`.
pub fn balance_of_call(owner: &Address) -> (data: Vec<u8>)
    ensures
        data@ == balance_of_call_data(*owner),
{
    let selector: [u8; 4] = [0x70u8, 0xa0u8, 0x82u8, 0x31u8];
    assert(selector@ == seq![0x70u8, 0xa0u8, 0x82u8, 0x31u8]);
    address_call(selector, owner)
}

/// The call data of `getEthBalance(owner)`.
pub fn eth_balance_call(owner: &Address) -> (data: Vec<u8>)
    ensures
        data@ == eth_balance_call_data(*owner),
{
    let selector: [u8; 4] = [0x4du8, 0x23u8, 0x01u8, 0xccu8];
    assert(selector@ == seq![0x4du8, 0x23u8, 0x01u8, 0xccu8]);
    address_call(selector, owner)
}

/// The sub-calls of one read, in order: `balanceOf(owner)` on each token of
/// `erc20`, then `getEthBalance(owner)` on the aggregate contract itself.
/// Every sub-call may fail without failing the batch.
pub fn build_calls(ctx: &BalanceCallCtx, erc20: &Vec<Address>) -> (calls: Vec<Call3>)
    ensures
        calls@.len() == erc20@.len() + 1,
        forall|i: int|
            0 <= i < erc20@.len() ==> {
                &&& (#[trigger] calls@[i]).target == erc20@[i]
                &&& calls@[i].allow_failure
                &&& calls@[i].call_data@ == balance_of_call_data(ctx.owner)
            },
        calls@[erc20@.len() as int].target == ctx.multicall3,
        calls@[erc20@.len() as int].allow_failure,
        calls@[erc20@.len() as int].call_data@ == eth_balance_call_data(ctx.owner),
{
    let mut calls: Vec<Call3> = Vec::new();
    let mut i: usize = 0;
    while i < erc20.len()
        invariant
            i <= erc20@.len(),
            calls@.len() == i,
            forall|k: int|
                0 <= k < i ==> {
                    &&& (#[trigger] calls@[k]).target == erc20@[k]
                    &&& calls@[k].allow_failure
                    &&& calls@[k].call_data@ == balance_of_call_data(ctx.owner)
                },
        decreases erc20@.len() - i,
    {
        calls.push(
            Call3 { target: erc20[i], allow_failure: true, call_data: balance_of_call(&ctx.owner) },
        );
        i += 1;
    }
    calls.push(
        Call3 {
            target: ctx.multicall3,
            allow_failure: true,
            call_data: eth_balance_call(&ctx.owner),
        },
    );
    calls
}

/// Whether the batch lacks the response at `i`, or reports there that the
/// sub-call failed.
pub open spec fn fails_at(responses: Seq<CallResult>, i: int) -> bool {
    i >= responses.len() || !responses[i].success
}

/// Whether `i` is the first of the first `n` sub-calls that failed.
pub open spec fn is_first_failure(responses: Seq<CallResult>, n: int, i: int) -> bool {
    &&& 0 <= i < n
    &&& fails_at(responses, i)
    &&& forall|k: int| 0 <= k < i ==> !#[trigger] fails_at(responses, k)
}

/// What is reported of the failure at `i`.
pub open spec fn failure_text(erc20: Seq<Address>, responses: Seq<CallResult>, i: int) -> Seq<
    char,
> {
    if i >= responses.len() {
        missing_response_text(i as nat)
    } else {
        subcall_failed_text(erc20[i], i as nat, responses[i].return_data@.len())
    }
}

/// The balances that the first `upto` token responses yield: each token whose
/// return data decodes has its balance; one whose data does not is left out.
pub open spec fn token_balances(erc20: Seq<Address>, responses: Seq<CallResult>, upto: int) -> Map<
    Address,
    nat,
>
    decreases upto,
{
    if upto <= 0 {
        Map::empty()
    } else {
        let rest = token_balances(erc20, responses, upto - 1);
        match decoded_balance(responses[upto - 1].return_data@) {
            Some(v) => rest.insert(erc20[upto - 1], v),
            None => rest,
        }
    }
}

/// The balances that a batch of responses yields: those of the tokens, and
/// the native balance, which the response after the tokens' holds, under the
/// native coin's address if its data decodes.
pub open spec fn read_balances(
    erc20: Seq<Address>,
    native: Address,
    responses: Seq<CallResult>,
) -> Map<Address, nat> {
    let tokens = token_balances(erc20, responses, erc20.len() as int);
    match decoded_balance(responses[erc20.len() as int].return_data@) {
        Some(v) => tokens.insert(native, v),
        None => tokens,
    }
}

/// Reads the balances out of the responses to the sub-calls that
/// `build_calls` makes for `erc20`.
///
/// The read fails as a whole at the first token whose response is missing or
/// reports `success == false`, and when the native response is missing. A
/// response whose data does not decode only leaves its address out.
pub fn get_balances(
    ctx: &BalanceCallCtx,
    erc20: &Vec<Address>,
    responses: &Vec<CallResult>,
) -> (r: Result<BalanceMap, ServiceError>)
    ensures
        forall|i: int| #[trigger]
            is_first_failure(responses@, erc20@.len() as int, i) ==> r is Err && r->Err_0.text()
                == failure_text(erc20@, responses@, i),
        (forall|i: int| 0 <= i < erc20@.len() ==> !#[trigger] fails_at(responses@, i))
            && responses@.len() <= erc20@.len() ==> r is Err && r->Err_0.text()
            == missing_response_text(erc20@.len()),
        (forall|i: int| 0 <= i < erc20@.len() ==> !#[trigger] fails_at(responses@, i))
            && responses@.len() > erc20@.len() ==> r is Ok && r->Ok_0@ == read_balances(
            erc20@,
            ctx.network.spec_native_token_address(),
            responses@,
        ),
{
    let native = ctx.network.native_token_address();
    let mut balances = BalanceMap::new();
    let mut i: usize = 0;
    while i < erc20.len()
        invariant
            i <= erc20@.len(),
            forall|k: int| 0 <= k < i ==> !#[trigger] fails_at(responses@, k),
            balances@ == token_balances(erc20@, responses@, i as int),
        decreases erc20@.len() - i,
    {
        if i >= responses.len() {
            assert(is_first_failure(responses@, erc20@.len() as int, i as int));
            assert forall|j: int| #[trigger]
                is_first_failure(responses@, erc20@.len() as int, j) implies j == i by {
                if j < i {
                    assert(!fails_at(responses@, j));
                }
                if i < j {
                    assert(!fails_at(responses@, i as int));
                }
            }
            return Err(missing_response(i));
        }
        if !responses[i].success {
            assert(is_first_failure(responses@, erc20@.len() as int, i as int));
            assert forall|j: int| #[trigger]
                is_first_failure(responses@, erc20@.len() as int, j) implies j == i by {
                if j < i {
                    assert(!fails_at(responses@, j));
                }
                if i < j {
                    assert(!fails_at(responses@, i as int));
                }
            }
            return Err(subcall_failed(&erc20[i], i, responses[i].return_data.len()));
        }
        assert(!fails_at(responses@, i as int));
        match Balance::decode(responses[i].return_data.as_slice()) {
            Some(balance) => {
                balances.insert(erc20[i], balance);
            },
            None => {},
        }
        i += 1;
    }
    assert forall|j: int| !#[trigger] is_first_failure(responses@, erc20@.len() as int, j) by {
        if 0 <= j < erc20@.len() {
            assert(!fails_at(responses@, j));
        }
    }
    if erc20.len() >= responses.len() {
        return Err(missing_response(erc20.len()));
    }
    match Balance::decode(responses[erc20.len()].return_data.as_slice()) {
        Some(balance) => {
            balances.insert(native, balance);
        },
        None => {},
    }
    Ok(balances)
}

/// The first `upto` token responses yield balances for tokens among the first
/// `upto` only.
pub proof fn lemma_token_balances_keys(
    erc20: Seq<Address>,
    responses: Seq<CallResult>,
    upto: int,
    a: Address,
)
    requires
        0 <= upto <= erc20.len(),
        token_balances(erc20, responses, upto).contains_key(a),
    ensures
        exists|k: int| 0 <= k < upto && #[trigger] erc20[k] == a,
    decreases upto,
{
    if upto > 0 {
        if token_balances(erc20, responses, upto - 1).contains_key(a) {
            lemma_token_balances_keys(erc20, responses, upto - 1, a);
            let k = choose|k: int| 0 <= k < upto - 1 && #[trigger] erc20[k] == a;
            assert(erc20[k] == a);
        } else {
            assert(erc20[upto - 1] == a);
        }
    }
}

/// In a read of distinct tokens, a response whose data does not decode leaves
/// out its own token and no other: the token at `i` has a balance exactly when
/// the data of response `i` decodes, and then it is that balance.
pub proof fn lemma_undecodable_skips_its_token_only(
    erc20: Seq<Address>,
    responses: Seq<CallResult>,
    upto: int,
    i: int,
)
    requires
        strictly_sorted(erc20),
        0 <= i < upto <= erc20.len(),
    ensures
        match decoded_balance(responses[i].return_data@) {
            Some(v) => token_balances(erc20, responses, upto).contains_key(erc20[i])
                && token_balances(erc20, responses, upto)[erc20[i]] == v,
            None => !token_balances(erc20, responses, upto).contains_key(erc20[i]),
        },
    decreases upto,
{
    if i < upto - 1 {
        lemma_undecodable_skips_its_token_only(erc20, responses, upto - 1, i);
        assert(erc20[i].rank() < erc20[upto - 1].rank());
    } else {
        if token_balances(erc20, responses, upto - 1).contains_key(erc20[i]) {
            lemma_token_balances_keys(erc20, responses, upto - 1, erc20[i]);
            let k = choose|k: int| 0 <= k < upto - 1 && #[trigger] erc20[k] == erc20[i];
            assert(erc20[k].rank() < erc20[i].rank());
        }
    }
}

/// A read for no tokens yields at most the native balance.
pub proof fn lemma_no_tokens_only_native(native: Address, responses: Seq<CallResult>, a: Address)
    requires
        read_balances(Seq::<Address>::empty(), native, responses).contains_key(a),
    ensures
        a == native,
{
}

} // verus!
