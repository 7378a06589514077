//! The accounts of a call that takes tokens out of compression, picked
//! from the accounts of the current call.
use vstd::prelude::*;
use vstd::slice::slice_subrange;
use std::collections::HashSet;
use crate::account::Account;
use crate::error::CustomError;
use crate::token::PackedMerkleContext;

verus! {

broadcast use vstd::std_specs::hash::group_hash_axioms;

/// The accounts of a call that takes tokens out of compression.
#[derive(Clone, Debug, PartialEq, Eq)]
pub struct CompressedTokenDecompressCpiAccounts {
    pub fee_payer: Account,
    pub authority: Account,
    pub cpi_authority_pda: Account,
    pub light_system_program: Account,
    pub registered_program_pda: Account,
    pub noop_program: Account,
    pub account_compression_authority: Account,
    pub account_compression_program: Account,
    pub self_program: Account,
    pub token_pool_pda: Account,
    pub decompress_destination: Account,
    pub token_program: Account,
    pub system_program: Account,
    pub tree_and_queue_accounts: Vec<Account>,
}

/// How many accounts the call needs besides the tree and queue accounts.
pub const BASE_CPI_ACCOUNT_COUNT: usize = 13;

impl CompressedTokenDecompressCpiAccounts {
    /// The thirteen fixed accounts, in the order in which a call lists them.
    pub open spec fn head(self) -> Seq<Account> {
        seq![
            self.fee_payer,
            self.authority,
            self.cpi_authority_pda,
            self.light_system_program,
            self.registered_program_pda,
            self.noop_program,
            self.account_compression_authority,
            self.account_compression_program,
            self.self_program,
            self.token_pool_pda,
            self.decompress_destination,
            self.token_program,
            self.system_program,
        ]
    }

    /// All accounts of the call: the fixed ones, then the tree and queue
    /// accounts.
    pub open spec fn all(self) -> Seq<Account> {
        self.head() + self.tree_and_queue_accounts@
    }
}

/// The positions that the merkle contexts refer to, counted from `base`:
/// for each context its tree and then its queue.
pub open spec fn referenced_positions(base: int, contexts: Seq<PackedMerkleContext>) -> Seq<int>
    decreases contexts.len(),
{
    if contexts.len() == 0 {
        Seq::empty()
    } else {
        referenced_positions(base, contexts.drop_last()).push(
            base + contexts.last().merkle_tree_pubkey_index,
        ).push(base + contexts.last().queue_pubkey_index)
    }
}

/// The values of `s` in the order of their first appearance, each once.
pub open spec fn first_occurrences(s: Seq<int>) -> Seq<int>
    decreases s.len(),
{
    if s.len() == 0 {
        Seq::empty()
    } else {
        let rest = first_occurrences(s.drop_last());
        if rest.contains(s.last()) {
            rest
        } else {
            rest.push(s.last())
        }
    }
}

/// How many tree and queue slots the merkle contexts reach into: one more
/// than the largest index they name, and none if there is no context.
pub open spec fn tail_extent(contexts: Seq<PackedMerkleContext>) -> int
    decreases contexts.len(),
{
    if contexts.len() == 0 {
        0
    } else {
        let rest = tail_extent(contexts.drop_last());
        let tree = contexts.last().merkle_tree_pubkey_index + 1;
        let queue = contexts.last().queue_pubkey_index + 1;
        if rest >= tree && rest >= queue {
            rest
        } else if tree >= queue {
            tree
        } else {
            queue
        }
    }
}

/// The shortest account list that holds the fixed accounts from `start` on
/// and every tree and queue account that the contexts refer to.
pub open spec fn accounts_needed(start: int, contexts: Seq<PackedMerkleContext>) -> int {
    start + BASE_CPI_ACCOUNT_COUNT + tail_extent(contexts)
}

/// The positions of the tree and queue accounts of a call, in the order in
/// which the call lists them.
pub open spec fn tail_positions(start: int, contexts: Seq<PackedMerkleContext>) -> Seq<int> {
    first_occurrences(referenced_positions(start + BASE_CPI_ACCOUNT_COUNT, contexts))
}

/// What the assembled accounts are, given the account list they come from.
pub open spec fn assembled_from(
    cpi: CompressedTokenDecompressCpiAccounts,
    accounts: Seq<Account>,
    start: int,
    contexts: Seq<PackedMerkleContext>,
) -> bool {
    &&& cpi.head() == accounts.subrange(start, start + BASE_CPI_ACCOUNT_COUNT)
    &&& cpi.tree_and_queue_accounts@ == tail_positions(start, contexts).map_values(
        |p: int| accounts[p],
    )
}

/// The number reported as needed when the account list is too short.
pub open spec fn reported_need(start: int, contexts: Seq<PackedMerkleContext>) -> usize {
    if accounts_needed(start, contexts) > usize::MAX {
        usize::MAX
    } else {
        accounts_needed(start, contexts) as usize
    }
}

/// Every referenced position lies below the extent, counted from `base`.
proof fn lemma_positions_bounded(base: int, contexts: Seq<PackedMerkleContext>)
    ensures
        forall|i: int|
            0 <= i < referenced_positions(base, contexts).len() ==> base <= (
            #[trigger] referenced_positions(base, contexts)[i]) < base + tail_extent(contexts),
        referenced_positions(base, contexts).len() == 2 * contexts.len(),
    decreases contexts.len(),
{
    if contexts.len() > 0 {
        lemma_positions_bounded(base, contexts.drop_last());
    }
}

/// Taking first occurrences keeps exactly the values of the sequence, and
/// keeps each once.
pub proof fn lemma_first_occurrences(s: Seq<int>)
    ensures
        first_occurrences(s).no_duplicates(),
        forall|x: int| #[trigger] first_occurrences(s).contains(x) <==> s.contains(x),
        first_occurrences(s).len() <= s.len(),
    decreases s.len(),
{
    if s.len() > 0 {
        let front = s.drop_last();
        let rest = first_occurrences(front);
        let all = first_occurrences(s);
        lemma_first_occurrences(front);
        assert forall|x: int| #[trigger] all.contains(x) <==> s.contains(x) by {
            let kept = rest.contains(x);
            assert(kept <==> front.contains(x));
            if s.contains(x) {
                let i = choose|i: int| 0 <= i < s.len() && s[i] == x;
                if i < s.len() - 1 {
                    assert(front[i] == x);
                    assert(front.contains(x));
                    let j = choose|j: int| 0 <= j < rest.len() && rest[j] == x;
                    assert(all[j] == x);
                } else if kept {
                    let j = choose|j: int| 0 <= j < rest.len() && rest[j] == x;
                    assert(all[j] == x);
                } else {
                    assert(all[rest.len() as int] == x);
                }
            }
            if all.contains(x) {
                let j = choose|j: int| 0 <= j < all.len() && all[j] == x;
                if j < rest.len() {
                    assert(rest[j] == x);
                    assert(rest.contains(x));
                    let i = choose|i: int| 0 <= i < front.len() && front[i] == x;
                    assert(s[i] == x);
                } else {
                    assert(s[s.len() - 1] == x);
                }
            }
        }
    }
}

/// First occurrences stand in the order in which the values first appear:
/// of two of them, the later one first appears in the sequence behind an
/// appearance of the earlier one.
pub proof fn lemma_first_occurrences_order(s: Seq<int>, k: int, m: int)
    requires
        0 <= k < m < first_occurrences(s).len(),
    ensures
        exists|i: int, j: int|
            0 <= i < j < s.len() && #[trigger] s[i] == first_occurrences(s)[k] && #[trigger] s[j]
                == first_occurrences(s)[m] && forall|h: int|
                0 <= h < j ==> #[trigger] s[h] != first_occurrences(s)[m],
    decreases s.len(),
{
    let front = s.drop_last();
    let rest = first_occurrences(front);
    let all = first_occurrences(s);
    lemma_first_occurrences(front);
    if m < rest.len() {
        lemma_first_occurrences_order(front, k, m);
        let (i, j) = choose|i: int, j: int|
            0 <= i < j < front.len() && #[trigger] front[i] == rest[k] && #[trigger] front[j]
                == rest[m] && forall|h: int| 0 <= h < j ==> #[trigger] front[h] != rest[m];
        assert(s[i] == all[k] && s[j] == all[m]);
        assert forall|h: int| 0 <= h < j implies #[trigger] s[h] != all[m] by {
            assert(front[h] == s[h]);
        }
    } else {
        let j = s.len() - 1;
        assert(all[m] == s[j]);
        assert(rest.contains(rest[k]));
        assert(front.contains(all[k]));
        let i = choose|i: int| 0 <= i < front.len() && front[i] == all[k];
        assert(s[i] == all[k]);
        assert forall|h: int| 0 <= h < j implies #[trigger] s[h] != all[m] by {
            if s[h] == all[m] {
                assert(front[h] == s[j]);
                assert(front.contains(s[j]));
                assert(rest.contains(s[j]));
            }
        }
    }
}

/// A sequence without repetition whose values all lie in `lo..hi` has at
/// most `hi - lo` of them.
proof fn lemma_distinct_in_range(s: Seq<int>, lo: int, hi: int)
    requires
        s.no_duplicates(),
        lo <= hi,
        forall|i: int| 0 <= i < s.len() ==> lo <= #[trigger] s[i] < hi,
    ensures
        s.len() <= hi - lo,
{
    s.unique_seq_to_set();
    vstd::set_lib::lemma_int_range(lo, hi);
    assert(s.to_set().subset_of(vstd::set_lib::set_int_range(lo, hi))) by {
        assert forall|x: int| s.to_set().contains(x) implies vstd::set_lib::set_int_range(
            lo,
            hi,
        ).contains(x) by {
            let i = choose|i: int| 0 <= i < s.len() && s[i] == x;
            assert(lo <= s[i] < hi);
        }
    }
    vstd::set_lib::lemma_len_subset(s.to_set(), vstd::set_lib::set_int_range(lo, hi));
}

/// The tree and the queue of every context are among the referenced
/// positions.
proof fn lemma_positions_named(base: int, contexts: Seq<PackedMerkleContext>, i: int)
    requires
        0 <= i < contexts.len(),
    ensures
        referenced_positions(base, contexts).contains(
            base + contexts[i].merkle_tree_pubkey_index,
        ),
        referenced_positions(base, contexts).contains(base + contexts[i].queue_pubkey_index),
    decreases contexts.len(),
{
    let front = referenced_positions(base, contexts.drop_last());
    let tree = base + contexts.last().merkle_tree_pubkey_index;
    let queue = base + contexts.last().queue_pubkey_index;
    lemma_contains_push(front.push(tree), queue, base + contexts[i].merkle_tree_pubkey_index);
    lemma_contains_push(front.push(tree), queue, base + contexts[i].queue_pubkey_index);
    lemma_contains_push(front, tree, base + contexts[i].merkle_tree_pubkey_index);
    lemma_contains_push(front, tree, base + contexts[i].queue_pubkey_index);
    if i < contexts.len() - 1 {
        lemma_positions_named(base, contexts.drop_last(), i);
    }
}

/// The tree and queue accounts of a call are listed without repetition,
/// and they are the accounts that the contexts name: each one of them, and
/// no other.
pub proof fn lemma_tail_positions(start: int, contexts: Seq<PackedMerkleContext>)
    ensures
        tail_positions(start, contexts).no_duplicates(),
        forall|i: int|
            0 <= i < contexts.len() ==> tail_positions(start, contexts).contains(
                start + BASE_CPI_ACCOUNT_COUNT + (#[trigger] contexts[i]).merkle_tree_pubkey_index,
            ) && tail_positions(start, contexts).contains(
                start + BASE_CPI_ACCOUNT_COUNT + contexts[i].queue_pubkey_index,
            ),
        forall|p: int| #[trigger]
            tail_positions(start, contexts).contains(p) ==> exists|i: int|
                0 <= i < contexts.len() && (p == start + BASE_CPI_ACCOUNT_COUNT + (
                #[trigger] contexts[i]).merkle_tree_pubkey_index || p == start
                    + BASE_CPI_ACCOUNT_COUNT + contexts[i].queue_pubkey_index),
{
    let base = start + BASE_CPI_ACCOUNT_COUNT;
    let referenced = referenced_positions(base, contexts);
    lemma_first_occurrences(referenced);
    assert forall|i: int| 0 <= i < contexts.len() implies tail_positions(start, contexts).contains(
        base + (#[trigger] contexts[i]).merkle_tree_pubkey_index,
    ) && tail_positions(start, contexts).contains(base + contexts[i].queue_pubkey_index) by {
        lemma_positions_named(base, contexts, i);
    }
    assert forall|p: int| #[trigger] tail_positions(start, contexts).contains(p) implies exists|
        i: int,
    |
        0 <= i < contexts.len() && (p == base + (#[trigger] contexts[i]).merkle_tree_pubkey_index
            || p == base + contexts[i].queue_pubkey_index) by {
        assert(referenced.contains(p));
        lemma_positions_source(base, contexts, p);
    }
}

/// Every referenced position is the tree or the queue of some context.
proof fn lemma_positions_source(base: int, contexts: Seq<PackedMerkleContext>, p: int)
    requires
        referenced_positions(base, contexts).contains(p),
    ensures
        exists|i: int|
            0 <= i < contexts.len() && (p == base + (#[trigger] contexts[i]).merkle_tree_pubkey_index
                || p == base + contexts[i].queue_pubkey_index),
    decreases contexts.len(),
{
    if contexts.len() > 0 {
        let front = referenced_positions(base, contexts.drop_last());
        let tree = base + contexts.last().merkle_tree_pubkey_index;
        let queue = base + contexts.last().queue_pubkey_index;
        lemma_contains_push(front.push(tree), queue, p);
        lemma_contains_push(front, tree, p);
        if front.contains(p) {
            lemma_positions_source(base, contexts.drop_last(), p);
            let i = choose|i: int|
                0 <= i < contexts.drop_last().len() && (p == base + (
                #[trigger] contexts.drop_last()[i]).merkle_tree_pubkey_index || p == base
                    + contexts.drop_last()[i].queue_pubkey_index);
            assert(contexts[i] == contexts.drop_last()[i]);
        } else {
            let i = contexts.len() - 1;
            assert(p == base + contexts[i].merkle_tree_pubkey_index || p == base
                + contexts[i].queue_pubkey_index);
        }
    } else {
        assert(!Seq::<int>::empty().contains(p));
    }
}

/// A tree that two merkle contexts share is listed once among the tree and
/// queue accounts of the call: it stands at one place and at no other.
pub proof fn lemma_shared_tree_listed_once(
    start: int,
    contexts: Seq<PackedMerkleContext>,
    i: int,
    j: int,
)
    requires
        0 <= i < contexts.len(),
        0 <= j < contexts.len(),
        contexts[i].merkle_tree_pubkey_index == contexts[j].merkle_tree_pubkey_index,
    ensures
        ({
            let tail = tail_positions(start, contexts);
            let tree = start + BASE_CPI_ACCOUNT_COUNT + contexts[i].merkle_tree_pubkey_index;
            exists|k: int|
                0 <= k < tail.len() && #[trigger] tail[k] == tree && forall|m: int|
                    0 <= m < tail.len() && #[trigger] tail[m] == tree ==> m == k
        }),
{
    let tail = tail_positions(start, contexts);
    let tree = start + BASE_CPI_ACCOUNT_COUNT + contexts[i].merkle_tree_pubkey_index;
    lemma_tail_positions(start, contexts);
    assert(tail.contains(tree));
    let k = choose|k: int| 0 <= k < tail.len() && tail[k] == tree;
    assert(forall|m: int| 0 <= m < tail.len() && #[trigger] tail[m] == tree ==> m == k);
}

/// The extent covers the tree and the queue of every context.
pub proof fn lemma_extent_covers(contexts: Seq<PackedMerkleContext>, i: int)
    requires
        0 <= i < contexts.len(),
    ensures
        contexts[i].merkle_tree_pubkey_index < tail_extent(contexts),
        contexts[i].queue_pubkey_index < tail_extent(contexts),
        0 <= tail_extent(contexts) <= 256,
    decreases contexts.len(),
{
    lemma_extent_range(contexts.drop_last());
    if i < contexts.len() - 1 {
        lemma_extent_covers(contexts.drop_last(), i);
    }
}

/// The extent is at most 256, the number of indices a context can name.
proof fn lemma_extent_range(contexts: Seq<PackedMerkleContext>)
    ensures
        0 <= tail_extent(contexts) <= 256,
    decreases contexts.len(),
{
    if contexts.len() > 0 {
        lemma_extent_range(contexts.drop_last());
    }
}

/// One more than the largest tree or queue index that the contexts name.
fn extent_of(merkle_contexts: &[PackedMerkleContext]) -> (extent: usize)
    ensures
        extent == tail_extent(merkle_contexts@),
        extent <= 256,
{
    let mut extent: usize = 0;
    let mut i: usize = 0;
    while i < merkle_contexts.len()
        invariant
            i <= merkle_contexts.len(),
            extent == tail_extent(merkle_contexts@.subrange(0, i as int)),
            extent <= 256,
        decreases merkle_contexts.len() - i,
    {
        let tree = merkle_contexts[i].merkle_tree_pubkey_index as usize + 1;
        let queue = merkle_contexts[i].queue_pubkey_index as usize + 1;
        proof {
            assert(merkle_contexts@.subrange(0, i + 1).drop_last() =~= merkle_contexts@.subrange(
                0,
                i as int,
            ));
        }
        if tree > extent {
            extent = tree;
        }
        if queue > extent {
            extent = queue;
        }
        i += 1;
    }
    proof {
        assert(merkle_contexts@.subrange(0, merkle_contexts.len() as int) =~= merkle_contexts@);
    }
    extent
}

/// Picks the accounts of a call that takes tokens out of compression from
/// the accounts of the current call.
///
/// The thirteen fixed accounts are taken from `start_index` on. The tree
/// and queue accounts follow them: each context names its tree and its
/// queue by their index behind the fixed accounts, and each account so named
/// is listed once, where it is named first. What is returned with them is
/// the rest of `accounts`, behind as many slots as there are tree and queue
/// accounts.
///
/// Fails when `accounts` is too short for the fixed accounts or for an
/// account that a context names.
pub fn get_decompress_cpi_accounts<'a>(
    accounts: &'a [Account],
    start_index: usize,
    merkle_contexts: &[PackedMerkleContext],
) -> (r: Result<(CompressedTokenDecompressCpiAccounts, &'a [Account]), CustomError>)
    ensures
        match r {
            Ok((cpi, remaining)) => {
                &&& accounts_needed(start_index as int, merkle_contexts@) <= accounts.len()
                &&& assembled_from(cpi, accounts@, start_index as int, merkle_contexts@)
                &&& remaining@ == accounts@.subrange(
                    start_index + BASE_CPI_ACCOUNT_COUNT + cpi.tree_and_queue_accounts.len(),
                    accounts.len() as int,
                )
            },
            Err(e) => {
                &&& accounts_needed(start_index as int, merkle_contexts@) > accounts.len()
                &&& e == (CustomError::InsufficientAccounts {
                    needed: reported_need(start_index as int, merkle_contexts@),
                    available: accounts.len(),
                })
            },
        },
{
    let idx = start_index;
    let need = BASE_CPI_ACCOUNT_COUNT + extent_of(merkle_contexts);
    if accounts.len() < idx || accounts.len() - idx < need {
        let needed = if usize::MAX - idx < need {
            usize::MAX
        } else {
            idx + need
        };
        return Err(CustomError::InsufficientAccounts { needed, available: accounts.len() });
    }
    let base = idx + BASE_CPI_ACCOUNT_COUNT;
    let mut tree_and_queue_accounts: Vec<Account> = Vec::new();
    let mut seen_indices: HashSet<usize> = HashSet::new();
    let ghost mut positions: Seq<int> = Seq::empty();
    let mut k: usize = 0;
    while k < merkle_contexts.len()
        invariant
            k <= merkle_contexts.len(),
            base == start_index + BASE_CPI_ACCOUNT_COUNT,
            base + tail_extent(merkle_contexts@) <= accounts.len(),
            positions == first_occurrences(
                referenced_positions(base as int, merkle_contexts@.subrange(0, k as int)),
            ),
            tree_and_queue_accounts@ == positions.map_values(|p: int| accounts@[p]),
            forall|x: usize| seen_indices@.contains(x) <==> positions.contains(x as int),
        decreases merkle_contexts.len() - k,
    {
        let context = merkle_contexts[k];
        proof {
            lemma_extent_covers(merkle_contexts@, k as int);
            assert(merkle_contexts@.subrange(0, k + 1).drop_last() =~= merkle_contexts@.subrange(
                0,
                k as int,
            ));
        }
        let tree_idx = base + context.merkle_tree_pubkey_index as usize;
        let queue_idx = base + context.queue_pubkey_index as usize;
        let ghost earlier = referenced_positions(
            base as int,
            merkle_contexts@.subrange(0, k as int),
        );
        let ghost with_tree = earlier.push(tree_idx as int);
        let ghost with_queue = with_tree.push(queue_idx as int);
        proof {
            assert(with_tree.drop_last() =~= earlier);
            assert(with_queue.drop_last() =~= with_tree);
            assert(referenced_positions(base as int, merkle_contexts@.subrange(0, k + 1))
                == with_queue);
        }
        if !seen_indices.contains(&tree_idx) {
            tree_and_queue_accounts.push(accounts[tree_idx]);
            seen_indices.insert(tree_idx);
            proof {
                let before = positions;
                positions = positions.push(tree_idx as int);
                assert(tree_and_queue_accounts@ =~= positions.map_values(|p: int| accounts@[p]));
                assert forall|x: usize| seen_indices@.contains(x) <==> positions.contains(
                    x as int,
                ) by {
                    lemma_contains_push(before, tree_idx as int, x as int);
                }
            }
        }
        assert(positions == first_occurrences(with_tree));
        if !seen_indices.contains(&queue_idx) {
            tree_and_queue_accounts.push(accounts[queue_idx]);
            seen_indices.insert(queue_idx);
            proof {
                let before = positions;
                positions = positions.push(queue_idx as int);
                assert(tree_and_queue_accounts@ =~= positions.map_values(|p: int| accounts@[p]));
                assert forall|x: usize| seen_indices@.contains(x) <==> positions.contains(
                    x as int,
                ) by {
                    lemma_contains_push(before, queue_idx as int, x as int);
                }
            }
        }
        assert(positions == first_occurrences(with_queue));
        k += 1;
    }
    proof {
        assert(merkle_contexts@.subrange(0, merkle_contexts.len() as int) =~= merkle_contexts@);
        let referenced = referenced_positions(base as int, merkle_contexts@);
        lemma_first_occurrences(referenced);
        lemma_positions_bounded(base as int, merkle_contexts@);
        assert forall|i: int| 0 <= i < positions.len() implies base <= #[trigger] positions[i]
            < base + tail_extent(merkle_contexts@) by {
            assert(positions.contains(positions[i]));
            assert(referenced.contains(positions[i]));
        }
        lemma_extent_range(merkle_contexts@);
        lemma_distinct_in_range(
            positions,
            base as int,
            base + tail_extent(merkle_contexts@),
        );
    }
    let cpi_accounts = CompressedTokenDecompressCpiAccounts {
        fee_payer: accounts[idx],
        authority: accounts[idx + 1],
        cpi_authority_pda: accounts[idx + 2],
        light_system_program: accounts[idx + 3],
        registered_program_pda: accounts[idx + 4],
        noop_program: accounts[idx + 5],
        account_compression_authority: accounts[idx + 6],
        account_compression_program: accounts[idx + 7],
        self_program: accounts[idx + 8],
        token_pool_pda: accounts[idx + 9],
        decompress_destination: accounts[idx + 10],
        token_program: accounts[idx + 11],
        system_program: accounts[idx + 12],
        tree_and_queue_accounts,
    };
    proof {
        assert(cpi_accounts.head() =~= accounts@.subrange(
            start_index as int,
            start_index + BASE_CPI_ACCOUNT_COUNT,
        ));
    }
    let remaining = slice_subrange(
        accounts,
        base + cpi_accounts.tree_and_queue_accounts.len(),
        accounts.len(),
    );
    Ok((cpi_accounts, remaining))
}

/// What a sequence holds once one more value stands at its end.
proof fn lemma_contains_push(s: Seq<int>, v: int, x: int)
    ensures
        s.push(v).contains(x) <==> (s.contains(x) || x == v),
{
    if s.contains(x) {
        let i = choose|i: int| 0 <= i < s.len() && s[i] == x;
        assert(s.push(v)[i] == x);
    }
    if x == v {
        assert(s.push(v)[s.len() as int] == x);
    }
}

/// A set of accounts that can be listed in the order in which a call takes
/// them.
pub trait ToAccountInfos {
    /// The accounts, in that order.
    spec fn account_infos(&self) -> Seq<Account>;

    /// Lists the accounts.
    fn to_account_infos(&self) -> (r: Vec<Account>)
        ensures
            r@ == self.account_infos(),
    ;
}

impl ToAccountInfos for CompressedTokenDecompressCpiAccounts {
    open spec fn account_infos(&self) -> Seq<Account> {
        self.all()
    }

    fn to_account_infos(&self) -> (r: Vec<Account>) {
        let mut accounts = vec![
            self.fee_payer,
            self.authority,
            self.cpi_authority_pda,
            self.light_system_program,
            self.registered_program_pda,
            self.noop_program,
            self.account_compression_authority,
            self.account_compression_program,
            self.self_program,
            self.token_pool_pda,
            self.decompress_destination,
            self.token_program,
            self.system_program,
        ];
        assert(accounts@ =~= self.head());
        let mut i: usize = 0;
        while i < self.tree_and_queue_accounts.len()
            invariant
                i <= self.tree_and_queue_accounts.len(),
                accounts@ == self.head() + self.tree_and_queue_accounts@.subrange(0, i as int),
            decreases self.tree_and_queue_accounts.len() - i,
        {
            accounts.push(self.tree_and_queue_accounts[i]);
            assert(accounts@ =~= self.head() + self.tree_and_queue_accounts@.subrange(0, i + 1));
            i += 1;
        }
        assert(self.tree_and_queue_accounts@.subrange(
            0,
            self.tree_and_queue_accounts.len() as int,
        ) =~= self.tree_and_queue_accounts@);
        accounts
    }
}

/// A set of accounts that holds the compressed token program.
pub trait CompressedTokenProgramGetter {
    /// The account of the compressed token program.
    spec fn token_program_account(&self) -> Account;

    /// The account of the compressed token program.
    fn compressed_token_program(&self) -> (r: &Account)
        ensures
            *r == self.token_program_account(),
    ;
}

impl CompressedTokenProgramGetter for CompressedTokenDecompressCpiAccounts {
    open spec fn token_program_account(&self) -> Account {
        self.self_program
    }

    fn compressed_token_program(&self) -> (r: &Account) {
        &self.self_program
    }
}

} // verus!
