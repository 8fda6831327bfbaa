//! What holds of the replay, whatever the records are.

use crate::account::AccountStatus;
use crate::amount::Amount;
use crate::engine::account_index;
use crate::engine::account_slot;
use crate::engine::distinct_clients;
use crate::engine::referenced_amount;
use crate::engine::replay;
use crate::engine::settle;
use crate::engine::transaction_index;
use crate::engine::with_account;
use crate::engine::without;
use crate::engine::Books;
use crate::search::lemma_first_index;
use crate::search::lemma_first_index_is;
use crate::transaction::Transaction;
use crate::transaction::TransactionType;
use vstd::prelude::*;
use vstd::wrapping::i64_specs;

verus! {

/// The sum of the amounts that the records carry, added in order from `0.0`.
pub open spec fn deposited(trs: Seq<Transaction>) -> Amount
    decreases trs.len(),
{
    if trs.len() == 0 {
        Amount::zero()
    } else {
        match trs.last().amount {
            Some(m) => deposited(trs.drop_last()).plus(m),
            None => deposited(trs.drop_last()),
        }
    }
}

/// True where the record is a resolution or a chargeback.
pub open spec fn closes_dispute(tr: Transaction) -> bool {
    tr.tr_type == TransactionType::Resolve || tr.tr_type == TransactionType::Chargeback
}

/// The replay of a list with one more record is the replay of the list,
/// advanced by that record with the list as its history.
pub proof fn lemma_replay_push(trs: Seq<Transaction>, tr: Transaction)
    ensures
        replay(trs.push(tr)) == replay(trs).step(trs, tr),
{
    assert(trs.push(tr).drop_last() == trs);
}

/// Once the account of a client has been opened if need be, the client has an
/// account at the position that `account_slot` names, and a newly opened one
/// is empty and unlocked.
pub proof fn lemma_account_slot(accounts: Seq<AccountStatus>, id: u16)
    ensures
        0 <= account_slot(accounts, id) < with_account(accounts, id).len(),
        with_account(accounts, id)[account_slot(accounts, id)].client_id == id,
        account_index(with_account(accounts, id), id) == Some(account_slot(accounts, id)),
        account_index(accounts, id) is None ==> with_account(accounts, id) == accounts.push(
            AccountStatus::opened(id),
        ),
        account_index(accounts, id) is Some ==> with_account(accounts, id) == accounts,
{
    let hit = |a: AccountStatus| a.client_id == id;
    lemma_first_index(accounts, hit);
    if account_index(accounts, id) is None {
        let opened = accounts.push(AccountStatus::opened(id));
        assert forall|j: int| 0 <= j < accounts.len() implies !hit(#[trigger] opened[j]) by {
            assert(opened[j] == accounts[j]);
        }
        lemma_first_index_is(opened, hit, accounts.len() as int);
    }
}

/// A record changes at most the account of its client: every other account
/// stays as it is, no account is removed, and the client's account is the one
/// that `settle` returns.
pub proof fn lemma_advance_touches_one_account(
    books: Books,
    tr: Transaction,
    referenced: Option<Amount>,
)
    ensures
        ({
            let opened = with_account(books.accounts, tr.client_id);
            let k = account_slot(books.accounts, tr.client_id);
            let next = books.advance(tr, referenced);
            &&& next.accounts.len() == opened.len()
            &&& next.accounts.len() >= books.accounts.len()
            &&& next.accounts[k] == settle(opened[k], books.disputes, tr, referenced).0
            &&& next.accounts[k].client_id == tr.client_id
            &&& forall|j: int|
                0 <= j < opened.len() && j != k ==> #[trigger] next.accounts[j] == opened[j]
            &&& forall|j: int|
                0 <= j < books.accounts.len() && j != k ==> #[trigger] next.accounts[j]
                    == books.accounts[j]
            &&& account_index(next.accounts, tr.client_id) == Some(k)
        }),
{
    lemma_account_slot(books.accounts, tr.client_id);
    let hit = |a: AccountStatus| a.client_id == tr.client_id;
    let opened = with_account(books.accounts, tr.client_id);
    let k = account_slot(books.accounts, tr.client_id);
    let next = books.advance(tr, referenced);
    lemma_first_index(opened, hit);
    assert forall|j: int| 0 <= j < k implies !hit(#[trigger] next.accounts[j]) by {
        assert(next.accounts[j] == opened[j]);
    }
    lemma_first_index_is(next.accounts, hit, k);
}

/// Where every record is a deposit of one client, the replay leaves that one
/// account: what is available is the sum of the amounts deposited, nothing is
/// held, the account is not locked and nothing is under dispute.
pub proof fn lemma_deposits_accumulate(trs: Seq<Transaction>, client: u16)
    requires
        trs.len() > 0,
        forall|i: int|
            0 <= i < trs.len() ==> (#[trigger] trs[i]).tr_type == TransactionType::Deposit
                && trs[i].client_id == client,
    ensures
        replay(trs).accounts == seq![
            AccountStatus {
                client_id: client,
                available: deposited(trs),
                held: Amount::zero(),
                locked: false,
            },
        ],
        replay(trs).disputes == Seq::<u32>::empty(),
    decreases trs.len(),
{
    let before = replay(trs.drop_last());
    let tr = trs.last();
    let referenced = referenced_amount(trs.drop_last(), tr.tr_id);
    lemma_advance_touches_one_account(before, tr, referenced);
    lemma_account_slot(before.accounts, client);
    if trs.len() > 1 {
        assert forall|i: int| 0 <= i < trs.drop_last().len() implies (
        #[trigger] trs.drop_last()[i]).tr_type == TransactionType::Deposit
            && trs.drop_last()[i].client_id == client by {
            assert(trs.drop_last()[i] == trs[i]);
        }
        lemma_deposits_accumulate(trs.drop_last(), client);
        lemma_first_index_is(before.accounts, |a: AccountStatus| a.client_id == client, 0);
    } else {
        assert(trs.drop_last().len() == 0);
        lemma_first_index(before.accounts, |a: AccountStatus| a.client_id == client);
    }
    let after = replay(trs);
    let opened = with_account(before.accounts, client);
    assert(opened[0].available == deposited(trs.drop_last()));
    assert(after.accounts[0] == settle(opened[0], before.disputes, tr, referenced).0);
    assert(after.accounts =~= seq![
        AccountStatus {
            client_id: client,
            available: deposited(trs),
            held: Amount::zero(),
            locked: false,
        },
    ]);
}

/// A withdrawal that would leave less than `0.0` available changes no account
/// and no dispute: the state is as if only the client's account had been
/// looked up.
pub proof fn lemma_overdraft_is_dropped(books: Books, tr: Transaction, referenced: Option<Amount>)
    requires
        tr.tr_type == TransactionType::Withdraw,
        tr.amount is Some,
        !with_account(books.accounts, tr.client_id)[account_slot(
            books.accounts,
            tr.client_id,
        )].available.minus(tr.amount.unwrap()).non_negative(),
    ensures
        books.advance(tr, referenced) == (Books {
            accounts: with_account(books.accounts, tr.client_id),
            disputes: books.disputes,
        }),
{
    lemma_account_slot(books.accounts, tr.client_id);
    assert(books.advance(tr, referenced).accounts =~= with_account(books.accounts, tr.client_id));
}

/// Adding `m` to `h` after taking it from `a` keeps the sum of the two whole
/// parts, up to the carries and the borrow: the wrapped results agree exactly
/// where the small corrections do.
proof fn lemma_wrapped_sums(aw: i64, hw: i64, mw: i64, borrow: int, c1: int, c2: int, c0: int)
    requires
        0 <= borrow <= 1,
        0 <= c1 <= 100,
        0 <= c2 <= 100,
        0 <= c0 <= 100,
    ensures
        i64_specs::wrapping_add(
            i64_specs::wrapping_add(
                i64_specs::wrapping_sub(i64_specs::wrapping_sub(aw, mw), borrow as i64),
                i64_specs::wrapping_add(i64_specs::wrapping_add(hw, mw), c1 as i64),
            ),
            c2 as i64,
        ) == i64_specs::wrapping_add(i64_specs::wrapping_add(aw, hw), c0 as i64) <==> c1 + c2
            - borrow == c0,
{
}

/// Moving `m` from `a` to `h` keeps the sum of the two exactly where the
/// subtraction borrows nothing, or borrows across a difference of 5000 in the
/// fractional parts.
pub proof fn lemma_move_keeps_sum(a: Amount, h: Amount, m: Amount)
    ensures
        a.minus(m).plus(h.plus(m)) == a.plus(h) <==> (m.decimal <= a.decimal || m.decimal
            - a.decimal == 5000),
{
    let borrow: int = if m.decimal > a.decimal { 1 } else { 0 };
    let x: int = h.decimal + m.decimal;
    let c1: int = x / 10000;
    let r1: int = x % 10000;
    let d: int = if m.decimal > a.decimal {
        m.decimal - a.decimal
    } else {
        a.decimal - m.decimal
    };
    let c2: int = (d + r1) / 10000;
    let r2: int = (d + r1) % 10000;
    let c0: int = (a.decimal + h.decimal) / 10000;
    let r0: int = (a.decimal + h.decimal) % 10000;
    assert(i64_specs::wrapping_sub(i64_specs::wrapping_sub(a.whole, m.whole), 0) == i64_specs::wrapping_sub(
        a.whole,
        m.whole,
    ));
    lemma_wrapped_sums(a.whole, h.whole, m.whole, borrow, c1, c2, c0);
    assert(a.minus(m).plus(h.plus(m)).decimal == r2);
    assert(a.plus(h).decimal == r0);
    assert((r2 == r0 && c1 + c2 - borrow == c0) <==> (m.decimal <= a.decimal || m.decimal
        - a.decimal == 5000));
}

/// A dispute on an open account takes the disputed amount from what is
/// available and adds it to what is held, and puts the transaction under
/// dispute. The total stays the same exactly where the subtraction borrows
/// nothing, or borrows across a difference of 5000 in the fractional parts.
pub proof fn lemma_dispute_moves_amount(
    account: AccountStatus,
    disputes: Seq<u32>,
    tr: Transaction,
    m: Amount,
)
    requires
        !account.locked,
        tr.tr_type == TransactionType::Dispute,
    ensures
        settle(account, disputes, tr, Some(m)).0 == (AccountStatus {
            available: account.available.minus(m),
            held: account.held.plus(m),
            ..account
        }),
        settle(account, disputes, tr, Some(m)).1 == disputes.push(tr.tr_id),
        settle(account, disputes, tr, Some(m)).0.total() == account.total() <==> (m.decimal
            <= account.available.decimal || m.decimal - account.available.decimal == 5000),
{
    lemma_move_keeps_sum(account.available, account.held, m);
}

/// Taking `m` from `a` and adding it again borrows at most one and carries `c`:
/// the whole part is back exactly where the two cancel.
proof fn lemma_wrapped_return(aw: i64, mw: i64, borrow: int, c: int)
    requires
        0 <= borrow <= 1,
        0 <= c <= 100,
    ensures
        i64_specs::wrapping_add(
            i64_specs::wrapping_add(
                i64_specs::wrapping_sub(i64_specs::wrapping_sub(aw, mw), borrow as i64),
                mw,
            ),
            c as i64,
        ) == aw <==> c == borrow,
        i64_specs::wrapping_sub(
            i64_specs::wrapping_sub(
                i64_specs::wrapping_add(i64_specs::wrapping_add(aw, mw), c as i64),
                mw,
            ),
            borrow as i64,
        ) == aw <==> c == borrow,
{
}

/// Taking `m` from `a` and adding it again gives `a` back exactly where the
/// fractional part of `a` is below 10000 and the subtraction borrows nothing,
/// or borrows across a difference of 5000.
pub proof fn lemma_minus_then_plus(a: Amount, m: Amount)
    ensures
        a.minus(m).plus(m) == a <==> (a.decimal < 10000 && (m.decimal <= a.decimal || m.decimal
            - a.decimal == 5000)),
{
    let borrow: int = if m.decimal > a.decimal { 1 } else { 0 };
    let d: int = if m.decimal > a.decimal {
        m.decimal - a.decimal
    } else {
        a.decimal - m.decimal
    };
    let c: int = (d + m.decimal) / 10000;
    assert(i64_specs::wrapping_sub(i64_specs::wrapping_sub(a.whole, m.whole), 0)
        == i64_specs::wrapping_sub(a.whole, m.whole));
    lemma_wrapped_return(a.whole, m.whole, borrow, c);
    assert(a.minus(m).plus(m).decimal == (d + m.decimal) % 10000);
}

/// Adding `m` to `h` and taking it away again gives `h` back exactly where the
/// addition carries nothing, or where the fractional part of `h` is 5000 and
/// the addition carries once.
pub proof fn lemma_plus_then_minus(h: Amount, m: Amount)
    ensures
        h.plus(m).minus(m) == h <==> (h.decimal + m.decimal < 10000 || (h.decimal == 5000 && 5000
            <= m.decimal < 15000)),
{
    let x: int = h.decimal + m.decimal;
    let c: int = x / 10000;
    let r: int = x % 10000;
    let borrow: int = if m.decimal > r { 1 } else { 0 };
    let through = h.plus(m);
    assert(through.decimal == r);
    assert(i64_specs::wrapping_sub(i64_specs::wrapping_sub(through.whole, m.whole), 0)
        == i64_specs::wrapping_sub(through.whole, m.whole));
    lemma_wrapped_return(h.whole, m.whole, borrow, c);
}

/// A dispute list from which `id` was taken out does not hold `id`, and one
/// that never held it is left as it was.
pub proof fn lemma_without(disputes: Seq<u32>, id: u32)
    ensures
        !without(disputes, id).contains(id),
        !disputes.contains(id) ==> without(disputes, id) == disputes,
        without(disputes.push(id), id) == without(disputes, id),
    decreases disputes.len(),
{
    reveal(Seq::filter);
    let keep = |e: u32| e != id;
    assert(disputes.push(id).drop_last() == disputes);
    if disputes.len() > 0 {
        let rest = disputes.drop_last();
        lemma_without(rest, id);
        let kept = without(rest, id);
        if disputes.last() != id {
            assert(without(disputes, id) == kept.push(disputes.last()));
            assert forall|i: int| 0 <= i < kept.push(disputes.last()).len() implies kept.push(
                disputes.last(),
            )[i] != id by {
                if i < kept.len() {
                    assert(kept.contains(kept[i]));
                }
            }
        }
        if !disputes.contains(id) {
            assert forall|i: int| 0 <= i < rest.len() implies rest[i] != id by {
                assert(rest[i] == disputes[i]);
                assert(disputes.contains(disputes[i]));
            }
            assert(disputes.last() == disputes[disputes.len() - 1]);
            assert(disputes.contains(disputes.last()));
            assert(without(disputes, id) =~= disputes);
        }
    }
}

/// Taking `id` out of a dispute list removes `id` and nothing else: the list
/// then holds `e` exactly where it held `e` before and `e` is not `id`.
pub proof fn lemma_without_contains(disputes: Seq<u32>, id: u32, e: u32)
    ensures
        without(disputes, id).contains(e) <==> (disputes.contains(e) && e != id),
    decreases disputes.len(),
{
    reveal(Seq::filter);
    lemma_without(disputes, id);
    if disputes.len() > 0 {
        let rest = disputes.drop_last();
        let kept = without(rest, id);
        let after = without(disputes, id);
        lemma_without_contains(rest, id, e);
        if after.contains(e) {
            let i = choose|i: int| 0 <= i < after.len() && after[i] == e;
            if disputes.last() != id && i == kept.len() {
                assert(disputes[disputes.len() - 1] == e);
            } else {
                assert(kept[i] == e);
                let j = choose|j: int| 0 <= j < rest.len() && rest[j] == e;
                assert(disputes[j] == e);
            }
        }
        if disputes.contains(e) && e != id {
            let j = choose|j: int| 0 <= j < disputes.len() && disputes[j] == e;
            if j == disputes.len() - 1 {
                assert(after[kept.len() as int] == e);
            } else {
                assert(rest[j] == e);
                let i = choose|i: int| 0 <= i < kept.len() && kept[i] == e;
                assert(after[i] == e);
            }
        }
    }
}

/// A resolution of a disputed transaction on an open account moves the amount
/// back from what is held to what is available, and ends the dispute.
pub proof fn lemma_resolve_moves_amount_back(
    account: AccountStatus,
    disputes: Seq<u32>,
    tr: Transaction,
    m: Amount,
)
    requires
        !account.locked,
        tr.tr_type == TransactionType::Resolve,
        disputes.contains(tr.tr_id),
    ensures
        settle(account, disputes, tr, Some(m)).0 == (AccountStatus {
            available: account.available.plus(m),
            held: account.held.minus(m),
            ..account
        }),
        settle(account, disputes, tr, Some(m)).1 == without(disputes, tr.tr_id),
        !settle(account, disputes, tr, Some(m)).1.contains(tr.tr_id),
{
    lemma_without(disputes, tr.tr_id);
}

/// A dispute followed by the resolution of the same transaction ends the
/// dispute and leaves the account unlocked. What is available is as before
/// exactly where `lemma_minus_then_plus` says so, and what is held exactly
/// where `lemma_plus_then_minus` says so.
pub proof fn lemma_resolve_reverses_dispute(
    account: AccountStatus,
    disputes: Seq<u32>,
    dispute: Transaction,
    resolve: Transaction,
    m: Amount,
)
    requires
        !account.locked,
        dispute.tr_type == TransactionType::Dispute,
        resolve.tr_type == TransactionType::Resolve,
        resolve.tr_id == dispute.tr_id,
    ensures
        ({
            let disputed = settle(account, disputes, dispute, Some(m));
            let resolved = settle(disputed.0, disputed.1, resolve, Some(m));
            &&& resolved.0.client_id == account.client_id
            &&& !resolved.0.locked
            &&& resolved.1 == without(disputes, dispute.tr_id)
            &&& !disputes.contains(dispute.tr_id) ==> resolved.1 == disputes
            &&& resolved.0.available == account.available.minus(m).plus(m)
            &&& resolved.0.held == account.held.plus(m).minus(m)
            &&& resolved.0.available == account.available <==> (account.available.decimal < 10000
                && (m.decimal <= account.available.decimal || m.decimal
                - account.available.decimal == 5000))
            &&& resolved.0.held == account.held <==> (account.held.decimal + m.decimal < 10000 || (
            account.held.decimal == 5000 && 5000 <= m.decimal < 15000))
        }),
{
    let id = dispute.tr_id;
    let pushed = disputes.push(id);
    assert(pushed[disputes.len() as int] == id);
    assert(pushed.contains(id));
    lemma_without(disputes, id);
    lemma_minus_then_plus(account.available, m);
    lemma_plus_then_minus(account.held, m);
}

/// A chargeback of a disputed transaction on an open account takes the amount
/// out of what is held, locks the account and ends the dispute.
pub proof fn lemma_chargeback_locks(
    account: AccountStatus,
    disputes: Seq<u32>,
    tr: Transaction,
    m: Amount,
)
    requires
        !account.locked,
        tr.tr_type == TransactionType::Chargeback,
        disputes.contains(tr.tr_id),
    ensures
        settle(account, disputes, tr, Some(m)).0 == (AccountStatus {
            held: account.held.minus(m),
            locked: true,
            ..account
        }),
        settle(account, disputes, tr, Some(m)).1 == without(disputes, tr.tr_id),
        !settle(account, disputes, tr, Some(m)).1.contains(tr.tr_id),
{
    lemma_without(disputes, tr.tr_id);
}

/// A record for a client whose account is locked changes nothing: no account,
/// no dispute.
pub proof fn lemma_locked_account_ignores(
    books: Books,
    tr: Transaction,
    referenced: Option<Amount>,
)
    requires
        account_index(books.accounts, tr.client_id) is Some,
        books.accounts[account_slot(books.accounts, tr.client_id)].locked,
    ensures
        books.advance(tr, referenced) == books,
{
    lemma_account_slot(books.accounts, tr.client_id);
    assert(books.advance(tr, referenced).accounts =~= books.accounts);
}

/// An account that is locked after the first `n` records is the same after
/// the first `m`, for every `m` from `n` on: whatever records follow, for this
/// client or another, its balances are frozen.
pub proof fn lemma_locked_account_is_frozen(trs: Seq<Transaction>, n: int, m: int, k: int)
    requires
        0 <= n <= m <= trs.len(),
        0 <= k < replay(trs.take(n)).accounts.len(),
        replay(trs.take(n)).accounts[k].locked,
    ensures
        k < replay(trs.take(m)).accounts.len(),
        replay(trs.take(m)).accounts[k] == replay(trs.take(n)).accounts[k],
    decreases m - n,
{
    if n < m {
        lemma_locked_account_is_frozen(trs, n, m - 1, k);
        let history = trs.take(m - 1);
        let tr = trs[m - 1];
        assert(trs.take(m).drop_last() == history);
        assert(trs.take(m).last() == tr);
        let before = replay(history);
        let referenced = referenced_amount(history, tr.tr_id);
        assert(replay(trs.take(m)) == before.advance(tr, referenced));
        lemma_advance_touches_one_account(before, tr, referenced);
        lemma_account_slot(before.accounts, tr.client_id);
    }
}

/// A dispute, resolution or chargeback that names a transaction which no
/// earlier record has changes no account and no dispute: at most the account
/// of its client is opened, empty, at the end.
pub proof fn lemma_unknown_reference_is_ignored(
    books: Books,
    history: Seq<Transaction>,
    tr: Transaction,
)
    requires
        tr.tr_type == TransactionType::Dispute || closes_dispute(tr),
        transaction_index(history, tr.tr_id) is None,
    ensures
        books.step(history, tr) == (Books {
            accounts: with_account(books.accounts, tr.client_id),
            disputes: books.disputes,
        }),
        forall|j: int|
            0 <= j < books.accounts.len() ==> #[trigger] books.step(history, tr).accounts[j]
                == books.accounts[j],
        books.step(history, tr).accounts.len() == books.accounts.len() + (if account_index(
            books.accounts,
            tr.client_id,
        ) is Some {
            0int
        } else {
            1int
        }),
{
    lemma_account_slot(books.accounts, tr.client_id);
    assert(books.step(history, tr).accounts =~= with_account(books.accounts, tr.client_id));
}

/// A resolution or chargeback of a transaction that is not under dispute
/// changes no account and no dispute, whatever amount the transaction has.
pub proof fn lemma_undisputed_close_is_noop(
    books: Books,
    tr: Transaction,
    referenced: Option<Amount>,
)
    requires
        closes_dispute(tr),
        !books.disputes.contains(tr.tr_id),
    ensures
        books.advance(tr, referenced) == (Books {
            accounts: with_account(books.accounts, tr.client_id),
            disputes: books.disputes,
        }),
{
    lemma_account_slot(books.accounts, tr.client_id);
    assert(books.advance(tr, referenced).accounts =~= with_account(books.accounts, tr.client_id));
}

/// A resolution or chargeback given a second time, for the same client and
/// transaction, changes nothing: the first has ended the dispute, if there was
/// one.
pub proof fn lemma_second_close_is_noop(
    books: Books,
    tr: Transaction,
    again: Transaction,
    referenced: Option<Amount>,
)
    requires
        closes_dispute(tr),
        closes_dispute(again),
        again.tr_id == tr.tr_id,
        again.client_id == tr.client_id,
    ensures
        books.advance(tr, referenced).advance(again, referenced) == books.advance(tr, referenced),
{
    let next = books.advance(tr, referenced);
    lemma_advance_touches_one_account(books, tr, referenced);
    lemma_account_slot(books.accounts, tr.client_id);
    lemma_account_slot(next.accounts, tr.client_id);
    lemma_without(books.disputes, tr.tr_id);
    assert(next.advance(again, referenced).accounts =~= next.accounts);
}

/// A record leaves the accounts with one account per client, if they were so
/// before.
pub proof fn lemma_advance_keeps_clients_distinct(
    books: Books,
    tr: Transaction,
    referenced: Option<Amount>,
)
    requires
        distinct_clients(books.accounts),
    ensures
        distinct_clients(books.advance(tr, referenced).accounts),
{
    let opened = with_account(books.accounts, tr.client_id);
    let next = books.advance(tr, referenced);
    lemma_advance_touches_one_account(books, tr, referenced);
    lemma_account_slot(books.accounts, tr.client_id);
    lemma_first_index(books.accounts, |a: AccountStatus| a.client_id == tr.client_id);
    assert forall|j: int| 0 <= j < next.accounts.len() implies (#[trigger] next.accounts[j]).client_id
        == opened[j].client_id by {}
    assert(distinct_clients(opened));
}

/// The replay keeps one account per client.
pub proof fn lemma_replay_clients_distinct(trs: Seq<Transaction>)
    ensures
        distinct_clients(replay(trs).accounts),
    decreases trs.len(),
{
    if trs.len() > 0 {
        lemma_replay_clients_distinct(trs.drop_last());
        lemma_advance_keeps_clients_distinct(
            replay(trs.drop_last()),
            trs.last(),
            referenced_amount(trs.drop_last(), trs.last().tr_id),
        );
    }
}

/// A record that an earlier record's transaction id is found in stays the
/// first with that id when more records follow.
pub proof fn lemma_reference_is_stable(history: Seq<Transaction>, tr: Transaction, id: u32)
    ensures
        transaction_index(history, id) is Some ==> transaction_index(history.push(tr), id)
            == transaction_index(history, id) && referenced_amount(history.push(tr), id)
            == referenced_amount(history, id),
{
    assert(history.push(tr).drop_last() == history);
    lemma_first_index(history, |t: Transaction| t.tr_id == id);
}

/// Every transaction under dispute is one that a record of the input has.
pub proof fn lemma_disputed_are_known(trs: Seq<Transaction>, id: u32)
    requires
        replay(trs).disputes.contains(id),
    ensures
        transaction_index(trs, id) is Some,
    decreases trs.len(),
{
    if trs.len() > 0 {
        let history = trs.drop_last();
        let tr = trs.last();
        let before = replay(history);
        assert(history.push(tr) == trs);
        lemma_reference_is_stable(history, tr, id);
        lemma_account_slot(before.accounts, tr.client_id);
        let k = account_slot(before.accounts, tr.client_id);
        let account = with_account(before.accounts, tr.client_id)[k];
        let after = settle(account, before.disputes, tr, referenced_amount(history, tr.tr_id));
        assert(replay(trs).disputes == after.1);
        if before.disputes.contains(id) {
            lemma_disputed_are_known(history, id);
        } else if after.1 == before.disputes.push(tr.tr_id) {
            assert(id == tr.tr_id) by {
                let i = choose|i: int| 0 <= i < after.1.len() && after.1[i] == id;
                if i < before.disputes.len() {
                    assert(before.disputes[i] == id);
                }
            }
            assert(referenced_amount(history, id) is Some);
        } else if after.1 == without(before.disputes, tr.tr_id) {
            lemma_without_contains(before.disputes, tr.tr_id, id);
        }
    }
}

/// A resolution or chargeback that comes a second time, right after the
/// first, for the same client and transaction, changes nothing in the replay.
pub proof fn lemma_repeated_close_is_noop(
    trs: Seq<Transaction>,
    tr: Transaction,
    again: Transaction,
)
    requires
        closes_dispute(tr),
        closes_dispute(again),
        again.tr_id == tr.tr_id,
        again.client_id == tr.client_id,
    ensures
        replay(trs.push(tr).push(again)) == replay(trs.push(tr)),
{
    let once = trs.push(tr);
    let before = replay(trs);
    let first = referenced_amount(trs, tr.tr_id);
    let second = referenced_amount(once, tr.tr_id);
    lemma_replay_push(trs, tr);
    lemma_replay_push(once, again);
    lemma_reference_is_stable(trs, tr, tr.tr_id);
    if transaction_index(trs, tr.tr_id) is Some {
        lemma_second_close_is_noop(before, tr, again, first);
    } else {
        if before.disputes.contains(tr.tr_id) {
            lemma_disputed_are_known(trs, tr.tr_id);
        }
        lemma_undisputed_close_is_noop(before, tr, first);
        lemma_undisputed_close_is_noop(replay(once), again, second);
        lemma_account_slot(before.accounts, tr.client_id);
    }
}

} // verus!
