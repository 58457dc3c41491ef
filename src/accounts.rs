use crate::key::{key_eq, Pubkey};
use vstd::prelude::*;

verus! {

/// An account entry of a built instruction.
#[derive(Clone, Copy, Debug, PartialEq, Eq)]
pub struct AccountMeta {
    pub pubkey: Pubkey,
    pub is_signer: bool,
    pub is_writable: bool,
}

/// A request for an account: its address and whether it must be writable.
pub type AccountRequest = (Pubkey, bool);

/// The addresses of `metas`, in order.
pub open spec fn meta_keys(metas: Seq<AccountMeta>) -> Seq<Pubkey> {
    metas.map_values(|m: AccountMeta| m.pubkey)
}

/// `m`, made writable as well if `writable` holds.
pub open spec fn upgraded(m: AccountMeta, writable: bool) -> AccountMeta {
    AccountMeta { pubkey: m.pubkey, is_signer: m.is_signer, is_writable: m.is_writable || writable }
}

/// `metas` with one more request merged in: an address already listed keeps
/// its place and becomes writable if the request is; a new address is
/// appended as a non-signer.
pub open spec fn merge_one(metas: Seq<AccountMeta>, req: AccountRequest) -> Seq<AccountMeta> {
    if meta_keys(metas).contains(req.0) {
        metas.map_values(|m: AccountMeta| if m.pubkey == req.0 { upgraded(m, req.1) } else { m })
    } else {
        metas.push(AccountMeta { pubkey: req.0, is_signer: false, is_writable: req.1 })
    }
}

/// The account table that the requests `reqs`, merged one after the other,
/// give.
pub open spec fn merged(reqs: Seq<AccountRequest>) -> Seq<AccountMeta>
    decreases reqs.len(),
{
    if reqs.len() == 0 {
        Seq::empty()
    } else {
        merge_one(merged(reqs.drop_last()), reqs.last())
    }
}

/// Whether some request of `reqs` names `p`.
pub open spec fn requested(reqs: Seq<AccountRequest>, p: Pubkey) -> bool {
    exists|k: int| 0 <= k < reqs.len() && (#[trigger] reqs[k]).0 == p
}

/// Whether some request of `reqs` asks for `p` as writable.
pub open spec fn requested_writable(reqs: Seq<AccountRequest>, p: Pubkey) -> bool {
    exists|k: int| 0 <= k < reqs.len() && (#[trigger] reqs[k]).0 == p && reqs[k].1
}

/// Merges the request for `pubkey` into `metas`.
pub fn merge_account(metas: &mut Vec<AccountMeta>, pubkey: Pubkey, writable: bool)
    ensures
        final(metas)@ == merge_one(old(metas)@, (pubkey, writable)),
{
    let ghost start = metas@;
    let mut found = false;
    let mut i: usize = 0;
    while i < metas.len()
        invariant
            0 <= i <= metas@.len(),
            metas@.len() == start.len(),
            forall|j: int|
                0 <= j < i ==> #[trigger] metas@[j] == (if start[j].pubkey == pubkey {
                    upgraded(start[j], writable)
                } else {
                    start[j]
                }),
            forall|j: int| i <= j < metas@.len() ==> #[trigger] metas@[j] == start[j],
            found == exists|j: int| 0 <= j < i && (#[trigger] start[j]).pubkey == pubkey,
        decreases metas@.len() - i,
    {
        let m = metas[i];
        if key_eq(&m.pubkey, &pubkey) {
            if writable {
                metas.set(i, AccountMeta { pubkey: m.pubkey, is_signer: m.is_signer, is_writable: true });
            }
            found = true;
        }
        i = i + 1;
    }
    proof {
        if found {
            let j = choose|j: int| 0 <= j < start.len() && (#[trigger] start[j]).pubkey == pubkey;
            assert(meta_keys(start)[j] == pubkey);
        } else {
            assert forall|j: int| 0 <= j < start.len() implies meta_keys(start)[j] != pubkey by {
                assert(start[j].pubkey != pubkey);
            };
        }
    }
    if !found {
        metas.push(AccountMeta { pubkey, is_signer: false, is_writable: writable });
    }
    proof {
        assert(metas@ =~= merge_one(start, (pubkey, writable)));
    }
}

/// The merged table lists each requested address exactly once, as a
/// non-signer, writable exactly when some request asks for it as writable,
/// and lists no other address.
pub proof fn lemma_merged_dedup(reqs: Seq<AccountRequest>)
    ensures
        forall|i: int, j: int|
            0 <= i < j < merged(reqs).len() ==> (#[trigger] merged(reqs)[i]).pubkey
                != (#[trigger] merged(reqs)[j]).pubkey,
        forall|p: Pubkey| requested(reqs, p) <==> #[trigger] meta_keys(merged(reqs)).contains(p),
        forall|i: int|
            0 <= i < merged(reqs).len() ==> (#[trigger] merged(reqs)[i]).is_writable
                == requested_writable(reqs, merged(reqs)[i].pubkey) && !merged(reqs)[i].is_signer,
    decreases reqs.len(),
{
    if reqs.len() > 0 {
        let prev = reqs.drop_last();
        let r = reqs.last();
        lemma_merged_dedup(prev);
        let pm = merged(prev);
        let m = merged(reqs);
        assert(m == merge_one(pm, r));
        assert forall|p: Pubkey| requested(reqs, p) <==> requested(prev, p) || p == r.0 by {
            if requested(reqs, p) {
                let k = choose|k: int| 0 <= k < reqs.len() && (#[trigger] reqs[k]).0 == p;
                if k < reqs.len() - 1 {
                    assert(prev[k] == reqs[k]);
                }
            }
            if requested(prev, p) {
                let k = choose|k: int| 0 <= k < prev.len() && (#[trigger] prev[k]).0 == p;
                assert(reqs[k] == prev[k]);
            }
            if p == r.0 {
                assert(reqs[reqs.len() - 1].0 == p);
            }
        };
        assert forall|p: Pubkey|
            requested_writable(reqs, p) <==> requested_writable(prev, p) || (p == r.0 && r.1) by {
            if requested_writable(reqs, p) {
                let k = choose|k: int|
                    0 <= k < reqs.len() && (#[trigger] reqs[k]).0 == p && reqs[k].1;
                if k < reqs.len() - 1 {
                    assert(prev[k] == reqs[k]);
                }
            }
            if requested_writable(prev, p) {
                let k = choose|k: int| 0 <= k < prev.len() && (#[trigger] prev[k]).0 == p && prev[k].1;
                assert(reqs[k] == prev[k]);
            }
            if p == r.0 && r.1 {
                assert(reqs[reqs.len() - 1].0 == p);
            }
        };
        if meta_keys(pm).contains(r.0) {
            assert forall|p: Pubkey|
                #[trigger] meta_keys(m).contains(p) <==> meta_keys(pm).contains(p) by {
                if meta_keys(m).contains(p) {
                    let i = choose|i: int| 0 <= i < meta_keys(m).len() && meta_keys(m)[i] == p;
                    assert(meta_keys(pm)[i] == p);
                }
                if meta_keys(pm).contains(p) {
                    let i = choose|i: int| 0 <= i < meta_keys(pm).len() && meta_keys(pm)[i] == p;
                    assert(meta_keys(m)[i] == p);
                }
            };
        } else {
            assert forall|p: Pubkey|
                #[trigger] meta_keys(m).contains(p) <==> meta_keys(pm).contains(p) || p == r.0 by {
                if meta_keys(m).contains(p) {
                    let i = choose|i: int| 0 <= i < meta_keys(m).len() && meta_keys(m)[i] == p;
                    if i < pm.len() {
                        assert(meta_keys(pm)[i] == p);
                    }
                }
                if meta_keys(pm).contains(p) {
                    let i = choose|i: int| 0 <= i < meta_keys(pm).len() && meta_keys(pm)[i] == p;
                    assert(meta_keys(m)[i] == p);
                }
                if p == r.0 {
                    assert(meta_keys(m)[m.len() - 1] == p);
                }
            };
            assert forall|i: int| 0 <= i < pm.len() implies (#[trigger] pm[i]).pubkey != r.0 by {
                assert(meta_keys(pm)[i] == pm[i].pubkey);
            };
        }
    }
}

} // verus!
