//! The entry that reimburses earlier payments made on a reimbursable
//! entity's behalf. Which payments a reimbursement settles, and what stays
//! owed, comes from the queue of unreimbursed payments kept by the caller;
//! given that outcome, the entry and its balance assertion are planned here.
use vstd::prelude::*;

use crate::account::Account;
use crate::date::Date;

verus! {

/// Which amount a posting of the reimbursement carries.
#[derive(Debug, Clone, Copy, PartialEq, Eq, Structural)]
pub enum ReimbursedPart {
    /// The amount paid out of cash, credited.
    Paid,
    /// The size of the credit posting of that index among those reimbursed,
    /// debited.
    Credit(usize),
}

/// A posting of the reimbursement, linked to the account it stands for
/// when there is one.
#[derive(Debug, Clone)]
pub struct ReimbursementPosting {
    pub account: Account,
    pub source_account: Option<Account>,
    pub part: ReimbursedPart,
}

/// Why a reimbursement is refused.
#[derive(Debug, Clone, Copy, PartialEq, Eq, Structural)]
pub enum ReimbursementRefusal {
    /// No payment was ever queued for the reimbursable account.
    NothingToReimburse,
    /// A full reimbursement would leave part of a payment unreimbursed.
    LeavesRemainder,
}

/// The reimbursement entry, dated `date`, and the assertion on that date
/// that the reimbursable account holds what stays owed (`remainder_expected`)
/// or nothing.
#[derive(Debug)]
pub struct ReimbursementPlan {
    pub date: Date,
    pub postings: Vec<ReimbursementPosting>,
    pub asserted_account: Account,
    pub remainder_expected: bool,
}

/// The account that a reimbursed credit posting stands for: its source,
/// else its own account.
pub open spec fn stands_for(credit: (Account, Option<Account>)) -> Account {
    match credit.1 {
        Some(s) => s,
        None => credit.0,
    }
}

/// The cash leaves `cash`; each reimbursed credit posting, given as its
/// account and source, is taken off `reimbursable`, linked to what it
/// stands for.
pub open spec fn reimbursement_postings(
    cash: Account,
    reimbursable: Account,
    credits: Seq<(Account, Option<Account>)>,
) -> Seq<ReimbursementPosting> {
    seq![ReimbursementPosting { account: cash, source_account: None, part: ReimbursedPart::Paid }]
        + Seq::new(
        credits.len(),
        |k: int|
            ReimbursementPosting {
                account: reimbursable,
                source_account: Some(stands_for(credits[k])),
                part: ReimbursedPart::Credit(k as usize),
            },
    )
}

/// The reimbursement paid on `payment` out of `cash` to the reimbursable
/// account `reimbursable`. `queued` says whether any payment was ever queued
/// for it; `credits` are the credit postings of the payments it settles, in
/// order; `partial` says whether part may stay owed, and
/// `remainder_material` whether what stays owed is at least the smallest
/// amount of the commodity.
pub fn plan_reimbursement(
    payment: Date,
    cash: Account,
    reimbursable: Account,
    queued: bool,
    credits: &[(Account, Option<Account>)],
    partial: bool,
    remainder_material: bool,
) -> (r: Result<ReimbursementPlan, ReimbursementRefusal>)
    ensures
        !queued ==> r == Err::<ReimbursementPlan, _>(ReimbursementRefusal::NothingToReimburse),
        queued && !partial && remainder_material ==> r == Err::<ReimbursementPlan, _>(
            ReimbursementRefusal::LeavesRemainder,
        ),
        queued && (partial || !remainder_material) ==> (r matches Ok(p) && p.date == payment
            && p.postings@ == reimbursement_postings(cash, reimbursable, credits@)
            && p.asserted_account == reimbursable && p.remainder_expected == partial),
{
    if !queued {
        return Err(ReimbursementRefusal::NothingToReimburse);
    }
    if !partial && remainder_material {
        return Err(ReimbursementRefusal::LeavesRemainder);
    }
    let mut postings: Vec<ReimbursementPosting> = Vec::new();
    postings.push(ReimbursementPosting { account: cash, source_account: None, part: ReimbursedPart::Paid });
    let ghost first = postings@;
    let mut k: usize = 0;
    while k < credits.len()
        invariant
            k <= credits@.len(),
            postings@.len() == k + 1,
            postings@[0] == first[0],
            forall|j: int|
                0 <= j < k ==> #[trigger] postings@[j + 1] == (ReimbursementPosting {
                    account: reimbursable,
                    source_account: Some(stands_for(credits@[j])),
                    part: ReimbursedPart::Credit(j as usize),
                }),
        decreases credits@.len() - k,
    {
        let source = match &credits[k].1 {
            Some(s) => s.duplicate(),
            None => credits[k].0.duplicate(),
        };
        postings.push(
            ReimbursementPosting {
                account: reimbursable.duplicate(),
                source_account: Some(source),
                part: ReimbursedPart::Credit(k),
            },
        );
        k = k + 1;
    }
    let ghost want = reimbursement_postings(cash, reimbursable, credits@);
    assert forall|j: int| 0 <= j < postings@.len() implies postings@[j] == want[j] by {
        if j > 0 {
            let i = j - 1;
            assert(postings@[i + 1] == want[i + 1]);
        }
    }
    assert(postings@ =~= want);
    Ok(ReimbursementPlan { date: payment, postings, asserted_account: reimbursable, remainder_expected: partial })
}

} // verus!
