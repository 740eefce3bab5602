//! A model of the external token-accounting service.
//!
//! The handler never touches balances itself: it submits a transfer request
//! and the service moves the units. This module models the service's
//! observable contract — its bookkeeping of token classes and holdings, and
//! its decision on a submitted request, including the independent
//! re-derivation of the authority address from the presented seed material —
//! so that what the handler guarantees end to end can be stated and proved.

use vstd::prelude::*;

use crate::address::Address;
use crate::error::{RejectReason, TransferError};
use crate::handler::RequestView;
use crate::handler::TransferRequest;
use crate::pda::{pda_checked, pda_create};
use crate::token_data::{Holding, HoldingView};

verus! {

/// The fields of one ledger holding entry, as the contracts speak of them.
pub ghost struct HoldingEntryView {
    pub key: Seq<u8>,
    pub holding: HoldingView,
}

/// The fields of one ledger token-class entry.
pub ghost struct ClassEntryView {
    pub key: Seq<u8>,
    pub decimals: u8,
}

/// The service's bookkeeping, as the contracts speak of it.
pub ghost struct LedgerView {
    pub classes: Seq<ClassEntryView>,
    pub holdings: Seq<HoldingEntryView>,
}

/// One holding administered by the service, at its address.
pub struct HoldingEntry {
    pub key: Address,
    pub holding: Holding,
}

impl HoldingEntry {
    pub open spec fn view(&self) -> HoldingEntryView {
        HoldingEntryView { key: self.key@, holding: self.holding@ }
    }
}

/// One token class administered by the service, at its address, with its
/// precision.
pub struct ClassEntry {
    pub key: Address,
    pub decimals: u8,
}

impl ClassEntry {
    pub open spec fn view(&self) -> ClassEntryView {
        ClassEntryView { key: self.key@, decimals: self.decimals }
    }
}

/// The token-accounting service's books: every token class and every holding
/// it administers.
pub struct Ledger {
    pub classes: Vec<ClassEntry>,
    pub holdings: Vec<HoldingEntry>,
}

impl Ledger {
    pub open spec fn view(&self) -> LedgerView {
        LedgerView {
            classes: Seq::new(self.classes@.len(), |i: int| self.classes@[i]@),
            holdings: Seq::new(self.holdings@.len(), |i: int| self.holdings@[i]@),
        }
    }
}

/// The position of the first holding entry recorded at `key`, or -1 when the
/// service administers no holding there.
pub open spec fn holding_index(entries: Seq<HoldingEntryView>, key: Seq<u8>) -> int
    decreases entries.len(),
{
    if entries.len() == 0 {
        -1
    } else if entries[0].key == key {
        0
    } else {
        let rest = holding_index(entries.drop_first(), key);
        if rest == -1 {
            -1
        } else {
            rest + 1
        }
    }
}

/// The position of the first token-class entry recorded at `key`, or -1.
pub open spec fn class_index(entries: Seq<ClassEntryView>, key: Seq<u8>) -> int
    decreases entries.len(),
{
    if entries.len() == 0 {
        -1
    } else if entries[0].key == key {
        0
    } else {
        let rest = class_index(entries.drop_first(), key);
        if rest == -1 {
            -1
        } else {
            rest + 1
        }
    }
}

/// The holding recorded at `key`, if any.
pub open spec fn lookup_holding(l: LedgerView, key: Seq<u8>) -> Option<HoldingView> {
    let i = holding_index(l.holdings, key);
    if i == -1 {
        None
    } else {
        Some(l.holdings[i].holding)
    }
}

/// The precision of the token class recorded at `key`, if any.
pub open spec fn lookup_class(l: LedgerView, key: Seq<u8>) -> Option<u8> {
    let i = class_index(l.classes, key);
    if i == -1 {
        None
    } else {
        Some(l.classes[i].decimals)
    }
}

/// What a holding index points at: a match, before which nothing matches; or
/// -1, and nothing matches at all.
pub proof fn lemma_holding_index(entries: Seq<HoldingEntryView>, key: Seq<u8>)
    ensures
        holding_index(entries, key) == -1 ==> forall|j: int|
            0 <= j < entries.len() ==> entries[j].key != key,
        holding_index(entries, key) != -1 ==> {
            let i = holding_index(entries, key);
            &&& 0 <= i < entries.len()
            &&& entries[i].key == key
            &&& forall|j: int| 0 <= j < i ==> entries[j].key != key
        },
    decreases entries.len(),
{
    if entries.len() > 0 && entries[0].key != key {
        lemma_holding_index(entries.drop_first(), key);
        let rest = holding_index(entries.drop_first(), key);
        if rest == -1 {
            assert forall|j: int| 0 <= j < entries.len() implies entries[j].key != key by {
                if j > 0 {
                    assert(entries.drop_first()[j - 1] == entries[j]);
                }
            }
        } else {
            assert(entries[rest + 1] == entries.drop_first()[rest]);
            assert forall|j: int| 0 <= j < rest + 1 implies entries[j].key != key by {
                if j > 0 {
                    assert(entries.drop_first()[j - 1] == entries[j]);
                }
            }
        }
    }
}

/// What a class index points at, as for holdings.
pub proof fn lemma_class_index(entries: Seq<ClassEntryView>, key: Seq<u8>)
    ensures
        class_index(entries, key) == -1 ==> forall|j: int|
            0 <= j < entries.len() ==> entries[j].key != key,
        class_index(entries, key) != -1 ==> {
            let i = class_index(entries, key);
            &&& 0 <= i < entries.len()
            &&& entries[i].key == key
            &&& forall|j: int| 0 <= j < i ==> entries[j].key != key
        },
    decreases entries.len(),
{
    if entries.len() > 0 && entries[0].key != key {
        lemma_class_index(entries.drop_first(), key);
        let rest = class_index(entries.drop_first(), key);
        if rest == -1 {
            assert forall|j: int| 0 <= j < entries.len() implies entries[j].key != key by {
                if j > 0 {
                    assert(entries.drop_first()[j - 1] == entries[j]);
                }
            }
        } else {
            assert(entries[rest + 1] == entries.drop_first()[rest]);
            assert forall|j: int| 0 <= j < rest + 1 implies entries[j].key != key by {
                if j > 0 {
                    assert(entries.drop_first()[j - 1] == entries[j]);
                }
            }
        }
    }
}

/// Two entry sequences with the same keys position-for-position index alike.
pub proof fn lemma_holding_index_same_keys(
    a: Seq<HoldingEntryView>,
    b: Seq<HoldingEntryView>,
    key: Seq<u8>,
)
    requires
        a.len() == b.len(),
        forall|j: int| 0 <= j < a.len() ==> a[j].key == b[j].key,
    ensures
        holding_index(a, key) == holding_index(b, key),
    decreases a.len(),
{
    if a.len() > 0 {
        assert(a[0].key == b[0].key);
        lemma_holding_index_same_keys(a.drop_first(), b.drop_first(), key);
        assert forall|j: int| 0 <= j < a.len() - 1 implies a.drop_first()[j].key
            == b.drop_first()[j].key by {
            assert(a.drop_first()[j] == a[j + 1]);
            assert(b.drop_first()[j] == b[j + 1]);
        }
    }
}

/// Whether the delegation proof carried by a request re-derives exactly the
/// authority the request names: this is the check the service performs in
/// lieu of verifying a signature.
pub open spec fn delegation_ok(identity: Seq<u8>, req: RequestView) -> bool {
    pda_checked(req.seed, req.bump, identity) == Some(req.authority)
}

/// The service's decision on a submitted request, in the order it checks:
/// the delegation proof; that source, destination and token class are on its
/// books; that both holdings record the named class; that the request's
/// precision is the class's own; that neither holding is frozen; that the
/// source is under custody of the named authority; that the balance covers
/// the amount; and that the destination's balance cannot overflow.
pub open spec fn spec_submit_decision(l: LedgerView, identity: Seq<u8>, req: RequestView) -> Result<
    (),
    TransferError,
> {
    if !delegation_ok(identity, req) {
        Err(TransferError::DelegationRejected)
    } else if lookup_holding(l, req.source) is None {
        Err(TransferError::TransferRejected(RejectReason::WrongOwningService))
    } else if lookup_holding(l, req.destination) is None {
        Err(TransferError::TransferRejected(RejectReason::WrongOwningService))
    } else if lookup_class(l, req.token_class) is None {
        Err(TransferError::TransferRejected(RejectReason::WrongOwningService))
    } else {
        let src = lookup_holding(l, req.source).unwrap();
        let dst = lookup_holding(l, req.destination).unwrap();
        let decimals = lookup_class(l, req.token_class).unwrap();
        if src.token_class != req.token_class || dst.token_class != req.token_class {
            Err(TransferError::TransferRejected(RejectReason::ClassMismatch))
        } else if decimals != req.decimals {
            Err(TransferError::TransferRejected(RejectReason::PrecisionMismatch))
        } else if src.frozen || dst.frozen {
            Err(TransferError::TransferRejected(RejectReason::Frozen))
        } else if src.authority != req.authority {
            Err(TransferError::TransferRejected(RejectReason::NotAuthorized))
        } else if src.amount < req.amount {
            Err(TransferError::TransferRejected(RejectReason::InsufficientBalance))
        } else if req.source != req.destination && dst.amount + req.amount > u64::MAX {
            Err(TransferError::TransferRejected(RejectReason::Overflow))
        } else {
            Ok(())
        }
    }
}

/// The books after the service accepts a request: the source's balance drops
/// by the amount, the destination's rises by it, nothing else moves. A
/// transfer of a holding to itself leaves the books as they are.
pub open spec fn spec_apply(l: LedgerView, req: RequestView) -> LedgerView {
    if req.source == req.destination {
        l
    } else {
        let si = holding_index(l.holdings, req.source);
        let di = holding_index(l.holdings, req.destination);
        let src = l.holdings[si].holding;
        let dst = l.holdings[di].holding;
        let updated = l.holdings.update(
            si,
            HoldingEntryView {
                key: req.source,
                holding: HoldingView {
                    token_class: src.token_class,
                    authority: src.authority,
                    amount: (src.amount - req.amount) as u64,
                    frozen: src.frozen,
                },
            },
        ).update(
            di,
            HoldingEntryView {
                key: req.destination,
                holding: HoldingView {
                    token_class: dst.token_class,
                    authority: dst.authority,
                    amount: (dst.amount + req.amount) as u64,
                    frozen: dst.frozen,
                },
            },
        );
        LedgerView { classes: l.classes, holdings: updated }
    }
}

impl Ledger {
    /// A service with empty books.
    pub fn new_service() -> (r: Ledger)
        ensures
            r@.classes.len() == 0,
            r@.holdings.len() == 0,
    {
        Ledger { classes: Vec::new(), holdings: Vec::new() }
    }

    /// The position of the holding recorded at `key`, if any.
    fn find_holding(&self, key: &Address) -> (r: Option<usize>)
        ensures
            r is Some <==> holding_index(self@.holdings, key@) != -1,
            r matches Some(i) ==> i as int == holding_index(self@.holdings, key@) && (i as int)
                < self@.holdings.len() && self@.holdings[i as int].key == key@,
    {
        proof {
            lemma_holding_index(self@.holdings, key@);
        }
        let n = self.holdings.len();
        let mut i: usize = 0;
        while i < n
            invariant
                n == self.holdings@.len(),
                i <= n,
                self@.holdings.len() == n,
                forall|j: int| 0 <= j < i ==> self@.holdings[j].key != key@,
                forall|j: int|
                    0 <= j < n ==> self@.holdings[j] == (HoldingEntryView {
                        key: self.holdings@[j].key@,
                        holding: self.holdings@[j].holding@,
                    }),
            decreases n - i,
        {
            if self.holdings[i].key.same_as(key) {
                proof {
                    lemma_holding_index(self@.holdings, key@);
                    assert(self@.holdings[i as int].key == key@);
                }
                return Some(i);
            }
            i = i + 1;
        }
        proof {
            lemma_holding_index(self@.holdings, key@);
        }
        None
    }

    /// The position of the token class recorded at `key`, if any.
    fn find_class(&self, key: &Address) -> (r: Option<usize>)
        ensures
            r is Some <==> class_index(self@.classes, key@) != -1,
            r matches Some(i) ==> i as int == class_index(self@.classes, key@) && (i as int)
                < self@.classes.len() && self@.classes[i as int].key == key@,
    {
        proof {
            lemma_class_index(self@.classes, key@);
        }
        let n = self.classes.len();
        let mut i: usize = 0;
        while i < n
            invariant
                n == self.classes@.len(),
                i <= n,
                self@.classes.len() == n,
                forall|j: int| 0 <= j < i ==> self@.classes[j].key != key@,
                forall|j: int|
                    0 <= j < n ==> self@.classes[j] == (ClassEntryView {
                        key: self.classes@[j].key@,
                        decimals: self.classes@[j].decimals,
                    }),
            decreases n - i,
        {
            if self.classes[i].key.same_as(key) {
                proof {
                    lemma_class_index(self@.classes, key@);
                    assert(self@.classes[i as int].key == key@);
                }
                return Some(i);
            }
            i = i + 1;
        }
        proof {
            lemma_class_index(self@.classes, key@);
        }
        None
    }

    /// Records a new token class with the given precision; refused when the
    /// address is already on the books.
    pub fn create_token_class(&mut self, key: &Address, decimals: u8) -> (r: bool)
        ensures
            r == (class_index(old(self)@.classes, key@) == -1),
            !r ==> final(self)@ == old(self)@,
            r ==> final(self)@.classes =~= old(self)@.classes.push(
                ClassEntryView { key: key@, decimals },
            ) && final(self)@.holdings =~= old(self)@.holdings,
    {
        if self.find_class(key).is_some() {
            return false;
        }
        self.classes.push(ClassEntry { key: key.clone(), decimals });
        proof {
            assert(self@.classes =~= old(self)@.classes.push(
                ClassEntryView { key: key@, decimals },
            ));
            assert(self@.holdings =~= old(self)@.holdings);
        }
        true
    }

    /// Records a new, empty, unfrozen holding of the given token class under
    /// custody of the given authority; refused when the address is already
    /// on the books.
    pub fn create_holding(&mut self, key: &Address, token_class: &Address, authority: &Address) -> (r:
        bool)
        ensures
            r == (holding_index(old(self)@.holdings, key@) == -1),
            !r ==> final(self)@ == old(self)@,
            r ==> final(self)@.holdings =~= old(self)@.holdings.push(
                HoldingEntryView {
                    key: key@,
                    holding: HoldingView {
                        token_class: token_class@,
                        authority: authority@,
                        amount: 0,
                        frozen: false,
                    },
                },
            ) && final(self)@.classes =~= old(self)@.classes,
    {
        if self.find_holding(key).is_some() {
            return false;
        }
        self.holdings.push(
            HoldingEntry {
                key: key.clone(),
                holding: Holding {
                    token_class: token_class.clone(),
                    authority: authority.clone(),
                    amount: 0,
                    frozen: false,
                },
            },
        );
        proof {
            assert(self@.holdings =~= old(self)@.holdings.push(
                HoldingEntryView {
                    key: key@,
                    holding: HoldingView {
                        token_class: token_class@,
                        authority: authority@,
                        amount: 0,
                        frozen: false,
                    },
                },
            ));
            assert(self@.classes =~= old(self)@.classes);
        }
        true
    }

    /// Credits freshly minted units to the holding at `key`; refused when no
    /// holding is recorded there or its balance would overflow.
    pub fn mint_to(&mut self, key: &Address, amount: u64) -> (r: bool)
        ensures
            r == (lookup_holding(old(self)@, key@) matches Some(h) && h.amount + amount
                <= u64::MAX),
            !r ==> final(self)@ == old(self)@,
            r ==> {
                let i = holding_index(old(self)@.holdings, key@);
                let h = old(self)@.holdings[i].holding;
                &&& final(self)@.holdings =~= old(self)@.holdings.update(
                    i,
                    HoldingEntryView {
                        key: key@,
                        holding: HoldingView {
                            token_class: h.token_class,
                            authority: h.authority,
                            amount: (h.amount + amount) as u64,
                            frozen: h.frozen,
                        },
                    },
                )
                &&& final(self)@.classes =~= old(self)@.classes
            },
    {
        let i = match self.find_holding(key) {
            Some(i) => i,
            None => {
                return false;
            },
        };
        let entry = &self.holdings[i];
        if amount > u64::MAX - entry.holding.amount {
            return false;
        }
        let updated = HoldingEntry {
            key: entry.key.clone(),
            holding: Holding {
                token_class: entry.holding.token_class.clone(),
                authority: entry.holding.authority.clone(),
                amount: entry.holding.amount + amount,
                frozen: entry.holding.frozen,
            },
        };
        self.holdings.set(i, updated);
        proof {
            assert(self@.holdings =~= old(self)@.holdings.update(
                i as int,
                HoldingEntryView {
                    key: key@,
                    holding: HoldingView {
                        token_class: old(self)@.holdings[i as int].holding.token_class,
                        authority: old(self)@.holdings[i as int].holding.authority,
                        amount: (old(self)@.holdings[i as int].holding.amount + amount) as u64,
                        frozen: old(self)@.holdings[i as int].holding.frozen,
                    },
                },
            ));
            assert(self@.classes =~= old(self)@.classes);
        }
        true
    }

    /// Freezes or thaws the holding at `key`; refused when no holding is
    /// recorded there.
    pub fn set_frozen(&mut self, key: &Address, frozen: bool) -> (r: bool)
        ensures
            r == (holding_index(old(self)@.holdings, key@) != -1),
            !r ==> final(self)@ == old(self)@,
            r ==> {
                let i = holding_index(old(self)@.holdings, key@);
                let h = old(self)@.holdings[i].holding;
                &&& final(self)@.holdings =~= old(self)@.holdings.update(
                    i,
                    HoldingEntryView {
                        key: key@,
                        holding: HoldingView {
                            token_class: h.token_class,
                            authority: h.authority,
                            amount: h.amount,
                            frozen: frozen,
                        },
                    },
                )
                &&& final(self)@.classes =~= old(self)@.classes
            },
    {
        let i = match self.find_holding(key) {
            Some(i) => i,
            None => {
                return false;
            },
        };
        let entry = &self.holdings[i];
        let updated = HoldingEntry {
            key: entry.key.clone(),
            holding: Holding {
                token_class: entry.holding.token_class.clone(),
                authority: entry.holding.authority.clone(),
                amount: entry.holding.amount,
                frozen,
            },
        };
        self.holdings.set(i, updated);
        proof {
            assert(self@.holdings =~= old(self)@.holdings.update(
                i as int,
                HoldingEntryView {
                    key: key@,
                    holding: HoldingView {
                        token_class: old(self)@.holdings[i as int].holding.token_class,
                        authority: old(self)@.holdings[i as int].holding.authority,
                        amount: old(self)@.holdings[i as int].holding.amount,
                        frozen: frozen,
                    },
                },
            ));
            assert(self@.classes =~= old(self)@.classes);
        }
        true
    }

    /// The balance of the holding at `key`, if one is on the books.
    pub fn balance_of(&self, key: &Address) -> (r: Option<u64>)
        ensures
            r is Some <==> lookup_holding(self@, key@) is Some,
            r matches Some(a) ==> a == lookup_holding(self@, key@).unwrap().amount,
    {
        match self.find_holding(key) {
            Some(i) => Some(self.holdings[i].holding.amount),
            None => None,
        }
    }

    /// Decides a submitted transfer request exactly as the service's
    /// documented contract says, and moves the units when it accepts. On any
    /// rejection the books are untouched.
    pub fn submit_transfer(&mut self, identity: &Address, req: &TransferRequest) -> (r: Result<
        (),
        TransferError,
    >)
        requires
            identity.wf(),
        ensures
            r == spec_submit_decision(old(self)@, identity@, req@),
            r is Err ==> final(self)@ == old(self)@,
            r is Ok ==> final(self)@ == spec_apply(old(self)@, req@),
    {
        let delegated = match pda_create(&req.seed, req.bump, identity) {
            Some(a) => a.same_as(&req.authority),
            None => false,
        };
        if !delegated {
            return Err(TransferError::DelegationRejected);
        }
        let si = match self.find_holding(&req.source) {
            Some(i) => i,
            None => {
                return Err(TransferError::TransferRejected(RejectReason::WrongOwningService));
            },
        };
        let di = match self.find_holding(&req.destination) {
            Some(i) => i,
            None => {
                return Err(TransferError::TransferRejected(RejectReason::WrongOwningService));
            },
        };
        let decimals = match self.find_class(&req.token_class) {
            Some(i) => self.classes[i].decimals,
            None => {
                return Err(TransferError::TransferRejected(RejectReason::WrongOwningService));
            },
        };
        let src_ok = self.holdings[si].holding.token_class.same_as(&req.token_class);
        let dst_ok = self.holdings[di].holding.token_class.same_as(&req.token_class);
        if !src_ok || !dst_ok {
            return Err(TransferError::TransferRejected(RejectReason::ClassMismatch));
        }
        if decimals != req.decimals {
            return Err(TransferError::TransferRejected(RejectReason::PrecisionMismatch));
        }
        if self.holdings[si].holding.frozen || self.holdings[di].holding.frozen {
            return Err(TransferError::TransferRejected(RejectReason::Frozen));
        }
        if !self.holdings[si].holding.authority.same_as(&req.authority) {
            return Err(TransferError::TransferRejected(RejectReason::NotAuthorized));
        }
        if self.holdings[si].holding.amount < req.amount {
            return Err(TransferError::TransferRejected(RejectReason::InsufficientBalance));
        }
        if req.source.same_as(&req.destination) {
            return Ok(());
        }
        if req.amount > u64::MAX - self.holdings[di].holding.amount {
            return Err(TransferError::TransferRejected(RejectReason::Overflow));
        }
        let src_entry = &self.holdings[si];
        let new_src = HoldingEntry {
            key: src_entry.key.clone(),
            holding: Holding {
                token_class: src_entry.holding.token_class.clone(),
                authority: src_entry.holding.authority.clone(),
                amount: src_entry.holding.amount - req.amount,
                frozen: src_entry.holding.frozen,
            },
        };
        let dst_entry = &self.holdings[di];
        let new_dst = HoldingEntry {
            key: dst_entry.key.clone(),
            holding: Holding {
                token_class: dst_entry.holding.token_class.clone(),
                authority: dst_entry.holding.authority.clone(),
                amount: dst_entry.holding.amount + req.amount,
                frozen: dst_entry.holding.frozen,
            },
        };
        self.holdings.set(si, new_src);
        self.holdings.set(di, new_dst);
        proof {
            assert(self@.holdings =~= spec_apply(old(self)@, req@).holdings);
            assert(self@.classes =~= spec_apply(old(self)@, req@).classes);
        }
        Ok(())
    }
}


/// Authorization completeness, the balance side: when the service accepts a
/// request that names two distinct holdings, the destination's balance rises
/// by exactly the requested amount, the source's drops by the same amount,
/// and every other holding and every token class is untouched.
pub proof fn lemma_accepted_transfer_moves_balances(
    l: LedgerView,
    identity: Seq<u8>,
    req: RequestView,
)
    requires
        spec_submit_decision(l, identity, req) is Ok,
        req.source != req.destination,
    ensures
        lookup_holding(spec_apply(l, req), req.source) matches Some(h) && h.amount
            == lookup_holding(l, req.source).unwrap().amount - req.amount,
        lookup_holding(spec_apply(l, req), req.destination) matches Some(h) && h.amount
            == lookup_holding(l, req.destination).unwrap().amount + req.amount,
        forall|k: Seq<u8>|
            k != req.source && k != req.destination ==> lookup_holding(spec_apply(l, req), k)
                == lookup_holding(l, k),
        spec_apply(l, req).classes == l.classes,
{
    let si = holding_index(l.holdings, req.source);
    let di = holding_index(l.holdings, req.destination);
    lemma_holding_index(l.holdings, req.source);
    lemma_holding_index(l.holdings, req.destination);
    let updated = spec_apply(l, req).holdings;
    assert forall|j: int| 0 <= j < l.holdings.len() implies updated[j].key
        == l.holdings[j].key by {}
    assert forall|k: Seq<u8>| #[trigger] lookup_holding(spec_apply(l, req), k) == (
    if k == req.source {
        Some(updated[si].holding)
    } else if k == req.destination {
        Some(updated[di].holding)
    } else {
        lookup_holding(l, k)
    }) by {
        lemma_holding_index_same_keys(updated, l.holdings, k);
        lemma_holding_index(l.holdings, k);
    }
}

} // verus!
