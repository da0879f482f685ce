use vstd::prelude::*;

use crate::addrs::AddrSet;
use crate::addrs::list_has;
use crate::errors::ContractError;

verus! {

/// The auditable action record emitted by a successful gate mutation, so a
/// caller can distinguish which mutation occurred.
#[derive(Clone, Copy, Debug, PartialEq, Eq, Structural)]
pub enum GateAction {
    UpdatePaymentWhitelist,
    UpdateOperators,
}

/// The access gate in front of the request entry point.
///
/// It owns two address sets: the payment allow-list (callers permitted to
/// request randomness) and the operators (callers permitted to edit the
/// allow-list). The optional manager is the only authority permitted to edit
/// the operator set. Addresses are handed in already validated by the
/// embedder; identity validation is the collaborator's job.
pub struct AccessGate {
    pub manager: Option<String>,
    pub allowlist: AddrSet,
    pub operators: AddrSet,
}

impl AccessGate {
    pub open spec fn wf(self) -> bool {
        self.allowlist.wf() && self.operators.wf()
    }

    /// The configured manager exists and is spelled `a`.
    pub open spec fn manager_is(self, a: Seq<char>) -> bool {
        match self.manager {
            Some(m) => m@ == a,
            None => false,
        }
    }

    /// Who may edit the allow-list: an operator, or the configured manager.
    pub open spec fn may_edit_allowlist(self, caller: Seq<char>) -> bool {
        self.operators.has(caller) || self.manager_is(caller)
    }

    /// Who may edit the operator set: only the configured manager, so
    /// operators cannot promote themselves or each other.
    pub open spec fn may_edit_operators(self, caller: Seq<char>) -> bool {
        self.manager_is(caller)
    }

    pub fn new(manager: Option<String>) -> (g: AccessGate)
        ensures
            g.wf(),
            g.manager == manager,
            forall|a: Seq<char>| !g.allowlist.has(a),
            forall|a: Seq<char>| !g.operators.has(a),
    {
        AccessGate { manager, allowlist: AddrSet::empty(), operators: AddrSet::empty() }
    }

    /// Pure membership check of the payment allow-list.
    pub fn is_allowed(&self, a: &String) -> (r: bool)
        ensures
            r == self.allowlist.has(a@),
    {
        self.allowlist.contains(a)
    }

    /// Pure membership check of the operator set.
    pub fn is_operator(&self, a: &String) -> (r: bool)
        ensures
            r == self.operators.has(a@),
    {
        self.operators.contains(a)
    }

    fn caller_is_manager(&self, caller: &String) -> (r: bool)
        ensures
            r == self.manager_is(caller@),
    {
        match &self.manager {
            Some(m) => *caller == *m,
            None => false,
        }
    }
}

/// Edits the payment allow-list: applies `add_addresses`, then
/// `remove_addresses`.
///
/// Authorized for an operator, or for the configured manager; when no manager
/// is configured a non-operator always fails with `Unauthorized`, never
/// silently succeeds. Removal of a non-member is a harmless no-op.
pub fn execute_update_payment_whitelist(
    gate: &mut AccessGate,
    caller: &String,
    add_addresses: Vec<String>,
    remove_addresses: Vec<String>,
) -> (r: Result<GateAction, ContractError>)
    requires
        old(gate).wf(),
    ensures
        final(gate).wf(),
        final(gate).manager == old(gate).manager,
        final(gate).operators == old(gate).operators,
        r is Err <==> !old(gate).may_edit_allowlist(caller@),
        r is Err ==> r == Err::<GateAction, ContractError>(ContractError::Unauthorized)
            && *final(gate) == *old(gate),
        r is Ok ==> r == Ok::<GateAction, ContractError>(GateAction::UpdatePaymentWhitelist)
            && forall|x: Seq<char>| #![auto]
            final(gate).allowlist.has(x) <==> ((old(gate).allowlist.has(x) || list_has(
                add_addresses@,
                x,
            )) && !list_has(remove_addresses@, x)),
{
    if !gate.is_operator(caller) && !gate.caller_is_manager(caller) {
        return Err(ContractError::Unauthorized);
    }
    gate.allowlist.apply_updates(&add_addresses, &remove_addresses);
    Ok(GateAction::UpdatePaymentWhitelist)
}

/// Edits the operator set: applies `add_addresses`, then `remove_addresses`.
///
/// Authorized only for the configured manager; when no manager is configured
/// every caller fails with `Unauthorized`. Removal of a non-member is a
/// harmless no-op.
pub fn execute_update_operators(
    gate: &mut AccessGate,
    caller: &String,
    add_addresses: Vec<String>,
    remove_addresses: Vec<String>,
) -> (r: Result<GateAction, ContractError>)
    requires
        old(gate).wf(),
    ensures
        final(gate).wf(),
        final(gate).manager == old(gate).manager,
        final(gate).allowlist == old(gate).allowlist,
        r is Err <==> !old(gate).may_edit_operators(caller@),
        r is Err ==> r == Err::<GateAction, ContractError>(ContractError::Unauthorized)
            && *final(gate) == *old(gate),
        r is Ok ==> r == Ok::<GateAction, ContractError>(GateAction::UpdateOperators) && forall|
            x: Seq<char>,
        | #![auto]
            final(gate).operators.has(x) <==> ((old(gate).operators.has(x) || list_has(
                add_addresses@,
                x,
            )) && !list_has(remove_addresses@, x)),
{
    if !gate.caller_is_manager(caller) {
        return Err(ContractError::Unauthorized);
    }
    gate.operators.apply_updates(&add_addresses, &remove_addresses);
    Ok(GateAction::UpdateOperators)
}

} // verus!
