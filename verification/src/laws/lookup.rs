//! Where rows are found in valid books: each by its own key.

use vstd::prelude::*;

use super::{valid, valid_accounts, valid_machines};
use crate::db::{
    account_pos, lemma_position_is, lemma_position_none, machine_of_host, machine_pos,
    machine_with_token, rental_pos, AccountRowView, MachineRowView, Market,
    RentalRowView,
};
use crate::error::ApiErrorView;
use crate::routes::agent::rental_of;
use crate::routes::caller;
use crate::text::has_prefix;

verus! {

/// A machine, a token and a host are found in the row that holds them.
pub proof fn machines_are_found(m: Market, i: int)
    requires
        valid_machines(m.machines),
        0 <= i < m.machines.len(),
    ensures
        machine_pos(m, m.machines[i].id) == Some(i),
        machine_with_token(m, m.machines[i].agent_token) == Some(i),
        machine_of_host(m, m.machines[i].host_id) == Some(i),
{
    let h = m.machines[i];
    lemma_position_is(m.machines, |x: MachineRowView| x.id == h.id, i);
    lemma_position_is(m.machines, |x: MachineRowView| x.agent_token == h.agent_token, i);
    lemma_position_is(m.machines, |x: MachineRowView| x.host_id == h.host_id, i);
}

/// An account is found in the row that holds its id.
pub proof fn accounts_are_found(m: Market, a: int)
    requires
        valid_accounts(m.accounts),
        0 <= a < m.accounts.len(),
    ensures
        account_pos(m, m.accounts[a].id) == Some(a),
{
    let x = m.accounts[a];
    lemma_position_is(m.accounts, |y: AccountRowView| y.id == x.id, a);
}

/// A rental is found in the row that holds its id, by its own machine too.
pub proof fn rentals_are_found(m: Market, j: int)
    requires
        valid(m),
        0 <= j < m.rentals.len(),
    ensures
        rental_pos(m, m.rentals[j].id) == Some(j),
        rental_of(m, m.rentals[j].id, m.rentals[j].machine_id) == Some(j),
{
    let r = m.rentals[j];
    lemma_position_is(m.rentals, |x: RentalRowView| x.id == r.id, j);
    lemma_position_is(
        m.rentals,
        |x: RentalRowView| x.id == r.id && x.machine_id == r.machine_id,
        j,
    );
}

/// The bearer of a machine's token is taken for that machine.
pub proof fn the_bearer_is_the_machine(m: Market, i: int)
    requires
        valid_machines(m.machines),
        0 <= i < m.machines.len(),
    ensures
        caller(m, Some("Bearer "@ + m.machines[i].agent_token)) == Ok::<int, ApiErrorView>(i),
{
    let token = m.machines[i].agent_token;
    let h = "Bearer "@ + token;
    assert(h.take("Bearer "@.len() as int) =~= "Bearer "@);
    assert(h.skip("Bearer "@.len() as int) =~= token);
    machines_are_found(m, i);
}

/// Nobody else is taken for a machine: a header that is not `Bearer` and the token of
/// some machine is turned away, and so is a call without one.
pub proof fn a_stranger_is_turned_away(m: Market, authorization: Option<Seq<char>>)
    requires
        forall|i: int|
            0 <= i < m.machines.len() ==> authorization != Some(
                "Bearer "@ + (#[trigger] m.machines[i]).agent_token,
            ),
    ensures
        caller(m, authorization) matches Err(e) && e.status == 401,
{
    match authorization {
        Some(h) => {
            let n = "Bearer "@.len() as int;
            let token = h.skip(n);
            if has_prefix(h, "Bearer "@) {
                assert(h =~= "Bearer "@ + token);
                lemma_position_none(m.machines, |x: MachineRowView| x.agent_token == token);
            }
        },
        None => {},
    }
}

} // verus!
