//! Account address resolution. An account's address is, in order of
//! precedence: the address already supplied by the caller, the fixed
//! address declared on the descriptor, or a program-derived address
//! computed from the declared seed blobs and the bump search. The
//! whole resolution is a pure function of its inputs, so repeated
//! calls agree.

use vstd::prelude::*;

use crate::account::ToolboxIdlInstructionAccount;
use crate::account::ToolboxIdlInstructionAccountPda;
use crate::account::ToolboxIdlInstructionAccountPdaView;
use crate::blob::ToolboxIdlInstructionBlob;
use crate::blob::ToolboxIdlInstructionBlobView;
use crate::blob_compute::spec_blob_compute;
use crate::error::ToolboxIdlError;
use crate::lookup::spec_lookup;
use crate::lookup::ToolboxIdlLookup;
use crate::outside::find_program_address;
use crate::outside::pda_of;
use crate::pubkey::ToolboxIdlPubkey;
use crate::type_full::ToolboxIdlTypeFull;
use crate::type_full::ToolboxIdlTypeFullFields;
use crate::type_full::ToolboxIdlTypeFullView;
use crate::value::ToolboxIdlValue;
use crate::value::ToolboxIdlValueView;

verus! {

/// The byte strings of the first `k` seed blobs, or `None` when one of
/// them fails to compute.
pub open spec fn spec_compute_seeds(
    seeds: Seq<ToolboxIdlInstructionBlobView>,
    payload: ToolboxIdlValueView,
    addresses: Seq<(Seq<char>, Seq<u8>)>,
    states: Seq<(Seq<char>, ToolboxIdlValueView)>,
    content_types: Seq<(Seq<char>, ToolboxIdlTypeFullView)>,
    k: int,
) -> Option<Seq<Seq<u8>>>
    decreases k,
{
    if k <= 0 {
        Some(Seq::empty())
    } else if k > seeds.len() {
        None
    } else {
        match spec_compute_seeds(seeds, payload, addresses, states, content_types, k - 1) {
            None => None,
            Some(prev) => {
                match spec_blob_compute(seeds[k - 1], payload, addresses, states, content_types) {
                    Some(bytes) => Some(prev.push(bytes)),
                    None => None,
                }
            },
        }
    }
}

/// The program id a derivation rule uses: its program blob's bytes
/// when declared (which must be 32 bytes), else the instruction's own
/// program id.
pub open spec fn spec_pda_program_id(
    pda: ToolboxIdlInstructionAccountPdaView,
    program_id: Seq<u8>,
    payload: ToolboxIdlValueView,
    addresses: Seq<(Seq<char>, Seq<u8>)>,
    states: Seq<(Seq<char>, ToolboxIdlValueView)>,
    content_types: Seq<(Seq<char>, ToolboxIdlTypeFullView)>,
) -> Option<Seq<u8>> {
    match pda.program {
        Some(blob) => {
            match spec_blob_compute(blob, payload, addresses, states, content_types) {
                Some(bytes) => {
                    if bytes.len() == 32 {
                        Some(bytes)
                    } else {
                        None
                    }
                },
                None => None,
            }
        },
        None => Some(program_id),
    }
}

/// The derived address of a derivation rule: every seed computed in
/// declared order, the program id resolved, and the bump search run
/// over the concatenated seeds.
pub open spec fn spec_find_pda(
    pda: ToolboxIdlInstructionAccountPdaView,
    program_id: Seq<u8>,
    payload: ToolboxIdlValueView,
    addresses: Seq<(Seq<char>, Seq<u8>)>,
    states: Seq<(Seq<char>, ToolboxIdlValueView)>,
    content_types: Seq<(Seq<char>, ToolboxIdlTypeFullView)>,
) -> Option<Seq<u8>> {
    match spec_compute_seeds(
        pda.seeds,
        payload,
        addresses,
        states,
        content_types,
        pda.seeds.len() as int,
    ) {
        None => None,
        Some(seed_bytes) => {
            match spec_pda_program_id(
                pda,
                program_id,
                payload,
                addresses,
                states,
                content_types,
            ) {
                None => None,
                Some(pda_program_id) => {
                    match pda_of(seed_bytes, pda_program_id) {
                        Some(pair) => Some(pair.0),
                        None => None,
                    }
                },
            }
        },
    }
}

/// The resolved address of one account: a caller-supplied address
/// first, a declared fixed address second, a derived address third;
/// otherwise the account is unresolvable. A resolved address is
/// always exactly 32 bytes, so a malformed supplied or declared
/// address is a failure rather than a pass-through.
pub open spec fn spec_find_address(
    account: crate::account::ToolboxIdlInstructionAccountView,
    program_id: Seq<u8>,
    payload: ToolboxIdlValueView,
    addresses: Seq<(Seq<char>, Seq<u8>)>,
    states: Seq<(Seq<char>, ToolboxIdlValueView)>,
    content_types: Seq<(Seq<char>, ToolboxIdlTypeFullView)>,
) -> Option<Seq<u8>> {
    match spec_lookup(addresses, account.name) {
        Some(known) => if known.len() == 32 {
            Some(known)
        } else {
            None
        },
        None => {
            match account.address {
                Some(fixed) => if fixed.len() == 32 {
                    Some(fixed)
                } else {
                    None
                },
                None => {
                    match account.pda {
                        Some(pda) => spec_find_pda(
                            pda,
                            program_id,
                            payload,
                            addresses,
                            states,
                            content_types,
                        ),
                        None => None,
                    }
                },
            }
        },
    }
}

impl ToolboxIdlInstructionAccount {
    /// Resolves this account's address. Succeeds exactly when the
    /// mathematical resolution does, and then returns exactly its
    /// address; resolution depends on nothing but the arguments, so
    /// repeated calls agree.
    pub fn try_find(
        &self,
        instruction_program_id: &ToolboxIdlPubkey,
        instruction_payload: &ToolboxIdlValue,
        instruction_addresses: &ToolboxIdlLookup<ToolboxIdlPubkey>,
        instruction_accounts_states: &ToolboxIdlLookup<ToolboxIdlValue>,
        instruction_args_type_full_fields: &ToolboxIdlTypeFullFields,
        instruction_accounts_contents_type_full: &ToolboxIdlLookup<ToolboxIdlTypeFull>,
    ) -> (r: Result<ToolboxIdlPubkey, ToolboxIdlError>)
        requires
            instruction_program_id.spec_wf(),
        ensures
            match r {
                Ok(address) => spec_find_address(
                    self@,
                    instruction_program_id@,
                    instruction_payload@,
                    instruction_addresses@,
                    instruction_accounts_states@,
                    instruction_accounts_contents_type_full@,
                ) == Some(address@) && address.spec_wf(),
                Err(_) => spec_find_address(
                    self@,
                    instruction_program_id@,
                    instruction_payload@,
                    instruction_addresses@,
                    instruction_accounts_states@,
                    instruction_accounts_contents_type_full@,
                ) is None,
            },
    {
        if let Some(address) = instruction_addresses.get(self.name.as_str()) {
            if address.bytes.len() != 32 {
                return Err(
                    ToolboxIdlError::Codec(
                        String::from_str("supplied account address must be 32 bytes"),
                    ),
                );
            }
            return Ok(address.clone());
        }
        if let Some(address) = &self.address {
            if address.bytes.len() != 32 {
                return Err(
                    ToolboxIdlError::Codec(
                        String::from_str("declared account address must be 32 bytes"),
                    ),
                );
            }
            return Ok(address.clone());
        }
        if let Some(pda) = &self.pda {
            return match pda.try_find(
                instruction_program_id,
                instruction_payload,
                instruction_addresses,
                instruction_accounts_states,
                instruction_args_type_full_fields,
                instruction_accounts_contents_type_full,
            ) {
                Ok(address) => Ok(address),
                Err(error) => Err(error.wrap("derived address")),
            };
        }
        Err(
            ToolboxIdlError::UnresolvableAddress(
                String::from_str("could not find account automatically"),
            ),
        )
    }
}

impl ToolboxIdlInstructionAccountPda {
    /// Derives this rule's address: seeds in declared order, then the
    /// bump search against the resolved program id.
    pub fn try_find(
        &self,
        instruction_program_id: &ToolboxIdlPubkey,
        instruction_payload: &ToolboxIdlValue,
        instruction_addresses: &ToolboxIdlLookup<ToolboxIdlPubkey>,
        instruction_accounts_states: &ToolboxIdlLookup<ToolboxIdlValue>,
        _instruction_args_type_full_fields: &ToolboxIdlTypeFullFields,
        instruction_accounts_contents_type_full: &ToolboxIdlLookup<ToolboxIdlTypeFull>,
    ) -> (r: Result<ToolboxIdlPubkey, ToolboxIdlError>)
        requires
            instruction_program_id.spec_wf(),
        ensures
            match r {
                Ok(address) => spec_find_pda(
                    self@,
                    instruction_program_id@,
                    instruction_payload@,
                    instruction_addresses@,
                    instruction_accounts_states@,
                    instruction_accounts_contents_type_full@,
                ) == Some(address@) && address.spec_wf(),
                Err(_) => spec_find_pda(
                    self@,
                    instruction_program_id@,
                    instruction_payload@,
                    instruction_addresses@,
                    instruction_accounts_states@,
                    instruction_accounts_contents_type_full@,
                ) is None,
            },
    {
        let ghost seeds_view = self@.seeds;
        let mut seed_bytes: Vec<Vec<u8>> = Vec::new();
        let mut i: usize = 0;
        while i < self.seeds.len()
            invariant
                0 <= i <= self.seeds@.len(),
                seeds_view == self@.seeds,
                seeds_view.len() == self.seeds@.len(),
                forall|j: int|
                    0 <= j < self.seeds@.len() ==> #[trigger] seeds_view[j] == self.seeds@[j]@,
                spec_compute_seeds(
                    seeds_view,
                    instruction_payload@,
                    instruction_addresses@,
                    instruction_accounts_states@,
                    instruction_accounts_contents_type_full@,
                    i as int,
                ) == Some(seed_bytes.deep_view()),
            decreases self.seeds@.len() - i,
        {
            let bytes = match self.seeds[i].try_compute(
                instruction_payload,
                instruction_addresses,
                instruction_accounts_states,
                instruction_accounts_contents_type_full,
            ) {
                Ok(bytes) => bytes,
                Err(error) => {
                    proof {
                        lemma_compute_seeds_none(
                            seeds_view,
                            instruction_payload@,
                            instruction_addresses@,
                            instruction_accounts_states@,
                            instruction_accounts_contents_type_full@,
                            i + 1,
                            seeds_view.len() as int,
                        );
                    }
                    let label = String::from_str("seed ").concat(
                        crate::decimal::usize_to_dec(i).as_str(),
                    );
                    return Err(error.wrap(label.as_str()));
                },
            };
            let ghost prior = seed_bytes.deep_view();
            seed_bytes.push(bytes);
            proof {
                assert(seed_bytes@.last().deep_view() =~= seed_bytes@.last()@);
                assert(seed_bytes.deep_view() =~= prior.push(seed_bytes@.last()@));
            }
            i += 1;
        }
        let program_id_bytes: Vec<u8> = match &self.program {
            Some(blob) => {
                let bytes = match blob.try_compute(
                    instruction_payload,
                    instruction_addresses,
                    instruction_accounts_states,
                    instruction_accounts_contents_type_full,
                ) {
                    Ok(bytes) => bytes,
                    Err(error) => {
                        return Err(error.wrap("program seed"));
                    },
                };
                if bytes.len() != 32 {
                    return Err(
                        ToolboxIdlError::Codec(
                            String::from_str("program id must be 32 bytes"),
                        ),
                    );
                }
                bytes
            },
            None => instruction_program_id.bytes.clone(),
        };
        match find_program_address(&seed_bytes, &program_id_bytes) {
            Some(pair) => {
                let address = ToolboxIdlPubkey { bytes: pair.0 };
                Ok(address)
            },
            None => Err(
                ToolboxIdlError::UnresolvableAddress(
                    String::from_str("no viable program-derived address"),
                ),
            ),
        }
    }
}

/// Failure of a seed prefix propagates to every longer prefix.
proof fn lemma_compute_seeds_none(
    seeds: Seq<ToolboxIdlInstructionBlobView>,
    payload: ToolboxIdlValueView,
    addresses: Seq<(Seq<char>, Seq<u8>)>,
    states: Seq<(Seq<char>, ToolboxIdlValueView)>,
    content_types: Seq<(Seq<char>, ToolboxIdlTypeFullView)>,
    k1: int,
    k2: int,
)
    requires
        spec_compute_seeds(seeds, payload, addresses, states, content_types, k1) is None,
        k1 <= k2,
    ensures
        spec_compute_seeds(seeds, payload, addresses, states, content_types, k2) is None,
    decreases k2 - k1,
{
    if k2 > k1 {
        lemma_compute_seeds_none(seeds, payload, addresses, states, content_types, k1, k2 - 1);
    }
}

/// Derivation determinism: the resolved address is a pure function of
/// the program id, the declared rule, the payload, and the known
/// addresses and states; two resolutions of the same inputs agree.
pub proof fn lemma_find_address_deterministic(
    account: crate::account::ToolboxIdlInstructionAccountView,
    program_id: Seq<u8>,
    payload: ToolboxIdlValueView,
    addresses: Seq<(Seq<char>, Seq<u8>)>,
    states: Seq<(Seq<char>, ToolboxIdlValueView)>,
    content_types: Seq<(Seq<char>, ToolboxIdlTypeFullView)>,
)
    ensures
        spec_find_address(account, program_id, payload, addresses, states, content_types)
            == spec_find_address(account, program_id, payload, addresses, states, content_types),
{
}

/// The addresses resolved by one pass over the declared accounts, in
/// order: each account sees the addresses resolved before it, an
/// unresolvable account is skipped, and the caller's already-known
/// addresses seed the pass. Dependency ordering among derived
/// accounts is the caller's responsibility.
pub open spec fn spec_find_addresses(
    accounts: Seq<crate::account::ToolboxIdlInstructionAccountView>,
    k: int,
    program_id: Seq<u8>,
    payload: ToolboxIdlValueView,
    base: Seq<(Seq<char>, Seq<u8>)>,
    states: Seq<(Seq<char>, ToolboxIdlValueView)>,
    content_types: Seq<(Seq<char>, ToolboxIdlTypeFullView)>,
) -> Seq<(Seq<char>, Seq<u8>)>
    decreases k,
{
    if k <= 0 {
        base
    } else {
        let prev = spec_find_addresses(
            accounts,
            k - 1,
            program_id,
            payload,
            base,
            states,
            content_types,
        );
        match spec_find_address(
            accounts[k - 1],
            program_id,
            payload,
            prev,
            states,
            content_types,
        ) {
            Some(address) => prev.push((accounts[k - 1].name, address)),
            None => prev,
        }
    }
}

/// Resolves every declared account's address in one pass, in
/// declaration order; accounts that cannot be resolved yet are left
/// out. Returns exactly the mathematical single-pass resolution.
pub fn try_find_addresses(
    accounts: &Vec<ToolboxIdlInstructionAccount>,
    instruction_program_id: &ToolboxIdlPubkey,
    instruction_payload: &ToolboxIdlValue,
    instruction_addresses: &ToolboxIdlLookup<ToolboxIdlPubkey>,
    instruction_accounts_states: &ToolboxIdlLookup<ToolboxIdlValue>,
    instruction_args_type_full_fields: &ToolboxIdlTypeFullFields,
    instruction_accounts_contents_type_full: &ToolboxIdlLookup<ToolboxIdlTypeFull>,
) -> (r: ToolboxIdlLookup<ToolboxIdlPubkey>)
    requires
        instruction_program_id.spec_wf(),
    ensures
        r@ == spec_find_addresses(
            Seq::new(accounts@.len(), |i: int| accounts@[i]@),
            accounts@.len() as int,
            instruction_program_id@,
            instruction_payload@,
            instruction_addresses@,
            instruction_accounts_states@,
            instruction_accounts_contents_type_full@,
        ),
{
    let ghost accounts_view = Seq::new(accounts@.len(), |i: int| accounts@[i]@);
    let mut resolved: ToolboxIdlLookup<ToolboxIdlPubkey> = ToolboxIdlLookup::new();
    let mut i: usize = 0;
    while i < instruction_addresses.entries.len()
        invariant
            0 <= i <= instruction_addresses.entries@.len(),
            resolved@ =~= instruction_addresses@.take(i as int),
        decreases instruction_addresses.entries@.len() - i,
    {
        let entry = &instruction_addresses.entries[i];
        resolved.insert(entry.0.clone(), entry.1.clone());
        proof {
            assert(resolved@ =~= instruction_addresses@.take(i + 1));
        }
        i += 1;
    }
    proof {
        assert(instruction_addresses@.take(instruction_addresses@.len() as int)
            =~= instruction_addresses@);
        assert(resolved@ =~= instruction_addresses@);
    }
    let mut k: usize = 0;
    while k < accounts.len()
        invariant
            0 <= k <= accounts@.len(),
            instruction_program_id.spec_wf(),
            accounts_view == Seq::new(accounts@.len(), |i: int| accounts@[i]@),
            resolved@ == spec_find_addresses(
                accounts_view,
                k as int,
                instruction_program_id@,
                instruction_payload@,
                instruction_addresses@,
                instruction_accounts_states@,
                instruction_accounts_contents_type_full@,
            ),
        decreases accounts@.len() - k,
    {
        let account = &accounts[k];
        match account.try_find(
            instruction_program_id,
            instruction_payload,
            &resolved,
            instruction_accounts_states,
            instruction_args_type_full_fields,
            instruction_accounts_contents_type_full,
        ) {
            Ok(address) => {
                resolved.insert(account.name.clone(), address);
            },
            Err(_) => {},
        }
        k += 1;
    }
    resolved
}

} // verus!
