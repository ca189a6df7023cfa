//! Project-ownership synchronisation from on-chain transfer events, and
//! the owner/address encodings the minter uses.

use vstd::prelude::*;

use crate::database::{Database, DbView};
use crate::projects::{DatabaseProject, ProjectView};
use crate::textutil::{hex_encode, spec_hex};

verus! {

/// The token id as a signed 32-bit value, when the 256-bit value (as four
/// little-endian 64-bit limbs) fits.
pub fn token_id_from_limbs(limbs: [u64; 4]) -> (r: Option<i32>)
    ensures
        r is Some <==> limbs[1] == 0 && limbs[2] == 0 && limbs[3] == 0 && limbs[0] <= i32::MAX,
        r matches Some(v) ==> v == limbs[0],
{
    if limbs[1] == 0 && limbs[2] == 0 && limbs[3] == 0 && limbs[0] <= i32::MAX as u64 {
        Some(limbs[0] as i32)
    } else {
        None
    }
}

/// Whether an address is the zero address.
pub fn is_zero_address(addr: &[u8; 20]) -> (r: bool)
    ensures
        r == forall|i: int| 0 <= i < 20 ==> addr[i] == 0,
{
    let mut i: usize = 0;
    while i < 20
        invariant
            0 <= i <= 20,
            forall|j: int| 0 <= j < i ==> addr[j] == 0,
        decreases 20 - i,
    {
        if addr[i] != 0 {
            return false;
        }
        i = i + 1;
    }
    true
}

/// The owner string for an address: `eth:` followed by the lowercase hex
/// of its 20 bytes.
pub fn owner_from_address(addr: &[u8; 20]) -> (r: String)
    ensures
        r@ == "eth:"@ + spec_hex(addr@),
{
    let hex = hex_encode(addr.as_slice());
    "eth:".to_owned().concat(hex.as_str())
}

/// The store after one transfer event: untouched for a mint from the zero
/// address, an overflowing token id, or an unknown project; otherwise the
/// matching project's owner rewritten.
pub open spec fn spec_apply_transfer(
    dv: DbView,
    from_zero: bool,
    new_owner: Seq<char>,
    token: Option<int>,
) -> DbView {
    if from_zero {
        dv
    } else {
        match token {
            None => dv,
            Some(t) => DbView {
                projects: dv.projects.map_values(
                    |p: ProjectView|
                        if p.id == t {
                            ProjectView { owner: new_owner, ..p }
                        } else {
                            p
                        },
                ),
                ..dv
            },
        }
    }
}

/// What handling a transfer event did.
#[derive(Debug, PartialEq, Eq, Structural, Clone, Copy)]
pub enum TransferOutcome {
    /// The transfer came from the zero address: a fresh mint, the store is
    /// already authoritative.
    Minted,
    /// The token id does not fit in 32 bits; the event is dropped.
    InvalidTokenId,
    /// No project has this token id; the event is dropped.
    ProjectMissing,
    /// The project's owner was rewritten.
    OwnerUpdated,
}

/// Handles one transfer event: rewrites the ownership of the project whose
/// id is the token id, unless the event is a fresh mint, the id overflows,
/// or the project is unknown.
pub fn handle_transfer(db: &mut Database, from: &[u8; 20], to: &[u8; 20], token: [u64; 4]) -> (r:
    TransferOutcome)
    requires
        old(db).wf(),
    ensures
        final(db).wf(),
        ({
            let from_zero = forall|i: int| 0 <= i < 20 ==> from[i] == 0;
            let token_opt = if token[1] == 0 && token[2] == 0 && token[3] == 0 && token[0]
                <= i32::MAX {
                Some(token[0] as int)
            } else {
                None
            };
            &&& final(db)@ == spec_apply_transfer(
                old(db)@,
                from_zero,
                "eth:"@ + spec_hex(to@),
                token_opt,
            )
            &&& (r == TransferOutcome::Minted <==> from_zero)
            &&& (r == TransferOutcome::InvalidTokenId <==> !from_zero && token_opt is None)
            &&& (r == TransferOutcome::ProjectMissing <==> !from_zero && token_opt is Some && !(
            exists|i: int|
                0 <= i < old(db)@.projects.len() && (#[trigger] old(db)@.projects[i]).id
                    == token_opt->0))
            &&& (r == TransferOutcome::OwnerUpdated <==> !from_zero && token_opt is Some && (
            exists|i: int|
                0 <= i < old(db)@.projects.len() && (#[trigger] old(db)@.projects[i]).id
                    == token_opt->0))
        }),
{
    if is_zero_address(from) {
        return TransferOutcome::Minted;
    }
    let token_id = match token_id_from_limbs(token) {
        Some(t) => t,
        None => {
            return TransferOutcome::InvalidTokenId;
        },
    };
    let project = match DatabaseProject::get_by_id(db, token_id) {
        Some(p) => p,
        None => {
            proof {
                assert(db@.projects =~= db@.projects.map_values(
                    |p: ProjectView|
                        if p.id == token_id as int {
                            ProjectView { owner: "eth:"@ + spec_hex(to@), ..p }
                        } else {
                            p
                        },
                ));
                assert(db@ =~~= spec_apply_transfer(
                    old(db)@,
                    false,
                    "eth:"@ + spec_hex(to@),
                    Some(token_id as int),
                ));
            }
            return TransferOutcome::ProjectMissing;
        },
    };
    let mut project = project;
    let ghost orig = project@;
    let owner = owner_from_address(to);
    project.update_owner(db, owner);
    proof {
        let target = spec_apply_transfer(
            old(db)@,
            false,
            "eth:"@ + spec_hex(to@),
            Some(token_id as int),
        );
        assert forall|i: int| 0 <= i < old(db)@.projects.len() implies db@.projects[i]
            == target.projects[i] by {
            let pre = old(db)@.projects;
            if pre[i].name == orig.name {
                assert(pre.contains(orig));
                let k = choose|k: int| 0 <= k < pre.len() && pre[k] == orig;
                if k != i {
                    assert(pre[k].name != pre[i].name);
                }
                assert(pre[i] == orig);
            } else {
                if pre[i].id == token_id as int {
                    assert(pre.contains(orig));
                    let k = choose|k: int| 0 <= k < pre.len() && pre[k] == orig;
                    if k != i {
                        if k < i {
                            assert(pre[k].id < pre[i].id);
                        } else {
                            assert(pre[i].id < pre[k].id);
                        }
                    }
                    assert(false);
                }
            }
        }
        assert(db@.projects =~= target.projects);
        assert(db@ =~~= target);
    }
    TransferOutcome::OwnerUpdated
}

/// Transfer idempotence: replaying the same transfer event leaves the
/// store exactly as one application left it.
pub proof fn lemma_transfer_idempotent(
    dv: DbView,
    from_zero: bool,
    new_owner: Seq<char>,
    token: Option<int>,
)
    ensures
        spec_apply_transfer(
            spec_apply_transfer(dv, from_zero, new_owner, token),
            from_zero,
            new_owner,
            token,
        ) == spec_apply_transfer(dv, from_zero, new_owner, token),
{
    if !from_zero && token is Some {
        let once = spec_apply_transfer(dv, from_zero, new_owner, token);
        let twice = spec_apply_transfer(once, from_zero, new_owner, token);
        assert(twice.projects =~= once.projects);
        assert(twice =~~= once);
    }
}

/// The hex form of an owner string: the `eth:` prefix replaced by `0x`,
/// ready for address parsing.
pub fn owner_eth_to_hex(owner: &str) -> (r: String)
    requires
        owner@.len() >= 4,
        owner@.subrange(0, 4) == "eth:"@,
    ensures
        r@ == "0x"@ + owner@.skip(4),
{
    let chars = crate::textutil::str_to_chars(owner);
    let mut out: Vec<char> = crate::textutil::str_to_chars("0x");
    let n = chars.len();
    let mut i: usize = 4;
    while i < n
        invariant
            n == chars@.len(),
            chars@ == owner@,
            n >= 4,
            4 <= i <= n,
            out@ == "0x"@ + owner@.subrange(4, i as int),
        decreases n - i,
    {
        out.push(chars[i]);
        proof {
            assert("0x"@ + owner@.subrange(4, i + 1) =~= ("0x"@ + owner@.subrange(4, i as int)).push(
                owner@[i as int],
            ));
        }
        i = i + 1;
    }
    proof {
        assert(owner@.subrange(4, owner@.len() as int) =~= owner@.skip(4));
    }
    crate::textutil::chars_to_string(&out)
}

} // verus!
