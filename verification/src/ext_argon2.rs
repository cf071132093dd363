//! Assumed contracts of the calls into `argon2`, the passphrase key derivation of keystores.
use argon2::PasswordHasher;
use vstd::prelude::*;

verus! {

/// The hash output that Argon2id (version 0x13) computes with memory cost
/// `m_cost`, time cost `t_cost`, parallelism `p_cost` and a 32-byte output
/// length, for `password` and the B64 salt text `salt`; `None` when the
/// parameters or the salt are refused.
pub uninterp spec fn argon2id_output(
    m_cost: u32,
    t_cost: u32,
    p_cost: u32,
    password: Seq<u8>,
    salt: Seq<char>,
) -> Option<Seq<u8>>;

/// Calls `SaltString::generate` with the operating system's random source
/// and returns its text. The salt is random: nothing is claimed of it.
#[verifier::external_body]
pub(crate) fn argon2_generate_salt() -> String {
    argon2::password_hash::SaltString::generate(&mut argon2::password_hash::rand_core::OsRng)
        .to_string()
}

/// Calls `SaltString::from_b64` on `salt`, `Params::new` with the costs and
/// a 32-byte output, then `hash_password` of an Argon2id (version 0x13)
/// hasher, and returns the hash output (`None` when the hash has none), or
/// the text of the first step's error. Claims: a hash output is the named
/// result; an error or a missing output means the named result is `None`.
/// Nothing is claimed of the error text. `Params::new` computes
/// `p_cost * 8` in `u32` once `m_cost` is at least 8, which overflows for a
/// larger `p_cost`; those inputs are left out. The memory that the hash
/// allocates grows with `m_cost`; that allocation failing aborts, which is
/// not stated.
#[verifier::external_body]
pub(crate) fn argon2id_hash(
    m_cost: u32,
    t_cost: u32,
    p_cost: u32,
    password: &[u8],
    salt: &str,
) -> (r: Result<Option<Vec<u8>>, String>)
    requires
        m_cost < 8 || p_cost <= 0x1fff_ffff,
    ensures
        r matches Ok(Some(v)) ==> argon2id_output(m_cost, t_cost, p_cost, password@, salt@) == Some(
            v@,
        ),
        !(r matches Ok(Some(_))) ==> argon2id_output(m_cost, t_cost, p_cost, password@, salt@) is None,
{
    let salt = match argon2::password_hash::SaltString::from_b64(salt) {
        Ok(s) => s,
        Err(e) => return Err(e.to_string()),
    };
    let params = match argon2::Params::new(m_cost, t_cost, p_cost, Some(32)) {
        Ok(p) => p,
        Err(e) => return Err(e.to_string()),
    };
    let hasher = argon2::Argon2::new(argon2::Algorithm::Argon2id, argon2::Version::V0x13, params);
    match hasher.hash_password(password, &salt) {
        Ok(h) => Ok(h.hash.map(|out| out.as_bytes().to_vec())),
        Err(e) => Err(e.to_string()),
    }
}

} // verus!
