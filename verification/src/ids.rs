//! Prefixed identifiers: a kind prefix such as `usr_` followed by a CUID.

use vstd::prelude::*;
use vstd::string::StringExecFns;

verus! {

/// A fresh version-one CUID: `cuid::cuid1()`, with its error rendered as text. The crate
/// documents (and its source builds) every CUID as the letter `c` followed by base-36
/// blocks; nothing else is stated of the value, which rests on the clock, a counter and
/// randomness. The crate may panic when it cannot determine the host's fingerprint
/// (an `expect` on first use); that depends on the machine, not on any input.
#[verifier::external_body]
fn new_cuid() -> (r: Result<String, String>)
    ensures
        r matches Ok(id) ==> id@.len() > 0 && id@[0] == 'c',
{
    match cuid::cuid1() {
        Ok(id) => Ok(id),
        Err(e) => Err(e.to_string()),
    }
}

/// `id` is `prefix` followed by a CUID (text starting with `c`).
pub open spec fn is_prefixed_cuid(prefix: Seq<char>, id: Seq<char>) -> bool {
    &&& id.len() > prefix.len()
    &&& id.subrange(0, prefix.len() as int) == prefix
    &&& id[prefix.len() as int] == 'c'
}

/// `raw` behind `prefix`.
pub fn prefixed_id(prefix: &str, raw: &str) -> (id: String)
    ensures
        id@ == prefix@ + raw@,
{
    let mut id = String::from_str(prefix);
    id.append(raw);
    id
}

/// A fresh identifier: `prefix` followed by a new CUID, or the generator's error.
pub fn generate_id(prefix: &str) -> (r: Result<String, String>)
    ensures
        r matches Ok(id) ==> is_prefixed_cuid(prefix@, id@),
{
    let generated = new_cuid();
    let ghost g = generated;
    let r = prefix_generated(prefix, generated);
    proof {
        if let Ok(raw) = g {
            let id = r->Ok_0;
            assert(id@.subrange(0, prefix@.len() as int) =~= prefix@);
            assert(id@[prefix@.len() as int] == raw@[0]);
        }
    }
    r
}

/// A user ID: `usr_` and a CUID.
pub fn user_id() -> (r: Result<String, String>)
    ensures
        r matches Ok(id) ==> is_prefixed_cuid("usr_"@, id@),
{
    generate_id("usr_")
}

/// A flow session ID: `session_` and a CUID.
pub fn flow_session_id() -> (r: Result<String, String>)
    ensures
        r matches Ok(id) ==> is_prefixed_cuid("session_"@, id@),
{
    generate_id("session_")
}

/// A flow instance ID: `flow_` and a CUID.
pub fn flow_instance_id() -> (r: Result<String, String>)
    ensures
        r matches Ok(id) ==> is_prefixed_cuid("flow_"@, id@),
{
    generate_id("flow_")
}

/// A flow step ID: `step_` and a CUID.
pub fn flow_step_id() -> (r: Result<String, String>)
    ensures
        r matches Ok(id) ==> is_prefixed_cuid("step_"@, id@),
{
    generate_id("step_")
}

/// A KYC upload ID: `upload_` and a CUID.
pub fn kyc_upload_id() -> (r: Result<String, String>)
    ensures
        r matches Ok(id) ==> is_prefixed_cuid("upload_"@, id@),
{
    generate_id("upload_")
}

/// A KYC evidence ID: `evidence_` and a CUID.
pub fn kyc_evidence_id() -> (r: Result<String, String>)
    ensures
        r matches Ok(id) ==> is_prefixed_cuid("evidence_"@, id@),
{
    generate_id("evidence_")
}

/// What an identifier generation gives, from what the CUID generator gave: the CUID
/// behind `prefix`, or the generator's error unchanged.
pub fn prefix_generated(prefix: &str, generated: Result<String, String>) -> (r: Result<
    String,
    String,
>)
    ensures
        match generated {
            Ok(raw) => r matches Ok(id) && id@ == prefix@ + raw@,
            Err(e) => r == Err::<String, String>(e),
        },
{
    match generated {
        Ok(raw) => Ok(prefixed_id(prefix, raw.as_str())),
        Err(e) => Err(e),
    }
}

} // verus!
