//! The admin gate: a presented token is checked against the configured secrets.
use vstd::prelude::*;
use crate::response::{is_response, OperationResponse, Status};

verus! {

/// A configured credential: who it belongs to, and the secret itself.
#[derive(Clone, Debug)]
pub struct AdminKey {
    pub username: String,
    pub key: String,
}

pub open spec fn disabled_text() -> Seq<char> {
    "The admin interface is currently disabled"@
}

pub open spec fn invalid_key_text() -> Seq<char> {
    "Invalid key"@
}

/// Whether the admin interface is enabled: some keys are configured.
pub open spec fn admin_enabled(keys: Option<Vec<AdminKey>>) -> bool {
    keys is Some && keys->Some_0@.len() > 0
}

/// `i` is the first configured key whose secret is exactly `token`.
pub open spec fn first_match(keys: Seq<AdminKey>, token: Seq<char>, i: int) -> bool {
    &&& 0 <= i < keys.len()
    &&& keys[i].key@ == token
    &&& forall|j: int| 0 <= j < i ==> keys[j].key@ != token
}

/// Some configured key has exactly `token` as its secret.
pub open spec fn token_matches(keys: Seq<AdminKey>, token: Seq<char>) -> bool {
    exists|i: int| 0 <= i < keys.len() && keys[i].key@ == token
}

/// Admits the caller holding `auth_key` if it is exactly the secret of a
/// configured key, and yields the first such key. Without configured keys the
/// interface is disabled and every request is refused.
pub fn check_admin_permissions(admin_keys: &Option<Vec<AdminKey>>, auth_key: Option<String>) -> (r:
    Result<&AdminKey, OperationResponse>)
    ensures
        !admin_enabled(*admin_keys) ==> r is Err && is_response(
            r->Err_0,
            Status::Forbidden,
            disabled_text(),
        ),
        admin_enabled(*admin_keys) ==> {
            let keys = admin_keys->Some_0@;
            &&& r is Ok <==> (auth_key is Some && token_matches(keys, auth_key->Some_0@))
            &&& r is Err ==> is_response(r->Err_0, Status::Forbidden, invalid_key_text())
            &&& r is Ok ==> exists|i: int|
                first_match(keys, auth_key->Some_0@, i) && *r->Ok_0 == #[trigger] keys[i]
        },
{
    let keys = match admin_keys {
        Some(keys) => keys,
        None => {
            return Err(disabled_response());
        },
    };
    if keys.len() == 0 {
        return Err(disabled_response());
    }
    let unchecked_key = match auth_key {
        Some(k) => k,
        None => {
            return Err(invalid_key_response());
        },
    };
    let mut i: usize = 0;
    while i < keys.len()
        invariant
            0 <= i <= keys@.len(),
            keys@.len() > 0,
            *admin_keys == Some(*keys),
            auth_key == Some(unchecked_key),
            forall|j: int| 0 <= j < i ==> keys@[j].key@ != unchecked_key@,
        decreases keys@.len() - i,
    {
        if keys[i].key == unchecked_key {
            assert(first_match(keys@, unchecked_key@, i as int));
            return Ok(&keys[i]);
        }
        i = i + 1;
    }
    Err(invalid_key_response())
}

fn disabled_response() -> (r: OperationResponse)
    ensures
        is_response(r, Status::Forbidden, disabled_text()),
{
    OperationResponse {
        detail: None,
        status: Status::Forbidden,
        message: "The admin interface is currently disabled".to_string(),
    }
}

fn invalid_key_response() -> (r: OperationResponse)
    ensures
        is_response(r, Status::Forbidden, invalid_key_text()),
{
    OperationResponse { detail: None, status: Status::Forbidden, message: "Invalid key".to_string() }
}

} // verus!
