//! The list of configured servers: adding or replacing one by id, removing
//! one, and the passwords as stored and as shown.
use vstd::prelude::*;
use vstd::string::*;
use vstd::utf8::encode_utf8;
use crate::chain::ServerConfig;
use crate::crypto::{
    aes_gcm_sealed, base64_text, decrypt_error, decrypt_password, decrypted, encrypt_password,
    ENCRYPTION_KEY, NONCE_LEN,
};

verus! {

/// Everything that is saved about the configured servers.
pub struct ServerStore {
    pub servers: Vec<ServerConfig>,
}

pub open spec fn has_id(s: Seq<ServerConfig>, id: Seq<char>) -> bool {
    exists|k: int| 0 <= k < s.len() && (#[trigger] s[k]).id@ == id
}

/// Position `k` holds the first server whose id is `id`.
pub open spec fn first_with_id(s: Seq<ServerConfig>, id: Seq<char>, k: int) -> bool {
    &&& 0 <= k < s.len()
    &&& s[k].id@ == id
    &&& forall|j: int| 0 <= j < k ==> (#[trigger] s[j]).id@ != id
}

/// The first server whose id is `id`, if any: it is replaced in place, or
/// else the new server goes to the end.
pub fn upsert_server(servers: &mut Vec<ServerConfig>, server: ServerConfig)
    ensures
        has_id(old(servers)@, server.id@) ==> exists|k: int|
            #![trigger old(servers)@[k]]
            first_with_id(old(servers)@, server.id@, k) && final(servers)@ == old(servers)@.update(
                k,
                server,
            ),
        !has_id(old(servers)@, server.id@) ==> final(servers)@ == old(servers)@.push(server),
{
    let mut i: usize = 0;
    while i < servers.len()
        invariant
            i <= servers.len(),
            servers@ == old(servers)@,
            forall|j: int| 0 <= j < i ==> (#[trigger] servers@[j]).id@ != server.id@,
        decreases servers.len() - i,
    {
        if servers[i].id == server.id {
            let ghost before = servers@;
            servers.set(i, server);
            assert(before[i as int].id@ == server.id@);
            return;
        }
        i = i + 1;
    }
    servers.push(server);
}

/// The servers whose id is not `id`, in order.
pub open spec fn without_id(s: Seq<ServerConfig>, id: Seq<char>) -> Seq<ServerConfig>
    decreases s.len(),
{
    if s.len() == 0 {
        seq![]
    } else if s.last().id@ == id {
        without_id(s.drop_last(), id)
    } else {
        without_id(s.drop_last(), id).push(s.last())
    }
}

pub fn remove_server(servers: Vec<ServerConfig>, id: &str) -> (r: Vec<ServerConfig>)
    ensures
        r@ == without_id(servers@, id@),
{
    let key = String::from_str(id);
    let mut r: Vec<ServerConfig> = Vec::new();
    let mut rest = servers;
    while rest.len() > 0
        invariant
            rest@.len() <= servers@.len(),
            key@ == id@,
            rest@ == servers@.skip(servers@.len() - rest@.len()),
            r@ == without_id(servers@.take(servers@.len() - rest@.len()), id@),
        decreases rest.len(),
    {
        let ghost n = servers@.len() - rest@.len();
        assert(servers@.take(n + 1).drop_last() =~= servers@.take(n));
        let s = rest.remove(0);
        assert(s == servers@[n]);
        assert(rest@ =~= servers@.skip(n + 1));
        if s.id != key {
            r.push(s);
        }
    }
    assert(servers@.take(servers@.len() as int) =~= servers@);
    r
}

fn with_password(s: &ServerConfig, password: String) -> (r: ServerConfig)
    ensures
        r.id == s.id,
        r.host == s.host,
        r.port == s.port,
        r.username == s.username,
        r.password == password,
        r.description == s.description,
        r.environment == s.environment,
        r.status == s.status,
{
    ServerConfig {
        id: s.id.clone(),
        host: s.host.clone(),
        port: s.port,
        username: s.username.clone(),
        password,
        description: s.description.clone(),
        environment: s.environment.clone(),
        status: s.status.clone(),
    }
}

/// The server as it is stored: the same, with its password encrypted (an
/// empty one stays empty), such that it is shown again as the password. It
/// fails only when the encryption does.
pub fn for_storage(server: &ServerConfig) -> (r: Result<ServerConfig, String>)
    ensures
        match r {
            Ok(s) => s.id == server.id && s.host == server.host && s.port == server.port
                && s.username == server.username && s.description == server.description
                && s.environment == server.environment && s.status == server.status,
            Err(_) => server.password@.len() > 0,
        },
        server.password@.len() == 0 ==> (r matches Ok(s) && s.password@.len() == 0),
        server.password@.len() > 0 ==> (r matches Err(e) && e@ == "Failed to generate nonce"@)
            || exists|n: Seq<u8>|
            #![trigger aes_gcm_sealed(ENCRYPTION_KEY@, n, encode_utf8(server.password@))]
            n.len() == NONCE_LEN && match aes_gcm_sealed(
                ENCRYPTION_KEY@,
                n,
                encode_utf8(server.password@),
            ) {
                Some(c) => r matches Ok(s) && s.password@ == base64_text(n + c),
                None => r matches Err(e) && e@ == "Encryption failed"@,
            },
        server.password@.len() > 0 ==> (r matches Ok(s) ==> shown_password(s.password@)
            == server.password@),
{
    match encrypt_password(server.password.as_str()) {
        Ok(p) => Ok(with_password(server, p)),
        Err(e) => Err(e),
    }
}

/// The password to show for a stored one: its decryption, or the stored text
/// itself when it does not decrypt (a password saved before encryption).
pub open spec fn shown_password(stored: Seq<char>) -> Seq<char> {
    if stored.len() == 0 {
        stored
    } else if decrypt_error(stored) is None {
        decrypted(stored)
    } else {
        stored
    }
}

pub fn reveal_passwords(servers: &Vec<ServerConfig>) -> (r: Vec<ServerConfig>)
    ensures
        r@.len() == servers@.len(),
        forall|i: int|
            0 <= i < r@.len() ==> {
                &&& (#[trigger] r@[i]).password@ == shown_password(servers@[i].password@)
                &&& r@[i].id == servers@[i].id
                &&& r@[i].host == servers@[i].host
                &&& r@[i].port == servers@[i].port
                &&& r@[i].username == servers@[i].username
                &&& r@[i].description == servers@[i].description
                &&& r@[i].environment == servers@[i].environment
                &&& r@[i].status == servers@[i].status
            },
{
    let mut r: Vec<ServerConfig> = Vec::new();
    let mut i: usize = 0;
    while i < servers.len()
        invariant
            i <= servers.len(),
            r@.len() == i,
            forall|k: int|
                0 <= k < i ==> {
                    &&& (#[trigger] r@[k]).password@ == shown_password(servers@[k].password@)
                    &&& r@[k].id == servers@[k].id
                    &&& r@[k].host == servers@[k].host
                    &&& r@[k].port == servers@[k].port
                    &&& r@[k].username == servers@[k].username
                    &&& r@[k].description == servers@[k].description
                    &&& r@[k].environment == servers@[k].environment
                    &&& r@[k].status == servers@[k].status
                },
        decreases servers.len() - i,
    {
        let s = &servers[i];
        let p = match decrypt_password(s.password.as_str()) {
            Ok(p) => p,
            Err(_) => s.password.clone(),
        };
        r.push(with_password(s, p));
        i = i + 1;
    }
    r
}

} // verus!
