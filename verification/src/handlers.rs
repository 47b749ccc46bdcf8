use crate::base64url::base64_fits;
use crate::decimal::{push_signed_decimal, signed_decimal};
use crate::error::TokenserverError;
use crate::hashing::{
    device_hash, fxa_metrics_hash, hash_device_id, hash_prefix, is_hex_text, metrics_hash,
    PSEUDONYM_LEN,
};
use crate::keyid::{format_key_id, key_epoch, key_id_counter, key_id_text};
use crate::plaintext::{MakeTokenPlaintext, PlaintextFields};
use crate::tokenlib::{minted, Tokenlib};
use vstd::prelude::*;

verus! {

/// What an authenticated request asks for.
#[derive(Debug, Clone)]
pub struct TokenserverRequest {
    /// The account identifier as the provider issued it.
    pub fxa_uid: String,
    /// The generation number that the caller gave.
    pub generation: u64,
    /// The lifetime asked for, in seconds. Bounding it is the caller's part.
    pub duration: u64,
}

/// What a request holds, as mathematical values.
pub struct RequestFields {
    pub fxa_uid: Seq<char>,
    pub generation: u64,
    pub duration: u64,
}

impl View for TokenserverRequest {
    type V = RequestFields;

    open spec fn view(&self) -> RequestFields {
        RequestFields {
            fxa_uid: self.fxa_uid@,
            generation: self.generation,
            duration: self.duration,
        }
    }
}

/// The storage node that an account is assigned to, as the store gave it.
#[derive(Debug, Clone)]
pub struct NodeAssignment {
    /// Endpoint of the node.
    pub node: String,
    /// The account's numeric id on that node.
    pub uid: i64,
    /// Fingerprint of the client's key state.
    pub client_state: Vec<u8>,
    /// The epoch at which the account's keys last changed, if it is known.
    pub keys_changed_at: Option<u64>,
}

/// What a node assignment holds, as mathematical values.
pub struct AssignmentFields {
    pub node: Seq<char>,
    pub uid: i64,
    pub client_state: Seq<u8>,
    pub keys_changed_at: Option<u64>,
}

impl View for NodeAssignment {
    type V = AssignmentFields;

    open spec fn view(&self) -> AssignmentFields {
        AssignmentFields {
            node: self.node@,
            uid: self.uid,
            client_state: self.client_state@,
            keys_changed_at: self.keys_changed_at,
        }
    }
}

/// The keys that the process holds for its whole life.
#[derive(Debug, Clone)]
pub struct Secrets {
    /// The long-lived secret shared with the storage nodes.
    pub master_secret: Vec<u8>,
    /// The key under which identifiers are pseudonymised.
    pub fxa_metrics_hash_secret: Vec<u8>,
}

/// What is handed to the client.
#[derive(Debug, Clone)]
pub struct TokenserverResult {
    /// The token.
    pub id: String,
    /// The secret derived from the token.
    pub key: String,
    /// The account's numeric id on its node.
    pub uid: i64,
    /// Where the client reaches its storage.
    pub api_endpoint: String,
    /// The lifetime that was asked for, in seconds.
    pub duration: u64,
    /// Pseudonym of the account.
    pub hashed_fxa_uid: String,
}

/// What a result holds, as mathematical values.
pub struct ResultFields {
    pub id: Seq<char>,
    pub key: Seq<char>,
    pub uid: i64,
    pub api_endpoint: Seq<char>,
    pub duration: u64,
    pub hashed_fxa_uid: Seq<char>,
}

impl View for TokenserverResult {
    type V = ResultFields;

    open spec fn view(&self) -> ResultFields {
        ResultFields {
            id: self.id@,
            key: self.key@,
            uid: self.uid,
            api_endpoint: self.api_endpoint@,
            duration: self.duration,
            hashed_fxa_uid: self.hashed_fxa_uid@,
        }
    }
}

/// The key under which the store holds an account: the identifier, an at
/// sign, and the email domain.
pub open spec fn email_text(fxa_uid: Seq<char>, email_domain: Seq<char>) -> Seq<char> {
    fxa_uid + seq!['@'] + email_domain
}

/// The storage endpoint of an account on its node.
pub open spec fn endpoint_text(node: Seq<char>, uid: i64) -> Seq<char> {
    node + "/1.5/"@ + signed_decimal(uid as int)
}

/// The pseudonym of an account: the first characters of its full pseudonym.
pub open spec fn account_pseudonym(fxa_uid: Seq<char>, hash_key: Seq<u8>) -> Option<Seq<char>> {
    match metrics_hash(fxa_uid, hash_key) {
        Some(full) => Some(full.subrange(0, PSEUDONYM_LEN as int)),
        None => None,
    }
}

/// The pseudonym of the device of an account. No device is known where
/// credentials are minted, so that each account has the one device `none`.
pub open spec fn device_pseudonym(hashed_fxa_uid: Seq<char>, hash_key: Seq<u8>) -> Option<
    Seq<char>,
> {
    device_hash(hashed_fxa_uid, "none"@, hash_key)
}

/// The plaintext of the credential that answers a request, or the error with
/// which none is built: `LookupNotFound` where the account has no node,
/// `ClockUnavailable` where the time is not known, `Transform` where the
/// keyed hash turns the key down.
pub open spec fn plaintext_for(
    request: RequestFields,
    assignment: Option<AssignmentFields>,
    hash_key: Seq<u8>,
    now: Option<u64>,
) -> Result<PlaintextFields, TokenserverError> {
    match (assignment, now) {
        (None, _) => Err(TokenserverError::LookupNotFound),
        (Some(_), None) => Err(TokenserverError::ClockUnavailable),
        (Some(assigned), Some(time)) => match account_pseudonym(request.fxa_uid, hash_key) {
            None => Err(TokenserverError::Transform),
            Some(hashed_fxa_uid) => match device_pseudonym(hashed_fxa_uid, hash_key) {
                None => Err(TokenserverError::Transform),
                Some(hashed_device_id) => Ok(
                    PlaintextFields {
                        node: assigned.node,
                        fxa_kid: key_id_text(
                            key_epoch(assigned.keys_changed_at, request.generation),
                            assigned.client_state,
                        ),
                        fxa_uid: request.fxa_uid,
                        hashed_device_id,
                        hashed_fxa_uid,
                        expires: (time + request.duration) as u64,
                        uid: assigned.uid,
                    },
                ),
            },
        },
    }
}

/// What is handed out for a minted credential.
pub open spec fn assembled(
    token: Seq<char>,
    key: Seq<char>,
    node: Seq<char>,
    uid: i64,
    duration: u64,
    hashed_fxa_uid: Seq<char>,
) -> ResultFields {
    ResultFields {
        id: token,
        key,
        uid,
        api_endpoint: endpoint_text(node, uid),
        duration,
        hashed_fxa_uid,
    }
}

/// The answer to a request: the error with which no plaintext is built,
/// `Configuration` where the shared secret mints nothing, and else what is
/// assembled from the minted credential.
pub open spec fn response_for(
    request: RequestFields,
    assignment: Option<AssignmentFields>,
    hash_key: Seq<u8>,
    shared_secret: Seq<u8>,
    now: Option<u64>,
) -> Result<ResultFields, TokenserverError> {
    match plaintext_for(request, assignment, hash_key, now) {
        Err(e) => Err(e),
        Ok(plaintext) => match minted(shared_secret, plaintext) {
            None => Err(TokenserverError::Configuration),
            Some((token, key)) => Ok(
                assembled(
                    token,
                    key,
                    plaintext.node,
                    plaintext.uid,
                    request.duration,
                    plaintext.hashed_fxa_uid,
                ),
            ),
        },
    }
}

/// The view of an assignment that may be missing.
pub open spec fn assignment_fields(assignment: Option<&NodeAssignment>) -> Option<
    AssignmentFields,
> {
    match assignment {
        Some(assigned) => Some(assigned@),
        None => None,
    }
}

/// Whether the expiry of a credential minted at `now` fits in 64 bits.
pub open spec fn expiry_fits(now: Option<u64>, duration: u64) -> bool {
    now matches Some(time) ==> time + duration <= u64::MAX
}

/// Whether the client state of an assignment is short enough to be encoded.
pub open spec fn client_state_fits(assignment: Option<AssignmentFields>) -> bool {
    assignment matches Some(assigned) ==> base64_fits(assigned.client_state.len())
}

/// Tells whether a request can be answered within the limits of the machine:
/// whether the expiry fits in 64 bits and the client state can be encoded.
pub fn can_answer(
    request: &TokenserverRequest,
    assignment: Option<&NodeAssignment>,
    now: Option<u64>,
) -> (ok: bool)
    ensures
        ok == (expiry_fits(now, request.duration) && client_state_fits(
            assignment_fields(assignment),
        )),
{
    let expiry_ok = match now {
        Some(time) => request.duration <= u64::MAX - time,
        None => true,
    };
    let state_ok = match assignment {
        Some(assigned) => assigned.client_state.len() / 3 <= (usize::MAX - 3) / 4,
        None => true,
    };
    expiry_ok && state_ok
}

/// The key under which the store holds an account.
pub fn user_email(fxa_uid: &str, email_domain: &str) -> (email: String)
    ensures
        email@ == email_text(fxa_uid@, email_domain@),
{
    let mut email = String::from_str(fxa_uid);
    email.push('@');
    email.append(email_domain);
    email
}

/// The storage endpoint of an account on its node.
pub fn api_endpoint(node: &str, uid: i64) -> (endpoint: String)
    ensures
        endpoint@ == endpoint_text(node@, uid),
{
    let mut endpoint = String::from_str(node);
    endpoint.append("/1.5/");
    push_signed_decimal(&mut endpoint, uid);
    endpoint
}

/// Builds the plaintext of the credential that answers a request: the key-id
/// from the later of the two epochs and the client state, the expiry from the
/// time and the lifetime asked for, and the two pseudonyms.
pub fn make_token_plaintext(
    request: &TokenserverRequest,
    assignment: Option<&NodeAssignment>,
    hash_key: &[u8],
    now: Option<u64>,
) -> (out: Result<MakeTokenPlaintext, TokenserverError>)
    requires
        expiry_fits(now, request.duration),
        client_state_fits(assignment_fields(assignment)),
    ensures
        match out {
            Ok(plaintext) => plaintext_for(request@, assignment_fields(assignment), hash_key@, now)
                == Ok::<PlaintextFields, TokenserverError>(plaintext@) && is_hex_text(
                plaintext.hashed_fxa_uid@,
                PSEUDONYM_LEN as nat,
            ) && is_hex_text(plaintext.hashed_device_id@, PSEUDONYM_LEN as nat)
                && plaintext.expires == now.unwrap() + request.duration,
            Err(e) => plaintext_for(request@, assignment_fields(assignment), hash_key@, now)
                == Err::<PlaintextFields, TokenserverError>(e),
        },
        out is Ok <==> assignment is Some && now is Some,
{
    let assigned = match assignment {
        Some(assigned) => assigned,
        None => {
            return Err(TokenserverError::LookupNotFound);
        },
    };
    let time = match now {
        Some(time) => time,
        None => {
            return Err(TokenserverError::ClockUnavailable);
        },
    };
    let counter = key_id_counter(assigned.keys_changed_at, request.generation);
    let fxa_kid = format_key_id(counter, assigned.client_state.as_slice());
    let expires = time + request.duration;
    let hashed_fxa_uid = match fxa_metrics_hash(request.fxa_uid.as_str(), hash_key) {
        Ok(full) => hash_prefix(full.as_str()),
        Err(e) => {
            return Err(e);
        },
    };
    let hashed_device_id = match hash_device_id(hashed_fxa_uid.as_str(), "none", hash_key) {
        Ok(hashed) => hashed,
        Err(e) => {
            return Err(e);
        },
    };
    Ok(
        MakeTokenPlaintext {
            node: assigned.node.clone(),
            fxa_kid,
            fxa_uid: request.fxa_uid.clone(),
            hashed_device_id,
            hashed_fxa_uid,
            expires,
            uid: assigned.uid,
        },
    )
}

/// Puts together what is handed to the client for a minted credential.
pub fn assemble_result(
    token: String,
    key: String,
    node: &str,
    uid: i64,
    duration: u64,
    hashed_fxa_uid: String,
) -> (out: TokenserverResult)
    ensures
        out@ == assembled(token@, key@, node@, uid, duration, hashed_fxa_uid@),
{
    TokenserverResult {
        id: token,
        key,
        uid,
        api_endpoint: api_endpoint(node, uid),
        duration,
        hashed_fxa_uid,
    }
}

/// Answers a request for a credential: builds the plaintext from the request
/// and the account's node assignment, mints the token and its secret under
/// the shared secret, and assembles what is handed to the client.
pub fn get_tokenserver_result(
    request: &TokenserverRequest,
    assignment: Option<&NodeAssignment>,
    secrets: &Secrets,
    now: Option<u64>,
) -> (out: Result<TokenserverResult, TokenserverError>)
    requires
        expiry_fits(now, request.duration),
        client_state_fits(assignment_fields(assignment)),
    ensures
        match out {
            Ok(result) => response_for(
                request@,
                assignment_fields(assignment),
                secrets.fxa_metrics_hash_secret@,
                secrets.master_secret@,
                now,
            ) == Ok::<ResultFields, TokenserverError>(result@) && is_hex_text(
                result.hashed_fxa_uid@,
                PSEUDONYM_LEN as nat,
            ),
            Err(e) => response_for(
                request@,
                assignment_fields(assignment),
                secrets.fxa_metrics_hash_secret@,
                secrets.master_secret@,
                now,
            ) == Err::<ResultFields, TokenserverError>(e),
        },
        out is Ok <==> assignment is Some && now is Some && secrets.master_secret@.len() > 0,
{
    let plaintext = match make_token_plaintext(
        request,
        assignment,
        secrets.fxa_metrics_hash_secret.as_slice(),
        now,
    ) {
        Ok(plaintext) => plaintext,
        Err(e) => {
            return Err(e);
        },
    };
    let node = plaintext.node.clone();
    let uid = plaintext.uid;
    let hashed_fxa_uid = plaintext.hashed_fxa_uid.clone();
    match Tokenlib::get_token_and_derived_secret(plaintext, secrets.master_secret.as_slice()) {
        Ok((token, key)) => Ok(
            assemble_result(token, key, node.as_str(), uid, request.duration, hashed_fxa_uid),
        ),
        Err(e) => Err(e),
    }
}

/// The health of the service, as it is reported.
#[derive(Debug, Clone)]
pub struct HeartbeatReport {
    /// The HTTP status of the report.
    pub status_code: u16,
    /// What was checked, by name, in the order in which it was noted.
    pub checklist: Vec<(String, String)>,
}

/// The entries of a checklist, each name and value as its characters.
pub open spec fn checklist_entries(checklist: Seq<(String, String)>) -> Seq<
    (Seq<char>, Seq<char>),
> {
    Seq::new(checklist.len(), |i: int| (checklist[i].0@, checklist[i].1@))
}

/// The HTTP status of a report: 200 where the store answered its check,
/// whatever the answer, and 503 where the check itself failed.
pub open spec fn heartbeat_status(database: Option<bool>) -> u16 {
    match database {
        Some(_) => 200,
        None => 503,
    }
}

/// The checklist of a report: the version, and the state of the store as its
/// check gave it.
pub open spec fn heartbeat_checklist(version: Seq<char>, database: Option<bool>) -> Seq<
    (Seq<char>, Seq<char>),
> {
    match database {
        Some(true) => seq![("version"@, version), ("database"@, "Ok"@), ("status"@, "Ok"@)],
        Some(false) => seq![
            ("version"@, version),
            ("database"@, "Err"@),
            ("database_msg"@, "check failed without error"@),
            ("status"@, "Err"@),
        ],
        None => seq![("version"@, version), ("status"@, "Err"@), ("database"@, "Unknown"@)],
    }
}

/// Whether no name occurs twice in a checklist.
pub open spec fn names_differ(entries: Seq<(Seq<char>, Seq<char>)>) -> bool {
    forall|i: int, j: int| 0 <= i < j < entries.len() ==> entries[i].0 != entries[j].0
}

/// Notes `value` under `name` at the end of a checklist.
fn note(checklist: &mut Vec<(String, String)>, name: &str, value: &str)
    ensures
        checklist_entries(final(checklist)@) == checklist_entries(old(checklist)@).push(
            (name@, value@),
        ),
{
    checklist.push((String::from_str(name), String::from_str(value)));
    assert(checklist_entries(checklist@) =~= checklist_entries(old(checklist)@).push(
        (name@, value@),
    ));
}

/// Reports the health of the service from its version and the outcome of the
/// store's check: `Some` with what the check answered, `None` where the
/// check itself failed.
pub fn heartbeat(version: &str, database: Option<bool>) -> (report: HeartbeatReport)
    ensures
        report.status_code == heartbeat_status(database),
        checklist_entries(report.checklist@) == heartbeat_checklist(version@, database),
        names_differ(checklist_entries(report.checklist@)),
{
    let mut checklist: Vec<(String, String)> = Vec::new();
    assert(checklist_entries(checklist@) =~= Seq::empty());
    note(&mut checklist, "version", version);
    let status_code: u16 = match database {
        Some(passed) => {
            if passed {
                note(&mut checklist, "database", "Ok");
            } else {
                note(&mut checklist, "database", "Err");
                note(&mut checklist, "database_msg", "check failed without error");
            }
            note(&mut checklist, "status", if passed {
                "Ok"
            } else {
                "Err"
            });
            200
        },
        None => {
            note(&mut checklist, "status", "Err");
            note(&mut checklist, "database", "Unknown");
            503
        },
    };
    proof {
        reveal_strlit("version");
        reveal_strlit("database");
        reveal_strlit("database_msg");
        reveal_strlit("status");
        assert("version"@.len() == 7 && "database"@.len() == 8 && "database_msg"@.len() == 12
            && "status"@.len() == 6);
        let entries = checklist_entries(checklist@);
        assert(entries =~= heartbeat_checklist(version@, database));
        assert forall|i: int, j: int| 0 <= i < j < entries.len() implies entries[i].0
            != entries[j].0 by {
            assert(entries[i].0.len() != entries[j].0.len());
        }
    }
    HeartbeatReport { status_code, checklist }
}

} // verus!
