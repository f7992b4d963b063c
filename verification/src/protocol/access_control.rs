use vstd::prelude::*;

use crate::access_list::AccessList;
use crate::endpoint::EndpointId;
use crate::status::Status;
use vstd::utf8::{decode_utf8, valid_utf8};

verus! {

/// A request for one file of a resource, with the number of times it may
/// still be passed on to another peer.
#[derive(Debug)]
pub struct Request {
    /// How many more times the request may be forwarded; spent through
    /// `decrement_attempts`.
    pub retry_attempts: u8,
    pub resource: String,
    pub filename: String,
}

/// One step of the retry budget: one less, never below zero.
pub open spec fn decremented(n: u8) -> u8 {
    if n > 0 {
        (n - 1) as u8
    } else {
        0
    }
}

/// The retry budget after `k` decrements starting from `n`.
pub open spec fn attempts_after(n: u8, k: nat) -> u8
    decreases k,
{
    if k == 0 {
        n
    } else {
        decremented(attempts_after(n, (k - 1) as nat))
    }
}

impl Request {
    pub fn new(retry_attempts: u8, resource: String, filename: String) -> (r: Request)
        ensures
            r.retry_attempts == retry_attempts,
            r.resource == resource,
            r.filename == filename,
    {
        Request { retry_attempts, resource, filename }
    }

    pub fn retry_attempts(&self) -> (n: u8)
        ensures
            n == self.retry_attempts,
    {
        self.retry_attempts
    }

    /// Spends one retry (saturating at zero) and returns what is left.
    pub fn decrement_attempts(&mut self) -> (left: u8)
        ensures
            final(self).retry_attempts == decremented(old(self).retry_attempts),
            left == final(self).retry_attempts,
            final(self).resource == old(self).resource,
            final(self).filename == old(self).filename,
    {
        self.retry_attempts = self.retry_attempts.saturating_sub(1);
        self.retry_attempts
    }
}

/// `k` decrements take `n` retries down to `n - k`, and to zero once `k`
/// reaches `n`; after that the budget stays at zero.
pub proof fn lemma_attempts_after(n: u8, k: nat)
    ensures
        attempts_after(n, k) == (if k >= n { 0 } else { n - k }),
    decreases k,
{
    if k > 0 {
        lemma_attempts_after(n, (k - 1) as nat);
    }
}

/// The answer to a request from `peer` for a resource whose access list
/// was looked up (`None`: no list was found): no list means the resource is
/// unknown, a list without the peer means the request is denied, and only a
/// listed peer may go on.
pub open spec fn access_answer(members: Option<Set<EndpointId>>, peer: EndpointId) -> Result<(), Status> {
    match members {
        None => Err(Status::ResourceNotFound),
        Some(m) => if m.contains(peer) {
            Ok(())
        } else {
            Err(Status::Denied)
        },
    }
}

/// The members of a looked-up access list.
pub open spec fn members_of(access_list: Option<&AccessList>) -> Option<Set<EndpointId>> {
    match access_list {
        None => None,
        Some(list) => Some(list@),
    }
}

/// Decides a request from `peer` against the resource's access list.
pub fn check_access(access_list: Option<&AccessList>, peer: &EndpointId) -> (r: Result<(), Status>)
    ensures
        r == access_answer(members_of(access_list), *peer),
{
    match access_list {
        None => Err(Status::ResourceNotFound),
        Some(list) => {
            if list.contains(peer) {
                Ok(())
            } else {
                Err(Status::Denied)
            }
        },
    }
}

/// Whether the status byte that an upstream peer answered lets the file
/// follow: only the byte of `Allowed` does.
pub fn upstream_accepted(status_byte: u8) -> (r: bool)
    ensures
        r == (status_byte == Status::Allowed.spec_code()),
        r == (Status::spec_from_code(status_byte) == Status::Allowed),
{
    status_byte == Status::Allowed.code()
}

/// A request passes the access check only for a peer on the resource's list;
/// every other request is answered with `Denied` or `ResourceNotFound`, and a
/// client that reads that answer does not go on to read a file.
pub proof fn lemma_access_only_for_members(members: Option<Set<EndpointId>>, peer: EndpointId)
    ensures
        access_answer(members, peer) is Ok <==> (members matches Some(m) && m.contains(peer)),
        access_answer(members, peer) matches Err(s) ==> (s == Status::Denied || s
            == Status::ResourceNotFound) && !upstream_accepts_status(s),
{
}

/// Whether a receiver that reads the byte of `s` goes on to read the file.
pub open spec fn upstream_accepts_status(s: Status) -> bool {
    Status::spec_from_code(s.spec_code()) == Status::Allowed
}

/// Of all statuses a server writes, a client reads on only after `Allowed`.
pub proof fn lemma_only_allowed_is_accepted(s: Status)
    ensures
        upstream_accepts_status(s) <==> s == Status::Allowed,
{
}

/// How a download through the HTTP front ended.
#[derive(Debug, Clone, Copy, PartialEq, Eq, Structural)]
pub enum DownloadOutcome {
    /// The file was fetched and is sent back.
    Served,
    /// No file came back: the request was refused or the file did not match.
    Refused,
    /// The fetch failed with an error.
    Failed,
}

/// The HTTP status code that answers a download: 200 for a served file, 403
/// for a refused one, 404 for a failed fetch.
pub fn download_status_code(outcome: DownloadOutcome) -> (code: u16)
    ensures
        code == match outcome {
            DownloadOutcome::Served => 200u16,
            DownloadOutcome::Refused => 403u16,
            DownloadOutcome::Failed => 404u16,
        },
{
    match outcome {
        DownloadOutcome::Served => 200,
        DownloadOutcome::Refused => 403,
        DownloadOutcome::Failed => 404,
    }
}

/// Calls `String::from_utf8`, which takes the bytes as they are when they are
/// well-formed UTF-8 and fails otherwise.
#[verifier::external_body]
fn utf8_string(bytes: Vec<u8>) -> (s: Option<String>)
    ensures
        s is Some <==> valid_utf8(bytes@),
        s matches Some(text) ==> text@ == decode_utf8(bytes@),
{
    String::from_utf8(bytes).ok()
}

/// The resource that a key of a shared access-list document names: the key
/// read as UTF-8 text, or nothing when it is not UTF-8 (the import fails).
pub fn resource_of_key(key: Vec<u8>) -> (resource: Option<String>)
    ensures
        resource is Some <==> valid_utf8(key@),
        resource matches Some(r) ==> r@ == decode_utf8(key@),
{
    utf8_string(key)
}

/// The answer to a request is decided by membership alone: with no list the
/// resource is unknown; with a list, whatever else it holds, a listed peer
/// goes on and any other peer is denied.
pub proof fn lemma_access_answer_exact(members: Option<Set<EndpointId>>, peer: EndpointId)
    ensures
        members is None ==> access_answer(members, peer) == Err::<(), Status>(Status::ResourceNotFound),
        members matches Some(m) && m.contains(peer) ==> access_answer(members, peer) == Ok::<(), Status>(()),
        members matches Some(m) && !m.contains(peer) ==> access_answer(members, peer) == Err::<(), Status>(
            Status::Denied,
        ),
        access_answer(members, peer) == Err::<(), Status>(Status::ResourceNotFound) ==> members is None,
{
}

} // verus!
