//! Named request transactions: built while unsent, submitted to the
//! background executor, and resolved on first access to a result.

use vstd::prelude::*;
use vstd::slice::slice_to_vec;
use vstd::string::{StringExecFns, StringSliceAdditionalSpecFns};

use crate::foreign::receive;
use crate::message::{body_bytes, header_answer, opt_bytes, RespMsg, Response};

verus! {

/// The body of an outgoing request.
pub enum ReqBody {
    Empty,
    Full(Vec<u8>),
    Stream(hyper::Body),
}

/// An outgoing request, consumed once by the exchange that performs it.
pub struct Request {
    pub url: String,
    pub method: String,
    pub headers: Vec<(String, String)>,
    pub body: ReqBody,
    pub client: reqwest::Client,
    /// Read the whole body and hand it back with the headers, rather than
    /// streaming it in chunks.
    pub buffered: bool,
}

/// The state of one named transaction.
pub enum VclTransaction {
    /// Still being built.
    Req(Request),
    /// Submitted; the reply arrives on this channel.
    Sent(tokio::sync::mpsc::Receiver<RespMsg>),
    /// Settled: the response, or the reason there is none.
    Resp(Result<Response, String>),
}

/// A transaction together with the names that key it.
pub struct Entry {
    pub client_name: String,
    pub req_name: String,
    pub transaction: VclTransaction,
}

/// The background executor: its runtime and the queue its dispatcher reads.
pub struct BgThread {
    pub rt: tokio::runtime::Runtime,
    pub sender: tokio::sync::mpsc::UnboundedSender<(Request, tokio::sync::mpsc::Sender<RespMsg>)>,
}

/// The text of the error for a transaction that is missing or not in the
/// state the operation needs.
pub open spec fn not_initialized(name: Seq<char>) -> Seq<char> {
    "reqwest: request \""@ + name + "\" isn't initialized"@
}

pub open spec fn entries_of(slot: Option<Vec<Entry>>) -> Seq<Entry> {
    match slot {
        Some(v) => v@,
        None => Seq::empty(),
    }
}

pub open spec fn has_names(e: Entry, client: Seq<char>, name: Seq<char>) -> bool {
    e.client_name@ == client && e.req_name@ == name
}

pub open spec fn is_first_match(s: Seq<Entry>, client: Seq<char>, name: Seq<char>, i: int) -> bool {
    &&& 0 <= i < s.len()
    &&& has_names(s[i], client, name)
    &&& forall|j: int| 0 <= j < i ==> !has_names(#[trigger] s[j], client, name)
}

pub open spec fn has_entry(s: Seq<Entry>, client: Seq<char>, name: Seq<char>) -> bool {
    exists|i: int| 0 <= i < s.len() && has_names(#[trigger] s[i], client, name)
}

/// The position of the transaction keyed by the two names.
pub open spec fn entry_index(s: Seq<Entry>, client: Seq<char>, name: Seq<char>) -> int {
    choose|i: int| is_first_match(s, client, name, i)
}

/// A request as `init` creates it.
pub open spec fn is_fresh(t: VclTransaction, url: Seq<char>, method: Seq<char>, client: reqwest::Client) -> bool {
    &&& t is Req
    &&& t->Req_0.client == client
    &&& t->Req_0.url@ == url
    &&& t->Req_0.method@ == method
    &&& t->Req_0.headers@.len() == 0
    &&& t->Req_0.body is Empty
    &&& t->Req_0.buffered
}

/// No two transactions share both names.
pub open spec fn keys_unique(s: Seq<Entry>) -> bool {
    forall|i: int, j: int|
        0 <= i < j < s.len() ==> !(#[trigger] s[i].client_name@ == #[trigger] s[j].client_name@
            && s[i].req_name@ == s[j].req_name@)
}

/// Whether the keyed transaction can still be changed or sent.
pub open spec fn accepts_mutation(s: Seq<Entry>, client: Seq<char>, name: Seq<char>) -> bool {
    has_entry(s, client, name) && s[entry_index(s, client, name)].transaction is Req
}

/// `after` is `before` with the transaction at `k` replaced, keys kept.
pub open spec fn only_transaction_changed(before: Seq<Entry>, after: Seq<Entry>, k: int) -> bool {
    &&& after.len() == before.len()
    &&& forall|j: int| 0 <= j < before.len() && j != k ==> after[j] == before[j]
    &&& after[k].client_name == before[k].client_name
    &&& after[k].req_name == before[k].req_name
}

/// What settling the transaction at `k` with `reply` does: a sent one is
/// settled by that reply; any other (unsent, or settled already) stays as it
/// was.
pub open spec fn settles(before: Seq<Entry>, after: Seq<Entry>, k: int, reply: Option<RespMsg>) -> bool {
    &&& only_transaction_changed(before, after, k)
    &&& before[k].transaction is Sent ==> {
        &&& after[k].transaction is Resp
        &&& same_outcome(after[k].transaction->Resp_0, settled_by(reply))
    }
    &&& !(before[k].transaction is Sent) ==> after[k] == before[k]
}

/// What an accessor answers from the settled transaction at `k`, `f` giving
/// the answer for an outcome; an unsettled one is not ready to answer.
pub open spec fn answers<T>(
    s: Seq<Entry>,
    k: int,
    name: Seq<char>,
    r: Result<T, String>,
    f: spec_fn(Result<Response, String>) -> T,
) -> bool {
    if s[k].transaction is Resp {
        r == Ok::<T, String>(f(outcome(s, k)))
    } else {
        r is Err && r->Err_0@ == not_initialized(name)
    }
}

/// The settled outcome at `k`.
pub open spec fn outcome(s: Seq<Entry>, k: int) -> Result<Response, String> {
    s[k].transaction->Resp_0
}

pub open spec fn status_of(o: Result<Response, String>) -> i64 {
    match o {
        Ok(resp) => resp.status,
        Err(_) => 0,
    }
}

pub open spec fn header_of(o: Result<Response, String>, key: Seq<char>) -> Option<Seq<u8>> {
    match o {
        Ok(resp) => header_answer(resp, key),
        Err(_) => None,
    }
}

pub open spec fn body_of(o: Result<Response, String>) -> Seq<u8> {
    match o {
        Ok(resp) => body_bytes(resp),
        Err(_) => Seq::empty(),
    }
}

pub open spec fn error_of(o: Result<Response, String>) -> Option<Seq<char>> {
    match o {
        Ok(_) => None,
        Err(e) => Some(e@),
    }
}

/// The settled outcome a reply gives: the response carried by a headers
/// message, the text of a failure, and a failure where the channel closed
/// without a reply or sent a body chunk instead.
pub open spec fn settled_by(msg: Option<RespMsg>) -> Result<Response, Seq<char>> {
    match msg {
        Some(RespMsg::Headers(resp)) => Ok(resp),
        Some(RespMsg::Failed(e)) => Err(e@),
        Some(RespMsg::Chunk(_)) => Err("reqwest: unexpected body chunk before the response"@),
        None => Err("reqwest: the exchange ended without a response"@),
    }
}

pub open spec fn same_outcome(r: Result<Response, String>, s: Result<Response, Seq<char>>) -> bool {
    match (r, s) {
        (Ok(a), Ok(b)) => a == b,
        (Err(a), Err(b)) => a@ == b,
        _ => false,
    }
}

/// The outcome that the first reply on a transaction's channel settles it to.
pub fn settle(msg: Option<RespMsg>) -> (r: Result<Response, String>)
    ensures
        same_outcome(r, settled_by(msg)),
{
    match msg {
        Some(RespMsg::Headers(resp)) => Ok(resp),
        Some(RespMsg::Failed(e)) => Err(e),
        Some(RespMsg::Chunk(_)) => Err("reqwest: unexpected body chunk before the response".to_owned()),
        None => Err("reqwest: the exchange ended without a response".to_owned()),
    }
}

/// The two texts one after the other.
pub fn concat(a: &str, b: &str) -> (r: String)
    ensures
        r@ == a@ + b@,
{
    <String as StringExecFns>::from_str(a).concat(b)
}

fn not_initialized_error(name: &str) -> (r: String)
    ensures
        r@ == not_initialized(name@),
{
    let head = concat("reqwest: request \"", name);
    concat(head.as_str(), "\" isn't initialized")
}

proof fn lemma_first_match_unique(s: Seq<Entry>, client: Seq<char>, name: Seq<char>, i: int)
    requires
        is_first_match(s, client, name, i),
    ensures
        entry_index(s, client, name) == i,
        has_entry(s, client, name),
{
    let k = entry_index(s, client, name);
    assert(is_first_match(s, client, name, k));
    if k < i {
        assert(!has_names(s[k], client, name));
    } else if i < k {
        assert(!has_names(s[i], client, name));
    }
}

proof fn lemma_first_match_below(s: Seq<Entry>, client: Seq<char>, name: Seq<char>, i: int)
    requires
        0 <= i < s.len(),
        has_names(s[i], client, name),
    ensures
        is_first_match(s, client, name, entry_index(s, client, name)),
    decreases i,
{
    if exists|j: int| 0 <= j < i && has_names(#[trigger] s[j], client, name) {
        let j = choose|j: int| 0 <= j < i && has_names(#[trigger] s[j], client, name);
        lemma_first_match_below(s, client, name, j);
    } else {
        assert(is_first_match(s, client, name, i));
    }
}

/// Where a transaction is keyed by the two names, `entry_index` is the first
/// such position.
pub proof fn lemma_entry_index(s: Seq<Entry>, client: Seq<char>, name: Seq<char>)
    requires
        has_entry(s, client, name),
    ensures
        is_first_match(s, client, name, entry_index(s, client, name)),
{
    let i = choose|i: int| 0 <= i < s.len() && has_names(#[trigger] s[i], client, name);
    lemma_first_match_below(s, client, name, i);
}

proof fn lemma_index_kept(s0: Seq<Entry>, s1: Seq<Entry>, client: Seq<char>, name: Seq<char>)
    requires
        has_entry(s0, client, name),
        only_transaction_changed(s0, s1, entry_index(s0, client, name)),
    ensures
        has_entry(s1, client, name),
        entry_index(s1, client, name) == entry_index(s0, client, name),
{
    lemma_entry_index(s0, client, name);
    let k = entry_index(s0, client, name);
    assert forall|j: int| 0 <= j < k implies !has_names(#[trigger] s1[j], client, name) by {
        assert(s1[j] == s0[j]);
    }
    lemma_first_match_unique(s1, client, name, k);
}

/// Settling happens once. A transaction settled by the first reply on its
/// channel keeps that outcome: every later settling step, whatever reply it
/// is handed, finds it at the same position and leaves every entry as it was,
/// so every accessor answers from the same outcome.
pub proof fn lemma_resolution_is_cached(
    s0: Seq<Entry>,
    s1: Seq<Entry>,
    s2: Seq<Entry>,
    client: Seq<char>,
    name: Seq<char>,
    first: Option<RespMsg>,
    later: Option<RespMsg>,
)
    requires
        has_entry(s0, client, name),
        s0[entry_index(s0, client, name)].transaction is Sent,
        settles(s0, s1, entry_index(s0, client, name), first),
        settles(s1, s2, entry_index(s1, client, name), later),
    ensures
        entry_index(s1, client, name) == entry_index(s0, client, name),
        same_outcome(outcome(s1, entry_index(s0, client, name)), settled_by(first)),
        s2 == s1,
{
    lemma_index_kept(s0, s1, client, name);
    assert(s2 =~= s1);
}

/// Once a transaction has left the unsent state (sent, or settled), no header
/// or body can be set on it any more.
pub proof fn lemma_no_change_after_send(s0: Seq<Entry>, s1: Seq<Entry>, client: Seq<char>, name: Seq<char>)
    requires
        has_entry(s0, client, name),
        only_transaction_changed(s0, s1, entry_index(s0, client, name)),
        !(s1[entry_index(s0, client, name)].transaction is Req),
    ensures
        !accepts_mutation(s1, client, name),
{
    lemma_index_kept(s0, s1, client, name);
}

/// The position of the first entry keyed by the two names.
fn find_entry(entries: &Vec<Entry>, client: &String, name: &String) -> (r: Option<usize>)
    ensures
        match r {
            Some(i) => has_entry(entries@, client@, name@) && is_first_match(
                entries@,
                client@,
                name@,
                i as int,
            ) && i == entry_index(
                entries@,
                client@,
                name@,
            ),
            None => !has_entry(entries@, client@, name@),
        },
{
    let mut i: usize = 0;
    while i < entries.len()
        invariant
            i <= entries@.len(),
            forall|j: int| 0 <= j < i ==> !has_names(#[trigger] entries@[j], client@, name@),
        decreases entries@.len() - i,
    {
        if entries[i].client_name == *client && entries[i].req_name == *name {
            proof {
                lemma_first_match_unique(entries@, client@, name@, i as int);
            }
            return Some(i);
        }
        i = i + 1;
    }
    None
}

/// A configured HTTP client bound to a name, as scripts address it.
#[derive(Clone)]
pub struct client {
    pub name: String,
    pub client: reqwest::Client,
    /// The host's handle for the backend registered under this name.
    pub be: usize,
    pub https: bool,
    pub base_url: Option<String>,
}

pub open spec fn opt_str(o: Option<&str>) -> Option<Seq<char>> {
    match o {
        Some(s) => Some(s@),
        None => None,
    }
}

pub open spec fn opt_string(o: Option<String>) -> Option<Seq<char>> {
    match o {
        Some(s) => Some(s@),
        None => None,
    }
}

/// The transaction at `k` is still a request, with one more header at the end.
pub open spec fn header_pushed(
    before: VclTransaction,
    after: VclTransaction,
    key: Seq<char>,
    value: Seq<char>,
) -> bool {
    let (b, a) = (before->Req_0, after->Req_0);
    &&& after is Req
    &&& a.url == b.url && a.method == b.method && a.body == b.body
    &&& a.client == b.client && a.buffered == b.buffered
    &&& a.headers@.len() == b.headers@.len() + 1
    &&& a.headers@.subrange(0, b.headers@.len() as int) == b.headers@
    &&& a.headers@.last().0@ == key && a.headers@.last().1@ == value
}

/// The transaction at `k` is still a request, its body replaced.
pub open spec fn body_replaced(before: VclTransaction, after: VclTransaction, body: Seq<u8>) -> bool {
    let (b, a) = (before->Req_0, after->Req_0);
    &&& after is Req
    &&& a.url == b.url && a.method == b.method && a.headers == b.headers
    &&& a.client == b.client && a.buffered == b.buffered
    &&& a.body is Full && a.body->Full_0@ == body
}

impl client {
    /// A client named `vcl_name`. It refuses to take both a scheme flag and a
    /// base URL.
    pub fn new(
        vcl_name: &str,
        base_url: Option<&str>,
        https: Option<bool>,
        http_client: reqwest::Client,
    ) -> (r: Result<client, String>)
        ensures
            match r {
                Ok(c) => {
                    &&& !(https is Some && base_url is Some)
                    &&& c.name@ == vcl_name@
                    &&& c.client == http_client
                    &&& c.be == 0
                    &&& c.https == (https == Some(true))
                    &&& opt_string(c.base_url) == opt_str(base_url)
                },
                Err(e) => https is Some && base_url is Some && e@
                    == "reqwest: client() can't take both an https and a base_url argument"@,
            },
    {
        if https.is_some() && base_url.is_some() {
            return Err("reqwest: client() can't take both an https and a base_url argument".to_owned());
        }
        let base = match base_url {
            Some(b) => Some(b.to_owned()),
            None => None,
        };
        let h = match https {
            Some(v) => v,
            None => false,
        };
        Ok(client { name: vcl_name.to_owned(), client: http_client, be: 0, https: h, base_url: base })
    }

    /// Records the host's handle for the backend registered for this client.
    pub fn bind(&mut self, be: usize)
        ensures
            final(self).be == be,
            final(self).name == old(self).name,
            final(self).client == old(self).client,
            final(self).https == old(self).https,
            final(self).base_url == old(self).base_url,
    {
        self.be = be;
    }

    pub fn backend(&self) -> (r: usize)
        ensures
            r == self.be,
    {
        self.be
    }

    /// Creates the transaction `name` as a fresh buffered request, replacing
    /// any earlier one of that name (which is abandoned, not cancelled).
    pub fn init(&self, slot: &mut Option<Vec<Entry>>, name: &str, url: &str, method: &str) -> (r:
        Result<(), String>)
        ensures
            r is Ok,
            *final(slot) is Some,
            keys_unique(entries_of(*old(slot))) ==> keys_unique(entries_of(*final(slot))),
            has_entry(entries_of(*old(slot)), self.name@, name@) ==> {
                &&& only_transaction_changed(
                    entries_of(*old(slot)),
                    entries_of(*final(slot)),
                    entry_index(entries_of(*old(slot)), self.name@, name@),
                )
                &&& is_fresh(
                    entries_of(*final(slot))[entry_index(entries_of(*old(slot)), self.name@, name@)].transaction,
                    url@,
                    method@,
                    self.client,
                )
            },
            !has_entry(entries_of(*old(slot)), self.name@, name@) ==> {
                &&& entries_of(*final(slot)).len() == entries_of(*old(slot)).len() + 1
                &&& entries_of(*final(slot)).drop_last() == entries_of(*old(slot))
                &&& has_names(entries_of(*final(slot)).last(), self.name@, name@)
                &&& is_fresh(entries_of(*final(slot)).last().transaction, url@, method@, self.client)
            },
    {
        let mut taken: Option<Vec<Entry>> = None;
        std::mem::swap(slot, &mut taken);
        let mut entries = match taken {
            Some(v) => v,
            None => Vec::new(),
        };
        assert(entries@ == entries_of(*old(slot)));
        let t = VclTransaction::Req(
            Request {
                method: method.to_owned(),
                url: url.to_owned(),
                headers: Vec::new(),
                body: ReqBody::Empty,
                client: self.client.clone(),
                buffered: true,
            },
        );
        let key = name.to_owned();
        match find_entry(&entries, &self.name, &key) {
            None => {
                let ghost before = entries@;
                entries.push(Entry { transaction: t, req_name: key, client_name: self.name.clone() });
                assert(entries@.drop_last() =~= entries_of(*old(slot)));
                assert(keys_unique(before) ==> keys_unique(entries@)) by {
                    if keys_unique(before) {
                        assert forall|i: int, j: int|
                            0 <= i < j < entries@.len() implies !(#[trigger] entries@[i].client_name@
                            == #[trigger] entries@[j].client_name@ && entries@[i].req_name@
                            == entries@[j].req_name@) by {
                            if j == before.len() {
                                assert(entries@[i] == before[i]);
                                assert(!has_names(before[i], self.name@, name@));
                            } else {
                                assert(entries@[i] == before[i] && entries@[j] == before[j]);
                            }
                        }
                    }
                }
            },
            Some(i) => {
                let ghost before = entries@;
                entries[i].transaction = t;
                assert(keys_unique(before) ==> keys_unique(entries@)) by {
                    if keys_unique(before) {
                        assert forall|a: int, b: int|
                            0 <= a < b < entries@.len() implies !(#[trigger] entries@[a].client_name@
                            == #[trigger] entries@[b].client_name@ && entries@[a].req_name@
                            == entries@[b].req_name@) by {
                            assert(entries@[a].client_name == before[a].client_name);
                            assert(entries@[b].client_name == before[b].client_name);
                            assert(entries@[a].req_name == before[a].req_name);
                            assert(entries@[b].req_name == before[b].req_name);
                            assert(!(before[a].client_name@ == before[b].client_name@
                                && before[a].req_name@ == before[b].req_name@));
                        }
                    }
                }
            },
        }
        *slot = Some(entries);
        Ok(())
    }

    /// Appends a header to the unsent transaction `name`. Fails, changing
    /// nothing, where `name` is unknown or already sent.
    pub fn set_header(&self, slot: &mut Option<Vec<Entry>>, name: &str, key: &str, value: &str) -> (r:
        Result<(), String>)
        ensures
            accepts_mutation(entries_of(*old(slot)), self.name@, name@) ==> {
                &&& r is Ok
                &&& *final(slot) is Some
                &&& only_transaction_changed(
                    entries_of(*old(slot)),
                    entries_of(*final(slot)),
                    entry_index(entries_of(*old(slot)), self.name@, name@),
                )
                &&& header_pushed(
                    entries_of(*old(slot))[entry_index(entries_of(*old(slot)), self.name@, name@)].transaction,
                    entries_of(*final(slot))[entry_index(entries_of(*old(slot)), self.name@, name@)].transaction,
                    key@,
                    value@,
                )
            },
            !accepts_mutation(entries_of(*old(slot)), self.name@, name@) ==> {
                &&& r is Err
                &&& r->Err_0@ == not_initialized(name@)
                &&& *final(slot) == *old(slot)
            },
    {
        let entries = match slot {
            Some(v) => v,
            None => return Err(not_initialized_error(name)),
        };
        let key_name = name.to_owned();
        let i = match find_entry(entries, &self.name, &key_name) {
            Some(i) => i,
            None => return Err(not_initialized_error(name)),
        };
        if !matches!(entries[i].transaction, VclTransaction::Req(_)) {
            return Err(not_initialized_error(name));
        }
        match &mut entries[i].transaction {
            VclTransaction::Req(req) => {
                let ghost before = req.headers@;
                req.headers.push((key.to_owned(), value.to_owned()));
                assert(req.headers@.subrange(0, before.len() as int) =~= before);
                Ok(())
            },
            _ => {
                assert(false);
                Err(not_initialized_error(name))
            },
        }
    }

    /// Replaces the body of the unsent transaction `name` with the bytes of
    /// `body`. Fails, changing nothing, where `name` is unknown or already sent.
    pub fn set_body(&self, slot: &mut Option<Vec<Entry>>, name: &str, body: &str) -> (r: Result<(), String>)
        ensures
            accepts_mutation(entries_of(*old(slot)), self.name@, name@) ==> {
                &&& r is Ok
                &&& *final(slot) is Some
                &&& only_transaction_changed(entries_of(*old(slot)), entries_of(*final(slot)), entry_index(entries_of(*old(slot)), self.name@, name@))
                &&& body_replaced(
                    entries_of(*old(slot))[entry_index(entries_of(*old(slot)), self.name@, name@)].transaction,
                    entries_of(*final(slot))[entry_index(entries_of(*old(slot)), self.name@, name@)].transaction,
                    body.spec_bytes(),
                )
            },
            !accepts_mutation(entries_of(*old(slot)), self.name@, name@) ==> {
                &&& r is Err
                &&& r->Err_0@ == not_initialized(name@)
                &&& *final(slot) == *old(slot)
            },
    {
        let entries = match slot {
            Some(v) => v,
            None => return Err(not_initialized_error(name)),
        };
        let key_name = name.to_owned();
        let i = match find_entry(entries, &self.name, &key_name) {
            Some(i) => i,
            None => return Err(not_initialized_error(name)),
        };
        if !matches!(entries[i].transaction, VclTransaction::Req(_)) {
            return Err(not_initialized_error(name));
        }
        match &mut entries[i].transaction {
            VclTransaction::Req(req) => {
                req.body = ReqBody::Full(slice_to_vec(body.as_bytes()));
                Ok(())
            },
            _ => {
                assert(false);
                Err(not_initialized_error(name))
            },
        }
    }

    /// Takes the request out of the unsent transaction at `i`, which now
    /// waits for its reply on `rx`.
    fn hand_over(entries: &mut Vec<Entry>, i: usize, rx: tokio::sync::mpsc::Receiver<RespMsg>) -> (r: Option<Request>)
        requires
            i < old(entries)@.len(),
            old(entries)@[i as int].transaction is Req,
        ensures
            r == Some(old(entries)@[i as int].transaction->Req_0),
            only_transaction_changed(old(entries)@, final(entries)@, i as int),
            final(entries)@[i as int].transaction == VclTransaction::Sent(rx),
    {
        let mut t = VclTransaction::Sent(rx);
        std::mem::swap(&mut entries[i].transaction, &mut t);
        match t {
            VclTransaction::Req(req) => Some(req),
            _ => None,
        }
    }

    /// Sends the unsent transaction `name`: hands back its request for the
    /// executor, and the transaction waits for the reply on `rx` (the
    /// receiving end of the channel the request goes out with). Fails,
    /// changing nothing, where `name` is unknown or already sent.
    pub fn send(&self, slot: &mut Option<Vec<Entry>>, name: &str, rx: tokio::sync::mpsc::Receiver<RespMsg>) -> (r:
        Result<Request, String>)
        ensures
            accepts_mutation(entries_of(*old(slot)), self.name@, name@) ==> {
                &&& *final(slot) is Some
                &&& r == Ok::<Request, String>(entries_of(*old(slot))[entry_index(entries_of(*old(slot)), self.name@, name@)].transaction->Req_0)
                &&& only_transaction_changed(entries_of(*old(slot)), entries_of(*final(slot)), entry_index(entries_of(*old(slot)), self.name@, name@))
                &&& entries_of(*final(slot))[entry_index(entries_of(*old(slot)), self.name@, name@)].transaction == VclTransaction::Sent(rx)
            },
            !accepts_mutation(entries_of(*old(slot)), self.name@, name@) ==> {
                &&& r is Err
                &&& r->Err_0@ == not_initialized(name@)
                &&& *final(slot) == *old(slot)
            },
    {
        let entries = match slot {
            Some(v) => v,
            None => return Err(not_initialized_error(name)),
        };
        let key_name = name.to_owned();
        let i = match find_entry(entries, &self.name, &key_name) {
            Some(i) => i,
            None => return Err(not_initialized_error(name)),
        };
        if !matches!(entries[i].transaction, VclTransaction::Req(_)) {
            return Err(not_initialized_error(name));
        }
        match Self::hand_over(entries, i, rx) {
            Some(req) => Ok(req),
            None => Err(not_initialized_error(name)),
        }
    }

    /// The first step of every accessor: an unsent transaction `name` is sent
    /// as by `send`, handing back its request; any other is left as it is.
    /// Fails, changing nothing, where `name` is unknown.
    pub fn submit(&self, slot: &mut Option<Vec<Entry>>, name: &str, rx: tokio::sync::mpsc::Receiver<RespMsg>) -> (r:
        Result<Option<Request>, String>)
        ensures
            accepts_mutation(entries_of(*old(slot)), self.name@, name@) ==> {
                &&& *final(slot) is Some
                &&& r == Ok::<Option<Request>, String>(Some(entries_of(*old(slot))[entry_index(entries_of(*old(slot)), self.name@, name@)].transaction->Req_0))
                &&& only_transaction_changed(entries_of(*old(slot)), entries_of(*final(slot)), entry_index(entries_of(*old(slot)), self.name@, name@))
                &&& entries_of(*final(slot))[entry_index(entries_of(*old(slot)), self.name@, name@)].transaction == VclTransaction::Sent(rx)
            },
            has_entry(entries_of(*old(slot)), self.name@, name@) && !accepts_mutation(
                entries_of(*old(slot)),
                self.name@,
                name@,
            ) ==> r == Ok::<Option<Request>, String>(None) && *final(slot) == *old(slot),
            !has_entry(entries_of(*old(slot)), self.name@, name@) ==> {
                &&& r is Err
                &&& r->Err_0@ == not_initialized(name@)
                &&& *final(slot) == *old(slot)
            },
    {
        let entries = match slot {
            Some(v) => v,
            None => return Err(not_initialized_error(name)),
        };
        let key_name = name.to_owned();
        let i = match find_entry(entries, &self.name, &key_name) {
            Some(i) => i,
            None => return Err(not_initialized_error(name)),
        };
        if !matches!(entries[i].transaction, VclTransaction::Req(_)) {
            return Ok(None);
        }
        Ok(Self::hand_over(entries, i, rx))
    }

    /// The second step of every accessor: waits for the reply of the sent
    /// transaction `name` on its channel (`None` once the channel has closed).
    /// Anything not waiting for a reply gives `None` at once.
    pub fn next_reply(&self, slot: &mut Option<Vec<Entry>>, name: &str) -> (r: Option<RespMsg>)
        ensures
            has_entry(entries_of(*old(slot)), self.name@, name@) && entries_of(*old(slot))[entry_index(entries_of(*old(slot)), self.name@, name@)].transaction is Sent
                ==> {
                &&& *final(slot) is Some
                &&& only_transaction_changed(entries_of(*old(slot)), entries_of(*final(slot)), entry_index(entries_of(*old(slot)), self.name@, name@))
                &&& entries_of(*final(slot))[entry_index(entries_of(*old(slot)), self.name@, name@)].transaction is Sent
            },
            !(has_entry(entries_of(*old(slot)), self.name@, name@) && entries_of(*old(slot))[entry_index(entries_of(*old(slot)), self.name@, name@)].transaction is Sent)
                ==> r is None && *final(slot) == *old(slot),
    {
        let entries = match slot {
            Some(v) => v,
            None => return None,
        };
        let key_name = name.to_owned();
        let i = match find_entry(entries, &self.name, &key_name) {
            Some(i) => i,
            None => return None,
        };
        if !matches!(entries[i].transaction, VclTransaction::Sent(_)) {
            return None;
        }
        match &mut entries[i].transaction {
            VclTransaction::Sent(rx) => receive(rx),
            _ => {
                assert(false);
                None
            },
        }
    }

    /// Settles the transaction at `i` with `reply` where it is waiting for
    /// one.
    fn settle_at(entries: &mut Vec<Entry>, i: usize, reply: Option<RespMsg>)
        requires
            i < old(entries)@.len(),
        ensures
            settles(old(entries)@, final(entries)@, i as int, reply),
    {
        if !matches!(entries[i].transaction, VclTransaction::Sent(_)) {
            return;
        }
        let ghost m = reply;
        let o = settle(reply);
        assert(same_outcome(o, settled_by(m)));
        entries[i].transaction = VclTransaction::Resp(o);
    }

    /// The last step of every accessor: settles the transaction `name` with
    /// `reply` (the one `next_reply` gave) and gives its position.
    fn settle_named(&self, slot: &mut Option<Vec<Entry>>, name: &str, reply: Option<RespMsg>) -> (r: Option<usize>)
        ensures
            r is Some == has_entry(entries_of(*old(slot)), self.name@, name@),
            r is Some ==> {
                &&& *final(slot) is Some
                &&& r->Some_0 as int == entry_index(entries_of(*old(slot)), self.name@, name@)
                &&& 0 <= entry_index(entries_of(*old(slot)), self.name@, name@) < entries_of(*final(slot)).len()
                &&& settles(entries_of(*old(slot)), entries_of(*final(slot)), entry_index(entries_of(*old(slot)), self.name@, name@), reply)
            },
            r is None ==> *final(slot) == *old(slot),
    {
        let entries = match slot {
            Some(v) => v,
            None => return None,
        };
        let key_name = name.to_owned();
        let i = match find_entry(entries, &self.name, &key_name) {
            Some(i) => i,
            None => return None,
        };
        Self::settle_at(entries, i, reply);
        Some(i)
    }

    /// The status of transaction `name`, settled with `reply` if it was
    /// waiting for one; 0 where the exchange failed.
    pub fn status(&self, slot: &mut Option<Vec<Entry>>, name: &str, reply: Option<RespMsg>) -> (r: Result<i64, String>)
        ensures
            has_entry(entries_of(*old(slot)), self.name@, name@) ==> {
                &&& *final(slot) is Some
                &&& settles(entries_of(*old(slot)), entries_of(*final(slot)), entry_index(entries_of(*old(slot)), self.name@, name@), reply)
                &&& answers(entries_of(*final(slot)), entry_index(entries_of(*old(slot)), self.name@, name@), name@, r, |o: Result<Response, String>| status_of(o))
            },
            !has_entry(entries_of(*old(slot)), self.name@, name@) ==> {
                &&& r is Err
                &&& r->Err_0@ == not_initialized(name@)
                &&& *final(slot) == *old(slot)
            },
    {
        let i = match self.settle_named(slot, name, reply) {
            Some(i) => i,
            None => return Err(not_initialized_error(name)),
        };
        match slot.as_ref() {
            Some(entries) => match &entries[i].transaction {
                VclTransaction::Resp(Ok(resp)) => Ok(resp.status),
                VclTransaction::Resp(Err(_)) => Ok(0),
                _ => Err(not_initialized_error(name)),
            },
            None => Err(not_initialized_error(name)),
        }
    }

    /// The first value of header `key` in the response of transaction `name`,
    /// settled with `reply` if it was waiting for one; `None` where the
    /// exchange failed.
    pub fn header(&self, slot: &mut Option<Vec<Entry>>, name: &str, key: &str, reply: Option<RespMsg>) -> (r:
        Result<Option<Vec<u8>>, String>)
        ensures
            has_entry(entries_of(*old(slot)), self.name@, name@) ==> {
                &&& *final(slot) is Some
                &&& settles(entries_of(*old(slot)), entries_of(*final(slot)), entry_index(entries_of(*old(slot)), self.name@, name@), reply)
                &&& entries_of(*final(slot))[entry_index(entries_of(*old(slot)), self.name@, name@)].transaction is Resp ==> r is Ok && opt_bytes(r->Ok_0) == header_of(
                    outcome(entries_of(*final(slot)), entry_index(entries_of(*old(slot)), self.name@, name@)),
                    key@,
                )
                &&& !(entries_of(*final(slot))[entry_index(entries_of(*old(slot)), self.name@, name@)].transaction is Resp) ==> r is Err && r->Err_0@ == not_initialized(name@)
            },
            !has_entry(entries_of(*old(slot)), self.name@, name@) ==> {
                &&& r is Err
                &&& r->Err_0@ == not_initialized(name@)
                &&& *final(slot) == *old(slot)
            },
    {
        let i = match self.settle_named(slot, name, reply) {
            Some(i) => i,
            None => return Err(not_initialized_error(name)),
        };
        match slot.as_ref() {
            Some(entries) => match &entries[i].transaction {
                VclTransaction::Resp(Ok(resp)) => Ok(resp.header_value(key)),
                VclTransaction::Resp(Err(_)) => Ok(None),
                _ => Err(not_initialized_error(name)),
            },
            None => Err(not_initialized_error(name)),
        }
    }

    /// The body of the response of transaction `name`, settled with `reply`
    /// if it was waiting for one; empty where the exchange failed.
    pub fn body_as_string(&self, slot: &mut Option<Vec<Entry>>, name: &str, reply: Option<RespMsg>) -> (r: Result<
        Vec<u8>,
        String,
    >)
        ensures
            has_entry(entries_of(*old(slot)), self.name@, name@) ==> {
                &&& *final(slot) is Some
                &&& settles(entries_of(*old(slot)), entries_of(*final(slot)), entry_index(entries_of(*old(slot)), self.name@, name@), reply)
                &&& entries_of(*final(slot))[entry_index(entries_of(*old(slot)), self.name@, name@)].transaction is Resp ==> r is Ok && r->Ok_0@ == body_of(
                    outcome(entries_of(*final(slot)), entry_index(entries_of(*old(slot)), self.name@, name@)),
                )
                &&& !(entries_of(*final(slot))[entry_index(entries_of(*old(slot)), self.name@, name@)].transaction is Resp) ==> r is Err && r->Err_0@ == not_initialized(name@)
            },
            !has_entry(entries_of(*old(slot)), self.name@, name@) ==> {
                &&& r is Err
                &&& r->Err_0@ == not_initialized(name@)
                &&& *final(slot) == *old(slot)
            },
    {
        let i = match self.settle_named(slot, name, reply) {
            Some(i) => i,
            None => return Err(not_initialized_error(name)),
        };
        match slot.as_ref() {
            Some(entries) => match &entries[i].transaction {
                VclTransaction::Resp(Ok(resp)) => match &resp.body {
                    Some(b) => Ok(slice_to_vec(b.as_slice())),
                    None => Ok(Vec::new()),
                },
                VclTransaction::Resp(Err(_)) => Ok(Vec::new()),
                _ => Err(not_initialized_error(name)),
            },
            None => Err(not_initialized_error(name)),
        }
    }

    /// The failure text of transaction `name`, settled with `reply` if it was
    /// waiting for one; `None` where the exchange succeeded.
    pub fn error(&self, slot: &mut Option<Vec<Entry>>, name: &str, reply: Option<RespMsg>) -> (r: Result<
        Option<String>,
        String,
    >)
        ensures
            has_entry(entries_of(*old(slot)), self.name@, name@) ==> {
                &&& *final(slot) is Some
                &&& settles(entries_of(*old(slot)), entries_of(*final(slot)), entry_index(entries_of(*old(slot)), self.name@, name@), reply)
                &&& entries_of(*final(slot))[entry_index(entries_of(*old(slot)), self.name@, name@)].transaction is Resp ==> r is Ok && opt_string(r->Ok_0) == error_of(
                    outcome(entries_of(*final(slot)), entry_index(entries_of(*old(slot)), self.name@, name@)),
                )
                &&& !(entries_of(*final(slot))[entry_index(entries_of(*old(slot)), self.name@, name@)].transaction is Resp) ==> r is Err && r->Err_0@ == not_initialized(name@)
            },
            !has_entry(entries_of(*old(slot)), self.name@, name@) ==> {
                &&& r is Err
                &&& r->Err_0@ == not_initialized(name@)
                &&& *final(slot) == *old(slot)
            },
    {
        let i = match self.settle_named(slot, name, reply) {
            Some(i) => i,
            None => return Err(not_initialized_error(name)),
        };
        match slot.as_ref() {
            Some(entries) => match &entries[i].transaction {
                VclTransaction::Resp(Err(e)) => Ok(Some(e.clone())),
                VclTransaction::Resp(Ok(_)) => Ok(None),
                _ => Err(not_initialized_error(name)),
            },
            None => Err(not_initialized_error(name)),
        }
    }
}

} // verus!
