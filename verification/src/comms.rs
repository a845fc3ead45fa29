//! Header sets and the request-construction logic for invoking a method on
//! another application and for publishing to a pub/sub topic through the
//! sidecar.
use vstd::prelude::*;

verus! {

use crate::textfmt::dec_digits;
use crate::textfmt::decimal_string;

/// A set of HTTP headers: a name-to-value mapping with at most one value per
/// (case-preserved) name. Header names are compared by exact character
/// equality; iteration order carries no meaning.
#[derive(Debug, Clone)]
pub struct Headers {
    pairs: Vec<(String, String)>,
}

/// The mapping that a sequence of header pairs denotes: a later pair with the
/// same name overrides an earlier one.
pub open spec fn header_map(s: Seq<(String, String)>) -> Map<Seq<char>, Seq<char>>
    decreases s.len(),
{
    if s.len() == 0 {
        Map::<Seq<char>, Seq<char>>::empty()
    } else {
        header_map(s.drop_last()).insert(s.last().0@, s.last().1@)
    }
}

/// No header name occurs twice in the sequence.
pub open spec fn names_unique(s: Seq<(String, String)>) -> bool {
    forall|i: int, j: int|
        0 <= i < j < s.len() ==> (#[trigger] s[i]).0@ != (#[trigger] s[j]).0@
}

/// A name is in the denoted mapping exactly when some pair carries it.
proof fn lemma_header_map_domain(s: Seq<(String, String)>, k: Seq<char>)
    ensures
        header_map(s).contains_key(k) <==> exists|i: int|
            0 <= i < s.len() && (#[trigger] s[i]).0@ == k,
    decreases s.len(),
{
    if s.len() > 0 {
        lemma_header_map_domain(s.drop_last(), k);
        if s.last().0@ == k {
            assert((s[s.len() - 1]).0@ == k);
        } else {
            if header_map(s).contains_key(k) {
                let i = choose|i: int|
                    0 <= i < s.drop_last().len() && (#[trigger] s.drop_last()[i]).0@ == k;
                assert((s[i]).0@ == k);
            }
            if exists|i: int| 0 <= i < s.len() && (#[trigger] s[i]).0@ == k {
                let i = choose|i: int| 0 <= i < s.len() && (#[trigger] s[i]).0@ == k;
                assert(i < s.len() - 1);
                assert((s.drop_last()[i]).0@ == k);
            }
        }
    }
}

/// Under unique names, the pair at any position gives the mapped value.
proof fn lemma_header_map_value(s: Seq<(String, String)>, i: int)
    requires
        0 <= i < s.len(),
        names_unique(s),
    ensures
        header_map(s).contains_key(s[i].0@),
        header_map(s)[s[i].0@] == s[i].1@,
    decreases s.len(),
{
    if i == s.len() - 1 {
        assert(s.last() == s[i]);
    } else {
        assert forall|a: int, b: int| 0 <= a < b < s.drop_last().len() implies (#[trigger] s.drop_last()[a]).0@
            != (#[trigger] s.drop_last()[b]).0@ by {
            assert(s.drop_last()[a] == s[a]);
            assert(s.drop_last()[b] == s[b]);
        }
        lemma_header_map_value(s.drop_last(), i);
        assert(s.drop_last()[i] == s[i]);
        assert(s.last().0@ != s[i].0@);
    }
}

/// Under unique names, removing the pair at a position removes exactly its
/// name from the denoted mapping.
proof fn lemma_header_map_remove(s: Seq<(String, String)>, i: int)
    requires
        0 <= i < s.len(),
        names_unique(s),
    ensures
        header_map(s.remove(i)) == header_map(s).remove(s[i].0@),
    decreases s.len(),
{
    let k = s[i].0@;
    if i == s.len() - 1 {
        assert(s.remove(i) =~= s.drop_last());
        lemma_header_map_domain(s.drop_last(), k);
        assert forall|j: int| 0 <= j < s.drop_last().len() implies (#[trigger] s.drop_last()[j]).0@
            != k by {
            assert(s.drop_last()[j] == s[j]);
        }
        assert(!header_map(s.drop_last()).contains_key(k));
        assert(header_map(s.drop_last()) =~= header_map(s.drop_last()).insert(
            s.last().0@,
            s.last().1@,
        ).remove(k));
    } else {
        assert forall|a: int, b: int| 0 <= a < b < s.drop_last().len() implies (#[trigger] s.drop_last()[a]).0@
            != (#[trigger] s.drop_last()[b]).0@ by {
            assert(s.drop_last()[a] == s[a]);
            assert(s.drop_last()[b] == s[b]);
        }
        assert(s.drop_last()[i] == s[i]);
        lemma_header_map_remove(s.drop_last(), i);
        let lk = s.last().0@;
        let lv = s.last().1@;
        assert(lk != k);
        assert(s.remove(i).drop_last() =~= s.drop_last().remove(i));
        assert(s.remove(i).last() == s.last());
        assert(header_map(s.remove(i)) == header_map(s.drop_last().remove(i)).insert(lk, lv));
        assert(header_map(s.drop_last()).remove(k).insert(lk, lv) =~= header_map(
            s.drop_last(),
        ).insert(lk, lv).remove(k));
    }
}

impl View for Headers {
    type V = Map<Seq<char>, Seq<char>>;

    closed spec fn view(&self) -> Map<Seq<char>, Seq<char>> {
        header_map(self.pairs@)
    }
}

impl Headers {
    /// The stored pairs, in storage order.
    pub closed spec fn entries(self) -> Seq<(String, String)> {
        self.pairs@
    }

    /// Well-formed: no header name occurs twice.
    pub open spec fn wf(self) -> bool {
        names_unique(self.entries())
    }

    /// Builds a header set from a list of pairs; a later pair with the same
    /// name overrides an earlier one, as repeated insertion would.
    pub fn new(headers: Vec<(String, String)>) -> (r: Headers)
        ensures
            r.wf(),
            r@ == header_map(headers@),
    {
        let mut h = Headers { pairs: Vec::new() };
        proof {
            assert(h@ =~= header_map(headers@.take(0)));
        }
        let n = headers.len();
        let mut idx: usize = 0;
        while idx < n
            invariant
                n == headers@.len(),
                idx <= n,
                h.wf(),
                h@ == header_map(headers@.take(idx as int)),
            decreases n - idx,
        {
            let p = &headers[idx];
            h.add_header(p.0.as_str(), p.1.as_str());
            proof {
                assert(headers@.take(idx + 1).drop_last() =~= headers@.take(idx as int));
                assert(headers@.take(idx + 1).last() == headers@[idx as int]);
            }
            idx += 1;
        }
        proof {
            assert(headers@.take(n as int) =~= headers@);
        }
        h
    }

    /// Inserts a header, overwriting any stored value under the same name.
    pub fn add_header(&mut self, key: &str, value: &str)
        requires
            old(self).wf(),
        ensures
            final(self).wf(),
            final(self)@ == old(self)@.insert(key@, value@),
    {
        let k: String = key.to_owned();
        let v: String = value.to_owned();
        let n = self.pairs.len();
        let mut idx: usize = 0;
        while idx < n
            invariant
                n == self.pairs@.len(),
                idx <= n,
                self == old(self),
                old(self).wf(),
                k@ == key@,
                v@ == value@,
                forall|j: int| 0 <= j < idx ==> (#[trigger] self.pairs@[j]).0@ != key@,
            decreases n - idx,
        {
            if self.pairs[idx].0 == k {
                let ghost s0 = self.pairs@;
                proof {
                    lemma_header_map_remove(s0, idx as int);
                }
                self.pairs.remove(idx);
                self.pairs.push((k, v));
                proof {
                    assert(self.pairs@ == s0.remove(idx as int).push((k, v)));
                    assert(self.pairs@.drop_last() =~= s0.remove(idx as int));
                    assert(self.pairs@.last() == (k, v));
                    assert(header_map(self.pairs@) == header_map(s0.remove(idx as int)).insert(
                        key@,
                        value@,
                    ));
                    assert(header_map(s0).remove(key@).insert(key@, value@) =~= header_map(
                        s0,
                    ).insert(key@, value@));
                    assert forall|a: int, b: int|
                        0 <= a < b < self.pairs@.len() implies (#[trigger] self.pairs@[a]).0@
                        != (#[trigger] self.pairs@[b]).0@ by {
                        if b < self.pairs@.len() - 1 {
                            if a < idx {
                                assert(self.pairs@[a] == s0[a]);
                            } else {
                                assert(self.pairs@[a] == s0[a + 1]);
                            }
                            if b < idx {
                                assert(self.pairs@[b] == s0[b]);
                            } else {
                                assert(self.pairs@[b] == s0[b + 1]);
                            }
                        } else {
                            assert(self.pairs@[b].0@ == key@);
                            if a < idx {
                                assert(self.pairs@[a] == s0[a]);
                                assert(s0[a].0@ != key@);
                            } else {
                                assert(self.pairs@[a] == s0[a + 1]);
                                assert(s0[idx as int].0@ == key@);
                                assert(s0[a + 1].0@ != key@);
                            }
                        }
                    }
                }
                return ;
            }
            idx += 1;
        }
        let ghost s0 = self.pairs@;
        self.pairs.push((k, v));
        proof {
            assert(self.pairs@.drop_last() =~= s0);
            assert forall|a: int, b: int|
                0 <= a < b < self.pairs@.len() implies (#[trigger] self.pairs@[a]).0@
                != (#[trigger] self.pairs@[b]).0@ by {
                if b == self.pairs@.len() - 1 {
                    assert(self.pairs@[a] == s0[a]);
                    assert(s0[a].0@ != key@);
                } else {
                    assert(self.pairs@[a] == s0[a]);
                    assert(self.pairs@[b] == s0[b]);
                }
            }
        }
    }

    /// Whether a header with exactly this name (case-sensitive) is stored.
    pub fn contains_key(&self, key: &str) -> (r: bool)
        ensures
            r == self@.contains_key(key@),
    {
        let k: String = key.to_owned();
        let n = self.pairs.len();
        let mut idx: usize = 0;
        while idx < n
            invariant
                n == self.pairs@.len(),
                idx <= n,
                k@ == key@,
                forall|j: int| 0 <= j < idx ==> (#[trigger] self.pairs@[j]).0@ != key@,
            decreases n - idx,
        {
            if self.pairs[idx].0 == k {
                proof {
                    lemma_header_map_domain(self.pairs@, key@);
                    assert((self.pairs@[idx as int]).0@ == key@);
                }
                return true;
            }
            idx += 1;
        }
        proof {
            lemma_header_map_domain(self.pairs@, key@);
        }
        false
    }

    /// The stored value under exactly this name, if any.
    pub fn get(&self, key: &str) -> (r: Option<&String>)
        requires
            self.wf(),
        ensures
            r is Some <==> self@.contains_key(key@),
            r is Some ==> r->0@ == self@[key@],
    {
        let k: String = key.to_owned();
        let n = self.pairs.len();
        let mut idx: usize = 0;
        while idx < n
            invariant
                n == self.pairs@.len(),
                idx <= n,
                self.wf(),
                k@ == key@,
                forall|j: int| 0 <= j < idx ==> (#[trigger] self.pairs@[j]).0@ != key@,
            decreases n - idx,
        {
            if self.pairs[idx].0 == k {
                proof {
                    lemma_header_map_value(self.pairs@, idx as int);
                }
                return Some(&self.pairs[idx].1);
            }
            idx += 1;
        }
        proof {
            lemma_header_map_domain(self.pairs@, key@);
        }
        None
    }

    /// The stored pairs, for handing each one to a transport.
    pub fn pairs(&self) -> (r: &Vec<(String, String)>)
        ensures
            r@ == self.entries(),
    {
        &self.pairs
    }

    /// Every stored pair is what the mapping says of its name.
    pub proof fn lemma_entries_agree_with_view(self)
        requires
            self.wf(),
        ensures
            forall|i: int|
                0 <= i < self.entries().len() ==> self@.contains_key(
                    (#[trigger] self.entries()[i]).0@,
                ) && self@[self.entries()[i].0@] == self.entries()[i].1@,
            forall|k: Seq<char>|
                self@.contains_key(k) ==> exists|i: int|
                    0 <= i < self.entries().len() && (#[trigger] self.entries()[i]).0@ == k,
    {
        assert forall|i: int| 0 <= i < self.entries().len() implies self@.contains_key(
            (#[trigger] self.entries()[i]).0@,
        ) && self@[self.entries()[i].0@] == self.entries()[i].1@ by {
            lemma_header_map_value(self.pairs@, i);
        }
        assert forall|k: Seq<char>| self@.contains_key(k) implies exists|i: int|
            0 <= i < self.entries().len() && (#[trigger] self.entries()[i]).0@ == k by {
            lemma_header_map_domain(self.pairs@, k);
        }
    }
}

/// The header name the invoker checks for before supplying a default
/// (compared by exact characters).
pub open spec fn content_type_key() -> Seq<char> {
    "Content-Type"@
}

/// The default media type supplied when the caller set no `Content-Type`.
pub open spec fn json_content_type() -> Seq<char> {
    "application/json"@
}

/// The header that names the target application; always set by the invoker.
pub open spec fn app_id_key() -> Seq<char> {
    "dapr-app-id"@
}

/// The headers that go out on an invocation: the caller's set, with
/// `Content-Type: application/json` supplied when the caller set none, and
/// `dapr-app-id` forced to the configured target id.
pub open spec fn invoke_headers(m: Map<Seq<char>, Seq<char>>, app_id: Seq<char>) -> Map<
    Seq<char>,
    Seq<char>,
> {
    let with_ct = if m.contains_key(content_type_key()) {
        m
    } else {
        m.insert(content_type_key(), json_content_type())
    };
    with_ct.insert(app_id_key(), app_id)
}

/// The two protocol-mandated header names differ from each other.
proof fn lemma_distinct_protocol_keys()
    ensures
        content_type_key() != app_id_key(),
{
    reveal_strlit("Content-Type");
    reveal_strlit("dapr-app-id");
    assert(content_type_key().len() == 12);
    assert(app_id_key().len() == 11);
}

/// Invoking with a header set that carries no `Content-Type` entry sends
/// `Content-Type: application/json` and the configured target id, whatever
/// else the set holds; every other caller entry goes out unchanged.
pub proof fn lemma_invoke_supplies_content_type(m: Map<Seq<char>, Seq<char>>, app_id: Seq<char>)
    requires
        !m.contains_key(content_type_key()),
    ensures
        invoke_headers(m, app_id).contains_key(content_type_key()),
        invoke_headers(m, app_id)[content_type_key()] == json_content_type(),
        invoke_headers(m, app_id).contains_key(app_id_key()),
        invoke_headers(m, app_id)[app_id_key()] == app_id,
        forall|k: Seq<char>|
            m.contains_key(k) && k != app_id_key() ==> #[trigger] invoke_headers(m, app_id)[k]
                == m[k],
{
    lemma_distinct_protocol_keys();
}

/// Invoking with a header set that already carries a `Content-Type` entry
/// sends the caller's value unchanged.
pub proof fn lemma_invoke_preserves_content_type(m: Map<Seq<char>, Seq<char>>, app_id: Seq<char>)
    requires
        m.contains_key(content_type_key()),
    ensures
        invoke_headers(m, app_id).contains_key(content_type_key()),
        invoke_headers(m, app_id)[content_type_key()] == m[content_type_key()],
{
    lemma_distinct_protocol_keys();
}

/// The outgoing `dapr-app-id` header always equals the configured target id,
/// even when the caller supplied a value of its own under that name.
pub proof fn lemma_invoke_forces_app_id(m: Map<Seq<char>, Seq<char>>, app_id: Seq<char>)
    ensures
        invoke_headers(m, app_id).contains_key(app_id_key()),
        invoke_headers(m, app_id)[app_id_key()] == app_id,
{
}

/// The URL that an invocation is posted to; the method name stands verbatim
/// as the path, so a caller supplies any leading slash itself.
pub open spec fn invoke_url(host: Seq<char>, port: int, method: Seq<char>) -> Seq<char> {
    "http://"@ + host + ":"@ + dec_digits(port) + "/"@ + method
}

/// The URL that a publication is posted to.
pub open spec fn publish_url(host: Seq<char>, port: int, pubsub: Seq<char>, topic: Seq<char>) -> Seq<
    char,
> {
    "http://"@ + host + ":"@ + dec_digits(port) + "/v1.0/publish/"@ + pubsub + "/"@ + topic
}

fn build_invoke_url(host: &String, port: u16, method: &String) -> (r: String)
    ensures
        r@ == invoke_url(host@, port as int, method@),
{
    let p = decimal_string(port);
    String::from_str("http://").concat(host.as_str()).concat(":").concat(p.as_str()).concat(
        "/",
    ).concat(method.as_str())
}

pub(crate) fn build_publish_url(host: &String, port: u16, pubsub: &String, topic: &String) -> (r:
    String)
    ensures
        r@ == publish_url(host@, port as int, pubsub@, topic@),
{
    let p = decimal_string(port);
    String::from_str("http://").concat(host.as_str()).concat(":").concat(p.as_str()).concat(
        "/v1.0/publish/",
    ).concat(pubsub.as_str()).concat("/").concat(topic.as_str())
}

/// A fully built request, ready for a transport to send: the target URL and
/// the headers to attach. The JSON body is supplied by the caller at send
/// time; this layer never inspects it.
pub struct PreparedRequest {
    pub url: String,
    pub headers: Headers,
}

/// A failed call: the transport could not complete the request. Carries the
/// transport's own description of the cause.
#[derive(Debug)]
pub struct DaprError {
    pub cause: String,
}

impl DaprError {
    /// The transport's description of what went wrong.
    pub fn message(&self) -> (r: &String)
        ensures
            r == &self.cause,
    {
        &self.cause
    }
}

/// Maps what the transport reported to the caller-facing result. A received
/// response counts as success whatever its status code — application-level
/// errors are not this layer's business; only a transport failure
/// (unreachable host, timeout, a header that could not be encoded) is an
/// error, and its cause is carried through unchanged.
pub fn map_transport_outcome(outcome: Result<u16, String>) -> (r: Result<(), DaprError>)
    ensures
        r is Ok <==> outcome is Ok,
        outcome is Err ==> r is Err && r->Err_0.cause == outcome->Err_0,
{
    match outcome {
        Ok(_) => Ok(()),
        Err(cause) => Err(DaprError { cause }),
    }
}

/// The configuration of an HTTP invoker: where the sidecar listens and which
/// application and method to call. The transport handle lives with whatever
/// sends the prepared requests.
pub struct DaprHttpInvoker {
    dapr_host: String,
    dapr_port: u16,
    app_id: String,
    method: String,
}

impl DaprHttpInvoker {
    pub closed spec fn host(self) -> Seq<char> {
        self.dapr_host@
    }

    pub closed spec fn port(self) -> int {
        self.dapr_port as int
    }

    pub closed spec fn app_id(self) -> Seq<char> {
        self.app_id@
    }

    pub closed spec fn method(self) -> Seq<char> {
        self.method@
    }

    pub fn new(dapr_host: String, dapr_port: u16, app_id: String, method: String) -> (r:
        DaprHttpInvoker)
        ensures
            r.host() == dapr_host@,
            r.port() == dapr_port as int,
            r.app_id() == app_id@,
            r.method() == method@,
    {
        DaprHttpInvoker { dapr_host, dapr_port, app_id, method }
    }

    /// Builds the invocation request: the URL `http://{host}:{port}/{method}`
    /// and the caller's headers with the protocol-mandated entries applied.
    pub fn prepare_invoke(&self, headers: Headers) -> (r: PreparedRequest)
        requires
            headers.wf(),
        ensures
            r.url@ == invoke_url(self.host(), self.port(), self.method()),
            r.headers.wf(),
            r.headers@ == invoke_headers(headers@, self.app_id()),
    {
        let url = build_invoke_url(&self.dapr_host, self.dapr_port, &self.method);
        let mut hs = headers;
        if !hs.contains_key("Content-Type") {
            hs.add_header("Content-Type", "application/json");
        }
        hs.add_header("dapr-app-id", self.app_id.as_str());
        PreparedRequest { url, headers: hs }
    }
}

/// The configuration of an HTTP publisher that attaches the caller's headers
/// verbatim: where the sidecar listens and which pub/sub component and topic
/// to publish to.
pub struct DaprHttpPublisher {
    dapr_host: String,
    dapr_port: u16,
    pubsub: String,
    topic: String,
}

impl DaprHttpPublisher {
    pub closed spec fn host(self) -> Seq<char> {
        self.dapr_host@
    }

    pub closed spec fn port(self) -> int {
        self.dapr_port as int
    }

    pub closed spec fn pubsub(self) -> Seq<char> {
        self.pubsub@
    }

    pub closed spec fn topic(self) -> Seq<char> {
        self.topic@
    }

    pub fn new(dapr_host: String, dapr_port: u16, pubsub: String, topic: String) -> (r:
        DaprHttpPublisher)
        ensures
            r.host() == dapr_host@,
            r.port() == dapr_port as int,
            r.pubsub() == pubsub@,
            r.topic() == topic@,
    {
        DaprHttpPublisher { dapr_host, dapr_port, pubsub, topic }
    }

    /// Builds the publication request: the URL
    /// `http://{host}:{port}/v1.0/publish/{pubsub}/{topic}` and the caller's
    /// headers exactly as supplied — this variant forces no entry of its own.
    pub fn prepare_publish(&self, headers: Headers) -> (r: PreparedRequest)
        ensures
            r.url@ == publish_url(self.host(), self.port(), self.pubsub(), self.topic()),
            r.headers == headers,
    {
        let url = build_publish_url(&self.dapr_host, self.dapr_port, &self.pubsub, &self.topic);
        PreparedRequest { url, headers }
    }
}

} // verus!
