//! The fetch layer: a cache of decoded payloads in front of a transport.
//!
//! The library does no network I/O. A [`Transport`] holds the replies that
//! the network has given so far, keyed by URL, and keeps a log of the
//! requests made of it. Whoever drives the library performs the requests
//! that the log shows as unanswered, records the replies and asks again.
use vstd::prelude::*;
use vstd::string::*;
use crate::domain::F1Error;
use crate::json::{document_of, Json, JsonValue};
use crate::model::{option_view, result_view};

verus! {

/// The endpoint in front of every resource path.
pub const BASE_URL: &'static str = "https://ergast.com/api/f1";

/// The mapping that a list of keyed entries stands for. Where two entries
/// have the same key, the later one counts.
pub open spec fn table<V>(entries: Seq<(Seq<char>, V)>) -> Map<Seq<char>, V>
    decreases entries.len(),
{
    if entries.len() == 0 {
        Map::empty()
    } else {
        table(entries.drop_last()).insert(entries.last().0, entries.last().1)
    }
}

/// The URL that is requested for a resource path.
pub open spec fn url_of(path: Seq<char>) -> Seq<char> {
    BASE_URL@ + "/"@ + path + ".json"@
}

/// The payload of a response document: what it holds under `MRData`, null
/// where it holds nothing there.
pub open spec fn payload_of(document: JsonValue) -> JsonValue {
    document.field("MRData"@)
}

/// The first of `requests` that `replies` has no entry for.
pub open spec fn first_unanswered_of(
    requests: Seq<Seq<char>>,
    replies: Map<Seq<char>, Option<Seq<u8>>>,
) -> Option<Seq<char>>
    decreases requests.len(),
{
    if requests.len() == 0 {
        None
    } else if !replies.contains_key(requests[0]) {
        Some(requests[0])
    } else {
        first_unanswered_of(requests.drop_first(), replies)
    }
}

/// No request is unanswered exactly where there is a reply for each.
pub proof fn lemma_all_answered(requests: Seq<Seq<char>>, replies: Map<Seq<char>, Option<Seq<u8>>>)
    ensures
        first_unanswered_of(requests, replies) is None <==> forall|i: int|
            0 <= i < requests.len() ==> replies.contains_key(#[trigger] requests[i]),
        first_unanswered_of(requests, replies) matches Some(url) ==> requests.contains(url)
            && !replies.contains_key(url),
    decreases requests.len(),
{
    if requests.len() > 0 {
        let rest = requests.drop_first();
        lemma_all_answered(rest, replies);
        if replies.contains_key(requests[0]) {
            if first_unanswered_of(rest, replies) is None {
                assert forall|i: int| 0 <= i < requests.len() implies replies.contains_key(
                    #[trigger] requests[i],
                ) by {
                    if i > 0 {
                        assert(requests[i] == rest[i - 1]);
                    }
                }
            } else {
                let url = first_unanswered_of(rest, replies)->0;
                let k = choose|k: int| 0 <= k < rest.len() && rest[k] == url;
                assert(requests[k + 1] == url);
            }
        }
    }
}

/// The index of the last entry with the given key.
fn find_last<V>(entries: &Vec<(String, V)>, key: &str) -> (found: Option<usize>)
    ensures
        match found {
            Some(i) => {
                &&& i < entries@.len()
                &&& entries@[i as int].0@ == key@
                &&& forall|j: int| i < j < entries@.len() ==> entries@[j].0@ != key@
            },
            None => forall|j: int| 0 <= j < entries@.len() ==> entries@[j].0@ != key@,
        },
{
    let wanted = String::from_str(key);
    let mut i: usize = entries.len();
    while i > 0
        invariant
            i <= entries@.len(),
            wanted@ == key@,
            forall|j: int| i <= j < entries@.len() ==> entries@[j].0@ != key@,
        decreases i,
    {
        i -= 1;
        if entries[i].0 == wanted {
            return Some(i);
        }
    }
    None
}

/// A key that no entry from `from` on has is mapped as by the entries before `from`.
proof fn lemma_table_ignores_other_keys<V>(
    entries: Seq<(Seq<char>, V)>,
    from: int,
    key: Seq<char>,
)
    requires
        0 <= from <= entries.len(),
        forall|j: int| from <= j < entries.len() ==> entries[j].0 != key,
    ensures
        table(entries).contains_key(key) == table(entries.take(from)).contains_key(key),
        table(entries).contains_key(key) ==> table(entries)[key] == table(entries.take(from))[key],
    decreases entries.len() - from,
{
    if from == entries.len() {
        assert(entries.take(from) == entries);
    } else {
        lemma_table_ignores_other_keys(entries.drop_last(), from, key);
        assert(entries.drop_last().take(from) == entries.take(from));
    }
}

/// The last entry with a key is what the key is mapped to; a key that no
/// entry has is not mapped.
proof fn lemma_table_lookup<V>(entries: Seq<(Seq<char>, V)>, key: Seq<char>, found: Option<int>)
    requires
        match found {
            Some(i) => {
                &&& 0 <= i < entries.len()
                &&& entries[i].0 == key
                &&& forall|j: int| i < j < entries.len() ==> entries[j].0 != key
            },
            None => forall|j: int| 0 <= j < entries.len() ==> entries[j].0 != key,
        },
    ensures
        match found {
            Some(i) => table(entries).contains_key(key) && table(entries)[key] == entries[i].1,
            None => !table(entries).contains_key(key),
        },
{
    match found {
        Some(i) => {
            lemma_table_ignores_other_keys(entries, i + 1, key);
            assert(entries.take(i + 1).drop_last() == entries.take(i));
            assert(entries.take(i + 1).last() == entries[i]);
        },
        None => {
            lemma_table_ignores_other_keys(entries, 0, key);
            assert(entries.take(0).len() == 0);
        },
    }
}

/// Putting a value in the place of the last entry with a key maps the key to
/// that value and leaves the other keys as they were.
proof fn lemma_table_replace<V>(entries: Seq<(Seq<char>, V)>, i: int, key: Seq<char>, value: V)
    requires
        0 <= i < entries.len(),
        entries[i].0 == key,
        forall|j: int| i < j < entries.len() ==> entries[j].0 != key,
    ensures
        table(entries.update(i, (key, value))) == table(entries).insert(key, value),
    decreases entries.len(),
{
    let replaced = entries.update(i, (key, value));
    if i == entries.len() - 1 {
        assert(replaced.drop_last() == entries.drop_last());
        assert(table(replaced) == table(entries).insert(key, value));
    } else {
        lemma_table_replace(entries.drop_last(), i, key, value);
        assert(replaced.drop_last() == entries.drop_last().update(i, (key, value)));
        assert(replaced.last() == entries.last());
        assert(table(replaced) == table(entries).insert(key, value));
    }
}

/// The payloads decoded so far, by resource path. Nothing is ever evicted.
pub struct Cache {
    entries: Vec<(String, Json)>,
}

impl View for Cache {
    type V = Map<Seq<char>, JsonValue>;

    closed spec fn view(&self) -> Map<Seq<char>, JsonValue> {
        table(self.model())
    }
}

impl Cache {
    spec fn model(&self) -> Seq<(Seq<char>, JsonValue)> {
        Seq::new(self.entries@.len(), |i: int| (self.entries@[i].0@, self.entries@[i].1@))
    }

    /// The cache that holds nothing.
    pub fn new() -> (cache: Cache)
        ensures
            cache@ == Map::<Seq<char>, JsonValue>::empty(),
    {
        Cache { entries: Vec::new() }
    }

    /// Whether a payload is held for `path`.
    pub fn contains_key(&self, path: &str) -> (held: bool)
        ensures
            held == self@.contains_key(path@),
    {
        let found = find_last(&self.entries, path);
        proof {
            lemma_table_lookup(
                self.model(),
                path@,
                match found {
                    Some(i) => Some(i as int),
                    None => None,
                },
            );
        }
        found.is_some()
    }

    /// A copy of the payload held for `path`.
    pub fn lookup(&self, path: &str) -> (payload: Option<Json>)
        ensures
            match payload {
                Some(json) => self@.contains_key(path@) && self@[path@] == json@,
                None => !self@.contains_key(path@),
            },
    {
        let found = find_last(&self.entries, path);
        proof {
            lemma_table_lookup(
                self.model(),
                path@,
                match found {
                    Some(i) => Some(i as int),
                    None => None,
                },
            );
        }
        match found {
            Some(i) => Some(self.entries[i].1.clone()),
            None => None,
        }
    }

    /// Holds `payload` for `path` from now on, in place of what was held for it.
    pub fn insert(&mut self, path: String, payload: Json)
        ensures
            final(self)@ == old(self)@.insert(path@, payload@),
    {
        match find_last(&self.entries, path.as_str()) {
            Some(i) => {
                proof {
                    lemma_table_replace(self.model(), i as int, path@, payload@);
                }
                self.entries.set(i, (path, payload));
                assert(self.model() == old(self).model().update(i as int, (path@, payload@)));
            },
            None => {
                proof {
                    let after = self.model().push((path@, payload@));
                    assert(after.drop_last() == self.model());
                }
                self.entries.push((path, payload));
                assert(self.model() == old(self).model().push((path@, payload@)));
            },
        }
    }
}

/// The replies that the network has given, by URL, and the requests made so
/// far. A reply is the bytes of a response body, or `None` for a request
/// that failed in transport.
pub struct Transport {
    replies: Vec<(String, Option<Vec<u8>>)>,
    requests: Vec<String>,
}

/// The mathematical value of a [`Transport`].
pub struct TransportView {
    /// The recorded replies. A URL without entry has not been answered yet.
    pub replies: Map<Seq<char>, Option<Seq<u8>>>,
    /// The URLs requested so far, oldest first.
    pub requests: Seq<Seq<char>>,
}

impl TransportView {
    /// What a request for `url` is answered with: the recorded body, and
    /// `None` where a failure or nothing is recorded for it.
    pub open spec fn answer(self, url: Seq<char>) -> Option<Seq<u8>> {
        if self.replies.contains_key(url) {
            self.replies[url]
        } else {
            None
        }
    }
}

impl View for Transport {
    type V = TransportView;

    closed spec fn view(&self) -> TransportView {
        TransportView {
            replies: table(self.model()),
            requests: Seq::new(self.requests@.len(), |i: int| self.requests@[i]@),
        }
    }
}

impl Transport {
    spec fn model(&self) -> Seq<(Seq<char>, Option<Seq<u8>>)> {
        Seq::new(
            self.replies@.len(),
            |i: int| (self.replies@[i].0@, option_view(self.replies@[i].1)),
        )
    }

    /// The transport without replies, of which nothing was requested yet.
    pub fn new() -> (transport: Transport)
        ensures
            transport@.replies == Map::<Seq<char>, Option<Seq<u8>>>::empty(),
            transport@.requests == Seq::<Seq<char>>::empty(),
    {
        let transport = Transport { replies: Vec::new(), requests: Vec::new() };
        assert(transport@.requests =~= Seq::<Seq<char>>::empty());
        transport
    }

    /// Records the reply to a request for `url`, in place of an earlier one.
    pub fn record(&mut self, url: String, reply: Option<Vec<u8>>)
        ensures
            final(self)@.replies == old(self)@.replies.insert(url@, option_view(reply)),
            final(self)@.requests == old(self)@.requests,
    {
        match find_last(&self.replies, url.as_str()) {
            Some(i) => {
                proof {
                    lemma_table_replace(self.model(), i as int, url@, option_view(reply));
                }
                self.replies.set(i, (url, reply));
                assert(self.model() == old(self).model().update(
                    i as int,
                    (url@, option_view(reply)),
                ));
            },
            None => {
                proof {
                    let after = self.model().push((url@, option_view(reply)));
                    assert(after.drop_last() == self.model());
                }
                self.replies.push((url, reply));
                assert(self.model() == old(self).model().push((url@, option_view(reply))));
            },
        }
        assert(self@.requests =~= old(self)@.requests);
    }

    /// Requests `url`: notes the request, and answers it with the recorded
    /// body. `None` stands for a network that could not be reached, which
    /// is also the answer where no reply is recorded.
    pub fn send(&mut self, url: &str) -> (body: Option<Vec<u8>>)
        ensures
            option_view(body) == old(self)@.answer(url@),
            final(self)@.replies == old(self)@.replies,
            final(self)@.requests == old(self)@.requests.push(url@),
    {
        self.requests.push(String::from_str(url));
        assert(self@.requests =~= old(self)@.requests.push(url@));
        assert(self.model() == old(self).model());
        let found = find_last(&self.replies, url);
        proof {
            lemma_table_lookup(
                self.model(),
                url@,
                match found {
                    Some(i) => Some(i as int),
                    None => None,
                },
            );
        }
        match found {
            Some(i) => match &self.replies[i].1 {
                Some(bytes) => {
                    let copy = bytes.clone();
                    assert(copy@ =~= bytes@);
                    Some(copy)
                },
                None => None,
            },
            None => None,
        }
    }

    /// How many requests were made.
    pub fn calls(&self) -> (count: usize)
        ensures
            count == self@.requests.len(),
    {
        self.requests.len()
    }

    /// The first request made for which no reply is recorded.
    pub fn first_unanswered(&self) -> (url: Option<String>)
        ensures
            option_view(url) == first_unanswered_of(self@.requests, self@.replies),
    {
        let ghost requests = self@.requests;
        assert(requests.skip(0) == requests);
        let mut i: usize = 0;
        while i < self.requests.len()
            invariant
                i <= self.requests@.len(),
                requests == self@.requests,
                requests.len() == self.requests@.len(),
                first_unanswered_of(requests, self@.replies) == first_unanswered_of(
                    requests.skip(i as int),
                    self@.replies,
                ),
            decreases self.requests.len() - i,
        {
            let found = find_last(&self.replies, self.requests[i].as_str());
            proof {
                lemma_table_lookup(
                    self.model(),
                    self.requests@[i as int]@,
                    match found {
                        Some(k) => Some(k as int),
                        None => None,
                    },
                );
                assert(requests.skip(i as int)[0] == self.requests@[i as int]@);
                assert(requests.skip(i as int).drop_first() == requests.skip(i as int + 1));
            }
            if found.is_none() {
                return Some(self.requests[i].clone());
            }
            i += 1;
        }
        None
    }
}

/// The fetch component: a cache in front of a transport.
pub struct Ergast {
    pub cache: Cache,
    pub transport: Transport,
}

/// The mathematical value of an [`Ergast`].
pub struct ErgastView {
    pub cache: Map<Seq<char>, JsonValue>,
    pub transport: TransportView,
}

impl View for Ergast {
    type V = ErgastView;

    open spec fn view(&self) -> ErgastView {
        ErgastView { cache: self.cache@, transport: self.transport@ }
    }
}

impl ErgastView {
    /// What a request over the transport gives for `path`: the payload of
    /// the document in the reply, `ApiNotReachable` where there is no body,
    /// `JsonDeserialization` where the body is no JSON document.
    pub open spec fn fetched(self, path: Seq<char>) -> Result<JsonValue, F1Error> {
        match self.transport.answer(url_of(path)) {
            Some(body) => match document_of(body) {
                Some(document) => Ok(payload_of(document)),
                None => Err(F1Error::JsonDeserialization),
            },
            None => Err(F1Error::ApiNotReachable),
        }
    }

    /// What `get` gives for `path`: the cached payload where there is one,
    /// else what a request gives.
    pub open spec fn resolved(self, path: Seq<char>) -> Result<JsonValue, F1Error> {
        if self.cache.contains_key(path) {
            Ok(self.cache[path])
        } else {
            self.fetched(path)
        }
    }

    /// What `get` gives, for every path.
    pub open spec fn world(self) -> Map<Seq<char>, Result<JsonValue, F1Error>> {
        Map::total(|path: Seq<char>| self.resolved(path))
    }

    /// The state in which `get` leaves the component: on a hit, the one it
    /// found; on a miss, one more request, and one more cache entry where
    /// the request gave a payload.
    pub open spec fn after_get(self, path: Seq<char>) -> ErgastView {
        if self.cache.contains_key(path) {
            self
        } else {
            ErgastView {
                cache: match self.fetched(path) {
                    Ok(payload) => self.cache.insert(path, payload),
                    Err(_) => self.cache,
                },
                transport: TransportView {
                    replies: self.transport.replies,
                    requests: self.transport.requests.push(url_of(path)),
                },
            }
        }
    }

    /// The state in which calls of `get` for `paths`, one after the other,
    /// leave the component.
    pub open spec fn after_gets(self, paths: Seq<Seq<char>>) -> ErgastView
        decreases paths.len(),
    {
        if paths.len() == 0 {
            self
        } else {
            self.after_gets(paths.drop_last()).after_get(paths.last())
        }
    }

    /// Whether `later` can come after `self` by calls of `get`: the replies
    /// are the same, no request is taken back, and every path is answered as
    /// before.
    pub open spec fn leads_to(self, later: ErgastView) -> bool {
        &&& later.world() == self.world()
        &&& later.transport.replies == self.transport.replies
        &&& self.transport.requests.is_prefix_of(later.transport.requests)
    }
}

/// The cache is transparent: a call of `get` changes for no path what a
/// later `get` gives.
pub proof fn lemma_get_keeps_world(state: ErgastView, path: Seq<char>)
    ensures
        state.after_get(path).world() == state.world(),
        state.leads_to(state.after_get(path)),
{
    let after = state.after_get(path);
    assert forall|other: Seq<char>| after.resolved(other) == state.resolved(other) by {}
    assert(after.world() =~= state.world());
}

/// One more call of `get` after some others.
pub proof fn lemma_after_gets_push(state: ErgastView, paths: Seq<Seq<char>>, path: Seq<char>)
    ensures
        state.after_gets(paths.push(path)) == state.after_gets(paths).after_get(path),
{
    assert(paths.push(path).drop_last() == paths);
}

/// Calls of `get` for some paths and then for others are calls for all of
/// them in that order.
pub proof fn lemma_after_gets_concat(
    state: ErgastView,
    first: Seq<Seq<char>>,
    second: Seq<Seq<char>>,
)
    ensures
        state.after_gets(first + second) == state.after_gets(first).after_gets(second),
    decreases second.len(),
{
    if second.len() == 0 {
        assert(first + second == first);
    } else {
        lemma_after_gets_concat(state, first, second.drop_last());
        assert((first + second).drop_last() == first + second.drop_last());
    }
}

/// However often `get` is called, every path is answered as before.
pub proof fn lemma_gets_keep_world(state: ErgastView, paths: Seq<Seq<char>>)
    ensures
        state.leads_to(state.after_gets(paths)),
    decreases paths.len(),
{
    if paths.len() > 0 {
        lemma_gets_keep_world(state, paths.drop_last());
        lemma_get_keeps_world(state.after_gets(paths.drop_last()), paths.last());
    }
}

/// The cache is idempotent: a second `get` of a path gives what the first
/// gave, and where the first gave a payload the second makes no request and
/// changes nothing.
pub proof fn lemma_cache_idempotence(state: ErgastView, path: Seq<char>)
    ensures
        state.after_get(path).resolved(path) == state.resolved(path),
        state.resolved(path) is Ok ==> state.after_get(path).after_get(path) == state.after_get(
            path,
        ),
        state.resolved(path) is Ok ==> state.after_get(path).after_get(path).transport.requests
            == state.after_get(path).transport.requests,
{
}

/// What leads from a first state to a second and from there to a third
/// leads from the first to the third.
pub proof fn lemma_leads_to_transitive(first: ErgastView, second: ErgastView, third: ErgastView)
    requires
        first.leads_to(second),
        second.leads_to(third),
    ensures
        first.leads_to(third),
{
}

/// The URL that is requested for a resource path.
pub fn request_url(path: &str) -> (url: String)
    ensures
        url@ == url_of(path@),
{
    let mut url = String::from_str(BASE_URL);
    url.append("/");
    url.append(path);
    url.append(".json");
    url
}

impl Ergast {
    /// The component with an empty cache in front of `transport`.
    pub fn new(transport: Transport) -> (client: Ergast)
        ensures
            client@.cache == Map::<Seq<char>, JsonValue>::empty(),
            client@.transport == transport@,
    {
        Ergast { cache: Cache::new(), transport }
    }
}

/// The payload of a response document.
pub fn payload(document: &Json) -> (payload: Json)
    ensures
        payload@ == payload_of(document@),
{
    match document.member("MRData") {
        Some(found) => found.clone(),
        None => Json::Null,
    }
}

/// Gets the payload for a resource path: from the cache where it is held,
/// else by a request, whose payload is then cached. A failed request and a
/// body that is no JSON document are reported and leave the cache as it was.
pub fn get(client: &mut Ergast, path: String) -> (response: Result<Json, F1Error>)
    ensures
        result_view(response) == old(client)@.resolved(path@),
        final(client)@ == old(client)@.after_get(path@),
        old(client)@.leads_to(final(client)@),
{
    proof {
        lemma_get_keeps_world(client@, path@);
    }
    match client.cache.lookup(path.as_str()) {
        Some(hit) => {
            return Ok(hit);
        },
        None => {},
    }
    let url = request_url(path.as_str());
    let body = match client.transport.send(url.as_str()) {
        Some(body) => body,
        None => {
            return Err(F1Error::ApiNotReachable);
        },
    };
    let document = match Json::parse(&body) {
        Ok(document) => document,
        Err(error) => {
            return Err(error);
        },
    };
    let found = payload(&document);
    client.cache.insert(path, found.clone());
    Ok(found)
}

} // verus!
