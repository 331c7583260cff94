//! The registry of local peers, and how a remote peer's id is found.

use vstd::prelude::*;
use vstd::hash_map::StringHashMap;
use vstd::string::{StrSliceExecFns, StringExecFns};

verus! {

/// All characters of `s`, in order.
pub fn collect_chars(s: &str) -> (res: Vec<char>)
    ensures
        res@ == s@,
{
    broadcast use vstd::string::group_string_axioms;

    let mut res: Vec<char> = Vec::new();
    for c in it: s.chars()
        invariant
            res@ == it.seq().take(it.index() as int),
    {
        res.push(c);
    }
    res
}

/// `pat` occurs in `s` starting at index `i`.
pub open spec fn occurs_at(s: Seq<char>, pat: Seq<char>, i: int) -> bool {
    &&& 0 <= i
    &&& i + pat.len() <= s.len()
    &&& forall|j: int| 0 <= j < pat.len() ==> s[i + j] == #[trigger] pat[j]
}

/// The first index at or after `i` at which `pat` occurs in `s`.
pub open spec fn find_from(s: Seq<char>, pat: Seq<char>, i: int) -> Option<int>
    decreases s.len() - i,
{
    if i < 0 || i + pat.len() > s.len() {
        None
    } else if occurs_at(s, pat, i) {
        Some(i)
    } else {
        find_from(s, pat, i + 1)
    }
}

/// A found occurrence is at or after the start, and is one.
pub proof fn lemma_find_from_found(s: Seq<char>, pat: Seq<char>, i: int)
    ensures
        find_from(s, pat, i) matches Some(k) ==> i <= k && occurs_at(s, pat, k),
    decreases s.len() - i,
{
    if i < 0 || i + pat.len() > s.len() {
    } else if occurs_at(s, pat, i) {
    } else {
        lemma_find_from_found(s, pat, i + 1);
    }
}

/// Whether `needle` occurs in `hay` at index `i`.
fn matches_at(hay: &Vec<char>, needle: &Vec<char>, i: usize) -> (res: bool)
    requires
        i + needle@.len() <= hay@.len() <= usize::MAX,
    ensures
        res == occurs_at(hay@, needle@, i as int),
{
    let mut j: usize = 0;
    while j < needle.len()
        invariant
            0 <= j <= needle@.len(),
            i + needle@.len() <= hay@.len() <= usize::MAX,
            forall|k: int| 0 <= k < j ==> hay@[i + k] == #[trigger] needle@[k],
        decreases needle@.len() - j,
    {
        if hay[i + j] != needle[j] {
            return false;
        }
        j = j + 1;
    }
    true
}

/// The first index at or after `start` at which `needle` occurs in `hay`.
pub fn find_text(hay: &Vec<char>, needle: &Vec<char>, start: usize) -> (res: Option<usize>)
    requires
        start <= hay@.len(),
    ensures
        match res {
            Some(i) => find_from(hay@, needle@, start as int) == Some(i as int),
            None => find_from(hay@, needle@, start as int) is None,
        },
        res matches Some(i) ==> i + needle@.len() <= hay@.len() <= usize::MAX,
{
    let mut i = start;
    while needle.len() <= hay.len() - i
        invariant
            start <= i <= hay@.len(),
            find_from(hay@, needle@, start as int) == find_from(hay@, needle@, i as int),
        decreases hay@.len() - i,
    {
        if matches_at(hay, needle, i) {
            return Some(i);
        }
        i = i + 1;
    }
    None
}

/// The text that opens a key in the printed form of an endpoint address.
pub open spec fn key_marker() -> Seq<char> {
    seq!['P', 'u', 'b', 'l', 'i', 'c', 'K', 'e', 'y', '(']
}

/// The key text in a printed endpoint address: what stands between the first
/// `PublicKey(` and the first `)` after it, if both are there.
pub open spec fn marked_key_text(addr: Seq<char>) -> Option<Seq<char>> {
    match find_from(addr, key_marker(), 0) {
        Some(start) => match find_from(addr, seq![')'], start + 10) {
            Some(end) => Some(addr.subrange(start + 10, end)),
            None => None,
        },
        None => None,
    }
}

/// The text to read a peer's key from: the key in its printed address, else its id.
pub open spec fn endpoint_key_text(addr: Seq<char>, fallback_id: Seq<char>) -> Seq<char> {
    match marked_key_text(addr) {
        Some(text) => text,
        None => fallback_id,
    }
}

/// What `iroh::PublicKey::from_str` makes of `text`: the key's 32 bytes, or
/// the text of its error.
pub uninterp spec fn public_key_parse(text: Seq<char>) -> Result<Seq<u8>, Seq<char>>;

/// Calls `iroh::PublicKey::from_str` on `text` (through `str::parse`): the
/// parsed key's 32 bytes (`as_bytes`), or the error's `Display` text. The
/// contract names the result; it states nothing of which texts parse.
#[verifier::external_body]
fn parse_public_key(text: &str) -> (res: Result<[u8; 32], String>)
    ensures
        match res {
            Ok(key) => public_key_parse(text@) == Ok::<Seq<u8>, Seq<char>>(key@),
            Err(e) => public_key_parse(text@) == Err::<Seq<u8>, Seq<char>>(e@),
        },
{
    match text.parse::<iroh::PublicKey>() {
        Ok(key) => Ok(*key.as_bytes()),
        Err(e) => Err(e.to_string()),
    }
}

/// A parse result as plain values.
pub open spec fn key_result_view(res: Result<[u8; 32], String>) -> Result<Seq<u8>, Seq<char>> {
    match res {
        Ok(key) => Ok(key@),
        Err(e) => Err(e@),
    }
}

/// The key of a peer whose printed endpoint address is `bind_addr`: the key
/// printed in it, or else the key that `fallback_id` spells.
pub fn peer_endpoint_key(bind_addr: &str, fallback_id: &str) -> (res: Result<[u8; 32], String>)
    ensures
        key_result_view(res) == public_key_parse(endpoint_key_text(bind_addr@, fallback_id@)),
{
    let chars = collect_chars(bind_addr);
    let mut marker: Vec<char> = Vec::new();
    marker.push('P');
    marker.push('u');
    marker.push('b');
    marker.push('l');
    marker.push('i');
    marker.push('c');
    marker.push('K');
    marker.push('e');
    marker.push('y');
    marker.push('(');
    assert(marker@ =~= key_marker());
    if let Some(start) = find_text(&chars, &marker, 0) {
        proof {
            lemma_find_from_found(chars@, marker@, 0);
        }
        let mut close: Vec<char> = Vec::new();
        close.push(')');
        assert(close@ =~= seq![')']);
        let rest = start + 10;
        if let Some(end) = find_text(&chars, &close, rest) {
            proof {
                lemma_find_from_found(chars@, close@, rest as int);
            }
            let text = bind_addr.substring_char(rest, end);
            return parse_public_key(text);
        }
    }
    parse_public_key(fallback_id)
}

/// A local peer as the registry knows it.
pub struct PeerEntry<H> {
    /// The printed form of the peer's endpoint address.
    pub bind_addr: String,
    /// What the caller keeps to talk to the peer.
    pub handle: H,
}

/// The local peers by node id.
#[verifier::reject_recursive_types(H)]
pub struct PeerRegistry<H> {
    peers: StringHashMap<PeerEntry<H>>,
}

impl<H> View for PeerRegistry<H> {
    type V = Map<Seq<char>, PeerEntry<H>>;

    closed spec fn view(&self) -> Map<Seq<char>, PeerEntry<H>> {
        self.peers@
    }
}

/// The key that dialing `remote` uses, given the registered peers: a local
/// peer's key is read from its printed address (falling back to its id); any
/// other id is parsed as a key, and a failure is reported as an invalid id.
pub open spec fn resolve_remote<H>(peers: Map<Seq<char>, PeerEntry<H>>, remote: Seq<char>) -> Result<Seq<u8>, Seq<char>> {
    if peers.contains_key(remote) {
        public_key_parse(endpoint_key_text(peers[remote].bind_addr@, remote))
    } else {
        match public_key_parse(remote) {
            Ok(key) => Ok(key),
            Err(e) => Err("invalid remote node id: "@ + e),
        }
    }
}

impl<H> PeerRegistry<H> {
    /// No peers.
    pub fn new() -> (res: Self)
        ensures
            res@ == Map::<Seq<char>, PeerEntry<H>>::empty(),
    {
        PeerRegistry { peers: StringHashMap::new() }
    }

    /// Records a started peer under its node id (replacing an earlier one).
    pub fn register(&mut self, node_id: String, bind_addr: String, handle: H)
        ensures
            final(self)@ == old(self)@.insert(node_id@, PeerEntry { bind_addr, handle }),
    {
        self.peers.insert(node_id, PeerEntry { bind_addr, handle });
    }

    /// The peer registered under `node_id`, or the error for an unknown one.
    pub fn get_peer(&self, node_id: &str) -> (res: Result<&PeerEntry<H>, String>)
        ensures
            match res {
                Ok(entry) => self@.contains_key(node_id@) && *entry == self@[node_id@],
                Err(message) => !self@.contains_key(node_id@) && message@ == "unknown peer: "@
                    + node_id@,
            },
    {
        match self.peers.get(node_id) {
            Some(entry) => Ok(entry),
            None => {
                let mut message = String::from_str("unknown peer: ");
                message.append(node_id);
                Err(message)
            },
        }
    }

    /// The printed endpoint address of the peer registered under `node_id`.
    pub fn peer_endpoint(&self, node_id: &str) -> (res: Result<String, String>)
        ensures
            match res {
                Ok(addr) => self@.contains_key(node_id@) && addr@ == self@[node_id@].bind_addr@,
                Err(message) => !self@.contains_key(node_id@) && message@ == "unknown peer: "@
                    + node_id@,
            },
    {
        let entry = self.get_peer(node_id)?;
        Ok(entry.bind_addr.clone())
    }

    /// Forgets the peer registered under `node_id`, if any.
    pub fn remove(&mut self, node_id: &str)
        ensures
            final(self)@ == old(self)@.remove(node_id@),
    {
        self.peers.remove(node_id);
    }

    /// The key to dial for `remote` (a node id).
    pub fn resolve_remote_addr(&self, remote: &str) -> (res: Result<[u8; 32], String>)
        ensures
            key_result_view(res) == resolve_remote(self@, remote@),
    {
        match self.peers.get(remote) {
            Some(entry) => peer_endpoint_key(entry.bind_addr.as_str(), remote),
            None => match parse_public_key(remote) {
                Ok(key) => Ok(key),
                Err(e) => {
                    let mut message = String::from_str("invalid remote node id: ");
                    message.append(e.as_str());
                    Err(message)
                },
            },
        }
    }
}

/// The search result is exact: a found index is the first occurrence at or
/// after `i`, and when nothing is found `pat` occurs nowhere from `i` on.
pub proof fn lemma_find_from_exact(s: Seq<char>, pat: Seq<char>, i: int)
    requires
        0 <= i,
    ensures
        match find_from(s, pat, i) {
            Some(k) => i <= k && occurs_at(s, pat, k) && forall|j: int|
                i <= j < k ==> !#[trigger] occurs_at(s, pat, j),
            None => forall|j: int| i <= j ==> !#[trigger] occurs_at(s, pat, j),
        },
    decreases s.len() - i,
{
    if i + pat.len() > s.len() {
    } else if occurs_at(s, pat, i) {
    } else {
        lemma_find_from_exact(s, pat, i + 1);
    }
}

/// `PublicKey(` stands in `addr` at index `s`.
pub open spec fn marker_at(addr: Seq<char>, s: int) -> bool {
    0 <= s && s + 10 <= addr.len() && addr.subrange(s, s + 10) == key_marker()
}

proof fn lemma_marker_at_is_occurrence(addr: Seq<char>, s: int)
    ensures
        marker_at(addr, s) <==> occurs_at(addr, key_marker(), s),
{
    if occurs_at(addr, key_marker(), s) {
        assert(addr.subrange(s, s + 10) =~= key_marker());
    }
    if marker_at(addr, s) {
        assert forall|j: int| 0 <= j < 10 implies addr[s + j] == #[trigger] key_marker()[j] by {
            assert(addr.subrange(s, s + 10)[j] == addr[s + j]);
        }
    }
}

/// The key text read from a printed address is what stands between the
/// first `PublicKey(` and the first `)` after it: it holds no `)`, and a `)`
/// follows it right away. When there is no such text, either there is no
/// `PublicKey(` or no `)` follows the first one.
pub proof fn law_key_text_ends_at_first_close(addr: Seq<char>)
    ensures
        match marked_key_text(addr) {
            Some(t) => exists|s: int|
                #![trigger marker_at(addr, s)]
                {
                    &&& marker_at(addr, s)
                    &&& forall|j: int| 0 <= j < s ==> !#[trigger] marker_at(addr, j)
                    &&& s + 10 + t.len() < addr.len()
                    &&& addr.subrange(s + 10, s + 10 + t.len()) == t
                    &&& addr[s + 10 + t.len()] == ')'
                    &&& forall|k: int| 0 <= k < t.len() ==> #[trigger] t[k] != ')'
                },
            None => forall|s: int|
                #![trigger marker_at(addr, s)]
                marker_at(addr, s) && (forall|j: int| 0 <= j < s ==> !#[trigger] marker_at(addr, j))
                    ==> forall|e: int| s + 10 <= e < addr.len() ==> #[trigger] addr[e] != ')',
        },
{
    let close = seq![')'];
    lemma_find_from_exact(addr, key_marker(), 0);
    assert forall|j: int| #[trigger] marker_at(addr, j) <==> occurs_at(addr, key_marker(), j) by {
        lemma_marker_at_is_occurrence(addr, j);
    }
    assert forall|e: int| #[trigger] occurs_at(addr, close, e) <==> (0 <= e < addr.len() && addr[e] == ')') by {
        if 0 <= e < addr.len() && addr[e] == ')' {
            assert forall|j: int| 0 <= j < 1 implies addr[e + j] == #[trigger] close[j] by {}
        }
        if occurs_at(addr, close, e) {
            assert(addr[e + 0] == close[0]);
        }
    }
    match find_from(addr, key_marker(), 0) {
        Some(start) => {
            lemma_find_from_exact(addr, close, start + 10);
            match find_from(addr, close, start + 10) {
                Some(end) => {
                    let t = addr.subrange(start + 10, end);
                    assert(marker_at(addr, start));
                    assert(t.len() == end - start - 10);
                    assert(addr.subrange(start + 10, start + 10 + t.len()) =~= t);
                    assert forall|k: int| 0 <= k < t.len() implies #[trigger] t[k] != ')' by {
                        assert(t[k] == addr[start + 10 + k]);
                        assert(!occurs_at(addr, close, start + 10 + k));
                    }
                },
                None => {
                    assert forall|s: int|
                        #![trigger marker_at(addr, s)]
                        marker_at(addr, s) && (forall|j: int| 0 <= j < s ==> !#[trigger] marker_at(addr, j))
                        implies forall|e: int| s + 10 <= e < addr.len() ==> #[trigger] addr[e] != ')' by {
                        if s < start {
                            assert(marker_at(addr, start));
                        } else if s > start {
                            assert(!marker_at(addr, start));
                        }
                        assert forall|e: int| s + 10 <= e < addr.len() implies #[trigger] addr[e] != ')' by {
                            assert(!occurs_at(addr, close, e));
                        }
                    }
                },
            }
        },
        None => {},
    }
}

/// An address printed as `PublicKey(`, a key text without `)`, `)` and
/// anything at all after it yields exactly that key text.
pub proof fn law_key_read_from_printed_address(key: Seq<char>, suffix: Seq<char>)
    requires
        forall|k: int| 0 <= k < key.len() ==> #[trigger] key[k] != ')',
    ensures
        marked_key_text(key_marker() + key + seq![')'] + suffix) == Some(key),
{
    let addr = key_marker() + key + seq![')'] + suffix;
    assert(marker_at(addr, 0)) by {
        assert(addr.subrange(0, 10) =~= key_marker());
    }
    law_key_text_ends_at_first_close(addr);
    match marked_key_text(addr) {
        Some(t) => {
            let s = choose|s: int|
                #![trigger marker_at(addr, s)]
                {
                    &&& marker_at(addr, s)
                    &&& forall|j: int| 0 <= j < s ==> !#[trigger] marker_at(addr, j)
                    &&& s + 10 + t.len() < addr.len()
                    &&& addr.subrange(s + 10, s + 10 + t.len()) == t
                    &&& addr[s + 10 + t.len()] == ')'
                    &&& forall|k: int| 0 <= k < t.len() ==> #[trigger] t[k] != ')'
                };
            if s > 0 {
                assert(!marker_at(addr, 0));
            }
            assert(s == 0);
            assert(addr[10 + key.len() as int] == ')');
            if t.len() < key.len() {
                assert(addr.subrange(10, 10 + t.len() as int)[t.len() as int] == addr[10 + t.len() as int]);
                assert(addr[10 + t.len() as int] == key[t.len() as int]);
            } else if t.len() > key.len() {
                assert(t[key.len() as int] == addr[10 + key.len() as int]);
            }
            assert(t.len() == key.len());
            assert(t =~= key);
        },
        None => {
            assert(addr[10 + key.len() as int] == ')');
        },
    }
}

/// Looking up a node id right after registering it finds what was
/// registered; after removing it, it is unknown; other ids are untouched.
pub proof fn law_register_then_lookup<H>(
    peers: Map<Seq<char>, PeerEntry<H>>,
    node_id: Seq<char>,
    entry: PeerEntry<H>,
    other: Seq<char>,
)
    ensures
        peers.insert(node_id, entry).contains_key(node_id),
        peers.insert(node_id, entry)[node_id] == entry,
        !peers.insert(node_id, entry).remove(node_id).contains_key(node_id),
        other != node_id ==> peers.insert(node_id, entry).contains_key(other) == peers.contains_key(other),
        other != node_id ==> peers.remove(node_id).contains_key(other) == peers.contains_key(other),
{
}

} // verus!
