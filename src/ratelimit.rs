use vstd::prelude::*;
use crate::keys::{counter_key, counter_key_of};
use crate::record::text_opt;
use crate::store::{StoreError, TokenStore};

verus! {

/// The characters that Rust's `char::is_whitespace` accepts: Unicode White_Space.
pub open spec fn is_space(c: char) -> bool {
    ('\u{9}' <= c && c <= '\u{d}') || c == ' ' || c == '\u{85}' || c == '\u{a0}' || c
        == '\u{1680}' || ('\u{2000}' <= c && c <= '\u{200a}') || c == '\u{2028}' || c
        == '\u{2029}' || c == '\u{202f}' || c == '\u{205f}' || c == '\u{3000}'
}

fn space_char(c: char) -> (r: bool)
    ensures
        r == is_space(c),
{
    ('\u{9}' <= c && c <= '\u{d}') || c == ' ' || c == '\u{85}' || c == '\u{a0}' || c
        == '\u{1680}' || ('\u{2000}' <= c && c <= '\u{200a}') || c == '\u{2028}' || c
        == '\u{2029}' || c == '\u{202f}' || c == '\u{205f}' || c == '\u{3000}'
}

/// The text before the first comma of `s` is `s[..cut]`; inside it, `s[lo..hi]`
/// has only white space around it and no white space at either of its ends.
pub open spec fn hop_bounds(s: Seq<char>, cut: int, lo: int, hi: int) -> bool {
    &&& 0 <= lo <= hi <= cut <= s.len()
    &&& cut == s.len() || s[cut] == ','
    &&& forall|j: int| 0 <= j < cut ==> s[j] != ','
    &&& forall|j: int| 0 <= j < lo ==> is_space(s[j])
    &&& forall|j: int| hi <= j < cut ==> is_space(s[j])
    &&& lo < hi ==> !is_space(s[lo]) && !is_space(s[hi - 1])
}

/// `hop` is the first entry of the comma-separated list `s`, without the white
/// space around it.
pub open spec fn is_first_hop(s: Seq<char>, hop: Seq<char>) -> bool {
    exists|cut: int, lo: int, hi: int| #[trigger] hop_bounds(s, cut, lo, hi) && hop == s.subrange(lo, hi)
}

/// The first entry of a forwarded-for list, trimmed of white space.
pub fn first_hop(s: &str) -> (r: String)
    ensures
        is_first_hop(s@, r@),
{
    let n = s.unicode_len();
    let mut cut: usize = 0;
    while cut < n && s.get_char(cut) != ','
        invariant
            n == s@.len(),
            cut <= n,
            forall|j: int| 0 <= j < cut ==> s@[j] != ',',
        decreases n - cut,
    {
        cut = cut + 1;
    }
    let mut lo: usize = 0;
    while lo < cut && space_char(s.get_char(lo))
        invariant
            n == s@.len(),
            lo <= cut <= n,
            forall|j: int| 0 <= j < lo ==> is_space(s@[j]),
        decreases cut - lo,
    {
        lo = lo + 1;
    }
    let mut hi: usize = cut;
    while hi > lo && space_char(s.get_char(hi - 1))
        invariant
            n == s@.len(),
            lo <= hi <= cut <= n,
            forall|j: int| hi <= j < cut ==> is_space(s@[j]),
        decreases hi - lo,
    {
        hi = hi - 1;
    }
    let r = String::from_str(s.substring_char(lo, hi));
    assert(hop_bounds(s@, cut as int, lo as int, hi as int));
    r
}

/// The first hop that a forwarded-for header gives; none without the header.
pub open spec fn is_header_hop(header: Option<Seq<char>>, hop: Seq<char>) -> bool {
    match header {
        Some(s) => is_first_hop(s, hop),
        None => hop.len() == 0,
    }
}

/// The identity under which a client is counted: the first hop of the
/// forwarded-for header when that is not empty, else the connection's address,
/// else `unknown`.
pub open spec fn client_identity_of(hop: Seq<char>, peer: Option<Seq<char>>) -> Seq<char> {
    if hop.len() > 0 {
        hop
    } else {
        match peer {
            Some(p) => p,
            None => "unknown"@,
        }
    }
}

/// Picks the identity under which a request is counted, from the
/// forwarded-for header and the connection's address.
pub fn client_identity(forwarded_for: Option<String>, peer: Option<String>) -> (r: String)
    ensures
        exists|hop: Seq<char>|
            #[trigger] is_header_hop(text_opt(forwarded_for), hop) && r@ == client_identity_of(
                hop,
                text_opt(peer),
            ),
{
    let hop = match &forwarded_for {
        Some(f) => first_hop(f.as_str()),
        None => String::new(),
    };
    assert(is_header_hop(text_opt(forwarded_for), hop@));
    if hop.unicode_len() > 0 {
        return hop;
    }
    match peer {
        Some(p) => p,
        None => String::from_str("unknown"),
    }
}

/// The count that a client's counter holds after one more request.
pub open spec fn count_after(counters: Map<Seq<char>, u64>, client: Seq<char>) -> int {
    let k = counter_key_of(client);
    if counters.contains_key(k) {
        counters[k] + 1
    } else {
        1
    }
}

/// Fixed-window admission: counts the request under the client's counter and
/// admits it while the count does not exceed `max`. The first request of a
/// window starts the window: its counter lapses `window_secs` seconds later (at
/// once where that is zero). A counter at `u64::MAX` cannot count on, which is
/// an error.
pub fn rate_limit<S: TokenStore>(store: &mut S, client: &str, max: u64, window_secs: u64) -> (r:
    Result<bool, StoreError>)
    requires
        old(store).valid(),
    ensures
        final(store).valid(),
        r is Ok ==> r->Ok_0 == (count_after(old(store).counters(), client@) <= max),
        r is Ok ==> final(store).counters() == if count_after(old(store).counters(), client@) == 1
            && window_secs == 0 {
            old(store).counters().remove(counter_key_of(client@))
        } else {
            old(store).counters().insert(
                counter_key_of(client@),
                count_after(old(store).counters(), client@) as u64,
            )
        },
        old(store).available() && count_after(old(store).counters(), client@) <= u64::MAX ==> r is Ok
            && final(store).available(),
        r is Err ==> final(store).counters() == old(store).counters() || final(store).counters()
            == old(store).counters().insert(counter_key_of(client@), 1),
        final(store).records() == old(store).records(),
        final(store).pointers() == old(store).pointers(),
{
    let k = counter_key(client);
    let count = match store.increment(&k) {
        Ok(c) => c,
        Err(e) => return Err(e),
    };
    if count == 1 {
        match store.expire(&k, window_secs) {
            Ok(()) => {},
            Err(e) => return Err(e),
        }
    }
    Ok(count <= max)
}

} // verus!
