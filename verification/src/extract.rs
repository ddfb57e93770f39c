//! Extraction of client-identifying data from an inbound request.
//!
//! The transport layer hands the library the request's headers as a sequence
//! of `(name, value)` pairs in wire order, where a value of `None` marks a
//! header whose bytes could not be decoded as text, together with the textual
//! form of the peer address's IP component.

use vstd::prelude::*;

verus! {

/// True when `d` is `c` with an ASCII upper-case letter folded to lower case.
pub open spec fn char_lower_matches(c: char, d: char) -> bool {
    if 65 <= c as u32 <= 90 {
        d as u32 == c as u32 + 32
    } else {
        d == c
    }
}

/// True when `b` is `a` with every ASCII upper-case letter folded to lower
/// case: header names match case-insensitively, as they do on the wire.
pub open spec fn lower_eq(a: Seq<char>, b: Seq<char>) -> bool {
    a.len() == b.len() && (forall|i: int| 0 <= i < a.len() ==> char_lower_matches(a[i], b[i]))
}

/// The view of one raw header pair: name and, where the value decoded as
/// text, the value.
pub open spec fn raw_pair_view(p: (String, Option<String>)) -> (Seq<char>, Option<Seq<char>>) {
    (
        p.0@,
        match p.1 {
            Some(v) => Some(v@),
            None => None,
        },
    )
}

/// The view of the raw header sequence.
pub open spec fn raw_view(h: Seq<(String, Option<String>)>) -> Seq<(Seq<char>, Option<Seq<char>>)> {
    h.map_values(|p: (String, Option<String>)| raw_pair_view(p))
}

/// The first header whose name folds to `name`: its decoded value, or `None`
/// either when no such header exists or when the first one's value did not
/// decode as text.
pub open spec fn lookup_raw(
    h: Seq<(Seq<char>, Option<Seq<char>>)>,
    name: Seq<char>,
) -> Option<Seq<char>>
    decreases h.len(),
{
    if h.len() == 0 {
        None
    } else if lower_eq(h[0].0, name) {
        h[0].1
    } else {
        lookup_raw(h.drop_first(), name)
    }
}

/// The number of characters before the first comma (the whole length when
/// there is none).
pub open spec fn comma_pos(s: Seq<char>) -> int
    decreases s.len(),
{
    if s.len() == 0 {
        0
    } else if s[0] == ',' {
        0
    } else {
        1 + comma_pos(s.drop_first())
    }
}

/// The text up to (excluding) the first comma.
pub open spec fn before_comma(s: Seq<char>) -> Seq<char> {
    s.take(comma_pos(s))
}

/// The whitespace trimmed from a forwarding-header entry: the Unicode
/// White_Space set, the characters that `str::trim` removes.
pub open spec fn is_space(c: char) -> bool {
    (9 <= c as u32 <= 13) || c as u32 == 32 || c as u32 == 0x85 || c as u32 == 0xa0 || c as u32
        == 0x1680 || (0x2000 <= c as u32 <= 0x200a) || c as u32 == 0x2028 || c as u32 == 0x2029
        || c as u32 == 0x202f || c as u32 == 0x205f || c as u32 == 0x3000
}

/// `s` with leading whitespace removed.
pub open spec fn trim_front(s: Seq<char>) -> Seq<char>
    decreases s.len(),
{
    if s.len() > 0 && is_space(s[0]) {
        trim_front(s.drop_first())
    } else {
        s
    }
}

/// `s` with trailing whitespace removed.
pub open spec fn trim_back(s: Seq<char>) -> Seq<char>
    decreases s.len(),
{
    if s.len() > 0 && is_space(s.last()) {
        trim_back(s.drop_last())
    } else {
        s
    }
}

/// `s` with surrounding whitespace removed.
pub open spec fn spec_trim(s: Seq<char>) -> Seq<char> {
    trim_back(trim_front(s))
}

/// The client IP reported for a request: the first `X-Forwarded-For` entry
/// (trimmed, no format validation) when that header is present with a
/// decodable value; else the full `X-Real-IP` value under the same condition;
/// else the peer address's IP component.
pub open spec fn spec_client_ip(
    h: Seq<(Seq<char>, Option<Seq<char>>)>,
    peer: Seq<char>,
) -> Seq<char> {
    match lookup_raw(h, "x-forwarded-for"@) {
        Some(v) => spec_trim(before_comma(v)),
        None => match lookup_raw(h, "x-real-ip"@) {
            Some(v) => v,
            None => peer,
        },
    }
}

/// The reported user agent: the decoded `User-Agent` value, or `"Unknown"`.
pub open spec fn spec_user_agent(h: Seq<(Seq<char>, Option<Seq<char>>)>) -> Seq<char> {
    match lookup_raw(h, "user-agent"@) {
        Some(v) => v,
        None => "Unknown"@,
    }
}

/// The view of a collected header pair sequence.
pub open spec fn pairs_view(h: Seq<(String, String)>) -> Seq<(Seq<char>, Seq<char>)> {
    h.map_values(|p: (String, String)| (p.0@, p.1@))
}

/// The mapping that a pair sequence denotes, later pairs overriding earlier
/// ones of the same name.
pub open spec fn pairs_map(s: Seq<(Seq<char>, Seq<char>)>) -> Map<Seq<char>, Seq<char>>
    decreases s.len(),
{
    if s.len() == 0 {
        Map::empty()
    } else {
        pairs_map(s.drop_last()).insert(s.last().0, s.last().1)
    }
}

/// The header mapping collected from the raw headers: every decodable value
/// under its name as received, duplicates collapsing to the last occurrence,
/// undecodable values dropped.
pub open spec fn collected(h: Seq<(Seq<char>, Option<Seq<char>>)>) -> Map<Seq<char>, Seq<char>>
    decreases h.len(),
{
    if h.len() == 0 {
        Map::empty()
    } else {
        match h.last().1 {
            Some(v) => collected(h.drop_last()).insert(h.last().0, v),
            None => collected(h.drop_last()),
        }
    }
}

/// True when no two pairs share a name.
pub open spec fn unique_keys(s: Seq<(Seq<char>, Seq<char>)>) -> bool {
    forall|i: int, j: int| 0 <= i < j < s.len() ==> s[i].0 != s[j].0
}

/// `s` with the first pair named `key` replaced by `(key, v)`, or `(key, v)`
/// appended when no pair has that name.
pub open spec fn upsert(
    s: Seq<(Seq<char>, Seq<char>)>,
    key: Seq<char>,
    v: Seq<char>,
) -> Seq<(Seq<char>, Seq<char>)>
    decreases s.len(),
{
    if s.len() == 0 {
        seq![(key, v)]
    } else if s[0].0 == key {
        seq![(key, v)] + s.drop_first()
    } else {
        seq![s[0]] + upsert(s.drop_first(), key, v)
    }
}

/// One raw header folded into the collected pairs: a decodable value is
/// upserted under its name, an undecodable one changes nothing.
pub open spec fn collect_step(
    acc: Seq<(Seq<char>, Seq<char>)>,
    p: (Seq<char>, Option<Seq<char>>),
) -> Seq<(Seq<char>, Seq<char>)> {
    match p.1 {
        Some(v) => upsert(acc, p.0, v),
        None => acc,
    }
}

/// The collected pairs after folding `h` into `acc`, in wire order.
pub open spec fn collect_from(
    acc: Seq<(Seq<char>, Seq<char>)>,
    h: Seq<(Seq<char>, Option<Seq<char>>)>,
) -> Seq<(Seq<char>, Seq<char>)>
    decreases h.len(),
{
    if h.len() == 0 {
        acc
    } else {
        collect_from(collect_step(acc, h[0]), h.drop_first())
    }
}

/// The collected header pairs of a request: names in order of first
/// occurrence, each carrying the last decodable value given for it.
pub open spec fn spec_collect(
    h: Seq<(Seq<char>, Option<Seq<char>>)>,
) -> Seq<(Seq<char>, Seq<char>)> {
    collect_from(Seq::empty(), h)
}

/// Everything extracted from one request: client IP, user agent, and the
/// collected header pairs (unique names).
pub struct ClientInfo {
    pub ip: String,
    pub user_agent: String,
    pub headers: Vec<(String, String)>,
}

impl ClientInfo {
    /// Well-formedness: the collected header names are unique.
    pub open spec fn wf(&self) -> bool {
        unique_keys(pairs_view(self.headers@))
    }

    /// The header mapping this value carries.
    pub open spec fn headers_map(&self) -> Map<Seq<char>, Seq<char>> {
        pairs_map(pairs_view(self.headers@))
    }
}

fn char_lower_is(c: char, d: char) -> (r: bool)
    ensures
        r == char_lower_matches(c, d),
{
    let cu = c as u32;
    let du = d as u32;
    if 65 <= cu && cu <= 90 {
        du == cu + 32
    } else {
        proof {
            assert(c as u32 == d as u32 ==> c == d);
        }
        cu == du
    }
}

/// Does `key`, case-folded, equal the (already lower-case) `name`?
fn name_matches(key: &String, name: &str) -> (r: bool)
    ensures
        r == lower_eq(key@, name@),
{
    let ks = key.as_str();
    let kn = ks.unicode_len();
    let nn = name.unicode_len();
    if kn != nn {
        return false;
    }
    let mut i: usize = 0;
    while i < kn
        invariant
            i <= kn,
            kn == key@.len(),
            kn == name@.len(),
            ks@ == key@,
            forall|j: int| 0 <= j < i ==> char_lower_matches(key@[j], name@[j]),
        decreases kn - i,
    {
        let c = ks.get_char(i);
        let d = name.get_char(i);
        if !char_lower_is(c, d) {
            return false;
        }
        i = i + 1;
    }
    true
}

/// The first header whose name case-folds to `name` (which the caller gives
/// in lower case): its value as delivered.
fn lookup_header(headers: &Vec<(String, Option<String>)>, name: &str) -> (r: Option<String>)
    ensures
        match r {
            Some(v) => lookup_raw(raw_view(headers@), name@) == Some(v@),
            None => lookup_raw(raw_view(headers@), name@) is None,
        },
{
    let n = headers.len();
    let mut i: usize = 0;
    proof {
        assert(raw_view(headers@).skip(0) =~= raw_view(headers@));
    }
    while i < n
        invariant
            i <= n,
            n == headers@.len(),
            lookup_raw(raw_view(headers@), name@) == lookup_raw(
                raw_view(headers@).skip(i as int),
                name@,
            ),
        decreases n - i,
    {
        proof {
            assert(raw_view(headers@).skip(i as int)[0] == raw_pair_view(headers@[i as int]));
        }
        if name_matches(&headers[i].0, name) {
            match &headers[i].1 {
                Some(v) => {
                    return Some(v.clone());
                },
                None => {
                    return None;
                },
            }
        }
        proof {
            assert(raw_view(headers@).skip(i as int).drop_first() =~= raw_view(headers@).skip(
                i as int + 1,
            ));
        }
        i = i + 1;
    }
    proof {
        assert(raw_view(headers@).skip(n as int).len() == 0);
    }
    None
}

fn is_space_c(c: char) -> (r: bool)
    ensures
        r == is_space(c),
{
    let u = c as u32;
    (9 <= u && u <= 13) || u == 32 || u == 0x85 || u == 0xa0 || u == 0x1680 || (0x2000 <= u && u
        <= 0x200a) || u == 0x2028 || u == 0x2029 || u == 0x202f || u == 0x205f || u == 0x3000
}

/// The first entry of a forwarding-header value: the text before the first
/// comma, surrounding whitespace removed.
fn first_forwarded(s: &str) -> (r: String)
    ensures
        r@ == spec_trim(before_comma(s@)),
{
    let n = s.unicode_len();
    let mut k: usize = 0;
    proof {
        assert(s@.skip(0) =~= s@);
    }
    while k < n && s.get_char(k) != ','
        invariant
            k <= n,
            n == s@.len(),
            comma_pos(s@) == k + comma_pos(s@.skip(k as int)),
        decreases n - k,
    {
        proof {
            assert(s@.skip(k as int)[0] == s@[k as int]);
            assert(s@.skip(k as int).drop_first() =~= s@.skip(k as int + 1));
        }
        k = k + 1;
    }
    proof {
        if k < n {
            assert(s@.skip(k as int)[0] == s@[k as int]);
            assert(comma_pos(s@) == k);
        } else {
            assert(s@.skip(n as int).len() == 0);
            assert(comma_pos(s@) == n);
        }
        assert(before_comma(s@) =~= s@.subrange(0, k as int));
    }
    let mut a: usize = 0;
    while a < k && is_space_c(s.get_char(a))
        invariant
            a <= k <= n,
            n == s@.len(),
            trim_front(before_comma(s@)) == trim_front(s@.subrange(a as int, k as int)),
        decreases k - a,
    {
        proof {
            assert(s@.subrange(a as int, k as int)[0] == s@[a as int]);
            assert(s@.subrange(a as int, k as int).drop_first() =~= s@.subrange(
                a as int + 1,
                k as int,
            ));
        }
        a = a + 1;
    }
    proof {
        assert(trim_front(before_comma(s@)) == s@.subrange(a as int, k as int));
    }
    let mut b: usize = k;
    while b > a && is_space_c(s.get_char(b - 1))
        invariant
            a <= b <= k <= n,
            n == s@.len(),
            trim_back(s@.subrange(a as int, k as int)) == trim_back(
                s@.subrange(a as int, b as int),
            ),
        decreases b - a,
    {
        proof {
            assert(s@.subrange(a as int, b as int).last() == s@[b as int - 1]);
            assert(s@.subrange(a as int, b as int).drop_last() =~= s@.subrange(
                a as int,
                b as int - 1,
            ));
        }
        b = b - 1;
    }
    proof {
        assert(trim_back(s@.subrange(a as int, b as int)) == s@.subrange(a as int, b as int));
    }
    s.substring_char(a, b).to_owned()
}

/// The client IP for a request, as `spec_client_ip` states: first
/// `X-Forwarded-For` entry, else `X-Real-IP`, else the peer's IP.
pub fn extract_client_ip(headers: &Vec<(String, Option<String>)>, peer_ip: &String) -> (r: String)
    ensures
        r@ == spec_client_ip(raw_view(headers@), peer_ip@),
{
    match lookup_header(headers, "x-forwarded-for") {
        Some(xff) => first_forwarded(xff.as_str()),
        None => match lookup_header(headers, "x-real-ip") {
            Some(ip) => ip,
            None => peer_ip.clone(),
        },
    }
}

/// The user agent for a request: the decoded `User-Agent` value, or the
/// literal `"Unknown"` when the header is absent or undecodable.
pub fn extract_user_agent(headers: &Vec<(String, Option<String>)>) -> (r: String)
    ensures
        r@ == spec_user_agent(raw_view(headers@)),
{
    match lookup_header(headers, "user-agent") {
        Some(ua) => ua,
        None => String::from_str("Unknown"),
    }
}

fn find_key(out: &Vec<(String, String)>, name: &String) -> (r: Option<usize>)
    ensures
        match r {
            Some(k) => k < out@.len() && out@[k as int].0@ == name@,
            None => forall|i: int| 0 <= i < out@.len() ==> out@[i].0@ != name@,
        },
{
    let n = out.len();
    let mut i: usize = 0;
    while i < n
        invariant
            i <= n,
            n == out@.len(),
            forall|j: int| 0 <= j < i ==> out@[j].0@ != name@,
        decreases n - i,
    {
        if out[i].0 == *name {
            return Some(i);
        }
        i = i + 1;
    }
    None
}

proof fn lemma_pairs_map_update(s: Seq<(Seq<char>, Seq<char>)>, k: int, v: Seq<char>)
    requires
        unique_keys(s),
        0 <= k < s.len(),
    ensures
        pairs_map(s.update(k, (s[k].0, v))) == pairs_map(s).insert(s[k].0, v),
    decreases s.len(),
{
    let t = s.update(k, (s[k].0, v));
    if k == s.len() - 1 {
        assert(t.drop_last() =~= s.drop_last());
        assert(t.last() == (s[k].0, v));
        assert(pairs_map(t) == pairs_map(s.drop_last()).insert(s[k].0, v));
        assert(pairs_map(s).insert(s[k].0, v) =~= pairs_map(s.drop_last()).insert(s[k].0, v));
    } else {
        assert(t.drop_last() =~= s.drop_last().update(k, (s[k].0, v)));
        assert(t.last() == s.last());
        assert(unique_keys(s.drop_last()));
        assert(s.drop_last()[k] == s[k]);
        lemma_pairs_map_update(s.drop_last(), k, v);
        assert(s[k].0 != s.last().0);
        assert(pairs_map(t) == pairs_map(s.drop_last()).insert(s[k].0, v).insert(
            s.last().0,
            s.last().1,
        ));
        assert(pairs_map(s.drop_last()).insert(s[k].0, v).insert(s.last().0, s.last().1)
            =~= pairs_map(s.drop_last()).insert(s.last().0, s.last().1).insert(s[k].0, v));
    }
}

proof fn lemma_upsert_absent(s: Seq<(Seq<char>, Seq<char>)>, key: Seq<char>, v: Seq<char>)
    requires
        forall|i: int| 0 <= i < s.len() ==> s[i].0 != key,
    ensures
        upsert(s, key, v) =~= s.push((key, v)),
    decreases s.len(),
{
    if s.len() == 0 {
        assert(seq![(key, v)] =~= s.push((key, v)));
    } else {
        assert(s[0].0 != key);
        let d = s.drop_first();
        assert(forall|i: int| 0 <= i < d.len() ==> d[i] == s[i + 1]);
        lemma_upsert_absent(d, key, v);
        assert(seq![s[0]] + d.push((key, v)) =~= s.push((key, v)));
    }
}

proof fn lemma_upsert_found(s: Seq<(Seq<char>, Seq<char>)>, key: Seq<char>, v: Seq<char>, k: int)
    requires
        unique_keys(s),
        0 <= k < s.len(),
        s[k].0 == key,
    ensures
        upsert(s, key, v) =~= s.update(k, (key, v)),
    decreases s.len(),
{
    if k == 0 {
        assert(seq![(key, v)] + s.drop_first() =~= s.update(0, (key, v)));
    } else {
        assert(s[0].0 != s[k].0);
        let d = s.drop_first();
        assert(forall|i: int| 0 <= i < d.len() ==> d[i] == s[i + 1]);
        assert(unique_keys(d));
        assert(d[k - 1].0 == key);
        lemma_upsert_found(d, key, v, k - 1);
        assert(seq![s[0]] + d.update(k - 1, (key, v)) =~= s.update(k, (key, v)));
    }
}

/// Collect the decodable headers into a pair sequence with unique names,
/// names as received in order of first occurrence, a duplicate name taking
/// its last value.
pub fn collect_headers(headers: &Vec<(String, Option<String>)>) -> (r: Vec<(String, String)>)
    ensures
        unique_keys(pairs_view(r@)),
        pairs_map(pairs_view(r@)) == collected(raw_view(headers@)),
        pairs_view(r@) == spec_collect(raw_view(headers@)),
{
    let n = headers.len();
    let mut out: Vec<(String, String)> = Vec::new();
    let mut i: usize = 0;
    proof {
        assert(pairs_view(out@) =~= Seq::<(Seq<char>, Seq<char>)>::empty());
        assert(raw_view(headers@).take(0) =~= Seq::<(Seq<char>, Option<Seq<char>>)>::empty());
        assert(raw_view(headers@).skip(0) =~= raw_view(headers@));
    }
    while i < n
        invariant
            i <= n,
            n == headers@.len(),
            unique_keys(pairs_view(out@)),
            pairs_map(pairs_view(out@)) == collected(raw_view(headers@).take(i as int)),
            collect_from(pairs_view(out@), raw_view(headers@).skip(i as int)) == spec_collect(
                raw_view(headers@),
            ),
        decreases n - i,
    {
        proof {
            let rv = raw_view(headers@);
            assert(rv.take(i as int + 1).drop_last() =~= rv.take(i as int));
            assert(rv.take(i as int + 1).last() == raw_pair_view(headers@[i as int]));
            assert(rv.skip(i as int)[0] == raw_pair_view(headers@[i as int]));
            assert(rv.skip(i as int).drop_first() =~= rv.skip(i as int + 1));
        }
        match &headers[i].1 {
            Some(v) => {
                let name = headers[i].0.clone();
                let value = v.clone();
                match find_key(&out, &name) {
                    Some(k) => {
                        let ghost old_out = out@;
                        proof {
                            lemma_pairs_map_update(pairs_view(old_out), k as int, value@);
                        }
                        out.set(k, (name, value));
                        proof {
                            assert(pairs_view(out@) =~= pairs_view(old_out).update(
                                k as int,
                                (pairs_view(old_out)[k as int].0, value@),
                            ));
                            assert(pairs_view(old_out)[k as int].0 == name@);
                            assert(pairs_map(pairs_view(out@)) == collected(
                                raw_view(headers@).take(i as int + 1),
                            ));
                            lemma_upsert_found(pairs_view(old_out), name@, value@, k as int);
                            assert(pairs_view(out@) == upsert(pairs_view(old_out), name@, value@));
                            assert(collect_from(
                                pairs_view(out@),
                                raw_view(headers@).skip(i as int + 1),
                            ) == spec_collect(raw_view(headers@)));
                        }
                    },
                    None => {
                        let ghost old_out = out@;
                        out.push((name, value));
                        proof {
                            assert(pairs_view(out@).drop_last() =~= pairs_view(old_out));
                            assert(pairs_view(out@).last() == (name@, value@));
                            assert(forall|j: int|
                                0 <= j < old_out.len() ==> pairs_view(old_out)[j].0
                                    == old_out[j].0@);
                            assert(forall|j: int|
                                0 <= j < old_out.len() ==> pairs_view(out@)[j] == pairs_view(
                                    old_out,
                                )[j]);
                            assert(pairs_view(out@)[old_out.len() as int].0 == name@);
                            assert forall|i2: int, j2: int|
                                0 <= i2 < j2 < pairs_view(out@).len() implies pairs_view(
                                out@,
                            )[i2].0 != pairs_view(out@)[j2].0 by {
                                if j2 == old_out.len() as int {
                                    assert(pairs_view(out@)[i2].0 == old_out[i2].0@);
                                    assert(old_out[i2].0@ != name@);
                                } else {
                                    assert(pairs_view(out@)[i2] == pairs_view(old_out)[i2]);
                                    assert(pairs_view(out@)[j2] == pairs_view(old_out)[j2]);
                                    assert(unique_keys(pairs_view(old_out)));
                                    assert(pairs_view(old_out)[i2].0 != pairs_view(
                                        old_out,
                                    )[j2].0);
                                }
                            }
                            assert(unique_keys(pairs_view(out@)));
                            assert(pairs_map(pairs_view(out@)) == collected(
                                raw_view(headers@).take(i as int + 1),
                            ));
                            assert(forall|j: int|
                                0 <= j < pairs_view(old_out).len() ==> pairs_view(old_out)[j].0
                                    != name@);
                            lemma_upsert_absent(pairs_view(old_out), name@, value@);
                            assert(pairs_view(out@) =~= pairs_view(old_out).push((name@, value@)));
                            assert(pairs_view(out@) == upsert(pairs_view(old_out), name@, value@));
                            assert(collect_from(
                                pairs_view(out@),
                                raw_view(headers@).skip(i as int + 1),
                            ) == spec_collect(raw_view(headers@)));
                        }
                    },
                }
            },
            None => {
                proof {
                    assert(pairs_map(pairs_view(out@)) == collected(
                        raw_view(headers@).take(i as int + 1),
                    ));
                    assert(collect_from(pairs_view(out@), raw_view(headers@).skip(i as int + 1))
                        == spec_collect(raw_view(headers@)));
                }
            },
        }
        i = i + 1;
    }
    proof {
        assert(raw_view(headers@).take(n as int) =~= raw_view(headers@));
        assert(raw_view(headers@).skip(n as int).len() == 0);
    }
    out
}

/// Derive everything the service reports from one request: never fails,
/// absent or malformed inputs degrade to the stated fallbacks.
pub fn extract(headers: &Vec<(String, Option<String>)>, peer_ip: &String) -> (r: ClientInfo)
    ensures
        r.wf(),
        r.ip@ == spec_client_ip(raw_view(headers@), peer_ip@),
        r.user_agent@ == spec_user_agent(raw_view(headers@)),
        r.headers_map() == collected(raw_view(headers@)),
        pairs_view(r.headers@) == spec_collect(raw_view(headers@)),
{
    let ip = extract_client_ip(headers, peer_ip);
    let user_agent = extract_user_agent(headers);
    let collected_pairs = collect_headers(headers);
    ClientInfo { ip, user_agent, headers: collected_pairs }
}

/// Law: when a request carries a decodable `X-Forwarded-For` header, the
/// extracted IP does not depend on the peer address.
pub proof fn lemma_forwarded_ip_ignores_peer(
    h: Seq<(Seq<char>, Option<Seq<char>>)>,
    peer_a: Seq<char>,
    peer_b: Seq<char>,
)
    requires
        lookup_raw(h, "x-forwarded-for"@) is Some,
    ensures
        spec_client_ip(h, peer_a) == spec_client_ip(h, peer_b),
{
}

/// Law: when neither forwarding header is present with a decodable value,
/// the extracted IP is exactly the peer address's IP component.
pub proof fn lemma_peer_ip_when_no_forwarding(
    h: Seq<(Seq<char>, Option<Seq<char>>)>,
    peer: Seq<char>,
)
    requires
        lookup_raw(h, "x-forwarded-for"@) is None,
        lookup_raw(h, "x-real-ip"@) is None,
    ensures
        spec_client_ip(h, peer) == peer,
{
}

} // verus!
