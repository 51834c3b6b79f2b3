//! The key space of the store. Every stored value lives under a key of one of
//! a few families, each recognised by a fixed prefix; a family is listed by a
//! range scan from its prefix up to, and excluding, the prefix with its last
//! character incremented.

use crate::text::{decimal_int, push_char, push_decimal};
use vstd::prelude::*;
use vstd::string::*;
use vstd::utf8::char_u32_cast;

verus! {

/// Distinct characters have distinct code points.
pub proof fn lemma_code_point_injective(a: char, b: char)
    ensures
        a as u32 == b as u32 ==> a == b,
{
    if a as u32 == b as u32 {
        char_u32_cast(a, a as u32);
        char_u32_cast(b, a as u32);
    }
}

/// Strict order on keys: lexicographic by code point. This is the order in
/// which the store keeps and scans its keys.
pub open spec fn key_lt(a: Seq<char>, b: Seq<char>) -> bool
    decreases a.len(),
{
    if b.len() == 0 {
        false
    } else if a.len() == 0 {
        true
    } else if a[0] != b[0] {
        (a[0] as u32) < (b[0] as u32)
    } else {
        key_lt(a.drop_first(), b.drop_first())
    }
}

/// Non-strict key order.
pub open spec fn key_le(a: Seq<char>, b: Seq<char>) -> bool {
    a == b || key_lt(a, b)
}

/// No key comes before itself, and of two keys at most one comes before the
/// other.
pub proof fn lemma_key_lt_asymmetric(a: Seq<char>, b: Seq<char>)
    ensures
        !key_lt(a, a),
        !(key_lt(a, b) && key_lt(b, a)),
    decreases a.len(),
{
    if a.len() > 0 {
        lemma_key_lt_asymmetric(a.drop_first(), a.drop_first());
        if b.len() > 0 && a[0] == b[0] {
            lemma_key_lt_asymmetric(a.drop_first(), b.drop_first());
        }
    }
}

/// `k` begins with `p`.
pub open spec fn has_prefix(k: Seq<char>, p: Seq<char>) -> bool {
    p.len() <= k.len() && k.subrange(0, p.len() as int) == p
}

/// `end` is `p` with its last character replaced by the next code point.
pub open spec fn is_prefix_end(p: Seq<char>, end: Seq<char>) -> bool {
    &&& p.len() > 0
    &&& end.len() == p.len()
    &&& end.subrange(0, p.len() - 1) == p.subrange(0, p.len() - 1)
    &&& end[p.len() - 1] as u32 == p[p.len() - 1] as u32 + 1
}

/// A key lies in the half-open scan range of a prefix exactly when it begins
/// with that prefix.
pub proof fn lemma_prefix_range(p: Seq<char>, end: Seq<char>, k: Seq<char>)
    requires
        is_prefix_end(p, end),
    ensures
        has_prefix(k, p) <==> (key_le(p, k) && key_lt(k, end)),
    decreases p.len(),
{
    if k.len() == 0 {
        assert(!has_prefix(k, p));
        assert(!key_lt(p, k));
        assert(p != k);
    } else if p.len() == 1 {
        assert(p.subrange(0, 0) =~= Seq::<char>::empty());
        if k[0] == p[0] {
            assert(k.subrange(0, 1) =~= p);
            assert(has_prefix(k, p));
            if k.len() == 1 {
                assert(k =~= p);
            } else {
                assert(p.drop_first().len() == 0);
                assert(key_lt(p.drop_first(), k.drop_first()));
                assert(key_lt(p, k));
            }
            assert(k[0] != end[0]);
            assert(key_lt(k, end));
        } else {
            assert(k.subrange(0, 1)[0] == k[0]);
            assert(!has_prefix(k, p));
            lemma_code_point_injective(k[0], p[0]);
            if (k[0] as u32) < (p[0] as u32) {
                assert(!key_lt(p, k));
            } else {
                assert((k[0] as u32) >= (end[0] as u32));
                if k[0] == end[0] {
                    assert(end.drop_first().len() == 0);
                    assert(!key_lt(k.drop_first(), end.drop_first()));
                }
                assert(!key_lt(k, end));
            }
        }
    } else {
        let p_tail = p.drop_first();
        let e_tail = end.drop_first();
        let k_tail = k.drop_first();
        assert(end.subrange(0, p.len() - 1)[0] == p.subrange(0, p.len() - 1)[0]);
        assert(end[0] == p[0]);
        assert(e_tail.subrange(0, p_tail.len() - 1) =~= p_tail.subrange(0, p_tail.len() - 1)) by {
            assert forall|i: int| 0 <= i < p_tail.len() - 1 implies e_tail[i] == p_tail[i] by {
                assert(end.subrange(0, p.len() - 1)[i + 1] == p.subrange(0, p.len() - 1)[i + 1]);
            }
        }
        assert(is_prefix_end(p_tail, e_tail));
        if k[0] == p[0] {
            lemma_prefix_range(p_tail, e_tail, k_tail);
            if has_prefix(k_tail, p_tail) {
                assert(k.subrange(0, p.len() as int) =~= p) by {
                    assert forall|i: int| 0 <= i < p.len() implies k[i] == p[i] by {
                        if i > 0 {
                            assert(k_tail.subrange(0, p_tail.len() as int)[i - 1] == p_tail[i - 1]);
                        }
                    }
                }
            }
            if has_prefix(k, p) {
                assert(k_tail.subrange(0, p_tail.len() as int) =~= p_tail) by {
                    assert forall|i: int| 0 <= i < p_tail.len() implies k_tail[i] == p_tail[i] by {
                        assert(k.subrange(0, p.len() as int)[i + 1] == p[i + 1]);
                    }
                }
            }
            assert(has_prefix(k, p) <==> has_prefix(k_tail, p_tail));
            if p == k {
                assert(p_tail =~= k_tail);
            }
            if p_tail == k_tail {
                assert(p.len() == k.len());
                assert forall|i: int| 0 <= i < p.len() implies p[i] == k[i] by {
                    if i > 0 {
                        assert(p_tail[i - 1] == k_tail[i - 1]);
                    }
                }
                assert(p =~= k);
            }
            assert(key_le(p, k) <==> key_le(p_tail, k_tail));
            assert(key_lt(k, end) <==> key_lt(k_tail, e_tail));
        } else {
            if has_prefix(k, p) {
                assert(k.subrange(0, p.len() as int)[0] == k[0]);
                assert(k.subrange(0, p.len() as int)[0] == p[0]);
            }
            assert(!has_prefix(k, p));
            lemma_code_point_injective(k[0], p[0]);
            if (k[0] as u32) < (p[0] as u32) {
                assert(!key_lt(p, k));
            } else {
                assert(!key_lt(k, end));
            }
        }
    }
}

/// The key families that hold one value per name.
#[derive(Clone, Copy, Debug, PartialEq, Eq, Structural)]
pub enum Family {
    /// Standing plans, by channel.
    Plan,
    /// Capture history rows, by channel and start time.
    History,
    /// Recording locks, by channel.
    Recording,
    /// Last known live descriptors, by channel.
    Live,
    /// Lookups the user made, by channel and time.
    QueryHistory,
}

impl Family {
    /// The prefix shared by every key of the family.
    pub open spec fn spec_prefix(self) -> Seq<char> {
        match self {
            Family::Plan => "plan:"@,
            Family::History => "history:"@,
            Family::Recording => "recording:"@,
            Family::Live => "live:"@,
            Family::QueryHistory => "query_history:"@,
        }
    }

    /// The exclusive upper bound of the family's scan range.
    pub open spec fn spec_end(self) -> Seq<char> {
        match self {
            Family::Plan => "plan;"@,
            Family::History => "history;"@,
            Family::Recording => "recording;"@,
            Family::Live => "live;"@,
            Family::QueryHistory => "query_history;"@,
        }
    }

    /// The prefix shared by every key of the family.
    pub fn prefix(&self) -> (p: &'static str)
        ensures
            p@ == self.spec_prefix(),
    {
        match self {
            Family::Plan => "plan:",
            Family::History => "history:",
            Family::Recording => "recording:",
            Family::Live => "live:",
            Family::QueryHistory => "query_history:",
        }
    }

    /// The exclusive upper bound of the family's scan range.
    pub fn end(&self) -> (e: &'static str)
        ensures
            e@ == self.spec_end(),
    {
        match self {
            Family::Plan => "plan;",
            Family::History => "history;",
            Family::Recording => "recording;",
            Family::Live => "live;",
            Family::QueryHistory => "query_history;",
        }
    }

    /// The key of `name` within the family.
    pub fn key(&self, name: &str) -> (k: String)
        ensures
            k@ == family_key(*self, name@),
    {
        String::from_str(self.prefix()).concat(name)
    }

    /// The scan bound of each family is its prefix with the last character
    /// incremented.
    pub proof fn lemma_end(self)
        ensures
            is_prefix_end(self.spec_prefix(), self.spec_end()),
    {
        reveal_prefixes();
        let p = self.spec_prefix();
        let e = self.spec_end();
        assert(e.subrange(0, p.len() - 1) =~= p.subrange(0, p.len() - 1));
    }

    /// The keys of a family are exactly the keys in its scan range.
    pub proof fn lemma_scan_range(self, k: Seq<char>)
        ensures
            has_prefix(k, self.spec_prefix()) <==> (key_le(self.spec_prefix(), k) && key_lt(
                k,
                self.spec_end(),
            )),
    {
        self.lemma_end();
        lemma_prefix_range(self.spec_prefix(), self.spec_end(), k);
    }
}

/// The key under which family `f` stores `name`.
pub open spec fn family_key(f: Family, name: Seq<char>) -> Seq<char> {
    f.spec_prefix() + name
}

/// The key of the singleton that holds the configuration.
pub open spec fn config_key() -> Seq<char> {
    "config"@
}

/// The key of the singleton that holds the time of the last poll.
pub open spec fn polling_key() -> Seq<char> {
    "polling_time"@
}

/// The name of a history row within its family: channel, a colon, and the
/// start time in decimal.
pub open spec fn history_name(url: Seq<char>, start_time: int) -> Seq<char> {
    url + seq![':'] + decimal_int(start_time)
}

/// The key of the history row of `url` that began at `start_time`.
pub open spec fn history_key(url: Seq<char>, start_time: int) -> Seq<char> {
    family_key(Family::History, history_name(url, start_time))
}

/// The key of the recording lock of `url`.
pub open spec fn lock_key(url: Seq<char>) -> Seq<char> {
    family_key(Family::Recording, url)
}

/// The key of the plan of `url`.
pub open spec fn plan_key(url: Seq<char>) -> Seq<char> {
    family_key(Family::Plan, url)
}

/// The key of the cached live descriptor of `url`.
pub open spec fn live_key(url: Seq<char>) -> Seq<char> {
    family_key(Family::Live, url)
}

/// Spells out the prefixes and bounds of all families and the singleton keys.
pub proof fn reveal_prefixes()
    ensures
        "plan:"@ == seq!['p', 'l', 'a', 'n', ':'],
        "plan;"@ == seq!['p', 'l', 'a', 'n', ';'],
        "history:"@ == seq!['h', 'i', 's', 't', 'o', 'r', 'y', ':'],
        "history;"@ == seq!['h', 'i', 's', 't', 'o', 'r', 'y', ';'],
        "recording:"@ == seq!['r', 'e', 'c', 'o', 'r', 'd', 'i', 'n', 'g', ':'],
        "recording;"@ == seq!['r', 'e', 'c', 'o', 'r', 'd', 'i', 'n', 'g', ';'],
        "live:"@ == seq!['l', 'i', 'v', 'e', ':'],
        "live;"@ == seq!['l', 'i', 'v', 'e', ';'],
        "query_history:"@ == seq![
            'q',
            'u',
            'e',
            'r',
            'y',
            '_',
            'h',
            'i',
            's',
            't',
            'o',
            'r',
            'y',
            ':',
        ],
        "query_history;"@ == seq![
            'q',
            'u',
            'e',
            'r',
            'y',
            '_',
            'h',
            'i',
            's',
            't',
            'o',
            'r',
            'y',
            ';',
        ],
        "config"@ == seq!['c', 'o', 'n', 'f', 'i', 'g'],
        "polling_time"@ == seq!['p', 'o', 'l', 'l', 'i', 'n', 'g', '_', 't', 'i', 'm', 'e'],
{
    reveal_strlit("plan:");
    reveal_strlit("plan;");
    reveal_strlit("history:");
    reveal_strlit("history;");
    reveal_strlit("recording:");
    reveal_strlit("recording;");
    reveal_strlit("live:");
    reveal_strlit("live;");
    reveal_strlit("query_history:");
    reveal_strlit("query_history;");
    reveal_strlit("config");
    reveal_strlit("polling_time");
    assert("plan:"@ =~= seq!['p', 'l', 'a', 'n', ':']);
    assert("plan;"@ =~= seq!['p', 'l', 'a', 'n', ';']);
    assert("history:"@ =~= seq!['h', 'i', 's', 't', 'o', 'r', 'y', ':']);
    assert("history;"@ =~= seq!['h', 'i', 's', 't', 'o', 'r', 'y', ';']);
    assert("recording:"@ =~= seq!['r', 'e', 'c', 'o', 'r', 'd', 'i', 'n', 'g', ':']);
    assert("recording;"@ =~= seq!['r', 'e', 'c', 'o', 'r', 'd', 'i', 'n', 'g', ';']);
    assert("live:"@ =~= seq!['l', 'i', 'v', 'e', ':']);
    assert("live;"@ =~= seq!['l', 'i', 'v', 'e', ';']);
    assert("query_history:"@ =~= seq![
        'q',
        'u',
        'e',
        'r',
        'y',
        '_',
        'h',
        'i',
        's',
        't',
        'o',
        'r',
        'y',
        ':',
    ]);
    assert("query_history;"@ =~= seq![
        'q',
        'u',
        'e',
        'r',
        'y',
        '_',
        'h',
        'i',
        's',
        't',
        'o',
        'r',
        'y',
        ';',
    ]);
    assert("config"@ =~= seq!['c', 'o', 'n', 'f', 'i', 'g']);
    assert("polling_time"@ =~= seq!['p', 'o', 'l', 'l', 'i', 'n', 'g', '_', 't', 'i', 'm', 'e']);
}

/// A key of a family begins with the family's prefix.
pub proof fn lemma_family_key_prefix(f: Family, name: Seq<char>)
    ensures
        has_prefix(family_key(f, name), f.spec_prefix()),
{
    assert(family_key(f, name).subrange(0, f.spec_prefix().len() as int) =~= f.spec_prefix());
}

/// Within a family, different names have different keys.
pub proof fn lemma_family_key_injective(f: Family, a: Seq<char>, b: Seq<char>)
    ensures
        family_key(f, a) == family_key(f, b) ==> a == b,
{
    let p = f.spec_prefix();
    if family_key(f, a) == family_key(f, b) {
        assert(a =~= (p + a).subrange(p.len() as int, (p + a).len() as int));
        assert(b =~= (p + b).subrange(p.len() as int, (p + b).len() as int));
    }
}

/// No key belongs to two families, and the singleton keys belong to none.
pub proof fn lemma_families_disjoint(f: Family, g: Family, k: Seq<char>)
    requires
        has_prefix(k, f.spec_prefix()),
    ensures
        f != g ==> !has_prefix(k, g.spec_prefix()),
        k != config_key(),
        k != polling_key(),
{
    reveal_prefixes();
    let p = f.spec_prefix();
    assert(k.subrange(0, p.len() as int)[0] == k[0]);
    assert(k.subrange(0, p.len() as int)[1] == k[1]);
    assert(k[0] == p[0]);
    assert(k[1] == p[1]);
    if f != g && has_prefix(k, g.spec_prefix()) {
        let q = g.spec_prefix();
        assert(k.subrange(0, q.len() as int)[0] == k[0]);
        assert(k[0] == q[0]);
    }
}

/// The key of the history row of `url` that began at `start_time`.
pub fn make_history_key(url: &str, start_time: i64) -> (k: String)
    ensures
        k@ == history_key(url@, start_time as int),
{
    let mut k = String::from_str(Family::History.prefix()).concat(url);
    push_char(&mut k, ':');
    push_decimal(&mut k, start_time);
    assert(k@ =~= history_key(url@, start_time as int));
    k
}

} // verus!
