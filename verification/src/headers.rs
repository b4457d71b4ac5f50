//! The header map: lowercase header names mapped to string values, with
//! duplicate header lines joined by `", "` in encounter order, and
//! pseudo-headers (names beginning with `:`) removable after extraction.

use vstd::prelude::*;
use vstd::string::{StrSliceExecFns, StringExecFns};
use crate::strutil::{ascii_lowercase, lower_seq};

verus! {

/// One header line as it arrives from the gateway: a name, a decoded string
/// value, and the raw bytes used when no decoded value is present.
pub struct HeaderEntry {
    pub key: String,
    pub value: String,
    pub raw_value: Vec<u8>,
}

impl View for HeaderEntry {
    type V = (Seq<char>, Seq<char>, Seq<u8>);

    open spec fn view(&self) -> (Seq<char>, Seq<char>, Seq<u8>) {
        (self.key@, self.value@, self.raw_value@)
    }
}

/// What `String::from_utf8_lossy` yields for the given bytes: a function of
/// the bytes alone.
pub uninterp spec fn lossy_of(b: Seq<u8>) -> Seq<char>;

/// Relies on String::from_utf8_lossy: decodes bytes as UTF-8, replacing
/// invalid sequences; the result depends on the bytes alone.
#[verifier::external_body]
fn utf8_lossy(b: &Vec<u8>) -> (r: String)
    ensures
        r@ == lossy_of(b@),
{
    String::from_utf8_lossy(b).into_owned()
}

/// The value a header line contributes: its decoded value when present,
/// otherwise the lossy decoding of its raw bytes.
pub open spec fn effective_value(e: (Seq<char>, Seq<char>, Seq<u8>)) -> Seq<char> {
    if e.1.len() > 0 {
        e.1
    } else {
        lossy_of(e.2)
    }
}

/// First-match lookup in an association sequence.
pub open spec fn lookup(m: Seq<(Seq<char>, Seq<char>)>, k: Seq<char>) -> Option<Seq<char>>
    decreases m.len(),
{
    if m.len() == 0 {
        Option::<Seq<char>>::None
    } else if m[0].0 == k {
        Some(m[0].1)
    } else {
        lookup(m.drop_first(), k)
    }
}

/// Adding one header line to the map: a new key is appended, a present key
/// has the new value joined onto its old one with `", "`.
pub open spec fn insert_joined(
    m: Seq<(Seq<char>, Seq<char>)>,
    k: Seq<char>,
    v: Seq<char>,
) -> Seq<(Seq<char>, Seq<char>)>
    decreases m.len(),
{
    if m.len() == 0 {
        seq![(k, v)]
    } else if m[0].0 == k {
        seq![(m[0].0, m[0].1 + ", "@ + v)] + m.drop_first()
    } else {
        seq![m[0]] + insert_joined(m.drop_first(), k, v)
    }
}

/// The normalized map built from a list of header lines: names lower-cased,
/// duplicates joined in encounter order.
pub open spec fn built_map(entries: Seq<(Seq<char>, Seq<char>, Seq<u8>)>) -> Seq<
    (Seq<char>, Seq<char>),
>
    decreases entries.len(),
{
    if entries.len() == 0 {
        Seq::<(Seq<char>, Seq<char>)>::empty()
    } else {
        insert_joined(
            built_map(entries.drop_last()),
            lower_seq(entries.last().0),
            effective_value(entries.last()),
        )
    }
}

/// Whether a header name marks a pseudo-header.
pub open spec fn is_pseudo(k: Seq<char>) -> bool {
    k.len() > 0 && k[0] == ':'
}

/// The map with pseudo-headers removed.
pub open spec fn strip_pseudo(m: Seq<(Seq<char>, Seq<char>)>) -> Seq<(Seq<char>, Seq<char>)>
    decreases m.len(),
{
    if m.len() == 0 {
        m
    } else if is_pseudo(m.last().0) {
        strip_pseudo(m.drop_last())
    } else {
        strip_pseudo(m.drop_last()).push(m.last())
    }
}

pub open spec fn keys_unique(m: Seq<(Seq<char>, Seq<char>)>) -> bool {
    forall|i: int, j: int| 0 <= i < j < m.len() ==> m[i].0 != m[j].0
}

pub open spec fn keys_lower(m: Seq<(Seq<char>, Seq<char>)>) -> bool {
    forall|i: int| 0 <= i < m.len() ==> m[i].0 == lower_seq(#[trigger] m[i].0)
}

/// How one joined insertion reads through `lookup`: the inserted key now
/// maps to the joined (or new) value and every other key is unchanged.
pub proof fn lemma_insert_joined_lookup(
    m: Seq<(Seq<char>, Seq<char>)>,
    k: Seq<char>,
    v: Seq<char>,
)
    ensures
        lookup(insert_joined(m, k, v), k) == (match lookup(m, k) {
            Some(v0) => Some(v0 + ", "@ + v),
            None => Some(v),
        }),
        forall|k2: Seq<char>|
            k2 != k ==> lookup(insert_joined(m, k, v), k2) == #[trigger] lookup(m, k2),
        insert_joined(m, k, v).len() == (if lookup(m, k) is Some {
            m.len() as int
        } else {
            m.len() as int + 1
        }),
    decreases m.len(),
{
    if m.len() == 0 {
        assert forall|k2: Seq<char>|
            k2 != k implies lookup(insert_joined(m, k, v), k2) == #[trigger] lookup(m, k2) by {
            assert(insert_joined(m, k, v) == seq![(k, v)]);
            assert(insert_joined(m, k, v).drop_first() =~= m);
        }
    } else if m[0].0 == k {
        let r = insert_joined(m, k, v);
        assert(r.drop_first() =~= m.drop_first());
        assert forall|k2: Seq<char>|
            k2 != k implies lookup(insert_joined(m, k, v), k2) == #[trigger] lookup(m, k2) by {
            assert(r[0].0 == m[0].0);
            assert(lookup(r, k2) == lookup(r.drop_first(), k2));
            assert(lookup(m, k2) == lookup(m.drop_first(), k2));
        }
    } else {
        lemma_insert_joined_lookup(m.drop_first(), k, v);
        let r = insert_joined(m, k, v);
        assert(r.drop_first() =~= insert_joined(m.drop_first(), k, v));
        assert forall|k2: Seq<char>|
            k2 != k implies lookup(insert_joined(m, k, v), k2) == #[trigger] lookup(m, k2) by {
            assert(r[0] == m[0]);
            if k2 != m[0].0 {
                assert(lookup(r, k2) == lookup(r.drop_first(), k2));
                assert(lookup(r.drop_first(), k2) == lookup(m.drop_first(), k2));
                assert(lookup(m, k2) == lookup(m.drop_first(), k2));
            }
        }
    }
}

/// Joined insertion of a lower-cased key keeps the map's keys unique and
/// lower-case, and every key of the result is an old key or the new one.
pub proof fn lemma_insert_joined_wf(m: Seq<(Seq<char>, Seq<char>)>, k: Seq<char>, v: Seq<char>)
    requires
        keys_unique(m),
        keys_lower(m),
        k == lower_seq(k),
    ensures
        keys_unique(insert_joined(m, k, v)),
        keys_lower(insert_joined(m, k, v)),
        forall|i: int|
            0 <= i < insert_joined(m, k, v).len() ==> (#[trigger] insert_joined(m, k, v)[i].0 == k
                || lookup(m, insert_joined(m, k, v)[i].0) is Some),
    decreases m.len(),
{
    let r = insert_joined(m, k, v);
    if m.len() == 0 {
        assert(r =~= seq![(k, v)]);
    } else if m[0].0 == k {
        assert(r.drop_first() =~= m.drop_first());
        assert forall|i: int| 0 <= i < r.len() implies (#[trigger] r[i].0 == k || lookup(
            m,
            r[i].0,
        ) is Some) by {
            if i > 0 {
                lemma_lookup_index(m, i);
            }
        }
        assert(keys_unique(r)) by {
            assert forall|i: int, j: int| 0 <= i < j < r.len() implies r[i].0 != r[j].0 by {
                assert(r[i].0 == m[i].0 && r[j].0 == m[j].0);
            }
        }
        assert(keys_lower(r)) by {
            assert forall|i: int| 0 <= i < r.len() implies r[i].0 == lower_seq(
                #[trigger] r[i].0,
            ) by {
                assert(r[i].0 == m[i].0);
            }
        }
    } else {
        let mt = m.drop_first();
        lemma_insert_joined_wf(mt, k, v);
        lemma_insert_joined_lookup(mt, k, v);
        let rt = insert_joined(mt, k, v);
        assert(r.drop_first() =~= rt);
        assert forall|i: int| 0 <= i < r.len() implies (#[trigger] r[i].0 == k || lookup(
            m,
            r[i].0,
        ) is Some) by {
            if i == 0 {
                assert(lookup(m, m[0].0) is Some);
            } else {
                assert(r[i].0 == rt[i - 1].0);
                if rt[i - 1].0 != k {
                    assert(lookup(mt, rt[i - 1].0) is Some);
                    assert(lookup(m, r[i].0) is Some);
                }
            }
        }
        assert(keys_unique(r)) by {
            assert forall|i: int, j: int| 0 <= i < j < r.len() implies r[i].0 != r[j].0 by {
                if i == 0 {
                    // the head key differs from k and from every key of the tail
                    assert(r[j].0 == rt[j - 1].0);
                    if rt[j - 1].0 != k {
                        assert(lookup(mt, rt[j - 1].0) is Some);
                        lemma_lookup_some_key(mt, rt[j - 1].0);
                        assert(r[0].0 == m[0].0);
                    }
                } else {
                    assert(r[i].0 == rt[i - 1].0 && r[j].0 == rt[j - 1].0);
                }
            }
        }
        assert(keys_lower(r)) by {
            assert forall|i: int| 0 <= i < r.len() implies r[i].0 == lower_seq(
                #[trigger] r[i].0,
            ) by {
                if i == 0 {
                    assert(r[0].0 == m[0].0);
                } else {
                    assert(r[i].0 == rt[i - 1].0);
                }
            }
        }
    }
}

/// A key found by lookup occurs in the sequence.
proof fn lemma_lookup_some_key(m: Seq<(Seq<char>, Seq<char>)>, k: Seq<char>)
    requires
        lookup(m, k) is Some,
    ensures
        exists|i: int| 0 <= i < m.len() && #[trigger] m[i].0 == k,
    decreases m.len(),
{
    if m.len() > 0 && m[0].0 != k {
        lemma_lookup_some_key(m.drop_first(), k);
        let i = choose|i: int| 0 <= i < m.drop_first().len() && #[trigger] m.drop_first()[i].0 == k;
        assert(m[i + 1].0 == k);
    }
}

/// Every key that occurs is found by lookup.
proof fn lemma_lookup_index(m: Seq<(Seq<char>, Seq<char>)>, i: int)
    requires
        0 <= i < m.len(),
    ensures
        lookup(m, m[i].0) is Some,
    decreases m.len(),
{
    if m[0].0 != m[i].0 {
        lemma_lookup_index(m.drop_first(), i - 1);
        assert(m.drop_first()[i - 1].0 == m[i].0);
    }
}

/// The built map's keys are unique and lower-case.
pub proof fn lemma_built_map_wf(entries: Seq<(Seq<char>, Seq<char>, Seq<u8>)>)
    ensures
        keys_unique(built_map(entries)),
        keys_lower(built_map(entries)),
    decreases entries.len(),
{
    if entries.len() > 0 {
        lemma_built_map_wf(entries.drop_last());
        crate::strutil::lemma_lower_seq_idempotent(entries.last().0);
        lemma_insert_joined_wf(
            built_map(entries.drop_last()),
            lower_seq(entries.last().0),
            effective_value(entries.last()),
        );
    }
}

/// After stripping pseudo-headers from a well-formed map, every remaining
/// key is lower-case and none begins with `:`.
pub proof fn lemma_strip_pseudo_wf(m: Seq<(Seq<char>, Seq<char>)>)
    requires
        keys_unique(m),
        keys_lower(m),
    ensures
        keys_unique(strip_pseudo(m)),
        keys_lower(strip_pseudo(m)),
        forall|i: int| 0 <= i < strip_pseudo(m).len() ==> !is_pseudo(#[trigger] strip_pseudo(m)[i].0),
        forall|i: int|
            0 <= i < strip_pseudo(m).len() ==> exists|j: int|
                0 <= j < m.len() && #[trigger] strip_pseudo(m)[i] == m[j],
    decreases m.len(),
{
    if m.len() > 0 {
        assert(keys_unique(m.drop_last()));
        assert(keys_lower(m.drop_last())) by {
            assert forall|i: int| 0 <= i < m.drop_last().len() implies m.drop_last()[i].0
                == lower_seq(#[trigger] m.drop_last()[i].0) by {
                assert(m.drop_last()[i].0 == m[i].0);
            }
        }
        lemma_strip_pseudo_wf(m.drop_last());
        let r = strip_pseudo(m);
        let rt = strip_pseudo(m.drop_last());
        if !is_pseudo(m.last().0) {
            assert forall|i: int, j: int| 0 <= i < j < r.len() implies r[i].0 != r[j].0 by {
                if j < r.len() - 1 {
                    assert(r[i] == rt[i] && r[j] == rt[j]);
                } else {
                    // the last element comes from m.last(); its key differs
                    // from every key surviving out of m.drop_last()
                    assert(r[i] == rt[i]);
                    let w = choose|w: int|
                        0 <= w < m.drop_last().len() && #[trigger] rt[i] == m.drop_last()[w];
                    assert(m[w].0 != m[m.len() - 1].0);
                }
            }
            assert forall|i: int| 0 <= i < r.len() implies exists|j: int|
                0 <= j < m.len() && #[trigger] r[i] == m[j] by {
                if i < r.len() - 1 {
                    let w = choose|w: int|
                        0 <= w < m.drop_last().len() && #[trigger] rt[i] == m.drop_last()[w];
                    assert(r[i] == m[w]);
                } else {
                    assert(r[i] == m[m.len() - 1]);
                }
            }
        } else {
            assert forall|i: int| 0 <= i < r.len() implies exists|j: int|
                0 <= j < m.len() && #[trigger] r[i] == m[j] by {
                let w = choose|w: int|
                    0 <= w < m.drop_last().len() && #[trigger] rt[i] == m.drop_last()[w];
                assert(r[i] == m[w]);
            }
        }
    }
}

/// Whatever the casing of the incoming header names, the normalized map a
/// record keeps — the built map with pseudo-headers stripped — holds only
/// lower-case keys, and no key begins with `:`.
pub proof fn lemma_normalized_header_keys(entries: Seq<(Seq<char>, Seq<char>, Seq<u8>)>)
    ensures
        forall|i: int|
            0 <= i < strip_pseudo(built_map(entries)).len() ==> (#[trigger] strip_pseudo(
                built_map(entries),
            )[i].0 == lower_seq(strip_pseudo(built_map(entries))[i].0) && !is_pseudo(
                strip_pseudo(built_map(entries))[i].0,
            )),
{
    lemma_built_map_wf(entries);
    lemma_strip_pseudo_wf(built_map(entries));
}

/// The normalized header map of a transaction leg.
pub struct HeaderMap {
    pub entries: Vec<(String, String)>,
}

impl View for HeaderMap {
    type V = Seq<(Seq<char>, Seq<char>)>;

    open spec fn view(&self) -> Seq<(Seq<char>, Seq<char>)> {
        self.entries@.map_values(|p: (String, String)| (p.0@, p.1@))
    }
}

impl HeaderMap {
    /// The empty map.
    pub fn empty() -> (r: HeaderMap)
        ensures
            r@ == Seq::<(Seq<char>, Seq<char>)>::empty(),
    {
        let r = HeaderMap { entries: Vec::new() };
        proof {
            assert(r@ =~= Seq::<(Seq<char>, Seq<char>)>::empty());
        }
        r
    }

    /// First-match lookup of an exact (already lower-case) name.
    pub fn get(&self, k: &str) -> (r: Option<String>)
        ensures
            r matches Some(v) ==> lookup(self@, k@) == Some(v@),
            r is None ==> lookup(self@, k@) is None,
    {
        let n = self.entries.len();
        let mut i: usize = 0;
        proof {
            assert(self@.skip(0) =~= self@);
        }
        while i < n
            invariant
                n == self.entries@.len(),
                i <= n,
                lookup(self@, k@) == lookup(self@.skip(i as int), k@),
            decreases n - i,
        {
            proof {
                assert(self@[i as int] == (self.entries@[i as int].0@, self.entries@[i as int].1@));
                assert(self@.skip(i as int)[0] == self@[i as int]);
            }
            if crate::strutil::str_eq(self.entries[i].0.as_str(), k) {
                return Some(self.entries[i].1.clone());
            }
            proof {
                assert(self@.skip(i as int).drop_first() =~= self@.skip(i + 1));
            }
            i = i + 1;
        }
        proof {
            assert(self@.skip(n as int) =~= Seq::<(Seq<char>, Seq<char>)>::empty());
        }
        None
    }

    /// Adds one header line under an already lower-cased name, joining onto
    /// a present value with `", "`.
    pub fn insert_join(&mut self, k: String, v: String)
        ensures
            final(self)@ == insert_joined(old(self)@, k@, v@),
    {
        let n = self.entries.len();
        let mut i: usize = 0;
        while i < n
            invariant
                n == self.entries@.len(),
                self@ == old(self)@,
                i <= n,
                forall|j: int| 0 <= j < i ==> old(self)@[j].0 != k@,
            decreases n - i,
        {
            proof {
                assert(self@[i as int] == (self.entries@[i as int].0@, self.entries@[i as int].1@));
            }
            if crate::strutil::str_eq(self.entries[i].0.as_str(), k.as_str()) {
                let pair = self.entries.remove(i);
                let mut nv = pair.1;
                nv.append(", ");
                nv.append(v.as_str());
                self.entries.insert(i, (pair.0, nv));
                proof {
                    lemma_insert_prefix(old(self)@, k@, v@, i as int);
                    assert(final(self)@ =~= old(self)@.update(
                        i as int,
                        (old(self)@[i as int].0, old(self)@[i as int].1 + ", "@ + v@),
                    ));
                    assert(final(self)@ =~= insert_joined(old(self)@, k@, v@));
                }
                return ;
            }
            i = i + 1;
        }
        self.entries.push((k, v));
        proof {
            lemma_insert_append(old(self)@, k@, v@);
            assert(final(self)@ =~= old(self)@.push((k@, v@)));
        }
    }

    /// Removes every pseudo-header (name beginning with `:`).
    pub fn remove_pseudo(&mut self)
        ensures
            final(self)@ == strip_pseudo(old(self)@),
    {
        let n = self.entries.len();
        let mut out: Vec<(String, String)> = Vec::new();
        let mut i: usize = 0;
        proof {
            assert(out@.map_values(|p: (String, String)| (p.0@, p.1@)) =~= strip_pseudo(
                self@.take(0),
            ));
        }
        while i < n
            invariant
                n == self.entries@.len(),
                self@ == old(self)@,
                i <= n,
                out@.map_values(|p: (String, String)| (p.0@, p.1@)) == strip_pseudo(
                    self@.take(i as int),
                ),
            decreases n - i,
        {
            proof {
                assert(self@.take(i + 1).drop_last() =~= self@.take(i as int));
                assert(self@.take(i + 1).last() == self@[i as int]);
                assert(self@[i as int] == (self.entries@[i as int].0@, self.entries@[i as int].1@));
            }
            let key_is_pseudo = {
                let ks = self.entries[i].0.as_str();
                if ks.unicode_len() > 0 {
                    ks.get_char(0) == ':'
                } else {
                    false
                }
            };
            if !key_is_pseudo {
                let pair = (self.entries[i].0.clone(), self.entries[i].1.clone());
                out.push(pair);
            }
            i = i + 1;
            proof {
                assert(out@.map_values(|p: (String, String)| (p.0@, p.1@)) =~= strip_pseudo(
                    self@.take(i as int),
                ));
            }
        }
        self.entries = out;
        proof {
            assert(old(self)@.take(n as int) =~= old(self)@);
        }
    }
}

/// Unfolds `insert_joined` across a prefix that does not hold the key.
proof fn lemma_insert_prefix(m: Seq<(Seq<char>, Seq<char>)>, k: Seq<char>, v: Seq<char>, i: int)
    requires
        0 <= i < m.len(),
        m[i].0 == k,
        forall|j: int| 0 <= j < i ==> m[j].0 != k,
    ensures
        insert_joined(m, k, v) == m.update(i, (m[i].0, m[i].1 + ", "@ + v)),
    decreases i,
{
    if i == 0 {
        assert(insert_joined(m, k, v) =~= m.update(0, (m[0].0, m[0].1 + ", "@ + v)));
    } else {
        let mt = m.drop_first();
        assert(forall|j: int| 0 <= j < i - 1 ==> #[trigger] mt[j].0 == m[j + 1].0);
        lemma_insert_prefix(mt, k, v, i - 1);
        assert(insert_joined(m, k, v) =~= seq![m[0]] + mt.update(i - 1, (mt[i - 1].0, mt[i - 1].1 + ", "@ + v)));
        assert(seq![m[0]] + mt.update(i - 1, (mt[i - 1].0, mt[i - 1].1 + ", "@ + v)) =~= m.update(
            i,
            (m[i].0, m[i].1 + ", "@ + v),
        ));
    }
}

/// Unfolds `insert_joined` when the key is absent: the pair is appended.
proof fn lemma_insert_append(m: Seq<(Seq<char>, Seq<char>)>, k: Seq<char>, v: Seq<char>)
    requires
        forall|j: int| 0 <= j < m.len() ==> m[j].0 != k,
    ensures
        insert_joined(m, k, v) == m.push((k, v)),
    decreases m.len(),
{
    if m.len() == 0 {
        assert(insert_joined(m, k, v) =~= m.push((k, v)));
    } else {
        let mt = m.drop_first();
        assert(forall|j: int| 0 <= j < mt.len() ==> #[trigger] mt[j].0 == m[j + 1].0);
        lemma_insert_append(mt, k, v);
        assert(insert_joined(m, k, v) =~= seq![m[0]] + mt.push((k, v)));
        assert(seq![m[0]] + mt.push((k, v)) =~= m.push((k, v)));
    }
}

/// Builds the normalized map out of the header lines of one message: names
/// lower-cased, missing decoded values replaced by the lossy decoding of the
/// raw bytes, duplicates joined with `", "` in encounter order.
pub fn header_list_to_map(entries: &Vec<HeaderEntry>) -> (r: HeaderMap)
    ensures
        r@ == built_map(entries@.map_values(|e: HeaderEntry| e@)),
{
    let mut r = HeaderMap::empty();
    let n = entries.len();
    let mut i: usize = 0;
    proof {
        assert(entries@.map_values(|e: HeaderEntry| e@).take(0) =~= Seq::<
            (Seq<char>, Seq<char>, Seq<u8>),
        >::empty());
    }
    let ghost evs = entries@.map_values(|e: HeaderEntry| e@);
    while i < n
        invariant
            n == entries@.len(),
            evs == entries@.map_values(|e: HeaderEntry| e@),
            i <= n,
            r@ == built_map(evs.take(i as int)),
        decreases n - i,
    {
        proof {
            assert(evs.take(i + 1).drop_last() =~= evs.take(i as int));
            assert(evs.take(i + 1).last() == evs[i as int]);
            assert(evs[i as int] == entries@[i as int]@);
        }
        let e = &entries[i];
        let k = ascii_lowercase(e.key.as_str());
        let v = if e.value.as_str().unicode_len() == 0 {
            utf8_lossy(&e.raw_value)
        } else {
            e.value.clone()
        };
        r.insert_join(k, v);
        i = i + 1;
    }
    proof {
        assert(evs.take(n as int) =~= evs);
    }
    r
}

} // verus!
