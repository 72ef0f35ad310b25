//! Port listing: sentinel filtering and deterministic ordering.
//!
//! The transport's enumeration hands back one record per serial port; a
//! metadata field whose value is the transport's "Unknown" sentinel is
//! dropped rather than shown. The results are sorted by path so that
//! repeated listings present the ports in a stable order.

use vstd::prelude::*;
use vstd::seq_lib::group_to_multiset_ensures;

verus! {

/// A port record exactly as the transport's enumeration reports it:
/// the path, and each metadata field as the transport gave it (possibly
/// the sentinel).
pub struct RawPortEntry {
    pub path: String,
    pub kind: Option<String>,
    pub manufacturer: Option<String>,
    pub product: Option<String>,
    pub serial_number: Option<String>,
}

/// A port record as presented to the caller: sentinel fields removed.
pub struct DmxPortInfo {
    pub path: String,
    pub kind: Option<String>,
    pub manufacturer: Option<String>,
    pub product: Option<String>,
    pub serial_number: Option<String>,
}

/// The metadata value the transport reports when it knows nothing.
pub open spec fn unknown_sentinel() -> Seq<char> {
    "Unknown"@
}

/// A field the transport reported, with the sentinel turned into absence.
pub open spec fn spec_sanitize_field(raw: Option<String>) -> Option<String> {
    match raw {
        Some(v) => if v@ == unknown_sentinel() {
            None
        } else {
            Some(v)
        },
        None => None,
    }
}

/// The presented record for one enumeration record.
pub open spec fn spec_sanitize_entry(e: RawPortEntry) -> DmxPortInfo {
    DmxPortInfo {
        path: e.path,
        kind: spec_sanitize_field(e.kind),
        manufacturer: spec_sanitize_field(e.manufacturer),
        product: spec_sanitize_field(e.product),
        serial_number: spec_sanitize_field(e.serial_number),
    }
}

/// No present field of the record carries the sentinel.
pub open spec fn clean_info(i: DmxPortInfo) -> bool {
    &&& (i.kind matches Some(v) ==> v@ != unknown_sentinel())
    &&& (i.manufacturer matches Some(v) ==> v@ != unknown_sentinel())
    &&& (i.product matches Some(v) ==> v@ != unknown_sentinel())
    &&& (i.serial_number matches Some(v) ==> v@ != unknown_sentinel())
}

/// Lexicographic order on strings by Unicode code point: the empty string
/// first, otherwise by the first code points, ties decided by the rest.
pub open spec fn lex_le(a: Seq<char>, b: Seq<char>) -> bool
    decreases a.len(),
{
    if a.len() == 0 {
        true
    } else if b.len() == 0 {
        false
    } else if (a[0] as int) < (b[0] as int) {
        true
    } else if (a[0] as int) == (b[0] as int) {
        lex_le(a.skip(1), b.skip(1))
    } else {
        false
    }
}

/// Any two strings are ordered one way or the other.
pub proof fn lemma_lex_le_total(a: Seq<char>, b: Seq<char>)
    ensures
        lex_le(a, b) || lex_le(b, a),
    decreases a.len(),
{
    if a.len() > 0 && b.len() > 0 && (a[0] as int) == (b[0] as int) {
        lemma_lex_le_total(a.skip(1), b.skip(1));
    }
}

/// The order is transitive.
pub proof fn lemma_lex_le_trans(a: Seq<char>, b: Seq<char>, c: Seq<char>)
    requires
        lex_le(a, b),
        lex_le(b, c),
    ensures
        lex_le(a, c),
    decreases a.len(),
{
    if a.len() > 0 && b.len() > 0 && c.len() > 0
        && (a[0] as int) == (b[0] as int) && (b[0] as int) == (c[0] as int) {
        lemma_lex_le_trans(a.skip(1), b.skip(1), c.skip(1));
    }
}

/// Every string is at or before itself.
pub proof fn lemma_lex_le_reflexive(a: Seq<char>)
    ensures
        lex_le(a, a),
    decreases a.len(),
{
    if a.len() > 0 {
        lemma_lex_le_reflexive(a.skip(1));
    }
}

/// The order is antisymmetric: two strings each at or before the other
/// are the same string.
pub proof fn lemma_lex_le_antisymmetric(a: Seq<char>, b: Seq<char>)
    requires
        lex_le(a, b),
        lex_le(b, a),
    ensures
        a == b,
    decreases a.len(),
{
    if a.len() == 0 {
        assert(b.len() == 0);
        assert(a =~= b);
    } else {
        assert(b.len() > 0);
        assert((a[0] as int) == (b[0] as int));
        assert(a[0] == b[0]);
        lemma_lex_le_antisymmetric(a.skip(1), b.skip(1));
        assert(a.skip(1) == b.skip(1));
        assert(a.skip(1).len() == b.skip(1).len());
        assert forall|i: int| 0 <= i < a.len() implies a[i] == b[i] by {
            if i > 0 {
                assert(a.skip(1)[i - 1] == a[i]);
                assert(b.skip(1)[i - 1] == b[i]);
            }
        }
        assert(a =~= b);
    }
}

/// Every pair of records stands in path order.
pub open spec fn sorted_by_path(s: Seq<DmxPortInfo>) -> bool {
    forall|i: int, j: int| 0 <= i < j < s.len() ==> lex_le(s[i].path@, s[j].path@)
}

/// No two records share a path.
pub open spec fn distinct_paths(s: Seq<DmxPortInfo>) -> bool {
    forall|i: int, j: int| 0 <= i < j < s.len() ==> s[i].path@ != s[j].path@
}

/// Relies on `str`'s `Ord`: strings compare lexicographically by byte,
/// which for UTF-8 text is lexicographic order by Unicode code point.
#[verifier::external_body]
fn path_le(a: &String, b: &String) -> (r: bool)
    ensures
        r == lex_le(a@, b@),
{
    a.as_str() <= b.as_str()
}

/// Whether this metadata value is the transport's sentinel.
fn is_unknown(v: &String) -> (r: bool)
    ensures
        r == (v@ == unknown_sentinel()),
{
    let sentinel: String = "Unknown".to_owned();
    *v == sentinel
}

/// Drop a metadata field whose value is the sentinel.
pub fn sanitize_field(raw: Option<String>) -> (r: Option<String>)
    ensures
        r == spec_sanitize_field(raw),
{
    match raw {
        Some(v) => if is_unknown(&v) {
            None
        } else {
            Some(v)
        },
        None => None,
    }
}

/// Turn one enumeration record into its presented form.
pub fn sanitize_entry(e: RawPortEntry) -> (r: DmxPortInfo)
    ensures
        r == spec_sanitize_entry(e),
        clean_info(r),
{
    DmxPortInfo {
        path: e.path,
        kind: sanitize_field(e.kind),
        manufacturer: sanitize_field(e.manufacturer),
        product: sanitize_field(e.product),
        serial_number: sanitize_field(e.serial_number),
    }
}

/// Inserting an element anywhere in a sequence adds it to the multiset.
proof fn lemma_to_multiset_insert<A>(s: Seq<A>, i: int, x: A)
    requires
        0 <= i <= s.len(),
    ensures
        s.insert(i, x).to_multiset() == s.to_multiset().insert(x),
{
    broadcast use group_to_multiset_ensures;
    let t = s.insert(i, x);
    assert(t.remove(i) =~= s);
    assert(t[i] == x);
    assert(t.remove(i).to_multiset() =~= t.to_multiset().remove(x));
    assert(t.to_multiset().count(x) > 0);
    assert(t.to_multiset() =~= s.to_multiset().insert(x));
}

/// Sort the records in place by path, keeping exactly the same records.
fn sort_by_path(v: &mut Vec<DmxPortInfo>)
    ensures
        final(v)@.to_multiset() == old(v)@.to_multiset(),
        final(v)@.len() == old(v)@.len(),
        sorted_by_path(final(v)@),
        forall|k: int| 0 <= k < final(v)@.len() ==> old(v)@.contains(#[trigger] final(v)@[k]),
{
    let ghost orig = v@;
    if v.len() <= 1 {
        proof {
            broadcast use group_to_multiset_ensures;
        }
        return;
    }
    let mut idx: usize = 1;
    while idx < v.len()
        invariant
            1 <= idx <= v@.len(),
            v@.len() == orig.len(),
            v@.to_multiset() == orig.to_multiset(),
            sorted_by_path(v@.take(idx as int)),
        decreases v@.len() - idx,
    {
        let ghost before = v@;
        let item = v.remove(idx);
        let ghost removed = v@;
        let mut j: usize = idx;
        while j > 0 && !path_le(&v[j - 1].path, &item.path)
            invariant
                j <= idx,
                idx < before.len(),
                v@ == removed,
                removed == before.remove(idx as int),
                forall|k: int| j <= k < idx ==> lex_le(item.path@, removed[k].path@),
            decreases j,
        {
            proof {
                lemma_lex_le_total(v@[j - 1].path@, item.path@);
            }
            j -= 1;
        }
        v.insert(j, item);
        proof {
            lemma_to_multiset_insert(removed, j as int, item);
            broadcast use group_to_multiset_ensures;
            assert(before.to_multiset().remove(before[idx as int]) =~= removed.to_multiset());
            assert(v@.to_multiset() =~= before.to_multiset());
            // the prefix through idx is sorted again
            assert forall|a: int, b: int| 0 <= a < b < idx + 1
                implies #[trigger] lex_le(v@[a].path@, v@[b].path@) by {
                let pre = before.take(idx as int);
                if a < j && b == j {
                    // item sits at j; its left neighbour lets it through
                    assert(lex_le(pre[j - 1].path@, item.path@));
                    if a < j - 1 {
                        assert(lex_le(pre[a].path@, pre[j - 1].path@));
                        lemma_lex_le_trans(pre[a].path@, pre[j - 1].path@, item.path@);
                    }
                } else if a == j {
                    assert(v@[b] == removed[b - 1]);
                    assert(lex_le(item.path@, removed[b - 1].path@));
                } else if a < j && b > j {
                    assert(v@[a] == pre[a]);
                    assert(v@[b] == removed[b - 1]);
                    assert(removed[b - 1] == pre[b - 1]);
                    assert(lex_le(pre[a].path@, pre[b - 1].path@));
                } else {
                    // both on the same side of j: pairs of the old prefix
                    if b < j {
                        assert(v@[a] == pre[a] && v@[b] == pre[b]);
                    } else {
                        assert(v@[a] == pre[a - 1] && v@[b] == pre[b - 1]);
                    }
                }
            }
            assert forall|a: int, b: int| 0 <= a < b < v@.take(idx as int + 1).len()
                implies #[trigger] lex_le(
                    v@.take(idx as int + 1)[a].path@,
                    v@.take(idx as int + 1)[b].path@,
                ) by {
                assert(v@.take(idx as int + 1)[a] == v@[a]);
                assert(v@.take(idx as int + 1)[b] == v@[b]);
                assert(lex_le(v@[a].path@, v@[b].path@));
            }
        }
        idx += 1;
    }
    proof {
        assert(v@.take(v@.len() as int) =~= v@);
        broadcast use group_to_multiset_ensures;
        assert forall|k: int| 0 <= k < v@.len() implies orig.contains(#[trigger] v@[k]) by {
            assert(v@.contains(v@[k]));
            assert(v@.to_multiset().count(v@[k]) > 0);
            assert(orig.to_multiset().count(v@[k]) > 0);
        }
    }
}

/// List the enumerated ports for presentation: each record sanitized of
/// sentinel metadata, the whole list sorted by path. The records out are
/// exactly the records in, each in its presented form.
pub fn dmx_list_ports(entries: Vec<RawPortEntry>) -> (r: Vec<DmxPortInfo>)
    ensures
        r@.len() == entries@.len(),
        r@.to_multiset() == entries@.map_values(
            |e: RawPortEntry| spec_sanitize_entry(e),
        ).to_multiset(),
        sorted_by_path(r@),
        forall|i: int| 0 <= i < r@.len() ==> clean_info(#[trigger] r@[i]),
{
    let ghost all = entries@;
    let mut rest = entries;
    let mut infos: Vec<DmxPortInfo> = Vec::new();
    while rest.len() > 0
        invariant
            infos@.len() + rest@.len() == all.len(),
            rest@ == all.skip(infos@.len() as int),
            forall|k: int| 0 <= k < infos@.len()
                ==> #[trigger] infos@[k] == spec_sanitize_entry(all[k]),
            forall|k: int| 0 <= k < infos@.len() ==> clean_info(#[trigger] infos@[k]),
        decreases rest@.len(),
    {
        let ghost i: int = infos@.len() as int;
        let e = rest.remove(0);
        proof {
            assert(e == all.skip(i)[0]);
            assert(e == all[i]);
            assert(all.skip(i).remove(0) =~= all.skip(i + 1));
        }
        let info = sanitize_entry(e);
        infos.push(info);
    }
    proof {
        assert(infos@ =~= all.map_values(|e: RawPortEntry| spec_sanitize_entry(e)));
    }
    let ghost mapped = infos@;
    sort_by_path(&mut infos);
    proof {
        assert forall|i: int| 0 <= i < infos@.len() implies clean_info(#[trigger] infos@[i]) by {
            assert(mapped.contains(infos@[i]));
            let j: int = choose|j: int| 0 <= j < mapped.len() && mapped[j] == infos@[i];
            assert(clean_info(mapped[j]));
        }
    }
    infos
}

/// The listing is deterministic: when the enumerated paths are pairwise
/// distinct, holding the same records and being sorted by path pins a
/// sequence completely, so two listings of the same enumeration agree in
/// full — the listing depends on nothing but the enumeration records.
pub proof fn lemma_listing_deterministic(r1: Seq<DmxPortInfo>, r2: Seq<DmxPortInfo>)
    requires
        r1.to_multiset() == r2.to_multiset(),
        sorted_by_path(r1),
        sorted_by_path(r2),
        distinct_paths(r1),
    ensures
        r1 == r2,
    decreases r1.len(),
{
    broadcast use group_to_multiset_ensures;
    if r1.len() == 0 {
        assert(r2.len() == 0);
        assert(r1 =~= r2);
    } else {
        assert(r1.len() == r1.to_multiset().len());
        assert(r2.len() == r2.to_multiset().len());
        assert(r2.len() == r1.len());
        // each head occurs in the other sequence
        assert(r1.contains(r1[0]) && r2.contains(r2[0]));
        assert(r2.to_multiset().count(r1[0]) > 0);
        assert(r2.contains(r1[0]));
        let j: int = choose|j: int| 0 <= j < r2.len() && r2[j] == r1[0];
        assert(r1.to_multiset().count(r2[0]) > 0);
        assert(r1.contains(r2[0]));
        let k: int = choose|k: int| 0 <= k < r1.len() && r1[k] == r2[0];
        // both heads carry the least path, so the paths agree
        if j > 0 {
            assert(lex_le(r2[0].path@, r2[j].path@));
        } else {
            lemma_lex_le_reflexive(r2[0].path@);
        }
        if k > 0 {
            assert(lex_le(r1[0].path@, r1[k].path@));
        } else {
            lemma_lex_le_reflexive(r1[0].path@);
        }
        lemma_lex_le_antisymmetric(r1[0].path@, r2[0].path@);
        // with distinct paths the least record is unique
        assert(k == 0);
        assert(r1[0] == r2[0]);
        // the tails hold the same records and inherit order and distinctness
        let s1 = r1.remove(0);
        let s2 = r2.remove(0);
        assert(s1.to_multiset() =~= s2.to_multiset());
        assert forall|a: int, b: int| 0 <= a < b < s1.len()
            implies #[trigger] lex_le(s1[a].path@, s1[b].path@) by {
            assert(s1[a] == r1[a + 1] && s1[b] == r1[b + 1]);
            assert(lex_le(r1[a + 1].path@, r1[b + 1].path@));
        }
        assert forall|a: int, b: int| 0 <= a < b < s2.len()
            implies #[trigger] lex_le(s2[a].path@, s2[b].path@) by {
            assert(s2[a] == r2[a + 1] && s2[b] == r2[b + 1]);
            assert(lex_le(r2[a + 1].path@, r2[b + 1].path@));
        }
        assert forall|a: int, b: int| 0 <= a < b < s1.len()
            implies s1[a].path@ != s1[b].path@ by {
            assert(s1[a] == r1[a + 1] && s1[b] == r1[b + 1]);
        }
        lemma_listing_deterministic(s1, s2);
        assert forall|i: int| 0 <= i < r1.len() implies r1[i] == r2[i] by {
            if i > 0 {
                assert(s1[i - 1] == r1[i]);
                assert(s2[i - 1] == r2[i]);
            }
        }
        assert(r1 =~= r2);
    }
}

} // verus!
