//! The names of asset files: which files of a directory are assets of a
//! kind, what they are called, and the order in which they are listed.

use vstd::prelude::*;
use vstd::utf8::encode_utf8;
use vstd::seq_lib::{to_multiset_build, to_multiset_remove};

verus! {

/// The name of the asset in the file `file_name`, if the file has the
/// extension `extension` (written with its dot): the file name without the
/// extension. A file that is nothing but the extension is no asset.
pub open spec fn asset_stem(file_name: Seq<char>, extension: Seq<char>) -> Option<Seq<char>> {
    let cut = file_name.len() - extension.len();
    if cut > 0 && file_name.subrange(cut, file_name.len() as int) == extension {
        Some(file_name.subrange(0, cut))
    } else {
        None
    }
}

/// The name of the asset in the file `file_name`, if the file has the
/// extension `extension`, which is written with its dot.
pub fn asset_name(file_name: &str, extension: &str) -> (name: Option<String>)
    ensures
        match asset_stem(file_name@, extension@) {
            Some(stem) => name matches Some(n) && n@ == stem,
            None => name is None,
        },
{
    let n: usize = file_name.unicode_len();
    let k: usize = extension.unicode_len();
    if n <= k {
        return None;
    }
    let cut: usize = n - k;
    let mut i: usize = 0;
    while i < k
        invariant
            i <= k,
            cut + k == n,
            n == file_name@.len(),
            k == extension@.len(),
            forall|j: int| 0 <= j < i ==> file_name@[cut + j] == extension@[j],
        decreases k - i,
    {
        if file_name.get_char(cut + i) != extension.get_char(i) {
            proof {
                assert(file_name@.subrange(cut as int, n as int)[i as int] == file_name@[cut + i]);
            }
            return None;
        }
        i = i + 1;
    }
    proof {
        assert(file_name@.subrange(cut as int, n as int) =~= extension@);
    }
    Some(String::from_str(file_name.substring_char(0, cut)))
}

/// Whether the bytes `a` come no later than the bytes `b` in the order of
/// strings: the first byte that differs decides, and a prefix comes first.
pub open spec fn bytes_le(a: Seq<u8>, b: Seq<u8>) -> bool
    decreases a.len(),
{
    if a.len() == 0 {
        true
    } else if b.len() == 0 {
        false
    } else if a[0] != b[0] {
        a[0] < b[0]
    } else {
        bytes_le(a.skip(1), b.skip(1))
    }
}

/// Whether the name `a` comes no later than the name `b`.
pub open spec fn name_le(a: Seq<char>, b: Seq<char>) -> bool {
    bytes_le(encode_utf8(a), encode_utf8(b))
}

/// The views of a sequence of names.
pub open spec fn name_views(names: Seq<String>) -> Seq<Seq<char>> {
    names.map_values(|s: String| s@)
}

/// Whether names stand in ascending order.
pub open spec fn names_sorted(names: Seq<Seq<char>>) -> bool {
    forall|i: int| 0 <= i < names.len() - 1 ==> name_le(#[trigger] names[i], names[i + 1])
}

/// Of any two byte strings one comes no later than the other.
pub proof fn lemma_bytes_le_total(a: Seq<u8>, b: Seq<u8>)
    ensures
        bytes_le(a, b) || bytes_le(b, a),
    decreases a.len(),
{
    if a.len() > 0 && b.len() > 0 && a[0] == b[0] {
        lemma_bytes_le_total(a.skip(1), b.skip(1));
    }
}

/// Byte strings that agree on their first `i` bytes compare as their rests.
proof fn lemma_bytes_le_common_prefix(a: Seq<u8>, b: Seq<u8>, i: int)
    requires
        0 <= i <= a.len(),
        i <= b.len(),
        forall|j: int| 0 <= j < i ==> a[j] == b[j],
    ensures
        bytes_le(a, b) == bytes_le(a.skip(i), b.skip(i)),
    decreases i,
{
    if i > 0 {
        lemma_bytes_le_common_prefix(a, b, i - 1);
        let ra = a.skip(i - 1);
        let rb = b.skip(i - 1);
        assert(ra[0] == a[i - 1]);
        assert(rb[0] == b[i - 1]);
        assert(ra.skip(1) =~= a.skip(i));
        assert(rb.skip(1) =~= b.skip(i));
    } else {
        assert(a.skip(0) =~= a);
        assert(b.skip(0) =~= b);
    }
}

/// Whether the name `a` comes no later than the name `b` in the order of
/// strings.
pub fn name_comes_first(a: &str, b: &str) -> (first: bool)
    ensures
        first == name_le(a@, b@),
{
    let x = a.as_bytes();
    let y = b.as_bytes();
    let n: usize = x.len();
    let m: usize = y.len();
    let mut i: usize = 0;
    while i < n && i < m
        invariant
            i <= n,
            i <= m,
            n == x@.len(),
            m == y@.len(),
            x@ == encode_utf8(a@),
            y@ == encode_utf8(b@),
            forall|j: int| 0 <= j < i ==> x@[j] == y@[j],
        decreases n - i,
    {
        if x[i] != y[i] {
            proof {
                lemma_bytes_le_common_prefix(x@, y@, i as int);
                let rx = x@.skip(i as int);
                let ry = y@.skip(i as int);
                assert(rx.len() > 0 && ry.len() > 0);
                assert(rx[0] == x@[i as int]);
                assert(ry[0] == y@[i as int]);
                assert(bytes_le(rx, ry) == (rx[0] < ry[0]));
            }
            return x[i] < y[i];
        }
        i = i + 1;
    }
    proof {
        lemma_bytes_le_common_prefix(x@, y@, i as int);
    }
    i == n
}

/// A sequence with one more element holds that element once more, wherever
/// it was put.
pub proof fn lemma_insert_to_multiset<A>(s: Seq<A>, i: int, a: A)
    requires
        0 <= i <= s.len(),
    ensures
        s.insert(i, a).to_multiset() == s.to_multiset().insert(a),
{
    let t = s.insert(i, a);
    assert(t[i] == a);
    assert(t.remove(i) =~= s);
    to_multiset_remove(t, i);
    assert(t.to_multiset().count(a) > 0) by {
        t.to_multiset_ensures();
        assert(t.contains(a));
    }
    assert(t.to_multiset() =~= s.to_multiset().insert(a));
}

/// Sorts names into the order of strings. The result holds the same names,
/// each as often as before, in ascending order.
pub fn sort_names(names: Vec<String>) -> (sorted: Vec<String>)
    ensures
        name_views(sorted@).to_multiset() == name_views(names@).to_multiset(),
        names_sorted(name_views(sorted@)),
{
    let mut rest = names;
    let mut sorted: Vec<String> = Vec::new();
    proof {
        assert(name_views(sorted@) =~= Seq::<Seq<char>>::empty());
        assert(name_views(sorted@).to_multiset().add(name_views(rest@).to_multiset())
            =~= name_views(names@).to_multiset()) by {
            name_views(sorted@).to_multiset_ensures();
        }
    }
    while rest.len() > 0
        invariant
            names_sorted(name_views(sorted@)),
            name_views(sorted@).to_multiset().add(name_views(rest@).to_multiset()) == name_views(
                names@,
            ).to_multiset(),
        decreases rest.len(),
    {
        let ghost rest_before = rest@;
        let ghost sorted_before = sorted@;
        let name = match rest.pop() {
            Some(name) => name,
            None => String::new(),
        };
        proof {
            assert(rest_before =~= rest@.push(name));
            assert(name_views(rest_before) =~= name_views(rest@).push(name@));
            to_multiset_build(name_views(rest@), name@);
        }
        let n: usize = sorted.len();
        let mut pos: usize = 0;
        while pos < n && name_comes_first(sorted[pos].as_str(), name.as_str())
            invariant
                pos <= n,
                n == sorted@.len(),
                sorted@ == sorted_before,
                forall|j: int| 0 <= j < pos ==> name_le(sorted@[j]@, name@),
            decreases n - pos,
        {
            pos = pos + 1;
        }
        sorted.insert(pos, name);
        proof {
            let before = name_views(sorted_before);
            let after = name_views(sorted@);
            assert(after =~= before.insert(pos as int, name@));
            lemma_insert_to_multiset(before, pos as int, name@);
            assert(after.to_multiset().add(name_views(rest@).to_multiset()) =~= name_views(
                names@,
            ).to_multiset());
            assert forall|i: int| 0 <= i < after.len() - 1 implies name_le(
                #[trigger] after[i],
                after[i + 1],
            ) by {
                if i + 1 < pos {
                    assert(after[i] == before[i] && after[i + 1] == before[i + 1]);
                } else if i + 1 == pos {
                    assert(after[i] == before[i]);
                    assert(name_le(sorted_before[i]@, name@));
                } else if i == pos {
                    assert(after[i + 1] == before[i]);
                    assert(!name_le(sorted_before[pos as int]@, name@));
                    lemma_bytes_le_total(encode_utf8(sorted_before[pos as int]@), encode_utf8(name@));
                } else {
                    assert(after[i] == before[i - 1] && after[i + 1] == before[i]);
                    assert(name_le(before[i - 1], before[i - 1 + 1]));
                }
            }
        }
    }
    proof {
        assert(rest@.len() == 0);
        assert(name_views(rest@) =~= Seq::<Seq<char>>::empty());
        assert(name_views(sorted@).to_multiset().add(name_views(rest@).to_multiset())
            =~= name_views(sorted@).to_multiset()) by {
            name_views(rest@).to_multiset_ensures();
        }
    }
    sorted
}

} // verus!
