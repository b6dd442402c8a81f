use vstd::prelude::*;
use vstd::multiset::Multiset;
use crate::job::{extension_of, file_extension};
use crate::text::same_text;

verus! {

/// The icon shown beside a file whose name has extension `ext`.
pub open spec fn icon_of(ext: Option<Seq<char>>) -> Seq<char> {
    match ext {
        Some(e) => if e == "rs"@ {
            "🦀"@
        } else if e == "py"@ {
            "🐍"@
        } else if e == "js"@ || e == "jsx"@ || e == "ts"@ || e == "tsx"@ {
            "📜"@
        } else if e == "html"@ {
            "🌐"@
        } else if e == "css"@ || e == "scss"@ {
            "🎨"@
        } else if e == "json"@ {
            "📦"@
        } else if e == "md"@ {
            "📝"@
        } else if e == "txt"@ {
            "📄"@
        } else if e == "toml"@ || e == "yaml"@ || e == "yml"@ {
            "⚙️"@
        } else if e == "lock"@ {
            "🔒"@
        } else {
            "📋"@
        },
        None => "📋"@,
    }
}

/// The icon for a file whose name has extension `ext`.
pub fn icon_for_extension(ext: Option<&str>) -> (r: &'static str)
    ensures
        r@ == icon_of(
            match ext {
                Some(e) => Some(e@),
                None => None,
            },
        ),
{
    match ext {
        None => "📋",
        Some(e) => {
            if same_text(e, "rs") {
                "🦀"
            } else if same_text(e, "py") {
                "🐍"
            } else if same_text(e, "js") || same_text(e, "jsx") || same_text(e, "ts") || same_text(
                e,
                "tsx",
            ) {
                "📜"
            } else if same_text(e, "html") {
                "🌐"
            } else if same_text(e, "css") || same_text(e, "scss") {
                "🎨"
            } else if same_text(e, "json") {
                "📦"
            } else if same_text(e, "md") {
                "📝"
            } else if same_text(e, "txt") {
                "📄"
            } else if same_text(e, "toml") || same_text(e, "yaml") || same_text(e, "yml") {
                "⚙️"
            } else if same_text(e, "lock") {
                "🔒"
            } else {
                "📋"
            }
        },
    }
}

/// The icon for the file named `filename`.
pub fn get_file_icon(filename: &str) -> (r: &'static str)
    ensures
        r@ == icon_of(extension_of(filename@)),
{
    let ext = file_extension(filename);
    match &ext {
        Some(e) => icon_for_extension(Some(e.as_str())),
        None => icon_for_extension(None),
    }
}

/// Four spaces for each level below the first.
pub open spec fn indent(depth: nat) -> Seq<char>
    decreases depth,
{
    if depth <= 1 {
        Seq::empty()
    } else {
        indent((depth - 1) as nat) + "    "@
    }
}

/// The label of a folder entry at `depth` (at least 1) named `name`.
pub open spec fn folder_label_of(name: Seq<char>, depth: nat, expanded: bool) -> Seq<char> {
    indent(depth) + (if expanded {
        "▼"@
    } else {
        "▶"@
    }) + " 📁 "@ + name
}

/// The label of a file entry at `depth` (at least 1) named `name`.
pub open spec fn file_label_of(name: Seq<char>, depth: nat) -> Seq<char> {
    indent(depth) + "  "@ + icon_of(extension_of(name)) + " "@ + name
}

fn indentation(depth: usize) -> (r: String)
    requires
        depth >= 1,
    ensures
        r@ == indent(depth as nat),
{
    let mut r = String::new();
    let mut level: usize = 1;
    while level < depth
        invariant
            1 <= level <= depth,
            r@ == indent(level as nat),
        decreases depth - level,
    {
        r.append("    ");
        level = level + 1;
    }
    r
}

/// The label of the folder entry named `name` at `depth` in the tree.
pub fn folder_label(name: &str, depth: usize, expanded: bool) -> (r: String)
    requires
        depth >= 1,
    ensures
        r@ == folder_label_of(name@, depth as nat, expanded),
{
    let mut r = indentation(depth);
    r.append(
        if expanded {
            "▼"
        } else {
            "▶"
        },
    );
    r.append(" 📁 ");
    r.append(name);
    r
}

/// The label of the file entry named `name` at `depth` in the tree.
pub fn file_label(name: &str, depth: usize) -> (r: String)
    requires
        depth >= 1,
    ensures
        r@ == file_label_of(name@, depth as nat),
{
    let mut r = indentation(depth);
    r.append("  ");
    r.append(get_file_icon(name));
    r.append(" ");
    r.append(name);
    r
}

/// An entry of the folder tree: a file or folder found below the root.
#[derive(Debug)]
pub struct TreeEntry {
    pub path: String,
    /// The last component of the path.
    pub name: String,
    /// How many levels below the root; its children are at depth 1.
    pub depth: usize,
    pub is_dir: bool,
}

/// Whether name `a` comes no later than name `b`, comparing character by
/// character by code point (the order of their UTF-8 bytes), a prefix first.
pub open spec fn name_le(a: Seq<char>, b: Seq<char>) -> bool
    decreases a.len(),
{
    if a.len() == 0 {
        true
    } else if b.len() == 0 {
        false
    } else if a[0] != b[0] {
        a[0] < b[0]
    } else {
        name_le(a.drop_first(), b.drop_first())
    }
}

/// Whether entry `a` is listed no later than entry `b`: folders before
/// files, and by name within each.
pub open spec fn entry_le(a: TreeEntry, b: TreeEntry) -> bool {
    if a.is_dir != b.is_dir {
        a.is_dir
    } else {
        name_le(a.name@, b.name@)
    }
}

/// Whether `v` lists its entries in tree order.
pub open spec fn tree_ordered(v: Seq<TreeEntry>) -> bool {
    forall|i: int, j: int| 0 <= i < j < v.len() ==> entry_le(v[i], v[j])
}

/// Of two names one comes no later than the other.
pub proof fn name_le_total(a: Seq<char>, b: Seq<char>)
    ensures
        name_le(a, b) || name_le(b, a),
    decreases a.len(),
{
    if a.len() > 0 && b.len() > 0 && a[0] == b[0] {
        name_le_total(a.drop_first(), b.drop_first());
    }
}

/// Name order is transitive.
pub proof fn name_le_transitive(a: Seq<char>, b: Seq<char>, c: Seq<char>)
    requires
        name_le(a, b),
        name_le(b, c),
    ensures
        name_le(a, c),
    decreases a.len(),
{
    if a.len() > 0 && b.len() > 0 && c.len() > 0 && a[0] == b[0] && b[0] == c[0] {
        name_le_transitive(a.drop_first(), b.drop_first(), c.drop_first());
    }
}

/// Every name comes no later than itself.
pub proof fn name_le_reflexive(a: Seq<char>)
    ensures
        name_le(a, a),
    decreases a.len(),
{
    if a.len() > 0 {
        name_le_reflexive(a.drop_first());
    }
}

proof fn entry_le_total(a: TreeEntry, b: TreeEntry)
    ensures
        entry_le(a, b) || entry_le(b, a),
{
    name_le_total(a.name@, b.name@);
    name_le_reflexive(a.name@);
}

proof fn entry_le_transitive(a: TreeEntry, b: TreeEntry, c: TreeEntry)
    requires
        entry_le(a, b),
        entry_le(b, c),
    ensures
        entry_le(a, c),
{
    if a.is_dir == b.is_dir && b.is_dir == c.is_dir {
        name_le_transitive(a.name@, b.name@, c.name@);
    }
}

/// Whether name `a` comes no later than name `b`.
pub fn name_before(a: &str, b: &str) -> (r: bool)
    ensures
        r == name_le(a@, b@),
{
    let n = a.unicode_len();
    let m = b.unicode_len();
    let mut i: usize = 0;
    assert(a@.skip(0) =~= a@);
    assert(b@.skip(0) =~= b@);
    while i < n && i < m
        invariant
            n == a@.len(),
            m == b@.len(),
            i <= n,
            i <= m,
            name_le(a@, b@) == name_le(a@.skip(i as int), b@.skip(i as int)),
        decreases n - i,
    {
        let x = a.get_char(i);
        let y = b.get_char(i);
        assert(a@.skip(i as int)[0] == x);
        assert(b@.skip(i as int)[0] == y);
        if x != y {
            return x < y;
        }
        assert(a@.skip(i as int).drop_first() =~= a@.skip(i + 1));
        assert(b@.skip(i as int).drop_first() =~= b@.skip(i + 1));
        i = i + 1;
    }
    i == n
}

/// Whether entry `a` is listed no later than entry `b`.
pub fn entry_before(a: &TreeEntry, b: &TreeEntry) -> (r: bool)
    ensures
        r == entry_le(*a, *b),
{
    if a.is_dir != b.is_dir {
        a.is_dir
    } else {
        name_before(a.name.as_str(), b.name.as_str())
    }
}

/// Whether `order` tells, for each entry of `sorted`, where it stood in
/// `entries`, each place once, with entries that tie in the same order as
/// there.
pub open spec fn stable_order(entries: Seq<TreeEntry>, sorted: Seq<TreeEntry>, order: Seq<int>) -> bool {
    &&& order.len() == sorted.len()
    &&& forall|k: int| 0 <= k < sorted.len() ==> 0 <= #[trigger] order[k] < entries.len() && sorted[k]
        == entries[order[k]]
    &&& forall|a: int, b: int| 0 <= a < b < sorted.len() ==> order[a] != order[b]
    &&& forall|a: int, b: int|
        0 <= a < b < sorted.len() && #[trigger] entry_le(sorted[b], sorted[a]) ==> order[a] < order[b]
}

/// The entries in tree order: folders first, then files, each group by
/// name; entries that tie keep their order.
pub fn order_entries(entries: Vec<TreeEntry>) -> (r: Vec<TreeEntry>)
    ensures
        r@.to_multiset() == entries@.to_multiset(),
        tree_ordered(r@),
        exists|order: Seq<int>| stable_order(entries@, r@, order),
{
    broadcast use vstd::seq_lib::group_to_multiset_ensures;

    let ghost all = entries@;
    let mut rest = entries;
    let mut r: Vec<TreeEntry> = Vec::new();
    let ghost mut placed: Seq<int> = Seq::empty();
    let ghost mut left: Seq<int> = Seq::new(all.len(), |t: int| t);
    while rest.len() > 0
        invariant
            r@.to_multiset().add(rest@.to_multiset()) == all.to_multiset(),
            tree_ordered(r@),
            forall|i: int, j: int| 0 <= i < r@.len() && 0 <= j < rest@.len() ==> entry_le(r@[i], rest@[j]),
            left.len() == rest@.len(),
            forall|t: int| 0 <= t < rest@.len() ==> 0 <= #[trigger] left[t] < all.len() && rest@[t]
                == all[left[t]],
            forall|a: int, b: int| 0 <= a < b < left.len() ==> left[a] < left[b],
            forall|a: int, b: int| 0 <= a < placed.len() && 0 <= b < left.len() ==> placed[a] != left[b],
            forall|a: int, b: int|
                0 <= a < r@.len() && 0 <= b < rest@.len() && entry_le(rest@[b], r@[a]) ==> placed[a] < left[b],
            stable_order(all, r@, placed),
        decreases rest@.len(),
    {
        let mut k: usize = 0;
        let mut j: usize = 1;
        proof {
            name_le_reflexive(rest@[0].name@);
        }
        while j < rest.len()
            invariant
                0 <= k < j <= rest@.len(),
                forall|t: int| 0 <= t < j ==> entry_le(rest@[k as int], rest@[t]),
                forall|t: int| 0 <= t < k ==> !entry_le(rest@[t], rest@[k as int]),
            decreases rest@.len() - j,
        {
            if !entry_before(&rest[k], &rest[j]) {
                proof {
                    entry_le_total(rest@[k as int], rest@[j as int]);
                    assert forall|t: int| 0 <= t <= j implies entry_le(rest@[j as int], rest@[t]) by {
                        if t < j {
                            entry_le_transitive(rest@[j as int], rest@[k as int], rest@[t]);
                        } else {
                            name_le_reflexive(rest@[j as int].name@);
                        }
                    }
                    assert forall|t: int| 0 <= t < j implies !entry_le(rest@[t], rest@[j as int]) by {
                        if entry_le(rest@[t], rest@[j as int]) {
                            if t < k {
                                entry_le_transitive(rest@[t], rest@[j as int], rest@[k as int]);
                            } else if t > k {
                                entry_le_transitive(rest@[k as int], rest@[t], rest@[j as int]);
                            }
                        }
                    }
                }
                k = j;
            }
            j = j + 1;
        }
        let ghost before_rest = rest@;
        let ghost before_r = r@;
        let ghost before_left = left;
        let ghost before_placed = placed;
        let e = rest.remove(k);
        r.push(e);
        proof {
            placed = placed.push(before_left[k as int]);
            left = left.remove(k as int);
            before_rest.to_multiset_ensures();
            before_r.to_multiset_ensures();
            assert(before_rest.remove(k as int).to_multiset() =~= before_rest.to_multiset().remove(e));
            assert(before_r.push(e).to_multiset() =~= before_r.to_multiset().insert(e));
            assert(before_rest.to_multiset().count(e) > 0) by {
                assert(before_rest.contains(e)) by {
                    assert(before_rest[k as int] == e);
                }
            }
            assert(r@.to_multiset().add(rest@.to_multiset()) =~= before_r.to_multiset().add(
                before_rest.to_multiset(),
            ));
            assert forall|a: int, b: int| 0 <= a < b < r@.len() implies entry_le(r@[a], r@[b]) by {
                if b == r@.len() - 1 {
                    assert(r@[b] == before_rest[k as int]);
                }
            }
            assert forall|a: int, b: int|
                0 <= a < r@.len() && 0 <= b < rest@.len() implies entry_le(r@[a], rest@[b]) by {
                let ob = if b < k { b } else { b + 1 };
                assert(rest@[b] == before_rest[ob]);
                if a < r@.len() - 1 {
                } else {
                    assert(r@[a] == before_rest[k as int]);
                }
            }
            assert forall|t: int| 0 <= t < rest@.len() implies 0 <= #[trigger] left[t] < all.len()
                && rest@[t] == all[left[t]] by {
                let ot = if t < k { t } else { t + 1 };
                assert(rest@[t] == before_rest[ot]);
                assert(left[t] == before_left[ot]);
            }
            assert forall|a: int, b: int| 0 <= a < b < left.len() implies left[a] < left[b] by {
                let oa = if a < k { a } else { a + 1 };
                let ob = if b < k { b } else { b + 1 };
                assert(left[a] == before_left[oa]);
                assert(left[b] == before_left[ob]);
            }
            assert forall|a: int, b: int|
                0 <= a < placed.len() && 0 <= b < left.len() implies placed[a] != left[b] by {
                let ob = if b < k { b } else { b + 1 };
                assert(left[b] == before_left[ob]);
                if a < placed.len() - 1 {
                    assert(placed[a] == before_placed[a]);
                } else {
                    assert(placed[a] == before_left[k as int]);
                }
            }
            assert forall|a: int, b: int|
                0 <= a < r@.len() && 0 <= b < rest@.len() && entry_le(rest@[b], r@[a]) implies placed[a]
                < left[b] by {
                let ob = if b < k { b } else { b + 1 };
                assert(rest@[b] == before_rest[ob]);
                assert(left[b] == before_left[ob]);
                if a < r@.len() - 1 {
                    assert(placed[a] == before_placed[a]);
                    assert(r@[a] == before_r[a]);
                } else {
                    assert(placed[a] == before_left[k as int]);
                    assert(r@[a] == before_rest[k as int]);
                    if ob < k {
                        assert(!entry_le(before_rest[ob], before_rest[k as int]));
                    }
                }
            }
            assert forall|t: int| 0 <= t < r@.len() implies 0 <= #[trigger] placed[t] < all.len()
                && r@[t] == all[placed[t]] by {
                if t < r@.len() - 1 {
                    assert(placed[t] == before_placed[t]);
                    assert(r@[t] == before_r[t]);
                } else {
                    assert(r@[t] == before_rest[k as int]);
                }
            }
            assert forall|a: int, b: int| 0 <= a < b < r@.len() implies placed[a] != placed[b] by {
                if b == r@.len() - 1 {
                    assert(placed[b] == before_left[k as int]);
                    assert(placed[a] == before_placed[a]);
                } else {
                    assert(placed[a] == before_placed[a]);
                    assert(placed[b] == before_placed[b]);
                }
            }
            assert forall|a: int, b: int|
                0 <= a < b < r@.len() && #[trigger] entry_le(r@[b], r@[a]) implies placed[a] < placed[b] by {
                if b == r@.len() - 1 {
                    assert(placed[b] == before_left[k as int]);
                    assert(placed[a] == before_placed[a]);
                    assert(r@[a] == before_r[a]);
                    assert(r@[b] == before_rest[k as int]);
                } else {
                    assert(placed[a] == before_placed[a]);
                    assert(placed[b] == before_placed[b]);
                    assert(r@[a] == before_r[a]);
                    assert(r@[b] == before_r[b]);
                }
            }
        }
    }
    proof {
        assert(rest@.to_multiset() =~= Multiset::empty());
        assert(r@.to_multiset().add(Multiset::empty()) =~= r@.to_multiset());
    }
    r
}

} // verus!
