use vstd::prelude::*;
use vstd::multiset::Multiset;
use vstd::seq_lib::{lemma_multiset_commutative, to_multiset_build};
use vstd::string::StringExecFns;

use crate::entry::ListingEntry;
use crate::order::{lemma_lex_le_total, lemma_lex_le_trans, lex_le, name_le};

verus! {

/// The entries stand in ascending lexicographic order of their names.
/// Ordering looks at the name alone: icons and kind-specific fields play
/// no part in it.
pub open spec fn sorted_by_name(s: Seq<ListingEntry>) -> bool {
    forall|i: int, j: int|
        0 <= i < j < s.len() ==> lex_le(s[i].spec_name(), s[j].spec_name())
}

/// Insertion of one entry into a name-sorted sequence: the entry goes in
/// front of the first element whose name is not below its own.
pub open spec fn insert_by_name(e: ListingEntry, s: Seq<ListingEntry>) -> Seq<ListingEntry>
    decreases s.len(),
{
    if s.len() == 0 {
        seq![e]
    } else if lex_le(e.spec_name(), s[0].spec_name()) {
        seq![e] + s
    } else {
        seq![s[0]] + insert_by_name(e, s.drop_first())
    }
}

/// Name-sorting of a sequence of entries, by repeated insertion.
pub open spec fn sort_by_name(s: Seq<ListingEntry>) -> Seq<ListingEntry>
    decreases s.len(),
{
    if s.len() == 0 {
        Seq::empty()
    } else {
        insert_by_name(s[0], sort_by_name(s.drop_first()))
    }
}

/// Inserting adds the one entry and keeps every other.
pub proof fn lemma_insert_by_name_len(e: ListingEntry, s: Seq<ListingEntry>)
    ensures
        insert_by_name(e, s).len() == s.len() + 1,
        forall|k: int|
            0 <= k < insert_by_name(e, s).len() ==> (insert_by_name(e, s)[k] == e || s.contains(
                insert_by_name(e, s)[k],
            )),
    decreases s.len(),
{
    if s.len() == 0 {
    } else if lex_le(e.spec_name(), s[0].spec_name()) {
    } else {
        lemma_insert_by_name_len(e, s.drop_first());
        assert forall|k: int| 0 <= k < insert_by_name(e, s).len() implies (insert_by_name(e, s)[k]
            == e || s.contains(insert_by_name(e, s)[k])) by {
            if k == 0 {
                assert(s.contains(s[0]));
            } else {
                let rest = insert_by_name(e, s.drop_first());
                assert(insert_by_name(e, s)[k] == rest[k - 1]);
                if rest[k - 1] != e {
                    let m = choose|m: int| 0 <= m < s.drop_first().len() && s.drop_first()[m]
                        == rest[k - 1];
                    assert(s[m + 1] == rest[k - 1]);
                }
            }
        }
    }
}

/// Inserting into a name-sorted sequence keeps it name-sorted.
pub proof fn lemma_insert_by_name_sorted(e: ListingEntry, s: Seq<ListingEntry>)
    requires
        sorted_by_name(s),
    ensures
        sorted_by_name(insert_by_name(e, s)),
    decreases s.len(),
{
    if s.len() == 0 {
    } else if lex_le(e.spec_name(), s[0].spec_name()) {
        let r = seq![e] + s;
        assert forall|i: int, j: int| 0 <= i < j < r.len() implies lex_le(
            r[i].spec_name(),
            r[j].spec_name(),
        ) by {
            if i == 0 {
                if j > 1 {
                    lemma_lex_le_trans(e.spec_name(), s[0].spec_name(), s[j - 1].spec_name());
                }
            }
        }
    } else {
        assert(sorted_by_name(s.drop_first())) by {
            assert forall|i: int, j: int| 0 <= i < j < s.drop_first().len() implies lex_le(
                s.drop_first()[i].spec_name(),
                s.drop_first()[j].spec_name(),
            ) by {
                assert(s.drop_first()[i] == s[i + 1]);
                assert(s.drop_first()[j] == s[j + 1]);
            }
        }
        lemma_insert_by_name_sorted(e, s.drop_first());
        lemma_insert_by_name_len(e, s.drop_first());
        lemma_lex_le_total(e.spec_name(), s[0].spec_name());
        let rest = insert_by_name(e, s.drop_first());
        let r = seq![s[0]] + rest;
        assert forall|i: int, j: int| 0 <= i < j < r.len() implies lex_le(
            r[i].spec_name(),
            r[j].spec_name(),
        ) by {
            if i == 0 {
                // the head is below e and below every later element of s
                if rest[j - 1] != e {
                    let m = choose|m: int| 0 <= m < s.drop_first().len() && s.drop_first()[m]
                        == rest[j - 1];
                    assert(s[m + 1] == rest[j - 1]);
                }
            }
        }
    }
}

/// The multiset of a one-entry sequence.
proof fn lemma_singleton_multiset(e: ListingEntry)
    ensures
        seq![e].to_multiset() == Multiset::<ListingEntry>::empty().insert(e),
{
    broadcast use vstd::multiset::group_multiset_axioms;
    broadcast use vstd::seq_lib::group_to_multiset_ensures;

    let em = Seq::<ListingEntry>::empty();
    assert(em.push(e) =~= seq![e]);
    assert forall|x: ListingEntry| em.to_multiset().count(x) == 0 by {
        assert(!em.contains(x));
    }
    assert(em.to_multiset() =~= Multiset::<ListingEntry>::empty());
    to_multiset_build(em, e);
    assert(seq![e].to_multiset() =~= Multiset::<ListingEntry>::empty().insert(e));
}

/// Splitting off the first entry splits the multiset.
proof fn lemma_first_rest_multiset(s: Seq<ListingEntry>)
    requires
        s.len() > 0,
    ensures
        s.to_multiset() == s.drop_first().to_multiset().insert(s[0]),
{
    broadcast use vstd::multiset::group_multiset_axioms;

    lemma_singleton_multiset(s[0]);
    lemma_multiset_commutative(seq![s[0]], s.drop_first());
    assert(seq![s[0]] + s.drop_first() =~= s);
    assert(s.to_multiset() =~= s.drop_first().to_multiset().insert(s[0]));
}

/// Inserting adds exactly the one entry to the collection.
pub proof fn lemma_insert_by_name_multiset(e: ListingEntry, s: Seq<ListingEntry>)
    ensures
        insert_by_name(e, s).to_multiset() == s.to_multiset().insert(e),
    decreases s.len(),
{
    broadcast use vstd::multiset::group_multiset_axioms;

    if s.len() == 0 {
        lemma_singleton_multiset(e);
        lemma_first_rest_multiset(seq![e]);
        assert(seq![e].drop_first() =~= s);
        assert(insert_by_name(e, s).to_multiset() =~= s.to_multiset().insert(e));
    } else if lex_le(e.spec_name(), s[0].spec_name()) {
        lemma_singleton_multiset(e);
        lemma_multiset_commutative(seq![e], s);
        assert((seq![e] + s).to_multiset() =~= s.to_multiset().insert(e));
    } else {
        let rest = insert_by_name(e, s.drop_first());
        lemma_insert_by_name_multiset(e, s.drop_first());
        lemma_singleton_multiset(s[0]);
        lemma_multiset_commutative(seq![s[0]], rest);
        lemma_first_rest_multiset(s);
        assert((seq![s[0]] + rest).to_multiset() =~= s.to_multiset().insert(e));
    }
}

/// Sorting neither drops nor invents entries.
pub proof fn lemma_sort_by_name_multiset(s: Seq<ListingEntry>)
    ensures
        sort_by_name(s).to_multiset() == s.to_multiset(),
    decreases s.len(),
{
    broadcast use vstd::multiset::group_multiset_axioms;

    if s.len() > 0 {
        lemma_sort_by_name_multiset(s.drop_first());
        lemma_insert_by_name_multiset(s[0], sort_by_name(s.drop_first()));
        lemma_first_rest_multiset(s);
        assert(sort_by_name(s).to_multiset() =~= s.to_multiset());
    } else {
        assert(s =~= Seq::<ListingEntry>::empty());
    }
}

/// Sorting keeps the number of entries.
pub proof fn lemma_sort_by_name_len(s: Seq<ListingEntry>)
    ensures
        sort_by_name(s).len() == s.len(),
    decreases s.len(),
{
    if s.len() > 0 {
        lemma_sort_by_name_len(s.drop_first());
        lemma_insert_by_name_len(s[0], sort_by_name(s.drop_first()));
    }
}

/// Sorting leaves the entries in ascending order of their names.
pub proof fn lemma_sort_by_name_sorted(s: Seq<ListingEntry>)
    ensures
        sorted_by_name(sort_by_name(s)),
    decreases s.len(),
{
    if s.len() > 0 {
        lemma_sort_by_name_sorted(s.drop_first());
        lemma_insert_by_name_sorted(s[0], sort_by_name(s.drop_first()));
    }
}

/// `insert_by_name` unrolled to the insertion point: where no element of a
/// prefix admits the new entry before it, the entry lands right after that
/// prefix.
proof fn lemma_insert_by_name_at(e: ListingEntry, s: Seq<ListingEntry>, i: int)
    requires
        0 <= i <= s.len(),
        forall|j: int| 0 <= j < i ==> !lex_le(e.spec_name(), s[j].spec_name()),
        i < s.len() ==> lex_le(e.spec_name(), s[i].spec_name()),
    ensures
        insert_by_name(e, s) == s.insert(i, e),
    decreases s.len(),
{
    if s.len() == 0 {
        assert(insert_by_name(e, s) =~= s.insert(0, e));
    } else if i == 0 {
        assert(seq![e] + s =~= s.insert(0, e));
    } else {
        assert forall|j: int| 0 <= j < i - 1 implies !lex_le(
            e.spec_name(),
            s.drop_first()[j].spec_name(),
        ) by {
            assert(s.drop_first()[j] == s[j + 1]);
        }
        assert(i - 1 < s.drop_first().len() ==> lex_le(
            e.spec_name(),
            s.drop_first()[i - 1].spec_name(),
        ));
        lemma_insert_by_name_at(e, s.drop_first(), i - 1);
        assert(seq![s[0]] + s.drop_first().insert(i - 1, e) =~= s.insert(i, e));
    }
}

/// Inserts an entry into a name-sorted vector at its place.
fn insert_entry(v: &mut Vec<ListingEntry>, e: ListingEntry)
    ensures
        final(v)@ == insert_by_name(e, old(v)@),
{
    let mut idx: usize = 0;
    loop
        invariant
            idx <= v@.len(),
            forall|j: int| 0 <= j < idx ==> !lex_le(e.spec_name(), v@[j].spec_name()),
        ensures
            idx <= v@.len(),
            forall|j: int| 0 <= j < idx ==> !lex_le(e.spec_name(), v@[j].spec_name()),
            idx < v@.len() ==> lex_le(e.spec_name(), v@[idx as int].spec_name()),
        decreases v@.len() - idx,
    {
        if idx >= v.len() {
            break;
        }
        if name_le(e.name_str(), v[idx].name_str()) {
            break;
        }
        idx += 1;
    }
    proof {
        lemma_insert_by_name_at(e, v@, idx as int);
    }
    v.insert(idx, e);
}

/// Sorts the entries by name, in the order `lex_le` gives.
pub fn sort_entries(entries: Vec<ListingEntry>) -> (r: Vec<ListingEntry>)
    ensures
        r@ == sort_by_name(entries@),
{
    let ghost all = entries@;
    let mut rest = entries;
    let mut acc: Vec<ListingEntry> = Vec::new();
    proof {
        assert(rest@ =~= all.take(rest@.len() as int));
        assert(all.skip(rest@.len() as int) =~= Seq::<ListingEntry>::empty());
    }
    while rest.len() > 0
        invariant
            rest@.len() <= all.len(),
            rest@ == all.take(rest@.len() as int),
            acc@ == sort_by_name(all.skip(rest@.len() as int)),
        decreases rest@.len(),
    {
        let ghost k = rest@.len() as int;
        let e = rest.pop().unwrap();
        proof {
            assert(e == all.take(k)[k - 1]);
            assert(rest@ =~= all.take(k - 1));
            assert(all.skip(k - 1)[0] == all[k - 1]);
            assert(all.skip(k - 1).drop_first() =~= all.skip(k));
        }
        insert_entry(&mut acc, e);
        proof {
            assert(acc@ == sort_by_name(all.skip(k - 1)));
        }
    }
    proof {
        assert(all.skip(0) =~= all);
    }
    acc
}

/// The one line printed for an entry: its icon, a space, and its name;
/// a symbolic link additionally shows ` -> ` and its target.
pub open spec fn spec_line(e: ListingEntry) -> Seq<char> {
    if e is Symlink {
        e.spec_icon() + " "@ + e.spec_name() + " -> "@ + e.spec_target()
    } else {
        e.spec_icon() + " "@ + e.spec_name()
    }
}

/// The subsequence of `s` that one rendering pass walks: with `dirs` true
/// the directories, with `dirs` false everything else, in the order of `s`.
pub open spec fn block(s: Seq<ListingEntry>, dirs: bool) -> Seq<ListingEntry>
    decreases s.len(),
{
    if s.len() == 0 {
        Seq::empty()
    } else if (s.last() is Directory) == dirs {
        block(s.drop_last(), dirs).push(s.last())
    } else {
        block(s.drop_last(), dirs)
    }
}

/// The views of a vector of lines.
pub open spec fn views_of(lines: Seq<String>) -> Seq<Seq<char>> {
    lines.map_values(|l: String| l@)
}

/// The full rendered output for a collection of entries: the entries are
/// name-sorted, then the directories are printed first and every other
/// entry after them.
pub open spec fn spec_render(s: Seq<ListingEntry>) -> Seq<Seq<char>> {
    block(sort_by_name(s), true).map_values(|e: ListingEntry| spec_line(e)) + block(
        sort_by_name(s),
        false,
    ).map_values(|e: ListingEntry| spec_line(e))
}

/// Formats the one line for an entry.
pub fn render_line(e: &ListingEntry) -> (line: String)
    ensures
        line@ == spec_line(*e),
{
    let mut line = e.get_icon();
    line.append(" ");
    let name = e.get_name();
    line.append(name.as_str());
    match e {
        ListingEntry::Symlink { target, .. } => {
            line.append(" -> ");
            line.append(target.as_str());
        },
        _ => {},
    }
    line
}

/// Both passes together visit every entry exactly once.
pub proof fn lemma_block_len(s: Seq<ListingEntry>)
    ensures
        block(s, true).len() + block(s, false).len() == s.len(),
    decreases s.len(),
{
    if s.len() > 0 {
        lemma_block_len(s.drop_last());
    }
}

/// A pass selects exactly the entries of its kind.
pub proof fn lemma_block_variant(s: Seq<ListingEntry>, dirs: bool)
    ensures
        forall|k: int|
            0 <= k < block(s, dirs).len() ==> ((block(s, dirs)[k] is Directory) == dirs),
    decreases s.len(),
{
    if s.len() > 0 {
        lemma_block_variant(s.drop_last(), dirs);
    }
}

/// A pass over a name-sorted sequence emits its entries in ascending
/// order of their names.
pub proof fn lemma_block_sorted(s: Seq<ListingEntry>, dirs: bool)
    requires
        sorted_by_name(s),
    ensures
        sorted_by_name(block(s, dirs)),
    decreases s.len(),
{
    if s.len() > 0 {
        assert(sorted_by_name(s.drop_last())) by {
            assert forall|i: int, j: int| 0 <= i < j < s.drop_last().len() implies lex_le(
                s.drop_last()[i].spec_name(),
                s.drop_last()[j].spec_name(),
            ) by {
                assert(s.drop_last()[i] == s[i]);
                assert(s.drop_last()[j] == s[j]);
            }
        }
        lemma_block_sorted(s.drop_last(), dirs);
        if (s.last() is Directory) == dirs {
            lemma_block_is_subsequence(s.drop_last(), dirs);
            let b = block(s.drop_last(), dirs).push(s.last());
            assert forall|i: int, j: int| 0 <= i < j < b.len() implies lex_le(
                b[i].spec_name(),
                b[j].spec_name(),
            ) by {
                if j == b.len() - 1 {
                    let m = choose|m: int| 0 <= m < s.drop_last().len() && s.drop_last()[m]
                        == b[i];
                    assert(s[m] == b[i]);
                    assert(lex_le(s[m].spec_name(), s.last().spec_name()));
                }
            }
        }
    }
}

/// Every entry a pass emits stands in the sequence it reads.
pub proof fn lemma_block_is_subsequence(s: Seq<ListingEntry>, dirs: bool)
    ensures
        forall|k: int| 0 <= k < block(s, dirs).len() ==> s.contains(block(s, dirs)[k]),
    decreases s.len(),
{
    if s.len() > 0 {
        lemma_block_is_subsequence(s.drop_last(), dirs);
        assert forall|k: int| 0 <= k < block(s, dirs).len() implies s.contains(
            block(s, dirs)[k],
        ) by {
            let b = block(s, dirs);
            if (s.last() is Directory) == dirs && k == b.len() - 1 {
                assert(s[s.len() - 1] == b[k]);
            } else {
                assert(b[k] == block(s.drop_last(), dirs)[k]);
                assert(s.drop_last().contains(b[k]));
                let m = choose|m: int| 0 <= m < s.drop_last().len() && s.drop_last()[m] == b[k];
                assert(s[m] == b[k]);
            }
        }
    }
}

/// Ordering of the rendered listing: after the sort, the directories
/// pass holds directories alone and the other pass everything else, and
/// each pass emits its entries in ascending name order.
pub proof fn lemma_render_ordering(s: Seq<ListingEntry>)
    ensures
        sorted_by_name(block(sort_by_name(s), true)),
        sorted_by_name(block(sort_by_name(s), false)),
        forall|k: int|
            0 <= k < block(sort_by_name(s), true).len() ==> block(sort_by_name(s), true)[k]
                is Directory,
        forall|k: int|
            0 <= k < block(sort_by_name(s), false).len() ==> !(block(sort_by_name(s), false)[k]
            is Directory),
{
    lemma_sort_by_name_sorted(s);
    lemma_block_sorted(sort_by_name(s), true);
    lemma_block_sorted(sort_by_name(s), false);
    lemma_block_variant(sort_by_name(s), true);
    lemma_block_variant(sort_by_name(s), false);
}

/// The two passes together partition the sequence they read: every entry
/// appears in exactly one of them.
pub proof fn lemma_block_partition(s: Seq<ListingEntry>)
    ensures
        (block(s, true) + block(s, false)).to_multiset() == s.to_multiset(),
    decreases s.len(),
{
    broadcast use vstd::multiset::group_multiset_axioms;

    if s.len() == 0 {
        assert(block(s, true) + block(s, false) =~= s);
    } else {
        lemma_block_partition(s.drop_last());
        let bt = block(s.drop_last(), true);
        let bf = block(s.drop_last(), false);
        assert(s =~= s.drop_last().push(s.last()));
        to_multiset_build(s.drop_last(), s.last());
        lemma_multiset_commutative(bt, bf);
        if s.last() is Directory {
            to_multiset_build(bt, s.last());
            lemma_multiset_commutative(bt.push(s.last()), bf);
            assert((block(s, true) + block(s, false)).to_multiset() =~= s.to_multiset());
        } else {
            to_multiset_build(bf, s.last());
            lemma_multiset_commutative(bt, bf.push(s.last()));
            assert((block(s, true) + block(s, false)).to_multiset() =~= s.to_multiset());
        }
    }
}

/// No entry is dropped and none invented: the two rendering passes over
/// the sorted entries visit exactly the collection that was handed in.
pub proof fn lemma_render_preserves_entries(s: Seq<ListingEntry>)
    ensures
        (block(sort_by_name(s), true) + block(sort_by_name(s), false)).to_multiset()
            == s.to_multiset(),
{
    lemma_block_partition(sort_by_name(s));
    lemma_sort_by_name_multiset(s);
}

/// Renders a collection of entries: sorts them by name, then emits one
/// line per entry, all directories first, everything else after them.
pub fn render(entries: Vec<ListingEntry>) -> (lines: Vec<String>)
    ensures
        views_of(lines@) == spec_render(entries@),
        lines@.len() == entries@.len(),
{
    let sorted = sort_entries(entries);
    let ghost t = sorted@;
    let mut lines: Vec<String> = Vec::new();
    proof {
        assert(t.take(0) =~= Seq::<ListingEntry>::empty());
        assert(views_of(lines@) =~= block(t.take(0), true).map_values(
            |e: ListingEntry| spec_line(e),
        ));
    }
    // show directories first
    let mut i: usize = 0;
    while i < sorted.len()
        invariant
            t == sorted@,
            i <= t.len(),
            views_of(lines@) == block(t.take(i as int), true).map_values(
                |e: ListingEntry| spec_line(e),
            ),
        decreases t.len() - i,
    {
        let ghost prev = lines@;
        if sorted[i].is_directory() {
            let l = render_line(&sorted[i]);
            lines.push(l);
        }
        proof {
            assert(t.take(i + 1).drop_last() =~= t.take(i as int));
            assert(t.take(i + 1).last() == t[i as int]);
            if t[i as int] is Directory {
                assert(views_of(lines@) =~= views_of(prev).push(spec_line(t[i as int])));
            }
        }
        i += 1;
    }
    proof {
        assert(t.take(t.len() as int) =~= t);
    }
    // then every other entry
    let ghost dir_lines = views_of(lines@);
    let mut j: usize = 0;
    while j < sorted.len()
        invariant
            t == sorted@,
            j <= t.len(),
            views_of(lines@) == dir_lines + block(t.take(j as int), false).map_values(
                |e: ListingEntry| spec_line(e),
            ),
        decreases t.len() - j,
    {
        let ghost prev = lines@;
        if !sorted[j].is_directory() {
            let l = render_line(&sorted[j]);
            lines.push(l);
        }
        proof {
            assert(t.take(j + 1).drop_last() =~= t.take(j as int));
            assert(t.take(j + 1).last() == t[j as int]);
            if !(t[j as int] is Directory) {
                assert(views_of(lines@) =~= views_of(prev).push(spec_line(t[j as int])));
                assert(
                    dir_lines + block(t.take(j + 1), false).map_values(
                        |e: ListingEntry| spec_line(e),
                    ) =~= (dir_lines + block(t.take(j as int), false).map_values(
                        |e: ListingEntry| spec_line(e),
                    )).push(spec_line(t[j as int]))
                );
            }
        }
        j += 1;
    }
    proof {
        assert(t.take(t.len() as int) =~= t);
        lemma_block_len(t);
        lemma_sort_by_name_len(entries@);
    }
    lines
}

/// Rendering is a function of the entries alone: the same collection
/// always renders to the same lines.
pub proof fn lemma_render_deterministic(a: Seq<ListingEntry>, b: Seq<ListingEntry>)
    requires
        a == b,
    ensures
        spec_render(a) == spec_render(b),
{
}

} // verus!
