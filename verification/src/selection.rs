//! Choosing files from a directory listing: the batch of log files to
//! archive, and the archives and leftover temporary files that retention
//! removes. Names are ordered as file names sort, oldest first, since every
//! name carries its date and sequence number.

use vstd::prelude::*;
use vstd::relations::sorted_by;

use crate::naming::{
    archive_file_matches, is_archive_candidate, is_archive_file, is_leftover_temp, log_file_matches,
    should_archive, spec_is_leftover_temp,
};
use crate::text::{chars_of, lemma_name_order_total, name_le, name_le_exec, name_order, string_of};

verus! {

broadcast use vstd::seq_lib::group_to_multiset_ensures, vstd::multiset::group_multiset_axioms;

/// The character sequences of a list of names.
pub open spec fn views(v: Seq<String>) -> Seq<Seq<char>> {
    v.map_values(|s: String| s@)
}

/// The character sequences of a list of character vectors.
pub open spec fn keys(v: Seq<Vec<char>>) -> Seq<Seq<char>> {
    v.map_values(|k: Vec<char>| k@)
}

/// `names` in file name order.
pub open spec fn in_name_order(names: Seq<Seq<char>>) -> Seq<Seq<char>> {
    names.sort_by(name_order())
}

/// Sorts character vectors into name order (insertion sort).
fn sort_keys(v: Vec<Vec<char>>) -> (r: Vec<Vec<char>>)
    ensures
        keys(r@) == in_name_order(keys(v@)),
        r@.len() == v@.len(),
{
    let ghost all = keys(v@);
    let mut rest = v;
    let mut out: Vec<Vec<char>> = Vec::new();
    proof {
        lemma_name_order_total();
        assert(keys(out@) =~= Seq::<Seq<char>>::empty());
        assert(keys(out@).to_multiset().add(keys(rest@).to_multiset()) =~= all.to_multiset());
    }
    while rest.len() > 0
        invariant
            sorted_by(keys(out@), name_order()),
            keys(out@).to_multiset().add(keys(rest@).to_multiset()) == all.to_multiset(),
            vstd::relations::total_ordering(name_order()),
        decreases rest.len(),
    {
        let ghost old_out = keys(out@);
        let ghost old_rest = keys(rest@);
        let x = rest.pop().unwrap();
        proof {
            assert(old_rest =~= keys(rest@).push(x@));
        }
        let mut j: usize = 0;
        while j < out.len() && name_le_exec(&out[j], &x)
            invariant
                j <= out.len(),
                keys(out@) == old_out,
                forall|k: int| 0 <= k < j ==> name_le(#[trigger] old_out[k], x@),
            decreases out.len() - j,
        {
            j += 1;
        }
        let ghost xv = x@;
        out.insert(j, x);
        proof {
            assert(keys(out@) =~= old_out.insert(j as int, xv));
            let r = name_order();
            let n = keys(out@);
            assert forall|a: int, b: int| 0 <= a < b < n.len() implies #[trigger] r(n[a], n[b]) by {
                if b < j {
                    assert(n[a] == old_out[a] && n[b] == old_out[b]);
                } else if b == j {
                    assert(n[a] == old_out[a]);
                } else if a == j {
                    assert(n[b] == old_out[b - 1]);
                    assert(!name_le(old_out[j as int], xv));
                    assert(r(xv, old_out[j as int]) || r(old_out[j as int], xv));
                    if b - 1 > j {
                        assert(r(old_out[j as int], old_out[b - 1]));
                    }
                } else if a < j {
                    assert(n[a] == old_out[a] && n[b] == old_out[b - 1]);
                } else {
                    assert(n[a] == old_out[a - 1] && n[b] == old_out[b - 1]);
                }
            }
            assert(keys(out@).to_multiset() == old_out.to_multiset().insert(xv));
            assert(old_rest.to_multiset() == keys(rest@).to_multiset().insert(xv));
            assert(keys(out@).to_multiset().add(keys(rest@).to_multiset()) =~= all.to_multiset());
        }
    }
    proof {
        assert(keys(rest@) =~= Seq::<Seq<char>>::empty());
        assert(keys(out@).to_multiset() =~= all.to_multiset());
        vstd::seq_lib::to_multiset_len(keys(out@));
        vstd::seq_lib::to_multiset_len(all);
        assert(keys(out@).len() == out@.len());
        all.lemma_sort_by_ensures(name_order());
        vstd::seq_lib::lemma_sorted_unique(keys(out@), all.sort_by(name_order()), name_order());
    }
    out
}

/// Strings holding the given character vectors.
fn strings_of(v: &Vec<Vec<char>>, count: usize) -> (r: Vec<String>)
    requires
        count <= v.len(),
    ensures
        views(r@) == keys(v@).take(count as int),
{
    let mut r: Vec<String> = Vec::new();
    let mut i: usize = 0;
    while i < count
        invariant
            count <= v.len(),
            i <= count,
            views(r@) == keys(v@).take(i as int),
        decreases count - i,
    {
        let s = string_of(&v[i]);
        let ghost old_r = r@;
        r.push(s);
        proof {
            assert(r@ == old_r.push(s));
            assert(views(old_r).len() == old_r.len());
            assert(keys(v@).take(i as int).len() == i);
            assert(old_r.len() == i);
            assert(views(r@)[i as int] == s@);
            assert(keys(v@)[i as int] == v@[i as int]@);
            assert(views(r@) =~= views(old_r).push(s@));
        }
        i += 1;
        assert(views(r@) =~= keys(v@).take(i as int));
    }
    r
}

/// The log files of `names` that the archiver takes.
pub open spec fn archive_candidates(names: Seq<Seq<char>>, prefix: Seq<char>, today: int, delay: int) -> Seq<Seq<char>> {
    names.filter(|n: Seq<char>| is_archive_candidate(n, prefix, today, delay))
}

/// How many of `count` qualifying files a batch of size `batch` takes.
pub open spec fn batch_len(count: nat, batch: nat) -> nat {
    if batch < count {
        batch
    } else {
        count
    }
}

/// The batch to archive: `None` where the pass has nothing to archive (no
/// file qualifies, or the batch size is 0), else the qualifying files,
/// oldest first, at most `batch` of them.
pub open spec fn spec_archive_targets(
    names: Seq<Seq<char>>,
    prefix: Seq<char>,
    today: int,
    delay: int,
    batch: nat,
) -> Option<Seq<Seq<char>>> {
    let c = archive_candidates(names, prefix, today, delay);
    let k = batch_len(c.len(), batch);
    if k == 0 {
        None
    } else {
        Some(in_name_order(c).take(k as int))
    }
}

/// Chooses, from the names of the regular files in the log directory, the
/// batch of historical log files to archive: files named `{prefix}.*.log`
/// that the archiving rule selects for `today` (a day number) and `delay`,
/// oldest first, at most `batch` of them; `None` when the pass has nothing
/// to archive.
pub fn collect_archive_targets(
    names: &Vec<String>,
    prefix: &str,
    today: i32,
    delay: i64,
    batch: usize,
) -> (r: Option<Vec<String>>)
    ensures
        match r {
            Some(v) => spec_archive_targets(
                views(names@),
                prefix@,
                today as int,
                delay as int,
                batch as nat,
            ) == Some(views(v@)),
            None => spec_archive_targets(
                views(names@),
                prefix@,
                today as int,
                delay as int,
                batch as nat,
            ) is None,
        },
{
    let ghost pred = |n: Seq<char>| is_archive_candidate(n, prefix@, today as int, delay as int);
    let mut picked: Vec<Vec<char>> = Vec::new();
    let mut i: usize = 0;
    while i < names.len()
        invariant
            i <= names.len(),
            pred == (|n: Seq<char>| is_archive_candidate(n, prefix@, today as int, delay as int)),
            keys(picked@) == views(names@).take(i as int).filter(pred),
        decreases names.len() - i,
    {
        let name = &names[i];
        let take = log_file_matches(name.as_str(), prefix) && should_archive(
            name.as_str(),
            prefix,
            today,
            delay,
        );
        proof {
            assert(views(names@).take(i + 1) =~= views(names@).take(i as int).push(name@));
            views(names@).take(i as int).lemma_filter_push(name@, pred);
        }
        if take {
            let k = chars_of(name.as_str());
            picked.push(k);
        }
        i += 1;
        assert(keys(picked@) =~= views(names@).take(i as int).filter(pred));
    }
    assert(views(names@).take(names.len() as int) =~= views(names@));
    assert(archive_candidates(views(names@), prefix@, today as int, delay as int) == views(
        names@,
    ).filter(pred));
    let count = if batch < picked.len() { batch } else { picked.len() };
    if count == 0 {
        return None;
    }
    let sorted = sort_keys(picked);
    Some(strings_of(&sorted, count))
}

/// The archives of `names`.
pub open spec fn archives_of(names: Seq<Seq<char>>, prefix: Seq<char>) -> Seq<Seq<char>> {
    names.filter(|n: Seq<char>| is_archive_file(n, prefix))
}

/// The archives that retention removes so that at most `max_files` remain:
/// the oldest ones. A `max_files` of 0 means no limit: none is removed.
pub open spec fn spec_expired_archives(names: Seq<Seq<char>>, prefix: Seq<char>, max_files: nat) -> Seq<Seq<char>> {
    let a = in_name_order(archives_of(names, prefix));
    if max_files > 0 && a.len() > max_files {
        a.take(a.len() - max_files)
    } else {
        Seq::empty()
    }
}

/// The leftover temporary files of `names`.
pub open spec fn leftover_temps_of(names: Seq<Seq<char>>, prefix: Seq<char>) -> Seq<Seq<char>> {
    names.filter(|n: Seq<char>| spec_is_leftover_temp(n, prefix))
}

/// The leftover temporary files that a cleanup pass removes: all of them,
/// except with `max_files` 0, where retention is off and no cleanup pass
/// runs.
pub open spec fn spec_removed_temps(names: Seq<Seq<char>>, prefix: Seq<char>, max_files: nat) -> Seq<Seq<char>> {
    if max_files == 0 {
        Seq::empty()
    } else {
        leftover_temps_of(names, prefix)
    }
}

/// What retention removes from the history directory.
pub struct CleanupPlan {
    /// Archives beyond the retention limit, oldest first.
    pub expired: Vec<String>,
    /// Temporary files left behind by interrupted compressions.
    pub leftover_temps: Vec<String>,
}

/// Plans the retention cleanup of the history directory from the names of
/// its regular files: the archives `{prefix}.*.gz` beyond the newest
/// `max_files` (oldest first), and the files `{prefix}.*` holding `.tmp.`
/// that an interrupted compression left behind. A `max_files` of 0 means
/// unlimited retention: no cleanup pass runs and the plan is empty.
pub fn cleanup_archive_files(names: &Vec<String>, prefix: &str, max_files: usize) -> (r: CleanupPlan)
    ensures
        views(r.expired@) == spec_expired_archives(views(names@), prefix@, max_files as nat),
        views(r.leftover_temps@) == spec_removed_temps(views(names@), prefix@, max_files as nat),
{
    if max_files == 0 {
        let plan = CleanupPlan { expired: Vec::new(), leftover_temps: Vec::new() };
        assert(views(plan.expired@) =~= Seq::<Seq<char>>::empty());
        assert(views(plan.leftover_temps@) =~= Seq::<Seq<char>>::empty());
        return plan;
    }
    let ghost is_arch = |n: Seq<char>| is_archive_file(n, prefix@);
    let ghost is_tmp = |n: Seq<char>| spec_is_leftover_temp(n, prefix@);
    let mut archives: Vec<Vec<char>> = Vec::new();
    let mut temps: Vec<String> = Vec::new();
    let mut i: usize = 0;
    while i < names.len()
        invariant
            i <= names.len(),
            is_arch == (|n: Seq<char>| is_archive_file(n, prefix@)),
            is_tmp == (|n: Seq<char>| spec_is_leftover_temp(n, prefix@)),
            keys(archives@) == views(names@).take(i as int).filter(is_arch),
            views(temps@) == views(names@).take(i as int).filter(is_tmp),
        decreases names.len() - i,
    {
        let name = &names[i];
        proof {
            assert(views(names@).take(i + 1) =~= views(names@).take(i as int).push(name@));
            views(names@).take(i as int).lemma_filter_push(name@, is_arch);
            views(names@).take(i as int).lemma_filter_push(name@, is_tmp);
        }
        if archive_file_matches(name.as_str(), prefix) {
            archives.push(chars_of(name.as_str()));
        }
        if is_leftover_temp(name.as_str(), prefix) {
            temps.push(string_of(&chars_of(name.as_str())));
        }
        i += 1;
        assert(keys(archives@) =~= views(names@).take(i as int).filter(is_arch));
        assert(views(temps@) =~= views(names@).take(i as int).filter(is_tmp));
    }
    assert(views(names@).take(names.len() as int) =~= views(names@));
    let sorted = sort_keys(archives);
    let count = if sorted.len() > max_files { sorted.len() - max_files } else { 0 };
    let expired = strings_of(&sorted, count);
    proof {
        if sorted.len() <= max_files {
            assert(views(expired@) =~= Seq::<Seq<char>>::empty());
        }
    }
    CleanupPlan { expired, leftover_temps: temps }
}

} // verus!

verus! {

/// The batch taken for archiving is the oldest part of the qualifying
/// files: sorted, at most `batch` long, made of qualifying files, and no
/// qualifying file left out sorts before a file taken.
pub proof fn lemma_archive_targets_oldest_first(
    names: Seq<Seq<char>>,
    prefix: Seq<char>,
    today: int,
    delay: int,
    batch: nat,
)
    requires
        spec_archive_targets(names, prefix, today, delay, batch) is Some,
    ensures
        ({
            let t = spec_archive_targets(names, prefix, today, delay, batch)->0;
            let s = in_name_order(archive_candidates(names, prefix, today, delay));
            &&& t.len() <= batch
            &&& t == s.take(t.len() as int)
            &&& sorted_by(t, name_order())
            &&& forall|i: int|
                0 <= i < t.len() ==> archive_candidates(names, prefix, today, delay).contains(
                    #[trigger] t[i],
                )
            &&& forall|i: int, j: int|
                0 <= i < t.len() <= j < s.len() ==> name_le(#[trigger] s[i], #[trigger] s[j])
        }),
{
    let c = archive_candidates(names, prefix, today, delay);
    let s = in_name_order(c);
    let t = spec_archive_targets(names, prefix, today, delay, batch)->0;
    lemma_name_order_total();
    c.lemma_sort_by_ensures(name_order());
    vstd::seq_lib::to_multiset_len(c);
    vstd::seq_lib::to_multiset_len(s);
    assert forall|i: int| 0 <= i < t.len() implies c.contains(#[trigger] t[i]) by {
        assert(t[i] == s[i]);
        assert(s.to_multiset().count(s[i]) > 0);
    }
    assert forall|i: int, j: int| 0 <= i < t.len() <= j < s.len() implies name_le(
        #[trigger] s[i],
        #[trigger] s[j],
    ) by {
        assert((name_order())(s[i], s[j]));
    }
    assert forall|i: int, j: int| 0 <= i < j < t.len() implies #[trigger] (name_order())(
        t[i],
        t[j],
    ) by {
        assert(t[i] == s[i] && t[j] == s[j]);
    }
}

/// The names left in a directory holding `names` once a cleanup pass has
/// removed what its plan lists.
pub open spec fn after_cleanup(names: Seq<Seq<char>>, prefix: Seq<char>, max_files: nat) -> Seq<Seq<char>> {
    let e = spec_expired_archives(names, prefix, max_files);
    let t = spec_removed_temps(names, prefix, max_files);
    names.filter(|n: Seq<char>| !e.contains(n) && !t.contains(n))
}

proof fn lemma_filter_to_multiset(x: Seq<Seq<char>>, f: spec_fn(Seq<char>) -> bool)
    ensures
        x.filter(f).to_multiset() =~= x.to_multiset().filter(f),
    decreases x.len(),
{
    if x.len() == 0 {
        x.lemma_filter_len(f);
        assert(x.filter(f) =~= Seq::<Seq<char>>::empty());
    } else {
        let y = x.drop_last();
        let v = x.last();
        assert(x =~= y.push(v));
        lemma_filter_to_multiset(y, f);
        y.lemma_filter_push(v, f);
    }
}

/// Cleanup is idempotent: a second pass over what the first one left
/// removes nothing.
pub proof fn lemma_cleanup_idempotent(names: Seq<Seq<char>>, prefix: Seq<char>, max_files: nat)
    ensures
        spec_expired_archives(after_cleanup(names, prefix, max_files), prefix, max_files)
            == Seq::<Seq<char>>::empty(),
        spec_removed_temps(after_cleanup(names, prefix, max_files), prefix, max_files)
            == Seq::<Seq<char>>::empty(),
{
    if max_files > 0 {
        let e = spec_expired_archives(names, prefix, max_files);
        let t = spec_removed_temps(names, prefix, max_files);
        let g = |n: Seq<char>| !e.contains(n) && !t.contains(n);
        let is_a = |n: Seq<char>| is_archive_file(n, prefix);
        let is_t = |n: Seq<char>| spec_is_leftover_temp(n, prefix);
        let rest = after_cleanup(names, prefix, max_files);
        assert(rest == names.filter(g));
        let arch = archives_of(names, prefix);
        let a = in_name_order(arch);
        lemma_name_order_total();
        arch.lemma_sort_by_ensures(name_order());
        let j: int = e.len() as int;
        assert(e =~= a.take(j));
        // What survives of the archives, counted on the sorted list.
        assert(a =~= a.take(j) + a.skip(j));
        Seq::filter_distributes_over_add(a.take(j), a.skip(j), g);
        let front = a.take(j).filter(g);
        if front.len() > 0 {
            a.take(j).lemma_filter_pred(g, 0);
            a.take(j).lemma_filter_contains_rev(g, front[0]);
            assert(front.contains(front[0]));
        }
        assert(front.len() == 0);
        a.skip(j).lemma_filter_len(g);
        assert(a.filter(g).len() <= max_files);
        // The same count on the names left.
        let ra = archives_of(rest, prefix);
        lemma_filter_to_multiset(rest, is_a);
        lemma_filter_to_multiset(names, g);
        lemma_filter_to_multiset(names, is_a);
        lemma_filter_to_multiset(a, g);
        assert(ra.to_multiset() =~= a.filter(g).to_multiset());
        vstd::seq_lib::to_multiset_len(ra);
        vstd::seq_lib::to_multiset_len(a.filter(g));
        ra.lemma_sort_by_ensures(name_order());
        vstd::seq_lib::to_multiset_len(in_name_order(ra));
        assert(in_name_order(ra).len() <= max_files);
        // No leftover temporary file is left.
        let rt = leftover_temps_of(rest, prefix);
        if rt.len() > 0 {
            let w = rt[0];
            rest.lemma_filter_pred(is_t, 0);
            assert(rt.contains(w));
            rest.lemma_filter_contains_rev(is_t, w);
            let i = choose|i: int| 0 <= i < rest.len() && rest[i] == w;
            names.lemma_filter_pred(g, i);
            rest.lemma_filter_contains_rev(is_t, w);
            names.lemma_filter_contains_rev(g, w);
            let k = choose|k: int| 0 <= k < names.len() && names[k] == w;
            names.lemma_filter_contains(is_t, k);
            assert(t.contains(w));
        }
        assert(rt =~= Seq::<Seq<char>>::empty());
    }
}

/// Retention keeps the newest `max_files` archives (all of them when there
/// are fewer) and removes exactly the older ones.
pub proof fn lemma_cleanup_keeps_newest(names: Seq<Seq<char>>, prefix: Seq<char>, max_files: nat)
    ensures
        ({
            let a = in_name_order(archives_of(names, prefix));
            let e = spec_expired_archives(names, prefix, max_files);
            &&& a.len() == archives_of(names, prefix).len()
            &&& e == a.take(e.len() as int)
            &&& a.len() - e.len() == if max_files == 0 || a.len() < max_files {
                a.len()
            } else {
                max_files
            }
            &&& forall|i: int, j: int|
                0 <= i < e.len() <= j < a.len() ==> name_le(#[trigger] a[i], #[trigger] a[j])
        }),
{
    let arch = archives_of(names, prefix);
    let a = in_name_order(arch);
    lemma_name_order_total();
    arch.lemma_sort_by_ensures(name_order());
    vstd::seq_lib::to_multiset_len(arch);
    vstd::seq_lib::to_multiset_len(a);
    let e = spec_expired_archives(names, prefix, max_files);
    if max_files == 0 || a.len() <= max_files {
        assert(e =~= a.take(0));
    }
    assert forall|i: int, j: int| 0 <= i < e.len() <= j < a.len() implies name_le(
        #[trigger] a[i],
        #[trigger] a[j],
    ) by {
        assert((name_order())(a[i], a[j]));
    }
}


/// The batch holds exactly as many files as the batch size allows: the
/// smaller of `batch` and the number of qualifying files, each qualifying
/// file at most once; when no more than `batch` files qualify, every one of
/// them is taken.
pub proof fn lemma_archive_targets_size(
    names: Seq<Seq<char>>,
    prefix: Seq<char>,
    today: int,
    delay: int,
    batch: nat,
)
    requires
        spec_archive_targets(names, prefix, today, delay, batch) is Some,
    ensures
        ({
            let t = spec_archive_targets(names, prefix, today, delay, batch)->0;
            let c = archive_candidates(names, prefix, today, delay);
            &&& t.len() == (if batch < c.len() { batch } else { c.len() })
            &&& t.to_multiset().subset_of(c.to_multiset())
            &&& c.len() <= batch ==> t.to_multiset() == c.to_multiset()
        }),
{
    let c = archive_candidates(names, prefix, today, delay);
    let s = in_name_order(c);
    let t = spec_archive_targets(names, prefix, today, delay, batch)->0;
    lemma_name_order_total();
    c.lemma_sort_by_ensures(name_order());
    vstd::seq_lib::to_multiset_len(c);
    vstd::seq_lib::to_multiset_len(s);
    assert(s =~= t + s.skip(t.len() as int));
    vstd::seq_lib::lemma_multiset_commutative(t, s.skip(t.len() as int));
    assert(t.to_multiset().subset_of(c.to_multiset()));
    if c.len() <= batch {
        assert(t =~= s);
    }
}

} // verus!
