//! Release candidates: what a source knows of one torrent of an episode.

use vstd::prelude::*;
use vstd::seq_lib::{to_multiset_build, to_multiset_insert, to_multiset_len};
use crate::text::str_equal;

verus! {

/// One release that a source found.
#[derive(Debug)]
pub struct TorrentInfo {
    pub name: String,
    pub size: Option<String>,
    pub url: Option<String>,
    pub magnet: String,
    pub date: Option<String>,
    pub seeders: Option<u32>,
    pub leechers: Option<u32>,
    pub uploader: Option<String>,
}

/// The mathematical value of a [`TorrentInfo`].
pub struct TorrentInfoView {
    pub name: Seq<char>,
    pub size: Option<Seq<char>>,
    pub url: Option<Seq<char>>,
    pub magnet: Seq<char>,
    pub date: Option<Seq<char>>,
    pub seeders: Option<u32>,
    pub leechers: Option<u32>,
    pub uploader: Option<Seq<char>>,
}

impl DeepView for TorrentInfo {
    type V = TorrentInfoView;

    open spec fn deep_view(&self) -> TorrentInfoView {
        TorrentInfoView {
            name: self.name@,
            size: self.size.deep_view(),
            url: self.url.deep_view(),
            magnet: self.magnet@,
            date: self.date.deep_view(),
            seeders: self.seeders,
            leechers: self.leechers,
            uploader: self.uploader.deep_view(),
        }
    }
}

/// A copy of an optional text.
pub fn clone_text(text: &Option<String>) -> (r: Option<String>)
    ensures
        r.deep_view() == text.deep_view(),
{
    match text {
        Some(s) => Some(s.clone()),
        None => None,
    }
}

impl Clone for TorrentInfo {
    fn clone(&self) -> (r: Self)
        ensures
            r.deep_view() == self.deep_view(),
    {
        TorrentInfo {
            name: self.name.clone(),
            size: clone_text(&self.size),
            url: clone_text(&self.url),
            magnet: self.magnet.clone(),
            date: clone_text(&self.date),
            seeders: self.seeders,
            leechers: self.leechers,
            uploader: clone_text(&self.uploader),
        }
    }
}

/// The number of seeders by which a release is ranked: a release that
/// reports none counts as having 0.
pub open spec fn seeds_of(release: TorrentInfoView) -> int {
    match release.seeders {
        Some(n) => n as int,
        None => 0,
    }
}

/// Whether one of the releases has the given magnet link.
pub open spec fn has_magnet(list: Seq<TorrentInfoView>, magnet: Seq<char>) -> bool {
    exists|i: int| 0 <= i < list.len() && (#[trigger] list[i]).magnet == magnet
}

/// The releases of a list without those whose magnet link an earlier release
/// of the list has: of several releases with one magnet link, the first is
/// kept.
pub open spec fn without_repeats(list: Seq<TorrentInfoView>) -> Seq<TorrentInfoView>
    decreases list.len(),
{
    if list.len() == 0 {
        Seq::empty()
    } else {
        let before = without_repeats(list.drop_last());
        if has_magnet(list.drop_last(), list.last().magnet) {
            before
        } else {
            before.push(list.last())
        }
    }
}

/// Whether no two releases of a list have the same magnet link.
pub open spec fn distinct_magnets(list: Seq<TorrentInfoView>) -> bool {
    forall|i: int, j: int|
        0 <= i < j < list.len() ==> (#[trigger] list[i]).magnet != (#[trigger] list[j]).magnet
}

/// Whether a list goes from the release with the most seeders to the one
/// with the fewest.
pub open spec fn descending_seeds(list: Seq<TorrentInfoView>) -> bool {
    forall|i: int, j: int|
        0 <= i < j < list.len() ==> seeds_of(#[trigger] list[i]) >= seeds_of(#[trigger] list[j])
}

/// The releases of a list that have `n` seeders, in the list's order.
pub open spec fn with_seeds(list: Seq<TorrentInfoView>, n: int) -> Seq<TorrentInfoView>
    decreases list.len(),
{
    if list.len() == 0 {
        Seq::empty()
    } else {
        let before = with_seeds(list.drop_last(), n);
        if seeds_of(list.last()) == n {
            before.push(list.last())
        } else {
            before
        }
    }
}

/// Whether `ranked` holds the releases of `list`, each as often as `list`
/// does, with the most seeded first, and those with the same number of
/// seeders in the order in which `list` has them.
pub open spec fn is_ranking_of(ranked: Seq<TorrentInfoView>, list: Seq<TorrentInfoView>) -> bool {
    &&& descending_seeds(ranked)
    &&& ranked.to_multiset() == list.to_multiset()
    &&& forall|n: int| #[trigger] with_seeds(ranked, n) == with_seeds(list, n)
}

proof fn lemma_with_seeds_of_parts(a: Seq<TorrentInfoView>, b: Seq<TorrentInfoView>, n: int)
    ensures
        with_seeds(a + b, n) == with_seeds(a, n) + with_seeds(b, n),
    decreases b.len(),
{
    if b.len() == 0 {
        assert(a + b =~= a);
        assert(with_seeds(a, n) + with_seeds(b, n) =~= with_seeds(a, n));
    } else {
        let whole = a + b;
        assert(whole.drop_last() =~= a + b.drop_last());
        assert(whole.last() == b.last());
        lemma_with_seeds_of_parts(a, b.drop_last(), n);
        let before = with_seeds(a, n) + with_seeds(b.drop_last(), n);
        if seeds_of(b.last()) == n {
            assert(before.push(b.last()) =~= with_seeds(a, n) + with_seeds(
                b.drop_last(),
                n,
            ).push(b.last()));
        }
    }
}

proof fn lemma_with_seeds_of_others(list: Seq<TorrentInfoView>, n: int)
    requires
        forall|k: int| 0 <= k < list.len() ==> seeds_of(#[trigger] list[k]) != n,
    ensures
        with_seeds(list, n).len() == 0,
    decreases list.len(),
{
    if list.len() > 0 {
        let rest = list.drop_last();
        assert forall|k: int| 0 <= k < rest.len() implies seeds_of(#[trigger] rest[k]) != n by {
            assert(rest[k] == list[k]);
        }
        lemma_with_seeds_of_others(rest, n);
    }
}

proof fn lemma_with_seeds_of_insert(
    list: Seq<TorrentInfoView>,
    at: int,
    one: TorrentInfoView,
    n: int,
)
    requires
        0 <= at <= list.len(),
        descending_seeds(list),
        forall|k: int| 0 <= k < at ==> seeds_of(#[trigger] list[k]) >= seeds_of(one),
        at < list.len() ==> seeds_of(list[at]) < seeds_of(one),
    ensures
        with_seeds(list.insert(at, one), n) == (if seeds_of(one) == n {
            with_seeds(list, n).push(one)
        } else {
            with_seeds(list, n)
        }),
{
    let head = list.take(at);
    let tail = list.skip(at);
    let single = seq![one];
    assert(list =~= head + tail);
    assert(list.insert(at, one) =~= (head + single) + tail);
    lemma_with_seeds_of_parts(head, tail, n);
    lemma_with_seeds_of_parts(head + single, tail, n);
    lemma_with_seeds_of_parts(head, single, n);
    assert(single.drop_last() =~= Seq::<TorrentInfoView>::empty());
    assert(with_seeds(single.drop_last(), n) =~= Seq::<TorrentInfoView>::empty());
    if seeds_of(one) == n {
        assert(with_seeds(single, n) =~= single);
        assert forall|k: int| 0 <= k < tail.len() implies seeds_of(#[trigger] tail[k]) != n by {
            assert(tail[k] == list[at + k]);
            if k > 0 {
                assert(seeds_of(list[at]) >= seeds_of(list[at + k]));
            }
        }
        lemma_with_seeds_of_others(tail, n);
        assert(with_seeds(list.insert(at, one), n) =~= with_seeds(list, n).push(one));
    } else {
        assert(with_seeds(single, n) =~= Seq::<TorrentInfoView>::empty());
        assert(with_seeds(list.insert(at, one), n) =~= with_seeds(list, n));
    }
}

proof fn lemma_decided_by_classes(a: Seq<TorrentInfoView>, b: Seq<TorrentInfoView>)
    requires
        descending_seeds(a),
        descending_seeds(b),
        a.len() == b.len(),
        forall|n: int| #[trigger] with_seeds(a, n) == with_seeds(b, n),
    ensures
        a == b,
    decreases a.len(),
{
    if a.len() == 0 {
        assert(a =~= b);
    } else {
        let n = seeds_of(a.last());
        let m = seeds_of(b.last());
        assert(with_seeds(a, n) == with_seeds(b, n));
        assert(with_seeds(a, m) == with_seeds(b, m));
        if forall|k: int| 0 <= k < b.len() ==> seeds_of(#[trigger] b[k]) != n {
            lemma_with_seeds_of_others(b, n);
        }
        if forall|k: int| 0 <= k < a.len() ==> seeds_of(#[trigger] a[k]) != m {
            lemma_with_seeds_of_others(a, m);
        }
        let kb = choose|k: int| 0 <= k < b.len() && seeds_of(#[trigger] b[k]) == n;
        let ka = choose|k: int| 0 <= k < a.len() && seeds_of(#[trigger] a[k]) == m;
        assert(kb == b.len() - 1 || seeds_of(b[kb]) >= seeds_of(b[b.len() - 1]));
        assert(ka == a.len() - 1 || seeds_of(a[ka]) >= seeds_of(a[a.len() - 1]));
        assert(n == m);
        assert(with_seeds(a, n).last() == a.last());
        assert(with_seeds(b, n).last() == b.last());
        let x = a.drop_last();
        let y = b.drop_last();
        assert forall|k: int| #[trigger] with_seeds(x, k) == with_seeds(y, k) by {
            assert(with_seeds(a, k) == with_seeds(b, k));
            if k == n {
                assert(with_seeds(x, k) =~= with_seeds(a, k).drop_last());
                assert(with_seeds(y, k) =~= with_seeds(b, k).drop_last());
            }
        }
        assert forall|i: int, j: int| 0 <= i < j < x.len() implies seeds_of(#[trigger] x[i])
            >= seeds_of(#[trigger] x[j]) by {
            assert(x[i] == a[i] && x[j] == a[j]);
        }
        assert forall|i: int, j: int| 0 <= i < j < y.len() implies seeds_of(#[trigger] y[i])
            >= seeds_of(#[trigger] y[j]) by {
            assert(y[i] == b[i] && y[j] == b[j]);
        }
        lemma_decided_by_classes(x, y);
        assert(a =~= x.push(a.last()));
        assert(b =~= y.push(b.last()));
    }
}

/// A list has one ranking only: the order of the ranked releases is decided
/// by the list.
pub proof fn law_ranking_is_decided(
    a: Seq<TorrentInfoView>,
    b: Seq<TorrentInfoView>,
    list: Seq<TorrentInfoView>,
)
    requires
        is_ranking_of(a, list),
        is_ranking_of(b, list),
    ensures
        a == b,
{
    to_multiset_len(a);
    to_multiset_len(b);
    assert forall|n: int| #[trigger] with_seeds(a, n) == with_seeds(b, n) by {
        assert(with_seeds(a, n) == with_seeds(list, n));
        assert(with_seeds(b, n) == with_seeds(list, n));
    }
    lemma_decided_by_classes(a, b);
}

/// Removing repeated magnet links keeps every magnet link once.
pub proof fn law_without_repeats_keeps_each_magnet_once(list: Seq<TorrentInfoView>)
    ensures
        distinct_magnets(without_repeats(list)),
        forall|m: Seq<char>| has_magnet(without_repeats(list), m) <==> has_magnet(list, m),
        forall|i: int|
            0 <= i < without_repeats(list).len() ==> list.contains(
                #[trigger] without_repeats(list)[i],
            ),
    decreases list.len(),
{
    let kept = without_repeats(list);
    if list.len() > 0 {
        let rest = list.drop_last();
        let before = without_repeats(rest);
        let last = list.last();
        law_without_repeats_keeps_each_magnet_once(rest);
        assert forall|m: Seq<char>| has_magnet(kept, m) <==> has_magnet(list, m) by {
            if has_magnet(kept, m) {
                let i = choose|i: int| 0 <= i < kept.len() && (#[trigger] kept[i]).magnet == m;
                if i < before.len() {
                    assert(before[i].magnet == m);
                    assert(has_magnet(rest, m));
                    let j = choose|j: int| 0 <= j < rest.len() && (#[trigger] rest[j]).magnet == m;
                    assert(list[j].magnet == m);
                } else {
                    assert(list[list.len() - 1].magnet == m);
                }
            }
            if has_magnet(list, m) {
                let j = choose|j: int| 0 <= j < list.len() && (#[trigger] list[j]).magnet == m;
                if j < rest.len() {
                    assert(rest[j].magnet == m);
                    assert(has_magnet(rest, m));
                    assert(has_magnet(before, m));
                    let i = choose|i: int|
                        0 <= i < before.len() && (#[trigger] before[i]).magnet == m;
                    assert(kept[i].magnet == m);
                } else if has_magnet(rest, m) {
                    assert(has_magnet(before, m));
                    let i = choose|i: int|
                        0 <= i < before.len() && (#[trigger] before[i]).magnet == m;
                    assert(kept[i].magnet == m);
                } else {
                    assert(kept[kept.len() - 1].magnet == m);
                }
            }
        }
        assert forall|i: int, j: int| 0 <= i < j < kept.len() implies (#[trigger] kept[i]).magnet
            != (#[trigger] kept[j]).magnet by {
            if j >= before.len() {
                assert(before[i].magnet == kept[i].magnet);
                assert(has_magnet(before, kept[i].magnet));
            } else {
                assert(before[i] == kept[i] && before[j] == kept[j]);
            }
        }
        assert forall|i: int| 0 <= i < kept.len() implies list.contains(#[trigger] kept[i]) by {
            if i < before.len() {
                assert(rest.contains(before[i]));
                let j = choose|j: int| 0 <= j < rest.len() && rest[j] == before[i];
                assert(list[j] == kept[i]);
            } else {
                assert(list[list.len() - 1] == kept[i]);
            }
        }
    }
}

fn holds_magnet(list: &Vec<TorrentInfo>, magnet: &str) -> (found: bool)
    ensures
        found == has_magnet(list.deep_view(), magnet@),
{
    let mut i: usize = 0;
    while i < list.len()
        invariant
            i <= list.len(),
            forall|k: int| 0 <= k < i ==> (#[trigger] list.deep_view()[k]).magnet != magnet@,
        decreases list.len() - i,
    {
        assert(list.deep_view()[i as int].magnet == list[i as int].magnet@);
        if str_equal(list[i].magnet.as_str(), magnet) {
            return true;
        }
        i += 1;
    }
    false
}

/// Drops each release whose magnet link an earlier release has.
pub fn dedup_by_magnet(list: &Vec<TorrentInfo>) -> (kept: Vec<TorrentInfo>)
    ensures
        kept.deep_view() == without_repeats(list.deep_view()),
{
    let mut kept: Vec<TorrentInfo> = Vec::new();
    let mut i: usize = 0;
    assert(list.deep_view().take(0) =~= Seq::<TorrentInfoView>::empty());
    while i < list.len()
        invariant
            i <= list.len(),
            kept.deep_view() =~= without_repeats(list.deep_view().take(i as int)),
        decreases list.len() - i,
    {
        let ghost seen = list.deep_view().take(i as int);
        let ghost upto = list.deep_view().take(i + 1);
        assert(upto.drop_last() =~= seen);
        assert(upto.last() == list[i as int].deep_view());
        proof {
            law_without_repeats_keeps_each_magnet_once(seen);
        }
        if !holds_magnet(&kept, list[i].magnet.as_str()) {
            let one = list[i].clone();
            let ghost before = kept.deep_view();
            kept.push(one);
            assert(kept.deep_view() =~= before.push(one.deep_view()));
        }
        i += 1;
    }
    assert(list.deep_view().take(i as int) =~= list.deep_view());
    kept
}

fn seeds(release: &TorrentInfo) -> (n: u32)
    ensures
        n == seeds_of(release.deep_view()),
{
    match release.seeders {
        Some(n) => n,
        None => 0,
    }
}

/// Orders releases by their seeders, the most seeded first. Releases with
/// the same number of seeders keep the order in which they came.
pub fn rank_by_seeders(list: &Vec<TorrentInfo>) -> (ranked: Vec<TorrentInfo>)
    ensures
        is_ranking_of(ranked.deep_view(), list.deep_view()),
{
    let mut ranked: Vec<TorrentInfo> = Vec::new();
    let mut i: usize = 0;
    assert(list.deep_view().take(0) =~= Seq::<TorrentInfoView>::empty());
    assert(ranked.deep_view() =~= Seq::<TorrentInfoView>::empty());
    while i < list.len()
        invariant
            i <= list.len(),
            descending_seeds(ranked.deep_view()),
            ranked.deep_view().to_multiset() == list.deep_view().take(i as int).to_multiset(),
            forall|m: int| #[trigger]
                with_seeds(ranked.deep_view(), m) == with_seeds(list.deep_view().take(i as int), m),
        decreases list.len() - i,
    {
        let one = list[i].clone();
        let n = seeds(&one);
        let mut at: usize = 0;
        while at < ranked.len() && seeds(&ranked[at]) >= n
            invariant
                at <= ranked.len(),
                forall|k: int| 0 <= k < at ==> seeds_of(#[trigger] ranked.deep_view()[k]) >= n,
            decreases ranked.len() - at,
        {
            assert(ranked.deep_view()[at as int] == ranked[at as int].deep_view());
            at += 1;
        }
        let ghost before = ranked.deep_view();
        assert(at < ranked.len() ==> before[at as int] == ranked[at as int].deep_view());
        assert(at < ranked.len() ==> seeds_of(before[at as int]) < n);
        ranked.insert(at, one);
        let ghost after = ranked.deep_view();
        assert(after =~= before.insert(at as int, one.deep_view()));
        assert forall|a: int, b: int| 0 <= a < b < after.len() implies seeds_of(
            #[trigger] after[a],
        ) >= seeds_of(#[trigger] after[b]) by {
            if b == at {
                assert(after[a] == before[a]);
            } else if a == at {
                assert(after[b] == before[b - 1]);
                assert(seeds_of(before[at as int]) >= seeds_of(before[b - 1]) || b - 1 == at);
            } else if b < at {
                assert(after[a] == before[a] && after[b] == before[b]);
            } else if a < at {
                assert(after[a] == before[a] && after[b] == before[b - 1]);
            } else {
                assert(after[a] == before[a - 1] && after[b] == before[b - 1]);
            }
        }
        let ghost seen = list.deep_view().take(i as int);
        assert(list.deep_view().take(i + 1) =~= seen.push(one.deep_view()));
        proof {
            to_multiset_insert(before, at as int, one.deep_view());
            to_multiset_build(seen, one.deep_view());
            assert forall|m: int| #[trigger]
                with_seeds(after, m) == with_seeds(seen.push(one.deep_view()), m) by {
                lemma_with_seeds_of_insert(before, at as int, one.deep_view(), m);
                assert(seen.push(one.deep_view()).drop_last() =~= seen);
            }
        }
        i += 1;
    }
    assert(list.deep_view().take(i as int) =~= list.deep_view());
    ranked
}

} // verus!
