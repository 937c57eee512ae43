//! Tidying search hits: HTML stripped from titles and summaries, an optional
//! newest-first order, and a cut to the requested number of hits.
use vstd::prelude::*;

use crate::models::news::{
    entities_decoded, html_stripped, strip_html, tags_stripped, ZzkDocument, ZzkDocumentView,
};
use crate::text::chars_of;

verus! {

broadcast use vstd::seq_lib::group_to_multiset_ensures;

// ---------------------------------------------------------------------------
// The order of text
// ---------------------------------------------------------------------------

/// `a` sorts before `b`: compared character by character by code point, a
/// proper prefix first. This is the order of `Ord for str`, since UTF-8
/// keeps the code point order byte by byte.
pub open spec fn text_lt(a: Seq<char>, b: Seq<char>) -> bool
    decreases a.len(),
{
    if a.len() == 0 {
        b.len() > 0
    } else if b.len() == 0 {
        false
    } else if a[0] != b[0] {
        a[0] < b[0]
    } else {
        text_lt(a.drop_first(), b.drop_first())
    }
}

/// No text sorts before itself.
pub proof fn lemma_text_lt_irreflexive(a: Seq<char>)
    ensures
        !text_lt(a, a),
    decreases a.len(),
{
    if a.len() > 0 {
        lemma_text_lt_irreflexive(a.drop_first());
    }
}

/// The order of text is transitive.
pub proof fn lemma_text_lt_transitive(a: Seq<char>, b: Seq<char>, c: Seq<char>)
    requires
        text_lt(a, b),
        text_lt(b, c),
    ensures
        text_lt(a, c),
    decreases a.len(),
{
    if a.len() > 0 && b.len() > 0 && c.len() > 0 {
        if a[0] == b[0] && b[0] == c[0] {
            lemma_text_lt_transitive(a.drop_first(), b.drop_first(), c.drop_first());
        }
    }
}

/// Of two different texts, one sorts before the other.
pub proof fn lemma_text_lt_total(a: Seq<char>, b: Seq<char>)
    ensures
        a == b || text_lt(a, b) || text_lt(b, a),
    decreases a.len(),
{
    if a.len() > 0 && b.len() > 0 && a[0] == b[0] {
        lemma_text_lt_total(a.drop_first(), b.drop_first());
        if a.drop_first() == b.drop_first() {
            assert(a =~= seq![a[0]] + a.drop_first());
            assert(b =~= seq![b[0]] + b.drop_first());
            assert(a == b);
        }
    } else if a.len() == 0 && b.len() == 0 {
        assert(a =~= b);
    }
}

/// `a` sorts before `b` (`a < b` for `str`).
pub fn text_less(a: &str, b: &str) -> (r: bool)
    ensures
        r == text_lt(a@, b@),
{
    let x = chars_of(a);
    let y = chars_of(b);
    let mut i: usize = 0;
    assert(x@.skip(0) =~= x@);
    assert(y@.skip(0) =~= y@);
    while i < x.len() && i < y.len() && x[i] == y[i]
        invariant
            i <= x.len(),
            i <= y.len(),
            text_lt(x@, y@) == text_lt(x@.skip(i as int), y@.skip(i as int)),
        decreases x.len() - i,
    {
        assert(x@.skip(i as int).drop_first() =~= x@.skip(i + 1));
        assert(y@.skip(i as int).drop_first() =~= y@.skip(i + 1));
        i = i + 1;
    }
    if i == x.len() {
        i < y.len()
    } else if i == y.len() {
        false
    } else {
        x[i] < y[i]
    }
}

// ---------------------------------------------------------------------------
// Newest first
// ---------------------------------------------------------------------------

/// The models of a sequence of hits.
pub open spec fn doc_views(s: Seq<ZzkDocument>) -> Seq<ZzkDocumentView> {
    s.map_values(|d: ZzkDocument| d@)
}

/// Where `x` goes among hits that are already newest first: before the first
/// hit published before it, so after every hit with the same time.
pub open spec fn insert_pos(t: Seq<ZzkDocumentView>, x: ZzkDocumentView) -> int
    decreases t.len(),
{
    if t.len() == 0 {
        0
    } else if text_lt(t[0].publish_time, x.publish_time) {
        0
    } else {
        1 + insert_pos(t.drop_first(), x)
    }
}

/// Hits ordered newest first by publish time; hits with the same time keep
/// their order (what a stable sort by descending `publish_time` gives).
pub open spec fn newest_first(s: Seq<ZzkDocumentView>) -> Seq<ZzkDocumentView>
    decreases s.len(),
{
    if s.len() == 0 {
        s
    } else {
        let t = newest_first(s.drop_last());
        t.insert(insert_pos(t, s.last()), s.last())
    }
}

/// No hit is published before a later one in the sequence.
pub open spec fn is_newest_first(s: Seq<ZzkDocumentView>) -> bool {
    forall|i: int, j: int|
        0 <= i < j < s.len() ==> !text_lt(#[trigger] s[i].publish_time, #[trigger] s[j].publish_time)
}

proof fn lemma_insert_pos_bounds(t: Seq<ZzkDocumentView>, x: ZzkDocumentView)
    ensures
        0 <= insert_pos(t, x) <= t.len(),
        forall|m: int| 0 <= m < insert_pos(t, x) ==> !text_lt(#[trigger] t[m].publish_time, x.publish_time),
        insert_pos(t, x) < t.len() ==> text_lt(t[insert_pos(t, x)].publish_time, x.publish_time),
    decreases t.len(),
{
    if t.len() > 0 && !text_lt(t[0].publish_time, x.publish_time) {
        lemma_insert_pos_bounds(t.drop_first(), x);
        assert forall|m: int| 0 <= m < insert_pos(t, x) implies !text_lt(
            #[trigger] t[m].publish_time,
            x.publish_time,
        ) by {
            if m > 0 {
                assert(t[m] == t.drop_first()[m - 1]);
            }
        }
    }
}

proof fn lemma_insert_keeps_order(t: Seq<ZzkDocumentView>, x: ZzkDocumentView)
    requires
        is_newest_first(t),
    ensures
        is_newest_first(t.insert(insert_pos(t, x), x)),
{
    lemma_insert_pos_bounds(t, x);
    let k = insert_pos(t, x);
    let r = t.insert(k, x);
    assert forall|i: int, j: int| 0 <= i < j < r.len() implies !text_lt(
        #[trigger] r[i].publish_time,
        #[trigger] r[j].publish_time,
    ) by {
        if i < k && j < k {
            assert(r[i] == t[i] && r[j] == t[j]);
        } else if i < k && j == k {
            assert(r[i] == t[i]);
        } else if i < k && j > k {
            assert(r[i] == t[i] && r[j] == t[j - 1]);
        } else if i == k {
            // x against a later hit t[j - 1], which is no newer than t[k].
            assert(r[j] == t[j - 1]);
            let a = t[j - 1].publish_time;
            let b = t[k].publish_time;
            let c = x.publish_time;
            assert(text_lt(b, c));
            if j - 1 > k {
                assert(!text_lt(b, a));
                lemma_text_lt_total(a, b);
                if text_lt(a, b) {
                    lemma_text_lt_transitive(a, b, c);
                }
            }
            if text_lt(c, a) {
                if a == b {
                    lemma_text_lt_transitive(c, b, c);
                    lemma_text_lt_irreflexive(c);
                } else {
                    lemma_text_lt_transitive(c, a, c);
                    lemma_text_lt_irreflexive(c);
                }
            }
        } else {
            assert(r[i] == t[i - 1] && r[j] == t[j - 1]);
        }
    }
}

/// Hits come out newest first.
pub proof fn lemma_newest_first_ordered(s: Seq<ZzkDocumentView>)
    ensures
        is_newest_first(newest_first(s)),
    decreases s.len(),
{
    if s.len() > 0 {
        lemma_newest_first_ordered(s.drop_last());
        lemma_insert_keeps_order(newest_first(s.drop_last()), s.last());
    }
}

/// Ordering keeps exactly the hits it was given.
pub proof fn lemma_newest_first_permutes(s: Seq<ZzkDocumentView>)
    ensures
        newest_first(s).to_multiset() == s.to_multiset(),
        newest_first(s).len() == s.len(),
    decreases s.len(),
{
    if s.len() > 0 {
        lemma_newest_first_permutes(s.drop_last());
        let t = newest_first(s.drop_last());
        lemma_insert_pos_bounds(t, s.last());
        assert(s.drop_last().push(s.last()) =~= s);
    }
}

/// Hits that are already newest first stay as they are.
pub proof fn lemma_newest_first_keeps_ordered(s: Seq<ZzkDocumentView>)
    requires
        is_newest_first(s),
    ensures
        newest_first(s) == s,
    decreases s.len(),
{
    if s.len() > 0 {
        let p = s.drop_last();
        assert(is_newest_first(p)) by {
            assert forall|i: int, j: int| 0 <= i < j < p.len() implies !text_lt(
                #[trigger] p[i].publish_time,
                #[trigger] p[j].publish_time,
            ) by {
                assert(p[i] == s[i] && p[j] == s[j]);
            }
        }
        lemma_newest_first_keeps_ordered(p);
        lemma_insert_pos_past_all(p, s.last());
        assert(p.insert(p.len() as int, s.last()) =~= s);
    }
}

proof fn lemma_insert_pos_past_all(t: Seq<ZzkDocumentView>, x: ZzkDocumentView)
    requires
        forall|m: int| 0 <= m < t.len() ==> !text_lt(#[trigger] t[m].publish_time, x.publish_time),
    ensures
        insert_pos(t, x) == t.len(),
    decreases t.len(),
{
    if t.len() > 0 {
        assert(!text_lt(t[0].publish_time, x.publish_time));
        assert forall|m: int| 0 <= m < t.drop_first().len() implies !text_lt(
            #[trigger] t.drop_first()[m].publish_time,
            x.publish_time,
        ) by {
            assert(t.drop_first()[m] == t[m + 1]);
        }
        lemma_insert_pos_past_all(t.drop_first(), x);
    }
}

/// Orders hits newest first, keeping the order of hits with the same time.
pub fn sort_newest_first(v: Vec<ZzkDocument>) -> (r: Vec<ZzkDocument>)
    ensures
        doc_views(r@) == newest_first(doc_views(v@)),
{
    let ghost orig = v@;
    let mut r: Vec<ZzkDocument> = Vec::new();
    for doc in it: v.into_iter()
        invariant
            it.seq() == orig,
            doc_views(r@) == newest_first(doc_views(orig.take(it.index() as int))),
    {
        let ghost i = it.index() as int;
        let ghost t = doc_views(r@);
        assert(doc_views(orig.take(i + 1)).drop_last() =~= doc_views(orig.take(i)));
        assert(doc_views(orig.take(i + 1)).last() == doc@);
        let mut j: usize = 0;
        assert(t.skip(0) =~= t);
        while j < r.len() && !text_less(r[j].publish_time.as_str(), doc.publish_time.as_str())
            invariant
                j <= r.len(),
                t == doc_views(r@),
                insert_pos(t, doc@) == j + insert_pos(t.skip(j as int), doc@),
            decreases r.len() - j,
        {
            assert(t.skip(j as int).drop_first() =~= t.skip(j + 1));
            assert(t.skip(j as int)[0] == t[j as int]);
            j = j + 1;
        }
        proof {
            assert(t.skip(0) =~= t);
            if j < r.len() {
                assert(t.skip(j as int)[0] == t[j as int]);
            }
        }
        let ghost before = r@;
        r.insert(j, doc);
        assert(doc_views(r@) =~= t.insert(j as int, doc@)) by {
            assert(r@ == before.insert(j as int, doc));
        }
    }
    assert(orig.take(orig.len() as int) =~= orig);
    r
}

// ---------------------------------------------------------------------------
// Cleaning and cutting
// ---------------------------------------------------------------------------

/// A hit with HTML stripped from its title and its summary.
pub open spec fn cleaned(v: ZzkDocumentView) -> ZzkDocumentView {
    ZzkDocumentView {
        title: html_stripped(v.title),
        content: html_stripped(v.content),
        user_name: v.user_name,
        user_alias: v.user_alias,
        publish_time: v.publish_time,
        vote_times: v.vote_times,
        view_times: v.view_times,
        comment_times: v.comment_times,
        uri: v.uri,
        id: v.id,
    }
}

/// Strips HTML from the title and the summary of every hit.
pub fn clean_search_results(results: &mut Vec<ZzkDocument>)
    ensures
        doc_views(final(results)@) == doc_views(old(results)@).map_values(|v: ZzkDocumentView| cleaned(v)),
        final(results)@.len() == old(results)@.len(),
        forall|i: int|
            #![trigger final(results)@[i]]
            0 <= i < old(results)@.len() ==> {
                let a = final(results)@[i]@;
                let b = old(results)@[i]@;
                &&& a.title == entities_decoded(tags_stripped(b.title))
                &&& a.content == entities_decoded(tags_stripped(b.content))
                &&& a.user_name == b.user_name
                &&& a.user_alias == b.user_alias
                &&& a.publish_time == b.publish_time
                &&& a.vote_times == b.vote_times
                &&& a.view_times == b.view_times
                &&& a.comment_times == b.comment_times
                &&& a.uri == b.uri
                &&& a.id == b.id
            },
{
    let mut taken: Vec<ZzkDocument> = Vec::new();
    std::mem::swap(results, &mut taken);
    let ghost orig = taken@;
    assert(orig == old(results)@);
    for doc in it: taken.into_iter()
        invariant
            it.seq() == orig,
            doc_views(results@) == doc_views(orig.take(it.index() as int)).map_values(
                |v: ZzkDocumentView| cleaned(v),
            ),
    {
        let ghost i = it.index() as int;
        let ZzkDocument {
            title,
            content,
            user_name,
            user_alias,
            publish_time,
            vote_times,
            view_times,
            comment_times,
            uri,
            id,
        } = doc;
        let clean = ZzkDocument {
            title: strip_html(title.as_str()),
            content: strip_html(content.as_str()),
            user_name,
            user_alias,
            publish_time,
            vote_times,
            view_times,
            comment_times,
            uri,
            id,
        };
        assert(clean@ == cleaned(doc@));
        let ghost prev = results@;
        results.push(clean);
        proof {
            assert(orig[i] == doc);
            assert(doc_views(results@) =~= doc_views(prev).push(clean@));
            assert(orig.take(i + 1) =~= orig.take(i).push(doc));
            assert(doc_views(orig.take(i + 1)) =~= doc_views(orig.take(i)).push(doc@));
            assert(doc_views(orig.take(i + 1)).map_values(|v: ZzkDocumentView| cleaned(v))
                =~= doc_views(orig.take(i)).map_values(|v: ZzkDocumentView| cleaned(v)).push(
                cleaned(doc@),
            ));
        }
    }
    assert(orig.take(orig.len() as int) =~= orig);
    assert forall|i: int| 0 <= i < orig.len() implies #[trigger] results@[i]@ == cleaned(orig[i]@) by {
        assert(doc_views(results@)[i] == results@[i]@);
        assert(doc_views(orig)[i] == orig[i]@);
    }
}

/// Cleaning a hit strips the HTML from its title and its summary and keeps
/// every other field as it was, hit for hit.
pub proof fn lemma_cleaning_keeps_fields(hits: Seq<ZzkDocumentView>)
    ensures
        hits.map_values(|v: ZzkDocumentView| cleaned(v)).len() == hits.len(),
        forall|i: int|
            #![trigger hits[i]]
            0 <= i < hits.len() ==> {
                let a = hits.map_values(|v: ZzkDocumentView| cleaned(v))[i];
                let b = hits[i];
                &&& a.title == entities_decoded(tags_stripped(b.title))
                &&& a.content == entities_decoded(tags_stripped(b.content))
                &&& a.user_name == b.user_name
                &&& a.user_alias == b.user_alias
                &&& a.publish_time == b.publish_time
                &&& a.vote_times == b.vote_times
                &&& a.view_times == b.view_times
                &&& a.comment_times == b.comment_times
                &&& a.uri == b.uri
                &&& a.id == b.id
            },
{
}

/// `s` cut to at most `n` items.
pub open spec fn at_most<T>(s: Seq<T>, n: nat) -> Seq<T> {
    if s.len() > n {
        s.take(n as int)
    } else {
        s
    }
}

/// Hits as handed out: cleaned, newest first when asked, at most `limit`.
pub open spec fn arranged(s: Seq<ZzkDocumentView>, by_time: bool, limit: nat) -> Seq<ZzkDocumentView> {
    let c = s.map_values(|v: ZzkDocumentView| cleaned(v));
    at_most(if by_time { newest_first(c) } else { c }, limit)
}

/// Cleans the hits, orders them newest first when `by_time`, and keeps at
/// most `limit` of them.
pub fn arrange_hits(results: Vec<ZzkDocument>, by_time: bool, limit: u32) -> (r: Vec<ZzkDocument>)
    ensures
        doc_views(r@) == arranged(doc_views(results@), by_time, limit as nat),
{
    let mut results = results;
    clean_search_results(&mut results);
    let mut ordered = if by_time {
        sort_newest_first(results)
    } else {
        results
    };
    let ghost before = ordered@;
    ordered.truncate(limit as usize);
    assert(doc_views(ordered@) =~= at_most(doc_views(before), limit as nat));
    ordered
}


/// At most `limit` hits come out, and fewer only when fewer came in.
pub proof fn lemma_arranged_len(s: Seq<ZzkDocumentView>, by_time: bool, limit: nat)
    ensures
        arranged(s, by_time, limit).len() == if s.len() < limit {
            s.len()
        } else {
            limit
        },
{
    let c = s.map_values(|v: ZzkDocumentView| cleaned(v));
    lemma_newest_first_permutes(c);
}


/// The hits published at time `k`, in their order.
pub open spec fn published_at(s: Seq<ZzkDocumentView>, k: Seq<char>) -> Seq<ZzkDocumentView> {
    s.filter(|v: ZzkDocumentView| v.publish_time == k)
}

proof fn lemma_published_at_none(s: Seq<ZzkDocumentView>, k: Seq<char>)
    requires
        forall|m: int| 0 <= m < s.len() ==> #[trigger] s[m].publish_time != k,
    ensures
        published_at(s, k) == Seq::<ZzkDocumentView>::empty(),
{
    assert(s.all(|v: ZzkDocumentView| !(v.publish_time == k))) by {
        assert forall|m: int| 0 <= m < s.len() implies !(#[trigger] s[m].publish_time == k) by {}
    }
    s.lemma_all_neg_filter_empty(|v: ZzkDocumentView| v.publish_time == k);
    assert(published_at(s, k) =~= Seq::<ZzkDocumentView>::empty());
}

/// Ordering is stable: the hits published at any one time keep the order
/// they came in.
pub proof fn lemma_newest_first_stable(s: Seq<ZzkDocumentView>, k: Seq<char>)
    ensures
        published_at(newest_first(s), k) == published_at(s, k),
    decreases s.len(),
{
    broadcast use Seq::filter_distributes_over_add;

    if s.len() > 0 {
        let p = s.drop_last();
        let x = s.last();
        lemma_newest_first_stable(p, k);
        let t = newest_first(p);
        lemma_newest_first_ordered(p);
        lemma_insert_pos_bounds(t, x);
        let pos = insert_pos(t, x);
        let front = t.take(pos);
        let back = t.skip(pos);
        assert(t.insert(pos, x) =~= front + seq![x] + back);
        assert(t =~= front + back);
        assert(s =~= p + seq![x]);
        reveal_with_fuel(Seq::filter, 2);
        if x.publish_time == k {
            assert forall|m: int| 0 <= m < back.len() implies #[trigger] back[m].publish_time != k by {
                let a = t[pos + m].publish_time;
                let b = t[pos].publish_time;
                assert(back[m] == t[pos + m]);
                assert(text_lt(b, k));
                if m > 0 {
                    assert(!text_lt(b, a));
                    lemma_text_lt_total(a, b);
                    if text_lt(a, b) {
                        lemma_text_lt_transitive(a, b, k);
                    }
                }
                if a == k {
                    lemma_text_lt_irreflexive(k);
                }
            }
            lemma_published_at_none(back, k);
            assert(published_at(seq![x], k) =~= seq![x]);
        } else {
            assert(published_at(seq![x], k) =~= Seq::<ZzkDocumentView>::empty());
        }
    }
}

} // verus!
