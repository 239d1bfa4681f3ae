use crate::buckets::{label_positions, lemma_buckets_determined, lemma_label_positions_bounded};
use crate::index::{
    category_lists, labels_of, loaded_post, loaded_posts, loading_sources, posts_at, published,
    slug_matches, sort_date, sort_dates, tag_lists, PostIndex, SourceFile,
};
use crate::markdown::Post;
use crate::metadata::text_view;
use crate::order::{comes_before, lemma_date_order_unique};
use crate::slug::filename_slug;
use crate::date::date_later;
use vstd::prelude::*;

verus! {

/// No draft is listed: not among all posts, not under any tag or category, not
/// among the most recent posts, whatever the count.
pub proof fn lemma_drafts_never_listed(index: PostIndex, tag: Seq<char>, category: Seq<char>, count: nat)
    requires
        index.wf(),
    ensures
        forall|i: int| 0 <= i < index.posts@.len() ==> !(#[trigger] index.posts@[i]).metadata.draft,
        ({
            let listed = posts_at(index.posts@, label_positions(tag_lists(index.posts@), tag));
            forall|i: int| 0 <= i < listed.len() ==> !(#[trigger] listed[i]).metadata.draft
        }),
        ({
            let listed = posts_at(index.posts@, label_positions(category_lists(index.posts@), category));
            forall|i: int| 0 <= i < listed.len() ==> !(#[trigger] listed[i]).metadata.draft
        }),
        ({
            let m = if count < index.sorted_by_date@.len() { count as int } else { index.sorted_by_date@.len() as int };
            let listed = posts_at(index.posts@, index.sorted_by_date@.take(m));
            forall|i: int| 0 <= i < listed.len() ==> !(#[trigger] listed[i]).metadata.draft
        }),
{
    let posts = index.posts@;
    lemma_label_positions_bounded(tag_lists(posts), tag);
    lemma_label_positions_bounded(category_lists(posts), category);
    let by_tag = label_positions(tag_lists(posts), tag);
    assert forall|i: int| 0 <= i < by_tag.len() implies !(#[trigger] posts_at(posts, by_tag)[i]).metadata.draft by {
        assert(by_tag[i] < tag_lists(posts).len());
        assert(!posts[by_tag[i] as int].metadata.draft);
    }
    let by_category = label_positions(category_lists(posts), category);
    assert forall|i: int| 0 <= i < by_category.len() implies !(#[trigger] posts_at(posts, by_category)[i]).metadata.draft by {
        assert(by_category[i] < category_lists(posts).len());
        assert(!posts[by_category[i] as int].metadata.draft);
    }
    let m = if count < index.sorted_by_date@.len() { count as int } else { index.sorted_by_date@.len() as int };
    let recent = index.sorted_by_date@.take(m);
    assert forall|i: int| 0 <= i < recent.len() implies !(#[trigger] posts_at(posts, recent)[i]).metadata.draft by {
        assert(recent[i] == index.sorted_by_date@[i]);
        assert(index.sorted_by_date@[i] < sort_dates(posts).len());
        assert(!posts[recent[i] as int].metadata.draft);
    }
}

/// The most recent `count` posts are `min(count, k)` posts of an index of `k`,
/// newest first: a post never follows one with an earlier date, undated posts
/// come after every dated one, and undated posts keep their discovery order.
pub proof fn lemma_recent_order(index: PostIndex, count: nat)
    requires
        index.wf(),
    ensures
        ({
            let m = if count < index.sorted_by_date@.len() { count as int } else { index.sorted_by_date@.len() as int };
            let recent = index.sorted_by_date@.take(m);
            let posts = index.posts@;
            &&& recent.len() == if count < posts.len() { count as int } else { posts.len() as int }
            &&& forall|a: int, b: int| 0 <= a < b < recent.len() ==> {
                let da = sort_date(posts[#[trigger] recent[a] as int]);
                let db = sort_date(posts[#[trigger] recent[b] as int]);
                &&& (da is Some && db is Some ==> !date_later(db->Some_0, da->Some_0))
                &&& (da is None ==> db is None)
                &&& (da is None && db is None ==> recent[a] < recent[b])
            }
        }),
{
    let posts = index.posts@;
    let keys = sort_dates(posts);
    let order = index.sorted_by_date@;
    let m = if count < order.len() { count as int } else { order.len() as int };
    let recent = order.take(m);
    assert(keys.len() == posts.len());
    assert forall|a: int, b: int| 0 <= a < b < recent.len() implies {
        let da = sort_date(posts[#[trigger] recent[a] as int]);
        let db = sort_date(posts[#[trigger] recent[b] as int]);
        &&& (da is Some && db is Some ==> !date_later(db->Some_0, da->Some_0))
        &&& (da is None ==> db is None)
        &&& (da is None && db is None ==> recent[a] < recent[b])
    } by {
        assert(recent[a] == order[a] && recent[b] == order[b]);
        assert(comes_before(keys, order[a] as int, order[b] as int));
        assert(order[a] < keys.len() && order[b] < keys.len());
        assert(keys[order[a] as int] == sort_date(posts[order[a] as int]));
        assert(keys[order[b] as int] == sort_date(posts[order[b] as int]));
    }
}

/// Building twice from the same posts gives the same index: the same posts,
/// the same tag map, the same category map and the same date order.
pub proof fn lemma_build_deterministic(first: PostIndex, second: PostIndex, posts: Seq<Post>)
    requires
        first.built_from(posts),
        second.built_from(posts),
    ensures
        first.posts@ == second.posts@,
        first.tag_map() == second.tag_map(),
        first.category_map() == second.category_map(),
        first.sorted_by_date@ == second.sorted_by_date@,
{
    let kept = first.posts@;
    lemma_buckets_determined(first.tags@, second.tags@, tag_lists(kept));
    lemma_buckets_determined(first.categories@, second.categories@, category_lists(kept));
    lemma_date_order_unique(sort_dates(kept), first.sorted_by_date@, second.sorted_by_date@);
}

/// The parts of a post that the index reads are the same in `a` and `b`: the
/// draft flag, the tags, the categories and the sort date.
pub open spec fn same_index_data(a: Post, b: Post) -> bool {
    &&& a.metadata.draft == b.metadata.draft
    &&& labels_of(a.metadata.tags) == labels_of(b.metadata.tags)
    &&& labels_of(a.metadata.categories) == labels_of(b.metadata.categories)
    &&& sort_date(a) == sort_date(b)
}

proof fn lemma_published_same_data(p1: Seq<Post>, p2: Seq<Post>)
    requires
        p1.len() == p2.len(),
        forall|k: int| 0 <= k < p1.len() ==> same_index_data(#[trigger] p1[k], p2[k]),
    ensures
        tag_lists(published(p1)) == tag_lists(published(p2)),
        category_lists(published(p1)) == category_lists(published(p2)),
        sort_dates(published(p1)) == sort_dates(published(p2)),
    decreases p1.len(),
{
    if p1.len() > 0 {
        let a = p1.drop_last();
        let b = p2.drop_last();
        assert forall|k: int| 0 <= k < a.len() implies same_index_data(#[trigger] a[k], b[k]) by {
            assert(a[k] == p1[k] && b[k] == p2[k]);
        }
        lemma_published_same_data(a, b);
        assert(same_index_data(p1[p1.len() - 1], p2[p2.len() - 1]));
        if !p1.last().metadata.draft {
            let x = p1.last();
            let y = p2.last();
            assert(tag_lists(published(a).push(x)) =~= tag_lists(published(a)).push(labels_of(x.metadata.tags)));
            assert(tag_lists(published(b).push(y)) =~= tag_lists(published(b)).push(labels_of(y.metadata.tags)));
            assert(category_lists(published(a).push(x)) =~= category_lists(published(a)).push(labels_of(x.metadata.categories)));
            assert(category_lists(published(b).push(y)) =~= category_lists(published(b)).push(labels_of(y.metadata.categories)));
            assert(sort_dates(published(a).push(x)) =~= sort_dates(published(a)).push(sort_date(x)));
            assert(sort_dates(published(b).push(y)) =~= sort_dates(published(b)).push(sort_date(y)));
        }
    }
}

proof fn lemma_loaded_same_data(s: SourceFile, a: Post, b: Post)
    requires
        loaded_post(s, a),
        loaded_post(s, b),
    ensures
        same_index_data(a, b),
{
}

/// Building twice from the same source files gives the same tag map, the same
/// category map and the same date order.
pub proof fn lemma_build_from_sources_deterministic(
    first: PostIndex,
    second: PostIndex,
    sources: Seq<SourceFile>,
    first_posts: Seq<Post>,
    second_posts: Seq<Post>,
)
    requires
        loaded_posts(sources, first_posts),
        first.built_from(first_posts),
        loaded_posts(sources, second_posts),
        second.built_from(second_posts),
    ensures
        first.tag_map() == second.tag_map(),
        first.category_map() == second.category_map(),
        first.sorted_by_date@ == second.sorted_by_date@,
{
    assert forall|k: int| 0 <= k < first_posts.len() implies same_index_data(
        #[trigger] first_posts[k],
        second_posts[k],
    ) by {
        lemma_loaded_same_data(loading_sources(sources)[k], first_posts[k], second_posts[k]);
    }
    lemma_published_same_data(first_posts, second_posts);
    let kept = first.posts@;
    lemma_buckets_determined(first.tags@, second.tags@, tag_lists(kept));
    lemma_buckets_determined(first.categories@, second.categories@, category_lists(kept));
    lemma_date_order_unique(sort_dates(kept), first.sorted_by_date@, second.sorted_by_date@);
}

/// A slug lookup finds a post by its explicit slug, and by the slug that its
/// file name gives where it has none; where it has a non-empty explicit slug
/// that differs from the file-name slug, the file-name slug does not find it.
pub proof fn lemma_slug_lookup(p: Post)
    ensures
        text_view(p.metadata.slug) is None ==> slug_matches(p, filename_slug(p.file_path@)),
        forall|s: Seq<char>| text_view(p.metadata.slug) == Some(s) ==> slug_matches(p, s),
        forall|s: Seq<char>|
            text_view(p.metadata.slug) == Some(s) && s.len() > 0 && s != filename_slug(p.file_path@)
                ==> !slug_matches(p, #[trigger] filename_slug(p.file_path@)) && p.slug_spec() == s,
{
}

} // verus!
