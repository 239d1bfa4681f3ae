use crate::buckets::{
    bucket_map, buckets_match, label_buckets, label_positions, lemma_label_positions_bounded,
    lists_view, strings_view, Bucket,
};
use crate::date::Date;
use crate::filename::{extract_date_from_filename, filename_date};
use crate::markdown::{markdown_html, metadata_of_document, process_markdown_content, split_document, Post};
use crate::metadata::{text_view, FrontmatterError};
use crate::order::{date_order, date_ordered};
use crate::text::same_text;
use vstd::prelude::*;

verus! {

/// The labels of an optional list; none where the list is absent.
pub open spec fn labels_of(o: Option<Vec<String>>) -> Seq<Seq<char>> {
    match o {
        Some(v) => strings_view(v),
        None => Seq::empty(),
    }
}

/// The tag list of each post, in order.
pub open spec fn tag_lists(posts: Seq<Post>) -> Seq<Seq<Seq<char>>> {
    posts.map_values(|p: Post| labels_of(p.metadata.tags))
}

/// The category list of each post, in order.
pub open spec fn category_lists(posts: Seq<Post>) -> Seq<Seq<Seq<char>>> {
    posts.map_values(|p: Post| labels_of(p.metadata.categories))
}

/// The date a post sorts by: its metadata date, else the date its file name
/// opens with, else none. Posts with none sort after every dated post, in
/// discovery order, so that the order does not depend on the day of the build.
pub open spec fn sort_date(p: Post) -> Option<Date> {
    match p.metadata.date {
        Some(d) => Some(d),
        None => filename_date(p.file_path@),
    }
}

/// The sort date of each post, in order.
pub open spec fn sort_dates(posts: Seq<Post>) -> Seq<Option<Date>> {
    posts.map_values(|p: Post| sort_date(p))
}

/// The posts that are not drafts, in order.
pub open spec fn published(posts: Seq<Post>) -> Seq<Post>
    decreases posts.len(),
{
    if posts.len() == 0 {
        Seq::empty()
    } else if posts.last().metadata.draft {
        published(posts.drop_last())
    } else {
        published(posts.drop_last()).push(posts.last())
    }
}

/// `slug` names post `p`: it is the post's resolved slug, or its explicit slug.
pub open spec fn slug_matches(p: Post, slug: Seq<char>) -> bool {
    p.slug_spec() == slug || text_view(p.metadata.slug) == Some(slug)
}

/// `r` is what a slug lookup in `posts` gives: the first post that `slug`
/// names, or none where no post has it.
pub open spec fn slug_lookup(posts: Seq<Post>, slug: Seq<char>, r: Option<Post>) -> bool {
    match r {
        Some(p) => exists|i: int|
            0 <= i < posts.len() && p == posts[i] && slug_matches(posts[i], slug) && forall|j: int|
                0 <= j < i ==> !slug_matches(#[trigger] posts[j], slug),
        None => forall|i: int| 0 <= i < posts.len() ==> !slug_matches(#[trigger] posts[i], slug),
    }
}

/// The posts that a list of references points to.
pub open spec fn deref_posts(r: Seq<&Post>) -> Seq<Post> {
    r.map_values(|p: &Post| *p)
}

/// The posts at `positions`, in order.
pub open spec fn posts_at(posts: Seq<Post>, positions: Seq<usize>) -> Seq<Post> {
    positions.map_values(|i: usize| posts[i as int])
}

/// The posts of a collection, with a tag map, a category map and the date
/// order, all by position in `posts`.
#[derive(Clone, Debug)]
pub struct PostIndex {
    /// The posts, in discovery order; no drafts.
    pub posts: Vec<Post>,
    /// One bucket per tag, with the positions of the posts that carry it.
    pub tags: Vec<Bucket>,
    /// One bucket per category, with the positions of the posts in it.
    pub categories: Vec<Bucket>,
    /// Every position once, newest first; posts without a date last.
    pub sorted_by_date: Vec<usize>,
}

impl PostIndex {
    /// No drafts, and the tag map, category map and date order are the ones
    /// that the posts give.
    pub open spec fn wf(self) -> bool {
        &&& forall|i: int| 0 <= i < self.posts@.len() ==> !(#[trigger] self.posts@[i]).metadata.draft
        &&& buckets_match(self.tags@, tag_lists(self.posts@))
        &&& buckets_match(self.categories@, category_lists(self.posts@))
        &&& date_ordered(sort_dates(self.posts@), self.sorted_by_date@)
    }

    /// The index is the one built from `posts`: their non-drafts, in order,
    /// with the maps and the order that those give.
    pub open spec fn built_from(self, posts: Seq<Post>) -> bool {
        &&& self.wf()
        &&& self.posts@ == published(posts)
    }

    /// The tag map, by tag name.
    pub open spec fn tag_map(self) -> Map<Seq<char>, Seq<usize>> {
        bucket_map(self.tags@)
    }

    /// The category map, by category name.
    pub open spec fn category_map(self) -> Map<Seq<char>, Seq<usize>> {
        bucket_map(self.categories@)
    }

    /// An index that holds no post.
    pub fn new() -> (r: Self)
        ensures
            r.built_from(Seq::empty()),
    {
        let r = PostIndex {
            posts: Vec::new(),
            tags: Vec::new(),
            categories: Vec::new(),
            sorted_by_date: Vec::new(),
        };
        assert(r.posts@ =~= published(Seq::empty()));
        r
    }

    /// Builds the index of `posts`: drafts are left out, the others keep their
    /// order, and the tag map, category map and date order are built over them.
    pub fn from_posts(posts: Vec<Post>) -> (r: Self)
        ensures
            r.built_from(posts@),
    {
        let ghost input = posts@;
        let total = posts.len();
        let mut kept: Vec<Post> = Vec::new();
        let mut tag_lists_v: Vec<Vec<String>> = Vec::new();
        let mut category_lists_v: Vec<Vec<String>> = Vec::new();
        let mut keys: Vec<Option<Date>> = Vec::new();
        let mut i: usize = 0;
        let mut source = posts;
        let mut rest: Vec<Post> = Vec::new();
        while source.len() > 0
            invariant
                source@ == input.take(source@.len() as int),
                source@.len() <= input.len(),
                rest@.len() == input.len() - source@.len(),
                forall|k: int| 0 <= k < rest@.len() ==> #[trigger] rest@[k] == input[input.len() - 1 - k],
            decreases source@.len(),
        {
            let ghost n = source@.len();
            let post = source.pop().unwrap();
            assert(post == input[n - 1]);
            assert(source@ =~= input.take(n - 1));
            rest.push(post);
        }
        while rest.len() > 0
            invariant
                i <= input.len() == total,
                rest@.len() == input.len() - i,
                forall|k: int| 0 <= k < rest@.len() ==> #[trigger] rest@[k] == input[input.len() - 1 - k],
                kept@ == published(input.take(i as int)),
                lists_view(tag_lists_v@) == tag_lists(kept@),
                lists_view(category_lists_v@) == category_lists(kept@),
                keys@ == sort_dates(kept@),
            decreases rest@.len(),
        {
            let ghost before = kept@;
            assert(i < input.len());
            let post = rest.pop().unwrap();
            assert(post == input[i as int]);
            assert(input.take(i + 1).drop_last() =~= input.take(i as int));
            if !post.metadata.is_draft() {
                let tags = copy_labels(&post.metadata.tags);
                let categories = copy_labels(&post.metadata.categories);
                let key = match post.metadata.date {
                    Some(d) => Some(d),
                    None => extract_date_from_filename(post.file_path.as_str()),
                };
                let ghost tags_before = tag_lists_v@;
                let ghost categories_before = category_lists_v@;
                let ghost tags_view = strings_view(tags);
                let ghost categories_view = strings_view(categories);
                tag_lists_v.push(tags);
                category_lists_v.push(categories);
                keys.push(key);
                kept.push(post);
                assert(tag_lists_v@ == tags_before.push(tags));
                assert(category_lists_v@ == categories_before.push(categories));
                assert(kept@ == before.push(post));
                assert(lists_view(tag_lists_v@) =~= lists_view(tags_before).push(tags_view));
                assert(lists_view(category_lists_v@) =~= lists_view(categories_before).push(categories_view));
                assert(tag_lists(kept@) =~= tag_lists(before).push(labels_of(post.metadata.tags)));
                assert(category_lists(kept@) =~= category_lists(before).push(labels_of(post.metadata.categories)));
                assert(lists_view(tag_lists_v@) =~= tag_lists(kept@));
                assert(lists_view(category_lists_v@) =~= category_lists(kept@));
                assert(keys@ =~= sort_dates(kept@));
            }
            i = i + 1;
        }
        assert(input.take(input.len() as int) =~= input);
        let tags = label_buckets(&tag_lists_v);
        let categories = label_buckets(&category_lists_v);
        let sorted_by_date = date_order(&keys);
        let r = PostIndex { posts: kept, tags, categories, sorted_by_date };
        proof {
            lemma_published_no_drafts(input);
        }
        r
    }

    /// The posts carrying `tag`, in discovery order, once per time a post lists
    /// it; none for an unknown tag.
    pub fn get_posts_by_tag(&self, tag: &str) -> (r: Vec<&Post>)
        requires
            self.wf(),
        ensures
            deref_posts(r@) == posts_at(self.posts@, label_positions(tag_lists(self.posts@), tag@)),
    {
        self.bucket_posts(&self.tags, Ghost(tag_lists(self.posts@)), tag)
    }

    /// The posts in `category`, in discovery order, once per time a post lists
    /// it; none for an unknown category.
    pub fn get_posts_by_category(&self, category: &str) -> (r: Vec<&Post>)
        requires
            self.wf(),
        ensures
            deref_posts(r@) == posts_at(self.posts@, label_positions(category_lists(self.posts@), category@)),
    {
        self.bucket_posts(&self.categories, Ghost(category_lists(self.posts@)), category)
    }

    /// The first `count` posts of the date order, or all of them where there
    /// are fewer.
    pub fn get_recent_posts(&self, count: usize) -> (r: Vec<&Post>)
        requires
            self.wf(),
        ensures
            deref_posts(r@) == posts_at(
                self.posts@,
                self.sorted_by_date@.take(
                    if count < self.sorted_by_date@.len() {
                        count as int
                    } else {
                        self.sorted_by_date@.len() as int
                    },
                ),
            ),
    {
        let m = if count < self.sorted_by_date.len() {
            count
        } else {
            self.sorted_by_date.len()
        };
        let mut r: Vec<&Post> = Vec::new();
        let mut i: usize = 0;
        while i < m
            invariant
                self.wf(),
                m <= self.sorted_by_date@.len(),
                i <= m,
                deref_posts(r@) == posts_at(self.posts@, self.sorted_by_date@.take(i as int)),
            decreases m - i,
        {
            let p = self.sorted_by_date[i];
            assert(p < self.posts@.len()) by {
                assert(sort_dates(self.posts@).len() == self.posts@.len());
            }
            let ghost before = r@;
            r.push(&self.posts[p]);
            assert(deref_posts(r@) =~= deref_posts(before).push(self.posts@[p as int]));
            assert(self.sorted_by_date@.take(i + 1) =~= self.sorted_by_date@.take(i as int).push(p));
            assert(deref_posts(r@) =~= posts_at(self.posts@, self.sorted_by_date@.take(i + 1)));
            i = i + 1;
        }
        r
    }

    /// Every post, in discovery order.
    pub fn get_all_posts(&self) -> (r: &[Post])
        ensures
            r@ == self.posts@,
    {
        self.posts.as_slice()
    }

    /// The first post, in discovery order, whose resolved slug or explicit slug
    /// is `slug`; none where no post has it.
    pub fn get_post_by_slug(&self, slug: &str) -> (r: Option<&Post>)
        ensures
            slug_lookup(
                self.posts@,
                slug@,
                match r {
                    Some(p) => Some(*p),
                    None => None,
                },
            ),
    {
        let mut i: usize = 0;
        while i < self.posts.len()
            invariant
                i <= self.posts@.len(),
                forall|j: int| 0 <= j < i ==> !slug_matches(#[trigger] self.posts@[j], slug@),
            decreases self.posts@.len() - i,
        {
            let post = &self.posts[i];
            let resolved = post.slug();
            let mut found = same_text(resolved.as_str(), slug);
            if !found {
                match &post.metadata.slug {
                    Some(s) => {
                        found = same_text(s.as_str(), slug);
                    },
                    None => {},
                }
            }
            if found {
                return Some(post);
            }
            i = i + 1;
        }
        None
    }

    fn bucket_posts(
        &self,
        buckets: &Vec<Bucket>,
        lists: Ghost<Seq<Seq<Seq<char>>>>,
        label: &str,
    ) -> (r: Vec<&Post>)
        requires
            buckets_match(buckets@, lists@),
            lists@.len() == self.posts@.len(),
        ensures
            deref_posts(r@) == posts_at(self.posts@, label_positions(lists@, label@)),
    {
        let mut k: usize = 0;
        while k < buckets.len() && !same_text(buckets[k].name.as_str(), label)
            invariant
                k <= buckets@.len(),
                forall|a: int| 0 <= a < k ==> #[trigger] buckets@[a].name@ != label@,
            decreases buckets@.len() - k,
        {
            k = k + 1;
        }
        let mut r: Vec<&Post> = Vec::new();
        if k == buckets.len() {
            proof {
                if label_positions(lists@, label@).len() > 0 {
                    let m = choose|m: int| 0 <= m < buckets@.len() && #[trigger] buckets@[m].name@ == label@;
                }
            }
            assert(deref_posts(r@) =~= Seq::<Post>::empty());
            assert(posts_at(self.posts@, label_positions(lists@, label@)) =~= Seq::<Post>::empty());
            return r;
        }
        let positions = &buckets[k].positions;
        proof {
            lemma_label_positions_bounded(lists@, label@);
        }
        let mut i: usize = 0;
        while i < positions.len()
            invariant
                positions@ == label_positions(lists@, label@),
                lists@.len() == self.posts@.len(),
                forall|x: int| 0 <= x < positions@.len() ==> #[trigger] positions@[x] < lists@.len(),
                i <= positions@.len(),
                deref_posts(r@) == posts_at(self.posts@, positions@.take(i as int)),
            decreases positions@.len() - i,
        {
            let p = positions[i];
            let ghost before = r@;
            r.push(&self.posts[p]);
            assert(deref_posts(r@) =~= deref_posts(before).push(self.posts@[p as int]));
            assert(positions@.take(i + 1) =~= positions@.take(i as int).push(p));
            assert(deref_posts(r@) =~= posts_at(self.posts@, positions@.take(i + 1)));
            i = i + 1;
        }
        assert(positions@.take(positions@.len() as int) =~= positions@);
        r
    }
}

impl Default for PostIndex {
    fn default() -> (r: Self)
        ensures
            r.built_from(Seq::empty()),
    {
        Self::new()
    }
}

/// A copy of an optional label list; empty where it is absent.
fn copy_labels(labels: &Option<Vec<String>>) -> (r: Vec<String>)
    ensures
        strings_view(r) == labels_of(*labels),
{
    let mut r: Vec<String> = Vec::new();
    match labels {
        Some(v) => {
            let mut i: usize = 0;
            while i < v.len()
                invariant
                    i <= v@.len(),
                    strings_view(r) == strings_view(*v).take(i as int),
                decreases v@.len() - i,
            {
                let ghost before = r@;
                let ghost view_before = strings_view(r);
                let label: String = v[i].clone();
                assert(label == v@[i as int]);
                r.push(label);
                assert(r@ == before.push(v@[i as int]));
                assert(strings_view(r) =~= view_before.push(v@[i as int]@));
                assert(strings_view(r) =~= strings_view(*v).take(i + 1));
                i = i + 1;
            }
            assert(strings_view(*v).take(v@.len() as int) =~= strings_view(*v));
        },
        None => {
            assert(strings_view(r) =~= Seq::<Seq<char>>::empty());
        },
    }
    r
}

/// No post that `published` keeps is a draft.
proof fn lemma_published_no_drafts(posts: Seq<Post>)
    ensures
        forall|i: int| 0 <= i < published(posts).len() ==> !(#[trigger] published(posts)[i]).metadata.draft,
    decreases posts.len(),
{
    if posts.len() > 0 {
        lemma_published_no_drafts(posts.drop_last());
    }
}

/// The text of one source file and where it was found.
#[derive(Clone, Debug)]
pub struct SourceFile {
    pub path: String,
    pub text: String,
}

/// A source that could not be loaded, and why.
#[derive(Clone, Debug)]
pub struct LoadFailure {
    pub path: String,
    pub error: FrontmatterError,
}

/// The source's frontmatter can be read.
pub open spec fn loads(s: SourceFile) -> bool {
    split_document(s.text@) is Ok
}

/// The sources that load, in order.
pub open spec fn loading_sources(sources: Seq<SourceFile>) -> Seq<SourceFile>
    decreases sources.len(),
{
    if sources.len() == 0 {
        Seq::empty()
    } else if loads(sources.last()) {
        loading_sources(sources.drop_last()).push(sources.last())
    } else {
        loading_sources(sources.drop_last())
    }
}

/// The sources that do not load, in order.
pub open spec fn failing_sources(sources: Seq<SourceFile>) -> Seq<SourceFile>
    decreases sources.len(),
{
    if sources.len() == 0 {
        Seq::empty()
    } else if loads(sources.last()) {
        failing_sources(sources.drop_last())
    } else {
        failing_sources(sources.drop_last()).push(sources.last())
    }
}

/// `p` is the post that source `s` loads to: its body, the HTML rendered from
/// it, its path, and metadata that its text gives.
pub open spec fn loaded_post(s: SourceFile, p: Post) -> bool {
    &&& p.content@ == split_document(s.text@)->Ok_0
    &&& p.html_content@ == markdown_html(p.content@)
    &&& p.file_path@ == s.path@
    &&& metadata_of_document(s.text@, p.metadata)
}

/// `posts` are the posts that the loading sources give, one each, in order.
pub open spec fn loaded_posts(sources: Seq<SourceFile>, posts: Seq<Post>) -> bool {
    &&& posts.len() == loading_sources(sources).len()
    &&& forall|k: int| 0 <= k < posts.len() ==> loaded_post(loading_sources(sources)[k], #[trigger] posts[k])
}

/// `failures` name the sources that do not load, in order, each with its
/// reason.
pub open spec fn reported_failures(sources: Seq<SourceFile>, failures: Seq<LoadFailure>) -> bool {
    &&& failures.len() == failing_sources(sources).len()
    &&& forall|k: int|
        0 <= k < failures.len() ==> (#[trigger] failures[k]).path@ == failing_sources(sources)[k].path@
            && split_document(failing_sources(sources)[k].text@) == Err::<Seq<char>, FrontmatterError>(
            failures[k].error,
        )
}

/// Loads every source: the posts of those that load, in order, and a failure
/// for each of the others. One source's failure does not stop the others.
pub fn load_posts(sources: &Vec<SourceFile>) -> (r: (Vec<Post>, Vec<LoadFailure>))
    ensures
        loaded_posts(sources@, r.0@),
        reported_failures(sources@, r.1@),
{
    let mut posts: Vec<Post> = Vec::new();
    let mut failures: Vec<LoadFailure> = Vec::new();
    let mut i: usize = 0;
    while i < sources.len()
        invariant
            i <= sources@.len(),
            loaded_posts(sources@.take(i as int), posts@),
            reported_failures(sources@.take(i as int), failures@),
        decreases sources@.len() - i,
    {
        let ghost done = sources@.take(i as int);
        let ghost next = sources@.take(i + 1);
        assert(next.drop_last() =~= done);
        assert(next.last() == sources@[i as int]);
        let source = &sources[i];
        match process_markdown_content(source.path.as_str(), source.text.as_str()) {
            Ok(post) => {
                let ghost before = posts@;
                posts.push(post);
                assert(loading_sources(next) == loading_sources(done).push(sources@[i as int]));
                assert(failing_sources(next) == failing_sources(done));
                assert forall|k: int| 0 <= k < posts@.len() implies loaded_post(
                    loading_sources(next)[k],
                    #[trigger] posts@[k],
                ) by {
                    if k < before.len() {
                        assert(posts@[k] == before[k]);
                    }
                }
            },
            Err(error) => {
                let ghost before = failures@;
                failures.push(LoadFailure { path: source.path.clone(), error });
                assert(loading_sources(next) == loading_sources(done));
                assert(failing_sources(next) == failing_sources(done).push(sources@[i as int]));
                assert forall|k: int| 0 <= k < failures@.len() implies (#[trigger] failures@[k]).path@
                    == failing_sources(next)[k].path@ && split_document(failing_sources(next)[k].text@)
                    == Err::<Seq<char>, FrontmatterError>(failures@[k].error) by {
                    if k < before.len() {
                        assert(failures@[k] == before[k]);
                    }
                }
            },
        }
        i = i + 1;
    }
    assert(sources@.take(sources@.len() as int) =~= sources@);
    (posts, failures)
}

/// Builds the index of a batch of sources: loads each, reports the ones that
/// fail, and indexes the posts of the others.
pub fn build_index(sources: &Vec<SourceFile>) -> (r: (PostIndex, Vec<LoadFailure>))
    ensures
        exists|posts: Seq<Post>| loaded_posts(sources@, posts) && r.0.built_from(posts),
        reported_failures(sources@, r.1@),
{
    let (posts, failures) = load_posts(sources);
    let ghost loaded = posts@;
    let index = PostIndex::from_posts(posts);
    assert(loaded_posts(sources@, loaded) && index.built_from(loaded));
    (index, failures)
}

} // verus!
