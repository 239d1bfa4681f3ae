use crate::buckets::label_positions;
use crate::index::{category_lists, deref_posts, posts_at, slug_lookup, tag_lists, PostIndex};
use crate::markdown::Post;
use crate::text::same_text;
use vstd::prelude::*;

verus! {

/// What the presentation layer holds: the index it reads and the colour theme,
/// `light` or `dark`.
#[derive(Clone, Debug)]
pub struct AppState {
    pub post_index: PostIndex,
    pub theme: String,
}

/// The theme that toggling `theme` gives: `dark` after `light`, else `light`.
pub open spec fn toggled(theme: Seq<char>) -> Seq<char> {
    if theme == "light"@ {
        "dark"@
    } else {
        "light"@
    }
}

impl AppState {
    /// An empty index and the light theme.
    pub fn new() -> (r: Self)
        ensures
            r.post_index.built_from(Seq::empty()),
            r.theme@ == "light"@,
    {
        AppState { post_index: PostIndex::new(), theme: "light".to_owned() }
    }

    /// The first post that `slug` names.
    pub fn get_post_by_slug(&self, slug: &str) -> (r: Option<&Post>)
        ensures
            slug_lookup(
                self.post_index.posts@,
                slug@,
                match r {
                    Some(p) => Some(*p),
                    None => None,
                },
            ),
    {
        self.post_index.get_post_by_slug(slug)
    }

    /// The posts carrying `tag`.
    pub fn get_posts_by_tag(&self, tag: &str) -> (r: Vec<&Post>)
        requires
            self.post_index.wf(),
        ensures
            deref_posts(r@) == posts_at(
                self.post_index.posts@,
                label_positions(tag_lists(self.post_index.posts@), tag@),
            ),
    {
        self.post_index.get_posts_by_tag(tag)
    }

    /// The posts in `category`.
    pub fn get_posts_by_category(&self, category: &str) -> (r: Vec<&Post>)
        requires
            self.post_index.wf(),
        ensures
            deref_posts(r@) == posts_at(
                self.post_index.posts@,
                label_positions(category_lists(self.post_index.posts@), category@),
            ),
    {
        self.post_index.get_posts_by_category(category)
    }

    /// The first `count` posts of the date order.
    pub fn get_recent_posts(&self, count: usize) -> (r: Vec<&Post>)
        requires
            self.post_index.wf(),
        ensures
            deref_posts(r@) == posts_at(
                self.post_index.posts@,
                self.post_index.sorted_by_date@.take(
                    if count < self.post_index.sorted_by_date@.len() {
                        count as int
                    } else {
                        self.post_index.sorted_by_date@.len() as int
                    },
                ),
            ),
    {
        self.post_index.get_recent_posts(count)
    }

    /// Switches between the light and the dark theme.
    pub fn toggle_theme(&mut self)
        ensures
            final(self).theme@ == toggled(old(self).theme@),
            final(self).post_index == old(self).post_index,
    {
        if same_text(self.theme.as_str(), "light") {
            self.theme = "dark".to_owned();
        } else {
            self.theme = "light".to_owned();
        }
    }
}

impl Default for AppState {
    fn default() -> (r: Self)
        ensures
            r.post_index.built_from(Seq::empty()),
            r.theme@ == "light"@,
    {
        Self::new()
    }
}

} // verus!
