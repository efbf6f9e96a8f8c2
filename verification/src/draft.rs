//! The recipe draft and the values that the extractors hand to it.

use vstd::prelude::*;

verus! {

/// Page-level metadata: what the `meta` elements of a page say about it.
#[derive(Clone, Debug, PartialEq, Eq)]
pub struct Metadata {
    pub title: Option<String>,
    pub header: Option<String>,
    pub image_url: Option<String>,
    pub image_height: Option<String>,
    pub image_width: Option<String>,
}

/// The three timings of a recipe.
#[derive(Clone, Debug, PartialEq, Eq)]
pub struct Timings {
    pub prep_time: Option<String>,
    pub cook_time: Option<String>,
    pub total_time: Option<String>,
}

/// A recipe assembled from one page and not yet stored anywhere. The lists
/// are always present: a page without a match gives empty lists, never
/// missing ones.
#[derive(Clone, Debug, PartialEq, Eq)]
pub struct RecipeDraft {
    pub title: Option<String>,
    pub header: Option<String>,
    pub image_url: Option<String>,
    pub image_height: Option<String>,
    pub image_width: Option<String>,
    pub ingredients: Vec<String>,
    pub steps: Vec<String>,
    pub prep_time: Option<String>,
    pub cook_time: Option<String>,
    pub total_time: Option<String>,
    pub tags: Vec<String>,
}

/// The mathematical value of a [`Metadata`].
pub struct MetadataView {
    pub title: Option<Seq<char>>,
    pub header: Option<Seq<char>>,
    pub image_url: Option<Seq<char>>,
    pub image_height: Option<Seq<char>>,
    pub image_width: Option<Seq<char>>,
}

/// The mathematical value of a [`Timings`].
pub struct TimingsView {
    pub prep_time: Option<Seq<char>>,
    pub cook_time: Option<Seq<char>>,
    pub total_time: Option<Seq<char>>,
}

/// The mathematical value of a [`RecipeDraft`].
pub struct RecipeDraftView {
    pub title: Option<Seq<char>>,
    pub header: Option<Seq<char>>,
    pub image_url: Option<Seq<char>>,
    pub image_height: Option<Seq<char>>,
    pub image_width: Option<Seq<char>>,
    pub ingredients: Seq<Seq<char>>,
    pub steps: Seq<Seq<char>>,
    pub prep_time: Option<Seq<char>>,
    pub cook_time: Option<Seq<char>>,
    pub total_time: Option<Seq<char>>,
    pub tags: Seq<Seq<char>>,
}

impl View for Metadata {
    type V = MetadataView;

    open spec fn view(&self) -> MetadataView {
        MetadataView {
            title: self.title.deep_view(),
            header: self.header.deep_view(),
            image_url: self.image_url.deep_view(),
            image_height: self.image_height.deep_view(),
            image_width: self.image_width.deep_view(),
        }
    }
}

impl View for Timings {
    type V = TimingsView;

    open spec fn view(&self) -> TimingsView {
        TimingsView {
            prep_time: self.prep_time.deep_view(),
            cook_time: self.cook_time.deep_view(),
            total_time: self.total_time.deep_view(),
        }
    }
}

impl View for RecipeDraft {
    type V = RecipeDraftView;

    open spec fn view(&self) -> RecipeDraftView {
        RecipeDraftView {
            title: self.title.deep_view(),
            header: self.header.deep_view(),
            image_url: self.image_url.deep_view(),
            image_height: self.image_height.deep_view(),
            image_width: self.image_width.deep_view(),
            ingredients: self.ingredients.deep_view(),
            steps: self.steps.deep_view(),
            prep_time: self.prep_time.deep_view(),
            cook_time: self.cook_time.deep_view(),
            total_time: self.total_time.deep_view(),
            tags: self.tags.deep_view(),
        }
    }
}

/// Metadata with no field set.
pub open spec fn no_metadata() -> MetadataView {
    MetadataView { title: None, header: None, image_url: None, image_height: None, image_width: None }
}

/// Timings with no field set.
pub open spec fn no_timings() -> TimingsView {
    TimingsView { prep_time: None, cook_time: None, total_time: None }
}

/// The draft that holds the given parts and no tags.
pub open spec fn assembled(
    metadata: MetadataView,
    ingredients: Seq<Seq<char>>,
    steps: Seq<Seq<char>>,
    timings: TimingsView,
) -> RecipeDraftView {
    RecipeDraftView {
        title: metadata.title,
        header: metadata.header,
        image_url: metadata.image_url,
        image_height: metadata.image_height,
        image_width: metadata.image_width,
        ingredients,
        steps,
        prep_time: timings.prep_time,
        cook_time: timings.cook_time,
        total_time: timings.total_time,
        tags: Seq::empty(),
    }
}

/// The draft of a page on which nothing was found.
pub open spec fn empty_draft() -> RecipeDraftView {
    assembled(no_metadata(), Seq::empty(), Seq::empty(), no_timings())
}

impl Metadata {
    /// Metadata with no field set.
    pub fn empty() -> (m: Metadata)
        ensures
            m@ == no_metadata(),
    {
        Metadata { title: None, header: None, image_url: None, image_height: None, image_width: None }
    }
}

impl Timings {
    /// Timings with no field set.
    pub fn empty() -> (t: Timings)
        ensures
            t@ == no_timings(),
    {
        Timings { prep_time: None, cook_time: None, total_time: None }
    }
}

impl RecipeDraft {
    /// The draft of a page on which nothing was found: every scalar field
    /// unset, every list empty.
    pub fn empty() -> (draft: RecipeDraft)
        ensures
            draft@ == empty_draft(),
    {
        let ingredients: Vec<String> = Vec::new();
        let steps: Vec<String> = Vec::new();
        proof {
            assert(ingredients.deep_view() =~= Seq::<Seq<char>>::empty());
            assert(steps.deep_view() =~= Seq::<Seq<char>>::empty());
        }
        assemble(Metadata::empty(), ingredients, steps, Timings::empty())
    }
}

/// Merges the outputs of the extractors into one draft. Each part is copied
/// as it is; the tags are empty. Nothing is validated and nothing can fail.
pub fn assemble(
    metadata: Metadata,
    ingredients: Vec<String>,
    steps: Vec<String>,
    timings: Timings,
) -> (draft: RecipeDraft)
    ensures
        draft@ == assembled(metadata@, ingredients.deep_view(), steps.deep_view(), timings@),
{
    let draft = RecipeDraft {
        title: metadata.title,
        header: metadata.header,
        image_url: metadata.image_url,
        image_height: metadata.image_height,
        image_width: metadata.image_width,
        ingredients,
        steps,
        prep_time: timings.prep_time,
        cook_time: timings.cook_time,
        total_time: timings.total_time,
        tags: Vec::new(),
    };
    proof {
        assert(draft.tags.deep_view() =~= Seq::<Seq<char>>::empty());
    }
    draft
}

} // verus!
