//! The rules of the record stores: what a request to create or change a
//! chef or a recipe stores. The stores themselves are not part of this
//! library; these functions compute the values that are handed to them.

use vstd::prelude::*;
use crate::draft::RecipeDraft;
use crate::security::UserCtx;

verus! {

// ---------------------------------------------------------------------
// Values
// ---------------------------------------------------------------------

/// The fields of a recipe that a request may set.
#[derive(Clone, Debug, Default, PartialEq, Eq)]
pub struct RecipePatch {
    pub title: Option<String>,
    pub header: Option<String>,
    pub steps: Option<Vec<String>>,
    pub ingredients: Option<Vec<String>>,
    pub tags: Option<Vec<String>>,
    pub image_url: Option<String>,
    pub cook_time: Option<String>,
    pub prep_time: Option<String>,
    pub total_time: Option<String>,
}

/// The fields of a chef that a request may set.
#[derive(Clone, Debug, Default, PartialEq, Eq)]
pub struct ChefPatch {
    pub username: Option<String>,
    pub firebase_id: Option<String>,
}

/// A recipe that is about to be stored for the first time.
#[derive(Clone, Debug, PartialEq, Eq)]
pub struct NewRecipe {
    /// The identifier of the chef who owns the recipe.
    pub cid: String,
    pub title: String,
    pub header: String,
    pub steps: Vec<String>,
    pub ingredients: Vec<String>,
    pub tags: Vec<String>,
    pub image_url: String,
    pub cook_time: String,
    pub prep_time: String,
    pub total_time: String,
}

/// A stored recipe, without its time stamps.
#[derive(Clone, Debug, PartialEq, Eq)]
pub struct RecipeRecord {
    pub id: i64,
    /// The identifier of the chef who owns the recipe.
    pub cid: String,
    /// The identifier of the user who changed the recipe last.
    pub mid: Option<String>,
    pub title: String,
    pub header: Option<String>,
    pub ingredients: Option<Vec<String>>,
    pub steps: Option<Vec<String>>,
    pub tags: Option<Vec<String>>,
    pub image_url: Option<String>,
    pub cook_time: Option<String>,
    pub prep_time: Option<String>,
    pub total_time: Option<String>,
}

/// A chef that is about to be stored for the first time.
#[derive(Clone, Debug, PartialEq, Eq)]
pub struct NewChef {
    pub username: String,
    pub firebase_id: String,
}

/// A stored chef, without its time stamps.
#[derive(Clone, Debug, PartialEq, Eq)]
pub struct ChefRecord {
    pub firebase_id: String,
    pub username: Option<String>,
}

/// The rules of the chef store.
pub struct ChefMac;

/// The rules of the recipe store.
pub struct RecipeMac;

/// The errors that the rules of the stores give.
#[derive(Clone, Debug, PartialEq, Eq)]
pub enum Error {
    /// A chef with the same identifier is stored already.
    EntityAlreadyExists,
    /// No entity with the given identifier is stored.
    EntityNotFound(String),
}

// ---------------------------------------------------------------------
// Defaults and merges
// ---------------------------------------------------------------------

/// The text of an optional string; empty where there is none.
pub open spec fn text_or_empty(o: Option<String>) -> Seq<char> {
    match o {
        Some(s) => s@,
        None => Seq::empty(),
    }
}

/// The entries of an optional list; none where there is no list.
pub open spec fn list_or_empty(o: Option<Vec<String>>) -> Seq<Seq<char>> {
    match o {
        Some(v) => v.deep_view(),
        None => Seq::empty(),
    }
}

/// The new text if there is one, else the stored text.
pub open spec fn text_or_stored(new: Option<String>, stored: Option<String>) -> Seq<char> {
    match new {
        Some(s) => s@,
        None => text_or_empty(stored),
    }
}

/// The new list if there is one, else the stored list.
pub open spec fn list_or_stored(new: Option<Vec<String>>, stored: Option<Vec<String>>) -> Seq<
    Seq<char>,
> {
    match new {
        Some(v) => v.deep_view(),
        None => list_or_empty(stored),
    }
}

fn string_or_default(o: Option<String>) -> (s: String)
    ensures
        s@ == text_or_empty(o),
{
    match o {
        Some(s) => s,
        None => String::new(),
    }
}

fn vec_or_default(o: Option<Vec<String>>) -> (v: Vec<String>)
    ensures
        v.deep_view() == list_or_empty(o),
{
    match o {
        Some(v) => v,
        None => {
            let v: Vec<String> = Vec::new();
            proof {
                assert(v.deep_view() =~= Seq::<Seq<char>>::empty());
            }
            v
        },
    }
}

fn string_or_stored(new: Option<String>, stored: Option<String>) -> (s: String)
    ensures
        s@ == text_or_stored(new, stored),
{
    match new {
        Some(s) => s,
        None => string_or_default(stored),
    }
}

fn vec_or_stored(new: Option<Vec<String>>, stored: Option<Vec<String>>) -> (v: Vec<String>)
    ensures
        v.deep_view() == list_or_stored(new, stored),
{
    match new {
        Some(v) => v,
        None => vec_or_default(stored),
    }
}

impl RecipePatch {
    /// The request that stores a draft: each field of the draft that a
    /// recipe has goes into the request as it is.
    pub fn from_draft(draft: RecipeDraft) -> (patch: RecipePatch)
        ensures
            patch.title.deep_view() == draft@.title,
            patch.header.deep_view() == draft@.header,
            patch.image_url.deep_view() == draft@.image_url,
            patch.ingredients is Some && patch.ingredients->0.deep_view() == draft@.ingredients,
            patch.steps is Some && patch.steps->0.deep_view() == draft@.steps,
            patch.tags is Some && patch.tags->0.deep_view() == draft@.tags,
            patch.prep_time.deep_view() == draft@.prep_time,
            patch.cook_time.deep_view() == draft@.cook_time,
            patch.total_time.deep_view() == draft@.total_time,
    {
        RecipePatch {
            title: draft.title,
            header: draft.header,
            steps: Some(draft.steps),
            ingredients: Some(draft.ingredients),
            tags: Some(draft.tags),
            image_url: draft.image_url,
            cook_time: draft.cook_time,
            prep_time: draft.prep_time,
            total_time: draft.total_time,
        }
    }

    /// Whether the request can change the stored recipe: each field that
    /// the request does not give must hold a stored value.
    pub open spec fn applies_to(self, stored: RecipeRecord) -> bool {
        &&& self.header is Some || stored.header is Some
        &&& self.ingredients is Some || stored.ingredients is Some
        &&& self.steps is Some || stored.steps is Some
        &&& self.tags is Some || stored.tags is Some
        &&& self.cook_time is Some || stored.cook_time is Some
        &&& self.prep_time is Some || stored.prep_time is Some
        &&& self.total_time is Some || stored.total_time is Some
    }

    /// Whether the request can change the stored recipe.
    pub fn can_apply_to(&self, stored: &RecipeRecord) -> (r: bool)
        ensures
            r == self.applies_to(*stored),
    {
        (self.header.is_some() || stored.header.is_some()) && (self.ingredients.is_some()
            || stored.ingredients.is_some()) && (self.steps.is_some() || stored.steps.is_some())
            && (self.tags.is_some() || stored.tags.is_some()) && (self.cook_time.is_some()
            || stored.cook_time.is_some()) && (self.prep_time.is_some()
            || stored.prep_time.is_some()) && (self.total_time.is_some()
            || stored.total_time.is_some())
    }
}

impl RecipeMac {
    /// The recipe that a request to create one stores. The caller owns it.
    /// The title must be given; every other field that is not given is
    /// stored empty.
    pub fn create(data: RecipePatch, utx: UserCtx) -> (recipe: NewRecipe)
        requires
            data.title is Some,
        ensures
            recipe.cid@ == utx.user_id@,
            recipe.title@ == data.title->0@,
            recipe.header@ == text_or_empty(data.header),
            recipe.steps.deep_view() == list_or_empty(data.steps),
            recipe.ingredients.deep_view() == list_or_empty(data.ingredients),
            recipe.tags.deep_view() == list_or_empty(data.tags),
            recipe.image_url@ == text_or_empty(data.image_url),
            recipe.cook_time@ == text_or_empty(data.cook_time),
            recipe.prep_time@ == text_or_empty(data.prep_time),
            recipe.total_time@ == text_or_empty(data.total_time),
    {
        NewRecipe {
            cid: utx.user_id,
            title: string_or_default(data.title),
            header: string_or_default(data.header),
            steps: vec_or_default(data.steps),
            ingredients: vec_or_default(data.ingredients),
            tags: vec_or_default(data.tags),
            image_url: string_or_default(data.image_url),
            cook_time: string_or_default(data.cook_time),
            prep_time: string_or_default(data.prep_time),
            total_time: string_or_default(data.total_time),
        }
    }

    /// The recipe that a request to change one stores: each field that the
    /// request gives replaces the stored value, every other field keeps its
    /// stored value. The caller is recorded as the one who changed it. The
    /// owner, the identifier and the image stay as they are.
    pub fn update(stored: RecipeRecord, data: RecipePatch, utx: UserCtx) -> (recipe: RecipeRecord)
        requires
            data.applies_to(stored),
        ensures
            recipe.id == stored.id,
            recipe.cid@ == stored.cid@,
            recipe.mid.deep_view() == Some(utx.user_id@),
            recipe.title@ == (match data.title {
                Some(t) => t@,
                None => stored.title@,
            }),
            recipe.header.deep_view() == Some(text_or_stored(data.header, stored.header)),
            recipe.ingredients.deep_view() == Some(
                list_or_stored(data.ingredients, stored.ingredients),
            ),
            recipe.steps.deep_view() == Some(list_or_stored(data.steps, stored.steps)),
            recipe.tags.deep_view() == Some(list_or_stored(data.tags, stored.tags)),
            recipe.image_url.deep_view() == stored.image_url.deep_view(),
            recipe.cook_time.deep_view() == Some(text_or_stored(data.cook_time, stored.cook_time)),
            recipe.prep_time.deep_view() == Some(text_or_stored(data.prep_time, stored.prep_time)),
            recipe.total_time.deep_view() == Some(
                text_or_stored(data.total_time, stored.total_time),
            ),
    {
        RecipeRecord {
            id: stored.id,
            cid: stored.cid,
            mid: Some(utx.user_id),
            title: match data.title {
                Some(t) => t,
                None => stored.title,
            },
            header: Some(string_or_stored(data.header, stored.header)),
            ingredients: Some(vec_or_stored(data.ingredients, stored.ingredients)),
            steps: Some(vec_or_stored(data.steps, stored.steps)),
            tags: Some(vec_or_stored(data.tags, stored.tags)),
            image_url: stored.image_url,
            cook_time: Some(string_or_stored(data.cook_time, stored.cook_time)),
            prep_time: Some(string_or_stored(data.prep_time, stored.prep_time)),
            total_time: Some(string_or_stored(data.total_time, stored.total_time)),
        }
    }
}

impl ChefMac {
    /// What a lookup of a chef ends in: the chef that was found, or the
    /// error that names the identifier.
    pub fn get(found: Option<ChefRecord>, firebase_id: String) -> (result: Result<
        ChefRecord,
        Error,
    >)
        ensures
            match found {
                Some(chef) => result == Ok::<ChefRecord, Error>(chef),
                None => result matches Err(Error::EntityNotFound(missing)) && missing@
                    == firebase_id@,
            },
    {
        match found {
            Some(chef) => Ok(chef),
            None => Err(Error::EntityNotFound(firebase_id)),
        }
    }

    /// The chef that a request to create one stores. The identifier must be
    /// given. Refused where a chef with this identifier is stored already,
    /// which `already_stored` says.
    pub fn create(data: ChefPatch, already_stored: bool) -> (result: Result<NewChef, Error>)
        requires
            data.firebase_id is Some,
        ensures
            already_stored ==> result == Err::<NewChef, Error>(Error::EntityAlreadyExists),
            !already_stored ==> (result matches Ok(chef) && chef.firebase_id@
                == data.firebase_id->0@ && chef.username@ == text_or_empty(data.username)),
    {
        if already_stored {
            return Err(Error::EntityAlreadyExists);
        }
        Ok(
            NewChef {
                username: string_or_default(data.username),
                firebase_id: string_or_default(data.firebase_id),
            },
        )
    }

    /// The chef that a request to change one stores: the name that the
    /// request gives replaces the stored one; without one the stored name
    /// stays. The identifier stays as it is.
    pub fn update(stored: ChefRecord, data: ChefPatch) -> (chef: ChefRecord)
        requires
            data.username is Some || stored.username is Some,
        ensures
            chef.firebase_id@ == stored.firebase_id@,
            chef.username.deep_view() == Some(text_or_stored(data.username, stored.username)),
    {
        ChefRecord {
            firebase_id: stored.firebase_id,
            username: Some(string_or_stored(data.username, stored.username)),
        }
    }
}

} // verus!
