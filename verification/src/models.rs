//! Models as the selectors see them.

use crate::text::str_eq;
use vstd::prelude::*;
use vstd::string::*;

verus! {

broadcast use vstd::string::group_string_axioms;

/// A model of a provider.
#[derive(Debug, PartialEq, Eq)]
pub struct Model {
    pub provider: String,
    pub id: String,
    pub name: String,
}

impl Clone for Model {
    fn clone(&self) -> (r: Self)
        ensures
            r == *self,
    {
        Model { provider: self.provider.clone(), id: self.id.clone(), name: self.name.clone() }
    }
}

/// The content of a model.
#[verifier::ext_equal]
pub struct ModelView {
    pub provider: Seq<char>,
    pub id: Seq<char>,
    pub name: Seq<char>,
}

impl View for Model {
    type V = ModelView;

    open spec fn view(&self) -> ModelView {
        ModelView { provider: self.provider@, id: self.id@, name: self.name@ }
    }
}

/// The contents of a list of models.
pub open spec fn model_views(models: Seq<Model>) -> Seq<ModelView> {
    models.map_values(|m: Model| m@)
}

impl ModelView {
    /// The id with the provider before it.
    pub open spec fn full_id(self) -> Seq<char> {
        self.provider + "/"@ + self.id
    }

    /// The name as it ends a search text.
    pub open spec fn name_suffix(self) -> Seq<char> {
        if self.name.len() == 0 {
            Seq::empty()
        } else {
            " "@ + self.name
        }
    }
}

/// Whether both models are there and are the same model of the same provider.
pub open spec fn same_model(a: Option<ModelView>, b: ModelView) -> bool {
    a matches Some(a) && a.id == b.id && a.provider == b.provider
}

/// The content of a model, if there is one.
pub open spec fn model_opt(model: Option<Model>) -> Option<ModelView> {
    match model {
        Some(m) => Some(m@),
        None => None,
    }
}

/// Whether both models are there and are the same model of the same provider.
pub fn models_are_equal(a: &Option<Model>, b: &Model) -> (r: bool)
    ensures
        r == same_model(model_opt(*a), b@),
{
    match a {
        Some(a) => str_eq(a.id.as_str(), b.id.as_str()) && str_eq(
            a.provider.as_str(),
            b.provider.as_str(),
        ),
        None => false,
    }
}

impl Model {
    /// The id with the provider before it.
    pub fn full_id(&self) -> (r: String)
        ensures
            r@ == self@.full_id(),
    {
        self.provider.clone().concat("/").concat(self.id.as_str())
    }

    /// The name as it ends a search text.
    pub fn name_suffix(&self) -> (r: String)
        ensures
            r@ == self@.name_suffix(),
    {
        if self.name.as_str().is_empty() {
            String::new()
        } else {
            " ".to_owned().concat(self.name.as_str())
        }
    }
}

} // verus!
