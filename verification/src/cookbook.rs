//! A cookbook: a list of recipes, each aimed at one diet.

use vstd::prelude::*;
use crate::diet::Diet;

verus! {

/// The mathematical state of a recipe.
#[verifier::ext_equal]
pub ghost struct RecipeView {
    pub name: Seq<char>,
    pub diet: Diet,
}

/// A recipe: a name and the diet it caters to.
pub struct Recipe {
    name: String,
    diet: Diet,
}

impl View for Recipe {
    type V = RecipeView;

    closed spec fn view(&self) -> RecipeView {
        RecipeView { name: self.name@, diet: self.diet }
    }
}

impl Recipe {
    /// A recipe with the given name, for the given diet.
    pub fn new(name: String, diet: Diet) -> (r: Recipe)
        ensures
            r@.name == name@,
            r@.diet == diet,
    {
        Recipe { name, diet }
    }

    /// This recipe's name.
    pub fn name(&self) -> (n: &String)
        ensures
            n@ == self@.name,
    {
        &self.name
    }

    /// The diet this recipe caters to.
    pub fn diet(&self) -> (d: Diet)
        ensures
            d == self@.diet,
    {
        self.diet
    }
}

/// An ordered collection of recipes.
pub struct Cookbook {
    recipes: Vec<Recipe>,
}

impl View for Cookbook {
    type V = Seq<Recipe>;

    closed spec fn view(&self) -> Seq<Recipe> {
        self.recipes@
    }
}

impl Cookbook {
    /// An empty cookbook.
    pub fn new() -> (c: Cookbook)
        ensures
            c@.len() == 0,
    {
        Cookbook { recipes: Vec::new() }
    }

    /// Appends a recipe.
    pub fn add_recipe(&mut self, recipe: Recipe)
        ensures
            final(self)@ == old(self)@.push(recipe),
    {
        self.recipes.push(recipe);
    }

    /// The recipes, in order.
    pub fn recipes(&self) -> (r: &Vec<Recipe>)
        ensures
            r@ == self@,
    {
        &self.recipes
    }
}

} // verus!
