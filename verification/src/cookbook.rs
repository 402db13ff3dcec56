//! Recipes and the cookbooks that collect them.

use vstd::prelude::*;
use vstd::std_specs::iter::IteratorSpec;
use std::slice::Iter;
use crate::diet::Diet;

verus! {

/// A recipe as contracts see it.
pub struct RecipeView {
    pub name: Seq<char>,
    pub diet: Diet,
}

/// A dish, and the diet it suits.
#[derive(Debug)]
pub struct Recipe {
    name: String,
    diet: Diet,
}

impl View for Recipe {
    type V = RecipeView;

    closed spec fn view(&self) -> RecipeView {
        RecipeView { name: self.name@, diet: self.diet }
    }
}

impl Recipe {
    /// A recipe of the given name for the given diet.
    pub fn new(name: String, diet: Diet) -> (recipe: Recipe)
        ensures
            recipe@ == (RecipeView { name: name@, diet }),
    {
        Recipe { name, diet }
    }

    /// The name of the dish.
    pub fn name(&self) -> (name: &str)
        ensures
            name@ == self@.name,
    {
        self.name.as_str()
    }

    /// The diet that the dish suits.
    pub fn diet(&self) -> (diet: Diet)
        ensures
            diet == self@.diet,
    {
        self.diet
    }
}

/// Recipes in the order in which they were written down.
#[derive(Debug)]
pub struct Cookbook {
    recipes: Vec<Recipe>,
}

impl View for Cookbook {
    type V = Seq<Recipe>;

    closed spec fn view(&self) -> Seq<Recipe> {
        self.recipes@
    }
}

impl Cookbook {
    /// A cookbook without recipes.
    pub fn new() -> (cookbook: Cookbook)
        ensures
            cookbook@ == Seq::<Recipe>::empty(),
    {
        Cookbook { recipes: Vec::new() }
    }

    /// Writes a recipe down behind all others.
    pub fn add_recipe(&mut self, recipe: Recipe)
        ensures
            final(self)@ == old(self)@.push(recipe),
    {
        self.recipes.push(recipe);
    }

    /// The number of recipes.
    pub fn len(&self) -> (count: usize)
        ensures
            count == self@.len(),
    {
        self.recipes.len()
    }

    /// The recipe at position `index`.
    pub fn recipe(&self, index: usize) -> (recipe: &Recipe)
        requires
            index < self@.len(),
        ensures
            *recipe == self@[index as int],
    {
        &self.recipes[index]
    }

    /// The recipes, first one first.
    pub fn recipes(&self) -> (recipes: Iter<'_, Recipe>)
        ensures
            recipes.remaining().unref() == self@,
    {
        self.recipes.iter()
    }
}

} // verus!
