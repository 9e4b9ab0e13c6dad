//! The configuration: the two lines, the recipes by name, and which recipe
//! runs when none is asked for.

use vstd::hash_map::StringHashMap;
use vstd::prelude::*;

use crate::pin::PinConfig;
use crate::recipe::{Recipe, RecipeView};

verus! {

/// Why a configuration is rejected.
#[derive(Clone, Copy, Debug, PartialEq, Eq, Structural)]
pub enum ConfigError {
    /// The default recipe is not the name of any recipe.
    UnknownDefaultRecipe,
}

/// A configuration that has been checked: its default recipe is the name of
/// one of its recipes.
pub struct Configuration {
    boot: PinConfig,
    reset: PinConfig,
    default_recipe: String,
    recipes: StringHashMap<Recipe>,
}

/// A table of recipes as plain text.
pub open spec fn recipe_views(recipes: Map<Seq<char>, Recipe>) -> Map<Seq<char>, RecipeView> {
    Map::new(|name: Seq<char>| recipes.contains_key(name), |name: Seq<char>| recipes[name]@)
}

/// The table that a list of named recipes makes up. Where a name occurs more
/// than once, its last recipe stands.
pub open spec fn table_of(entries: Seq<(String, Recipe)>) -> Map<Seq<char>, RecipeView>
    decreases entries.len(),
{
    if entries.len() == 0 {
        Map::empty()
    } else {
        table_of(entries.drop_last()).insert(entries.last().0@, entries.last().1@)
    }
}

/// The recipe that a command line selects from a table.
///
/// No token selects the default recipe. A single token that names a recipe
/// selects that recipe. Anything else, a single token that names none or
/// several tokens, is itself the command to run, with its arguments.
pub open spec fn select(
    table: Map<Seq<char>, RecipeView>,
    default_recipe: Seq<char>,
    tokens: Seq<Seq<char>>,
) -> RecipeView {
    if tokens.len() == 0 {
        table[default_recipe]
    } else if tokens.len() == 1 && table.contains_key(tokens[0]) {
        table[tokens[0]]
    } else {
        Recipe::literal(tokens)
    }
}

impl ConfigError {
    /// The error in words.
    pub fn message(&self) -> (text: String)
        ensures
            text@ == "The default recipe does not match any of the given recipes."@,
    {
        match self {
            ConfigError::UnknownDefaultRecipe => {
                "The default recipe does not match any of the given recipes.".to_owned()
            },
        }
    }
}

impl Configuration {
    #[verifier::type_invariant]
    spec fn default_is_listed(&self) -> bool {
        self.recipes@.contains_key(self.default_recipe@)
    }

    /// The boot-select line.
    pub closed spec fn spec_boot(&self) -> PinConfig {
        self.boot
    }

    /// The reset line.
    pub closed spec fn spec_reset(&self) -> PinConfig {
        self.reset
    }

    /// The name of the recipe that runs when none is asked for.
    pub closed spec fn default_name(&self) -> Seq<char> {
        self.default_recipe@
    }

    /// The recipes by name.
    pub closed spec fn table(&self) -> Map<Seq<char>, RecipeView> {
        recipe_views(self.recipes@)
    }

    /// The recipe that a command line selects.
    pub open spec fn selection(&self, tokens: Seq<Seq<char>>) -> RecipeView {
        select(self.table(), self.default_name(), tokens)
    }

    /// Checks and builds a configuration.
    ///
    /// It is rejected if and only if `default_recipe` is not among the names
    /// in `recipes`. Where a name occurs more than once, its last recipe
    /// stands.
    pub fn new(
        boot: PinConfig,
        reset: PinConfig,
        default_recipe: String,
        recipes: Vec<(String, Recipe)>,
    ) -> (checked: Result<Configuration, ConfigError>)
        ensures
            checked is Ok <==> table_of(recipes@).contains_key(default_recipe@),
            checked matches Ok(config) ==> {
                &&& config.boot() == boot
                &&& config.reset() == reset
                &&& config.default_name() == default_recipe@
                &&& config.table() == table_of(recipes@)
            },
            checked matches Err(error) ==> error == ConfigError::UnknownDefaultRecipe,
    {
        let mut table: StringHashMap<Recipe> = StringHashMap::new();
        let mut i: usize = 0;
        assert(recipe_views(table@) =~= table_of(recipes@.take(0)));
        while i < recipes.len()
            invariant
                i <= recipes.len(),
                recipe_views(table@) == table_of(recipes@.take(i as int)),
            decreases recipes.len() - i,
        {
            let name = recipes[i].0.clone();
            let recipe = recipes[i].1.clone();
            proof {
                let next = recipes@.take(i + 1);
                assert(next.drop_last() =~= recipes@.take(i as int));
                assert(next.last() == recipes@[i as int]);
                assert(recipe_views(table@.insert(name@, recipe)) =~= recipe_views(table@).insert(
                    name@,
                    recipe@,
                ));
            }
            table.insert(name, recipe);
            i = i + 1;
        }
        assert(recipes@.take(i as int) =~= recipes@);
        if table.contains_key(default_recipe.as_str()) {
            Ok(Configuration { boot, reset, default_recipe, recipes: table })
        } else {
            Err(ConfigError::UnknownDefaultRecipe)
        }
    }

    /// The recipe to run for the tokens given on the command line.
    pub fn select_recipe(&self, tokens: Vec<String>) -> (recipe: Recipe)
        ensures
            recipe@ == self.selection(tokens.deep_view()),
            self.table().contains_key(self.default_name()),
    {
        proof {
            use_type_invariant(self);
        }
        if tokens.len() == 0 {
            match self.recipes.get(self.default_recipe.as_str()) {
                Some(recipe) => recipe.clone(),
                None => Recipe::from(tokens),
            }
        } else if tokens.len() == 1 {
            match self.recipes.get(tokens[0].as_str()) {
                Some(recipe) => recipe.clone(),
                None => Recipe::from_tokens(tokens),
            }
        } else {
            Recipe::from_tokens(tokens)
        }
    }

    /// Whether `name` is the name of a recipe.
    pub fn has_recipe(&self, name: &str) -> (listed: bool)
        ensures
            listed == self.table().contains_key(name@),
    {
        self.recipes.contains_key(name)
    }

    /// The boot-select line.
    #[verifier::when_used_as_spec(spec_boot)]
    pub fn boot(&self) -> (boot: PinConfig)
        ensures
            boot == self.spec_boot(),
    {
        self.boot
    }

    /// The reset line.
    #[verifier::when_used_as_spec(spec_reset)]
    pub fn reset(&self) -> (reset: PinConfig)
        ensures
            reset == self.spec_reset(),
    {
        self.reset
    }

    /// The name of the recipe that runs when none is asked for. It is the
    /// name of a recipe.
    pub fn default_recipe(&self) -> (name: &String)
        ensures
            name@ == self.default_name(),
            self.table().contains_key(name@),
    {
        proof {
            use_type_invariant(self);
        }
        &self.default_recipe
    }
}

} // verus!
