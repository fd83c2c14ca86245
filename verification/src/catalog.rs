//! The recipe catalog: ingredient kinds, tool kinds, and the recipes whose
//! steps pair them.
//!
//! Ingredients and tools are registered once at startup and afterwards only
//! referred to by their ids (indices into the registries).  A recipe is an
//! ordered list of (ingredient, tool) steps; a duplicated pair is a distinct
//! obligation.  Registering a recipe that names an unregistered ingredient
//! or tool fails, so a well-formed catalog never holds a dangling id.

use vstd::prelude::*;

verus! {

/// Identity of one ingredient kind: its index in the ingredient registry.
#[derive(Clone, Copy, PartialEq, Eq, Structural, Debug)]
pub struct IngredientId(pub usize);

/// Identity of one processing tool: its index in the tool registry.
#[derive(Clone, Copy, PartialEq, Eq, Structural, Debug)]
pub struct ToolId(pub usize);

/// One required pairing within a recipe: this ingredient must be processed
/// with this tool.
#[derive(Clone, Copy, PartialEq, Eq, Structural, Debug)]
pub struct RecipeStep {
    /// The ingredient the step consumes.
    pub ingredient: IngredientId,
    /// The tool that must process it.
    pub tool: ToolId,
}

/// A named dish and the ordered list of steps that fulfil it.
pub struct Recipe {
    /// Display name of the dish.
    pub name: String,
    /// The steps, in definition order; duplicates are distinct obligations.
    pub steps: Vec<RecipeStep>,
}

/// Why a recipe was refused at registration.
#[derive(Clone, Copy, PartialEq, Eq, Structural, Debug)]
pub enum CatalogError {
    /// The step at this index names an ingredient id that is not registered.
    UnknownIngredient(usize),
    /// The step at this index names a tool id that is not registered.
    UnknownTool(usize),
}

/// The fixed game data: registries of ingredient and tool names, and the
/// recipes defined over them.
pub struct Catalog {
    /// Names of the registered ingredient kinds; an `IngredientId` indexes here.
    pub ingredient_names: Vec<String>,
    /// Names of the registered tool kinds; a `ToolId` indexes here.
    pub tool_names: Vec<String>,
    /// The registered recipes.
    pub recipes: Vec<Recipe>,
}

impl Catalog {
    /// Number of registered ingredient kinds.
    pub open spec fn n_ingredients(self) -> int {
        self.ingredient_names@.len() as int
    }

    /// Number of registered tool kinds.
    pub open spec fn n_tools(self) -> int {
        self.tool_names@.len() as int
    }

    /// Both ids of a step are registered.
    pub open spec fn step_wf(self, s: RecipeStep) -> bool {
        &&& s.ingredient.0 < self.n_ingredients()
        &&& s.tool.0 < self.n_tools()
    }

    /// Every step of the recipe is registered.
    pub open spec fn recipe_wf(self, r: Recipe) -> bool {
        forall|i: int| 0 <= i < r.steps@.len() ==> self.step_wf(#[trigger] r.steps@[i])
    }

    /// No recipe holds a dangling id.
    pub open spec fn wf(self) -> bool {
        forall|k: int| 0 <= k < self.recipes@.len() ==> self.recipe_wf(#[trigger] self.recipes@[k])
    }

    /// An empty catalog, ready for registration.
    pub fn new() -> (c: Catalog)
        ensures
            c.wf(),
            c.n_ingredients() == 0,
            c.n_tools() == 0,
            c.recipes@.len() == 0,
    {
        Catalog { ingredient_names: Vec::new(), tool_names: Vec::new(), recipes: Vec::new() }
    }

    /// Register one ingredient kind and hand back its id.
    pub fn add_ingredient(&mut self, name: String) -> (id: IngredientId)
        ensures
            final(self).ingredient_names@ == old(self).ingredient_names@.push(name),
            final(self).tool_names == old(self).tool_names,
            final(self).recipes == old(self).recipes,
            id.0 == old(self).n_ingredients(),
            old(self).wf() ==> final(self).wf(),
    {
        let id = IngredientId(self.ingredient_names.len());
        self.ingredient_names.push(name);
        id
    }

    /// Register one tool kind and hand back its id.
    pub fn add_tool(&mut self, name: String) -> (id: ToolId)
        ensures
            final(self).tool_names@ == old(self).tool_names@.push(name),
            final(self).ingredient_names == old(self).ingredient_names,
            final(self).recipes == old(self).recipes,
            id.0 == old(self).n_tools(),
            old(self).wf() ==> final(self).wf(),
    {
        let id = ToolId(self.tool_names.len());
        self.tool_names.push(name);
        id
    }

    /// Register a recipe.  Succeeds exactly when every step names a
    /// registered ingredient and tool; otherwise the catalog is unchanged
    /// and the error carries the first offending step.
    pub fn add_recipe(&mut self, name: String, steps: Vec<RecipeStep>) -> (r: Result<
        usize,
        CatalogError,
    >)
        ensures
            final(self).ingredient_names == old(self).ingredient_names,
            final(self).tool_names == old(self).tool_names,
            old(self).wf() ==> final(self).wf(),
            match r {
                Ok(idx) => {
                    &&& forall|i: int|
                        0 <= i < steps@.len() ==> old(self).step_wf(#[trigger] steps@[i])
                    &&& idx == old(self).recipes@.len()
                    &&& final(self).recipes@.len() == old(self).recipes@.len() + 1
                    &&& final(self).recipes@[idx as int].steps@ == steps@
                    &&& final(self).recipes@[idx as int].name == name
                    &&& forall|k: int|
                        0 <= k < old(self).recipes@.len() ==> final(self).recipes@[k] == old(
                            self,
                        ).recipes@[k]
                },
                Err(CatalogError::UnknownIngredient(i)) => {
                    &&& *final(self) == *old(self)
                    &&& i < steps@.len()
                    &&& steps@[i as int].ingredient.0 >= old(self).n_ingredients()
                    &&& forall|j: int| 0 <= j < i ==> old(self).step_wf(#[trigger] steps@[j])
                },
                Err(CatalogError::UnknownTool(i)) => {
                    &&& *final(self) == *old(self)
                    &&& i < steps@.len()
                    &&& steps@[i as int].ingredient.0 < old(self).n_ingredients()
                    &&& steps@[i as int].tool.0 >= old(self).n_tools()
                    &&& forall|j: int| 0 <= j < i ==> old(self).step_wf(#[trigger] steps@[j])
                },
            },
    {
        let mut i: usize = 0;
        while i < steps.len()
            invariant
                i <= steps@.len(),
                forall|j: int| 0 <= j < i ==> self.step_wf(#[trigger] steps@[j]),
                self == old(self),
            decreases steps@.len() - i,
        {
            let s = steps[i];
            if s.ingredient.0 >= self.ingredient_names.len() {
                return Err(CatalogError::UnknownIngredient(i));
            }
            if s.tool.0 >= self.tool_names.len() {
                return Err(CatalogError::UnknownTool(i));
            }
            i = i + 1;
        }
        let idx = self.recipes.len();
        self.recipes.push(Recipe { name, steps });
        Ok(idx)
    }
}

/// The ids under which the standard ingredients are registered, in
/// registration order.
pub open spec fn standard_ingredient_names() -> Seq<Seq<char>> {
    seq![
        "tomato"@,
        "egg"@,
        "bread"@,
        "carrot"@,
        "fish"@,
        "garlic"@,
        "orange"@,
        "nori"@,
        "flour"@,
        "cucumber"@,
        "mayo"@,
        "cabbage"@,
        "ketchup"@,
        "broth"@,
        "cheese"@,
        "potatoes"@,
        "salami"@,
        "meat"@,
        "rice"@,
    ]
}

/// The ids under which the standard tools are registered, in registration
/// order.
pub open spec fn standard_tool_names() -> Seq<Seq<char>> {
    seq!["pan"@, "knife"@, "pot"@, "toaster"@]
}

/// The game data shipped with the game: nineteen ingredient kinds, four
/// tools, and six recipes, from fried egg to sushi, each step pinned to
/// the id its name was registered under.
pub fn standard_catalog() -> (c: Catalog)
    ensures
        c.wf(),
        c.n_ingredients() == 19,
        c.n_tools() == 4,
        forall|i: int|
            0 <= i < 19 ==> (#[trigger] c.ingredient_names@[i])@ == standard_ingredient_names()[i],
        forall|i: int| 0 <= i < 4 ==> (#[trigger] c.tool_names@[i])@ == standard_tool_names()[i],
        c.recipes@.len() == 6,
        c.recipes@[0].name@ == "fried_egg"@,
        c.recipes@[0].steps@.len() == 1,
        c.recipes@[0].steps@[0] == (RecipeStep { ingredient: IngredientId(1), tool: ToolId(0) }),
        c.recipes@[1].name@ == "soup"@,
        c.recipes@[1].steps@.len() == 3,
        c.recipes@[1].steps@[0] == (RecipeStep { ingredient: IngredientId(15), tool: ToolId(2) }),
        c.recipes@[1].steps@[1] == (RecipeStep { ingredient: IngredientId(13), tool: ToolId(2) }),
        c.recipes@[1].steps@[2] == (RecipeStep { ingredient: IngredientId(5), tool: ToolId(1) }),
        c.recipes@[2].name@ == "burger"@,
        c.recipes@[2].steps@.len() == 7,
        c.recipes@[2].steps@[0] == (RecipeStep { ingredient: IngredientId(2), tool: ToolId(3) }),
        c.recipes@[2].steps@[1] == (RecipeStep { ingredient: IngredientId(14), tool: ToolId(1) }),
        c.recipes@[2].steps@[2] == (RecipeStep { ingredient: IngredientId(9), tool: ToolId(1) }),
        c.recipes@[2].steps@[3] == (RecipeStep { ingredient: IngredientId(0), tool: ToolId(1) }),
        c.recipes@[2].steps@[4] == (RecipeStep { ingredient: IngredientId(11), tool: ToolId(1) }),
        c.recipes@[2].steps@[5] == (RecipeStep { ingredient: IngredientId(17), tool: ToolId(0) }),
        c.recipes@[2].steps@[6] == (RecipeStep { ingredient: IngredientId(12), tool: ToolId(1) }),
        c.recipes@[3].name@ == "sandwitch"@,
        c.recipes@[3].steps@.len() == 5,
        c.recipes@[3].steps@[0] == (RecipeStep { ingredient: IngredientId(2), tool: ToolId(3) }),
        c.recipes@[3].steps@[1] == (RecipeStep { ingredient: IngredientId(14), tool: ToolId(1) }),
        c.recipes@[3].steps@[2] == (RecipeStep { ingredient: IngredientId(16), tool: ToolId(1) }),
        c.recipes@[3].steps@[3] == (RecipeStep { ingredient: IngredientId(0), tool: ToolId(1) }),
        c.recipes@[3].steps@[4] == (RecipeStep { ingredient: IngredientId(11), tool: ToolId(1) }),
        c.recipes@[4].name@ == "sushi"@,
        c.recipes@[4].steps@.len() == 3,
        c.recipes@[4].steps@[0] == (RecipeStep { ingredient: IngredientId(7), tool: ToolId(1) }),
        c.recipes@[4].steps@[1] == (RecipeStep { ingredient: IngredientId(4), tool: ToolId(1) }),
        c.recipes@[4].steps@[2] == (RecipeStep { ingredient: IngredientId(18), tool: ToolId(2) }),
        c.recipes@[5].name@ == "orange_cut"@,
        c.recipes@[5].steps@.len() == 1,
        c.recipes@[5].steps@[0] == (RecipeStep { ingredient: IngredientId(6), tool: ToolId(1) }),
{
    broadcast use vstd::string::group_string_axioms;

    let mut c = Catalog::new();

    let tomato = c.add_ingredient("tomato".to_string());
    let egg = c.add_ingredient("egg".to_string());
    let bread = c.add_ingredient("bread".to_string());
    let _carrot = c.add_ingredient("carrot".to_string());
    let fish = c.add_ingredient("fish".to_string());
    let garlic = c.add_ingredient("garlic".to_string());
    let orange = c.add_ingredient("orange".to_string());
    let nori = c.add_ingredient("nori".to_string());
    let _flour = c.add_ingredient("flour".to_string());
    let cucumber = c.add_ingredient("cucumber".to_string());
    let _mayo = c.add_ingredient("mayo".to_string());
    let cabbage = c.add_ingredient("cabbage".to_string());
    let ketchup = c.add_ingredient("ketchup".to_string());
    let broth = c.add_ingredient("broth".to_string());
    let cheese = c.add_ingredient("cheese".to_string());
    let potatoes = c.add_ingredient("potatoes".to_string());
    let salami = c.add_ingredient("salami".to_string());
    let meat = c.add_ingredient("meat".to_string());
    let rice = c.add_ingredient("rice".to_string());

    let pan = c.add_tool("pan".to_string());
    let knife = c.add_tool("knife".to_string());
    let pot = c.add_tool("pot".to_string());
    let toaster = c.add_tool("toaster".to_string());

    let fried_egg = c.add_recipe(
        "fried_egg".to_string(),
        vec![RecipeStep { ingredient: egg, tool: pan }],
    );
    let soup = c.add_recipe(
        "soup".to_string(),
        vec![
            RecipeStep { ingredient: potatoes, tool: pot },
            RecipeStep { ingredient: broth, tool: pot },
            RecipeStep { ingredient: garlic, tool: knife },
        ],
    );
    let burger = c.add_recipe(
        "burger".to_string(),
        vec![
            RecipeStep { ingredient: bread, tool: toaster },
            RecipeStep { ingredient: cheese, tool: knife },
            RecipeStep { ingredient: cucumber, tool: knife },
            RecipeStep { ingredient: tomato, tool: knife },
            RecipeStep { ingredient: cabbage, tool: knife },
            RecipeStep { ingredient: meat, tool: pan },
            RecipeStep { ingredient: ketchup, tool: knife },
        ],
    );
    let sandwich = c.add_recipe(
        "sandwitch".to_string(),
        vec![
            RecipeStep { ingredient: bread, tool: toaster },
            RecipeStep { ingredient: cheese, tool: knife },
            RecipeStep { ingredient: salami, tool: knife },
            RecipeStep { ingredient: tomato, tool: knife },
            RecipeStep { ingredient: cabbage, tool: knife },
        ],
    );
    let sushi = c.add_recipe(
        "sushi".to_string(),
        vec![
            RecipeStep { ingredient: nori, tool: knife },
            RecipeStep { ingredient: fish, tool: knife },
            RecipeStep { ingredient: rice, tool: pot },
        ],
    );
    let orange_cut = c.add_recipe(
        "orange_cut".to_string(),
        vec![RecipeStep { ingredient: orange, tool: knife }],
    );

    if fried_egg.is_err() || soup.is_err() || burger.is_err() || sandwich.is_err()
        || sushi.is_err() || orange_cut.is_err() {
        return vstd::pervasive::unreached();
    }
    c
}

} // verus!
