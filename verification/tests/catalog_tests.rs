use skillet::catalog::{Catalog, CatalogError, IngredientId, RecipeStep, ToolId};
use skillet::catalog::standard_catalog;
use skillet::order::ActiveOrder;

fn step(i: usize, t: usize) -> RecipeStep {
    RecipeStep { ingredient: IngredientId(i), tool: ToolId(t) }
}

#[test]
fn standard_catalog_counts() {
    let c = standard_catalog();
    assert_eq!(c.ingredient_names.len(), 19);
    assert_eq!(c.tool_names.len(), 4);
    assert_eq!(c.recipes.len(), 6);
    let lens: Vec<usize> = c.recipes.iter().map(|r| r.steps.len()).collect();
    assert_eq!(lens, vec![1, 3, 7, 5, 3, 1]);
}

#[test]
fn standard_catalog_fried_egg_and_soup() {
    let c = standard_catalog();
    assert_eq!(c.recipes[0].name, "fried_egg");
    assert_eq!(c.recipes[0].steps, vec![step(1, 0)]);
    assert_eq!(c.recipes[1].name, "soup");
    assert_eq!(c.recipes[1].steps, vec![step(15, 2), step(13, 2), step(5, 1)]);
    assert_eq!(c.ingredient_names[1], "egg");
    assert_eq!(c.ingredient_names[15], "potatoes");
    assert_eq!(c.ingredient_names[13], "broth");
    assert_eq!(c.ingredient_names[5], "garlic");
    assert_eq!(c.tool_names, vec!["pan", "knife", "pot", "toaster"]);
}

#[test]
fn add_recipe_accepts_registered_ids() {
    let mut c = Catalog::new();
    let egg = c.add_ingredient("egg".to_string());
    let pan = c.add_tool("pan".to_string());
    let r = c.add_recipe(
        "fried_egg".to_string(),
        vec![RecipeStep { ingredient: egg, tool: pan }],
    );
    assert_eq!(r, Ok(0));
    assert_eq!(c.recipes.len(), 1);
    assert_eq!(c.recipes[0].steps.len(), 1);
}

#[test]
fn add_recipe_rejects_unknown_ingredient() {
    let mut c = Catalog::new();
    let _egg = c.add_ingredient("egg".to_string());
    let _pan = c.add_tool("pan".to_string());
    // step 0 is fine, step 1 names ingredient id 7 which is not registered
    let r = c.add_recipe("bad".to_string(), vec![step(0, 0), step(7, 0)]);
    assert_eq!(r, Err(CatalogError::UnknownIngredient(1)));
    assert_eq!(c.recipes.len(), 0);
}

#[test]
fn add_recipe_rejects_unknown_tool() {
    let mut c = Catalog::new();
    let _egg = c.add_ingredient("egg".to_string());
    let r = c.add_recipe("bad".to_string(), vec![step(0, 3)]);
    assert_eq!(r, Err(CatalogError::UnknownTool(0)));
    assert_eq!(c.recipes.len(), 0);
}

#[test]
fn fresh_order_copies_all_steps() {
    let c = standard_catalog();
    let soup = &c.recipes[1];
    let o = ActiveOrder::start(0, 1, soup);
    assert_eq!(o.remaining, soup.steps);
}

#[test]
fn fresh_order_keeps_duplicate_steps() {
    let mut c = Catalog::new();
    let egg = c.add_ingredient("egg".to_string());
    let pan = c.add_tool("pan".to_string());
    let idx = c
        .add_recipe(
            "double_egg".to_string(),
            vec![
                RecipeStep { ingredient: egg, tool: pan },
                RecipeStep { ingredient: egg, tool: pan },
            ],
        )
        .unwrap();
    let o = ActiveOrder::start(5, idx, &c.recipes[idx]);
    assert_eq!(o.remaining.len(), 2);
    assert_eq!(o.remaining[0], o.remaining[1]);
}
