use puzzle_contracts::crafting::{validate_ingredients, CraftingContract, CraftingError, Ingredient, Rarity};

const ADMIN: u64 = 1;
const NFT: u64 = 2;
const PLAYER: u64 = 3;
const OTHER: u64 = 4;

fn setup_crafting() -> CraftingContract {
    let mut c = CraftingContract::new();
    c.initialize(ADMIN, NFT).unwrap();
    c
}

fn nft(token_id: u32) -> Ingredient {
    Ingredient { token_address: NFT, token_id, amount: 1 }
}

#[test]
fn lib_test_initialize() {
    let mut c = setup_crafting();
    assert_eq!(c.get_all_recipes().len(), 0);
    assert_eq!(c.initialize(ADMIN, NFT), Err(CraftingError::AlreadyInitialized));
}

#[test]
fn test_register_recipe() {
    let mut c = setup_crafting();
    let recipe_id = c
        .register_recipe(
            b"Epic Sword".to_vec(),
            b"A powerful sword crafted from rare materials".to_vec(),
            vec![nft(1), nft(2)],
            NFT,
            100,
            80,
            3,
            3600,
        )
        .unwrap();
    assert_eq!(recipe_id, 1);
    let recipe = c.get_recipe(recipe_id).unwrap();
    assert_eq!(recipe.name, b"Epic Sword".to_vec());
    assert_eq!(recipe.success_rate, 80);
    assert_eq!(recipe.ingredients.len(), 2);
    assert_eq!(recipe.rarity, Rarity::Epic);
}

#[test]
fn test_craft_success() {
    let mut c = setup_crafting();
    let recipe_id = c
        .register_recipe(b"Epic Sword".to_vec(), b"A powerful sword".to_vec(), vec![nft(1), nft(2)], NFT, 100, 100, 3, 0)
        .unwrap();
    assert_eq!(recipe_id, 1);
    assert_eq!(c.get_recipe(recipe_id).unwrap().success_rate, 100);
    let fx = c.craft_resolve(50, PLAYER, recipe_id, true, 99).unwrap();
    assert_eq!(fx.burns, vec![(NFT, 1), (NFT, 2)]);
    assert_eq!(fx.mint_to, PLAYER);
    assert_eq!(fx.mint_token_id, 100);
    assert_eq!(fx.mint_metadata, b"Crafted achievement".to_vec());
    assert_eq!(c.get_player_cooldown(PLAYER), 50);
}

#[test]
fn test_recipe_discovery() {
    let mut c = setup_crafting();
    for i in 0..3u32 {
        let name = format!("Recipe {}", i).into_bytes();
        c.register_recipe(name, b"Description".to_vec(), vec![nft(i + 1)], NFT, 100, 80, i % 5, 3600).unwrap();
    }
    assert_eq!(c.get_all_recipes(), vec![1, 2, 3]);
}

#[test]
fn test_craft_failure() {
    let mut c = setup_crafting();
    let recipe_id = c
        .register_recipe(b"Impossible Item".to_vec(), b"Cannot be crafted".to_vec(), vec![nft(1)], NFT, 200, 0, 4, 0)
        .unwrap();
    assert_eq!(recipe_id, 1);
    assert_eq!(c.get_recipe(recipe_id).unwrap().success_rate, 0);
    assert_eq!(c.craft_resolve(0, PLAYER, recipe_id, true, 0).unwrap_err(), CraftingError::CraftFailed);
    assert_eq!(c.get_player_cooldown(PLAYER), 0);
}

#[test]
fn test_cooldown() {
    let mut c = setup_crafting();
    let recipe_id = c
        .register_recipe(b"Cooldown Item".to_vec(), b"Has cooldown".to_vec(), vec![nft(1)], NFT, 200, 100, 1, 60)
        .unwrap();
    assert_eq!(c.get_recipe(recipe_id).unwrap().cooldown_seconds, 60);
    c.craft_resolve(100, PLAYER, recipe_id, true, 0).unwrap();
    assert_eq!(c.craft_resolve(159, PLAYER, recipe_id, true, 0).unwrap_err(), CraftingError::CooldownActive);
    assert!(c.craft_resolve(160, PLAYER, recipe_id, true, 0).is_ok());
}

#[test]
fn registration_and_craft_errors() {
    let mut c = CraftingContract::new();
    assert_eq!(
        c.register_recipe(vec![], vec![], vec![], NFT, 1, 50, 1, 0).unwrap_err(),
        CraftingError::NotInitialized
    );
    let mut c = setup_crafting();
    assert_eq!(c.register_recipe(vec![], vec![], vec![], NFT, 1, 101, 1, 0).unwrap_err(), CraftingError::InvalidSuccessRate);
    assert_eq!(c.register_recipe(vec![], vec![], vec![], NFT, 1, 50, 5, 0).unwrap_err(), CraftingError::InvalidRarity);
    let id = c.register_recipe(vec![], vec![], vec![nft(1)], NFT, 1, 50, 0, 0).unwrap();
    assert_eq!(c.craft_resolve(0, PLAYER, 9, true, 0).unwrap_err(), CraftingError::RecipeNotFound);
    assert_eq!(c.craft_resolve(0, PLAYER, id, false, 0).unwrap_err(), CraftingError::InvalidIngredients);
    c.set_recipe_enabled(id, false).unwrap();
    assert_eq!(c.craft_resolve(0, PLAYER, id, true, 0).unwrap_err(), CraftingError::RecipeDisabled);
}

#[test]
fn ingredients_must_be_owned_nfts() {
    let ings = vec![nft(1), nft(2)];
    assert!(validate_ingredients(PLAYER, &ings, &vec![Some(PLAYER), Some(PLAYER)]));
    assert!(!validate_ingredients(PLAYER, &ings, &vec![Some(PLAYER), Some(OTHER)]));
    assert!(!validate_ingredients(PLAYER, &ings, &vec![Some(PLAYER), None]));
    let fungible = vec![Ingredient { token_address: NFT, token_id: 1, amount: 2 }];
    assert!(!validate_ingredients(PLAYER, &fungible, &vec![Some(PLAYER)]));
}

#[test]
fn crafting_uses_the_draw() {
    let mut c = setup_crafting();
    let sure = c
        .register_recipe(b"Sure".to_vec(), b"always works".to_vec(), vec![nft(1)], NFT, 100, 100, 1, 0)
        .unwrap();
    let half = c
        .register_recipe(b"Half".to_vec(), b"works half the time".to_vec(), vec![nft(2)], NFT, 101, 50, 1, 0)
        .unwrap();
    let owners = vec![Some(PLAYER)];
    let fx = c.craft(10, PLAYER, sure, &owners, 99).unwrap();
    assert_eq!((fx.mint_to, fx.mint_token_id), (PLAYER, 100));
    assert_eq!(fx.burns, vec![(NFT, 1)]);
    assert_eq!(c.craft(20, PLAYER, half, &owners, 50).unwrap_err(), CraftingError::CraftFailed);
    let fx = c.craft(30, PLAYER, half, &owners, 49).unwrap();
    assert_eq!(fx.mint_token_id, 101);
    assert_eq!(c.craft(40, PLAYER, half, &vec![Some(OTHER)], 0).unwrap_err(), CraftingError::InvalidIngredients);
}
