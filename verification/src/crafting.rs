//! Crafting: an admin registers recipes; a player who owns a recipe's NFT
//! ingredients and is past the recipe's cooldown may craft, succeeding with
//! the recipe's chance: the ingredients are burnt and the output minted.
use std::collections::HashMap;
use vstd::prelude::*;


verus! {

broadcast use vstd::std_specs::hash::group_hash_axioms;

/// An account or contract address, identified by a number.
pub type AccountId = u64;

#[derive(Clone, Copy, Debug, PartialEq, Eq, Structural)]
pub enum CraftingError {
    AlreadyInitialized,
    NotInitialized,
    InvalidSuccessRate,
    InvalidRarity,
    RecipeNotFound,
    RecipeDisabled,
    CooldownActive,
    InvalidIngredients,
    CraftFailed,
}

#[derive(Clone, Copy, Debug, PartialEq, Eq, Structural)]
pub enum Rarity {
    Common,
    Uncommon,
    Rare,
    Epic,
    Legendary,
}

/// A token a recipe consumes: an NFT when `amount` is 1.
#[derive(Clone, Copy, Debug, PartialEq, Eq, Structural)]
pub struct Ingredient {
    pub token_address: AccountId,
    pub token_id: u32,
    pub amount: u32,
}

#[derive(Debug)]
pub struct Recipe {
    pub id: u32,
    pub name: Vec<u8>,
    pub description: Vec<u8>,
    pub ingredients: Vec<Ingredient>,
    pub output_token_address: AccountId,
    pub output_token_id: u32,
    /// Chance of success in percent.
    pub success_rate: u32,
    pub rarity: Rarity,
    pub cooldown_seconds: u64,
    pub enabled: bool,
}

/// What a successful craft asks of other contracts: burn each NFT
/// ingredient (contract, token), then mint `mint_token_id` to `mint_to` on
/// `mint_contract` with the given metadata.
#[derive(Debug)]
pub struct CraftEffects {
    pub burns: Vec<(AccountId, u32)>,
    pub mint_contract: AccountId,
    pub mint_to: AccountId,
    pub mint_token_id: u32,
    pub mint_metadata: Vec<u8>,
}

/// The contract's storage.
pub struct CraftingContract {
    pub admin: Option<AccountId>,
    pub nft_contract: Option<AccountId>,
    pub next_recipe_id: Option<u32>,
    pub recipe_count: Option<u32>,
    pub recipes: HashMap<u32, Recipe>,
    /// Each player's last crafting time.
    pub cooldowns: HashMap<AccountId, u64>,
}

/// The rarity numbered `n` (0 Common .. 4 Legendary).
pub open spec fn spec_rarity(n: u32) -> Option<Rarity> {
    if n == 0 {
        Some(Rarity::Common)
    } else if n == 1 {
        Some(Rarity::Uncommon)
    } else if n == 2 {
        Some(Rarity::Rare)
    } else if n == 3 {
        Some(Rarity::Epic)
    } else if n == 4 {
        Some(Rarity::Legendary)
    } else {
        None
    }
}

pub fn rarity_from_u32(n: u32) -> (r: Option<Rarity>)
    ensures
        r == spec_rarity(n),
{
    match n {
        0 => Some(Rarity::Common),
        1 => Some(Rarity::Uncommon),
        2 => Some(Rarity::Rare),
        3 => Some(Rarity::Epic),
        4 => Some(Rarity::Legendary),
        _ => None,
    }
}

/// The bytes of "Crafted achievement", the metadata of crafted tokens.
pub open spec fn lit_crafted() -> Seq<u8> {
    seq![67, 114, 97, 102, 116, 101, 100, 32, 97, 99, 104, 105, 101, 118, 101, 109, 101, 110, 116]
}

pub fn bytes_crafted() -> (r: Vec<u8>)
    ensures
        r@ == lit_crafted(),
{
    vec![67, 114, 97, 102, 116, 101, 100, 32, 97, 99, 104, 105, 101, 118, 101, 109, 101, 110, 116]
}

/// Whether `player` can use the ingredients, given the owner reported for
/// each (`None` when the query failed): every ingredient is an NFT owned by
/// the player.
pub open spec fn spec_ingredients_ok(player: AccountId, ingredients: Seq<Ingredient>, owners: Seq<Option<AccountId>>) -> bool {
    forall|i: int|
        0 <= i < ingredients.len() ==> (#[trigger] ingredients[i]).amount == 1 && owners[i] == Some(
            player,
        )
}

/// The (contract, token) burns of the NFT ingredients, in order.
pub open spec fn spec_burns(ingredients: Seq<Ingredient>) -> Seq<(AccountId, u32)>
    decreases ingredients.len(),
{
    if ingredients.len() == 0 {
        Seq::empty()
    } else {
        let rest = spec_burns(ingredients.drop_last());
        let last = ingredients.last();
        if last.amount == 1 {
            rest.push((last.token_address, last.token_id))
        } else {
            rest
        }
    }
}

/// Checks the ingredients against the reported owners (one per
/// ingredient): every ingredient must be an NFT owned by `player`
/// (fungible ingredients are not supported).
pub fn validate_ingredients(player: AccountId, ingredients: &Vec<Ingredient>, owners: &Vec<Option<AccountId>>) -> (r: bool)
    requires
        owners.len() == ingredients.len(),
    ensures
        r == spec_ingredients_ok(player, ingredients@, owners@),
{
    let mut i: usize = 0;
    while i < ingredients.len()
        invariant
            i <= ingredients.len(),
            owners.len() == ingredients.len(),
            forall|j: int|
                0 <= j < i ==> (#[trigger] ingredients@[j]).amount == 1 && owners@[j] == Some(player),
        decreases ingredients.len() - i,
    {
        if ingredients[i].amount == 1 {
            match owners[i] {
                Some(o) => {
                    if o != player {
                        return false;
                    }
                },
                None => return false,
            }
        } else {
            return false;
        }
        assert(ingredients@[i as int].amount == 1 && owners@[i as int] == Some(player));
        let ghost old_i = i;
        i = i + 1;
        assert forall|j: int| 0 <= j < i implies (#[trigger] ingredients@[j]).amount == 1
            && owners@[j] == Some(player) by {
            if j < old_i {
            } else {
                assert(j == old_i);
            }
        }
    }
    true
}

impl CraftingContract {
    pub open spec fn spec_cooldown(self, player: AccountId) -> u64 {
        if self.cooldowns@.contains_key(player) {
            self.cooldowns@[player]
        } else {
            0
        }
    }

    pub open spec fn count(self) -> u32 {
        match self.recipe_count {
            Some(n) => n,
            None => 0,
        }
    }

    pub fn new() -> (r: Self)
        ensures
            r.admin is None && r.nft_contract is None && r.next_recipe_id is None
                && r.recipe_count is None,
            r.recipes@ == Map::<u32, Recipe>::empty(),
            r.cooldowns@ == Map::<AccountId, u64>::empty(),
    {
        CraftingContract {
            admin: None,
            nft_contract: None,
            next_recipe_id: None,
            recipe_count: None,
            recipes: HashMap::new(),
            cooldowns: HashMap::new(),
        }
    }

    /// Sets the admin and NFT contract (once); recipe ids start at 1.
    pub fn initialize(&mut self, admin: AccountId, nft_contract: AccountId) -> (r: Result<(), CraftingError>)
        ensures
            r == (if old(self).admin is Some {
                Err(CraftingError::AlreadyInitialized)
            } else {
                Ok(())
            }),
            r.is_err() ==> *final(self) == *old(self),
            r.is_ok() ==> *final(self) == (Self {
                admin: Some(admin),
                nft_contract: Some(nft_contract),
                next_recipe_id: Some(1u32),
                recipe_count: Some(0u32),
                ..*old(self)
            }),
    {
        if self.admin.is_some() {
            return Err(CraftingError::AlreadyInitialized);
        }
        self.admin = Some(admin);
        self.nft_contract = Some(nft_contract);
        self.next_recipe_id = Some(1);
        self.recipe_count = Some(0);
        Ok(())
    }

    /// Registers an enabled recipe under the next id (the host checks the
    /// admin's authorization): the success rate is a percentage and the
    /// rarity 0..=4. Returns the id.
    pub fn register_recipe(
        &mut self,
        name: Vec<u8>,
        description: Vec<u8>,
        ingredients: Vec<Ingredient>,
        output_token_address: AccountId,
        output_token_id: u32,
        success_rate: u32,
        rarity: u32,
        cooldown_seconds: u64,
    ) -> (r: Result<u32, CraftingError>)
        requires
            old(self).next_recipe_id matches Some(n) ==> n < u32::MAX,
            old(self).count() < u32::MAX,
        ensures
            r == (if old(self).admin is None {
                Err(CraftingError::NotInitialized)
            } else if success_rate > 100 {
                Err(CraftingError::InvalidSuccessRate)
            } else if spec_rarity(rarity) is None {
                Err(CraftingError::InvalidRarity)
            } else {
                match old(self).next_recipe_id {
                    Some(id) => Ok(id),
                    None => Err(CraftingError::NotInitialized),
                }
            }),
            r.is_err() ==> *final(self) == *old(self),
            r matches Ok(id) ==> {
                &&& final(self).recipes@ == old(self).recipes@.insert(
                    id,
                    Recipe {
                        id,
                        name,
                        description,
                        ingredients,
                        output_token_address,
                        output_token_id,
                        success_rate,
                        rarity: spec_rarity(rarity)->Some_0,
                        cooldown_seconds,
                        enabled: true,
                    },
                )
                &&& *final(self) == (Self {
                    recipes: final(self).recipes,
                    next_recipe_id: Some((id + 1) as u32),
                    recipe_count: Some((old(self).count() + 1) as u32),
                    ..*old(self)
                })
            },
    {
        if self.admin.is_none() {
            return Err(CraftingError::NotInitialized);
        }
        if success_rate > 100 {
            return Err(CraftingError::InvalidSuccessRate);
        }
        let rarity_enum = match rarity_from_u32(rarity) {
            Some(r) => r,
            None => return Err(CraftingError::InvalidRarity),
        };
        let recipe_id = match self.next_recipe_id {
            Some(n) => n,
            None => return Err(CraftingError::NotInitialized),
        };
        self.recipes.insert(
            recipe_id,
            Recipe {
                id: recipe_id,
                name,
                description,
                ingredients,
                output_token_address,
                output_token_id,
                success_rate,
                rarity: rarity_enum,
                cooldown_seconds,
                enabled: true,
            },
        );
        self.next_recipe_id = Some(recipe_id + 1);
        let count: u32 = match self.recipe_count {
            Some(n) => n,
            None => 0,
        };
        self.recipe_count = Some(count + 1);
        Ok(recipe_id)
    }

    pub fn get_recipe(&self, recipe_id: u32) -> (r: Result<&Recipe, CraftingError>)
        ensures
            r == (if self.recipes@.contains_key(recipe_id) {
                Ok::<&Recipe, CraftingError>(&self.recipes@[recipe_id])
            } else {
                Err::<&Recipe, CraftingError>(CraftingError::RecipeNotFound)
            }),
    {
        match self.recipes.get(&recipe_id) {
            Some(r) => Ok(r),
            None => Err(CraftingError::RecipeNotFound),
        }
    }

    /// The ids 1..=count of the registered recipes.
    pub fn get_all_recipes(&self) -> (r: Vec<u32>)
        ensures
            r@ == Seq::new(self.count() as nat, |i: int| (i + 1) as u32),
    {
        let count: u32 = match self.recipe_count {
            Some(n) => n,
            None => 0,
        };
        let mut r: Vec<u32> = Vec::new();
        let mut i: u32 = 0;
        while i < count
            invariant
                i <= count,
                count == self.count(),
                r@ == Seq::new(i as nat, |j: int| (j + 1) as u32),
            decreases count - i,
        {
            r.push(i + 1);
            i = i + 1;
            assert(r@ =~= Seq::new(i as nat, |j: int| (j + 1) as u32));
        }
        r
    }

    /// Whether `player` owns the NFT ingredients of recipe `recipe_id`,
    /// given the reported owners.
    pub open spec fn owns_ingredients(self, player: AccountId, recipe_id: u32, owners: Seq<Option<AccountId>>) -> bool {
        self.recipes@.contains_key(recipe_id) && spec_ingredients_ok(
            player,
            self.recipes@[recipe_id].ingredients@,
            owners,
        )
    }

    /// The checks before a craft's ingredients are looked at.
    pub open spec fn spec_craft_check(self, now: u64, player: AccountId, recipe_id: u32) -> Result<(), CraftingError> {
        if !self.recipes@.contains_key(recipe_id) {
            Err(CraftingError::RecipeNotFound)
        } else if !self.recipes@[recipe_id].enabled {
            Err(CraftingError::RecipeDisabled)
        } else if now < self.spec_cooldown(player) + self.recipes@[recipe_id].cooldown_seconds {
            Err(CraftingError::CooldownActive)
        } else {
            Ok(())
        }
    }

    /// The cooldown sum can be computed.
    pub open spec fn craft_fits(self, player: AccountId, recipe_id: u32) -> bool {
        self.recipes@.contains_key(recipe_id) ==> self.spec_cooldown(player)
            + self.recipes@[recipe_id].cooldown_seconds <= u64::MAX
    }

    pub fn craft_check(&self, now: u64, player: AccountId, recipe_id: u32) -> (r: Result<(), CraftingError>)
        requires
            self.craft_fits(player, recipe_id),
        ensures
            r == self.spec_craft_check(now, player, recipe_id),
    {
        let (enabled, cooldown) = match self.recipes.get(&recipe_id) {
            Some(r) => (r.enabled, r.cooldown_seconds),
            None => return Err(CraftingError::RecipeNotFound),
        };
        if !enabled {
            return Err(CraftingError::RecipeDisabled);
        }
        let last_craft: u64 = match self.cooldowns.get(&player) {
            Some(t) => *t,
            None => 0,
        };
        if now < last_craft + cooldown {
            return Err(CraftingError::CooldownActive);
        }
        Ok(())
    }

    /// What a craft does once the ingredient check (`ingredients_ok`) and
    /// the draw `roll` (0..100) are known: the checks, then
    /// `InvalidIngredients`; a draw below the success rate succeeds (the
    /// player's cooldown restarts at `now`, the ingredients are burnt and
    /// the output minted to the player); otherwise `CraftFailed` and
    /// nothing changes.
    pub open spec fn spec_craft(
        self,
        new: Self,
        r: Result<CraftEffects, CraftingError>,
        now: u64,
        player: AccountId,
        recipe_id: u32,
        ingredients_ok: bool,
        roll: u64,
    ) -> bool {
        match self.spec_craft_check(now, player, recipe_id) {
            Err(e) => r == Err::<CraftEffects, CraftingError>(e) && new == self,
            Ok(_) => {
                let rc = self.recipes@[recipe_id];
                if !ingredients_ok {
                    r == Err::<CraftEffects, CraftingError>(CraftingError::InvalidIngredients) && new
                        == self
                } else if roll >= rc.success_rate {
                    r == Err::<CraftEffects, CraftingError>(CraftingError::CraftFailed) && new == self
                } else {
                    &&& r matches Ok(fx) && fx.burns@ == spec_burns(rc.ingredients@)
                        && fx.mint_contract == rc.output_token_address && fx.mint_to == player
                        && fx.mint_token_id == rc.output_token_id && fx.mint_metadata@
                        == lit_crafted()
                    &&& new == (Self { cooldowns: new.cooldowns, ..self })
                    &&& new.cooldowns@ == self.cooldowns@.insert(player, now)
                }
            },
        }
    }

    /// A craft whose ingredient check and draw are given.
    pub fn craft_resolve(
        &mut self,
        now: u64,
        player: AccountId,
        recipe_id: u32,
        ingredients_ok: bool,
        roll: u64,
    ) -> (r: Result<CraftEffects, CraftingError>)
        requires
            old(self).craft_fits(player, recipe_id),
        ensures
            old(self).spec_craft(*final(self), r, now, player, recipe_id, ingredients_ok, roll),
    {
        self.craft_check(now, player, recipe_id)?;
        if !ingredients_ok {
            return Err(CraftingError::InvalidIngredients);
        }
        let (rate, out_addr, out_id) = match self.recipes.get(&recipe_id) {
            Some(rc) => (rc.success_rate, rc.output_token_address, rc.output_token_id),
            None => return Err(CraftingError::RecipeNotFound),
        };
        if roll >= rate as u64 {
            return Err(CraftingError::CraftFailed);
        }
        let mut burns: Vec<(AccountId, u32)> = Vec::new();
        match self.recipes.get(&recipe_id) {
            Some(rc) => {
                let mut i: usize = 0;
                while i < rc.ingredients.len()
                    invariant
                        i <= rc.ingredients.len(),
                        burns@ == spec_burns(rc.ingredients@.subrange(0, i as int)),
                    decreases rc.ingredients.len() - i,
                {
                    let ghost pre = rc.ingredients@.subrange(0, i + 1);
                    assert(pre.drop_last() =~= rc.ingredients@.subrange(0, i as int));
                    let ing = rc.ingredients[i];
                    if ing.amount == 1 {
                        burns.push((ing.token_address, ing.token_id));
                    }
                    i = i + 1;
                }
                assert(rc.ingredients@.subrange(0, rc.ingredients.len() as int) =~= rc.ingredients@);
            },
            None => {},
        }
        self.cooldowns.insert(player, now);
        Ok(
            CraftEffects {
                burns,
                mint_contract: out_addr,
                mint_to: player,
                mint_token_id: out_id,
                mint_metadata: bytes_crafted(),
            },
        )
    }

    /// Crafts with recipe `recipe_id` for `player`, given the owner the NFT
    /// contract reported for each ingredient and the success draw `roll`
    /// (a number below 100 from the host's generator). Returns the burns and
    /// the mint to perform.
    pub fn craft(
        &mut self,
        now: u64,
        player: AccountId,
        recipe_id: u32,
        owners: &Vec<Option<AccountId>>,
        roll: u64,
    ) -> (r: Result<CraftEffects, CraftingError>)
        requires
            old(self).craft_fits(player, recipe_id),
            old(self).recipes@.contains_key(recipe_id) ==> owners.len()
                == old(self).recipes@[recipe_id].ingredients.len(),
        ensures
            old(self).spec_craft(
                *final(self),
                r,
                now,
                player,
                recipe_id,
                old(self).owns_ingredients(player, recipe_id, owners@),
                roll,
            ),
    {
        match self.craft_check(now, player, recipe_id) {
            Err(e) => return Err(e),
            Ok(_) => {},
        }
        let ok = match self.recipes.get(&recipe_id) {
            Some(rc) => validate_ingredients(player, &rc.ingredients, owners),
            None => false,
        };
        assert(ok == old(self).owns_ingredients(player, recipe_id, owners@));
        self.craft_resolve(now, player, recipe_id, ok, roll)
    }

    /// A player's last crafting time (0 when none).
    pub fn get_player_cooldown(&self, player: AccountId) -> (r: u64)
        ensures
            r == self.spec_cooldown(player),
    {
        match self.cooldowns.get(&player) {
            Some(t) => *t,
            None => 0,
        }
    }

    /// Enables or disables a recipe (the host checks the admin's
    /// authorization).
    pub fn set_recipe_enabled(&mut self, recipe_id: u32, enabled: bool) -> (r: Result<(), CraftingError>)
        ensures
            r == (if old(self).admin is None {
                Err(CraftingError::NotInitialized)
            } else if !old(self).recipes@.contains_key(recipe_id) {
                Err(CraftingError::RecipeNotFound)
            } else {
                Ok(())
            }),
            r.is_err() ==> *final(self) == *old(self),
            r.is_ok() ==> final(self).recipes@.contains_key(recipe_id) && final(self).recipes@
                == old(self).recipes@.insert(recipe_id, final(self).recipes@[recipe_id])
                && final(self).recipes@[recipe_id] == (Recipe {
                enabled,
                ..old(self).recipes@[recipe_id]
            }) && *final(self) == (Self { recipes: final(self).recipes, ..*old(self) }),
    {
        if self.admin.is_none() {
            return Err(CraftingError::NotInitialized);
        }
        if !self.recipes.contains_key(&recipe_id) {
            return Err(CraftingError::RecipeNotFound);
        }
        let mut rc = match self.recipes.remove(&recipe_id) {
            Some(r) => r,
            None => return Err(CraftingError::RecipeNotFound),
        };
        rc.enabled = enabled;
        self.recipes.insert(recipe_id, rc);
        assert(self.recipes@ =~= old(self).recipes@.insert(recipe_id, self.recipes@[recipe_id]));
        Ok(())
    }
}

/// Crafting respects cooldowns: after a player's successful craft at `now`,
/// every craft by that player of an enabled recipe with cooldown `c` is
/// refused as cooling down until `now + c`.
pub proof fn lemma_cooldown_respected(
    s0: CraftingContract,
    s1: CraftingContract,
    r: Result<CraftEffects, CraftingError>,
    now: u64,
    player: AccountId,
    recipe_id: u32,
    ingredients_ok: bool,
    roll: u64,
    later: u64,
    next_recipe: u32,
)
    requires
        s0.spec_craft(s1, r, now, player, recipe_id, ingredients_ok, roll),
        r is Ok,
        s1.recipes@.contains_key(next_recipe),
        s1.recipes@[next_recipe].enabled,
        later < now + s1.recipes@[next_recipe].cooldown_seconds,
    ensures
        s1.spec_craft_check(later, player, next_recipe) == Err::<(), CraftingError>(CraftingError::CooldownActive),
{
}

} // verus!
