use casper_liquid::address::Address;
use casper_liquid::amount::U256;
use casper_liquid::error::Error;
use casper_liquid::ledger::CasperLiquid;

fn pool() -> Address {
    Address::new(100)
}

// Helper function to set up a contract with initial balances for testing
fn setup_contract_with_balances(
    sender_balance: u64,
    recipient_balance: u64,
) -> (CasperLiquid, Address, Address) {
    let mut contract = CasperLiquid::init(pool());
    let sender = Address::new(0);
    let recipient = Address::new(1);

    if sender_balance > 0 {
        contract.set_balance_for_testing(&sender, U256::from(sender_balance));
    }
    if recipient_balance > 0 {
        contract.set_balance_for_testing(&recipient, U256::from(recipient_balance));
    }

    (contract, sender, recipient)
}

#[test]
fn test_contract_initialization() {
    let contract = CasperLiquid::init(pool());

    // Test contract deploys with zero total supply
    assert_eq!(contract.total_supply(), U256::zero());

    // Test metadata functions return correct values
    assert_eq!(contract.name(), "Staked CSPR");
    assert_eq!(contract.symbol(), "stCSPR");
    assert_eq!(contract.decimals(), 9);
}

#[test]
fn test_initial_balances() {
    let contract = CasperLiquid::init(pool());
    let user = Address::new(0);

    // Test that initial balance is zero for any address
    assert_eq!(contract.balance_of(&user), U256::zero());
}

#[test]
fn test_metadata_consistency() {
    let contract = CasperLiquid::init(pool());

    // Test that metadata is consistent across multiple calls
    assert_eq!(contract.name(), contract.name());
    assert_eq!(contract.symbol(), contract.symbol());
    assert_eq!(contract.decimals(), contract.decimals());

    // Test that decimals match CSPR (9 decimals)
    assert_eq!(contract.decimals(), 9u8);
}

#[test]
fn test_transfer_insufficient_balance() {
    let (mut contract, sender, recipient) = setup_contract_with_balances(100, 0);

    // Try to transfer more than balance
    let result = contract.transfer(sender, &recipient, U256::from(101));

    // Should fail with insufficient balance error
    assert!(result.is_err());
    match result.unwrap_err() {
        Error::InsufficientBalance => {},
        _ => panic!("Expected InsufficientBalance error"),
    }

    // Balances should remain unchanged
    assert_eq!(contract.balance_of(&sender), U256::from(100));
    assert_eq!(contract.balance_of(&recipient), U256::zero());
}

#[test]
fn test_transfer_zero_amount() {
    let (mut contract, sender, recipient) = setup_contract_with_balances(100, 0);

    // Try to transfer zero amount
    let result = contract.transfer(sender, &recipient, U256::zero());

    // Should fail with invalid amount error
    assert!(result.is_err());
    match result.unwrap_err() {
        Error::InvalidAmount => {},
        _ => panic!("Expected InvalidAmount error"),
    }

    // Balances should remain unchanged
    assert_eq!(contract.balance_of(&sender), U256::from(100));
    assert_eq!(contract.balance_of(&recipient), U256::zero());
}

#[test]
fn test_transfer_to_self() {
    let (mut contract, sender, _recipient) = setup_contract_with_balances(100, 0);

    // Try to transfer to self
    let result = contract.transfer(sender, &sender, U256::from(50));

    // Should fail with self transfer error
    assert!(result.is_err());
    match result.unwrap_err() {
        Error::SelfTransfer => {},
        _ => panic!("Expected SelfTransfer error"),
    }

    // Balance should remain unchanged
    assert_eq!(contract.balance_of(&sender), U256::from(100));
}

#[test]
fn test_approval_mechanism() {
    let (mut contract, owner, spender) = setup_contract_with_balances(100, 0);

    // Initially no allowance
    assert_eq!(contract.allowance(&owner, &spender), U256::zero());

    // Approve spender
    let result = contract.approve(owner, &spender, U256::from(50));
    assert!(result.is_ok());

    // Check allowance was set
    assert_eq!(contract.allowance(&owner, &spender), U256::from(50));

    // Approve different amount (should overwrite)
    let result = contract.approve(owner, &spender, U256::from(75));
    assert!(result.is_ok());
    assert_eq!(contract.allowance(&owner, &spender), U256::from(75));
}

#[test]
fn test_transfer_from_success() {
    let (mut contract, owner, spender) = setup_contract_with_balances(100, 0);
    let recipient = Address::new(2);

    // Owner approves spender
    contract.approve(owner, &spender, U256::from(50)).unwrap();

    // Spender transfers from owner to recipient
    let result = contract.transfer_from(spender, &owner, &recipient, U256::from(30));
    assert!(result.is_ok());

    // Check balances
    assert_eq!(contract.balance_of(&owner), U256::from(70));
    assert_eq!(contract.balance_of(&recipient), U256::from(30));

    // Check remaining allowance
    assert_eq!(contract.allowance(&owner, &spender), U256::from(20));
}

#[test]
fn test_transfer_from_insufficient_allowance() {
    let (mut contract, owner, spender) = setup_contract_with_balances(100, 0);
    let recipient = Address::new(2);

    // Owner approves spender for less than transfer amount
    contract.approve(owner, &spender, U256::from(30)).unwrap();

    // Spender tries to transfer more than allowance
    let result = contract.transfer_from(spender, &owner, &recipient, U256::from(50));

    // Should fail with insufficient allowance
    assert!(result.is_err());
    match result.unwrap_err() {
        Error::InsufficientAllowance => {},
        _ => panic!("Expected InsufficientAllowance error"),
    }

    // Balances should remain unchanged
    assert_eq!(contract.balance_of(&owner), U256::from(100));
    assert_eq!(contract.balance_of(&recipient), U256::zero());
    assert_eq!(contract.allowance(&owner, &spender), U256::from(30));
}

#[test]
fn test_transfer_from_insufficient_balance() {
    let (mut contract, owner, spender) = setup_contract_with_balances(50, 0);
    let recipient = Address::new(2);

    // Owner approves spender for more than balance
    contract.approve(owner, &spender, U256::from(100)).unwrap();

    // Spender tries to transfer more than owner's balance
    let result = contract.transfer_from(spender, &owner, &recipient, U256::from(75));

    // Should fail with insufficient balance
    assert!(result.is_err());
    match result.unwrap_err() {
        Error::InsufficientBalance => {},
        _ => panic!("Expected InsufficientBalance error"),
    }

    // Balances and allowance should remain unchanged
    assert_eq!(contract.balance_of(&owner), U256::from(50));
    assert_eq!(contract.balance_of(&recipient), U256::zero());
    assert_eq!(contract.allowance(&owner, &spender), U256::from(100));
}

#[test]
fn test_stake_zero_amount() {
    let mut contract = CasperLiquid::init(pool());
    let user = Address::new(0);

    // Try to stake zero amount
    let result = contract.stake(user, U256::zero(), 0);

    // Should fail with invalid amount error
    assert!(result.is_err());
    match result.unwrap_err() {
        Error::InvalidAmount => {},
        _ => panic!("Expected InvalidAmount error"),
    }

    // Balance and total supply should remain unchanged
    assert_eq!(contract.balance_of(&user), U256::zero());
    assert_eq!(contract.total_supply(), U256::zero());
}

#[test]
fn test_stake_multiple_users() {
    let mut contract = CasperLiquid::init(pool());
    let user1 = Address::new(0);
    let user2 = Address::new(1);

    // User 1 stakes 100 CSPR
    let result1 = contract.stake(user1, U256::from(100), 0);
    assert!(result1.is_ok());

    // User 2 stakes 200 CSPR
    let result2 = contract.stake(user2, U256::from(200), 0);
    assert!(result2.is_ok());

    // Check individual balances
    assert_eq!(contract.balance_of(&user1), U256::from(100));
    assert_eq!(contract.balance_of(&user2), U256::from(200));

    // Check total supply
    assert_eq!(contract.total_supply(), U256::from(300));
}

#[test]
fn test_stake_accumulation() {
    let mut contract = CasperLiquid::init(pool());
    let user = Address::new(0);

    // Stake multiple times
    contract.stake(user, U256::from(50), 0).unwrap();
    contract.stake(user, U256::from(75), 0).unwrap();
    contract.stake(user, U256::from(25), 0).unwrap();

    // Check accumulated balance
    assert_eq!(contract.balance_of(&user), U256::from(150));
    assert_eq!(contract.total_supply(), U256::from(150));
}

#[test]
fn test_unstake_zero_amount() {
    let mut contract = CasperLiquid::init(pool());
    let user = Address::new(0);

    // First stake some tokens
    contract.stake(user, U256::from(100), 0).unwrap();

    // Try to unstake zero amount
    let result = contract.unstake(user, U256::zero(), 0);

    // Should fail with invalid amount error
    assert!(result.is_err());
    match result.unwrap_err() {
        Error::InvalidAmount => {},
        _ => panic!("Expected InvalidAmount error"),
    }

    // Balance and total supply should remain unchanged
    assert_eq!(contract.balance_of(&user), U256::from(100));
    assert_eq!(contract.total_supply(), U256::from(100));
}

#[test]
fn test_unstake_insufficient_balance() {
    let mut contract = CasperLiquid::init(pool());
    let user = Address::new(0);

    // Stake some tokens
    contract.stake(user, U256::from(50), 0).unwrap();

    // Try to unstake more than balance
    let result = contract.unstake(user, U256::from(75), 0);

    // Should fail with insufficient balance error
    assert!(result.is_err());
    match result.unwrap_err() {
        Error::InsufficientBalance => {},
        _ => panic!("Expected InsufficientBalance error"),
    }

    // Balance and total supply should remain unchanged
    assert_eq!(contract.balance_of(&user), U256::from(50));
    assert_eq!(contract.total_supply(), U256::from(50));
}

#[test]
fn test_unstake_exact_balance() {
    let mut contract = CasperLiquid::init(pool());
    let user = Address::new(0);

    // Stake tokens
    contract.stake(user, U256::from(100), 0).unwrap();

    // Unstake exact balance
    let result = contract.unstake(user, U256::from(100), 0);
    assert!(result.is_ok());

    // Balance should be zero
    assert_eq!(contract.balance_of(&user), U256::zero());
    assert_eq!(contract.total_supply(), U256::zero());
    assert_eq!(contract.contract_cspr_balance(), U256::zero());
}

#[test]
fn test_unstake_partial_balance() {
    let mut contract = CasperLiquid::init(pool());
    let user = Address::new(0);

    // Stake tokens
    contract.stake(user, U256::from(100), 0).unwrap();

    // Unstake partial balance
    let result = contract.unstake(user, U256::from(30), 0);
    assert!(result.is_ok());

    // Check remaining balance
    assert_eq!(contract.balance_of(&user), U256::from(70));
    assert_eq!(contract.total_supply(), U256::from(70));
    assert_eq!(contract.contract_cspr_balance(), U256::from(70));
}

#[test]
fn test_unstake_multiple_users() {
    let mut contract = CasperLiquid::init(pool());
    let user1 = Address::new(0);
    let user2 = Address::new(1);

    // Both users stake
    contract.stake(user1, U256::from(100), 0).unwrap();
    contract.stake(user2, U256::from(200), 0).unwrap();

    // User1 unstakes
    let result = contract.unstake(user1, U256::from(50), 0);
    assert!(result.is_ok());

    // Check balances
    assert_eq!(contract.balance_of(&user1), U256::from(50));
    assert_eq!(contract.balance_of(&user2), U256::from(200));
    assert_eq!(contract.total_supply(), U256::from(250));
    assert_eq!(contract.contract_cspr_balance(), U256::from(250));
}

#[test]
fn test_supply_consistency_validation() {
    let mut contract = CasperLiquid::init(pool());
    let user = Address::new(0);

    // Initially, supply should be consistent (both zero)
    assert!(contract.validate_supply_consistency());

    // After staking, supply should still be consistent
    contract.stake(user, U256::from(100), 0).unwrap();
    assert!(contract.validate_supply_consistency());

    // After unstaking, supply should still be consistent
    contract.unstake(user, U256::from(50), 0).unwrap();
    assert!(contract.validate_supply_consistency());

    // After complete unstaking, supply should still be consistent
    contract.unstake(user, U256::from(50), 0).unwrap();
    assert!(contract.validate_supply_consistency());
}

#[test]
fn test_total_supply_accuracy() {
    let mut contract = CasperLiquid::init(pool());
    let user1 = Address::new(0);
    let user2 = Address::new(1);

    // Initially zero
    assert_eq!(contract.total_supply(), U256::zero());

    // After user1 stakes
    contract.stake(user1, U256::from(100), 0).unwrap();
    assert_eq!(contract.total_supply(), U256::from(100));

    // After user2 stakes
    contract.stake(user2, U256::from(200), 0).unwrap();
    assert_eq!(contract.total_supply(), U256::from(300));

    // After user1 unstakes partially
    contract.unstake(user1, U256::from(30), 0).unwrap();
    assert_eq!(contract.total_supply(), U256::from(270));

    // After user2 unstakes completely
    contract.unstake(user2, U256::from(200), 0).unwrap();
    assert_eq!(contract.total_supply(), U256::from(70));
}

#[test]
fn test_balance_tracking_accuracy() {
    let mut contract = CasperLiquid::init(pool());
    let user1 = Address::new(0);
    let user2 = Address::new(1);
    let user3 = Address::new(2);

    // Initially all balances are zero
    assert_eq!(contract.balance_of(&user1), U256::zero());
    assert_eq!(contract.balance_of(&user2), U256::zero());
    assert_eq!(contract.balance_of(&user3), U256::zero());

    // User1 stakes
    contract.stake(user1, U256::from(100), 0).unwrap();
    assert_eq!(contract.balance_of(&user1), U256::from(100));
    assert_eq!(contract.balance_of(&user2), U256::zero());
    assert_eq!(contract.balance_of(&user3), U256::zero());

    // User2 stakes
    contract.stake(user2, U256::from(200), 0).unwrap();
    assert_eq!(contract.balance_of(&user1), U256::from(100));
    assert_eq!(contract.balance_of(&user2), U256::from(200));
    assert_eq!(contract.balance_of(&user3), U256::zero());

    // User1 transfers to user3
    contract.transfer(user1, &user3, U256::from(30)).unwrap();
    assert_eq!(contract.balance_of(&user1), U256::from(70));
    assert_eq!(contract.balance_of(&user2), U256::from(200));
    assert_eq!(contract.balance_of(&user3), U256::from(30));

    // Verify total supply is still accurate
    assert_eq!(contract.total_supply(), U256::from(300));
    assert!(contract.validate_supply_consistency());
}
