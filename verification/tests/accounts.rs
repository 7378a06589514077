use light_compressed_claim::account::Account;
use light_compressed_claim::address::Address;
use light_compressed_claim::error::CustomError;
use light_compressed_claim::instructions::sdk::{
    get_decompress_cpi_accounts, ToAccountInfos, BASE_CPI_ACCOUNT_COUNT,
};
use light_compressed_claim::token::PackedMerkleContext;

fn account(n: u8) -> Account {
    Account { key: Address::new_from_array([n; 32]), is_signer: false, is_writable: true }
}

fn accounts(n: u8) -> Vec<Account> {
    (0..n).map(account).collect()
}

fn context(tree: u8, queue: u8) -> PackedMerkleContext {
    PackedMerkleContext {
        merkle_tree_pubkey_index: tree,
        queue_pubkey_index: queue,
        leaf_index: 0,
        prove_by_index: false,
    }
}

#[test]
fn fixed_accounts_come_from_consecutive_slots() {
    let list = accounts(20);
    let (cpi, remaining) = get_decompress_cpi_accounts(&list, 1, &[context(0, 1)]).unwrap();
    assert_eq!(cpi.fee_payer, account(1));
    assert_eq!(cpi.authority, account(2));
    assert_eq!(cpi.cpi_authority_pda, account(3));
    assert_eq!(cpi.light_system_program, account(4));
    assert_eq!(cpi.registered_program_pda, account(5));
    assert_eq!(cpi.noop_program, account(6));
    assert_eq!(cpi.account_compression_authority, account(7));
    assert_eq!(cpi.account_compression_program, account(8));
    assert_eq!(cpi.self_program, account(9));
    assert_eq!(cpi.token_pool_pda, account(10));
    assert_eq!(cpi.decompress_destination, account(11));
    assert_eq!(cpi.token_program, account(12));
    assert_eq!(cpi.system_program, account(13));
    assert_eq!(cpi.tree_and_queue_accounts, vec![account(14), account(15)]);
    assert_eq!(remaining, &list[16..]);
    assert_eq!(BASE_CPI_ACCOUNT_COUNT, 13);
}

#[test]
fn shared_tree_is_listed_once() {
    let list = accounts(20);
    let (cpi, remaining) =
        get_decompress_cpi_accounts(&list, 1, &[context(0, 1), context(0, 2)]).unwrap();
    assert_eq!(cpi.tree_and_queue_accounts, vec![account(14), account(15), account(16)]);
    let tree = account(14);
    assert_eq!(cpi.tree_and_queue_accounts.iter().filter(|a| **a == tree).count(), 1);
    assert_eq!(remaining, &list[17..]);
}

#[test]
fn queue_that_is_the_tree_is_listed_once() {
    let list = accounts(16);
    let (cpi, remaining) = get_decompress_cpi_accounts(&list, 0, &[context(2, 2)]).unwrap();
    assert_eq!(cpi.tree_and_queue_accounts, vec![account(15)]);
    assert_eq!(remaining, &list[14..]);
}

#[test]
fn accounts_are_listed_where_they_are_first_named() {
    let list = accounts(30);
    let contexts = [context(3, 1), context(1, 3), context(0, 3), context(5, 0)];
    let (cpi, _) = get_decompress_cpi_accounts(&list, 2, &contexts).unwrap();
    assert_eq!(
        cpi.tree_and_queue_accounts,
        vec![account(18), account(16), account(15), account(20)]
    );
    assert_eq!(cpi.to_account_infos().len(), 17);
}

#[test]
fn no_context_needs_no_tree() {
    let list = accounts(14);
    let (cpi, remaining) = get_decompress_cpi_accounts(&list, 1, &[]).unwrap();
    assert!(cpi.tree_and_queue_accounts.is_empty());
    assert!(remaining.is_empty());
    let list = accounts(15);
    let (_, remaining) = get_decompress_cpi_accounts(&list, 1, &[]).unwrap();
    assert_eq!(remaining, &[account(14)]);
}

#[test]
fn missing_tree_account_is_reported() {
    let list = accounts(15);
    assert_eq!(
        get_decompress_cpi_accounts(&list, 1, &[context(0, 1)]),
        Err(CustomError::InsufficientAccounts { needed: 16, available: 15 })
    );
    assert_eq!(
        get_decompress_cpi_accounts(&list, 1, &[context(0, 0), context(9, 0)]),
        Err(CustomError::InsufficientAccounts { needed: 24, available: 15 })
    );
    assert!(get_decompress_cpi_accounts(&list, 1, &[context(0, 0)]).is_ok());
}

#[test]
fn missing_fixed_account_is_reported() {
    let list = accounts(13);
    assert_eq!(
        get_decompress_cpi_accounts(&list, 1, &[]),
        Err(CustomError::InsufficientAccounts { needed: 14, available: 13 })
    );
    assert_eq!(
        get_decompress_cpi_accounts(&[], 0, &[]),
        Err(CustomError::InsufficientAccounts { needed: 13, available: 0 })
    );
    assert!(get_decompress_cpi_accounts(&list, 0, &[]).is_ok());
}

#[test]
fn start_beyond_every_list_is_reported() {
    let list = accounts(20);
    assert_eq!(
        get_decompress_cpi_accounts(&list, usize::MAX, &[context(0, 255)]),
        Err(CustomError::InsufficientAccounts { needed: usize::MAX, available: 20 })
    );
    assert_eq!(
        get_decompress_cpi_accounts(&list, usize::MAX - 269, &[context(0, 255)]),
        Err(CustomError::InsufficientAccounts { needed: usize::MAX, available: 20 })
    );
    assert_eq!(
        get_decompress_cpi_accounts(&list, usize::MAX - 270, &[context(0, 255)]),
        Err(CustomError::InsufficientAccounts { needed: usize::MAX - 1, available: 20 })
    );
}
