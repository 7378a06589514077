//! Calls to the compressed token program that take tokens out of
//! compression: the accounts such a call needs and the instruction itself.
pub mod accounts;
pub mod decompress;

pub use crate::instructions::sdk::accounts::{
    get_decompress_cpi_accounts, CompressedTokenDecompressCpiAccounts,
    CompressedTokenProgramGetter, ToAccountInfos, BASE_CPI_ACCOUNT_COUNT,
};
pub use crate::instructions::sdk::decompress::{
    decompress, decompress_token_instruction_data, decompress_with_amounts, frame_transfer,
    TRANSFER_DISCRIMINATOR,
};
