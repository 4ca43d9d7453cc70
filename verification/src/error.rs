use vstd::prelude::*;

verus! {

/// Why a payload, or one of its display items, was refused.
#[allow(non_camel_case_types)]
#[derive(Debug, Clone, Copy, PartialEq, Eq, Structural)]
pub enum ParserError {
    /// A display item was asked for that the payload does not have.
    parser_display_idx_out_of_range,
    /// The text has more pages than a page number can count.
    parser_display_page_out_of_range,
    /// Something failed that has no error of its own.
    parser_unexpected_error,
    /// Fields that may come in any order were not all there.
    parser_unexpected_type,
    /// The input ended early, or an output buffer is too short.
    parser_unexpected_buffer_end,
    /// A value lies outside of its range.
    parser_value_out_of_range,
    /// The name of a contract cannot be read.
    parser_invalid_contract_name,
    /// The version of an address has no character.
    parser_invalid_address_version,
    /// The arguments of a contract call cannot be read.
    parser_invalid_argument_id,
    /// The payload is of no known kind, or has too many arguments.
    parser_invalid_transaction_payload,
    /// The recipient of a token transfer is of no known kind.
    parser_invalid_token_transfer_principal,
}

} // verus!
