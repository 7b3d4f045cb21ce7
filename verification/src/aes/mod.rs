//! AES-128 block encryption and the ECB, CBC and CTR modes.
pub mod basic_operations;
pub mod key_msg;
pub mod algor;
pub mod enc_decrypt;
pub mod op_modes;
pub mod gen_key;
