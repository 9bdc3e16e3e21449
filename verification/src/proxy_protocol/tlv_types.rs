//! Well-known TLV types.

use vstd::prelude::*;

verus! {

pub const ALPN: u8 = 0x01;

pub const AUTHORITY: u8 = 0x02;

pub const CRC32C: u8 = 0x03;

pub const NOOP: u8 = 0x04;

pub const UNIQUE_ID: u8 = 0x05;

pub const SSL: u8 = 0x20;

pub const SSL_VERSION: u8 = 0x21;

pub const SSL_CN: u8 = 0x22;

pub const SSL_CIPHER: u8 = 0x23;

pub const SSL_SIG_ALG: u8 = 0x24;

pub const SSL_KEY_ALG: u8 = 0x25;

pub const NETNS: u8 = 0x30;

} // verus!
