//! Tag numbers of FIX 4.4.

use vstd::prelude::*;

verus! {

pub const ACCOUNT: u32 = 1;
pub const BEGIN_SEQ_NO: u32 = 7;
pub const BEGIN_STRING: u32 = 8;
pub const BODY_LENGTH: u32 = 9;
pub const CHECK_SUM: u32 = 10;
pub const CL_ORD_ID: u32 = 11;
pub const CUM_QTY: u32 = 14;
pub const END_SEQ_NO: u32 = 16;
pub const LAST_PRICE: u32 = 31;
pub const LAST_QTY: u32 = 32;
pub const MSG_SEQ_NUM: u32 = 34;
pub const MSG_TYPE: u32 = 35;
pub const NEW_SEQ_NUM: u32 = 36;
pub const ORDER_ID: u32 = 37;
pub const ORDER_QTY: u32 = 38;
pub const ORD_STATUS: u32 = 39;
pub const ORD_TYPE: u32 = 40;
pub const ORIG_CL_ORD_ID: u32 = 41;
pub const PRICE: u32 = 44;
pub const SENDER_COMP_ID: u32 = 49;
pub const SENDING_TIME: u32 = 52;
pub const SIDE: u32 = 54;
pub const SYMBOL: u32 = 55;
pub const TARGET_COMP_ID: u32 = 56;
pub const TIME_IN_FORCE: u32 = 59;
pub const TRANSACT_TIME: u32 = 60;
pub const RAW_DATA_LENGTH: u32 = 95;
pub const ENCRYPT_METHOD: u32 = 98;
pub const HEART_BT_INT: u32 = 108;
pub const TEST_REQ_ID: u32 = 112;
pub const GAP_FILL_FLAG: u32 = 123;
pub const EXEC_TYPE: u32 = 150;
pub const LEAVES_QTY: u32 = 151;
pub const SECURITY_TYPE: u32 = 167;
pub const EXCHANGE: u32 = 207;

} // verus!
