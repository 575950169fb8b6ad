//! Parking fees: a tiered hourly tariff with a daily cap, charged one
//! calendar day at a time.

pub mod date;
pub mod fee;
pub mod instant;
pub mod singledayfee;
pub mod time;
