//! Driver core for the ENC28J60, an SPI-attached Ethernet controller with an
//! integrated MAC and PHY, written for a microcontroller without heap or
//! operating system.
//!
//! The crate turns logical control-register reads and writes, and the chip
//! initialization sequence, into correctly ordered and encoded SPI bus
//! transactions.  It honours the two hardware constraints of the chip:
//! register addresses are bank-relative, so a bank-select instruction must be
//! issued whenever the target bank changes, and after reset the oscillator
//! needs time to stabilize, during which ordinary register traffic is gated
//! behind a readiness poll.
//!
//! The physical bus transport is not here: a caller polls the driver for the
//! next pending transaction, executes it under one continuous chip-select
//! assertion, and feeds the completed transaction back so the driver can
//! observe read results.

pub mod address_space;
pub mod driver;
pub mod operations;
pub mod registers;
pub mod storage;
pub mod transactions;

pub use driver::Enc28j60;
pub use driver::ErxRange;
pub use operations::ControlRegisterOperation;
pub use registers::Bank;
pub use registers::ControlRegister;
pub use registers::RegisterAddress;
pub use transactions::TransactionError;
pub use transactions::Transactions;
