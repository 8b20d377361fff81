//! The 386/486 processor: registers and descriptor caches (`regs`), flags
//! and arithmetic (`alu`), segmentation (`seg`), paging (`paging`), memory
//! access (`mem`), exceptions and interrupts (`fault`), far transfers
//! (`farxfer`), task switches (`task`), what DOS keeps in the processor
//! (`process`) and how programs get into memory (`load`). What holds of
//! several of them together is in `laws`, `calls`, `keeps` and `saving`; what
//! arithmetic gives as numbers in `arithmetic`, and where programs lie and
//! start in `placing`.
//!
//! Contracts speak of a `Core`, the state of processor and memory. What an
//! operation does is a function from the state before to the state after it
//! and the result, which is a fault where one is raised.

pub mod alu;
pub mod arithmetic;
pub mod calls;
pub mod farxfer;
pub mod fault;
pub mod flags;
pub mod fpu;
pub mod keeps;
pub mod laws;
pub mod load;
pub mod mem;
pub mod names;
pub mod paging;
pub mod placing;
pub mod process;
pub mod regs;
pub mod saving;
pub mod seg;
pub mod state;
pub mod task;
