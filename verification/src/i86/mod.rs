//! The 16-bit processor: its registers and arithmetic (`cpu`, `alu`), the
//! operands of its instructions (`operand`), what the instructions do
//! (`exec`), what they compute (`meaning`) and move (`transfer`) and what
//! holds of them together (`laws`), how programs get into memory (`load`) and
//! how the processor runs them (`run`).

pub mod alu;
pub mod cpu;
pub mod operand;
pub mod exec;
pub mod laws;
pub mod load;
pub mod meaning;
pub mod run;
pub mod transfer;
