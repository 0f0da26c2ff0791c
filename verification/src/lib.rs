pub mod io;
pub mod memory;
pub mod threading;
pub mod cpu;
pub mod scheduler;
pub mod interrupts;
pub mod graphics;
pub mod text;
pub mod console;
pub mod parser;
pub mod builtins;
pub mod shell;
pub mod keyboard;
pub mod terminal;
pub mod events;
pub mod serial;
pub mod syscall;
pub mod kernel;
