//! Supervision of locally hosted game-server processes: the server registry,
//! the process table, JVM launch planning, graceful shutdown and the restart
//! scheduler, stated and proved with Verus.
pub mod model;
pub mod text;
pub mod launch;
pub mod paths;
pub mod java;
pub mod keyed;
pub mod manager;
pub mod scheduler;
pub mod bridge;
pub mod properties;
pub mod logs;
pub mod ports;
