pub mod addr;
pub mod chars;
pub mod cli;
pub mod ident;
pub mod lifecycle;
pub mod mcp;
pub mod pidparse;
pub mod probe;
pub mod profiles;
pub mod quote;
pub mod scan;
pub mod settings;
pub mod shutdown;
pub mod terminate;
pub mod time;
pub mod usagestats;
pub mod wire;
