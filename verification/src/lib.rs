pub mod ast;
pub mod case;
pub mod docs;
pub mod error;
pub mod files;
pub mod js;
pub mod markdown;
pub mod reach;
pub mod repr;
pub mod resource;
pub mod serde_laws;
pub mod serde_utils;
pub mod text;
pub mod typeinfo;
pub mod util;
pub mod validate;
