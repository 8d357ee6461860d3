//! Typed accessors over a flat store of byte strings.
//!
//! A store maps byte-string keys to byte-string values. Each declared item
//! of state (a single value, a keyed map, an indexed list) owns a region of
//! the key space and reads and writes typed values through a [`Codec`].
//! Every accessor states, over the store seen as a mathematical map, which
//! keys it touches and what it leaves there.

pub mod codec;
pub mod list;
pub mod map;
pub mod memory;
pub mod policy;
pub mod schema;
pub mod storage;
pub mod value;

pub use codec::Codec;
pub use list::StorageList;
pub use map::StorageMap;
pub use memory::MemoryStorage;
pub use policy::{Defaulted, Optional, QueryPolicy, Required};
pub use schema::{
    default_key, store_metadata, QueryKind, StorageDeclaration, StorageFunctionMetadata,
    StorageFunctionModifier, StorageFunctionType, StorageMetadata,
};
pub use storage::Storage;
pub use value::StorageValue;
