//! Packet description data, and the tree and list models through which an item
//! view browses it: the model of packet sets, packets, fields and bit fields; its
//! view as a tree of nodes with cells; a cache that packs tree paths into integer
//! ids; and the item models that answer a view's questions about rows, parents
//! and cells.
pub mod decimal;
pub mod model;
pub mod pather;
pub mod role;
pub mod tree;
pub mod tree_model;
pub mod viewer;
