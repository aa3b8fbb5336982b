//! Scene-graph surgery for projectile meshes.
//!
//! A decoded mesh is held as a [`SceneGraph`](store::SceneGraph): an arena of
//! objects addressed by [`Link`](link::Link)s, with a sequence of root links.
//! The engine makes sure that the graph hangs from a single plain grouping
//! node, records a per-category adjustment on each direct child of that node,
//! and puts a marker record at the head of the root's metadata chain.
//!
//! The library holds no floating point. Scalars travel as bit patterns, and an
//! adjustment is recorded on an object rather than computed: whoever encodes
//! the graph again folds the recorded adjustments into the numeric transform.
pub mod content;
pub mod driver;
pub mod error;
pub mod graph;
pub mod link;
pub mod normalize;
pub mod object;
pub mod policy;
pub mod records;
pub mod splice;
pub mod store;
