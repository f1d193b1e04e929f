//! GeoJSON coordinate reference system objects and polygons, read from and written to a
//! JSON document tree.
pub mod crs;
pub mod error;
pub mod json;
pub mod poly;
pub mod ring;

pub use crs::Crs;
pub use error::{Error, JsonKind, Property};
pub use json::{Json, JsonObject};
pub use poly::Poly;
pub use ring::Ring;
