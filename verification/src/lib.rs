//! A dynamic data-access layer between structured query requests and a
//! relational database: a typed value codec, a compiler from query
//! descriptors to SQL text, and the decision rules of a scripted transaction.

pub mod error;
pub mod text;
pub mod value;
pub mod methods;
pub mod scripting;

pub use error::{ErrorKind, MyError};
pub use methods::InsertBody;
pub use value::Value;
pub use value::{JsonMap, OptionalJsonMap};
