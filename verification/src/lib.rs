//! Client library for a remote database's query API.
//!
//! The heart of the library is the filter expression model: a recursive,
//! untagged tree of atoms and lists that maps losslessly onto the API's
//! nested-array JSON wire format. Around it sit the query envelope (a
//! builder-constructed request object with defaulted fields), the response
//! envelope, the fixed-shape reply records, and a client that plans
//! token-gated HTTP requests. The network transport itself lives outside
//! this crate; it executes the request plans built here.

pub mod client;
pub mod filter;
pub mod get_data;
pub mod json;
pub mod post_data;
pub mod urls;

pub use client::Client;
pub use client::Error;
pub use client::GetPlan;
pub use client::PostPlan;
pub use filter::DecodeError;
pub use filter::FilterItem;
pub use filter::FilterItems;
pub use filter::FilterView;
pub use json::JsonValue;
pub use json::JsonView;
pub use get_data::AuthInfo;
pub use get_data::UlistItem;
pub use get_data::UlistItems;
pub use get_data::UserStat;
pub use get_data::UserStats;
pub use get_data::VndbStats;
pub use post_data::QueryFormat;
pub use post_data::QueryFormatBuilder;
pub use post_data::ResponseError;
pub use post_data::ResponseFormat;
