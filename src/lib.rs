//! A small networked key-value store: the wire protocol (requests, responses,
//! their JSON text and the byte frames that carry them), the in-memory store and
//! the per-connection request/response step.
pub mod frame;
pub mod handler;
pub mod json;
pub mod request;
pub mod response;
pub mod store;

pub use frame::{encode_request, encode_response, frame_text, take_frame, DELIMITER};
pub use handler::{at_end_of_stream, dispatch, handle, Incoming, Outgoing};
pub use request::Request;
pub use response::{Response, ResponseType};
pub use store::Store;
