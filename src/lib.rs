pub mod affected;
pub mod encode;
pub mod message;
pub mod pipeline;
pub mod stream;
pub mod web;
