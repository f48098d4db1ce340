//! The logic of an OpenAI-compatible gateway in front of the chat3 service.

pub mod chat3;
pub mod config;
pub mod gateway;
pub mod json;
pub mod openai;
pub mod plan;
pub mod planner;
pub mod planning_laws;
pub mod reasoning;
pub mod relay;
pub mod reply;
pub mod sse;
pub mod text;
pub mod views;
pub mod wire;
