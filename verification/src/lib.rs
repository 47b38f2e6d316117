//! Verified core of a game launcher: library discovery from Steam, Epic and
//! GOG metadata, matching of running windows to installed games, the HTTP
//! API's request routing and payloads, gamepad edge detection and the
//! launcher's navigation state.
pub mod text;
pub mod paths;
pub mod process;
pub mod json;
pub mod epic;
pub mod gog;
pub mod steam;
pub mod webserver;
pub mod gameinput;
pub mod launcher;
