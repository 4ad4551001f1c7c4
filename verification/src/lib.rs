//! A terminal RSS reader's core: the HTML-to-paragraph renderer, the feed and
//! feed-item model, the screen state machines and the settings and theme rules.

pub mod app;
pub mod channel;
pub mod entities;
pub mod event;
pub mod feed;
pub mod feed_item;
pub mod home;
pub mod html;
pub mod order;
pub mod paragraph;
pub mod paragraph_list;
pub mod settings;
pub mod style;
pub mod text;
pub mod theme;
pub mod view_feed;
pub mod widgets;
