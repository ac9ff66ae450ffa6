use vstd::prelude::*;

pub mod accounts;
pub mod cms;
pub mod dispatch;
pub mod embedded;
pub mod html;
pub mod items;
pub mod laws;
pub mod json;
pub mod links;
pub mod lists;
pub mod model;
pub mod pages;
pub mod patterns;
pub mod plan;
pub mod ranking;
pub mod requests;
pub mod response;
pub mod search;
pub mod settings;
pub mod sources;
pub mod text;
pub mod xml;
