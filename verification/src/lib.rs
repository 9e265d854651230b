pub mod actions;
pub mod auth;
pub mod catalog;
pub mod clone;
pub mod comfy;
pub mod config;
pub mod controls;
pub mod dashboard;
pub mod download;
pub mod health;
pub mod ids;
pub mod install;
pub mod inventory;
pub mod jobs;
pub mod json;
pub mod laws;
pub mod node_runtime;
pub mod outside;
pub mod packages;
pub mod paths;
pub mod plan;
pub mod python_deps;
pub mod queue;
pub mod screen;
pub mod size;
pub mod state;
pub mod steps;
pub mod storage;
pub mod text;
pub mod workflow;
