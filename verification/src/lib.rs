pub mod apiserver;
pub mod ip;
pub mod machinectl;
pub mod order;
pub mod paths;
pub mod resources;
pub mod text;
pub mod block;
pub mod config;
pub mod controllers;
pub mod cri;
pub mod imager;
