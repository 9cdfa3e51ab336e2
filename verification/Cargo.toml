[package]
name = "container_control"
version = "0.1.0"
edition = "2021"
publish = false

[dependencies]
actix-web = "4"
docker-api = "*"
async-trait = "0.1"
