[package]
name = "janitor"
version = "0.1.0"
edition = "2021"
publish = false

[dependencies]
async-trait = "=0.1.92"
aws-config = "=1.13.0"
aws-sdk-secretsmanager = "=1.125.0"
aws-sdk-sso = "=1.119.0"
aws-sdk-ssooidc = "=1.121.0"
aws-smithy-runtime-api = { version = "=1.19.2", features = ["client"] }
aws-smithy-types = "=1.9.1"
base64 = "=0.22.1"
block2 = "0.6"
dispatch2 = "0.3"
objc2 = "0.6"
objc2-app-kit = "0.3"
objc2-authentication-services = "0.3"
objc2-foundation = "0.3"
open = "=5.4.5"
rand = "=0.8.8"
secrecy = "=0.10.3"
serde_json = "=1.0.154"
sha2 = "=0.10.9"
thiserror = "=2.0.21"
tokio = { version = "=1.54.1", features = ["macros", "rt", "rt-multi-thread", "net", "io-util", "time", "sync"] }
tracing = "=0.1.44"
uniffi = "=0.29.5"
uuid = { version = "=1.29.0", features = ["v4"] }
zeroize = { version = "=1.9.1", features = ["derive"] }
