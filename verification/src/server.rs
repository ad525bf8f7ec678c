use vstd::prelude::*;

verus! {

/// The web server or serverless runtime that a request came from.
#[derive(Debug, Clone, Copy, PartialEq, Eq, PartialOrd, Ord, Structural)]
pub enum Server {
    /// support for [Actix Web](https://actix.rs)
    ActixWeb,
    /// support for [Axum](https://github.com/tokio-rs/axum)
    Axum,
    /// support for [Poem](https://github.com/poem-web/poem)
    Poem,
    /// support for [Rocket](https://rocket.rs)
    Rocket,
    /// support for [Warp](https://github.com/seanmonstar/warp)
    Warp,
    /// support for [AWS Lambda](https://github.com/awslabs/aws-lambda-rust-runtime) & [Netlify functions](https://docs.netlify.com/functions/overview)
    Lambda,
    /// support for [Cloudflare Workers](https://developers.cloudflare.com/workers/)
    CloudflareWorkers,
    /// support for [Tauri](https://tauri.app) custom URI protocols
    Tauri,
    /// support for [Hyper](https://github.com/hyperium/hyper)
    Hyper,
    /// support for [Vercel](https://github.com/vercel-community/rust)
    Vercel,
}

/// The name of each server, as `Server::to_str` gives it.
pub open spec fn server_name(s: Server) -> Seq<char> {
    match s {
        Server::ActixWeb => "actix-web"@,
        Server::Axum => "axum"@,
        Server::Poem => "poem"@,
        Server::Rocket => "rocket"@,
        Server::Warp => "warp"@,
        Server::Lambda => "lambda"@,
        Server::CloudflareWorkers => "workers"@,
        Server::Tauri => "tauri"@,
        Server::Hyper => "hyper"@,
        Server::Vercel => "vercel"@,
    }
}

impl Server {
    /// convert the server into a string
    pub fn to_str(&self) -> (name: &'static str)
        ensures
            name@ == server_name(*self),
    {
        match self {
            Server::ActixWeb => "actix-web",
            Server::Axum => "axum",
            Server::Poem => "poem",
            Server::Rocket => "rocket",
            Server::Warp => "warp",
            Server::Lambda => "lambda",
            Server::CloudflareWorkers => "workers",
            Server::Tauri => "tauri",
            Server::Hyper => "hyper",
            Server::Vercel => "vercel",
        }
    }

    /// check if the server that handled this request supports upgrading the connection to a websocket.
    pub fn supports_websockets(&self) -> (supported: bool)
        ensures
            supported <==> *self == Server::Axum,
    {
        match self {
            Server::Axum => true,
            _ => false,
        }
    }
}

} // verus!
