use httpz::Server;

const ALL: [Server; 10] = [
    Server::ActixWeb,
    Server::Axum,
    Server::Poem,
    Server::Rocket,
    Server::Warp,
    Server::Lambda,
    Server::CloudflareWorkers,
    Server::Tauri,
    Server::Hyper,
    Server::Vercel,
];

#[test]
fn server_names() {
    let names: Vec<&str> = ALL.iter().map(|s| s.to_str()).collect();
    assert_eq!(
        names,
        vec!["actix-web", "axum", "poem", "rocket", "warp", "lambda", "workers", "tauri", "hyper", "vercel"]
    );
}

#[test]
fn server_names_are_distinct() {
    for a in ALL.iter() {
        for b in ALL.iter() {
            assert_eq!(a == b, a.to_str() == b.to_str());
        }
    }
}

#[test]
fn only_axum_supports_websockets() {
    for s in ALL.iter() {
        assert_eq!(s.supports_websockets(), *s == Server::Axum);
    }
}
