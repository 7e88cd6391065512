use albesjourney::config::{is_debug, Config, Server, World};

fn config_with(debug: bool) -> Config {
    Config {
        server: Server {
            ip: [127, 0, 0, 1],
            port: 7171,
            debug_messages: debug,
            status_message: "Welcome".to_string(),
            message_of_the_day: "Hello".to_string(),
        },
        world: World { map_file: "map.json".to_string() },
    }
}

#[test]
fn debug_follows_the_configuration() {
    assert!(is_debug(Some(&config_with(true))));
    assert!(!is_debug(Some(&config_with(false))));
}

#[test]
fn debug_is_off_without_configuration() {
    assert!(!is_debug(None));
}
