use leakbuster::cmd::delay::countdown_step;
use leakbuster::cmd::delay::delay_exit_code;
use leakbuster::cmd::delay::CountdownStep;
use leakbuster::config::App;
use leakbuster::config::Config;
use leakbuster::config::StartupHook;
use leakbuster::config::TimeHook;

fn one_app_config() -> Config {
    Config {
        apps: vec![App {
            id: "app_id".to_string(),
            cmd: "some_cmd".to_string(),
            args: vec![],
            startup_hooks: vec![],
            time_hooks: vec![],
        }],
    }
}

#[test]
fn get_existent_app() {
    let cfg = one_app_config();
    cfg.get_app("app_id").expect("could not find app by id");
}

#[test]
fn get_nonexistent_app() {
    let cfg = Config { apps: vec![] };
    assert!(cfg.get_app("app_id").is_none());
}

#[test]
fn get_app_returns_the_first_match() {
    let cfg = Config {
        apps: vec![
            App {
                id: "a".to_string(),
                cmd: "first".to_string(),
                args: vec![],
                startup_hooks: vec![StartupHook { cmd: "s".to_string(), args: vec![] }],
                time_hooks: vec![],
            },
            App {
                id: "a".to_string(),
                cmd: "second".to_string(),
                args: vec![],
                startup_hooks: vec![],
                time_hooks: vec![TimeHook {
                    cmd: "t".to_string(),
                    args: vec![],
                    condition_cmd: "c".to_string(),
                    condition_args: vec![],
                }],
            },
        ],
    };
    assert_eq!("first", cfg.get_app("a").unwrap().cmd);
}

#[test]
fn countdown_continues_until_the_deadline() {
    assert_eq!(CountdownStep::Continue { countdown: 2 }, countdown_step(1000, 3500));
    assert_eq!(CountdownStep::Continue { countdown: 0 }, countdown_step(3000, 3500));
    assert_eq!(CountdownStep::Elapsed, countdown_step(3500, 3500));
    assert_eq!(CountdownStep::Elapsed, countdown_step(4000, 3500));
}

#[test]
fn delay_exit_codes() {
    assert_eq!(0, delay_exit_code(false));
    assert_eq!(1, delay_exit_code(true));
}
