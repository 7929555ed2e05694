use openby::config::{Config, Tool};
use openby::error::AppError;

fn tool(command: &str, extensions: &[&str]) -> Tool {
    Tool {
        command: command.to_string(),
        extensions: extensions.iter().map(|e| e.to_string()).collect(),
    }
}

fn registry(tools: Vec<Tool>) -> Config {
    Config { version_bits: 0.0f64.to_bits(), tools }
}

fn all_extensions(conf: &Config) -> Vec<String> {
    let mut all = Vec::new();
    for t in &conf.tools {
        for e in &t.extensions {
            all.push(e.clone());
        }
    }
    all
}

fn no_extension_twice(conf: &Config) -> bool {
    let all = all_extensions(conf);
    for i in 0..all.len() {
        for j in 0..all.len() {
            if i != j && all[i] == all[j] {
                return false;
            }
        }
    }
    true
}

#[test]
fn test_new() {
    let conf1 = Config::default();
    let conf2 = Config::default();
    assert_eq!(conf1, conf2);
}

#[test]
fn test_add() {
    let mut conf = Config {
        version_bits: 0.0f64.to_bits(),
        tools: vec![
            Tool {
                command: "cat".to_string(),
                extensions: vec!["txt".to_string(), "log".to_string()],
            },
        ],
    };
    let conf_added_extension = Config {
        version_bits: 0.0f64.to_bits(),
        tools: vec![
            Tool {
                command: "cat".to_string(),
                extensions: vec!["txt".to_string(), "log".to_string(), "new_ext".to_string()],
            },
        ],
    };

    // add same command
    assert_ne!(conf, conf_added_extension);
    conf.add("cat", "new_ext").unwrap();
    assert_eq!(conf, conf_added_extension);

    let conf_added_command = Config {
        version_bits: 0.0f64.to_bits(),
        tools: vec![
            Tool {
                command: "cat".to_string(),
                extensions: vec!["txt".to_string(), "log".to_string(), "new_ext".to_string()],
            },
            Tool {
                command: "new_cmd".to_string(),
                extensions: vec!["xxx".to_string()],
            },
        ],
    };

    // add new command and extension
    assert_ne!(conf, conf_added_command);
    conf.add("new_cmd", "xxx").unwrap();
    assert_eq!(conf, conf_added_command);

    // add same command and extension
    conf.add("new_cmd", "xxx").unwrap();
    assert_eq!(conf, conf_added_command);
}

#[test]
fn test_remove_command() {
    let mut conf = Config {
        version_bits: 0.0f64.to_bits(),
        tools: vec![
            Tool {
                command: "cat".to_string(),
                extensions: vec!["txt".to_string(), "log".to_string()],
            },
            Tool {
                command: "objdump".to_string(),
                extensions: vec!["o".to_string()],
            },
        ],
    };

    // remove_command
    assert!(conf.remove_command("cat").is_ok());
    let conf_expected = Config {
        version_bits: 0.0f64.to_bits(),
        tools: vec![
            Tool {
                command: "objdump".to_string(),
                extensions: vec!["o".to_string()],
            },
        ],
    };
    assert_eq!(conf, conf_expected);

    // remove_command
    assert!(conf.remove_command("objdump").is_ok());
    let conf_expected = Config {
        version_bits: 0.0f64.to_bits(),
        tools: Vec::new(),
    };
    assert_eq!(conf, conf_expected);

    // error occured
    assert!(conf.remove_command("objdump").is_err());
}

#[test]
fn test_remove_extension() {
    let mut conf = Config {
        version_bits: 0.0f64.to_bits(),
        tools: vec![
            Tool {
                command: "cat".to_string(),
                extensions: vec!["txt".to_string(), "log".to_string()],
            },
            Tool {
                command: "objdump".to_string(),
                extensions: vec!["o".to_string()],
            },
        ],
    };

    // remove_command
    assert!(conf.remove_extension("txt").is_ok());
    let conf_expected = Config {
        version_bits: 0.0f64.to_bits(),
        tools: vec![
            Tool {
                command: "cat".to_string(),
                extensions: vec!["log".to_string()],
            },
            Tool {
                command: "objdump".to_string(),
                extensions: vec!["o".to_string()],
            },
        ],
    };
    assert_eq!(conf, conf_expected);

    assert!(conf.remove_extension("o").is_ok());
    let conf_expected = Config {
        version_bits: 0.0f64.to_bits(),
        tools: vec![
            Tool {
                command: "cat".to_string(),
                extensions: vec!["log".to_string()],
            },
        ],
    };
    assert_eq!(conf, conf_expected);

    // error occured
    assert!(conf.remove_extension("o").is_err());
}

#[test]
fn test_get_command() {
    let conf = Config {
        version_bits: 0.0f64.to_bits(),
        tools: vec![
            Tool {
                command: "cat".to_string(),
                extensions: vec!["txt".to_string(), "log".to_string()],
            },
        ],
    };

    assert_eq!(conf.get_command("txt").unwrap(), "cat");
    assert_eq!(conf.get_command("log").unwrap(), "cat");
    assert_eq!(
        conf.get_command("jpg").unwrap_or("none".to_string()),
        "none"
    );
}

#[test]
fn default_is_empty_with_version_zero() {
    let conf = Config::default();
    assert_eq!(conf.version_bits, 0.0f64.to_bits());
    assert!(conf.tools.is_empty());
}

#[test]
fn add_to_empty_creates_one_entry() {
    let mut conf = Config::default();
    assert!(conf.add("cat", "txt").is_ok());
    assert_eq!(conf, registry(vec![tool("cat", &["txt"])]));
}

#[test]
fn add_merges_extensions_of_one_command() {
    let mut conf = Config::default();
    conf.add("cat", "txt").unwrap();
    conf.add("cat", "log").unwrap();
    assert_eq!(conf, registry(vec![tool("cat", &["txt", "log"])]));
}

#[test]
fn add_of_registered_extension_changes_nothing() {
    let mut conf = registry(vec![tool("cat", &["txt"])]);
    assert!(conf.add("other", "txt").is_ok());
    assert_eq!(conf, registry(vec![tool("cat", &["txt"])]));
    assert_eq!(conf.get_command("txt"), Some("cat".to_string()));
}

#[test]
fn add_looks_for_the_extension_in_every_entry_first() {
    let mut conf = registry(vec![tool("cat", &["txt"]), tool("less", &["log"])]);
    conf.add("cat", "log").unwrap();
    assert_eq!(conf, registry(vec![tool("cat", &["txt"]), tool("less", &["log"])]));
    assert_eq!(conf.get_command("log"), Some("less".to_string()));
}

#[test]
fn add_twice_is_add_once() {
    let mut once = registry(vec![tool("cat", &["txt"])]);
    once.add("vim -R", "conf").unwrap();
    let mut twice = registry(vec![tool("cat", &["txt"])]);
    twice.add("vim -R", "conf").unwrap();
    twice.add("vim -R", "conf").unwrap();
    assert_eq!(once, twice);
    assert_eq!(twice, registry(vec![tool("cat", &["txt"]), tool("vim -R", &["conf"])]));
}

#[test]
fn add_joins_the_first_entry_of_the_command() {
    let mut conf = registry(vec![tool("a", &["1"]), tool("b", &["2"]), tool("b", &["3"])]);
    conf.add("b", "4").unwrap();
    assert_eq!(
        conf,
        registry(vec![tool("a", &["1"]), tool("b", &["2", "4"]), tool("b", &["3"])])
    );
}

#[test]
fn adds_never_register_an_extension_twice() {
    let calls = [
        ("cat", "txt"),
        ("cat", "log"),
        ("less", "txt"),
        ("vlc", "mp4"),
        ("cat", "mp4"),
        ("vlc", "mov"),
        ("less", "log"),
        ("cat", "txt"),
        ("mirage", "png"),
    ];
    let mut conf = Config::default();
    for (command, extension) in calls.iter() {
        conf.add(command, extension).unwrap();
        assert!(no_extension_twice(&conf));
        assert!(conf.tools.iter().all(|t| !t.extensions.is_empty()));
    }
    assert_eq!(
        conf,
        registry(vec![
            tool("cat", &["txt", "log"]),
            tool("vlc", &["mp4", "mov"]),
            tool("mirage", &["png"]),
        ])
    );
}

#[test]
fn add_keeps_the_version_stamp() {
    let mut conf = Config { version_bits: 1.5f64.to_bits(), tools: Vec::new() };
    conf.add("cat", "txt").unwrap();
    assert_eq!(f64::from_bits(conf.version_bits), 1.5);
}

#[test]
fn remove_extension_of_single_extension_removes_the_entry() {
    let mut conf = registry(vec![tool("cat", &["txt"])]);
    assert!(conf.remove_extension("txt").is_ok());
    assert_eq!(conf, registry(Vec::new()));
    assert_eq!(conf.get_command("txt"), None);
}

#[test]
fn remove_extension_takes_the_first_occurrence_in_the_last_entry_that_has_it() {
    let mut conf = registry(vec![tool("a", &["x", "y"]), tool("b", &["z", "x", "x"])]);
    conf.remove_extension("x").unwrap();
    assert_eq!(conf, registry(vec![tool("a", &["x", "y"]), tool("b", &["z", "x"])]));
}

#[test]
fn remove_extension_undoes_an_add_that_made_an_entry() {
    let mut conf = registry(vec![tool("cat", &["txt", "log"])]);
    conf.add("objdump", "o").unwrap();
    conf.remove_extension("o").unwrap();
    assert_eq!(conf, registry(vec![tool("cat", &["txt", "log"])]));
}

#[test]
fn remove_command_takes_all_its_extensions() {
    let mut conf = registry(vec![tool("cat", &["txt", "log"]), tool("objdump", &["o"])]);
    conf.remove_command("cat").unwrap();
    assert_eq!(conf.get_command("txt"), None);
    assert_eq!(conf.get_command("log"), None);
    assert_eq!(conf.get_command("o"), Some("objdump".to_string()));
}

#[test]
fn remove_command_takes_the_first_entry_of_the_command() {
    let mut conf = registry(vec![tool("a", &["1"]), tool("b", &["2"]), tool("b", &["3"])]);
    conf.remove_command("b").unwrap();
    assert_eq!(conf, registry(vec![tool("a", &["1"]), tool("b", &["3"])]));
}

#[test]
fn remove_command_of_missing_command_fails_and_changes_nothing() {
    let mut conf = registry(vec![tool("cat", &["txt"])]);
    assert_eq!(
        conf.remove_command("nonexistent"),
        Err(AppError::NotFound("nonexistent command is not registered".to_string()))
    );
    assert_eq!(conf, registry(vec![tool("cat", &["txt"])]));
}

#[test]
fn remove_extension_of_missing_extension_fails_and_changes_nothing() {
    let mut conf = registry(vec![tool("cat", &["txt"])]);
    assert_eq!(
        conf.remove_extension("nonexistent"),
        Err(AppError::NotFound(".nonexistent extension is not registered".to_string()))
    );
    assert_eq!(conf, registry(vec![tool("cat", &["txt"])]));
}

#[test]
fn remove_command_does_not_match_an_extension() {
    let mut conf = registry(vec![tool("cat", &["txt"])]);
    assert!(conf.remove_command("txt").is_err());
    assert!(conf.remove_extension("cat").is_err());
    assert_eq!(conf, registry(vec![tool("cat", &["txt"])]));
}

#[test]
fn get_command_of_unknown_extension_is_none() {
    let conf = registry(vec![tool("cat", &["txt"])]);
    assert_eq!(conf.get_command("unknown_ext"), None);
    assert_eq!(Config::default().get_command("unknown_ext"), None);
    assert_eq!(conf.get_command(""), None);
    assert_eq!(conf.get_command("tx"), None);
    assert_eq!(conf.get_command("TXT"), None);
}

#[test]
fn get_command_gives_the_first_entry_that_has_the_extension() {
    let conf = registry(vec![tool("a", &["x"]), tool("b", &["y", "x"])]);
    assert_eq!(conf.get_command("x"), Some("a".to_string()));
    assert_eq!(conf.get_command("y"), Some("b".to_string()));
}

#[test]
fn get_command_keeps_the_command_line_as_written() {
    let conf = registry(vec![tool("vim  -R", &["conf"])]);
    assert_eq!(conf.get_command("conf"), Some("vim  -R".to_string()));
}

#[test]
fn position_is_that_of_the_first_occurrence() {
    let t = tool("cat", &["txt", "log", "txt"]);
    assert_eq!(t.position("txt"), Some(0));
    assert_eq!(t.position("log"), Some(1));
    assert_eq!(t.position("o"), None);
}

#[test]
fn command_position_is_that_of_the_first_entry() {
    let conf = registry(vec![tool("a", &["1"]), tool("b", &["2"]), tool("b", &["3"])]);
    assert_eq!(conf.command_position("a"), Some(0));
    assert_eq!(conf.command_position("b"), Some(1));
    assert_eq!(conf.command_position("c"), None);
}

#[test]
fn error_words_name_what_is_missing() {
    assert_eq!(
        AppError::missing_command("cat"),
        AppError::NotFound("cat command is not registered".to_string())
    );
    assert_eq!(
        AppError::missing_extension("txt"),
        AppError::NotFound(".txt extension is not registered".to_string())
    );
}
