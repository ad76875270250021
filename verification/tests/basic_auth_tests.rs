use http_server::auth::{extract_basic_auth_folders, process_basic_auth};
use http_server::config::{AuthMode, BasicAuthCommand, NoneAuthCommand, RunCommand};

#[test]
fn when_extract_basic_auth_folders_should_extract_folders() {
    let str = &"/tmp/mdm-reports, /tmp/data ".to_string();
    let auth_folders = extract_basic_auth_folders(str);
    assert_eq!(auth_folders.len(), 2);
    assert_eq!(auth_folders[0], "/tmp/mdm-reports");
    assert_eq!(auth_folders[1], "/tmp/data");
}

#[test]
fn when_process_basic_auth_should_not_process() {
    let uri = "/mdm-reports".to_string();
    let run_cmd = RunCommand {
        auth_mode: AuthMode::NoAuth(NoneAuthCommand {}),
        root_folder: "/tmp".to_string(),
        port: 80,
        host: "0.0.0.0".to_string(),
        pool_size: 4,
    };
    assert_eq!(process_basic_auth(&uri, &run_cmd), false);
}

#[test]
fn when_process_basic_auth_should_process() {
    let uri = "/mdm-reports".to_string();
    let run_cmd = RunCommand {
        auth_mode: AuthMode::Basic(BasicAuthCommand {
            protected_folders: uri.clone(),
            username: "root".to_string(),
            password: "test".to_string(),
        }),
        root_folder: "/tmp".to_string(),
        port: 80,
        host: "0.0.0.0".to_string(),
        pool_size: 4,
    };
    assert_eq!(process_basic_auth(&uri, &run_cmd), true);
}

fn basic_auth_factory(protected_folders: &String) -> AuthMode {
    AuthMode::Basic(BasicAuthCommand {
        protected_folders: protected_folders.clone(),
        username: "root".to_string(),
        password: "test".to_string(),
    })
}

#[test]
fn when_process_basic_auth_multiple_folders_should_process() {
    let uri = "/mdm-reports".to_string();
    let protected_folders = "/api,/test,/mdm-reports".to_string();
    let run_cmd = RunCommand {
        auth_mode: basic_auth_factory(&protected_folders),
        root_folder: "/tmp".to_string(),
        port: 80,
        host: "0.0.0.0".to_string(),
        pool_size: 4,
    };
    assert_eq!(process_basic_auth(&uri, &run_cmd), true);
}
