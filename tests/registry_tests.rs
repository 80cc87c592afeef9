use app_launcher::launcher::launched_message;
use app_launcher::registry::{after_log_append, log_record, AppRegistry, LogAppend};

fn s(v: &str) -> String {
    v.to_string()
}

#[test]
fn add_app_reports_success() {
    let mut reg = AppRegistry::new();
    let r = reg.add_app(s("Editor"), s("C:/editor.exe"));
    assert_eq!(r, Ok(s("App 'Editor' added successfully!")));
    assert_eq!(reg.get_apps(), vec![(s("Editor"), s("C:/editor.exe"))]);
}

#[test]
fn duplicate_name_is_refused_and_entry_kept() {
    let mut reg = AppRegistry::new();
    reg.add_app(s("Editor"), s("C:/editor.exe")).unwrap();
    let r = reg.add_app(s("Editor"), s("D:/other.exe"));
    assert_eq!(r, Err(s("App 'Editor' already exists!")));
    let r = reg.add_app_from_drop(s("Editor"), s("E:/third.exe"));
    assert_eq!(r, Err(s("App 'Editor' already exists!")));
    assert_eq!(reg.get_apps(), vec![(s("Editor"), s("C:/editor.exe"))]);
    assert_eq!(reg.len(), 1);
}

#[test]
fn add_from_drop_reports_icon() {
    let mut reg = AppRegistry::new();
    let r = reg.add_app_from_drop(s("Game"), s("C:/game.exe"));
    assert_eq!(r, Ok(s("App 'Game' added successfully with icon!")));
    assert!(reg.contains_name(&s("Game")));
    assert!(!reg.contains_name(&s("game")));
}

#[test]
fn distinct_adds_are_all_listed_once() {
    let mut reg = AppRegistry::new();
    let names = ["a", "b", "c", "d", "e"];
    for (i, n) in names.iter().enumerate() {
        let r = reg.add_app(s(n), format!("C:/{}.exe", i));
        assert!(r.is_ok());
    }
    let listed = reg.get_apps();
    assert_eq!(listed.len(), names.len());
    for (i, n) in names.iter().enumerate() {
        let hits = listed.iter().filter(|p| p.0 == *n && p.1 == format!("C:/{}.exe", i)).count();
        assert_eq!(hits, 1);
    }
}

#[test]
fn empty_registry_lists_nothing() {
    let reg = AppRegistry::new();
    assert!(reg.get_apps().is_empty());
    assert_eq!(reg.len(), 0);
}

#[test]
fn interleaved_distinct_adds_lose_nothing() {
    // four callers take turns on the shared, locked registry
    let reg = std::sync::Mutex::new(AppRegistry::new());
    reg.lock().unwrap().add_app(s("existing"), s("C:/existing.exe")).unwrap();
    for k in 0..25 {
        for t in 0..4 {
            let name = format!("app{}_{}", t, k);
            let r = reg.lock().unwrap().add_app(name, format!("C:/{}/{}.exe", t, k));
            assert!(r.is_ok());
        }
    }
    let reg = reg.lock().unwrap();
    assert_eq!(reg.len(), 101);
    assert!(reg.contains_name(&s("existing")));
    for t in 0..4 {
        for k in 0..25 {
            assert!(reg.contains_name(&format!("app{}_{}", t, k)));
        }
    }
}

#[test]
fn log_record_is_name_colon_path_line() {
    assert_eq!(log_record(&s("Editor"), &s("C:/editor.exe")), s("Editor:C:/editor.exe\n"));
    assert_eq!(log_record(&s(""), &s("")), s(":\n"));
}

#[test]
fn log_write_failure_replaces_message() {
    let msg = s("App 'x' added successfully!");
    assert_eq!(after_log_append(msg.clone(), LogAppend::Written), Ok(msg.clone()));
    assert_eq!(after_log_append(msg.clone(), LogAppend::Failed(s("disk full"))), Err(s("disk full")));
    assert_eq!(after_log_append(msg, LogAppend::Failed(s("access denied"))), Err(s("access denied")));
}

#[test]
fn launch_message_names_path() {
    assert_eq!(launched_message(&s("C:/editor.exe")), s("Launched: C:/editor.exe"));
}
