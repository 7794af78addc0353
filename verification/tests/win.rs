use sodkat::win::{executable_name, get_foreground_app};

#[test]
fn executable_name_is_the_lowercase_file_name() {
    assert_eq!(executable_name("C:\\Program Files\\Editor\\Editor.EXE"), "editor.exe");
    assert_eq!(executable_name("editor.exe"), "editor.exe");
    assert_eq!(executable_name("\\Notepad.exe"), "notepad.exe");
    assert_eq!(executable_name("C:\\Tools\\"), "");
    assert_eq!(executable_name(""), "");
    assert_eq!(executable_name("C:/unix/style.EXE"), "c:/unix/style.exe");
}

#[test]
fn foreground_app_is_absent_without_a_path() {
    assert_eq!(get_foreground_app(None), None);
    assert_eq!(
        get_foreground_app(Some("C:\\Windows\\System32\\CMD.exe")),
        Some("cmd.exe".to_string())
    );
}
